//! What the surrounding chain hands to an operation and takes back from it.

use vstd::prelude::*;
use vstd::string::*;
use crate::payment::Coin;

verus! {

/// The block in which an operation runs.
#[derive(Clone, Copy, Debug, PartialEq, Eq)]
pub struct Env {
    /// The block time, in seconds.
    pub time: u64,
}

/// Funds handed to an operation: native coins, or tokens that the token
/// contract at `address` has moved.
#[derive(Clone, Debug, PartialEq, Eq)]
pub enum Balance {
    Native(Vec<Coin>),
    Cw20 { address: String, amount: u128 },
}

/// A transfer that the chain is asked to carry out.
#[derive(Clone, Debug, PartialEq, Eq)]
pub enum Msg {
    /// Move `amount` units of the token kept at `token` to `recipient`.
    Transfer { token: String, recipient: String, amount: u128 },
    /// Pay `amount` units of the native asset `denom` to `to_address`.
    Send { to_address: String, denom: String, amount: u128 },
}

/// What a successful operation asks of the chain.
#[derive(Clone, Debug, PartialEq, Eq)]
pub struct Response {
    pub messages: Vec<Msg>,
}

/// `msg` moves `amount` of `token` to `recipient`.
pub open spec fn is_transfer(msg: Msg, token: Seq<char>, recipient: Seq<char>, amount: int) -> bool {
    msg matches Msg::Transfer { token: t, recipient: r, amount: a } && t@ == token && r@
        == recipient && a == amount
}

/// `msg` pays `amount` of the native asset `denom` to `to_address`.
pub open spec fn is_send(msg: Msg, to_address: Seq<char>, denom: Seq<char>, amount: int) -> bool {
    msg matches Msg::Send { to_address: t, denom: d, amount: a } && t@ == to_address && d@ == denom
        && a == amount
}

impl Response {
    /// A response that asks for nothing.
    pub fn new() -> (res: Response)
        ensures
            res.messages@.len() == 0,
    {
        Response { messages: Vec::new() }
    }

    /// A response that asks for one transfer of a token.
    pub fn transfer(token: &String, recipient: &String, amount: u128) -> (res: Response)
        ensures
            res.messages@.len() == 1,
            is_transfer(res.messages@[0], token@, recipient@, amount as int),
    {
        let mut messages = Vec::new();
        messages.push(Msg::Transfer { token: token.clone(), recipient: recipient.clone(), amount });
        Response { messages }
    }
}

} // verus!
