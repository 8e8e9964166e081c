//! Funds attached to a call, and the fee that an operation requires.

use vstd::prelude::*;
use vstd::string::*;

verus! {

/// An amount of a native asset.
#[derive(Clone, Debug, PartialEq, Eq)]
pub struct Coin {
    pub denom: String,
    pub amount: u128,
}

/// Who called, and with which funds attached.
#[derive(Clone, Debug, PartialEq, Eq)]
pub struct MessageInfo {
    pub sender: String,
    pub funds: Vec<Coin>,
}

/// Why the attached funds are not the payment asked for.
#[derive(Clone, Debug, PartialEq, Eq)]
pub enum PaymentError {
    MissingDenom(String),
    ExtraDenom(String),
    MultipleDenoms {},
    NoFunds {},
    NonPayable {},
}

/// The fee of one operation: `fee` units of `denom`.
#[derive(Clone, Debug, PartialEq, Eq)]
pub struct FeeConfig {
    pub fee: u128,
    pub operation: String,
    pub denom: String,
}

/// How a payment of exactly one coin of a given asset turns out.
pub enum Payment {
    /// One coin of the asset, with this non-zero amount.
    Paid(u128),
    /// Nothing attached, or a single coin of amount zero.
    NoFunds,
    /// More than one coin attached.
    MultipleDenoms,
    /// A single coin of another asset.
    MissingDenom,
}

/// What the attached `funds` are as a payment in `denom`.
pub open spec fn payment(funds: Seq<Coin>, denom: Seq<char>) -> Payment {
    if funds.len() == 0 {
        Payment::NoFunds
    } else if funds.len() > 1 {
        Payment::MultipleDenoms
    } else if funds[0].amount == 0 {
        Payment::NoFunds
    } else if funds[0].denom@ != denom {
        Payment::MissingDenom
    } else {
        Payment::Paid(funds[0].amount)
    }
}

/// Whether `error` is the error that stands for the failed payment `outcome`
/// asked for in `denom`.
pub open spec fn reports(error: PaymentError, outcome: Payment, denom: Seq<char>) -> bool {
    match outcome {
        Payment::Paid(_) => false,
        Payment::NoFunds => error is NoFunds,
        Payment::MultipleDenoms => error is MultipleDenoms,
        Payment::MissingDenom => error matches PaymentError::MissingDenom(named) && named@ == denom,
    }
}

/// Calls `cw0::must_pay` on a message that carries `funds`. The outside
/// function accepts exactly one coin with a non-zero amount in `denom` and
/// returns that amount; it reports no funds for an empty list or an amount of
/// zero, several denominations for more than one coin, and the missing
/// denomination, by name, for a single coin of another asset.
#[verifier::external_body]
fn must_pay(funds: &Vec<Coin>, denom: &str) -> (res: Result<u128, PaymentError>)
    ensures
        match res {
            Ok(paid) => payment(funds@, denom@) == Payment::Paid(paid),
            Err(error) => reports(error, payment(funds@, denom@), denom@),
        },
{
    let funds = funds.iter().map(|c| cosmwasm_std::coin(c.amount, &c.denom)).collect();
    let info = cosmwasm_std::MessageInfo { sender: cosmwasm_std::Addr::unchecked(""), funds };
    match cw0::must_pay(&info, denom) {
        Ok(paid) => Ok(paid.u128()),
        Err(cw0::PaymentError::MissingDenom(named)) => Err(PaymentError::MissingDenom(named)),
        Err(cw0::PaymentError::ExtraDenom(named)) => Err(PaymentError::ExtraDenom(named)),
        Err(cw0::PaymentError::MultipleDenoms {}) => Err(PaymentError::MultipleDenoms {}),
        Err(cw0::PaymentError::NoFunds {}) => Err(PaymentError::NoFunds {}),
        Err(cw0::PaymentError::NonPayable {}) => Err(PaymentError::NonPayable {}),
    }
}

/// The position of the entry that sets the fee of `operation`: the last one
/// that names it, or -1 where none does.
pub open spec fn fee_entry(fees: Seq<FeeConfig>, operation: Seq<char>) -> int
    decreases fees.len(),
{
    if fees.len() == 0 {
        -1
    } else if fees.last().operation@ == operation {
        fees.len() - 1
    } else {
        fee_entry(fees.drop_last(), operation)
    }
}

/// The fee entry of an operation lies within the table and names the
/// operation.
pub proof fn lemma_fee_entry_bounds(fees: Seq<FeeConfig>, operation: Seq<char>)
    ensures
        -1 <= fee_entry(fees, operation) < fees.len(),
        fee_entry(fees, operation) >= 0 ==> fees[fee_entry(fees, operation)].operation@
            == operation,
    decreases fees.len(),
{
    if fees.len() > 0 && fees.last().operation@ != operation {
        lemma_fee_entry_bounds(fees.drop_last(), operation);
    }
}

/// The amount that `operation` costs; zero where no fee is configured.
pub open spec fn fee_amount(fees: Seq<FeeConfig>, operation: Seq<char>) -> u128 {
    if fee_entry(fees, operation) < 0 {
        0
    } else {
        fees[fee_entry(fees, operation)].fee
    }
}

/// The asset in which `operation` is paid for.
pub open spec fn fee_denom(fees: Seq<FeeConfig>, operation: Seq<char>) -> Seq<char> {
    if fee_entry(fees, operation) < 0 {
        Seq::empty()
    } else {
        fees[fee_entry(fees, operation)].denom@
    }
}

/// The caller has paid for `operation`: it is free, or exactly its fee is
/// attached, as a single coin of the configured asset.
pub open spec fn fee_paid(funds: Seq<Coin>, fees: Seq<FeeConfig>, operation: Seq<char>) -> bool {
    fee_amount(fees, operation) == 0 || payment(funds, fee_denom(fees, operation)) == Payment::Paid(
        fee_amount(fees, operation),
    )
}

/// Why the fee of an operation counts as unpaid.
#[derive(Clone, Debug, PartialEq, Eq)]
pub enum FeeError {
    /// The attached funds are no payment in the fee's asset.
    Payment(PaymentError),
    /// The asset is right and the amount is not the fee.
    InvalidFeeAmount,
}

/// Whether `error` is the reason for which `funds` do not pay for
/// `operation`.
pub open spec fn fee_refused(
    error: FeeError,
    funds: Seq<Coin>,
    fees: Seq<FeeConfig>,
    operation: Seq<char>,
) -> bool {
    &&& !fee_paid(funds, fees, operation)
    &&& match payment(funds, fee_denom(fees, operation)) {
        Payment::Paid(_) => error is InvalidFeeAmount,
        outcome => error matches FeeError::Payment(inner) && reports(
            inner,
            outcome,
            fee_denom(fees, operation),
        ),
    }
}

/// The fee configured for `operation` and its asset; a later entry for the
/// same operation overrides an earlier one.
pub fn required_fee(fees: &Vec<FeeConfig>, operation: &String) -> (res: (u128, String))
    ensures
        res.0 == fee_amount(fees@, operation@),
        res.1@ == fee_denom(fees@, operation@),
{
    let mut denom = String::new();
    let mut amount: u128 = 0;
    let mut i: usize = 0;
    while i < fees.len()
        invariant
            i <= fees@.len(),
            amount == fee_amount(fees@.take(i as int), operation@),
            denom@ == fee_denom(fees@.take(i as int), operation@),
        decreases fees@.len() - i,
    {
        proof {
            let next = fees@.take(i + 1);
            assert(next.drop_last() =~= fees@.take(i as int));
            assert(next.last() == fees@[i as int]);
            lemma_fee_entry_bounds(fees@.take(i as int), operation@);
        }
        if fees[i].operation == *operation {
            amount = fees[i].fee;
            denom = fees[i].denom.clone();
        }
        i += 1;
    }
    proof {
        assert(fees@.take(i as int) =~= fees@);
    }
    (amount, denom)
}

/// Checks that the caller has paid for `operation`: nothing is asked where
/// its fee is zero or not configured, and otherwise exactly the fee must be
/// attached as the only coin.
pub fn check_fee(info: &MessageInfo, fees: &Vec<FeeConfig>, operation: &String) -> (res: Result<
    (),
    FeeError,
>)
    ensures
        res is Ok <==> fee_paid(info.funds@, fees@, operation@),
        res matches Err(error) ==> fee_refused(error, info.funds@, fees@, operation@),
{
    let (amount, denom) = required_fee(fees, operation);
    if amount == 0 {
        return Ok(());
    }
    match must_pay(&info.funds, denom.as_str()) {
        Ok(paid) => {
            if paid != amount {
                Err(FeeError::InvalidFeeAmount)
            } else {
                Ok(())
            }
        },
        Err(error) => Err(FeeError::Payment(error)),
    }
}

} // verus!
