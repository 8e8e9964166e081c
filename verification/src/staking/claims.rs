//! The queue of principal on its way out.
//!
//! A claim is pending until its time of maturity and matured from then on.
//! The delayed path releases the matured claims and keeps the others; the
//! instant path releases all of them.

use vstd::prelude::*;
use crate::staking::state::Claim;

verus! {

/// The sum of all claims.
pub open spec fn total(claims: Seq<Claim>) -> int
    decreases claims.len(),
{
    if claims.len() == 0 {
        0
    } else {
        total(claims.drop_last()) + claims.last().amount
    }
}

/// The sum of the claims that have matured at `now`.
pub open spec fn matured_total(claims: Seq<Claim>, now: u64) -> int
    decreases claims.len(),
{
    if claims.len() == 0 {
        0
    } else {
        matured_total(claims.drop_last(), now) + if claims.last().release_at <= now {
            claims.last().amount as int
        } else {
            0
        }
    }
}

/// The claims that are still pending at `now`, in their order.
pub open spec fn waiting(claims: Seq<Claim>, now: u64) -> Seq<Claim>
    decreases claims.len(),
{
    if claims.len() == 0 {
        Seq::empty()
    } else if claims.last().release_at > now {
        waiting(claims.drop_last(), now).push(claims.last())
    } else {
        waiting(claims.drop_last(), now)
    }
}

/// The sums over a prefix are no larger than the sums over the whole queue.
pub proof fn lemma_prefix_totals(claims: Seq<Claim>, now: u64, k: int)
    requires
        0 <= k <= claims.len(),
    ensures
        0 <= total(claims.take(k)) <= total(claims),
        0 <= matured_total(claims.take(k), now) <= matured_total(claims, now),
        matured_total(claims, now) <= total(claims),
    decreases claims.len(),
{
    if claims.len() == 0 {
        assert(claims.take(k) =~= claims);
    } else if k == claims.len() {
        assert(claims.take(k) =~= claims);
        lemma_prefix_totals(claims.drop_last(), now, k - 1);
    } else {
        lemma_prefix_totals(claims.drop_last(), now, k);
        assert(claims.drop_last().take(k) =~= claims.take(k));
    }
}

/// What the delayed path leaves behind: no claim that is kept has matured,
/// so that releasing twice at one time releases nothing the second time;
/// and what is released and what is kept add up to what was queued.
pub proof fn lemma_waiting_is_pending(claims: Seq<Claim>, now: u64)
    ensures
        matured_total(waiting(claims, now), now) == 0,
        waiting(waiting(claims, now), now) == waiting(claims, now),
        total(waiting(claims, now)) + matured_total(claims, now) == total(claims),
        forall|i: int|
            0 <= i < waiting(claims, now).len() ==> (#[trigger] waiting(claims, now)[i]).release_at
                > now,
    decreases claims.len(),
{
    if claims.len() > 0 {
        let rest = claims.drop_last();
        lemma_waiting_is_pending(rest, now);
        if claims.last().release_at > now {
            let kept = waiting(rest, now).push(claims.last());
            assert(kept.drop_last() =~= waiting(rest, now));
        }
    }
}

/// The whole second from which a claim can be released that matures
/// `subsec_nanos` nanoseconds after `seconds`: that second where it matures
/// on it, and the next one where it matures within it, so that no claim is
/// released before it has matured. `None` where there is no such second.
pub fn release_second(seconds: u64, subsec_nanos: u64) -> (res: Option<u64>)
    ensures
        res == if subsec_nanos == 0 {
            Some(seconds)
        } else if seconds < u64::MAX {
            Some((seconds + 1) as u64)
        } else {
            None
        },
{
    if subsec_nanos == 0 {
        Some(seconds)
    } else {
        seconds.checked_add(1)
    }
}

/// A copy of the queue.
pub fn copy_claims(claims: &Vec<Claim>) -> (res: Vec<Claim>)
    ensures
        res@ == claims@,
{
    let mut res: Vec<Claim> = Vec::new();
    let mut i: usize = 0;
    while i < claims.len()
        invariant
            i <= claims@.len(),
            res@ == claims@.take(i as int),
        decreases claims@.len() - i,
    {
        res.push(claims[i]);
        proof {
            assert(res@ =~= claims@.take(i + 1));
        }
        i += 1;
    }
    proof {
        assert(claims@.take(i as int) =~= claims@);
    }
    res
}

/// The queue with one more claim at its end.
pub fn create_claim(claims: &Vec<Claim>, amount: u128, release_at: u64) -> (res: Vec<Claim>)
    ensures
        res@ == claims@.push(Claim { amount, release_at }),
{
    let mut res = copy_claims(claims);
    res.push(Claim { amount, release_at });
    res
}

/// The delayed path: the sum of the claims that have matured at `now`, and
/// the queue without them. `None` where the sum does not fit in 128 bits.
pub fn claim_tokens(claims: &Vec<Claim>, now: u64) -> (res: Option<(u128, Vec<Claim>)>)
    ensures
        match res {
            Some((released, kept)) => released == matured_total(claims@, now) && kept@ == waiting(
                claims@,
                now,
            ),
            None => matured_total(claims@, now) > u128::MAX,
        },
{
    let mut kept: Vec<Claim> = Vec::new();
    let mut released: u128 = 0;
    let mut i: usize = 0;
    while i < claims.len()
        invariant
            i <= claims@.len(),
            released == matured_total(claims@.take(i as int), now),
            kept@ == waiting(claims@.take(i as int), now),
        decreases claims@.len() - i,
    {
        let claim = claims[i];
        proof {
            let next = claims@.take(i + 1);
            assert(next.drop_last() =~= claims@.take(i as int));
            assert(next.last() == claims@[i as int]);
            lemma_prefix_totals(claims@, now, i + 1);
        }
        if claim.release_at <= now {
            match released.checked_add(claim.amount) {
                Some(sum) => {
                    released = sum;
                },
                None => {
                    return None;
                },
            }
        } else {
            kept.push(claim);
        }
        i += 1;
    }
    proof {
        assert(claims@.take(i as int) =~= claims@);
    }
    Some((released, kept))
}

/// The instant path: the sum of all claims, matured or not. `None` where the
/// sum does not fit in 128 bits.
pub fn claim_all(claims: &Vec<Claim>) -> (res: Option<u128>)
    ensures
        match res {
            Some(released) => released == total(claims@),
            None => total(claims@) > u128::MAX,
        },
{
    let mut released: u128 = 0;
    let mut i: usize = 0;
    while i < claims.len()
        invariant
            i <= claims@.len(),
            released == total(claims@.take(i as int)),
        decreases claims@.len() - i,
    {
        proof {
            let next = claims@.take(i + 1);
            assert(next.drop_last() =~= claims@.take(i as int));
            assert(next.last() == claims@[i as int]);
            lemma_prefix_totals(claims@, 0, i + 1);
        }
        match released.checked_add(claims[i].amount) {
            Some(sum) => {
                released = sum;
            },
            None => {
                return None;
            },
        }
        i += 1;
    }
    proof {
        assert(claims@.take(i as int) =~= claims@);
    }
    Some(released)
}

} // verus!
