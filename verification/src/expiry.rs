//! Which contracts have expired and are swept from the board.

use vstd::prelude::*;

verus! {

/// A contract that expires at `expires_at` has expired at time `now`.
/// Contracts without a known expiry (zero) never expire.
pub open spec fn is_expired(expires_at: i64, now: i64) -> bool {
    expires_at > 0 && now >= expires_at
}

/// The positions, ascending, of the expired contracts among those with the
/// given expiry times.
pub open spec fn expired_positions(expiries: Seq<i64>, now: i64) -> Seq<usize>
    decreases expiries.len(),
{
    if expiries.len() == 0 {
        Seq::empty()
    } else {
        let init = expired_positions(expiries.drop_last(), now);
        if is_expired(expiries.last(), now) {
            init.push((expiries.len() - 1) as usize)
        } else {
            init
        }
    }
}

/// Whether a contract that expires at `expires_at` has expired at `now`.
pub fn has_expired(expires_at: i64, now: i64) -> (r: bool)
    ensures
        r == is_expired(expires_at, now),
{
    expires_at > 0 && now >= expires_at
}

/// The positions of the expired contracts among those with these expiry
/// times: the contracts that the sweep removes.
pub fn expired_contracts(expiries: &[i64], now: i64) -> (r: Vec<usize>)
    ensures
        r@ == expired_positions(expiries@, now),
{
    let mut r: Vec<usize> = Vec::new();
    let mut i: usize = 0;
    while i < expiries.len()
        invariant
            i <= expiries@.len(),
            r@ == expired_positions(expiries@.subrange(0, i as int), now),
        decreases expiries.len() - i,
    {
        assert(expiries@.subrange(0, i + 1).drop_last() =~= expiries@.subrange(0, i as int));
        if has_expired(expiries[i], now) {
            r.push(i);
        }
        i = i + 1;
    }
    assert(expiries@.subrange(0, i as int) =~= expiries@);
    r
}

} // verus!
