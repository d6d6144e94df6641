//! The sliding demand window: which recorded sale timestamps still count
//! toward short-term demand at a given instant.

use vstd::prelude::*;

verus! {

/// Width of the demand window, in seconds.
pub const DEMAND_WINDOW_SECS: u64 = 30;

/// A sale at time `t` still counts at time `now` when no more than
/// `DEMAND_WINDOW_SECS` whole seconds have passed (inclusive). A
/// timestamp that lies ahead of `now` has age zero and counts too.
pub open spec fn is_fresh_at(t: u64, now: u64) -> bool {
    now <= t + DEMAND_WINDOW_SECS
}

/// The subsequence of `w` that is still fresh at `now`, in stored order.
pub open spec fn fresh_only(w: Seq<u64>, now: u64) -> Seq<u64>
    decreases w.len(),
{
    if w.len() == 0 {
        Seq::empty()
    } else if is_fresh_at(w.last(), now) {
        fresh_only(w.drop_last(), now).push(w.last())
    } else {
        fresh_only(w.drop_last(), now)
    }
}

/// How many entries of `w` are still fresh at `now`.
pub open spec fn fresh_count(w: Seq<u64>, now: u64) -> nat {
    fresh_only(w, now).len()
}

/// Decides freshness without overflowing near the ends of the clock.
pub fn is_fresh(t: u64, now: u64) -> (b: bool)
    ensures
        b == is_fresh_at(t, now),
{
    if now <= DEMAND_WINDOW_SECS {
        true
    } else {
        t >= now - DEMAND_WINDOW_SECS
    }
}

/// Appending one timestamp extends the fresh subsequence by that
/// timestamp exactly when it is fresh.
pub proof fn lemma_fresh_only_push(w: Seq<u64>, t: u64, now: u64)
    ensures
        fresh_only(w.push(t), now) == if is_fresh_at(t, now) {
            fresh_only(w, now).push(t)
        } else {
            fresh_only(w, now)
        },
{
    assert(w.push(t).last() == t);
    assert(w.push(t).drop_last() =~= w);
}

/// A window whose entries have all aged out counts for nothing.
pub proof fn lemma_aged_out_window_counts_zero(w: Seq<u64>, now: u64)
    requires
        forall|i: int| 0 <= i < w.len() ==> !is_fresh_at(w[i], now),
    ensures
        fresh_count(w, now) == 0,
    decreases w.len(),
{
    if w.len() > 0 {
        assert(!is_fresh_at(w.last(), now));
        lemma_aged_out_window_counts_zero(w.drop_last(), now);
    }
}

} // verus!
