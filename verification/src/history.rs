//! Bounded first-in-first-out histories (logs, sparkline samples).

use std::collections::VecDeque;
use vstd::prelude::*;

verus! {

/// The history after appending `x` to `s` when at most `cap` entries are kept:
/// a full, non-empty history first drops its oldest entry.
pub open spec fn bounded_push<T>(s: Seq<T>, x: T, cap: nat) -> Seq<T> {
    if s.len() >= cap && s.len() > 0 {
        s.drop_first().push(x)
    } else {
        s.push(x)
    }
}

/// Appends `x`, first dropping the oldest entry when `cap` entries are already held.
pub fn push_bounded<T>(q: &mut VecDeque<T>, x: T, cap: usize)
    ensures
        final(q)@ == bounded_push(old(q)@, x, cap as nat),
{
    broadcast use vstd::std_specs::vecdeque::group_vec_dequeue_axioms;
    let ghost s = q@;
    if q.len() >= cap {
        let _ = q.pop_front();
        assert(s.len() > 0 ==> q@ =~= s.drop_first());
    }
    q.push_back(x);
}

/// A bounded history never grows past its capacity, ends with the newest
/// entry, and otherwise keeps the most recent entries in their order.
pub proof fn lemma_bounded_push<T>(s: Seq<T>, x: T, cap: nat)
    requires
        1 <= cap,
        s.len() <= cap,
    ensures
        bounded_push(s, x, cap).len() <= cap,
        bounded_push(s, x, cap).last() == x,
        bounded_push(s, x, cap).drop_last() == s.subrange(
            s.len() - bounded_push(s, x, cap).drop_last().len(),
            s.len() as int,
        ),
{
    let r = bounded_push(s, x, cap);
    if s.len() >= cap && s.len() > 0 {
        assert(r.drop_last() =~= s.subrange(1, s.len() as int));
    } else {
        assert(r.drop_last() =~= s.subrange(0, s.len() as int));
    }
}

} // verus!
