//! Facts about filtered sequences.

use vstd::prelude::*;
use vstd::seq_lib::to_multiset_build;

verus! {

/// Filtering a sequence with one more element.
pub proof fn lemma_filter_push<A>(s: Seq<A>, x: A, keep: spec_fn(A) -> bool)
    ensures
        s.push(x).filter(keep) == if keep(x) {
            s.filter(keep).push(x)
        } else {
            s.filter(keep)
        },
{
    reveal(Seq::filter);
    assert(s.push(x).drop_last() == s);
}

/// A filter keeps no element that fails its test.
pub proof fn lemma_filter_drops<A>(s: Seq<A>, keep: spec_fn(A) -> bool, x: A)
    requires
        !keep(x),
    ensures
        !s.filter(keep).contains(x),
{
    if s.filter(keep).contains(x) {
        let at = choose|at: int| 0 <= at < s.filter(keep).len() && s.filter(keep)[at] == x;
        s.lemma_filter_pred(keep, at);
    }
}

/// A test and its opposite part a sequence: each element goes to one side,
/// as often as it occurs.
pub proof fn lemma_filter_splits<A>(s: Seq<A>, keep: spec_fn(A) -> bool, rest: spec_fn(A) -> bool)
    requires
        forall|x: A| #[trigger] rest(x) == !keep(x),
    ensures
        s.filter(keep).to_multiset().add(s.filter(rest).to_multiset()) == s.to_multiset(),
    decreases s.len(),
{
    if s.len() == 0 {
        reveal(Seq::filter);
        assert(s.filter(keep) =~= s);
        assert(s.filter(rest) =~= s);
        assert(s.to_multiset().add(s.to_multiset()) =~= s.to_multiset()) by {
            s.to_multiset_ensures();
        }
    } else {
        let shorter = s.drop_last();
        let last = s.last();
        lemma_filter_splits(shorter, keep, rest);
        assert(s == shorter.push(last));
        lemma_filter_push(shorter, last, keep);
        lemma_filter_push(shorter, last, rest);
        to_multiset_build(shorter, last);
        to_multiset_build(shorter.filter(keep), last);
        to_multiset_build(shorter.filter(rest), last);
        assert(rest(last) == !keep(last));
        assert(s.filter(keep).to_multiset().add(s.filter(rest).to_multiset())
            =~= s.to_multiset());
    }
}

} // verus!
