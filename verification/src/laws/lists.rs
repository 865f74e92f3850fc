//! Parts of lists.
use vstd::prelude::*;

verus! {

/// Whether a list is some of the items of another, in their order.
pub open spec fn some_of<A>(part: Seq<A>, all: Seq<A>) -> bool
    decreases all.len(),
{
    if part.len() == 0 {
        true
    } else if all.len() == 0 {
        false
    } else {
        part.last() == all.last() && some_of(part.drop_last(), all.drop_last()) || some_of(
            part,
            all.drop_last(),
        )
    }
}

/// What is filtered out of a list is some of its items in their order, and all
/// that the filter takes.
pub proof fn filtered_items<A>(all: Seq<A>, pred: spec_fn(A) -> bool)
    ensures
        some_of(all.filter(pred), all),
        forall|x: A| #[trigger] all.filter(pred).contains(x) == (all.contains(x) && pred(x)),
    decreases all.len(),
{
    reveal(Seq::filter);
    if all.len() > 0 {
        let shorter = all.drop_last();
        let before = shorter.filter(pred);
        let part = all.filter(pred);
        filtered_items(shorter, pred);
        if pred(all.last()) {
            assert(part.drop_last() =~= before);
        }
        assert forall|x: A| #[trigger] part.contains(x) == (all.contains(x) && pred(x)) by {
            assert(before.contains(x) == (shorter.contains(x) && pred(x)));
            if shorter.contains(x) {
                let i = shorter.index_of(x);
                assert(all[i] == x);
            }
            if all.contains(x) && x != all.last() {
                let i = all.index_of(x);
                assert(shorter[i] == x);
            }
            if before.contains(x) {
                let i = before.index_of(x);
                assert(part[i] == x);
            }
            if part.contains(x) {
                let i = part.index_of(x);
                if i < before.len() {
                    assert(before[i] == x);
                } else {
                    assert(all[all.len() - 1] == x);
                }
            }
            if x == all.last() {
                assert(all[all.len() - 1] == x);
                if pred(x) {
                    assert(part[part.len() - 1] == x);
                }
            }
        }
    }
}

/// Filters that take the same items give the same list.
pub proof fn equal_filters<A>(all: Seq<A>, p: spec_fn(A) -> bool, q: spec_fn(A) -> bool)
    requires
        forall|x: A| #[trigger] p(x) == q(x),
    ensures
        all.filter(p) == all.filter(q),
    decreases all.len(),
{
    reveal(Seq::filter);
    if all.len() > 0 {
        equal_filters(all.drop_last(), p, q);
    }
}

} // verus!
