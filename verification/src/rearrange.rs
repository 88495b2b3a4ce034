//! Sequences that hold the same items in another order.

use vstd::multiset::group_multiset_axioms;
use vstd::prelude::*;
use vstd::seq_lib::{to_multiset_build, to_multiset_contains, to_multiset_remove};

verus! {

/// Whether `to` holds the items of `from` in the order that `order` gives:
/// the item at place `i` of `to` is the item at place `order[i]` of `from`,
/// and no place of `from` is used twice.
pub open spec fn rearranges<A>(from: Seq<A>, to: Seq<A>, order: Seq<int>) -> bool {
    &&& to.len() == from.len()
    &&& order.len() == from.len()
    &&& forall|i: int|
        0 <= i < order.len() ==> 0 <= #[trigger] order[i] < from.len() && to[i] == from[order[i]]
    &&& forall|i: int, j: int|
        0 <= i < j < order.len() ==> #[trigger] order[i] != #[trigger] order[j]
}

/// A sequence and a rearrangement of it hold each item the same number of
/// times.
pub proof fn lemma_rearranged_multiset<A>(from: Seq<A>, to: Seq<A>, order: Seq<int>)
    requires
        rearranges(from, to, order),
    ensures
        to.to_multiset() == from.to_multiset(),
    decreases from.len(),
{
    broadcast use group_multiset_axioms;

    if from.len() == 0 {
        assert(to =~= from);
    } else {
        let last = to.len() - 1;
        let taken = order[last];
        let item = to[last];
        let to_rest = to.drop_last();
        let from_rest = from.remove(taken);
        let order_rest = Seq::new(
            last as nat,
            |i: int|
                if order[i] < taken {
                    order[i]
                } else {
                    order[i] - 1
                },
        );
        // Without the last item of `to` and the item of `from` that it came
        // from, what is left of the one still rearranges what is left of the
        // other: the places behind the gap move down by one.
        assert(rearranges(from_rest, to_rest, order_rest));
        lemma_rearranged_multiset(from_rest, to_rest, order_rest);
        assert(to =~= to_rest.push(item));
        to_multiset_build(to_rest, item);
        to_multiset_remove(from, taken);
        to_multiset_contains(from, item);
        assert(from.contains(item));
    }
}

} // verus!
