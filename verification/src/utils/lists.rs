//! Lists without their first occurrence of a value.

use vstd::prelude::*;

verus! {

/// The list after the first item that is `item` is taken out.
pub open spec fn spec_without_first<T>(items: Seq<T>, item: T) -> Seq<T>
    decreases items.len(),
{
    if items.len() == 0 {
        items
    } else if items[0] == item {
        items.drop_first()
    } else {
        seq![items[0]] + spec_without_first(items.drop_first(), item)
    }
}

/// Where no item before `i` is `item` and the one at `i` is, taking out the
/// first `item` takes out the one at `i`; where `i` is the length, nothing
/// is taken out.
pub proof fn lemma_without_first_at<T>(items: Seq<T>, item: T, i: int)
    requires
        0 <= i <= items.len(),
        forall|j: int| 0 <= j < i ==> #[trigger] items[j] != item,
        i < items.len() ==> items[i] == item,
    ensures
        spec_without_first(items, item) == (if i < items.len() {
            items.remove(i)
        } else {
            items
        }),
    decreases items.len(),
{
    if items.len() == 0 {
    } else if i == 0 {
        assert(items.remove(0) =~= items.drop_first());
    } else {
        let rest = items.drop_first();
        assert forall|j: int| 0 <= j < i - 1 implies #[trigger] rest[j] != item by {
            assert(rest[j] == items[j + 1]);
        }
        lemma_without_first_at(rest, item, i - 1);
        if i < items.len() {
            assert(seq![items[0]] + rest.remove(i - 1) =~= items.remove(i));
        } else {
            assert(seq![items[0]] + rest =~= items);
        }
    }
}

} // verus!
