//! Sorting that keeps items that are placed alike in the order they had.
use vstd::prelude::*;

verus! {

/// Items that are sorted by a number.
pub trait Placed<O>: DeepView {
    /// The number by which an item is placed, smallest first.
    spec fn place(value: <Self as DeepView>::V, order: O) -> int;

    /// Whether this item is placed strictly behind `other`.
    fn is_behind(&self, other: &Self, order: &O) -> (r: bool)
        ensures
            r == (Self::place(self.deep_view(), *order) > Self::place(other.deep_view(), *order)),
    ;
}

/// `sorted` with `item` put in its place, behind those that are placed alike.
pub open spec fn inserted<O, T: Placed<O>>(
    sorted: Seq<<T as DeepView>::V>,
    item: <T as DeepView>::V,
    order: O,
) -> Seq<<T as DeepView>::V>
    decreases sorted.len(),
{
    if sorted.len() == 0 {
        seq![item]
    } else if T::place(sorted.last(), order) <= T::place(item, order) {
        sorted.push(item)
    } else {
        inserted::<O, T>(sorted.drop_last(), item, order).push(sorted.last())
    }
}

/// `items` in order; those that are placed alike stay in the order they had.
pub open spec fn sorted_by<O, T: Placed<O>>(items: Seq<<T as DeepView>::V>, order: O) -> Seq<
    <T as DeepView>::V,
>
    decreases items.len(),
{
    if items.len() == 0 {
        Seq::empty()
    } else {
        inserted::<O, T>(sorted_by::<O, T>(items.drop_last(), order), items.last(), order)
    }
}

/// Whether `items` are in order.
pub open spec fn is_sorted<O, T: Placed<O>>(items: Seq<<T as DeepView>::V>, order: O) -> bool {
    forall|i: int, j: int|
        0 <= i <= j < items.len() ==> T::place(#[trigger] items[i], order) <= T::place(
            #[trigger] items[j],
            order,
        )
}

/// Putting an item in its place keeps the order and adds just that item.
proof fn lemma_inserted<O, T: Placed<O>>(
    sorted: Seq<<T as DeepView>::V>,
    item: <T as DeepView>::V,
    order: O,
)
    requires
        is_sorted::<O, T>(sorted, order),
    ensures
        is_sorted::<O, T>(inserted::<O, T>(sorted, item, order), order),
        inserted::<O, T>(sorted, item, order).to_multiset() == sorted.to_multiset().insert(item),
        inserted::<O, T>(sorted, item, order).len() == sorted.len() + 1,
    decreases sorted.len(),
{
    broadcast use vstd::seq_lib::group_to_multiset_ensures;

    if sorted.len() == 0 {
        assert(seq![item] =~= Seq::<<T as DeepView>::V>::empty().push(item));
        assert(sorted =~= Seq::<<T as DeepView>::V>::empty());
    } else if T::place(sorted.last(), order) <= T::place(item, order) {
    } else {
        let rest = sorted.drop_last();
        let before = inserted::<O, T>(rest, item, order);
        lemma_inserted::<O, T>(rest, item, order);
        assert(sorted =~= rest.push(sorted.last()));
        lemma_inserted_bound::<O, T>(rest, item, order, T::place(sorted.last(), order));
        assert(before.push(sorted.last()).to_multiset() =~= sorted.to_multiset().insert(item));
    }
}

/// What bounds the items and the new item bounds all of them.
proof fn lemma_inserted_bound<O, T: Placed<O>>(
    sorted: Seq<<T as DeepView>::V>,
    item: <T as DeepView>::V,
    order: O,
    bound: int,
)
    requires
        forall|i: int| 0 <= i < sorted.len() ==> T::place(#[trigger] sorted[i], order) <= bound,
        T::place(item, order) <= bound,
    ensures
        forall|i: int|
            0 <= i < inserted::<O, T>(sorted, item, order).len() ==> T::place(
                #[trigger] inserted::<O, T>(sorted, item, order)[i],
                order,
            ) <= bound,
    decreases sorted.len(),
{
    if sorted.len() > 0 && T::place(sorted.last(), order) > T::place(item, order) {
        assert forall|i: int| 0 <= i < sorted.drop_last().len() implies T::place(
            #[trigger] sorted.drop_last()[i],
            order,
        ) <= bound by {
            assert(sorted.drop_last()[i] == sorted[i]);
        }
        lemma_inserted_bound::<O, T>(sorted.drop_last(), item, order, bound);
        let before = inserted::<O, T>(sorted.drop_last(), item, order);
        let after = inserted::<O, T>(sorted, item, order);
        assert forall|i: int| 0 <= i < after.len() implies T::place(#[trigger] after[i], order)
            <= bound by {
            if i < before.len() {
                assert(T::place(before[i], order) <= bound);
            } else {
                assert(after[i] == sorted[sorted.len() - 1]);
            }
        }
    }
}

/// Sorting puts the items in order and neither loses nor adds any.
pub proof fn law_sorting_orders_and_keeps<O, T: Placed<O>>(
    items: Seq<<T as DeepView>::V>,
    order: O,
)
    ensures
        is_sorted::<O, T>(sorted_by::<O, T>(items, order), order),
        sorted_by::<O, T>(items, order).to_multiset() == items.to_multiset(),
        sorted_by::<O, T>(items, order).len() == items.len(),
    decreases items.len(),
{
    broadcast use vstd::seq_lib::group_to_multiset_ensures;

    if items.len() > 0 {
        law_sorting_orders_and_keeps::<O, T>(items.drop_last(), order);
        lemma_inserted::<O, T>(
            sorted_by::<O, T>(items.drop_last(), order),
            items.last(),
            order,
        );
        assert(items =~= items.drop_last().push(items.last()));
    } else {
        assert(items =~= Seq::<<T as DeepView>::V>::empty());
    }
}

/// The place of an item is behind all that are not placed behind it.
proof fn lemma_inserted_at<O, T: Placed<O>>(
    sorted: Seq<<T as DeepView>::V>,
    item: <T as DeepView>::V,
    order: O,
    at: int,
)
    requires
        0 <= at <= sorted.len(),
        forall|i: int|
            at <= i < sorted.len() ==> T::place(#[trigger] sorted[i], order) > T::place(
                item,
                order,
            ),
        at > 0 ==> T::place(sorted[at - 1], order) <= T::place(item, order),
    ensures
        inserted::<O, T>(sorted, item, order) == sorted.insert(at, item),
    decreases sorted.len(),
{
    if at == sorted.len() {
        assert(sorted.insert(at, item) =~= sorted.push(item));
        assert(sorted.len() == 0 ==> sorted.push(item) =~= seq![item]);
    } else {
        let rest = sorted.drop_last();
        assert forall|i: int| at <= i < rest.len() implies T::place(#[trigger] rest[i], order)
            > T::place(item, order) by {
            assert(rest[i] == sorted[i]);
        }
        lemma_inserted_at::<O, T>(rest, item, order, at);
        assert(sorted.insert(at, item) =~= rest.insert(at, item).push(sorted.last()));
    }
}

/// Puts an item in its place.
pub fn insert_sorted<O, T: Placed<O>>(list: &mut Vec<T>, item: T, order: &O)
    ensures
        final(list).deep_view() == inserted::<O, T>(
            old(list).deep_view(),
            item.deep_view(),
            *order,
        ),
{
    let ghost before = list.deep_view();
    let mut at: usize = list.len();
    while at > 0 && list[at - 1].is_behind(&item, order)
        invariant
            at <= list@.len(),
            before == list.deep_view(),
            forall|i: int|
                at <= i < before.len() ==> T::place(#[trigger] before[i], *order) > T::place(
                    item.deep_view(),
                    *order,
                ),
        decreases at,
    {
        assert(before[at - 1] == list@[at - 1].deep_view());
        at -= 1;
    }
    proof {
        if at > 0 {
            assert(before[at - 1] == list@[at - 1].deep_view());
        }
        lemma_inserted_at::<O, T>(before, item.deep_view(), *order, at as int);
    }
    list.insert(at, item);
    assert(list.deep_view() =~= before.insert(at as int, item.deep_view()));
}

} // verus!
