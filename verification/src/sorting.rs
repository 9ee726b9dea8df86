//! Sorting that keeps the order of equal items.
use vstd::prelude::*;

verus! {

/// `list` with `item` after everything that it does not come before.
pub open spec fn placed<A>(list: Seq<A>, item: A, less: spec_fn(A, A) -> bool) -> Seq<A>
    decreases list.len(),
{
    if list.len() == 0 || !less(item, list.last()) {
        list.push(item)
    } else {
        placed(list.drop_last(), item, less).push(list.last())
    }
}

/// The items of `list` in the order `less`; equal items keep their order.
pub open spec fn sorted<A>(list: Seq<A>, less: spec_fn(A, A) -> bool) -> Seq<A>
    decreases list.len(),
{
    if list.len() == 0 {
        Seq::empty()
    } else {
        placed(sorted(list.drop_last(), less), list.last(), less)
    }
}

/// No item of `list` comes before an earlier one.
pub open spec fn is_sorted<A>(list: Seq<A>, less: spec_fn(A, A) -> bool) -> bool {
    forall|i: int, j: int|
        0 <= i < j < list.len() ==> !less(#[trigger] list[j], #[trigger] list[i])
}

/// `less` orders by a key: it never holds in a circle of two, and whatever is
/// not before one item is not before a third that the first is not before.
pub open spec fn is_order<A>(less: spec_fn(A, A) -> bool) -> bool {
    &&& forall|a: A, b: A| #[trigger] less(a, b) ==> !less(b, a)
    &&& forall|a: A, b: A, c: A|
        !(#[trigger] less(a, b)) && !(#[trigger] less(b, c)) ==> !less(a, c)
}

/// Where `item` goes into `list`.
pub proof fn lemma_placed<A>(list: Seq<A>, item: A, less: spec_fn(A, A) -> bool, at: int)
    requires
        0 <= at <= list.len(),
        forall|k: int| at <= k < list.len() ==> less(item, #[trigger] list[k]),
        at > 0 ==> !less(item, list[at - 1]),
    ensures
        placed(list, item, less) == list.insert(at, item),
    decreases list.len(),
{
    if at == list.len() {
        assert(list.insert(at, item) =~= list.push(item));
    } else {
        assert(less(item, list[list.len() - 1]));
        lemma_placed(list.drop_last(), item, less, at);
        assert(list.insert(at, item) =~= list.drop_last().insert(at, item).push(list.last()));
    }
}

proof fn lemma_placed_sorted<A>(list: Seq<A>, item: A, less: spec_fn(A, A) -> bool)
    requires
        is_order(less),
        is_sorted(list, less),
    ensures
        is_sorted(placed(list, item, less), less),
        placed(list, item, less).to_multiset() == list.to_multiset().insert(item),
        placed(list, item, less).len() == list.len() + 1,
        forall|k: int|
            0 <= k < list.len() + 1 ==> #[trigger] placed(list, item, less)[k] == item
                || list.contains(placed(list, item, less)[k]),
    decreases list.len(),
{
    let out = placed(list, item, less);
    broadcast use vstd::seq_lib::group_to_multiset_ensures;

    if list.len() == 0 || !less(item, list.last()) {
        assert forall|i: int, j: int| 0 <= i < j < out.len() implies !less(
            #[trigger] out[j],
            #[trigger] out[i],
        ) by {
            if j == list.len() {
                if i < list.len() - 1 {
                    assert(!less(list[list.len() - 1], list[i]));
                }
            }
        }
        assert forall|k: int| 0 <= k < list.len() + 1 implies #[trigger] out[k] == item
            || list.contains(out[k]) by {
            if k < list.len() {
                assert(out[k] == list[k]);
            }
        }
    } else {
        let front = list.drop_last();
        lemma_placed_sorted(front, item, less);
        let inner = placed(front, item, less);
        assert forall|k: int| 0 <= k < inner.len() implies !less(list.last(), #[trigger] inner[k]) by {
            if inner[k] != item {
                assert(front.contains(inner[k]));
                let m = choose|m: int| 0 <= m < front.len() && front[m] == inner[k];
                assert(list[m] == inner[k]);
                assert(!less(list[list.len() - 1], list[m]));
            }
        }
        assert forall|k: int| 0 <= k < list.len() + 1 implies #[trigger] out[k] == item
            || list.contains(out[k]) by {
            if k < inner.len() {
                assert(out[k] == inner[k]);
                if out[k] != item {
                    let m = choose|m: int| 0 <= m < front.len() && front[m] == inner[k];
                    assert(list[m] == out[k]);
                }
            } else {
                assert(list[list.len() - 1] == out[k]);
            }
        }
        assert(front.push(list.last()) =~= list);
        assert(out.to_multiset() =~= list.to_multiset().insert(item));
    }
}

/// Sorting puts the items in order and neither loses nor adds one.
pub proof fn sorting_sorts<A>(list: Seq<A>, less: spec_fn(A, A) -> bool)
    requires
        is_order(less),
    ensures
        is_sorted(sorted(list, less), less),
        sorted(list, less).to_multiset() == list.to_multiset(),
        sorted(list, less).len() == list.len(),
    decreases list.len(),
{
    broadcast use vstd::seq_lib::group_to_multiset_ensures;

    if list.len() > 0 {
        sorting_sorts(list.drop_last(), less);
        lemma_placed_sorted(sorted(list.drop_last(), less), list.last(), less);
        assert(list.drop_last().push(list.last()) =~= list);
        assert(sorted(list, less).to_multiset() =~= list.to_multiset());
    } else {
        assert(sorted(list, less) =~= list);
    }
}

/// Of two different items of `list`, one comes before the other.
pub open spec fn is_total_on<A>(list: Seq<A>, less: spec_fn(A, A) -> bool) -> bool {
    forall|i: int, j: int|
        0 <= i < list.len() && 0 <= j < list.len() && !less(#[trigger] list[i], #[trigger] list[j])
            && !less(list[j], list[i]) ==> list[i] == list[j]
}

/// Two lists in order that hold the same items are the same, where of two
/// different items one always comes before the other.
pub proof fn order_is_unique<A>(a: Seq<A>, b: Seq<A>, less: spec_fn(A, A) -> bool)
    requires
        is_sorted(a, less),
        is_sorted(b, less),
        is_total_on(a, less),
        a.to_multiset() == b.to_multiset(),
    ensures
        a == b,
    decreases a.len(),
{
    broadcast use vstd::seq_lib::group_to_multiset_ensures;

    assert(a.len() == a.to_multiset().len());
    assert(b.len() == b.to_multiset().len());
    if a.len() == 0 {
        assert(a =~= b);
    } else {
        let n = a.len() - 1;
        assert(a.contains(a[n]));
        assert(a.to_multiset().count(a[n]) > 0);
        assert(b.contains(a[n]));
        let i = choose|i: int| 0 <= i < b.len() && b[i] == a[n];
        assert(b.contains(b[n]));
        assert(b.to_multiset().count(b[n]) > 0);
        assert(a.contains(b[n]));
        let j = choose|j: int| 0 <= j < a.len() && a[j] == b[n];
        if i != n && j != n {
            assert(!less(b[n], b[i]));
            assert(!less(a[n], a[j]));
        }
        assert(a[n] == b[n]);
        assert(a.drop_last().push(a[n]) =~= a);
        assert(b.drop_last().push(b[n]) =~= b);
        assert(a.drop_last().to_multiset() =~= a.to_multiset().remove(a[n]));
        assert(b.drop_last().to_multiset() =~= b.to_multiset().remove(b[n]));
        order_is_unique(a.drop_last(), b.drop_last(), less);
    }
}

/// A rearranged list is ordered as far as the list is.
pub proof fn lemma_total_on_rearranged<A>(a: Seq<A>, b: Seq<A>, less: spec_fn(A, A) -> bool)
    requires
        is_total_on(a, less),
        a.to_multiset() == b.to_multiset(),
    ensures
        is_total_on(b, less),
{
    broadcast use vstd::seq_lib::group_to_multiset_ensures;

    assert forall|i: int, j: int|
        0 <= i < b.len() && 0 <= j < b.len() && !less(#[trigger] b[i], #[trigger] b[j]) && !less(
            b[j],
            b[i],
        ) implies b[i] == b[j] by {
        assert(b.contains(b[i]) && b.contains(b[j]));
        assert(b.to_multiset().count(b[i]) > 0 && b.to_multiset().count(b[j]) > 0);
        assert(a.contains(b[i]) && a.contains(b[j]));
        let x = choose|x: int| 0 <= x < a.len() && a[x] == b[i];
        let y = choose|y: int| 0 <= y < a.len() && a[y] == b[j];
        assert(!less(a[x], a[y]) && !less(a[y], a[x]));
    }
}

/// The order in which items are given does not matter to sorting, where of two
/// different items one always comes before the other.
pub proof fn sorting_ignores_order<A>(a: Seq<A>, b: Seq<A>, less: spec_fn(A, A) -> bool)
    requires
        is_order(less),
        is_total_on(a, less),
        a.to_multiset() == b.to_multiset(),
    ensures
        sorted(a, less) == sorted(b, less),
{
    sorting_sorts(a, less);
    sorting_sorts(b, less);
    lemma_total_on_rearranged(a, sorted(a, less), less);
    order_is_unique(sorted(a, less), sorted(b, less), less);
}

/// What is made item by item of two lists with the same items has the same items.
pub proof fn lemma_mapped_multiset<A, B>(a: Seq<A>, b: Seq<A>, f: spec_fn(A) -> B)
    requires
        a.to_multiset() == b.to_multiset(),
    ensures
        a.map_values(f).to_multiset() == b.map_values(f).to_multiset(),
    decreases a.len(),
{
    broadcast use vstd::seq_lib::group_to_multiset_ensures;

    assert(a.len() == a.to_multiset().len());
    assert(b.len() == b.to_multiset().len());
    if a.len() == 0 {
        assert(a =~= b);
    } else {
        let last = a.last();
        assert(a.contains(last));
        assert(a.to_multiset().count(last) > 0);
        assert(b.contains(last));
        let i = choose|i: int| 0 <= i < b.len() && b[i] == last;
        let x = a.drop_last();
        let y = b.remove(i);
        assert(x.push(last) =~= a);
        assert(x.to_multiset() =~= a.to_multiset().remove(last));
        lemma_mapped_multiset(x, y, f);
        assert(a.map_values(f) =~= x.map_values(f).push(f(last)));
        assert(b.map_values(f).remove(i) =~= y.map_values(f));
        assert(b.map_values(f)[i] == f(last));
        assert(b.map_values(f).contains(f(last)));
        assert(b.map_values(f).to_multiset() =~= y.map_values(f).to_multiset().insert(f(last)));
    }
}

}
