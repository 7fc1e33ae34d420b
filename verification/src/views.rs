//! Plain values of sequences of items.

use vstd::prelude::*;

verus! {

/// The plain values of a sequence of items.
pub open spec fn views<T: View>(items: Seq<T>) -> Seq<T::V> {
    Seq::new(items.len(), |i: int| items[i]@)
}

/// The plain values of a sequence with one more item are those of the
/// sequence with one more plain value.
pub proof fn lemma_views_push<T: View>(items: Seq<T>, item: T)
    ensures
        views(items.push(item)) == views(items).push(item@),
{
    assert(views(items.push(item)) =~= views(items).push(item@));
}

/// Whether `k` is the position of the first item of `items` that `p` holds
/// of; the length of `items` where it holds of none.
pub open spec fn is_first_where<T>(items: Seq<T>, p: spec_fn(T) -> bool, k: int) -> bool {
    &&& 0 <= k <= items.len()
    &&& forall|i: int| 0 <= i < k ==> !p(#[trigger] items[i])
    &&& k < items.len() ==> p(items[k])
}

/// The position of the first item of `items` that `p` holds of; the length
/// of `items` where it holds of none.
pub open spec fn first_where<T>(items: Seq<T>, p: spec_fn(T) -> bool) -> int {
    choose|k: int| is_first_where(items, p, k)
}

/// There is one first position.
pub proof fn lemma_first_where<T>(items: Seq<T>, p: spec_fn(T) -> bool, k: int)
    requires
        is_first_where(items, p, k),
    ensures
        first_where(items, p) == k,
{
    let other = first_where(items, p);
    if other < k {
        assert(!p(items[other]));
    } else if k < other {
        assert(!p(items[k]));
    }
}

/// Whether an item with key `k` is among `items`.
pub open spec fn has_keyed<V, K>(items: Seq<V>, key: spec_fn(V) -> K, k: K) -> bool {
    exists|i: int| 0 <= i < items.len() && key(#[trigger] items[i]) == k
}

/// Whether no two of `items` have the same key.
pub open spec fn distinct_keyed<V, K>(items: Seq<V>, key: spec_fn(V) -> K) -> bool {
    forall|i: int, j: int|
        0 <= i < j < items.len() ==> key(#[trigger] items[i]) != key(#[trigger] items[j])
}

/// The items after `item` has been placed among them as a map would place
/// it: it takes the place of the item with its key, or goes last where none
/// has it.
pub open spec fn placed<V, K>(items: Seq<V>, key: spec_fn(V) -> K, item: V) -> Seq<V> {
    if has_keyed(items, key, key(item)) {
        items.update(choose|i: int| 0 <= i < items.len() && key(#[trigger] items[i]) == key(item), item)
    } else {
        items.push(item)
    }
}

/// Among distinct keys, the item with a key stands at one place only.
pub proof fn lemma_keyed_place<V, K>(items: Seq<V>, key: spec_fn(V) -> K, i: int)
    requires
        distinct_keyed(items, key),
        0 <= i < items.len(),
    ensures
        has_keyed(items, key, key(items[i])),
        (choose|k: int| 0 <= k < items.len() && key(#[trigger] items[k]) == key(items[i])) == i,
{
    let k = choose|k: int| 0 <= k < items.len() && key(#[trigger] items[k]) == key(items[i]);
    if k < i {
        assert(key(items[k]) != key(items[i]));
    } else if i < k {
        assert(key(items[i]) != key(items[k]));
    }
}

/// Placing an item keeps keys distinct, and the item is then among them.
pub proof fn lemma_placed_keeps_distinct<V, K>(items: Seq<V>, key: spec_fn(V) -> K, item: V)
    requires
        distinct_keyed(items, key),
    ensures
        distinct_keyed(placed(items, key, item), key),
        has_keyed(placed(items, key, item), key, key(item)),
{
    let after = placed(items, key, item);
    if has_keyed(items, key, key(item)) {
        let k = choose|i: int| 0 <= i < items.len() && key(#[trigger] items[i]) == key(item);
        assert forall|i: int, j: int| 0 <= i < j < after.len() implies key(#[trigger] after[i])
            != key(#[trigger] after[j]) by {
            assert(key(items[i]) != key(items[j]));
            assert(key(after[i]) == key(items[i]));
            assert(key(after[j]) == key(items[j]));
        }
        assert(key(after[k]) == key(item));
    } else {
        assert forall|i: int, j: int| 0 <= i < j < after.len() implies key(#[trigger] after[i])
            != key(#[trigger] after[j]) by {
            if j < items.len() {
                assert(key(items[i]) != key(items[j]));
            } else {
                assert(after[i] == items[i]);
                assert(key(items[i]) != key(item));
            }
        }
        assert(key(after[items.len() as int]) == key(item));
    }
}

/// The plain values of a sequence with one item replaced are those of the
/// sequence with that plain value replaced.
pub proof fn lemma_views_update<T: View>(items: Seq<T>, i: int, item: T)
    requires
        0 <= i < items.len(),
    ensures
        views(items.update(i, item)) == views(items).update(i, item@),
{
    assert(views(items.update(i, item)) =~= views(items).update(i, item@));
}

/// The views of an optional string.
pub open spec fn optional_text(value: Option<String>) -> Option<Seq<char>> {
    match value {
        Some(text) => Some(text@),
        None => None,
    }
}

} // verus!
