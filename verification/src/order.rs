//! Stable ordering of items by time.
use vstd::prelude::*;

verus! {

broadcast use vstd::seq_lib::group_seq_properties;

/// An item with a place in time.
pub trait Timed {
    /// The time of the item, in nanoseconds.
    spec fn key(&self) -> nat;

    /// Returns the time of the item, in nanoseconds.
    fn key_nanos(&self) -> (result: u128)
        ensures
            result == self.key(),
    ;
}

/// The times of the items.
pub open spec fn keys_of<T: Timed>(items: Seq<T>) -> Seq<nat> {
    Seq::new(items.len(), |i: int| items[i].key())
}

/// The items at the given indices.
pub open spec fn gather<T>(items: Seq<T>, order: Seq<int>) -> Seq<T> {
    Seq::new(order.len(), |i: int| items[order[i]])
}

/// Where an item with the given key goes: behind the last entry whose key does
/// not exceed it.
pub open spec fn insert_position(order: Seq<int>, keys: Seq<nat>, key: nat) -> nat
    decreases order.len(),
{
    if order.len() == 0 || keys[order.last()] <= key {
        order.len()
    } else {
        insert_position(order.drop_last(), keys, key)
    }
}

/// The indices of the keys, in ascending order of the keys. Equal keys keep
/// their order.
pub open spec fn stable_order(keys: Seq<nat>) -> Seq<int>
    decreases keys.len(),
{
    if keys.len() == 0 {
        Seq::empty()
    } else {
        let rest = stable_order(keys.drop_last());
        rest.insert(insert_position(rest, keys, keys.last()) as int, keys.len() - 1)
    }
}

/// The items in ascending order of time. Items of one time keep their order.
pub open spec fn stable_sort<T: Timed>(items: Seq<T>) -> Seq<T> {
    gather(items, stable_order(keys_of(items)))
}

/// Whether one index comes before another in a stable order.
pub open spec fn comes_first(keys: Seq<nat>, a: int, b: int) -> bool {
    keys[a] < keys[b] || (keys[a] == keys[b] && a < b)
}

proof fn lemma_insert_position(order: Seq<int>, keys: Seq<nat>, key: nat)
    requires
        forall|i: int, j: int| 0 <= i < j < order.len() ==> keys[order[i]] <= keys[order[j]],
    ensures
        insert_position(order, keys, key) <= order.len(),
        forall|i: int|
            0 <= i < insert_position(order, keys, key) ==> keys[#[trigger] order[i]] <= key,
        forall|i: int|
            insert_position(order, keys, key) <= i < order.len() ==> keys[#[trigger] order[i]]
                > key,
    decreases order.len(),
{
    if order.len() > 0 && keys[order.last()] > key {
        lemma_insert_position(order.drop_last(), keys, key);
        assert forall|i: int|
            insert_position(order, keys, key) <= i < order.len() implies keys[#[trigger] order[i]]
            > key by {
            if i < order.len() - 1 {
                assert(order[i] == order.drop_last()[i]);
            }
        }
        assert forall|i: int| 0 <= i < insert_position(order, keys, key) implies keys[
            #[trigger] order[i]] <= key by {
            assert(order[i] == order.drop_last()[i]);
        }
    }
}

/// A stable order lists every index once, by ascending key, and equal keys in
/// their given order.
pub proof fn law_stable_order(keys: Seq<nat>)
    ensures
        stable_order(keys).len() == keys.len(),
        forall|i: int|
            0 <= i < keys.len() ==> 0 <= #[trigger] stable_order(keys)[i] < keys.len(),
        forall|i: int, j: int|
            0 <= i < j < keys.len() ==> comes_first(
                keys,
                #[trigger] stable_order(keys)[i],
                #[trigger] stable_order(keys)[j],
            ),
    decreases keys.len(),
{
    if keys.len() > 0 {
        let prefix = keys.drop_last();
        let rest = stable_order(prefix);
        let order = stable_order(keys);
        let last = keys.len() - 1;
        law_stable_order(prefix);
        let at = insert_position(rest, keys, keys.last()) as int;
        assert forall|i: int, j: int| 0 <= i < j < rest.len() implies keys[rest[i]]
            <= keys[rest[j]] by {
            assert(comes_first(prefix, rest[i], rest[j]));
        }
        lemma_insert_position(rest, keys, keys.last());
        assert(order == rest.insert(at, last));
        assert forall|i: int| 0 <= i < keys.len() implies 0 <= #[trigger] order[i] < keys.len() by {
            if i < at {
                assert(order[i] == rest[i]);
            } else if i > at {
                assert(order[i] == rest[i - 1]);
            }
        }
        assert forall|i: int, j: int| 0 <= i < j < keys.len() implies comes_first(
            keys,
            #[trigger] order[i],
            #[trigger] order[j],
        ) by {
            let a = if i < at { rest[i] } else if i == at { last } else { rest[i - 1] };
            let b = if j < at { rest[j] } else if j == at { last } else { rest[j - 1] };
            assert(order[i] == a && order[j] == b);
            if i == at {
                assert(keys[rest[j - 1]] > keys.last());
            } else if j == at {
                assert(keys[rest[i]] <= keys.last());
                assert(0 <= rest[i] < prefix.len());
            } else {
                let p = if i < at { i } else { i - 1 };
                let q = if j < at { j } else { j - 1 };
                assert(comes_first(prefix, rest[p], rest[q]));
            }
        }
    }
}

/// Items in a stable order are the given items, each as often as before.
pub proof fn law_stable_order_keeps_items<T>(items: Seq<T>, keys: Seq<nat>)
    requires
        keys.len() == items.len(),
    ensures
        gather(items, stable_order(keys)).to_multiset() == items.to_multiset(),
    decreases items.len(),
{
    if items.len() == 0 {
        assert(gather(items, stable_order(keys)) =~= items);
    } else {
        let prefix = keys.drop_last();
        let rest = stable_order(prefix);
        law_stable_order(prefix);
        law_stable_order(keys);
        assert forall|i: int, j: int| 0 <= i < j < rest.len() implies keys[rest[i]]
            <= keys[rest[j]] by {
            assert(comes_first(prefix, rest[i], rest[j]));
        }
        lemma_insert_position(rest, keys, keys.last());
        let at = insert_position(rest, keys, keys.last()) as int;
        let others = gather(items.drop_last(), rest);
        law_stable_order_keeps_items(items.drop_last(), prefix);
        assert(gather(items, stable_order(keys)) =~= others.insert(at, items.last()));
        vstd::seq_lib::to_multiset_insert(others, at, items.last());
        assert(items =~= items.drop_last().push(items.last()));
        vstd::seq_lib::to_multiset_build(items.drop_last(), items.last());
    }
}

/// A stable sort ascends in time, and holds the items of its input, each as often.
pub proof fn law_stable_sort_ascends<T: Timed>(items: Seq<T>)
    ensures
        stable_sort(items).len() == items.len(),
        stable_sort(items).to_multiset() == items.to_multiset(),
        is_ascending(stable_sort(items)),
        forall|i: int|
            0 <= i < items.len() ==> items.contains(#[trigger] stable_sort(items)[i]),
{
    let keys = keys_of(items);
    let order = stable_order(keys);
    law_stable_order(keys);
    law_stable_order_keeps_items(items, keys);
    assert forall|i: int, j: int| 0 <= i < j < items.len() implies #[trigger] stable_sort(
        items,
    )[i].key() <= #[trigger] stable_sort(items)[j].key() by {
        assert(comes_first(keys, order[i], order[j]));
        assert(0 <= order[i] < keys.len());
        assert(0 <= order[j] < keys.len());
    }
    assert forall|i: int| 0 <= i < items.len() implies items.contains(
        #[trigger] stable_sort(items)[i],
    ) by {
        assert(0 <= order[i] < keys.len());
        assert(items[order[i]] == stable_sort(items)[i]);
    }
}

/// Whether the items ascend in time.
pub open spec fn is_ascending<T: Timed>(items: Seq<T>) -> bool {
    forall|i: int, j: int|
        0 <= i < j < items.len() ==> (#[trigger] items[i]).key() <= (#[trigger] items[j]).key()
}

proof fn lemma_stable_order_of_ascending(keys: Seq<nat>)
    requires
        forall|i: int, j: int| 0 <= i < j < keys.len() ==> keys[i] <= keys[j],
    ensures
        stable_order(keys) =~= Seq::new(keys.len(), |i: int| i),
    decreases keys.len(),
{
    if keys.len() > 0 {
        lemma_stable_order_of_ascending(keys.drop_last());
        let rest = stable_order(keys.drop_last());
        if rest.len() > 0 {
            assert(keys[rest.last()] <= keys.last());
        }
        assert(insert_position(rest, keys, keys.last()) == rest.len());
    }
}

/// Items that ascend in time already are their own stable sort.
pub proof fn law_stable_sort_of_ascending<T: Timed>(items: Seq<T>)
    requires
        is_ascending(items),
    ensures
        stable_sort(items) == items,
{
    let keys = keys_of(items);
    assert forall|i: int, j: int| 0 <= i < j < keys.len() implies keys[i] <= keys[j] by {
        assert(items[i].key() <= items[j].key());
    }
    lemma_stable_order_of_ascending(keys);
    assert(stable_sort(items) =~= items);
}

/// Where a key goes among items that ascend: behind the last that is not later.
spec fn place<T: Timed>(items: Seq<T>, key: nat) -> int
    decreases items.len(),
{
    if items.len() == 0 || items.last().key() <= key {
        items.len() as int
    } else {
        place(items.drop_last(), key)
    }
}

fn find_place<T: Timed>(items: &Vec<T>, key: u128) -> (at: usize)
    ensures
        at == place(items@, key as nat),
        at <= items@.len(),
{
    let mut at: usize = items.len();
    assert(items@.take(at as int) =~= items@);
    while at > 0 && items[at - 1].key_nanos() > key
        invariant
            at <= items@.len(),
            place(items@.take(at as int), key as nat) == place(items@, key as nat),
        decreases at,
    {
        assert(items@.take(at as int).drop_last() =~= items@.take(at as int - 1));
        at -= 1;
    }
    at
}

/// Among gathered items, a key's place is the one that their order gives it.
proof fn lemma_place_of_gathered<T: Timed>(all: Seq<T>, order: Seq<int>, keys: Seq<nat>, key: nat)
    requires
        forall|i: int| 0 <= i < order.len() ==> 0 <= #[trigger] order[i] < keys.len(),
        keys.len() <= all.len(),
        forall|i: int| 0 <= i < keys.len() ==> #[trigger] keys[i] == all[i].key(),
    ensures
        place(gather(all, order), key) == insert_position(order, keys, key),
    decreases order.len(),
{
    if order.len() > 0 {
        lemma_place_of_gathered(all, order.drop_last(), keys, key);
        assert(gather(all, order).drop_last() =~= gather(all, order.drop_last()));
        assert(0 <= order[order.len() - 1] < keys.len());
        assert(keys[order.last()] == all[order.last()].key());
    }
}

/// Sorts items by time; items of one time keep their order.
pub fn sort_by_time<T: Timed>(items: Vec<T>) -> (result: Vec<T>)
    ensures
        result@ == stable_sort(items@),
        result@.len() == items@.len(),
{
    let ghost all = items@;
    let ghost keys = keys_of(all);
    let mut result: Vec<T> = Vec::new();
    assert(keys.take(0) =~= Seq::<nat>::empty());
    assert(result@ =~= gather(all, stable_order(keys.take(0))));
    for item in it: items
        invariant
            it.seq() == all,
            keys == keys_of(all),
            result@ == gather(all, stable_order(keys.take(it.index()))),
            result@.len() == it.index(),
    {
        let ghost n = it.index();
        let ghost prefix = keys.take(n + 1);
        let ghost rest = stable_order(keys.take(n));
        let ghost before = result@;
        let key: u128 = item.key_nanos();
        let at: usize = find_place(&result, key);
        proof {
            assert(prefix.drop_last() =~= keys.take(n));
            assert(prefix.last() == key);
            assert forall|i: int| 0 <= i < rest.len() implies 0 <= #[trigger] rest[i]
                < prefix.len() by {
                law_stable_order(keys.take(n));
            }
            lemma_place_of_gathered(all, rest, prefix, key as nat);
        }
        result.insert(at, item);
        assert(result@ =~= gather(all, stable_order(prefix)));
    }
    assert(keys.take(keys.len() as int) =~= keys);
    proof {
        law_stable_order(keys);
    }
    result
}

} // verus!
