//! Tables keyed by identifiers, sets of identifiers, and lists made of them.

use std::collections::{HashMap, HashSet};
use vstd::prelude::*;

verus! {

broadcast use vstd::std_specs::hash::group_hash_axioms;

/// A table with the view of each value in place of the value.
pub open spec fn view_values<V: View>(m: Map<u128, V>) -> Map<u128, V::V> {
    m.map_values(|v: V| v@)
}

/// A sequence with the view of each item in place of the item.
pub open spec fn view_items<T: View>(s: Seq<T>) -> Seq<T::V> {
    s.map_values(|v: T| v@)
}

/// Whether `items` holds each member of `members` once, and nothing else.
pub open spec fn lists<T>(items: Seq<T>, members: Set<T>) -> bool {
    items.no_duplicates() && forall|x: T| #[trigger] items.contains(x) <==> members.contains(x)
}

pub broadcast proof fn lemma_view_values_insert<V: View>(m: Map<u128, V>, k: u128, v: V)
    ensures
        #[trigger] view_values(m.insert(k, v)) == view_values(m).insert(k, v@),
{
}

pub broadcast proof fn lemma_view_values_remove<V: View>(m: Map<u128, V>, k: u128)
    ensures
        #[trigger] view_values(m.remove(k)) == view_values(m).remove(k),
{
}

pub broadcast proof fn lemma_view_values_empty<V: View>()
    ensures
        #[trigger] view_values(Map::<u128, V>::empty()) == Map::<u128, V::V>::empty(),
{
}

/// Taking an entry out and putting it back changed is changing it.
pub broadcast proof fn lemma_remove_insert<V>(m: Map<u128, V>, k: u128, v: V)
    ensures
        #[trigger] m.remove(k).insert(k, v) == m.insert(k, v),
{
}

pub broadcast group group_tables {
    lemma_view_values_insert,
    lemma_view_values_remove,
    lemma_view_values_empty,
    lemma_remove_insert,
}

/// A list stays a list of its members when a new member is put anywhere into it.
pub proof fn lemma_lists_insert<T>(items: Seq<T>, members: Set<T>, i: int, x: T)
    requires
        lists(items, members),
        !members.contains(x),
        0 <= i <= items.len(),
    ensures
        lists(items.insert(i, x), members.insert(x)),
{
    let longer = items.insert(i, x);
    assert forall|y: T| #[trigger] longer.contains(y) <==> members.insert(x).contains(y) by {
        if longer.contains(y) {
            let j = choose|j: int| 0 <= j < longer.len() && longer[j] == y;
            if j < i {
                assert(items.contains(y));
            } else if j > i {
                assert(items.contains(y));
            }
        }
        if members.insert(x).contains(y) {
            if y == x {
                assert(longer[i] == y);
            } else {
                assert(items.contains(y));
                let j = choose|j: int| 0 <= j < items.len() && items[j] == y;
                if j < i {
                    assert(longer[j] == y);
                } else {
                    assert(longer[j + 1] == y);
                }
            }
        }
    }
    assert forall|j: int, k: int|
        0 <= j < longer.len() && 0 <= k < longer.len() && j != k implies longer[j]
        != longer[k] by {
        let j0 = if j < i {
            j
        } else {
            j - 1
        };
        let k0 = if k < i {
            k
        } else {
            k - 1
        };
        if j == i {
            assert(items.contains(items[k0]));
        } else if k == i {
            assert(items.contains(items[j0]));
        }
    }
}

/// Whether `items` holds one item for each of `keys`, and nothing else, such that each item
/// fits its key.
pub open spec fn portrays<T>(
    items: Seq<T>,
    keys: Set<u128>,
    fits: spec_fn(u128, T) -> bool,
) -> bool {
    exists|order: Seq<u128>| #[trigger]
        lists(order, keys) && order.len() == items.len() && forall|i: int|
            0 <= i < items.len() ==> fits(order[i], #[trigger] items[i])
}

/// A list of items that fit their keys stays one when a new key's item is put anywhere into
/// it.
pub proof fn lemma_portrays_insert<T>(
    items: Seq<T>,
    keys: Set<u128>,
    fits: spec_fn(u128, T) -> bool,
    at: int,
    key: u128,
    item: T,
)
    requires
        portrays(items, keys, fits),
        !keys.contains(key),
        0 <= at <= items.len(),
        fits(key, item),
    ensures
        portrays(items.insert(at, item), keys.insert(key), fits),
{
    let order = choose|order: Seq<u128>| #[trigger]
        lists(order, keys) && order.len() == items.len() && forall|i: int|
            0 <= i < items.len() ==> fits(order[i], #[trigger] items[i]);
    lemma_lists_insert(order, keys, at, key);
}

pub proof fn lemma_view_items_insert<T: View>(s: Seq<T>, i: int, x: T)
    requires
        0 <= i <= s.len(),
    ensures
        view_items(s.insert(i, x)) == view_items(s).insert(i, x@),
{
}

pub proof fn lemma_view_items_concat<T: View>(a: Seq<T>, b: Seq<T>)
    ensures
        view_items(a + b) == view_items(a) + view_items(b),
{
}

/// The wanted items among the first `n`.
pub open spec fn scanned<T>(items: Seq<T>, n: int, wanted: Set<T>) -> Set<T> {
    wanted.filter(|x: T| exists|k: int| 0 <= k < n && #[trigger] items[k] == x)
}

/// One more item is scanned.
pub proof fn lemma_scanned_step<T>(items: Seq<T>, n: int, wanted: Set<T>)
    requires
        items.no_duplicates(),
        0 <= n < items.len(),
    ensures
        !scanned(items, n, wanted).contains(items[n]),
        wanted.contains(items[n]) ==> scanned(items, n + 1, wanted) == scanned(
            items,
            n,
            wanted,
        ).insert(items[n]),
        !wanted.contains(items[n]) ==> scanned(items, n + 1, wanted) == scanned(items, n, wanted),
{
}

/// Nothing is scanned at first.
pub proof fn lemma_scanned_none<T>(items: Seq<T>, wanted: Set<T>)
    ensures
        scanned(items, 0, wanted) == Set::<T>::empty(),
        lists(Seq::<T>::empty(), scanned(items, 0, wanted)),
{
}

/// Once all items are scanned, all that was wanted is found.
pub proof fn lemma_scanned_all<T>(items: Seq<T>, wanted: Set<T>)
    requires
        forall|x: T| #[trigger] wanted.contains(x) ==> items.contains(x),
    ensures
        scanned(items, items.len() as int, wanted) == wanted,
{
}

/// A list stays one when a new member is added at its end.
pub proof fn lemma_lists_push<T>(items: Seq<T>, members: Set<T>, x: T)
    requires
        lists(items, members),
        !members.contains(x),
    ensures
        lists(items.push(x), members.insert(x)),
{
    lemma_lists_insert(items, members, items.len() as int, x);
    assert(items.push(x) =~= items.insert(items.len() as int, x));
}

/// Puts each of `items` into `set`.
pub fn add_all(set: &mut HashSet<u128>, items: &Vec<u128>)
    ensures
        final(set)@ == old(set)@.union(items@.to_set()),
{
    let ghost before = set@;
    let mut i: usize = 0;
    while i < items.len()
        invariant
            i <= items@.len(),
            set@ == before.union(items@.take(i as int).to_set()),
        decreases items@.len() - i,
    {
        set.insert(items[i]);
        proof {
            let shorter = items@.take(i as int);
            let longer = items@.take(i + 1);
            assert forall|x: u128| longer.to_set().contains(x) == (shorter.to_set().contains(x)
                || x == items@[i as int]) by {
                assert(longer[i as int] == items@[i as int]);
            }
        }
        i = i + 1;
    }
    assert(items@.take(i as int) =~= items@);
}

/// The keys of a table, each once, in no particular order.
pub fn keys_of<V>(table: &HashMap<u128, V>) -> (keys: Vec<u128>)
    ensures
        lists(keys@, table@.dom()),
{
    let mut keys: Vec<u128> = Vec::new();
    for key in it: table.keys()
        invariant
            keys@ == it.seq().unref().take(it.index()),
            it.seq().unref().to_set() == table@.dom(),
            it.seq().no_duplicates(),
            it.index() == it.seq().len() ==> lists(keys@, table@.dom()),
    {
        keys.push(*key);
        assert(it.index() + 1 == it.seq().len() ==> keys@ =~= it.seq().unref());
    }
    keys
}

/// The members of a set, each once, in no particular order.
pub fn members_of(set: &HashSet<u128>) -> (members: Vec<u128>)
    ensures
        lists(members@, set@),
{
    let mut members: Vec<u128> = Vec::new();
    for member in it: set.iter()
        invariant
            members@ == it.seq().unref().take(it.index()),
            it.seq().unref().to_set() == set@,
            it.seq().no_duplicates(),
            it.index() == it.seq().len() ==> lists(members@, set@),
    {
        members.push(*member);
        assert(it.index() + 1 == it.seq().len() ==> members@ =~= it.seq().unref());
    }
    members
}

} // verus!
