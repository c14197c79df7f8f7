//! Ordered maps under integer keys: lookup, change, and the keys in order.

use std::collections::{BTreeMap, BTreeSet};
use vstd::prelude::*;
use vstd::std_specs::cmp::OrdSpec;
use vstd::std_specs::iter::IteratorSpec;

verus! {

/// Keys in strictly increasing order.
pub open spec fn increasing(keys: Seq<u128>) -> bool {
    forall|i: int, j: int| 0 <= i < j < keys.len() ==> #[trigger] keys[i] < #[trigger] keys[j]
}

/// The keys are those of the map, in order.
pub open spec fn keys_in_order<V>(keys: Seq<u128>, map: Map<u128, V>) -> bool {
    &&& increasing(keys)
    &&& forall|i: int| 0 <= i < keys.len() ==> map.contains_key(#[trigger] keys[i])
    &&& forall|k: u128| #[trigger] map.contains_key(k) ==> keys.contains(k)
}

/// The keys of a map in increasing order.
pub open spec fn sorted_keys<V>(map: Map<u128, V>) -> Seq<u128> {
    choose|keys: Seq<u128>| keys_in_order(keys, map)
}

/// Increasing lists of one map's keys are the same list.
pub proof fn lemma_keys_unique<V>(a: Seq<u128>, b: Seq<u128>, map: Map<u128, V>)
    requires
        keys_in_order(a, map),
        keys_in_order(b, map),
    ensures
        a == b,
{
    lemma_same_elements(a, b);
}

/// Increasing lists with the same elements are the same list.
pub proof fn lemma_same_elements(a: Seq<u128>, b: Seq<u128>)
    requires
        increasing(a),
        increasing(b),
        forall|k: u128| a.contains(k) <==> b.contains(k),
    ensures
        a == b,
    decreases a.len(),
{
    if a.len() == 0 {
        if b.len() > 0 {
            assert(b.contains(b[0]));
        }
        assert(a =~= b);
    } else {
        let n = a.len() - 1;
        assert(a.contains(a[n]));
        let j = choose|j: int| 0 <= j < b.len() && b[j] == a[n];
        let m = b.len() - 1;
        assert(b.contains(b[m]));
        let i = choose|i: int| 0 <= i < a.len() && a[i] == b[m];
        if j < m {
            assert(b[j] < b[m]);
            if i < n {
                assert(a[i] < a[n]);
            }
        }
        assert(a[n] == b[m]);
        let (x, y) = (a.drop_last(), b.drop_last());
        assert forall|k: u128| x.contains(k) <==> y.contains(k) by {
            if x.contains(k) {
                let p = choose|p: int| 0 <= p < x.len() && x[p] == k;
                assert(a[p] < a[n]);
                assert(a.contains(k));
                let q = choose|q: int| 0 <= q < b.len() && b[q] == k;
                assert(q < m);
                assert(y[q] == k);
            }
            if y.contains(k) {
                let p = choose|p: int| 0 <= p < y.len() && y[p] == k;
                assert(b[p] < b[m]);
                assert(b.contains(k));
                let q = choose|q: int| 0 <= q < a.len() && a[q] == k;
                assert(q < n);
                assert(x[q] == k);
            }
        }
        lemma_same_elements(x, y);
        assert(a =~= x.push(a[n]));
        assert(b =~= y.push(b[m]));
    }
}

/// The keys of a map below a bound, in increasing order.
proof fn lemma_keys_below<V>(map: Map<u128, V>, bound: int) -> (keys: Seq<u128>)
    requires
        0 <= bound <= u128::MAX + 1,
    ensures
        increasing(keys),
        forall|i: int| 0 <= i < keys.len() ==> map.contains_key(#[trigger] keys[i]) && keys[i] < bound,
        forall|k: u128| #[trigger] map.contains_key(k) && k < bound ==> keys.contains(k),
    decreases bound,
{
    if bound == 0 {
        Seq::empty()
    } else {
        let below = lemma_keys_below(map, bound - 1);
        let top = (bound - 1) as u128;
        if map.contains_key(top) {
            let keys = below.push(top);
            assert forall|k: u128| #[trigger] map.contains_key(k) && k < bound implies keys.contains(
                k,
            ) by {
                if k == top {
                    assert(keys[below.len() as int] == k);
                } else {
                    let i = choose|i: int| 0 <= i < below.len() && below[i] == k;
                    assert(keys[i] == k);
                }
            }
            keys
        } else {
            below
        }
    }
}

/// Every map has a list of its keys in order.
pub proof fn lemma_sorted_keys<V>(map: Map<u128, V>)
    ensures
        keys_in_order(sorted_keys(map), map),
{
    let keys = lemma_keys_below(map, u128::MAX + 1);
    assert(keys_in_order(keys, map));
}

/// The value under a key.
pub fn lookup<V>(map: &BTreeMap<u128, V>, key: u128) -> (value: Option<&V>)
    ensures
        match value {
            Some(v) => map@.contains_key(key) && *v == map@[key],
            None => !map@.contains_key(key),
        },
{
    broadcast use vstd::std_specs::btree::group_btree_axioms;
    broadcast use vstd::laws_cmp::group_laws_cmp;

    map.get(&key)
}

/// Whether a key has a value.
pub fn holds<V>(map: &BTreeMap<u128, V>, key: u128) -> (present: bool)
    ensures
        present == map@.contains_key(key),
{
    broadcast use vstd::std_specs::btree::group_btree_axioms;
    broadcast use vstd::laws_cmp::group_laws_cmp;

    map.contains_key(&key)
}

/// Puts a value under a key, over an earlier one.
pub fn put<V>(map: &mut BTreeMap<u128, V>, key: u128, value: V)
    ensures
        final(map)@ == old(map)@.insert(key, value),
{
    broadcast use vstd::std_specs::btree::group_btree_axioms;
    broadcast use vstd::laws_cmp::group_laws_cmp;

    map.insert(key, value);
}

/// Takes the value from under a key.
pub fn take<V>(map: &mut BTreeMap<u128, V>, key: u128) -> (value: Option<V>)
    ensures
        final(map)@ == old(map)@.remove(key),
        match value {
            Some(v) => old(map)@.contains_key(key) && v == old(map)@[key],
            None => !old(map)@.contains_key(key),
        },
{
    broadcast use vstd::std_specs::btree::group_btree_axioms;
    broadcast use vstd::laws_cmp::group_laws_cmp;

    map.remove(&key)
}

/// The number of keys.
pub fn count<V>(map: &BTreeMap<u128, V>) -> (count: usize)
    ensures
        count == map@.dom().len(),
{
    broadcast use vstd::std_specs::btree::group_btree_axioms;
    broadcast use vstd::laws_cmp::group_laws_cmp;

    map.len()
}

/// The keys of a map in increasing order.
pub fn keys_of<V>(map: &BTreeMap<u128, V>) -> (keys: Vec<u128>)
    ensures
        keys_in_order(keys@, map@),
        keys@ == sorted_keys(map@),
{
    broadcast use vstd::std_specs::btree::group_btree_axioms;
    broadcast use vstd::laws_cmp::group_laws_cmp;

    let mut keys: Vec<u128> = Vec::new();
    let entries = map.iter();
    let ghost all = entries.remaining();
    let ghost order = all.map_values(|kv: (&u128, &V)| *kv.0);
    assert(vstd::std_specs::btree::increasing_seq(order));
    assert forall|i: int, j: int| 0 <= i < j < order.len() implies order[i] < order[j] by {
        assert(order[i].cmp_spec(&order[j]) is Less);
    }
    for kv in it: entries
        invariant
            it.seq() == all,
            keys@.len() == it.index@,
            forall|i: int| 0 <= i < keys@.len() ==> keys@[i] == *all[i].0,
    {
        keys.push(*kv.0);
    }
    proof {
        assert(keys@ =~= order);
        assert forall|k: u128| #[trigger] map@.contains_key(k) implies keys@.contains(k) by {
            assert(all.contains((&k, &map@[k])));
            let i = choose|i: int| 0 <= i < all.len() && all[i] == (&k, &map@[k]);
            assert(keys@[i] == k);
        }
        assert forall|i: int| 0 <= i < keys@.len() implies map@.contains_key(#[trigger] keys@[i]) by {
            assert(map@.contains_key(*all[i].0));
        }
        assert(keys_in_order(keys@, map@));
        lemma_keys_unique(keys@, sorted_keys(map@), map@);
    }
    keys
}

/// Whether a set has a member.
pub fn is_member(set: &BTreeSet<u128>, member: u128) -> (present: bool)
    ensures
        present == set@.contains(member),
{
    broadcast use vstd::std_specs::btree::group_btree_axioms;
    broadcast use vstd::laws_cmp::group_laws_cmp;

    set.contains(&member)
}

/// Adds a member to a set; whether it was new.
pub fn add_member(set: &mut BTreeSet<u128>, member: u128) -> (fresh: bool)
    ensures
        final(set)@ == old(set)@.insert(member),
        fresh == !old(set)@.contains(member),
{
    broadcast use vstd::std_specs::btree::group_btree_axioms;
    broadcast use vstd::laws_cmp::group_laws_cmp;

    set.insert(member)
}

/// Takes a member out of a set; whether it was there.
pub fn drop_member(set: &mut BTreeSet<u128>, member: u128) -> (present: bool)
    ensures
        final(set)@ == old(set)@.remove(member),
        present == old(set)@.contains(member),
{
    broadcast use vstd::std_specs::btree::group_btree_axioms;
    broadcast use vstd::laws_cmp::group_laws_cmp;

    set.remove(&member)
}

/// The number of members.
pub fn count_members(set: &BTreeSet<u128>) -> (count: usize)
    ensures
        count == set@.len(),
{
    broadcast use vstd::std_specs::btree::group_btree_axioms;
    broadcast use vstd::laws_cmp::group_laws_cmp;

    set.len()
}

/// The members of a set, each once.
pub fn members_of(set: &BTreeSet<u128>) -> (members: Vec<u128>)
    ensures
        members@.to_set() == set@,
        members@.no_duplicates(),
{
    broadcast use vstd::std_specs::btree::group_btree_axioms;
    broadcast use vstd::laws_cmp::group_laws_cmp;

    let mut members: Vec<u128> = Vec::new();
    let entries = set.iter();
    let ghost all = entries.remaining();
    for k in it: entries
        invariant
            it.seq() == all,
            members@.len() == it.index@,
            forall|i: int| 0 <= i < members@.len() ==> members@[i] == *all[i],
    {
        members.push(*k);
    }
    assert(members@ =~= all.unref());
    members
}

/// The members of a set in increasing order.
pub open spec fn sorted_members(members: Set<u128>) -> Seq<u128> {
    choose|list: Seq<u128>|
        increasing(list) && forall|k: u128| #[trigger] list.contains(k) <==> members.contains(k)
}

/// Every set has its members in increasing order.
pub proof fn lemma_sorted_members(members: Set<u128>)
    ensures
        increasing(sorted_members(members)),
        forall|k: u128| #[trigger] sorted_members(members).contains(k) <==> members.contains(k),
{
    let map = Map::new(|k: u128| members.contains(k), |k: u128| ());
    lemma_sorted_keys(map);
    let keys = sorted_keys(map);
    assert forall|k: u128| #[trigger] keys.contains(k) <==> members.contains(k) by {
        if members.contains(k) {
            assert(map.contains_key(k));
        }
        if keys.contains(k) {
            let i = choose|i: int| 0 <= i < keys.len() && keys[i] == k;
            assert(map.contains_key(keys[i]));
        }
    }
}

/// The members of a set in increasing order.
pub fn ordered_members(set: &BTreeSet<u128>) -> (members: Vec<u128>)
    ensures
        members@ == sorted_members(set@),
        increasing(members@),
        forall|k: u128| #[trigger] members@.contains(k) <==> set@.contains(k),
{
    let list = members_of(set);
    let mut keyed: BTreeMap<u128, ()> = BTreeMap::new();
    let mut i: usize = 0;
    while i < list.len()
        invariant
            0 <= i <= list@.len(),
            forall|k: u128| #[trigger]
                keyed@.contains_key(k) <==> exists|j: int| 0 <= j < i && list@[j] == k,
        decreases list@.len() - i,
    {
        let ghost before = keyed@;
        put(&mut keyed, list[i], ());
        assert forall|k: u128| #[trigger] keyed@.contains_key(k) implies exists|j: int|
            0 <= j < i + 1 && list@[j] == k by {
            if k == list@[i as int] {
                assert(list@[i as int] == k);
            } else {
                assert(before.contains_key(k));
            }
        }
        assert forall|k: u128| (exists|j: int| 0 <= j < i + 1 && list@[j] == k) implies (
        #[trigger] keyed@.contains_key(k)) by {
            if k != list@[i as int] {
                assert(before.contains_key(k));
            }
        }
        i += 1;
    }
    let members = keys_of(&keyed);
    proof {
        assert forall|k: u128| #[trigger] members@.contains(k) <==> set@.contains(k) by {
            assert(list@.to_set().contains(k) <==> list@.contains(k));
            if members@.contains(k) {
                assert(keyed@.contains_key(k));
            }
            if list@.contains(k) {
                assert(keyed@.contains_key(k));
            }
        }
        lemma_same_elements(members@, sorted_members(set@));
    }
    members
}

/// Adds a day to a set of days; whether it was new.
pub fn add_day(set: &mut BTreeSet<u64>, day: u64) -> (fresh: bool)
    ensures
        final(set)@ == old(set)@.insert(day),
        fresh == !old(set)@.contains(day),
{
    broadcast use vstd::std_specs::btree::group_btree_axioms;
    broadcast use vstd::laws_cmp::group_laws_cmp;

    set.insert(day)
}

/// The days of a set, each once.
pub fn days_of(set: &BTreeSet<u64>) -> (days: Vec<u64>)
    ensures
        days@.to_set() == set@,
        days@.no_duplicates(),
{
    broadcast use vstd::std_specs::btree::group_btree_axioms;
    broadcast use vstd::laws_cmp::group_laws_cmp;

    let mut days: Vec<u64> = Vec::new();
    let entries = set.iter();
    let ghost all = entries.remaining();
    for k in it: entries
        invariant
            it.seq() == all,
            days@.len() == it.index@,
            forall|i: int| 0 <= i < days@.len() ==> days@[i] == *all[i],
    {
        days.push(*k);
    }
    assert(days@ =~= all.unref());
    days
}

/// Adds a pair to a set of pairs; whether it was new.
pub fn add_pair(set: &mut BTreeSet<(u8, u128)>, pair: (u8, u128)) -> (fresh: bool)
    ensures
        final(set)@ == old(set)@.insert(pair),
        fresh == !old(set)@.contains(pair),
{
    broadcast use vstd::std_specs::btree::group_btree_axioms;
    broadcast use vstd::laws_cmp::group_laws_cmp;

    set.insert(pair)
}

/// The value under a pair of numbers.
pub fn lookup_pair<V>(map: &BTreeMap<(u128, u128), V>, key: (u128, u128)) -> (value: Option<&V>)
    ensures
        match value {
            Some(v) => map@.contains_key(key) && *v == map@[key],
            None => !map@.contains_key(key),
        },
{
    broadcast use vstd::std_specs::btree::group_btree_axioms;
    broadcast use vstd::laws_cmp::group_laws_cmp;

    map.get(&key)
}

/// Whether a pair of numbers has a value.
pub fn holds_pair<V>(map: &BTreeMap<(u128, u128), V>, key: (u128, u128)) -> (present: bool)
    ensures
        present == map@.contains_key(key),
{
    broadcast use vstd::std_specs::btree::group_btree_axioms;
    broadcast use vstd::laws_cmp::group_laws_cmp;

    map.contains_key(&key)
}

/// Puts a value under a pair of numbers, over an earlier one.
pub fn put_pair<V>(map: &mut BTreeMap<(u128, u128), V>, key: (u128, u128), value: V)
    ensures
        final(map)@ == old(map)@.insert(key, value),
{
    broadcast use vstd::std_specs::btree::group_btree_axioms;
    broadcast use vstd::laws_cmp::group_laws_cmp;

    map.insert(key, value);
}

/// Puts a value under a tagged number, over an earlier one.
pub fn put_tagged<V>(map: &mut BTreeMap<(u8, u128), V>, key: (u8, u128), value: V)
    ensures
        final(map)@ == old(map)@.insert(key, value),
{
    broadcast use vstd::std_specs::btree::group_btree_axioms;
    broadcast use vstd::laws_cmp::group_laws_cmp;

    map.insert(key, value);
}

/// Takes the value from under a tagged number.
pub fn drop_tagged<V>(map: &mut BTreeMap<(u8, u128), V>, key: (u8, u128))
    ensures
        final(map)@ == old(map)@.remove(key),
{
    broadcast use vstd::std_specs::btree::group_btree_axioms;
    broadcast use vstd::laws_cmp::group_laws_cmp;

    map.remove(&key);
}

} // verus!
