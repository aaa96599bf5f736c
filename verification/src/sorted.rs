//! Lists kept in dictionary order of their keys.
//!
//! A map is a list of pairs in which the keys go up strictly, a set a list
//! of strings that goes up strictly. Inserting a key that is there already
//! replaces what it stood for.

use vstd::prelude::*;

use crate::text::{lemma_lex_le_antisym, lemma_lex_le_total, lemma_lex_le_trans, lex_le, str_eq, str_le};

verus! {

/// The views of a list of pairs of strings.
pub open spec fn pairs(list: Seq<(String, String)>) -> Seq<(Seq<char>, Seq<char>)> {
    Seq::new(list.len(), |i: int| (list[i].0@, list[i].1@))
}

/// The views of a list of strings.
pub open spec fn strings(list: Seq<String>) -> Seq<Seq<char>> {
    Seq::new(list.len(), |i: int| list[i]@)
}

/// The place behind the last key that does not come after `key`.
pub open spec fn key_position(keys: Seq<Seq<char>>, key: Seq<char>) -> int
    decreases keys.len(),
{
    if keys.len() == 0 {
        0
    } else if lex_le(keys.last(), key) {
        keys.len() as int
    } else {
        key_position(keys.drop_last(), key)
    }
}

/// The keys of a map.
pub open spec fn keys_of(map: Seq<(Seq<char>, Seq<char>)>) -> Seq<Seq<char>> {
    Seq::new(map.len(), |i: int| map[i].0)
}

/// The map with `key` standing for `value`.
pub open spec fn map_insert(map: Seq<(Seq<char>, Seq<char>)>, key: Seq<char>, value: Seq<char>) -> Seq<
    (Seq<char>, Seq<char>),
> {
    let p = key_position(keys_of(map), key);
    if 0 < p <= map.len() && map[p - 1].0 == key {
        map.update(p - 1, (key, value))
    } else {
        map.insert(p, (key, value))
    }
}

/// The set with `key` in it.
pub open spec fn set_insert(set: Seq<Seq<char>>, key: Seq<char>) -> Seq<Seq<char>> {
    let p = key_position(set, key);
    if 0 < p <= set.len() && set[p - 1] == key {
        set
    } else {
        set.insert(p, key)
    }
}

/// What `key` stands for in a map: the value of the last pair with this
/// key.
pub open spec fn map_get(map: Seq<(Seq<char>, Seq<char>)>, key: Seq<char>) -> Option<Seq<char>>
    decreases map.len(),
{
    if map.len() == 0 {
        None
    } else if map.last().0 == key {
        Some(map.last().1)
    } else {
        map_get(map.drop_last(), key)
    }
}

/// Whether a list holds `key`.
pub open spec fn holds(list: Seq<Seq<char>>, key: Seq<char>) -> bool {
    exists|i: int| 0 <= i < list.len() && list[i] == key
}

/// The place of `key` among the keys of `map`.
fn position_in_map(map: &Vec<(String, String)>, key: &str) -> (p: usize)
    ensures
        p == key_position(keys_of(pairs(map@)), key@),
        p <= map@.len(),
{
    let ghost keys = keys_of(pairs(map@));
    let mut p: usize = map.len();
    assert(keys.take(p as int) =~= keys);
    while p > 0 && !str_le(map[p - 1].0.as_str(), key)
        invariant
            p <= map@.len(),
            keys == keys_of(pairs(map@)),
            key_position(keys, key@) == key_position(keys.take(p as int), key@),
        decreases p,
    {
        assert(keys.take(p as int).last() == map@[p - 1].0@);
        assert(keys.take(p as int).drop_last() =~= keys.take(p - 1));
        p = p - 1;
    }
    proof {
        if p > 0 {
            assert(keys.take(p as int).last() == map@[p - 1].0@);
        }
    }
    p
}

/// The place of `key` in `set`.
fn position_in_set(set: &Vec<String>, key: &str) -> (p: usize)
    ensures
        p == key_position(strings(set@), key@),
        p <= set@.len(),
{
    let ghost keys = strings(set@);
    let mut p: usize = set.len();
    assert(keys.take(p as int) =~= keys);
    while p > 0 && !str_le(set[p - 1].as_str(), key)
        invariant
            p <= set@.len(),
            keys == strings(set@),
            key_position(keys, key@) == key_position(keys.take(p as int), key@),
        decreases p,
    {
        assert(keys.take(p as int).last() == set@[p - 1]@);
        assert(keys.take(p as int).drop_last() =~= keys.take(p - 1));
        p = p - 1;
    }
    proof {
        if p > 0 {
            assert(keys.take(p as int).last() == set@[p - 1]@);
        }
    }
    p
}

/// Lets `key` stand for `value` in `map`.
pub fn insert_pair(map: &mut Vec<(String, String)>, key: String, value: String)
    ensures
        pairs(final(map)@) == map_insert(pairs(old(map)@), key@, value@),
{
    let ghost before = pairs(map@);
    let p: usize = position_in_map(map, key.as_str());
    if p > 0 && str_eq(map[p - 1].0.as_str(), key.as_str()) {
        map.set(p - 1, (key, value));
        assert(pairs(map@) =~= before.update(p - 1, (key@, value@)));
    } else {
        map.insert(p, (key, value));
        assert(pairs(map@) =~= before.insert(p as int, (key@, value@)));
    }
}

/// Puts `key` into `set`.
pub fn insert_key(set: &mut Vec<String>, key: String)
    ensures
        strings(final(set)@) == set_insert(strings(old(set)@), key@),
{
    let ghost before = strings(set@);
    let p: usize = position_in_set(set, key.as_str());
    if p > 0 && str_eq(set[p - 1].as_str(), key.as_str()) {
    } else {
        set.insert(p, key);
        assert(strings(set@) =~= before.insert(p as int, key@));
    }
}

/// What `key` stands for in `map`.
pub fn get<'a>(map: &'a Vec<(String, String)>, key: &str) -> (r: Option<&'a str>)
    ensures
        match r {
            Some(value) => map_get(pairs(map@), key@) == Some(value@),
            None => map_get(pairs(map@), key@) is None,
        },
{
    let ghost all = pairs(map@);
    let mut p: usize = map.len();
    assert(all.take(p as int) =~= all);
    while p > 0
        invariant
            p <= map@.len(),
            all == pairs(map@),
            map_get(all, key@) == map_get(all.take(p as int), key@),
        decreases p,
    {
        assert(all.take(p as int).last() == (map@[p - 1].0@, map@[p - 1].1@));
        assert(all.take(p as int).drop_last() =~= all.take(p - 1));
        if str_eq(map[p - 1].0.as_str(), key) {
            return Some(map[p - 1].1.as_str());
        }
        p = p - 1;
    }
    None
}

/// Whether `list` holds `key`.
pub fn contains_key(list: &Vec<String>, key: &str) -> (r: bool)
    ensures
        r == holds(strings(list@), key@),
{
    let mut i: usize = 0;
    while i < list.len()
        invariant
            i <= list@.len(),
            forall|k: int| 0 <= k < i ==> strings(list@)[k] != key@,
        decreases list@.len() - i,
    {
        if str_eq(list[i].as_str(), key) {
            assert(strings(list@)[i as int] == key@);
            return true;
        }
        i = i + 1;
    }
    false
}

/// Whether keys go up strictly in dictionary order.
pub open spec fn strictly_sorted(keys: Seq<Seq<char>>) -> bool {
    forall|i: int, j: int|
        0 <= i < j < keys.len() ==> lex_le(keys[i], keys[j]) && keys[i] != keys[j]
}

/// In a sorted list, the place for `key` has before it the keys that do
/// not come after `key`, and behind it those that do.
proof fn lemma_key_position(keys: Seq<Seq<char>>, key: Seq<char>)
    requires
        strictly_sorted(keys),
    ensures
        0 <= key_position(keys, key) <= keys.len(),
        forall|i: int| 0 <= i < key_position(keys, key) ==> lex_le(#[trigger] keys[i], key),
        forall|i: int|
            key_position(keys, key) <= i < keys.len() ==> !lex_le(#[trigger] keys[i], key),
    decreases keys.len(),
{
    if keys.len() > 0 {
        if lex_le(keys.last(), key) {
            assert forall|i: int| 0 <= i < keys.len() implies lex_le(#[trigger] keys[i], key) by {
                if i < keys.len() - 1 {
                    lemma_lex_le_trans(keys[i], keys.last(), key);
                }
            }
        } else {
            let front = keys.drop_last();
            assert(strictly_sorted(front)) by {
                assert forall|i: int, j: int| 0 <= i < j < front.len() implies lex_le(
                    front[i],
                    front[j],
                ) && front[i] != front[j] by {
                    assert(front[i] == keys[i] && front[j] == keys[j]);
                }
            }
            lemma_key_position(front, key);
            assert forall|i: int| key_position(keys, key) <= i < keys.len() implies !lex_le(
                #[trigger] keys[i],
                key,
            ) by {
                if i < front.len() {
                    assert(keys[i] == front[i]);
                }
            }
            assert forall|i: int| 0 <= i < key_position(keys, key) implies lex_le(
                #[trigger] keys[i],
                key,
            ) by {
                assert(keys[i] == front[i]);
            }
        }
    }
}

/// Putting a key into a sorted list at its place keeps the list sorted.
proof fn lemma_insert_keeps_order(keys: Seq<Seq<char>>, key: Seq<char>)
    requires
        strictly_sorted(keys),
        !(0 < key_position(keys, key) && keys[key_position(keys, key) - 1] == key),
    ensures
        strictly_sorted(keys.insert(key_position(keys, key), key)),
{
    lemma_key_position(keys, key);
    let p = key_position(keys, key);
    let r = keys.insert(p, key);
    keys.insert_ensures(p, key);
    assert forall|i: int, j: int| 0 <= i < j < r.len() implies lex_le(r[i], r[j]) && r[i]
        != r[j] by {
        if j < p {
            assert(r[i] == keys[i] && r[j] == keys[j]);
        } else if j == p {
            assert(r[i] == keys[i]);
            if keys[i] == key {
                if i < p - 1 {
                    assert(lex_le(keys[i], keys[p - 1]) && keys[i] != keys[p - 1]);
                    lemma_lex_le_antisym(keys[i], keys[p - 1]);
                }
            }
        } else {
            assert(r[j] == keys[j - 1]);
            if i < p {
                assert(r[i] == keys[i]);
            } else if i == p {
                lemma_lex_le_total(key, keys[j - 1]);
                if key == keys[j - 1] {
                    crate::text::lemma_lex_le_refl(key);
                }
            } else {
                assert(r[i] == keys[i - 1]);
            }
        }
    }
}

/// A set stays sorted when a key is put into it, and holds the key and
/// what it held before, nothing else.
pub proof fn lemma_set_insert(set: Seq<Seq<char>>, key: Seq<char>)
    requires
        strictly_sorted(set),
    ensures
        strictly_sorted(set_insert(set, key)),
        forall|k: Seq<char>| holds(set_insert(set, key), k) <==> (k == key || holds(set, k)),
{
    lemma_key_position(set, key);
    let p = key_position(set, key);
    let r = set_insert(set, key);
    if 0 < p && set[p - 1] == key {
        assert(holds(set, key));
    } else {
        lemma_insert_keeps_order(set, key);
        set.insert_ensures(p, key);
        assert forall|k: Seq<char>| holds(r, k) <==> (k == key || holds(set, k)) by {
            if holds(r, k) {
                let i = choose|i: int| 0 <= i < r.len() && r[i] == k;
                if i < p {
                    assert(set[i] == k);
                } else if i > p {
                    assert(set[i - 1] == k);
                }
            }
            if k == key {
                assert(r[p] == k);
            }
            if holds(set, k) {
                let i = choose|i: int| 0 <= i < set.len() && set[i] == k;
                if i < p {
                    assert(r[i] == k);
                } else {
                    assert(r[i + 1] == k);
                }
            }
        }
    }
}

/// In a sorted map every pair is found under its key.
pub proof fn lemma_map_get_at(map: Seq<(Seq<char>, Seq<char>)>, i: int)
    requires
        strictly_sorted(keys_of(map)),
        0 <= i < map.len(),
    ensures
        map_get(map, map[i].0) == Some(map[i].1),
    decreases map.len(),
{
    if map.last().0 == map[i].0 {
        if i < map.len() - 1 {
            assert(lex_le(keys_of(map)[i], keys_of(map)[map.len() - 1]) && keys_of(map)[i]
                != keys_of(map)[map.len() - 1]);
        }
    } else {
        let front = map.drop_last();
        assert(strictly_sorted(keys_of(front))) by {
            assert forall|a: int, b: int| 0 <= a < b < front.len() implies lex_le(
                keys_of(front)[a],
                keys_of(front)[b],
            ) && keys_of(front)[a] != keys_of(front)[b] by {
                assert(keys_of(front)[a] == keys_of(map)[a]);
                assert(keys_of(front)[b] == keys_of(map)[b]);
            }
        }
        assert(front[i] == map[i]);
        lemma_map_get_at(front, i);
    }
}

/// What a map gives for a key is the value of a pair with that key, and
/// it gives nothing only where no pair has the key.
pub proof fn lemma_map_get_found(map: Seq<(Seq<char>, Seq<char>)>, key: Seq<char>)
    ensures
        match map_get(map, key) {
            Some(value) => exists|i: int| 0 <= i < map.len() && map[i] == (key, value),
            None => forall|i: int| 0 <= i < map.len() ==> (#[trigger] map[i]).0 != key,
        },
    decreases map.len(),
{
    if map.len() > 0 {
        if map.last().0 == key {
            assert(map[map.len() - 1] == (key, map.last().1));
        } else {
            let front = map.drop_last();
            lemma_map_get_found(front, key);
            match map_get(front, key) {
                Some(value) => {
                    let i = choose|i: int| 0 <= i < front.len() && front[i] == (key, value);
                    assert(map[i] == (key, value));
                },
                None => {
                    assert forall|i: int| 0 <= i < map.len() implies (#[trigger] map[i]).0
                        != key by {
                        if i < front.len() {
                            assert(front[i] == map[i]);
                        }
                    }
                },
            }
        }
    }
}

/// A map stays sorted when a key is given a value; the key then stands
/// for this value, and every other key for what it stood for before.
pub proof fn lemma_map_insert(map: Seq<(Seq<char>, Seq<char>)>, key: Seq<char>, value: Seq<char>)
    requires
        strictly_sorted(keys_of(map)),
    ensures
        strictly_sorted(keys_of(map_insert(map, key, value))),
        map_get(map_insert(map, key, value), key) == Some(value),
        forall|k: Seq<char>| k != key ==> map_get(map_insert(map, key, value), k) == map_get(map, k),
{
    let keys = keys_of(map);
    lemma_key_position(keys, key);
    let p = key_position(keys, key);
    let r = map_insert(map, key, value);
    if 0 < p && map[p - 1].0 == key {
        assert(keys_of(r) =~= keys);
        assert(r[p - 1] == (key, value));
        lemma_map_get_at(r, p - 1);
        assert forall|k: Seq<char>| k != key implies map_get(r, k) == map_get(map, k) by {
            lemma_map_get_found(map, k);
            lemma_map_get_found(r, k);
            match map_get(map, k) {
                Some(v) => {
                    let i = choose|i: int| 0 <= i < map.len() && map[i] == (k, v);
                    assert(r[i] == (k, v));
                    lemma_map_get_at(r, i);
                },
                None => {
                    if map_get(r, k) is Some {
                        let v = map_get(r, k)->0;
                        let i = choose|i: int| 0 <= i < r.len() && r[i] == (k, v);
                        assert(map[i].0 == k);
                    }
                },
            }
        }
    } else {
        assert(keys[p - 1] == map[p - 1].0 || p == 0);
        lemma_insert_keeps_order(keys, key);
        map.insert_ensures(p, (key, value));
        keys.insert_ensures(p, key);
        assert(keys_of(r) =~= keys.insert(p, key));
        assert(r[p] == (key, value));
        lemma_map_get_at(r, p);
        assert forall|k: Seq<char>| k != key implies map_get(r, k) == map_get(map, k) by {
            lemma_map_get_found(map, k);
            lemma_map_get_found(r, k);
            match map_get(map, k) {
                Some(v) => {
                    let i = choose|i: int| 0 <= i < map.len() && map[i] == (k, v);
                    if i < p {
                        assert(r[i] == (k, v));
                        lemma_map_get_at(r, i);
                    } else {
                        assert(r[i + 1] == (k, v));
                        lemma_map_get_at(r, i + 1);
                    }
                },
                None => {
                    if map_get(r, k) is Some {
                        let v = map_get(r, k)->0;
                        let i = choose|i: int| 0 <= i < r.len() && r[i] == (k, v);
                        if i < p {
                            assert(map[i].0 == k);
                        } else if i > p {
                            assert(map[i - 1].0 == k);
                        }
                    }
                },
            }
        }
    }
}

} // verus!
