//! Tables keyed by text: a vector of `(key, value)` pairs in which no key occurs twice,
//! read as a map from keys to values.
use vstd::prelude::*;
use crate::text::{chars_eq, chars_of};

verus! {

/// The keys of a table, in order.
pub open spec fn table_keys<V>(t: Seq<(String, V)>) -> Seq<Seq<char>> {
    t.map_values(|e: (String, V)| e.0@)
}

/// No key occurs twice.
pub open spec fn distinct_keys<V>(t: Seq<(String, V)>) -> bool {
    forall|i: int, j: int|
        0 <= i < t.len() && 0 <= j < t.len() && i != j ==> #[trigger] t[i].0@ != #[trigger] t[j].0@
}

/// The value stored under `key`, looked up from the end.
pub open spec fn lookup<V>(t: Seq<(String, V)>, key: Seq<char>) -> Option<V>
    decreases t.len(),
{
    if t.len() == 0 {
        None
    } else if t.last().0@ == key {
        Some(t.last().1)
    } else {
        lookup(t.drop_last(), key)
    }
}

/// The table as a map from keys to values.
pub open spec fn table_map<V>(t: Seq<(String, V)>) -> Map<Seq<char>, V> {
    Map::new(|k: Seq<char>| lookup(t, k) is Some, |k: Seq<char>| lookup(t, k)->0)
}

/// In a table without repeated keys, the entry at `i` is what its key looks up.
pub proof fn lemma_lookup_index<V>(t: Seq<(String, V)>, i: int)
    requires
        distinct_keys(t),
        0 <= i < t.len(),
    ensures
        lookup(t, t[i].0@) == Some(t[i].1),
    decreases t.len(),
{
    if i < t.len() - 1 {
        let d = t.drop_last();
        assert(t[i].0@ != t[t.len() - 1].0@);
        assert(d[i] == t[i]);
        assert forall|a: int, b: int|
            0 <= a < d.len() && 0 <= b < d.len() && a != b implies #[trigger] d[a].0@
            != #[trigger] d[b].0@ by {
            assert(d[a] == t[a] && d[b] == t[b]);
        }
        lemma_lookup_index(d, i);
    }
}

/// A key that no entry holds looks up nothing.
pub proof fn lemma_lookup_absent<V>(t: Seq<(String, V)>, key: Seq<char>)
    requires
        forall|i: int| 0 <= i < t.len() ==> #[trigger] t[i].0@ != key,
    ensures
        lookup(t, key) is None,
    decreases t.len(),
{
    if t.len() > 0 {
        let d = t.drop_last();
        assert forall|i: int| 0 <= i < d.len() implies #[trigger] d[i].0@ != key by {
            assert(d[i] == t[i]);
        }
        lemma_lookup_absent(d, key);
    }
}

/// A key that looks up something is held by some entry.
pub proof fn lemma_lookup_some<V>(t: Seq<(String, V)>, key: Seq<char>)
    ensures
        lookup(t, key) is Some ==> exists|i: int| 0 <= i < t.len() && #[trigger] t[i].0@ == key,
    decreases t.len(),
{
    if t.len() > 0 && t.last().0@ != key {
        let d = t.drop_last();
        lemma_lookup_some(d, key);
        if lookup(t, key) is Some {
            let i = choose|i: int| 0 <= i < d.len() && #[trigger] d[i].0@ == key;
            assert(t[i] == d[i]);
        }
    }
}

/// Changing the value at `i`, keeping its key, changes no other key's lookup.
pub proof fn lemma_lookup_other<V>(t0: Seq<(String, V)>, t1: Seq<(String, V)>, i: int, k: Seq<char>)
    requires
        t0.len() == t1.len(),
        0 <= i < t0.len(),
        t1[i].0@ == t0[i].0@,
        t0[i].0@ != k,
        forall|j: int| 0 <= j < t0.len() && j != i ==> t1[j] == t0[j],
    ensures
        lookup(t1, k) == lookup(t0, k),
    decreases t0.len(),
{
    if i < t0.len() - 1 {
        lemma_lookup_other(t0.drop_last(), t1.drop_last(), i, k);
    } else {
        assert(t1.drop_last() =~= t0.drop_last());
    }
}

/// The position of `key` in the table.
pub fn find_key<V>(t: &Vec<(String, V)>, key: &str) -> (r: Option<usize>)
    requires
        distinct_keys(t@),
    ensures
        match r {
            Some(i) => i < t@.len() && t@[i as int].0@ == key@ && lookup(t@, key@) == Some(
                t@[i as int].1,
            ),
            None => lookup(t@, key@) is None && forall|j: int|
                0 <= j < t@.len() ==> #[trigger] t@[j].0@ != key@,
        },
{
    let kv = chars_of(key);
    let mut i: usize = 0;
    while i < t.len()
        invariant
            0 <= i <= t@.len(),
            kv@ == key@,
            distinct_keys(t@),
            forall|j: int| 0 <= j < i ==> #[trigger] t@[j].0@ != key@,
        decreases t@.len() - i,
    {
        if chars_eq(chars_of(t[i].0.as_str()).as_slice(), kv.as_slice()) {
            proof {
                lemma_lookup_index(t@, i as int);
            }
            return Some(i);
        }
        i += 1;
    }
    proof {
        lemma_lookup_absent(t@, key@);
    }
    None
}

/// Stores `value` under `key`: the entry of `key` is replaced in place, or a new entry is
/// appended at the end.
pub fn insert_entry<V>(t: &mut Vec<(String, V)>, key: &str, value: V)
    requires
        distinct_keys(old(t)@),
    ensures
        distinct_keys(final(t)@),
        table_map(final(t)@) == table_map(old(t)@).insert(key@, value),
        lookup(old(t)@, key@) is Some ==> table_keys(final(t)@) == table_keys(old(t)@),
        lookup(old(t)@, key@) is None ==> table_keys(final(t)@) == table_keys(old(t)@).push(key@),
{
    let ghost t0 = t@;
    match find_key(t, key) {
        Some(i) => {
            let name = t[i].0.clone();
            t.set(i, (name, value));
            proof {
                let t1 = t@;
                assert(distinct_keys(t1)) by {
                    assert forall|a: int, b: int|
                        0 <= a < t1.len() && 0 <= b < t1.len() && a != b implies #[trigger] t1[a].0@
                        != #[trigger] t1[b].0@ by {
                        assert(t1[a].0@ == t0[a].0@);
                        assert(t1[b].0@ == t0[b].0@);
                    }
                }
                lemma_lookup_index(t1, i as int);
                assert forall|k: Seq<char>| k != key@ implies lookup(t1, k) == lookup(t0, k) by {
                    lemma_lookup_other(t0, t1, i as int, k);
                }
                assert(table_map(t1) =~= table_map(t0).insert(key@, value));
                assert(table_keys(t1) =~= table_keys(t0));
            }
        },
        None => {
            t.push((crate::text::string_of(chars_of(key).as_slice()), value));
            proof {
                let t1 = t@;
                assert(t1.drop_last() =~= t0);
                assert(distinct_keys(t1)) by {
                    assert forall|a: int, b: int|
                        0 <= a < t1.len() && 0 <= b < t1.len() && a != b implies #[trigger] t1[a].0@
                        != #[trigger] t1[b].0@ by {
                        if a < t0.len() {
                            assert(t1[a] == t0[a]);
                        }
                        if b < t0.len() {
                            assert(t1[b] == t0[b]);
                        }
                    }
                }
                assert(table_map(t1) =~= table_map(t0).insert(key@, value));
                assert(table_keys(t1) =~= table_keys(t0).push(key@));
            }
        },
    }
}

} // verus!
