//! Association sequences with unique keys.
//!
//! Every engine keeps its records in a vector of key/value pairs whose keys
//! are pairwise distinct. These spec functions give such a sequence its
//! map-like reading — membership, lookup, overwrite-or-insert, removal —
//! and the lemmas state how the reading evolves across each mutation.

use vstd::prelude::*;

verus! {

/// No two entries share a key.
pub open spec fn uniq_keys<K, V>(s: Seq<(K, V)>) -> bool {
    forall|i: int, j: int| 0 <= i < j < s.len() ==> s[i].0 != s[j].0
}

/// Some entry carries key `k`.
pub open spec fn has_key<K, V>(s: Seq<(K, V)>, k: K) -> bool {
    exists|i: int| 0 <= i < s.len() && s[i].0 == k
}

/// The index of the entry carrying key `k` (meaningful when keys are
/// unique and `has_key` holds).
pub open spec fn key_idx<K, V>(s: Seq<(K, V)>, k: K) -> int {
    choose|i: int| 0 <= i < s.len() && s[i].0 == k
}

/// The value stored under `k`, if any.
pub open spec fn lookup<K, V>(s: Seq<(K, V)>, k: K) -> Option<V> {
    if has_key(s, k) {
        Some(s[key_idx(s, k)].1)
    } else {
        None
    }
}

/// The sequence after storing `v` under `k`: overwrites the entry in
/// place when the key is present, appends otherwise.
pub open spec fn store<K, V>(s: Seq<(K, V)>, k: K, v: V) -> Seq<(K, V)> {
    if has_key(s, k) {
        s.update(key_idx(s, k), (k, v))
    } else {
        s.push((k, v))
    }
}

/// The sequence after removing the entry under `k`, if present.
pub open spec fn drop_key<K, V>(s: Seq<(K, V)>, k: K) -> Seq<(K, V)> {
    if has_key(s, k) {
        s.remove(key_idx(s, k))
    } else {
        s
    }
}

/// Storing under a key keeps keys unique, binds the key to the new value,
/// and leaves every other binding as it was.
pub proof fn lemma_store<K, V>(s: Seq<(K, V)>, k: K, v: V)
    requires
        uniq_keys(s),
    ensures
        uniq_keys(store(s, k, v)),
        lookup(store(s, k, v), k) == Some(v),
        forall|k2: K| k2 != k ==> lookup(store(s, k, v), k2) == lookup(s, k2),
        store(s, k, v).len() == if has_key(s, k) {
            s.len()
        } else {
            s.len() + 1
        },
{
    let t = store(s, k, v);
    if has_key(s, k) {
        let i0 = key_idx(s, k);
        assert(0 <= i0 < s.len() && s[i0].0 == k);
        assert(uniq_keys(t)) by {
            assert forall|i: int, j: int| 0 <= i < j < t.len() implies t[i].0 != t[j].0 by {
                assert(t[i].0 == s[i].0);
                assert(t[j].0 == s[j].0);
            }
        }
        assert(has_key(t, k)) by {
            assert(t[i0].0 == k);
        }
        assert(key_idx(t, k) == i0) by {
            let j = key_idx(t, k);
            assert(0 <= j < t.len() && t[j].0 == k);
            if j != i0 {
                assert(s[j].0 == k);
            }
        }
        assert forall|k2: K| k2 != k implies lookup(t, k2) == lookup(s, k2) by {
            assert forall|i: int| 0 <= i < t.len() && t[i].0 == k2 implies s[i].0 == k2 && s[i].1
                == t[i].1 by {
                assert(i != i0);
            }
            assert forall|i: int| 0 <= i < s.len() && s[i].0 == k2 implies t[i].0 == k2 by {
                assert(i != i0);
            }
            if has_key(s, k2) {
                let a = key_idx(s, k2);
                let b = key_idx(t, k2);
                assert(0 <= a < s.len() && s[a].0 == k2);
                assert(t[a].0 == k2);
                assert(0 <= b < t.len() && t[b].0 == k2);
                assert(s[b].0 == k2);
                assert(a == b);
            } else {
                assert(!has_key(t, k2));
            }
        }
    } else {
        assert(t == s.push((k, v)));
        assert forall|i: int| 0 <= i < s.len() implies s[i].0 != k by {}
        assert(uniq_keys(t)) by {
            assert forall|i: int, j: int| 0 <= i < j < t.len() implies t[i].0 != t[j].0 by {
                if j < s.len() {
                    assert(t[i].0 == s[i].0 && t[j].0 == s[j].0);
                } else {
                    assert(t[i].0 == s[i].0 && t[j].0 == k);
                }
            }
        }
        assert(has_key(t, k)) by {
            assert(t[s.len() as int].0 == k);
        }
        assert(key_idx(t, k) == s.len()) by {
            let j = key_idx(t, k);
            assert(0 <= j < t.len() && t[j].0 == k);
            if j < s.len() {
                assert(s[j].0 == k);
            }
        }
        assert forall|k2: K| k2 != k implies lookup(t, k2) == lookup(s, k2) by {
            if has_key(s, k2) {
                let a = key_idx(s, k2);
                assert(t[a].0 == k2);
                let b = key_idx(t, k2);
                assert(0 <= b < t.len() && t[b].0 == k2);
                assert(b < s.len());
                assert(s[b].0 == k2);
                assert(a == b);
            } else {
                if has_key(t, k2) {
                    let b = key_idx(t, k2);
                    assert(0 <= b < t.len() && t[b].0 == k2);
                    assert(b < s.len());
                    assert(s[b].0 == k2);
                }
            }
        }
    }
}

/// Removing a key keeps keys unique, unbinds exactly that key, and leaves
/// every other binding as it was.
pub proof fn lemma_drop_key<K, V>(s: Seq<(K, V)>, k: K)
    requires
        uniq_keys(s),
    ensures
        uniq_keys(drop_key(s, k)),
        lookup(drop_key(s, k), k) == None::<V>,
        forall|k2: K| k2 != k ==> lookup(drop_key(s, k), k2) == lookup(s, k2),
        drop_key(s, k).len() == if has_key(s, k) {
            s.len() - 1
        } else {
            s.len() as int
        },
{
    if has_key(s, k) {
        let i0 = key_idx(s, k);
        assert(0 <= i0 < s.len() && s[i0].0 == k);
        let t = s.remove(i0);
        // every index of t corresponds to an index of s other than i0
        assert forall|i: int| 0 <= i < t.len() implies t[i] == s[if i < i0 {
            i
        } else {
            i + 1
        }] by {}
        assert(uniq_keys(t)) by {
            assert forall|i: int, j: int| 0 <= i < j < t.len() implies t[i].0 != t[j].0 by {
                let si = if i < i0 { i } else { i + 1 };
                let sj = if j < i0 { j } else { j + 1 };
                assert(t[i] == s[si] && t[j] == s[sj]);
                assert(si < sj);
            }
        }
        assert(!has_key(t, k)) by {
            if has_key(t, k) {
                let j = choose|j: int| 0 <= j < t.len() && t[j].0 == k;
                let sj = if j < i0 { j } else { j + 1 };
                assert(s[sj].0 == k);
                assert(sj != i0);
            }
        }
        assert forall|k2: K| k2 != k implies lookup(t, k2) == lookup(s, k2) by {
            if has_key(s, k2) {
                let a = key_idx(s, k2);
                assert(0 <= a < s.len() && s[a].0 == k2);
                assert(a != i0);
                let ta = if a < i0 { a } else { a - 1 };
                assert(t[ta] == s[a]);
                assert(has_key(t, k2));
                let b = key_idx(t, k2);
                let sb = if b < i0 { b } else { b + 1 };
                assert(s[sb].0 == k2);
                assert(sb == a);
                assert(t[b] == s[a]);
            } else {
                if has_key(t, k2) {
                    let b = key_idx(t, k2);
                    let sb = if b < i0 { b } else { b + 1 };
                    assert(s[sb].0 == k2);
                }
            }
        }
    }
}

/// Scan for the first entry keyed (by view) with `key`.
pub fn find_key<V>(v: &Vec<(String, V)>, key: &String) -> (r: Option<usize>)
    ensures
        match r {
            Some(i) => i < v@.len() && v@[i as int].0@ == key@ && (forall|j: int|
                0 <= j < i ==> v@[j].0@ != key@),
            None => forall|j: int| 0 <= j < v@.len() ==> v@[j].0@ != key@,
        },
{
    let n = v.len();
    let mut i: usize = 0;
    while i < n
        invariant
            i <= n,
            n == v@.len(),
            forall|j: int| 0 <= j < i ==> v@[j].0@ != key@,
        decreases n - i,
    {
        if v[i].0 == *key {
            return Some(i);
        }
        i = i + 1;
    }
    None
}

/// Scan for the first entry keyed (by view) with the pair `key`.
pub fn find_key2<V>(v: &Vec<((String, String), V)>, key: &(String, String)) -> (r: Option<usize>)
    ensures
        match r {
            Some(i) => i < v@.len() && v@[i as int].0.0@ == key.0@ && v@[i as int].0.1@ == key.1@
                && (forall|j: int|
                0 <= j < i ==> !(v@[j].0.0@ == key.0@ && v@[j].0.1@ == key.1@)),
            None => forall|j: int|
                0 <= j < v@.len() ==> !(v@[j].0.0@ == key.0@ && v@[j].0.1@ == key.1@),
        },
{
    let n = v.len();
    let mut i: usize = 0;
    while i < n
        invariant
            i <= n,
            n == v@.len(),
            forall|j: int| 0 <= j < i ==> !(v@[j].0.0@ == key.0@ && v@[j].0.1@ == key.1@),
        decreases n - i,
    {
        if v[i].0.0 == key.0 && v[i].0.1 == key.1 {
            return Some(i);
        }
        i = i + 1;
    }
    None
}

} // verus!
