//! Association lists keyed by text: the ordered maps of the state store.
use vstd::prelude::*;
use crate::json::{Json, JsonV};

verus! {

/// Whether some entry has key `k`.
pub open spec fn has_key<V>(s: Seq<(Seq<char>, V)>, k: Seq<char>) -> bool {
    exists|i: int| 0 <= i < s.len() && (#[trigger] s[i]).0 == k
}

/// The first position of key `k`, where it is present.
pub open spec fn key_index<V>(s: Seq<(Seq<char>, V)>, k: Seq<char>) -> int {
    choose|i: int|
        0 <= i < s.len() && (#[trigger] s[i]).0 == k && forall|j: int|
            0 <= j < i ==> (#[trigger] s[j]).0 != k
}

/// No two entries share a key.
pub open spec fn keys_unique<V>(s: Seq<(Seq<char>, V)>) -> bool {
    forall|i: int, j: int|
        0 <= i < s.len() && 0 <= j < s.len() && i != j ==> (#[trigger] s[i]).0 != (#[trigger] s[j]).0
}

/// The value stored under `k`.
pub open spec fn lookup<V>(s: Seq<(Seq<char>, V)>, k: Seq<char>) -> Option<V> {
    if has_key(s, k) {
        Some(s[key_index(s, k)].1)
    } else {
        None
    }
}

/// `s` with `k` bound to `v`: the entry is replaced in place, or appended.
pub open spec fn put<V>(s: Seq<(Seq<char>, V)>, k: Seq<char>, v: V) -> Seq<(Seq<char>, V)> {
    if has_key(s, k) {
        s.update(key_index(s, k), (k, v))
    } else {
        s.push((k, v))
    }
}

/// The view of a namespace: keys and values as mathematical values.
pub open spec fn ns_view(v: Seq<(String, Json)>) -> Seq<(Seq<char>, JsonV)> {
    v.map_values(|p: (String, Json)| (p.0@, p.1@))
}

pub proof fn lemma_first_index<V>(s: Seq<(Seq<char>, V)>, k: Seq<char>, i: int)
    requires
        0 <= i < s.len(),
        s[i].0 == k,
        forall|j: int| 0 <= j < i ==> (#[trigger] s[j]).0 != k,
    ensures
        has_key(s, k),
        key_index(s, k) == i,
{
    let m = key_index(s, k);
    if m < i {
        assert(s[m].0 != k);
    }
    if m > i {
        assert(s[i].0 != k);
    }
}

pub proof fn lemma_key_index_unique<V>(s: Seq<(Seq<char>, V)>, k: Seq<char>, i: int)
    requires
        keys_unique(s),
        0 <= i < s.len(),
        s[i].0 == k,
    ensures
        has_key(s, k),
        key_index(s, k) == i,
        lookup(s, k) == Some(s[i].1),
{
    assert forall|j: int| 0 <= j < i implies (#[trigger] s[j]).0 != k by {
        assert(s[j].0 != s[i].0);
    }
    lemma_first_index(s, k, i);
}

pub proof fn lemma_put<V>(s: Seq<(Seq<char>, V)>, k: Seq<char>, v: V)
    requires
        keys_unique(s),
    ensures
        keys_unique(put(s, k, v)),
        lookup(put(s, k, v), k) == Some(v),
        forall|k2: Seq<char>| k2 != k ==> lookup(put(s, k, v), k2) == lookup(s, k2),
{
    let t = put(s, k, v);
    let i = if has_key(s, k) {
        key_index(s, k)
    } else {
        s.len() as int
    };
    assert(t[i].0 == k);
    assert(keys_unique(t)) by {
        assert forall|a: int, b: int|
            0 <= a < t.len() && 0 <= b < t.len() && a != b implies (#[trigger] t[a]).0 != (
        #[trigger] t[b]).0 by {
            if a != i && b != i {
                assert(t[a] == s[a] && t[b] == s[b]);
            } else if a == i {
                assert(t[b] == s[b]);
            } else {
                assert(t[a] == s[a]);
            }
        }
    }
    lemma_key_index_unique(t, k, i);
    assert forall|k2: Seq<char>| k2 != k implies lookup(t, k2) == lookup(s, k2) by {
        if has_key(s, k2) {
            let j = key_index(s, k2);
            assert(t[j] == s[j]);
            lemma_key_index_unique(t, k2, j);
            lemma_key_index_unique(s, k2, j);
        } else if has_key(t, k2) {
            let j = key_index(t, k2);
            assert(s[j] == t[j]);
        }
    }
}

/// What the answer of `find_key` on `v` says of a view `s` with the same keys.
pub proof fn lemma_find_in_view<V, W>(v: Seq<(String, V)>, s: Seq<(Seq<char>, W)>, k: Seq<char>, r: Option<usize>)
    requires
        s.len() == v.len(),
        forall|j: int| 0 <= j < v.len() ==> (#[trigger] s[j]).0 == v[j].0@,
        r is Some ==> r->0 < v.len() && v[r->0 as int].0@ == k && forall|j: int|
            0 <= j < r->0 ==> (#[trigger] v[j]).0@ != k,
        r is None ==> forall|j: int| 0 <= j < v.len() ==> (#[trigger] v[j]).0@ != k,
    ensures
        r is Some ==> has_key(s, k) && key_index(s, k) == r->0 && lookup(s, k) == Some(s[r->0 as int].1),
        r is None ==> !has_key(s, k) && lookup(s, k) is None,
{
    if r is Some {
        let i = r->0 as int;
        assert forall|j: int| 0 <= j < i implies (#[trigger] s[j]).0 != k by {
            assert(s[j].0 == v[j].0@);
        }
        lemma_first_index(s, k, i);
    } else if has_key(s, k) {
        let j = choose|j: int| 0 <= j < s.len() && (#[trigger] s[j]).0 == k;
        assert(v[j].0@ == s[j].0);
    }
}

/// Text equality of two string slices.
pub fn text_eq(a: &str, b: &str) -> (r: bool)
    ensures
        r == (a@ == b@),
{
    let x = a.to_owned();
    let y = b.to_owned();
    x == y
}

/// The first position of key `k` in `v`, if any.
pub fn find_key<V>(v: &Vec<(String, V)>, k: &str) -> (r: Option<usize>)
    ensures
        r is Some ==> r->0 < v@.len() && v@[r->0 as int].0@ == k@,
        r is Some ==> forall|j: int| 0 <= j < r->0 ==> (#[trigger] v@[j]).0@ != k@,
        r is None ==> forall|j: int| 0 <= j < v@.len() ==> (#[trigger] v@[j]).0@ != k@,
{
    let key = k.to_owned();
    let mut i: usize = 0;
    while i < v.len()
        invariant
            0 <= i <= v@.len(),
            key@ == k@,
            forall|j: int| 0 <= j < i ==> (#[trigger] v@[j]).0@ != k@,
        decreases v@.len() - i,
    {
        if v[i].0 == key {
            return Some(i);
        }
        i = i + 1;
    }
    None
}

/// The value under `k` in a namespace.
pub fn ns_get<'a>(v: &'a Vec<(String, Json)>, k: &str) -> (r: Option<&'a Json>)
    ensures
        r is None <==> lookup(ns_view(v@), k@) is None,
        r is Some ==> lookup(ns_view(v@), k@) == Some(r->0@),
{
    let ghost s = ns_view(v@);
    let found = find_key(v, k);
    proof {
        lemma_find_in_view(v@, s, k@, found);
    }
    match found {
        Some(i) => {
            Some(&v[i].1)
        },
        None => {
            None
        },
    }
}

/// The view of a list keyed by text, with plain values.
pub open spec fn keyed_view<V>(v: Seq<(String, V)>) -> Seq<(Seq<char>, V)> {
    v.map_values(|p: (String, V)| (p.0@, p.1))
}

/// The value under `k` in a list keyed by text.
pub fn keyed_get<V: Copy>(v: &Vec<(String, V)>, k: &str) -> (r: Option<V>)
    ensures
        r == lookup(keyed_view(v@), k@),
{
    let ghost s = keyed_view(v@);
    let found = find_key(v, k);
    proof {
        lemma_find_in_view(v@, s, k@, found);
    }
    match found {
        Some(i) => {
            Some(v[i].1)
        },
        None => {
            None
        },
    }
}

/// Binds `k` to `val` in a list keyed by text.
pub fn keyed_put<V>(v: &mut Vec<(String, V)>, k: String, val: V)
    ensures
        keyed_view(final(v)@) == put(keyed_view(old(v)@), k@, val),
{
    let ghost s = keyed_view(v@);
    let found = find_key(v, k.as_str());
    proof {
        lemma_find_in_view(v@, s, k@, found);
    }
    match found {
        Some(i) => {
            v.set(i, (k, val));
            proof {
                assert(keyed_view(v@) =~= put(s, k@, val));
            }
        },
        None => {
            v.push((k, val));
            proof {
                assert(keyed_view(v@) =~= put(s, k@, val));
            }
        },
    }
}

/// Binds `k` to `val` in a namespace, replacing its entry or appending one.
pub fn ns_put(v: &mut Vec<(String, Json)>, k: String, val: Json)
    ensures
        ns_view(final(v)@) == put(ns_view(old(v)@), k@, val@),
{
    let ghost s = ns_view(v@);
    let found = find_key(v, k.as_str());
    proof {
        lemma_find_in_view(v@, s, k@, found);
    }
    match found {
        Some(i) => {
            v.set(i, (k, val));
            proof {
                assert(ns_view(v@) =~= put(s, k@, val@));
            }
        },
        None => {
            v.push((k, val));
            proof {
                assert(ns_view(v@) =~= put(s, k@, val@));
            }
        },
    }
}

} // verus!
