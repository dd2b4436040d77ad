//! Keyed tables: vectors whose entries carry a string key, with at most one
//! entry per key. They play the part of string-keyed hash maps, and are read
//! through [`table`]: the map from each key to its entry.

use vstd::prelude::*;

use crate::text::str_eq;

verus! {

/// An entry that carries a string key.
pub trait Keyed {
    spec fn key(&self) -> Seq<char>;

    fn key_str(&self) -> (r: &str)
        ensures
            r@ == self.key(),
    ;
}

/// No two entries share a key.
pub open spec fn unique_keys<T: Keyed>(s: Seq<T>) -> bool {
    forall|i: int, j: int| 0 <= i < s.len() && 0 <= j < s.len() && i != j ==> s[i].key() != s[j].key()
}

pub open spec fn has_key<T: Keyed>(s: Seq<T>, k: Seq<char>) -> bool {
    exists|i: int| 0 <= i < s.len() && s[i].key() == k
}

pub open spec fn key_index<T: Keyed>(s: Seq<T>, k: Seq<char>) -> int {
    choose|i: int| 0 <= i < s.len() && s[i].key() == k
}

/// The map from each key to the entry that holds it.
pub open spec fn table<T: Keyed>(s: Seq<T>) -> Map<Seq<char>, T> {
    Map::new(|k: Seq<char>| has_key(s, k), |k: Seq<char>| s[key_index(s, k)])
}

/// The entry for `k`, if any.
pub open spec fn lookup<T: Keyed>(s: Seq<T>, k: Seq<char>) -> Option<T> {
    if has_key(s, k) {
        Some(s[key_index(s, k)])
    } else {
        None
    }
}

pub proof fn lemma_key_index<T: Keyed>(s: Seq<T>, i: int)
    requires
        unique_keys(s),
        0 <= i < s.len(),
    ensures
        has_key(s, s[i].key()),
        key_index(s, s[i].key()) == i,
        lookup(s, s[i].key()) == Some(s[i]),
{
    assert(0 <= i < s.len() && s[i].key() == s[i].key());
}

/// Position of the entry with key `k`.
pub fn find_key<T: Keyed>(v: &Vec<T>, k: &str) -> (r: Option<usize>)
    requires
        unique_keys(v@),
    ensures
        r matches Some(i) ==> i < v@.len() && v@[i as int].key() == k@ && key_index(v@, k@) == i,
        r is None ==> !has_key(v@, k@),
        r is Some <==> has_key(v@, k@),
{
    let mut i: usize = 0;
    while i < v.len()
        invariant
            0 <= i <= v@.len(),
            unique_keys(v@),
            forall|j: int| 0 <= j < i ==> v@[j].key() != k@,
        decreases v.len() - i,
    {
        if str_eq(v[i].key_str(), k) {
            proof {
                lemma_key_index(v@, i as int);
            }
            return Some(i);
        }
        i += 1;
    }
    None
}

/// The entry with key `k`.
pub fn get_entry<'a, T: Keyed>(v: &'a Vec<T>, k: &str) -> (r: Option<&'a T>)
    requires
        unique_keys(v@),
    ensures
        r is Some == has_key(v@, k@),
        r matches Some(e) ==> *e == table(v@)[k@],
{
    match find_key(v, k) {
        Some(i) => Some(&v[i]),
        None => None,
    }
}

/// Adds `x`, replacing any entry with the same key.
pub fn insert_entry<T: Keyed>(v: &mut Vec<T>, x: T)
    requires
        unique_keys(old(v)@),
    ensures
        unique_keys(final(v)@),
        table(final(v)@) == table(old(v)@).insert(x.key(), x),
{
    let ghost s0 = v@;
    let ghost kx = x.key();
    match find_key(v, x.key_str()) {
        Some(i) => {
            v.set(i, x);
            let ghost s1 = v@;
            assert(unique_keys(s1)) by {
                assert forall|a: int, b: int|
                    0 <= a < s1.len() && 0 <= b < s1.len() && a != b implies s1[a].key()
                    != s1[b].key() by {
                    if a != i && b != i {
                        assert(s1[a] == s0[a] && s1[b] == s0[b]);
                    } else if a == i {
                        assert(s0[i as int].key() == kx);
                    } else {
                        assert(s0[i as int].key() == kx);
                    }
                }
            }
            assert(table(s1) =~= table(s0).insert(kx, x)) by {
                assert forall|k: Seq<char>| #[trigger] has_key(s1, k) == (k == kx || has_key(s0, k)) by {
                    if has_key(s0, k) {
                        let j = key_index(s0, k);
                        if j != i {
                            assert(s1[j] == s0[j]);
                        } else {
                            assert(s1[i as int].key() == kx);
                        }
                    }
                    if has_key(s1, k) {
                        let j = key_index(s1, k);
                        if j != i {
                            assert(s1[j] == s0[j]);
                        }
                    }
                    if k == kx {
                        assert(s1[i as int].key() == kx);
                    }
                }
                assert forall|k: Seq<char>| has_key(s1, k) implies #[trigger] table(s1)[k] == table(
                    s0,
                ).insert(kx, x)[k] by {
                    let j = key_index(s1, k);
                    lemma_key_index(s1, j);
                    if k == kx {
                        lemma_key_index(s1, i as int);
                    } else {
                        assert(j != i);
                        assert(s1[j] == s0[j]);
                        lemma_key_index(s0, j);
                    }
                }
            }
        },
        None => {
            v.push(x);
            let ghost s1 = v@;
            assert(unique_keys(s1)) by {
                assert forall|a: int, b: int|
                    0 <= a < s1.len() && 0 <= b < s1.len() && a != b implies s1[a].key()
                    != s1[b].key() by {
                    if a < s0.len() && b < s0.len() {
                        assert(s1[a] == s0[a] && s1[b] == s0[b]);
                    } else if a < s0.len() {
                        assert(s1[a] == s0[a]);
                    } else {
                        assert(s1[b] == s0[b]);
                    }
                }
            }
            assert(table(s1) =~= table(s0).insert(kx, x)) by {
                assert forall|k: Seq<char>| #[trigger] has_key(s1, k) == (k == kx || has_key(s0, k)) by {
                    if has_key(s0, k) {
                        let j = key_index(s0, k);
                        assert(s1[j] == s0[j]);
                    }
                    if has_key(s1, k) {
                        let j = key_index(s1, k);
                        if j < s0.len() {
                            assert(s1[j] == s0[j]);
                        }
                    }
                    if k == kx {
                        assert(s1[s0.len() as int].key() == kx);
                    }
                }
                assert forall|k: Seq<char>| has_key(s1, k) implies #[trigger] table(s1)[k] == table(
                    s0,
                ).insert(kx, x)[k] by {
                    let j = key_index(s1, k);
                    lemma_key_index(s1, j);
                    if k == kx {
                        lemma_key_index(s1, s0.len() as int);
                    } else {
                        assert(j < s0.len());
                        assert(s1[j] == s0[j]);
                        lemma_key_index(s0, j);
                    }
                }
            }
        },
    }
}

/// Removes the entry with key `k`, returning it.
pub fn remove_entry<T: Keyed>(v: &mut Vec<T>, k: &str) -> (r: Option<T>)
    requires
        unique_keys(old(v)@),
    ensures
        unique_keys(final(v)@),
        r == lookup(old(v)@, k@),
        table(final(v)@) == table(old(v)@).remove(k@),
{
    let ghost s0 = v@;
    match find_key(v, k) {
        Some(i) => {
            let x = v.remove(i);
            let ghost s1 = v@;
            assert(forall|j: int| 0 <= j < i ==> s1[j] == s0[j]);
            assert(forall|j: int| i <= j < s1.len() ==> s1[j] == s0[j + 1]);
            assert(unique_keys(s1)) by {
                assert forall|a: int, b: int|
                    0 <= a < s1.len() && 0 <= b < s1.len() && a != b implies s1[a].key()
                    != s1[b].key() by {
                    let a0 = if a < i { a } else { a + 1 };
                    let b0 = if b < i { b } else { b + 1 };
                    assert(s1[a] == s0[a0] && s1[b] == s0[b0]);
                }
            }
            assert(table(s1) =~= table(s0).remove(k@)) by {
                assert forall|q: Seq<char>| #[trigger] has_key(s1, q) == (q != k@ && has_key(s0, q)) by {
                    if has_key(s1, q) {
                        let j = key_index(s1, q);
                        let j0 = if j < i { j } else { j + 1 };
                        assert(s1[j] == s0[j0]);
                    }
                    if q != k@ && has_key(s0, q) {
                        let j0 = key_index(s0, q);
                        assert(j0 != i);
                        let j = if j0 < i { j0 } else { j0 - 1 };
                        assert(s1[j] == s0[j0]);
                    }
                }
                assert forall|q: Seq<char>| has_key(s1, q) implies #[trigger] table(s1)[q] == table(
                    s0,
                ).remove(k@)[q] by {
                    let j = key_index(s1, q);
                    lemma_key_index(s1, j);
                    let j0 = if j < i { j } else { j + 1 };
                    assert(s1[j] == s0[j0]);
                    lemma_key_index(s0, j0);
                }
            }
            Some(x)
        },
        None => {
            assert(table(s0) =~= table(s0).remove(k@));
            None
        },
    }
}

/// Whether no two entries of `v` share a key.
pub fn check_unique<T: Keyed>(v: &Vec<T>) -> (r: bool)
    ensures
        r == unique_keys(v@),
{
    let mut i: usize = 0;
    while i < v.len()
        invariant
            0 <= i <= v@.len(),
            forall|a: int, b: int| 0 <= a < i && 0 <= b < v@.len() && a != b ==> v@[a].key() != v@[b].key(),
        decreases v@.len() - i,
    {
        let mut j: usize = 0;
        while j < v.len()
            invariant
                0 <= i < v@.len(),
                0 <= j <= v@.len(),
                forall|a: int, b: int| 0 <= a < i && 0 <= b < v@.len() && a != b ==> v@[a].key() != v@[b].key(),
                forall|b: int| 0 <= b < j && b != i ==> v@[i as int].key() != v@[b].key(),
            decreases v@.len() - j,
        {
            if j != i && str_eq(v[i].key_str(), v[j].key_str()) {
                return false;
            }
            j += 1;
        }
        i += 1;
    }
    true
}

impl Keyed for (String, String) {
    open spec fn key(&self) -> Seq<char> {
        self.0@
    }

    fn key_str(&self) -> (r: &str) {
        self.0.as_str()
    }
}

impl Keyed for (String, i64) {
    open spec fn key(&self) -> Seq<char> {
        self.0@
    }

    fn key_str(&self) -> (r: &str) {
        self.0.as_str()
    }
}

} // verus!
