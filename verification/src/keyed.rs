//! Vectors of records addressed by a string key carried inside each record.
//! The cache keeps every key-to-record mapping this way: a vector with
//! pairwise distinct keys, viewed in specifications as a `Map` from the key
//! to the record's view.

use vstd::prelude::*;

verus! {

/// A record stored in a vector and addressed by a string key of its own.
pub trait Keyed: View {
    /// The key under which the record is stored.
    spec fn key(&self) -> Seq<char>;

    /// The stored string whose view is the key.
    fn key_ref(&self) -> (r: &String)
        ensures
            r@ == self.key(),
    ;
}

/// Whether some record in `s` carries key `k`.
pub open spec fn has_key<T: Keyed>(s: Seq<T>, k: Seq<char>) -> bool {
    exists|i: int| 0 <= i < s.len() && s[i].key() == k
}

/// Index of the record carrying key `k`; meaningful when `has_key(s, k)`
/// holds and the keys are distinct.
pub open spec fn key_index<T: Keyed>(s: Seq<T>, k: Seq<char>) -> int {
    choose|i: int| 0 <= i < s.len() && s[i].key() == k
}

/// Pairwise distinct keys: the well-formedness of every keyed vector.
pub open spec fn keys_unique<T: Keyed>(s: Seq<T>) -> bool {
    forall|i: int, j: int| 0 <= i < j < s.len() ==> s[i].key() != s[j].key()
}

/// The mapping a keyed vector represents: each key to the view of the
/// record carrying it.
pub open spec fn keyed_map<T: Keyed>(s: Seq<T>) -> Map<Seq<char>, T::V> {
    Map::new(|k: Seq<char>| has_key(s, k), |k: Seq<char>| s[key_index(s, k)]@)
}

/// With distinct keys, the record at index `i` is what the map holds under
/// its key.
pub proof fn lemma_keyed_map_at<T: Keyed>(s: Seq<T>, i: int)
    requires
        keys_unique(s),
        0 <= i < s.len(),
    ensures
        keyed_map(s).contains_key(s[i].key()),
        keyed_map(s)[s[i].key()] == s[i]@,
{
    let k = s[i].key();
    assert(has_key(s, k));
    let j = key_index(s, k);
    assert(0 <= j < s.len() && s[j].key() == k);
    if i < j {
        assert(s[i].key() != s[j].key());
    }
    if j < i {
        assert(s[j].key() != s[i].key());
    }
}

/// Appending a record with a fresh key inserts it into the map.
pub proof fn lemma_keyed_map_push<T: Keyed>(s: Seq<T>, x: T)
    requires
        keys_unique(s),
        !has_key(s, x.key()),
    ensures
        keys_unique(s.push(x)),
        keyed_map(s.push(x)) == keyed_map(s).insert(x.key(), x@),
{
    let t = s.push(x);
    assert forall|i: int, j: int| 0 <= i < j < t.len() implies t[i].key() != t[j].key() by {
        if j < s.len() {
            assert(s[i].key() != s[j].key());
        } else {
            assert(t[j] == x);
            assert(t[i] == s[i]);
            assert(s[i].key() != x.key()) by {
                if s[i].key() == x.key() {
                    assert(has_key(s, x.key()));
                }
            }
        }
    }
    assert forall|k: Seq<char>| #![auto] true implies
        (keyed_map(t).contains_key(k) <==> keyed_map(s).insert(x.key(), x@).contains_key(k)) by {
        if has_key(t, k) {
            let i = choose|i: int| 0 <= i < t.len() && t[i].key() == k;
            if i < s.len() {
                assert(has_key(s, k));
            }
        }
        if has_key(s, k) {
            let i = choose|i: int| 0 <= i < s.len() && s[i].key() == k;
            assert(t[i].key() == k);
            assert(has_key(t, k));
        }
        if k == x.key() {
            assert(t[s.len() as int].key() == k);
            assert(has_key(t, k));
        }
    }
    assert forall|k: Seq<char>| keyed_map(t).contains_key(k) implies
        keyed_map(t)[k] == keyed_map(s).insert(x.key(), x@)[k] by {
        let i = key_index(t, k);
        assert(0 <= i < t.len() && t[i].key() == k);
        if k == x.key() {
            lemma_keyed_map_at(t, s.len() as int);
        } else {
            assert(i < s.len());
            assert(t[i] == s[i]);
            lemma_keyed_map_at(t, i);
            lemma_keyed_map_at(s, i);
        }
    }
    assert(keyed_map(t) =~= keyed_map(s).insert(x.key(), x@));
}

/// Replacing the record at index `i` with one carrying the same key
/// overwrites that key's record in the map.
pub proof fn lemma_keyed_map_update<T: Keyed>(s: Seq<T>, i: int, x: T)
    requires
        keys_unique(s),
        0 <= i < s.len(),
        s[i].key() == x.key(),
    ensures
        keys_unique(s.update(i, x)),
        keyed_map(s.update(i, x)) == keyed_map(s).insert(x.key(), x@),
{
    let t = s.update(i, x);
    assert forall|p: int, q: int| 0 <= p < q < t.len() implies t[p].key() != t[q].key() by {
        assert(t[p].key() == s[p].key());
        assert(t[q].key() == s[q].key());
    }
    assert forall|k: Seq<char>| #![auto] true implies
        (keyed_map(t).contains_key(k) <==> keyed_map(s).insert(x.key(), x@).contains_key(k)) by {
        if has_key(t, k) {
            let p = choose|p: int| 0 <= p < t.len() && t[p].key() == k;
            assert(s[p].key() == k);
            assert(has_key(s, k));
        }
        if has_key(s, k) {
            let p = choose|p: int| 0 <= p < s.len() && s[p].key() == k;
            assert(t[p].key() == k);
            assert(has_key(t, k));
        }
    }
    assert forall|k: Seq<char>| keyed_map(t).contains_key(k) implies
        keyed_map(t)[k] == keyed_map(s).insert(x.key(), x@)[k] by {
        let p = key_index(t, k);
        assert(0 <= p < t.len() && t[p].key() == k);
        if k == x.key() {
            lemma_keyed_map_at(t, i);
        } else {
            assert(p != i);
            assert(t[p] == s[p]);
            lemma_keyed_map_at(t, p);
            lemma_keyed_map_at(s, p);
        }
    }
    assert(keyed_map(t) =~= keyed_map(s).insert(x.key(), x@));
}

/// An empty keyed vector represents the empty map.
pub proof fn lemma_keyed_map_empty<T: Keyed>(s: Seq<T>)
    requires
        s.len() == 0,
    ensures
        keyed_map(s) == Map::<Seq<char>, T::V>::empty(),
{
    assert(keyed_map(s) =~= Map::<Seq<char>, T::V>::empty());
}

/// Whether two strings hold the same characters.
pub fn string_equal(a: &String, b: &String) -> (r: bool)
    ensures
        r == (a@ == b@),
{
    a.eq(b)
}

/// Index of the record carrying the given key, scanning left to right.
pub fn find_key<T: Keyed>(v: &Vec<T>, key: &String) -> (r: Option<usize>)
    ensures
        match r {
            Some(i) => i < v@.len() && v@[i as int].key() == key@,
            None => !has_key(v@, key@),
        },
{
    let n = v.len();
    let mut i: usize = 0;
    while i < n
        invariant
            i <= n,
            n == v@.len(),
            forall|j: int| 0 <= j < i ==> v@[j].key() != key@,
        decreases n - i,
    {
        if string_equal(v[i].key_ref(), key) {
            return Some(i);
        }
        i = i + 1;
    }
    None
}

/// Whether some record in `v` carries the given key.
pub fn contains_key_exec<T: Keyed>(v: &Vec<T>, key: &String) -> (r: bool)
    ensures
        r == has_key(v@, key@),
{
    find_key(v, key).is_some()
}

} // verus!
