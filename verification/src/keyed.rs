use vstd::prelude::*;
use crate::builtin::lemma_seq_less_trichotomy;
use crate::text::{chars_order, seq_less, str_chars, str_eq};
use crate::types::{
    is_place, lemma_absent_key, lemma_place_exists, lemma_place_unique, lemma_seq_less_transitive,
    place_of, sorted_keys,
};

verus! {

broadcast use vstd::std_specs::vec::group_vec_axioms;

/// The keys of string-keyed entries.
pub open spec fn keys_in<V>(v: Seq<(String, V)>) -> Seq<Seq<char>> {
    v.map_values(|e: (String, V)| e.0@)
}

/// Are the keys strictly increasing (hence unique)?
pub open spec fn key_sorted<V>(v: Seq<(String, V)>) -> bool {
    sorted_keys(keys_in(v))
}

/// Is there an entry with key `k`?
pub open spec fn has_key<V>(v: Seq<(String, V)>, k: Seq<char>) -> bool {
    exists|i: int| 0 <= i < v.len() && #[trigger] v[i].0@ == k
}

/// The position of the entry with key `k`.
pub open spec fn index_of_key<V>(v: Seq<(String, V)>, k: Seq<char>) -> int {
    choose|i: int| 0 <= i < v.len() && #[trigger] v[i].0@ == k
}

/// The entries with `(key, value)` put in: the entry with an equal key is replaced, else the
/// new entry goes to the place of its key.
pub open spec fn put_key<V>(v: Seq<(String, V)>, key: String, value: V) -> Seq<(String, V)> {
    if has_key(v, key@) {
        v.update(index_of_key(v, key@), (key, value))
    } else {
        v.insert(place_of(keys_in(v), key@), (key, value))
    }
}

/// `new` is `old` with `value` put under key `k`, as a map: `k` maps to `value`, every other
/// key keeps its presence and value, and the size grows by one exactly when `k` was absent.
pub open spec fn is_put<V>(old: Seq<(String, V)>, new: Seq<(String, V)>, k: Seq<char>, value: V) -> bool {
    &&& key_sorted(new)
    &&& has_key(new, k)
    &&& new[index_of_key(new, k)].1 == value
    &&& forall|o: Seq<char>| o != k ==> (#[trigger] has_key(new, o) <==> has_key(old, o))
    &&& forall|o: Seq<char>|
        o != k && #[trigger] has_key(old, o) ==> new[index_of_key(new, o)].1 == old[index_of_key(
            old,
            o,
        )].1
    &&& new.len() == old.len() + (if has_key(old, k) {
        0int
    } else {
        1int
    })
}

/// With sorted keys, an entry's key is found only at its own position.
pub proof fn lemma_key_unique<V>(v: Seq<(String, V)>, i: int)
    requires
        key_sorted(v),
        0 <= i < v.len(),
    ensures
        has_key(v, v[i].0@),
        index_of_key(v, v[i].0@) == i,
{
    let k = v[i].0@;
    let ks = keys_in(v);
    assert(ks[i] == k);
    let j = index_of_key(v, k);
    assert(ks[j] == k);
    lemma_seq_less_trichotomy(k, k);
    if j < i {
        assert(seq_less(ks[j], ks[i]));
    } else if i < j {
        assert(seq_less(ks[i], ks[j]));
    }
}

/// Find the entry of a key, or the place where it would go.
pub fn find_key<V>(v: &Vec<(String, V)>, key: &str) -> (r: Result<usize, usize>)
    requires
        key_sorted(v@),
    ensures
        r matches Ok(i) ==> i < v@.len() && v@[i as int].0@ == key@ && has_key(v@, key@)
            && index_of_key(v@, key@) == i,
        r matches Err(i) ==> !has_key(v@, key@) && i == place_of(keys_in(v@), key@) && is_place(
            keys_in(v@),
            key@,
            i as int,
        ),
{
    let kv = str_chars(key);
    let ghost ks = keys_in(v@);
    let mut i: usize = 0;
    while i < v.len()
        invariant
            i <= v@.len(),
            kv@ == key@,
            ks == keys_in(v@),
            key_sorted(v@),
            forall|j: int| 0 <= j < i ==> seq_less(#[trigger] ks[j], key@),
        decreases v.len() - i,
    {
        let ek = str_chars(v[i].0.as_str());
        let o = chars_order(&ek, &kv);
        if o != -1 {
            proof {
                assert(ks[i as int] == v@[i as int].0@);
                lemma_place_unique(ks, key@, i as int);
            }
            if str_eq(v[i].0.as_str(), key) {
                proof {
                    lemma_key_unique(v@, i as int);
                }
                return Ok(i);
            }
            proof {
                lemma_absent_key(ks, key@, i as int);
                assert forall|j: int| 0 <= j < v@.len() implies #[trigger] v@[j].0@ != key@ by {
                    assert(ks[j] == v@[j].0@);
                }
            }
            return Err(i);
        }
        i += 1;
    }
    proof {
        lemma_place_unique(ks, key@, i as int);
        lemma_absent_key(ks, key@, i as int);
        assert forall|j: int| 0 <= j < v@.len() implies #[trigger] v@[j].0@ != key@ by {
            assert(ks[j] == v@[j].0@);
        }
    }
    Err(i)
}

/// Is there an entry with the key?
pub fn contains_key<V>(v: &Vec<(String, V)>, key: &str) -> (r: bool)
    requires
        key_sorted(v@),
    ensures
        r == has_key(v@, key@),
{
    match find_key(v, key) {
        Ok(_) => true,
        Err(_) => false,
    }
}

/// The value under the key, if any.
pub fn get_key<'a, V>(v: &'a Vec<(String, V)>, key: &str) -> (r: Option<&'a V>)
    requires
        key_sorted(v@),
    ensures
        has_key(v@, key@) ==> r == Some(&v@[index_of_key(v@, key@)].1),
        !has_key(v@, key@) ==> r is None,
{
    match find_key(v, key) {
        Ok(i) => Some(&v[i].1),
        Err(_) => None,
    }
}

/// Inserting a key at its place keeps the keys sorted.
proof fn lemma_insert_sorted(ks: Seq<Seq<char>>, k: Seq<char>, i: int)
    requires
        sorted_keys(ks),
        is_place(ks, k, i),
        forall|j: int| 0 <= j < ks.len() ==> ks[j] != k,
    ensures
        sorted_keys(ks.insert(i, k)),
{
    if i < ks.len() {
        lemma_seq_less_trichotomy(ks[i], k);
    }
    let nk = ks.insert(i, k);
    assert forall|a: int, b: int| 0 <= a < b < nk.len() implies seq_less(
        #[trigger] nk[a],
        #[trigger] nk[b],
    ) by {
        if b < i {
        } else if b == i {
            assert(seq_less(ks[a], k));
        } else if a < i {
            assert(seq_less(ks[a], k));
            assert(seq_less(k, ks[i]));
            if b - 1 > i {
                assert(seq_less(ks[i], ks[b - 1]));
                lemma_seq_less_transitive(k, ks[i], ks[b - 1]);
            }
            lemma_seq_less_transitive(ks[a], k, ks[b - 1]);
        } else if a == i {
            if b - 1 > i {
                assert(seq_less(ks[i], ks[b - 1]));
                lemma_seq_less_transitive(k, ks[i], ks[b - 1]);
            }
        } else {
            assert(seq_less(ks[a - 1], ks[b - 1]));
        }
    }
}

/// Put `(key, value)` in: replace the entry of an equal key, else insert it at its place.
pub fn put<V>(v: &mut Vec<(String, V)>, key: String, value: V)
    requires
        key_sorted(old(v)@),
    ensures
        key_sorted(final(v)@),
        final(v)@ == put_key(old(v)@, key, value),
        is_put(old(v)@, final(v)@, key@, value),
{
    let ghost old_v = v@;
    let ghost ks = keys_in(old_v);
    let ghost kk = key;
    let ghost vv = value;
    match find_key(v, key.as_str()) {
        Ok(i) => {
            v.set(i, (key, value));
            proof {
                assert(keys_in(v@) =~= ks);
            }
        },
        Err(i) => {
            v.insert(i, (key, value));
            proof {
                assert forall|j: int| 0 <= j < ks.len() implies ks[j] != kk@ by {
                    assert(ks[j] == old_v[j].0@);
                }
                lemma_insert_sorted(ks, kk@, i as int);
                assert(keys_in(v@) =~= ks.insert(i as int, kk@));
            }
        },
    }
    proof {
        lemma_put_then_get(old_v, kk, vv, Seq::empty());
        assert forall|o: Seq<char>| o != kk@ implies (#[trigger] has_key(v@, o) <==> has_key(
            old_v,
            o,
        )) by {
            lemma_put_then_get(old_v, kk, vv, o);
        }
        assert forall|o: Seq<char>| o != kk@ && #[trigger] has_key(old_v, o) implies v@[index_of_key(
            v@,
            o,
        )].1 == old_v[index_of_key(old_v, o)].1 by {
            lemma_put_then_get(old_v, kk, vv, o);
        }
    }
}

/// After a key is put in, it is found with its new value; the other keys keep their values.
pub proof fn lemma_put_then_get<V>(v: Seq<(String, V)>, key: String, value: V, other: Seq<char>)
    requires
        key_sorted(v),
        key_sorted(put_key(v, key, value)),
    ensures
        has_key(put_key(v, key, value), key@),
        put_key(v, key, value)[index_of_key(put_key(v, key, value), key@)] == (key, value),
        other != key@ ==> has_key(put_key(v, key, value), other) == has_key(v, other),
        other != key@ && has_key(v, other) ==> put_key(v, key, value)[index_of_key(
            put_key(v, key, value),
            other,
        )] == v[index_of_key(v, other)],
{
    let w = put_key(v, key, value);
    let p = if has_key(v, key@) {
        index_of_key(v, key@)
    } else {
        place_of(keys_in(v), key@)
    };
    if !has_key(v, key@) {
        lemma_place_exists(keys_in(v), key@);
    }
    assert(w[p] == (key, value));
    lemma_key_unique(w, p);
    if other != key@ && has_key(v, other) {
        let q = index_of_key(v, other);
        lemma_key_unique(v, q);
        let q2 = if has_key(v, key@) || q < p {
            q
        } else {
            q + 1
        };
        assert(w[q2] == v[q]);
        lemma_key_unique(w, q2);
    }
    if other != key@ && has_key(w, other) {
        let r = index_of_key(w, other);
        if has_key(v, key@) {
            assert(v[r].0@ == other);
        } else if r < p {
            assert(v[r].0@ == other);
        } else {
            assert(r != p);
            assert(v[r - 1].0@ == other);
        }
    }
}

/// Are the hash keys unique?
pub open spec fn hashes_unique<V>(v: Seq<(u64, V)>) -> bool {
    forall|i: int, j: int| 0 <= i < j < v.len() ==> #[trigger] v[i].0 != #[trigger] v[j].0
}

/// Is there an entry with hash `h`?
pub open spec fn has_hash<V>(v: Seq<(u64, V)>, h: u64) -> bool {
    exists|i: int| 0 <= i < v.len() && #[trigger] v[i].0 == h
}

/// The position of the entry with hash `h`.
pub open spec fn index_of_hash<V>(v: Seq<(u64, V)>, h: u64) -> int {
    choose|i: int| 0 <= i < v.len() && #[trigger] v[i].0 == h
}

/// The entries with `(h, value)` put in: the entry with hash `h` is replaced, else the new
/// entry is added at the end.
pub open spec fn put_hash<V>(v: Seq<(u64, V)>, h: u64, value: V) -> Seq<(u64, V)> {
    if has_hash(v, h) {
        v.update(index_of_hash(v, h), (h, value))
    } else {
        v.push((h, value))
    }
}

/// `new` is `old` with `value` put under hash `h`, as a map.
pub open spec fn is_put_hash<V>(old: Seq<(u64, V)>, new: Seq<(u64, V)>, h: u64, value: V) -> bool {
    &&& hashes_unique(new)
    &&& has_hash(new, h)
    &&& new[index_of_hash(new, h)].1 == value
    &&& forall|o: u64| o != h ==> (#[trigger] has_hash(new, o) <==> has_hash(old, o))
    &&& forall|o: u64|
        o != h && #[trigger] has_hash(old, o) ==> new[index_of_hash(new, o)].1 == old[index_of_hash(
            old,
            o,
        )].1
}

/// With unique hashes, an entry's hash is found only at its own position.
pub proof fn lemma_hash_unique<V>(v: Seq<(u64, V)>, i: int)
    requires
        hashes_unique(v),
        0 <= i < v.len(),
    ensures
        has_hash(v, v[i].0),
        index_of_hash(v, v[i].0) == i,
{
    let j = index_of_hash(v, v[i].0);
    if j < i {
        assert(v[j].0 != v[i].0);
    } else if i < j {
        assert(v[i].0 != v[j].0);
    }
}

/// The position of the entry with a hash, if any.
pub fn find_hash<V>(v: &Vec<(u64, V)>, h: u64) -> (r: Option<usize>)
    requires
        hashes_unique(v@),
    ensures
        r matches Some(i) ==> i < v@.len() && v@[i as int].0 == h && has_hash(v@, h)
            && index_of_hash(v@, h) == i,
        r is None ==> !has_hash(v@, h),
{
    let mut i: usize = 0;
    while i < v.len()
        invariant
            i <= v@.len(),
            hashes_unique(v@),
            forall|j: int| 0 <= j < i ==> #[trigger] v@[j].0 != h,
        decreases v.len() - i,
    {
        if v[i].0 == h {
            proof {
                lemma_hash_unique(v@, i as int);
            }
            return Some(i);
        }
        i += 1;
    }
    None
}

/// The value under a hash, if any.
pub fn get_hash<'a, V>(v: &'a Vec<(u64, V)>, h: u64) -> (r: Option<&'a V>)
    requires
        hashes_unique(v@),
    ensures
        has_hash(v@, h) ==> r == Some(&v@[index_of_hash(v@, h)].1),
        !has_hash(v@, h) ==> r is None,
{
    match find_hash(v, h) {
        Some(i) => Some(&v[i].1),
        None => None,
    }
}

/// Put `(h, value)` in: replace the entry with hash `h`, else add it at the end.
pub fn put_hash_entry<V>(v: &mut Vec<(u64, V)>, h: u64, value: V)
    requires
        hashes_unique(old(v)@),
    ensures
        hashes_unique(final(v)@),
        final(v)@ == put_hash(old(v)@, h, value),
        is_put_hash(old(v)@, final(v)@, h, value),
{
    let ghost old_v = v@;
    let ghost vv = value;
    match find_hash(v, h) {
        Some(i) => {
            v.set(i, (h, value));
        },
        None => {
            v.push((h, value));
        },
    }
    proof {
        assert(v@ == put_hash(old_v, h, vv));
        lemma_put_hash_then_get(old_v, h, vv, h);
        assert forall|o: u64| o != h implies (#[trigger] has_hash(v@, o) <==> has_hash(old_v, o)) by {
            lemma_put_hash_then_get(old_v, h, vv, o);
        }
        assert forall|o: u64| o != h && #[trigger] has_hash(old_v, o) implies v@[index_of_hash(
            v@,
            o,
        )].1 == old_v[index_of_hash(old_v, o)].1 by {
            lemma_put_hash_then_get(old_v, h, vv, o);
        }
    }
}

/// Put `(h, value)` in only where no entry has hash `h`.
pub fn put_hash_if_absent<V>(v: &mut Vec<(u64, V)>, h: u64, value: V)
    requires
        hashes_unique(old(v)@),
    ensures
        hashes_unique(final(v)@),
        final(v)@ == if has_hash(old(v)@, h) {
            old(v)@
        } else {
            old(v)@.push((h, value))
        },
{
    match find_hash(v, h) {
        Some(_) => {},
        None => {
            v.push((h, value));
        },
    }
}

/// After a hash is put in, it is found with its new value; the other hashes keep their values.
pub proof fn lemma_put_hash_then_get<V>(v: Seq<(u64, V)>, h: u64, value: V, other: u64)
    requires
        hashes_unique(v),
        hashes_unique(put_hash(v, h, value)),
    ensures
        has_hash(put_hash(v, h, value), h),
        put_hash(v, h, value)[index_of_hash(put_hash(v, h, value), h)] == (h, value),
        other != h ==> has_hash(put_hash(v, h, value), other) == has_hash(v, other),
        other != h && has_hash(v, other) ==> put_hash(v, h, value)[index_of_hash(
            put_hash(v, h, value),
            other,
        )] == v[index_of_hash(v, other)],
{
    let w = put_hash(v, h, value);
    let p = if has_hash(v, h) {
        index_of_hash(v, h)
    } else {
        v.len() as int
    };
    assert(w[p] == (h, value));
    lemma_hash_unique(w, p);
    if other != h && has_hash(v, other) {
        let q = index_of_hash(v, other);
        lemma_hash_unique(v, q);
        assert(w[q] == v[q]);
        lemma_hash_unique(w, q);
    }
    if other != h && has_hash(w, other) {
        let r = index_of_hash(w, other);
        assert(r != p);
        assert(v[r].0 == other);
    }
}

/// Putting a value under a hash keeps the hashes unique, and is a put as a map.
pub proof fn lemma_put_hash_is_put<V>(v: Seq<(u64, V)>, h: u64, value: V)
    requires
        hashes_unique(v),
    ensures
        hashes_unique(put_hash(v, h, value)),
        is_put_hash(v, put_hash(v, h, value), h, value),
{
    let w = put_hash(v, h, value);
    assert forall|a: int, b: int| 0 <= a < b < w.len() implies #[trigger] w[a].0 != #[trigger] w[b].0 by {
        if has_hash(v, h) {
            let p = index_of_hash(v, h);
            assert(v[p].0 == h);
            assert(w[a].0 == v[a].0 && w[b].0 == v[b].0);
        } else {
            if b == v.len() {
                assert(w[a].0 == v[a].0);
            } else {
                assert(w[a].0 == v[a].0 && w[b].0 == v[b].0);
            }
        }
    }
    lemma_put_hash_then_get(v, h, value, h);
    assert forall|o: u64| o != h implies (#[trigger] has_hash(w, o) <==> has_hash(v, o)) by {
        lemma_put_hash_then_get(v, h, value, o);
    }
    assert forall|o: u64| o != h && #[trigger] has_hash(v, o) implies w[index_of_hash(w, o)].1
        == v[index_of_hash(v, o)].1 by {
        lemma_put_hash_then_get(v, h, value, o);
    }
}

/// The value under key `k`, if any.
pub open spec fn lookup<V>(v: Seq<(String, V)>, k: Seq<char>) -> Option<V> {
    if has_key(v, k) {
        Some(v[index_of_key(v, k)].1)
    } else {
        None
    }
}

/// The value under hash `h`, if any.
pub open spec fn lookup_hash<V>(v: Seq<(u64, V)>, h: u64) -> Option<V> {
    if has_hash(v, h) {
        Some(v[index_of_hash(v, h)].1)
    } else {
        None
    }
}

/// A put, seen through lookups.
pub proof fn lemma_lookup_is_put<V>(old: Seq<(String, V)>, new: Seq<(String, V)>, key: Seq<char>, value: V, k: Seq<char>)
    requires
        is_put(old, new, key, value),
    ensures
        lookup(new, k) == if k == key {
            Some(value)
        } else {
            lookup(old, k)
        },
{
    if k != key {
        assert(has_key(new, k) <==> has_key(old, k));
    }
}

/// A put under a hash, seen through lookups.
pub proof fn lemma_lookup_is_put_hash<V>(old: Seq<(u64, V)>, new: Seq<(u64, V)>, h: u64, value: V, o: u64)
    requires
        is_put_hash(old, new, h, value),
    ensures
        lookup_hash(new, o) == if o == h {
            Some(value)
        } else {
            lookup_hash(old, o)
        },
{
    if o != h {
        assert(has_hash(new, o) <==> has_hash(old, o));
    }
}

/// A prefix of sorted entries is sorted, and growing it by one entry adds that entry's key.
pub proof fn lemma_lookup_take_push<V>(v: Seq<(String, V)>, i: int, k: Seq<char>)
    requires
        key_sorted(v),
        0 <= i < v.len(),
    ensures
        key_sorted(v.take(i)),
        key_sorted(v.take(i + 1)),
        lookup(v.take(i + 1), k) == if k == v[i].0@ {
            Some(v[i].1)
        } else {
            lookup(v.take(i), k)
        },
{
    let a = v.take(i);
    let b = v.take(i + 1);
    assert forall|x: int, y: int| 0 <= x < y < a.len() implies seq_less(#[trigger] keys_in(a)[x], #[trigger] keys_in(a)[y]) by {
        assert(keys_in(a)[x] == keys_in(v)[x] && keys_in(a)[y] == keys_in(v)[y]);
    }
    assert forall|x: int, y: int| 0 <= x < y < b.len() implies seq_less(#[trigger] keys_in(b)[x], #[trigger] keys_in(b)[y]) by {
        assert(keys_in(b)[x] == keys_in(v)[x] && keys_in(b)[y] == keys_in(v)[y]);
    }
    lemma_key_unique(b, i);
    if k == v[i].0@ {
        assert(b[i] == v[i]);
    } else {
        if has_key(b, k) {
            let j = index_of_key(b, k);
            assert(j != i);
            assert(a[j] == b[j]);
            lemma_key_unique(a, j);
        }
        if has_key(a, k) {
            let j = index_of_key(a, k);
            assert(b[j] == a[j]);
            lemma_key_unique(b, j);
        }
    }
}

/// Growing a prefix of entries with unique hashes by one entry adds that entry's hash.
pub proof fn lemma_lookup_hash_take_push<V>(v: Seq<(u64, V)>, i: int, o: u64)
    requires
        hashes_unique(v),
        0 <= i < v.len(),
    ensures
        hashes_unique(v.take(i)),
        hashes_unique(v.take(i + 1)),
        lookup_hash(v.take(i + 1), o) == if o == v[i].0 {
            Some(v[i].1)
        } else {
            lookup_hash(v.take(i), o)
        },
{
    let a = v.take(i);
    let b = v.take(i + 1);
    assert forall|x: int, y: int| 0 <= x < y < a.len() implies #[trigger] a[x].0 != #[trigger] a[y].0 by {
        assert(a[x] == v[x] && a[y] == v[y]);
    }
    assert forall|x: int, y: int| 0 <= x < y < b.len() implies #[trigger] b[x].0 != #[trigger] b[y].0 by {
        assert(b[x] == v[x] && b[y] == v[y]);
    }
    lemma_hash_unique(b, i);
    if o != v[i].0 {
        if has_hash(b, o) {
            let j = index_of_hash(b, o);
            assert(j != i);
            assert(a[j] == b[j]);
            lemma_hash_unique(a, j);
        }
        if has_hash(a, o) {
            let j = index_of_hash(a, o);
            assert(b[j] == a[j]);
            lemma_hash_unique(b, j);
        }
    }
}

/// Put every entry of `other` in, in order: afterwards the keys of `other` hold `other`'s
/// values and every other key keeps its value.
pub fn extend_keys<V>(v: &mut Vec<(String, V)>, other: Vec<(String, V)>)
    requires
        key_sorted(old(v)@),
        key_sorted(other@),
    ensures
        key_sorted(final(v)@),
        forall|k: Seq<char>| #[trigger] lookup(final(v)@, k) == if lookup(other@, k) is Some {
            lookup(other@, k)
        } else {
            lookup(old(v)@, k)
        },
{
    let ghost orig = other@;
    let ghost start = v@;
    let mut o = other;
    proof {
        assert(o@ =~= orig.skip(0));
        assert forall|k: Seq<char>| #[trigger] lookup(orig.take(0), k) is None by {
            assert(!has_key(orig.take(0), k));
        }
    }
    while o.len() > 0
        invariant
            key_sorted(orig),
            key_sorted(v@),
            o@.len() <= orig.len(),
            o@ == orig.skip(orig.len() - o@.len()),
            forall|k: Seq<char>| #[trigger] lookup(v@, k) == if lookup(orig.take(orig.len() - o@.len()), k) is Some {
                lookup(orig.take(orig.len() - o@.len()), k)
            } else {
                lookup(start, k)
            },
        decreases o.len(),
    {
        let ghost n = orig.len() - o@.len();
        let ghost before = v@;
        let (key, val) = o.remove(0);
        proof {
            assert(o@ =~= orig.skip(n + 1));
            assert((key, val) == orig[n]);
        }
        let ghost kk = key;
        let ghost vv = val;
        put(v, key, val);
        proof {
            assert forall|k: Seq<char>| #[trigger] lookup(v@, k) == if lookup(orig.take(n + 1), k) is Some {
                lookup(orig.take(n + 1), k)
            } else {
                lookup(start, k)
            } by {
                lemma_lookup_is_put(before, v@, kk@, vv, k);
                lemma_lookup_take_push(orig, n, k);
                assert(lookup(before, k) == if lookup(orig.take(n), k) is Some {
                    lookup(orig.take(n), k)
                } else {
                    lookup(start, k)
                });
            }
        }
    }
    proof {
        assert(orig.take(orig.len() as int) =~= orig);
    }
}

/// Put every entry of `other` in, in order: afterwards the hashes of `other` hold `other`'s
/// values and every other hash keeps its value.
pub fn extend_hashes<V>(v: &mut Vec<(u64, V)>, other: Vec<(u64, V)>)
    requires
        hashes_unique(old(v)@),
        hashes_unique(other@),
    ensures
        hashes_unique(final(v)@),
        forall|h: u64| #[trigger] lookup_hash(final(v)@, h) == if lookup_hash(other@, h) is Some {
            lookup_hash(other@, h)
        } else {
            lookup_hash(old(v)@, h)
        },
{
    let ghost orig = other@;
    let ghost start = v@;
    let mut o = other;
    proof {
        assert(o@ =~= orig.skip(0));
        assert forall|h: u64| #[trigger] lookup_hash(orig.take(0), h) is None by {
            assert(!has_hash(orig.take(0), h));
        }
    }
    while o.len() > 0
        invariant
            hashes_unique(orig),
            hashes_unique(v@),
            o@.len() <= orig.len(),
            o@ == orig.skip(orig.len() - o@.len()),
            forall|h: u64| #[trigger] lookup_hash(v@, h) == if lookup_hash(orig.take(orig.len() - o@.len()), h) is Some {
                lookup_hash(orig.take(orig.len() - o@.len()), h)
            } else {
                lookup_hash(start, h)
            },
        decreases o.len(),
    {
        let ghost n = orig.len() - o@.len();
        let ghost before = v@;
        let (key, val) = o.remove(0);
        proof {
            assert(o@ =~= orig.skip(n + 1));
            assert((key, val) == orig[n]);
        }
        let ghost vv = val;
        put_hash_entry(v, key, val);
        proof {
            assert forall|h: u64| #[trigger] lookup_hash(v@, h) == if lookup_hash(orig.take(n + 1), h) is Some {
                lookup_hash(orig.take(n + 1), h)
            } else {
                lookup_hash(start, h)
            } by {
                lemma_lookup_is_put_hash(before, v@, key, vv, h);
                lemma_lookup_hash_take_push(orig, n, h);
                assert(lookup_hash(before, h) == if lookup_hash(orig.take(n), h) is Some {
                    lookup_hash(orig.take(n), h)
                } else {
                    lookup_hash(start, h)
                });
            }
        }
    }
    proof {
        assert(orig.take(orig.len() as int) =~= orig);
    }
}

/// Every entry after a put under a hash is the new entry or one from before.
pub proof fn lemma_put_hash_entries<V>(v: Seq<(u64, V)>, h: u64, value: V)
    ensures
        forall|i: int| 0 <= i < put_hash(v, h, value).len() ==> #[trigger] put_hash(v, h, value)[i] == (h, value)
            || exists|j: int| 0 <= j < v.len() && v[j] == put_hash(v, h, value)[i],
{
    let w = put_hash(v, h, value);
    assert forall|i: int| 0 <= i < w.len() implies #[trigger] w[i] == (h, value) || exists|j: int|
        0 <= j < v.len() && v[j] == w[i] by {
        if !(w[i] == (h, value)) {
            assert(v[i] == w[i]);
        }
    }
}

/// Every entry after a put under a key is the new entry or one from before.
pub proof fn lemma_put_key_entries<V>(v: Seq<(String, V)>, key: String, value: V)
    requires
        key_sorted(v),
    ensures
        forall|i: int| 0 <= i < put_key(v, key, value).len() ==> #[trigger] put_key(v, key, value)[i] == (key, value)
            || exists|j: int| 0 <= j < v.len() && v[j] == put_key(v, key, value)[i],
{
    let w = put_key(v, key, value);
    let p = if has_key(v, key@) {
        index_of_key(v, key@)
    } else {
        place_of(keys_in(v), key@)
    };
    assert forall|i: int| 0 <= i < w.len() implies #[trigger] w[i] == (key, value) || exists|j: int|
        0 <= j < v.len() && v[j] == w[i] by {
        if !(w[i] == (key, value)) {
            if has_key(v, key@) {
                assert(v[i] == w[i]);
            } else {
                lemma_place_exists(keys_in(v), key@);
                if i < p {
                    assert(v[i] == w[i]);
                } else {
                    assert(v[i - 1] == w[i]);
                }
            }
        }
    }
}

/// The value last put under hash `h` by a sequence of puts, if any.
pub open spec fn last_put<V>(t: Seq<(u64, V)>, h: u64) -> Option<V>
    decreases t.len(),
{
    if t.len() == 0 {
        None
    } else if t.last().0 == h {
        Some(t.last().1)
    } else {
        last_put(t.drop_last(), h)
    }
}

/// `new` is `old` after the puts `t`, one after the other (a later put under a hash replaces
/// an earlier one).
pub open spec fn puts_made<V>(old: Seq<(u64, V)>, new: Seq<(u64, V)>, t: Seq<(u64, V)>) -> bool {
    forall|h: u64|
        #[trigger] lookup_hash(new, h) == match last_put(t, h) {
            Some(v) => Some(v),
            None => lookup_hash(old, h),
        }
}

/// The last put of two runs of puts is that of the second run, if it put the hash.
pub proof fn lemma_last_put_append<V>(t1: Seq<(u64, V)>, t2: Seq<(u64, V)>, h: u64)
    ensures
        last_put(t1 + t2, h) == match last_put(t2, h) {
            Some(v) => Some(v),
            None => last_put(t1, h),
        },
    decreases t2.len(),
{
    if t2.len() == 0 {
        assert(t1 + t2 =~= t1);
    } else {
        assert((t1 + t2).last() == t2.last());
        assert((t1 + t2).drop_last() =~= t1 + t2.drop_last());
        lemma_last_put_append(t1, t2.drop_last(), h);
    }
}

/// Two runs of puts, one after the other.
pub proof fn lemma_puts_made_append<V>(
    a: Seq<(u64, V)>,
    b: Seq<(u64, V)>,
    c: Seq<(u64, V)>,
    t1: Seq<(u64, V)>,
    t2: Seq<(u64, V)>,
)
    requires
        puts_made(a, b, t1),
        puts_made(b, c, t2),
    ensures
        puts_made(a, c, t1 + t2),
{
    assert forall|h: u64| #[trigger] lookup_hash(c, h) == match last_put(t1 + t2, h) {
        Some(v) => Some(v),
        None => lookup_hash(a, h),
    } by {
        lemma_last_put_append(t1, t2, h);
        assert(lookup_hash(b, h) == lookup_hash(b, h));
    }
}

/// One put.
pub proof fn lemma_puts_made_one<V>(a: Seq<(u64, V)>, b: Seq<(u64, V)>, h: u64, value: V)
    requires
        is_put_hash(a, b, h, value),
    ensures
        puts_made(a, b, seq![(h, value)]),
{
    let t = seq![(h, value)];
    assert forall|o: u64| #[trigger] lookup_hash(b, o) == match last_put(t, o) {
        Some(v) => Some(v),
        None => lookup_hash(a, o),
    } by {
        lemma_lookup_is_put_hash(a, b, h, value, o);
        assert(t.last() == (h, value));
        assert(t.drop_last() =~= Seq::<(u64, V)>::empty());
        assert(last_put(Seq::<(u64, V)>::empty(), o) is None);
        if o != h {
            assert(last_put(t, o) == last_put(t.drop_last(), o));
        }
    }
}

/// No puts.
pub proof fn lemma_puts_made_none<V>(a: Seq<(u64, V)>)
    ensures
        puts_made(a, a, Seq::<(u64, V)>::empty()),
{
}

} // verus!
