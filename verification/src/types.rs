use vstd::prelude::*;
use crate::builtin::lemma_seq_less_trichotomy;
use crate::text::{seq_less, string_of, chars_order, str_chars};

verus! {

broadcast use vstd::std_specs::vec::group_vec_axioms;

/// Information on a custom type: its Rust name, the name it is shown by, and its comments.
pub struct CustomTypeInfo {
    /// The Rust name of the type.
    pub rust_name: String,
    /// The name the type is shown by.
    pub display_name: String,
    /// Documentation comments.
    pub comments: Vec<String>,
}

/// Abstract value of a [`CustomTypeInfo`].
pub struct TypeInfoV {
    pub rust_name: Seq<char>,
    pub display_name: Seq<char>,
    pub comments: Seq<Seq<char>>,
}

/// The abstract value of a custom type's information.
pub open spec fn info_view(i: CustomTypeInfo) -> TypeInfoV {
    TypeInfoV {
        rust_name: i.rust_name@,
        display_name: i.display_name@,
        comments: i.comments@.map_values(|c: String| c@),
    }
}

impl CustomTypeInfo {
    /// The Rust name of the type.
    pub fn name_of_type(&self) -> (r: &str)
        ensures
            r@ == self.rust_name@,
    {
        self.rust_name.as_str()
    }

    /// The name the type is shown by.
    pub fn display_name(&self) -> (r: &str)
        ensures
            r@ == self.display_name@,
    {
        self.display_name.as_str()
    }

    /// The documentation comments, in order.
    pub fn iter_comments(&self) -> (r: Vec<&str>)
        ensures
            r@.len() == self.comments@.len(),
            forall|i: int| 0 <= i < r@.len() ==> r@[i]@ == self.comments@[i]@,
    {
        let mut out: Vec<&str> = Vec::new();
        let mut i: usize = 0;
        while i < self.comments.len()
            invariant
                i <= self.comments@.len(),
                out@.len() == i,
                forall|j: int| 0 <= j < i ==> out@[j]@ == self.comments@[j]@,
            decreases self.comments.len() - i,
        {
            out.push(self.comments[i].as_str());
            i += 1;
        }
        out
    }

    /// The documentation comments.
    pub fn comments(&self) -> (r: &Vec<String>)
        ensures
            r == self.comments,
    {
        &self.comments
    }
}

/// Copies of some strings.
pub fn clone_strings(v: &Vec<String>) -> (r: Vec<String>)
    ensures
        r@.map_values(|c: String| c@) == v@.map_values(|c: String| c@),
{
    let mut out: Vec<String> = Vec::new();
    let mut i: usize = 0;
    while i < v.len()
        invariant
            i <= v@.len(),
            out@.len() == i,
            forall|j: int| 0 <= j < i ==> out@[j]@ == v@[j]@,
        decreases v.len() - i,
    {
        out.push(v[i].clone());
        i += 1;
    }
    assert(out@.map_values(|c: String| c@) =~= v@.map_values(|c: String| c@));
    out
}

/// Custom types, by the key they were added under, in key order.
pub struct CustomTypesCollection {
    /// The entries, sorted by key, keys unique.
    pub entries: Vec<(String, CustomTypeInfo)>,
}

/// The keys of the entries.
pub open spec fn keys_of(v: Seq<(String, CustomTypeInfo)>) -> Seq<Seq<char>> {
    v.map_values(|e: (String, CustomTypeInfo)| e.0@)
}

/// Are the keys strictly increasing?
pub open spec fn sorted_keys(k: Seq<Seq<char>>) -> bool {
    forall|i: int, j: int| 0 <= i < j < k.len() ==> seq_less(#[trigger] k[i], #[trigger] k[j])
}

/// The abstract entries: key and information.
pub open spec fn entries_v(v: Seq<(String, CustomTypeInfo)>) -> Seq<(Seq<char>, TypeInfoV)> {
    v.map_values(|e: (String, CustomTypeInfo)| (e.0@, info_view(e.1)))
}

/// Is `i` the place of key `k` among sorted keys: all keys before it are smaller, and the key
/// at it (if any) is not?
pub open spec fn is_place(keys: Seq<Seq<char>>, k: Seq<char>, i: int) -> bool {
    &&& 0 <= i <= keys.len()
    &&& forall|j: int| 0 <= j < i ==> seq_less(#[trigger] keys[j], k)
    &&& i < keys.len() ==> !seq_less(keys[i], k)
}

/// The place of a key among sorted keys.
pub open spec fn place_of(keys: Seq<Seq<char>>, k: Seq<char>) -> int {
    choose|i: int| is_place(keys, k, i)
}

/// Is key `k` present, at its place?
pub open spec fn has_key_at(keys: Seq<Seq<char>>, k: Seq<char>) -> bool {
    place_of(keys, k) < keys.len() && keys[place_of(keys, k)] == k
}

/// `a < b` and `b < c` give `a < c` for character sequences.
pub proof fn lemma_seq_less_transitive(a: Seq<char>, b: Seq<char>, c: Seq<char>)
    requires
        seq_less(a, b),
        seq_less(b, c),
    ensures
        seq_less(a, c),
    decreases a.len(),
{
    if a.len() > 0 && b.len() > 0 && c.len() > 0 && (a[0] as u32) == (b[0] as u32) && (b[0] as u32)
        == (c[0] as u32) {
        lemma_seq_less_transitive(a.drop_first(), b.drop_first(), c.drop_first());
    }
}

/// A place is unique, so the chosen place is any place found.
pub proof fn lemma_place_unique(keys: Seq<Seq<char>>, k: Seq<char>, i: int)
    requires
        is_place(keys, k, i),
    ensures
        place_of(keys, k) == i,
{
    let p = place_of(keys, k);
    assert(is_place(keys, k, p));
    if p < i {
        assert(seq_less(keys[p], k));
    } else if i < p {
        assert(seq_less(keys[i], k));
    }
}

/// With sorted keys, a key that is not at its place is nowhere.
pub proof fn lemma_absent_key(keys: Seq<Seq<char>>, k: Seq<char>, i: int)
    requires
        sorted_keys(keys),
        is_place(keys, k, i),
        !(i < keys.len() && keys[i] == k),
    ensures
        forall|j: int| 0 <= j < keys.len() ==> keys[j] != k,
        i < keys.len() ==> seq_less(k, keys[i]),
{
    if i < keys.len() {
        lemma_seq_less_trichotomy(keys[i], k);
    }
    assert forall|j: int| 0 <= j < keys.len() implies keys[j] != k by {
        if j < i {
            assert(seq_less(keys[j], k));
            lemma_seq_less_trichotomy(keys[j], k);
        } else if j > i {
            assert(seq_less(keys[i], keys[j]));
            lemma_seq_less_trichotomy(k, keys[i]);
            lemma_seq_less_transitive(k, keys[i], keys[j]);
            lemma_seq_less_trichotomy(k, keys[j]);
        }
    }
}

impl CustomTypesCollection {
    /// Are the keys sorted and unique?
    pub open spec fn wf(&self) -> bool {
        sorted_keys(keys_of(self.entries@))
    }

    /// An empty collection.
    pub fn new() -> (r: CustomTypesCollection)
        ensures
            r.wf(),
            r.entries@.len() == 0,
    {
        CustomTypesCollection { entries: Vec::new() }
    }

    /// Remove all custom types.
    pub fn clear(&mut self)
        ensures
            final(self).wf(),
            final(self).entries@.len() == 0,
    {
        self.entries.clear();
    }

    /// Find the place of a key.
    fn find_place(&self, key: &str) -> (r: usize)
        requires
            self.wf(),
        ensures
            r == place_of(keys_of(self.entries@), key@),
            is_place(keys_of(self.entries@), key@, r as int),
    {
        let kv = str_chars(key);
        let mut i: usize = 0;
        while i < self.entries.len()
            invariant
                i <= self.entries@.len(),
                kv@ == key@,
                forall|j: int| 0 <= j < i ==> seq_less(#[trigger] keys_of(self.entries@)[j], key@),
            decreases self.entries.len() - i,
        {
            let ek = str_chars(self.entries[i].0.as_str());
            let o = chars_order(&ek, &kv);
            if o != -1 {
                proof {
                    assert(keys_of(self.entries@)[i as int] == self.entries@[i as int].0@);
                    lemma_place_unique(keys_of(self.entries@), key@, i as int);
                }
                return i;
            }
            i += 1;
        }
        proof {
            lemma_place_unique(keys_of(self.entries@), key@, i as int);
        }
        i
    }

    /// Add a custom type under a key, replacing any under the same key; the entries stay in
    /// key order.
    pub fn add_raw(&mut self, key: &str, custom_type: CustomTypeInfo)
        requires
            old(self).wf(),
        ensures
            final(self).wf(),
            ({
                let p = place_of(keys_of(old(self).entries@), key@);
                let e = (key@, info_view(custom_type));
                if has_key_at(keys_of(old(self).entries@), key@) {
                    entries_v(final(self).entries@) == entries_v(old(self).entries@).update(p, e)
                } else {
                    entries_v(final(self).entries@) == entries_v(old(self).entries@).insert(p, e)
                }
            }),
    {
        let i = self.find_place(key);
        let ghost old_v = self.entries@;
        let ghost keys = keys_of(old_v);
        let present = i < self.entries.len() && crate::text::str_eq(self.entries[i].0.as_str(), key);
        let ghost ci = custom_type;
        if present {
            self.entries.set(i, (string_of(key), custom_type));
            proof {
                assert(keys_of(self.entries@) =~= keys);
                assert(entries_v(self.entries@) =~= entries_v(old_v).update(
                    i as int,
                    (key@, info_view(ci)),
                ));
            }
        } else {
            proof {
                lemma_absent_key(keys, key@, i as int);
            }
            self.entries.insert(i, (string_of(key), custom_type));
            proof {
                let nk = keys_of(self.entries@);
                assert(nk =~= keys.insert(i as int, key@));
                assert forall|a: int, b: int| 0 <= a < b < nk.len() implies seq_less(
                    #[trigger] nk[a],
                    #[trigger] nk[b],
                ) by {
                    if b < i {
                    } else if b == i {
                        assert(seq_less(keys[a], key@));
                    } else if a < i {
                        assert(seq_less(keys[a], key@));
                        assert(seq_less(key@, keys[i as int]));
                        if b - 1 > i {
                            assert(seq_less(keys[i as int], keys[b - 1]));
                            lemma_seq_less_transitive(key@, keys[i as int], keys[b - 1]);
                        }
                        lemma_seq_less_transitive(keys[a], key@, keys[b - 1]);
                    } else if a == i {
                        if b - 1 > i {
                            assert(seq_less(keys[i as int], keys[b - 1]));
                            lemma_seq_less_transitive(key@, keys[i as int], keys[b - 1]);
                        }
                    } else {
                        assert(seq_less(keys[a - 1], keys[b - 1]));
                    }
                }
                assert(entries_v(self.entries@) =~= entries_v(old_v).insert(
                    i as int,
                    (key@, info_view(ci)),
                ));
            }
        }
    }

    /// Add a custom type by its Rust name and display name.
    pub fn add(&mut self, rust_name: &str, name: &str)
        requires
            old(self).wf(),
        ensures
            final(self).wf(),
            ({
                let p = place_of(keys_of(old(self).entries@), rust_name@);
                let e = (
                    rust_name@,
                    TypeInfoV { rust_name: rust_name@, display_name: name@, comments: Seq::empty() },
                );
                if has_key_at(keys_of(old(self).entries@), rust_name@) {
                    entries_v(final(self).entries@) == entries_v(old(self).entries@).update(p, e)
                } else {
                    entries_v(final(self).entries@) == entries_v(old(self).entries@).insert(p, e)
                }
            }),
    {
        let info = CustomTypeInfo {
            rust_name: string_of(rust_name),
            display_name: string_of(name),
            comments: Vec::new(),
        };
        proof {
            assert(info.comments@.map_values(|c: String| c@) =~= Seq::<Seq<char>>::empty());
        }
        self.add_raw(rust_name, info);
    }

    /// Add a custom type by its Rust name and display name, with comments.
    pub fn add_with_comments(&mut self, rust_name: &str, name: &str, comments: &Vec<String>)
        requires
            old(self).wf(),
        ensures
            final(self).wf(),
            ({
                let p = place_of(keys_of(old(self).entries@), rust_name@);
                let e = (
                    rust_name@,
                    TypeInfoV {
                        rust_name: rust_name@,
                        display_name: name@,
                        comments: comments@.map_values(|c: String| c@),
                    },
                );
                if has_key_at(keys_of(old(self).entries@), rust_name@) {
                    entries_v(final(self).entries@) == entries_v(old(self).entries@).update(p, e)
                } else {
                    entries_v(final(self).entries@) == entries_v(old(self).entries@).insert(p, e)
                }
            }),
    {
        let info = CustomTypeInfo {
            rust_name: string_of(rust_name),
            display_name: string_of(name),
            comments: clone_strings(comments),
        };
        self.add_raw(rust_name, info);
    }

    /// Add a custom type by its Rust name and display name (the Rust name stands for the type
    /// itself).
    pub fn add_type(&mut self, rust_name: &str, name: &str)
        requires
            old(self).wf(),
        ensures
            final(self).wf(),
            ({
                let p = place_of(keys_of(old(self).entries@), rust_name@);
                let e = (
                    rust_name@,
                    TypeInfoV { rust_name: rust_name@, display_name: name@, comments: Seq::empty() },
                );
                if has_key_at(keys_of(old(self).entries@), rust_name@) {
                    entries_v(final(self).entries@) == entries_v(old(self).entries@).update(p, e)
                } else {
                    entries_v(final(self).entries@) == entries_v(old(self).entries@).insert(p, e)
                }
            }),
    {
        self.add(rust_name, name)
    }

    /// Add a custom type by its Rust name and display name, with comments (the Rust name
    /// stands for the type itself).
    pub fn add_type_with_comments(&mut self, rust_name: &str, name: &str, comments: &Vec<String>)
        requires
            old(self).wf(),
        ensures
            final(self).wf(),
            ({
                let p = place_of(keys_of(old(self).entries@), rust_name@);
                let e = (
                    rust_name@,
                    TypeInfoV {
                        rust_name: rust_name@,
                        display_name: name@,
                        comments: comments@.map_values(|c: String| c@),
                    },
                );
                if has_key_at(keys_of(old(self).entries@), rust_name@) {
                    entries_v(final(self).entries@) == entries_v(old(self).entries@).update(p, e)
                } else {
                    entries_v(final(self).entries@) == entries_v(old(self).entries@).insert(p, e)
                }
            }),
    {
        self.add_with_comments(rust_name, name, comments)
    }

    /// The custom type added under a key, if any.
    pub fn get(&self, key: &str) -> (r: Option<&CustomTypeInfo>)
        requires
            self.wf(),
        ensures
            has_key_at(keys_of(self.entries@), key@) ==> r == Some(
                &self.entries@[place_of(keys_of(self.entries@), key@)].1,
            ),
            !has_key_at(keys_of(self.entries@), key@) ==> r is None,
            r is None ==> forall|j: int| 0 <= j < self.entries@.len() ==> self.entries@[j].0@ != key@,
    {
        let i = self.find_place(key);
        if i < self.entries.len() && crate::text::str_eq(self.entries[i].0.as_str(), key) {
            Some(&self.entries[i].1)
        } else {
            proof {
                lemma_absent_key(keys_of(self.entries@), key@, i as int);
                assert forall|j: int| 0 <= j < self.entries@.len() implies self.entries@[j].0@
                    != key@ by {
                    assert(keys_of(self.entries@)[j] == self.entries@[j].0@);
                }
            }
            None
        }
    }

    /// The custom types with their keys, in key order.
    pub fn iter(&self) -> (r: &Vec<(String, CustomTypeInfo)>)
        ensures
            r == self.entries,
    {
        &self.entries
    }
}

/// Once a custom type is added under a key, it is found under that key.
pub proof fn lemma_add_then_get(c: CustomTypesCollection, key: Seq<char>, info: CustomTypeInfo, d: CustomTypesCollection)
    requires
        c.wf(),
        d.wf(),
        ({
            let p = place_of(keys_of(c.entries@), key);
            let e = (key, info_view(info));
            if has_key_at(keys_of(c.entries@), key) {
                entries_v(d.entries@) == entries_v(c.entries@).update(p, e)
            } else {
                entries_v(d.entries@) == entries_v(c.entries@).insert(p, e)
            }
        }),
    ensures
        has_key_at(keys_of(d.entries@), key),
        entries_v(d.entries@)[place_of(keys_of(d.entries@), key)] == (key, info_view(info)),
{
    let p = place_of(keys_of(c.entries@), key);
    let keys = keys_of(c.entries@);
    lemma_place_exists(keys, key);
    assert(is_place(keys, key, p));
    let dk = keys_of(d.entries@);
    let ev = entries_v(d.entries@);
    let cv = entries_v(c.entries@);
    assert(ev.len() == dk.len());
    assert forall|j: int| 0 <= j < dk.len() implies #[trigger] dk[j] == ev[j].0 by {}
    assert forall|j: int| 0 <= j < keys.len() implies #[trigger] keys[j] == cv[j].0 by {}
    assert(ev[p] == (key, info_view(info)));
    assert(dk[p] == key);
    assert forall|j: int| 0 <= j < p implies seq_less(#[trigger] dk[j], key) by {
        assert(ev[j] == cv[j]);
        assert(seq_less(keys[j], key));
    }
    lemma_seq_less_trichotomy(key, key);
    assert(is_place(dk, key, p));
    lemma_place_unique(dk, key, p);
}

/// Every key has a place among sorted keys.
pub proof fn lemma_place_exists(keys: Seq<Seq<char>>, k: Seq<char>)
    requires
        sorted_keys(keys),
    ensures
        is_place(keys, k, place_of(keys, k)),
    decreases keys.len(),
{
    if keys.len() == 0 {
        assert(is_place(keys, k, 0));
    } else {
        let w = keys.drop_last();
        assert(sorted_keys(w)) by {
            assert forall|i: int, j: int| 0 <= i < j < w.len() implies seq_less(
                #[trigger] w[i],
                #[trigger] w[j],
            ) by {
                assert(w[i] == keys[i] && w[j] == keys[j]);
            }
        }
        lemma_place_exists(w, k);
        let q = place_of(w, k);
        assert forall|j: int| 0 <= j < q implies seq_less(#[trigger] keys[j], k) by {
            assert(w[j] == keys[j]);
        }
        if q < w.len() {
            assert(w[q] == keys[q]);
            assert(is_place(keys, k, q));
        } else if seq_less(keys.last(), k) {
            assert(is_place(keys, k, keys.len() as int));
        } else {
            assert(is_place(keys, k, keys.len() - 1));
        }
    }
}

} // verus!
