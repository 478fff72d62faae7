use vstd::prelude::*;
use crate::config::get_rhai_ahash_seed;
use crate::scope::strs_view;

verus! {

#[verifier::external_type_specification]
#[verifier::external_body]
pub struct ExAHasher(ahash::AHasher);

/// A hash that stands for zero, which is reserved to mean "no hash".
pub const ALT_ZERO_HASH: u64 = 42;

/// A hash never zero: zero is replaced by [`ALT_ZERO_HASH`].
pub open spec fn non_zero(h: u64) -> u64 {
    if h == 0 {
        ALT_ZERO_HASH
    } else {
        h
    }
}

/// Replaces a zero hash by [`ALT_ZERO_HASH`].
pub fn non_zero_hash(h: u64) -> (r: u64)
    ensures
        r == non_zero(h),
{
    if h == 0 {
        ALT_ZERO_HASH
    } else {
        h
    }
}

/// A hasher keyed by `ahash`'s default keys (`AHasher::default`), which are fixed for the
/// whole process but chosen at random when first used.
#[verifier::external_body]
fn default_hasher() -> (h: ahash::AHasher) {
    ahash::AHasher::default()
}

#[verifier::external_type_specification]
#[verifier::external_body]
pub struct ExRandomState(ahash::RandomState);

/// A builder of hashers keyed by four seeds (`RandomState::with_seeds`).
#[verifier::external_body]
fn random_state_with_seeds(k0: u64, k1: u64, k2: u64, k3: u64) -> (r: ahash::RandomState) {
    ahash::RandomState::with_seeds(k0, k1, k2, k3)
}

/// A hasher from a builder (`<RandomState as BuildHasher>::build_hasher`).
#[verifier::external_body]
fn build_hasher_from(state: &ahash::RandomState) -> (h: ahash::AHasher) {
    std::hash::BuildHasher::build_hasher(state)
}

/// Feeds a string into a hasher (`<str as Hash>::hash`).
#[verifier::external_body]
fn hash_str(h: &mut ahash::AHasher, s: &str) {
    std::hash::Hash::hash(s, h)
}

/// Feeds a `usize` into a hasher (`<usize as Hash>::hash`).
#[verifier::external_body]
fn hash_usize(h: &mut ahash::AHasher, n: usize) {
    std::hash::Hash::hash(&n, h)
}

/// Feeds a `u64` into a hasher (`<u64 as Hash>::hash`).
#[verifier::external_body]
fn hash_u64(h: &mut ahash::AHasher, n: u64) {
    std::hash::Hash::hash(&n, h)
}

/// The hash of what was fed into a hasher (`AHasher::finish`).
#[verifier::external_body]
fn hasher_finish(h: &ahash::AHasher) -> (r: u64) {
    std::hash::Hasher::finish(h)
}

/// A hasher for the engine's hashes: keyed by the configured seeds when any is non-zero,
/// else by the default keys.
pub fn get_hasher() -> ahash::AHasher {
    match get_rhai_ahash_seed() {
        Some(seeds) => {
            if seeds[0] | seeds[1] | seeds[2] | seeds[3] != 0 {
                build_hasher_from(&random_state_with_seeds(seeds[0], seeds[1], seeds[2], seeds[3]))
            } else {
                default_hasher()
            }
        },
        None => default_hasher(),
    }
}

/// A hasher that passes `u64` values through, zero becoming [`ALT_ZERO_HASH`].
#[derive(Clone, Copy, PartialEq, Eq, Structural, Debug)]
pub struct StraightHasher(pub u64);

impl StraightHasher {
    /// The hash.
    pub fn finish(&self) -> (r: u64)
        ensures
            r == self.0,
    {
        self.0
    }

    /// Feed a `u64` value: it becomes the hash.
    pub fn write_u64(&mut self, i: u64)
        ensures
            final(self).0 == non_zero(i),
    {
        self.0 = non_zero_hash(i);
    }
}

/// Builds [`StraightHasher`]s.
#[derive(Clone, Copy, PartialEq, Eq, Structural, Debug)]
pub struct StraightHasherBuilder;

impl StraightHasherBuilder {
    /// A new hasher, holding [`ALT_ZERO_HASH`].
    pub fn build_hasher(&self) -> (r: StraightHasher)
        ensures
            r.0 == ALT_ZERO_HASH,
    {
        StraightHasher(ALT_ZERO_HASH)
    }
}

/// One value fed into a hasher.
#[derive(Debug, PartialEq, Eq)]
pub enum HashItem {
    /// A string.
    Text(String),
    /// A count (a `usize`).
    Count(usize),
    /// A `u64`.
    Word(u64),
}

/// One value fed into a hasher, as a plain value.
pub enum HashItemV {
    Text(Seq<char>),
    Count(usize),
    Word(u64),
}

/// The plain value of a [`HashItem`].
pub open spec fn hash_item_view(h: HashItem) -> HashItemV {
    match h {
        HashItem::Text(t) => HashItemV::Text(t@),
        HashItem::Count(n) => HashItemV::Count(n),
        HashItem::Word(w) => HashItemV::Word(w),
    }
}

/// The plain values of a sequence of [`HashItem`]s.
pub open spec fn hash_items_view(s: Seq<HashItem>) -> Seq<HashItemV> {
    s.map_values(|h: HashItem| hash_item_view(h))
}

/// A string as an item.
pub open spec fn text_item(t: Seq<char>) -> HashItemV {
    HashItemV::Text(t)
}

/// What a namespace path feeds into a hasher: each module but the first, in order, then the
/// number of modules.
pub open spec fn namespace_feed(modules: Seq<Seq<char>>) -> Seq<HashItemV> {
    let skipped = if modules.len() > 0 {
        (modules.len() - 1) as nat
    } else {
        0
    };
    Seq::new(skipped, |i: int| text_item(modules[i + 1])).push(HashItemV::Count(modules.len() as usize))
}

/// What the hash of a qualified variable feeds into a hasher.
pub open spec fn var_hash_feed(modules: Seq<Seq<char>>, name: Seq<char>) -> Seq<HashItemV> {
    namespace_feed(modules).push(HashItemV::Text(name))
}

/// What the hash of a qualified function and its number of parameters feeds into a hasher.
pub open spec fn fn_hash_feed(namespace: Seq<Seq<char>>, name: Seq<char>, num: usize) -> Seq<HashItemV> {
    namespace_feed(namespace).push(HashItemV::Text(name)).push(HashItemV::Count(num))
}

/// What the hash of parameter types feeds into a hasher: each type, then their number.
pub open spec fn params_hash_feed(params: Seq<Seq<char>>) -> Seq<HashItemV> {
    Seq::new(params.len(), |i: int| text_item(params[i])).push(HashItemV::Count(params.len() as usize))
}

/// What the hash of a function with its parameter types feeds into a hasher: the base hash,
/// then the types and their number.
pub open spec fn full_hash_feed(base: u64, params: Seq<Seq<char>>) -> Seq<HashItemV> {
    seq![HashItemV::Word(base)] + params_hash_feed(params)
}

/// Appends the path of a namespace as it is fed into a hasher: each module but the first,
/// then the number of modules.
fn push_namespace(out: &mut Vec<HashItem>, modules: &Vec<String>)
    ensures
        hash_items_view(final(out)@) == hash_items_view(old(out)@) + namespace_feed(strs_view(modules@)),
{
    let ghost start = out@;
    let len = modules.len();
    let mut i: usize = 1;
    while i < len
        invariant
            len == modules@.len(),
            1 <= i,
            i <= len || (len == 0 && i == 1),
            out@.len() == start.len() + i - 1,
            out@.subrange(0, start.len() as int) == start,
            forall|k: int| 1 <= k < i ==> hash_item_view(#[trigger] out@[start.len() + k - 1]) == text_item(modules@[k]@),
        decreases len - i,
    {
        out.push(HashItem::Text(modules[i].clone()));
        i += 1;
    }
    out.push(HashItem::Count(len));
    proof {
        let names = strs_view(modules@);
        let feed = namespace_feed(names);
        assert(names.len() == modules@.len());
        let skipped: nat = if names.len() > 0 {
            (names.len() - 1) as nat
        } else {
            0
        };
        let texts = Seq::new(skipped, |j: int| text_item(names[j + 1]));
        assert(texts.len() == skipped);
        assert(feed == texts.push(HashItemV::Count(len)));
        assert(out@.len() == start.len() + skipped + 1);
        assert forall|j: int| 0 <= j < skipped implies #[trigger] texts[j] == text_item(modules@[j + 1]@) by {
            assert(names[j + 1] == modules@[j + 1]@);
        }
        assert(hash_items_view(out@) =~= hash_items_view(start) + feed) by {
            assert forall|k: int| 0 <= k < out@.len() implies #[trigger] hash_items_view(out@)[k] == (hash_items_view(start) + feed)[k] by {
                if k < start.len() {
                    assert(out@[k] == out@.subrange(0, start.len() as int)[k]);
                } else if k < out@.len() - 1 {
                    let m = k - start.len() + 1;
                    assert(out@[start.len() + m - 1] == out@[k]);
                    assert(feed[k - start.len()] == texts[m - 1]);
                }
            }
        }
    }
}

/// Appends strings, each as an item.
fn push_texts(out: &mut Vec<HashItem>, texts: &Vec<String>)
    ensures
        hash_items_view(final(out)@) == hash_items_view(old(out)@) + Seq::new(texts@.len(), |i: int| text_item(texts@[i]@)),
{
    let ghost start = out@;
    let len = texts.len();
    let mut i: usize = 0;
    while i < len
        invariant
            len == texts@.len(),
            i <= len,
            out@.len() == start.len() + i,
            out@.subrange(0, start.len() as int) == start,
            forall|k: int| 0 <= k < i ==> hash_item_view(#[trigger] out@[start.len() + k]) == text_item(texts@[k]@),
        decreases len - i,
    {
        out.push(HashItem::Text(texts[i].clone()));
        i += 1;
    }
    proof {
        let added = Seq::new(texts@.len(), |i: int| text_item(texts@[i]@));
        assert(hash_items_view(out@) =~= hash_items_view(start) + added) by {
            assert forall|k: int| 0 <= k < out@.len() implies #[trigger] hash_items_view(out@)[k] == (hash_items_view(start) + added)[k] by {
                if k < start.len() {
                    assert(out@[k] == out@.subrange(0, start.len() as int)[k]);
                } else {
                    let m = k - start.len();
                    assert(out@[start.len() + m] == out@[k]);
                }
            }
        }
    }
}

/// The strings of a vector as items are the strings of its texts as items.
proof fn lemma_texts_feed(v: Seq<String>)
    ensures
        Seq::new(v.len(), |i: int| text_item(v[i]@)) == Seq::new(strs_view(v).len(), |i: int| text_item(strs_view(v)[i])),
        params_hash_feed(strs_view(v)) == Seq::new(v.len(), |i: int| text_item(v[i]@)).push(HashItemV::Count(v.len() as usize)),
{
    let a = Seq::new(v.len(), |i: int| text_item(v[i]@));
    let b = Seq::new(strs_view(v).len(), |i: int| text_item(strs_view(v)[i]));
    assert(strs_view(v).len() == v.len());
    assert forall|i: int| 0 <= i < v.len() implies #[trigger] a[i] == b[i] by {
        assert(strs_view(v)[i] == v[i]@);
    }
    assert(a =~= b);
}

/// The items that the hash of a qualified variable feeds into its hasher.
pub fn var_hash_items(modules: &Vec<String>, var_name: &str) -> (r: Vec<HashItem>)
    ensures
        hash_items_view(r@) == var_hash_feed(strs_view(modules@), var_name@),
{
    let mut out: Vec<HashItem> = Vec::new();
    push_namespace(&mut out, modules);
    out.push(HashItem::Text(var_name.to_string()));
    proof {
        assert(hash_items_view(Seq::<HashItem>::empty()) =~= Seq::empty());
        assert(hash_items_view(out@) =~= var_hash_feed(strs_view(modules@), var_name@));
    }
    out
}

/// The items that the hash of a qualified function and its number of parameters feeds into
/// its hasher.
pub fn fn_hash_items(namespace: &Vec<String>, fn_name: &str, num: usize) -> (r: Vec<HashItem>)
    ensures
        hash_items_view(r@) == fn_hash_feed(strs_view(namespace@), fn_name@, num),
{
    let mut out: Vec<HashItem> = Vec::new();
    push_namespace(&mut out, namespace);
    out.push(HashItem::Text(fn_name.to_string()));
    out.push(HashItem::Count(num));
    proof {
        assert(hash_items_view(Seq::<HashItem>::empty()) =~= Seq::empty());
        assert(hash_items_view(out@) =~= fn_hash_feed(strs_view(namespace@), fn_name@, num));
    }
    out
}

/// The items that the hash of parameter types feeds into its hasher.
pub fn params_hash_items(params: &Vec<String>) -> (r: Vec<HashItem>)
    ensures
        hash_items_view(r@) == params_hash_feed(strs_view(params@)),
{
    let mut out: Vec<HashItem> = Vec::new();
    push_texts(&mut out, params);
    out.push(HashItem::Count(params.len()));
    proof {
        assert(hash_items_view(Seq::<HashItem>::empty()) =~= Seq::empty());
        lemma_texts_feed(params@);
        assert(hash_items_view(out@) =~= params_hash_feed(strs_view(params@)));
    }
    out
}

/// The items that the hash of a function with its parameter types feeds into its hasher.
pub fn full_hash_items(base: u64, params: &Vec<String>) -> (r: Vec<HashItem>)
    ensures
        hash_items_view(r@) == full_hash_feed(base, strs_view(params@)),
{
    let mut out: Vec<HashItem> = Vec::new();
    out.push(HashItem::Word(base));
    push_texts(&mut out, params);
    out.push(HashItem::Count(params.len()));
    proof {
        assert(hash_items_view(seq![HashItem::Word(base)]) =~= seq![HashItemV::Word(base)]);
        lemma_texts_feed(params@);
        let a = seq![HashItemV::Word(base)];
        let b = Seq::new(params@.len(), |i: int| text_item(params@[i]@));
        let c = HashItemV::Count(params.len());
        assert(hash_items_view(out@) =~= (a + b).push(c));
        assert((a + b).push(c) =~= a + b.push(c));
        assert(hash_items_view(out@) =~= full_hash_feed(base, strs_view(params@)));
    }
    out
}

/// Feeds items into a hasher, in order.
fn feed_items(s: &mut ahash::AHasher, items: &Vec<HashItem>) {
    let mut i: usize = 0;
    while i < items.len()
        decreases items@.len() - i,
    {
        match &items[i] {
            HashItem::Text(t) => hash_str(s, t.as_str()),
            HashItem::Count(n) => hash_usize(s, *n),
            HashItem::Word(w) => hash_u64(s, *w),
        }
        i += 1;
    }
}

/// The hash of a variable, qualified by a namespace path: a hasher is fed
/// [`var_hash_items`]. It is never zero.
pub fn calc_var_hash(modules: &Vec<String>, var_name: &str) -> (r: u64)
    ensures
        r != 0,
{
    let items = var_hash_items(modules, var_name);
    let mut s = get_hasher();
    feed_items(&mut s, &items);
    non_zero_hash(hasher_finish(&s))
}

/// The hash of a function by its name and number of parameters, qualified by a namespace
/// path: a hasher is fed [`fn_hash_items`]. It is never zero.
pub fn calc_fn_hash(namespace: &Vec<String>, fn_name: &str, num: usize) -> (r: u64)
    ensures
        r != 0,
{
    let items = fn_hash_items(namespace, fn_name, num);
    let mut s = get_hasher();
    feed_items(&mut s, &items);
    non_zero_hash(hasher_finish(&s))
}

/// The hash of a list of parameter types (given by their names): a hasher is fed
/// [`params_hash_items`]. It is never zero.
pub fn calc_fn_params_hash(params: &Vec<String>) -> (r: u64)
    ensures
        r != 0,
{
    let items = params_hash_items(params);
    let mut s = get_hasher();
    feed_items(&mut s, &items);
    non_zero_hash(hasher_finish(&s))
}

/// The hash of a function with its parameter types: a hasher is fed [`full_hash_items`].
/// It is never zero.
pub fn calc_fn_hash_full(base: u64, params: &Vec<String>) -> (r: u64)
    ensures
        r != 0,
{
    let items = full_hash_items(base, params);
    let mut s = get_hasher();
    feed_items(&mut s, &items);
    non_zero_hash(hasher_finish(&s))
}

/// Combine two hashes by exclusive or; zero becomes [`ALT_ZERO_HASH`].
pub fn combine_hashes(a: u64, b: u64) -> (r: u64)
    ensures
        r == non_zero(a ^ b),
{
    non_zero_hash(a ^ b)
}

/// Combining hashes is symmetric, and combining a hash with itself gives [`ALT_ZERO_HASH`].
pub proof fn lemma_combine_hashes(a: u64, b: u64)
    ensures
        non_zero(a ^ b) == non_zero(b ^ a),
        non_zero(a ^ a) == ALT_ZERO_HASH,
        non_zero(a ^ b) != 0,
{
    assert(a ^ b == b ^ a) by (bit_vector);
    assert(a ^ a == 0) by (bit_vector);
}

} // verus!
