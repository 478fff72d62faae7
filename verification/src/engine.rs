use vstd::prelude::*;
use vstd::utf8::*;
use crate::dynamic::{Dynamic, DynV, Value, Union, MapEntry, dyn_view, dyns_view, entries_view,
    lemma_dyns_view, lemma_entries_view};
use crate::error::{EvalAltResult, ErrV, RhaiResultOf, unit_result_view, err_fill_position};
use crate::position::Position;
use crate::text::string_of;
use crate::ast::ScriptFuncDef;
use std::rc::Rc;

verus! {

broadcast use vstd::std_specs::vec::group_vec_axioms;

/// Resource limits of an [`Engine`]; a limit of zero means "no limit".
pub struct Limits {
    /// Maximum number of operations of one evaluation run.
    pub max_operations: u64,
    /// Maximum length of a string, in bytes.
    pub max_string_len: usize,
    /// Maximum size of an array or BLOB, counting nested arrays.
    pub max_array_size: usize,
    /// Maximum size of an object map, counting nested maps.
    pub max_map_size: usize,
}

/// A keyword or operator registered as custom syntax.
pub struct CustomKeyword {
    /// The keyword.
    pub name: String,
    /// Its precedence as a binary operator (zero: none).
    pub precedence: u8,
}

/// The custom keywords as plain values: each name with its precedence.
pub open spec fn keywords_view(v: Seq<CustomKeyword>) -> Seq<(Seq<char>, u8)> {
    v.map_values(|k: CustomKeyword| (k.name@, k.precedence))
}

/// The position of the first keyword named `name` at or after `i`, if any.
pub open spec fn keyword_index(v: Seq<(Seq<char>, u8)>, name: Seq<char>, i: int) -> Option<int>
    decreases v.len() - i,
{
    if i < 0 || i >= v.len() {
        None
    } else if v[i].0 == name {
        Some(i)
    } else {
        keyword_index(v, name, i + 1)
    }
}

/// The keywords with `name` given precedence `p`: its entry updated where it has one, else
/// a new entry at the end.
pub open spec fn with_keyword(v: Seq<(Seq<char>, u8)>, name: Seq<char>, p: u8) -> Seq<(Seq<char>, u8)> {
    match keyword_index(v, name, 0) {
        Some(j) => v.update(j, (name, p)),
        None => v.push((name, p)),
    }
}

/// What the tokenizer makes of a text, as far as its registration as an operator goes.
#[derive(PartialEq, Eq, Structural, Clone, Copy, Debug)]
pub enum SymbolClass {
    /// No symbol of the language: an identifier, a reserved word or a custom keyword.
    NotStandard,
    /// A standard keyword, such as `let` or `fn`.
    StandardKeyword,
    /// A standard operator, such as `+` or `==`.
    StandardSymbol,
    /// Another symbol of the language, such as `(` or `;`.
    OtherSymbol,
}

/// The message of a refused custom operator: `None` where the keyword may be registered.
pub open spec fn custom_operator_refusal(keyword: Seq<char>, precedence: u8, class: SymbolClass, disabled: bool) -> Option<Seq<char>> {
    if precedence == 0 {
        Some("precedence cannot be zero"@)
    } else if disabled {
        None
    } else {
        match class {
            SymbolClass::NotStandard => None,
            SymbolClass::StandardKeyword => Some("'"@ + keyword + "' is a reserved keyword"@),
            SymbolClass::StandardSymbol => Some("'"@ + keyword + "' is a reserved operator"@),
            SymbolClass::OtherSymbol => Some("'"@ + keyword + "' is a reserved symbol"@),
        }
    }
}

/// The scripting engine: configuration shared by all evaluation runs.
pub struct Engine {
    /// Resource limits.
    pub limits: Limits,
    /// The default value of the custom state (tag) of each evaluation run.
    pub def_tag: Dynamic,
    /// Disabled keywords and operators (no duplicates).
    pub disabled_symbols: Vec<String>,
    /// Custom keywords and operators (no duplicate names).
    pub custom_keywords: Vec<CustomKeyword>,
    /// The capacity of the strings interner, if strings are interned.
    pub interned_strings: Option<usize>,
    /// May a variable definition shadow an existing variable?
    pub allow_shadowing: bool,
    /// Are built-in operators used directly, without searching for overloads?
    pub fast_operators: bool,
}

/// Default maximum number of strings interned.
pub const MAX_STRINGS_INTERNED: usize = 256;

/// The clamped value of a size: sizes beyond `usize::MAX` count as `usize::MAX`.
pub open spec fn clamp(n: nat) -> nat {
    if n > usize::MAX {
        usize::MAX as nat
    } else {
        n
    }
}

/// Number of bytes of the UTF-8 encoding of a string, as `str::len` reports it.
pub open spec fn byte_len(s: Seq<char>) -> nat {
    (encode_utf8(s).len() as usize) as nat
}

/// Sizes `(arrays, maps, strings)` held by a value, as the data-size limits count them.
///
/// A string counts its bytes; a BLOB its bytes; an array counts one per element
/// plus the sizes of nested values; a map counts one per property, plus nested sizes.
pub open spec fn value_sizes(v: Value) -> (nat, nat, nat)
    decreases v, 1nat,
{
    match v {
        Value::Array(a) => array_sizes(a),
        Value::Blob(b) => (b.len(), 0, 0),
        Value::ObjectMap(m) => map_sizes(m),
        Value::Str(s) => (0, 0, byte_len(s)),
        _ => (0, 0, 0),
    }
}

/// Sizes held by the elements of an array.
pub open spec fn array_sizes(a: Seq<DynV>) -> (nat, nat, nat)
    decreases a, 0nat,
{
    if a.len() == 0 {
        (0, 0, 0)
    } else {
        let (ax, mx, sx) = array_sizes(a.drop_last());
        let v = a.last().value;
        proof {
            assert(decreases_to!(a => a[a.len() - 1]));
        }
        match v {
            Value::Array(_) | Value::ObjectMap(_) => {
                let (x, m, s) = value_sizes(v);
                (ax + x + 1, mx + m, sx + s)
            },
            Value::Blob(b) => (ax + 1 + b.len(), mx, sx),
            Value::Str(s) => (ax + 1, mx, sx + byte_len(s)),
            _ => (ax + 1, mx, sx),
        }
    }
}

/// Sizes held by the property values of an object map.
pub open spec fn map_sizes(m: Seq<(Seq<char>, DynV)>) -> (nat, nat, nat)
    decreases m, 0nat,
{
    if m.len() == 0 {
        (0, 0, 0)
    } else {
        let (ax, mx, sx) = map_sizes(m.drop_last());
        let v = m.last().1.value;
        proof {
            assert(decreases_to!(m => m[m.len() - 1]));
        }
        match v {
            Value::Array(_) | Value::ObjectMap(_) => {
                let (x, mm, s) = value_sizes(v);
                (ax + x, mx + mm + 1, sx + s)
            },
            Value::Blob(b) => (ax + b.len(), mx, sx),
            Value::Str(s) => (ax, mx + 1, sx + byte_len(s)),
            _ => (ax, mx + 1, sx),
        }
    }
}

/// Clamped sizes.
pub open spec fn clamp3(t: (nat, nat, nat)) -> (nat, nat, nat) {
    (clamp(t.0), clamp(t.1), clamp(t.2))
}

/// Is a limit (zero: none) exceeded by a size?
pub open spec fn over(limit: usize, size: nat) -> bool {
    limit > 0 && size > limit
}

/// The outcome of checking sizes `(arrays, maps, strings)` against the limits:
/// the string length is checked first, then the array size, then the map size.
pub open spec fn size_check(limits: Limits, sizes: (nat, nat, nat)) -> Result<(), ErrV> {
    if over(limits.max_string_len, sizes.2) {
        Err(ErrV::DataTooLarge("Length of string"@, Position { line: 0, pos: 0 }))
    } else if over(limits.max_array_size, sizes.0) {
        Err(ErrV::DataTooLarge("Size of array/BLOB"@, Position { line: 0, pos: 0 }))
    } else if over(limits.max_map_size, sizes.1) {
        Err(ErrV::DataTooLarge("Size of object map"@, Position { line: 0, pos: 0 }))
    } else {
        Ok(())
    }
}

/// Is any data-size limit set?
pub open spec fn has_size_limit(limits: Limits) -> bool {
    limits.max_string_len > 0 || limits.max_array_size > 0 || limits.max_map_size > 0
}

/// The outcome of checking the size of a value against the limits, errors positioned at `pos`.
pub open spec fn data_size_check(limits: Limits, v: Value, pos: Position) -> Result<(), ErrV> {
    if !has_size_limit(limits) {
        Ok(())
    } else {
        match size_check(limits, clamp3(value_sizes(v))) {
            Ok(()) => Ok(()),
            Err(e) => Err(err_fill_position(e, pos)),
        }
    }
}

/// The outcome of counting one more operation, with `num` operations done so far
/// and a maximum of `max` (zero: no limit).
///
/// The count cannot go past `u64::MAX`: an operation beyond it is refused as too many.
pub open spec fn operation_check(max: u64, num: u64, pos: Position) -> Result<(), ErrV> {
    if num == u64::MAX || (max > 0 && num + 1 > max) {
        Err(ErrV::TooManyOperations(pos))
    } else {
        Ok(())
    }
}

/// Saturating addition of sizes agrees with clamping the exact sum.
proof fn lemma_clamp_add(a: nat, b: nat)
    ensures
        clamp(clamp(a) + clamp(b)) == clamp(a + b),
{
}

/// Adds sizes, saturating at `usize::MAX`.
pub fn add_sizes(x: usize, y: usize) -> (r: usize)
    ensures
        r == clamp(x as nat + y as nat),
{
    x.saturating_add(y)
}

impl Dynamic {
    /// Recursively calculate the sizes `(arrays, maps, strings)` held by a value.
    pub fn calc_data_sizes(&self, top: bool) -> (r: (usize, usize, usize))
        ensures
            (r.0 as nat, r.1 as nat, r.2 as nat) == clamp3(value_sizes(self@.value)),
        decreases self, 1nat,
    {
        match &self.value {
            Union::Array(arr) => {
                proof {
                    assert(decreases_to!(*self => self.value));
                }
                calc_array_sizes(arr)
            },
            Union::Blob(b) => (b.len(), 0, 0),
            Union::ObjectMap(m) => {
                proof {
                    assert(decreases_to!(*self => self.value));
                }
                calc_map_sizes(m)
            },
            Union::Str(s) => {
                let n = s.as_str().len();
                (0, 0, n)
            },
            _ => (0, 0, 0),
        }
    }
}

/// Sizes held by the elements of an array.
fn calc_array_sizes(arr: &Vec<Dynamic>) -> (r: (usize, usize, usize))
    ensures
        (r.0 as nat, r.1 as nat, r.2 as nat) == clamp3(array_sizes(dyns_view(arr@))),
    decreases arr, 0nat,
{
    let mut ax: usize = 0;
    let mut mx: usize = 0;
    let mut sx: usize = 0;
    let mut i: usize = 0;
    proof {
        lemma_dyns_view(arr@);
    }
    while i < arr.len()
        invariant
            i <= arr.len(),
            dyns_view(arr@).len() == arr.len(),
            forall|j: int| 0 <= j < arr.len() ==> #[trigger] dyns_view(arr@)[j] == dyn_view(arr@[j]),
            (ax as nat, mx as nat, sx as nat) == clamp3(
                array_sizes(dyns_view(arr@).take(i as int)),
            ),
        decreases arr.len() - i,
    {
        let ghost s = dyns_view(arr@).take(i as int + 1);
        proof {
            assert(s.drop_last() =~= dyns_view(arr@).take(i as int));
            assert(s.last() == dyn_view(arr@[i as int]));
            assert(decreases_to!(*arr => arr[i as int]));
        }
        let v = &arr[i];
        let ghost (pa, pm, ps) = array_sizes(dyns_view(arr@).take(i as int));
        match &v.value {
            Union::Array(_) | Union::ObjectMap(_) => {
                let (a, m, st) = v.calc_data_sizes(false);
                let ghost (qa, qm, qs) = value_sizes(v@.value);
                proof {
                    lemma_clamp_add(pa + qa, 1);
                    lemma_clamp_add(pa, qa);
                    lemma_clamp_add(pm, qm);
                    lemma_clamp_add(ps, qs);
                }
                ax = add_sizes(add_sizes(ax, a), 1);
                mx = add_sizes(mx, m);
                sx = add_sizes(sx, st);
            },
            Union::Blob(b) => {
                proof {
                    lemma_clamp_add(pa + 1, b@.len());
                    lemma_clamp_add(pa, 1);
                }
                ax = add_sizes(add_sizes(ax, 1), b.len());
            },
            Union::Str(st) => {
                let n = st.as_str().len();
                proof {
                    lemma_clamp_add(pa, 1);
                    lemma_clamp_add(ps, n as nat);
                }
                ax = add_sizes(ax, 1);
                sx = add_sizes(sx, n);
            },
            _ => {
                proof {
                    lemma_clamp_add(pa, 1);
                }
                ax = add_sizes(ax, 1);
            },
        }
        i += 1;
    }
    proof {
        assert(dyns_view(arr@).take(arr.len() as int) =~= dyns_view(arr@));
    }
    (ax, mx, sx)
}

/// Sizes held by the property values of an object map.
fn calc_map_sizes(map: &Vec<MapEntry>) -> (r: (usize, usize, usize))
    ensures
        (r.0 as nat, r.1 as nat, r.2 as nat) == clamp3(map_sizes(entries_view(map@))),
    decreases map, 0nat,
{
    let mut ax: usize = 0;
    let mut mx: usize = 0;
    let mut sx: usize = 0;
    let mut i: usize = 0;
    proof {
        lemma_entries_view(map@);
    }
    while i < map.len()
        invariant
            i <= map.len(),
            entries_view(map@).len() == map.len(),
            forall|j: int|
                0 <= j < map.len() ==> #[trigger] entries_view(map@)[j] == (
                map@[j].key@,
                dyn_view(map@[j].value),
                ),
            (ax as nat, mx as nat, sx as nat) == clamp3(
                map_sizes(entries_view(map@).take(i as int)),
            ),
        decreases map.len() - i,
    {
        let ghost s = entries_view(map@).take(i as int + 1);
        proof {
            assert(s.drop_last() =~= entries_view(map@).take(i as int));
            assert(s.last().1 == dyn_view(map@[i as int].value));
            assert(decreases_to!(*map => map[i as int]));
            assert(decreases_to!(map[i as int] => map[i as int].value));
        }
        let v = &map[i].value;
        let ghost (pa, pm, ps) = map_sizes(entries_view(map@).take(i as int));
        match &v.value {
            Union::Array(_) | Union::ObjectMap(_) => {
                let (a, m, st) = v.calc_data_sizes(false);
                let ghost (qa, qm, qs) = value_sizes(v@.value);
                proof {
                    lemma_clamp_add(pm + qm, 1);
                    lemma_clamp_add(pa, qa);
                    lemma_clamp_add(pm, qm);
                    lemma_clamp_add(ps, qs);
                }
                ax = add_sizes(ax, a);
                mx = add_sizes(add_sizes(mx, m), 1);
                sx = add_sizes(sx, st);
            },
            Union::Blob(b) => {
                proof {
                    lemma_clamp_add(pa, b@.len());
                }
                ax = add_sizes(ax, b.len());
            },
            Union::Str(st) => {
                let n = st.as_str().len();
                proof {
                    lemma_clamp_add(pm, 1);
                    lemma_clamp_add(ps, n as nat);
                }
                mx = add_sizes(mx, 1);
                sx = add_sizes(sx, n);
            },
            _ => {
                proof {
                    lemma_clamp_add(pm, 1);
                }
                mx = add_sizes(mx, 1);
            },
        }
        i += 1;
    }
    proof {
        assert(entries_view(map@).take(map.len() as int) =~= entries_view(map@));
    }
    (ax, mx, sx)
}

/// The names held in a list of strings.
pub open spec fn names_view(v: Seq<String>) -> Seq<Seq<char>> {
    v.map_values(|x: String| x@)
}

/// Is a string the text `b`?
fn str_eq_name(a: &String, b: &str) -> (r: bool)
    ensures
        r == (a@ == b@),
{
    crate::text::str_eq(a.as_str(), b)
}

/// Does a list of strings hold a given name?
pub fn contains_name(v: &Vec<String>, name: &str) -> (r: bool)
    ensures
        r == names_view(v@).contains(name@),
{
    let mut i: usize = 0;
    while i < v.len()
        invariant
            i <= v.len(),
            forall|j: int| 0 <= j < i ==> v@[j]@ != name@,
        decreases v.len() - i,
    {
        if crate::text::str_eq(v[i].as_str(), name) {
            proof {
                assert(names_view(v@)[i as int] == name@);
            }
            return true;
        }
        i += 1;
    }
    proof {
        if names_view(v@).contains(name@) {
            let j = choose|j: int| 0 <= j < names_view(v@).len() && names_view(v@)[j] == name@;
            assert(v@[j]@ == name@);
        }
    }
    false
}

/// The runtime state of one evaluation run.
pub struct GlobalRuntimeState {
    /// Number of operations performed so far.
    pub num_operations: u64,
    /// Nesting level of statement blocks (zero: global level).
    pub scope_level: usize,
    /// Nesting level of function calls.
    pub level: usize,
    /// Must variables always be searched by name in the scope?
    pub always_search_scope: bool,
    /// The source of the script being evaluated, if any.
    pub source: Option<String>,
    /// The custom state (tag) of the run.
    pub tag: Dynamic,
    /// The script-defined functions callable in the run.
    pub lib: Vec<Rc<ScriptFuncDef>>,
}

impl GlobalRuntimeState {
    /// A fresh state for an evaluation run of an engine: no operations yet, at global level,
    /// with the engine's default tag.
    pub fn new(engine: &Engine) -> (r: GlobalRuntimeState)
        ensures
            r.num_operations == 0,
            r.scope_level == 0,
            r.level == 0,
            !r.always_search_scope,
            r.source is None,
            r.tag@ == engine.def_tag@,
            r.lib@.len() == 0,
    {
        GlobalRuntimeState {
            num_operations: 0,
            scope_level: 0,
            level: 0,
            always_search_scope: false,
            source: None,
            tag: engine.def_tag.deep_clone(),
            lib: Vec::new(),
        }
    }

    /// The source of the script being evaluated, if any.
    pub fn source(&self) -> (r: Option<&str>)
        ensures
            match self.source {
                Some(s) => r matches Some(t) && t@ == s@,
                None => r is None,
            },
    {
        match &self.source {
            Some(s) => Some(s.as_str()),
            None => None,
        }
    }
}

impl Engine {
    /// An engine with no limits, the default tag `()`, no disabled or custom symbols,
    /// string interning on, shadowing allowed and fast operators on.
    pub fn new() -> (r: Engine)
        ensures
            r.limits.max_operations == 0,
            r.limits.max_string_len == 0,
            r.limits.max_array_size == 0,
            r.limits.max_map_size == 0,
            r.def_tag@ == crate::dynamic::plain(Value::Unit),
            r.disabled_symbols@.len() == 0,
            r.custom_keywords@.len() == 0,
            r.interned_strings == Some(MAX_STRINGS_INTERNED),
            r.allow_shadowing,
            r.fast_operators,
    {
        Engine {
            limits: Limits { max_operations: 0, max_string_len: 0, max_array_size: 0, max_map_size: 0 },
            def_tag: Dynamic::unit(),
            disabled_symbols: Vec::new(),
            custom_keywords: Vec::new(),
            interned_strings: Some(MAX_STRINGS_INTERNED),
            allow_shadowing: true,
            fast_operators: true,
        }
    }

    /// The maximum number of operations of one evaluation run (zero: no limit).
    pub fn max_operations(&self) -> (r: u64)
        ensures
            r == self.limits.max_operations,
    {
        self.limits.max_operations
    }

    /// Set the maximum number of operations of one evaluation run (zero: no limit).
    pub fn set_max_operations(&mut self, operations: u64)
        ensures
            final(self).limits.max_operations == operations,
            final(self).limits.max_string_len == old(self).limits.max_string_len,
            final(self).limits.max_array_size == old(self).limits.max_array_size,
            final(self).limits.max_map_size == old(self).limits.max_map_size,
            final(self).def_tag == old(self).def_tag,
            final(self).disabled_symbols == old(self).disabled_symbols,
            final(self).custom_keywords == old(self).custom_keywords,
            final(self).interned_strings == old(self).interned_strings,
            final(self).allow_shadowing == old(self).allow_shadowing,
            final(self).fast_operators == old(self).fast_operators,
    {
        self.limits.max_operations = operations;
    }

    /// Set the maximum length of strings, in bytes (zero: no limit).
    pub fn set_max_string_size(&mut self, max_len: usize)
        ensures
            final(self).limits == (Limits { max_string_len: max_len, ..old(self).limits }),
            final(self).def_tag == old(self).def_tag,
            final(self).disabled_symbols == old(self).disabled_symbols,
            final(self).custom_keywords == old(self).custom_keywords,
            final(self).interned_strings == old(self).interned_strings,
            final(self).allow_shadowing == old(self).allow_shadowing,
            final(self).fast_operators == old(self).fast_operators,
    {
        self.limits.max_string_len = max_len;
    }

    /// Set the maximum size of arrays and BLOBs (zero: no limit).
    pub fn set_max_array_size(&mut self, max_size: usize)
        ensures
            final(self).limits == (Limits { max_array_size: max_size, ..old(self).limits }),
            final(self).def_tag == old(self).def_tag,
            final(self).disabled_symbols == old(self).disabled_symbols,
            final(self).custom_keywords == old(self).custom_keywords,
            final(self).interned_strings == old(self).interned_strings,
            final(self).allow_shadowing == old(self).allow_shadowing,
            final(self).fast_operators == old(self).fast_operators,
    {
        self.limits.max_array_size = max_size;
    }

    /// Set the maximum size of object maps (zero: no limit).
    pub fn set_max_map_size(&mut self, max_size: usize)
        ensures
            final(self).limits == (Limits { max_map_size: max_size, ..old(self).limits }),
            final(self).def_tag == old(self).def_tag,
            final(self).disabled_symbols == old(self).disabled_symbols,
            final(self).custom_keywords == old(self).custom_keywords,
            final(self).interned_strings == old(self).interned_strings,
            final(self).allow_shadowing == old(self).allow_shadowing,
            final(self).fast_operators == old(self).fast_operators,
    {
        self.limits.max_map_size = max_size;
    }

    /// Is any data-size limit set?
    pub fn has_data_size_limit(&self) -> (r: bool)
        ensures
            r == has_size_limit(self.limits),
    {
        self.limits.max_string_len > 0 || self.limits.max_array_size > 0
            || self.limits.max_map_size > 0
    }

    /// May a variable definition shadow an existing variable?
    pub fn allow_shadowing(&self) -> (r: bool)
        ensures
            r == self.allow_shadowing,
    {
        self.allow_shadowing
    }

    /// Set whether a variable definition may shadow an existing variable.
    pub fn set_allow_shadowing(&mut self, enable: bool)
        ensures
            final(self).allow_shadowing == enable,
            final(self).limits == old(self).limits,
            final(self).def_tag == old(self).def_tag,
            final(self).disabled_symbols == old(self).disabled_symbols,
            final(self).custom_keywords == old(self).custom_keywords,
            final(self).interned_strings == old(self).interned_strings,
            final(self).fast_operators == old(self).fast_operators,
    {
        self.allow_shadowing = enable;
    }

    /// Are built-in operators used directly?
    pub fn fast_operators(&self) -> (r: bool)
        ensures
            r == self.fast_operators,
    {
        self.fast_operators
    }

    /// Set whether built-in operators are used directly.
    pub fn set_fast_operators(&mut self, enable: bool)
        ensures
            final(self).fast_operators == enable,
            final(self).limits == old(self).limits,
            final(self).def_tag == old(self).def_tag,
            final(self).disabled_symbols == old(self).disabled_symbols,
            final(self).custom_keywords == old(self).custom_keywords,
            final(self).interned_strings == old(self).interned_strings,
            final(self).allow_shadowing == old(self).allow_shadowing,
    {
        self.fast_operators = enable;
    }

    /// Raise an error if any size `(arrays, maps, strings)` exceeds its limit.
    ///
    /// The error has no position; it should be set afterwards.
    pub fn raise_err_if_over_data_size_limit(&self, sizes: (usize, usize, usize)) -> (r:
        RhaiResultOf<()>)
        ensures
            unit_result_view(r) == size_check(
                self.limits,
                (sizes.0 as nat, sizes.1 as nat, sizes.2 as nat),
            ),
    {
        let (arr, map, s) = sizes;
        if self.limits.max_string_len > 0 && s > self.limits.max_string_len {
            return Err(
                Box::new(
                    EvalAltResult::ErrorDataTooLarge(string_of("Length of string"), Position::none()),
                ),
            );
        }
        if self.limits.max_array_size > 0 && arr > self.limits.max_array_size {
            return Err(
                Box::new(
                    EvalAltResult::ErrorDataTooLarge(string_of("Size of array/BLOB"), Position::none()),
                ),
            );
        }
        if self.limits.max_map_size > 0 && map > self.limits.max_map_size {
            return Err(
                Box::new(
                    EvalAltResult::ErrorDataTooLarge(string_of("Size of object map"), Position::none()),
                ),
            );
        }
        Ok(())
    }

    /// Check whether the size of a value is within the limits; errors are positioned at `pos`.
    pub fn check_data_size(&self, value: &Dynamic, pos: Position) -> (r: RhaiResultOf<()>)
        ensures
            unit_result_view(r) == data_size_check(self.limits, value@.value, pos),
    {
        if !self.has_data_size_limit() {
            return Ok(());
        }
        let sizes = value.calc_data_sizes(true);
        match self.raise_err_if_over_data_size_limit(sizes) {
            Ok(()) => Ok(()),
            Err(err) => Err(err.fill_position(pos)),
        }
    }

    /// Raise an error if the size of a value is out of the limits.
    pub fn ensure_data_size_within_limits(&self, value: &Dynamic) -> (r: RhaiResultOf<()>)
        ensures
            unit_result_view(r) == data_size_check(self.limits, value@.value, Position { line: 0, pos: 0 }),
    {
        self.check_data_size(value, Position::none())
    }

    /// Count one more operation, raising an error if the count goes over the limit.
    pub fn track_operation(&self, global: &mut GlobalRuntimeState, pos: Position) -> (r:
        RhaiResultOf<()>)
        ensures
            unit_result_view(r) == operation_check(
                self.limits.max_operations,
                old(global).num_operations,
                pos,
            ),
            final(global).num_operations == (if old(global).num_operations == u64::MAX {
                u64::MAX as int
            } else {
                old(global).num_operations + 1
            }),
            final(global).scope_level == old(global).scope_level,
            final(global).level == old(global).level,
            final(global).always_search_scope == old(global).always_search_scope,
            final(global).source == old(global).source,
            final(global).tag == old(global).tag,
            final(global).lib == old(global).lib,
    {
        if global.num_operations == u64::MAX {
            return Err(Box::new(EvalAltResult::ErrorTooManyOperations(pos)));
        }
        global.num_operations = global.num_operations + 1;
        let max = self.max_operations();
        if max > 0 && global.num_operations > max {
            return Err(Box::new(EvalAltResult::ErrorTooManyOperations(pos)));
        }
        Ok(())
    }

    /// Disable a keyword or operator of the language.
    pub fn disable_symbol(&mut self, symbol: &str)
        ensures
            forall|x: Seq<char>|
                names_view(final(self).disabled_symbols@).contains(x) <==> (names_view(
                    old(self).disabled_symbols@,
                ).contains(x) || x == symbol@),
            final(self).limits == old(self).limits,
            final(self).def_tag == old(self).def_tag,
            final(self).custom_keywords == old(self).custom_keywords,
            final(self).interned_strings == old(self).interned_strings,
            final(self).allow_shadowing == old(self).allow_shadowing,
            final(self).fast_operators == old(self).fast_operators,
    {
        if !contains_name(&self.disabled_symbols, symbol) {
            let ghost old_v = self.disabled_symbols@;
            self.disabled_symbols.push(string_of(symbol));
            proof {
                assert forall|x: Seq<char>|
                    names_view(self.disabled_symbols@).contains(x) <==> (names_view(
                        old_v,
                    ).contains(x) || x == symbol@) by {
                    if names_view(self.disabled_symbols@).contains(x) {
                        let j = choose|j: int|
                            0 <= j < names_view(self.disabled_symbols@).len() && names_view(
                                self.disabled_symbols@,
                            )[j] == x;
                        if j < old_v.len() {
                            assert(names_view(old_v)[j] == x);
                        }
                    }
                    if names_view(old_v).contains(x) {
                        let j = choose|j: int|
                            0 <= j < names_view(old_v).len() && names_view(old_v)[j] == x;
                        assert(names_view(self.disabled_symbols@)[j] == x);
                    }
                    if x == symbol@ {
                        assert(names_view(self.disabled_symbols@)[old_v.len() as int] == x);
                    }
                }
            }
        }
    }

    /// Register a custom operator with a precedence into the language. `class` is what the
    /// tokenizer makes of `keyword`. An identifier, a reserved or custom word, or a disabled
    /// keyword or symbol can be registered; a precedence of zero, or an active standard
    /// keyword, operator or other symbol, is refused with a message.
    pub fn register_custom_operator(&mut self, keyword: &str, precedence: u8, class: SymbolClass) -> (r: Result<(), String>)
        ensures
            match custom_operator_refusal(
                keyword@,
                precedence,
                class,
                names_view(old(self).disabled_symbols@).contains(keyword@),
            ) {
                Some(m) => r matches Err(e) && e@ == m && final(self).custom_keywords@ == old(self).custom_keywords@,
                None => r is Ok && keywords_view(final(self).custom_keywords@) == with_keyword(
                    keywords_view(old(self).custom_keywords@),
                    keyword@,
                    precedence,
                ),
            },
            final(self).limits == old(self).limits,
            final(self).def_tag == old(self).def_tag,
            final(self).disabled_symbols == old(self).disabled_symbols,
            final(self).interned_strings == old(self).interned_strings,
            final(self).allow_shadowing == old(self).allow_shadowing,
            final(self).fast_operators == old(self).fast_operators,
    {
        if precedence == 0 {
            return Err(string_of("precedence cannot be zero"));
        }
        let disabled = contains_name(&self.disabled_symbols, keyword);
        if !disabled {
            let what = match class {
                SymbolClass::NotStandard => None,
                SymbolClass::StandardKeyword => Some("' is a reserved keyword"),
                SymbolClass::StandardSymbol => Some("' is a reserved operator"),
                SymbolClass::OtherSymbol => Some("' is a reserved symbol"),
            };
            if let Some(tail) = what {
                let mut m = string_of("'");
                m.append(keyword);
                m.append(tail);
                proof {
                    reveal_strlit("'");
                    reveal_strlit("' is a reserved keyword");
                    reveal_strlit("' is a reserved operator");
                    reveal_strlit("' is a reserved symbol");
                }
                return Err(m);
            }
        }
        let ghost old_v = keywords_view(self.custom_keywords@);
        let n = self.custom_keywords.len();
        let mut i: usize = 0;
        while i < n
            invariant
                n == self.custom_keywords@.len(),
                i <= n,
                old_v == keywords_view(self.custom_keywords@),
                old_v == keywords_view(old(self).custom_keywords@),
                keyword_index(old_v, keyword@, 0) == keyword_index(old_v, keyword@, i as int),
                custom_operator_refusal(
                    keyword@,
                    precedence,
                    class,
                    names_view(old(self).disabled_symbols@).contains(keyword@),
                ) is None,
                self.limits == old(self).limits,
                self.def_tag == old(self).def_tag,
                self.disabled_symbols == old(self).disabled_symbols,
                self.interned_strings == old(self).interned_strings,
                self.allow_shadowing == old(self).allow_shadowing,
                self.fast_operators == old(self).fast_operators,
            decreases n - i,
        {
            proof {
                assert(old_v[i as int] == (self.custom_keywords@[i as int].name@, self.custom_keywords@[i as int].precedence));
            }
            if str_eq_name(&self.custom_keywords[i].name, keyword) {
                self.custom_keywords.set(i, CustomKeyword { name: string_of(keyword), precedence });
                proof {
                    assert(old_v[i as int].0 == keyword@);
                    assert(keyword_index(old_v, keyword@, i as int) == Some(i as int));
                    assert(keywords_view(self.custom_keywords@) =~= old_v.update(i as int, (keyword@, precedence)));
                }
                return Ok(());
            }
            i += 1;
        }
        self.custom_keywords.push(CustomKeyword { name: string_of(keyword), precedence });
        proof {
            assert(keywords_view(self.custom_keywords@) =~= old_v.push((keyword@, precedence)));
        }
        Ok(())
    }

    /// Is a particular keyword or operator disabled?
    /// Is a keyword or operator disabled?
    pub fn is_symbol_disabled(&self, symbol: &str) -> (r: bool)
        ensures
            r == names_view(self.disabled_symbols@).contains(symbol@),
    {
        contains_name(&self.disabled_symbols, symbol)
    }

    /// The default value of the custom state of each evaluation run.
    pub fn default_tag(&self) -> (r: &Dynamic)
        ensures
            r == self.def_tag,
    {
        &self.def_tag
    }

    /// Set the default value of the custom state of each evaluation run.
    pub fn set_default_tag(&mut self, value: Dynamic)
        ensures
            final(self).def_tag == value,
            final(self).limits == old(self).limits,
            final(self).disabled_symbols == old(self).disabled_symbols,
            final(self).custom_keywords == old(self).custom_keywords,
            final(self).interned_strings == old(self).interned_strings,
            final(self).allow_shadowing == old(self).allow_shadowing,
            final(self).fast_operators == old(self).fast_operators,
    {
        self.def_tag = value;
    }

    /// A mutable reference to the default value of the custom state of each evaluation run.
    pub fn default_tag_mut(&mut self) -> (r: &mut Dynamic)
        ensures
            *r == old(self).def_tag,
            final(self).def_tag == *final(r),
            final(self).limits == old(self).limits,
            final(self).disabled_symbols == old(self).disabled_symbols,
            final(self).custom_keywords == old(self).custom_keywords,
            final(self).interned_strings == old(self).interned_strings,
            final(self).allow_shadowing == old(self).allow_shadowing,
            final(self).fast_operators == old(self).fast_operators,
    {
        &mut self.def_tag
    }

    /// The maximum number of strings to be interned (zero: interning is off).
    pub fn max_strings_interned(&self) -> (r: usize)
        ensures
            r == match self.interned_strings {
                Some(n) => n,
                None => 0,
            },
    {
        match self.interned_strings {
            Some(n) => n,
            None => 0,
        }
    }

    /// Set the maximum number of strings to be interned; zero turns interning off.
    pub fn set_max_strings_interned(&mut self, max: usize)
        ensures
            final(self).interned_strings == (if max == 0 {
                None
            } else {
                Some(max)
            }),
            final(self).limits == old(self).limits,
            final(self).def_tag == old(self).def_tag,
            final(self).disabled_symbols == old(self).disabled_symbols,
            final(self).custom_keywords == old(self).custom_keywords,
            final(self).allow_shadowing == old(self).allow_shadowing,
            final(self).fast_operators == old(self).fast_operators,
    {
        if max == 0 {
            self.interned_strings = None;
        } else {
            self.interned_strings = Some(max);
        }
    }
}

} // verus!
