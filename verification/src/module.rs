use vstd::prelude::*;
use crate::ast::{FnAccess, ScriptFuncDef};
use crate::callable::CallableFunction;
use crate::hashing::{calc_fn_hash, calc_fn_hash_full};
use crate::text::{str_chars, str_eq, string_from_chars, string_of};
use crate::callable::{IteratorFn, share};
use crate::dynamic::{Dynamic, DynV};
use crate::hashing::calc_var_hash;
use crate::keyed::put_hash;
use crate::keyed::{
    key_sorted, has_key, index_of_key, is_put, put, contains_key, get_key, hashes_unique,
    has_hash, index_of_hash, is_put_hash, find_hash, get_hash, put_hash_entry, lookup, lookup_hash,
    extend_keys, extend_hashes, put_hash_if_absent, lemma_lookup_is_put, lemma_lookup_take_push,
    lemma_lookup_hash_take_push, puts_made, lemma_puts_made_append, lemma_puts_made_one,
};
use crate::types::{clone_strings, CustomTypesCollection, CustomTypeInfo, TypeInfoV, entries_v, keys_of, place_of, has_key_at};
use std::rc::Rc;

verus! {

broadcast use vstd::std_specs::vec::group_vec_axioms;

/// The namespace a function is registered in.
#[derive(PartialEq, Eq, Structural, Clone, Copy, Debug)]
pub enum FnNamespace {
    /// Reachable only through the module's name.
    Internal,
    /// Also reachable without qualification.
    Global,
}

impl FnNamespace {
    /// Is the function reachable only through its module's name?
    pub fn is_module_namespace(self) -> (r: bool)
        ensures
            r == (self == FnNamespace::Internal),
    {
        match self {
            FnNamespace::Internal => true,
            FnNamespace::Global => false,
        }
    }

    /// Is the function reachable without qualification?
    pub fn is_global_namespace(self) -> (r: bool)
        ensures
            r == (self == FnNamespace::Global),
    {
        match self {
            FnNamespace::Internal => false,
            FnNamespace::Global => true,
        }
    }
}

/// Information on a registered function.
pub struct FuncInfoMetadata {
    /// Hash of the function.
    pub hash: u64,
    /// Namespace.
    pub namespace: FnNamespace,
    /// Access mode.
    pub access: FnAccess,
    /// Function name.
    pub name: String,
    /// The type of `this`, for a method.
    pub this_type: Option<String>,
    /// Number of parameters.
    pub num_params: usize,
    /// Names of the parameter types.
    pub param_types: Vec<String>,
    /// Parameters, each as `name` or `name: type`.
    pub params_info: Vec<String>,
    /// Return type.
    pub return_type: String,
    /// Documentation comments.
    pub comments: Vec<String>,
}

/// A registered function with its information.
pub struct FuncInfo {
    /// The function.
    pub func: CallableFunction,
    /// Its information.
    pub metadata: Box<FuncInfoMetadata>,
}

/// Is a character white space (as `char::is_whitespace` defines it)?
pub open spec fn is_ws(c: char) -> bool {
    let u = c as u32;
    u == 0x20 || (0x09 <= u && u <= 0x0D) || u == 0x85 || u == 0xA0 || u == 0x1680 || (0x2000 <= u
        && u <= 0x200A) || u == 0x2028 || u == 0x2029 || u == 0x202F || u == 0x205F || u == 0x3000
}

/// The text without leading white space.
pub open spec fn trim_start(s: Seq<char>) -> Seq<char>
    decreases s.len(),
{
    if s.len() > 0 && is_ws(s[0]) {
        trim_start(s.drop_first())
    } else {
        s
    }
}

/// The text without trailing white space.
pub open spec fn trim_end(s: Seq<char>) -> Seq<char>
    decreases s.len(),
{
    if s.len() > 0 && is_ws(s.last()) {
        trim_end(s.drop_last())
    } else {
        s
    }
}

/// The text without leading or trailing white space.
pub open spec fn trim(s: Seq<char>) -> Seq<char> {
    trim_end(trim_start(s))
}

/// The index of the first `:`, if any.
pub open spec fn first_colon(s: Seq<char>) -> Option<int>
    decreases s.len(),
{
    if s.len() == 0 {
        None
    } else {
        match first_colon(s.drop_last()) {
            Some(i) => Some(i),
            None => if s.last() == ':' {
                Some(s.len() - 1)
            } else {
                None
            },
        }
    }
}

/// A type name as shown in a signature: trimmed, without a leading `rhai::`, `INT` shown as
/// `i64`, and a return type of `()` (or none) shown as nothing.
pub open spec fn format_type(t: Seq<char>, is_return_type: bool) -> Seq<char>
    decreases t.len(),
{
    let t2 = trim(t);
    if t2.len() >= 6 && t2.take(6) == "rhai::"@ {
        proof {
            lemma_trim_len(t);
        }
        format_type(t2.skip(6), is_return_type)
    } else if is_return_type && (t2.len() == 0 || t2 == "()"@) {
        Seq::empty()
    } else if t2 == "INT"@ {
        "i64"@
    } else {
        t2
    }
}

/// A parameter as shown in a signature: its name (`_` when blank), with its type after `: `
/// when it has one.
pub open spec fn param_text(p: Seq<char>) -> Seq<char> {
    let head = match first_colon(p) {
        Some(i) => p.take(i),
        None => p,
    };
    let name = if trim(head).len() == 0 {
        "_"@
    } else {
        trim(head)
    };
    match first_colon(p) {
        Some(i) => name + ": "@ + format_type(p.skip(i + 1), false),
        None => name,
    }
}

/// Texts joined by `", "`.
pub open spec fn join_comma(parts: Seq<Seq<char>>) -> Seq<char>
    decreases parts.len(),
{
    if parts.len() == 0 {
        Seq::empty()
    } else if parts.len() == 1 {
        parts[0]
    } else {
        join_comma(parts.drop_last()) + ", "@ + parts.last()
    }
}

/// The signature of a function: `name(params) -> return type`; parameters without
/// information show as `_`, and script-defined functions or an empty return type show no
/// return type.
pub open spec fn signature_text(
    name: Seq<char>,
    num_params: nat,
    params_info: Seq<Seq<char>>,
    return_type: Seq<char>,
    is_script: bool,
) -> Seq<char> {
    let params = if params_info.len() == 0 {
        join_comma(Seq::new(num_params, |i: int| "_"@))
    } else {
        join_comma(params_info.map_values(|p: Seq<char>| param_text(p)))
    };
    let ret = format_type(return_type, true);
    name + "("@ + params + ")"@ + if !is_script && ret.len() > 0 {
        " -> "@ + ret
    } else {
        Seq::empty()
    }
}

/// Is a character white space?
fn is_ws_exec(c: char) -> (r: bool)
    ensures
        r == is_ws(c),
{
    let u: u32 = c as u32;
    u == 0x20 || (0x09 <= u && u <= 0x0D) || u == 0x85 || u == 0xA0 || u == 0x1680 || (0x2000 <= u
        && u <= 0x200A) || u == 0x2028 || u == 0x2029 || u == 0x202F || u == 0x205F || u == 0x3000
}

/// The characters from index `a` up to `b`.
fn slice_chars(s: &Vec<char>, a: usize, b: usize) -> (r: Vec<char>)
    requires
        a <= b <= s@.len(),
    ensures
        r@ == s@.subrange(a as int, b as int),
{
    let mut out: Vec<char> = Vec::new();
    let mut i = a;
    while i < b
        invariant
            a <= i <= b,
            b <= s@.len(),
            out@ == s@.subrange(a as int, i as int),
        decreases b - i,
    {
        out.push(s[i]);
        proof {
            assert(out@ =~= s@.subrange(a as int, i + 1));
        }
        i += 1;
    }
    out
}

proof fn lemma_trim_start_skip(s: Seq<char>, i: int)
    requires
        0 <= i <= s.len(),
        forall|j: int| 0 <= j < i ==> is_ws(#[trigger] s[j]),
    ensures
        trim_start(s) == trim_start(s.skip(i)),
    decreases i,
{
    if i > 0 {
        assert(s.drop_first().skip(i - 1) =~= s.skip(i));
        lemma_trim_start_skip(s.drop_first(), i - 1);
    } else {
        assert(s.skip(0) =~= s);
    }
}

proof fn lemma_trim_end_take(s: Seq<char>, j: int)
    requires
        0 <= j <= s.len(),
        forall|k: int| j <= k < s.len() ==> is_ws(#[trigger] s[k]),
    ensures
        trim_end(s) == trim_end(s.take(j)),
    decreases s.len() - j,
{
    if j < s.len() {
        assert(s.drop_last().take(j) =~= s.take(j));
        lemma_trim_end_take(s.drop_last(), j);
    } else {
        assert(s.take(j) =~= s);
    }
}

/// The characters without leading or trailing white space.
fn trim_chars(s: &Vec<char>) -> (r: Vec<char>)
    ensures
        r@ == trim(s@),
{
    let mut i: usize = 0;
    while i < s.len() && is_ws_exec(s[i])
        invariant
            i <= s@.len(),
            forall|j: int| 0 <= j < i ==> is_ws(#[trigger] s@[j]),
        decreases s.len() - i,
    {
        i += 1;
    }
    proof {
        lemma_trim_start_skip(s@, i as int);
        assert(i < s@.len() ==> !is_ws(s@.skip(i as int)[0]));
    }
    let mut j: usize = s.len();
    while j > i && is_ws_exec(s[j - 1])
        invariant
            i <= j <= s@.len(),
            forall|k: int| j <= k < s@.len() ==> is_ws(#[trigger] s@[k]),
        decreases j,
    {
        j -= 1;
    }
    let r = slice_chars(s, i, j);
    proof {
        let t = s@.skip(i as int);
        assert(trim_start(t) == t);
        assert(t.take(j - i) =~= s@.subrange(i as int, j as int));
        lemma_trim_end_take(t, j - i);
        if j > i {
            assert(!is_ws(t.take(j - i).last()));
        }
        assert(trim_end(t.take(j - i)) == t.take(j - i));
    }
    r
}

/// Does the text begin with `rhai::`?
fn starts_with_rhai(t: &Vec<char>) -> (r: bool)
    ensures
        r == (t@.len() >= 6 && t@.take(6) == "rhai::"@),
{
    let p = str_chars("rhai::");
    proof {
        reveal_strlit("rhai::");
    }
    if t.len() < 6 {
        return false;
    }
    let head = slice_chars(t, 0, 6);
    assert(head@ =~= t@.take(6));
    crate::text::chars_eq(&head, &p)
}

/// A type name as shown in a signature.
fn format_type_exec(t: &Vec<char>, is_return_type: bool) -> (r: Vec<char>)
    ensures
        r@ == format_type(t@, is_return_type),
    decreases t@.len(),
{
    let tt = trim_chars(t);
    proof {
        lemma_trim_len(t@);
    }
    if starts_with_rhai(&tt) {
        let rest = slice_chars(&tt, 6, tt.len());
        assert(rest@ =~= tt@.skip(6));
        return format_type_exec(&rest, is_return_type);
    }
    let unit = str_chars("()");
    let int_name = str_chars("INT");
    if is_return_type && (tt.len() == 0 || crate::text::chars_eq(&tt, &unit)) {
        return Vec::new();
    }
    if crate::text::chars_eq(&tt, &int_name) {
        return str_chars("i64");
    }
    tt
}

pub proof fn lemma_trim_len(s: Seq<char>)
    ensures
        trim(s).len() <= s.len(),
{
    lemma_trim_start_len(s);
    lemma_trim_end_len(trim_start(s));
}

pub proof fn lemma_trim_start_len(s: Seq<char>)
    ensures
        trim_start(s).len() <= s.len(),
    decreases s.len(),
{
    if s.len() > 0 && is_ws(s[0]) {
        lemma_trim_start_len(s.drop_first());
    }
}

pub proof fn lemma_trim_end_len(s: Seq<char>)
    ensures
        trim_end(s).len() <= s.len(),
    decreases s.len(),
{
    if s.len() > 0 && is_ws(s.last()) {
        lemma_trim_end_len(s.drop_last());
    }
}

/// The index of the first `:`, if any.
fn first_colon_exec(s: &Vec<char>) -> (r: Option<usize>)
    ensures
        r matches Some(k) ==> first_colon(s@) == Some(k as int) && k < s@.len(),
        r is None ==> first_colon(s@) is None,
{
    let mut i: usize = 0;
    while i < s.len()
        invariant
            i <= s@.len(),
            first_colon(s@.take(i as int)) is None,
        decreases s.len() - i,
    {
        proof {
            assert(s@.take(i + 1).drop_last() =~= s@.take(i as int));
        }
        if s[i] == ':' {
            proof {
                lemma_first_colon_prefix(s@, i as int);
            }
            return Some(i);
        }
        i += 1;
    }
    proof {
        assert(s@.take(s@.len() as int) =~= s@);
    }
    None
}

proof fn lemma_first_colon_prefix(s: Seq<char>, i: int)
    requires
        0 <= i < s.len(),
        first_colon(s.take(i)) is None,
        s[i] == ':',
    ensures
        first_colon(s) == Some(i),
    decreases s.len(),
{
    if i == s.len() - 1 {
        assert(s.drop_last() =~= s.take(i));
    } else {
        assert(s.drop_last().take(i) =~= s.take(i));
        lemma_first_colon_prefix(s.drop_last(), i);
    }
}

/// A parameter as shown in a signature.
fn param_text_exec(p: &Vec<char>) -> (r: Vec<char>)
    ensures
        r@ == param_text(p@),
{
    let colon = first_colon_exec(p);
    let head = match colon {
        Some(i) => slice_chars(p, 0, i),
        None => p.clone(),
    };
    proof {
        if let Some(i) = first_colon(p@) {
            assert(head@ =~= p@.take(i));
        }
    }
    let th = trim_chars(&head);
    let mut out = if th.len() == 0 {
        str_chars("_")
    } else {
        th
    };
    match colon {
        Some(i) => {
            let plen: usize = p.len();
            assert(i < plen);
            let rest = slice_chars(p, i + 1, plen);
            assert(rest@ =~= p@.skip(i + 1));
            let t = format_type_exec(&rest, false);
            let mut sep = str_chars(": ");
            out.append(&mut sep);
            let mut t2 = t;
            out.append(&mut t2);
            out
        },
        None => out,
    }
}

impl FuncInfo {
    /// The signature of the function: `name(params) -> return type`.
    pub fn gen_signature(&self) -> (r: String)
        ensures
            r@ == signature_text(
                self.metadata.name@,
                self.metadata.num_params as nat,
                self.metadata.params_info@.map_values(|s: String| s@),
                self.metadata.return_type@,
                self.func is Script,
            ),
    {
        let mut sig = str_chars(self.metadata.name.as_str());
        let mut open = str_chars("(");
        sig.append(&mut open);
        let ghost infos = self.metadata.params_info@.map_values(|s: String| s@);
        let ghost texts: Seq<Seq<char>> = if infos.len() == 0 {
            Seq::new(self.metadata.num_params as nat, |i: int| "_"@)
        } else {
            infos.map_values(|p: Seq<char>| param_text(p))
        };
        let ghost start = sig@;
        let n: usize = if self.metadata.params_info.len() == 0 {
            self.metadata.num_params
        } else {
            self.metadata.params_info.len()
        };
        let mut k: usize = 0;
        while k < n
            invariant
                k <= n,
                n == texts.len(),
                infos == self.metadata.params_info@.map_values(|s: String| s@),
                texts == (if infos.len() == 0 {
                    Seq::new(self.metadata.num_params as nat, |i: int| "_"@)
                } else {
                    infos.map_values(|p: Seq<char>| param_text(p))
                }),
                sig@ == start + join_comma(texts.take(k as int)),
            decreases n - k,
        {
            let mut part = if self.metadata.params_info.len() == 0 {
                str_chars("_")
            } else {
                let p = str_chars(self.metadata.params_info[k].as_str());
                param_text_exec(&p)
            };
            proof {
                reveal_strlit("_");
                assert(texts[k as int] == part@);
                assert(texts.take(k + 1).drop_last() =~= texts.take(k as int));
                if k == 0 {
                    assert(texts.take(1) =~= seq![texts[0]]);
                }
            }
            if k > 0 {
                let mut sep = str_chars(", ");
                sig.append(&mut sep);
            }
            sig.append(&mut part);
            proof {
                if k == 0 {
                    assert(sig@ =~= start + join_comma(texts.take(1)));
                } else {
                    assert(sig@ =~= start + join_comma(texts.take(k + 1)));
                }
            }
            k += 1;
        }
        proof {
            assert(texts.take(n as int) =~= texts);
        }
        let mut close = str_chars(")");
        sig.append(&mut close);
        let ret_chars = str_chars(self.metadata.return_type.as_str());
        let mut ret = format_type_exec(&ret_chars, true);
        if !self.func.is_script() && ret.len() > 0 {
            let mut arrow = str_chars(" -> ");
            sig.append(&mut arrow);
            sig.append(&mut ret);
        }
        let r = string_from_chars(&sig);
        proof {
            let params = join_comma(texts);
            let rv = format_type(self.metadata.return_type@, true);
            if !(self.func is Script) && rv.len() > 0 {
                assert(r@ =~= self.metadata.name@ + "("@ + params + ")"@ + (" -> "@ + rv));
            } else {
                assert(r@ =~= self.metadata.name@ + "("@ + params + ")"@ + Seq::<char>::empty());
            }
        }
        r
    }
}

/// The hash of a native function by its namespace path, name and parameter types (given by
/// their names). It is never zero.
pub fn calc_native_fn_hash(modules: &Vec<String>, fn_name: &str, params: &Vec<String>) -> (r: u64)
    ensures
        r != 0,
{
    calc_fn_hash_full(calc_fn_hash(modules, fn_name, params.len()), params)
}

/// Status flags of a [`Module`].
#[derive(Clone, Copy, PartialEq, Eq, Structural, Debug)]
pub struct ModuleFlags {
    /// Is the module internal?
    pub internal: bool,
    /// Is the module part of a standard library?
    pub standard_lib: bool,
    /// Is the module indexed?
    pub indexed: bool,
    /// Does the module contain indexed functions exposed to the global namespace?
    pub indexed_global_functions: bool,
}

/// A module: variables, sub-modules, functions and type iterators, with a flattened index
/// of all of them (including those of sub-modules) built on demand.
pub struct Module {
    /// The identifier of the module, if any (never empty).
    pub id: Option<String>,
    /// Documentation.
    pub doc: String,
    /// Custom types.
    pub custom_types: CustomTypesCollection,
    /// Sub-modules, by name, in name order.
    pub modules: Vec<(String, Rc<Module>)>,
    /// Variables, by name, in name order.
    pub variables: Vec<(String, Dynamic)>,
    /// All variables, including those of sub-modules, by qualified hash (when indexed).
    pub all_variables: Option<Vec<(u64, Dynamic)>>,
    /// Functions, by hash.
    pub functions: Option<Vec<(u64, FuncInfo)>>,
    /// All functions, including those of sub-modules, by qualified hash (when indexed).
    pub all_functions: Option<Vec<(u64, CallableFunction)>>,
    /// Type iterators, by the name of the iterated type.
    pub type_iterators: Vec<(String, IteratorFn)>,
    /// All type iterators, including those of sub-modules.
    pub all_type_iterators: Vec<(String, IteratorFn)>,
    /// Flags.
    pub flags: ModuleFlags,
}

/// The entries of an optional hash-keyed collection (none where it is absent).
pub open spec fn opt_entries<V>(o: Option<Vec<(u64, V)>>) -> Seq<(u64, V)> {
    match o {
        Some(v) => v@,
        None => Seq::empty(),
    }
}

/// The index of variables `new` is `old` with a copy of `value` put under some non-zero hash.
pub open spec fn variable_indexed(
    old: Option<Vec<(u64, Dynamic)>>,
    new: Option<Vec<(u64, Dynamic)>>,
    value: Dynamic,
) -> bool {
    new matches Some(a) && exists|h: u64, c: Dynamic|
        h != 0 && c@ == value@ && #[trigger] is_put_hash(opt_entries(old), a@, h, c)
}


/// The views of some strings.
pub open spec fn texts(v: Seq<String>) -> Seq<Seq<char>> {
    v.map_values(|s: String| s@)
}

/// The functions `new` are `old` with `f` put under hash `h`.
pub open spec fn fn_put(old: Option<Vec<(u64, FuncInfo)>>, new: Option<Vec<(u64, FuncInfo)>>, h: u64, f: FuncInfo) -> bool {
    new matches Some(a) && is_put_hash(opt_entries(old), a@, h, f)
}

/// The type a parameter is registered under: where mapped, `&str` and `String` become
/// `ImmutableString`.
pub open spec fn mapped_type(map: bool, t: Seq<char>) -> Seq<char> {
    if map && (t == "&str"@ || t == "String"@) {
        "ImmutableString"@
    } else {
        t
    }
}

/// The registered parameter types: each type mapped, but the first of a method.
pub open spec fn mapped_types(is_method: bool, arg_types: Seq<Seq<char>>) -> Seq<Seq<char>> {
    Seq::new(arg_types.len(), |i: int| mapped_type(!is_method || i > 0, arg_types[i]))
}

/// The parameter names kept from `names` for `n` parameters: all but a last one beyond `n`.
pub open spec fn kept_names(names: Seq<Seq<char>>, n: nat) -> Seq<Seq<char>> {
    if names.len() > n {
        names.drop_last()
    } else {
        names
    }
}

/// The return type taken from `names` for `n` parameters: the last name beyond `n`, else
/// nothing.
pub open spec fn return_name(names: Seq<Seq<char>>, n: nat) -> Seq<char> {
    if names.len() > n {
        names.last()
    } else {
        Seq::empty()
    }
}

/// The module `b` is `a` with its indexing flags cleared and otherwise the same, but for
/// its functions.
pub open spec fn same_but_functions(a: Module, b: Module) -> bool {
    &&& b.id == a.id
    &&& b.doc == a.doc
    &&& b.custom_types == a.custom_types
    &&& b.modules == a.modules
    &&& b.variables == a.variables
    &&& b.all_variables == a.all_variables
    &&& b.all_functions == a.all_functions
    &&& b.type_iterators == a.type_iterators
    &&& b.all_type_iterators == a.all_type_iterators
}

/// The function information `f` describes a script-defined function `d` filed under `h`.
pub open spec fn script_fn_info(f: FuncInfo, d: ScriptFuncDef, h: u64) -> bool {
    &&& f.func matches CallableFunction::Script(s) && *s == d
    &&& f.metadata.hash == h
    &&& f.metadata.name@ == d.name@
    &&& f.metadata.namespace == FnNamespace::Internal
    &&& f.metadata.access == d.access
    &&& f.metadata.this_type is None
    &&& f.metadata.num_params == d.params@.len()
    &&& f.metadata.param_types@.len() == 0
    &&& texts(f.metadata.params_info@) == texts(d.params@)
    &&& f.metadata.return_type@.len() == 0
    &&& f.metadata.comments@.len() == 0
}


/// Is a callable function a native method (a plugin function called as a method counts)?
pub open spec fn callable_is_method(f: CallableFunction) -> bool {
    match f {
        CallableFunction::Method(..) => true,
        CallableFunction::Plugin(p) => p.method_call,
        _ => false,
    }
}

/// The function information `f` describes a native function registered under `h`.
pub open spec fn native_fn_info(
    f: FuncInfo,
    name: Seq<char>,
    namespace: FnNamespace,
    access: FnAccess,
    arg_names: Seq<Seq<char>>,
    arg_types: Seq<Seq<char>>,
    comments: Seq<Seq<char>>,
    func: CallableFunction,
    h: u64,
) -> bool {
    &&& f.func == func
    &&& f.metadata.hash == h
    &&& f.metadata.name@ == name
    &&& f.metadata.namespace == namespace
    &&& f.metadata.access == access
    &&& f.metadata.this_type is None
    &&& f.metadata.num_params == arg_types.len()
    &&& texts(f.metadata.param_types@) == mapped_types(callable_is_method(func), arg_types)
    &&& texts(f.metadata.params_info@) == kept_names(arg_names, arg_types.len())
    &&& f.metadata.return_type@ == return_name(arg_names, arg_types.len())
    &&& texts(f.metadata.comments@) == comments
}

/// `g` is the function `f` with its metadata changed by `m`: everything else is the same.
pub open spec fn fn_with_metadata(f: FuncInfo, g: FuncInfo, m: FuncInfoMetadata) -> bool {
    g.func == f.func && *g.metadata == m
}


/// The signatures of the public functions among `fs`, in order.
pub open spec fn public_signatures(fs: Seq<(u64, FuncInfo)>) -> Seq<Seq<char>>
    decreases fs.len(),
{
    if fs.len() == 0 {
        Seq::empty()
    } else {
        let f = fs.last().1;
        let front = public_signatures(fs.drop_last());
        if f.metadata.access == FnAccess::Public {
            front.push(signature_text(
                f.metadata.name@,
                f.metadata.num_params as nat,
                f.metadata.params_info@.map_values(|s: String| s@),
                f.metadata.return_type@,
                f.func is Script,
            ))
        } else {
            front
        }
    }
}

/// Namespace, access, name and number of parameters of the script-defined functions among
/// `fs`, in order.
pub open spec fn script_fn_infos(fs: Seq<(u64, FuncInfo)>) -> Seq<(FnNamespace, FnAccess, Seq<char>, usize)>
    decreases fs.len(),
{
    if fs.len() == 0 {
        Seq::empty()
    } else {
        let f = fs.last().1;
        let front = script_fn_infos(fs.drop_last());
        if f.func is Script {
            front.push((f.metadata.namespace, f.metadata.access, f.metadata.name@, f.metadata.num_params))
        } else {
            front
        }
    }
}

/// The views of tuples of namespace, access, name and number of parameters.
pub open spec fn script_infos(v: Seq<(FnNamespace, FnAccess, &str, usize)>) -> Seq<(FnNamespace, FnAccess, Seq<char>, usize)> {
    v.map_values(|t: (FnNamespace, FnAccess, &str, usize)| (t.0, t.1, t.2@, t.3))
}


/// Is the function exposed to the global namespace?
pub open spec fn fn_is_global(f: FuncInfo) -> bool {
    f.metadata.namespace == FnNamespace::Global
}

/// Is the function entered into an index (global, or public)?
pub open spec fn fn_is_indexed(f: FuncInfo) -> bool {
    f.metadata.namespace == FnNamespace::Global || f.metadata.access == FnAccess::Public
}

/// Does the module or any module below it hold a variable?
pub open spec fn tree_has_var(m: Module) -> bool
    decreases m, 1nat,
{
    m.variables@.len() > 0 || subs_var(m.modules@)
}

/// Does one of the sub-modules (or a module below it) hold a variable?
pub open spec fn subs_var(s: Seq<(String, Rc<Module>)>) -> bool
    decreases s, 0nat,
{
    s.len() > 0 && (subs_var(s.drop_last()) || tree_has_var(*s.last().1))
}

/// Does the module or any module below it hold a function exposed to the global namespace?
pub open spec fn tree_has_global(m: Module) -> bool
    decreases m, 1nat,
{
    some_global(opt_entries(m.functions), opt_entries(m.functions).len() as int) || subs_global(m.modules@)
}

/// Does one of the sub-modules (or a module below it) hold a global function?
pub open spec fn subs_global(s: Seq<(String, Rc<Module>)>) -> bool
    decreases s, 0nat,
{
    s.len() > 0 && (subs_global(s.drop_last()) || tree_has_global(*s.last().1))
}

/// Does the module or any module below it hold a function that is indexed?
pub open spec fn tree_has_indexed_fn(m: Module) -> bool
    decreases m, 1nat,
{
    some_indexed(opt_entries(m.functions), opt_entries(m.functions).len() as int) || subs_indexed_fn(m.modules@)
}

/// Does one of the sub-modules (or a module below it) hold an indexed function?
pub open spec fn subs_indexed_fn(s: Seq<(String, Rc<Module>)>) -> bool
    decreases s, 0nat,
{
    s.len() > 0 && (subs_indexed_fn(s.drop_last()) || tree_has_indexed_fn(*s.last().1))
}

/// Does the module or any module below it hold a function exposed to the global namespace
/// under hash `h`?
pub open spec fn tree_has_global_hash(m: Module, h: u64) -> bool
    decreases m, 1nat,
{
    some_global_hash(opt_entries(m.functions), opt_entries(m.functions).len() as int, h) || subs_global_hash(m.modules@, h)
}

/// Does one of the sub-modules (or a module below it) hold a global function under hash `h`?
pub open spec fn subs_global_hash(s: Seq<(String, Rc<Module>)>, h: u64) -> bool
    decreases s, 0nat,
{
    s.len() > 0 && (subs_global_hash(s.drop_last(), h) || tree_has_global_hash(*s.last().1, h))
}

/// Does the module or any module below it hold an iterator for type `k`?
pub open spec fn tree_has_iter(m: Module, k: Seq<char>) -> bool
    decreases m, 1nat,
{
    has_key(m.type_iterators@, k) || subs_iter(m.modules@, k)
}

/// Does one of the sub-modules (or a module below it) hold an iterator for type `k`?
pub open spec fn subs_iter(s: Seq<(String, Rc<Module>)>, k: Seq<char>) -> bool
    decreases s, 0nat,
{
    s.len() > 0 && (subs_iter(s.drop_last(), k) || tree_has_iter(*s.last().1, k))
}

/// Is one of the first `n` functions global?
pub open spec fn some_global(fs: Seq<(u64, FuncInfo)>, n: int) -> bool {
    exists|j: int| 0 <= j < n && #[trigger] fn_is_global(fs[j].1)
}

/// Is one of the first `n` functions indexed?
pub open spec fn some_indexed(fs: Seq<(u64, FuncInfo)>, n: int) -> bool {
    exists|j: int| 0 <= j < n && #[trigger] fn_is_indexed(fs[j].1)
}

/// Is one of the first `n` functions global and filed under hash `h`?
pub open spec fn some_global_hash(fs: Seq<(u64, FuncInfo)>, n: int, h: u64) -> bool {
    exists|j: int| 0 <= j < n && fs[j].0 == h && #[trigger] fn_is_global(fs[j].1)
}

/// Is one of the first `n` entries under key `k`?
pub open spec fn some_key<V>(v: Seq<(String, V)>, n: int, k: Seq<char>) -> bool {
    exists|j: int| 0 <= j < n && #[trigger] v[j].0@ == k
}


/// Documentation `a` joined with documentation `b`: a line break between them where `a` is
/// not empty.
pub open spec fn joined_doc(a: Seq<char>, b: Seq<char>) -> Seq<char> {
    (if a.len() > 0 {
        a.push('\n')
    } else {
        a
    }) + b
}

/// Every function is filed under its own hash.
pub open spec fn filed_by_hash(fs: Seq<(u64, FuncInfo)>) -> bool {
    forall|i: int| 0 <= i < fs.len() ==> (#[trigger] fs[i]).0 == fs[i].1.metadata.hash
}

/// `c` is `a` extended by `b`, as maps: the keys of `b` hold `b`'s values, every other key
/// keeps `a`'s.
pub open spec fn extended<V>(a: Seq<(String, V)>, b: Seq<(String, V)>, c: Seq<(String, V)>) -> bool {
    forall|k: Seq<char>| #[trigger] lookup(c, k) == if lookup(b, k) is Some {
        lookup(b, k)
    } else {
        lookup(a, k)
    }
}

/// `c` is `a` extended by `b`, as maps keyed by hashes.
pub open spec fn extended_hashes<V>(a: Seq<(u64, V)>, b: Seq<(u64, V)>, c: Seq<(u64, V)>) -> bool {
    forall|h: u64| #[trigger] lookup_hash(c, h) == if lookup_hash(b, h) is Some {
        lookup_hash(b, h)
    } else {
        lookup_hash(a, h)
    }
}


/// The views of an optional string.
pub open spec fn opt_text(o: Option<String>) -> Option<Seq<char>> {
    match o {
        Some(s) => Some(s@),
        None => None,
    }
}

/// `a` is a copy of the function information `b`: the same function and equal metadata.
pub open spec fn info_copy(a: FuncInfo, b: FuncInfo) -> bool {
    &&& a.func == b.func
    &&& a.metadata.hash == b.metadata.hash
    &&& a.metadata.namespace == b.metadata.namespace
    &&& a.metadata.access == b.metadata.access
    &&& a.metadata.name@ == b.metadata.name@
    &&& opt_text(a.metadata.this_type) == opt_text(b.metadata.this_type)
    &&& a.metadata.num_params == b.metadata.num_params
    &&& texts(a.metadata.param_types@) == texts(b.metadata.param_types@)
    &&& texts(a.metadata.params_info@) == texts(b.metadata.params_info@)
    &&& a.metadata.return_type@ == b.metadata.return_type@
    &&& texts(a.metadata.comments@) == texts(b.metadata.comments@)
}

/// `c` is `a` filled with `b`, as maps: `a`'s keys keep their values, and the keys only in
/// `b` get `b`'s.
pub open spec fn filled<V>(a: Seq<(String, V)>, b: Seq<(String, V)>, c: Seq<(String, V)>) -> bool {
    forall|k: Seq<char>| #[trigger] lookup(c, k) == if lookup(a, k) is Some {
        lookup(a, k)
    } else {
        lookup(b, k)
    }
}

/// `c` is `a` filled with copies of `b`'s variables.
pub open spec fn filled_vars(a: Seq<(String, Dynamic)>, b: Seq<(String, Dynamic)>, c: Seq<(String, Dynamic)>) -> bool {
    forall|k: Seq<char>| #![trigger lookup(c, k)] {
        &&& (lookup(c, k) is Some) == (lookup(a, k) is Some || lookup(b, k) is Some)
        &&& lookup(a, k) is Some ==> lookup(c, k) == lookup(a, k)
        &&& lookup(a, k) is None && lookup(b, k) is Some ==> lookup(c, k)->0@ == lookup(b, k)->0@
    }
}

/// `c` is `a` filled with copies of `b`'s functions.
pub open spec fn filled_fns(a: Seq<(u64, FuncInfo)>, b: Seq<(u64, FuncInfo)>, c: Seq<(u64, FuncInfo)>) -> bool {
    forall|h: u64| #![trigger lookup_hash(c, h)] {
        &&& (lookup_hash(c, h) is Some) == (lookup_hash(a, h) is Some || lookup_hash(b, h) is Some)
        &&& lookup_hash(a, h) is Some ==> lookup_hash(c, h) == lookup_hash(a, h)
        &&& lookup_hash(a, h) is None && lookup_hash(b, h) is Some ==> info_copy(lookup_hash(c, h)->0, lookup_hash(b, h)->0)
    }
}


/// `c` is `a` overridden by copies of `b`'s variables: `b`'s keys hold copies of `b`'s
/// values, every other key keeps `a`'s value.
pub open spec fn overridden_vars(a: Seq<(String, Dynamic)>, b: Seq<(String, Dynamic)>, c: Seq<(String, Dynamic)>) -> bool {
    forall|k: Seq<char>| #![trigger lookup(c, k)] {
        &&& (lookup(c, k) is Some) == (lookup(a, k) is Some || lookup(b, k) is Some)
        &&& lookup(b, k) is None ==> lookup(c, k) == lookup(a, k)
        &&& lookup(b, k) is Some ==> lookup(c, k)->0@ == lookup(b, k)->0@
    }
}

/// `c` is `a` overridden by copies of `b`'s functions.
pub open spec fn overridden_fns(a: Seq<(u64, FuncInfo)>, b: Seq<(u64, FuncInfo)>, c: Seq<(u64, FuncInfo)>) -> bool {
    forall|h: u64| #![trigger lookup_hash(c, h)] {
        &&& (lookup_hash(c, h) is Some) == (lookup_hash(a, h) is Some || lookup_hash(b, h) is Some)
        &&& lookup_hash(b, h) is None ==> lookup_hash(c, h) == lookup_hash(a, h)
        &&& lookup_hash(b, h) is Some ==> info_copy(lookup_hash(c, h)->0, lookup_hash(b, h)->0)
    }
}

/// The module `m` is a fresh copy of `src` one level deep: no identifier, the same
/// documentation, copies of its variables, functions and type iterators, sub-modules
/// under the same names, no custom types, no index and no flags.
pub open spec fn shallow_copy(m: Module, src: Module) -> bool {
    &&& m.id is None
    &&& m.doc@ == src.doc@
    &&& m.custom_types.entries@.len() == 0
    &&& overridden_vars(Seq::empty(), src.variables@, m.variables@)
    &&& extended(Seq::empty(), src.type_iterators@, m.type_iterators@)
    &&& (src.functions is None ==> m.functions is None)
    &&& (src.functions matches Some(b) ==> (m.functions matches Some(c) && overridden_fns(Seq::empty(), b@, c@)))
    &&& forall|k: Seq<char>| #[trigger] has_key(m.modules@, k) == has_key(src.modules@, k)
    &&& m.all_variables is None
    &&& m.all_functions is None
    &&& m.all_type_iterators@.len() == 0
    &&& m.flags == (ModuleFlags { internal: false, standard_lib: false, indexed: false, indexed_global_functions: false })
}


/// Is the module well formed, and every module below it too?
pub open spec fn deep_wf(m: Module) -> bool
    decreases m, 1nat,
{
    m.wf() && subs_deep_wf(m.modules@)
}

/// Is every sub-module well formed, and every module below it too?
pub open spec fn subs_deep_wf(s: Seq<(String, Rc<Module>)>) -> bool
    decreases s, 0nat,
{
    s.len() == 0 || (subs_deep_wf(s.drop_last()) && deep_wf(*s.last().1))
}

/// Every sub-module of a deeply well-formed list is deeply well formed.
proof fn lemma_subs_deep_wf(s: Seq<(String, Rc<Module>)>, i: int)
    requires
        subs_deep_wf(s),
        0 <= i < s.len(),
    ensures
        deep_wf(*s[i].1),
    decreases s.len(),
{
    if i < s.len() - 1 {
        assert(s.drop_last()[i] == s[i]);
        lemma_subs_deep_wf(s.drop_last(), i);
    }
}


/// The abstract value under key `k`, if any.
pub open spec fn vlookup(v: Seq<(String, Dynamic)>, k: Seq<char>) -> Option<DynV> {
    match lookup(v, k) {
        Some(d) => Some(d@),
        None => None,
    }
}

/// The variable `k` of a module tree flattened onto its root: the root's own, else that of
/// the last sub-module (flattened) that has it.
pub open spec fn flat_var(m: Module, k: Seq<char>) -> Option<DynV>
    decreases m, 1nat,
{
    match vlookup(m.variables@, k) {
        Some(d) => Some(d),
        None => subs_flat_var(m.modules@, k),
    }
}

/// The variable `k` of sub-module trees flattened in order, later ones overriding earlier.
pub open spec fn subs_flat_var(s: Seq<(String, Rc<Module>)>, k: Seq<char>) -> Option<DynV>
    decreases s, 0nat,
{
    if s.len() == 0 {
        None
    } else {
        match flat_var(*s.last().1, k) {
            Some(d) => Some(d),
            None => subs_flat_var(s.drop_last(), k),
        }
    }
}

/// The type iterator `k` of a module tree flattened onto its root.
pub open spec fn flat_iter(m: Module, k: Seq<char>) -> Option<IteratorFn>
    decreases m, 1nat,
{
    match lookup(m.type_iterators@, k) {
        Some(f) => Some(f),
        None => subs_flat_iter(m.modules@, k),
    }
}

/// The type iterator `k` of sub-module trees flattened in order.
pub open spec fn subs_flat_iter(s: Seq<(String, Rc<Module>)>, k: Seq<char>) -> Option<IteratorFn>
    decreases s, 0nat,
{
    if s.len() == 0 {
        None
    } else {
        match flat_iter(*s.last().1, k) {
            Some(f) => Some(f),
            None => subs_flat_iter(s.drop_last(), k),
        }
    }
}

/// Documentation `d` after the documentation of a module tree is appended, sub-modules first.
pub open spec fn flat_doc(d: Seq<char>, m: Module) -> Seq<char>
    decreases m, 1nat,
{
    joined_doc(subs_flat_doc(d, m.modules@), m.doc@)
}

/// Documentation `d` after the documentation of sub-module trees is appended in order.
pub open spec fn subs_flat_doc(d: Seq<char>, s: Seq<(String, Rc<Module>)>) -> Seq<char>
    decreases s, 0nat,
{
    if s.len() == 0 {
        d
    } else {
        flat_doc(subs_flat_doc(d, s.drop_last()), *s.last().1)
    }
}


/// `new` is `old` after its index is built: an indexed module is left as it is; otherwise the
/// module becomes indexed, with an index of the variables, functions and type iterators of
/// its whole tree (every indexed value, function and iterator is one of the tree's), and its
/// other items unchanged.
/// The indexes `vars` and `fns` result from putting, one after the other, every variable of
/// the module tree (in the order of [`tree_var_values`]) and every indexed function (in the
/// order of [`tree_fn_items`]) under the hashes computed for them, a later put under a hash
/// replacing an earlier one; a function exposed to the global namespace is put under its own
/// hash.
pub open spec fn indexed_from_tree(m: Module, vars: Seq<(u64, Dynamic)>, fns: Seq<(u64, CallableFunction)>) -> bool {
    &&& exists|vt: Seq<(u64, Dynamic)>|
        #[trigger] puts_made(Seq::<(u64, Dynamic)>::empty(), vars, vt) && hashed_values(vt) == tree_var_values(m)
    &&& exists|ft: Seq<(u64, CallableFunction)>|
        #[trigger] puts_made(Seq::<(u64, CallableFunction)>::empty(), fns, ft) && puts_of_items(ft, tree_fn_items(m))
}

pub open spec fn index_built(old: Module, new: Module) -> bool {
    &&& old.flags.indexed ==> new == old
    &&& !old.flags.indexed ==> {
        &&& new.flags == (ModuleFlags {
            indexed: true,
            indexed_global_functions: tree_has_global(old),
            ..old.flags
        })
        &&& (new.all_variables is Some) == tree_has_var(old)
        &&& (new.all_functions is Some) == tree_has_indexed_fn(old)
        &&& forall|h: u64| #[trigger] tree_has_global_hash(old, h) ==> (new.all_functions matches Some(a) && has_hash(a@, h))
        &&& forall|k: Seq<char>| #[trigger] has_key(new.all_type_iterators@, k) == tree_has_iter(old, k)
        &&& (new.all_variables matches Some(a) ==> forall|x: int| 0 <= x < a@.len() ==> tree_var_value(old, (#[trigger] a@[x]).1@))
        &&& (new.all_functions matches Some(a) ==> forall|x: int| 0 <= x < a@.len() ==> tree_fn(old, (#[trigger] a@[x]).1))
        &&& forall|x: int| 0 <= x < new.all_type_iterators@.len() ==> tree_iter_fn(old, (#[trigger] new.all_type_iterators@[x]).0@, new.all_type_iterators@[x].1)
        &&& indexed_from_tree(old, opt_entries(new.all_variables), opt_entries(new.all_functions))
        &&& new.id == old.id
        &&& new.doc == old.doc
        &&& new.custom_types == old.custom_types
        &&& new.modules == old.modules
        &&& new.variables == old.variables
        &&& new.functions == old.functions
        &&& new.type_iterators == old.type_iterators
    }
}


/// Is `d` the value of one of the variables `vs`?
pub open spec fn var_value_in(vs: Seq<(String, Dynamic)>, d: DynV) -> bool {
    exists|j: int| 0 <= j < vs.len() && #[trigger] vs[j].1@ == d
}

/// Is `d` the value of a variable of the module or of a module below it?
pub open spec fn tree_var_value(m: Module, d: DynV) -> bool
    decreases m, 1nat,
{
    var_value_in(m.variables@, d) || subs_var_value(m.modules@, d)
}

/// Is `d` the value of a variable of one of the sub-modules or of a module below them?
pub open spec fn subs_var_value(s: Seq<(String, Rc<Module>)>, d: DynV) -> bool
    decreases s, 0nat,
{
    s.len() > 0 && (subs_var_value(s.drop_last(), d) || tree_var_value(*s.last().1, d))
}

/// The values of the variables of the module and of all modules below it, in the order they
/// are indexed: the sub-modules first (each with the modules below it), then the module's own.
pub open spec fn tree_var_values(m: Module) -> Seq<DynV>
    decreases m, 1nat,
{
    subs_var_values(m.modules@) + vars_values(m.variables@)
}

/// The values of the variables of the sub-modules and of the modules below them, in order.
pub open spec fn subs_var_values(s: Seq<(String, Rc<Module>)>) -> Seq<DynV>
    decreases s, 0nat,
{
    if s.len() == 0 {
        Seq::empty()
    } else {
        subs_var_values(s.drop_last()) + tree_var_values(*s.last().1)
    }
}

/// The values of named variables, in order.
pub open spec fn vars_values(vs: Seq<(String, Dynamic)>) -> Seq<DynV> {
    vs.map_values(|e: (String, Dynamic)| e.1@)
}

/// The values of hashed entries, in order.
pub open spec fn hashed_values(t: Seq<(u64, Dynamic)>) -> Seq<DynV> {
    t.map_values(|e: (u64, Dynamic)| e.1@)
}

/// The functions of `fs` in the order they are indexed, each with the hash it is indexed
/// under where that hash is its own (a function exposed to the global namespace), and with
/// none where it is computed from its qualified name (a public function); a function that is
/// both comes twice.
pub open spec fn fn_items(fs: Seq<(u64, FuncInfo)>) -> Seq<(Option<u64>, CallableFunction)>
    decreases fs.len(),
{
    if fs.len() == 0 {
        Seq::empty()
    } else {
        let e = fs.last();
        let g = if fn_is_global(e.1) {
            seq![(Some(e.0), e.1.func)]
        } else {
            Seq::empty()
        };
        let p = if e.1.metadata.access == FnAccess::Public {
            seq![(None::<u64>, e.1.func)]
        } else {
            Seq::empty()
        };
        fn_items(fs.drop_last()) + g + p
    }
}

/// The indexed functions of the module and of all modules below it, in order (see
/// [`fn_items`]).
pub open spec fn tree_fn_items(m: Module) -> Seq<(Option<u64>, CallableFunction)>
    decreases m, 1nat,
{
    subs_fn_items(m.modules@) + fn_items(opt_entries(m.functions))
}

/// The indexed functions of the sub-modules and of the modules below them, in order.
pub open spec fn subs_fn_items(s: Seq<(String, Rc<Module>)>) -> Seq<(Option<u64>, CallableFunction)>
    decreases s, 0nat,
{
    if s.len() == 0 {
        Seq::empty()
    } else {
        subs_fn_items(s.drop_last()) + tree_fn_items(*s.last().1)
    }
}

/// The puts `t` enter the items in order: the same functions, under the given hashes where
/// an item has one.
pub open spec fn puts_of_items(t: Seq<(u64, CallableFunction)>, items: Seq<(Option<u64>, CallableFunction)>) -> bool {
    &&& t.len() == items.len()
    &&& forall|k: int| 0 <= k < t.len() ==> (#[trigger] t[k]).1 == items[k].1 && (items[k].0 matches Some(h) ==> t[k].0 == h)
}

/// Puts for two runs of items, one after the other.
pub proof fn lemma_puts_of_items_append(
    t1: Seq<(u64, CallableFunction)>,
    i1: Seq<(Option<u64>, CallableFunction)>,
    t2: Seq<(u64, CallableFunction)>,
    i2: Seq<(Option<u64>, CallableFunction)>,
)
    requires
        puts_of_items(t1, i1),
        puts_of_items(t2, i2),
    ensures
        puts_of_items(t1 + t2, i1 + i2),
{
    assert forall|k: int| 0 <= k < (t1 + t2).len() implies (#[trigger] (t1 + t2)[k]).1 == (i1 + i2)[k].1
        && ((i1 + i2)[k].0 matches Some(h) ==> (t1 + t2)[k].0 == h) by {
        if k < t1.len() {
            assert((t1 + t2)[k] == t1[k]);
            assert((i1 + i2)[k] == i1[k]);
        } else {
            assert((t1 + t2)[k] == t2[k - t1.len()]);
            assert((i1 + i2)[k] == i2[k - t1.len()]);
        }
    }
}

/// Is `f` one of the functions `fs`?
pub open spec fn fn_in(fs: Seq<(u64, FuncInfo)>, f: CallableFunction) -> bool {
    exists|j: int| 0 <= j < fs.len() && #[trigger] fs[j].1.func == f
}

/// Is `f` a function of the module or of a module below it?
pub open spec fn tree_fn(m: Module, f: CallableFunction) -> bool
    decreases m, 1nat,
{
    fn_in(opt_entries(m.functions), f) || subs_fn(m.modules@, f)
}

/// Is `f` a function of one of the sub-modules or of a module below them?
pub open spec fn subs_fn(s: Seq<(String, Rc<Module>)>, f: CallableFunction) -> bool
    decreases s, 0nat,
{
    s.len() > 0 && (subs_fn(s.drop_last(), f) || tree_fn(*s.last().1, f))
}

/// Is `f` the iterator of type `k` among `ts`?
pub open spec fn iter_in(ts: Seq<(String, IteratorFn)>, k: Seq<char>, f: IteratorFn) -> bool {
    exists|j: int| 0 <= j < ts.len() && #[trigger] ts[j].0@ == k && ts[j].1 == f
}

/// Is `f` the iterator of type `k` of the module or of a module below it?
pub open spec fn tree_iter_fn(m: Module, k: Seq<char>, f: IteratorFn) -> bool
    decreases m, 1nat,
{
    iter_in(m.type_iterators@, k, f) || subs_iter_fn(m.modules@, k, f)
}

/// Is `f` the iterator of type `k` of one of the sub-modules or of a module below them?
pub open spec fn subs_iter_fn(s: Seq<(String, Rc<Module>)>, k: Seq<char>, f: IteratorFn) -> bool
    decreases s, 0nat,
{
    s.len() > 0 && (subs_iter_fn(s.drop_last(), k, f) || tree_iter_fn(*s.last().1, k, f))
}

/// Is `d` the value of one of the indexed variables `v`?
pub open spec fn indexed_value_in(v: Seq<(u64, Dynamic)>, d: DynV) -> bool {
    exists|j: int| 0 <= j < v.len() && #[trigger] v[j].1@ == d
}

/// Is `f` one of the indexed functions `v`?
pub open spec fn indexed_fn_in(v: Seq<(u64, CallableFunction)>, f: CallableFunction) -> bool {
    exists|j: int| 0 <= j < v.len() && #[trigger] v[j].1 == f
}

/// Where an indexed variable value comes from: the index before, or some sub-modules' trees.
pub open spec fn var_prov(base: Seq<(u64, Dynamic)>, s: Seq<(String, Rc<Module>)>, d: DynV) -> bool {
    indexed_value_in(base, d) || subs_var_value(s, d)
}

/// Where an indexed function comes from: the index before, or some sub-modules' trees.
pub open spec fn fn_prov(base: Seq<(u64, CallableFunction)>, s: Seq<(String, Rc<Module>)>, f: CallableFunction) -> bool {
    indexed_fn_in(base, f) || subs_fn(s, f)
}

/// Where an indexed type iterator comes from: the index before, or some sub-modules' trees.
pub open spec fn iter_prov(base: Seq<(String, IteratorFn)>, s: Seq<(String, Rc<Module>)>, k: Seq<char>, f: IteratorFn) -> bool {
    iter_in(base, k, f) || subs_iter_fn(s, k, f)
}

/// Flags with the two indexing flags cleared.
pub open spec fn unindexed(f: ModuleFlags) -> ModuleFlags {
    ModuleFlags { indexed: false, indexed_global_functions: false, ..f }
}

/// `a` and `b` hold the same items (everything but identifier, documentation and flags).
pub open spec fn same_items(a: Module, b: Module) -> bool {
    &&& a.custom_types == b.custom_types
    &&& a.modules == b.modules
    &&& a.variables == b.variables
    &&& a.all_variables == b.all_variables
    &&& a.functions == b.functions
    &&& a.all_functions == b.all_functions
    &&& a.type_iterators == b.type_iterators
    &&& a.all_type_iterators == b.all_type_iterators
}

/// The custom-type entries `new` are `old` with `(key, info)` added: replacing the entry of
/// the same key, else inserted at the key's place.
pub open spec fn custom_type_added(
    old: Seq<(String, CustomTypeInfo)>,
    new: Seq<(String, CustomTypeInfo)>,
    key: Seq<char>,
    info: TypeInfoV,
) -> bool {
    let p = place_of(keys_of(old), key);
    if has_key_at(keys_of(old), key) {
        entries_v(new) == entries_v(old).update(p, (key, info))
    } else {
        entries_v(new) == entries_v(old).insert(p, (key, info))
    }
}

impl Module {
    /// Are the name-keyed collections in name order and the hash-keyed ones free of
    /// duplicate hashes, each function filed under its own hash?
    pub open spec fn wf(&self) -> bool {
        &&& self.custom_types.wf()
        &&& key_sorted(self.modules@)
        &&& key_sorted(self.variables@)
        &&& key_sorted(self.type_iterators@)
        &&& key_sorted(self.all_type_iterators@)
        &&& (self.functions matches Some(f) ==> hashes_unique(f@) && forall|i: int|
            0 <= i < f@.len() ==> (#[trigger] f@[i]).0 == f@[i].1.metadata.hash)
        &&& (self.all_variables matches Some(a) ==> hashes_unique(a@))
        &&& (self.all_functions matches Some(a) ==> hashes_unique(a@))
        &&& (self.id matches Some(i) ==> i@.len() > 0)
    }

    /// A new, empty module; it counts as indexed.
    pub fn new() -> (r: Module)
        ensures
            r.wf(),
            r.id is None,
            r.doc@.len() == 0,
            r.custom_types.entries@.len() == 0,
            r.modules@.len() == 0,
            r.variables@.len() == 0,
            r.all_variables is None,
            r.functions is None,
            r.all_functions is None,
            r.type_iterators@.len() == 0,
            r.all_type_iterators@.len() == 0,
            r.flags == (ModuleFlags {
                internal: false,
                standard_lib: false,
                indexed: true,
                indexed_global_functions: false,
            }),
    {
        Module {
            id: None,
            doc: String::new(),
            custom_types: CustomTypesCollection::new(),
            modules: Vec::new(),
            variables: Vec::new(),
            all_variables: None,
            functions: None,
            all_functions: None,
            type_iterators: Vec::new(),
            all_type_iterators: Vec::new(),
            flags: ModuleFlags {
                internal: false,
                standard_lib: false,
                indexed: true,
                indexed_global_functions: false,
            },
        }
    }

    /// The identifier of the module, if any.
    pub fn id(&self) -> (r: Option<&str>)
        ensures
            match self.id {
                Some(s) => r matches Some(t) && t@ == s@,
                None => r is None,
            },
    {
        match &self.id {
            Some(s) => Some(s.as_str()),
            None => None,
        }
    }

    /// Set the identifier of the module; an empty one clears it.
    pub fn set_id(&mut self, id: &str)
        ensures
            id@.len() == 0 ==> final(self).id is None,
            id@.len() > 0 ==> (final(self).id matches Some(s) && s@ == id@),
            final(self).doc == old(self).doc,
            final(self).flags == old(self).flags,
            same_items(*old(self), *final(self)),
    {
        if str_chars(id).len() == 0 {
            self.id = None;
        } else {
            self.id = Some(string_of(id));
        }
    }

    /// Clear the identifier of the module.
    pub fn clear_id(&mut self)
        ensures
            final(self).id is None,
            final(self).doc == old(self).doc,
            final(self).flags == old(self).flags,
            same_items(*old(self), *final(self)),
    {
        self.id = None;
    }

    /// The documentation of the module.
    pub fn doc(&self) -> (r: &str)
        ensures
            r@ == self.doc@,
    {
        self.doc.as_str()
    }

    /// Set the documentation of the module.
    pub fn set_doc(&mut self, doc: &str)
        ensures
            final(self).doc@ == doc@,
            final(self).id == old(self).id,
            final(self).flags == old(self).flags,
            same_items(*old(self), *final(self)),
    {
        self.doc = string_of(doc);
    }

    /// Clear the documentation of the module.
    pub fn clear_doc(&mut self)
        ensures
            final(self).doc@.len() == 0,
            final(self).id == old(self).id,
            final(self).flags == old(self).flags,
            same_items(*old(self), *final(self)),
    {
        self.doc = String::new();
    }

    /// Remove everything from the module but its identifier; it is no longer indexed.
    pub fn clear(&mut self)
        requires
            old(self).wf(),
        ensures
            final(self).wf(),
            final(self).id == old(self).id,
            final(self).doc@.len() == 0,
            final(self).custom_types.entries@.len() == 0,
            final(self).modules@.len() == 0,
            final(self).variables@.len() == 0,
            final(self).all_variables is None,
            final(self).functions is None,
            final(self).all_functions is None,
            final(self).type_iterators@.len() == 0,
            final(self).all_type_iterators@.len() == 0,
            final(self).flags == unindexed(old(self).flags),
    {
        self.doc = String::new();
        self.custom_types.clear();
        self.modules = Vec::new();
        self.variables = Vec::new();
        self.all_variables = None;
        self.functions = None;
        self.all_functions = None;
        self.type_iterators = Vec::new();
        self.all_type_iterators = Vec::new();
        self.flags.indexed = false;
        self.flags.indexed_global_functions = false;
    }

    /// Map a custom type (by its Rust name) to a display name.
    pub fn set_custom_type(&mut self, type_key: &str, name: &str)
        requires
            old(self).wf(),
        ensures
            final(self).wf(),
            custom_type_added(
                old(self).custom_types.entries@,
                final(self).custom_types.entries@,
                type_key@,
                TypeInfoV { rust_name: type_key@, display_name: name@, comments: Seq::empty() },
            ),
            final(self).modules == old(self).modules,
            final(self).variables == old(self).variables,
            final(self).functions == old(self).functions,
            final(self).flags == old(self).flags,
    {
        self.custom_types.add_type(type_key, name);
    }

    /// Map a custom type (by its Rust name) to a display name, with comments.
    pub fn set_custom_type_with_comments(&mut self, type_key: &str, name: &str, comments: &Vec<String>)
        requires
            old(self).wf(),
        ensures
            final(self).wf(),
            custom_type_added(
                old(self).custom_types.entries@,
                final(self).custom_types.entries@,
                type_key@,
                TypeInfoV {
                    rust_name: type_key@,
                    display_name: name@,
                    comments: comments@.map_values(|c: String| c@),
                },
            ),
            final(self).modules == old(self).modules,
            final(self).variables == old(self).variables,
            final(self).functions == old(self).functions,
            final(self).flags == old(self).flags,
    {
        self.custom_types.add_type_with_comments(type_key, name, comments);
    }

    /// Map a custom type name to a display name.
    pub fn set_custom_type_raw(&mut self, type_key: &str, display_name: &str)
        requires
            old(self).wf(),
        ensures
            final(self).wf(),
            custom_type_added(
                old(self).custom_types.entries@,
                final(self).custom_types.entries@,
                type_key@,
                TypeInfoV { rust_name: type_key@, display_name: display_name@, comments: Seq::empty() },
            ),
            final(self).modules == old(self).modules,
            final(self).variables == old(self).variables,
            final(self).functions == old(self).functions,
            final(self).flags == old(self).flags,
    {
        self.custom_types.add(type_key, display_name);
    }

    /// Map a custom type name to a display name, with comments.
    pub fn set_custom_type_with_comments_raw(
        &mut self,
        type_key: &str,
        display_name: &str,
        comments: &Vec<String>,
    )
        requires
            old(self).wf(),
        ensures
            final(self).wf(),
            custom_type_added(
                old(self).custom_types.entries@,
                final(self).custom_types.entries@,
                type_key@,
                TypeInfoV {
                    rust_name: type_key@,
                    display_name: display_name@,
                    comments: comments@.map_values(|c: String| c@),
                },
            ),
            final(self).modules == old(self).modules,
            final(self).variables == old(self).variables,
            final(self).functions == old(self).functions,
            final(self).flags == old(self).flags,
    {
        self.custom_types.add_with_comments(type_key, display_name, comments);
    }

    /// The custom type registered under a type name, if any.
    pub fn get_custom_type_by_name_raw(&self, type_key: &str) -> (r: Option<&CustomTypeInfo>)
        requires
            self.wf(),
        ensures
            has_key_at(keys_of(self.custom_types.entries@), type_key@) ==> r == Some(
                &self.custom_types.entries@[place_of(keys_of(self.custom_types.entries@), type_key@)].1,
            ),
            !has_key_at(keys_of(self.custom_types.entries@), type_key@) ==> r is None,
    {
        self.custom_types.get(type_key)
    }

    /// The custom type registered for a type (by its Rust name), if any.
    pub fn get_custom_type_raw(&self, type_key: &str) -> (r: Option<&CustomTypeInfo>)
        requires
            self.wf(),
        ensures
            has_key_at(keys_of(self.custom_types.entries@), type_key@) ==> r == Some(
                &self.custom_types.entries@[place_of(keys_of(self.custom_types.entries@), type_key@)].1,
            ),
            !has_key_at(keys_of(self.custom_types.entries@), type_key@) ==> r is None,
    {
        self.get_custom_type_by_name_raw(type_key)
    }

    /// The display name of a custom type registered under a type name, if any.
    pub fn get_custom_type_display_by_name(&self, type_key: &str) -> (r: Option<&str>)
        requires
            self.wf(),
        ensures
            has_key_at(keys_of(self.custom_types.entries@), type_key@) ==> (r matches Some(t)
                && t@ == self.custom_types.entries@[place_of(
                keys_of(self.custom_types.entries@),
                type_key@,
            )].1.display_name@),
            !has_key_at(keys_of(self.custom_types.entries@), type_key@) ==> r is None,
    {
        match self.get_custom_type_by_name_raw(type_key) {
            Some(t) => Some(t.display_name.as_str()),
            None => None,
        }
    }

    /// The display name of a custom type (by its Rust name), if any.
    pub fn get_custom_type_display(&self, type_key: &str) -> (r: Option<&str>)
        requires
            self.wf(),
        ensures
            has_key_at(keys_of(self.custom_types.entries@), type_key@) ==> (r matches Some(t)
                && t@ == self.custom_types.entries@[place_of(
                keys_of(self.custom_types.entries@),
                type_key@,
            )].1.display_name@),
            !has_key_at(keys_of(self.custom_types.entries@), type_key@) ==> r is None,
    {
        self.get_custom_type_display_by_name(type_key)
    }

    /// Is the module indexed?
    pub fn is_indexed(&self) -> (r: bool)
        ensures
            r == self.flags.indexed,
    {
        self.flags.indexed
    }

    /// Does the module contain indexed functions exposed to the global namespace?
    pub fn contains_indexed_global_functions(&self) -> (r: bool)
        ensures
            r == self.flags.indexed_global_functions,
    {
        self.flags.indexed_global_functions
    }

    /// Does the module hold no items?
    pub fn is_empty(&self) -> (r: bool)
        ensures
            r == (!self.flags.indexed_global_functions
                && (self.functions matches Some(f) ==> f@.len() == 0)
                && self.variables@.len() == 0 && self.modules@.len() == 0
                && self.type_iterators@.len() == 0
                && (self.all_functions matches Some(f) ==> f@.len() == 0)
                && (self.all_variables matches Some(v) ==> v@.len() == 0)
                && self.all_type_iterators@.len() == 0),
    {
        !self.flags.indexed_global_functions && match &self.functions {
            Some(f) => f.len() == 0,
            None => true,
        } && self.variables.len() == 0 && self.modules.len() == 0 && self.type_iterators.len() == 0
            && match &self.all_functions {
            Some(f) => f.len() == 0,
            None => true,
        } && match &self.all_variables {
            Some(v) => v.len() == 0,
            None => true,
        } && self.all_type_iterators.len() == 0
    }

    /// Does the module have a variable of this name?
    pub fn contains_var(&self, name: &str) -> (r: bool)
        requires
            self.wf(),
        ensures
            r == has_key(self.variables@, name@),
    {
        contains_key(&self.variables, name)
    }

    /// A copy of the value of a variable, if the module has one of this name.
    pub fn get_var(&self, name: &str) -> (r: Option<Dynamic>)
        requires
            self.wf(),
        ensures
            has_key(self.variables@, name@) ==> (r matches Some(d) && d@
                == self.variables@[index_of_key(self.variables@, name@)].1@),
            !has_key(self.variables@, name@) ==> r is None,
    {
        match get_key(&self.variables, name) {
            Some(d) => Some(d.deep_clone()),
            None => None,
        }
    }

    /// Set a variable, replacing any of the same name. In an indexed module the variable is
    /// also entered into the index under its qualified hash.
    pub fn set_var(&mut self, name: &str, value: Dynamic)
        requires
            old(self).wf(),
        ensures
            final(self).wf(),
            is_put(old(self).variables@, final(self).variables@, name@, value),
            !old(self).flags.indexed ==> final(self).all_variables == old(self).all_variables,
            old(self).flags.indexed ==> variable_indexed(old(self).all_variables, final(self).all_variables, value),
            final(self).modules == old(self).modules,
            final(self).functions == old(self).functions,
            final(self).all_functions == old(self).all_functions,
            final(self).flags == old(self).flags,
            final(self).id == old(self).id,
    {
        let ghost v0 = value;
        if self.flags.indexed {
            let root: Vec<String> = vec![String::new()];
            let hash_var = calc_var_hash(&root, name);
            let copy = value.deep_clone();
            let ghost before = opt_entries(self.all_variables);
            let mut all = match self.all_variables.take() {
                Some(a) => a,
                None => Vec::new(),
            };
            assert(all@ == before);
            let ghost c0 = copy;
            put_hash_entry(&mut all, hash_var, copy);
            proof {
                assert(c0@ == v0@);
                assert(is_put_hash(before, all@, hash_var, c0));
            }
            self.all_variables = Some(all);
            proof {
                assert(before == opt_entries(old(self).all_variables));
                assert(self.all_variables->Some_0@ == all@);
                assert(is_put_hash(opt_entries(old(self).all_variables), self.all_variables->Some_0@, hash_var, c0));
                assert(variable_indexed(old(self).all_variables, self.all_variables, v0));
            }
        }
        put(&mut self.variables, string_of(name), value);
    }
}

impl Module {
    /// Does the module have a sub-module of this name?
    pub fn contains_sub_module(&self, name: &str) -> (r: bool)
        requires
            self.wf(),
        ensures
            r == has_key(self.modules@, name@),
    {
        contains_key(&self.modules, name)
    }

    /// The sub-module of this name, if any.
    pub fn get_sub_module(&self, name: &str) -> (r: Option<&Module>)
        requires
            self.wf(),
        ensures
            has_key(self.modules@, name@) ==> r == Some(&*self.modules@[index_of_key(self.modules@, name@)].1),
            !has_key(self.modules@, name@) ==> r is None,
    {
        match get_key(&self.modules, name) {
            Some(m) => Some(&**m),
            None => None,
        }
    }

    /// Set a sub-module, replacing any of the same name; the module is no longer indexed.
    pub fn set_sub_module(&mut self, name: &str, sub_module: Module)
        requires
            old(self).wf(),
        ensures
            final(self).wf(),
            exists|m: Rc<Module>| *m == sub_module && #[trigger] is_put(old(self).modules@, final(self).modules@, name@, m),
            final(self).variables == old(self).variables,
            final(self).functions == old(self).functions,
            final(self).all_variables == old(self).all_variables,
            final(self).all_functions == old(self).all_functions,
            final(self).type_iterators == old(self).type_iterators,
            final(self).all_type_iterators == old(self).all_type_iterators,
            final(self).custom_types == old(self).custom_types,
            final(self).doc == old(self).doc,
            final(self).id == old(self).id,
            final(self).flags == unindexed(old(self).flags),
    {
        let ghost before = self.modules@;
        let m = Rc::new(sub_module);
        let ghost g = m;
        put(&mut self.modules, string_of(name), m);
        self.flags.indexed = false;
        self.flags.indexed_global_functions = false;
        proof {
            assert(is_put(before, self.modules@, name@, g));
        }
    }

    /// Does the module have a function with this hash?
    pub fn contains_fn(&self, hash_fn: u64) -> (r: bool)
        requires
            self.wf(),
        ensures
            r == (self.functions matches Some(f) && has_hash(f@, hash_fn)),
    {
        match &self.functions {
            Some(f) => match find_hash(f, hash_fn) {
                Some(_) => true,
                None => false,
            },
            None => false,
        }
    }

    /// The function with this hash, if any.
    pub fn get_fn(&self, hash_fn: u64) -> (r: Option<&CallableFunction>)
        requires
            self.wf(),
        ensures
            match self.functions {
                Some(f) => if has_hash(f@, hash_fn) {
                    r == Some(&f@[index_of_hash(f@, hash_fn)].1.func)
                } else {
                    r is None
                },
                None => r is None,
            },
    {
        match &self.functions {
            Some(f) => match get_hash(f, hash_fn) {
                Some(info) => Some(&info.func),
                None => None,
            },
            None => None,
        }
    }

    /// Does the index hold a function with this qualified hash?
    pub fn contains_qualified_fn(&self, hash_fn: u64) -> (r: bool)
        requires
            self.wf(),
        ensures
            r == (self.all_functions matches Some(f) && has_hash(f@, hash_fn)),
    {
        match &self.all_functions {
            Some(f) => match find_hash(f, hash_fn) {
                Some(_) => true,
                None => false,
            },
            None => false,
        }
    }

    /// The indexed function with this qualified hash, if any.
    pub fn get_qualified_fn(&self, hash_fn: u64) -> (r: Option<&CallableFunction>)
        requires
            self.wf(),
        ensures
            match self.all_functions {
                Some(f) => if has_hash(f@, hash_fn) {
                    r == Some(&f@[index_of_hash(f@, hash_fn)].1)
                } else {
                    r is None
                },
                None => r is None,
            },
    {
        match &self.all_functions {
            Some(f) => get_hash(f, hash_fn),
            None => None,
        }
    }

    /// A copy of the indexed variable with this qualified hash, if any.
    pub fn get_qualified_var(&self, hash_var: u64) -> (r: Option<Dynamic>)
        requires
            self.wf(),
        ensures
            match self.all_variables {
                Some(v) => if has_hash(v@, hash_var) {
                    r matches Some(d) && d@ == v@[index_of_hash(v@, hash_var)].1@
                } else {
                    r is None
                },
                None => r is None,
            },
    {
        match &self.all_variables {
            Some(v) => match get_hash(v, hash_var) {
                Some(d) => Some(d.deep_clone()),
                None => None,
            },
            None => None,
        }
    }

    /// The numbers of variables, functions and type iterators.
    pub fn count(&self) -> (r: (usize, usize, usize))
        ensures
            r.0 == self.variables@.len(),
            r.1 == opt_entries(self.functions).len(),
            r.2 == self.type_iterators@.len(),
    {
        let n = match &self.functions {
            Some(f) => f.len(),
            None => 0,
        };
        (self.variables.len(), n, self.type_iterators.len())
    }

    /// The sub-modules with their names, in name order.
    pub fn iter_sub_modules(&self) -> (r: &Vec<(String, Rc<Module>)>)
        ensures
            r == self.modules,
    {
        &self.modules
    }

    /// The variables with their names, in name order.
    pub fn iter_var(&self) -> (r: &Vec<(String, Dynamic)>)
        ensures
            r == self.variables,
    {
        &self.variables
    }

    /// Set a script-defined function, replacing any with the same name and number of
    /// parameters; the module is no longer indexed. Returns the function's hash.
    pub fn set_script_fn(&mut self, fn_def: Rc<ScriptFuncDef>) -> (r: u64)
        requires
            old(self).wf(),
        ensures
            final(self).wf(),
            r != 0,
            exists|f: FuncInfo| #[trigger] fn_put(old(self).functions, final(self).functions, r, f) && script_fn_info(f, *fn_def, r),
            same_but_functions(*old(self), *final(self)),
            final(self).flags == unindexed(old(self).flags),
    {
        let ghost d = fn_def;
        let num_params = fn_def.params.len();
        let none: Vec<String> = Vec::new();
        let hash_script = crate::hashing::calc_fn_hash(&none, fn_def.name.as_str(), num_params);
        let params_info = clone_strings(&fn_def.params);
        let name = fn_def.name.clone();
        let access = fn_def.access;
        let info = FuncInfo {
            metadata: Box::new(FuncInfoMetadata {
                hash: hash_script,
                namespace: FnNamespace::Internal,
                access,
                name,
                this_type: None,
                num_params,
                param_types: Vec::new(),
                params_info,
                return_type: String::new(),
                comments: Vec::new(),
            }),
            func: CallableFunction::Script(fn_def),
        };
        let ghost gi = info;
        let ghost before = self.functions;
        let mut fs = match self.functions.take() {
            Some(f) => f,
            None => Vec::new(),
        };
        put_hash_entry(&mut fs, hash_script, info);
        let ghost fsv = fs@;
        self.functions = Some(fs);
        self.flags.indexed = false;
        self.flags.indexed_global_functions = false;
        proof {
            assert(script_fn_info(gi, *d, hash_script));
            assert(fn_put(before, self.functions, hash_script, gi));
            assert forall|i: int| 0 <= i < fsv.len() implies (#[trigger] fsv[i]).0 == fsv[i].1.metadata.hash by {
                if i != index_of_hash(fsv, hash_script) {
                    let o = fsv[i].0;
                    crate::keyed::lemma_hash_unique(fsv, i);
                    crate::keyed::lemma_hash_unique(opt_entries(before), index_of_hash(opt_entries(before), o));
                }
            }
        }
        hash_script
    }

    /// The script-defined function with this name and number of parameters, if any.
    pub fn get_script_fn(&self, name: &str, num_params: usize) -> (r: Option<&ScriptFuncDef>)
        requires
            self.wf(),
        ensures
            r matches Some(d) ==> exists|i: int|
                0 <= i < opt_entries(self.functions).len()
                && (#[trigger] opt_entries(self.functions)[i]).1.metadata.num_params == num_params
                && opt_entries(self.functions)[i].1.metadata.name@ == name@
                && (opt_entries(self.functions)[i].1.func matches CallableFunction::Script(s) && *s == *d),
            r is None ==> forall|i: int|
                0 <= i < opt_entries(self.functions).len()
                && (#[trigger] opt_entries(self.functions)[i]).1.metadata.num_params == num_params
                && opt_entries(self.functions)[i].1.metadata.name@ == name@
                ==> !(opt_entries(self.functions)[i].1.func is Script),
    {
        match &self.functions {
            Some(fs) => {
                let mut i: usize = 0;
                while i < fs.len()
                    invariant
                        i <= fs@.len(),
                        self.functions == Some(*fs),
                        forall|j: int| 0 <= j < i && (#[trigger] fs@[j]).1.metadata.num_params == num_params
                            && fs@[j].1.metadata.name@ == name@ ==> !(fs@[j].1.func is Script),
                    decreases fs.len() - i,
                {
                    if fs[i].1.metadata.num_params == num_params && str_eq(fs[i].1.metadata.name.as_str(), name) {
                        match &fs[i].1.func {
                            CallableFunction::Script(d) => {
                                return Some(&**d);
                            },
                            _ => {},
                        }
                    }
                    i += 1;
                }
                None
            },
            None => None,
        }
    }
}

/// The registered parameter types: `&str` and `String` become `ImmutableString`, but for
/// the first parameter of a method.
fn map_types(is_method: bool, arg_types: &Vec<String>) -> (r: Vec<String>)
    ensures
        texts(r@) == mapped_types(is_method, texts(arg_types@)),
{
    let mut out: Vec<String> = Vec::new();
    let mut i: usize = 0;
    while i < arg_types.len()
        invariant
            i <= arg_types@.len(),
            out@.len() == i,
            forall|j: int| 0 <= j < i ==> #[trigger] out@[j]@ == mapped_type(!is_method || j > 0, arg_types@[j]@),
        decreases arg_types.len() - i,
    {
        let t = arg_types[i].as_str();
        let map = !is_method || i > 0;
        if map && (str_eq(t, "&str") || str_eq(t, "String")) {
            out.push(string_of("ImmutableString"));
        } else {
            out.push(string_of(t));
        }
        i += 1;
    }
    proof {
        assert(texts(out@) =~= mapped_types(is_method, texts(arg_types@)));
    }
    out
}

/// The function at position `i` replaced by `(h, g)`, where `h` is its hash, is a put of `g`
/// under `h`.
proof fn lemma_replace_is_put(v: Seq<(u64, FuncInfo)>, i: int, g: FuncInfo)
    requires
        hashes_unique(v),
        0 <= i < v.len(),
    ensures
        v.update(i, (v[i].0, g)) == put_hash(v, v[i].0, g),
        hashes_unique(v.update(i, (v[i].0, g))),
{
    crate::keyed::lemma_hash_unique(v, i);
    let w = v.update(i, (v[i].0, g));
    assert forall|a: int, b: int| 0 <= a < b < w.len() implies #[trigger] w[a].0 != #[trigger] w[b].0 by {
        assert(w[a].0 == v[a].0 && w[b].0 == v[b].0);
    }
}

impl Module {
    /// Register a function under its name, namespace, access, parameter names (the last one,
    /// beyond the number of parameters, being the return type), parameter types and comments;
    /// a function with the same hash is replaced, and the module is no longer indexed.
    /// Returns the function's hash.
    fn set_fn_raw(
        &mut self,
        name: &str,
        namespace: FnNamespace,
        access: FnAccess,
        arg_names: &Vec<String>,
        arg_types: &Vec<String>,
        comments: &Vec<String>,
        func: CallableFunction,
    ) -> (r: u64)
        requires
            old(self).wf(),
        ensures
            final(self).wf(),
            r != 0,
            exists|f: FuncInfo| #[trigger] fn_put(old(self).functions, final(self).functions, r, f)
                && native_fn_info(f, name@, namespace, access, texts(arg_names@), texts(arg_types@), texts(comments@), func, r),
            same_but_functions(*old(self), *final(self)),
            final(self).flags == unindexed(old(self).flags),
    {
        let ghost fv = func;
        let is_method = func.is_method();
        let param_types = map_types(is_method, arg_types);
        proof {
            assert(texts(param_types@).len() == param_types@.len());
            assert(mapped_types(is_method, texts(arg_types@)).len() == arg_types@.len());
            assert(param_types@.len() == arg_types@.len());
        }
        let mut names = clone_strings(arg_names);
        proof {
            assert(texts(names@) =~= texts(arg_names@));
        }
        let return_type = if names.len() > param_types.len() {
            let ghost before = names@;
            let t = names.pop().unwrap();
            proof {
                assert(texts(names@) =~= texts(before).drop_last());
                assert(t@ == texts(before).last());
            }
            t
        } else {
            proof {
                assert(return_name(texts(arg_names@), arg_types@.len()) =~= Seq::<char>::empty());
            }
            String::new()
        };
        proof {
            assert(texts(names@) == kept_names(texts(arg_names@), arg_types@.len()));
            assert(return_type@ == return_name(texts(arg_names@), arg_types@.len()));
        }
        let comments_copy = clone_strings(comments);
        proof {
            assert(texts(comments_copy@) =~= texts(comments@));
        }
        let none: Vec<String> = Vec::new();
        let hash_base = crate::hashing::calc_fn_hash(&none, name, param_types.len());
        let hash_fn = crate::hashing::calc_fn_hash_full(hash_base, &param_types);
        self.flags.indexed = false;
        self.flags.indexed_global_functions = false;
        let num_params = param_types.len();
        let info = FuncInfo {
            func,
            metadata: Box::new(FuncInfoMetadata {
                hash: hash_fn,
                namespace,
                access,
                name: string_of(name),
                this_type: None,
                num_params,
                param_types,
                params_info: names,
                return_type,
                comments: comments_copy,
            }),
        };
        let ghost gi = info;
        let ghost before = self.functions;
        let mut fs = match self.functions.take() {
            Some(f) => f,
            None => Vec::new(),
        };
        put_hash_entry(&mut fs, hash_fn, info);
        let ghost fsv = fs@;
        self.functions = Some(fs);
        proof {
            assert(native_fn_info(gi, name@, namespace, access, texts(arg_names@), texts(arg_types@), texts(comments@), fv, hash_fn));
            assert(fn_put(before, self.functions, hash_fn, gi));
            assert forall|i: int| 0 <= i < fsv.len() implies (#[trigger] fsv[i]).0 == fsv[i].1.metadata.hash by {
                if i != index_of_hash(fsv, hash_fn) {
                    let o = fsv[i].0;
                    crate::keyed::lemma_hash_unique(fsv, i);
                    crate::keyed::lemma_hash_unique(opt_entries(before), index_of_hash(opt_entries(before), o));
                }
            }
        }
        hash_fn
    }

    /// Register a native function (see [`Module::set_fn_with_comments`]), without comments.
    pub fn set_fn(
        &mut self,
        name: &str,
        namespace: FnNamespace,
        access: FnAccess,
        arg_names: Option<&Vec<String>>,
        arg_types: &Vec<String>,
        func: CallableFunction,
    ) -> (r: u64)
        requires
            old(self).wf(),
        ensures
            final(self).wf(),
            r != 0,
            exists|f: FuncInfo| #[trigger] fn_put(old(self).functions, final(self).functions, r, f)
                && native_fn_info(
                f,
                name@,
                namespace,
                access,
                match arg_names {
                    Some(n) => texts(n@),
                    None => Seq::empty(),
                },
                texts(arg_types@),
                Seq::empty(),
                func,
                r,
            ),
            same_but_functions(*old(self), *final(self)),
            final(self).flags == unindexed(old(self).flags),
    {
        let empty: Vec<String> = Vec::new();
        let no_comments: Vec<String> = Vec::new();
        proof {
            assert(texts(empty@) =~= Seq::<Seq<char>>::empty());
        }
        match arg_names {
            Some(n) => self.set_fn_raw(name, namespace, access, n, arg_types, &no_comments, func),
            None => self.set_fn_raw(name, namespace, access, &empty, arg_types, &no_comments, func),
        }
    }

    /// Register a native function under its name, namespace, access, parameter names (the
    /// last one, beyond the number of parameters, being the return type), parameter types
    /// and comments. A function with the same hash is replaced; the module is no longer
    /// indexed. Returns the function's hash.
    pub fn set_fn_with_comments(
        &mut self,
        name: &str,
        namespace: FnNamespace,
        access: FnAccess,
        arg_names: Option<&Vec<String>>,
        arg_types: &Vec<String>,
        comments: &Vec<String>,
        func: CallableFunction,
    ) -> (r: u64)
        requires
            old(self).wf(),
        ensures
            final(self).wf(),
            r != 0,
            exists|f: FuncInfo| #[trigger] fn_put(old(self).functions, final(self).functions, r, f)
                && native_fn_info(
                f,
                name@,
                namespace,
                access,
                match arg_names {
                    Some(n) => texts(n@),
                    None => Seq::empty(),
                },
                texts(arg_types@),
                texts(comments@),
                func,
                r,
            ),
            same_but_functions(*old(self), *final(self)),
            final(self).flags == unindexed(old(self).flags),
    {
        let empty: Vec<String> = Vec::new();
        proof {
            assert(texts(empty@) =~= Seq::<Seq<char>>::empty());
        }
        match arg_names {
            Some(n) => self.set_fn_raw(name, namespace, access, n, arg_types, comments, func),
            None => self.set_fn_raw(name, namespace, access, &empty, arg_types, comments, func),
        }
    }

    /// Change the namespace of the function with this hash, if any; the module is then no
    /// longer indexed.
    pub fn update_fn_namespace(&mut self, hash_fn: u64, namespace: FnNamespace)
        requires
            old(self).wf(),
        ensures
            final(self).wf(),
            !(old(self).functions matches Some(f) && has_hash(f@, hash_fn)) ==> *final(self) == *old(self),
            (old(self).functions matches Some(f) && has_hash(f@, hash_fn)) ==> {
                let of = opt_entries(old(self).functions)[index_of_hash(opt_entries(old(self).functions), hash_fn)].1;
                &&& exists|g: FuncInfo| #[trigger] fn_put(old(self).functions, final(self).functions, hash_fn, g)
                    && fn_with_metadata(of, g, FuncInfoMetadata { namespace, ..*of.metadata })
                &&& same_but_functions(*old(self), *final(self))
                &&& final(self).flags == unindexed(old(self).flags)
            },
    {
        let found = match &self.functions {
            Some(fs) => find_hash(fs, hash_fn),
            None => None,
        };
        match found {
            Some(i) => {
                let ghost before = self.functions;
                let mut fs = self.functions.take().unwrap();
                let ghost v = fs@;
                let (h, f) = fs.remove(i);
                let md = *f.metadata;
                let md2 = FuncInfoMetadata { namespace, ..md };
                let g = FuncInfo { func: f.func, metadata: Box::new(md2) };
                let ghost gg = g;
                fs.insert(i, (h, g));
                proof {
                    assert(fs@ =~= v.update(i as int, (v[i as int].0, gg)));
                    lemma_replace_is_put(v, i as int, gg);
                    crate::keyed::lemma_put_hash_is_put(v, hash_fn, gg);
                    assert forall|j: int| 0 <= j < fs@.len() implies (#[trigger] fs@[j]).0 == fs@[j].1.metadata.hash by {
                        if j != i {
                            assert(fs@[j] == v[j]);
                        }
                    }
                }
                self.functions = Some(fs);
                self.flags.indexed = false;
                self.flags.indexed_global_functions = false;
                proof {
                    assert(fn_put(before, self.functions, hash_fn, gg));
                }
            },
            None => {},
        }
    }
}

/// A copy of a type iterator.
fn clone_iter_fn(f: &IteratorFn) -> (r: IteratorFn)
    ensures
        r == *f,
{
    IteratorFn { iterated: f.iterated.clone() }
}

impl Module {
    /// Set the parameter names of the function with this hash, if any: a last name beyond
    /// the number of parameters is taken as the return type (else the return type is cleared).
    pub fn update_fn_metadata(&mut self, hash_fn: u64, arg_names: &Vec<String>)
        requires
            old(self).wf(),
        ensures
            final(self).wf(),
            !(old(self).functions matches Some(f) && has_hash(f@, hash_fn)) ==> *final(self) == *old(self),
            (old(self).functions matches Some(f) && has_hash(f@, hash_fn)) ==> {
                let of = opt_entries(old(self).functions)[index_of_hash(opt_entries(old(self).functions), hash_fn)].1;
                &&& exists|g: FuncInfo| #[trigger] fn_put(old(self).functions, final(self).functions, hash_fn, g)
                    && g.func == of.func
                    && g.metadata.hash == of.metadata.hash
                    && g.metadata.namespace == of.metadata.namespace
                    && g.metadata.access == of.metadata.access
                    && g.metadata.name == of.metadata.name
                    && g.metadata.this_type == of.metadata.this_type
                    && g.metadata.num_params == of.metadata.num_params
                    && g.metadata.param_types == of.metadata.param_types
                    && g.metadata.comments == of.metadata.comments
                    && texts(g.metadata.params_info@) == kept_names(texts(arg_names@), of.metadata.num_params as nat)
                    && g.metadata.return_type@ == return_name(texts(arg_names@), of.metadata.num_params as nat)
                &&& same_but_functions(*old(self), *final(self))
                &&& final(self).flags == old(self).flags
            },
    {
        let found = match &self.functions {
            Some(fs) => find_hash(fs, hash_fn),
            None => None,
        };
        match found {
            Some(i) => {
                let ghost before = self.functions;
                let mut fs = self.functions.take().unwrap();
                let ghost v = fs@;
                let (h, f) = fs.remove(i);
                let md = *f.metadata;
                let mut names = clone_strings(arg_names);
                proof {
                    assert(texts(names@) =~= texts(arg_names@));
                }
                let return_type = if names.len() > md.num_params {
                    let ghost b = names@;
                    let t = names.pop().unwrap();
                    proof {
                        assert(texts(names@) =~= texts(b).drop_last());
                        assert(t@ == texts(b).last());
                    }
                    t
                } else {
                    proof {
                        assert(return_name(texts(arg_names@), md.num_params as nat) =~= Seq::<char>::empty());
                    }
                    String::new()
                };
                let md2 = FuncInfoMetadata { params_info: names, return_type, ..md };
                let g = FuncInfo { func: f.func, metadata: Box::new(md2) };
                let ghost gg = g;
                fs.insert(i, (h, g));
                proof {
                    assert(fs@ =~= v.update(i as int, (v[i as int].0, gg)));
                    lemma_replace_is_put(v, i as int, gg);
                    crate::keyed::lemma_put_hash_is_put(v, hash_fn, gg);
                    assert forall|j: int| 0 <= j < fs@.len() implies (#[trigger] fs@[j]).0 == fs@[j].1.metadata.hash by {
                        if j != i {
                            assert(fs@[j] == v[j]);
                        }
                    }
                }
                self.functions = Some(fs);
                proof {
                    assert(fn_put(before, self.functions, hash_fn, gg));
                }
            },
            None => {},
        }
    }

    /// Set the parameter names (as [`Module::update_fn_metadata`]) and the comments of the
    /// function with this hash, which must exist.
    pub fn update_fn_metadata_with_comments(&mut self, hash_fn: u64, arg_names: &Vec<String>, comments: &Vec<String>)
        requires
            old(self).wf(),
            old(self).functions matches Some(f) && has_hash(f@, hash_fn),
        ensures
            final(self).wf(),
            ({
                let of = opt_entries(old(self).functions)[index_of_hash(opt_entries(old(self).functions), hash_fn)].1;
                exists|g: FuncInfo| #[trigger] fn_put(old(self).functions, final(self).functions, hash_fn, g)
                    && g.func == of.func
                    && g.metadata.hash == of.metadata.hash
                    && g.metadata.namespace == of.metadata.namespace
                    && g.metadata.access == of.metadata.access
                    && g.metadata.name == of.metadata.name
                    && g.metadata.this_type == of.metadata.this_type
                    && g.metadata.num_params == of.metadata.num_params
                    && g.metadata.param_types == of.metadata.param_types
                    && texts(g.metadata.comments@) == texts(comments@)
                    && texts(g.metadata.params_info@) == kept_names(texts(arg_names@), of.metadata.num_params as nat)
                    && g.metadata.return_type@ == return_name(texts(arg_names@), of.metadata.num_params as nat)
            }),
            same_but_functions(*old(self), *final(self)),
            final(self).flags == old(self).flags,
    {
        let ghost v0 = opt_entries(self.functions);
        self.update_fn_metadata(hash_fn, arg_names);
        let ghost mid = self.functions;
        let mut fs = self.functions.take().unwrap();
        let ghost v = fs@;
        let i = find_hash(&fs, hash_fn).unwrap();
        let (h, f) = fs.remove(i);
        let md = *f.metadata;
        let copy = clone_strings(comments);
        proof {
            assert(texts(copy@) =~= texts(comments@));
        }
        let md2 = FuncInfoMetadata { comments: copy, ..md };
        let g = FuncInfo { func: f.func, metadata: Box::new(md2) };
        let ghost gg = g;
        fs.insert(i, (h, g));
        proof {
            assert(fs@ =~= v.update(i as int, (v[i as int].0, gg)));
            lemma_replace_is_put(v, i as int, gg);
            crate::keyed::lemma_put_hash_is_put(v, hash_fn, gg);
            assert forall|j: int| 0 <= j < fs@.len() implies (#[trigger] fs@[j]).0 == fs@[j].1.metadata.hash by {
                if j != i {
                    assert(fs@[j] == v[j]);
                }
            }
            let g1 = choose|g: FuncInfo| #[trigger] fn_put(old(self).functions, mid, hash_fn, g);
            assert(fn_put(old(self).functions, mid, hash_fn, g1));
            assert(is_put_hash(v0, v, hash_fn, g1));
            assert(is_put_hash(v, fs@, hash_fn, gg));
            assert forall|o: u64| o != hash_fn implies (#[trigger] has_hash(fs@, o) <==> has_hash(v0, o)) by {
                assert(has_hash(fs@, o) <==> has_hash(v, o));
                assert(has_hash(v, o) <==> has_hash(v0, o));
            }
            assert forall|o: u64| o != hash_fn && #[trigger] has_hash(v0, o) implies fs@[index_of_hash(fs@, o)].1
                == v0[index_of_hash(v0, o)].1 by {
                assert(has_hash(v, o));
                assert(v[index_of_hash(v, o)].1 == v0[index_of_hash(v0, o)].1);
                assert(fs@[index_of_hash(fs@, o)].1 == v[index_of_hash(v, o)].1);
            }
        }
        self.functions = Some(fs);
        proof {
            assert(fn_put(old(self).functions, self.functions, hash_fn, gg));
        }
    }

    /// Does the module have an iterator for this type?
    pub fn contains_iter(&self, type_key: &str) -> (r: bool)
        requires
            self.wf(),
        ensures
            r == has_key(self.type_iterators@, type_key@),
    {
        contains_key(&self.type_iterators, type_key)
    }

    /// Does the index hold an iterator for this type?
    pub fn contains_qualified_iter(&self, type_key: &str) -> (r: bool)
        requires
            self.wf(),
        ensures
            r == has_key(self.all_type_iterators@, type_key@),
    {
        contains_key(&self.all_type_iterators, type_key)
    }

    /// The iterator of this type, if any.
    pub fn get_iter(&self, type_key: &str) -> (r: Option<&IteratorFn>)
        requires
            self.wf(),
        ensures
            has_key(self.type_iterators@, type_key@) ==> r == Some(&self.type_iterators@[index_of_key(self.type_iterators@, type_key@)].1),
            !has_key(self.type_iterators@, type_key@) ==> r is None,
    {
        get_key(&self.type_iterators, type_key)
    }

    /// The indexed iterator of this type, if any.
    pub fn get_qualified_iter(&self, type_key: &str) -> (r: Option<&IteratorFn>)
        requires
            self.wf(),
        ensures
            has_key(self.all_type_iterators@, type_key@) ==> r == Some(&self.all_type_iterators@[index_of_key(self.all_type_iterators@, type_key@)].1),
            !has_key(self.all_type_iterators@, type_key@) ==> r is None,
    {
        get_key(&self.all_type_iterators, type_key)
    }

    /// Set the iterator of a type, replacing any; in an indexed module it is also entered
    /// into the index.
    pub fn set_iter(&mut self, type_key: &str, func: IteratorFn)
        requires
            old(self).wf(),
        ensures
            final(self).wf(),
            is_put(old(self).type_iterators@, final(self).type_iterators@, type_key@, func),
            old(self).flags.indexed ==> is_put(old(self).all_type_iterators@, final(self).all_type_iterators@, type_key@, func),
            !old(self).flags.indexed ==> final(self).all_type_iterators == old(self).all_type_iterators,
            final(self).variables == old(self).variables,
            final(self).modules == old(self).modules,
            final(self).functions == old(self).functions,
            final(self).all_functions == old(self).all_functions,
            final(self).all_variables == old(self).all_variables,
            final(self).flags == old(self).flags,
    {
        if self.flags.indexed {
            let copy = clone_iter_fn(&func);
            put(&mut self.all_type_iterators, string_of(type_key), copy);
        }
        put(&mut self.type_iterators, string_of(type_key), func);
    }

    /// Set the fallible iterator of a type (as [`Module::set_iter`]).
    pub fn set_iter_result(&mut self, type_key: &str, func: IteratorFn)
        requires
            old(self).wf(),
        ensures
            final(self).wf(),
            is_put(old(self).type_iterators@, final(self).type_iterators@, type_key@, func),
            old(self).flags.indexed ==> is_put(old(self).all_type_iterators@, final(self).all_type_iterators@, type_key@, func),
            !old(self).flags.indexed ==> final(self).all_type_iterators == old(self).all_type_iterators,
            final(self).variables == old(self).variables,
            final(self).functions == old(self).functions,
            final(self).flags == old(self).flags,
    {
        self.set_iter(type_key, func)
    }

    /// Set the iterator of an iterable type, which iterates over its items.
    pub fn set_iterable(&mut self, type_key: &str)
        requires
            old(self).wf(),
        ensures
            final(self).wf(),
            exists|f: IteratorFn| f.iterated@ == type_key@ && #[trigger] is_put(old(self).type_iterators@, final(self).type_iterators@, type_key@, f),
            final(self).variables == old(self).variables,
            final(self).functions == old(self).functions,
            final(self).flags == old(self).flags,
    {
        let f = IteratorFn { iterated: string_of(type_key) };
        let ghost g = f;
        self.set_iter(type_key, f);
        proof {
            assert(is_put(old(self).type_iterators@, self.type_iterators@, type_key@, g));
        }
    }

    /// Set the iterator of an iterator type, which yields its items.
    pub fn set_iterator(&mut self, type_key: &str)
        requires
            old(self).wf(),
        ensures
            final(self).wf(),
            exists|f: IteratorFn| f.iterated@ == type_key@ && #[trigger] is_put(old(self).type_iterators@, final(self).type_iterators@, type_key@, f),
            final(self).variables == old(self).variables,
            final(self).functions == old(self).functions,
            final(self).flags == old(self).flags,
    {
        self.set_iterable(type_key)
    }

    /// The functions, in the order of the collection.
    pub fn iter_fn(&self) -> (r: Vec<&FuncInfo>)
        ensures
            r@.len() == opt_entries(self.functions).len(),
            forall|i: int| 0 <= i < r@.len() ==> *r@[i] == opt_entries(self.functions)[i].1,
    {
        let mut out: Vec<&FuncInfo> = Vec::new();
        match &self.functions {
            Some(fs) => {
                let mut i: usize = 0;
                while i < fs.len()
                    invariant
                        i <= fs@.len(),
                        self.functions == Some(*fs),
                        out@.len() == i,
                        forall|j: int| 0 <= j < i ==> *out@[j] == fs@[j].1,
                    decreases fs.len() - i,
                {
                    out.push(&fs[i].1);
                    i += 1;
                }
            },
            None => {},
        }
        out
    }

    /// The signatures of the public functions, in the order of the collection.
    pub fn gen_fn_signatures(&self) -> (r: Vec<String>)
        ensures
            r@.len() <= opt_entries(self.functions).len(),
            texts(r@) == public_signatures(opt_entries(self.functions)),
    {
        let mut out: Vec<String> = Vec::new();
        let ghost all = opt_entries(self.functions);
        match &self.functions {
            Some(fs) => {
                let mut i: usize = 0;
                proof {
                    assert(all.take(0) =~= Seq::<(u64, FuncInfo)>::empty());
                    assert(texts(out@) =~= Seq::<Seq<char>>::empty());
                }
                while i < fs.len()
                    invariant
                        i <= fs@.len(),
                        all == fs@,
                        out@.len() <= i,
                        texts(out@) == public_signatures(all.take(i as int)),
                    decreases fs.len() - i,
                {
                    let ghost before = out@;
                    proof {
                        assert(all.take(i + 1).drop_last() =~= all.take(i as int));
                    }
                    match fs[i].1.metadata.access {
                        FnAccess::Public => {
                            let sig = fs[i].1.gen_signature();
                            out.push(sig);
                            proof {
                                assert(texts(out@) =~= texts(before).push(sig@));
                            }
                        },
                        FnAccess::Private => {},
                    }
                    i += 1;
                }
                proof {
                    assert(all.take(fs@.len() as int) =~= all);
                }
            },
            None => {
                proof {
                    assert(texts(out@) =~= Seq::<Seq<char>>::empty());
                }
            },
        }
        out
    }

    /// The namespace, access, name and number of parameters of each script-defined function,
    /// in the order of the collection.
    pub fn iter_script_fn_info(&self) -> (r: Vec<(FnNamespace, FnAccess, &str, usize)>)
        ensures
            r@.len() <= opt_entries(self.functions).len(),
            script_infos(r@) == script_fn_infos(opt_entries(self.functions)),
    {
        let mut out: Vec<(FnNamespace, FnAccess, &str, usize)> = Vec::new();
        let ghost all = opt_entries(self.functions);
        match &self.functions {
            Some(fs) => {
                let mut i: usize = 0;
                proof {
                    assert(all.take(0) =~= Seq::<(u64, FuncInfo)>::empty());
                    assert(script_infos(out@) =~= Seq::empty());
                }
                while i < fs.len()
                    invariant
                        i <= fs@.len(),
                        all == fs@,
                        out@.len() <= i,
                        script_infos(out@) == script_fn_infos(all.take(i as int)),
                    decreases fs.len() - i,
                {
                    let ghost before = out@;
                    proof {
                        assert(all.take(i + 1).drop_last() =~= all.take(i as int));
                    }
                    if fs[i].1.func.is_script() {
                        let m = &fs[i].1.metadata;
                        let item = (m.namespace, m.access, m.name.as_str(), m.num_params);
                        out.push(item);
                        proof {
                            assert(script_infos(out@) =~= script_infos(before).push((m.namespace, m.access, m.name@, m.num_params)));
                        }
                    }
                    i += 1;
                }
                proof {
                    assert(all.take(fs@.len() as int) =~= all);
                }
            },
            None => {
                proof {
                    assert(script_infos(out@) =~= Seq::empty());
                }
            },
        }
        out
    }
}


/// Enter the variables, functions and type iterators of a module and of all modules below
/// it into an index, under hashes qualified by `path` (the names of the enclosing modules).
/// Returns whether any function exposed to the global namespace was found.
fn index_module(
    module: &Module,
    path: &mut Vec<String>,
    variables: &mut Vec<(u64, Dynamic)>,
    functions: &mut Vec<(u64, CallableFunction)>,
    type_iterators: &mut Vec<(String, IteratorFn)>,
) -> (r: (bool, Ghost<Seq<(u64, Dynamic)>>, Ghost<Seq<(u64, CallableFunction)>>))
    requires
        hashes_unique(old(variables)@),
        hashes_unique(old(functions)@),
        key_sorted(old(type_iterators)@),
    ensures
        r.0 == tree_has_global(*module),
        puts_made(old(variables)@, final(variables)@, r.1@),
        hashed_values(r.1@) == tree_var_values(*module),
        puts_made(old(functions)@, final(functions)@, r.2@),
        puts_of_items(r.2@, tree_fn_items(*module)),
        final(path)@ == old(path)@,
        hashes_unique(final(variables)@),
        hashes_unique(final(functions)@),
        key_sorted(final(type_iterators)@),
        forall|h: u64| has_hash(old(variables)@, h) ==> #[trigger] has_hash(final(variables)@, h),
        forall|h: u64| has_hash(old(functions)@, h) ==> #[trigger] has_hash(final(functions)@, h),
        (final(variables)@.len() > 0) == (old(variables)@.len() > 0 || tree_has_var(*module)),
        (final(functions)@.len() > 0) == (old(functions)@.len() > 0 || tree_has_indexed_fn(*module)),
        forall|h: u64| #[trigger] tree_has_global_hash(*module, h) ==> has_hash(final(functions)@, h),
        forall|k: Seq<char>| #[trigger] has_key(final(type_iterators)@, k) == (has_key(old(type_iterators)@, k) || tree_has_iter(*module, k)),
        forall|x: int| 0 <= x < final(variables)@.len() ==> indexed_value_in(old(variables)@, #[trigger] final(variables)@[x].1@)
            || tree_var_value(*module, final(variables)@[x].1@),
        forall|x: int| 0 <= x < final(functions)@.len() ==> indexed_fn_in(old(functions)@, #[trigger] final(functions)@[x].1)
            || tree_fn(*module, final(functions)@[x].1),
        forall|x: int| 0 <= x < final(type_iterators)@.len() ==> iter_in(old(type_iterators)@, (#[trigger] final(type_iterators)@[x]).0@, final(type_iterators)@[x].1)
            || tree_iter_fn(*module, final(type_iterators)@[x].0@, final(type_iterators)@[x].1),
    decreases module,
{
    let ghost p0 = path@;
    let ghost v0 = variables@;
    let ghost f0 = functions@;
    let ghost t0 = type_iterators@;
    let ghost subs = module.modules@;
    let ghost mut vt: Seq<(u64, Dynamic)> = Seq::empty();
    let ghost mut ft: Seq<(u64, CallableFunction)> = Seq::empty();
    let mut contains = false;
    let mut i: usize = 0;
    proof {
        assert(subs.take(0) =~= Seq::<(String, Rc<Module>)>::empty());
        assert(hashed_values(vt) =~= Seq::<DynV>::empty());
    }
    while i < module.modules.len()
        invariant
            i <= module.modules@.len(),
            subs == module.modules@,
            path@ == p0,
            puts_made(v0, variables@, vt),
            hashed_values(vt) == subs_var_values(subs.take(i as int)),
            puts_made(f0, functions@, ft),
            puts_of_items(ft, subs_fn_items(subs.take(i as int))),
            hashes_unique(variables@),
            hashes_unique(functions@),
            key_sorted(type_iterators@),
            forall|h: u64| has_hash(v0, h) ==> #[trigger] has_hash(variables@, h),
            forall|h: u64| has_hash(f0, h) ==> #[trigger] has_hash(functions@, h),
            (variables@.len() > 0) == (v0.len() > 0 || subs_var(subs.take(i as int))),
            (functions@.len() > 0) == (f0.len() > 0 || subs_indexed_fn(subs.take(i as int))),
            forall|h: u64| #[trigger] subs_global_hash(subs.take(i as int), h) ==> has_hash(functions@, h),
            forall|k: Seq<char>| #[trigger] has_key(type_iterators@, k) == (has_key(t0, k) || subs_iter(subs.take(i as int), k)),
            contains == subs_global(subs.take(i as int)),
            forall|x: int| 0 <= x < variables@.len() ==> var_prov(v0, subs.take(i as int), #[trigger] variables@[x].1@),
            forall|x: int| 0 <= x < functions@.len() ==> fn_prov(f0, subs.take(i as int), #[trigger] functions@[x].1),
            forall|x: int| 0 <= x < type_iterators@.len() ==> iter_prov(t0, subs.take(i as int), (#[trigger] type_iterators@[x]).0@, type_iterators@[x].1),
        decreases module.modules.len() - i,
    {
        let ghost vb = variables@;
        let ghost fb = functions@;
        let ghost tb = type_iterators@;
        path.push(module.modules[i].0.clone());
        proof {
            assert(decreases_to!(*module => *module.modules@[i as int].1));
        }
        let sub: &Module = &*module.modules[i].1;
        let (found, gvt, gft) = index_module(sub, path, variables, functions, type_iterators);
        let _ = path.pop();
        proof {
            assert(path@ =~= p0);
            let n = i as int;
            let m = *subs[n].1;
            assert(subs.take(n + 1).drop_last() =~= subs.take(n));
            assert(subs.take(n + 1).last() == subs[n]);
            lemma_puts_made_append(v0, vb, variables@, vt, gvt@);
            lemma_puts_made_append(f0, fb, functions@, ft, gft@);
            assert(hashed_values(vt + gvt@) =~= hashed_values(vt) + hashed_values(gvt@));
            assert(subs_var_values(subs.take(n + 1)) == subs_var_values(subs.take(n)) + tree_var_values(m));
            assert(subs_fn_items(subs.take(n + 1)) == subs_fn_items(subs.take(n)) + tree_fn_items(m));
            lemma_puts_of_items_append(ft, subs_fn_items(subs.take(n)), gft@, tree_fn_items(m));
            vt = vt + gvt@;
            ft = ft + gft@;
            assert(subs.take(0) =~= Seq::<(String, Rc<Module>)>::empty());
            assert(subs_var(subs.take(n + 1)) == (subs_var(subs.take(n)) || tree_has_var(m)));
            assert(subs_indexed_fn(subs.take(n + 1)) == (subs_indexed_fn(subs.take(n)) || tree_has_indexed_fn(m)));
            assert(subs_global(subs.take(n + 1)) == (subs_global(subs.take(n)) || tree_has_global(m)));
            assert forall|h: u64| #[trigger] subs_global_hash(subs.take(n + 1), h) implies has_hash(functions@, h) by {
                assert(subs_global_hash(subs.take(n + 1), h) == (subs_global_hash(subs.take(n), h) || tree_has_global_hash(m, h)));
                if !tree_has_global_hash(m, h) {
                    assert(has_hash(fb, h));
                }
            }
            assert forall|k: Seq<char>| #[trigger] has_key(type_iterators@, k) == (has_key(t0, k) || subs_iter(subs.take(n + 1), k)) by {
                assert(subs_iter(subs.take(n + 1), k) == (subs_iter(subs.take(n), k) || tree_has_iter(m, k)));
                assert(has_key(tb, k) == (has_key(t0, k) || subs_iter(subs.take(n), k)));
            }
            assert forall|h: u64| has_hash(v0, h) implies #[trigger] has_hash(variables@, h) by {
                assert(has_hash(vb, h));
            }
            assert forall|h: u64| has_hash(f0, h) implies #[trigger] has_hash(functions@, h) by {
                assert(has_hash(fb, h));
            }
            assert forall|x: int| 0 <= x < variables@.len() implies var_prov(v0, subs.take(n + 1), #[trigger] variables@[x].1@) by {
                let y = variables@[x].1@;
                assert(subs_var_value(subs.take(n + 1), y) == (subs_var_value(subs.take(n), y) || tree_var_value(m, y)));
                if indexed_value_in(vb, y) {
                    let j = choose|j: int| 0 <= j < vb.len() && #[trigger] vb[j].1@ == y;
                    assert(var_prov(v0, subs.take(n), vb[j].1@));
                }
            }
            assert forall|x: int| 0 <= x < functions@.len() implies fn_prov(f0, subs.take(n + 1), #[trigger] functions@[x].1) by {
                let y = functions@[x].1;
                assert(subs_fn(subs.take(n + 1), y) == (subs_fn(subs.take(n), y) || tree_fn(m, y)));
                if indexed_fn_in(fb, y) {
                    let j = choose|j: int| 0 <= j < fb.len() && #[trigger] fb[j].1 == y;
                    assert(fn_prov(f0, subs.take(n), fb[j].1));
                }
            }
            assert forall|x: int| 0 <= x < type_iterators@.len() implies iter_prov(t0, subs.take(n + 1), (#[trigger] type_iterators@[x]).0@, type_iterators@[x].1) by {
                let k = type_iterators@[x].0@;
                let y = type_iterators@[x].1;
                assert(subs_iter_fn(subs.take(n + 1), k, y) == (subs_iter_fn(subs.take(n), k, y) || tree_iter_fn(m, k, y)));
                if iter_in(tb, k, y) {
                    let j = choose|j: int| 0 <= j < tb.len() && #[trigger] tb[j].0@ == k && tb[j].1 == y;
                    assert(iter_prov(t0, subs.take(n), tb[j].0@, tb[j].1));
                }
            }
        }
        contains = contains || found;
        i += 1;
    }
    proof {
        assert(subs.take(subs.len() as int) =~= subs);
    }
    let ghost v1 = variables@;
    let ghost f1 = functions@;
    let ghost t1 = type_iterators@;
    let ghost vars = module.variables@;
    let mut i: usize = 0;
    proof {
        assert(vars_values(vars.take(0)) + Seq::<DynV>::empty() =~= Seq::<DynV>::empty());
        assert(subs_var_values(subs) + vars_values(vars.take(0)) =~= subs_var_values(subs));
    }
    while i < module.variables.len()
        invariant
            i <= module.variables@.len(),
            vars == module.variables@,
            path@ == p0,
            hashes_unique(variables@),
            puts_made(v0, variables@, vt),
            hashed_values(vt) == subs_var_values(subs) + vars_values(vars.take(i as int)),
            forall|x: int| 0 <= x < variables@.len() ==> var_prov(v0, subs, #[trigger] variables@[x].1@)
                || var_value_in(vars, variables@[x].1@),
            forall|h: u64| has_hash(v1, h) ==> #[trigger] has_hash(variables@, h),
            (variables@.len() > 0) == (v1.len() > 0 || i > 0),
        decreases module.variables.len() - i,
    {
        let ghost vb = variables@;
        let hash_var = calc_var_hash(path, module.variables[i].0.as_str());
        let copy = module.variables[i].1.deep_clone();
        let ghost c = copy;
        put_hash_entry(variables, hash_var, copy);
        proof {
            lemma_puts_made_one(vb, variables@, hash_var, c);
            lemma_puts_made_append(v0, vb, variables@, vt, seq![(hash_var, c)]);
            assert(hashed_values(vt + seq![(hash_var, c)]) =~= hashed_values(vt).push(c@));
            assert(vars_values(vars.take(i + 1)) =~= vars_values(vars.take(i as int)).push(vars[i as int].1@));
            assert(subs_var_values(subs) + vars_values(vars.take(i + 1)) =~= (subs_var_values(subs) + vars_values(vars.take(i as int))).push(c@));
            vt = vt + seq![(hash_var, c)];
            crate::keyed::lemma_put_hash_entries(vb, hash_var, c);
            assert forall|x: int| 0 <= x < variables@.len() implies var_prov(v0, subs, #[trigger] variables@[x].1@)
                || var_value_in(vars, variables@[x].1@) by {
                let y = variables@[x].1@;
                if variables@[x] == (hash_var, c) {
                    assert(vars[i as int].1@ == y);
                } else {
                    let j = choose|j: int| 0 <= j < vb.len() && vb[j] == variables@[x];
                    assert(var_prov(v0, subs, vb[j].1@) || var_value_in(vars, vb[j].1@));
                }
            }
            assert forall|h: u64| has_hash(v1, h) implies #[trigger] has_hash(variables@, h) by {
                assert(has_hash(vb, h));
                if h != hash_var {
                    assert(has_hash(variables@, h) <==> has_hash(vb, h));
                }
            }
            assert(has_hash(variables@, hash_var));
        }
        i += 1;
    }
    let ghost iters = module.type_iterators@;
    let mut i: usize = 0;
    while i < module.type_iterators.len()
        invariant
            i <= module.type_iterators@.len(),
            iters == module.type_iterators@,
            key_sorted(type_iterators@),
            forall|k: Seq<char>| #[trigger] has_key(type_iterators@, k) == (has_key(t1, k) || some_key(iters, i as int, k)),
            forall|x: int| 0 <= x < type_iterators@.len() ==> iter_prov(t0, subs, (#[trigger] type_iterators@[x]).0@, type_iterators@[x].1)
                || iter_in(iters, type_iterators@[x].0@, type_iterators@[x].1),
        decreases module.type_iterators.len() - i,
    {
        let ghost tb = type_iterators@;
        let key = module.type_iterators[i].0.clone();
        let f = clone_iter_fn(&module.type_iterators[i].1);
        let ghost kv = key@;
        let ghost kk = key;
        let ghost ff = f;
        put(type_iterators, key, f);
        proof {
            crate::keyed::lemma_put_key_entries(tb, kk, ff);
            assert forall|x: int| 0 <= x < type_iterators@.len() implies iter_prov(t0, subs, (#[trigger] type_iterators@[x]).0@, type_iterators@[x].1)
                || iter_in(iters, type_iterators@[x].0@, type_iterators@[x].1) by {
                if type_iterators@[x] == (kk, ff) {
                    assert(iters[i as int].0@ == kv && iters[i as int].1 == ff);
                } else {
                    let j = choose|j: int| 0 <= j < tb.len() && tb[j] == type_iterators@[x];
                    assert(iter_prov(t0, subs, tb[j].0@, tb[j].1) || iter_in(iters, tb[j].0@, tb[j].1));
                }
            }
            assert forall|k: Seq<char>| #[trigger] has_key(type_iterators@, k) == (has_key(t1, k) || some_key(iters, i + 1, k)) by {
                if k == kv {
                    assert(iters[i as int].0@ == k);
                } else {
                    assert(has_key(type_iterators@, k) == has_key(tb, k));
                    if some_key(iters, i + 1, k) {
                        let j = choose|j: int| 0 <= j < i + 1 && #[trigger] iters[j].0@ == k;
                        assert(j < i);
                    }
                }
            }
        }
        i += 1;
    }
    proof {
        assert forall|k: Seq<char>| some_key(iters, iters.len() as int, k) == #[trigger] has_key(iters, k) by {
            if has_key(iters, k) {
                let j = choose|j: int| 0 <= j < iters.len() && #[trigger] iters[j].0@ == k;
                assert(iters[j].0@ == k);
            }
        }
    }
    let ghost f2 = functions@;
    let ghost fs = opt_entries(module.functions);
    let ghost c1 = contains;
    proof {
        assert(fs.take(0) =~= Seq::<(u64, FuncInfo)>::empty());
        assert(subs_fn_items(subs) + fn_items(fs.take(0)) =~= subs_fn_items(subs));
        assert(subs.take(subs.len() as int) =~= subs);
    }
    match &module.functions {
        Some(entries) => {
            let mut i: usize = 0;
            while i < entries.len()
                invariant
                    i <= entries@.len(),
                    fs == entries@,
                    path@ == p0,
                    hashes_unique(functions@),
                    puts_made(f0, functions@, ft),
                    puts_of_items(ft, subs_fn_items(subs) + fn_items(fs.take(i as int))),
                    forall|h: u64| has_hash(f2, h) ==> #[trigger] has_hash(functions@, h),
                    (functions@.len() > 0) == (f2.len() > 0 || some_indexed(fs, i as int)),
                    forall|h: u64| #[trigger] some_global_hash(fs, i as int, h) ==> has_hash(functions@, h),
                    contains == (c1 || some_global(fs, i as int)),
                    forall|x: int| 0 <= x < functions@.len() ==> fn_prov(f0, subs, #[trigger] functions@[x].1)
                        || fn_in(fs, functions@[x].1),
                decreases entries.len() - i,
            {
                let ghost fb = functions@;
                let ghost items0 = subs_fn_items(subs) + fn_items(fs.take(i as int));
                let ghost e = fs[i as int];
                let ghost g_items = if fn_is_global(e.1) {
                    seq![(Some(e.0), e.1.func)]
                } else {
                    Seq::empty()
                };
                let ghost p_items = if e.1.metadata.access == FnAccess::Public {
                    seq![(None::<u64>, e.1.func)]
                } else {
                    Seq::empty()
                };
                let h = entries[i].0;
                let info = &entries[i].1;
                if info.metadata.namespace == FnNamespace::Global {
                    let copy = info.func.clone_fn();
                    let ghost cp = copy;
                    put_hash_entry(functions, h, copy);
                    contains = true;
                    proof {
                        lemma_puts_made_one(fb, functions@, h, cp);
                        lemma_puts_made_append(f0, fb, functions@, ft, seq![(h, cp)]);
                        lemma_puts_of_items_append(ft, items0, seq![(h, cp)], g_items);
                        ft = ft + seq![(h, cp)];
                        crate::keyed::lemma_put_hash_entries(fb, h, cp);
                        assert forall|x: int| 0 <= x < functions@.len() implies fn_prov(f0, subs, #[trigger] functions@[x].1)
                            || fn_in(fs, functions@[x].1) by {
                            if functions@[x] == (h, cp) {
                                assert(fs[i as int].1.func == cp);
                            } else {
                                let j = choose|j: int| 0 <= j < fb.len() && fb[j] == functions@[x];
                                assert(fn_prov(f0, subs, fb[j].1) || fn_in(fs, fb[j].1));
                            }
                        }
                    }
                }
                let ghost fm = functions@;
                match info.metadata.access {
                    FnAccess::Public => {
                        let hash = if info.func.is_script() {
                            crate::hashing::calc_fn_hash(path, info.metadata.name.as_str(), info.metadata.num_params)
                        } else {
                            calc_native_fn_hash(path, info.metadata.name.as_str(), &info.metadata.param_types)
                        };
                        let copy = info.func.clone_fn();
                        let ghost cp = copy;
                        put_hash_entry(functions, hash, copy);
                        proof {
                            if !fn_is_global(e.1) {
                                assert(items0 + g_items =~= items0);
                            }
                            lemma_puts_made_one(fm, functions@, hash, cp);
                            lemma_puts_made_append(f0, fm, functions@, ft, seq![(hash, cp)]);
                            lemma_puts_of_items_append(ft, items0 + g_items, seq![(hash, cp)], p_items);
                            ft = ft + seq![(hash, cp)];
                            crate::keyed::lemma_put_hash_entries(fm, hash, cp);
                            assert forall|x: int| 0 <= x < functions@.len() implies fn_prov(f0, subs, #[trigger] functions@[x].1)
                                || fn_in(fs, functions@[x].1) by {
                                if functions@[x] == (hash, cp) {
                                    assert(fs[i as int].1.func == cp);
                                } else {
                                    let j = choose|j: int| 0 <= j < fm.len() && fm[j] == functions@[x];
                                    assert(fn_prov(f0, subs, fm[j].1) || fn_in(fs, fm[j].1));
                                }
                            }
                            assert(has_hash(functions@, hash));
                            assert forall|o: u64| has_hash(fm, o) implies #[trigger] has_hash(functions@, o) by {
                                if o != hash {
                                    assert(has_hash(functions@, o) <==> has_hash(fm, o));
                                }
                            }
                        }
                    },
                    FnAccess::Private => {},
                }
                proof {
                    let n = i as int;
                    assert(fs.take(n + 1).drop_last() =~= fs.take(n));
                    assert(fs.take(n + 1).last() == fs[n]);
                    assert(fn_items(fs.take(n + 1)) == fn_items(fs.take(n)) + g_items + p_items);
                    assert(subs_fn_items(subs) + fn_items(fs.take(n + 1)) =~= items0 + g_items + p_items);
                    if !fn_is_global(e.1) {
                        assert(items0 + g_items =~= items0);
                    }
                    if e.1.metadata.access != FnAccess::Public {
                        assert(items0 + g_items + p_items =~= items0 + g_items);
                    }
                    if fn_is_global(fs[n].1) {
                        assert(has_hash(fm, h));
                        assert forall|o: u64| has_hash(fb, o) implies #[trigger] has_hash(fm, o) by {
                            if o != h {
                                assert(has_hash(fm, o) <==> has_hash(fb, o));
                            }
                        }
                    } else {
                        assert(fm == fb);
                    }
                    assert forall|o: u64| has_hash(fm, o) implies #[trigger] has_hash(functions@, o) by {}
                    assert(some_global(fs, n + 1) == (some_global(fs, n) || fn_is_global(fs[n].1)));
                    assert(some_indexed(fs, n + 1) == (some_indexed(fs, n) || fn_is_indexed(fs[n].1)));
                    if fn_is_indexed(fs[n].1) {
                        assert(functions@.len() > 0);
                    }
                    assert forall|o: u64| #[trigger] some_global_hash(fs, n + 1, o) implies has_hash(functions@, o) by {
                        if !(fs[n].0 == o && fn_is_global(fs[n].1)) {
                            assert(some_global_hash(fs, n, o));
                            assert(has_hash(fb, o));
                        }
                    }
                }
                i += 1;
            }
        },
        None => {},
    }
    proof {
        let m = *module;
        assert(subs.take(subs.len() as int) =~= subs);
        assert(fs == opt_entries(m.functions));
        assert(vars.take(vars.len() as int) =~= vars);
        assert(fs.take(fs.len() as int) =~= fs);
        if fs.len() == 0 {
            assert(subs_fn_items(subs) + fn_items(fs) =~= subs_fn_items(subs));
        }
        assert(tree_var_values(m) == subs_var_values(subs) + vars_values(vars));
        assert(tree_fn_items(m) == subs_fn_items(subs) + fn_items(fs));
        assert forall|h: u64| #[trigger] tree_has_global_hash(m, h) implies has_hash(functions@, h) by {
            if some_global_hash(fs, fs.len() as int, h) {
            } else {
                assert(subs_global_hash(subs, h));
                assert(has_hash(f1, h));
                assert(has_hash(f2, h));
            }
        }
        assert forall|k: Seq<char>| #[trigger] has_key(type_iterators@, k) == (has_key(t0, k) || tree_has_iter(m, k)) by {
        }
        assert forall|h: u64| has_hash(v0, h) implies #[trigger] has_hash(variables@, h) by {
            assert(has_hash(v1, h));
        }
        assert forall|h: u64| has_hash(f0, h) implies #[trigger] has_hash(functions@, h) by {
            assert(has_hash(f1, h));
            assert(has_hash(f2, h));
        }
        assert forall|x: int| 0 <= x < variables@.len() implies indexed_value_in(v0, #[trigger] variables@[x].1@)
            || tree_var_value(m, variables@[x].1@) by {
            assert(var_prov(v0, subs, variables@[x].1@) || var_value_in(vars, variables@[x].1@));
        }
        assert forall|x: int| 0 <= x < functions@.len() implies indexed_fn_in(f0, #[trigger] functions@[x].1)
            || tree_fn(m, functions@[x].1) by {
            assert(fn_prov(f0, subs, functions@[x].1) || fn_in(fs, functions@[x].1));
        }
        assert forall|x: int| 0 <= x < type_iterators@.len() implies iter_in(t0, (#[trigger] type_iterators@[x]).0@, type_iterators@[x].1)
            || tree_iter_fn(m, type_iterators@[x].0@, type_iterators@[x].1) by {
            assert(iter_prov(t0, subs, type_iterators@[x].0@, type_iterators@[x].1) || iter_in(iters, type_iterators@[x].0@, type_iterators@[x].1));
        }
    }
    (contains, Ghost(vt), Ghost(ft))
}

impl Module {
    /// Build the index of all variables, functions and type iterators of the module and of
    /// all modules below it, as one flattened namespace. An indexed module is left as it is.
    pub fn build_index(&mut self)
        requires
            old(self).wf(),
        ensures
            final(self).wf(),
            index_built(*old(self), *final(self)),
    {
        if !self.flags.indexed {
            let mut path: Vec<String> = Vec::new();
            path.push(String::new());
            let mut variables: Vec<(u64, Dynamic)> = Vec::new();
            let mut functions: Vec<(u64, CallableFunction)> = Vec::new();
            let mut type_iterators: Vec<(String, IteratorFn)> = Vec::new();
            let (has_global, vt, ft) = index_module(self, &mut path, &mut variables, &mut functions, &mut type_iterators);
            proof {
                if variables@.len() == 0 {
                    assert(variables@ =~= Seq::<(u64, Dynamic)>::empty());
                }
                if functions@.len() == 0 {
                    assert(functions@ =~= Seq::<(u64, CallableFunction)>::empty());
                }
                assert(indexed_from_tree(*old(self), opt_entries(if variables@.len() > 0 { Some(variables) } else { None }), opt_entries(if functions@.len() > 0 { Some(functions) } else { None }))) by {
                    assert(puts_made(Seq::<(u64, Dynamic)>::empty(), variables@, vt@));
                }
            }
            self.flags.indexed_global_functions = has_global;
            self.all_variables = if variables.len() > 0 {
                Some(variables)
            } else {
                None
            };
            self.all_functions = if functions.len() > 0 {
                Some(functions)
            } else {
                None
            };
            self.all_type_iterators = type_iterators;
            self.flags.indexed = true;
        }
    }
}

/// Extending functions filed under their hashes by others filed so keeps them filed so.
proof fn lemma_extended_filed(a: Seq<(u64, FuncInfo)>, b: Seq<(u64, FuncInfo)>, c: Seq<(u64, FuncInfo)>)
    requires
        hashes_unique(a),
        hashes_unique(b),
        hashes_unique(c),
        filed_by_hash(a),
        filed_by_hash(b),
        extended_hashes(a, b, c),
    ensures
        filed_by_hash(c),
{
    assert forall|i: int| 0 <= i < c.len() implies (#[trigger] c[i]).0 == c[i].1.metadata.hash by {
        let h = c[i].0;
        crate::keyed::lemma_hash_unique(c, i);
        assert(lookup_hash(c, h) == Some(c[i].1));
        if lookup_hash(b, h) is Some {
            let j = index_of_hash(b, h);
            assert(b[j].0 == h);
        } else {
            assert(lookup_hash(a, h) is Some);
            let j = index_of_hash(a, h);
            assert(a[j].0 == h);
        }
    }
}

/// Append documentation to `doc`, after a line break where `doc` is not empty.
fn join_doc(doc: &mut String, other: &str)
    ensures
        final(doc)@ == joined_doc(old(doc)@, other@),
{
    if str_chars(doc.as_str()).len() > 0 {
        crate::text::string_push(doc, '\n');
    }
    doc.append(other);
}

impl Module {
    /// Combine another module into this one, consuming it: its sub-modules, variables, type
    /// iterators and (where this module has functions) functions replace those of the same
    /// names or hashes; where this module has no functions, it takes the other's. The index
    /// is dropped, and the other's documentation is appended.
    pub fn combine(&mut self, other: Module)
        requires
            old(self).wf(),
            other.wf(),
        ensures
            final(self).wf(),
            extended(old(self).modules@, other.modules@, final(self).modules@),
            extended(old(self).variables@, other.variables@, final(self).variables@),
            extended(old(self).type_iterators@, other.type_iterators@, final(self).type_iterators@),
            match (old(self).functions, other.functions) {
                (Some(a), Some(b)) => final(self).functions matches Some(c) && extended_hashes(a@, b@, c@),
                (Some(_), None) => final(self).functions == old(self).functions,
                (None, _) => final(self).functions == other.functions,
            },
            final(self).all_variables is None,
            final(self).all_functions is None,
            final(self).all_type_iterators@.len() == 0,
            final(self).flags == unindexed(old(self).flags),
            final(self).id == old(self).id,
            final(self).custom_types == old(self).custom_types,
            final(self).doc@ == joined_doc(old(self).doc@, other.doc@),
    {
        let Module {
            id: _,
            doc: other_doc,
            custom_types: _,
            modules: other_modules,
            variables: other_variables,
            all_variables: _,
            functions: other_functions,
            all_functions: _,
            type_iterators: other_iters,
            all_type_iterators: _,
            flags: _,
        } = other;
        extend_keys(&mut self.modules, other_modules);
        extend_keys(&mut self.variables, other_variables);
        let ghost a0 = self.functions;
        match self.functions.take() {
            Some(mut m) => {
                match other_functions {
                    Some(o) => {
                        let ghost av = m@;
                        let ghost bv = o@;
                        extend_hashes(&mut m, o);
                        proof {
                            lemma_extended_filed(av, bv, m@);
                        }
                        self.functions = Some(m);
                    },
                    None => {
                        self.functions = Some(m);
                    },
                }
            },
            None => {
                self.functions = other_functions;
            },
        }
        extend_keys(&mut self.type_iterators, other_iters);
        self.all_functions = None;
        self.all_variables = None;
        self.all_type_iterators = Vec::new();
        self.flags.indexed = false;
        self.flags.indexed_global_functions = false;
        join_doc(&mut self.doc, other_doc.as_str());
    }
}

impl FuncInfo {
    /// A copy of the function information.
    pub fn clone_info(&self) -> (r: FuncInfo)
        ensures
            info_copy(r, *self),
    {
        let m = &self.metadata;
        let this_type = match &m.this_type {
            Some(t) => Some(t.clone()),
            None => None,
        };
        let pt = clone_strings(&m.param_types);
        let pi = clone_strings(&m.params_info);
        let cm = clone_strings(&m.comments);
        proof {
            assert(texts(pt@) =~= texts(m.param_types@));
            assert(texts(pi@) =~= texts(m.params_info@));
            assert(texts(cm@) =~= texts(m.comments@));
        }
        FuncInfo {
            func: self.func.clone_fn(),
            metadata: Box::new(FuncInfoMetadata {
                hash: m.hash,
                namespace: m.namespace,
                access: m.access,
                name: m.name.clone(),
                this_type,
                num_params: m.num_params,
                param_types: pt,
                params_info: pi,
                return_type: m.return_type.clone(),
                comments: cm,
            }),
        }
    }
}

/// Fill sub-modules with those of `other` not yet present (shared, not copied).
fn fill_modules(v: &mut Vec<(String, Rc<Module>)>, other: &Vec<(String, Rc<Module>)>)
    requires
        key_sorted(old(v)@),
        key_sorted(other@),
    ensures
        key_sorted(final(v)@),
        filled(old(v)@, other@, final(v)@),
{
    let ghost a = v@;
    let ghost b = other@;
    let mut i: usize = 0;
    proof {
        assert forall|k: Seq<char>| #[trigger] lookup(b.take(0), k) is None by {
            assert(!has_key(b.take(0), k));
        }
    }
    while i < other.len()
        invariant
            i <= b.len(),
            b == other@,
            key_sorted(b),
            key_sorted(v@),
            filled(a, b.take(i as int), v@),
        decreases other.len() - i,
    {
        let ghost before = v@;
        let ghost n = i as int;
        if !contains_key(v, other[i].0.as_str()) {
            let key = other[i].0.clone();
            let m = share(&other[i].1);
            let ghost kv = key@;
            let ghost mv = m;
            put(v, key, m);
            proof {
                assert forall|k: Seq<char>| #[trigger] lookup(v@, k) == if lookup(a, k) is Some {
                    lookup(a, k)
                } else {
                    lookup(b.take(n + 1), k)
                } by {
                    lemma_lookup_is_put(before, v@, kv, mv, k);
                    lemma_lookup_take_push(b, n, k);
                    if k == kv {
                        assert(!has_key(before, k));
                    }
                }
            }
        } else {
            proof {
                assert forall|k: Seq<char>| #[trigger] lookup(v@, k) == if lookup(a, k) is Some {
                    lookup(a, k)
                } else {
                    lookup(b.take(n + 1), k)
                } by {
                    lemma_lookup_take_push(b, n, k);
                    if k == b[n].0@ {
                        assert(lookup(before, k) is Some);
                        if has_key(b.take(n), k) {
                            let j = index_of_key(b.take(n), k);
                            assert(b.take(n)[j] == b[j]);
                            crate::keyed::lemma_key_unique(b, n);
                            crate::keyed::lemma_key_unique(b, j);
                        }
                    }
                }
            }
        }
        i += 1;
    }
    proof {
        assert(b.take(b.len() as int) =~= b);
    }
}

/// Fill type iterators with those of `other` not yet present.
fn fill_iters(v: &mut Vec<(String, IteratorFn)>, other: &Vec<(String, IteratorFn)>)
    requires
        key_sorted(old(v)@),
        key_sorted(other@),
    ensures
        key_sorted(final(v)@),
        filled(old(v)@, other@, final(v)@),
{
    let ghost a = v@;
    let ghost b = other@;
    let mut i: usize = 0;
    proof {
        assert forall|k: Seq<char>| #[trigger] lookup(b.take(0), k) is None by {
            assert(!has_key(b.take(0), k));
        }
    }
    while i < other.len()
        invariant
            i <= b.len(),
            b == other@,
            key_sorted(b),
            key_sorted(v@),
            filled(a, b.take(i as int), v@),
        decreases other.len() - i,
    {
        let ghost before = v@;
        let ghost n = i as int;
        if !contains_key(v, other[i].0.as_str()) {
            let key = other[i].0.clone();
            let f = clone_iter_fn(&other[i].1);
            let ghost kv = key@;
            let ghost fv = f;
            put(v, key, f);
            proof {
                assert forall|k: Seq<char>| #[trigger] lookup(v@, k) == if lookup(a, k) is Some {
                    lookup(a, k)
                } else {
                    lookup(b.take(n + 1), k)
                } by {
                    lemma_lookup_is_put(before, v@, kv, fv, k);
                    lemma_lookup_take_push(b, n, k);
                    if k == kv {
                        assert(!has_key(before, k));
                    }
                }
            }
        } else {
            proof {
                assert forall|k: Seq<char>| #[trigger] lookup(v@, k) == if lookup(a, k) is Some {
                    lookup(a, k)
                } else {
                    lookup(b.take(n + 1), k)
                } by {
                    lemma_lookup_take_push(b, n, k);
                    if k == b[n].0@ {
                        assert(lookup(before, k) is Some);
                        if has_key(b.take(n), k) {
                            let j = index_of_key(b.take(n), k);
                            assert(b.take(n)[j] == b[j]);
                            crate::keyed::lemma_key_unique(b, n);
                            crate::keyed::lemma_key_unique(b, j);
                        }
                    }
                }
            }
        }
        i += 1;
    }
    proof {
        assert(b.take(b.len() as int) =~= b);
    }
}

/// Fill variables with copies of those of `other` not yet present.
fn fill_vars(v: &mut Vec<(String, Dynamic)>, other: &Vec<(String, Dynamic)>)
    requires
        key_sorted(old(v)@),
        key_sorted(other@),
    ensures
        key_sorted(final(v)@),
        filled_vars(old(v)@, other@, final(v)@),
{
    let ghost a = v@;
    let ghost b = other@;
    let mut i: usize = 0;
    proof {
        assert forall|k: Seq<char>| #[trigger] lookup(b.take(0), k) is None by {
            assert(!has_key(b.take(0), k));
        }
        assert(filled_vars(a, b.take(0), v@));
    }
    while i < other.len()
        invariant
            i <= b.len(),
            b == other@,
            key_sorted(b),
            key_sorted(v@),
            filled_vars(a, b.take(i as int), v@),
        decreases other.len() - i,
    {
        let ghost before = v@;
        let ghost n = i as int;
        if !contains_key(v, other[i].0.as_str()) {
            let key = other[i].0.clone();
            let d = other[i].1.deep_clone();
            let ghost kv = key@;
            let ghost dv = d;
            put(v, key, d);
            proof {
                assert forall|k: Seq<char>| #![trigger lookup(v@, k)] {
                    &&& (lookup(v@, k) is Some) == (lookup(a, k) is Some || lookup(b.take(n + 1), k) is Some)
                    &&& lookup(a, k) is Some ==> lookup(v@, k) == lookup(a, k)
                    &&& lookup(a, k) is None && lookup(b.take(n + 1), k) is Some ==> lookup(v@, k)->0@ == lookup(b.take(n + 1), k)->0@
                } by {
                    lemma_lookup_is_put(before, v@, kv, dv, k);
                    lemma_lookup_take_push(b, n, k);
                    assert(lookup(before, k) == lookup(before, k));
                    if k == kv {
                        assert(!has_key(before, k));
                    }
                }
            }
        } else {
            proof {
                assert forall|k: Seq<char>| #![trigger lookup(v@, k)] {
                    &&& (lookup(v@, k) is Some) == (lookup(a, k) is Some || lookup(b.take(n + 1), k) is Some)
                    &&& lookup(a, k) is Some ==> lookup(v@, k) == lookup(a, k)
                    &&& lookup(a, k) is None && lookup(b.take(n + 1), k) is Some ==> lookup(v@, k)->0@ == lookup(b.take(n + 1), k)->0@
                } by {
                    lemma_lookup_take_push(b, n, k);
                    assert(lookup(before, k) == lookup(before, k));
                    if k == b[n].0@ {
                        assert(lookup(before, k) is Some);
                        if has_key(b.take(n), k) {
                            let j = index_of_key(b.take(n), k);
                            assert(b.take(n)[j] == b[j]);
                            crate::keyed::lemma_key_unique(b, n);
                            crate::keyed::lemma_key_unique(b, j);
                        }
                    }
                }
            }
        }
        i += 1;
    }
    proof {
        assert(b.take(b.len() as int) =~= b);
    }
}

/// Fill functions with copies of those of `other` under hashes not yet present.
fn fill_fns(v: &mut Vec<(u64, FuncInfo)>, other: &Vec<(u64, FuncInfo)>)
    requires
        hashes_unique(old(v)@),
        hashes_unique(other@),
        filed_by_hash(old(v)@),
        filed_by_hash(other@),
    ensures
        hashes_unique(final(v)@),
        filed_by_hash(final(v)@),
        filled_fns(old(v)@, other@, final(v)@),
{
    let ghost a = v@;
    let ghost b = other@;
    let mut i: usize = 0;
    proof {
        assert forall|h: u64| #[trigger] lookup_hash(b.take(0), h) is None by {
            assert(!has_hash(b.take(0), h));
        }
        assert(filled_fns(a, b.take(0), v@));
    }
    while i < other.len()
        invariant
            i <= b.len(),
            b == other@,
            hashes_unique(b),
            filed_by_hash(b),
            hashes_unique(v@),
            filed_by_hash(v@),
            filled_fns(a, b.take(i as int), v@),
        decreases other.len() - i,
    {
        let ghost before = v@;
        let ghost n = i as int;
        let h = other[i].0;
        let f = other[i].1.clone_info();
        let ghost fv = f;
        put_hash_if_absent(v, h, f);
        proof {
            assert forall|o: u64| #![trigger lookup_hash(v@, o)] {
                &&& (lookup_hash(v@, o) is Some) == (lookup_hash(a, o) is Some || lookup_hash(b.take(n + 1), o) is Some)
                &&& lookup_hash(a, o) is Some ==> lookup_hash(v@, o) == lookup_hash(a, o)
                &&& lookup_hash(a, o) is None && lookup_hash(b.take(n + 1), o) is Some ==> info_copy(lookup_hash(v@, o)->0, lookup_hash(b.take(n + 1), o)->0)
            } by {
                lemma_lookup_hash_take_push(b, n, o);
                assert(lookup_hash(before, o) == lookup_hash(before, o));
                if !has_hash(before, h) {
                    crate::keyed::lemma_put_hash_is_put(before, h, fv);
                    assert(v@ == crate::keyed::put_hash(before, h, fv));
                    crate::keyed::lemma_lookup_is_put_hash(before, v@, h, fv, o);
                }
            }
            assert forall|j: int| 0 <= j < v@.len() implies (#[trigger] v@[j]).0 == v@[j].1.metadata.hash by {
                if j < before.len() {
                    assert(v@[j] == before[j]);
                } else {
                    assert(v@[j] == (h, fv));
                    assert(b[n].0 == b[n].1.metadata.hash);
                }
            }
        }
        i += 1;
    }
    proof {
        assert(b.take(b.len() as int) =~= b);
    }
}

impl Module {
    /// Fill this module with the items of another that it lacks: sub-modules (shared),
    /// variables, functions and type iterators (copied) under names or hashes not yet
    /// present. The index is dropped, and the other's documentation is appended.
    pub fn fill_with(&mut self, other: &Module)
        requires
            old(self).wf(),
            other.wf(),
        ensures
            final(self).wf(),
            filled(old(self).modules@, other.modules@, final(self).modules@),
            filled_vars(old(self).variables@, other.variables@, final(self).variables@),
            filled(old(self).type_iterators@, other.type_iterators@, final(self).type_iterators@),
            opt_entries(other.functions).len() == 0 ==> final(self).functions == old(self).functions,
            opt_entries(other.functions).len() > 0 ==> (final(self).functions matches Some(c)
                && filled_fns(opt_entries(old(self).functions), opt_entries(other.functions), c@)),
            final(self).all_variables is None,
            final(self).all_functions is None,
            final(self).all_type_iterators@.len() == 0,
            final(self).flags == unindexed(old(self).flags),
            final(self).id == old(self).id,
            final(self).custom_types == old(self).custom_types,
            final(self).doc@ == joined_doc(old(self).doc@, other.doc@),
    {
        fill_modules(&mut self.modules, &other.modules);
        fill_vars(&mut self.variables, &other.variables);
        match &other.functions {
            Some(fs) => {
                if fs.len() > 0 {
                    let mut m = match self.functions.take() {
                        Some(m) => m,
                        None => Vec::new(),
                    };
                    fill_fns(&mut m, fs);
                    self.functions = Some(m);
                }
            },
            None => {},
        }
        fill_iters(&mut self.type_iterators, &other.type_iterators);
        self.all_functions = None;
        self.all_variables = None;
        self.all_type_iterators = Vec::new();
        self.flags.indexed = false;
        self.flags.indexed_global_functions = false;
        join_doc(&mut self.doc, other.doc.as_str());
    }
}

/// Override variables with copies of those of `other`.
fn merge_vars(v: &mut Vec<(String, Dynamic)>, other: &Vec<(String, Dynamic)>)
    requires
        key_sorted(old(v)@),
        key_sorted(other@),
    ensures
        key_sorted(final(v)@),
        overridden_vars(old(v)@, other@, final(v)@),
{
    let ghost a = v@;
    let ghost b = other@;
    let mut i: usize = 0;
    proof {
        assert forall|k: Seq<char>| #[trigger] lookup(b.take(0), k) is None by {
            assert(!has_key(b.take(0), k));
        }
        assert(overridden_vars(a, b.take(0), v@));
    }
    while i < other.len()
        invariant
            i <= b.len(),
            b == other@,
            key_sorted(b),
            key_sorted(v@),
            overridden_vars(a, b.take(i as int), v@),
        decreases other.len() - i,
    {
        let ghost before = v@;
        let ghost n = i as int;
        let key = other[i].0.clone();
        let d = other[i].1.deep_clone();
        let ghost kv = key@;
        let ghost dv = d;
        put(v, key, d);
        proof {
            assert forall|k: Seq<char>| #![trigger lookup(v@, k)] {
                &&& (lookup(v@, k) is Some) == (lookup(a, k) is Some || lookup(b.take(n + 1), k) is Some)
                &&& lookup(b.take(n + 1), k) is None ==> lookup(v@, k) == lookup(a, k)
                &&& lookup(b.take(n + 1), k) is Some ==> lookup(v@, k)->0@ == lookup(b.take(n + 1), k)->0@
            } by {
                lemma_lookup_is_put(before, v@, kv, dv, k);
                lemma_lookup_take_push(b, n, k);
                assert(lookup(before, k) == lookup(before, k));
            }
        }
        i += 1;
    }
    proof {
        assert(b.take(b.len() as int) =~= b);
    }
}

/// Override functions with copies of those of `other`.
fn merge_fns(v: &mut Vec<(u64, FuncInfo)>, other: &Vec<(u64, FuncInfo)>)
    requires
        hashes_unique(old(v)@),
        hashes_unique(other@),
        filed_by_hash(old(v)@),
        filed_by_hash(other@),
    ensures
        hashes_unique(final(v)@),
        filed_by_hash(final(v)@),
        overridden_fns(old(v)@, other@, final(v)@),
{
    let ghost a = v@;
    let ghost b = other@;
    let mut i: usize = 0;
    proof {
        assert forall|h: u64| #[trigger] lookup_hash(b.take(0), h) is None by {
            assert(!has_hash(b.take(0), h));
        }
        assert(overridden_fns(a, b.take(0), v@));
    }
    while i < other.len()
        invariant
            i <= b.len(),
            b == other@,
            hashes_unique(b),
            filed_by_hash(b),
            hashes_unique(v@),
            filed_by_hash(v@),
            overridden_fns(a, b.take(i as int), v@),
        decreases other.len() - i,
    {
        let ghost before = v@;
        let ghost n = i as int;
        let h = other[i].0;
        let f = other[i].1.clone_info();
        let ghost fv = f;
        put_hash_entry(v, h, f);
        proof {
            assert forall|o: u64| #![trigger lookup_hash(v@, o)] {
                &&& (lookup_hash(v@, o) is Some) == (lookup_hash(a, o) is Some || lookup_hash(b.take(n + 1), o) is Some)
                &&& lookup_hash(b.take(n + 1), o) is None ==> lookup_hash(v@, o) == lookup_hash(a, o)
                &&& lookup_hash(b.take(n + 1), o) is Some ==> info_copy(lookup_hash(v@, o)->0, lookup_hash(b.take(n + 1), o)->0)
            } by {
                lemma_lookup_hash_take_push(b, n, o);
                crate::keyed::lemma_lookup_is_put_hash(before, v@, h, fv, o);
                assert(lookup_hash(before, o) == lookup_hash(before, o));
            }
            assert forall|j: int| 0 <= j < v@.len() implies (#[trigger] v@[j]).0 == v@[j].1.metadata.hash by {
                if v@[j].0 == h {
                    crate::keyed::lemma_hash_unique(v@, j);
                    assert(b[n].0 == b[n].1.metadata.hash);
                } else {
                    crate::keyed::lemma_hash_unique(v@, j);
                    let o = v@[j].0;
                    assert(has_hash(before, o));
                    let q = index_of_hash(before, o);
                    assert(before[q].0 == o);
                    assert(lookup_hash(v@, o) == lookup_hash(before, o));
                }
            }
        }
        i += 1;
    }
    proof {
        assert(b.take(b.len() as int) =~= b);
    }
}

/// Override type iterators with copies of those of `other`.
fn merge_iters(v: &mut Vec<(String, IteratorFn)>, other: &Vec<(String, IteratorFn)>)
    requires
        key_sorted(old(v)@),
        key_sorted(other@),
    ensures
        key_sorted(final(v)@),
        extended(old(v)@, other@, final(v)@),
{
    let ghost a = v@;
    let ghost b = other@;
    let mut i: usize = 0;
    proof {
        assert forall|k: Seq<char>| #[trigger] lookup(b.take(0), k) is None by {
            assert(!has_key(b.take(0), k));
        }
    }
    while i < other.len()
        invariant
            i <= b.len(),
            b == other@,
            key_sorted(b),
            key_sorted(v@),
            extended(a, b.take(i as int), v@),
        decreases other.len() - i,
    {
        let ghost before = v@;
        let ghost n = i as int;
        let key = other[i].0.clone();
        let f = clone_iter_fn(&other[i].1);
        let ghost kv = key@;
        let ghost fv = f;
        put(v, key, f);
        proof {
            assert forall|k: Seq<char>| #[trigger] lookup(v@, k) == if lookup(b.take(n + 1), k) is Some {
                lookup(b.take(n + 1), k)
            } else {
                lookup(a, k)
            } by {
                lemma_lookup_is_put(before, v@, kv, fv, k);
                lemma_lookup_take_push(b, n, k);
            }
        }
        i += 1;
    }
    proof {
        assert(b.take(b.len() as int) =~= b);
    }
}

impl Module {
    /// Merge another module into this one: each of its sub-modules, merged into a new module,
    /// replaces the sub-module of the same name; copies of its variables, functions and type
    /// iterators replace those of the same names or hashes (where this module has no
    /// functions, it takes copies of all of the other's). The index is dropped, and the
    /// other's documentation is appended.
    pub fn merge(&mut self, other: &Module)
        requires
            old(self).wf(),
            deep_wf(*other),
        ensures
            final(self).wf(),
            forall|k: Seq<char>| #![trigger lookup(final(self).modules@, k)] {
                &&& (lookup(final(self).modules@, k) is Some) == (lookup(old(self).modules@, k) is Some || lookup(other.modules@, k) is Some)
                &&& lookup(other.modules@, k) is None ==> lookup(final(self).modules@, k) == lookup(old(self).modules@, k)
                &&& lookup(other.modules@, k) is Some ==> shallow_copy(*lookup(final(self).modules@, k)->0, *lookup(other.modules@, k)->0)
            },
            overridden_vars(old(self).variables@, other.variables@, final(self).variables@),
            extended(old(self).type_iterators@, other.type_iterators@, final(self).type_iterators@),
            other.functions is None ==> final(self).functions == old(self).functions,
            other.functions matches Some(b) ==> (final(self).functions matches Some(c) && overridden_fns(opt_entries(old(self).functions), b@, c@)),
            final(self).all_variables is None,
            final(self).all_functions is None,
            final(self).all_type_iterators@.len() == 0,
            final(self).flags == unindexed(old(self).flags),
            final(self).id == old(self).id,
            final(self).custom_types == old(self).custom_types,
            final(self).doc@ == joined_doc(old(self).doc@, other.doc@),
        decreases other,
    {
        let ghost a = self.modules@;
        let ghost b = other.modules@;
        let mut i: usize = 0;
        proof {
            assert forall|k: Seq<char>| #[trigger] lookup(b.take(0), k) is None by {
                assert(!has_key(b.take(0), k));
            }
        }
        while i < other.modules.len()
            invariant
                i <= b.len(),
                b == other.modules@,
                key_sorted(b),
                subs_deep_wf(b),
                self.wf(),
                self.variables == old(self).variables,
                self.functions == old(self).functions,
                self.type_iterators == old(self).type_iterators,
                self.id == old(self).id,
                self.custom_types == old(self).custom_types,
                self.doc == old(self).doc,
                i > 0 ==> self.flags == unindexed(old(self).flags),
                i == 0 ==> self.flags == old(self).flags,
                self.all_variables == old(self).all_variables,
                self.all_functions == old(self).all_functions,
                self.all_type_iterators == old(self).all_type_iterators,
                forall|k: Seq<char>| #![trigger lookup(self.modules@, k)] {
                    &&& (lookup(self.modules@, k) is Some) == (lookup(a, k) is Some || lookup(b.take(i as int), k) is Some)
                    &&& lookup(b.take(i as int), k) is None ==> lookup(self.modules@, k) == lookup(a, k)
                    &&& lookup(b.take(i as int), k) is Some ==> shallow_copy(*lookup(self.modules@, k)->0, *lookup(b.take(i as int), k)->0)
                },
            decreases other.modules.len() - i,
        {
            let ghost before = self.modules@;
            let ghost n = i as int;
            let mut m = Module::new();
            proof {
                assert(decreases_to!(*other => *other.modules@[n].1));
            }
            let src: &Module = &*other.modules[i].1;
            proof {
                lemma_subs_deep_wf(b, n);
            }
            m.merge(src);
            let ghost mv = m;
            proof {
                assert(overridden_vars(Seq::empty(), src.variables@, mv.variables@)) by {
                    assert forall|k: Seq<char>| #[trigger] lookup(Seq::<(String, Dynamic)>::empty(), k) is None by {
                        assert(!has_key(Seq::<(String, Dynamic)>::empty(), k));
                    }
                }
                assert(extended(Seq::empty(), src.type_iterators@, mv.type_iterators@)) by {
                    assert forall|k: Seq<char>| #[trigger] lookup(Seq::<(String, IteratorFn)>::empty(), k) is None by {
                        assert(!has_key(Seq::<(String, IteratorFn)>::empty(), k));
                    }
                }
                assert(opt_entries(None::<Vec<(u64, FuncInfo)>>) =~= Seq::<(u64, FuncInfo)>::empty());
                assert forall|k: Seq<char>| #[trigger] has_key(mv.modules@, k) == has_key(src.modules@, k) by {
                    assert(lookup(Seq::<(String, Rc<Module>)>::empty(), k) is None) by {
                        assert(!has_key(Seq::<(String, Rc<Module>)>::empty(), k));
                    }
                    assert(lookup(mv.modules@, k) is Some == has_key(mv.modules@, k));
                    assert(lookup(src.modules@, k) is Some == has_key(src.modules@, k));
                }
                assert(joined_doc(Seq::empty(), src.doc@) =~= src.doc@);
                assert(shallow_copy(mv, *src));
            }
            let key = other.modules[i].0.as_str();
            self.set_sub_module(key, m);
            proof {
                let rc = choose|r: Rc<Module>| *r == mv && #[trigger] is_put(before, self.modules@, key@, r);
                assert forall|k: Seq<char>| #![trigger lookup(self.modules@, k)] {
                    &&& (lookup(self.modules@, k) is Some) == (lookup(a, k) is Some || lookup(b.take(n + 1), k) is Some)
                    &&& lookup(b.take(n + 1), k) is None ==> lookup(self.modules@, k) == lookup(a, k)
                    &&& lookup(b.take(n + 1), k) is Some ==> shallow_copy(*lookup(self.modules@, k)->0, *lookup(b.take(n + 1), k)->0)
                } by {
                    lemma_lookup_is_put(before, self.modules@, key@, rc, k);
                    lemma_lookup_take_push(b, n, k);
                    assert(lookup(before, k) == lookup(before, k));
                }
            }
            i += 1;
        }
        proof {
            assert(b.take(b.len() as int) =~= b);
        }
        merge_vars(&mut self.variables, &other.variables);
        match &other.functions {
            Some(fs) => {
                let mut m = match self.functions.take() {
                    Some(m) => m,
                    None => Vec::new(),
                };
                merge_fns(&mut m, fs);
                self.functions = Some(m);
            },
            None => {},
        }
        merge_iters(&mut self.type_iterators, &other.type_iterators);
        self.all_functions = None;
        self.all_variables = None;
        self.all_type_iterators = Vec::new();
        self.flags.indexed = false;
        self.flags.indexed_global_functions = false;
        join_doc(&mut self.doc, other.doc.as_str());
    }
}

/// Copies of functions.
fn copy_fns(other: &Vec<(u64, FuncInfo)>) -> (r: Vec<(u64, FuncInfo)>)
    requires
        hashes_unique(other@),
        filed_by_hash(other@),
    ensures
        hashes_unique(r@),
        filed_by_hash(r@),
        overridden_fns(Seq::empty(), other@, r@),
{
    let mut v: Vec<(u64, FuncInfo)> = Vec::new();
    proof {
        assert(hashes_unique(v@));
    }
    merge_fns(&mut v, other);
    v
}

impl Module {
    /// Flatten copies of another module tree onto this module: sub-modules first, in name
    /// order, then the other's own items, each overriding what was there.
    fn flatten_from(&mut self, other: &Module)
        requires
            old(self).wf(),
            deep_wf(*other),
        ensures
            final(self).wf(),
            forall|k: Seq<char>| #[trigger] vlookup(final(self).variables@, k) == match flat_var(*other, k) {
                Some(d) => Some(d),
                None => vlookup(old(self).variables@, k),
            },
            forall|k: Seq<char>| #[trigger] lookup(final(self).type_iterators@, k) == match flat_iter(*other, k) {
                Some(f) => Some(f),
                None => lookup(old(self).type_iterators@, k),
            },
            final(self).doc@ == flat_doc(old(self).doc@, *other),
            final(self).modules == old(self).modules,
            final(self).id == old(self).id,
            final(self).custom_types == old(self).custom_types,
            final(self).all_variables is None,
            final(self).all_functions is None,
            final(self).all_type_iterators@.len() == 0,
            final(self).flags == unindexed(old(self).flags),
        decreases other,
    {
        let ghost v0 = self.variables@;
        let ghost t0 = self.type_iterators@;
        let ghost d0 = self.doc@;
        let ghost subs = other.modules@;
        let mut i: usize = 0;
        proof {
            assert(subs.take(0) =~= Seq::<(String, Rc<Module>)>::empty());
        }
        while i < other.modules.len()
            invariant
                i <= subs.len(),
                subs == other.modules@,
                subs_deep_wf(subs),
                self.wf(),
                forall|k: Seq<char>| #[trigger] vlookup(self.variables@, k) == match subs_flat_var(subs.take(i as int), k) {
                    Some(d) => Some(d),
                    None => vlookup(v0, k),
                },
                forall|k: Seq<char>| #[trigger] lookup(self.type_iterators@, k) == match subs_flat_iter(subs.take(i as int), k) {
                    Some(f) => Some(f),
                    None => lookup(t0, k),
                },
                self.doc@ == subs_flat_doc(d0, subs.take(i as int)),
                self.modules == old(self).modules,
                self.id == old(self).id,
                self.custom_types == old(self).custom_types,
                i > 0 ==> (self.all_variables is None && self.all_functions is None
                    && self.all_type_iterators@.len() == 0 && self.flags == unindexed(old(self).flags)),
                i == 0 ==> (self.all_variables == old(self).all_variables && self.all_functions == old(self).all_functions
                    && self.all_type_iterators == old(self).all_type_iterators && self.flags == old(self).flags),
            decreases other.modules.len() - i,
        {
            let ghost n = i as int;
            let ghost vb = self.variables@;
            let ghost tb = self.type_iterators@;
            proof {
                assert(decreases_to!(*other => *other.modules@[n].1));
                lemma_subs_deep_wf(subs, n);
            }
            let src: &Module = &*other.modules[i].1;
            self.flatten_from(src);
            proof {
                let t = subs.take(n + 1);
                assert(t.drop_last() =~= subs.take(n));
                assert(t.last() == subs[n]);
                assert forall|k: Seq<char>| #[trigger] vlookup(self.variables@, k) == match subs_flat_var(t, k) {
                    Some(d) => Some(d),
                    None => vlookup(v0, k),
                } by {
                    assert(vlookup(vb, k) == match subs_flat_var(subs.take(n), k) {
                        Some(d) => Some(d),
                        None => vlookup(v0, k),
                    });
                }
                assert forall|k: Seq<char>| #[trigger] lookup(self.type_iterators@, k) == match subs_flat_iter(t, k) {
                    Some(f) => Some(f),
                    None => lookup(t0, k),
                } by {
                    assert(lookup(tb, k) == match subs_flat_iter(subs.take(n), k) {
                        Some(f) => Some(f),
                        None => lookup(t0, k),
                    });
                }
            }
            i += 1;
        }
        proof {
            assert(subs.take(subs.len() as int) =~= subs);
        }
        let ghost v1 = self.variables@;
        let ghost t1 = self.type_iterators@;
        merge_vars(&mut self.variables, &other.variables);
        match self.functions.take() {
            Some(mut m) => {
                match &other.functions {
                    Some(o) => {
                        merge_fns(&mut m, o);
                    },
                    None => {},
                }
                self.functions = Some(m);
            },
            None => {
                self.functions = match &other.functions {
                    Some(o) => Some(copy_fns(o)),
                    None => None,
                };
            },
        }
        merge_iters(&mut self.type_iterators, &other.type_iterators);
        self.all_functions = None;
        self.all_variables = None;
        self.all_type_iterators = Vec::new();
        self.flags.indexed = false;
        self.flags.indexed_global_functions = false;
        join_doc(&mut self.doc, other.doc.as_str());
        proof {
            assert forall|k: Seq<char>| #[trigger] vlookup(self.variables@, k) == match flat_var(*other, k) {
                Some(d) => Some(d),
                None => vlookup(v0, k),
            } by {
                assert(vlookup(v1, k) == match subs_flat_var(subs, k) {
                    Some(d) => Some(d),
                    None => vlookup(v0, k),
                });
            }
            assert forall|k: Seq<char>| #[trigger] lookup(self.type_iterators@, k) == match flat_iter(*other, k) {
                Some(f) => Some(f),
                None => lookup(t0, k),
            } by {
                assert(lookup(t1, k) == match subs_flat_iter(subs, k) {
                    Some(f) => Some(f),
                    None => lookup(t0, k),
                });
            }
        }
    }

    /// Combine another module into this one, consuming it, flattening its sub-modules onto
    /// this module: sub-modules first (in name order), then the other's own items, higher
    /// levels overriding lower ones. The index is dropped; documentation is appended.
    pub fn combine_flatten(&mut self, other: Module)
        requires
            old(self).wf(),
            deep_wf(other),
        ensures
            final(self).wf(),
            forall|k: Seq<char>| #[trigger] vlookup(final(self).variables@, k) == match flat_var(other, k) {
                Some(d) => Some(d),
                None => vlookup(old(self).variables@, k),
            },
            forall|k: Seq<char>| #[trigger] lookup(final(self).type_iterators@, k) == match flat_iter(other, k) {
                Some(f) => Some(f),
                None => lookup(old(self).type_iterators@, k),
            },
            final(self).doc@ == flat_doc(old(self).doc@, other),
            final(self).modules == old(self).modules,
            final(self).id == old(self).id,
            final(self).custom_types == old(self).custom_types,
            final(self).all_variables is None,
            final(self).all_functions is None,
            final(self).all_type_iterators@.len() == 0,
            final(self).flags == unindexed(old(self).flags),
    {
        self.flatten_from(&other);
    }
}

/// A variable set into a module is found there with its value, and no other variable is
/// changed (the relation stated by [`Module::set_var`]).
pub proof fn lemma_set_var_then_get_var(
    old_vars: Seq<(String, Dynamic)>,
    new_vars: Seq<(String, Dynamic)>,
    name: Seq<char>,
    value: Dynamic,
    other: Seq<char>,
)
    requires
        is_put(old_vars, new_vars, name, value),
    ensures
        has_key(new_vars, name),
        lookup(new_vars, name) == Some(value),
        other != name ==> lookup(new_vars, other) == lookup(old_vars, other),
{
    lemma_lookup_is_put(old_vars, new_vars, name, value, name);
    lemma_lookup_is_put(old_vars, new_vars, name, value, other);
}

/// A function registered into a module is found under the hash returned, and the functions
/// under other hashes are unchanged (the relation stated by [`Module::set_fn`] and
/// [`Module::set_script_fn`]).
pub proof fn lemma_registered_fn_found(
    old_fns: Option<Vec<(u64, FuncInfo)>>,
    new_fns: Option<Vec<(u64, FuncInfo)>>,
    h: u64,
    f: FuncInfo,
    other: u64,
)
    requires
        fn_put(old_fns, new_fns, h, f),
    ensures
        new_fns matches Some(v) && has_hash(v@, h),
        lookup_hash(opt_entries(new_fns), h) == Some(f),
        other != h ==> lookup_hash(opt_entries(new_fns), other) == lookup_hash(opt_entries(old_fns), other),
{
    crate::keyed::lemma_lookup_is_put_hash(opt_entries(old_fns), opt_entries(new_fns), h, f, h);
    crate::keyed::lemma_lookup_is_put_hash(opt_entries(old_fns), opt_entries(new_fns), h, f, other);
}

/// Building the index leaves the module indexed, and building it again changes nothing.
pub proof fn lemma_build_index_idempotent(a: Module, b: Module, c: Module)
    requires
        index_built(a, b),
        index_built(b, c),
    ensures
        b.flags.indexed,
        c == b,
{
}

} // verus!

