use vstd::prelude::*;
use crate::ast::{FnAccess, ScriptFuncDef};
use crate::dynamic::{Dynamic, DynV, Value, Union, MapEntry, plain, dyn_view, dyns_view,
    entries_view};
use crate::error::{EvalAltResult, ErrV, RhaiResultOf, unit_result_view};
use crate::position::Position;
use crate::text::{int_str, push_int_str, string_of};

verus! {

broadcast use vstd::std_specs::vec::group_vec_axioms;

/// The tag of a value, as an integer.
pub fn get_tag(value: &Dynamic) -> (r: i64)
    ensures
        r == value@.tag,
{
    value.tag() as i64
}

/// The message of a tag out of the range of tags.
pub open spec fn tag_range_msg(tag: i64, what: Seq<char>) -> Seq<char> {
    int_str(tag as int) + " is too "@ + what + " to fit into a tag (must be between "@ + int_str(
        i32::MIN as int,
    ) + " and "@ + int_str(i32::MAX as int) + ")"@
}

/// Set the tag of a value; a tag outside the range of `i32` is an arithmetic error.
pub fn set_tag(value: &mut Dynamic, tag: i64) -> (r: RhaiResultOf<()>)
    ensures
        tag < i32::MIN ==> unit_result_view(r) == Err::<(), ErrV>(
            ErrV::Arithmetic(tag_range_msg(tag, "small"@), Position { line: 0, pos: 0 }),
        ) && final(value)@ == old(value)@,
        tag > i32::MAX ==> unit_result_view(r) == Err::<(), ErrV>(
            ErrV::Arithmetic(tag_range_msg(tag, "large"@), Position { line: 0, pos: 0 }),
        ) && final(value)@ == old(value)@,
        i32::MIN <= tag <= i32::MAX ==> r is Ok && final(value)@ == (DynV {
            tag: tag as i32,
            ..old(value)@
        }),
{
    if tag < -2147483648i64 {
        return Err(Box::new(EvalAltResult::ErrorArithmetic(tag_range_message(tag, "small"), Position::none())));
    }
    if tag > 2147483647i64 {
        return Err(Box::new(EvalAltResult::ErrorArithmetic(tag_range_message(tag, "large"), Position::none())));
    }
    value.set_tag(tag as i32);
    Ok(())
}

/// Builds the message of a tag out of range.
fn tag_range_message(tag: i64, what: &str) -> (r: String)
    ensures
        r@ == tag_range_msg(tag, what@),
{
    let mut s = String::new();
    push_int_str(&mut s, tag);
    s.append(" is too ");
    s.append(what);
    s.append(" to fit into a tag (must be between ");
    push_int_str(&mut s, -2147483648i64);
    s.append(" and ");
    push_int_str(&mut s, 2147483647i64);
    s.append(")");
    assert(s@ =~= tag_range_msg(tag, what@));
    s
}

/// Which script-defined functions to describe.
pub enum FnFilter {
    /// All of them.
    All,
    /// Those of a name.
    Name(String),
    /// Those of a name and number of parameters.
    NameAndParams(String, usize),
}

/// Does a function pass a filter?
pub open spec fn passes(f: FnFilter, func: ScriptFuncDef) -> bool {
    match f {
        FnFilter::All => true,
        FnFilter::Name(n) => func.name@ == n@,
        FnFilter::NameAndParams(n, p) => func.params@.len() == p && func.name@ == n@,
    }
}

/// The prefix of the names of anonymous functions.
pub open spec fn anon_prefix() -> Seq<char> {
    "anon$"@
}

/// String values of some strings.
pub open spec fn string_values(v: Seq<String>) -> Seq<DynV> {
    v.map_values(|s: String| plain(Value::Str(s@)))
}

/// The metadata of a script-defined function: an object map with its access mode, its
/// comments (when it has any), whether it is anonymous, its name and its parameters, in key
/// order.
pub open spec fn metadata_of(func: ScriptFuncDef) -> Value {
    let access = plain(
        Value::Str(
            match func.access {
                FnAccess::Public => "public"@,
                FnAccess::Private => "private"@,
            },
        ),
    );
    let anon = plain(
        Value::Bool(func.name@.len() >= 5 && func.name@.take(5) == anon_prefix()),
    );
    let name = plain(Value::Str(func.name@));
    let params = plain(Value::Array(string_values(func.params@)));
    let comments = plain(Value::Array(string_values(func.comments@)));
    Value::ObjectMap(
        if func.comments@.len() > 0 {
            seq![
                ("access"@, access),
                ("comments"@, comments),
                ("is_anonymous"@, anon),
                ("name"@, name),
                ("params"@, params),
            ]
        } else {
            seq![("access"@, access), ("is_anonymous"@, anon), ("name"@, name), ("params"@, params)]
        },
    )
}

/// The metadata of the functions that pass a filter, in order.
pub open spec fn metadata_list(lib: Seq<ScriptFuncDef>, f: FnFilter) -> Seq<DynV>
    decreases lib.len(),
{
    if lib.len() == 0 {
        Seq::empty()
    } else {
        let rest = metadata_list(lib.drop_last(), f);
        if passes(f, lib.last()) {
            rest.push(plain(metadata_of(lib.last())))
        } else {
            rest
        }
    }
}

/// String values of some strings.
fn string_values_exec(v: &Vec<String>) -> (r: Vec<Dynamic>)
    ensures
        dyns_view(r@) == string_values(v@),
{
    let mut out: Vec<Dynamic> = Vec::new();
    let mut i: usize = 0;
    while i < v.len()
        invariant
            i <= v@.len(),
            dyns_view(out@) == string_values(v@).take(i as int),
        decreases v.len() - i,
    {
        let d = Dynamic::from_string(v[i].clone());
        proof {
            crate::dynamic::lemma_dyns_view_push(out@, d);
            assert(string_values(v@).take(i + 1) =~= string_values(v@).take(i as int).push(
                plain(Value::Str(v@[i as int]@)),
            ));
        }
        out.push(d);
        i += 1;
    }
    assert(string_values(v@).take(v@.len() as int) =~= string_values(v@));
    out
}

/// Does a name begin with the prefix of anonymous functions?
fn is_anonymous_name(name: &String) -> (r: bool)
    ensures
        r == (name@.len() >= 5 && name@.take(5) == anon_prefix()),
{
    let chars = crate::text::str_chars(name.as_str());
    let prefix = crate::text::str_chars("anon$");
    proof {
        reveal_strlit("anon$");
    }
    if chars.len() < 5 {
        return false;
    }
    let mut i: usize = 0;
    while i < 5
        invariant
            i <= 5,
            chars@.len() >= 5,
            prefix@ == anon_prefix(),
            prefix@.len() == 5,
            chars@ == name@,
            forall|j: int| 0 <= j < i ==> chars@[j] == prefix@[j],
        decreases 5 - i,
    {
        if chars[i] != prefix[i] {
            assert(chars@.take(5)[i as int] != anon_prefix()[i as int]);
            assert(chars@.take(5) != anon_prefix());
            return false;
        }
        i += 1;
    }
    assert(chars@.take(5) =~= prefix@);
    true
}

/// The metadata of a script-defined function.
fn make_metadata(func: &ScriptFuncDef) -> (r: Dynamic)
    ensures
        r@ == plain(metadata_of(*func)),
{
    let access = match func.access {
        FnAccess::Public => Dynamic::from_string(string_of("public")),
        FnAccess::Private => Dynamic::from_string(string_of("private")),
    };
    let anon = Dynamic::from_bool(is_anonymous_name(&func.name));
    let name = Dynamic::from_string(func.name.clone());
    let params = Dynamic::from_array(string_values_exec(&func.params));
    let mut entries: Vec<MapEntry> = Vec::new();
    entries.push(MapEntry { key: string_of("access"), value: access });
    if func.comments.len() > 0 {
        let comments = Dynamic::from_array(string_values_exec(&func.comments));
        entries.push(MapEntry { key: string_of("comments"), value: comments });
    }
    entries.push(MapEntry { key: string_of("is_anonymous"), value: anon });
    entries.push(MapEntry { key: string_of("name"), value: name });
    entries.push(MapEntry { key: string_of("params"), value: params });
    proof {
        crate::dynamic::lemma_entries_view(entries@);
        assert(entries_view(entries@) =~= metadata_of(*func)->ObjectMap_0);
    }
    Dynamic::from_union(Union::ObjectMap(entries))
}

/// The metadata of the script-defined functions that pass a filter, in order.
pub fn collect_fn_metadata(lib: &Vec<ScriptFuncDef>, filter: &FnFilter) -> (r: Vec<Dynamic>)
    ensures
        dyns_view(r@) == metadata_list(lib@, *filter),
{
    let mut out: Vec<Dynamic> = Vec::new();
    let mut i: usize = 0;
    while i < lib.len()
        invariant
            i <= lib@.len(),
            dyns_view(out@) == metadata_list(lib@.take(i as int), *filter),
        decreases lib.len() - i,
    {
        let f = &lib[i];
        let pass = match filter {
            FnFilter::All => true,
            FnFilter::Name(n) => f.name == *n,
            FnFilter::NameAndParams(n, p) => f.params.len() == *p && f.name == *n,
        };
        proof {
            assert(lib@.take(i + 1).drop_last() =~= lib@.take(i as int));
        }
        if pass {
            let m = make_metadata(f);
            proof {
                crate::dynamic::lemma_dyns_view_push(out@, m);
            }
            out.push(m);
        }
        i += 1;
    }
    assert(lib@.take(lib@.len() as int) =~= lib@);
    out
}

/// The metadata of all script-defined functions.
pub fn get_fn_metadata_list(lib: &Vec<ScriptFuncDef>) -> (r: Vec<Dynamic>)
    ensures
        dyns_view(r@) == metadata_list(lib@, FnFilter::All),
{
    collect_fn_metadata(lib, &FnFilter::All)
}

/// The metadata of the script-defined functions of a name.
pub fn get_fn_metadata(lib: &Vec<ScriptFuncDef>, name: &str) -> (r: Vec<Dynamic>)
    ensures
        exists|n: String| n@ == name@ && dyns_view(r@) == metadata_list(lib@, FnFilter::Name(n)),
{
    let n = string_of(name);
    let r = collect_fn_metadata(lib, &FnFilter::Name(n));
    r
}

/// The metadata of the script-defined functions of a name and number of parameters; none for
/// a negative number.
pub fn get_fn_metadata2(lib: &Vec<ScriptFuncDef>, name: &str, params: i64) -> (r: Vec<Dynamic>)
    ensures
        params < 0 ==> r@.len() == 0,
        params >= 0 ==> exists|n: String|
            n@ == name@ && dyns_view(r@) == metadata_list(
                lib@,
                FnFilter::NameAndParams(n, params as usize),
            ),
{
    if params < 0 {
        return Vec::new();
    }
    let n = string_of(name);
    let r = collect_fn_metadata(lib, &FnFilter::NameAndParams(n, params as usize));
    r
}

} // verus!
