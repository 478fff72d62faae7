use vstd::prelude::*;
use crate::ast::{Expr, Ident, Stmt, VariableRef, FnCallExpr, OpAssignment, MapItem, ScriptFuncDef, expr_pos, stmt_pos};
use std::rc::Rc;
use crate::builtin::{builtin_assign_fn, builtin_binary_fn, apply_assign, apply_binary,
    get_builtin_binary_op_fn, get_builtin_op_assignment_fn, call_builtin_binary_op,
    call_builtin_op_assign};
use crate::dynamic::{Dynamic, DynV, Value, Union, MapEntry, dyn_view, dyns_view, entries_view, plain, type_name_of};
use crate::engine::{Engine, GlobalRuntimeState, clamp, clamp3, value_sizes, size_check,
    has_size_limit, data_size_check, operation_check};
use crate::error::{EvalAltResult, ErrV, RhaiResult, RhaiResultOf, err_fill_position, err_with_position, err_position, err_view, result_view,
    unit_result_view};
use crate::position::Position;
use crate::scope::{Scope, VarV, add_alias, scope_search, lemma_scope_search};
use crate::token::{Token, token_syntax};
use crate::text::nat_str;

verus! {

/// Abstract value of the runtime state of an evaluation run.
pub struct GState {
    pub num_operations: u64,
    pub scope_level: usize,
    pub level: usize,
    pub always_search_scope: bool,
    pub source: Option<Seq<char>>,
    pub tag: DynV,
    pub lib: Seq<Rc<ScriptFuncDef>>,
}

/// The abstract value of a runtime state.
pub open spec fn g_view(g: GlobalRuntimeState) -> GState {
    GState {
        num_operations: g.num_operations,
        scope_level: g.scope_level,
        level: g.level,
        always_search_scope: g.always_search_scope,
        source: match g.source {
            Some(s) => Some(s@),
            None => None,
        },
        tag: dyn_view(g.tag),
        lib: g.lib@,
    }
}

/// Everything an evaluation step reads and changes: the runtime state, the scope and the
/// value bound to `this` (null when unbound).
pub struct St {
    pub g: GState,
    pub scope: Seq<VarV>,
    pub this: DynV,
}

/// The position that stands for "none".
pub open spec fn no_pos() -> Position {
    Position { line: 0, pos: 0 }
}

/// How many more operations can be counted before the counter is exhausted.
pub open spec fn fuel(st: St) -> int {
    u64::MAX - st.g.num_operations
}

/// Has the operation count gone backwards from `a` to `b`? (It never does.)
pub open spec fn regressed(a: St, b: St) -> bool {
    b.g.num_operations < a.g.num_operations
}

/// Has the operation count gone forwards from `a` to `b`?
pub open spec fn advanced(a: St, b: St) -> bool {
    b.g.num_operations > a.g.num_operations
}

/// The outcome of an evaluation step that cannot happen (the count going backwards).
pub open spec fn stuck(st: St) -> (St, Result<DynV, ErrV>) {
    (st, Err(ErrV::TooManyOperations(no_pos())))
}

/// Counting one operation.
pub open spec fn track(eng: Engine, st: St, pos: Position) -> (St, Result<(), ErrV>) {
    let n = st.g.num_operations;
    let g = GState {
        num_operations: if n == u64::MAX {
            n
        } else {
            (n + 1) as u64
        },
        ..st.g
    };
    (St { g, ..st }, operation_check(eng.limits.max_operations, n, pos))
}

/// The unit value.
pub open spec fn unit_v() -> DynV {
    plain(Value::Unit)
}

/// A boolean, or the type-mismatch error for a non-boolean value at `pos`.
pub open spec fn as_bool_at(r: Result<DynV, ErrV>, pos: Position) -> Result<bool, ErrV> {
    match r {
        Ok(v) => match v.value {
            Value::Bool(b) => Ok(b),
            _ => Err(ErrV::MismatchDataType("bool"@, type_name_of(v.value), pos)),
        },
        Err(e) => Err(e),
    }
}

/// The names of the types of some values, separated by `", "`.
pub open spec fn type_names(vals: Seq<DynV>) -> Seq<char>
    decreases vals.len(),
{
    if vals.len() == 0 {
        Seq::empty()
    } else if vals.len() == 1 {
        type_name_of(vals[0].value)
    } else {
        type_names(vals.drop_last()) + ", "@ + type_name_of(vals.last().value)
    }
}

/// The signature of a call, as it appears in a "function not found" error:
/// `name (type1, type2)`.
pub open spec fn call_signature(name: Seq<char>, vals: Seq<DynV>) -> Seq<char> {
    name + " ("@ + type_names(vals) + ")"@
}

/// Where an assignment writes: the `this` value or a variable of the scope.
pub enum Slot {
    This,
    Var(int),
}

/// Finding the target of a variable reference: `this`, the variable at its recorded offset
/// from the end of the scope, or else the last variable of that name.
pub open spec fn sem_search(st: St, v: VariableRef, pos: Position) -> Result<Slot, ErrV> {
    if v.index == 0 && v.name@ == "this"@ {
        if st.this.value is Null {
            Err(ErrV::UnboundThis(pos))
        } else {
            Ok(Slot::This)
        }
    } else {
        let found = if st.g.always_search_scope || v.index == 0 || v.index > st.scope.len() {
            scope_search(st.scope, v.name@)
        } else {
            Some(st.scope.len() - v.index)
        };
        match found {
            Some(i) => Ok(Slot::Var(i)),
            None => Err(ErrV::VariableNotFound(v.name@, pos)),
        }
    }
}

/// The value held in a slot.
pub open spec fn slot_value(st: St, slot: Slot) -> DynV {
    match slot {
        Slot::This => st.this,
        Slot::Var(i) => st.scope[i].value,
    }
}

/// Is a slot a constant?
pub open spec fn slot_constant(st: St, slot: Slot) -> bool {
    match slot {
        Slot::This => false,
        Slot::Var(i) => st.scope[i].constant,
    }
}

/// The state with a new value in a slot.
pub open spec fn set_slot(st: St, slot: Slot, v: DynV) -> St {
    match slot {
        Slot::This => St { this: v, ..st },
        Slot::Var(i) => St { scope: st.scope.update(i, VarV { value: v, ..st.scope[i] }), ..st },
    }
}

/// The new target value and the outcome of an operator-assignment `x op_assign y`:
/// the built-in operator-assignment if there is one (checking the data size of the result
/// unless fast operators are on), else `x = x op y` with the built-in binary operator,
/// else a "function not found" error.
pub open spec fn op_assign_outcome(
    eng: Engine,
    op_assign: Token,
    op: Token,
    op_pos: Position,
    root_pos: Position,
    x: DynV,
    y: DynV,
) -> (DynV, Result<(), ErrV>) {
    match builtin_assign_fn(op_assign, x.value, y.value) {
        Some((f, _)) => if eng.fast_operators {
            apply_assign(eng.limits, f, x, y)
        } else {
            let (nx, r) = apply_assign(eng.limits, f, x, y);
            match r {
                Ok(()) => (nx, data_size_check(eng.limits, nx.value, root_pos)),
                Err(e) => (nx, Err(err_fill_position(e, op_pos))),
            }
        },
        None => match builtin_binary_fn(op, x.value, y.value) {
            Some((f, _)) => match apply_binary(eng.limits, f, x, y) {
                Ok(v) => (v, data_size_check(eng.limits, v.value, root_pos)),
                Err(e) => (x, Err(err_fill_position(e, op_pos))),
            },
            None => (
                x,
                Err(ErrV::FunctionNotFound(call_signature(token_syntax(op), seq![x, y]), op_pos)),
            ),
        },
    }
}

/// An assignment `var = value` or `var op= value` to a found slot.
pub open spec fn sem_op_assignment(
    eng: Engine,
    st: St,
    op_info: OpAssignment,
    name: Seq<char>,
    var_pos: Position,
    slot: Slot,
    new_val: DynV,
) -> (St, Result<(), ErrV>) {
    if slot_constant(st, slot) {
        (st, Err(ErrV::AssignmentToConstant(name, var_pos)))
    } else {
        match op_info.op {
            Some((op_assign, op)) => {
                let (nx, r) = op_assign_outcome(
                    eng,
                    op_assign,
                    op,
                    op_info.pos,
                    var_pos,
                    slot_value(st, slot),
                    new_val,
                );
                (set_slot(st, slot, nx), r)
            },
            None => (set_slot(st, slot, new_val), Ok(())),
        }
    }
}

/// The result, with its data size checked (errors positioned at `pos`).
pub open spec fn check_return(eng: Engine, r: Result<DynV, ErrV>, pos: Position) -> Result<
    DynV,
    ErrV,
> {
    match r {
        Ok(v) => match data_size_check(eng.limits, v.value, pos) {
            Ok(()) => Ok(v),
            Err(e) => Err(e),
        },
        Err(e) => Err(e),
    }
}

/// Component-wise sum of sizes, each clamped.
pub open spec fn add_sizes3(a: (nat, nat, nat), b: (nat, nat, nat)) -> (nat, nat, nat) {
    (clamp(a.0 + b.0), clamp(a.1 + b.1), clamp(a.2 + b.2))
}

/// The properties of a map with `key` set to `v` (added at the end if absent).
pub open spec fn map_set(m: Seq<(Seq<char>, DynV)>, key: Seq<char>, v: DynV) -> Seq<
    (Seq<char>, DynV),
> {
    match map_find(m, key) {
        Some(i) => m.update(i, (key, v)),
        None => m.push((key, v)),
    }
}

/// The index of the first property of a given name, if any.
pub open spec fn map_find(m: Seq<(Seq<char>, DynV)>, key: Seq<char>) -> Option<int>
    decreases m.len(),
{
    if m.len() == 0 {
        None
    } else {
        match map_find(m.drop_last(), key) {
            Some(i) => Some(i),
            None => if m.last().0 == key {
                Some(m.len() - 1)
            } else {
                None
            },
        }
    }
}

/// The properties of an object-map literal before evaluation: every name mapped to `()`.
pub open spec fn template_entries(names: Seq<String>) -> Seq<(Seq<char>, DynV)> {
    names.map_values(|n: String| (n@, unit_v()))
}

/// The scope cut back to `len` variables.
pub open spec fn rewind(s: Seq<VarV>, len: nat) -> Seq<VarV> {
    if len < s.len() {
        s.take(len as int)
    } else {
        s
    }
}

/// A nesting level one deeper, saturating.
pub open spec fn level_up(n: usize) -> usize {
    if n == usize::MAX {
        n
    } else {
        (n + 1) as usize
    }
}

/// Evaluating an expression.
pub open spec fn sem_expr(eng: Engine, st: St, e: Expr) -> (St, Result<DynV, ErrV>)
    decreases fuel(st), 0nat, 0nat,
{
    let (st1, t) = track(eng, st, expr_pos(e));
    match t {
        Err(err) => (st1, Err(err)),
        Ok(_) => match e {
            Expr::DynamicConstant(d, _) => (st1, Ok(dyn_view(*d))),
            Expr::BoolConstant(b, _) => (st1, Ok(plain(Value::Bool(b)))),
            Expr::IntegerConstant(i, _) => (st1, Ok(plain(Value::Int(i)))),
            Expr::CharConstant(c, _) => (st1, Ok(plain(Value::Char(c)))),
            Expr::StringConstant(s, _) => (st1, Ok(plain(Value::Str(s@)))),
            Expr::Unit(_) => (st1, Ok(unit_v())),
            Expr::Variable(v, pos) => match sem_search(st1, *v, pos) {
                Ok(slot) => (st1, Ok(slot_value(st1, slot))),
                Err(err) => (st1, Err(err)),
            },
            Expr::FnCall(f, pos) => sem_fn_call(eng, st1, *f, pos),
            Expr::InterpolatedString(parts, pos) => {
                let (st2, r) = sem_interp(eng, st1, parts@, 0, plain(Value::Str(Seq::empty())));
                (st2, check_return(eng, r, pos))
            },
            Expr::Array(items, _) => sem_array(eng, st1, items@, 0, Seq::empty(), (0, 0, 0)),
            Expr::ObjectMap(items, names, _) => sem_map(
                eng,
                st1,
                items@,
                0,
                template_entries(names@),
                (0, 0, 0),
            ),
            Expr::Stmt(stmts, _) => if stmts@.len() == 0 {
                (st1, Ok(unit_v()))
            } else {
                sem_block(eng, st1, stmts@, true)
            },
            Expr::And(x, _) => {
                let (st2, l) = sem_expr(eng, st1, x.lhs);
                if regressed(st1, st2) {
                    stuck(st2)
                } else {
                    match as_bool_at(l, expr_pos(x.lhs)) {
                        Ok(true) => {
                            let (st3, r) = sem_expr(eng, st2, x.rhs);
                            match as_bool_at(r, expr_pos(x.rhs)) {
                                Ok(b) => (st3, Ok(plain(Value::Bool(b)))),
                                Err(err) => (st3, Err(err)),
                            }
                        },
                        Ok(false) => (st2, Ok(plain(Value::Bool(false)))),
                        Err(err) => (st2, Err(err)),
                    }
                }
            },
            Expr::Or(x, _) => {
                let (st2, l) = sem_expr(eng, st1, x.lhs);
                if regressed(st1, st2) {
                    stuck(st2)
                } else {
                    match as_bool_at(l, expr_pos(x.lhs)) {
                        Ok(false) => {
                            let (st3, r) = sem_expr(eng, st2, x.rhs);
                            match as_bool_at(r, expr_pos(x.rhs)) {
                                Ok(b) => (st3, Ok(plain(Value::Bool(b)))),
                                Err(err) => (st3, Err(err)),
                            }
                        },
                        Ok(true) => (st2, Ok(plain(Value::Bool(true)))),
                        Err(err) => (st2, Err(err)),
                    }
                }
            },
            Expr::Coalesce(x, _) => {
                let (st2, l) = sem_expr(eng, st1, x.lhs);
                if regressed(st1, st2) {
                    stuck(st2)
                } else {
                    match l {
                        Ok(v) => if v.value is Unit {
                            sem_expr(eng, st2, x.rhs)
                        } else {
                            (st2, l)
                        },
                        Err(_) => (st2, l),
                    }
                }
            },
        },
    }
}

/// Evaluating the parts of an interpolated string from the `i`-th on, appending each to
/// `concat` with `+=`.
pub open spec fn sem_interp(eng: Engine, st: St, parts: Seq<Expr>, i: int, concat: DynV) -> (
    St,
    Result<DynV, ErrV>,
)
    decreases fuel(st), 1nat, parts.len() - i,
{
    if i < 0 || i >= parts.len() {
        (st, Ok(concat))
    } else {
        let (st1, r) = sem_expr(eng, st, parts[i]);
        if regressed(st, st1) {
            stuck(st1)
        } else {
            match r {
                Err(err) => (st1, Err(err)),
                Ok(item) => {
                    let (nc, o) = op_assign_outcome(
                        eng,
                        Token::PlusAssign,
                        Token::Plus,
                        expr_pos(parts[i]),
                        no_pos(),
                        concat,
                        item,
                    );
                    match o {
                        Err(err) => (st1, Err(err)),
                        Ok(()) => sem_interp(eng, st1, parts, i + 1, nc),
                    }
                },
            }
        }
    }
}

/// Evaluating the items of an array literal from the `i`-th on, with the values so far
/// and their total sizes.
pub open spec fn sem_array(
    eng: Engine,
    st: St,
    items: Seq<Expr>,
    i: int,
    acc: Seq<DynV>,
    sizes: (nat, nat, nat),
) -> (St, Result<DynV, ErrV>)
    decreases fuel(st), 1nat, items.len() - i,
{
    if i < 0 || i >= items.len() {
        (st, Ok(plain(Value::Array(acc))))
    } else {
        let (st1, r) = sem_expr(eng, st, items[i]);
        if regressed(st, st1) {
            stuck(st1)
        } else {
            match r {
                Err(err) => (st1, Err(err)),
                Ok(v) => if has_size_limit(eng.limits) {
                    let total = add_sizes3(sizes, clamp3(value_sizes(v.value)));
                    match size_check(eng.limits, total) {
                        Err(err) => (st1, Err(err_fill_position(err, expr_pos(items[i])))),
                        Ok(()) => sem_array(eng, st1, items, i + 1, acc.push(v), total),
                    }
                } else {
                    sem_array(eng, st1, items, i + 1, acc.push(v), sizes)
                },
            }
        }
    }
}

/// Evaluating the properties of an object-map literal from the `i`-th on.
pub open spec fn sem_map(
    eng: Engine,
    st: St,
    items: Seq<MapItem>,
    i: int,
    acc: Seq<(Seq<char>, DynV)>,
    sizes: (nat, nat, nat),
) -> (St, Result<DynV, ErrV>)
    decreases fuel(st), 1nat, items.len() - i,
{
    if i < 0 || i >= items.len() {
        (st, Ok(plain(Value::ObjectMap(acc))))
    } else {
        let (st1, r) = sem_expr(eng, st, items[i].value);
        if regressed(st, st1) {
            stuck(st1)
        } else {
            match r {
                Err(err) => (st1, Err(err)),
                Ok(v) => if has_size_limit(eng.limits) {
                    let total = add_sizes3(sizes, clamp3(value_sizes(v.value)));
                    match size_check(eng.limits, total) {
                        Err(err) => (st1, Err(err_fill_position(err, expr_pos(items[i].value)))),
                        Ok(()) => sem_map(
                            eng,
                            st1,
                            items,
                            i + 1,
                            map_set(acc, items[i].key.name@, v),
                            total,
                        ),
                    }
                } else {
                    sem_map(eng, st1, items, i + 1, map_set(acc, items[i].key.name@, v), sizes)
                },
            }
        }
    }
}

/// Evaluating the arguments of a call from the `i`-th on.
pub open spec fn sem_args(eng: Engine, st: St, args: Seq<Expr>, i: int, acc: Seq<DynV>) -> (
    St,
    Result<Seq<DynV>, ErrV>,
)
    decreases fuel(st), 1nat, args.len() - i,
{
    if i < 0 || i >= args.len() {
        (st, Ok(acc))
    } else {
        let (st1, r) = sem_expr(eng, st, args[i]);
        if regressed(st, st1) {
            (st1, Err(ErrV::TooManyOperations(no_pos())))
        } else {
            match r {
                Err(err) => (st1, Err(err)),
                Ok(v) => sem_args(eng, st1, args, i + 1, acc.push(v)),
            }
        }
    }
}

/// Evaluating a function call: the arguments from left to right, then the built-in
/// implementation of the operator if there is one; no other function is known.
pub open spec fn sem_fn_call(eng: Engine, st: St, f: FnCallExpr, pos: Position) -> (
    St,
    Result<DynV, ErrV>,
)
    decreases fuel(st), 2nat, 0nat,
{
    let (st1, r) = sem_args(eng, st, f.args@, 0, Seq::empty());
    match r {
        Err(err) => (st1, Err(err)),
        Ok(vals) => {
            let builtin = match f.op_token {
                Some(op) => if vals.len() == 2 {
                    builtin_binary_fn(op, vals[0].value, vals[1].value)
                } else {
                    None
                },
                None => None,
            };
            match builtin {
                Some((bf, _)) => (st1, apply_binary(eng.limits, bf, vals[0], vals[1])),
                None => match find_script_fn(st1.g.lib, f.name@, vals.len()) {
                    None => (st1, Err(ErrV::FunctionNotFound(call_signature(f.name@, vals), pos))),
                    Some(d) => if regressed(st, st1) {
                        stuck(st1)
                    } else {
                        let (st2, t) = track(eng, st1, pos);
                        match t {
                            Err(err) => (st2, Err(err)),
                            Ok(()) => if !advanced(st1, st2) {
                                stuck(st2)
                            } else {
                                let body_st = St {
                                    g: GState { level: level_up(st2.g.level), ..st2.g },
                                    scope: bind_params(d.params@, vals),
                                    this: plain(Value::Null),
                                };
                                let (st3, r3) = if d.body@.len() == 0 {
                                    (body_st, Ok(unit_v()))
                                } else {
                                    sem_block(eng, body_st, d.body@, true)
                                };
                                (
                                    St { g: GState { level: st2.g.level, ..st3.g }, ..st2 },
                                    call_outcome(r3, d.name@, source_text(st2.g.source), pos),
                                )
                            },
                        }
                    },
                },
            }
        },
    }
}

/// The result of a call of the function `name` at `pos`, from the result of its body.
fn call_result(r: RhaiResult, name: &String, source: &Option<String>, pos: Position) -> (out: RhaiResult)
    ensures
        result_view(out) == call_outcome(result_view(r), name@, source_text(source_view(*source)), pos),
{
    match r {
        Ok(v) => Ok(v),
        Err(e) => match *e {
            EvalAltResult::Return(v, _) => Ok(v),
            mut other => {
                let system = match &other {
                    EvalAltResult::ErrorTooManyOperations(_) => true,
                    EvalAltResult::ErrorDataTooLarge(_, _) => true,
                    EvalAltResult::ErrorParsing(_, _) => true,
                    _ => false,
                };
                if system {
                    other.set_position(pos);
                    Err(Box::new(other))
                } else {
                    let src = match source {
                        Some(x) => x.clone(),
                        None => String::new(),
                    };
                    Err(Box::new(EvalAltResult::ErrorInFunctionCall(name.clone(), src, Box::new(other), pos)))
                }
            },
        },
    }
}

/// What a `for` loop runs over: values, or a run of consecutive integers (its start and
/// length).
pub enum IterSource {
    Values(Vec<Dynamic>),
    Ints(i64, u128),
}

/// The items of an iteration source.
pub open spec fn source_items(s: IterSource) -> Seq<DynV> {
    match s {
        IterSource::Values(v) => dyns_view(v@),
        IterSource::Ints(a, c) => Seq::new(c as nat, |i: int| plain(Value::Int((a + i) as i64))),
    }
}

/// A run of integers stays within `i64`.
pub open spec fn source_wf(s: IterSource) -> bool {
    match s {
        IterSource::Values(_) => true,
        IterSource::Ints(a, c) => a + c <= i64::MAX + 1,
    }
}

/// A character as a value.
pub open spec fn char_value(c: char) -> Value {
    Value::Char(c)
}

/// The characters of a string, each as a value.
fn char_values(t: &str) -> (out: Vec<Dynamic>)
    ensures
        dyns_view(out@) == Seq::new(t@.len(), |j: int| plain(char_value(t@[j]))),
{
    let cs = crate::text::str_chars(t);
    let mut out: Vec<Dynamic> = Vec::new();
    let mut i: usize = 0;
    while i < cs.len()
        invariant
            i <= cs@.len(),
            out@.len() == i,
            forall|j: int| 0 <= j < i ==> dyn_view(#[trigger] out@[j]) == plain(Value::Char(cs@[j])),
        decreases cs@.len() - i,
    {
        out.push(Dynamic::from_char(cs[i]));
        i += 1;
    }
    proof {
        crate::dynamic::lemma_dyns_view(out@);
    }
    let ghost want = Seq::new(t@.len(), |j: int| plain(char_value(t@[j])));
    assert(dyns_view(out@) =~= want);
    out
}

/// What a `for` loop over a value runs over, if the value can be iterated.
fn iter_source(v: Dynamic) -> (r: Option<IterSource>)
    ensures
        match iter_items(dyn_view(v).value) {
            Some(items) => r matches Some(s) && source_items(s) == items && source_wf(s),
            None => r is None,
        },
{
    let ghost gv = dyn_view(v);
    match v.value {
        Union::Array(a) => Some(IterSource::Values(a)),
        Union::Range(a, b) => {
            let c: u128 = if b > a {
                (b as i128 - a as i128) as u128
            } else {
                0
            };
            let r = IterSource::Ints(a, c);
            assert(source_items(r) =~= iter_items(gv.value)->Some_0);
            Some(r)
        },
        Union::RangeInclusive(a, b) => {
            let c: u128 = if b >= a {
                (b as i128 - a as i128 + 1) as u128
            } else {
                0
            };
            let r = IterSource::Ints(a, c);
            assert(source_items(r) =~= iter_items(gv.value)->Some_0);
            Some(r)
        },
        Union::Str(t) => {
            let out = char_values(t.as_str());
            assert(dyns_view(out@) =~= iter_items(gv.value)->Some_0);
            Some(IterSource::Values(out))
        },
        Union::Blob(b) => {
            let mut out: Vec<Dynamic> = Vec::new();
            let mut i: usize = 0;
            while i < b.len()
                invariant
                    i <= b@.len(),
                    out@.len() == i,
                    forall|j: int| 0 <= j < i ==> dyn_view(#[trigger] out@[j]) == plain(Value::Int(b@[j] as i64)),
                decreases b@.len() - i,
            {
                out.push(Dynamic::from_int(b[i] as i64));
                i += 1;
            }
            proof {
                crate::dynamic::lemma_dyns_view(out@);
                assert(dyns_view(out@) =~= iter_items(gv.value)->Some_0);
            }
            Some(IterSource::Values(out))
        },
        _ => None,
    }
}

/// The number of items of an iteration source.
fn source_len(s: &IterSource) -> (r: u128)
    ensures
        r == source_items(*s).len(),
{
    match s {
        IterSource::Values(v) => {
            proof {
                crate::dynamic::lemma_dyns_view(v@);
            }
            v.len() as u128
        },
        IterSource::Ints(_, c) => *c,
    }
}

/// The `k`-th item of an iteration source.
fn source_item(s: &IterSource, k: u64) -> (r: Dynamic)
    requires
        source_wf(*s),
        (k as int) < source_items(*s).len(),
    ensures
        r@ == source_items(*s)[k as int],
{
    match s {
        IterSource::Values(v) => {
            proof {
                crate::dynamic::lemma_dyns_view(v@);
            }
            assert(dyns_view(v@).len() == v@.len());
            let n = v.len();
            assert((k as int) < n);
            assert((k as usize) as int == k as int);
            let e = &v[k as usize];
            assert(dyn_view(*e) == dyns_view(v@)[k as int]);
            let r = e.deep_clone();
            assert(r@ == dyns_view(v@)[k as int]);
            r
        },
        IterSource::Ints(a, c) => {
            assert(*a + k <= i64::MAX);
            let x: i64 = (*a as i128 + k as i128) as i64;
            assert(x == *a + k);
            assert(source_items(*s)[k as int] == plain(Value::Int(x)));
            Dynamic::from_int(x)
        },
    }
}

/// Can a `catch` block catch the error?
fn is_catchable_exec(e: &EvalAltResult) -> (r: bool)
    ensures
        r == is_catchable(err_view(*e)),
    decreases e,
{
    match e {
        EvalAltResult::ErrorTooManyOperations(_) => false,
        EvalAltResult::ErrorDataTooLarge(_, _) => false,
        EvalAltResult::ErrorParsing(_, _) => false,
        EvalAltResult::LoopBreak(_, _, _) => false,
        EvalAltResult::Return(_, _) => false,
        EvalAltResult::ErrorInFunctionCall(_, _, inner, _) => is_catchable_exec(inner),
        _ => true,
    }
}

/// The innermost error, through errors in function calls.
fn unwrap_inner_exec(e: &EvalAltResult) -> (r: &EvalAltResult)
    ensures
        err_view(*r) == unwrap_inner(err_view(*e)),
    decreases e,
{
    match e {
        EvalAltResult::ErrorInFunctionCall(_, _, inner, _) => unwrap_inner_exec(inner),
        _ => e,
    }
}

/// A fixed text followed by another.
fn text_then(a: &str, b: &str) -> (r: String)
    ensures
        r@ == a@ + b@,
{
    let mut t = crate::text::string_of(a);
    t.append(b);
    t
}

/// The text of an error (without its position).
fn error_text_exec(e: &EvalAltResult) -> (r: String)
    ensures
        r@ == error_text(err_view(*e)),
    decreases e,
{
    match e {
        EvalAltResult::ErrorArithmetic(m, _) => {
            if m.as_str().is_empty() {
                crate::text::string_of("Arithmetic error")
            } else {
                m.clone()
            }
        },
        EvalAltResult::ErrorDataTooLarge(m, _) => text_then(m.as_str(), " exceeds maximum limit"),
        EvalAltResult::ErrorTooManyOperations(_) => crate::text::string_of("Too many operations"),
        EvalAltResult::ErrorVariableNotFound(m, _) => text_then("Variable not found: ", m.as_str()),
        EvalAltResult::ErrorUnboundThis(_) => crate::text::string_of("'this' not bound"),
        EvalAltResult::ErrorAssignmentToConstant(m, _) => text_then("Cannot modify constant ", m.as_str()),
        EvalAltResult::ErrorMismatchDataType(a, b, _) => {
            let mut t = text_then("Data type incorrect: ", b.as_str());
            t.append(" (expecting ");
            t.append(a.as_str());
            t.append(")");
            t
        },
        EvalAltResult::ErrorMismatchOutputType(a, b, _) => {
            let mut t = text_then("Output type incorrect: ", b.as_str());
            t.append(" (expecting ");
            t.append(a.as_str());
            t.append(")");
            t
        },
        EvalAltResult::ErrorFunctionNotFound(m, _) => text_then("Function not found: ", m.as_str()),
        EvalAltResult::ErrorVariableExists(m, _) => text_then("Variable already defined: ", m.as_str()),
        EvalAltResult::ErrorParsing(m, _) => m.clone(),
        EvalAltResult::ErrorRuntime(_, _) => crate::text::string_of("Runtime error"),
        EvalAltResult::LoopBreak(true, _, _) => crate::text::string_of("Break statement not inside a loop"),
        EvalAltResult::LoopBreak(false, _, _) => crate::text::string_of("Continue statement not inside a loop"),
        EvalAltResult::Return(_, _) => crate::text::string_of("NOT AN ERROR - function returns value"),
        EvalAltResult::ErrorInFunctionCall(n, _, inner, _) => {
            let mut t = error_text_exec(inner);
            t.append("\nin call to function '");
            t.append(n.as_str());
            t.append("'");
            t
        },
        EvalAltResult::ErrorFor(_) => crate::text::string_of("For loop expects an iterable type"),
    }
}

/// The value bound to the variable of a `catch` block.
fn caught_value_exec(e: &EvalAltResult, source: &Option<String>) -> (r: Dynamic)
    ensures
        r@ == caught_value(err_view(*e), source_view(*source)),
{
    match unwrap_inner_exec(e) {
        EvalAltResult::ErrorRuntime(v, _) => {
            return v.deep_clone();
        },
        _ => {},
    }
    let p = e.position();
    let mut entries: Vec<MapEntry> = Vec::new();
    if p.line != 0 {
        entries.push(MapEntry { key: crate::text::string_of("line"), value: Dynamic::from_int(p.line as i64) });
    }
    entries.push(MapEntry { key: crate::text::string_of("message"), value: Dynamic::from_string(error_text_exec(e)) });
    if p.line != 0 {
        entries.push(MapEntry { key: crate::text::string_of("position"), value: Dynamic::from_int(p.pos as i64) });
    }
    match source {
        Some(t) => {
            entries.push(MapEntry { key: crate::text::string_of("source"), value: Dynamic::from_string(t.clone()) });
        },
        None => {},
    }
    proof {
        crate::dynamic::lemma_entries_view(entries@);
        assert(entries_view(entries@) =~= error_map(err_view(*e), source_view(*source)));
    }
    Dynamic::from_union(Union::ObjectMap(entries))
}

/// The outcome of a `catch` block, given the caught error.
fn catch_outcome_exec(caught: Box<EvalAltResult>, r: RhaiResult) -> (out: RhaiResult)
    ensures
        result_view(out) == catch_outcome(err_view(*caught), result_view(r)),
{
    match r {
        Ok(_) => Ok(Dynamic::unit()),
        Err(x) => match *x {
            EvalAltResult::ErrorRuntime(v, p) => {
                if v.is_unit() {
                    let mut c = *caught;
                    c.set_position(p);
                    Err(Box::new(c))
                } else {
                    Err(Box::new(EvalAltResult::ErrorRuntime(v, p)))
                }
            },
            other => Err(Box::new(other)),
        },
    }
}

/// Find the last script-defined function of `lib` with this name and number of parameters.
fn find_script_fn_exec(lib: &Vec<Rc<ScriptFuncDef>>, name: &str, n: usize) -> (r: Option<Rc<ScriptFuncDef>>)
    ensures
        r == find_script_fn(lib@, name@, n as nat),
{
    let mut i = lib.len();
    assert(lib@.take(i as int) =~= lib@);
    while i > 0
        invariant
            i <= lib@.len(),
            find_script_fn(lib@, name@, n as nat) == find_script_fn(lib@.take(i as int), name@, n as nat),
        decreases i,
    {
        let ghost t = lib@.take(i as int);
        proof {
            assert(t.drop_last() =~= lib@.take(i - 1));
            assert(t.last() == lib@[i - 1]);
        }
        if crate::text::str_eq(lib[i - 1].name.as_str(), name) && lib[i - 1].params.len() == n {
            return Some(crate::callable::share(&lib[i - 1]));
        }
        i -= 1;
    }
    None
}

/// The last script-defined function of `lib` with this name and number of parameters, if any.
pub open spec fn find_script_fn(lib: Seq<Rc<ScriptFuncDef>>, name: Seq<char>, n: nat) -> Option<Rc<ScriptFuncDef>>
    decreases lib.len(),
{
    if lib.len() == 0 {
        None
    } else if lib.last().name@ == name && lib.last().params@.len() == n {
        Some(lib.last())
    } else {
        find_script_fn(lib.drop_last(), name, n)
    }
}

/// A function found has the name and number of parameters searched for.
pub proof fn lemma_find_script_fn(lib: Seq<Rc<ScriptFuncDef>>, name: Seq<char>, n: nat)
    ensures
        find_script_fn(lib, name, n) matches Some(d) ==> d.name@ == name && d.params@.len() == n,
    decreases lib.len(),
{
    if lib.len() > 0 {
        lemma_find_script_fn(lib.drop_last(), name, n);
    }
}

/// The scope of a called function: its parameters, bound to the arguments.
pub open spec fn bind_params(params: Seq<String>, vals: Seq<DynV>) -> Seq<VarV> {
    Seq::new(vals.len(), |i: int| VarV { name: params[i]@, value: vals[i], constant: false, aliases: Seq::empty() })
}

/// Is the error one that the system raises (too many operations, data too large, a parse
/// error), which passes out of a function call unwrapped?
pub open spec fn is_system_err(e: ErrV) -> bool {
    e is TooManyOperations || e is DataTooLarge || e is Parsing
}

/// The source of a run, as a text (empty when there is none).
pub open spec fn source_text(source: Option<Seq<char>>) -> Seq<char> {
    match source {
        Some(s) => s,
        None => Seq::empty(),
    }
}

/// The result of a call of the function `name` at `pos` from the outcome of its body: a
/// `return` gives its value; a system error passes out at the call's position; any other
/// error is wrapped as an error in the function call.
pub open spec fn call_outcome(r: Result<DynV, ErrV>, name: Seq<char>, source: Seq<char>, pos: Position) -> Result<DynV, ErrV> {
    match r {
        Ok(v) => Ok(v),
        Err(ErrV::Return(v, _)) => Ok(v),
        Err(e) => if is_system_err(e) {
            Err(err_with_position(e, pos))
        } else {
            Err(ErrV::InFunctionCall(name, source, Box::new(e), pos))
        },
    }
}

/// Evaluating the statements of a block from the `i`-th on; the value of the block is that
/// of its last statement.
pub open spec fn sem_stmts(eng: Engine, st: St, stmts: Seq<Stmt>, i: int, last: DynV) -> (
    St,
    Result<DynV, ErrV>,
)
    decreases fuel(st), 1nat, stmts.len() - i,
{
    if i < 0 || i >= stmts.len() {
        (st, Ok(last))
    } else {
        let (st1, r) = sem_stmt(eng, st, stmts[i]);
        if regressed(st, st1) {
            stuck(st1)
        } else {
            match r {
                Err(err) => (st1, Err(err)),
                Ok(v) => sem_stmts(eng, st1, stmts, i + 1, v),
            }
        }
    }
}

/// Evaluating a block of statements; when `restore` is set, the block is a new nesting level
/// and the variables it defines go out of scope at its end (also on error).
pub open spec fn sem_block(eng: Engine, st: St, stmts: Seq<Stmt>, restore: bool) -> (
    St,
    Result<DynV, ErrV>,
)
    decreases fuel(st), 2nat, 0nat,
{
    if stmts.len() == 0 {
        (st, Ok(unit_v()))
    } else {
        let st0 = if restore {
            St { g: GState { scope_level: level_up(st.g.scope_level), ..st.g }, ..st }
        } else {
            st
        };
        let (st2, r) = sem_stmts(eng, st0, stmts, 0, unit_v());
        if restore {
            (
                St {
                    g: GState {
                        scope_level: st.g.scope_level,
                        always_search_scope: st.g.always_search_scope,
                        ..st2.g
                    },
                    scope: rewind(st2.scope, st.scope.len()),
                    ..st2
                },
                r,
            )
        } else {
            (st2, r)
        }
    }
}

/// The body of a loop ran to its end or was left by `continue`: the loop goes on.
pub open spec fn loop_goes_on(r: Result<DynV, ErrV>) -> bool {
    r is Ok || r matches Err(ErrV::LoopBreak(false, _, _))
}

/// The outcome of a loop whose body ended in `r`, when it does not go on.
pub open spec fn loop_exit(r: Result<DynV, ErrV>) -> Result<DynV, ErrV> {
    match r {
        Err(ErrV::LoopBreak(true, v, _)) => Ok(v),
        _ => r,
    }
}

/// An endless loop with an empty body: it counts operations until the count fails.
pub open spec fn sem_spin(eng: Engine, st: St, pos: Position) -> (St, Result<DynV, ErrV>)
    decreases fuel(st), 3nat, 0nat,
{
    let (st1, t) = track(eng, st, pos);
    match t {
        Err(err) => (st1, Err(err)),
        Ok(()) => if advanced(st, st1) {
            sem_spin(eng, st1, pos)
        } else {
            stuck(st1)
        },
    }
}

/// An endless loop (`loop`, `while true`) with a non-empty body.
pub open spec fn sem_loop(eng: Engine, st: St, body: Seq<Stmt>) -> (St, Result<DynV, ErrV>)
    decreases fuel(st), 3nat, 0nat,
{
    let (st1, r) = sem_block(eng, st, body, true);
    if loop_goes_on(r) {
        if advanced(st, st1) {
            sem_loop(eng, st1, body)
        } else {
            stuck(st1)
        }
    } else {
        (st1, loop_exit(r))
    }
}

/// A `while` loop.
pub open spec fn sem_while(eng: Engine, st: St, cond: Expr, body: Seq<Stmt>) -> (
    St,
    Result<DynV, ErrV>,
)
    decreases fuel(st), 3nat, 0nat,
{
    let (st1, c) = sem_expr(eng, st, cond);
    match as_bool_at(c, expr_pos(cond)) {
        Err(err) => (st1, Err(err)),
        Ok(false) => (st1, Ok(unit_v())),
        Ok(true) => if !advanced(st, st1) {
            stuck(st1)
        } else if body.len() == 0 {
            sem_while(eng, st1, cond, body)
        } else {
            let (st2, r) = sem_block(eng, st1, body, true);
            if loop_goes_on(r) {
                if regressed(st1, st2) {
                    stuck(st2)
                } else {
                    sem_while(eng, st2, cond, body)
                }
            } else {
                (st2, loop_exit(r))
            }
        },
    }
}

/// The items a `for` loop runs over: an array's values, the integers of a range, a string's
/// characters, a BLOB's bytes; none for any other value.
pub open spec fn iter_items(v: Value) -> Option<Seq<DynV>> {
    match v {
        Value::Array(a) => Some(a),
        Value::Range(a, b) => Some(Seq::new(
            if b > a {
                (b - a) as nat
            } else {
                0
            },
            |i: int| plain(Value::Int((a + i) as i64)),
        )),
        Value::RangeInclusive(a, b) => Some(Seq::new(
            if b >= a {
                (b - a + 1) as nat
            } else {
                0
            },
            |i: int| plain(Value::Int((a + i) as i64)),
        )),
        Value::Str(t) => Some(Seq::new(t.len(), |i: int| plain(char_value(t[i])))),
        Value::Blob(b) => Some(Seq::new(b.len(), |i: int| plain(Value::Int(b[i] as i64)))),
        _ => None,
    }
}

/// The message of a `for`-loop counter that would overflow at `k`.
pub open spec fn counter_overflow_msg(k: nat) -> Seq<char> {
    "for-loop counter overflow: "@ + nat_str(k)
}

/// The `k`-th and later rounds of a `for` loop over `items`: the counter (at `ci`, if any)
/// is set to `k`, the loop variable (at `vi`) to the item, one operation is counted, and the
/// body runs; `continue` goes on, `break` ends the loop with its value.
pub open spec fn sem_for_loop(
    eng: Engine,
    st: St,
    items: Seq<DynV>,
    k: nat,
    ci: Option<int>,
    cpos: Position,
    vi: int,
    body: Seq<Stmt>,
    pos: Position,
) -> (St, Result<DynV, ErrV>)
    decreases fuel(st), 3nat, 0nat,
{
    if k >= items.len() {
        (st, Ok(unit_v()))
    } else if ci is Some && k > i64::MAX {
        (st, Err(ErrV::Arithmetic(counter_overflow_msg(k), cpos)))
    } else {
        let s1 = match ci {
            Some(c) => st.scope.update(c, VarV { value: plain(Value::Int(k as i64)), ..st.scope[c] }),
            None => st.scope,
        };
        let sta = St { scope: s1.update(vi, VarV { value: items[k as int], ..s1[vi] }), ..st };
        let (st1, t) = track(eng, sta, pos);
        match t {
            Err(err) => (st1, Err(err)),
            Ok(()) => if !advanced(sta, st1) {
                stuck(st1)
            } else if body.len() == 0 {
                sem_for_loop(eng, st1, items, k + 1, ci, cpos, vi, body, pos)
            } else {
                let (st2, r) = sem_block(eng, st1, body, true);
                if loop_goes_on(r) {
                    if regressed(st1, st2) {
                        stuck(st2)
                    } else {
                        sem_for_loop(eng, st2, items, k + 1, ci, cpos, vi, body, pos)
                    }
                } else {
                    (st2, loop_exit(r))
                }
            },
        }
    }
}

/// A `for` loop: the items of the value of `expr`, each bound in turn to the loop variable
/// (and its number to the counter, if named) while the body runs; both variables leave the
/// scope when the loop ends, also on error.
pub open spec fn sem_for(eng: Engine, st: St, var: Ident, counter: Ident, expr: Expr, body: Seq<Stmt>, pos: Position) -> (
    St,
    Result<DynV, ErrV>,
)
    decreases fuel(st), 4nat, 0nat,
{
    let (st2, r) = sem_expr(eng, st, expr);
    match r {
        Err(err) => (st2, Err(err)),
        Ok(v) => match iter_items(v.value) {
            None => (st2, Err(ErrV::For(expr_pos(expr)))),
            Some(items) => if regressed(st, st2) {
                stuck(st2)
            } else {
                let n = st2.scope.len();
                let has_counter = counter.name@.len() > 0;
                let s_c = if has_counter {
                    st2.scope.push(VarV { name: counter.name@, value: plain(Value::Int(0)), constant: false, aliases: Seq::empty() })
                } else {
                    st2.scope
                };
                let s_v = s_c.push(VarV { name: var.name@, value: unit_v(), constant: false, aliases: Seq::empty() });
                let ci = if has_counter {
                    Some(n as int)
                } else {
                    None
                };
                let (st3, r3) = sem_for_loop(eng, St { scope: s_v, ..st2 }, items, 0, ci, counter.pos, s_v.len() - 1, body, pos);
                (St { scope: rewind(st3.scope, n), ..st3 }, r3)
            },
        },
    }
}

/// Can a `catch` block catch the error? Not a pseudo-error (`break`, `continue`, `return`),
/// nor one the system raises (too many operations, data too large, a parse error); an error
/// in a function call is caught where its inner error is.
pub open spec fn is_catchable(e: ErrV) -> bool
    decreases e,
{
    match e {
        ErrV::TooManyOperations(_) => false,
        ErrV::DataTooLarge(_, _) => false,
        ErrV::Parsing(_, _) => false,
        ErrV::LoopBreak(_, _, _) => false,
        ErrV::Return(_, _) => false,
        ErrV::InFunctionCall(_, _, inner, _) => is_catchable(*inner),
        _ => true,
    }
}

/// The innermost error, through errors in function calls.
pub open spec fn unwrap_inner(e: ErrV) -> ErrV
    decreases e,
{
    match e {
        ErrV::InFunctionCall(_, _, inner, _) => unwrap_inner(*inner),
        _ => e,
    }
}

/// The text of an error (without its position).
pub open spec fn error_text(e: ErrV) -> Seq<char>
    decreases e,
{
    match e {
        ErrV::Arithmetic(m, _) => if m.len() == 0 {
            "Arithmetic error"@
        } else {
            m
        },
        ErrV::DataTooLarge(m, _) => m + " exceeds maximum limit"@,
        ErrV::TooManyOperations(_) => "Too many operations"@,
        ErrV::VariableNotFound(m, _) => "Variable not found: "@ + m,
        ErrV::UnboundThis(_) => "'this' not bound"@,
        ErrV::AssignmentToConstant(m, _) => "Cannot modify constant "@ + m,
        ErrV::MismatchDataType(a, b, _) => "Data type incorrect: "@ + b + " (expecting "@ + a + ")"@,
        ErrV::MismatchOutputType(a, b, _) => "Output type incorrect: "@ + b + " (expecting "@ + a + ")"@,
        ErrV::FunctionNotFound(m, _) => "Function not found: "@ + m,
        ErrV::VariableExists(m, _) => "Variable already defined: "@ + m,
        ErrV::Parsing(m, _) => m,
        ErrV::Runtime(_, _) => "Runtime error"@,
        ErrV::LoopBreak(true, _, _) => "Break statement not inside a loop"@,
        ErrV::LoopBreak(false, _, _) => "Continue statement not inside a loop"@,
        ErrV::Return(_, _) => "NOT AN ERROR - function returns value"@,
        ErrV::InFunctionCall(n, _, inner, _) => error_text(*inner) + "\nin call to function '"@ + n + "'"@,
        ErrV::For(_) => "For loop expects an iterable type"@,
    }
}

/// The properties of the object map a caught error becomes, in key order: its line and
/// position (where it has one), its message, and the source of the run (where there is one).
pub open spec fn error_map(e: ErrV, source: Option<Seq<char>>) -> Seq<(Seq<char>, DynV)> {
    let p = err_position(e);
    let line = if p.line != 0 {
        seq![("line"@, plain(Value::Int(p.line as i64)))]
    } else {
        Seq::empty()
    };
    let position = if p.line != 0 {
        seq![("position"@, plain(Value::Int(p.pos as i64)))]
    } else {
        Seq::empty()
    };
    let src = match source {
        Some(t) => seq![("source"@, plain(Value::Str(t)))],
        None => Seq::empty(),
    };
    line + seq![("message"@, plain(Value::Str(error_text(e))))] + position + src
}

/// The value bound to the variable of a `catch` block: a thrown value as it was thrown, else
/// the error as an object map.
pub open spec fn caught_value(e: ErrV, source: Option<Seq<char>>) -> DynV {
    match unwrap_inner(e) {
        ErrV::Runtime(v, _) => v,
        _ => plain(Value::ObjectMap(error_map(e, source))),
    }
}

/// The outcome of a `catch` block: `()`, or its error; `throw` without a value throws the
/// caught error again, at the position of the `throw`.
pub open spec fn catch_outcome(caught: ErrV, r: Result<DynV, ErrV>) -> Result<DynV, ErrV> {
    match r {
        Ok(_) => Ok(unit_v()),
        Err(ErrV::Runtime(v, p)) => if v.value is Unit {
            Err(err_with_position(caught, p))
        } else {
            r
        },
        Err(_) => r,
    }
}

/// A `try` block and its `catch` block: a catchable error of the `try` block is bound to the
/// catch variable (if named) while the `catch` block runs, and leaves the scope after it;
/// other errors pass through.
pub open spec fn sem_try(eng: Engine, st: St, try_block: Seq<Stmt>, var: Ident, catch_block: Seq<Stmt>) -> (
    St,
    Result<DynV, ErrV>,
)
    decreases fuel(st), 4nat, 0nat,
{
    let (st2, r) = sem_block(eng, st, try_block, true);
    match r {
        Ok(v) => (st2, Ok(v)),
        Err(e) => if !is_catchable(e) {
            (st2, Err(e))
        } else if regressed(st, st2) {
            stuck(st2)
        } else {
            let n = st2.scope.len();
            let named = var.name@.len() > 0;
            let s = if named {
                st2.scope.push(VarV { name: var.name@, value: caught_value(e, st2.g.source), constant: false, aliases: Seq::empty() })
            } else {
                st2.scope
            };
            let (st3, r3) = sem_block(eng, St { scope: s, ..st2 }, catch_block, true);
            let st4 = if named {
                St { scope: rewind(st3.scope, n), ..st3 }
            } else {
                st3
            };
            (st4, catch_outcome(e, r3))
        },
    }
}

/// A `do` loop; it stops when the condition is false (`while`) or true (`until`).
/// A `continue` in its body goes back to the body without testing the condition.
pub open spec fn sem_do(eng: Engine, st: St, cond: Expr, body: Seq<Stmt>, until: bool) -> (
    St,
    Result<DynV, ErrV>,
)
    decreases fuel(st), 3nat, 0nat,
{
    let (st1, r) = if body.len() == 0 {
        (st, Ok(unit_v()))
    } else {
        sem_block(eng, st, body, true)
    };
    match r {
        Err(ErrV::LoopBreak(false, _, _)) => if advanced(st, st1) {
            sem_do(eng, st1, cond, body, until)
        } else {
            stuck(st1)
        },
        Err(ErrV::LoopBreak(true, v, _)) => (st1, Ok(v)),
        Err(err) => (st1, Err(err)),
        Ok(_) => if regressed(st, st1) {
            stuck(st1)
        } else {
            let (st2, c) = sem_expr(eng, st1, cond);
            match as_bool_at(c, expr_pos(cond)) {
                Err(err) => (st2, Err(err)),
                Ok(b) => if b == until {
                    (st2, Ok(unit_v()))
                } else if advanced(st, st2) {
                    sem_do(eng, st2, cond, body, until)
                } else {
                    stuck(st2)
                },
            }
        },
    }
}

/// Is the condition of a `while` loop the constant `()` or `true` (an endless loop)?
pub open spec fn is_endless(cond: Expr) -> bool {
    cond is Unit || cond matches Expr::BoolConstant(true, _)
}

/// The value of an optional expression, `()` when absent.
pub open spec fn sem_opt_expr(eng: Engine, st: St, e: Option<Box<Expr>>) -> (
    St,
    Result<DynV, ErrV>,
)
    decreases fuel(st), 1nat, 0nat,
{
    match e {
        Some(x) => sem_expr(eng, st, *x),
        None => (st, Ok(unit_v())),
    }
}

/// Evaluating a statement.
pub open spec fn sem_stmt(eng: Engine, st: St, s: Stmt) -> (St, Result<DynV, ErrV>)
    decreases fuel(st), 0nat, 0nat,
{
    let (st1, t) = track(eng, st, stmt_pos(s));
    match t {
        Err(err) => (st1, Err(err)),
        Ok(_) => match s {
            Stmt::Noop(_) => (st1, Ok(unit_v())),
            Stmt::Expr(e) => sem_expr(eng, st1, *e),
            Stmt::FnCall(f, pos) => sem_fn_call(eng, st1, *f, pos),
            Stmt::Block(stmts, _) => if stmts@.len() == 0 {
                (st1, Ok(unit_v()))
            } else {
                sem_block(eng, st1, stmts@, true)
            },
            Stmt::If(x, _) => {
                let (st2, c) = sem_expr(eng, st1, x.0);
                if regressed(st1, st2) {
                    stuck(st2)
                } else {
                    match as_bool_at(c, expr_pos(x.0)) {
                        Err(err) => (st2, Err(err)),
                        Ok(g) => if g && x.1@.len() > 0 {
                            sem_block(eng, st2, x.1@, true)
                        } else if !g && x.2@.len() > 0 {
                            sem_block(eng, st2, x.2@, true)
                        } else {
                            (st2, Ok(unit_v()))
                        },
                    }
                }
            },
            Stmt::While(x, pos) => if is_endless(x.0) {
                if x.1@.len() == 0 {
                    sem_spin(eng, st1, pos)
                } else {
                    sem_loop(eng, st1, x.1@)
                }
            } else {
                sem_while(eng, st1, x.0, x.1@)
            },
            Stmt::Do(x, until, _) => sem_do(eng, st1, x.0, x.1@, until),
            Stmt::BreakLoop(e, is_break, pos) => {
                let (st2, r) = sem_opt_expr(eng, st1, e);
                match r {
                    Ok(v) => (st2, Err(ErrV::LoopBreak(is_break, v, pos))),
                    Err(err) => (st2, Err(err)),
                }
            },
            Stmt::Return(e, is_throw, pos) => {
                let (st2, r) = sem_opt_expr(eng, st1, e);
                match r {
                    Ok(v) => if is_throw {
                        (st2, Err(ErrV::Runtime(v, pos)))
                    } else {
                        (st2, Err(ErrV::Return(v, pos)))
                    },
                    Err(err) => (st2, Err(err)),
                }
            },
            Stmt::Var(x, is_const, pos) => if !eng.allow_shadowing && scope_search(
                st1.scope,
                x.0.name@,
            ) is Some {
                (st1, Err(ErrV::VariableExists(x.0.name@, pos)))
            } else {
                let (st2, r) = sem_expr(eng, st1, x.1);
                match r {
                    Ok(v) => (
                        St {
                            scope: st2.scope.push(
                                VarV { name: x.0.name@, value: v, constant: is_const, aliases: Seq::empty() },
                            ),
                            ..st2
                        },
                        Ok(unit_v()),
                    ),
                    Err(err) => (st2, Err(err)),
                }
            },
            Stmt::For(x, pos) => sem_for(eng, st1, x.0, x.1, x.2, x.3@, pos),
            Stmt::TryCatch(x, _) => sem_try(eng, st1, x.0@, x.1, x.2@),
            Stmt::Export(x, _) => match scope_search(st1.scope, x.0.name@) {
                Some(i) => {
                    let alias = if x.1.name@.len() == 0 {
                        x.0.name@
                    } else {
                        x.1.name@
                    };
                    (
                        St {
                            scope: st1.scope.update(
                                i,
                                VarV { aliases: add_alias(st1.scope[i].aliases, alias), ..st1.scope[i] },
                            ),
                            ..st1
                        },
                        Ok(unit_v()),
                    )
                },
                None => (st1, Err(ErrV::VariableNotFound(x.0.name@, x.0.pos))),
            },
            Stmt::Assignment(x, _) => {
                let (op_info, var, var_pos, rhs) = *x;
                let (st2, r) = sem_expr(eng, st1, rhs);
                match r {
                    Err(err) => (st2, Err(err)),
                    Ok(v) => match sem_search(st2, var, var_pos) {
                        Err(err) => (st2, Err(err)),
                        Ok(slot) => {
                            let (st3, t2) = track(eng, st2, var_pos);
                            match t2 {
                                Err(err) => (st3, Err(err)),
                                Ok(()) => {
                                    let (st4, o) = sem_op_assignment(
                                        eng,
                                        st3,
                                        op_info,
                                        var.name@,
                                        var_pos,
                                        slot,
                                        v,
                                    );
                                    match o {
                                        Ok(()) => (st4, Ok(unit_v())),
                                        Err(err) => (st4, Err(err)),
                                    }
                                },
                            }
                        },
                    },
                }
            },
        },
    }
}

/// Evaluating the statements of a script at global level, with no `this` value:
/// a `return` ends the script with its value.
pub open spec fn sem_global(eng: Engine, st: St, stmts: Seq<Stmt>) -> (St, Result<DynV, ErrV>) {
    let (st1, r) = sem_block(eng, st, stmts, false);
    match r {
        Err(ErrV::Return(v, _)) => (st1, Ok(v)),
        _ => (st1, r),
    }
}

/// The abstract state of an evaluation step.
pub open spec fn st_of(g: GlobalRuntimeState, scope: Scope, this: Dynamic) -> St {
    St { g: g_view(g), scope: scope@, this: dyn_view(this) }
}

/// The operation count moved forward, strictly so when the result is a value or a
/// `break`/`continue` (which means that at least one operation was counted).
pub open spec fn progressed(a: u64, b: u64, r: Result<DynV, ErrV>) -> bool {
    &&& b >= a
    &&& (r is Ok || r matches Err(ErrV::LoopBreak(_, _, _))) ==> b > a
}

/// The operations limit `max` (zero: none) holds: a run that started within it and ended
/// beyond it reports too many operations.
pub open spec fn within_limit(max: u64, a: u64, b: u64, r: Result<DynV, ErrV>) -> bool {
    max > 0 && a <= max && b > max ==> r matches Err(ErrV::TooManyOperations(_))
}

/// Where an assignment writes: the `this` value or the variable at an index of the scope.
pub enum Target {
    /// The `this` value.
    This,
    /// The variable at an index of the scope.
    Var(usize),
}

/// The slot a target stands for.
pub open spec fn target_slot(t: Target) -> Slot {
    match t {
        Target::This => Slot::This,
        Target::Var(i) => Slot::Var(i as int),
    }
}

/// The names of the types of some values, separated by `", "`.
fn type_names_exec(vals: &Vec<Dynamic>) -> (r: String)
    ensures
        r@ == type_names(crate::dynamic::dyns_view(vals@)),
{
    proof {
        crate::dynamic::lemma_dyns_view(vals@);
    }
    let mut out = String::new();
    let mut i: usize = 0;
    while i < vals.len()
        invariant
            i <= vals@.len(),
            crate::dynamic::dyns_view(vals@).len() == vals@.len(),
            forall|j: int|
                0 <= j < vals@.len() ==> #[trigger] crate::dynamic::dyns_view(vals@)[j] == dyn_view(
                    vals@[j],
                ),
            out@ == type_names(crate::dynamic::dyns_view(vals@).take(i as int)),
        decreases vals.len() - i,
    {
        let ghost t = crate::dynamic::dyns_view(vals@).take(i + 1);
        proof {
            assert(t.drop_last() =~= crate::dynamic::dyns_view(vals@).take(i as int));
            assert(t.last() == dyn_view(vals@[i as int]));
            if i == 0 {
                assert(t =~= seq![dyn_view(vals@[0])]);
            }
        }
        if i > 0 {
            out.append(", ");
        }
        let n = vals[i].type_name_string();
        out.append(n.as_str());
        i += 1;
    }
    proof {
        assert(crate::dynamic::dyns_view(vals@).take(vals@.len() as int) =~= crate::dynamic::dyns_view(
            vals@,
        ));
    }
    out
}

/// The signature of a call: `name (type1, type2, ...)`.
fn call_signature_exec(name: &str, vals: &Vec<Dynamic>) -> (r: String)
    ensures
        r@ == call_signature(name@, crate::dynamic::dyns_view(vals@)),
{
    let mut out = crate::text::string_of(name);
    out.append(" (");
    let t = type_names_exec(vals);
    out.append(t.as_str());
    out.append(")");
    out
}

impl Engine {
    /// Find the target of a variable reference: `this`, the variable at its recorded offset
    /// from the end of the scope, or else the last variable of that name.
    pub fn search_scope_only(
        &self,
        global: &GlobalRuntimeState,
        scope: &Scope,
        this_ptr: &Dynamic,
        var: &VariableRef,
        pos: Position,
    ) -> (r: RhaiResultOf<Target>)
        ensures
            match r {
                Ok(t) => sem_search(st_of(*global, *scope, *this_ptr), *var, pos) == Ok::<Slot, ErrV>(
                    target_slot(t),
                ) && (t matches Target::Var(i) ==> i < scope@.len()),
                Err(e) => sem_search(st_of(*global, *scope, *this_ptr), *var, pos) == Err::<
                    Slot,
                    ErrV,
                >(e@),
            },
    {
        if var.index == 0 && crate::text::str_eq(var.name.as_str(), "this") {
            if this_ptr.is_null() {
                return Err(Box::new(EvalAltResult::ErrorUnboundThis(pos)));
            }
            return Ok(Target::This);
        }
        proof {
            crate::scope::lemma_scope_search(scope@, var.name@);
        }
        if global.always_search_scope || var.index == 0 || var.index > scope.len() {
            match scope.search(var.name.as_str()) {
                Some(i) => Ok(Target::Var(i)),
                None => Err(
                    Box::new(EvalAltResult::ErrorVariableNotFound(var.name.clone(), pos)),
                ),
            }
        } else {
            Ok(Target::Var(scope.len() - var.index))
        }
    }

    /// Apply an operator-assignment `x op_assign y` to a value: the built-in
    /// operator-assignment if there is one (checking the data size of the result unless fast
    /// operators are on), else `x = x op y` with the built-in binary operator.
    pub fn op_assign_value(
        &self,
        op_assign: Token,
        op: Token,
        op_pos: Position,
        root_pos: Position,
        x: &mut Dynamic,
        y: Dynamic,
    ) -> (r: RhaiResultOf<()>)
        ensures
            (final(x)@, unit_result_view(r)) == op_assign_outcome(
                *self,
                op_assign,
                op,
                op_pos,
                root_pos,
                old(x)@,
                y@,
            ),
    {
        match get_builtin_op_assignment_fn(op_assign, &*x, &y) {
            Some((f, _)) => {
                if self.fast_operators {
                    call_builtin_op_assign(self, f, x, y)
                } else {
                    match call_builtin_op_assign(self, f, x, y) {
                        Ok(()) => self.check_data_size(&*x, root_pos),
                        Err(e) => Err(e.fill_position(op_pos)),
                    }
                }
            },
            None => match get_builtin_binary_op_fn(op, &*x, &y) {
                Some((f, _)) => match call_builtin_binary_op(self, f, &*x, &y) {
                    Ok(v) => {
                        *x = v;
                        self.check_data_size(&*x, root_pos)
                    },
                    Err(e) => Err(e.fill_position(op_pos)),
                },
                None => {
                    let mut vals: Vec<Dynamic> = Vec::new();
                    vals.push(x.deep_clone());
                    vals.push(y);
                    proof {
                        crate::dynamic::lemma_dyns_view(vals@);
                        assert(crate::dynamic::dyns_view(vals@) =~= seq![old(x)@, y@]);
                    }
                    let sig = call_signature_exec(op.literal_syntax(), &vals);
                    Err(Box::new(EvalAltResult::ErrorFunctionNotFound(sig, op_pos)))
                },
            },
        }
    }

    /// Assign to a found target: `target = new_val`, or `target op= new_val`.
    pub fn eval_op_assignment(
        &self,
        scope: &mut Scope,
        this_ptr: &mut Dynamic,
        op_info: &OpAssignment,
        name: &String,
        var_pos: Position,
        target: Target,
        new_val: Dynamic,
    ) -> (r: RhaiResultOf<()>)
        requires
            target matches Target::Var(i) ==> i < old(scope)@.len(),
        ensures
            ({
                let st = St { g: GState { num_operations: 0, scope_level: 0, level: 0,
                    always_search_scope: false, source: None, tag: unit_v(), lib: Seq::empty() },
                    scope: old(scope)@, this: old(this_ptr)@ };
                let (st2, o) = sem_op_assignment(*self, st, *op_info, name@, var_pos,
                    target_slot(target), new_val@);
                &&& final(scope)@ == st2.scope
                &&& final(this_ptr)@ == st2.this
                &&& unit_result_view(r) == o
            }),
    {
        let read_only = match target {
            Target::This => false,
            Target::Var(i) => scope.is_constant_at(i),
        };
        if read_only {
            return Err(Box::new(EvalAltResult::ErrorAssignmentToConstant(name.clone(), var_pos)));
        }
        match op_info.op {
            Some((op_assign, op)) => match target {
                Target::This => self.op_assign_value(op_assign, op, op_info.pos, var_pos, this_ptr, new_val),
                Target::Var(i) => {
                    let mut x = scope.get_value_at(i).deep_clone();
                    let r = self.op_assign_value(op_assign, op, op_info.pos, var_pos, &mut x, new_val);
                    scope.set_value_at(i, x);
                    r
                },
            },
            None => {
                match target {
                    Target::This => {
                        *this_ptr = new_val;
                    },
                    Target::Var(i) => {
                        scope.set_value_at(i, new_val);
                    },
                }
                Ok(())
            },
        }
    }
}

impl Engine {
    /// Evaluate an expression.
    pub fn eval_expr(
        &self,
        global: &mut GlobalRuntimeState,
        scope: &mut Scope,
        this_ptr: &mut Dynamic,
        expr: &Expr,
    ) -> (r: RhaiResult)
        ensures
            (st_of(*final(global), *final(scope), *final(this_ptr)), result_view(r)) == sem_expr(
                *self,
                st_of(*old(global), *old(scope), *old(this_ptr)),
                *expr,
            ),
            progressed(old(global).num_operations, final(global).num_operations, result_view(r)),
            within_limit(
                self.limits.max_operations,
                old(global).num_operations,
                final(global).num_operations,
                result_view(r),
            ),
        decreases u64::MAX - old(global).num_operations, 0nat, 0nat,
    {
        let ghost st0 = st_of(*global, *scope, *this_ptr);
        match self.track_operation(global, expr.position()) {
            Err(e) => {
                return Err(e);
            },
            Ok(()) => {},
        }
        let ghost st1 = st_of(*global, *scope, *this_ptr);
        assert(st1 == track(*self, st0, expr_pos(*expr)).0);
        match expr {
            Expr::DynamicConstant(d, _) => Ok(d.deep_clone()),
            Expr::BoolConstant(b, _) => Ok(Dynamic::from_bool(*b)),
            Expr::IntegerConstant(i, _) => Ok(Dynamic::from_int(*i)),
            Expr::CharConstant(c, _) => Ok(Dynamic::from_char(*c)),
            Expr::StringConstant(s, _) => Ok(Dynamic::from_string(s.clone())),
            Expr::Unit(_) => Ok(Dynamic::unit()),
            Expr::Variable(v, pos) => match self.search_scope_only(global, scope, this_ptr, v, *pos) {
                Ok(Target::This) => Ok(this_ptr.deep_clone()),
                Ok(Target::Var(i)) => Ok(scope.get_value_at(i).deep_clone()),
                Err(e) => Err(e),
            },
            Expr::FnCall(f, pos) => self.eval_fn_call_expr(global, scope, this_ptr, f, *pos),
            Expr::InterpolatedString(parts, pos) => {
                let r = self.eval_interpolated(global, scope, this_ptr, parts);
                match r {
                    Ok(concat) => match self.check_data_size(&concat, *pos) {
                        Ok(()) => Ok(concat),
                        Err(e) => Err(e),
                    },
                    Err(e) => Err(e),
                }
            },
            Expr::Array(items, _) => self.eval_array_items(global, scope, this_ptr, items),
            Expr::ObjectMap(items, names, _) => self.eval_map_items(global, scope, this_ptr, items, names),
            Expr::Stmt(stmts, _) => {
                if stmts.len() == 0 {
                    Ok(Dynamic::unit())
                } else {
                    self.eval_stmt_block(global, scope, this_ptr, stmts, true)
                }
            },
            Expr::And(x, _) => {
                let l = self.eval_expr(global, scope, this_ptr, &x.lhs);
                let lb = as_bool_exec(l, x.lhs.position());
                match lb {
                    Ok(true) => {
                        let r = self.eval_expr(global, scope, this_ptr, &x.rhs);
                        match as_bool_exec(r, x.rhs.position()) {
                            Ok(b) => Ok(Dynamic::from_bool(b)),
                            Err(e) => Err(e),
                        }
                    },
                    Ok(false) => Ok(Dynamic::from_bool(false)),
                    Err(e) => Err(e),
                }
            },
            Expr::Or(x, _) => {
                let l = self.eval_expr(global, scope, this_ptr, &x.lhs);
                let lb = as_bool_exec(l, x.lhs.position());
                match lb {
                    Ok(false) => {
                        let r = self.eval_expr(global, scope, this_ptr, &x.rhs);
                        match as_bool_exec(r, x.rhs.position()) {
                            Ok(b) => Ok(Dynamic::from_bool(b)),
                            Err(e) => Err(e),
                        }
                    },
                    Ok(true) => Ok(Dynamic::from_bool(true)),
                    Err(e) => Err(e),
                }
            },
            Expr::Coalesce(x, _) => {
                let l = self.eval_expr(global, scope, this_ptr, &x.lhs);
                match l {
                    Ok(v) => {
                        if v.is_unit() {
                            self.eval_expr(global, scope, this_ptr, &x.rhs)
                        } else {
                            Ok(v)
                        }
                    },
                    Err(e) => Err(e),
                }
            },
        }
    }

    /// Evaluate a function call: its arguments from left to right, then the built-in
    /// implementation of its operator if there is one, else the last script-defined function
    /// of that name and number of arguments.
    #[verifier::rlimit(60)]
    pub fn eval_fn_call_expr(
        &self,
        global: &mut GlobalRuntimeState,
        scope: &mut Scope,
        this_ptr: &mut Dynamic,
        call: &FnCallExpr,
        pos: Position,
    ) -> (r: RhaiResult)
        ensures
            (st_of(*final(global), *final(scope), *final(this_ptr)), result_view(r))
                == sem_fn_call(*self, st_of(*old(global), *old(scope), *old(this_ptr)), *call, pos),
            final(global).num_operations >= old(global).num_operations,
            within_limit(
                self.limits.max_operations,
                old(global).num_operations,
                final(global).num_operations,
                result_view(r),
            ),
        decreases u64::MAX - old(global).num_operations, 2nat, 0nat,
    {
        let ghost st0 = st_of(*global, *scope, *this_ptr);
        let mut vals: Vec<Dynamic> = Vec::new();
        let mut i: usize = 0;
        while i < call.args.len()
            invariant
                i <= call.args@.len(),
                st0 == st_of(*old(global), *old(scope), *old(this_ptr)),
                sem_args(*self, st0, call.args@, 0, Seq::empty()) == sem_args(
                    *self,
                    st_of(*global, *scope, *this_ptr),
                    call.args@,
                    i as int,
                    crate::dynamic::dyns_view(vals@),
                ),
                global.num_operations >= old(global).num_operations,
                self.limits.max_operations > 0 && old(global).num_operations <= self.limits.max_operations
                    ==> global.num_operations <= self.limits.max_operations,
            decreases call.args.len() - i,
        {
            let v = match self.eval_expr(global, scope, this_ptr, &call.args[i]) {
                Ok(v) => v,
                Err(e) => {
                    return Err(e);
                },
            };
            proof {
                crate::dynamic::lemma_dyns_view_push(vals@, v);
            }
            vals.push(v);
            i += 1;
        }
        proof {
            crate::dynamic::lemma_dyns_view(vals@);
        }
        match call.op_token {
            Some(op) => {
                if vals.len() == 2 {
                    match get_builtin_binary_op_fn(op, &vals[0], &vals[1]) {
                        Some((f, _)) => {
                            return call_builtin_binary_op(self, f, &vals[0], &vals[1]);
                        },
                        None => {},
                    }
                }
            },
            None => {},
        }
        let def = match find_script_fn_exec(&global.lib, call.name.as_str(), vals.len()) {
            Some(d) => d,
            None => {
                let sig = call_signature_exec(call.name.as_str(), &vals);
                return Err(Box::new(EvalAltResult::ErrorFunctionNotFound(sig, pos)));
            },
        };
        proof {
            lemma_find_script_fn(global.lib@, call.name@, vals@.len());
        }
        let ghost st1 = st_of(*global, *scope, *this_ptr);
        match self.track_operation(global, pos) {
            Err(e) => {
                return Err(e);
            },
            Ok(()) => {},
        }
        let ghost st2 = st_of(*global, *scope, *this_ptr);
        assert(st2 == track(*self, st1, pos).0);
        let mut fscope = Scope::new();
        let mut k: usize = 0;
        while k < vals.len()
            invariant
                k <= vals@.len(),
                def.params@.len() == vals@.len(),
                fscope@ == bind_params(def.params@, crate::dynamic::dyns_view(vals@)).take(k as int),
            decreases vals.len() - k,
        {
            proof {
                crate::dynamic::lemma_dyns_view(vals@);
            }
            let ghost before = fscope@;
            fscope.push_entry(def.params[k].clone(), false, vals[k].deep_clone());
            proof {
                assert(fscope@ =~= bind_params(def.params@, crate::dynamic::dyns_view(vals@)).take(k + 1));
            }
            k += 1;
        }
        proof {
            assert(fscope@ =~= bind_params(def.params@, crate::dynamic::dyns_view(vals@)));
        }
        let mut this_body = Dynamic::null();
        let call_source = clone_source(&global.source);
        let saved_level = global.level;
        global.level = if global.level == usize::MAX {
            usize::MAX
        } else {
            global.level + 1
        };
        let r = if def.body.len() == 0 {
            Ok(Dynamic::unit())
        } else {
            self.eval_stmt_block(global, &mut fscope, &mut this_body, &def.body, true)
        };
        global.level = saved_level;
        call_result(r, &def.name, &call_source, pos)
    }

    /// Evaluate a block of statements; when `restore_orig_state` is set, the block is a new
    /// nesting level and the variables it defines go out of scope at its end (also on error).
    pub fn eval_stmt_block(
        &self,
        global: &mut GlobalRuntimeState,
        scope: &mut Scope,
        this_ptr: &mut Dynamic,
        statements: &Vec<Stmt>,
        restore_orig_state: bool,
    ) -> (r: RhaiResult)
        ensures
            (st_of(*final(global), *final(scope), *final(this_ptr)), result_view(r)) == sem_block(
                *self,
                st_of(*old(global), *old(scope), *old(this_ptr)),
                statements@,
                restore_orig_state,
            ),
            final(global).num_operations >= old(global).num_operations,
            statements@.len() > 0 ==> progressed(
                old(global).num_operations,
                final(global).num_operations,
                result_view(r),
            ),
            within_limit(
                self.limits.max_operations,
                old(global).num_operations,
                final(global).num_operations,
                result_view(r),
            ),
        decreases u64::MAX - old(global).num_operations, 2nat, 0nat,
    {
        if statements.len() == 0 {
            return Ok(Dynamic::unit());
        }
        let ghost st = st_of(*global, *scope, *this_ptr);
        let orig_scope_len = scope.len();
        let orig_level = global.scope_level;
        let orig_always_search_scope = global.always_search_scope;
        if restore_orig_state {
            global.scope_level = if orig_level == usize::MAX {
                orig_level
            } else {
                orig_level + 1
            };
        }
        let ghost st0 = st_of(*global, *scope, *this_ptr);
        let mut last = Dynamic::unit();
        let mut failure: Option<Box<EvalAltResult>> = None;
        let mut i: usize = 0;
        while i < statements.len() && failure.is_none()
            invariant
                i <= statements@.len(),
                statements@.len() > 0,
                failure is None ==> sem_stmts(*self, st0, statements@, 0, unit_v()) == sem_stmts(
                    *self,
                    st_of(*global, *scope, *this_ptr),
                    statements@,
                    i as int,
                    last@,
                ),
                failure matches Some(e) ==> sem_stmts(*self, st0, statements@, 0, unit_v()) == (
                    st_of(*global, *scope, *this_ptr),
                    Err::<DynV, ErrV>(e@),
                ),
                global.num_operations >= st0.g.num_operations,
                i > 0 && failure is None ==> global.num_operations > st0.g.num_operations,
                failure matches Some(e) && (e@ matches ErrV::LoopBreak(_, _, _)) ==> global.num_operations
                    > st0.g.num_operations,
                st0.g.num_operations == old(global).num_operations,
                self.limits.max_operations > 0 && old(global).num_operations <= self.limits.max_operations
                    ==> global.num_operations <= self.limits.max_operations || (failure matches Some(
                    e) && e@ is TooManyOperations),
            decreases statements.len() - i, if failure is None { 1nat } else { 0nat },
        {
            match self.eval_stmt(global, scope, this_ptr, &statements[i]) {
                Ok(v) => {
                    last = v;
                    i += 1;
                },
                Err(e) => {
                    failure = Some(e);
                },
            }
        }
        let r = match failure {
            Some(e) => Err(e),
            None => Ok(last),
        };
        if restore_orig_state {
            scope.rewind(orig_scope_len);
            global.scope_level = orig_level;
            global.always_search_scope = orig_always_search_scope;
        }
        r
    }
}

impl Engine {
    /// Evaluate the parts of an interpolated string, appending each to the result with `+=`.
    fn eval_interpolated(
        &self,
        global: &mut GlobalRuntimeState,
        scope: &mut Scope,
        this_ptr: &mut Dynamic,
        parts: &Vec<Expr>,
    ) -> (r: RhaiResult)
        ensures
            (st_of(*final(global), *final(scope), *final(this_ptr)), result_view(r)) == sem_interp(
                *self,
                st_of(*old(global), *old(scope), *old(this_ptr)),
                parts@,
                0,
                plain(Value::Str(Seq::empty())),
            ),
            final(global).num_operations >= old(global).num_operations,
            within_limit(
                self.limits.max_operations,
                old(global).num_operations,
                final(global).num_operations,
                result_view(r),
            ),
        decreases u64::MAX - old(global).num_operations, 1nat, 0nat,
    {
        let ghost st0 = st_of(*global, *scope, *this_ptr);
        let mut concat = Dynamic::from_string(String::new());
        let mut i: usize = 0;
        while i < parts.len()
            invariant
                i <= parts@.len(),
                st0 == st_of(*old(global), *old(scope), *old(this_ptr)),
                sem_interp(*self, st0, parts@, 0, plain(Value::Str(Seq::empty()))) == sem_interp(
                    *self,
                    st_of(*global, *scope, *this_ptr),
                    parts@,
                    i as int,
                    concat@,
                ),
                global.num_operations >= old(global).num_operations,
                self.limits.max_operations > 0 && old(global).num_operations <= self.limits.max_operations
                    ==> global.num_operations <= self.limits.max_operations,
            decreases parts.len() - i,
        {
            let item = match self.eval_expr(global, scope, this_ptr, &parts[i]) {
                Ok(v) => v,
                Err(e) => {
                    return Err(e);
                },
            };
            match self.op_assign_value(
                Token::PlusAssign,
                Token::Plus,
                parts[i].position(),
                Position::none(),
                &mut concat,
                item,
            ) {
                Ok(()) => {},
                Err(e) => {
                    return Err(e);
                },
            }
            i += 1;
        }
        Ok(concat)
    }

    /// Evaluate the items of an array literal, checking the total data size as it grows.
    fn eval_array_items(
        &self,
        global: &mut GlobalRuntimeState,
        scope: &mut Scope,
        this_ptr: &mut Dynamic,
        items: &Vec<Expr>,
    ) -> (r: RhaiResult)
        ensures
            (st_of(*final(global), *final(scope), *final(this_ptr)), result_view(r)) == sem_array(
                *self,
                st_of(*old(global), *old(scope), *old(this_ptr)),
                items@,
                0,
                Seq::empty(),
                (0, 0, 0),
            ),
            final(global).num_operations >= old(global).num_operations,
            within_limit(
                self.limits.max_operations,
                old(global).num_operations,
                final(global).num_operations,
                result_view(r),
            ),
        decreases u64::MAX - old(global).num_operations, 1nat, 0nat,
    {
        let ghost st0 = st_of(*global, *scope, *this_ptr);
        let has_limit = self.has_data_size_limit();
        let mut acc: Vec<Dynamic> = Vec::new();
        let mut sizes: (usize, usize, usize) = (0, 0, 0);
        let mut i: usize = 0;
        while i < items.len()
            invariant
                i <= items@.len(),
                has_limit == has_size_limit(self.limits),
                st0 == st_of(*old(global), *old(scope), *old(this_ptr)),
                sem_array(*self, st0, items@, 0, Seq::empty(), (0, 0, 0)) == sem_array(
                    *self,
                    st_of(*global, *scope, *this_ptr),
                    items@,
                    i as int,
                    crate::dynamic::dyns_view(acc@),
                    (sizes.0 as nat, sizes.1 as nat, sizes.2 as nat),
                ),
                global.num_operations >= old(global).num_operations,
                self.limits.max_operations > 0 && old(global).num_operations <= self.limits.max_operations
                    ==> global.num_operations <= self.limits.max_operations,
            decreases items.len() - i,
        {
            let v = match self.eval_expr(global, scope, this_ptr, &items[i]) {
                Ok(v) => v,
                Err(e) => {
                    return Err(e);
                },
            };
            if has_limit {
                let (a, m, st) = v.calc_data_sizes(true);
                let total = (
                    crate::engine::add_sizes(sizes.0, a),
                    crate::engine::add_sizes(sizes.1, m),
                    crate::engine::add_sizes(sizes.2, st),
                );
                match self.raise_err_if_over_data_size_limit(total) {
                    Ok(()) => {
                        sizes = total;
                    },
                    Err(e) => {
                        return Err(e.fill_position(items[i].position()));
                    },
                }
            }
            proof {
                crate::dynamic::lemma_dyns_view_push(acc@, v);
            }
            acc.push(v);
            i += 1;
        }
        Ok(Dynamic::from_array(acc))
    }

    /// Evaluate the properties of an object-map literal, checking the total data size as it
    /// grows.
    fn eval_map_items(
        &self,
        global: &mut GlobalRuntimeState,
        scope: &mut Scope,
        this_ptr: &mut Dynamic,
        items: &Vec<MapItem>,
        names: &Vec<String>,
    ) -> (r: RhaiResult)
        ensures
            (st_of(*final(global), *final(scope), *final(this_ptr)), result_view(r)) == sem_map(
                *self,
                st_of(*old(global), *old(scope), *old(this_ptr)),
                items@,
                0,
                template_entries(names@),
                (0, 0, 0),
            ),
            final(global).num_operations >= old(global).num_operations,
            within_limit(
                self.limits.max_operations,
                old(global).num_operations,
                final(global).num_operations,
                result_view(r),
            ),
        decreases u64::MAX - old(global).num_operations, 1nat, 0nat,
    {
        let ghost st0 = st_of(*global, *scope, *this_ptr);
        let has_limit = self.has_data_size_limit();
        let mut acc = template_exec(names);
        let mut sizes: (usize, usize, usize) = (0, 0, 0);
        let mut i: usize = 0;
        while i < items.len()
            invariant
                i <= items@.len(),
                has_limit == has_size_limit(self.limits),
                st0 == st_of(*old(global), *old(scope), *old(this_ptr)),
                sem_map(*self, st0, items@, 0, template_entries(names@), (0, 0, 0)) == sem_map(
                    *self,
                    st_of(*global, *scope, *this_ptr),
                    items@,
                    i as int,
                    crate::dynamic::entries_view(acc@),
                    (sizes.0 as nat, sizes.1 as nat, sizes.2 as nat),
                ),
                global.num_operations >= old(global).num_operations,
                self.limits.max_operations > 0 && old(global).num_operations <= self.limits.max_operations
                    ==> global.num_operations <= self.limits.max_operations,
            decreases items.len() - i,
        {
            let v = match self.eval_expr(global, scope, this_ptr, &items[i].value) {
                Ok(v) => v,
                Err(e) => {
                    return Err(e);
                },
            };
            if has_limit {
                let (a, m, st) = v.calc_data_sizes(true);
                let total = (
                    crate::engine::add_sizes(sizes.0, a),
                    crate::engine::add_sizes(sizes.1, m),
                    crate::engine::add_sizes(sizes.2, st),
                );
                match self.raise_err_if_over_data_size_limit(total) {
                    Ok(()) => {
                        sizes = total;
                    },
                    Err(e) => {
                        return Err(e.fill_position(items[i].value.position()));
                    },
                }
            }
            map_set_exec(&mut acc, &items[i].key.name, v);
            i += 1;
        }
        Ok(Dynamic::from_union(Union::ObjectMap(acc)))
    }
}

/// The value's boolean, or the type-mismatch error at `pos`.
fn as_bool_exec(r: RhaiResult, pos: Position) -> (b: RhaiResultOf<bool>)
    ensures
        match b {
            Ok(x) => as_bool_at(result_view(r), pos) == Ok::<bool, ErrV>(x),
            Err(e) => as_bool_at(result_view(r), pos) == Err::<bool, ErrV>(e@),
        },
{
    match r {
        Ok(v) => match v.as_bool() {
            Some(x) => Ok(x),
            None => Err(
                Box::new(
                    EvalAltResult::ErrorMismatchDataType(
                        crate::text::string_of("bool"),
                        v.type_name_string(),
                        pos,
                    ),
                ),
            ),
        },
        Err(e) => Err(e),
    }
}

/// The properties of an object-map literal before evaluation.
fn template_exec(names: &Vec<String>) -> (r: Vec<MapEntry>)
    ensures
        crate::dynamic::entries_view(r@) == template_entries(names@),
{
    let mut out: Vec<MapEntry> = Vec::new();
    let mut i: usize = 0;
    while i < names.len()
        invariant
            i <= names@.len(),
            crate::dynamic::entries_view(out@) == template_entries(names@).take(i as int),
        decreases names.len() - i,
    {
        let ghost old_out = out@;
        out.push(MapEntry { key: names[i].clone(), value: Dynamic::unit() });
        proof {
            assert(out@.drop_last() =~= old_out);
            assert(template_entries(names@).take(i + 1) =~= template_entries(names@).take(
                i as int,
            ).push((names@[i as int]@, unit_v())));
        }
        i += 1;
    }
    proof {
        assert(template_entries(names@).take(names@.len() as int) =~= template_entries(names@));
    }
    out
}

/// Set a property of a map under construction (added at the end if absent).
fn map_set_exec(m: &mut Vec<MapEntry>, key: &String, v: Dynamic)
    ensures
        crate::dynamic::entries_view(final(m)@) == map_set(
            crate::dynamic::entries_view(old(m)@),
            key@,
            v@,
        ),
{
    proof {
        crate::dynamic::lemma_entries_view(m@);
    }
    let mut i: usize = 0;
    while i < m.len()
        invariant
            i <= m@.len(),
            m@ == old(m)@,
            crate::dynamic::entries_view(m@).len() == m@.len(),
            forall|j: int|
                0 <= j < m@.len() ==> #[trigger] crate::dynamic::entries_view(m@)[j] == (
                    m@[j].key@,
                    dyn_view(m@[j].value),
                ),
            map_find(crate::dynamic::entries_view(m@).take(i as int), key@) is None,
        decreases m.len() - i,
    {
        let ghost t = crate::dynamic::entries_view(m@).take(i + 1);
        proof {
            assert(t.drop_last() =~= crate::dynamic::entries_view(m@).take(i as int));
        }
        if m[i].key == *key {
            proof {
                lemma_map_find_prefix(crate::dynamic::entries_view(m@), key@, i as int);
            }
            let k = m[i].key.clone();
            m.set(i, MapEntry { key: k, value: v });
            proof {
                crate::dynamic::lemma_entries_view(m@);
                assert(crate::dynamic::entries_view(m@) =~= crate::dynamic::entries_view(old(m)@).update(
                    i as int,
                    (key@, v@),
                ));
            }
            return;
        }
        i += 1;
    }
    proof {
        assert(crate::dynamic::entries_view(m@).take(m@.len() as int) =~= crate::dynamic::entries_view(
            m@,
        ));
    }
    m.push(MapEntry { key: key.clone(), value: v });
    proof {
        crate::dynamic::lemma_entries_view(m@);
        assert(crate::dynamic::entries_view(m@) =~= crate::dynamic::entries_view(old(m)@).push(
            (key@, v@),
        ));
    }
}

/// Searching a map whose first `i` properties lack the key, and whose `i`-th has it.
proof fn lemma_map_find_prefix(m: Seq<(Seq<char>, DynV)>, key: Seq<char>, i: int)
    requires
        0 <= i < m.len(),
        map_find(m.take(i), key) is None,
        m[i].0 == key,
    ensures
        map_find(m, key) == Some(i),
    decreases m.len(),
{
    if i == m.len() - 1 {
        assert(m.drop_last() =~= m.take(i));
    } else {
        assert(m.drop_last().take(i) =~= m.take(i));
        lemma_map_find_prefix(m.drop_last(), key, i);
    }
}

impl Engine {
    /// Evaluate an optional expression; `()` when absent.
    fn eval_opt_expr(
        &self,
        global: &mut GlobalRuntimeState,
        scope: &mut Scope,
        this_ptr: &mut Dynamic,
        expr: &Option<Box<Expr>>,
    ) -> (r: RhaiResult)
        ensures
            (st_of(*final(global), *final(scope), *final(this_ptr)), result_view(r))
                == sem_opt_expr(*self, st_of(*old(global), *old(scope), *old(this_ptr)), *expr),
            final(global).num_operations >= old(global).num_operations,
            within_limit(
                self.limits.max_operations,
                old(global).num_operations,
                final(global).num_operations,
                result_view(r),
            ),
        decreases u64::MAX - old(global).num_operations, 1nat, 0nat,
    {
        match expr {
            Some(e) => self.eval_expr(global, scope, this_ptr, e),
            None => Ok(Dynamic::unit()),
        }
    }

    /// Evaluate a statement.
    #[verifier::rlimit(60)]
    pub fn eval_stmt(
        &self,
        global: &mut GlobalRuntimeState,
        scope: &mut Scope,
        this_ptr: &mut Dynamic,
        stmt: &Stmt,
    ) -> (r: RhaiResult)
        ensures
            (st_of(*final(global), *final(scope), *final(this_ptr)), result_view(r)) == sem_stmt(
                *self,
                st_of(*old(global), *old(scope), *old(this_ptr)),
                *stmt,
            ),
            progressed(old(global).num_operations, final(global).num_operations, result_view(r)),
            within_limit(
                self.limits.max_operations,
                old(global).num_operations,
                final(global).num_operations,
                result_view(r),
            ),
        decreases u64::MAX - old(global).num_operations, 0nat, 0nat,
    {
        let ghost st0 = st_of(*global, *scope, *this_ptr);
        match self.track_operation(global, stmt.position()) {
            Err(e) => {
                return Err(e);
            },
            Ok(()) => {},
        }
        let ghost st1 = st_of(*global, *scope, *this_ptr);
        assert(st1 == track(*self, st0, stmt_pos(*stmt)).0);
        match stmt {
            Stmt::Noop(_) => Ok(Dynamic::unit()),
            Stmt::Expr(e) => self.eval_expr(global, scope, this_ptr, e),
            Stmt::FnCall(f, pos) => self.eval_fn_call_expr(global, scope, this_ptr, f, *pos),
            Stmt::Block(stmts, _) => {
                if stmts.len() == 0 {
                    Ok(Dynamic::unit())
                } else {
                    self.eval_stmt_block(global, scope, this_ptr, stmts, true)
                }
            },
            Stmt::If(x, _) => {
                let c = self.eval_expr(global, scope, this_ptr, &x.0);
                match as_bool_exec(c, x.0.position()) {
                    Err(e) => Err(e),
                    Ok(g) => {
                        if g && x.1.len() > 0 {
                            self.eval_stmt_block(global, scope, this_ptr, &x.1, true)
                        } else if !g && x.2.len() > 0 {
                            self.eval_stmt_block(global, scope, this_ptr, &x.2, true)
                        } else {
                            Ok(Dynamic::unit())
                        }
                    },
                }
            },
            Stmt::While(x, pos) => {
                if is_endless_exec(&x.0) {
                    if x.1.len() == 0 {
                        self.eval_spin(global, scope, this_ptr, *pos)
                    } else {
                        self.eval_loop(global, scope, this_ptr, &x.1)
                    }
                } else {
                    self.eval_while(global, scope, this_ptr, &x.0, &x.1)
                }
            },
            Stmt::Do(x, until, _) => self.eval_do(global, scope, this_ptr, &x.0, &x.1, *until),
            Stmt::BreakLoop(e, is_break, pos) => {
                match self.eval_opt_expr(global, scope, this_ptr, e) {
                    Ok(v) => Err(Box::new(EvalAltResult::LoopBreak(*is_break, v, *pos))),
                    Err(err) => Err(err),
                }
            },
            Stmt::Return(e, is_throw, pos) => {
                match self.eval_opt_expr(global, scope, this_ptr, e) {
                    Ok(v) => {
                        if *is_throw {
                            Err(Box::new(EvalAltResult::ErrorRuntime(v, *pos)))
                        } else {
                            Err(Box::new(EvalAltResult::Return(v, *pos)))
                        }
                    },
                    Err(err) => Err(err),
                }
            },
            Stmt::Var(x, is_const, pos) => {
                if !self.allow_shadowing && scope.contains(x.0.name.as_str()) {
                    return Err(
                        Box::new(EvalAltResult::ErrorVariableExists(x.0.name.clone(), *pos)),
                    );
                }
                match self.eval_expr(global, scope, this_ptr, &x.1) {
                    Ok(v) => {
                        scope.push_entry(x.0.name.clone(), *is_const, v);
                        Ok(Dynamic::unit())
                    },
                    Err(err) => Err(err),
                }
            },
            Stmt::For(x, pos) => self.eval_for(global, scope, this_ptr, &x.0, &x.1, &x.2, &x.3, *pos),
            Stmt::TryCatch(x, _) => self.eval_try(global, scope, this_ptr, &x.0, &x.1, &x.2),
            Stmt::Export(x, _) => {
                match scope.search(x.0.name.as_str()) {
                    Some(index) => {
                        proof {
                            lemma_scope_search(scope@, x.0.name@);
                        }
                        if x.1.is_empty() {
                            scope.add_alias_by_index(index, x.0.name.as_str());
                        } else {
                            scope.add_alias_by_index(index, x.1.name.as_str());
                        }
                        Ok(Dynamic::unit())
                    },
                    None => Err(Box::new(EvalAltResult::ErrorVariableNotFound(x.0.name.clone(), x.0.pos))),
                }
            },
            Stmt::Assignment(x, _) => {
                let (op_info, var, var_pos, rhs) = &**x;
                let v = match self.eval_expr(global, scope, this_ptr, rhs) {
                    Ok(v) => v,
                    Err(err) => {
                        return Err(err);
                    },
                };
                let target = match self.search_scope_only(global, scope, this_ptr, var, *var_pos) {
                    Ok(t) => t,
                    Err(err) => {
                        return Err(err);
                    },
                };
                let ghost st2 = st_of(*global, *scope, *this_ptr);
                match self.track_operation(global, *var_pos) {
                    Err(err) => {
                        return Err(err);
                    },
                    Ok(()) => {},
                }
                let ghost st3 = st_of(*global, *scope, *this_ptr);
                assert(st3 == track(*self, st2, *var_pos).0);
                match self.eval_op_assignment(scope, this_ptr, op_info, &var.name, *var_pos, target, v) {
                    Ok(()) => Ok(Dynamic::unit()),
                    Err(err) => Err(err),
                }
            },
        }
    }

    /// An endless loop with an empty body: count operations until the count fails.
    fn eval_spin(
        &self,
        global: &mut GlobalRuntimeState,
        scope: &mut Scope,
        this_ptr: &mut Dynamic,
        pos: Position,
    ) -> (r: RhaiResult)
        ensures
            (st_of(*final(global), *final(scope), *final(this_ptr)), result_view(r)) == sem_spin(
                *self,
                st_of(*old(global), *old(scope), *old(this_ptr)),
                pos,
            ),
            final(global).num_operations >= old(global).num_operations,
            r is Err,
            !(result_view(r) matches Err(ErrV::LoopBreak(_, _, _))),
            within_limit(
                self.limits.max_operations,
                old(global).num_operations,
                final(global).num_operations,
                result_view(r),
            ),
        decreases u64::MAX - old(global).num_operations, 3nat, 0nat,
    {
        let ghost st0 = st_of(*global, *scope, *this_ptr);
        loop
            invariant
                st0 == st_of(*old(global), *old(scope), *old(this_ptr)),
                sem_spin(*self, st0, pos) == sem_spin(*self, st_of(*global, *scope, *this_ptr), pos),
                global.num_operations >= old(global).num_operations,
                self.limits.max_operations > 0 && old(global).num_operations <= self.limits.max_operations
                    ==> global.num_operations <= self.limits.max_operations,
            decreases u64::MAX - global.num_operations,
        {
            let ghost cur = st_of(*global, *scope, *this_ptr);
            match self.track_operation(global, pos) {
                Err(e) => {
                    return Err(e);
                },
                Ok(()) => {},
            }
            assert(st_of(*global, *scope, *this_ptr) == track(*self, cur, pos).0);
        }
    }

    /// An endless loop with a non-empty body.
    fn eval_loop(
        &self,
        global: &mut GlobalRuntimeState,
        scope: &mut Scope,
        this_ptr: &mut Dynamic,
        body: &Vec<Stmt>,
    ) -> (r: RhaiResult)
        requires
            body@.len() > 0,
        ensures
            (st_of(*final(global), *final(scope), *final(this_ptr)), result_view(r)) == sem_loop(
                *self,
                st_of(*old(global), *old(scope), *old(this_ptr)),
                body@,
            ),
            final(global).num_operations >= old(global).num_operations,
            !(result_view(r) matches Err(ErrV::LoopBreak(_, _, _))),
            within_limit(
                self.limits.max_operations,
                old(global).num_operations,
                final(global).num_operations,
                result_view(r),
            ),
        decreases u64::MAX - old(global).num_operations, 3nat, 0nat,
    {
        let ghost st0 = st_of(*global, *scope, *this_ptr);
        loop
            invariant
                body@.len() > 0,
                st0 == st_of(*old(global), *old(scope), *old(this_ptr)),
                sem_loop(*self, st0, body@) == sem_loop(*self, st_of(*global, *scope, *this_ptr), body@),
                global.num_operations >= old(global).num_operations,
                self.limits.max_operations > 0 && old(global).num_operations <= self.limits.max_operations
                    ==> global.num_operations <= self.limits.max_operations,
            decreases u64::MAX - global.num_operations,
        {
            let r = self.eval_stmt_block(global, scope, this_ptr, body, true);
            match r {
                Ok(_) => {},
                Err(e) => {
                    match *e {
                        EvalAltResult::LoopBreak(false, _, _) => {},
                        EvalAltResult::LoopBreak(true, v, _) => {
                            return Ok(v);
                        },
                        other => {
                            return Err(Box::new(other));
                        },
                    }
                },
            }
        }
    }

    /// A `while` loop.
    fn eval_while(
        &self,
        global: &mut GlobalRuntimeState,
        scope: &mut Scope,
        this_ptr: &mut Dynamic,
        cond: &Expr,
        body: &Vec<Stmt>,
    ) -> (r: RhaiResult)
        ensures
            (st_of(*final(global), *final(scope), *final(this_ptr)), result_view(r)) == sem_while(
                *self,
                st_of(*old(global), *old(scope), *old(this_ptr)),
                *cond,
                body@,
            ),
            final(global).num_operations >= old(global).num_operations,
            within_limit(
                self.limits.max_operations,
                old(global).num_operations,
                final(global).num_operations,
                result_view(r),
            ),
        decreases u64::MAX - old(global).num_operations, 3nat, 0nat,
    {
        let ghost st0 = st_of(*global, *scope, *this_ptr);
        loop
            invariant
                st0 == st_of(*old(global), *old(scope), *old(this_ptr)),
                sem_while(*self, st0, *cond, body@) == sem_while(
                    *self,
                    st_of(*global, *scope, *this_ptr),
                    *cond,
                    body@,
                ),
                global.num_operations >= old(global).num_operations,
                self.limits.max_operations > 0 && old(global).num_operations <= self.limits.max_operations
                    ==> global.num_operations <= self.limits.max_operations,
            decreases u64::MAX - global.num_operations,
        {
            let c = self.eval_expr(global, scope, this_ptr, cond);
            match as_bool_exec(c, cond.position()) {
                Err(e) => {
                    return Err(e);
                },
                Ok(false) => {
                    return Ok(Dynamic::unit());
                },
                Ok(true) => {},
            }
            if body.len() > 0 {
                let r = self.eval_stmt_block(global, scope, this_ptr, body, true);
                match r {
                    Ok(_) => {},
                    Err(e) => {
                        match *e {
                            EvalAltResult::LoopBreak(false, _, _) => {},
                            EvalAltResult::LoopBreak(true, v, _) => {
                                return Ok(v);
                            },
                            other => {
                                return Err(Box::new(other));
                            },
                        }
                    },
                }
            }
        }
    }

    /// The rounds of a `for` loop over `src`, the counter (if any) at `ci` and the loop
    /// variable at `vi`.
    fn eval_for_loop(
        &self,
        global: &mut GlobalRuntimeState,
        scope: &mut Scope,
        this_ptr: &mut Dynamic,
        src: &IterSource,
        has_counter: bool,
        ci: usize,
        cpos: Position,
        vi: usize,
        body: &Vec<Stmt>,
        pos: Position,
    ) -> (r: RhaiResult)
        requires
            source_wf(*src),
            vi < old(scope)@.len(),
            has_counter ==> ci < old(scope)@.len(),
        ensures
            (st_of(*final(global), *final(scope), *final(this_ptr)), result_view(r)) == sem_for_loop(
                *self,
                st_of(*old(global), *old(scope), *old(this_ptr)),
                source_items(*src),
                0,
                if has_counter {
                    Some(ci as int)
                } else {
                    None
                },
                cpos,
                vi as int,
                body@,
                pos,
            ),
            final(global).num_operations >= old(global).num_operations,
            within_limit(
                self.limits.max_operations,
                old(global).num_operations,
                final(global).num_operations,
                result_view(r),
            ),
        decreases u64::MAX - old(global).num_operations, 3nat, 0nat,
    {
        let ghost st0 = st_of(*global, *scope, *this_ptr);
        let ghost items = source_items(*src);
        let ghost cio: Option<int> = if has_counter {
            Some(ci as int)
        } else {
            None
        };
        let len = source_len(src);
        let mut k: u64 = 0;
        loop
            invariant
                st0 == st_of(*old(global), *old(scope), *old(this_ptr)),
                items == source_items(*src),
                source_wf(*src),
                len == items.len(),
                cio == (if has_counter {
                    Some(ci as int)
                } else {
                    None
                }),
                sem_for_loop(*self, st0, items, 0, cio, cpos, vi as int, body@, pos) == sem_for_loop(
                    *self,
                    st_of(*global, *scope, *this_ptr),
                    items,
                    k as nat,
                    cio,
                    cpos,
                    vi as int,
                    body@,
                    pos,
                ),
                scope@.len() == old(scope)@.len(),
                vi < scope@.len(),
                has_counter ==> ci < scope@.len(),
                global.num_operations >= old(global).num_operations + k,
                self.limits.max_operations > 0 && old(global).num_operations <= self.limits.max_operations
                    ==> global.num_operations <= self.limits.max_operations,
            decreases u64::MAX - global.num_operations,
        {
            if (k as u128) >= len {
                return Ok(Dynamic::unit());
            }
            if has_counter && k > 0x7fff_ffff_ffff_ffff {
                let mut msg = crate::text::string_of("for-loop counter overflow: ");
                crate::text::push_nat_str(&mut msg, k);
                return Err(Box::new(EvalAltResult::ErrorArithmetic(msg, cpos)));
            }
            if has_counter {
                scope.set_value_at(ci, Dynamic::from_int(k as i64));
            }
            let item = source_item(src, k);
            scope.set_value_at(vi, item);
            let ghost sta = st_of(*global, *scope, *this_ptr);
            match self.track_operation(global, pos) {
                Err(e) => {
                    return Err(e);
                },
                Ok(()) => {},
            }
            let ghost st1 = st_of(*global, *scope, *this_ptr);
            assert(st1 == track(*self, sta, pos).0);
            if body.len() > 0 {
                proof {
                    crate::eval_laws::lemma_block_kept(*self, st1, body@, true);
                }
                let r = self.eval_stmt_block(global, scope, this_ptr, body, true);
                match r {
                    Ok(_) => {},
                    Err(e) => {
                        match *e {
                            EvalAltResult::LoopBreak(false, _, _) => {},
                            EvalAltResult::LoopBreak(true, v, _) => {
                                return Ok(v);
                            },
                            other => {
                                return Err(Box::new(other));
                            },
                        }
                    },
                }
            }
            k += 1;
        }
    }

    /// A `for` loop.
    fn eval_for(
        &self,
        global: &mut GlobalRuntimeState,
        scope: &mut Scope,
        this_ptr: &mut Dynamic,
        var: &Ident,
        counter: &Ident,
        expr: &Expr,
        body: &Vec<Stmt>,
        pos: Position,
    ) -> (r: RhaiResult)
        ensures
            (st_of(*final(global), *final(scope), *final(this_ptr)), result_view(r)) == sem_for(
                *self,
                st_of(*old(global), *old(scope), *old(this_ptr)),
                *var,
                *counter,
                *expr,
                body@,
                pos,
            ),
            final(global).num_operations >= old(global).num_operations,
            within_limit(
                self.limits.max_operations,
                old(global).num_operations,
                final(global).num_operations,
                result_view(r),
            ),
        decreases u64::MAX - old(global).num_operations, 4nat, 0nat,
    {
        let v = match self.eval_expr(global, scope, this_ptr, expr) {
            Ok(v) => v,
            Err(e) => {
                return Err(e);
            },
        };
        let src = match iter_source(v) {
            Some(s) => s,
            None => {
                return Err(Box::new(EvalAltResult::ErrorFor(expr.position())));
            },
        };
        let n = scope.len();
        let has_counter = !counter.is_empty();
        if has_counter {
            scope.push_entry(counter.name.clone(), false, Dynamic::from_int(0));
        }
        scope.push_entry(var.name.clone(), false, Dynamic::unit());
        let vi = scope.len() - 1;
        let r = self.eval_for_loop(global, scope, this_ptr, &src, has_counter, n, counter.pos, vi, body, pos);
        scope.rewind(n);
        r
    }

    /// A `try` block and its `catch` block.
    fn eval_try(
        &self,
        global: &mut GlobalRuntimeState,
        scope: &mut Scope,
        this_ptr: &mut Dynamic,
        try_block: &Vec<Stmt>,
        var: &Ident,
        catch_block: &Vec<Stmt>,
    ) -> (r: RhaiResult)
        ensures
            (st_of(*final(global), *final(scope), *final(this_ptr)), result_view(r)) == sem_try(
                *self,
                st_of(*old(global), *old(scope), *old(this_ptr)),
                try_block@,
                *var,
                catch_block@,
            ),
            final(global).num_operations >= old(global).num_operations,
            within_limit(
                self.limits.max_operations,
                old(global).num_operations,
                final(global).num_operations,
                result_view(r),
            ),
        decreases u64::MAX - old(global).num_operations, 4nat, 0nat,
    {
        let e = match self.eval_stmt_block(global, scope, this_ptr, try_block, true) {
            Ok(v) => {
                return Ok(v);
            },
            Err(e) => e,
        };
        if !is_catchable_exec(&e) {
            return Err(e);
        }
        let n = scope.len();
        let named = !var.is_empty();
        if named {
            let val = caught_value_exec(&e, &global.source);
            scope.push_entry(var.name.clone(), false, val);
        }
        let r3 = self.eval_stmt_block(global, scope, this_ptr, catch_block, true);
        if named {
            scope.rewind(n);
        }
        catch_outcome_exec(e, r3)
    }

    /// A `do` loop: it stops when the condition is false, or true when `until` is set.
    fn eval_do(
        &self,
        global: &mut GlobalRuntimeState,
        scope: &mut Scope,
        this_ptr: &mut Dynamic,
        cond: &Expr,
        body: &Vec<Stmt>,
        until: bool,
    ) -> (r: RhaiResult)
        ensures
            (st_of(*final(global), *final(scope), *final(this_ptr)), result_view(r)) == sem_do(
                *self,
                st_of(*old(global), *old(scope), *old(this_ptr)),
                *cond,
                body@,
                until,
            ),
            final(global).num_operations >= old(global).num_operations,
            within_limit(
                self.limits.max_operations,
                old(global).num_operations,
                final(global).num_operations,
                result_view(r),
            ),
        decreases u64::MAX - old(global).num_operations, 3nat, 0nat,
    {
        let ghost st0 = st_of(*global, *scope, *this_ptr);
        loop
            invariant
                st0 == st_of(*old(global), *old(scope), *old(this_ptr)),
                sem_do(*self, st0, *cond, body@, until) == sem_do(
                    *self,
                    st_of(*global, *scope, *this_ptr),
                    *cond,
                    body@,
                    until,
                ),
                global.num_operations >= old(global).num_operations,
                self.limits.max_operations > 0 && old(global).num_operations <= self.limits.max_operations
                    ==> global.num_operations <= self.limits.max_operations,
            decreases u64::MAX - global.num_operations,
        {
            let mut skip_condition = false;
            if body.len() > 0 {
                let r = self.eval_stmt_block(global, scope, this_ptr, body, true);
                match r {
                    Ok(_) => {},
                    Err(e) => {
                        match *e {
                            EvalAltResult::LoopBreak(false, _, _) => {
                                skip_condition = true;
                            },
                            EvalAltResult::LoopBreak(true, v, _) => {
                                return Ok(v);
                            },
                            other => {
                                return Err(Box::new(other));
                            },
                        }
                    },
                }
            }
            if !skip_condition {
                let c = self.eval_expr(global, scope, this_ptr, cond);
                match as_bool_exec(c, cond.position()) {
                    Err(e) => {
                        return Err(e);
                    },
                    Ok(b) => {
                        if b == until {
                            return Ok(Dynamic::unit());
                        }
                    },
                }
            }
        }
    }
}

/// Is the condition of a `while` loop the constant `()` or `true`?
fn is_endless_exec(cond: &Expr) -> (r: bool)
    ensures
        r == is_endless(*cond),
{
    match cond {
        Expr::Unit(_) => true,
        Expr::BoolConstant(b, _) => *b,
        _ => false,
    }
}

/// The runtime state at the start of an evaluation run of an engine, for a script of the
/// given source.
pub open spec fn fresh_state(eng: Engine, source: Option<Seq<char>>) -> GState {
    GState {
        num_operations: 0,
        scope_level: 0,
        level: 0,
        always_search_scope: false,
        source,
        tag: dyn_view(eng.def_tag),
        lib: Seq::empty(),
    }
}

/// The runtime state at the start of a run of a script: that of a fresh run, with the
/// script's source and functions.
pub open spec fn run_state(eng: Engine, ast: crate::ast::AST) -> GState {
    GState { lib: ast.lib@, ..fresh_state(eng, source_view(ast.source)) }
}

/// Append shared copies of the functions `more` to `lib`.
fn extend_lib(lib: &mut Vec<Rc<ScriptFuncDef>>, more: &Vec<Rc<ScriptFuncDef>>)
    ensures
        final(lib)@ == old(lib)@ + more@,
{
    let mut i: usize = 0;
    while i < more.len()
        invariant
            i <= more@.len(),
            lib@ == old(lib)@ + more@.take(i as int),
        decreases more@.len() - i,
    {
        lib.push(crate::callable::share(&more[i]));
        assert(more@.take(i + 1) =~= more@.take(i as int).push(more@[i as int]));
        i += 1;
    }
    assert(more@.take(more@.len() as int) =~= more@);
}

/// The source of a script, as a character sequence.
pub open spec fn source_view(source: Option<String>) -> Option<Seq<char>> {
    match source {
        Some(s) => Some(s@),
        None => None,
    }
}

/// The state of a run at global level: no `this` value.
pub open spec fn global_st(g: GState, scope: Seq<VarV>) -> St {
    St { g, scope, this: plain(Value::Null) }
}

/// The outcome of evaluating a script in a scope, from a given runtime state: the runtime
/// state and scope after it, and its result. The script's source and functions are those of
/// the run while it runs; an empty script leaves them in place.
pub open spec fn sem_ast_raw(eng: Engine, g: GState, scope: Seq<VarV>, ast: crate::ast::AST) -> (
    GState,
    Seq<VarV>,
    Result<DynV, ErrV>,
) {
    let g1 = GState { source: source_view(ast.source), lib: g.lib + ast.lib@, ..g };
    if ast.body@.len() == 0 {
        (g1, scope, Ok(unit_v()))
    } else {
        let (st2, r) = sem_global(eng, global_st(g1, scope), ast.body@);
        (GState { source: g.source, lib: g.lib, ..st2.g }, st2.scope, r)
    }
}

/// A copy of an optional string.
pub(crate) fn clone_source(s: &Option<String>) -> (r: Option<String>)
    ensures
        source_view(r) == source_view(*s),
{
    match s {
        Some(x) => Some(x.clone()),
        None => None,
    }
}

impl Engine {
    /// Evaluate the statements of a script at global level, with no `this` value; a `return`
    /// ends the script with its value.
    pub fn eval_global_statements(
        &self,
        global: &mut GlobalRuntimeState,
        scope: &mut Scope,
        statements: &Vec<Stmt>,
    ) -> (r: RhaiResult)
        ensures
            ({
                let (st2, res) = sem_global(
                    *self,
                    global_st(g_view(*old(global)), old(scope)@),
                    statements@,
                );
                &&& g_view(*final(global)) == st2.g
                &&& final(scope)@ == st2.scope
                &&& result_view(r) == res
            }),
            final(global).num_operations >= old(global).num_operations,
            within_limit(
                self.limits.max_operations,
                old(global).num_operations,
                final(global).num_operations,
                result_view(r),
            ),
    {
        let mut this = Dynamic::null();
        let r = self.eval_stmt_block(global, scope, &mut this, statements, false);
        match r {
            Ok(v) => Ok(v),
            Err(e) => match *e {
                EvalAltResult::Return(out, _) => Ok(out),
                other => Err(Box::new(other)),
            },
        }
    }

    /// Evaluate a list of statements at global level, in a given runtime state and scope.
    pub fn eval_statements_raw(
        &self,
        global: &mut GlobalRuntimeState,
        scope: &mut Scope,
        statements: &Vec<Stmt>,
    ) -> (r: RhaiResult)
        ensures
            ({
                let (st2, res) = sem_global(
                    *self,
                    global_st(g_view(*old(global)), old(scope)@),
                    statements@,
                );
                &&& g_view(*final(global)) == st2.g
                &&& final(scope)@ == st2.scope
                &&& result_view(r) == res
            }),
    {
        self.eval_global_statements(global, scope, statements)
    }

    /// Evaluate a script in a given runtime state and scope; the script's source is the
    /// source of the run while it runs.
    pub fn eval_ast_with_scope_raw(
        &self,
        global: &mut GlobalRuntimeState,
        scope: &mut Scope,
        ast: &crate::ast::AST,
    ) -> (r: RhaiResult)
        ensures
            ({
                let (g2, s2, res) = sem_ast_raw(*self, g_view(*old(global)), old(scope)@, *ast);
                &&& g_view(*final(global)) == g2
                &&& final(scope)@ == s2
                &&& result_view(r) == res
            }),
    {
        let mut orig_source = clone_source(&ast.source);
        core::mem::swap(&mut global.source, &mut orig_source);
        let mut orig_lib: Vec<Rc<ScriptFuncDef>> = Vec::new();
        extend_lib(&mut orig_lib, &global.lib);
        assert(orig_lib@ =~= old(global).lib@);
        extend_lib(&mut global.lib, &ast.lib);
        if ast.body.len() == 0 {
            return Ok(Dynamic::unit());
        }
        let r = self.eval_global_statements(global, scope, &ast.body);
        global.source = orig_source;
        global.lib = orig_lib;
        r
    }

    /// Evaluate a script in a scope, in a fresh evaluation run.
    pub fn eval_ast_with_scope(&self, scope: &mut Scope, ast: &crate::ast::AST) -> (r: RhaiResult)
        ensures
            ({
                let (g2, s2, res) = sem_ast_raw(*self, fresh_state(*self, None), old(scope)@, *ast);
                &&& final(scope)@ == s2
                &&& result_view(r) == res
            }),
    {
        let mut global = GlobalRuntimeState::new(self);
        self.eval_ast_with_scope_raw(&mut global, scope, ast)
    }

    /// Evaluate a script in a fresh evaluation run, with an empty scope.
    pub fn eval_ast(&self, ast: &crate::ast::AST) -> (r: RhaiResult)
        ensures
            result_view(r) == sem_ast_raw(
                *self,
                fresh_state(*self, None),
                Seq::<VarV>::empty(),
                *ast,
            ).2,
    {
        let mut scope = Scope::new();
        self.eval_ast_with_scope(&mut scope, ast)
    }

    /// Run a script in a scope, in a fresh evaluation run, discarding its value.
    pub fn run_ast_with_scope(&self, scope: &mut Scope, ast: &crate::ast::AST) -> (r: RhaiResultOf<
        (),
    >)
        ensures
            ast.body@.len() == 0 ==> r is Ok && final(scope)@ == old(scope)@,
            ast.body@.len() > 0 ==> ({
                let (st2, res) = sem_global(
                    *self,
                    global_st(run_state(*self, *ast), old(scope)@),
                    ast.body@,
                );
                &&& final(scope)@ == st2.scope
                &&& unit_result_view(r) == match res {
                    Ok(_) => Ok(()),
                    Err(e) => Err::<(), ErrV>(e),
                }
            }),
    {
        let mut global = GlobalRuntimeState::new(self);
        global.source = clone_source(&ast.source);
        extend_lib(&mut global.lib, &ast.lib);
        assert(global.lib@ =~= ast.lib@);
        if ast.body.len() > 0 {
            match self.eval_global_statements(&mut global, scope, &ast.body) {
                Ok(_) => {},
                Err(e) => {
                    return Err(e);
                },
            }
        }
        Ok(())
    }

    /// Run a script in a fresh evaluation run, with an empty scope, discarding its value.
    pub fn run_ast(&self, ast: &crate::ast::AST) -> (r: RhaiResultOf<()>)
        ensures
            ast.body@.len() == 0 ==> r is Ok,
            ast.body@.len() > 0 ==> unit_result_view(r) == match sem_global(
                *self,
                global_st(run_state(*self, *ast), Seq::<VarV>::empty()),
                ast.body@,
            ).1 {
                Ok(_) => Ok(()),
                Err(e) => Err::<(), ErrV>(e),
            },
    {
        let mut scope = Scope::new();
        self.run_ast_with_scope(&mut scope, ast)
    }

    /// Run a script in a scope, discarding its value (an older name of
    /// [`Engine::run_ast_with_scope`]).
    pub fn consume_ast_with_scope(&self, scope: &mut Scope, ast: &crate::ast::AST) -> (r:
        RhaiResultOf<()>)
        ensures
            ast.body@.len() == 0 ==> r is Ok && final(scope)@ == old(scope)@,
            ast.body@.len() > 0 ==> ({
                let (st2, res) = sem_global(
                    *self,
                    global_st(run_state(*self, *ast), old(scope)@),
                    ast.body@,
                );
                &&& final(scope)@ == st2.scope
                &&& unit_result_view(r) == match res {
                    Ok(_) => Ok(()),
                    Err(e) => Err::<(), ErrV>(e),
                }
            }),
    {
        self.run_ast_with_scope(scope, ast)
    }

    /// Run a script, discarding its value (an older name of [`Engine::run_ast`]).
    pub fn consume_ast(&self, ast: &crate::ast::AST) -> (r: RhaiResultOf<()>)
        ensures
            ast.body@.len() == 0 ==> r is Ok,
            ast.body@.len() > 0 ==> unit_result_view(r) == match sem_global(
                *self,
                global_st(run_state(*self, *ast), Seq::<VarV>::empty()),
                ast.body@,
            ).1 {
                Ok(_) => Ok(()),
                Err(e) => Err::<(), ErrV>(e),
            },
    {
        self.run_ast(ast)
    }
}

} // verus!
