use vstd::prelude::*;
use crate::ast::{Expr, Stmt, FnCallExpr, MapItem, expr_pos, stmt_pos};
use crate::dynamic::{DynV, Value, plain};
use crate::engine::{Engine, clamp3, value_sizes, has_size_limit};
use crate::eval::{
    St, Slot, fuel, regressed, advanced, track, unit_v, as_bool_at, sem_search,
    op_assign_outcome, add_sizes3, map_set, template_entries, level_up,
    loop_goes_on, is_endless, sem_expr, sem_interp, sem_array, sem_map, sem_args, sem_fn_call,
    sem_stmts, sem_block, sem_spin, sem_loop, sem_while, sem_do, sem_opt_expr, sem_stmt,
    sem_global, GState, find_script_fn, bind_params, sem_for, sem_for_loop, sem_try, rewind,
};
use crate::ast::Ident;
use crate::error::ErrV;
use crate::position::Position;
use crate::scope::lemma_scope_search;
use crate::token::Token;

verus! {

/// From state `a` to state `b` the operation count did not go back and no variable left the
/// scope.
pub open spec fn kept(a: St, b: St) -> bool {
    &&& b.g.num_operations >= a.g.num_operations
    &&& b.scope.len() >= a.scope.len()
}

/// A found variable slot lies within the scope.
proof fn lemma_search_in_scope(st: St, v: crate::ast::VariableRef, pos: Position)
    ensures
        sem_search(st, v, pos) matches Ok(Slot::Var(i)) ==> 0 <= i < st.scope.len(),
{
    lemma_scope_search(st.scope, v.name@);
}

/// Evaluating an expression keeps the state (see [`kept`]).
pub proof fn lemma_expr_kept(eng: Engine, st: St, e: Expr)
    ensures
        kept(st, sem_expr(eng, st, e).0),
    decreases fuel(st), 0nat, 0nat,
{
    let (st1, t) = track(eng, st, expr_pos(e));
    if t is Ok {
        match e {
            Expr::FnCall(f, pos) => lemma_fn_call_kept(eng, st1, *f, pos),
            Expr::InterpolatedString(parts, _) => lemma_interp_kept(eng, st1, parts@, 0, plain(Value::Str(Seq::empty()))),
            Expr::Array(items, _) => lemma_array_kept(eng, st1, items@, 0, Seq::empty(), (0, 0, 0)),
            Expr::ObjectMap(items, names, _) => lemma_map_kept(eng, st1, items@, 0, template_entries(names@), (0, 0, 0)),
            Expr::Stmt(stmts, _) => if stmts@.len() > 0 {
                lemma_block_kept(eng, st1, stmts@, true);
            },
            Expr::And(x, _) => {
                lemma_expr_kept(eng, st1, x.lhs);
                let (st2, _) = sem_expr(eng, st1, x.lhs);
                if !regressed(st1, st2) {
                    lemma_expr_kept(eng, st2, x.rhs);
                }
            },
            Expr::Or(x, _) => {
                lemma_expr_kept(eng, st1, x.lhs);
                let (st2, _) = sem_expr(eng, st1, x.lhs);
                if !regressed(st1, st2) {
                    lemma_expr_kept(eng, st2, x.rhs);
                }
            },
            Expr::Coalesce(x, _) => {
                lemma_expr_kept(eng, st1, x.lhs);
                let (st2, _) = sem_expr(eng, st1, x.lhs);
                if !regressed(st1, st2) {
                    lemma_expr_kept(eng, st2, x.rhs);
                }
            },
            _ => {},
        }
    }
}

/// Evaluating the parts of an interpolated string keeps the state.
pub proof fn lemma_interp_kept(eng: Engine, st: St, parts: Seq<Expr>, i: int, concat: DynV)
    ensures
        kept(st, sem_interp(eng, st, parts, i, concat).0),
    decreases fuel(st), 1nat, parts.len() - i,
{
    if 0 <= i < parts.len() {
        lemma_expr_kept(eng, st, parts[i]);
        let (st1, r) = sem_expr(eng, st, parts[i]);
        if !regressed(st, st1) {
            if let Ok(item) = r {
                let (nc, o) = op_assign_outcome(
                    eng,
                    Token::PlusAssign,
                    Token::Plus,
                    expr_pos(parts[i]),
                    crate::eval::no_pos(),
                    concat,
                    item,
                );
                lemma_interp_kept(eng, st1, parts, i + 1, nc);
            }
        }
    }
}

/// Evaluating the items of an array literal keeps the state.
pub proof fn lemma_array_kept(eng: Engine, st: St, items: Seq<Expr>, i: int, acc: Seq<DynV>, sizes: (nat, nat, nat))
    ensures
        kept(st, sem_array(eng, st, items, i, acc, sizes).0),
    decreases fuel(st), 1nat, items.len() - i,
{
    if 0 <= i < items.len() {
        lemma_expr_kept(eng, st, items[i]);
        let (st1, r) = sem_expr(eng, st, items[i]);
        if !regressed(st, st1) {
            if let Ok(v) = r {
                if has_size_limit(eng.limits) {
                    let total = add_sizes3(sizes, clamp3(value_sizes(v.value)));
                    lemma_array_kept(eng, st1, items, i + 1, acc.push(v), total);
                } else {
                    lemma_array_kept(eng, st1, items, i + 1, acc.push(v), sizes);
                }
            }
        }
    }
}

/// Evaluating the properties of an object-map literal keeps the state.
pub proof fn lemma_map_kept(
    eng: Engine,
    st: St,
    items: Seq<MapItem>,
    i: int,
    acc: Seq<(Seq<char>, DynV)>,
    sizes: (nat, nat, nat),
)
    ensures
        kept(st, sem_map(eng, st, items, i, acc, sizes).0),
    decreases fuel(st), 1nat, items.len() - i,
{
    if 0 <= i < items.len() {
        lemma_expr_kept(eng, st, items[i].value);
        let (st1, r) = sem_expr(eng, st, items[i].value);
        if !regressed(st, st1) {
            if let Ok(v) = r {
                let acc2 = map_set(acc, items[i].key.name@, v);
                if has_size_limit(eng.limits) {
                    let total = add_sizes3(sizes, clamp3(value_sizes(v.value)));
                    lemma_map_kept(eng, st1, items, i + 1, acc2, total);
                } else {
                    lemma_map_kept(eng, st1, items, i + 1, acc2, sizes);
                }
            }
        }
    }
}

/// Evaluating the arguments of a call keeps the state.
pub proof fn lemma_args_kept(eng: Engine, st: St, args: Seq<Expr>, i: int, acc: Seq<DynV>)
    ensures
        kept(st, sem_args(eng, st, args, i, acc).0),
    decreases fuel(st), 1nat, args.len() - i,
{
    if 0 <= i < args.len() {
        lemma_expr_kept(eng, st, args[i]);
        let (st1, r) = sem_expr(eng, st, args[i]);
        if !regressed(st, st1) {
            if let Ok(v) = r {
                lemma_args_kept(eng, st1, args, i + 1, acc.push(v));
            }
        }
    }
}

/// Evaluating a function call keeps the state.
pub proof fn lemma_fn_call_kept(eng: Engine, st: St, f: FnCallExpr, pos: Position)
    ensures
        kept(st, sem_fn_call(eng, st, f, pos).0),
    decreases fuel(st), 2nat, 0nat,
{
    lemma_args_kept(eng, st, f.args@, 0, Seq::empty());
    let (st1, r) = sem_args(eng, st, f.args@, 0, Seq::empty());
    if let Ok(vals) = r {
        if let Some(d) = find_script_fn(st1.g.lib, f.name@, vals.len()) {
            let (st2, t) = track(eng, st1, pos);
            if !regressed(st, st1) && t is Ok && advanced(st1, st2) && d.body@.len() > 0 {
                let body_st = St {
                    g: GState { level: level_up(st2.g.level), ..st2.g },
                    scope: bind_params(d.params@, vals),
                    this: plain(Value::Null),
                };
                lemma_block_kept(eng, body_st, d.body@, true);
            }
        }
    }
}

/// Evaluating the statements of a block keeps the state.
pub proof fn lemma_stmts_kept(eng: Engine, st: St, stmts: Seq<Stmt>, i: int, last: DynV)
    ensures
        kept(st, sem_stmts(eng, st, stmts, i, last).0),
    decreases fuel(st), 1nat, stmts.len() - i,
{
    if 0 <= i < stmts.len() {
        lemma_stmt_kept(eng, st, stmts[i]);
        let (st1, r) = sem_stmt(eng, st, stmts[i]);
        if !regressed(st, st1) {
            if let Ok(v) = r {
                lemma_stmts_kept(eng, st1, stmts, i + 1, v);
            }
        }
    }
}

/// Evaluating a block keeps the state; a block that is a nesting level of its own leaves the
/// scope as long as it found it.
pub proof fn lemma_block_kept(eng: Engine, st: St, stmts: Seq<Stmt>, restore: bool)
    ensures
        kept(st, sem_block(eng, st, stmts, restore).0),
        restore ==> sem_block(eng, st, stmts, restore).0.scope.len() == st.scope.len(),
    decreases fuel(st), 2nat, 0nat,
{
    if stmts.len() > 0 {
        let st0 = if restore {
            St { g: GState { scope_level: level_up(st.g.scope_level), ..st.g }, ..st }
        } else {
            st
        };
        lemma_stmts_kept(eng, st0, stmts, 0, unit_v());
    }
}

/// An endless loop with an empty body keeps the state.
pub proof fn lemma_spin_kept(eng: Engine, st: St, pos: Position)
    ensures
        kept(st, sem_spin(eng, st, pos).0),
    decreases fuel(st), 3nat, 0nat,
{
    let (st1, t) = track(eng, st, pos);
    if t is Ok && advanced(st, st1) {
        lemma_spin_kept(eng, st1, pos);
    }
}

/// An endless loop keeps the state.
pub proof fn lemma_loop_kept(eng: Engine, st: St, body: Seq<Stmt>)
    ensures
        kept(st, sem_loop(eng, st, body).0),
    decreases fuel(st), 3nat, 0nat,
{
    lemma_block_kept(eng, st, body, true);
    let (st1, r) = sem_block(eng, st, body, true);
    if loop_goes_on(r) && advanced(st, st1) {
        lemma_loop_kept(eng, st1, body);
    }
}

/// A `while` loop keeps the state.
pub proof fn lemma_while_kept(eng: Engine, st: St, cond: Expr, body: Seq<Stmt>)
    ensures
        kept(st, sem_while(eng, st, cond, body).0),
    decreases fuel(st), 3nat, 0nat,
{
    lemma_expr_kept(eng, st, cond);
    let (st1, c) = sem_expr(eng, st, cond);
    if as_bool_at(c, expr_pos(cond)) == Ok::<bool, ErrV>(true) && advanced(st, st1) {
        if body.len() == 0 {
            lemma_while_kept(eng, st1, cond, body);
        } else {
            lemma_block_kept(eng, st1, body, true);
            let (st2, r) = sem_block(eng, st1, body, true);
            if loop_goes_on(r) && !regressed(st1, st2) {
                lemma_while_kept(eng, st2, cond, body);
            }
        }
    }
}

/// A `do` loop keeps the state.
pub proof fn lemma_do_kept(eng: Engine, st: St, cond: Expr, body: Seq<Stmt>, until: bool)
    ensures
        kept(st, sem_do(eng, st, cond, body, until).0),
    decreases fuel(st), 3nat, 0nat,
{
    if body.len() > 0 {
        lemma_block_kept(eng, st, body, true);
    }
    let (st1, r) = if body.len() == 0 {
        (st, Ok(unit_v()))
    } else {
        sem_block(eng, st, body, true)
    };
    match r {
        Err(ErrV::LoopBreak(false, _, _)) => if advanced(st, st1) {
            lemma_do_kept(eng, st1, cond, body, until);
        },
        Ok(_) => if !regressed(st, st1) {
            lemma_expr_kept(eng, st1, cond);
            let (st2, _) = sem_expr(eng, st1, cond);
            if advanced(st, st2) {
                lemma_do_kept(eng, st2, cond, body, until);
            }
        },
        _ => {},
    }
}

/// An optional expression keeps the state.
pub proof fn lemma_opt_expr_kept(eng: Engine, st: St, e: Option<Box<Expr>>)
    ensures
        kept(st, sem_opt_expr(eng, st, e).0),
    decreases fuel(st), 1nat, 0nat,
{
    if let Some(x) = e {
        lemma_expr_kept(eng, st, *x);
    }
}

/// The rounds of a `for` loop keep the state and the length of the scope.
pub proof fn lemma_for_loop_kept(
    eng: Engine,
    st: St,
    items: Seq<DynV>,
    k: nat,
    ci: Option<int>,
    cpos: Position,
    vi: int,
    body: Seq<Stmt>,
    pos: Position,
)
    requires
        0 <= vi < st.scope.len(),
        ci matches Some(c) ==> 0 <= c < st.scope.len(),
    ensures
        kept(st, sem_for_loop(eng, st, items, k, ci, cpos, vi, body, pos).0),
        sem_for_loop(eng, st, items, k, ci, cpos, vi, body, pos).0.scope.len() == st.scope.len(),
    decreases fuel(st), 3nat, 0nat,
{
    if k < items.len() && !(ci is Some && k > i64::MAX) {
        let s1 = match ci {
            Some(c) => st.scope.update(c, crate::scope::VarV { value: plain(Value::Int(k as i64)), ..st.scope[c] }),
            None => st.scope,
        };
        let sta = St { scope: s1.update(vi, crate::scope::VarV { value: items[k as int], ..s1[vi] }), ..st };
        let (st1, t) = track(eng, sta, pos);
        if t is Ok && advanced(sta, st1) {
            if body.len() == 0 {
                lemma_for_loop_kept(eng, st1, items, k + 1, ci, cpos, vi, body, pos);
            } else {
                lemma_block_kept(eng, st1, body, true);
                let (st2, r) = sem_block(eng, st1, body, true);
                if loop_goes_on(r) && !regressed(st1, st2) {
                    lemma_for_loop_kept(eng, st2, items, k + 1, ci, cpos, vi, body, pos);
                }
            }
        }
    }
}

/// A `for` loop keeps the state, and its loop variable and counter are gone when it ends:
/// the scope is as long as after the evaluation of the iterated expression.
pub proof fn lemma_for_kept(eng: Engine, st: St, var: Ident, counter: Ident, expr: Expr, body: Seq<Stmt>, pos: Position)
    ensures
        kept(st, sem_for(eng, st, var, counter, expr, body, pos).0),
        sem_for(eng, st, var, counter, expr, body, pos).0.scope.len() == sem_expr(eng, st, expr).0.scope.len(),
    decreases fuel(st), 4nat, 0nat,
{
    lemma_expr_kept(eng, st, expr);
    let (st2, r) = sem_expr(eng, st, expr);
    if let Ok(v) = r {
        if let Some(items) = crate::eval::iter_items(v.value) {
            if !regressed(st, st2) {
                let n = st2.scope.len();
                let has_counter = counter.name@.len() > 0;
                let s_c = if has_counter {
                    st2.scope.push(crate::scope::VarV { name: counter.name@, value: plain(Value::Int(0)), constant: false, aliases: Seq::empty() })
                } else {
                    st2.scope
                };
                let s_v = s_c.push(crate::scope::VarV { name: var.name@, value: crate::eval::unit_v(), constant: false, aliases: Seq::empty() });
                let ci = if has_counter {
                    Some(n as int)
                } else {
                    None
                };
                lemma_for_loop_kept(eng, St { scope: s_v, ..st2 }, items, 0, ci, counter.pos, s_v.len() - 1, body, pos);
            }
        }
    }
}

/// A `try` statement keeps the state, and leaves the scope as long as it was: the variables
/// of both blocks and the catch variable are gone when it ends.
pub proof fn lemma_try_kept(eng: Engine, st: St, try_block: Seq<Stmt>, var: Ident, catch_block: Seq<Stmt>)
    ensures
        kept(st, sem_try(eng, st, try_block, var, catch_block).0),
        sem_try(eng, st, try_block, var, catch_block).0.scope.len() == st.scope.len(),
    decreases fuel(st), 4nat, 0nat,
{
    lemma_block_kept(eng, st, try_block, true);
    let (st2, r) = sem_block(eng, st, try_block, true);
    if let Err(e) = r {
        if crate::eval::is_catchable(e) && !regressed(st, st2) {
            let named = var.name@.len() > 0;
            let s = if named {
                st2.scope.push(crate::scope::VarV { name: var.name@, value: crate::eval::caught_value(e, st2.g.source), constant: false, aliases: Seq::empty() })
            } else {
                st2.scope
            };
            lemma_block_kept(eng, St { scope: s, ..st2 }, catch_block, true);
        }
    }
}

/// An `if` statement runs the block that its condition picks: once its operation is counted
/// and its condition gives a boolean, a true condition gives what the `then` block gives and a
/// false one what the `else` block gives, each run from the state that the condition left;
/// an empty block gives `()` and leaves that state as it is.
pub proof fn lemma_if_runs_chosen_block(eng: Engine, st: St, s: Stmt)
    ensures
        match s {
            Stmt::If(x, _) => {
                let (st1, t) = track(eng, st, stmt_pos(s));
                let (st2, c) = sem_expr(eng, st1, x.0);
                (t is Ok && c is Ok && c->Ok_0.value is Bool) ==> {
                    let chosen = if c->Ok_0.value->Bool_0 {
                        x.1@
                    } else {
                        x.2@
                    };
                    sem_stmt(eng, st, s) == (if chosen.len() > 0 {
                        sem_block(eng, st2, chosen, true)
                    } else {
                        (st2, Ok(unit_v()))
                    })
                }
            },
            _ => true,
        },
{
    if let Stmt::If(x, _) = s {
        let (st1, t) = track(eng, st, stmt_pos(s));
        lemma_expr_kept(eng, st1, x.0);
    }
}

/// Evaluating a statement keeps the state.
#[verifier::rlimit(40)]
pub proof fn lemma_stmt_kept(eng: Engine, st: St, s: Stmt)
    ensures
        kept(st, sem_stmt(eng, st, s).0),
    decreases fuel(st), 0nat, 0nat,
{
    let (st1, t) = track(eng, st, stmt_pos(s));
    if t is Ok {
        match s {
            Stmt::Expr(e) => lemma_expr_kept(eng, st1, *e),
            Stmt::FnCall(f, pos) => lemma_fn_call_kept(eng, st1, *f, pos),
            Stmt::Block(stmts, _) => if stmts@.len() > 0 {
                lemma_block_kept(eng, st1, stmts@, true);
            },
            Stmt::If(x, _) => {
                lemma_expr_kept(eng, st1, x.0);
                let (st2, _) = sem_expr(eng, st1, x.0);
                if !regressed(st1, st2) {
                    lemma_block_kept(eng, st2, x.1@, true);
                    lemma_block_kept(eng, st2, x.2@, true);
                }
            },
            Stmt::While(x, pos) => if is_endless(x.0) {
                if x.1@.len() == 0 {
                    lemma_spin_kept(eng, st1, pos);
                } else {
                    lemma_loop_kept(eng, st1, x.1@);
                }
            } else {
                lemma_while_kept(eng, st1, x.0, x.1@);
            },
            Stmt::Do(x, until, _) => lemma_do_kept(eng, st1, x.0, x.1@, until),
            Stmt::For(x, pos) => lemma_for_kept(eng, st1, x.0, x.1, x.2, x.3@, pos),
            Stmt::TryCatch(x, _) => lemma_try_kept(eng, st1, x.0@, x.1, x.2@),
            Stmt::BreakLoop(e, _, _) => lemma_opt_expr_kept(eng, st1, e),
            Stmt::Return(e, _, _) => lemma_opt_expr_kept(eng, st1, e),
            Stmt::Var(x, _, _) => lemma_expr_kept(eng, st1, x.1),
            Stmt::Export(x, _) => lemma_scope_search(st1.scope, x.0.name@),
            Stmt::Assignment(x, _) => {
                let (_, var, var_pos, rhs) = *x;
                lemma_expr_kept(eng, st1, rhs);
                let (st2, _) = sem_expr(eng, st1, rhs);
                lemma_search_in_scope(st2, var, var_pos);
            },
            _ => {},
        }
    }
}

/// Evaluation never counts operations backwards and never removes a variable from the
/// scope it started with: evaluating statements at global level leaves the count at least
/// where it was and the scope at least as long.
pub proof fn lemma_global_kept(eng: Engine, st: St, stmts: Seq<Stmt>)
    ensures
        sem_global(eng, st, stmts).0.g.num_operations >= st.g.num_operations,
        sem_global(eng, st, stmts).0.scope.len() >= st.scope.len(),
{
    lemma_block_kept(eng, st, stmts, false);
}

} // verus!
