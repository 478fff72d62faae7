use vstd::prelude::*;
use crate::ast::Expr;
use crate::dynamic::Dynamic;
use crate::engine::{Engine, GlobalRuntimeState};
use crate::error::{RhaiResult, result_view};
use crate::eval::{sem_expr, sem_block, st_of};
use crate::scope::Scope;

verus! {

/// The context of a script evaluation: the engine, the scope, the runtime state and the value
/// bound to `this` (null when unbound).
pub struct EvalContext<'a> {
    /// The engine.
    pub engine: &'a Engine,
    /// The scope.
    pub scope: &'a mut Scope,
    /// The runtime state.
    pub global: &'a mut GlobalRuntimeState,
    /// The value bound to `this`.
    pub this_ptr: &'a mut Dynamic,
}

impl<'a> EvalContext<'a> {
    /// A context of an engine, runtime state, scope and `this` value.
    pub fn new(
        engine: &'a Engine,
        global: &'a mut GlobalRuntimeState,
        scope: &'a mut Scope,
        this_ptr: &'a mut Dynamic,
    ) -> (r: EvalContext<'a>)
        ensures
            r.engine == engine,
            *r.global == *old(global),
            *r.scope == *old(scope),
            *r.this_ptr == *old(this_ptr),
    {
        EvalContext { engine, scope, global, this_ptr }
    }

    /// The engine.
    pub fn engine(&self) -> (r: &'a Engine)
        ensures
            r == self.engine,
    {
        self.engine
    }

    /// The source of the script being evaluated, if any.
    pub fn source(&self) -> (r: Option<&str>)
        ensures
            match old(self.global).source {
                Some(s) => r matches Some(t) && t@ == s@,
                None => r is None,
            },
    {
        self.global.source()
    }

    /// The scope.
    pub fn scope(&self) -> (r: &Scope)
        ensures
            *r == *old(self.scope),
    {
        &*self.scope
    }

    /// The scope, to change.
    pub fn scope_mut(&mut self) -> (r: &mut Scope)
        ensures
            *r == *old(self).scope,
    {
        &mut *self.scope
    }

    /// The custom state of the run.
    pub fn tag(&self) -> (r: &Dynamic)
        ensures
            *r == old(self.global).tag,
    {
        &self.global.tag
    }

    /// The custom state of the run, to change.
    pub fn tag_mut(&mut self) -> (r: &mut Dynamic)
        ensures
            *r == old(self).global.tag,
    {
        &mut self.global.tag
    }

    /// The runtime state.
    pub fn global_runtime_state(&self) -> (r: &GlobalRuntimeState)
        ensures
            *r == *old(self.global),
    {
        &*self.global
    }

    /// The runtime state, to change.
    pub fn global_runtime_state_mut(&mut self) -> (r: &mut GlobalRuntimeState)
        ensures
            *r == *old(self).global,
    {
        &mut *self.global
    }

    /// The value bound to `this`, if any.
    pub fn this_ptr(&self) -> (r: Option<&Dynamic>)
        ensures
            old(self.this_ptr)@.value is Null ==> r is None,
            !(old(self.this_ptr)@.value is Null) ==> r == Some(&*old(self.this_ptr)),
    {
        if self.this_ptr.is_null() {
            None
        } else {
            Some(&*self.this_ptr)
        }
    }

    /// The value bound to `this`, if any, to change.
    pub fn this_ptr_mut(&mut self) -> (r: Option<&mut Dynamic>)
        ensures
            old(self).this_ptr@.value is Null ==> r is None,
            !(old(self).this_ptr@.value is Null) ==> (r matches Some(p) && *p == *old(self).this_ptr),
    {
        if self.this_ptr.is_null() {
            None
        } else {
            Some(&mut *self.this_ptr)
        }
    }

    /// The nesting level of function calls.
    pub fn call_level(&self) -> (r: usize)
        ensures
            r == old(self.global).level,
    {
        self.global.level
    }

    /// Evaluate an expression tree in this context; a statements block is evaluated with the
    /// scope rewound at its end.
    pub fn eval_expression_tree(&mut self, expr: &Expr) -> (r: RhaiResult)
        ensures
            (st_of(*final(self).global, *final(self).scope, *final(self).this_ptr), result_view(r))
                == match *expr {
                Expr::Stmt(stmts, _) => sem_block(
                    *old(self).engine,
                    st_of(*old(self).global, *old(self).scope, *old(self).this_ptr),
                    stmts@,
                    true,
                ),
                _ => sem_expr(
                    *old(self).engine,
                    st_of(*old(self).global, *old(self).scope, *old(self).this_ptr),
                    *expr,
                ),
            },
    {
        self.eval_expression_tree_raw(expr, true)
    }

    /// Evaluate an expression tree in this context; a statements block is evaluated with the
    /// scope rewound at its end when `rewind_scope` is set.
    pub fn eval_expression_tree_raw(&mut self, expr: &Expr, rewind_scope: bool) -> (r: RhaiResult)
        ensures
            (st_of(*final(self).global, *final(self).scope, *final(self).this_ptr), result_view(r))
                == match *expr {
                Expr::Stmt(stmts, _) => sem_block(
                    *old(self).engine,
                    st_of(*old(self).global, *old(self).scope, *old(self).this_ptr),
                    stmts@,
                    rewind_scope,
                ),
                _ => sem_expr(
                    *old(self).engine,
                    st_of(*old(self).global, *old(self).scope, *old(self).this_ptr),
                    *expr,
                ),
            },
            final(self).engine == old(self).engine,
    {
        match expr {
            Expr::Stmt(stmts, _) => self.engine.eval_stmt_block(
                self.global,
                self.scope,
                self.this_ptr,
                stmts,
                rewind_scope,
            ),
            _ => self.engine.eval_expr(self.global, self.scope, self.this_ptr, expr),
        }
    }
}

} // verus!
