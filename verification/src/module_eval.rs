use vstd::prelude::*;
use crate::ast::{AST, FnAccess, ScriptFuncDef};
use crate::callable::share;
use crate::dynamic::{Dynamic, DynV};
use crate::engine::{Engine, GlobalRuntimeState};
use crate::error::{ErrV, RhaiResultOf, err_view};
use crate::eval::{GState, clone_source, fresh_state, g_view, sem_ast_raw};
use crate::keyed::{has_hash, has_key, index_of_hash, lookup, lemma_lookup_is_put, puts_made,
    lemma_puts_made_append, lemma_puts_made_one, lemma_puts_made_none};
use crate::module::{FuncInfo, Module, fn_put, opt_entries, script_fn_info};
use crate::scope::{Scope, VarV, strs_view, var_view};
use std::rc::Rc;

verus! {

broadcast use vstd::std_specs::vec::group_vec_axioms;

/// The value a scope exports under an alias: that of the last variable carrying the alias.
pub open spec fn exported_value(s: Seq<VarV>, a: Seq<char>) -> Option<DynV>
    decreases s.len(),
{
    if s.len() == 0 {
        None
    } else if s.last().aliases.contains(a) {
        Some(s.last().value)
    } else {
        exported_value(s.drop_last(), a)
    }
}

/// The variables `vars` of a module are exactly the exports of the scope `s`.
pub open spec fn exports_match(vars: Seq<(String, Dynamic)>, s: Seq<VarV>) -> bool {
    forall|a: Seq<char>|
        #![trigger lookup(vars, a)]
        #![trigger exported_value(s, a)]
        match exported_value(s, a) {
            Some(v) => lookup(vars, a) matches Some(d) && d@ == v,
            None => lookup(vars, a) is None,
        }
}

/// A variable in front of others exports an alias only where none of the others does.
pub proof fn lemma_exported_front(e: VarV, t: Seq<VarV>, a: Seq<char>)
    ensures
        exported_value(seq![e] + t, a) == match exported_value(t, a) {
            Some(v) => Some(v),
            None => if e.aliases.contains(a) {
                Some(e.value)
            } else {
                None
            },
        },
    decreases t.len(),
{
    let u = seq![e] + t;
    if t.len() == 0 {
        assert(u =~= seq![e]);
        assert(u.last() == e);
        assert(u.drop_last() =~= Seq::<VarV>::empty());
        assert(exported_value(Seq::<VarV>::empty(), a) is None);
        assert(exported_value(t, a) is None);
    } else {
        assert(u.last() == t.last());
        assert(u.drop_last() =~= seq![e] + t.drop_last());
        lemma_exported_front(e, t.drop_last(), a);
    }
}

/// The function `f`, filed under `h`, is one of the public definitions among the first `k`
/// of `lib`.
pub open spec fn from_public_def(f: FuncInfo, h: u64, lib: Seq<Rc<ScriptFuncDef>>, k: int) -> bool {
    exists|j: int| 0 <= j < k && lib[j].access == FnAccess::Public && #[trigger] script_fn_info(f, *lib[j], h)
}

/// Every function of `fs` is one of the public definitions among the first `k` of `lib`.
pub open spec fn all_from_public(fs: Seq<(u64, FuncInfo)>, lib: Seq<Rc<ScriptFuncDef>>, k: int) -> bool {
    forall|h: u64| #[trigger] has_hash(fs, h) ==> from_public_def(fs[index_of_hash(fs, h)].1, h, lib, k)
}

/// The definition `d` is filed in `fs` under some hash.
pub open spec fn def_filed(fs: Seq<(u64, FuncInfo)>, d: ScriptFuncDef) -> bool {
    exists|h: u64| #[trigger] has_hash(fs, h) && script_fn_info(fs[index_of_hash(fs, h)].1, d, h)
}

/// The public definitions of `lib`, in order.
pub open spec fn public_defs(lib: Seq<Rc<ScriptFuncDef>>) -> Seq<Rc<ScriptFuncDef>>
    decreases lib.len(),
{
    if lib.len() == 0 {
        Seq::empty()
    } else if lib.last().access == FnAccess::Public {
        public_defs(lib.drop_last()).push(lib.last())
    } else {
        public_defs(lib.drop_last())
    }
}

/// The functions `fs` result from filing every public definition of `lib`, one after the
/// other, each under the hash computed for it (a later one filed under the same hash
/// replacing an earlier one).
pub open spec fn fns_filed(fs: Seq<(u64, FuncInfo)>, lib: Seq<Rc<ScriptFuncDef>>) -> bool {
    exists|ft: Seq<(u64, FuncInfo)>|
        #[trigger] puts_made(Seq::<(u64, FuncInfo)>::empty(), fs, ft) && ft.len() == public_defs(lib).len()
            && forall|q: int| 0 <= q < ft.len() ==> script_fn_info((#[trigger] ft[q]).1, *public_defs(lib)[q], ft[q].0)
}

/// Is `j` the last public definition of `lib`?
pub open spec fn last_public(lib: Seq<Rc<ScriptFuncDef>>, j: int) -> bool {
    &&& 0 <= j < lib.len()
    &&& lib[j].access == FnAccess::Public
    &&& forall|j2: int| j < j2 < lib.len() ==> (#[trigger] lib[j2]).access == FnAccess::Private
}

/// The first `j + 1` texts hold `a` where the first `j` do or the next one is `a`.
proof fn lemma_take_contains(v: Seq<Seq<char>>, j: int, a: Seq<char>)
    requires
        0 <= j < v.len(),
    ensures
        v.take(j + 1).contains(a) == (v.take(j).contains(a) || v[j] == a),
{
    if v.take(j + 1).contains(a) {
        let y = choose|y: int| 0 <= y < j + 1 && #[trigger] v.take(j + 1)[y] == a;
        if y < j {
            assert(v.take(j)[y] == a);
        }
    }
    if v.take(j).contains(a) {
        let y = choose|y: int| 0 <= y < j && #[trigger] v.take(j)[y] == a;
        assert(v.take(j + 1)[y] == a);
    }
    if v[j] == a {
        assert(v.take(j + 1)[j] == a);
    }
}

/// The module `m` is made of the script `ast`, which left the scope `s`: an indexed module
/// whose variables are the exports of `s`, whose functions are public definitions of the
/// script (the last of them among them), with no sub-modules, identified by the script's
/// source.
pub open spec fn module_made(m: Module, s: Seq<VarV>, ast: AST) -> bool {
    &&& m.wf()
    &&& m.flags.indexed
    &&& exports_match(m.variables@, s)
    &&& m.modules@.len() == 0
    &&& all_from_public(opt_entries(m.functions), ast.lib@, ast.lib@.len() as int)
    &&& forall|j: int| #[trigger] last_public(ast.lib@, j) ==> def_filed(opt_entries(m.functions), *ast.lib@[j])
    &&& fns_filed(opt_entries(m.functions), ast.lib@)
    &&& match ast.source {
        Some(src) => if src@.len() > 0 {
            m.id matches Some(i) && i@ == src@
        } else {
            m.id is None
        },
        None => m.id is None,
    }
}

/// Set each alias not yet a variable of the module to a copy of `value`.
fn export_aliases(module: &mut Module, aliases: &Vec<String>, value: &Dynamic)
    requires
        old(module).wf(),
    ensures
        final(module).wf(),
        final(module).functions == old(module).functions,
        final(module).modules == old(module).modules,
        final(module).id == old(module).id,
        forall|a: Seq<char>|
            #![trigger lookup(final(module).variables@, a)]
            match lookup(old(module).variables@, a) {
                Some(d) => lookup(final(module).variables@, a) == Some(d),
                None => if strs_view(aliases@).contains(a) {
                    lookup(final(module).variables@, a) matches Some(d) && d@ == value@
                } else {
                    lookup(final(module).variables@, a) is None
                },
            },
{
    let ghost v0 = old(module).variables@;
    let mut j: usize = 0;
    while j < aliases.len()
        invariant
            j <= aliases@.len(),
            module.wf(),
            module.functions == old(module).functions,
            module.modules == old(module).modules,
            module.id == old(module).id,
            v0 == old(module).variables@,
            forall|a: Seq<char>|
                #![trigger lookup(module.variables@, a)]
                match lookup(v0, a) {
                    Some(d) => lookup(module.variables@, a) == Some(d),
                    None => if strs_view(aliases@).take(j as int).contains(a) {
                        lookup(module.variables@, a) matches Some(d) && d@ == value@
                    } else {
                        lookup(module.variables@, a) is None
                    },
                },
        decreases aliases@.len() - j,
    {
        let ghost before = module.variables@;
        let ghost x = aliases@[j as int]@;
        proof {
            assert(strs_view(aliases@).take(j + 1) =~= strs_view(aliases@).take(j as int).push(x));
        }
        let present = module.contains_var(aliases[j].as_str());
        if !present {
            let v = value.deep_clone();
            let ghost vv = v;
            module.set_var(aliases[j].as_str(), v);
            proof {
                assert forall|a: Seq<char>| #![trigger lookup(module.variables@, a)]
                    match lookup(v0, a) {
                        Some(d) => lookup(module.variables@, a) == Some(d),
                        None => if strs_view(aliases@).take(j + 1).contains(a) {
                            lookup(module.variables@, a) matches Some(d) && d@ == value@
                        } else {
                            lookup(module.variables@, a) is None
                        },
                    } by {
                    lemma_lookup_is_put(before, module.variables@, x, vv, a);
                    lemma_take_contains(strs_view(aliases@), j as int, a);
                    if a == x {
                        assert(!has_key(before, x));
                        assert(lookup(before, x) is None);
                    }
                }
            }
        } else {
            proof {
                assert forall|a: Seq<char>| #![trigger lookup(module.variables@, a)]
                    match lookup(v0, a) {
                        Some(d) => lookup(module.variables@, a) == Some(d),
                        None => if strs_view(aliases@).take(j + 1).contains(a) {
                            lookup(module.variables@, a) matches Some(d) && d@ == value@
                        } else {
                            lookup(module.variables@, a) is None
                        },
                    } by {
                    assert(lookup(before, a) == lookup(module.variables@, a));
                    lemma_take_contains(strs_view(aliases@), j as int, a);
                    if a == x {
                        assert(has_key(before, x));
                        assert(lookup(before, x) is Some);
                    }
                }
            }
        }
        j += 1;
    }
    assert(strs_view(aliases@).take(aliases@.len() as int) =~= strs_view(aliases@));
}

impl Module {
    /// Create a new module by evaluating a script in a scope, within a given runtime state.
    ///
    /// When the script fails, its error is returned. Otherwise the variables of the scope that
    /// carry export aliases become module variables under those aliases (where variables
    /// share an alias, the last one defined wins), the public functions of the script become
    /// module functions (private ones do not), the module takes the script's source as its
    /// identifier, and it is indexed. The variables the script added to the scope are then
    /// removed; the source of the runtime state is restored either way.
    pub fn eval_ast_as_new_raw(
        engine: &Engine,
        scope: &mut Scope,
        global: &mut GlobalRuntimeState,
        ast: &AST,
    ) -> (r: RhaiResultOf<Module>)
        ensures
            ({
                let (g2, s2, res) = sem_ast_raw(*engine, g_view(*old(global)), old(scope)@, *ast);
                let n = old(scope)@.len();
                &&& g_view(*final(global)) == (GState { source: g_view(*old(global)).source, ..g2 })
                &&& (r is Err <==> res is Err)
                &&& (r matches Err(e) ==> res == Err::<DynV, ErrV>(err_view(*e)) && final(scope)@ == s2)
                &&& (r matches Ok(m) ==> module_made(m, s2, *ast) && final(scope)@ == (if s2.len() > n {
                    s2.take(n as int)
                } else {
                    s2
                }))
            }),
    {
        let orig_scope_len = scope.len();
        let orig_source = clone_source(&global.source);
        let result = engine.eval_ast_with_scope_raw(global, scope, ast);
        global.source = orig_source;
        match result {
            Err(e) => {
                return Err(e);
            },
            Ok(_) => {},
        }
        let ghost s2 = scope@;
        let mut module = Module::new();
        // Variables with aliases become module variables, the last one first.
        let mut i = scope.entries.len();
        assert(s2.subrange(i as int, s2.len() as int) =~= Seq::<VarV>::empty());
        while i > 0
            invariant
                i <= s2.len(),
                scope@ == s2,
                scope.entries@.len() == s2.len(),
                module.wf(),
                module.functions is None,
                module.modules@.len() == 0,
                module.id is None,
                exports_match(module.variables@, s2.subrange(i as int, s2.len() as int)),
            decreases i,
        {
            let ghost t = s2.subrange(i as int, s2.len() as int);
            let ghost e = s2[i - 1];
            proof {
                assert(e == var_view(scope.entries@[i - 1]));
                assert(seq![e] + t =~= s2.subrange(i - 1, s2.len() as int));
            }
            export_aliases(&mut module, &scope.entries[i - 1].aliases, &scope.entries[i - 1].value);
            proof {
                assert forall|a: Seq<char>|
                    #![trigger lookup(module.variables@, a)]
                    #![trigger exported_value(s2.subrange(i - 1, s2.len() as int), a)]
                    match exported_value(s2.subrange(i - 1, s2.len() as int), a) {
                        Some(v) => lookup(module.variables@, a) matches Some(d) && d@ == v,
                        None => lookup(module.variables@, a) is None,
                    } by {
                    lemma_exported_front(e, t, a);
                }
            }
            i -= 1;
        }
        assert(s2.subrange(0, s2.len() as int) =~= s2);
        scope.rewind(orig_scope_len);
        let ghost vars = module.variables;
        // Public functions become module functions.
        let ghost mut last: Option<(int, u64)> = None;
        let ghost mut ft: Seq<(u64, FuncInfo)> = Seq::empty();
        let mut k: usize = 0;
        proof {
            lemma_puts_made_none(Seq::<(u64, FuncInfo)>::empty());
            assert(ast.lib@.take(0) =~= Seq::<Rc<ScriptFuncDef>>::empty());
        }
        while k < ast.lib.len()
            invariant
                k <= ast.lib@.len(),
                puts_made(Seq::<(u64, FuncInfo)>::empty(), opt_entries(module.functions), ft),
                ft.len() == public_defs(ast.lib@.take(k as int)).len(),
                forall|q: int| 0 <= q < ft.len() ==> script_fn_info((#[trigger] ft[q]).1, *public_defs(ast.lib@.take(k as int))[q], ft[q].0),
                module.wf(),
                module.variables == vars,
                module.modules@.len() == 0,
                module.id is None,
                all_from_public(opt_entries(module.functions), ast.lib@, k as int),
                match last {
                    Some((j, h)) => {
                        &&& 0 <= j < k
                        &&& ast.lib@[j].access == FnAccess::Public
                        &&& forall|j2: int| j < j2 < k ==> (#[trigger] ast.lib@[j2]).access == FnAccess::Private
                        &&& has_hash(opt_entries(module.functions), h)
                        &&& script_fn_info(opt_entries(module.functions)[index_of_hash(opt_entries(module.functions), h)].1, *ast.lib@[j], h)
                    },
                    None => forall|j2: int| 0 <= j2 < k ==> (#[trigger] ast.lib@[j2]).access == FnAccess::Private,
                },
            decreases ast.lib@.len() - k,
        {
            let public = match ast.lib[k].access {
                FnAccess::Public => true,
                FnAccess::Private => false,
            };
            proof {
                let t1 = ast.lib@.take(k + 1);
                assert(t1.drop_last() =~= ast.lib@.take(k as int));
                assert(t1.last() == ast.lib@[k as int]);
            }
            if public {
                let ghost fb = module.functions;
                let h = module.set_script_fn(share(&ast.lib[k]));
                proof {
                    let f = choose|f: FuncInfo| #[trigger] fn_put(fb, module.functions, h, f) && script_fn_info(f, *ast.lib@[k as int], h);
                    let old_fs = opt_entries(fb);
                    let fs = opt_entries(module.functions);
                    assert(fs[index_of_hash(fs, h)].1 == f);
                    assert forall|o: u64| #[trigger] has_hash(fs, o) implies from_public_def(fs[index_of_hash(fs, o)].1, o, ast.lib@, k + 1) by {
                        if o == h {
                            assert(script_fn_info(fs[index_of_hash(fs, o)].1, *ast.lib@[k as int], o));
                        } else {
                            assert(has_hash(old_fs, o));
                            assert(from_public_def(old_fs[index_of_hash(old_fs, o)].1, o, ast.lib@, k as int));
                            let j = choose|j: int| 0 <= j < k && ast.lib@[j].access == FnAccess::Public && #[trigger] script_fn_info(old_fs[index_of_hash(old_fs, o)].1, *ast.lib@[j], o);
                            assert(fs[index_of_hash(fs, o)].1 == old_fs[index_of_hash(old_fs, o)].1);
                            assert(script_fn_info(fs[index_of_hash(fs, o)].1, *ast.lib@[j], o));
                        }
                    }
                    last = Some((k as int, h));
                    lemma_puts_made_one(old_fs, fs, h, f);
                    lemma_puts_made_append(Seq::<(u64, FuncInfo)>::empty(), old_fs, fs, ft, seq![(h, f)]);
                    let pd = public_defs(ast.lib@.take(k as int));
                    assert(public_defs(ast.lib@.take(k + 1)) == pd.push(ast.lib@[k as int]));
                    assert forall|q: int| 0 <= q < ft.len() + 1 implies script_fn_info((#[trigger] (ft + seq![(h, f)])[q]).1, *pd.push(ast.lib@[k as int])[q], (ft + seq![(h, f)])[q].0) by {
                        if q < ft.len() {
                            assert((ft + seq![(h, f)])[q] == ft[q]);
                        } else {
                            assert((ft + seq![(h, f)])[q] == (h, f));
                        }
                    }
                    ft = ft + seq![(h, f)];
                }
            } else {
                proof {
                    assert(ast.lib@[k as int].access == FnAccess::Private);
                    assert(public_defs(ast.lib@.take(k + 1)) == public_defs(ast.lib@.take(k as int)));
                }
            }
            k += 1;
        }
        proof {
            let fs = opt_entries(module.functions);
            assert(ast.lib@.take(ast.lib@.len() as int) =~= ast.lib@);
            assert(fns_filed(fs, ast.lib@));
            assert forall|j: int| #[trigger] last_public(ast.lib@, j) implies def_filed(fs, *ast.lib@[j]) by {
                match last {
                    Some((j0, h)) => {
                        if j < j0 {
                            assert(ast.lib@[j0].access == FnAccess::Private);
                        } else if j > j0 {
                            assert(ast.lib@[j].access == FnAccess::Private);
                        }
                        assert(has_hash(fs, h) && script_fn_info(fs[index_of_hash(fs, h)].1, *ast.lib@[j], h));
                    },
                    None => {
                        assert(ast.lib@[j].access == FnAccess::Private);
                    },
                }
            }
        }
        match &ast.source {
            Some(src) => module.set_id(src.as_str()),
            None => {},
        }
        module.build_index();
        Ok(module)
    }
}

impl Module {
    /// Create a new module by evaluating a script in a scope, in a fresh evaluation run: the
    /// script's error, or the module that [`Module::eval_ast_as_new_raw`] makes of it.
    pub fn eval_ast_as_new(scope: Scope, ast: &AST, engine: &Engine) -> (r: RhaiResultOf<Module>)
        ensures
            ({
                let (g2, s2, res) = sem_ast_raw(*engine, fresh_state(*engine, None), scope@, *ast);
                &&& (r is Err <==> res is Err)
                &&& (r matches Err(e) ==> res == Err::<DynV, ErrV>(err_view(*e)))
                &&& (r matches Ok(m) ==> module_made(m, s2, *ast))
            }),
    {
        let mut scope = scope;
        let mut global = GlobalRuntimeState::new(engine);
        proof {
            assert(global.lib@ =~= Seq::<Rc<ScriptFuncDef>>::empty());
            assert(g_view(global) == fresh_state(*engine, None));
        }
        Module::eval_ast_as_new_raw(engine, &mut scope, &mut global, ast)
    }
}

} // verus!
