use rhai_core::ast::{Expr, FnAccess, Ident, ScriptFuncDef, Stmt, VariableRef, AST};
use rhai_core::dynamic::{Dynamic, Union};
use rhai_core::engine::{Engine, GlobalRuntimeState};
use rhai_core::error::EvalAltResult;
use rhai_core::module::Module;
use rhai_core::position::Position;
use rhai_core::scope::Scope;
use std::rc::Rc;

fn p(line: u16) -> Position {
    Position::new(line, 1)
}

fn let_(name: &str, i: i64) -> Stmt {
    Stmt::Var(Box::new((Ident { name: name.to_string(), pos: p(1) }, Expr::IntegerConstant(i, p(1)))), false, p(1))
}

fn read(name: &str) -> Stmt {
    Stmt::Expr(Box::new(Expr::Variable(Box::new(VariableRef { index: 0, name: name.to_string() }), p(2))))
}

fn def(name: &str, params: &[&str], access: FnAccess) -> Rc<ScriptFuncDef> {
    Rc::new(ScriptFuncDef {
        name: name.to_string(),
        access,
        params: params.iter().map(|s| s.to_string()).collect(),
        body: Vec::new(),
        comments: Vec::new(),
    })
}

fn int_of(d: Option<Dynamic>) -> i64 {
    match d.expect("variable should exist").value {
        Union::Int(i) => i,
        other => panic!("not an integer: {:?}", other),
    }
}

#[test]
fn eval_ast_as_new_exports_aliased_variables() {
    let engine = Engine::new();
    let mut scope = Scope::new();
    scope.push("answer", Dynamic::from_int(42));
    scope.set_alias("answer", "answer");
    let ast = AST::new(vec![let_("x", 1)], vec![]);
    let module = Module::eval_ast_as_new(scope, &ast, &engine).expect("the script should run");
    assert!(module.contains_var("answer"));
    assert_eq!(int_of(module.get_var("answer")), 42);
    assert!(!module.contains_var("x"));
    assert!(module.is_indexed());
}

#[test]
fn eval_ast_as_new_raw_restores_scope_and_source() {
    let engine = Engine::new();
    let mut scope = Scope::new();
    scope.push("a", Dynamic::from_int(1));
    scope.set_alias("a", "first");
    scope.set_alias("a", "second");
    let mut global = GlobalRuntimeState::new(&engine);
    global.source = Some("outer".to_string());
    let mut ast = AST::new(vec![let_("b", 2), let_("c", 3)], vec![]);
    ast.source = Some("script".to_string());
    let module = Module::eval_ast_as_new_raw(&engine, &mut scope, &mut global, &ast).unwrap();
    assert_eq!(scope.len(), 1);
    assert_eq!(global.source.as_deref(), Some("outer"));
    assert_eq!(module.id(), Some("script"));
    assert_eq!(int_of(module.get_var("first")), 1);
    assert_eq!(int_of(module.get_var("second")), 1);
    assert!(!module.contains_var("a"));
}

#[test]
fn eval_ast_as_new_last_variable_wins_an_alias() {
    let engine = Engine::new();
    let mut scope = Scope::new();
    scope.push("a", Dynamic::from_int(1));
    scope.set_alias("a", "v");
    scope.push("b", Dynamic::from_int(2));
    scope.set_alias("b", "v");
    let module = Module::eval_ast_as_new(scope, &AST::new(vec![], vec![]), &engine).unwrap();
    assert_eq!(int_of(module.get_var("v")), 2);
}

#[test]
fn eval_ast_as_new_keeps_public_functions_only() {
    let engine = Engine::new();
    let ast = AST::new(
        vec![let_("x", 1)],
        vec![def("shown", &["a", "b"], FnAccess::Public), def("hidden", &[], FnAccess::Private)],
    );
    let module = Module::eval_ast_as_new(Scope::new(), &ast, &engine).unwrap();
    let shown = module.get_script_fn("shown", 2).expect("shown should be a module function");
    assert_eq!(shown.name, "shown");
    assert!(module.get_script_fn("hidden", 0).is_none());
    assert!(module.is_indexed());
    assert_eq!(module.id(), None);
}

#[test]
fn eval_ast_as_new_raw_passes_on_script_errors() {
    let engine = Engine::new();
    let mut scope = Scope::new();
    let mut global = GlobalRuntimeState::new(&engine);
    let ast = AST::new(vec![let_("x", 1), read("missing")], vec![def("f", &[], FnAccess::Public)]);
    let r = Module::eval_ast_as_new_raw(&engine, &mut scope, &mut global, &ast);
    match r {
        Err(e) => assert!(matches!(*e, EvalAltResult::ErrorVariableNotFound(ref n, _) if n == "missing")),
        Ok(_) => panic!("the script should fail"),
    }
    assert_eq!(scope.len(), 1);
    assert_eq!(global.source, None);
}

#[test]
fn set_alias_needs_a_variable_and_adds_each_alias_once() {
    let mut scope = Scope::new();
    scope.set_alias("nothing", "n");
    assert_eq!(scope.len(), 0);
    scope.push("x", Dynamic::from_int(7));
    scope.set_alias("x", "y");
    scope.set_alias("x", "y");
    assert_eq!(scope.entries[0].aliases, vec!["y".to_string()]);
    assert!(matches!(scope.get_value("x").map(|d| d.value), Some(Union::Int(7))));
}

fn export(name: &str, alias: &str) -> Stmt {
    Stmt::Export(
        Box::new((Ident { name: name.to_string(), pos: p(3) }, Ident { name: alias.to_string(), pos: p(3) })),
        p(3),
    )
}

#[test]
fn eval_ast_as_new_doc_example() {
    // let answer = 42; export answer;
    let engine = Engine::new();
    let ast = AST::new(vec![let_("answer", 42), export("answer", "")], vec![]);
    let module = Module::eval_ast_as_new(Scope::new(), &ast, &engine).unwrap();
    assert!(module.contains_var("answer"));
    assert_eq!(int_of(module.get_var("answer")), 42);
}

#[test]
fn export_under_an_alias_and_of_a_missing_variable() {
    let engine = Engine::new();
    let ast = AST::new(vec![let_("x", 5), export("x", "y")], vec![]);
    let module = Module::eval_ast_as_new(Scope::new(), &ast, &engine).unwrap();
    assert_eq!(int_of(module.get_var("y")), 5);
    assert!(!module.contains_var("x"));
    let bad = AST::new(vec![export("nope", "")], vec![]);
    match Module::eval_ast_as_new(Scope::new(), &bad, &engine) {
        Err(e) => assert!(matches!(*e, EvalAltResult::ErrorVariableNotFound(ref n, _) if n == "nope")),
        Ok(_) => panic!("exporting a missing variable should fail"),
    }
}
