use rhai_core::ast::{BinaryExpr, Expr, FnAccess, FnCallExpr, Ident, MapItem, OpAssignment, ScriptFuncDef, Stmt, VariableRef, AST};
use rhai_core::dynamic::{Dynamic, Union};
use rhai_core::engine::{Engine, GlobalRuntimeState};
use rhai_core::error::EvalAltResult;
use rhai_core::position::Position;
use rhai_core::scope::Scope;
use rhai_core::token::Token;
use std::rc::Rc;

fn p(line: u16) -> Position {
    Position::new(line, 1)
}

fn lit(i: i64) -> Expr {
    Expr::IntegerConstant(i, p(1))
}

fn var(name: &str) -> Expr {
    Expr::Variable(Box::new(VariableRef { index: 0, name: name.to_string() }), p(2))
}

fn op(token: Token, name: &str, a: Expr, b: Expr) -> Expr {
    Expr::FnCall(
        Box::new(FnCallExpr { name: name.to_string(), args: vec![a, b], op_token: Some(token) }),
        p(3),
    )
}

fn let_(name: &str, e: Expr) -> Stmt {
    Stmt::Var(Box::new((Ident { name: name.to_string(), pos: p(4) }, e)), false, p(4))
}

fn const_(name: &str, e: Expr) -> Stmt {
    Stmt::Var(Box::new((Ident { name: name.to_string(), pos: p(4) }, e)), true, p(4))
}

fn assign(name: &str, ops: Option<(Token, Token)>, e: Expr) -> Stmt {
    Stmt::Assignment(
        Box::new((
            OpAssignment { op: ops, pos: p(5) },
            VariableRef { index: 0, name: name.to_string() },
            p(5),
            e,
        )),
        p(5),
    )
}

fn expr_stmt(e: Expr) -> Stmt {
    Stmt::Expr(Box::new(e))
}

fn as_int(d: &Dynamic) -> i64 {
    match d.value {
        Union::Int(i) => i,
        _ => panic!("not an integer: {:?}", d),
    }
}

fn run(engine: &Engine, stmts: Vec<Stmt>) -> Result<Dynamic, Box<EvalAltResult>> {
    engine.eval_ast(&AST::new(stmts, vec![]))
}

#[test]
fn arithmetic_with_variables() {
    let e = Engine::new();
    let r = run(&e, vec![
        let_("x", lit(40)),
        let_("y", lit(2)),
        expr_stmt(op(Token::Plus, "+", var("x"), var("y"))),
    ]);
    assert_eq!(as_int(&r.unwrap()), 42);
}

#[test]
fn while_loop_sums() {
    let e = Engine::new();
    let body = vec![
        assign("sum", Some((Token::PlusAssign, Token::Plus)), var("i")),
        assign("i", Some((Token::PlusAssign, Token::Plus)), lit(1)),
    ];
    let r = run(&e, vec![
        let_("sum", lit(0)),
        let_("i", lit(1)),
        Stmt::While(Box::new((op(Token::LessThanEqualsTo, "<=", var("i"), lit(10)), body)), p(6)),
        expr_stmt(var("sum")),
    ]);
    assert_eq!(as_int(&r.unwrap()), 55);
}

#[test]
fn break_with_value_ends_endless_loop() {
    let e = Engine::new();
    let body = vec![
        assign("i", Some((Token::PlusAssign, Token::Plus)), lit(1)),
        Stmt::If(
            Box::new((
                op(Token::EqualsTo, "==", var("i"), lit(5)),
                vec![Stmt::BreakLoop(Some(Box::new(op(Token::Multiply, "*", var("i"), lit(10)))), true, p(7))],
                vec![],
            )),
            p(7),
        ),
    ];
    let r = run(&e, vec![
        let_("i", lit(0)),
        expr_stmt(Expr::Stmt(vec![Stmt::While(Box::new((Expr::BoolConstant(true, p(8)), body)), p(8))], p(8))),
    ]);
    assert_eq!(as_int(&r.unwrap()), 50);
}

#[test]
fn do_until_loop() {
    let e = Engine::new();
    let body = vec![assign("i", Some((Token::MultiplyAssign, Token::Multiply)), lit(2))];
    let r = run(&e, vec![
        let_("i", lit(1)),
        Stmt::Do(Box::new((op(Token::GreaterThan, ">", var("i"), lit(100)), body)), true, p(9)),
        expr_stmt(var("i")),
    ]);
    assert_eq!(as_int(&r.unwrap()), 128);
}

#[test]
fn return_ends_the_script() {
    let e = Engine::new();
    let r = run(&e, vec![
        Stmt::Return(Some(Box::new(lit(7))), false, p(1)),
        expr_stmt(lit(8)),
    ]);
    assert_eq!(as_int(&r.unwrap()), 7);
}

#[test]
fn throw_is_a_runtime_error() {
    let e = Engine::new();
    let r = run(&e, vec![Stmt::Return(Some(Box::new(lit(7))), true, p(3))]);
    match *r.unwrap_err() {
        EvalAltResult::ErrorRuntime(v, pos) => {
            assert_eq!(as_int(&v), 7);
            assert_eq!(pos, p(3));
        }
        _ => panic!("wrong error"),
    }
}

#[test]
fn too_many_operations() {
    let mut e = Engine::new();
    e.set_max_operations(10);
    let r = run(&e, vec![Stmt::While(Box::new((Expr::Unit(p(1)), vec![])), p(1))]);
    assert!(matches!(*r.unwrap_err(), EvalAltResult::ErrorTooManyOperations(_)));
}

#[test]
fn operations_are_counted() {
    let e = Engine::new();
    let mut global = GlobalRuntimeState::new(&e);
    let mut scope = Scope::new();
    let stmts = vec![let_("x", lit(1)), expr_stmt(op(Token::Plus, "+", var("x"), lit(1)))];
    let r = e.eval_statements_raw(&mut global, &mut scope, &stmts);
    assert_eq!(as_int(&r.unwrap()), 2);
    // let: statement + value; expression statement: statement + call + two operands
    assert_eq!(global.num_operations, 6);
    assert_eq!(scope.len(), 1);
}

#[test]
fn constants_cannot_be_assigned() {
    let e = Engine::new();
    let r = run(&e, vec![const_("x", lit(1)), assign("x", None, lit(2))]);
    match *r.unwrap_err() {
        EvalAltResult::ErrorAssignmentToConstant(name, _) => assert_eq!(name, "x"),
        _ => panic!("wrong error"),
    }
}

#[test]
fn unknown_variable_and_function() {
    let e = Engine::new();
    let r = run(&e, vec![expr_stmt(var("nope"))]);
    match *r.unwrap_err() {
        EvalAltResult::ErrorVariableNotFound(name, _) => assert_eq!(name, "nope"),
        _ => panic!("wrong error"),
    }
    let r = run(&e, vec![expr_stmt(op(Token::Plus, "+", lit(1), Expr::BoolConstant(true, p(1))))]);
    match *r.unwrap_err() {
        EvalAltResult::ErrorFunctionNotFound(sig, _) => assert_eq!(sig, "+ (i64, bool)"),
        _ => panic!("wrong error"),
    }
}

#[test]
fn shadowing_can_be_forbidden() {
    let mut e = Engine::new();
    e.set_allow_shadowing(false);
    let r = run(&e, vec![let_("x", lit(1)), let_("x", lit(2))]);
    assert!(matches!(*r.unwrap_err(), EvalAltResult::ErrorVariableExists(..)));
}

#[test]
fn block_variables_go_out_of_scope() {
    let e = Engine::new();
    let mut scope = Scope::new();
    let ast = AST::new(vec![Stmt::Block(vec![let_("inner", lit(1))], p(1)), let_("outer", lit(2))], vec![]);
    e.run_ast_with_scope(&mut scope, &ast).unwrap();
    assert_eq!(scope.len(), 1);
    assert!(scope.contains("outer"));
    assert!(!scope.contains("inner"));
}

#[test]
fn if_needs_a_boolean() {
    let e = Engine::new();
    let r = run(&e, vec![Stmt::If(Box::new((lit(1), vec![], vec![])), p(1))]);
    match *r.unwrap_err() {
        EvalAltResult::ErrorMismatchDataType(expected, actual, _) => {
            assert_eq!(expected, "bool");
            assert_eq!(actual, "i64");
        }
        _ => panic!("wrong error"),
    }
}

#[test]
fn and_or_coalesce() {
    let e = Engine::new();
    let and = Expr::And(Box::new(BinaryExpr { lhs: Expr::BoolConstant(false, p(1)), rhs: lit(1) }), p(1));
    let r = run(&e, vec![expr_stmt(and)]).unwrap();
    assert!(matches!(r.value, Union::Bool(false)));
    let or = Expr::Or(Box::new(BinaryExpr { lhs: Expr::BoolConstant(false, p(1)), rhs: Expr::BoolConstant(true, p(1)) }), p(1));
    let r = run(&e, vec![expr_stmt(or)]).unwrap();
    assert!(matches!(r.value, Union::Bool(true)));
    let co = Expr::Coalesce(Box::new(BinaryExpr { lhs: Expr::Unit(p(1)), rhs: lit(9) }), p(1));
    assert_eq!(as_int(&run(&e, vec![expr_stmt(co)]).unwrap()), 9);
}

#[test]
fn array_and_map_literals() {
    let e = Engine::new();
    let arr = Expr::Array(vec![lit(1), lit(2), lit(3)], p(1));
    let r = run(&e, vec![expr_stmt(arr)]).unwrap();
    assert!(matches!(&r.value, Union::Array(v) if v.len() == 3));
    let map = Expr::ObjectMap(
        vec![
            MapItem { key: Ident { name: "b".to_string(), pos: p(1) }, value: lit(2) },
            MapItem { key: Ident { name: "a".to_string(), pos: p(1) }, value: lit(1) },
        ],
        vec!["a".to_string(), "b".to_string()],
        p(1),
    );
    let r = run(&e, vec![expr_stmt(map)]).unwrap();
    match &r.value {
        Union::ObjectMap(entries) => {
            assert_eq!(entries.len(), 2);
            assert_eq!(entries[0].key, "a");
            assert_eq!(as_int(&entries[0].value), 1);
            assert_eq!(entries[1].key, "b");
        }
        _ => panic!("not a map"),
    }
}

#[test]
fn array_size_limit_in_literal() {
    let mut e = Engine::new();
    e.set_max_array_size(2);
    let inner = Expr::Array(vec![lit(1), lit(2), lit(3)], p(1));
    let outer = Expr::Array(vec![inner], p(1));
    let r = run(&e, vec![expr_stmt(outer)]);
    assert!(matches!(*r.unwrap_err(), EvalAltResult::ErrorDataTooLarge(..)));
}

#[test]
fn flat_array_literal_counts_only_nested_sizes() {
    let mut e = Engine::new();
    e.set_max_array_size(2);
    let arr = Expr::Array(vec![lit(1), lit(2), lit(3)], p(1));
    let r = run(&e, vec![expr_stmt(arr)]);
    assert!(r.is_ok());
}

#[test]
fn interpolated_string() {
    let e = Engine::new();
    let s = Expr::InterpolatedString(
        vec![Expr::StringConstant("x = ".to_string(), p(1)), Expr::CharConstant('!', p(1))],
        p(1),
    );
    let r = run(&e, vec![expr_stmt(s)]).unwrap();
    assert!(matches!(&r.value, Union::Str(s) if s == "x = !"));
}

#[test]
fn this_is_unbound_at_global_level() {
    let e = Engine::new();
    let r = run(&e, vec![expr_stmt(var("this"))]);
    assert!(matches!(*r.unwrap_err(), EvalAltResult::ErrorUnboundThis(_)));
}

#[test]
fn empty_script_is_unit() {
    let e = Engine::new();
    let r = run(&e, vec![]).unwrap();
    assert!(r.is_unit());
    assert!(e.run_ast(&AST::new(vec![], vec![])).is_ok());
}

#[test]
fn evaluation_never_counts_back_nor_shrinks_the_scope() {
    let e = Engine::new();
    let mut scope = Scope::new();
    scope.push("a", Dynamic::from_int(1));
    let mut g = GlobalRuntimeState::new(&e);
    g.num_operations = 5;
    let ast = AST::new(vec![let_("b", lit(2)), Stmt::Block(vec![let_("c", lit(3))], p(1))], vec![]);
    e.eval_ast_with_scope_raw(&mut g, &mut scope, &ast).unwrap();
    assert!(g.num_operations > 5);
    assert_eq!(scope.len(), 2);
}

fn call(name: &str, args: Vec<Expr>) -> Expr {
    Expr::FnCall(Box::new(FnCallExpr { name: name.to_string(), args, op_token: None }), p(3))
}

fn script_def(name: &str, params: &[&str], body: Vec<Stmt>) -> Rc<ScriptFuncDef> {
    Rc::new(ScriptFuncDef {
        name: name.to_string(),
        access: FnAccess::Public,
        params: params.iter().map(|s| s.to_string()).collect(),
        body,
        comments: Vec::new(),
    })
}

fn ret(e: Expr) -> Stmt {
    Stmt::Return(Some(Box::new(e)), false, p(8))
}

#[test]
fn script_functions_are_called_with_their_arguments() {
    let e = Engine::new();
    let add = script_def("add", &["a", "b"], vec![ret(op(Token::Plus, "+", var("a"), var("b")))]);
    let ast = AST::new(vec![expr_stmt(call("add", vec![lit(40), lit(2)]))], vec![add]);
    assert_eq!(as_int(&e.eval_ast(&ast).unwrap()), 42);
}

#[test]
fn script_functions_recurse_and_give_their_last_value() {
    let e = Engine::new();
    // fn fact(n) { if n < 2 { return 1; } n * fact(n - 1) }
    let body = vec![
        Stmt::If(Box::new((op(Token::LessThan, "<", var("n"), lit(2)), vec![ret(lit(1))], vec![])), p(9)),
        expr_stmt(op(Token::Multiply, "*", var("n"), call("fact", vec![op(Token::Minus, "-", var("n"), lit(1))]))),
    ];
    let ast = AST::new(vec![expr_stmt(call("fact", vec![lit(5)]))], vec![script_def("fact", &["n"], body)]);
    assert_eq!(as_int(&e.eval_ast(&ast).unwrap()), 120);
}

#[test]
fn script_functions_see_only_their_parameters() {
    let e = Engine::new();
    let f = script_def("f", &[], vec![expr_stmt(var("x"))]);
    let ast = AST::new(vec![let_("x", lit(5)), expr_stmt(call("f", vec![]))], vec![f]);
    match e.eval_ast(&ast) {
        Err(err) => match *err {
            EvalAltResult::ErrorInFunctionCall(ref name, ref source, ref inner, _) => {
                assert_eq!(name, "f");
                assert_eq!(source, "");
                assert!(matches!(**inner, EvalAltResult::ErrorVariableNotFound(ref n, _) if n == "x"));
            }
            ref other => panic!("expected an error in the call: {:?}", other),
        },
        Ok(v) => panic!("the function should not see x: {:?}", v),
    }
}

#[test]
fn errors_in_script_functions_are_wrapped_but_system_errors_pass() {
    let e = Engine::new();
    let thrower = script_def("boom", &[], vec![Stmt::Return(Some(Box::new(lit(7))), true, p(8))]);
    let ast = AST::new(vec![expr_stmt(call("boom", vec![]))], vec![thrower]);
    match e.eval_ast(&ast) {
        Err(err) => match *err {
            EvalAltResult::ErrorInFunctionCall(ref name, _, ref inner, _) => {
                assert_eq!(name, "boom");
                assert!(matches!(**inner, EvalAltResult::ErrorRuntime(ref v, _) if as_int(v) == 7));
            }
            ref other => panic!("expected an error in the call: {:?}", other),
        },
        Ok(v) => panic!("the function should throw: {:?}", v),
    }
    let mut limited = Engine::new();
    limited.set_max_operations(3);
    let looping = script_def("spin", &[], vec![Stmt::While(Box::new((Expr::BoolConstant(true, p(1)), vec![])), p(1))]);
    let ast = AST::new(vec![expr_stmt(call("spin", vec![]))], vec![looping]);
    match limited.eval_ast(&ast) {
        Err(err) => assert!(matches!(*err, EvalAltResult::ErrorTooManyOperations(_))),
        Ok(v) => panic!("the run should stop: {:?}", v),
    }
}

#[test]
fn calls_match_name_and_number_of_arguments() {
    let e = Engine::new();
    let f = script_def("f", &["a"], vec![ret(var("a"))]);
    let ast = AST::new(vec![expr_stmt(call("f", vec![lit(1), lit(2)]))], vec![f]);
    match e.eval_ast(&ast) {
        Err(err) => assert!(matches!(*err, EvalAltResult::ErrorFunctionNotFound(..))),
        Ok(v) => panic!("no function should match: {:?}", v),
    }
}

fn ident(name: &str) -> Ident {
    Ident { name: name.to_string(), pos: p(10) }
}

fn if_then(cond: Expr, then: Vec<Stmt>) -> Stmt {
    Stmt::If(Box::new((cond, then, vec![])), p(11))
}

fn for_loop(v: &str, counter: &str, e: Expr, body: Vec<Stmt>) -> Stmt {
    Stmt::For(Box::new((ident(v), ident(counter), e, body)), p(12))
}

fn run_stmt(e: &Engine, scope: &mut Scope, stmt: &Stmt) -> Result<Dynamic, Box<EvalAltResult>> {
    let mut global = GlobalRuntimeState::new(e);
    let mut this_ptr = Dynamic::null();
    e.eval_stmt(&mut global, scope, &mut this_ptr, stmt)
}

#[test]
fn for_loop_over_range_with_continue_and_break() {
    let e = Engine::new();
    let mut scope = Scope::new();
    scope.push("s", Dynamic::from_int(0));
    let body = vec![
        if_then(op(Token::EqualsTo, "==", var("i"), lit(2)), vec![Stmt::BreakLoop(None, false, p(13))]),
        if_then(op(Token::EqualsTo, "==", var("i"), lit(4)), vec![Stmt::BreakLoop(None, true, p(14))]),
        assign("s", Some((Token::PlusAssign, Token::Plus)), var("i")),
    ];
    let stmt = for_loop("i", "", op(Token::ExclusiveRange, "..", lit(0), lit(10)), body);
    let r = run_stmt(&e, &mut scope, &stmt).unwrap();
    assert!(r.is_unit());
    assert_eq!(as_int(&scope.get_value("s").unwrap()), 4);
    assert_eq!(scope.len(), 1);
}

#[test]
fn for_loop_counter_and_inclusive_range() {
    let e = Engine::new();
    let mut scope = Scope::new();
    scope.push("s", Dynamic::from_int(0));
    let body = vec![assign(
        "s",
        Some((Token::PlusAssign, Token::Plus)),
        op(Token::Multiply, "*", var("x"), var("k")),
    )];
    let stmt = for_loop("x", "k", op(Token::InclusiveRange, "..=", lit(1), lit(3)), body);
    run_stmt(&e, &mut scope, &stmt).unwrap();
    // 1*0 + 2*1 + 3*2
    assert_eq!(as_int(&scope.get_value("s").unwrap()), 8);
    assert_eq!(scope.len(), 1);
}

#[test]
fn for_loop_over_array_string_and_blob() {
    let e = Engine::new();
    let mut scope = Scope::new();
    scope.push("n", Dynamic::from_int(0));
    scope.push("a", Dynamic::from_array(vec![Dynamic::from_int(5), Dynamic::from_int(7)]));
    scope.push("t", Dynamic::from_string("abc".to_string()));
    scope.push("b", Dynamic::from_blob(vec![1, 2, 250]));
    let count = || vec![assign("n", Some((Token::PlusAssign, Token::Plus)), lit(1))];
    run_stmt(&e, &mut scope, &for_loop("v", "", var("a"), count())).unwrap();
    assert_eq!(as_int(&scope.get_value("n").unwrap()), 2);
    run_stmt(&e, &mut scope, &for_loop("c", "", var("t"), count())).unwrap();
    assert_eq!(as_int(&scope.get_value("n").unwrap()), 5);
    let add = vec![assign("n", Some((Token::PlusAssign, Token::Plus)), var("v"))];
    run_stmt(&e, &mut scope, &for_loop("v", "", var("b"), add)).unwrap();
    assert_eq!(as_int(&scope.get_value("n").unwrap()), 258);
    let last = vec![assign("n", None, var("c"))];
    run_stmt(&e, &mut scope, &for_loop("c", "", var("t"), last)).unwrap();
    assert!(matches!(scope.get_value("n").unwrap().value, Union::Char('c')));
    assert_eq!(scope.len(), 4);
}

#[test]
fn for_loop_needs_an_iterable_value() {
    let e = Engine::new();
    let mut scope = Scope::new();
    let stmt = for_loop("i", "", lit(3), vec![]);
    match *run_stmt(&e, &mut scope, &stmt).unwrap_err() {
        EvalAltResult::ErrorFor(pos) => assert_eq!(pos, p(1)),
        _ => panic!("wrong error"),
    }
    assert_eq!(scope.len(), 0);
}

fn try_catch(body: Vec<Stmt>, v: &str, handler: Vec<Stmt>) -> Stmt {
    Stmt::TryCatch(Box::new((body, ident(v), handler)), p(15))
}

#[test]
fn try_catch_binds_the_thrown_value() {
    let e = Engine::new();
    let mut scope = Scope::new();
    scope.push("x", Dynamic::from_int(0));
    let stmt = try_catch(
        vec![Stmt::Return(Some(Box::new(lit(42))), true, p(16))],
        "err",
        vec![assign("x", None, var("err"))],
    );
    let r = run_stmt(&e, &mut scope, &stmt).unwrap();
    assert!(r.is_unit());
    assert_eq!(as_int(&scope.get_value("x").unwrap()), 42);
    assert_eq!(scope.len(), 1);
}

#[test]
fn try_catch_turns_an_error_into_a_map() {
    let e = Engine::new();
    let mut scope = Scope::new();
    scope.push("m", Dynamic::unit());
    let stmt = try_catch(vec![expr_stmt(var("nowhere"))], "err", vec![assign("m", None, var("err"))]);
    run_stmt(&e, &mut scope, &stmt).unwrap();
    match scope.get_value("m").unwrap().value {
        Union::ObjectMap(m) => {
            let keys: Vec<&str> = m.iter().map(|x| x.key.as_str()).collect();
            assert_eq!(keys, vec!["line", "message", "position"]);
            match &m[1].value.value {
                Union::Str(s) => assert_eq!(s, "Variable not found: nowhere"),
                _ => panic!("message is not a string"),
            }
            assert_eq!(as_int(&m[0].value), 2);
        }
        _ => panic!("not a map"),
    }
}

#[test]
fn try_catch_rethrows_and_passes_system_errors() {
    let e = Engine::new();
    let mut scope = Scope::new();
    let stmt = try_catch(
        vec![Stmt::Return(Some(Box::new(lit(1))), true, p(16))],
        "",
        vec![Stmt::Return(None, true, p(17))],
    );
    match *run_stmt(&e, &mut scope, &stmt).unwrap_err() {
        EvalAltResult::ErrorRuntime(v, pos) => {
            assert_eq!(as_int(&v), 1);
            assert_eq!(pos, p(17));
        }
        _ => panic!("wrong error"),
    }
    let mut limited = Engine::new();
    limited.set_max_operations(10);
    let spin = Stmt::While(Box::new((Expr::BoolConstant(true, p(1)), vec![])), p(1));
    let stmt = try_catch(vec![spin], "err", vec![]);
    assert!(matches!(
        *run_stmt(&limited, &mut scope, &stmt).unwrap_err(),
        EvalAltResult::ErrorTooManyOperations(_)
    ));
    let brk = try_catch(vec![Stmt::BreakLoop(None, true, p(18))], "err", vec![]);
    assert!(matches!(*run_stmt(&e, &mut scope, &brk).unwrap_err(), EvalAltResult::LoopBreak(true, _, _)));
}
