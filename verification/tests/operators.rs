use rhai_core::builtin::{
    call_builtin_binary_op, call_builtin_op_assign, get_builtin_binary_op_fn,
    get_builtin_op_assignment_fn, BuiltinFn,
};
use rhai_core::dynamic::{Dynamic, Union};
use rhai_core::engine::Engine;
use rhai_core::error::EvalAltResult;
use rhai_core::token::Token;

fn num(i: i64) -> Dynamic {
    Dynamic::from_int(i)
}

fn string(s: &str) -> Dynamic {
    Dynamic::from_string(s.to_string())
}

fn binary(engine: &Engine, op: Token, x: &Dynamic, y: &Dynamic) -> Option<Result<Dynamic, Box<EvalAltResult>>> {
    get_builtin_binary_op_fn(op, x, y).map(|(f, _)| call_builtin_binary_op(engine, f, x, y))
}

fn as_int(d: &Dynamic) -> i64 {
    match d.value {
        Union::Int(i) => i,
        _ => panic!("not an integer"),
    }
}

fn as_bool(d: &Dynamic) -> bool {
    match d.value {
        Union::Bool(b) => b,
        _ => panic!("not a boolean"),
    }
}

fn as_str(d: &Dynamic) -> String {
    match &d.value {
        Union::Str(s) => s.clone(),
        _ => panic!("not a string"),
    }
}

fn arith_message(r: Result<Dynamic, Box<EvalAltResult>>) -> String {
    match *r.unwrap_err() {
        EvalAltResult::ErrorArithmetic(m, _) => m,
        _ => panic!("not an arithmetic error"),
    }
}

#[test]
fn int_addition_and_overflow() {
    let e = Engine::new();
    assert_eq!(as_int(&binary(&e, Token::Plus, &num(40), &num(2)).unwrap().unwrap()), 42);
    let r = binary(&e, Token::Plus, &num(i64::MAX), &num(1)).unwrap();
    assert_eq!(arith_message(r), format!("Addition overflow: {} + 1", i64::MAX));
}

#[test]
fn int_subtraction_multiplication_overflow() {
    let e = Engine::new();
    assert_eq!(as_int(&binary(&e, Token::Minus, &num(5), &num(7)).unwrap().unwrap()), -2);
    let r = binary(&e, Token::Minus, &num(i64::MIN), &num(1)).unwrap();
    assert_eq!(arith_message(r), format!("Subtraction overflow: {} - 1", i64::MIN));
    let r = binary(&e, Token::Multiply, &num(i64::MAX), &num(2)).unwrap();
    assert_eq!(arith_message(r), format!("Multiplication overflow: {} * 2", i64::MAX));
    assert_eq!(as_int(&binary(&e, Token::Multiply, &num(-6), &num(7)).unwrap().unwrap()), -42);
}

#[test]
fn int_division_and_modulo() {
    let e = Engine::new();
    assert_eq!(as_int(&binary(&e, Token::Divide, &num(-7), &num(2)).unwrap().unwrap()), -3);
    assert_eq!(as_int(&binary(&e, Token::Modulo, &num(-7), &num(2)).unwrap().unwrap()), -1);
    let r = binary(&e, Token::Divide, &num(1), &num(0)).unwrap();
    assert_eq!(arith_message(r), "Division by zero: 1 / 0");
    let r = binary(&e, Token::Divide, &num(i64::MIN), &num(-1)).unwrap();
    assert_eq!(arith_message(r), format!("Division overflow: {} / -1", i64::MIN));
    let r = binary(&e, Token::Modulo, &num(3), &num(0)).unwrap();
    assert_eq!(arith_message(r), "Modulo division by zero or overflow: 3 % 0");
}

#[test]
fn int_power() {
    let e = Engine::new();
    assert_eq!(as_int(&binary(&e, Token::PowerOf, &num(2), &num(10)).unwrap().unwrap()), 1024);
    assert_eq!(as_int(&binary(&e, Token::PowerOf, &num(-2), &num(63)).unwrap().unwrap()), i64::MIN);
    assert_eq!(as_int(&binary(&e, Token::PowerOf, &num(-1), &num(4_000_000_001)).unwrap().unwrap()), -1);
    assert_eq!(as_int(&binary(&e, Token::PowerOf, &num(7), &num(0)).unwrap().unwrap()), 1);
    let r = binary(&e, Token::PowerOf, &num(2), &num(63)).unwrap();
    assert_eq!(arith_message(r), "Exponential overflow: 2 ** 63");
    let r = binary(&e, Token::PowerOf, &num(2), &num(-1)).unwrap();
    assert_eq!(arith_message(r), "Integer raised to a negative power: 2 ** -1");
    let r = binary(&e, Token::PowerOf, &num(1), &num(5_000_000_000)).unwrap();
    assert_eq!(arith_message(r), "Exponential overflow: 1 ** 5000000000");
}

#[test]
fn int_shifts() {
    let e = Engine::new();
    assert_eq!(as_int(&binary(&e, Token::LeftShift, &num(1), &num(4)).unwrap().unwrap()), 16);
    assert_eq!(as_int(&binary(&e, Token::RightShift, &num(-16), &num(2)).unwrap().unwrap()), -4);
    assert_eq!(as_int(&binary(&e, Token::LeftShift, &num(16), &num(-2)).unwrap().unwrap()), 4);
    assert_eq!(as_int(&binary(&e, Token::LeftShift, &num(1), &num(64)).unwrap().unwrap()), 0);
    assert_eq!(as_int(&binary(&e, Token::RightShift, &num(-5), &num(100)).unwrap().unwrap()), -1);
    assert_eq!(as_int(&binary(&e, Token::RightShift, &num(1), &num(i64::MIN)).unwrap().unwrap()), 0);
}

#[test]
fn int_comparisons_bits_and_ranges() {
    let e = Engine::new();
    assert!(as_bool(&binary(&e, Token::LessThan, &num(1), &num(2)).unwrap().unwrap()));
    assert!(!as_bool(&binary(&e, Token::GreaterThanEqualsTo, &num(1), &num(2)).unwrap().unwrap()));
    assert!(as_bool(&binary(&e, Token::NotEqualsTo, &num(1), &num(2)).unwrap().unwrap()));
    assert_eq!(as_int(&binary(&e, Token::Ampersand, &num(12), &num(10)).unwrap().unwrap()), 8);
    assert_eq!(as_int(&binary(&e, Token::Pipe, &num(12), &num(10)).unwrap().unwrap()), 14);
    assert_eq!(as_int(&binary(&e, Token::XOr, &num(12), &num(10)).unwrap().unwrap()), 6);
    let r = binary(&e, Token::ExclusiveRange, &num(1), &num(5)).unwrap().unwrap();
    assert!(matches!(r.value, Union::Range(1, 5)));
    let r = binary(&e, Token::InclusiveRange, &num(1), &num(5)).unwrap().unwrap();
    assert!(matches!(r.value, Union::RangeInclusive(1, 5)));
}

#[test]
fn strings_and_chars() {
    let e = Engine::new();
    assert_eq!(as_str(&binary(&e, Token::Plus, &string("ab"), &string("cd")).unwrap().unwrap()), "abcd");
    assert_eq!(as_str(&binary(&e, Token::Minus, &string("banana"), &string("an")).unwrap().unwrap()), "ba");
    assert_eq!(as_str(&binary(&e, Token::Minus, &string("aaa"), &string("aa")).unwrap().unwrap()), "a");
    assert_eq!(as_str(&binary(&e, Token::Minus, &string("banana"), &Dynamic::from_char('a')).unwrap().unwrap()), "bnn");
    assert_eq!(as_str(&binary(&e, Token::Plus, &Dynamic::from_char('x'), &Dynamic::from_char('y')).unwrap().unwrap()), "xy");
    assert_eq!(as_str(&binary(&e, Token::Plus, &Dynamic::from_char('x'), &string("yz")).unwrap().unwrap()), "xyz");
    assert_eq!(as_str(&binary(&e, Token::Plus, &string("xy"), &Dynamic::from_char('z')).unwrap().unwrap()), "xyz");
    assert!(as_bool(&binary(&e, Token::LessThan, &string("abc"), &string("abd")).unwrap().unwrap()));
    assert!(as_bool(&binary(&e, Token::LessThan, &string("ab"), &string("abc")).unwrap().unwrap()));
    assert!(as_bool(&binary(&e, Token::EqualsTo, &Dynamic::from_char('a'), &string("a")).unwrap().unwrap()));
    assert!(!as_bool(&binary(&e, Token::EqualsTo, &Dynamic::from_char('a'), &string("ab")).unwrap().unwrap()));
    assert!(as_bool(&binary(&e, Token::LessThan, &Dynamic::from_char('a'), &string("ab")).unwrap().unwrap()));
}

#[test]
fn unit_and_mismatched_types() {
    let e = Engine::new();
    assert!(as_bool(&binary(&e, Token::EqualsTo, &Dynamic::unit(), &Dynamic::unit()).unwrap().unwrap()));
    assert!(!as_bool(&binary(&e, Token::EqualsTo, &num(1), &Dynamic::from_bool(true)).unwrap().unwrap()));
    assert!(as_bool(&binary(&e, Token::NotEqualsTo, &num(1), &string("1")).unwrap().unwrap()));
    assert!(binary(&e, Token::Plus, &num(1), &string("1")).is_none());
    assert_eq!(as_str(&binary(&e, Token::Plus, &Dynamic::unit(), &string("s")).unwrap().unwrap()), "s");
    let v = Dynamic::from_union(Union::Variant("u8".to_string()));
    assert!(binary(&e, Token::EqualsTo, &v, &num(1)).is_none());
    let w = Dynamic::from_union(Union::Variant("Point".to_string()));
    assert!(!as_bool(&binary(&e, Token::EqualsTo, &w, &num(1)).unwrap().unwrap()));
}

#[test]
fn mixed_ranges_use_assignment_token_for_false() {
    let e = Engine::new();
    let a = Dynamic::from_union(Union::Range(1, 2));
    let b = Dynamic::from_union(Union::RangeInclusive(1, 2));
    assert!(binary(&e, Token::EqualsTo, &a, &b).is_none());
    assert!(as_bool(&binary(&e, Token::NotEqualsTo, &a, &b).unwrap().unwrap()));
    assert!(!as_bool(&binary(&e, Token::Equals, &a, &b).unwrap().unwrap()));
}

#[test]
fn blobs() {
    let e = Engine::new();
    let a = Dynamic::from_blob(vec![1, 2]);
    let b = Dynamic::from_blob(vec![3]);
    let r = binary(&e, Token::Plus, &a, &b).unwrap().unwrap();
    assert!(matches!(&r.value, Union::Blob(v) if *v == vec![1, 2, 3]));
    let r = binary(&e, Token::Plus, &a, &Dynamic::from_char('é')).unwrap().unwrap();
    assert!(matches!(&r.value, Union::Blob(v) if *v == vec![1, 2, 0xc3, 0xa9]));
    assert!(as_bool(&binary(&e, Token::NotEqualsTo, &a, &b).unwrap().unwrap()));
}

#[test]
fn string_size_limit() {
    let mut e = Engine::new();
    e.set_max_string_size(3);
    let r = binary(&e, Token::Plus, &string("ab"), &string("cd")).unwrap();
    match *r.unwrap_err() {
        EvalAltResult::ErrorDataTooLarge(m, _) => assert_eq!(m, "Length of string"),
        _ => panic!("wrong error"),
    }
}

#[test]
fn op_assignments() {
    let e = Engine::new();
    let mut x = num(40);
    x.set_tag(7);
    let (f, _) = get_builtin_op_assignment_fn(Token::PlusAssign, &x, &num(2)).unwrap();
    call_builtin_op_assign(&e, f, &mut x, num(2)).unwrap();
    assert_eq!(as_int(&x), 42);
    assert_eq!(x.tag(), 7);
    let (f, _) = get_builtin_op_assignment_fn(Token::LeftShiftAssign, &x, &num(1)).unwrap();
    call_builtin_op_assign(&e, f, &mut x, num(1)).unwrap();
    assert_eq!(as_int(&x), 84);
    assert_eq!(x.tag(), 0);

    let mut c = Dynamic::from_char('a');
    let (f, _) = get_builtin_op_assignment_fn(Token::PlusAssign, &c, &Dynamic::from_char('b')).unwrap();
    call_builtin_op_assign(&e, f, &mut c, Dynamic::from_char('b')).unwrap();
    assert_eq!(as_str(&c), "bb");

    let mut arr = Dynamic::from_array(vec![num(1)]);
    let (f, _) = get_builtin_op_assignment_fn(Token::PlusAssign, &arr, &num(2)).unwrap();
    call_builtin_op_assign(&e, f, &mut arr, num(2)).unwrap();
    assert!(matches!(&arr.value, Union::Array(v) if v.len() == 2));

    let mut blob = Dynamic::from_blob(vec![]);
    let (f, _) = get_builtin_op_assignment_fn(Token::PlusAssign, &blob, &num(0x1ff)).unwrap();
    call_builtin_op_assign(&e, f, &mut blob, num(0x1ff)).unwrap();
    assert!(matches!(&blob.value, Union::Blob(v) if *v == vec![0xff]));

    assert!(get_builtin_op_assignment_fn(Token::XOrAssign, &Dynamic::from_bool(true), &Dynamic::from_bool(false)).is_none());
    assert!(matches!(
        get_builtin_binary_op_fn(Token::XOr, &Dynamic::from_bool(true), &Dynamic::from_bool(false)),
        Some((BuiltinFn::BoolBits(_), false))
    ));
}

#[test]
fn array_push_over_limit_keeps_the_push() {
    let mut e = Engine::new();
    e.set_max_array_size(1);
    let mut arr = Dynamic::from_array(vec![num(1)]);
    let (f, _) = get_builtin_op_assignment_fn(Token::PlusAssign, &arr, &num(2)).unwrap();
    let r = call_builtin_op_assign(&e, f, &mut arr, num(2));
    assert!(r.is_err());
    assert!(matches!(&arr.value, Union::Array(v) if v.len() == 2));
}
