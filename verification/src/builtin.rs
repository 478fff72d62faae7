use vstd::prelude::*;
use vstd::utf8::*;
use crate::arith::{ArithOp, int_arith, int_arith_exec};
use crate::dynamic::{Dynamic, DynV, Value, Union, is_variant_value, same_type, plain};
use crate::engine::{Engine, Limits, size_check, data_size_check, clamp, byte_len, add_sizes};
use crate::error::{ErrV, RhaiResult, RhaiResultOf, result_view, unit_result_view};
use crate::position::Position;
use crate::text::{seq_less, char_utf8_len, string_push, string_from_chars};
use crate::token::Token;

verus! {

/// Comparison operators.
#[derive(PartialEq, Eq, Structural, Clone, Copy, Debug)]
pub enum Comparison {
    Eq,
    Ne,
    Gt,
    Ge,
    Lt,
    Le,
}

/// Bitwise (or, on booleans, logical) operators.
#[derive(PartialEq, Eq, Structural, Clone, Copy, Debug)]
pub enum BitOp {
    And,
    Or,
    Xor,
}

/// A built-in binary operator implementation.
#[derive(PartialEq, Eq, Structural, Clone, Copy, Debug)]
pub enum BuiltinFn {
    /// Checked integer arithmetic.
    IntArith(ArithOp),
    /// Integer comparison.
    IntCompare(Comparison),
    /// Bitwise operation on integers.
    IntBits(BitOp),
    /// `x .. y` on integers.
    IntRange,
    /// `x ..= y` on integers.
    IntRangeInclusive,
    /// Boolean comparison (`false < true`).
    BoolCompare(Comparison),
    /// Logical operation on booleans.
    BoolBits(BitOp),
    /// String concatenation.
    StrConcat,
    /// Removal of all occurrences of a string from a string.
    StrRemove,
    /// String comparison.
    StrCompare(Comparison),
    /// Two characters joined into a string.
    CharConcat,
    /// Character comparison (by code point).
    CharCompare(Comparison),
    /// BLOB concatenation.
    BlobConcat,
    /// BLOB equality.
    BlobEq,
    /// BLOB inequality.
    BlobNe,
    /// A character followed by a string.
    CharStrConcat,
    /// Comparison of a character with (the first two characters of) a string.
    CharStrCompare(Comparison),
    /// A string followed by a character.
    StrCharConcat,
    /// Removal of all occurrences of a character from a string.
    StrCharRemove,
    /// Comparison of (the first two characters of) a string with a character.
    StrCharCompare(Comparison),
    /// A BLOB extended by the UTF-8 encoding of a character.
    BlobCharAppend,
    /// Equality of exclusive ranges.
    RangeEq,
    /// Inequality of exclusive ranges.
    RangeNe,
    /// Equality of inclusive ranges.
    RangeInclusiveEq,
    /// Inequality of inclusive ranges.
    RangeInclusiveNe,
    /// Always `true`.
    ConstTrue,
    /// Always `false`.
    ConstFalse,
    /// The first operand, unchanged.
    First,
    /// The second operand, unchanged.
    Second,
}

/// A built-in operator-assignment implementation.
#[derive(PartialEq, Eq, Structural, Clone, Copy, Debug)]
pub enum BuiltinAssignFn {
    /// Checked integer arithmetic.
    IntArith(ArithOp),
    /// Bitwise operation on integers.
    IntBits(BitOp),
    /// `x = x && y` on booleans.
    BoolAnd,
    /// `x = x || y` on booleans.
    BoolOr,
    /// `char += char`.
    CharAppendChar,
    /// `string += string`.
    StrAppend,
    /// `string -= string`.
    StrRemove,
    /// `array += array`.
    ArrayAppend,
    /// `blob += blob`.
    BlobAppend,
    /// `string += char`.
    StrAppendChar,
    /// `string -= char`.
    StrRemoveChar,
    /// `char += string`.
    CharAppendStr,
    /// `array += value`.
    ArrayPush,
    /// `blob += integer` (its low byte).
    BlobPushInt,
    /// `blob += char` (its UTF-8 encoding).
    BlobPushChar,
    /// `blob += string` (its UTF-8 encoding).
    BlobAppendStr,
}

/// The arithmetic operator of a token, on integers.
pub open spec fn arith_of(op: Token) -> Option<ArithOp> {
    match op {
        Token::Plus => Some(ArithOp::Add),
        Token::Minus => Some(ArithOp::Sub),
        Token::Multiply => Some(ArithOp::Mul),
        Token::Divide => Some(ArithOp::Div),
        Token::Modulo => Some(ArithOp::Mod),
        Token::PowerOf => Some(ArithOp::Pow),
        Token::RightShift => Some(ArithOp::Shr),
        Token::LeftShift => Some(ArithOp::Shl),
        _ => None,
    }
}

/// The arithmetic operator of an operator-assignment token, on integers.
pub open spec fn assign_arith_of(op: Token) -> Option<ArithOp> {
    match op {
        Token::PlusAssign => Some(ArithOp::Add),
        Token::MinusAssign => Some(ArithOp::Sub),
        Token::MultiplyAssign => Some(ArithOp::Mul),
        Token::DivideAssign => Some(ArithOp::Div),
        Token::ModuloAssign => Some(ArithOp::Mod),
        Token::PowerOfAssign => Some(ArithOp::Pow),
        Token::RightShiftAssign => Some(ArithOp::Shr),
        Token::LeftShiftAssign => Some(ArithOp::Shl),
        _ => None,
    }
}

/// The comparison operator of a token.
pub open spec fn comparison_of(op: Token) -> Option<Comparison> {
    match op {
        Token::EqualsTo => Some(Comparison::Eq),
        Token::NotEqualsTo => Some(Comparison::Ne),
        Token::GreaterThan => Some(Comparison::Gt),
        Token::GreaterThanEqualsTo => Some(Comparison::Ge),
        Token::LessThan => Some(Comparison::Lt),
        Token::LessThanEqualsTo => Some(Comparison::Le),
        _ => None,
    }
}

/// The bitwise operator of a token.
pub open spec fn bits_of(op: Token) -> Option<BitOp> {
    match op {
        Token::Ampersand => Some(BitOp::And),
        Token::Pipe => Some(BitOp::Or),
        Token::XOr => Some(BitOp::Xor),
        _ => None,
    }
}

/// The comparison operators on values of different types: only `!=` holds.
pub open spec fn mismatched_comparison(op: Token) -> Option<(BuiltinFn, bool)> {
    match op {
        Token::NotEqualsTo => Some((BuiltinFn::ConstTrue, false)),
        Token::EqualsTo | Token::GreaterThan | Token::GreaterThanEqualsTo | Token::LessThan
        | Token::LessThanEqualsTo => Some((BuiltinFn::ConstFalse, false)),
        _ => None,
    }
}

/// Type names of the host integer types other than `i64`.
pub open spec fn is_numeric_name(n: Seq<char>) -> bool {
    n == "u8"@ || n == "u16"@ || n == "u32"@ || n == "u64"@ || n == "u128"@ || n == "i8"@ || n
        == "i16"@ || n == "i32"@ || n == "i128"@
}

/// Is a value of a numeric type?
pub open spec fn is_numeric_value(v: Value) -> bool {
    match v {
        Value::Int(_) => true,
        Value::Variant(n) => is_numeric_name(n),
        _ => false,
    }
}

/// The built-in implementation of a binary operator on two values, if there is one,
/// with whether it needs the engine (to check data sizes).
pub open spec fn builtin_binary_fn(op: Token, x: Value, y: Value) -> Option<(BuiltinFn, bool)> {
    match (x, y) {
        (Value::Int(_), Value::Int(_)) => match arith_of(op) {
            Some(a) => Some((BuiltinFn::IntArith(a), false)),
            None => match comparison_of(op) {
                Some(c) => Some((BuiltinFn::IntCompare(c), false)),
                None => match bits_of(op) {
                    Some(b) => Some((BuiltinFn::IntBits(b), false)),
                    None => match op {
                        Token::ExclusiveRange => Some((BuiltinFn::IntRange, false)),
                        Token::InclusiveRange => Some((BuiltinFn::IntRangeInclusive, false)),
                        _ => None,
                    },
                },
            },
        },
        (Value::Bool(_), Value::Bool(_)) => match comparison_of(op) {
            Some(c) => Some((BuiltinFn::BoolCompare(c), false)),
            None => match bits_of(op) {
                Some(b) => Some((BuiltinFn::BoolBits(b), false)),
                None => None,
            },
        },
        (Value::Str(_), Value::Str(_)) => match op {
            Token::Plus => Some((BuiltinFn::StrConcat, true)),
            Token::Minus => Some((BuiltinFn::StrRemove, false)),
            _ => match comparison_of(op) {
                Some(c) => Some((BuiltinFn::StrCompare(c), false)),
                None => None,
            },
        },
        (Value::Char(_), Value::Char(_)) => match op {
            Token::Plus => Some((BuiltinFn::CharConcat, true)),
            _ => match comparison_of(op) {
                Some(c) => Some((BuiltinFn::CharCompare(c), false)),
                None => None,
            },
        },
        (Value::Blob(_), Value::Blob(_)) => match op {
            Token::Plus => Some((BuiltinFn::BlobConcat, true)),
            Token::EqualsTo => Some((BuiltinFn::BlobEq, false)),
            Token::NotEqualsTo => Some((BuiltinFn::BlobNe, false)),
            _ => None,
        },
        (Value::Unit, Value::Unit) => match op {
            Token::EqualsTo => Some((BuiltinFn::ConstTrue, false)),
            Token::NotEqualsTo | Token::GreaterThan | Token::GreaterThanEqualsTo
            | Token::LessThan | Token::LessThanEqualsTo => Some((BuiltinFn::ConstFalse, false)),
            _ => None,
        },
        (Value::Char(_), Value::Str(_)) => match op {
            Token::Plus => Some((BuiltinFn::CharStrConcat, true)),
            _ => match comparison_of(op) {
                Some(c) => Some((BuiltinFn::CharStrCompare(c), false)),
                None => None,
            },
        },
        (Value::Str(_), Value::Char(_)) => match op {
            Token::Plus => Some((BuiltinFn::StrCharConcat, true)),
            Token::Minus => Some((BuiltinFn::StrCharRemove, false)),
            _ => match comparison_of(op) {
                Some(c) => Some((BuiltinFn::StrCharCompare(c), false)),
                None => None,
            },
        },
        (Value::Unit, Value::Str(_)) => match op {
            Token::Plus => Some((BuiltinFn::Second, false)),
            Token::EqualsTo | Token::GreaterThan | Token::GreaterThanEqualsTo | Token::LessThan
            | Token::LessThanEqualsTo => Some((BuiltinFn::ConstFalse, false)),
            Token::NotEqualsTo => Some((BuiltinFn::ConstTrue, false)),
            _ => None,
        },
        (Value::Str(_), Value::Unit) => match op {
            Token::Plus => Some((BuiltinFn::First, false)),
            Token::EqualsTo | Token::GreaterThan | Token::GreaterThanEqualsTo | Token::LessThan
            | Token::LessThanEqualsTo => Some((BuiltinFn::ConstFalse, false)),
            Token::NotEqualsTo => Some((BuiltinFn::ConstTrue, false)),
            _ => None,
        },
        (Value::Blob(_), Value::Char(_)) => match op {
            Token::Plus => Some((BuiltinFn::BlobCharAppend, true)),
            _ => None,
        },
        (Value::Range(_, _), Value::RangeInclusive(_, _)) | (
            Value::RangeInclusive(_, _),
            Value::Range(_, _),
        ) => match op {
            Token::NotEqualsTo => Some((BuiltinFn::ConstTrue, false)),
            Token::Equals => Some((BuiltinFn::ConstFalse, false)),
            _ => None,
        },
        (Value::Range(_, _), Value::Range(_, _)) => match op {
            Token::EqualsTo => Some((BuiltinFn::RangeEq, false)),
            Token::NotEqualsTo => Some((BuiltinFn::RangeNe, false)),
            _ => None,
        },
        (Value::RangeInclusive(_, _), Value::RangeInclusive(_, _)) => match op {
            Token::EqualsTo => Some((BuiltinFn::RangeInclusiveEq, false)),
            Token::NotEqualsTo => Some((BuiltinFn::RangeInclusiveNe, false)),
            _ => None,
        },
        _ => if is_variant_value(x) || is_variant_value(y) {
            if is_numeric_value(x) && is_numeric_value(y) {
                None
            } else if !same_type(x, y) {
                mismatched_comparison(op)
            } else {
                None
            }
        } else if !same_type(x, y) {
            mismatched_comparison(op)
        } else {
            None
        },
    }
}

/// The built-in implementation of an operator-assignment on two values, if there is one,
/// with whether it needs the engine (to check data sizes).
pub open spec fn builtin_assign_fn(op: Token, x: Value, y: Value) -> Option<
    (BuiltinAssignFn, bool),
> {
    match (x, y) {
        (Value::Int(_), Value::Int(_)) => match assign_arith_of(op) {
            Some(a) => Some((BuiltinAssignFn::IntArith(a), false)),
            None => match op {
                Token::AndAssign => Some((BuiltinAssignFn::IntBits(BitOp::And), false)),
                Token::OrAssign => Some((BuiltinAssignFn::IntBits(BitOp::Or), false)),
                Token::XOrAssign => Some((BuiltinAssignFn::IntBits(BitOp::Xor), false)),
                _ => None,
            },
        },
        (Value::Bool(_), Value::Bool(_)) => match op {
            Token::AndAssign => Some((BuiltinAssignFn::BoolAnd, false)),
            Token::OrAssign => Some((BuiltinAssignFn::BoolOr, false)),
            _ => None,
        },
        (Value::Char(_), Value::Char(_)) => match op {
            Token::PlusAssign => Some((BuiltinAssignFn::CharAppendChar, false)),
            _ => None,
        },
        (Value::Str(_), Value::Str(_)) => match op {
            Token::PlusAssign => Some((BuiltinAssignFn::StrAppend, true)),
            Token::MinusAssign => Some((BuiltinAssignFn::StrRemove, false)),
            _ => None,
        },
        (Value::Array(_), Value::Array(_)) => match op {
            Token::PlusAssign => Some((BuiltinAssignFn::ArrayAppend, true)),
            _ => None,
        },
        (Value::Blob(_), Value::Blob(_)) => match op {
            Token::PlusAssign => Some((BuiltinAssignFn::BlobAppend, true)),
            _ => None,
        },
        (Value::Str(_), Value::Char(_)) => match op {
            Token::PlusAssign => Some((BuiltinAssignFn::StrAppendChar, true)),
            Token::MinusAssign => Some((BuiltinAssignFn::StrRemoveChar, false)),
            _ => None,
        },
        (Value::Char(_), Value::Str(_)) => match op {
            Token::PlusAssign => Some((BuiltinAssignFn::CharAppendStr, true)),
            _ => None,
        },
        (Value::Array(_), _) => match op {
            Token::PlusAssign => Some((BuiltinAssignFn::ArrayPush, true)),
            _ => None,
        },
        (Value::Blob(_), Value::Int(_)) => match op {
            Token::PlusAssign => Some((BuiltinAssignFn::BlobPushInt, true)),
            _ => None,
        },
        (Value::Blob(_), Value::Char(_)) => match op {
            Token::PlusAssign => Some((BuiltinAssignFn::BlobPushChar, true)),
            _ => None,
        },
        (Value::Blob(_), Value::Str(_)) => match op {
            Token::PlusAssign => Some((BuiltinAssignFn::BlobAppendStr, true)),
            _ => None,
        },
        _ => None,
    }
}

/// Does a comparison hold, given whether the left side is less than, or equal to, the right?
pub open spec fn comparison_holds(c: Comparison, lt: bool, eq: bool) -> bool {
    match c {
        Comparison::Eq => eq,
        Comparison::Ne => !eq,
        Comparison::Gt => !lt && !eq,
        Comparison::Ge => !lt,
        Comparison::Lt => lt,
        Comparison::Le => lt || eq,
    }
}

/// A bitwise operation on integers.
pub open spec fn int_bits(b: BitOp, x: i64, y: i64) -> i64 {
    match b {
        BitOp::And => x & y,
        BitOp::Or => x | y,
        BitOp::Xor => x ^ y,
    }
}

/// A logical operation on booleans.
pub open spec fn bool_bits(b: BitOp, x: bool, y: bool) -> bool {
    match b {
        BitOp::And => x && y,
        BitOp::Or => x || y,
        BitOp::Xor => x != y,
    }
}

/// The string with all non-overlapping occurrences of `p` (searched left to right) removed.
pub open spec fn remove_all(s: Seq<char>, p: Seq<char>) -> Seq<char>
    decreases s.len(),
{
    if p.len() == 0 || s.len() < p.len() {
        s
    } else if s.take(p.len() as int) == p {
        remove_all(s.skip(p.len() as int), p)
    } else {
        seq![s[0]] + remove_all(s.skip(1), p)
    }
}

/// The first two characters of a string, padded with `'\0'`.
pub open spec fn pad2(s: Seq<char>) -> Seq<char> {
    seq![
        if s.len() > 0 {
            s[0]
        } else {
            '\0'
        },
        if s.len() > 1 {
            s[1]
        } else {
            '\0'
        },
    ]
}

/// A boolean result.
pub open spec fn bool_result(b: bool) -> Result<DynV, ErrV> {
    Ok(plain(Value::Bool(b)))
}

/// A result that is `v` unless the size check fails.
pub open spec fn checked_result(check: Result<(), ErrV>, v: DynV) -> Result<DynV, ErrV> {
    match check {
        Ok(()) => Ok(v),
        Err(e) => Err(e),
    }
}

/// Do the operands have the types that a built-in implementation works on?
pub open spec fn binary_fn_accepts(f: BuiltinFn, x: Value, y: Value) -> bool {
    match f {
        BuiltinFn::IntArith(_) | BuiltinFn::IntCompare(_) | BuiltinFn::IntBits(_)
        | BuiltinFn::IntRange | BuiltinFn::IntRangeInclusive => x is Int && y is Int,
        BuiltinFn::BoolCompare(_) | BuiltinFn::BoolBits(_) => x is Bool && y is Bool,
        BuiltinFn::StrConcat | BuiltinFn::StrRemove | BuiltinFn::StrCompare(_) => x is Str && y is Str,
        BuiltinFn::CharConcat | BuiltinFn::CharCompare(_) => x is Char && y is Char,
        BuiltinFn::BlobConcat | BuiltinFn::BlobEq | BuiltinFn::BlobNe => x is Blob && y is Blob,
        BuiltinFn::CharStrConcat | BuiltinFn::CharStrCompare(_) => x is Char && y is Str,
        BuiltinFn::StrCharConcat | BuiltinFn::StrCharRemove | BuiltinFn::StrCharCompare(_) => x is Str
            && y is Char,
        BuiltinFn::BlobCharAppend => x is Blob && y is Char,
        BuiltinFn::RangeEq | BuiltinFn::RangeNe => x is Range && y is Range,
        BuiltinFn::RangeInclusiveEq | BuiltinFn::RangeInclusiveNe => x is RangeInclusive
            && y is RangeInclusive,
        BuiltinFn::ConstTrue | BuiltinFn::ConstFalse | BuiltinFn::First | BuiltinFn::Second => true,
    }
}

/// The result of a built-in binary operator implementation on operands of the types it accepts.
pub open spec fn apply_binary(limits: Limits, f: BuiltinFn, x: DynV, y: DynV) -> Result<
    DynV,
    ErrV,
> {
    match (f, x.value, y.value) {
        (BuiltinFn::IntArith(a), Value::Int(i), Value::Int(j)) => match int_arith(a, i, j) {
            Ok(v) => Ok(plain(Value::Int(v))),
            Err(e) => Err(e),
        },
        (BuiltinFn::IntCompare(c), Value::Int(i), Value::Int(j)) => bool_result(
            comparison_holds(c, i < j, i == j),
        ),
        (BuiltinFn::IntBits(b), Value::Int(i), Value::Int(j)) => Ok(
            plain(Value::Int(int_bits(b, i, j))),
        ),
        (BuiltinFn::IntRange, Value::Int(i), Value::Int(j)) => Ok(plain(Value::Range(i, j))),
        (BuiltinFn::IntRangeInclusive, Value::Int(i), Value::Int(j)) => Ok(
            plain(Value::RangeInclusive(i, j)),
        ),
        (BuiltinFn::BoolCompare(c), Value::Bool(a), Value::Bool(b)) => bool_result(
            comparison_holds(c, !a && b, a == b),
        ),
        (BuiltinFn::BoolBits(bb), Value::Bool(a), Value::Bool(b)) => bool_result(
            bool_bits(bb, a, b),
        ),
        (BuiltinFn::StrConcat, Value::Str(a), Value::Str(b)) => checked_result(
            size_check(limits, (0, 0, clamp(byte_len(a) + byte_len(b)))),
            plain(Value::Str(a + b)),
        ),
        (BuiltinFn::StrRemove, Value::Str(a), Value::Str(b)) => Ok(
            plain(Value::Str(remove_all(a, b))),
        ),
        (BuiltinFn::StrCompare(c), Value::Str(a), Value::Str(b)) => bool_result(
            comparison_holds(c, seq_less(a, b), a == b),
        ),
        (BuiltinFn::CharConcat, Value::Char(a), Value::Char(b)) => checked_result(
            size_check(limits, (0, 0, byte_len(seq![a, b]))),
            plain(Value::Str(seq![a, b])),
        ),
        (BuiltinFn::CharCompare(c), Value::Char(a), Value::Char(b)) => bool_result(
            comparison_holds(c, (a as u32) < (b as u32), a == b),
        ),
        (BuiltinFn::BlobConcat, Value::Blob(a), Value::Blob(b)) => if b.len() == 0 {
            Ok(x)
        } else if a.len() == 0 {
            Ok(y)
        } else {
            checked_result(
                size_check(limits, (clamp(a.len() + b.len()), 0, 0)),
                plain(Value::Blob(a + b)),
            )
        },
        (BuiltinFn::BlobEq, Value::Blob(a), Value::Blob(b)) => bool_result(a == b),
        (BuiltinFn::BlobNe, Value::Blob(a), Value::Blob(b)) => bool_result(a != b),
        (BuiltinFn::CharStrConcat, Value::Char(a), Value::Str(b)) => checked_result(
            size_check(limits, (0, 0, byte_len(seq![a] + b))),
            plain(Value::Str(seq![a] + b)),
        ),
        (BuiltinFn::CharStrCompare(c), Value::Char(a), Value::Str(b)) => bool_result(
            comparison_holds(c, seq_less(seq![a, '\0'], pad2(b)), seq![a, '\0'] == pad2(b)),
        ),
        (BuiltinFn::StrCharConcat, Value::Str(a), Value::Char(b)) => checked_result(
            size_check(limits, (0, 0, byte_len(a.push(b)))),
            plain(Value::Str(a.push(b))),
        ),
        (BuiltinFn::StrCharRemove, Value::Str(a), Value::Char(b)) => Ok(
            plain(Value::Str(remove_all(a, seq![b]))),
        ),
        (BuiltinFn::StrCharCompare(c), Value::Str(a), Value::Char(b)) => bool_result(
            comparison_holds(c, seq_less(pad2(a), seq![b, '\0']), pad2(a) == seq![b, '\0']),
        ),
        (BuiltinFn::BlobCharAppend, Value::Blob(a), Value::Char(c)) => checked_result(
            size_check(limits, (clamp(a.len() + char_utf8_len(c)), 0, 0)),
            plain(Value::Blob(a + encode_scalar(c as u32))),
        ),
        (BuiltinFn::RangeEq, Value::Range(a, b), Value::Range(c, d)) => bool_result(
            a == c && b == d,
        ),
        (BuiltinFn::RangeNe, Value::Range(a, b), Value::Range(c, d)) => bool_result(
            !(a == c && b == d),
        ),
        (
            BuiltinFn::RangeInclusiveEq,
            Value::RangeInclusive(a, b),
            Value::RangeInclusive(c, d),
        ) => bool_result(a == c && b == d),
        (
            BuiltinFn::RangeInclusiveNe,
            Value::RangeInclusive(a, b),
            Value::RangeInclusive(c, d),
        ) => bool_result(!(a == c && b == d)),
        (BuiltinFn::ConstTrue, _, _) => bool_result(true),
        (BuiltinFn::ConstFalse, _, _) => bool_result(false),
        (BuiltinFn::First, _, _) => Ok(x),
        (BuiltinFn::Second, _, _) => Ok(y),
        _ => Ok(plain(Value::Unit)),
    }
}

/// Do the operands have the types that a built-in operator-assignment works on?
pub open spec fn assign_fn_accepts(f: BuiltinAssignFn, x: Value, y: Value) -> bool {
    match f {
        BuiltinAssignFn::IntArith(_) | BuiltinAssignFn::IntBits(_) => x is Int && y is Int,
        BuiltinAssignFn::BoolAnd | BuiltinAssignFn::BoolOr => x is Bool && y is Bool,
        BuiltinAssignFn::CharAppendChar => x is Char && y is Char,
        BuiltinAssignFn::StrAppend | BuiltinAssignFn::StrRemove => x is Str && y is Str,
        BuiltinAssignFn::ArrayAppend => x is Array && y is Array,
        BuiltinAssignFn::BlobAppend => x is Blob && y is Blob,
        BuiltinAssignFn::StrAppendChar | BuiltinAssignFn::StrRemoveChar => x is Str && y is Char,
        BuiltinAssignFn::CharAppendStr => x is Char && y is Str,
        BuiltinAssignFn::ArrayPush => x is Array,
        BuiltinAssignFn::BlobPushInt => x is Blob && y is Int,
        BuiltinAssignFn::BlobPushChar => x is Blob && y is Char,
        BuiltinAssignFn::BlobAppendStr => x is Blob && y is Str,
    }
}

/// `x` with a new payload and its own tag.
pub open spec fn retag(x: DynV, v: Value) -> DynV {
    DynV { value: v, tag: x.tag }
}

/// The new value of the target and the outcome of a built-in operator-assignment.
pub open spec fn apply_assign(limits: Limits, f: BuiltinAssignFn, x: DynV, y: DynV) -> (
    DynV,
    Result<(), ErrV>,
) {
    let none = Position { line: 0, pos: 0 };
    match (f, x.value, y.value) {
        (BuiltinAssignFn::IntArith(a), Value::Int(i), Value::Int(j)) => match int_arith(a, i, j) {
            Ok(v) => if a == ArithOp::Shl || a == ArithOp::Shr {
                (plain(Value::Int(v)), Ok(()))
            } else {
                (retag(x, Value::Int(v)), Ok(()))
            },
            Err(e) => (x, Err(e)),
        },
        (BuiltinAssignFn::IntBits(b), Value::Int(i), Value::Int(j)) => (
            retag(x, Value::Int(int_bits(b, i, j))),
            Ok(()),
        ),
        (BuiltinAssignFn::BoolAnd, Value::Bool(a), Value::Bool(b)) => (
            retag(x, Value::Bool(a && b)),
            Ok(()),
        ),
        (BuiltinAssignFn::BoolOr, Value::Bool(a), Value::Bool(b)) => (
            retag(x, Value::Bool(a || b)),
            Ok(()),
        ),
        (BuiltinAssignFn::CharAppendChar, Value::Char(_), Value::Char(c)) => (
            plain(Value::Str(seq![c, c])),
            Ok(()),
        ),
        (BuiltinAssignFn::StrAppend, Value::Str(a), Value::Str(b)) => if a.len() > 0 && b.len()
            > 0 {
            match size_check(limits, (0, 0, clamp(byte_len(a) + byte_len(b)))) {
                Ok(()) => (retag(x, Value::Str(a + b)), Ok(())),
                Err(e) => (x, Err(e)),
            }
        } else {
            (retag(x, Value::Str(a + b)), Ok(()))
        },
        (BuiltinAssignFn::StrRemove, Value::Str(a), Value::Str(b)) => (
            retag(x, Value::Str(remove_all(a, b))),
            Ok(()),
        ),
        (BuiltinAssignFn::ArrayAppend, Value::Array(a), Value::Array(b)) => if b.len() == 0 {
            (x, Ok(()))
        } else if a.len() > 0 && data_size_check(limits, x.value, none) is Err {
            (x, data_size_check(limits, x.value, none))
        } else {
            (retag(x, Value::Array(a + b)), Ok(()))
        },
        (BuiltinAssignFn::BlobAppend, Value::Blob(a), Value::Blob(b)) => match size_check(
            limits,
            (clamp(a.len() + b.len()), 0, 0),
        ) {
            Ok(()) => (retag(x, Value::Blob(a + b)), Ok(())),
            Err(e) => (x, Err(e)),
        },
        (BuiltinAssignFn::StrAppendChar, Value::Str(a), Value::Char(c)) => match size_check(
            limits,
            (0, 0, clamp(byte_len(a) + char_utf8_len(c))),
        ) {
            Ok(()) => (retag(x, Value::Str(a.push(c))), Ok(())),
            Err(e) => (x, Err(e)),
        },
        (BuiltinAssignFn::StrRemoveChar, Value::Str(a), Value::Char(c)) => (
            retag(x, Value::Str(remove_all(a, seq![c]))),
            Ok(()),
        ),
        (BuiltinAssignFn::CharAppendStr, Value::Char(c), Value::Str(s)) => if s.len() == 0 {
            (x, Ok(()))
        } else {
            match size_check(limits, (0, 0, clamp(char_utf8_len(c) + byte_len(s)))) {
                Ok(()) => (plain(Value::Str(seq![c] + s)), Ok(())),
                Err(e) => (x, Err(e)),
            }
        },
        (BuiltinAssignFn::ArrayPush, Value::Array(a), _) => {
            let nx = retag(x, Value::Array(a.push(y)));
            (nx, data_size_check(limits, nx.value, none))
        },
        (BuiltinAssignFn::BlobPushInt, Value::Blob(a), Value::Int(i)) => match size_check(
            limits,
            (clamp(a.len() + 1), 0, 0),
        ) {
            Ok(()) => (retag(x, Value::Blob(a.push((i & 0xff) as u8))), Ok(())),
            Err(e) => (x, Err(e)),
        },
        (BuiltinAssignFn::BlobPushChar, Value::Blob(a), Value::Char(c)) => match size_check(
            limits,
            (clamp(a.len() + 1), 0, 0),
        ) {
            Ok(()) => (retag(x, Value::Blob(a + encode_scalar(c as u32))), Ok(())),
            Err(e) => (x, Err(e)),
        },
        (BuiltinAssignFn::BlobAppendStr, Value::Blob(a), Value::Str(s)) => if s.len() == 0 {
            (x, Ok(()))
        } else {
            match size_check(limits, (clamp(a.len() + byte_len(s)), 0, 0)) {
                Ok(()) => (retag(x, Value::Blob(a + encode_utf8(s))), Ok(())),
                Err(e) => (x, Err(e)),
            }
        },
        _ => (x, Ok(())),
    }
}

fn arith_of_exec(op: Token) -> (r: Option<ArithOp>)
    ensures
        r == arith_of(op),
{
    match op {
        Token::Plus => Some(ArithOp::Add),
        Token::Minus => Some(ArithOp::Sub),
        Token::Multiply => Some(ArithOp::Mul),
        Token::Divide => Some(ArithOp::Div),
        Token::Modulo => Some(ArithOp::Mod),
        Token::PowerOf => Some(ArithOp::Pow),
        Token::RightShift => Some(ArithOp::Shr),
        Token::LeftShift => Some(ArithOp::Shl),
        _ => None,
    }
}

fn assign_arith_of_exec(op: Token) -> (r: Option<ArithOp>)
    ensures
        r == assign_arith_of(op),
{
    match op {
        Token::PlusAssign => Some(ArithOp::Add),
        Token::MinusAssign => Some(ArithOp::Sub),
        Token::MultiplyAssign => Some(ArithOp::Mul),
        Token::DivideAssign => Some(ArithOp::Div),
        Token::ModuloAssign => Some(ArithOp::Mod),
        Token::PowerOfAssign => Some(ArithOp::Pow),
        Token::RightShiftAssign => Some(ArithOp::Shr),
        Token::LeftShiftAssign => Some(ArithOp::Shl),
        _ => None,
    }
}

fn comparison_of_exec(op: Token) -> (r: Option<Comparison>)
    ensures
        r == comparison_of(op),
{
    match op {
        Token::EqualsTo => Some(Comparison::Eq),
        Token::NotEqualsTo => Some(Comparison::Ne),
        Token::GreaterThan => Some(Comparison::Gt),
        Token::GreaterThanEqualsTo => Some(Comparison::Ge),
        Token::LessThan => Some(Comparison::Lt),
        Token::LessThanEqualsTo => Some(Comparison::Le),
        _ => None,
    }
}

fn bits_of_exec(op: Token) -> (r: Option<BitOp>)
    ensures
        r == bits_of(op),
{
    match op {
        Token::Ampersand => Some(BitOp::And),
        Token::Pipe => Some(BitOp::Or),
        Token::XOr => Some(BitOp::Xor),
        _ => None,
    }
}

fn mismatched_comparison_exec(op: Token) -> (r: Option<(BuiltinFn, bool)>)
    ensures
        r == mismatched_comparison(op),
{
    match op {
        Token::NotEqualsTo => Some((BuiltinFn::ConstTrue, false)),
        Token::EqualsTo | Token::GreaterThan | Token::GreaterThanEqualsTo | Token::LessThan
        | Token::LessThanEqualsTo => Some((BuiltinFn::ConstFalse, false)),
        _ => None,
    }
}

fn is_numeric_name_exec(n: &String) -> (r: bool)
    ensures
        r == is_numeric_name(n@),
{
    let s = n.as_str();
    crate::text::str_eq(s, "u8") || crate::text::str_eq(s, "u16") || crate::text::str_eq(s, "u32")
        || crate::text::str_eq(s, "u64") || crate::text::str_eq(s, "u128")
        || crate::text::str_eq(s, "i8") || crate::text::str_eq(s, "i16")
        || crate::text::str_eq(s, "i32") || crate::text::str_eq(s, "i128")
}

/// Is the value of a numeric type?
pub fn is_numeric(x: &Dynamic) -> (r: bool)
    ensures
        r == is_numeric_value(x@.value),
{
    match &x.value {
        Union::Int(_) => true,
        Union::Variant(n) => is_numeric_name_exec(n),
        _ => false,
    }
}

/// Are two values of the same type?
pub fn is_same_type(x: &Dynamic, y: &Dynamic) -> (r: bool)
    ensures
        r == same_type(x@.value, y@.value),
{
    match (&x.value, &y.value) {
        (Union::Variant(a), Union::Variant(b)) => *a == *b,
        (Union::Unit, Union::Unit) | (Union::Null, Union::Null) | (Union::Bool(_), Union::Bool(_))
        | (Union::Str(_), Union::Str(_)) | (Union::Char(_), Union::Char(_))
        | (Union::Int(_), Union::Int(_)) | (Union::Array(_), Union::Array(_))
        | (Union::Blob(_), Union::Blob(_)) | (Union::ObjectMap(_), Union::ObjectMap(_))
        | (Union::FnPtr(_), Union::FnPtr(_)) | (Union::Range(_, _), Union::Range(_, _))
        | (Union::RangeInclusive(_, _), Union::RangeInclusive(_, _)) => true,
        _ => false,
    }
}

/// The built-in implementation of a binary operator on two values, if there is one,
/// with whether it needs the engine.
pub fn get_builtin_binary_op_fn(op: Token, x: &Dynamic, y: &Dynamic) -> (r: Option<
    (BuiltinFn, bool),
>)
    ensures
        r == builtin_binary_fn(op, x@.value, y@.value),
        r matches Some((f, _)) ==> binary_fn_accepts(f, x@.value, y@.value),
{
    match (&x.value, &y.value) {
        (Union::Int(_), Union::Int(_)) => match arith_of_exec(op) {
            Some(a) => Some((BuiltinFn::IntArith(a), false)),
            None => match comparison_of_exec(op) {
                Some(c) => Some((BuiltinFn::IntCompare(c), false)),
                None => match bits_of_exec(op) {
                    Some(b) => Some((BuiltinFn::IntBits(b), false)),
                    None => match op {
                        Token::ExclusiveRange => Some((BuiltinFn::IntRange, false)),
                        Token::InclusiveRange => Some((BuiltinFn::IntRangeInclusive, false)),
                        _ => None,
                    },
                },
            },
        },
        (Union::Bool(_), Union::Bool(_)) => match comparison_of_exec(op) {
            Some(c) => Some((BuiltinFn::BoolCompare(c), false)),
            None => match bits_of_exec(op) {
                Some(b) => Some((BuiltinFn::BoolBits(b), false)),
                None => None,
            },
        },
        (Union::Str(_), Union::Str(_)) => match op {
            Token::Plus => Some((BuiltinFn::StrConcat, true)),
            Token::Minus => Some((BuiltinFn::StrRemove, false)),
            _ => match comparison_of_exec(op) {
                Some(c) => Some((BuiltinFn::StrCompare(c), false)),
                None => None,
            },
        },
        (Union::Char(_), Union::Char(_)) => match op {
            Token::Plus => Some((BuiltinFn::CharConcat, true)),
            _ => match comparison_of_exec(op) {
                Some(c) => Some((BuiltinFn::CharCompare(c), false)),
                None => None,
            },
        },
        (Union::Blob(_), Union::Blob(_)) => match op {
            Token::Plus => Some((BuiltinFn::BlobConcat, true)),
            Token::EqualsTo => Some((BuiltinFn::BlobEq, false)),
            Token::NotEqualsTo => Some((BuiltinFn::BlobNe, false)),
            _ => None,
        },
        (Union::Unit, Union::Unit) => match op {
            Token::EqualsTo => Some((BuiltinFn::ConstTrue, false)),
            Token::NotEqualsTo | Token::GreaterThan | Token::GreaterThanEqualsTo
            | Token::LessThan | Token::LessThanEqualsTo => Some((BuiltinFn::ConstFalse, false)),
            _ => None,
        },
        (Union::Char(_), Union::Str(_)) => match op {
            Token::Plus => Some((BuiltinFn::CharStrConcat, true)),
            _ => match comparison_of_exec(op) {
                Some(c) => Some((BuiltinFn::CharStrCompare(c), false)),
                None => None,
            },
        },
        (Union::Str(_), Union::Char(_)) => match op {
            Token::Plus => Some((BuiltinFn::StrCharConcat, true)),
            Token::Minus => Some((BuiltinFn::StrCharRemove, false)),
            _ => match comparison_of_exec(op) {
                Some(c) => Some((BuiltinFn::StrCharCompare(c), false)),
                None => None,
            },
        },
        (Union::Unit, Union::Str(_)) => match op {
            Token::Plus => Some((BuiltinFn::Second, false)),
            Token::EqualsTo | Token::GreaterThan | Token::GreaterThanEqualsTo | Token::LessThan
            | Token::LessThanEqualsTo => Some((BuiltinFn::ConstFalse, false)),
            Token::NotEqualsTo => Some((BuiltinFn::ConstTrue, false)),
            _ => None,
        },
        (Union::Str(_), Union::Unit) => match op {
            Token::Plus => Some((BuiltinFn::First, false)),
            Token::EqualsTo | Token::GreaterThan | Token::GreaterThanEqualsTo | Token::LessThan
            | Token::LessThanEqualsTo => Some((BuiltinFn::ConstFalse, false)),
            Token::NotEqualsTo => Some((BuiltinFn::ConstTrue, false)),
            _ => None,
        },
        (Union::Blob(_), Union::Char(_)) => match op {
            Token::Plus => Some((BuiltinFn::BlobCharAppend, true)),
            _ => None,
        },
        (Union::Range(_, _), Union::RangeInclusive(_, _)) | (
            Union::RangeInclusive(_, _),
            Union::Range(_, _),
        ) => match op {
            Token::NotEqualsTo => Some((BuiltinFn::ConstTrue, false)),
            Token::Equals => Some((BuiltinFn::ConstFalse, false)),
            _ => None,
        },
        (Union::Range(_, _), Union::Range(_, _)) => match op {
            Token::EqualsTo => Some((BuiltinFn::RangeEq, false)),
            Token::NotEqualsTo => Some((BuiltinFn::RangeNe, false)),
            _ => None,
        },
        (Union::RangeInclusive(_, _), Union::RangeInclusive(_, _)) => match op {
            Token::EqualsTo => Some((BuiltinFn::RangeInclusiveEq, false)),
            Token::NotEqualsTo => Some((BuiltinFn::RangeInclusiveNe, false)),
            _ => None,
        },
        _ => if x.is_variant() || y.is_variant() {
            if is_numeric(x) && is_numeric(y) {
                None
            } else if !is_same_type(x, y) {
                mismatched_comparison_exec(op)
            } else {
                None
            }
        } else if !is_same_type(x, y) {
            mismatched_comparison_exec(op)
        } else {
            None
        },
    }
}

/// The built-in implementation of an operator-assignment on two values, if there is one,
/// with whether it needs the engine.
pub fn get_builtin_op_assignment_fn(op: Token, x: &Dynamic, y: &Dynamic) -> (r: Option<
    (BuiltinAssignFn, bool),
>)
    ensures
        r == builtin_assign_fn(op, x@.value, y@.value),
        r matches Some((f, _)) ==> assign_fn_accepts(f, x@.value, y@.value),
{
    match (&x.value, &y.value) {
        (Union::Int(_), Union::Int(_)) => match assign_arith_of_exec(op) {
            Some(a) => Some((BuiltinAssignFn::IntArith(a), false)),
            None => match op {
                Token::AndAssign => Some((BuiltinAssignFn::IntBits(BitOp::And), false)),
                Token::OrAssign => Some((BuiltinAssignFn::IntBits(BitOp::Or), false)),
                Token::XOrAssign => Some((BuiltinAssignFn::IntBits(BitOp::Xor), false)),
                _ => None,
            },
        },
        (Union::Bool(_), Union::Bool(_)) => match op {
            Token::AndAssign => Some((BuiltinAssignFn::BoolAnd, false)),
            Token::OrAssign => Some((BuiltinAssignFn::BoolOr, false)),
            _ => None,
        },
        (Union::Char(_), Union::Char(_)) => match op {
            Token::PlusAssign => Some((BuiltinAssignFn::CharAppendChar, false)),
            _ => None,
        },
        (Union::Str(_), Union::Str(_)) => match op {
            Token::PlusAssign => Some((BuiltinAssignFn::StrAppend, true)),
            Token::MinusAssign => Some((BuiltinAssignFn::StrRemove, false)),
            _ => None,
        },
        (Union::Array(_), Union::Array(_)) => match op {
            Token::PlusAssign => Some((BuiltinAssignFn::ArrayAppend, true)),
            _ => None,
        },
        (Union::Blob(_), Union::Blob(_)) => match op {
            Token::PlusAssign => Some((BuiltinAssignFn::BlobAppend, true)),
            _ => None,
        },
        (Union::Str(_), Union::Char(_)) => match op {
            Token::PlusAssign => Some((BuiltinAssignFn::StrAppendChar, true)),
            Token::MinusAssign => Some((BuiltinAssignFn::StrRemoveChar, false)),
            _ => None,
        },
        (Union::Char(_), Union::Str(_)) => match op {
            Token::PlusAssign => Some((BuiltinAssignFn::CharAppendStr, true)),
            _ => None,
        },
        (Union::Array(_), _) => match op {
            Token::PlusAssign => Some((BuiltinAssignFn::ArrayPush, true)),
            _ => None,
        },
        (Union::Blob(_), Union::Int(_)) => match op {
            Token::PlusAssign => Some((BuiltinAssignFn::BlobPushInt, true)),
            _ => None,
        },
        (Union::Blob(_), Union::Char(_)) => match op {
            Token::PlusAssign => Some((BuiltinAssignFn::BlobPushChar, true)),
            _ => None,
        },
        (Union::Blob(_), Union::Str(_)) => match op {
            Token::PlusAssign => Some((BuiltinAssignFn::BlobAppendStr, true)),
            _ => None,
        },
        _ => None,
    }
}

/// Does `p` occur in `s` at position `i`?
fn occurs_at(s: &Vec<char>, p: &Vec<char>, i: usize) -> (r: bool)
    requires
        i + p@.len() <= s@.len(),
    ensures
        r == (s@.skip(i as int).take(p@.len() as int) == p@),
{
    let mut k: usize = 0;
    while k < p.len()
        invariant
            k <= p@.len(),
            i + p@.len() <= s@.len(),
            forall|j: int| 0 <= j < k ==> s@[i + j] == p@[j],
        decreases p.len() - k,
    {
        let n: usize = s.len();
        assert(i + k < n);
        if s[i + k] != p[k] {
            proof {
                assert(s@.skip(i as int).take(p@.len() as int)[k as int] != p@[k as int]);
            }
            return false;
        }
        k += 1;
    }
    proof {
        assert(s@.skip(i as int).take(p@.len() as int) =~= p@);
    }
    true
}

/// Unfolding [`remove_all`] at a position.
proof fn lemma_remove_all_step(s: Seq<char>, p: Seq<char>, i: int)
    requires
        p.len() > 0,
        0 <= i < s.len(),
    ensures
        i + p.len() <= s.len() && s.skip(i).take(p.len() as int) == p ==> remove_all(s.skip(i), p)
            == remove_all(s.skip(i + p.len()), p),
        !(i + p.len() <= s.len() && s.skip(i).take(p.len() as int) == p) ==> remove_all(
            s.skip(i),
            p,
        ) == seq![s[i]] + remove_all(s.skip(i + 1), p),
{
    if i + p.len() <= s.len() {
        assert(s.skip(i).skip(p.len() as int) =~= s.skip(i + p.len()));
    }
    assert(s.skip(i).skip(1) =~= s.skip(i + 1));
}

/// The characters with all non-overlapping occurrences of `p` removed.
fn remove_all_exec(s: &Vec<char>, p: &Vec<char>) -> (r: Vec<char>)
    ensures
        r@ == remove_all(s@, p@),
{
    if p.len() == 0 {
        return s.clone();
    }
    let mut out: Vec<char> = Vec::new();
    let mut i: usize = 0;
    proof {
        assert(s@.skip(0) =~= s@);
    }
    while i < s.len()
        invariant
            i <= s@.len(),
            p@.len() > 0,
            out@ + remove_all(s@.skip(i as int), p@) == remove_all(s@, p@),
        decreases s.len() - i,
    {
        proof {
            lemma_remove_all_step(s@, p@, i as int);
        }
        if p.len() <= s.len() - i && occurs_at(s, p, i) {
            i = i + p.len();
        } else {
            proof {
                assert(out@.push(s@[i as int]) + remove_all(s@.skip(i + 1), p@) =~= out@ + (seq![
                    s@[i as int],
                ] + remove_all(s@.skip(i + 1), p@)));
            }
            out.push(s[i]);
            i += 1;
        }
    }
    proof {
        assert(s@.skip(i as int).len() == 0);
        assert(out@ + remove_all(s@.skip(i as int), p@) =~= out@);
    }
    out
}

/// The first two characters of a string, padded with `'\0'`.
fn pad2_exec(v: &Vec<char>) -> (r: Vec<char>)
    ensures
        r@ == pad2(v@),
{
    let a = if v.len() > 0 {
        v[0]
    } else {
        '\0'
    };
    let b = if v.len() > 1 {
        v[1]
    } else {
        '\0'
    };
    let mut r: Vec<char> = Vec::new();
    r.push(a);
    r.push(b);
    proof {
        assert(r@ =~= pad2(v@));
    }
    r
}

/// The characters of a string.
fn chars_of(s: &String) -> (r: Vec<char>)
    ensures
        r@ == s@,
{
    crate::text::str_chars(s.as_str())
}

/// Compares character sequences with a comparison operator.
fn compare_chars(c: Comparison, a: &Vec<char>, b: &Vec<char>) -> (r: bool)
    ensures
        r == comparison_holds(c, seq_less(a@, b@), a@ == b@),
{
    let o = crate::text::chars_order(a, b);
    compare_order(c, o == -1, o == 0)
}

/// Evaluates a comparison operator from "less than" and "equal".
fn compare_order(c: Comparison, lt: bool, eq: bool) -> (r: bool)
    ensures
        r == comparison_holds(c, lt, eq),
{
    match c {
        Comparison::Eq => eq,
        Comparison::Ne => !eq,
        Comparison::Gt => !lt && !eq,
        Comparison::Ge => !lt,
        Comparison::Lt => lt,
        Comparison::Le => lt || eq,
    }
}

/// A string followed by another.
fn concat_strings(a: &String, b: &String) -> (r: String)
    ensures
        r@ == a@ + b@,
{
    let mut r = a.clone();
    r.append(b.as_str());
    r
}

/// The UTF-8 encoding of a character.
fn char_bytes(c: char) -> (r: Vec<u8>)
    ensures
        r@ == encode_scalar(c as u32),
{
    let mut t = String::new();
    crate::text::string_push(&mut t, c);
    proof {
        assert(t@ =~= seq![c]);
        crate::text::lemma_encode_single(c);
    }
    vstd::slice::slice_to_vec(t.as_str().as_bytes())
}

/// The UTF-8 encoding of a string.
fn str_bytes(s: &String) -> (r: Vec<u8>)
    ensures
        r@ == encode_utf8(s@),
{
    vstd::slice::slice_to_vec(s.as_str().as_bytes())
}

/// Calls a built-in binary operator implementation on operands of the types it accepts.
pub fn call_builtin_binary_op(engine: &Engine, f: BuiltinFn, x: &Dynamic, y: &Dynamic) -> (r:
    RhaiResult)
    requires
        binary_fn_accepts(f, x@.value, y@.value),
    ensures
        result_view(r) == apply_binary(engine.limits, f, x@, y@),
{
    match (f, &x.value, &y.value) {
        (BuiltinFn::IntArith(a), Union::Int(i), Union::Int(j)) => match int_arith_exec(a, *i, *j) {
            Ok(v) => Ok(Dynamic::from_int(v)),
            Err(e) => Err(e),
        },
        (BuiltinFn::IntCompare(c), Union::Int(i), Union::Int(j)) => Ok(
            Dynamic::from_bool(compare_order(c, *i < *j, *i == *j)),
        ),
        (BuiltinFn::IntBits(b), Union::Int(i), Union::Int(j)) => {
            let v = match b {
                BitOp::And => *i & *j,
                BitOp::Or => *i | *j,
                BitOp::Xor => *i ^ *j,
            };
            Ok(Dynamic::from_int(v))
        },
        (BuiltinFn::IntRange, Union::Int(i), Union::Int(j)) => Ok(
            Dynamic::from_union(Union::Range(*i, *j)),
        ),
        (BuiltinFn::IntRangeInclusive, Union::Int(i), Union::Int(j)) => Ok(
            Dynamic::from_union(Union::RangeInclusive(*i, *j)),
        ),
        (BuiltinFn::BoolCompare(c), Union::Bool(a), Union::Bool(b)) => Ok(
            Dynamic::from_bool(compare_order(c, !*a && *b, *a == *b)),
        ),
        (BuiltinFn::BoolBits(bb), Union::Bool(a), Union::Bool(b)) => {
            let v = match bb {
                BitOp::And => *a && *b,
                BitOp::Or => *a || *b,
                BitOp::Xor => *a != *b,
            };
            Ok(Dynamic::from_bool(v))
        },
        (BuiltinFn::StrConcat, Union::Str(a), Union::Str(b)) => {
            let n = add_sizes(a.as_str().len(), b.as_str().len());
            match engine.raise_err_if_over_data_size_limit((0, 0, n)) {
                Ok(()) => Ok(Dynamic::from_string(concat_strings(a, b))),
                Err(e) => Err(e),
            }
        },
        (BuiltinFn::StrRemove, Union::Str(a), Union::Str(b)) => {
            let r = remove_all_exec(&chars_of(a), &chars_of(b));
            Ok(Dynamic::from_string(string_from_chars(&r)))
        },
        (BuiltinFn::StrCompare(c), Union::Str(a), Union::Str(b)) => Ok(
            Dynamic::from_bool(compare_chars(c, &chars_of(a), &chars_of(b))),
        ),
        (BuiltinFn::CharConcat, Union::Char(a), Union::Char(b)) => {
            let mut r = String::new();
            string_push(&mut r, *a);
            string_push(&mut r, *b);
            proof {
                assert(r@ =~= seq![*a, *b]);
            }
            let n = r.as_str().len();
            match engine.raise_err_if_over_data_size_limit((0, 0, n)) {
                Ok(()) => Ok(Dynamic::from_string(r)),
                Err(e) => Err(e),
            }
        },
        (BuiltinFn::CharCompare(c), Union::Char(a), Union::Char(b)) => {
            let ca: u32 = *a as u32;
            let cb: u32 = *b as u32;
            proof {
                vstd::utf8::char_u32_cast(*a, ca);
                vstd::utf8::char_u32_cast(*b, cb);
            }
            Ok(Dynamic::from_bool(compare_order(c, ca < cb, *a == *b)))
        },
        (BuiltinFn::BlobConcat, Union::Blob(a), Union::Blob(b)) => {
            if b.len() == 0 {
                Ok(x.deep_clone())
            } else if a.len() == 0 {
                Ok(y.deep_clone())
            } else {
                let n = add_sizes(a.len(), b.len());
                match engine.raise_err_if_over_data_size_limit((n, 0, 0)) {
                    Ok(()) => {
                        let mut r = a.clone();
                        let mut t = b.clone();
                        r.append(&mut t);
                        Ok(Dynamic::from_blob(r))
                    },
                    Err(e) => Err(e),
                }
            }
        },
        (BuiltinFn::BlobEq, Union::Blob(a), Union::Blob(b)) => Ok(Dynamic::from_bool(bytes_eq(a, b))),
        (BuiltinFn::BlobNe, Union::Blob(a), Union::Blob(b)) => Ok(
            Dynamic::from_bool(!bytes_eq(a, b)),
        ),
        (BuiltinFn::CharStrConcat, Union::Char(a), Union::Str(b)) => {
            let mut r = String::new();
            string_push(&mut r, *a);
            r.append(b.as_str());
            proof {
                assert(r@ =~= seq![*a] + b@);
            }
            let n = r.as_str().len();
            match engine.raise_err_if_over_data_size_limit((0, 0, n)) {
                Ok(()) => Ok(Dynamic::from_string(r)),
                Err(e) => Err(e),
            }
        },
        (BuiltinFn::CharStrCompare(c), Union::Char(a), Union::Str(b)) => {
            let mut l: Vec<char> = Vec::new();
            l.push(*a);
            l.push('\0');
            proof {
                assert(l@ =~= seq![*a, '\0']);
            }
            let rr = pad2_exec(&chars_of(b));
            Ok(Dynamic::from_bool(compare_chars(c, &l, &rr)))
        },
        (BuiltinFn::StrCharConcat, Union::Str(a), Union::Char(b)) => {
            let mut r = a.clone();
            string_push(&mut r, *b);
            let n = r.as_str().len();
            match engine.raise_err_if_over_data_size_limit((0, 0, n)) {
                Ok(()) => Ok(Dynamic::from_string(r)),
                Err(e) => Err(e),
            }
        },
        (BuiltinFn::StrCharRemove, Union::Str(a), Union::Char(b)) => {
            let mut p: Vec<char> = Vec::new();
            p.push(*b);
            proof {
                assert(p@ =~= seq![*b]);
            }
            let r = remove_all_exec(&chars_of(a), &p);
            Ok(Dynamic::from_string(string_from_chars(&r)))
        },
        (BuiltinFn::StrCharCompare(c), Union::Str(a), Union::Char(b)) => {
            let mut rr: Vec<char> = Vec::new();
            rr.push(*b);
            rr.push('\0');
            proof {
                assert(rr@ =~= seq![*b, '\0']);
            }
            let l = pad2_exec(&chars_of(a));
            Ok(Dynamic::from_bool(compare_chars(c, &l, &rr)))
        },
        (BuiltinFn::BlobCharAppend, Union::Blob(a), Union::Char(c)) => {
            let n = add_sizes(a.len(), crate::text::char_len_utf8(*c));
            match engine.raise_err_if_over_data_size_limit((n, 0, 0)) {
                Ok(()) => {
                    let mut r = a.clone();
                    let mut t = char_bytes(*c);
                    r.append(&mut t);
                    Ok(Dynamic::from_blob(r))
                },
                Err(e) => Err(e),
            }
        },
        (BuiltinFn::RangeEq, Union::Range(a, b), Union::Range(c, d)) => Ok(
            Dynamic::from_bool(*a == *c && *b == *d),
        ),
        (BuiltinFn::RangeNe, Union::Range(a, b), Union::Range(c, d)) => Ok(
            Dynamic::from_bool(!(*a == *c && *b == *d)),
        ),
        (
            BuiltinFn::RangeInclusiveEq,
            Union::RangeInclusive(a, b),
            Union::RangeInclusive(c, d),
        ) => Ok(Dynamic::from_bool(*a == *c && *b == *d)),
        (
            BuiltinFn::RangeInclusiveNe,
            Union::RangeInclusive(a, b),
            Union::RangeInclusive(c, d),
        ) => Ok(Dynamic::from_bool(!(*a == *c && *b == *d))),
        (BuiltinFn::ConstTrue, _, _) => Ok(Dynamic::from_bool(true)),
        (BuiltinFn::ConstFalse, _, _) => Ok(Dynamic::from_bool(false)),
        (BuiltinFn::First, _, _) => Ok(x.deep_clone()),
        (BuiltinFn::Second, _, _) => Ok(y.deep_clone()),
        _ => Ok(Dynamic::unit()),
    }
}

/// Are two byte vectors equal?
fn bytes_eq(a: &Vec<u8>, b: &Vec<u8>) -> (r: bool)
    ensures
        r == (a@ == b@),
{
    if a.len() != b.len() {
        return false;
    }
    let mut i: usize = 0;
    while i < a.len()
        invariant
            i <= a.len(),
            a.len() == b.len(),
            forall|j: int| 0 <= j < i ==> a@[j] == b@[j],
        decreases a.len() - i,
    {
        if a[i] != b[i] {
            return false;
        }
        i += 1;
    }
    assert(a@ =~= b@);
    true
}

/// Calls a built-in operator-assignment implementation on operands of the types it accepts,
/// updating the target in place.
pub fn call_builtin_op_assign(
    engine: &Engine,
    f: BuiltinAssignFn,
    x: &mut Dynamic,
    y: Dynamic,
) -> (r: RhaiResultOf<()>)
    requires
        assign_fn_accepts(f, old(x)@.value, y@.value),
    ensures
        (final(x)@, unit_result_view(r)) == apply_assign(engine.limits, f, old(x)@, y@),
{
    match f {
        BuiltinAssignFn::IntArith(a) => {
            let i = match x.value {
                Union::Int(v) => v,
                _ => 0,
            };
            let j = match y.value {
                Union::Int(v) => v,
                _ => 0,
            };
            match int_arith_exec(a, i, j) {
                Ok(v) => {
                    x.value = Union::Int(v);
                    if a == ArithOp::Shl || a == ArithOp::Shr {
                        x.tag = 0;
                    }
                    Ok(())
                },
                Err(e) => Err(e),
            }
        },
        BuiltinAssignFn::IntBits(b) => {
            let i = match x.value {
                Union::Int(v) => v,
                _ => 0,
            };
            let j = match y.value {
                Union::Int(v) => v,
                _ => 0,
            };
            let v = match b {
                BitOp::And => i & j,
                BitOp::Or => i | j,
                BitOp::Xor => i ^ j,
            };
            x.value = Union::Int(v);
            Ok(())
        },
        BuiltinAssignFn::BoolAnd | BuiltinAssignFn::BoolOr => {
            let a = match x.value {
                Union::Bool(v) => v,
                _ => false,
            };
            let b = match y.value {
                Union::Bool(v) => v,
                _ => false,
            };
            let v = if f == BuiltinAssignFn::BoolAnd {
                a && b
            } else {
                a || b
            };
            x.value = Union::Bool(v);
            Ok(())
        },
        BuiltinAssignFn::CharAppendChar => {
            let c = match y.value {
                Union::Char(v) => v,
                _ => ' ',
            };
            let mut buf = String::new();
            string_push(&mut buf, c);
            string_push(&mut buf, c);
            proof {
                assert(buf@ =~= seq![c, c]);
            }
            *x = Dynamic::from_string(buf);
            Ok(())
        },
        BuiltinAssignFn::StrAppend => {
            let b = match y.value {
                Union::Str(v) => v,
                _ => String::new(),
            };
            let a = match &x.value {
                Union::Str(v) => v.clone(),
                _ => String::new(),
            };
            if !a.as_str().is_empty() && !b.as_str().is_empty() {
                let n = add_sizes(a.as_str().len(), b.as_str().len());
                match engine.raise_err_if_over_data_size_limit((0, 0, n)) {
                    Ok(()) => {},
                    Err(e) => {
                        return Err(e);
                    },
                }
            }
            x.value = Union::Str(concat_strings(&a, &b));
            Ok(())
        },
        BuiltinAssignFn::StrRemove => {
            let b = match y.value {
                Union::Str(v) => v,
                _ => String::new(),
            };
            let a = match &x.value {
                Union::Str(v) => chars_of(v),
                _ => Vec::new(),
            };
            let r = remove_all_exec(&a, &chars_of(&b));
            x.value = Union::Str(string_from_chars(&r));
            Ok(())
        },
        BuiltinAssignFn::ArrayAppend => {
            let mut b = match y.value {
                Union::Array(v) => v,
                _ => Vec::new(),
            };
            if b.len() == 0 {
                return Ok(());
            }
            let a_len = match &x.value {
                Union::Array(v) => v.len(),
                _ => 0,
            };
            if a_len > 0 {
                match engine.check_data_size(x, Position::none()) {
                    Ok(()) => {},
                    Err(e) => {
                        return Err(e);
                    },
                }
            }
            let ghost xv = x@;
            let mut old_value = Union::Unit;
            core::mem::swap(&mut x.value, &mut old_value);
            match old_value {
                Union::Array(mut a) => {
                    let ghost a0 = a@;
                    let ghost b0 = b@;
                    a.append(&mut b);
                    proof {
                        crate::dynamic::lemma_dyns_view_concat(a0, b0);
                    }
                    x.value = Union::Array(a);
                },
                other => {
                    x.value = other;
                },
            }
            Ok(())
        },
        BuiltinAssignFn::BlobAppend => {
            let mut b = match y.value {
                Union::Blob(v) => v,
                _ => Vec::new(),
            };
            let a_len = match &x.value {
                Union::Blob(v) => v.len(),
                _ => 0,
            };
            let n = add_sizes(a_len, b.len());
            match engine.raise_err_if_over_data_size_limit((n, 0, 0)) {
                Ok(()) => {},
                Err(e) => {
                    return Err(e);
                },
            }
            let mut old_value = Union::Unit;
            core::mem::swap(&mut x.value, &mut old_value);
            match old_value {
                Union::Blob(mut a) => {
                    a.append(&mut b);
                    x.value = Union::Blob(a);
                },
                other => {
                    x.value = other;
                },
            }
            Ok(())
        },
        BuiltinAssignFn::StrAppendChar => {
            let c = match y.value {
                Union::Char(v) => v,
                _ => ' ',
            };
            let a = match &x.value {
                Union::Str(v) => v.clone(),
                _ => String::new(),
            };
            let n = add_sizes(a.as_str().len(), crate::text::char_len_utf8(c));
            match engine.raise_err_if_over_data_size_limit((0, 0, n)) {
                Ok(()) => {},
                Err(e) => {
                    return Err(e);
                },
            }
            let mut a = a;
            string_push(&mut a, c);
            x.value = Union::Str(a);
            Ok(())
        },
        BuiltinAssignFn::StrRemoveChar => {
            let c = match y.value {
                Union::Char(v) => v,
                _ => ' ',
            };
            let a = match &x.value {
                Union::Str(v) => chars_of(v),
                _ => Vec::new(),
            };
            let mut p: Vec<char> = Vec::new();
            p.push(c);
            proof {
                assert(p@ =~= seq![c]);
            }
            let r = remove_all_exec(&a, &p);
            x.value = Union::Str(string_from_chars(&r));
            Ok(())
        },
        BuiltinAssignFn::CharAppendStr => {
            let st = match y.value {
                Union::Str(v) => v,
                _ => String::new(),
            };
            let c = match x.value {
                Union::Char(v) => v,
                _ => ' ',
            };
            if st.as_str().is_empty() {
                return Ok(());
            }
            let n = add_sizes(crate::text::char_len_utf8(c), st.as_str().len());
            match engine.raise_err_if_over_data_size_limit((0, 0, n)) {
                Ok(()) => {},
                Err(e) => {
                    return Err(e);
                },
            }
            let mut r = String::new();
            string_push(&mut r, c);
            r.append(st.as_str());
            proof {
                assert(r@ =~= seq![c] + st@);
            }
            *x = Dynamic::from_string(r);
            Ok(())
        },
        BuiltinAssignFn::ArrayPush => {
            let ghost yv = y@;
            let mut old_value = Union::Unit;
            core::mem::swap(&mut x.value, &mut old_value);
            match old_value {
                Union::Array(mut a) => {
                    let ghost a0 = a@;
                    a.push(y);
                    proof {
                        crate::dynamic::lemma_dyns_view_push(a0, a@[a0.len() as int]);
                        assert(a@ =~= a0.push(a@[a0.len() as int]));
                    }
                    x.value = Union::Array(a);
                },
                other => {
                    x.value = other;
                },
            }
            engine.check_data_size(x, Position::none())
        },
        BuiltinAssignFn::BlobPushInt => {
            let i = match y.value {
                Union::Int(v) => v,
                _ => 0,
            };
            let a_len = match &x.value {
                Union::Blob(v) => v.len(),
                _ => 0,
            };
            let n = add_sizes(a_len, 1);
            match engine.raise_err_if_over_data_size_limit((n, 0, 0)) {
                Ok(()) => {},
                Err(e) => {
                    return Err(e);
                },
            }
            let byte: u8 = (i & 0xff) as u8;
            let mut old_value = Union::Unit;
            core::mem::swap(&mut x.value, &mut old_value);
            match old_value {
                Union::Blob(mut a) => {
                    a.push(byte);
                    x.value = Union::Blob(a);
                },
                other => {
                    x.value = other;
                },
            }
            Ok(())
        },
        BuiltinAssignFn::BlobPushChar => {
            let c = match y.value {
                Union::Char(v) => v,
                _ => ' ',
            };
            let a_len = match &x.value {
                Union::Blob(v) => v.len(),
                _ => 0,
            };
            let n = add_sizes(a_len, 1);
            match engine.raise_err_if_over_data_size_limit((n, 0, 0)) {
                Ok(()) => {},
                Err(e) => {
                    return Err(e);
                },
            }
            let mut t = char_bytes(c);
            let mut old_value = Union::Unit;
            core::mem::swap(&mut x.value, &mut old_value);
            match old_value {
                Union::Blob(mut a) => {
                    a.append(&mut t);
                    x.value = Union::Blob(a);
                },
                other => {
                    x.value = other;
                },
            }
            Ok(())
        },
        BuiltinAssignFn::BlobAppendStr => {
            let st = match y.value {
                Union::Str(v) => v,
                _ => String::new(),
            };
            if st.as_str().is_empty() {
                return Ok(());
            }
            let a_len = match &x.value {
                Union::Blob(v) => v.len(),
                _ => 0,
            };
            let n = add_sizes(a_len, st.as_str().len());
            match engine.raise_err_if_over_data_size_limit((n, 0, 0)) {
                Ok(()) => {},
                Err(e) => {
                    return Err(e);
                },
            }
            let mut t = str_bytes(&st);
            let mut old_value = Union::Unit;
            core::mem::swap(&mut x.value, &mut old_value);
            match old_value {
                Union::Blob(mut a) => {
                    a.append(&mut t);
                    x.value = Union::Blob(a);
                },
                other => {
                    x.value = other;
                },
            }
            Ok(())
        },
    }
}

/// The boolean held by a successful result, if any.
pub open spec fn bool_outcome(r: Result<DynV, ErrV>) -> Option<bool> {
    match r {
        Ok(v) => match v.value {
            Value::Bool(b) => Some(b),
            _ => None,
        },
        Err(_) => None,
    }
}

/// Exactly one of `a < b`, `a == b`, `b < a` holds for character sequences.
pub proof fn lemma_seq_less_trichotomy(a: Seq<char>, b: Seq<char>)
    ensures
        seq_less(a, b) ==> !seq_less(b, a) && a != b,
        !seq_less(a, b) && a != b ==> seq_less(b, a),
        !seq_less(a, a),
    decreases a.len(),
{
    if a.len() > 0 {
        lemma_seq_less_trichotomy(a.drop_first(), a.drop_first());
    }
    if a.len() > 0 && b.len() > 0 {
        lemma_seq_less_trichotomy(a.drop_first(), b.drop_first());
        if a[0] == b[0] && a.drop_first() == b.drop_first() {
            assert(a =~= seq![a[0]] + a.drop_first());
            assert(b =~= seq![b[0]] + b.drop_first());
        }
        if (a[0] as u32) == (b[0] as u32) {
            vstd::utf8::char_u32_cast(a[0], a[0] as u32);
            vstd::utf8::char_u32_cast(b[0], b[0] as u32);
        }
    } else if a.len() == 0 && b.len() == 0 {
        assert(a =~= b);
    }
}

/// The built-in operators `&`, `|` and `^` on two booleans are logical: `&` holds when both
/// hold, `|` when either holds, and `^` when exactly one holds.
pub proof fn lemma_bool_logic_ops(limits: Limits, x: DynV, y: DynV)
    requires
        x.value is Bool,
        y.value is Bool,
    ensures
        ({
            let a = x.value->Bool_0;
            let b = y.value->Bool_0;
            let and = builtin_binary_fn(Token::Ampersand, x.value, y.value);
            let or = builtin_binary_fn(Token::Pipe, x.value, y.value);
            let xor = builtin_binary_fn(Token::XOr, x.value, y.value);
            &&& and is Some && or is Some && xor is Some
            &&& bool_outcome(apply_binary(limits, (and->0).0, x, y)) == Some(a && b)
            &&& bool_outcome(apply_binary(limits, (or->0).0, x, y)) == Some(a || b)
            &&& bool_outcome(apply_binary(limits, (xor->0).0, x, y)) == Some((a || b) && !(a && b))
            &&& (a != b ==> bool_outcome(apply_binary(limits, (xor->0).0, x, y)) == Some(true))
            &&& (a == b ==> bool_outcome(apply_binary(limits, (xor->0).0, x, y)) == Some(false))
        }),
{
}

/// A boolean operator-assignment `x &= y` or `x |= y` gives `x` the value of `x & y` or
/// `x | y`, keeps its tag, and succeeds: `x |= y` makes `x` true exactly when either is true,
/// `x &= y` exactly when both are.
pub proof fn lemma_bool_op_assign_is_binary_op(limits: Limits, op: Token, x: DynV, y: DynV)
    requires
        x.value is Bool,
        y.value is Bool,
        op == Token::AndAssign || op == Token::OrAssign,
    ensures
        ({
            let a = x.value->Bool_0;
            let b = y.value->Bool_0;
            let fa = (builtin_assign_fn(op, x.value, y.value)->0).0;
            let bop = crate::token::base_op(op)->0;
            let fb = (builtin_binary_fn(bop, x.value, y.value)->0).0;
            let (nx, outcome) = apply_assign(limits, fa, x, y);
            &&& builtin_assign_fn(op, x.value, y.value) is Some
            &&& crate::token::base_op(op) is Some
            &&& builtin_binary_fn(bop, x.value, y.value) is Some
            &&& outcome is Ok
            &&& nx.tag == x.tag
            &&& bool_outcome(apply_binary(limits, fb, x, y)) == Some(nx.value->Bool_0)
            &&& nx.value is Bool
            &&& nx.value->Bool_0 == (if op == Token::OrAssign {
                a || b
            } else {
                a && b
            })
        }),
{
}

/// Where both `==` and `!=` are built in for two operands, both succeed and `!=` is the
/// negation of `==`.
pub proof fn lemma_not_equals_negates_equals(limits: Limits, x: DynV, y: DynV)
    requires
        builtin_binary_fn(Token::EqualsTo, x.value, y.value) is Some,
        builtin_binary_fn(Token::NotEqualsTo, x.value, y.value) is Some,
    ensures
        ({
            let eq = (builtin_binary_fn(Token::EqualsTo, x.value, y.value)->0).0;
            let ne = (builtin_binary_fn(Token::NotEqualsTo, x.value, y.value)->0).0;
            &&& bool_outcome(apply_binary(limits, eq, x, y)) is Some
            &&& bool_outcome(apply_binary(limits, ne, x, y)) == Some(
                !bool_outcome(apply_binary(limits, eq, x, y))->0,
            )
        }),
{
}

/// `x < y` holds exactly when `y > x` does, and `x <= y` exactly when `y >= x`, for the
/// built-in comparisons of integers, booleans, characters and strings.
pub proof fn lemma_less_is_swapped_greater(limits: Limits, x: DynV, y: DynV)
    requires
        same_type(x.value, y.value),
        x.value is Int || x.value is Bool || x.value is Char || x.value is Str,
    ensures
        ({
            let lt = (builtin_binary_fn(Token::LessThan, x.value, y.value)->0).0;
            let gt = (builtin_binary_fn(Token::GreaterThan, y.value, x.value)->0).0;
            let le = (builtin_binary_fn(Token::LessThanEqualsTo, x.value, y.value)->0).0;
            let ge = (builtin_binary_fn(Token::GreaterThanEqualsTo, y.value, x.value)->0).0;
            &&& builtin_binary_fn(Token::LessThan, x.value, y.value) is Some
            &&& builtin_binary_fn(Token::GreaterThan, y.value, x.value) is Some
            &&& apply_binary(limits, lt, x, y) == apply_binary(limits, gt, y, x)
            &&& apply_binary(limits, le, x, y) == apply_binary(limits, ge, y, x)
        }),
{
    match (x.value, y.value) {
        (Value::Str(a), Value::Str(b)) => {
            lemma_seq_less_trichotomy(a, b);
        },
        (Value::Char(a), Value::Char(b)) => {
            vstd::utf8::char_u32_cast(a, a as u32);
            vstd::utf8::char_u32_cast(b, b as u32);
        },
        _ => {},
    }
}

/// An integer operator-assignment `x op= y` gives `x` the value of `x op y`, and fails
/// exactly when `x op y` does, with the same error.
pub proof fn lemma_int_op_assign_is_binary_op(limits: Limits, op: Token, x: DynV, y: DynV)
    requires
        x.value is Int,
        y.value is Int,
        builtin_assign_fn(op, x.value, y.value) is Some,
    ensures
        ({
            let fa = (builtin_assign_fn(op, x.value, y.value)->0).0;
            let bop = crate::token::base_op(op)->0;
            let fb = (builtin_binary_fn(bop, x.value, y.value)->0).0;
            let (nx, outcome) = apply_assign(limits, fa, x, y);
            &&& crate::token::base_op(op) is Some
            &&& builtin_binary_fn(bop, x.value, y.value) is Some
            &&& match apply_binary(limits, fb, x, y) {
                Ok(v) => outcome is Ok && nx.value == v.value,
                Err(e) => outcome == Err::<(), ErrV>(e) && nx == x,
            }
        }),
{
}

/// A string operator-assignment `x += y` or `x -= y` gives `x` the value of `x + y` or
/// `x - y`; with both strings non-empty, `+=` fails exactly when `+` does.
pub proof fn lemma_string_op_assign_is_binary_op(limits: Limits, op: Token, x: DynV, y: DynV)
    requires
        x.value matches Value::Str(a) && a.len() > 0,
        y.value matches Value::Str(b) && b.len() > 0,
        op == Token::PlusAssign || op == Token::MinusAssign,
    ensures
        ({
            let fa = (builtin_assign_fn(op, x.value, y.value)->0).0;
            let bop = crate::token::base_op(op)->0;
            let fb = (builtin_binary_fn(bop, x.value, y.value)->0).0;
            let (nx, outcome) = apply_assign(limits, fa, x, y);
            &&& builtin_assign_fn(op, x.value, y.value) is Some
            &&& builtin_binary_fn(bop, x.value, y.value) is Some
            &&& match apply_binary(limits, fb, x, y) {
                Ok(v) => outcome is Ok && nx.value == v.value && nx.tag == x.tag,
                Err(e) => outcome == Err::<(), ErrV>(e) && nx == x,
            }
        }),
{
}

} // verus!
