use vstd::prelude::*;
use crate::error::{EvalAltResult, ErrV, RhaiResultOf};
use crate::position::Position;
use crate::text::{int_str, push_int_str, string_of};

verus! {

/// Binary arithmetic operators on integers.
#[derive(PartialEq, Eq, Structural, Clone, Copy, Debug)]
pub enum ArithOp {
    Add,
    Sub,
    Mul,
    Div,
    Mod,
    Pow,
    Shl,
    Shr,
}

/// `x` raised to the power `n`.
pub open spec fn ipow(x: int, n: nat) -> int
    decreases n,
{
    if n == 0 {
        1
    } else {
        x * ipow(x, (n - 1) as nat)
    }
}

/// Does an integer fit in an `i64`?
pub open spec fn fits_i64(v: int) -> bool {
    i64::MIN <= v <= i64::MAX
}

/// The magnitude of a shift with a negative count: `|y|`, or `i64::MAX` for `i64::MIN`.
pub open spec fn neg_shift_amount(y: i64) -> int {
    if y == i64::MIN {
        i64::MAX as int
    } else {
        -y
    }
}

/// `x` shifted left by `n` bits; shifting out all 64 bits gives zero.
pub open spec fn shl_by(x: i64, n: int) -> i64 {
    if n >= 64 {
        0i64
    } else {
        x << (n as u32)
    }
}

/// `x` shifted right (arithmetically) by `n` bits; shifting out all 64 bits leaves the sign.
pub open spec fn shr_by(x: i64, n: int) -> i64 {
    if n >= 64 {
        if x < 0 {
            -1i64
        } else {
            0i64
        }
    } else {
        x >> (n as u32)
    }
}

/// `x << y`: a negative count shifts the other way.
pub open spec fn int_shl(x: i64, y: i64) -> i64 {
    if y < 0 {
        shr_by(x, neg_shift_amount(y))
    } else {
        shl_by(x, y as int)
    }
}

/// `x >> y`: a negative count shifts the other way.
pub open spec fn int_shr(x: i64, y: i64) -> i64 {
    if y < 0 {
        shl_by(x, neg_shift_amount(y))
    } else {
        shr_by(x, y as int)
    }
}

/// The message of an arithmetic error on operands `x` and `y`: `"<what>: x <op> y"`.
pub open spec fn arith_msg(what: Seq<char>, x: i64, op: Seq<char>, y: i64) -> Seq<char> {
    what + ": "@ + int_str(x as int) + " "@ + op + " "@ + int_str(y as int)
}

/// An arithmetic error without position.
pub open spec fn arith_err(what: Seq<char>, x: i64, op: Seq<char>, y: i64) -> ErrV {
    ErrV::Arithmetic(arith_msg(what, x, op, y), Position { line: 0, pos: 0 })
}

/// The checked result of an integer operation.
pub open spec fn int_arith(op: ArithOp, x: i64, y: i64) -> Result<i64, ErrV> {
    match op {
        ArithOp::Add => if fits_i64(x + y) {
            Ok((x + y) as i64)
        } else {
            Err(arith_err("Addition overflow"@, x, "+"@, y))
        },
        ArithOp::Sub => if fits_i64(x - y) {
            Ok((x - y) as i64)
        } else {
            Err(arith_err("Subtraction overflow"@, x, "-"@, y))
        },
        ArithOp::Mul => if fits_i64(x * y) {
            Ok((x * y) as i64)
        } else {
            Err(arith_err("Multiplication overflow"@, x, "*"@, y))
        },
        ArithOp::Div => if y == 0 {
            Err(arith_err("Division by zero"@, x, "/"@, y))
        } else {
            match x.checked_div(y) {
                Some(v) => Ok(v),
                None => Err(arith_err("Division overflow"@, x, "/"@, y)),
            }
        },
        ArithOp::Mod => match x.checked_rem(y) {
            Some(v) => Ok(v),
            None => Err(arith_err("Modulo division by zero or overflow"@, x, "%"@, y)),
        },
        ArithOp::Pow => if y > u32::MAX {
            Err(arith_err("Exponential overflow"@, x, "**"@, y))
        } else if y < 0 {
            Err(arith_err("Integer raised to a negative power"@, x, "**"@, y))
        } else if fits_i64(ipow(x as int, y as nat)) {
            Ok(ipow(x as int, y as nat) as i64)
        } else {
            Err(arith_err("Exponential overflow"@, x, "**"@, y))
        },
        ArithOp::Shl => Ok(int_shl(x, y)),
        ArithOp::Shr => Ok(int_shr(x, y)),
    }
}

/// Builds the message of an arithmetic error.
fn make_arith_err(what: &str, x: i64, op: &str, y: i64) -> (r: Box<EvalAltResult>)
    ensures
        r@ == arith_err(what@, x, op@, y),
{
    let mut s = string_of(what);
    s.append(": ");
    push_int_str(&mut s, x);
    s.append(" ");
    s.append(op);
    s.append(" ");
    push_int_str(&mut s, y);
    proof {
        assert(s@ =~= arith_msg(what@, x, op@, y));
    }
    Box::new(EvalAltResult::ErrorArithmetic(s, Position::none()))
}

/// Powers of integers of magnitude at least two grow at least twofold per step.
proof fn lemma_ipow_grows(x: int, n: nat)
    requires
        x >= 2 || x <= -2,
    ensures
        ipow(x, n + 1) == x * ipow(x, n),
        (ipow(x, n + 1) >= 0 ==> ipow(x, n + 1) >= 2 * (if ipow(x, n) >= 0 {
            ipow(x, n)
        } else {
            -ipow(x, n)
        })),
        (ipow(x, n + 1) < 0 ==> -ipow(x, n + 1) >= 2 * (if ipow(x, n) >= 0 {
            ipow(x, n)
        } else {
            -ipow(x, n)
        })),
{
    let p = ipow(x, n);
    assert(ipow(x, (n + 1) as nat) == x * p);
    if x >= 2 {
        if p >= 0 {
            assert(x * p >= 2 * p) by (nonlinear_arith)
                requires
                    x >= 2,
                    p >= 0,
            ;
        } else {
            assert(-(x * p) >= 2 * (-p)) by (nonlinear_arith)
                requires
                    x >= 2,
                    p < 0,
            ;
        }
    } else {
        if p >= 0 {
            assert(-(x * p) >= 2 * p) by (nonlinear_arith)
                requires
                    x <= -2,
                    p >= 0,
            ;
        } else {
            assert(x * p >= 2 * (-p)) by (nonlinear_arith)
                requires
                    x <= -2,
                    p < 0,
            ;
        }
    }
}

/// The magnitude of a power of an integer of magnitude at least two never shrinks.
proof fn lemma_ipow_magnitude_mono(x: int, m: nat, n: nat)
    requires
        x >= 2 || x <= -2,
        m <= n,
    ensures
        (if ipow(x, m) >= 0 {
            ipow(x, m)
        } else {
            -ipow(x, m)
        }) <= (if ipow(x, n) >= 0 {
            ipow(x, n)
        } else {
            -ipow(x, n)
        }),
        m < n ==> 2 * (if ipow(x, m) >= 0 {
            ipow(x, m)
        } else {
            -ipow(x, m)
        }) <= (if ipow(x, n) >= 0 {
            ipow(x, n)
        } else {
            -ipow(x, n)
        }),
    decreases n - m,
{
    if m < n {
        lemma_ipow_magnitude_mono(x, m, (n - 1) as nat);
        lemma_ipow_grows(x, (n - 1) as nat);
    }
}

/// Powers of `1` are `1`; powers of `-1` alternate; positive powers of `0` are `0`.
proof fn lemma_ipow_small(x: int, n: nat)
    requires
        -1 <= x <= 1,
    ensures
        x == 1 ==> ipow(x, n) == 1,
        x == 0 ==> ipow(x, n) == (if n == 0 {
            1int
        } else {
            0int
        }),
        x == -1 ==> ipow(x, n) == (if n % 2 == 0 {
            1int
        } else {
            -1int
        }),
    decreases n,
{
    if n > 0 {
        lemma_ipow_small(x, (n - 1) as nat);
    }
}

/// `x` raised to the power `n`, or [`None`] on overflow.
fn checked_pow(x: i64, n: u32) -> (r: Option<i64>)
    ensures
        fits_i64(ipow(x as int, n as nat)) ==> r == Some(ipow(x as int, n as nat) as i64),
        !fits_i64(ipow(x as int, n as nat)) ==> r is None,
{
    if x == 0 || x == 1 {
        proof {
            lemma_ipow_small(x as int, n as nat);
        }
        if n == 0 {
            Some(1)
        } else {
            Some(x)
        }
    } else if x == -1 {
        proof {
            lemma_ipow_small(x as int, n as nat);
        }
        if n % 2 == 0 {
            Some(1)
        } else {
            Some(-1)
        }
    } else {
        let mut acc: i64 = 1;
        let mut i: u32 = 0;
        while i < n
            invariant
                i <= n,
                x >= 2 || x <= -2,
                acc as int == ipow(x as int, i as nat),
            decreases n - i,
        {
            proof {
                lemma_ipow_grows(x as int, i as nat);
            }
            match acc.checked_mul(x) {
                Some(v) => {
                    acc = v;
                },
                None => {
                    proof {
                        assert(acc * x == ipow(x as int, (i + 1) as nat)) by (nonlinear_arith)
                            requires
                                acc * x == x * acc,
                                ipow(x as int, (i + 1) as nat) == x * acc,
                        ;
                        lemma_ipow_magnitude_mono(x as int, (i + 1) as nat, n as nat);
                    }
                    return None;
                },
            }
            proof {
                assert(acc == x * ipow(x as int, i as nat)) by (nonlinear_arith)
                    requires
                        acc == ipow(x as int, i as nat) * x,
                ;
            }
            i += 1;
        }
        Some(acc)
    }
}

/// `x << n` for `0 <= n`, all bits shifted out giving zero.
fn shl_by_exec(x: i64, n: i64) -> (r: i64)
    requires
        n >= 0,
    ensures
        r == shl_by(x, n as int),
{
    if n >= 64 {
        0
    } else {
        let k: u32 = n as u32;
        x << k
    }
}

/// `x >> n` for `0 <= n`, all bits shifted out leaving the sign.
fn shr_by_exec(x: i64, n: i64) -> (r: i64)
    requires
        n >= 0,
    ensures
        r == shr_by(x, n as int),
{
    if n >= 64 {
        if x < 0 {
            -1
        } else {
            0
        }
    } else {
        let k: u32 = n as u32;
        x >> k
    }
}

/// The checked result of an integer operation; errors have no position.
pub fn int_arith_exec(op: ArithOp, x: i64, y: i64) -> (r: RhaiResultOf<i64>)
    ensures
        match r {
            Ok(v) => int_arith(op, x, y) == Ok::<i64, ErrV>(v),
            Err(e) => int_arith(op, x, y) == Err::<i64, ErrV>(e@),
        },
{
    match op {
        ArithOp::Add => match x.checked_add(y) {
            Some(v) => Ok(v),
            None => Err(make_arith_err("Addition overflow", x, "+", y)),
        },
        ArithOp::Sub => match x.checked_sub(y) {
            Some(v) => Ok(v),
            None => Err(make_arith_err("Subtraction overflow", x, "-", y)),
        },
        ArithOp::Mul => match x.checked_mul(y) {
            Some(v) => Ok(v),
            None => Err(make_arith_err("Multiplication overflow", x, "*", y)),
        },
        ArithOp::Div => if y == 0 {
            Err(make_arith_err("Division by zero", x, "/", y))
        } else {
            match x.checked_div(y) {
                Some(v) => Ok(v),
                None => Err(make_arith_err("Division overflow", x, "/", y)),
            }
        },
        ArithOp::Mod => match x.checked_rem(y) {
            Some(v) => Ok(v),
            None => Err(make_arith_err("Modulo division by zero or overflow", x, "%", y)),
        },
        ArithOp::Pow => if y > 4294967295i64 {
            Err(make_arith_err("Exponential overflow", x, "**", y))
        } else if y < 0 {
            Err(make_arith_err("Integer raised to a negative power", x, "**", y))
        } else {
            let n: u32 = y as u32;
            match checked_pow(x, n) {
                Some(v) => Ok(v),
                None => Err(make_arith_err("Exponential overflow", x, "**", y)),
            }
        },
        ArithOp::Shl => if y < 0 {
            let n: i64 = if y == i64::MIN {
                i64::MAX
            } else {
                -y
            };
            Ok(shr_by_exec(x, n))
        } else {
            Ok(shl_by_exec(x, y))
        },
        ArithOp::Shr => if y < 0 {
            let n: i64 = if y == i64::MIN {
                i64::MAX
            } else {
                -y
            };
            Ok(shl_by_exec(x, n))
        } else {
            Ok(shr_by_exec(x, y))
        },
    }
}

} // verus!
