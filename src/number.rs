//! Arithmetic on the language's numbers, which are 64-bit signed integers.
//! An operation whose exact result leaves that range, or that divides by
//! zero, has no result.
use vstd::prelude::*;
use crate::ast::BinaryOperator;

verus! {

pub open spec fn in_range(x: int) -> bool {
    i64::MIN <= x <= i64::MAX
}

pub open spec fn abs(x: int) -> int {
    if x < 0 {
        -x
    } else {
        x
    }
}

/// Division rounded toward zero.
pub open spec fn trunc_div(a: int, b: int) -> int {
    let q = abs(a) / abs(b);
    if (a < 0) != (b < 0) {
        -q
    } else {
        q
    }
}

/// The remainder of division rounded toward zero: it takes the sign of `a`.
pub open spec fn trunc_rem(a: int, b: int) -> int {
    let r = abs(a) % abs(b);
    if a < 0 {
        -r
    } else {
        r
    }
}

pub open spec fn fit(x: int) -> Option<i64> {
    if in_range(x) {
        Some(x as i64)
    } else {
        None
    }
}

/// The arithmetic operators `+ - * / %` on two numbers.
pub open spec fn num_op(op: BinaryOperator, a: i64, b: i64) -> Option<i64> {
    match op {
        BinaryOperator::Add => fit(a + b),
        BinaryOperator::Sub => fit(a - b),
        BinaryOperator::Mul => fit(a * b),
        BinaryOperator::Div => if b == 0 {
            None
        } else {
            fit(trunc_div(a as int, b as int))
        },
        BinaryOperator::Mod => if b == 0 {
            None
        } else {
            fit(trunc_rem(a as int, b as int))
        },
        _ => None,
    }
}

pub open spec fn is_arith(op: BinaryOperator) -> bool {
    op == BinaryOperator::Add || op == BinaryOperator::Sub || op == BinaryOperator::Mul
        || op == BinaryOperator::Div || op == BinaryOperator::Mod
}

pub open spec fn neg_op(a: i64) -> Option<i64> {
    fit(-(a as int))
}

fn fit_wide(x: i128) -> (r: Option<i64>)
    ensures
        r == fit(x as int),
{
    if i64::MIN as i128 <= x && x <= i64::MAX as i128 {
        Some(x as i64)
    } else {
        None
    }
}

fn magnitude(a: i64) -> (r: u128)
    ensures
        r == abs(a as int),
{
    if a < 0 {
        (-(a as i128)) as u128
    } else {
        a as u128
    }
}

pub fn checked_num_op(op: BinaryOperator, a: i64, b: i64) -> (r: Option<i64>)
    ensures
        r == num_op(op, a, b),
{
    match op {
        BinaryOperator::Add => fit_wide(a as i128 + b as i128),
        BinaryOperator::Sub => fit_wide(a as i128 - b as i128),
        BinaryOperator::Mul => {
            assert(-0x8000_0000_0000_0000_0000_0000_0000_0000int <= (a as int) * (b as int)
                <= 0x7fff_ffff_ffff_ffff_ffff_ffff_ffff_ffffint) by (nonlinear_arith)
                requires
                    i64::MIN <= a <= i64::MAX,
                    i64::MIN <= b <= i64::MAX,
            ;
            fit_wide(a as i128 * b as i128)
        },
        BinaryOperator::Div => {
            if b == 0 {
                None
            } else {
                let q = magnitude(a) / magnitude(b);
                assert(q <= abs(a as int)) by (nonlinear_arith)
                    requires
                        q == abs(a as int) / abs(b as int),
                        abs(b as int) >= 1,
                        abs(a as int) >= 0,
                ;
                if (a < 0) != (b < 0) {
                    fit_wide(-(q as i128))
                } else {
                    fit_wide(q as i128)
                }
            }
        },
        BinaryOperator::Mod => {
            if b == 0 {
                None
            } else {
                let r = magnitude(a) % magnitude(b);
                assert(r <= abs(a as int)) by (nonlinear_arith)
                    requires
                        r == abs(a as int) % abs(b as int),
                        abs(b as int) >= 1,
                        abs(a as int) >= 0,
                ;
                if a < 0 {
                    fit_wide(-(r as i128))
                } else {
                    fit_wide(r as i128)
                }
            }
        },
        _ => None,
    }
}

pub fn checked_neg(a: i64) -> (r: Option<i64>)
    ensures
        r == neg_op(a),
{
    fit_wide(-(a as i128))
}

} // verus!
