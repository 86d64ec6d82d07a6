//! Integer helpers shared by the fixed-point detector cores.

use vstd::prelude::*;

verus! {

/// Signed integer division that truncates toward zero, as machine division does.
pub open spec fn trunc_div(a: int, b: int) -> int {
    if a >= 0 {
        if b > 0 { a / b } else { -(a / (-b)) }
    } else {
        if b > 0 { -((-a) / b) } else { (-a) / (-b) }
    }
}

/// Euclidean division by a negative divisor negates division by its magnitude.
pub proof fn lemma_div_negative_divisor(x: int, b: int)
    requires
        x >= 0,
        b < 0,
    ensures
        x / b == -(x / (-b)),
{
    let q1 = x / b;
    let r1 = x % b;
    let q2 = x / (-b);
    let r2 = x % (-b);
    assert(x == b * q1 + r1 && 0 <= r1 < -b) by {
        vstd::arithmetic::div_mod::lemma_fundamental_div_mod(x, b);
    }
    assert(x == (-b) * q2 + r2 && 0 <= r2 < -b) by {
        vstd::arithmetic::div_mod::lemma_fundamental_div_mod(x, -b);
    }
    assert(q1 == -q2) by (nonlinear_arith)
        requires
            b < 0,
            x == b * q1 + r1,
            0 <= r1 < -b,
            x == (-b) * q2 + r2,
            0 <= r2 < -b,
    ;
}

/// Machine signed division (the quotient of the magnitudes, negated for a
/// negative dividend) truncates toward zero.
pub proof fn lemma_machine_div(a: int, b: int)
    requires
        b != 0,
    ensures
        (if a >= 0 { a / b } else { -((-a) / b) }) == trunc_div(a, b),
{
    if b < 0 {
        if a >= 0 {
            lemma_div_negative_divisor(a, b);
        } else {
            lemma_div_negative_divisor(-a, b);
        }
    }
}

/// Magnitude of an integer.
pub open spec fn abs(a: int) -> int {
    if a < 0 { -a } else { a }
}

} // verus!
