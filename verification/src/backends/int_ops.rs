//! Integer operations as processors and virtual machines define them:
//! division rounding toward zero, and the relations of comparisons.
use vstd::prelude::*;
use crate::instruction::CmpCondition;

verus! {

/// Division rounding toward zero, as `idiv` and Rust's `/` do.
pub open spec fn trunc_div(x: int, y: int) -> int {
    let q = abs(x) / abs(y);
    if (x < 0) != (y < 0) {
        -q
    } else {
        q
    }
}

/// The remainder that goes with `trunc_div`: it has the sign of `x`.
pub open spec fn trunc_rem(x: int, y: int) -> int {
    x - y * trunc_div(x, y)
}

/// The absolute value.
pub open spec fn abs(x: int) -> int {
    if x < 0 {
        -x
    } else {
        x
    }
}

/// Whether a comparison holds between two signed numbers.
pub open spec fn condition_holds(c: CmpCondition, x: int, y: int) -> bool {
    match c {
        CmpCondition::Eq => x == y,
        CmpCondition::Ne => x != y,
        CmpCondition::Lt => x < y,
        CmpCondition::Le => x <= y,
        CmpCondition::Gt => x > y,
        CmpCondition::Ge => x >= y,
    }
}

/// A signed quotient rounded toward zero fits in 64 bits, but for the one
/// case `-2^63 / -1`.
pub proof fn lemma_trunc_div_fits(x: int, y: int)
    requires
        -0x8000_0000_0000_0000 <= x < 0x8000_0000_0000_0000,
        -0x8000_0000_0000_0000 <= y < 0x8000_0000_0000_0000,
        y != 0,
        !(x == -0x8000_0000_0000_0000 && y == -1),
    ensures
        -0x8000_0000_0000_0000 <= trunc_div(x, y) < 0x8000_0000_0000_0000,
{
    let n = abs(x);
    let d = abs(y);
    assert(0 <= n / d <= n) by (nonlinear_arith)
        requires
            n >= 0,
            d >= 1,
    ;
    if d >= 2 {
        assert(n / d <= n / 2) by (nonlinear_arith)
            requires
                n >= 0,
                d >= 2,
        ;
    } else {
        assert(d == 1);
        assert(n / 1 == n);
    }
}

/// A signed 32-bit quotient rounded toward zero fits in 32 bits, but for the
/// one case `-2^31 / -1`.
pub proof fn lemma_trunc_div_fits32(x: int, y: int)
    requires
        -0x8000_0000 <= x < 0x8000_0000,
        -0x8000_0000 <= y < 0x8000_0000,
        y != 0,
        !(x == -0x8000_0000 && y == -1),
    ensures
        -0x8000_0000 <= trunc_div(x, y) < 0x8000_0000,
{
    let n = abs(x);
    let d = abs(y);
    assert(0 <= n / d <= n) by (nonlinear_arith)
        requires
            n >= 0,
            d >= 1,
    ;
    if d >= 2 {
        assert(n / d <= n / 2) by (nonlinear_arith)
            requires
                n >= 0,
                d >= 2,
        ;
    } else {
        assert(d == 1);
        assert(n / 1 == n);
    }
}

} // verus!
