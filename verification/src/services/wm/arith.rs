//! Machine arithmetic on `i32` coordinates, wrapping as in a release build.

use vstd::prelude::*;

verus! {

/// `a + b` with two's-complement wrap-around.
pub open spec fn wadd(a: i32, b: i32) -> i32 {
    (a + b) as i32
}

/// `a - b` with two's-complement wrap-around.
pub open spec fn wsub(a: i32, b: i32) -> i32 {
    (a - b) as i32
}

/// `a * b` with two's-complement wrap-around.
pub open spec fn wmul(a: i32, b: i32) -> i32 {
    (a * b) as i32
}

/// Division rounding toward zero, as `i32` division does; dividing the
/// smallest `i32` by `-1` does not occur here.
pub open spec fn tdiv(a: i32, b: i32) -> i32
    recommends
        b > 0,
{
    if a >= 0 {
        ((a as int) / (b as int)) as i32
    } else {
        (-((-(a as int)) / (b as int))) as i32
    }
}

pub fn add_w(a: i32, b: i32) -> (r: i32)
    ensures
        r == wadd(a, b),
{
    (a as i64 + b as i64) as i32
}

pub fn sub_w(a: i32, b: i32) -> (r: i32)
    ensures
        r == wsub(a, b),
{
    (a as i64 - b as i64) as i32
}

pub fn mul_w(a: i32, b: i32) -> (r: i32)
    requires
        -100000 <= b <= 100000,
    ensures
        r == wmul(a, b),
{
    assert((a as i64) * (b as i64) <= 2147483648 * 100000) by (nonlinear_arith)
        requires
            -2147483648 <= a <= 2147483647,
            -100000 <= b <= 100000,
    ;
    assert((a as i64) * (b as i64) >= -2147483648 * 100000) by (nonlinear_arith)
        requires
            -2147483648 <= a <= 2147483647,
            -100000 <= b <= 100000,
    ;
    ((a as i64) * (b as i64)) as i32
}

pub fn div_t(a: i32, b: i32) -> (r: i32)
    requires
        b > 0,
    ensures
        r == tdiv(a, b),
{
    if a >= 0 {
        a / b
    } else {
        let na: i64 = -(a as i64);
        let q: i64 = na / (b as i64);
        (-q) as i32
    }
}

/// The larger of two values.
pub fn max_i32(a: i32, b: i32) -> (r: i32)
    ensures
        r == (if a >= b { a } else { b }),
{
    if a >= b { a } else { b }
}

} // verus!
