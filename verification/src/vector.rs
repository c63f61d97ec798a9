//! Points and displacements on the fixed-point grid.

use vstd::prelude::*;

verus! {

/// A point or a vector of the plane, each coordinate in grid steps.
#[derive(Clone, Copy, Debug, PartialEq, Eq, Structural)]
pub struct Vec2 {
    pub x: i32,
    pub y: i32,
}

/// Squared Euclidean length of the vector `(dx, dy)`.
pub open spec fn length_sq(dx: int, dy: int) -> int {
    dx * dx + dy * dy
}

/// Squared Euclidean distance between two points.
pub open spec fn dist_sq(a: Vec2, b: Vec2) -> int {
    length_sq(b.x - a.x, b.y - a.y)
}

/// Component-wise difference `to - from`, computed by nalgebra's `Sub` on
/// two-dimensional vectors of `i64`. The claim is that each component of the
/// result is the difference of the matching components; the operands come
/// from `i32`, so the subtraction cannot overflow.
#[verifier::external_body]
pub(crate) fn displacement(from: &Vec2, to: &Vec2) -> (d: (i64, i64))
    ensures
        d.0 == to.x - from.x,
        d.1 == to.y - from.y,
{
    let d = nalgebra::Vector2::new(to.x as i64, to.y as i64)
        - nalgebra::Vector2::new(from.x as i64, from.y as i64);
    (d.x, d.y)
}

/// Squared length of `(dx, dy)`, computed by nalgebra's `dot` of a
/// two-dimensional vector of `i128` with itself. The claim is that the
/// result is `dx * dx + dy * dy`; the bound on the operands keeps both
/// products and their sum inside `i128`.
#[verifier::external_body]
pub(crate) fn norm_squared(dx: i64, dy: i64) -> (n: u128)
    requires
        -0x4000_0000_0000_0000 <= dx <= 0x4000_0000_0000_0000,
        -0x4000_0000_0000_0000 <= dy <= 0x4000_0000_0000_0000,
    ensures
        n == length_sq(dx as int, dy as int),
{
    let v = nalgebra::Vector2::new(dx as i128, dy as i128);
    v.dot(&v) as u128
}

/// The squared length of a vector whose components are differences of
/// coordinates stays below `2^65`.
pub proof fn lemma_length_bound(dx: int, dy: int)
    requires
        -0xffff_ffff <= dx <= 0xffff_ffff,
        -0xffff_ffff <= dy <= 0xffff_ffff,
    ensures
        0 <= length_sq(dx, dy) <= 2 * 0xffff_ffff * 0xffff_ffff,
{
    assert(0 <= dx * dx <= 0xffff_ffff * 0xffff_ffff) by (nonlinear_arith)
        requires
            -0xffff_ffff <= dx <= 0xffff_ffff,
    ;
    assert(0 <= dy * dy <= 0xffff_ffff * 0xffff_ffff) by (nonlinear_arith)
        requires
            -0xffff_ffff <= dy <= 0xffff_ffff,
    ;
}

} // verus!
