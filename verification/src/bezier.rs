//! The weights of a cubic Bezier blend in integer arithmetic.
//!
//! A parameter is a fraction `t / s` of a whole number `t` over a positive
//! scale `s`. Each weight is the usual one multiplied by `s` cubed, so the
//! blend comes out as a numerator over `s` cubed and nothing is rounded.

use vstd::prelude::*;

verus! {

/// Weight of the first control point at parameter `t / s`: `(1 - t)^3`.
pub open spec fn weight0(t: int, s: int) -> int {
    (s - t) * (s - t) * (s - t)
}

/// Weight of the second control point at parameter `t / s`:
/// `3 (1 - t)^2 t`.
pub open spec fn weight1(t: int, s: int) -> int {
    3 * ((s - t) * (s - t)) * t
}

/// Weight of the third control point at parameter `t / s`:
/// `3 (1 - t) t^2`.
pub open spec fn weight2(t: int, s: int) -> int {
    3 * (s - t) * (t * t)
}

/// Weight of the last control point at parameter `t / s`: `t^3`.
pub open spec fn weight3(t: int, s: int) -> int {
    t * t * t
}

/// The cubic Bezier blend of four control coordinates at parameter
/// `t / s`, multiplied by `s` cubed. The parameter is not confined to the
/// unit interval: outside it the same polynomial is evaluated.
pub open spec fn bezier_numerator(c0: int, c1: int, c2: int, c3: int, t: int, s: int) -> int {
    weight0(t, s) * c0 + weight1(t, s) * c1 + weight2(t, s) * c2 + weight3(t, s) * c3
}

/// At every parameter the four weights sum to the scale cubed, and the
/// weights of the control points, counted by their place in the row, sum to
/// three times the parameter times the scale squared.
pub proof fn lemma_weights(t: int, s: int)
    ensures
        weight0(t, s) + weight1(t, s) + weight2(t, s) + weight3(t, s) == s * s * s,
        weight1(t, s) + 2 * weight2(t, s) + 3 * weight3(t, s) == 3 * t * (s * s),
{
    let u = s - t;
    assert(u * u * u + 3 * (u * u) * t + 3 * u * (t * t) + t * t * t == (u + t) * (u + t) * (u
        + t)) by (nonlinear_arith);
    assert(3 * (u * u) * t + 2 * (3 * u * (t * t)) + 3 * (t * t * t) == 3 * t * ((u + t) * (u
        + t))) by (nonlinear_arith);
}

/// A blend of the coordinates `3a`, `2a + b`, `a + 2b` and `3b`, regrouped
/// by what multiplies `a` and what multiplies `b - a`.
proof fn lemma_blend_regrouped(w0: int, w1: int, w2: int, w3: int, a: int, b: int)
    ensures
        w0 * (3 * a) + w1 * (2 * a + b) + w2 * (a + 2 * b) + w3 * (3 * b) == 3 * ((w0 + w1 + w2
            + w3) * a) + (w1 + 2 * w2 + 3 * w3) * (b - a),
{
    assert(w0 * (3 * a) == 3 * (w0 * a)) by (nonlinear_arith);
    assert(w1 * (2 * a + b) == 2 * (w1 * a) + w1 * b) by (nonlinear_arith);
    assert(w2 * (a + 2 * b) == w2 * a + 2 * (w2 * b)) by (nonlinear_arith);
    assert(w3 * (3 * b) == 3 * (w3 * b)) by (nonlinear_arith);
    assert((w0 + w1 + w2 + w3) * a == w0 * a + w1 * a + w2 * a + w3 * a) by (nonlinear_arith);
    let m = w1 + 2 * w2 + 3 * w3;
    assert(m * (b - a) == m * b - m * a) by (nonlinear_arith);
    assert(m * b == w1 * b + 2 * (w2 * b) + 3 * (w3 * b)) by (nonlinear_arith)
        requires
            m == w1 + 2 * w2 + 3 * w3,
    ;
    assert(m * a == w1 * a + 2 * (w2 * a) + 3 * (w3 * a)) by (nonlinear_arith)
        requires
            m == w1 + 2 * w2 + 3 * w3,
    ;
}

/// The blend of the flattened cubic from `a` to `b`, whose control
/// coordinates in thirds are `3a`, `2a + b`, `a + 2b` and `3b`, is the
/// straight line from `a` to `b`: at parameter `t / s` its numerator is
/// `(s - t) a + t b`, times three times the scale squared.
pub proof fn lemma_flattened_numerator(a: int, b: int, t: int, s: int)
    ensures
        bezier_numerator(3 * a, 2 * a + b, a + 2 * b, 3 * b, t, s) == (3 * (s * s)) * ((s - t) * a
            + t * b),
{
    let w0 = weight0(t, s);
    let w1 = weight1(t, s);
    let w2 = weight2(t, s);
    let w3 = weight3(t, s);
    let ss = s * s;
    lemma_weights(t, s);
    lemma_blend_regrouped(w0, w1, w2, w3, a, b);
    assert(3 * ((s * ss) * a) + (3 * t * ss) * (b - a) == (3 * ss) * ((s - t) * a + t * b))
        by (nonlinear_arith);
    assert(s * s * s == s * ss) by (nonlinear_arith)
        requires
            ss == s * s,
    ;
}

/// At parameter zero the blend is the first control coordinate, and at
/// parameter one it is the last, each times the scale cubed.
pub proof fn lemma_bezier_ends(c0: int, c1: int, c2: int, c3: int, s: int)
    ensures
        bezier_numerator(c0, c1, c2, c3, 0, s) == (s * s * s) * c0,
        bezier_numerator(c0, c1, c2, c3, s, s) == (s * s * s) * c3,
{
    assert(weight0(0, s) == s * s * s && weight1(0, s) == 0 && weight2(0, s) == 0 && weight3(0, s)
        == 0) by (nonlinear_arith);
    assert(weight0(s, s) == 0 && weight1(s, s) == 0 && weight2(s, s) == 0 && weight3(s, s) == s
        * s * s) by (nonlinear_arith);
    assert(0 * c1 == 0 && 0 * c2 == 0 && 0 * c3 == 0 && 0 * c0 == 0);
}

} // verus!
