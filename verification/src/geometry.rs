//! Points and the resizing of vectors.
//!
//! A vector is resized by multiplying each component with the wanted length
//! and dividing by the present one. Both lengths are measured in `FINE`-ths
//! of a step, so that a vector a few steps long keeps its direction.

use crate::fixed::{
    floor_sqrt, isqrt, lemma_floor_sqrt, lemma_square_order, lemma_trunc_div_exact, magnitude,
    quotient, trunc_div, FINE,
};
use vstd::prelude::*;

verus! {

/// A planar position, in steps.
#[derive(Debug, Clone, Copy, PartialEq, Eq, Structural)]
pub struct Point2 {
    pub x: i64,
    pub y: i64,
}

/// A spatial position, in steps.
#[derive(Debug, Clone, Copy, PartialEq, Eq, Structural)]
pub struct Point3 {
    pub x: i64,
    pub y: i64,
    pub z: i64,
}

/// The greatest magnitude of a component that `fine_length_of` and
/// `rescale_to` take.
pub const SPAN: i64 = 0x8000_0000_0000;

/// The greatest magnitude of a length, in `FINE`-ths, that `rescale_to` takes.
pub const FINE_SPAN: i64 = 0x1_0000_0000_0000;

/// The length of the vector `(x, y)` in `FINE`-ths of a step, rounded down.
pub open spec fn fine_length(x: int, y: int) -> int {
    floor_sqrt((x * x + y * y) * (FINE * FINE))
}

/// Component `c` of a vector of fine length `from`, once the vector is
/// resized to fine length `to`; zero for a vector without length.
pub open spec fn rescale(c: int, to: int, from: int) -> int {
    if from == 0 {
        0
    } else {
        trunc_div(c * to, from)
    }
}

/// A vector's fine length is not less than `FINE` times the magnitude of
/// either component, and it is zero only for the zero vector.
pub proof fn lemma_fine_length_covers(x: int, y: int)
    ensures
        fine_length(x, y) >= 0,
        magnitude(x) * FINE <= fine_length(x, y),
        magnitude(y) * FINE <= fine_length(x, y),
        fine_length(x, y) == 0 <==> (x == 0 && y == 0),
{
    let n = (x * x + y * y) * (FINE * FINE);
    assert(x * x >= 0 && y * y >= 0) by (nonlinear_arith);
    assert(n >= 0) by (nonlinear_arith)
        requires
            n == (x * x + y * y) * (FINE * FINE),
            x * x >= 0,
            y * y >= 0,
    ;
    lemma_floor_sqrt(n, 0);
    let len = floor_sqrt(n);
    let mx = magnitude(x) * FINE;
    let my = magnitude(y) * FINE;
    assert(mx * mx == (x * x) * (FINE * FINE)) by (nonlinear_arith)
        requires
            mx == magnitude(x) * FINE,
            magnitude(x) == x || magnitude(x) == -x,
    ;
    assert(my * my == (y * y) * (FINE * FINE)) by (nonlinear_arith)
        requires
            my == magnitude(y) * FINE,
            magnitude(y) == y || magnitude(y) == -y,
    ;
    assert(mx * mx <= n && my * my <= n) by (nonlinear_arith)
        requires
            mx * mx == (x * x) * (FINE * FINE),
            my * my == (y * y) * (FINE * FINE),
            n == (x * x + y * y) * (FINE * FINE),
            x * x >= 0,
            y * y >= 0,
    ;
    lemma_square_order(mx, len + 1);
    lemma_square_order(my, len + 1);
    if x == 0 && y == 0 {
        assert(n == 0);
        assert(len * len <= 0);
        assert(len == 0) by (nonlinear_arith)
            requires
                len >= 0,
                len * len <= 0,
        ;
    }
}

/// A resized component is no longer than the wanted length in whole steps.
pub proof fn lemma_rescale_bound(c: int, to: int, from: int)
    requires
        magnitude(c) * FINE <= from,
    ensures
        magnitude(rescale(c, to, from)) <= magnitude(to) / (FINE as int),
{
    if from != 0 {
        let a = magnitude(c);
        let t = magnitude(to);
        let m = t / (FINE as int);
        assert(magnitude(c * to) == a * t) by (nonlinear_arith)
            requires
                a == magnitude(c),
                t == magnitude(to),
                a == c || a == -c,
                t == to || t == -to,
                a >= 0,
                t >= 0,
        ;
        assert(magnitude(trunc_div(c * to, from)) == (a * t) / from) by {
            vstd::arithmetic::div_mod::lemma_div_pos_is_pos(a * t, from);
            assert(a * t >= 0) by (nonlinear_arith)
                requires
                    a >= 0,
                    t >= 0,
            ;
        }
        vstd::arithmetic::div_mod::lemma_fundamental_div_mod(t, FINE as int);
        vstd::arithmetic::div_mod::lemma_mod_bound(t, FINE as int);
        assert(t < (m + 1) * FINE) by (nonlinear_arith)
            requires
                t == FINE * m + t % (FINE as int),
                t % (FINE as int) < FINE,
        ;
        assert(a * t < from * (m + 1)) by (nonlinear_arith)
            requires
                a * FINE <= from,
                t < (m + 1) * FINE,
                a >= 0,
                t >= 0,
                m >= 0,
                from > 0,
                FINE == 65536,
        ;
        vstd::arithmetic::div_mod::lemma_multiply_divide_lt(a * t, from, m + 1);
    } else {
        vstd::arithmetic::div_mod::lemma_div_pos_is_pos(magnitude(to), FINE as int);
    }
}

/// The magnitude of a resized component is the quotient of the magnitudes.
pub proof fn lemma_rescale_magnitude(c: int, to: int, from: int)
    requires
        from > 0,
    ensures
        magnitude(rescale(c, to, from)) == (magnitude(c) * magnitude(to)) / from,
        magnitude(c) * magnitude(to) >= 0,
{
    let a = magnitude(c);
    let t = magnitude(to);
    assert(magnitude(c * to) == a * t) by (nonlinear_arith)
        requires
            a == magnitude(c),
            t == magnitude(to),
            a == c || a == -c,
            t == to || t == -to,
            a >= 0,
            t >= 0,
    ;
    assert(a * t >= 0) by (nonlinear_arith)
        requires
            a >= 0,
            t >= 0,
    ;
    vstd::arithmetic::div_mod::lemma_div_pos_is_pos(a * t, from);
}

/// `u * u <= v * v` for `0 <= u <= v`, and strictly so for `u < v`.
proof fn lemma_squares(u: int, v: int)
    requires
        0 <= u <= v,
    ensures
        u * u <= v * v,
        u < v ==> u * u < v * v,
{
    assert(u * u <= v * v) by (nonlinear_arith)
        requires
            0 <= u <= v,
    ;
    if u < v {
        assert(u * u < v * v) by (nonlinear_arith)
            requires
                0 <= u < v,
        ;
    }
}

/// A factor that is positive can be taken off both sides.
proof fn lemma_cancel(a: int, b: int, f: int)
    requires
        f > 0,
    ensures
        a * f <= b * f ==> a <= b,
        a * f < b * f ==> a < b,
{
    if a * f <= b * f && a > b {
        assert(a * f > b * f) by (nonlinear_arith)
            requires
                a > b,
                f > 0,
        ;
    }
    if a * f < b * f && a >= b {
        assert(a * f >= b * f) by (nonlinear_arith)
            requires
                a >= b,
                f > 0,
        ;
    }
}

/// A vector that is resized to the fine length `to` is about that long: its
/// length in steps is no more than `to / FINE` and a part in `FINE` of it,
/// and it falls short of `to / FINE` by less than a step along each axis.
///
/// With `rx` and `ry` the resized components, the first says
/// `(rx^2 + ry^2) * FINE^4 <= (FINE + 1)^2 * to^2`, and the second
/// `((|rx| + 1)^2 + (|ry| + 1)^2) * FINE^2 > to^2`.
pub proof fn lemma_rescale_keeps_length(x: int, y: int, to: int)
    requires
        x != 0 || y != 0,
        to >= 0,
    ensures
        ({
            let from = fine_length(x, y);
            let rx = rescale(x, to, from);
            let ry = rescale(y, to, from);
            let up_x = magnitude(rx) + 1;
            let up_y = magnitude(ry) + 1;
            &&& (rx * rx + ry * ry) * (FINE * FINE * FINE * FINE) <= ((FINE + 1) * (FINE + 1)) * (to
                * to)
            &&& (up_x * up_x + up_y * up_y) * (FINE * FINE) > to * to
        }),
{
    let a = magnitude(x);
    let b = magnitude(y);
    let f2: int = FINE * FINE;
    let squares = a * a + b * b;
    let n = (x * x + y * y) * f2;
    let from = fine_length(x, y);
    lemma_fine_length_covers(x, y);
    assert(a * a == x * x && b * b == y * y) by (nonlinear_arith)
        requires
            a == x || a == -x,
            b == y || b == -y,
    ;
    assert(squares >= 1) by (nonlinear_arith)
        requires
            squares == a * a + b * b,
            a >= 0,
            b >= 0,
            a >= 1 || b >= 1,
    ;
    assert(n == squares * f2);
    assert(n >= 0) by (nonlinear_arith)
        requires
            n == squares * f2,
            squares >= 1,
            f2 == 65536 * 65536,
    ;
    lemma_floor_sqrt(n, 0);
    assert(from * from <= n && n < (from + 1) * (from + 1));
    assert(from >= FINE) by {
        if a >= 1 {
            assert(a * FINE >= FINE) by (nonlinear_arith)
                requires
                    a >= 1,
                    FINE == 65536,
            ;
        } else {
            assert(b * FINE >= FINE) by (nonlinear_arith)
                requires
                    b >= 1,
                    FINE == 65536,
            ;
        }
    }
    lemma_rescale_magnitude(x, to, from);
    lemma_rescale_magnitude(y, to, from);
    let at = a * to;
    let bt = b * to;
    let qx = at / from;
    let qy = bt / from;
    let rx = rescale(x, to, from);
    let ry = rescale(y, to, from);
    assert(magnitude(rx) == qx && magnitude(ry) == qy);
    assert(rx * rx == qx * qx && ry * ry == qy * qy) by (nonlinear_arith)
        requires
            qx == rx || qx == -rx,
            qy == ry || qy == -ry,
    ;
    vstd::arithmetic::div_mod::lemma_fundamental_div_mod(at, from);
    vstd::arithmetic::div_mod::lemma_fundamental_div_mod(bt, from);
    vstd::arithmetic::div_mod::lemma_mod_bound(at, from);
    vstd::arithmetic::div_mod::lemma_mod_bound(bt, from);
    let lo_x = qx * from;
    let lo_y = qy * from;
    let hi_x = (qx + 1) * from;
    let hi_y = (qy + 1) * from;
    assert(lo_x <= at < hi_x && lo_y <= bt < hi_y) by (nonlinear_arith)
        requires
            at == from * qx + at % from,
            bt == from * qy + bt % from,
            0 <= at % from < from,
            0 <= bt % from < from,
            lo_x == qx * from,
            lo_y == qy * from,
            hi_x == (qx + 1) * from,
            hi_y == (qy + 1) * from,
    ;
    vstd::arithmetic::div_mod::lemma_div_pos_is_pos(at, from);
    vstd::arithmetic::div_mod::lemma_div_pos_is_pos(bt, from);
    assert(lo_x >= 0 && lo_y >= 0) by (nonlinear_arith)
        requires
            lo_x == qx * from,
            lo_y == qy * from,
            qx >= 0,
            qy >= 0,
            from > 0,
    ;
    lemma_squares(lo_x, at);
    lemma_squares(lo_y, bt);
    lemma_squares(at, hi_x);
    lemma_squares(bt, hi_y);
    let ff = from * from;
    let tt = to * to;
    let s = qx * qx + qy * qy;
    let up = (qx + 1) * (qx + 1) + (qy + 1) * (qy + 1);
    assert(lo_x * lo_x + lo_y * lo_y == s * ff) by (nonlinear_arith)
        requires
            lo_x == qx * from,
            lo_y == qy * from,
            s == qx * qx + qy * qy,
            ff == from * from,
    ;
    assert(hi_x * hi_x + hi_y * hi_y == up * ff) by (nonlinear_arith)
        requires
            hi_x == (qx + 1) * from,
            hi_y == (qy + 1) * from,
            up == (qx + 1) * (qx + 1) + (qy + 1) * (qy + 1),
            ff == from * from,
    ;
    assert(at * at + bt * bt == squares * tt) by (nonlinear_arith)
        requires
            at == a * to,
            bt == b * to,
            squares == a * a + b * b,
            tt == to * to,
    ;
    assert(s * ff <= squares * tt);
    assert(squares * tt < up * ff);
    assert(tt >= 0 && ff > 0 && up >= 2 && s >= 0) by (nonlinear_arith)
        requires
            tt == to * to,
            ff == from * from,
            from > 0,
            up == (qx + 1) * (qx + 1) + (qy + 1) * (qy + 1),
            s == qx * qx + qy * qy,
            qx >= 0,
            qy >= 0,
    ;
    // the resized vector is not too short
    assert(up * ff <= up * n) by (nonlinear_arith)
        requires
            ff <= n,
            up >= 0,
    ;
    assert(up * n == (up * f2) * squares) by (nonlinear_arith)
        requires
            n == squares * f2,
    ;
    assert(tt * squares < (up * f2) * squares) by (nonlinear_arith)
        requires
            squares * tt < up * ff,
            up * ff <= up * n,
            up * n == (up * f2) * squares,
    ;
    lemma_cancel(tt, up * f2, squares);
    // the resized vector is not too long
    let g = (from + 1) * (from + 1);
    assert((s * ff) * f2 <= (squares * tt) * f2) by (nonlinear_arith)
        requires
            s * ff <= squares * tt,
            f2 >= 0,
    ;
    assert((squares * tt) * f2 == n * tt) by (nonlinear_arith)
        requires
            n == squares * f2,
    ;
    assert(n * tt <= g * tt) by (nonlinear_arith)
        requires
            n < g,
            tt >= 0,
    ;
    let wide = (FINE + 1) * (FINE + 1);
    let u = (from + 1) * FINE;
    let v = (FINE + 1) * from;
    assert(0 <= u <= v) by (nonlinear_arith)
        requires
            u == (from + 1) * FINE,
            v == (FINE + 1) * from,
            from >= FINE,
            FINE == 65536,
    ;
    lemma_squares(u, v);
    assert(u * u == g * f2 && v * v == wide * ff) by (nonlinear_arith)
        requires
            u == (from + 1) * FINE,
            v == (FINE + 1) * from,
            g == (from + 1) * (from + 1),
            f2 == FINE * FINE,
            wide == (FINE + 1) * (FINE + 1),
            ff == from * from,
    ;
    assert(((s * f2) * f2) * ff == ((s * ff) * f2) * f2) by (nonlinear_arith);
    assert(((s * ff) * f2) * f2 <= (g * tt) * f2) by (nonlinear_arith)
        requires
            (s * ff) * f2 <= (squares * tt) * f2,
            (squares * tt) * f2 == n * tt,
            n * tt <= g * tt,
            f2 >= 0,
    ;
    assert((g * tt) * f2 == (g * f2) * tt) by (nonlinear_arith);
    assert((g * f2) * tt <= (wide * ff) * tt) by (nonlinear_arith)
        requires
            g * f2 <= wide * ff,
            tt >= 0,
    ;
    assert((wide * ff) * tt == (wide * tt) * ff) by (nonlinear_arith);
    lemma_cancel((s * f2) * f2, wide * tt, ff);
    assert((s * f2) * f2 == (rx * rx + ry * ry) * (FINE * FINE * FINE * FINE)) by (nonlinear_arith)
        requires
            s == rx * rx + ry * ry,
            f2 == FINE * FINE,
    ;
}

/// A vector resized to its own length is unchanged.
pub proof fn lemma_rescale_same(c: int, len: int)
    requires
        len > 0,
    ensures
        rescale(c, len, len) == c,
{
    lemma_trunc_div_exact(c, len);
}

/// The magnitude of `c`.
fn magnitude_of(c: i64) -> (m: u128)
    requires
        c > i64::MIN,
    ensures
        m == magnitude(c as int),
{
    if c < 0 {
        (-c) as u128
    } else {
        c as u128
    }
}

/// The length of the vector `(x, y)` in `FINE`-ths of a step, rounded down.
pub fn fine_length_of(x: i64, y: i64) -> (len: u64)
    requires
        -SPAN <= x <= SPAN,
        -SPAN <= y <= SPAN,
    ensures
        len == fine_length(x as int, y as int),
{
    let ax: u128 = magnitude_of(x);
    let ay: u128 = magnitude_of(y);
    assert(ax * ax == x * x && ay * ay == y * y) by (nonlinear_arith)
        requires
            ax == x || ax == -x,
            ay == y || ay == -y,
    ;
    assert(ax * ax <= 0x8000_0000_0000 * 0x8000_0000_0000 && ay * ay <= 0x8000_0000_0000
        * 0x8000_0000_0000) by (nonlinear_arith)
        requires
            0 <= ax <= 0x8000_0000_0000,
            0 <= ay <= 0x8000_0000_0000,
    ;
    let squares: u128 = ax * ax + ay * ay;
    assert(FINE * FINE == 0x1_0000_0000);
    assert(squares * 0x1_0000_0000 <= 0x8000_0000_0000_0000_0000_0000_0000_0000) by (nonlinear_arith)
        requires
            squares <= 2 * (0x8000_0000_0000 * 0x8000_0000_0000),
    ;
    isqrt(squares * 0x1_0000_0000)
}

/// Component `c` of a vector of fine length `from`, once the vector is
/// resized to fine length `to`; zero for a vector without length.
pub fn rescale_to(c: i64, to: i64, from: u64) -> (r: i64)
    requires
        -SPAN <= c <= SPAN,
        -FINE_SPAN <= to <= FINE_SPAN,
        magnitude(c as int) * FINE <= from,
    ensures
        r == rescale(c as int, to as int, from as int),
        magnitude(r as int) <= magnitude(to as int) / (FINE as int),
{
    proof {
        lemma_rescale_bound(c as int, to as int, from as int);
    }
    if from == 0 {
        0
    } else {
        assert(-0x8000_0000_0000 * 0x1_0000_0000_0000 <= c * to <= 0x8000_0000_0000
            * 0x1_0000_0000_0000) by (nonlinear_arith)
            requires
                -0x8000_0000_0000 <= c <= 0x8000_0000_0000,
                -0x1_0000_0000_0000 <= to <= 0x1_0000_0000_0000,
        ;
        let q: i128 = quotient((c as i128) * (to as i128), from as i128);
        q as i64
    }
}

} // verus!
