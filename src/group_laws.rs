//! Laws of the group of curve points, stated over `point_sum`, the meaning
//! of `+` on points.

use vstd::prelude::*;
use vstd::std_specs::cmp::PartialEqSpec;
use crate::point::Point;
use crate::point::by_line;
use crate::point::finite;
use crate::point::infinity;
use crate::point::on_curve;
use crate::point::point_sum;
use crate::point::slope;
use crate::point::sum_fits;
use crate::point::sum_x;
use crate::point::sum_y;
use crate::point::trunc_div;

verus! {

/// The slope of the line that adds `p` and `q` is exact: it meets both
/// points, or is the true tangent, without any rounding.
pub open spec fn exact_slope(p: Point, q: Point) -> bool {
    by_line(p, q) ==> if p.x != q.x {
        slope(p, q) * (q.px() - p.px()) == q.py() - p.py()
    } else {
        slope(p, q) * (2 * p.py()) == 3 * p.px() * p.px() + p.a
    }
}

/// The point at infinity is the identity on either side.
pub proof fn lemma_identity(p: Point)
    requires
        p.well_formed(),
    ensures
        point_sum(infinity(p.a, p.b), p) == p,
        point_sum(p, infinity(p.a, p.b)) == p,
{
}

/// A finite point `(x, y)` and `(x, -y)` add to the point at infinity.
pub proof fn lemma_inverse(p: Point)
    requires
        p.is_finite(),
        p.y->Value_0 > i32::MIN,
    ensures
        point_sum(p, finite(p.x->Value_0, (-p.y->Value_0) as i32, p.a, p.b)) == infinity(p.a, p.b),
{
}

proof fn lemma_trunc_div_neg(n: int, d: int)
    requires
        d != 0,
    ensures
        trunc_div(-n, -d) == trunc_div(n, d),
{
}

/// Addition commutes wherever a chord through two points with distinct x
/// coordinates has an exact slope; with a rounded slope the two orders
/// reflect the sum through different points.
pub proof fn lemma_commutative(p: Point, q: Point)
    requires
        p.well_formed(),
        q.well_formed(),
        p.same_curve(q),
        p.is_finite() && q.is_finite() && p.x != q.x ==> exact_slope(p, q),
    ensures
        point_sum(p, q) == point_sum(q, p),
{
    if p.is_finite() && q.is_finite() && p.x != q.x {
        let (px, py, qx, qy) = (p.px(), p.py(), q.px(), q.py());
        lemma_trunc_div_neg(qy - py, qx - px);
        assert(-(qy - py) == py - qy);
        assert(-(qx - px) == px - qx);
        let s = slope(p, q);
        assert(slope(q, p) == s);
        assert(sum_x(p, q) == sum_x(q, p));
        let x = sum_x(p, q);
        assert(s * (px - x) - py == s * (qx - x) - qy) by (nonlinear_arith)
            requires
                s * (qx - px) == qy - py,
        ;
        assert(sum_y(p, q) == sum_y(q, p));
    }
    if p.is_finite() && q.is_finite() && p.x == q.x && p.y == q.y {
        assert(p == q);
    }
}

proof fn lemma_cube_of_sum(p: int, u: int)
    ensures
        (p + u) * (p + u) * (p + u) == p * p * p + u * (3 * p * p + 3 * p * u + u * u),
{
    let sq = (p + u) * (p + u);
    assert(sq == p * p + 2 * p * u + u * u) by (nonlinear_arith)
        requires
            sq == (p + u) * (p + u),
    ;
    assert(sq * (p + u) == p * p * p + u * (3 * p * p + 3 * p * u + u * u)) by (nonlinear_arith)
        requires
            sq == p * p + 2 * p * u + u * u,
    ;
}

proof fn lemma_cancel(d: int, m: int, n: int)
    requires
        d != 0,
        d * m == d * n,
    ensures
        m == n,
{
    assert(m == n) by (nonlinear_arith)
        requires
            d != 0,
            d * m == d * n,
    ;
}

/// The key relation of the closure proof: the line of slope `s` through
/// `(px, py)` meets the curve again at `x = px + u`, where `s^2 = u + 3*px + d`,
/// provided `d*u + 2*s*py = 3*px^2 + a`.
proof fn lemma_line_meets_curve(px: int, py: int, s: int, a: int, b: int, d: int, u: int)
    requires
        py * py == px * px * px + a * px + b,
        d * u + 2 * s * py == 3 * px * px + a,
        s * s == u + 3 * px + d,
    ensures
        (s * u + py) * (s * u + py) == (px + u) * (px + u) * (px + u) + a * (px + u) + b,
{
    let ss = s * s;
    assert(ss * u == u * u + 3 * px * u + d * u) by (nonlinear_arith)
        requires
            ss == u + 3 * px + d,
    ;
    // k: the slope relation, multiplied through by u
    let k = 3 * px * px + 3 * px * u + u * u + a;
    assert(ss * u + 2 * s * py == k);
    let w = s * u;
    assert((w + py) * (w + py) == w * w + 2 * w * py + py * py) by (nonlinear_arith);
    assert(w * w + 2 * w * py == u * (ss * u + 2 * s * py)) by (nonlinear_arith)
        requires
            w == s * u,
            ss == s * s,
    ;
    assert(u * (ss * u + 2 * s * py) == u * k) by (nonlinear_arith)
        requires
            ss * u + 2 * s * py == k,
    ;
    assert(u * k == u * (3 * px * px + 3 * px * u + u * u) + a * u) by (nonlinear_arith)
        requires
            k == 3 * px * px + 3 * px * u + u * u + a,
    ;
    assert(a * (px + u) == a * px + a * u) by (nonlinear_arith);
    lemma_cube_of_sum(px, u);
}

/// Through two points of a curve with distinct x coordinates, an exact
/// chord slope `s` meets the relation that `lemma_line_meets_curve` needs.
proof fn lemma_chord_relation(px: int, py: int, qx: int, qy: int, s: int, a: int, b: int)
    requires
        py * py == px * px * px + a * px + b,
        qy * qy == qx * qx * qx + a * qx + b,
        px != qx,
        s * (qx - px) == qy - py,
    ensures
        (qx - px) * (s * s - px - qx - px) + 2 * s * py == 3 * px * px + a,
{
    let d = qx - px;
    let u = s * s - px - qx - px;
    let w = s * d;
    let z = w + 2 * py;
    assert(qy * qy - py * py == w * z) by (nonlinear_arith)
        requires
            qy == py + w,
            z == w + 2 * py,
    ;
    lemma_cube_of_sum(px, d);
    assert(a * qx - a * px == a * d) by (nonlinear_arith)
        requires
            d == qx - px,
    ;
    assert(w * z == d * (3 * px * px + 3 * px * d + d * d + a)) by (nonlinear_arith)
        requires
            w * z == qx * qx * qx - px * px * px + a * d,
            qx * qx * qx == (px + d) * (px + d) * (px + d),
            (px + d) * (px + d) * (px + d) == px * px * px + d * (3 * px * px + 3 * px * d + d
                * d),
    ;
    assert(w * z == d * (s * z)) by (nonlinear_arith)
        requires
            w == s * d,
    ;
    lemma_cancel(d, s * z, 3 * px * px + 3 * px * d + d * d + a);
    assert(s * z == s * s * d + 2 * s * py) by (nonlinear_arith)
        requires
            z == s * d + 2 * py,
    ;
    assert(s * s * d == u * d + 3 * px * d + d * d) by (nonlinear_arith)
        requires
            u == s * s - px - qx - px,
            d == qx - px,
    ;
    assert(d * u == u * d) by (nonlinear_arith);
}

/// The sum of two valid points of one curve is the point at infinity or a
/// point of that curve, wherever the slope of the line that adds them is
/// exact and the sum's coordinates fit in an `i32`.
pub proof fn lemma_closure(p: Point, q: Point)
    requires
        p.valid(),
        q.valid(),
        p.same_curve(q),
        sum_fits(p, q),
        exact_slope(p, q),
    ensures
        point_sum(p, q).valid(),
        point_sum(p, q).same_curve(p),
{
    if by_line(p, q) {
        let (px, py, qx, qy) = (p.px(), p.py(), q.px(), q.py());
        let (a, b) = (p.a as int, p.b as int);
        let s = slope(p, q);
        let d = qx - px;
        let x = sum_x(p, q);
        let y = sum_y(p, q);
        let u = x - px;
        if p.x != q.x {
            lemma_chord_relation(px, py, qx, qy, s, a, b);
        } else {
            assert(d * u == 0) by (nonlinear_arith)
                requires
                    d == 0,
            ;
            assert(s * (2 * py) == 2 * s * py) by (nonlinear_arith);
        }
        assert(d * u + 2 * s * py == 3 * px * px + a);
        lemma_line_meets_curve(px, py, s, a, b, d, u);
        assert(y == -(s * u + py)) by (nonlinear_arith)
            requires
                y == s * (px - x) - py,
                u == x - px,
        ;
        assert(y * y == (s * u + py) * (s * u + py)) by (nonlinear_arith)
            requires
                y == -(s * u + py),
        ;
        assert(x * x * x == (px + u) * (px + u) * (px + u)) by (nonlinear_arith)
            requires
                x == px + u,
        ;
        assert(on_curve(x, y, a, b));
    }
}

/// Associativity where one of the three points is the point at infinity
/// of their curve.
pub proof fn lemma_associative_with_infinity(p: Point, q: Point, r: Point)
    requires
        p.well_formed(),
        q.well_formed(),
        r.well_formed(),
        p.same_curve(q),
        q.same_curve(r),
        p.is_infinity() || q.is_infinity() || r.is_infinity(),
    ensures
        point_sum(point_sum(p, q), r) == point_sum(p, point_sum(q, r)),
{
}

/// Equality of points, the four components compared, is reflexive,
/// symmetric and transitive.
pub proof fn lemma_equality_equivalence(p: Point, q: Point, r: Point)
    ensures
        p.eq_spec(&p),
        p.eq_spec(&q) == q.eq_spec(&p),
        p.eq_spec(&q) && q.eq_spec(&r) ==> p.eq_spec(&r),
{
}

} // verus!
