//! Points on the curve `y^2 = x^3 + a*x + b` and the group law.

use vstd::prelude::*;
use vstd::arithmetic::power::pow;
use vstd::string::StringExecFns;
use crate::curve_element::CurveElement;
use crate::curve_element::int_text;
use crate::curve_element::push_int;

verus! {

/// Whether `(x, y)` solves `y^2 = x^3 + a*x + b` in exact integer arithmetic.
pub open spec fn on_curve(x: int, y: int, a: int, b: int) -> bool {
    y * y == x * x * x + a * x + b
}

/// The absolute value of an integer.
pub open spec fn abs(n: int) -> int {
    if n < 0 {
        -n
    } else {
        n
    }
}

/// Division that rounds toward zero, as integer division does on machine integers.
pub open spec fn trunc_div(n: int, d: int) -> int {
    if n >= 0 && d > 0 {
        n / d
    } else if n < 0 && d < 0 {
        (-n) / (-d)
    } else if n >= 0 {
        -(n / (-d))
    } else {
        -((-n) / d)
    }
}

/// The slope of the chord through `(px, py)` and `(qx, qy)`.
pub open spec fn chord_slope(px: int, py: int, qx: int, qy: int) -> int {
    trunc_div(qy - py, qx - px)
}

/// The slope of the tangent at `(px, py)` on a curve with coefficient `a`.
pub open spec fn tangent_slope(px: int, py: int, a: int) -> int {
    trunc_div(3 * px * px + a, 2 * py)
}

/// The x coordinate of the sum, for a line of slope `s` through points with
/// x coordinates `px` and `qx`.
pub open spec fn third_x(s: int, px: int, qx: int) -> int {
    s * s - px - qx
}

/// The y coordinate of the sum, for a line of slope `s` through `(px, py)`
/// whose sum has x coordinate `rx`.
pub open spec fn third_y(s: int, px: int, py: int, rx: int) -> int {
    s * (px - rx) - py
}

/// Why a pair of coordinates is no point of a curve.
#[derive(Debug, Clone, Copy, PartialEq, Eq, Structural)]
pub enum PointError {
    /// `(x, y)` does not solve `y^2 = x^3 + a*x + b`; holds `x`, `y`, `a`, `b`.
    NotOnCurve(i32, i32, i32, i32),
    /// Exactly one of the two coordinates is absent.
    InvalidPoint,
}

/// A point `(x, y)` of the curve `y^2 = x^3 + a*x + b`, or the point at
/// infinity of that curve when both coordinates are absent.
#[derive(Debug, Clone, Copy)]
pub struct Point {
    pub x: CurveElement,
    pub y: CurveElement,
    pub a: i32,
    pub b: i32,
}

/// The point at infinity of the curve `(a, b)`.
pub open spec fn infinity(a: i32, b: i32) -> Point {
    Point { x: CurveElement::Absent, y: CurveElement::Absent, a, b }
}

/// The finite point `(x, y)` of the curve `(a, b)`.
pub open spec fn finite(x: i32, y: i32, a: i32, b: i32) -> Point {
    Point { x: CurveElement::Value(x), y: CurveElement::Value(y), a, b }
}

impl Point {
    /// Whether this is the point at infinity.
    pub open spec fn is_infinity(self) -> bool {
        self.x is Absent && self.y is Absent
    }

    /// Whether both coordinates are present.
    pub open spec fn is_finite(self) -> bool {
        self.x is Value && self.y is Value
    }

    /// Both coordinates are present, or both are absent.
    pub open spec fn well_formed(self) -> bool {
        self.is_infinity() || self.is_finite()
    }

    /// The point at infinity, or a finite point that lies on its curve.
    pub open spec fn valid(self) -> bool {
        self.is_infinity() || (self.is_finite() && on_curve(
            self.x->Value_0 as int,
            self.y->Value_0 as int,
            self.a as int,
            self.b as int,
        ))
    }

    /// Both points belong to the same curve.
    pub open spec fn same_curve(self, other: Point) -> bool {
        self.a == other.a && self.b == other.b
    }

    /// The x coordinate of a finite point.
    pub open spec fn px(self) -> int {
        self.x->Value_0 as int
    }

    /// The y coordinate of a finite point.
    pub open spec fn py(self) -> int {
        self.y->Value_0 as int
    }

    /// The text `Point(<x>,<y>)_<a>_<b>`.
    pub open spec fn text(self) -> Seq<char> {
        seq!['P', 'o', 'i', 'n', 't', '('] + self.x.text() + seq![','] + self.y.text() + seq![
            ')',
            '_',
        ] + int_text(self.a as int) + seq!['_'] + int_text(self.b as int)
    }
}

/// The slope of the line that adds two finite points: the chord when their
/// x coordinates differ, else the tangent at the first.
pub open spec fn slope(p: Point, q: Point) -> int {
    if p.x != q.x {
        chord_slope(p.px(), p.py(), q.px(), q.py())
    } else {
        tangent_slope(p.px(), p.py(), p.a as int)
    }
}

/// The x coordinate of the sum of two finite points by the chord or tangent rule.
pub open spec fn sum_x(p: Point, q: Point) -> int {
    third_x(slope(p, q), p.px(), q.px())
}

/// The y coordinate of the sum of two finite points by the chord or tangent rule.
pub open spec fn sum_y(p: Point, q: Point) -> int {
    third_y(slope(p, q), p.px(), p.py(), sum_x(p, q))
}

/// Whether the sum of `p` and `q` is found by the chord or the tangent rule:
/// both are finite, and they are neither mutual inverses nor one point with
/// a vertical tangent.
pub open spec fn by_line(p: Point, q: Point) -> bool {
    &&& p.x is Value
    &&& q.x is Value
    &&& !(p.x == q.x && p.y != q.y)
    &&& !(p.x == q.x && p.py() == 0)
}

/// The group law, case by case in order: the point at infinity is the
/// identity; two points on a vertical line add to infinity; distinct x
/// coordinates take the chord; a point with `y = 0` doubles to infinity;
/// otherwise a point doubles along its tangent.
pub open spec fn point_sum(p: Point, q: Point) -> Point {
    if p.x is Absent {
        q
    } else if q.x is Absent {
        p
    } else if p.x == q.x && p.y != q.y {
        infinity(p.a, p.b)
    } else if p.x != q.x {
        finite(sum_x(p, q) as i32, sum_y(p, q) as i32, p.a, p.b)
    } else if p.py() == 0 {
        infinity(p.a, p.b)
    } else {
        finite(sum_x(p, q) as i32, sum_y(p, q) as i32, p.a, p.b)
    }
}

/// The coordinates of the sum fit in an `i32` wherever the chord or tangent
/// rule computes them.
pub open spec fn sum_fits(p: Point, q: Point) -> bool {
    by_line(p, q) ==> (i32::MIN <= sum_x(p, q) <= i32::MAX && i32::MIN <= sum_y(p, q)
        <= i32::MAX)
}

/// Relies on num_traits::pow: `base` multiplied by itself `exp` times. Each
/// product it forms is a power of `base` no higher than `exp`, so none
/// overflows when the result fits.
#[verifier::external_body]
fn pow_i128(base: i128, exp: usize) -> (r: i128)
    requires
        i128::MIN <= pow(base as int, exp as nat) <= i128::MAX,
    ensures
        r == pow(base as int, exp as nat),
{
    num_traits::pow(base, exp)
}

proof fn lemma_square(v: int)
    ensures
        pow(v, 2) == v * v,
{
    reveal_with_fuel(pow, 3);
}

proof fn lemma_cube(v: int)
    ensures
        pow(v, 3) == v * v * v,
{
    reveal_with_fuel(pow, 4);
    assert(v * (v * v) == v * v * v) by (nonlinear_arith);
}

/// `v * v` for `|v| < 2^63`.
fn square(v: i128) -> (r: i128)
    requires
        -0x8000_0000_0000_0000 < v < 0x8000_0000_0000_0000,
    ensures
        r == v * v,
{
    proof {
        lemma_square(v as int);
        assert(0 <= v * v < 0x4000_0000_0000_0000_0000_0000_0000_0000) by (nonlinear_arith)
            requires
                -0x8000_0000_0000_0000 < v < 0x8000_0000_0000_0000,
        ;
    }
    pow_i128(v, 2)
}

/// `v * v * v` for a value of an `i32`.
fn cube(v: i32) -> (r: i128)
    ensures
        r == v * v * v,
        -0x1_0000_0000_0000_0000_0000_0000 < r < 0x1_0000_0000_0000_0000_0000_0000,
{
    proof {
        lemma_cube(v as int);
        assert(-0x1_0000_0000_0000_0000_0000_0000 < v * v * v < 0x1_0000_0000_0000_0000_0000_0000)
            by (nonlinear_arith)
            requires
                -0x8000_0000 <= v < 0x8000_0000,
        ;
    }
    pow_i128(v as i128, 3)
}

proof fn lemma_quotient_bound(n: int, d: int)
    requires
        d != 0,
    ensures
        abs(trunc_div(n, d)) <= abs(n),
        abs(d) >= 2 ==> 2 * abs(trunc_div(n, d)) <= abs(n),
{
    let q = abs(n) / abs(d);
    assert(0 <= q <= abs(n)) by (nonlinear_arith)
        requires
            q == abs(n) / abs(d),
            abs(d) >= 1,
            abs(n) >= 0,
    ;
    if abs(d) >= 2 {
        assert(2 * q <= abs(n)) by (nonlinear_arith)
            requires
                q == abs(n) / abs(d),
                abs(d) >= 2,
                abs(n) >= 0,
        ;
    }
}

/// Rust's integer division: the quotient rounded toward zero.
fn div_toward_zero(n: i128, d: i128) -> (r: i128)
    requires
        d != 0,
        n > i128::MIN,
        d > i128::MIN,
    ensures
        r == trunc_div(n as int, d as int),
{
    let an: i128 = if n < 0 {
        -n
    } else {
        n
    };
    let ad: i128 = if d < 0 {
        -d
    } else {
        d
    };
    let q = an / ad;
    if (n >= 0) == (d > 0) || n == 0 {
        q
    } else {
        -q
    }
}

/// The point that a line of slope `s` through finite points with x
/// coordinates `px` and `qx` meets on the curve, reflected.
fn third_point(s: i128, px: i32, py: i32, qx: i32, a: i32, b: i32) -> (r: Point)
    requires
        -0x8000_0000_0000_0000 < s < 0x8000_0000_0000_0000,
        i32::MIN <= third_x(s as int, px as int, qx as int) <= i32::MAX,
        i32::MIN <= third_y(
            s as int,
            px as int,
            py as int,
            third_x(s as int, px as int, qx as int),
        ) <= i32::MAX,
    ensures
        r == finite(
            third_x(s as int, px as int, qx as int) as i32,
            third_y(s as int, px as int, py as int, third_x(s as int, px as int, qx as int))
                as i32,
            a,
            b,
        ),
{
    let x = square(s) - px as i128 - qx as i128;
    let x = x as i32;
    let d: i128 = px as i128 - x as i128;
    proof {
        assert(-0x1_0000_0000_0000_0000_0000_0000 < s * d < 0x1_0000_0000_0000_0000_0000_0000)
            by (nonlinear_arith)
            requires
                -0x8000_0000_0000_0000 < s < 0x8000_0000_0000_0000,
                -0x1_0000_0000 <= d <= 0x1_0000_0000,
        ;
    }
    let y = s * d - py as i128;
    Point {
        x: CurveElement::int_to_curve(x),
        y: CurveElement::int_to_curve(y as i32),
        a,
        b,
    }
}

impl Point {
    /// Makes the point `(x, y)` of the curve `y^2 = x^3 + a*x + b`. Two absent
    /// coordinates make the point at infinity; one absent coordinate is
    /// `InvalidPoint`; a finite pair off the curve is `NotOnCurve`.
    pub fn new(x: CurveElement, y: CurveElement, a: i32, b: i32) -> (r: Result<Point, PointError>)
        ensures
            x is Absent && y is Absent ==> r == Ok::<Point, PointError>(infinity(a, b)),
            (x is Absent) != (y is Absent) ==> r == Err::<Point, PointError>(
                PointError::InvalidPoint,
            ),
            x is Value && y is Value ==> r == if on_curve(
                x->Value_0 as int,
                y->Value_0 as int,
                a as int,
                b as int,
            ) {
                Ok::<Point, PointError>(finite(x->Value_0, y->Value_0, a, b))
            } else {
                Err::<Point, PointError>(
                    PointError::NotOnCurve(x->Value_0, y->Value_0, a, b),
                )
            },
            r is Ok <==> (x is Absent && y is Absent) || (x is Value && y is Value && on_curve(
                x->Value_0 as int,
                y->Value_0 as int,
                a as int,
                b as int,
            )),
            r is Ok ==> r->Ok_0.valid(),
    {
        if x.is_none() && y.is_none() {
            return Ok(Point { x: x, y: y, a: a, b: b });
        }
        if x.is_none() || y.is_none() {
            return Err(PointError::InvalidPoint);
        }
        let nx = *x.unwrap();
        let ny = *y.unwrap();
        let lhs = square(ny as i128);
        proof {
            assert(-0x4000_0000_0000_0000 <= a * nx <= 0x4000_0000_0000_0000) by (nonlinear_arith)
                requires
                    -0x8000_0000 <= a < 0x8000_0000,
                    -0x8000_0000 <= nx < 0x8000_0000,
            ;
        }
        let rhs = cube(nx) + a as i128 * nx as i128 + b as i128;
        if lhs != rhs {
            return Err(PointError::NotOnCurve(nx, ny, a, b));
        }
        Ok(Point { x: x, y: y, a: a, b: b })
    }

    /// Renders the point as `Point(<x>,<y>)_<a>_<b>`.
    pub fn view(&self) -> (r: String)
        ensures
            r@ == self.text(),
    {
        let mut s = String::from_str("Point(");
        let xs = self.x.to_string();
        s.append(xs.as_str());
        s.append(",");
        let ys = self.y.to_string();
        s.append(ys.as_str());
        s.append(")_");
        push_int(&mut s, self.a);
        s.append("_");
        push_int(&mut s, self.b);
        proof {
            reveal_strlit("Point(");
            reveal_strlit(",");
            reveal_strlit(")_");
            reveal_strlit("_");
        }
        s
    }
}

impl PartialEq for Point {
    /// Two points are equal when all four components are.
    fn eq(&self, other: &Point) -> (r: bool) {
        (self.x == other.x) && (self.y == other.y) && (self.a == other.a) && (self.b == other.b)
    }
}

impl vstd::std_specs::cmp::PartialEqSpecImpl for Point {
    open spec fn obeys_eq_spec() -> bool {
        true
    }

    open spec fn eq_spec(&self, other: &Point) -> bool {
        self.x == other.x && self.y == other.y && self.a == other.a && self.b == other.b
    }
}

impl Eq for Point {

}

impl std::ops::Add for Point {
    type Output = Point;

    /// The group law of `point_sum`.
    fn add(self, other: Point) -> (r: Point) {
        if self.x.is_none() {
            return other;
        }
        if other.x.is_none() {
            return self;
        }
        if (self.x == other.x) && (self.y != other.y) {
            return Point { x: CurveElement::Absent, y: CurveElement::Absent, a: self.a, b: self.b };
        }
        let sx = *self.x.unwrap();
        let sy = *self.y.unwrap();
        let ox = *other.x.unwrap();
        let oy = *other.y.unwrap();
        if self.x != other.x {
            let s = div_toward_zero(oy as i128 - sy as i128, ox as i128 - sx as i128);
            proof {
                lemma_quotient_bound(oy - sy, ox - sx);
            }
            return third_point(s, sx, sy, ox, self.a, self.b);
        }
        // Here the two points are one and the same, for they share their
        // curve, x and y.

        if sy == 0 {
            return Point { x: CurveElement::Absent, y: CurveElement::Absent, a: self.a, b: self.b };
        }
        proof {
            assert(0 <= sx * sx <= 0x4000_0000_0000_0000) by (nonlinear_arith)
                requires
                    -0x8000_0000 <= sx < 0x8000_0000,
            ;
        }
        let n = 3 * square(sx as i128) + self.a as i128;
        let s = div_toward_zero(n, 2 * sy as i128);
        proof {
            assert(3 * (sx * sx) == 3 * sx * sx) by (nonlinear_arith);
            assert(s == tangent_slope(sx as int, sy as int, self.a as int));
            assert(by_line(self, other));
            lemma_quotient_bound(n as int, 2 * sy);
        }
        third_point(s, sx, sy, ox, self.a, self.b)
    }
}

impl vstd::std_specs::ops::AddSpecImpl for Point {
    open spec fn obeys_add_spec() -> bool {
        true
    }

    /// Both operands are well formed and on one curve, and the sum's
    /// coordinates fit in an `i32`.
    open spec fn add_req(self, other: Point) -> bool {
        &&& self.well_formed()
        &&& other.well_formed()
        &&& self.same_curve(other)
        &&& sum_fits(self, other)
    }

    open spec fn add_spec(self, other: Point) -> Point {
        point_sum(self, other)
    }
}

} // verus!
