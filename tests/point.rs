use ecc_point::curve_element::CurveElement;
use ecc_point::point::Point;
use ecc_point::point::PointError;

fn pt(x: i32, y: i32) -> Point {
    Point::new(CurveElement::int_to_curve(x), CurveElement::int_to_curve(y), 5, 7).unwrap()
}

fn origin() -> Point {
    Point::new(CurveElement::NONE, CurveElement::NONE, 5, 7).unwrap()
}

#[test]
fn valid_point() {
    let i2c = CurveElement::int_to_curve;

    // On curve
    let _x = Point::new(i2c(3), i2c(-7), 5, 7).unwrap();
    let _x = Point::new(i2c(18), i2c(77), 5, 7).unwrap();

    // == implementation
    let p1 = Point::new(i2c(3), i2c(-7), 5, 7).unwrap();
    let p2 = Point::new(i2c(3), i2c(-7), 5, 7).unwrap();
    let p3 = Point::new(i2c(18), i2c(77), 5, 7).unwrap();
    assert!(p1 == p2);
    assert!(p1 != p3);

    // Show point
    assert_eq!(p1.view(), String::from("Point(3,-7)_5_7"));

    // Test add 0
    let a = Point::new(CurveElement::NONE, CurveElement::NONE, 5, 7).unwrap();
    let b = Point::new(i2c(2), i2c(5), 5, 7).unwrap();
    let c = Point::new(i2c(2), i2c(-5), 5, 7).unwrap();
    assert_eq!(a + b, b);
    assert_eq!(b + a, b);
    assert_eq!(b + c, a);

    // Test add 1
    let a = Point::new(i2c(3), i2c(7), 5, 7).unwrap();
    let b = Point::new(i2c(-1), i2c(-1), 5, 7).unwrap();
    assert_eq!(a + b, Point::new(i2c(2), i2c(-5), 5, 7).unwrap());

    // Test add2
    let a = Point::new(i2c(-1), i2c(1), 5, 7).unwrap();
    assert_eq!(a + a, Point::new(i2c(18), i2c(-77), 5, 7).unwrap());
}

#[test]
fn finite_points_construct() {
    for (x, y) in [(3, -7), (18, 77), (-1, -1), (-1, 1), (2, 5), (2, -5)] {
        let r = Point::new(CurveElement::int_to_curve(x), CurveElement::int_to_curve(y), 5, 7);
        assert!(r.is_ok());
        let p = r.unwrap();
        assert_eq!(p.x, CurveElement::int_to_curve(x));
        assert_eq!(p.y, CurveElement::int_to_curve(y));
        assert_eq!((p.a, p.b), (5, 7));
    }
}

#[test]
fn off_curve_is_rejected() {
    let r = Point::new(CurveElement::int_to_curve(1), CurveElement::int_to_curve(1), 5, 7);
    assert_eq!(r, Err(PointError::NotOnCurve(1, 1, 5, 7)));
    let r = Point::new(CurveElement::int_to_curve(-2), CurveElement::int_to_curve(4), 5, 7);
    assert_eq!(r, Err(PointError::NotOnCurve(-2, 4, 5, 7)));
}

#[test]
fn one_absent_coordinate_is_rejected() {
    let r = Point::new(CurveElement::NONE, CurveElement::int_to_curve(5), 5, 7);
    assert_eq!(r, Err(PointError::InvalidPoint));
    let r = Point::new(CurveElement::int_to_curve(2), CurveElement::NONE, 5, 7);
    assert_eq!(r, Err(PointError::InvalidPoint));
}

#[test]
fn infinity_constructs_on_any_curve() {
    let o = Point::new(CurveElement::NONE, CurveElement::NONE, 0, 0).unwrap();
    assert!(o.x.is_none());
    assert!(o.y.is_none());
    assert_eq!((o.a, o.b), (0, 0));
}

#[test]
fn large_coordinates_checked_exactly() {
    // x^3 alone exceeds an i32 here; the curve check must still be exact.
    let r = Point::new(CurveElement::int_to_curve(2000), CurveElement::int_to_curve(1), 5, 7);
    assert_eq!(r, Err(PointError::NotOnCurve(2000, 1, 5, 7)));
}

#[test]
fn equality_compares_all_components() {
    let p = pt(2, 5);
    assert!(p == p);
    assert!(p != pt(2, -5));
    let other_curve = Point::new(CurveElement::NONE, CurveElement::NONE, 5, 8).unwrap();
    assert!(origin() != other_curve);
    assert!(origin() == origin());
}

#[test]
fn rendering() {
    assert_eq!(pt(3, -7).view(), "Point(3,-7)_5_7");
    assert_eq!(pt(18, 77).view(), "Point(18,77)_5_7");
    assert_eq!(origin().view(), "Point(None,None)_5_7");
    let o = Point::new(CurveElement::NONE, CurveElement::NONE, -12, 0).unwrap();
    assert_eq!(o.view(), "Point(None,None)_-12_0");
    assert_eq!(CurveElement::int_to_curve(-2147483648).to_string(), "-2147483648");
    assert_eq!(CurveElement::int_to_curve(2147483647).to_string(), "2147483647");
    assert_eq!(CurveElement::NONE.to_string(), "None");
}

#[test]
fn identity_law() {
    for p in [pt(3, 7), pt(-1, -1), pt(18, 77), origin()] {
        assert_eq!(origin() + p, p);
        assert_eq!(p + origin(), p);
    }
}

#[test]
fn inverse_law() {
    assert_eq!(pt(2, 5) + pt(2, -5), origin());
    assert_eq!(pt(18, 77) + pt(18, -77), origin());
    assert_eq!(pt(-1, 1) + pt(-1, -1), origin());
}

#[test]
fn chord_rule() {
    assert_eq!(pt(3, 7) + pt(-1, -1), pt(2, -5));
    assert_eq!(pt(-1, -1) + pt(3, 7), pt(2, -5));
}

#[test]
fn tangent_rule() {
    assert_eq!(pt(-1, 1) + pt(-1, 1), pt(18, -77));
    assert_eq!(pt(-1, -1) + pt(-1, -1), pt(18, 77));
}

#[test]
fn vertical_tangent_doubles_to_infinity() {
    // y^2 = x^3 - x has (1, 0) on it.
    let p = Point::new(CurveElement::int_to_curve(1), CurveElement::int_to_curve(0), -1, 0).unwrap();
    let o = Point::new(CurveElement::NONE, CurveElement::NONE, -1, 0).unwrap();
    assert_eq!(p + p, o);
}

#[test]
fn slope_is_truncated_toward_zero() {
    // On y^2 = x^3 + 5x + 7 the chord from (2, 5) to (-1, 1) has slope 4/3,
    // truncated to 1: x = 1 - 2 + 1 = 0, y = 1 * (2 - 0) - 5 = -3.
    let r = pt(2, 5) + pt(-1, 1);
    assert_eq!(r.x, CurveElement::int_to_curve(0));
    assert_eq!(r.y, CurveElement::int_to_curve(-3));
    // From (-1, 1) to (2, -5) the slope -6/3 is exact: x = 4 + 1 - 2 = 3, y = -2 * (-1 - 3) - 1 = 7.
    assert_eq!(pt(-1, 1) + pt(2, -5), pt(3, 7));
    // The other order rounds the same slope but reflects through (-1, 1).
    let r = pt(-1, 1) + pt(2, 5);
    assert_eq!(r.x, CurveElement::int_to_curve(0));
    assert_eq!(r.y, CurveElement::int_to_curve(-2));
}

#[test]
fn exact_sums_commute_and_stay_on_curve() {
    let points = [pt(3, 7), pt(3, -7), pt(-1, -1), pt(-1, 1), pt(2, 5), pt(2, -5), pt(18, 77), origin()];
    let on_curve = |p: Point| -> bool {
        if p.x.is_none() {
            return true;
        }
        let (x, y) = (*p.x.unwrap() as i128, *p.y.unwrap() as i128);
        y * y == x * x * x + 5 * x + 7
    };
    for p in points {
        for q in [pt(3, 7), pt(-1, -1), pt(2, -5)] {
            // only pairs whose slope needs no rounding
            let exact = match (p.x, q.x) {
                (CurveElement::Value(px), CurveElement::Value(qx)) if px != qx => {
                    let (py, qy) = (*p.y.unwrap(), *q.y.unwrap());
                    (qy - py) % (qx - px) == 0
                }
                _ => true,
            };
            if exact && !(p == q && *p.y.unwrap() != 0 && (3 * *p.x.unwrap() * *p.x.unwrap() + 5) % (2 * *p.y.unwrap()) != 0) {
                assert_eq!(p + q, q + p);
                assert!(on_curve(p + q));
            }
        }
    }
}

#[test]
fn identity_with_any_third_point_associates() {
    let (o, p, q) = (origin(), pt(3, 7), pt(-1, -1));
    assert_eq!((o + p) + q, o + (p + q));
    assert_eq!((p + o) + q, p + (o + q));
    assert_eq!((p + q) + o, p + (q + o));
}

#[test]
fn coordinate_operations() {
    let c = CurveElement::int_to_curve(-9);
    assert!(!c.is_none());
    assert_eq!(*c.unwrap(), -9);
    assert!(CurveElement::NONE.is_none());
}
