//! Points on a short Weierstrass curve `y^2 = x^3 + a*x + b` over the
//! integers, with the group law of point addition.

pub mod curve_element;
pub mod point;
pub mod group_laws;
