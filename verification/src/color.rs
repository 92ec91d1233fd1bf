//! Perceptual colors in fixed point.
//!
//! A color is a triple in the Oklab space: lightness and two chromaticity
//! axes. Each component is held in millionths, so that `700_000` stands for
//! a lightness of 0.7. Distances are squared Euclidean distances over those
//! integers and are exact.

use vstd::prelude::*;

verus! {

/// Number of fixed-point units in 1.0.
pub const SCALE: u32 = 1_000_000;

/// A perceptual color: lightness `l` and chromaticity axes `a` and `b`,
/// each in millionths.
#[derive(Clone, Copy, Debug, PartialEq, Eq, Structural)]
pub struct Oklab {
    pub l: i32,
    pub a: i32,
    pub b: i32,
}

/// Squared Euclidean distance between two colors, over the integers.
pub open spec fn distance_squared(p: Oklab, q: Oklab) -> int {
    (p.l - q.l) * (p.l - q.l) + (p.a - q.a) * (p.a - q.a) + (p.b - q.b) * (p.b - q.b)
}

/// Squares the difference of two components without overflow.
fn square_diff(x: i32, y: i32) -> (r: u128)
    ensures
        r == (x - y) * (x - y),
        r <= 0xFFFF_FFFF * 0xFFFF_FFFF,
{
    let d: i64 = x as i64 - y as i64;
    let m: u64 = if d < 0 {
        (-d) as u64
    } else {
        d as u64
    };
    assert(m <= 0xFFFF_FFFF);
    assert(m * m == (x - y) * (x - y)) by (nonlinear_arith)
        requires
            m == x - y || m == -(x - y),
    ;
    assert(m * m <= 0xFFFF_FFFF * 0xFFFF_FFFF) by (nonlinear_arith)
        requires
            m <= 0xFFFF_FFFF,
    ;
    (m as u128) * (m as u128)
}

impl Oklab {
    /// Builds a color from its three components in millionths.
    pub fn new(l: i32, a: i32, b: i32) -> (c: Oklab)
        ensures
            c == (Oklab { l, a, b }),
    {
        Oklab { l, a, b }
    }

    /// Squared Euclidean distance to `other`.
    pub fn distance_squared(&self, other: &Oklab) -> (d: u128)
        ensures
            d == distance_squared(*self, *other),
    {
        let dl: u128 = square_diff(self.l, other.l);
        let da: u128 = square_diff(self.a, other.a);
        let db: u128 = square_diff(self.b, other.b);
        dl + da + db
    }
}

} // verus!
