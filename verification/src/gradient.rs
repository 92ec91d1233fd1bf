//! The gradient field: the one mapping from a position on a surface to the
//! perceptual color shown there.
//!
//! A position is first normalized against the surface's size, giving a point
//! of the unit square `[0, 1) x [0, 1)` in millionths. The field then assigns
//! that point a color of fixed lightness whose two chromaticity axes run
//! linearly from -0.4 to 0.4. Drawing and click resolution both go through
//! [`gradient`], so they cannot disagree.

use vstd::prelude::*;
use crate::color::{Oklab, SCALE};

verus! {

/// Lightness of every color of the field: 0.7.
pub const LIGHTNESS: i32 = 700_000;

/// The chromaticity axes span `[-HALF_SPAN, HALF_SPAN)`: 0.4 to either side.
pub const HALF_SPAN: i32 = 400_000;

/// `pos / extent` in millionths, rounded down.
pub open spec fn fraction(pos: int, extent: int) -> int {
    pos * (SCALE as int) / extent
}

/// One chromaticity axis of the field at the normalized coordinate `t`
/// (millionths): `t * 0.8 - 0.4`, rounded down.
pub open spec fn axis(t: int) -> int {
    t * 4 / 5 - HALF_SPAN as int
}

/// The color of the field at the normalized point `(nx, ny)` (millionths).
pub open spec fn gradient_at(nx: int, ny: int) -> Oklab {
    Oklab { l: LIGHTNESS, a: axis(nx) as i32, b: axis(ny) as i32 }
}

/// A point of the unit square `[0, 1) x [0, 1)`, each coordinate in
/// millionths.
#[derive(Clone, Copy, Debug)]
pub struct Normalized {
    x: u32,
    y: u32,
}

impl Normalized {
    #[verifier::type_invariant]
    pub closed spec fn in_unit_square(self) -> bool {
        self.x < SCALE && self.y < SCALE
    }

    /// Horizontal coordinate in millionths.
    pub closed spec fn spec_x(self) -> int {
        self.x as int
    }

    /// Vertical coordinate in millionths.
    pub closed spec fn spec_y(self) -> int {
        self.y as int
    }

    /// The point `(x, y)` given in millionths, or `None` if either
    /// coordinate is 1.0 or more.
    pub fn new(x: u32, y: u32) -> (p: Option<Normalized>)
        ensures
            p is Some <==> x < SCALE && y < SCALE,
            p matches Some(n) ==> n.spec_x() == x && n.spec_y() == y,
    {
        if x < SCALE && y < SCALE {
            Some(Normalized { x, y })
        } else {
            None
        }
    }

    /// Horizontal coordinate in millionths.
    pub fn x(&self) -> (r: u32)
        ensures
            r == self.spec_x(),
            r < SCALE,
    {
        proof {
            use_type_invariant(self);
        }
        self.x
    }

    /// Vertical coordinate in millionths.
    pub fn y(&self) -> (r: u32)
        ensures
            r == self.spec_y(),
            r < SCALE,
    {
        proof {
            use_type_invariant(self);
        }
        self.y
    }
}

/// `fraction` stays below 1.0 for a position inside the extent.
pub proof fn lemma_fraction_in_unit(pos: int, extent: int)
    requires
        0 <= pos < extent,
    ensures
        0 <= fraction(pos, extent) < SCALE,
{
    assert(0 <= pos * (SCALE as int) / extent < SCALE as int) by (nonlinear_arith)
        requires
            0 <= pos < extent,
            SCALE == 1_000_000,
    ;
}

/// Divides one coordinate by the extent of the surface along it.
fn normalize_axis(pos: u32, extent: u32) -> (t: u32)
    requires
        pos < extent,
    ensures
        t == fraction(pos as int, extent as int),
        t < SCALE,
{
    proof {
        lemma_fraction_in_unit(pos as int, extent as int);
    }
    let scaled: u64 = pos as u64 * SCALE as u64;
    (scaled / extent as u64) as u32
}

/// Normalizes the pixel position `(x, y)` on a surface of `width` by `height`
/// pixels. Positions outside the surface, and every position on a surface
/// with an empty side, have no normalized point.
pub fn normalize(x: u32, y: u32, width: u32, height: u32) -> (p: Option<Normalized>)
    ensures
        p is Some <==> x < width && y < height,
        p matches Some(n) ==> n.spec_x() == fraction(x as int, width as int) && n.spec_y()
            == fraction(y as int, height as int),
{
    if x < width && y < height {
        let nx: u32 = normalize_axis(x, width);
        let ny: u32 = normalize_axis(y, height);
        Some(Normalized { x: nx, y: ny })
    } else {
        None
    }
}

/// One chromaticity axis at the normalized coordinate `t`.
fn axis_value(t: u32) -> (v: i32)
    requires
        t < SCALE,
    ensures
        v == axis(t as int),
        -HALF_SPAN <= v < HALF_SPAN,
{
    let scaled: u32 = t * 4 / 5;
    scaled as i32 - HALF_SPAN
}

/// The color of the gradient field at `p`.
pub fn gradient(p: Normalized) -> (c: Oklab)
    ensures
        c == gradient_at(p.spec_x(), p.spec_y()),
        c.l == LIGHTNESS,
        -HALF_SPAN <= c.a < HALF_SPAN,
        -HALF_SPAN <= c.b < HALF_SPAN,
{
    let a: i32 = axis_value(p.x());
    let b: i32 = axis_value(p.y());
    Oklab { l: LIGHTNESS, a, b }
}

} // verus!
