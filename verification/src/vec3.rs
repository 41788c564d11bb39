//! Three-component fixed-point vectors.
//!
//! A `Vec3` serves both as a direction (surface normal, light or view
//! direction) and as an RGB color or coefficient triple.  Every operation
//! has an exact componentwise contract over the raw fixed-point values.

use vstd::prelude::*;

use crate::fixed::Fx;
use crate::fixed::FX_ONE;
use crate::fixed::clip;
use crate::fixed::fx_add;
use crate::fixed::fx_add_raw;
use crate::fixed::fx_mul;
use crate::fixed::fx_mul_raw;
use crate::fixed::isqrt_rec;
use crate::fixed::isqrt128;
use crate::fixed::scale_div_mag;
use crate::fixed::square_mag;
use crate::fixed::tdiv;

verus! {

/// A vector of three fixed-point scalars.
#[derive(Clone, Copy, PartialEq, Eq, Structural, Debug)]
pub struct Vec3 {
    pub x: Fx,
    pub y: Fx,
    pub z: Fx,
}

/// The scalar whose raw value is the (in-range) integer `x`.
pub open spec fn fxi(x: int) -> Fx {
    Fx { raw: x as i64 }
}

/// The zero vector (also the color black).
pub open spec fn vec_zero_spec() -> Vec3 {
    Vec3 { x: fxi(0), y: fxi(0), z: fxi(0) }
}

/// Componentwise saturating sum.
pub open spec fn vec_add_spec(a: Vec3, b: Vec3) -> Vec3 {
    Vec3 {
        x: fxi(fx_add_raw(a.x@, b.x@)),
        y: fxi(fx_add_raw(a.y@, b.y@)),
        z: fxi(fx_add_raw(a.z@, b.z@)),
    }
}

/// Every component multiplied by the raw scalar `k`.
pub open spec fn vec_scale_spec(v: Vec3, k: int) -> Vec3 {
    Vec3 {
        x: fxi(fx_mul_raw(v.x@, k)),
        y: fxi(fx_mul_raw(v.y@, k)),
        z: fxi(fx_mul_raw(v.z@, k)),
    }
}

/// Raw value of the dot product: the three componentwise products,
/// summed left to right with saturation.
pub open spec fn vec_dot_spec(a: Vec3, b: Vec3) -> int {
    fx_add_raw(
        fx_add_raw(fx_mul_raw(a.x@, b.x@), fx_mul_raw(a.y@, b.y@)),
        fx_mul_raw(a.z@, b.z@),
    )
}

/// Raw squared length of a vector, on the scale of raw-value products.
pub open spec fn vec_norm2_mag(v: Vec3) -> int {
    v.x@ * v.x@ + v.y@ * v.y@ + v.z@ * v.z@
}

/// The vector scaled to unit length by the floor square root of its squared
/// length; the zero vector (whose direction is undefined) maps to itself.
pub open spec fn vec_unit_spec(v: Vec3) -> Vec3 {
    let s = isqrt_rec(vec_norm2_mag(v) as nat) as int;
    if s == 0 {
        vec_zero_spec()
    } else {
        Vec3 {
            x: fxi(clip(tdiv(v.x@ * FX_ONE as int, s))),
            y: fxi(clip(tdiv(v.y@ * FX_ONE as int, s))),
            z: fxi(clip(tdiv(v.z@ * FX_ONE as int, s))),
        }
    }
}

impl Vec3 {
    /// The vector with the given components.
    pub fn new(x: Fx, y: Fx, z: Fx) -> (r: Vec3)
        ensures
            r == (Vec3 { x, y, z }),
    {
        Vec3 { x, y, z }
    }

    /// The zero vector.
    pub fn zero() -> (r: Vec3)
        ensures
            r == vec_zero_spec(),
    {
        Vec3 { x: Fx { raw: 0 }, y: Fx { raw: 0 }, z: Fx { raw: 0 } }
    }

    /// Componentwise saturating sum.
    pub fn add(&self, other: &Vec3) -> (r: Vec3)
        ensures
            r == vec_add_spec(*self, *other),
    {
        Vec3 {
            x: fx_add(self.x, other.x),
            y: fx_add(self.y, other.y),
            z: fx_add(self.z, other.z),
        }
    }

    /// Every component multiplied by the scalar `k`.
    pub fn scale(&self, k: Fx) -> (r: Vec3)
        ensures
            r == vec_scale_spec(*self, k@),
    {
        Vec3 { x: fx_mul(self.x, k), y: fx_mul(self.y, k), z: fx_mul(self.z, k) }
    }

    /// Dot product.
    pub fn dot(&self, other: &Vec3) -> (r: Fx)
        ensures
            r@ == vec_dot_spec(*self, *other),
    {
        fx_add(
            fx_add(fx_mul(self.x, other.x), fx_mul(self.y, other.y)),
            fx_mul(self.z, other.z),
        )
    }

    /// The vector scaled to unit length; the zero vector maps to itself.
    pub fn unit(&self) -> (r: Vec3)
        ensures
            r == vec_unit_spec(*self),
    {
        let sx: u128 = square_mag(self.x.raw);
        let sy: u128 = square_mag(self.y.raw);
        let sz: u128 = square_mag(self.z.raw);
        let m: u128 = sx + sy + sz;
        let s: u128 = isqrt128(m);
        if s == 0 {
            Vec3 { x: Fx { raw: 0 }, y: Fx { raw: 0 }, z: Fx { raw: 0 } }
        } else {
            Vec3 {
                x: Fx { raw: scale_div_mag(self.x.raw, s) },
                y: Fx { raw: scale_div_mag(self.y.raw, s) },
                z: Fx { raw: scale_div_mag(self.z.raw, s) },
            }
        }
    }
}

} // verus!
