//! Colors: three channel intensities, linear until display conversion.
//!
//! Display conversion applies gamma correction (a square root), clamps the
//! intensity to `[0, 0.999]` and quantizes to an 8-bit channel with a
//! 256-fold scale, exactly as the contracts below state.

use vstd::prelude::*;
use crate::fixed::{SCALE, fsqrt, tdiv, fx_sqrt, lemma_tdiv_bounds};
use crate::interval::{Interval, sclamp};
use crate::vec3::Vec3;

verus! {

/// The largest displayable intensity, 0.999 in fixed-point units; keeps the
/// 256-fold quantization below 256.
pub const INTENSITY_MAX: i64 = 65470;

#[derive(Clone, Copy, Debug, PartialEq, Eq, Structural)]
pub struct Color<T> {
    pub r: T,
    pub g: T,
    pub b: T,
}

/// Gamma correction: the square root of a positive linear intensity.
pub open spec fn sgamma(linear: i64) -> i64 {
    if linear > 0 {
        fsqrt(linear)
    } else {
        0
    }
}

/// A linear channel taken to its displayed 8-bit value: gamma correction,
/// clamping into `[0, INTENSITY_MAX]`, then 256-fold scaling.
pub open spec fn sto_byte(linear: i64) -> int {
    tdiv(sclamp(Interval { min: 0, max: INTENSITY_MAX }, sgamma(linear)) * 256, SCALE as int)
}

impl<T> Color<T> {
    pub fn new(r: T, g: T, b: T) -> (c: Color<T>)
        ensures
            c == (Color { r, g, b }),
    {
        Color { r, g, b }
    }
}

/// Gamma correction of one linear channel.
pub fn linear_to_gamma(linear: i64) -> (r: i64)
    ensures
        r == sgamma(linear),
{
    if linear > 0 {
        fx_sqrt(linear)
    } else {
        0
    }
}

impl Color<i64> {
    /// Quantize a linear color for display: each channel is gamma-corrected,
    /// clamped and scaled to `[0, 255]`.
    pub fn to_int(self) -> (c: Color<u8>)
        ensures
            c.r == sto_byte(self.r),
            c.g == sto_byte(self.g),
            c.b == sto_byte(self.b),
    {
        Color { r: channel_to_byte(self.r), g: channel_to_byte(self.g), b: channel_to_byte(self.b) }
    }
}

/// One displayed channel.
fn channel_to_byte(linear: i64) -> (r: u8)
    ensures
        r == sto_byte(linear),
{
    let intensity = Interval::new(0, INTENSITY_MAX);
    let corrected = linear_to_gamma(linear);
    let clamped = intensity.clamp(corrected);
    let scaled = (clamped * 256) / SCALE;
    proof {
        lemma_tdiv_bounds(clamped * 256, SCALE as int);
    }
    scaled as u8
}

impl From<Vec3> for Color<i64> {
    /// Reinterpret a vector as a color, component for channel.
    fn from(v: Vec3) -> (c: Color<i64>)
        ensures
            c == (Color { r: v.x, g: v.y, b: v.z }),
    {
        Color { r: v.x, g: v.y, b: v.z }
    }
}

impl vstd::std_specs::convert::FromSpecImpl<Vec3> for Color<i64> {
    open spec fn obeys_from_spec() -> bool {
        true
    }

    open spec fn from_spec(v: Vec3) -> Color<i64> {
        Color { r: v.x, g: v.y, b: v.z }
    }
}

} // verus!
