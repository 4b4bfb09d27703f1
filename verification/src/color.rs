//! A linear colour, and its way to three bytes.
use crate::integer::lemma_unit_fits_byte;
use crate::interval::{lemma_clamp_is_monotone, Interval};
use crate::ppm::{pixel_text, push_pixel};
use crate::scalar::{Scalar, ONE_BITS};
use crate::value::lemma_truncation_is_monotone;
use crate::vec3::Vec3;
use vstd::prelude::*;

verus! {

pub type Color = Vec3;

impl Color {
    /// The colour with every channel 1.
    pub open spec fn spec_white() -> Color {
        Vec3 { x: Scalar { bits: ONE_BITS }, y: Scalar { bits: ONE_BITS }, z: Scalar { bits: ONE_BITS } }
    }

    /// The colour of three linear channels: red, green and blue.
    pub fn color(x: Scalar, y: Scalar, z: Scalar) -> (r: Color)
        ensures
            r == (Vec3 { x, y, z }),
    {
        Vec3 { x, y, z }
    }

    /// The colour with every channel 1.
    pub fn white() -> (r: Color)
        ensures
            r == Color::spec_white(),
    {
        Vec3 { x: Scalar::one(), y: Scalar::one(), z: Scalar::one() }
    }
}

/// The pattern of 0.999, the largest intensity that is written.
pub const INTENSITY_MAX_BITS: u64 = 0x3FEF_F7CE_D916_872B;

/// The gamma-2 encoding of a linear channel: its square root where it is
/// above zero, and zero where it is not.
pub open spec fn spec_linear_to_gamma(linear_component: Scalar, root: Scalar) -> Scalar {
    if (Scalar { bits: 0 }).less(linear_component) {
        root
    } else {
        Scalar { bits: 0 }
    }
}

/// The range of the intensities that are written: from 0 to 0.999.
pub open spec fn intensity() -> Interval {
    Interval { min: Scalar { bits: 0 }, max: Scalar { bits: INTENSITY_MAX_BITS } }
}

/// The number written for a linear channel with this square root: the
/// encoding, cut to the range of intensities, times 256, without its
/// fraction.
pub open spec fn channel(linear_component: Scalar, root: Scalar) -> int {
    intensity().spec_clamp(spec_linear_to_gamma(linear_component, root)).truncated(8)
}

/// The gamma-2 encoding of a linear channel, given its square root.
pub fn linear_to_gamma(linear_component: Scalar, root: Scalar) -> (r: Scalar)
    ensures
        r == spec_linear_to_gamma(linear_component, root),
{
    if linear_component.gt(Scalar::zero()) {
        return root;
    }
    Scalar::zero()
}

fn channel_byte(linear_component: Scalar, root: Scalar) -> (r: u32)
    ensures
        r == channel(linear_component, root),
        r <= 255,
{
    let encoded = linear_to_gamma(linear_component, root);
    let range = Interval::bounded_interval(Scalar::zero(), Scalar::from_bits(INTENSITY_MAX_BITS));
    let cut = range.clamp(encoded);
    proof {
        lemma_unit_fits_byte(cut);
    }
    cut.truncate_shifted(8)
}

/// The line of a pixel: its three channels, each a number from 0 to 255.
/// `roots` holds the square roots of the channels of `pixel_color`.
pub fn write_color(pixel_color: &Color, roots: &Color) -> (line: Vec<u8>)
    ensures
        line@ == pixel_text(
            channel(pixel_color.x, roots.x) as nat,
            channel(pixel_color.y, roots.y) as nat,
            channel(pixel_color.z, roots.z) as nat,
        ),
        0 <= channel(pixel_color.x, roots.x) <= 255,
        0 <= channel(pixel_color.y, roots.y) <= 255,
        0 <= channel(pixel_color.z, roots.z) <= 255,
{
    let rbyte: u32 = channel_byte(pixel_color.x, roots.x);
    let gbyte: u32 = channel_byte(pixel_color.y, roots.y);
    let bbyte: u32 = channel_byte(pixel_color.z, roots.z);
    let mut line: Vec<u8> = Vec::new();
    push_pixel(&mut line, rbyte, gbyte, bbyte);
    line
}

/// Of two encoded channels in order, the brighter is written as no smaller
/// a number.
pub proof fn lemma_brighter_is_written_no_darker(x: Scalar, y: Scalar)
    requires
        x.less_eq(y),
    ensures
        intensity().spec_clamp(x).truncated(8) <= intensity().spec_clamp(y).truncated(8),
{
    lemma_clamp_is_monotone(intensity(), x, y);
    lemma_truncation_is_monotone(intensity().spec_clamp(x), intensity().spec_clamp(y), 8);
}

/// Whatever the colour and the roots, a channel is written as a number from
/// 0 to 255.
pub proof fn lemma_channel_is_a_byte(linear_component: Scalar, root: Scalar)
    ensures
        0 <= channel(linear_component, root) <= 255,
{
    lemma_unit_fits_byte(intensity().spec_clamp(spec_linear_to_gamma(linear_component, root)));
}

} // verus!
