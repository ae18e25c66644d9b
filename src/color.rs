//! Pixels, colours and the per-pixel matching rule.
//!
//! A pixel is stored in blue, green, red order, the layout of a decoded
//! three-channel image. A colour given by the user is a triple in red,
//! green, blue order. Matching and substitution reconcile the two layouts:
//! the red channel of a pixel is compared with the first component of the
//! colour, and the blue channel with the third.

use vstd::prelude::*;

verus! {

/// Maximum per-channel difference (exclusive) for a pixel to match.
pub const COLOR_RANGE: u8 = 20;

/// One pixel of an image buffer, in storage order.
#[derive(Clone, Copy, Debug, PartialEq, Eq, Structural)]
pub struct Pixel {
    pub b: u8,
    pub g: u8,
    pub r: u8,
}

/// The colour to look for and the colour that replaces it, each as
/// `(red, green, blue)`.
#[derive(Clone, Copy, Debug)]
pub struct Criterion {
    pub origin_color: (u8, u8, u8),
    pub target_color: (u8, u8, u8),
}

/// Absolute difference of two channel values.
pub open spec fn channel_diff(a: u8, b: u8) -> int {
    if a >= b {
        a - b
    } else {
        b - a
    }
}

/// A pixel matches when each of its three channels lies strictly within
/// `COLOR_RANGE` of the corresponding channel of the origin colour.
pub open spec fn pixel_matches(p: Pixel, c: Criterion) -> bool {
    &&& channel_diff(p.r, c.origin_color.0) < COLOR_RANGE
    &&& channel_diff(p.g, c.origin_color.1) < COLOR_RANGE
    &&& channel_diff(p.b, c.origin_color.2) < COLOR_RANGE
}

/// The target colour laid out as a pixel.
pub open spec fn target_pixel(c: Criterion) -> Pixel {
    Pixel { b: c.target_color.2, g: c.target_color.1, r: c.target_color.0 }
}

/// What the substitution pass writes for a source pixel.
pub open spec fn substitute(p: Pixel, c: Criterion) -> Pixel {
    if pixel_matches(p, c) {
        target_pixel(c)
    } else {
        p
    }
}

fn abs_diff(a: u8, b: u8) -> (r: u8)
    ensures
        r as int == channel_diff(a, b),
{
    if a >= b {
        a - b
    } else {
        b - a
    }
}

/// Whether `p` matches the origin colour of `criterion`.
pub fn color_matches(p: Pixel, criterion: &Criterion) -> (r: bool)
    ensures
        r == pixel_matches(p, *criterion),
{
    abs_diff(p.r, criterion.origin_color.0) < COLOR_RANGE
        && abs_diff(p.g, criterion.origin_color.1) < COLOR_RANGE
        && abs_diff(p.b, criterion.origin_color.2) < COLOR_RANGE
}

/// The pixel that the substitution pass writes for the source pixel `p`.
pub fn replace_pixel(p: Pixel, criterion: &Criterion) -> (r: Pixel)
    ensures
        r == substitute(p, *criterion),
        pixel_matches(p, *criterion) ==> r == target_pixel(*criterion),
        !pixel_matches(p, *criterion) ==> r == p,
{
    if color_matches(p, criterion) {
        Pixel {
            b: criterion.target_color.2,
            g: criterion.target_color.1,
            r: criterion.target_color.0,
        }
    } else {
        p
    }
}

/// A pixel that differs from the origin colour by exactly `COLOR_RANGE` on
/// any one channel does not match, and is left as it is.
pub proof fn lemma_threshold_boundary(p: Pixel, c: Criterion)
    requires
        channel_diff(p.r, c.origin_color.0) == COLOR_RANGE
            || channel_diff(p.g, c.origin_color.1) == COLOR_RANGE
            || channel_diff(p.b, c.origin_color.2) == COLOR_RANGE,
    ensures
        !pixel_matches(p, c),
        substitute(p, c) == p,
{
}

} // verus!
