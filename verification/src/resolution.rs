//! Render-target sizing: every simulation texture keeps `res` texels along the
//! shorter side of the surface and stretches the longer side by the aspect ratio.
//!
//! The aspect ratio and the stretched side are computed in binary32 arithmetic
//! (see [`crate::binary32`]): the aspect `width / height`, inverted when it is below
//! one, times `res`, rounded to the nearest integer.

use vstd::prelude::*;
use crate::binary32::{
    binary32_below_one, binary32_div, binary32_div_exec, binary32_mul, binary32_mul_exec, binary32_of,
    binary32_of_exec, binary32_one, binary32_round_to_u32, binary32_round_to_u32_exec, lemma_binary32_of_normal,
    lemma_div_self, lemma_mul_one, lemma_small_integer_exact, Binary32Exec,
};

verus! {

/// The aspect ratio of a `width` by `height` surface in binary32, at least one:
/// `width / height`, or its reciprocal when that is below one.
pub open spec fn aspect_at_least_one(width: u32, height: u32) -> (nat, int) {
    let a = binary32_div(binary32_of(width as nat), binary32_of(height as nat));
    if binary32_below_one(a) {
        binary32_div(binary32_one(), a)
    } else {
        a
    }
}

/// Texels along the longer side of a target with `res` texels along the shorter side
/// of a `width` by `height` surface: `res` times the aspect ratio (at least one), in
/// binary32 arithmetic, rounded to the nearest integer (halves rounding up) and
/// saturated at `u32::MAX`.
///
/// A surface with a zero side has an infinite aspect ratio: the result saturates,
/// unless `res` is zero (zero times infinity is not a number, which converts to 0).
/// A surface with no extent at all has an undefined aspect ratio, which gives 0.
pub open spec fn scaled_side(res: u32, width: u32, height: u32) -> nat {
    if width == 0 || height == 0 {
        if (width == 0 && height == 0) || res == 0 {
            0
        } else {
            u32::MAX as nat
        }
    } else if res == 0 {
        0
    } else {
        binary32_round_to_u32(binary32_mul(binary32_of(res as nat), aspect_at_least_one(width, height)))
    }
}

/// Size `(w, h)` of a render target for resolution `res` on a `width` by `height`
/// surface: the shorter side gets `res` texels, the longer one `scaled_side`.
/// A square surface counts as portrait.
pub open spec fn resolution_for(res: u32, width: u32, height: u32) -> (u32, u32) {
    if width > height {
        (scaled_side(res, width, height) as u32, res)
    } else {
        (res, scaled_side(res, width, height) as u32)
    }
}

fn scale_side(res: u32, width: u32, height: u32) -> (side: u32)
    ensures
        side as nat == scaled_side(res, width, height),
{
    if width == 0 || height == 0 {
        if (width == 0 && height == 0) || res == 0 {
            0
        } else {
            u32::MAX
        }
    } else if res == 0 {
        0
    } else {
        let w = binary32_of_exec(width);
        let h = binary32_of_exec(height);
        let a = binary32_div_exec(w, h);
        let aspect: Binary32Exec = if a.1 < -23 {
            binary32_div_exec((0x80_0000, -23), a)
        } else {
            a
        };
        let r = binary32_of_exec(res);
        binary32_round_to_u32_exec(binary32_mul_exec(r, aspect))
    }
}

/// Size of a render target with `res` texels along the surface's shorter side.
///
/// The longer side is stretched by the aspect ratio and rounded to the nearest texel,
/// so that texels stay square; `(w, h)` follows the surface's orientation.
pub fn get_resolution(res: u32, width: u32, height: u32) -> (r: (u32, u32))
    ensures
        r == resolution_for(res, width, height),
{
    let side = scale_side(res, width, height);
    if width > height {
        (side, res)
    } else {
        (res, side)
    }
}

/// A square surface gets a square `res` by `res` target, for any `res` that binary32
/// holds exactly (below `2^24`).
pub proof fn lemma_square_surface(res: u32, side: u32)
    requires
        side > 0,
        res < 0x100_0000,
    ensures
        resolution_for(res, side, side) == (res, res),
{
    if res > 0 {
        let w = binary32_of(side as nat);
        lemma_binary32_of_normal(side as nat);
        lemma_div_self(w);
        lemma_binary32_of_normal(res as nat);
        lemma_mul_one(binary32_of(res as nat));
        lemma_small_integer_exact(res as nat);
    }
}

} // verus!
