//! Integer scale-factor computation: how much an image must shrink so the
//! window fits inside the usable part of the screen, and the window size
//! that follows from it.

use vstd::prelude::*;

verus! {

use vstd::arithmetic::div_mod::{
    lemma_div_is_ordered,
    lemma_div_multiples_vanish,
    lemma_div_nonincreasing,
    lemma_fundamental_div_mod,
    lemma_fundamental_div_mod_converse_div,
    lemma_mod_bound,
};

/// The window may cover at most this percentage of the primary monitor,
/// in each dimension.
pub const SCREEN_PERCENT: u32 = 90;

/// The factor by which a dimension must shrink to fit under a bound:
/// 1 where it already fits, the ceiling of the ratio otherwise.
pub open spec fn spec_scale(max_size: int, curr_size: int) -> int {
    if curr_size <= max_size {
        1
    } else {
        (curr_size + max_size - 1) / max_size
    }
}

pub fn calc_scale(max_size: u32, curr_size: u32) -> (r: u32)
    requires
        max_size < curr_size ==> max_size >= 1,
    ensures
        r == spec_scale(max_size as int, curr_size as int),
        r >= 1,
        max_size >= curr_size ==> r == 1,
        max_size < curr_size ==> (r - 1) * max_size < curr_size <= r * max_size,
{
    if max_size >= curr_size {
        1
    } else {
        let q: u32 = (curr_size - 1) / max_size;
        proof {
            let a = curr_size as int;
            let b = max_size as int;
            let qi = q as int;
            lemma_fundamental_div_mod(a - 1, b);
            lemma_mod_bound(a - 1, b);
            let rem = (a - 1) % b;
            assert(a - 1 == b * qi + rem);
            assert((qi + 1) * b == b * qi + b) by (nonlinear_arith);
            assert(a + b - 1 == (qi + 1) * b + rem);
            lemma_fundamental_div_mod_converse_div(a + b - 1, b, qi + 1, rem);
            lemma_div_nonincreasing(a - 1, b);
            assert(qi * b == b * qi) by (nonlinear_arith);
        }
        q + 1
    }
}

/// The largest window dimension allowed for a screen dimension:
/// `SCREEN_PERCENT` percent of it, rounded down.
pub open spec fn spec_max_dim(size: int) -> int {
    size * (SCREEN_PERCENT as int) / 100
}

pub fn max_screen_dims(screen_width: u32, screen_height: u32) -> (r: (u32, u32))
    ensures
        r.0 == spec_max_dim(screen_width as int),
        r.1 == spec_max_dim(screen_height as int),
{
    let w: u64 = screen_width as u64 * SCREEN_PERCENT as u64 / 100;
    let h: u64 = screen_height as u64 * SCREEN_PERCENT as u64 / 100;
    proof {
        lemma_max_dim_fits(screen_width as int);
        lemma_max_dim_fits(screen_height as int);
    }
    (w as u32, h as u32)
}

proof fn lemma_max_dim_fits(size: int)
    requires
        0 <= size,
    ensures
        0 <= spec_max_dim(size) <= size,
{
    lemma_div_is_ordered(size * (SCREEN_PERCENT as int), size * 100, 100);
    lemma_div_multiples_vanish(size, 100);
    assert(100 * size == size * 100) by (nonlinear_arith);
    assert(size * (SCREEN_PERCENT as int) >= 0) by (nonlinear_arith)
        requires 0 <= size;
}

/// The common scale factor for both dimensions: the larger of the two
/// per-dimension factors, so the image fits under both bounds.
pub open spec fn spec_fit_scale(
    max_width: int,
    max_height: int,
    img_width: int,
    img_height: int,
) -> int {
    let horz = spec_scale(max_width, img_width);
    let vert = spec_scale(max_height, img_height);
    if horz >= vert {
        horz
    } else {
        vert
    }
}

/// The size of the window that shows an image whole: each image dimension
/// divided by the common scale factor.
pub fn window_size(img_width: u32, img_height: u32, max_width: u32, max_height: u32) -> (r: (
    u32,
    u32,
))
    requires
        max_width < img_width ==> max_width >= 1,
        max_height < img_height ==> max_height >= 1,
    ensures
        r.0 == img_width as int / spec_fit_scale(
            max_width as int,
            max_height as int,
            img_width as int,
            img_height as int,
        ),
        r.1 == img_height as int / spec_fit_scale(
            max_width as int,
            max_height as int,
            img_width as int,
            img_height as int,
        ),
{
    let horz = calc_scale(max_width, img_width);
    let vert = calc_scale(max_height, img_height);
    let scale: u32 = if horz >= vert {
        horz
    } else {
        vert
    };
    (img_width / scale, img_height / scale)
}

} // verus!
