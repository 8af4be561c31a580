//! Target dimensions for each resize mode.
use crate::options::ResizeMode;
use vstd::prelude::*;

verus! {

/// A resize mode that names no usable size.
#[derive(Clone, Copy, Debug, PartialEq, Eq, Structural)]
pub enum ResizeError {
    InvalidResize,
}

/// `num / den` rounded to the nearest integer, halves rounded up (`den > 0`, `num >= 0`).
pub open spec fn round_ratio(num: int, den: int) -> int {
    (2 * num + den) / (2 * den)
}

/// A dimension forced into `1..=u32::MAX`.
pub open spec fn clamp_dim(v: int) -> u32 {
    if v < 1 {
        1
    } else if v > u32::MAX {
        u32::MAX
    } else {
        v as u32
    }
}

/// A side of the fit box: 0 leaves that side unbounded.
pub open spec fn bound_of(side: u32) -> int {
    if side == 0 {
        u32::MAX as int
    } else {
        side as int
    }
}

/// The dimensions a `width` x `height` image takes on under `mode`.
///
/// `Fit` scales by the smaller of the two side ratios and rounds each side to the nearest
/// pixel (at least 1); `Percent` truncates and keeps each side at least 1.
pub open spec fn target_dimensions(width: u32, height: u32, mode: ResizeMode) -> Result<
    (u32, u32),
    ResizeError,
> {
    match mode {
        ResizeMode::Original => Ok((width, height)),
        ResizeMode::Exact { width: w, height: h } => if w > 0 && h > 0 {
            Ok((w, h))
        } else {
            Err(ResizeError::InvalidResize)
        },
        ResizeMode::Fit { width: mw, height: mh } => if mw == 0 && mh == 0 {
            Err(ResizeError::InvalidResize)
        } else if width == 0 && height == 0 {
            Ok((0, 0))
        } else {
            let bw = bound_of(mw);
            let bh = bound_of(mh);
            if bw * height <= bh * width {
                Ok(
                    (
                        clamp_dim(round_ratio(width * bw, width as int)),
                        clamp_dim(round_ratio(height * bw, width as int)),
                    ),
                )
            } else {
                Ok(
                    (
                        clamp_dim(round_ratio(width * bh, height as int)),
                        clamp_dim(round_ratio(height * bh, height as int)),
                    ),
                )
            }
        },
        ResizeMode::Percent(p) => if p > 0 {
            Ok((clamp_dim(width * p / 100), clamp_dim(height * p / 100)))
        } else {
            Err(ResizeError::InvalidResize)
        },
    }
}

/// A product of two bounded naturals is bounded by the product of the bounds.
proof fn lemma_mul_le(a: int, b: int, ma: int, mb: int)
    by (nonlinear_arith)
    requires
        0 <= a <= ma,
        0 <= b <= mb,
    ensures
        a * b <= ma * mb,
        0 <= a * b,
{
}

/// `round_ratio` computed without overflow for factors below 2^32.
fn scaled_side(side: u32, num: u32, den: u32) -> (r: u32)
    requires
        den > 0,
    ensures
        r == clamp_dim(round_ratio(side * num, den as int)),
{
    proof {
        lemma_mul_le(side as int, num as int, 0xffff_ffff, 0xffff_ffff);
    }
    let product: u128 = (side as u128) * (num as u128);
    let rounded: u128 = (2 * product + den as u128) / (2 * den as u128);
    if rounded < 1 {
        1
    } else if rounded > 0xffff_ffff {
        0xffff_ffff
    } else {
        rounded as u32
    }
}

/// A percentage of a side, truncated, kept in `1..=u32::MAX`.
fn percent_side(side: u32, percent: u16) -> (r: u32)
    ensures
        r == clamp_dim(side * percent / 100),
{
    proof {
        lemma_mul_le(side as int, percent as int, 0xffff_ffff, 0xffff);
    }
    let product: u64 = (side as u64) * (percent as u64);
    let scaled: u64 = product / 100;
    if scaled < 1 {
        1
    } else if scaled > 0xffff_ffff {
        0xffff_ffff
    } else {
        scaled as u32
    }
}

/// The dimensions an image of `width` x `height` takes on under `mode`.
pub fn resize_dimensions(width: u32, height: u32, mode: ResizeMode) -> (r: Result<
    (u32, u32),
    ResizeError,
>)
    ensures
        r == target_dimensions(width, height, mode),
{
    match mode {
        ResizeMode::Original => Ok((width, height)),
        ResizeMode::Exact { width: w, height: h } => {
            if w > 0 && h > 0 {
                Ok((w, h))
            } else {
                Err(ResizeError::InvalidResize)
            }
        },
        ResizeMode::Fit { width: mw, height: mh } => {
            if mw == 0 && mh == 0 {
                return Err(ResizeError::InvalidResize);
            }
            if width == 0 && height == 0 {
                return Ok((0, 0));
            }
            let bw: u32 = if mw == 0 {
                0xffff_ffff
            } else {
                mw
            };
            let bh: u32 = if mh == 0 {
                0xffff_ffff
            } else {
                mh
            };
            proof {
                lemma_mul_le(bw as int, height as int, 0xffff_ffff, 0xffff_ffff);
                lemma_mul_le(bh as int, width as int, 0xffff_ffff, 0xffff_ffff);
            }
            let lhs: u64 = (bw as u64) * (height as u64);
            let rhs: u64 = (bh as u64) * (width as u64);
            if lhs <= rhs {
                assert(width > 0) by (nonlinear_arith)
                    requires
                        lhs == bw * height,
                        rhs == bh * width,
                        lhs <= rhs,
                        bw > 0,
                        width > 0 || height > 0,
                ;
                Ok((scaled_side(width, bw, width), scaled_side(height, bw, width)))
            } else {
                assert(height > 0) by (nonlinear_arith)
                    requires
                        lhs == bw * height,
                        rhs == bh * width,
                        lhs > rhs,
                ;
                Ok((scaled_side(width, bh, height), scaled_side(height, bh, height)))
            }
        },
        ResizeMode::Percent(p) => {
            if p > 0 {
                Ok((percent_side(width, p), percent_side(height, p)))
            } else {
                Err(ResizeError::InvalidResize)
            }
        },
    }
}


proof fn lemma_round_exact(side: int, bound: int)
    by (nonlinear_arith)
    requires
        side > 0,
        bound >= 0,
    ensures
        round_ratio(side * bound, side) == bound,
{
    assert(2 * (side * bound) + side == (2 * side) * bound + side);
}

proof fn lemma_round_below(other: int, bound: int, side: int, limit: int)
    by (nonlinear_arith)
    requires
        side > 0,
        other >= 0,
        bound >= 0,
        limit >= 0,
        other * bound <= limit * side,
    ensures
        0 <= round_ratio(other * bound, side) <= limit,
{
    assert(2 * (other * bound) + side < (2 * side) * (limit + 1));
}

/// Fitting keeps a non-empty image inside the box, touching it on at least one side.
pub proof fn lemma_fit_inside_box(width: u32, height: u32, max_width: u32, max_height: u32)
    requires
        width > 0,
        height > 0,
        max_width > 0 || max_height > 0,
    ensures
        target_dimensions(width, height, ResizeMode::Fit { width: max_width, height: max_height })
            matches Ok((w, h)) && w <= bound_of(max_width) && h <= bound_of(max_height) && (w
            == bound_of(max_width) || h == bound_of(max_height)),
{
    let bw = bound_of(max_width);
    let bh = bound_of(max_height);
    if bw * height <= bh * width {
        lemma_round_exact(width as int, bw);
        assert((height as int) * bw <= bh * (width as int)) by (nonlinear_arith)
            requires
                bw * height <= bh * width,
        ;
        lemma_round_below(height as int, bw, width as int, bh);
    } else {
        lemma_round_exact(height as int, bh);
        assert((width as int) * bh <= bw * (height as int)) by (nonlinear_arith)
            requires
                bw * height > bh * width,
        ;
        lemma_round_below(width as int, bh, height as int, bw);
    }
}


/// A percentage scales each side by p/100, rounded down, but never below one pixel nor
/// above `u32::MAX`: so a percentage of 100 or more never shrinks a side and one of 100 or
/// less never enlarges it.
pub proof fn lemma_percent_scales(width: u32, height: u32, p: u16)
    requires
        p > 0,
    ensures
        target_dimensions(width, height, ResizeMode::Percent(p)) matches Ok((w, h)) && {
            &&& 100 <= width * p < 100 * (u32::MAX + 1) ==> w * 100 <= width * p < (w + 1) * 100
            &&& width * p < 100 ==> w == 1
            &&& width * p >= 100 * (u32::MAX + 1) ==> w == u32::MAX
            &&& 100 <= height * p < 100 * (u32::MAX + 1) ==> h * 100 <= height * p < (h + 1) * 100
            &&& height * p < 100 ==> h == 1
            &&& height * p >= 100 * (u32::MAX + 1) ==> h == u32::MAX
            &&& p >= 100 ==> w >= width && h >= height
            &&& p <= 100 && width > 0 ==> w <= width
            &&& p <= 100 && height > 0 ==> h <= height
        },
{
    lemma_percent_side(width, p);
    lemma_percent_side(height, p);
}

/// One side scaled by a percentage.
proof fn lemma_percent_side(side: u32, p: u16)
    requires
        p > 0,
    ensures
        ({
            let s = clamp_dim(side * p / 100);
            &&& 100 <= side * p < 100 * (u32::MAX + 1) ==> s * 100 <= side * p < (s + 1) * 100
            &&& side * p < 100 ==> s == 1
            &&& side * p >= 100 * (u32::MAX + 1) ==> s == u32::MAX
            &&& p >= 100 ==> s >= side
            &&& p <= 100 && side > 0 ==> s <= side
        }),
{
    let x: int = side * p;
    assert(x >= 0) by (nonlinear_arith)
        requires
            x == side * p,
    ;
    if p >= 100 {
        assert(x >= side * 100) by (nonlinear_arith)
            requires
                x == side * p,
                p >= 100,
                side >= 0,
        ;
    }
    if p <= 100 {
        assert(x <= side * 100) by (nonlinear_arith)
            requires
                x == side * p,
                p <= 100,
                side >= 0,
        ;
    }
}

}
