//! Target-size planning: computes the glyph-grid dimensions of the output
//! from the source dimensions, the user scale factor, the glyph cell aspect
//! ratio, and a maximum-width safety cap.
//!
//! Scale factors are fixed-point integers: a factor of 1.0 is [`SCALE_ONE`].
//! The cap is applied to the width, and the height is always derived from the
//! *effective* (capped) width, so capping never distorts the aspect ratio.

use vstd::prelude::*;
use crate::errors::ConvError;

verus! {

/// Pixel width of one rendered glyph cell.
pub const CELL_WIDTH: u32 = 10;

/// Pixel height of one rendered glyph cell.
pub const CELL_HEIGHT: u32 = 18;

/// Safety cap on the glyph-grid width of the output.
pub const MAX_ASCII_WIDTH: u32 = 400;

/// Fixed-point denominator for scale and adjustment factors: 1000 means 1.0.
pub const SCALE_ONE: u32 = 1000;

/// Raw (uncapped) glyph-grid width. With the aspect-compensating
/// orientation (the default), the width is pre-multiplied by the cell
/// aspect ratio (cell height over cell width) so that output proportions
/// match the source; in the direct orientation the scale factor is taken
/// as a fraction of the source width as it stands.
pub open spec fn raw_width(src_w: int, scale_milli: int, compensate: bool) -> int {
    if compensate {
        (scale_milli * src_w * (CELL_HEIGHT as int)) / ((CELL_WIDTH as int) * (SCALE_ONE as int))
    } else {
        (scale_milli * src_w) / (SCALE_ONE as int)
    }
}

/// Target width: the raw width clamped to `[1, cap]`.
pub open spec fn target_width(src_w: int, scale_milli: int, cap: int, compensate: bool) -> int {
    let raw = raw_width(src_w, scale_milli, compensate);
    if raw > cap {
        cap
    } else if raw < 1 {
        1
    } else {
        raw
    }
}

/// Height derived from an already-capped target width `tw`: floor of
/// `tw * (cell width / cell height) * (src_h / src_w)`, clamped below to 1.
/// Deriving from `tw` (never from the raw scale) keeps the aspect ratio
/// intact under capping.
pub open spec fn derived_height(src_w: int, src_h: int, tw: int) -> int {
    let h = (tw * (CELL_WIDTH as int) * src_h) / (src_w * (CELL_HEIGHT as int));
    if h < 1 {
        1
    } else {
        h
    }
}

/// Target height for the given source size, scale, cap and orientation.
pub open spec fn target_height(
    src_w: int,
    src_h: int,
    scale_milli: int,
    cap: int,
    compensate: bool,
) -> int {
    derived_height(src_w, src_h, target_width(src_w, scale_milli, cap, compensate))
}

/// Computes the output glyph-grid dimensions `(width, height)`.
///
/// Fails with `InvalidDimensions` when the source has a zero dimension, or
/// when the derived height would not fit in a `u32`.
pub fn plan_dimensions(src_w: u32, src_h: u32, scale_milli: u32, cap: u32, compensate: bool) -> (r:
    Result<(u32, u32), ConvError>)
    requires
        1 <= cap,
    ensures
        match r {
            Ok(d) => {
                &&& src_w > 0
                &&& src_h > 0
                &&& d.0 == target_width(src_w as int, scale_milli as int, cap as int, compensate)
                &&& d.1 == target_height(
                    src_w as int,
                    src_h as int,
                    scale_milli as int,
                    cap as int,
                    compensate,
                )
                &&& 1 <= d.0 <= cap
                &&& 1 <= d.1
            },
            Err(e) => e matches ConvError::InvalidDimensions,
        },
        r is Err <==> (src_w == 0 || src_h == 0 || target_height(
            src_w as int,
            src_h as int,
            scale_milli as int,
            cap as int,
            compensate,
        ) > u32::MAX),
{
    if src_w == 0 || src_h == 0 {
        return Err(ConvError::InvalidDimensions);
    }
    proof {
        assert((scale_milli as int) * (src_w as int) <= 0x10000000000000000) by (nonlinear_arith)
            requires
                0 <= (scale_milli as int) && (scale_milli as int) < 0x100000000,
                0 <= (src_w as int) && (src_w as int) < 0x100000000,
        ;
        assert((scale_milli as int) * (src_w as int) * 18 <= 0x1000000000000000000)
            by (nonlinear_arith)
            requires
                0 <= (scale_milli as int) * (src_w as int) <= 0x10000000000000000,
        ;
    }
    let base: u128 = (scale_milli as u128) * (src_w as u128);
    let raw: u128 = if compensate {
        base * (CELL_HEIGHT as u128) / 10000
    } else {
        base / 1000
    };
    let tw: u32 = if raw > (cap as u128) {
        cap
    } else if raw < 1 {
        1
    } else {
        raw as u32
    };
    assert(tw == target_width(src_w as int, scale_milli as int, cap as int, compensate));
    proof {
        assert((tw as int) * 10 <= 0x10000000000) by (nonlinear_arith)
            requires
                0 <= (tw as int) && (tw as int) < 0x100000000,
        ;
        assert((tw as int) * 10 * (src_h as int) <= 0x1000000000000000000) by (nonlinear_arith)
            requires
                0 <= (tw as int) * 10 <= 0x10000000000,
                0 <= (src_h as int) && (src_h as int) < 0x100000000,
        ;
        assert((src_w as int) * 18 <= 0x100000000000) by (nonlinear_arith)
            requires
                0 <= (src_w as int) && (src_w as int) < 0x100000000,
        ;
    }
    let hnum: u128 = (tw as u128) * (CELL_WIDTH as u128) * (src_h as u128);
    let hden: u128 = (src_w as u128) * (CELL_HEIGHT as u128);
    let hq: u128 = hnum / hden;
    let th128: u128 = if hq < 1 {
        1
    } else {
        hq
    };
    if th128 > (u32::MAX as u128) {
        return Err(ConvError::InvalidDimensions);
    }
    let th: u32 = th128 as u32;
    Ok((tw, th))
}

/// Planner with the fixed default safety cap and the aspect-compensating
/// orientation of the desktop application.
pub fn plan_dimensions_default(src_w: u32, src_h: u32, scale_milli: u32) -> (r: Result<
    (u32, u32),
    ConvError,
>)
    ensures
        match r {
            Ok(d) => {
                &&& src_w > 0
                &&& src_h > 0
                &&& d.0 == target_width(
                    src_w as int,
                    scale_milli as int,
                    MAX_ASCII_WIDTH as int,
                    true,
                )
                &&& d.1 == target_height(
                    src_w as int,
                    src_h as int,
                    scale_milli as int,
                    MAX_ASCII_WIDTH as int,
                    true,
                )
                &&& 1 <= d.0 <= MAX_ASCII_WIDTH
                &&& 1 <= d.1
            },
            Err(e) => e matches ConvError::InvalidDimensions,
        },
        r is Err <==> (src_w == 0 || src_h == 0 || target_height(
            src_w as int,
            src_h as int,
            scale_milli as int,
            MAX_ASCII_WIDTH as int,
            true,
        ) > u32::MAX),
{
    plan_dimensions(src_w, src_h, scale_milli, MAX_ASCII_WIDTH, true)
}

/// For every scale factor and every cap: the planned width never exceeds the
/// cap, and whenever the height is not degenerate (its floor derivation is at
/// least one row) it is exactly the floor of the capped width scaled by the
/// source aspect ratio and the inverse cell-aspect compensation — so the
/// output aspect ratio matches the source's, within the cell compensation
/// factor and one unit of integer rounding, no matter how hard the cap bit.
pub proof fn lemma_planner_aspect(
    src_w: int,
    src_h: int,
    scale_milli: int,
    cap: int,
    compensate: bool,
)
    requires
        1 <= src_w,
        1 <= src_h,
        0 <= scale_milli,
        1 <= cap,
    ensures
        1 <= target_width(src_w, scale_milli, cap, compensate) <= cap,
        ({
            let tw = target_width(src_w, scale_milli, cap, compensate);
            let th = target_height(src_w, src_h, scale_milli, cap, compensate);
            (tw * (CELL_WIDTH as int) * src_h) / (src_w * (CELL_HEIGHT as int)) >= 1 ==> {
                &&& th * (src_w * (CELL_HEIGHT as int)) <= tw * (CELL_WIDTH as int) * src_h
                &&& tw * (CELL_WIDTH as int) * src_h < (th + 1) * (src_w * (CELL_HEIGHT as int))
            }
        }),
{
    let tw = target_width(src_w, scale_milli, cap, compensate);
    let n = tw * (CELL_WIDTH as int) * src_h;
    let d = src_w * (CELL_HEIGHT as int);
    assert(d >= 18) by (nonlinear_arith)
        requires
            src_w >= 1,
            d == src_w * 18,
    ;
    assert(n >= 0) by (nonlinear_arith)
        requires
            tw >= 1,
            src_h >= 1,
            n == tw * 10 * src_h,
    ;
    vstd::arithmetic::div_mod::lemma_fundamental_div_mod(n, d);
    vstd::arithmetic::div_mod::lemma_mod_bound(n, d);
    let q = n / d;
    if q >= 1 {
        let th = target_height(src_w, src_h, scale_milli, cap, compensate);
        assert(th == q);
        assert(n == d * q + n % d);
        assert(q * d <= n) by (nonlinear_arith)
            requires
                n == d * q + n % d,
                n % d >= 0,
        ;
        assert(n < (q + 1) * d) by (nonlinear_arith)
            requires
                n == d * q + n % d,
                n % d < d,
        ;
    }
}

} // verus!
