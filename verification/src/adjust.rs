//! Per-pixel color adjustment: saturation, then brightness, then contrast,
//! composed on exact fixed-point intermediates before a single final clamp
//! to [0, 255]. The order is fixed; reordering would change output.
//!
//! Multipliers are fixed-point with denominator 1000 (1000 means 1.0). A
//! stage whose multiplier is within 0.01 of 1.0 is skipped outright, so
//! all-ones parameters leave every channel bit-identical.

use vstd::prelude::*;
use crate::frame::Frame;
use crate::frame::pixel_index;
use crate::frame::lemma_pixel_index_bounds;

verus! {

/// Saturation, brightness and contrast multipliers, fixed-point with
/// denominator 1000.
pub struct AdjustParams {
    pub saturation_milli: i32,
    pub brightness_milli: i32,
    pub contrast_milli: i32,
}

impl AdjustParams {
    /// Multipliers bounded so the staged fixed-point arithmetic stays well
    /// inside 128-bit intermediates (|factor| at most 1000.0).
    pub open spec fn wf(self) -> bool {
        &&& -1_000_000 <= self.saturation_milli <= 1_000_000
        &&& -1_000_000 <= self.brightness_milli <= 1_000_000
        &&& -1_000_000 <= self.contrast_milli <= 1_000_000
    }

    /// A stage applies only when its multiplier differs from 1.0 by more
    /// than 0.01.
    pub open spec fn saturation_applies(self) -> bool {
        self.saturation_milli < 990 || self.saturation_milli > 1010
    }

    pub open spec fn brightness_applies(self) -> bool {
        self.brightness_milli < 990 || self.brightness_milli > 1010
    }

    pub open spec fn contrast_applies(self) -> bool {
        self.contrast_milli < 990 || self.contrast_milli > 1010
    }

    /// Numerator after the saturation stage, for a channel `c` of a pixel
    /// whose channel sum is `sum`: `gray + saturation * (c - gray)` with
    /// `gray = sum / 3`, written over the common denominator 3000.
    pub open spec fn sat_num(self, c: int, sum: int) -> int {
        if self.saturation_applies() {
            sum * 1000 + self.saturation_milli * (3 * c - sum)
        } else {
            c
        }
    }

    pub open spec fn sat_den(self) -> int {
        if self.saturation_applies() {
            3000
        } else {
            1
        }
    }

    /// Numerator and denominator after the brightness stage.
    pub open spec fn bright_num(self, c: int, sum: int) -> int {
        if self.brightness_applies() {
            self.sat_num(c, sum) * self.brightness_milli
        } else {
            self.sat_num(c, sum)
        }
    }

    pub open spec fn bright_den(self) -> int {
        if self.brightness_applies() {
            self.sat_den() * 1000
        } else {
            self.sat_den()
        }
    }

    /// Numerator and denominator after the contrast stage:
    /// `(v - 128) * contrast + 128` over the running denominator.
    pub open spec fn contrast_num(self, c: int, sum: int) -> int {
        if self.contrast_applies() {
            (self.bright_num(c, sum) - 128 * self.bright_den()) * self.contrast_milli + 128000
                * self.bright_den()
        } else {
            self.bright_num(c, sum)
        }
    }

    pub open spec fn contrast_den(self) -> int {
        if self.contrast_applies() {
            self.bright_den() * 1000
        } else {
            self.bright_den()
        }
    }

    /// The adjusted channel value: the exact rational result of the three
    /// stages, clamped to [0, 255] and truncated to an integer.
    pub open spec fn adjusted_channel(self, c: int, sum: int) -> int {
        let n = self.contrast_num(c, sum);
        let d = self.contrast_den();
        if n <= 0 {
            0
        } else if n >= 255 * d {
            255
        } else {
            n / d
        }
    }

    /// The adjusted RGB triple of a pixel.
    pub open spec fn adjusted_pixel(self, c: (u8, u8, u8)) -> (u8, u8, u8) {
        let sum = c.0 as int + c.1 as int + c.2 as int;
        (
            self.adjusted_channel(c.0 as int, sum) as u8,
            self.adjusted_channel(c.1 as int, sum) as u8,
            self.adjusted_channel(c.2 as int, sum) as u8,
        )
    }
}

/// The whole buffer's bytes after the per-pixel adjustment: each aligned
/// byte triple is the adjusted pixel of the original triple.
pub open spec fn adjusted_data(data: Seq<u8>, p: AdjustParams) -> Seq<u8> {
    Seq::new(
        data.len(),
        |i: int|
            {
                let base = 3 * (i / 3);
                let out = p.adjusted_pixel((data[base], data[base + 1], data[base + 2]));
                if i % 3 == 0 {
                    out.0
                } else if i % 3 == 1 {
                    out.1
                } else {
                    out.2
                }
            },
    )
}

/// With every multiplier within the skip band around 1.0 — in particular
/// with brightness, contrast and saturation all exactly 1.0 — no stage
/// applies, and the adjuster leaves every channel bit-identical.
pub proof fn lemma_identity_params_fix_pixel(p: AdjustParams, c: (u8, u8, u8))
    requires
        990 <= p.saturation_milli <= 1010,
        990 <= p.brightness_milli <= 1010,
        990 <= p.contrast_milli <= 1010,
    ensures
        p.adjusted_pixel(c) == c,
{
    let sum = c.0 as int + c.1 as int + c.2 as int;
    assert(p.adjusted_channel(c.0 as int, sum) == c.0 as int);
    assert(p.adjusted_channel(c.1 as int, sum) == c.1 as int);
    assert(p.adjusted_channel(c.2 as int, sum) == c.2 as int);
}

/// Adjusts one channel of a pixel whose channel sum is `sum`.
fn adjust_channel(c: u8, sum: i32, p: &AdjustParams) -> (o: u8)
    requires
        p.wf(),
        c <= 255,
        c as int <= sum as int <= 765,
        0 <= sum,
    ensures
        o as int == p.adjusted_channel(c as int, sum as int),
{
    let apply_sat = p.saturation_milli < 990 || p.saturation_milli > 1010;
    let apply_bright = p.brightness_milli < 990 || p.brightness_milli > 1010;
    let apply_contrast = p.contrast_milli < 990 || p.contrast_milli > 1010;

    let mut n: i128 = c as i128;
    let mut d: i128 = 1;

    if apply_sat {
        let sm = p.saturation_milli as i128;
        let dev: i128 = 3 * n - (sum as i128);
        proof {
            assert(-765000000000 <= (sm as int) * (dev as int) <= 765000000000)
                by (nonlinear_arith)
                requires
                    -1000000 <= (sm as int) <= 1000000,
                    -765 <= (dev as int) <= 765,
            ;
        }
        n = (sum as i128) * 1000 + sm * dev;
        d = 3000;
        assert(n == p.sat_num(c as int, sum as int));
    }
    assert(-0x100000000000 <= n <= 0x100000000000);
    assert(n == p.sat_num(c as int, sum as int) && d == p.sat_den());

    if apply_bright {
        let bm = p.brightness_milli as i128;
        proof {
            assert(-0x1000000000000000000 <= (n as int) * (bm as int) <= 0x1000000000000000000)
                by (nonlinear_arith)
                requires
                    -1000000 <= (bm as int) <= 1000000,
                    -0x100000000000 <= (n as int) <= 0x100000000000,
            ;
        }
        n = n * bm;
        d = d * 1000;
    }
    assert(-0x1000000000000000000 <= n <= 0x1000000000000000000);
    assert(n == p.bright_num(c as int, sum as int) && d == p.bright_den());
    assert(1 <= d <= 3000000);

    if apply_contrast {
        let cm = p.contrast_milli as i128;
        let centered: i128 = n - 128 * d;
        proof {
            assert(-0x10000000000000000000000000 <= (centered as int) * (cm as int)
                <= 0x10000000000000000000000000) by (nonlinear_arith)
                requires
                    -1000000 <= (cm as int) <= 1000000,
                    -0x2000000000000000000 <= (centered as int) <= 0x2000000000000000000,
            ;
        }
        n = centered * cm + 128000 * d;
        d = d * 1000;
    }
    assert(n == p.contrast_num(c as int, sum as int) && d == p.contrast_den());
    assert(1 <= d <= 3000000000);

    if n <= 0 {
        0
    } else if n >= 255 * d {
        255
    } else {
        proof {
            assert(0 <= (n as int) / (d as int) < 255) by (nonlinear_arith)
                requires
                    0 < (n as int),
                    0 < (d as int),
                    (n as int) < 255 * (d as int),
            ;
        }
        (n / d) as u8
    }
}

/// Adjusts one pixel: saturation, then brightness, then contrast, with a
/// single final clamp.
pub fn adjust_pixel(c: (u8, u8, u8), p: &AdjustParams) -> (o: (u8, u8, u8))
    requires
        p.wf(),
    ensures
        o == p.adjusted_pixel(c),
{
    let sum: i32 = c.0 as i32 + c.1 as i32 + c.2 as i32;
    (adjust_channel(c.0, sum, p), adjust_channel(c.1, sum, p), adjust_channel(c.2, sum, p))
}

/// Adjusts every pixel of the working buffer in place. Pixels are mutually
/// independent: each output pixel depends only on the same input pixel, so
/// the whole buffer becomes exactly `adjusted_data` of the old buffer.
pub fn adjust_frame(frame: &mut Frame, p: &AdjustParams)
    requires
        old(frame).wf(),
        p.wf(),
    ensures
        final(frame).wf(),
        final(frame).width == old(frame).width,
        final(frame).height == old(frame).height,
        forall|x: int, y: int|
            0 <= x < old(frame).width && 0 <= y < old(frame).height ==> final(frame).px(x, y)
                == p.adjusted_pixel(old(frame).px(x, y)),
        final(frame).data@ == adjusted_data(old(frame).data@, *p),
{
    let w = frame.width;
    let h = frame.height;
    let ghost orig = *frame;
    let mut y: u32 = 0;
    while y < h
        invariant
            frame.wf(),
            frame.width == w,
            frame.height == h,
            orig.wf(),
            orig.width == w,
            orig.height == h,
            p.wf(),
            y <= h,
            forall|xx: int, yy: int|
                #![trigger frame.px(xx, yy)]
                0 <= xx < w && 0 <= yy < y ==> frame.px(xx, yy) == p.adjusted_pixel(
                    orig.px(xx, yy),
                ),
            forall|xx: int, yy: int|
                #![trigger frame.px(xx, yy)]
                0 <= xx < w && y <= yy < h ==> frame.px(xx, yy) == orig.px(xx, yy),
        decreases h - y,
    {
        let mut x: u32 = 0;
        while x < w
            invariant
                frame.wf(),
                frame.width == w,
                frame.height == h,
                orig.wf(),
                orig.width == w,
                orig.height == h,
                p.wf(),
                y < h,
                x <= w,
                forall|xx: int, yy: int|
                    #![trigger frame.px(xx, yy)]
                    0 <= xx < w && 0 <= yy < y ==> frame.px(xx, yy) == p.adjusted_pixel(
                        orig.px(xx, yy),
                    ),
                forall|xx: int|
                    #![trigger frame.px(xx, y as int)]
                    0 <= xx < x ==> frame.px(xx, y as int) == p.adjusted_pixel(
                        orig.px(xx, y as int),
                    ),
                forall|xx: int|
                    #![trigger frame.px(xx, y as int)]
                    x <= xx < w ==> frame.px(xx, y as int) == orig.px(xx, y as int),
                forall|xx: int, yy: int|
                    #![trigger frame.px(xx, yy)]
                    0 <= xx < w && y < yy < h ==> frame.px(xx, yy) == orig.px(xx, yy),
            decreases w - x,
        {
            let cur = frame.get(x, y);
            let adj = adjust_pixel(cur, p);
            let ghost pre = *frame;
            frame.set(x, y, adj);
            proof {
                lemma_distinct_pixels(w as int, h as int, x as int, y as int);
                assert forall|xx: int, yy: int|
                    #![trigger frame.px(xx, yy)]
                    0 <= xx < w && 0 <= yy < h && (xx != x as int || yy != y as int)
                    implies frame.px(xx, yy) == pre.px(xx, yy) by {
                    let i0 = pixel_index(w as int, xx, yy);
                    assert(frame.data@[i0] == pre.data@[i0]);
                    assert(frame.data@[i0 + 1] == pre.data@[i0 + 1]);
                    assert(frame.data@[i0 + 2] == pre.data@[i0 + 2]);
                }
            }
            x = x + 1;
        }
        y = y + 1;
    }
    proof {
        let wI = w as int;
        let hI = h as int;
        assert forall|j: int| 0 <= j < frame.data@.len() implies frame.data@[j] == adjusted_data(
            orig.data@,
            *p,
        )[j] by {
            vstd::arithmetic::div_mod::lemma_fundamental_div_mod(j, 3);
            vstd::arithmetic::div_mod::lemma_mod_bound(j, 3);
            let pix = j / 3;
            let k = j % 3;
            vstd::arithmetic::div_mod::lemma_fundamental_div_mod(pix, wI);
            vstd::arithmetic::div_mod::lemma_mod_bound(pix, wI);
            let y0 = pix / wI;
            let x0 = pix % wI;
            assert(3 * (wI * hI) == 3 * wI * hI) by (nonlinear_arith);
            assert(pix < wI * hI);
            assert(0 <= y0 < hI) by (nonlinear_arith)
                requires
                    pix == wI * y0 + x0,
                    0 <= x0 < wI,
                    0 <= pix < wI * hI,
                    wI > 0,
            ;
            assert(pixel_index(wI, x0, y0) == 3 * pix);
            assert(frame.px(x0, y0) == p.adjusted_pixel(orig.px(x0, y0)));
        }
        assert(frame.data@ =~= adjusted_data(orig.data@, *p));
    }
}

/// Two distinct in-bounds pixels occupy disjoint byte ranges.
proof fn lemma_distinct_pixels(w: int, h: int, x: int, y: int)
    requires
        0 <= x < w,
        0 <= y < h,
    ensures
        forall|xx: int, yy: int|
            0 <= xx < w && 0 <= yy < h && (xx != x || yy != y) ==> #[trigger] pixel_index(
                w,
                xx,
                yy,
            ) + 2 < pixel_index(w, x, y) || pixel_index(w, x, y) + 2 < pixel_index(w, xx, yy),
        forall|xx: int, yy: int|
            0 <= xx < w && 0 <= yy < h ==> 0 <= #[trigger] pixel_index(w, xx, yy)
                && pixel_index(w, xx, yy) + 2 < 3 * w * h,
{
    assert forall|xx: int, yy: int|
        0 <= xx < w && 0 <= yy < h && (xx != x || yy != y) implies #[trigger] pixel_index(w, xx, yy)
        + 2 < pixel_index(w, x, y) || pixel_index(w, x, y) + 2 < pixel_index(w, xx, yy) by {
        assert((yy * w + xx < y * w + x) || (y * w + x < yy * w + xx)) by (nonlinear_arith)
            requires
                0 <= xx < w,
                0 <= yy < h,
                0 <= x < w,
                0 <= y < h,
                xx != x || yy != y,
        ;
    }
    assert forall|xx: int, yy: int| 0 <= xx < w && 0 <= yy < h implies 0 <= #[trigger] pixel_index(
        w,
        xx,
        yy,
    ) && pixel_index(w, xx, yy) + 2 < 3 * w * h by {
        lemma_pixel_index_bounds(w, h, xx, yy);
    }
}

} // verus!
