//! The conversion pipeline: resolve dimensions, resize, adjust colors,
//! generate the glyph text, render and composite the raster, and encode the
//! transport preview. Strictly sequential composition: a stage never starts
//! until the previous stage's work for the same conversion is complete.
//!
//! Decoding the source file and persisting the artifacts are the caller's
//! input/output; this module computes everything between.

use vstd::prelude::*;
use vstd::string::StringExecFns;
use crate::adjust::AdjustParams;
use crate::adjust::adjust_frame;
use crate::adjust::adjusted_data;
use crate::ascii::glyph_ramp;
use crate::ascii::ascii_lines;
use crate::ascii::join_lines;
use crate::ascii::views_of;
use crate::ascii::lemma_joined_len;
use crate::ascii::row_matches;
use crate::dims::CELL_WIDTH;
use crate::dims::CELL_HEIGHT;
use crate::dims::MAX_ASCII_WIDTH;
use crate::dims::plan_dimensions_default;
use crate::dims::target_width;
use crate::dims::target_height;
use crate::errors::ConvError;
use crate::frame::Frame;
use crate::ascii::ramp_spec;
use crate::ascii::glyph_index_spec;
use crate::ascii::gray_of;
use crate::ascii::joined;
use crate::preview::encode_preview;
use crate::preview::preview_succeeds;
use crate::preview::preview_payload;
use crate::raster::Raster;
use crate::raster::raster_dims;
use crate::raster::dyn_dims;
use crate::raster::image_dims;
use crate::raster::font_parses;
use crate::raster::load_font;
use crate::raster::resized_px;
use crate::raster::raster_into_bytes;
use crate::raster::resize_to_frame;
use crate::raster::raster_px;
use crate::render::render_row;
use crate::render::composite_rows;
use crate::render::drawn_runs_px;
use crate::render::zero_px;
use crate::render::stacked_px;
use crate::render::rows_px;
use crate::runs::runs_of;
use crate::runs::row_colors;

verus! {

/// One conversion request: the source path, the output base name, and the
/// scale and color multipliers, all fixed-point with denominator 1000
/// (1000 means 1.0). Immutable per call.
pub struct ConversionParams {
    pub filepath: String,
    pub output_name: String,
    pub scale_factor_milli: u32,
    pub brightness_milli: i32,
    pub contrast_milli: i32,
    pub saturation_milli: i32,
}

impl ConversionParams {
    /// The color-adjustment multipliers of this request.
    pub open spec fn adjust_spec(self) -> AdjustParams {
        AdjustParams {
            saturation_milli: self.saturation_milli,
            brightness_milli: self.brightness_milli,
            contrast_milli: self.contrast_milli,
        }
    }

    /// Color multipliers within the bounds the fixed-point arithmetic
    /// supports; the scale factor needs no bound.
    pub open spec fn wf(self) -> bool {
        self.adjust_spec().wf()
    }

    pub fn adjust_params(&self) -> (a: AdjustParams)
        ensures
            a == self.adjust_spec(),
    {
        AdjustParams {
            saturation_milli: self.saturation_milli,
            brightness_milli: self.brightness_milli,
            contrast_milli: self.contrast_milli,
        }
    }
}

/// What one successful conversion hands back to the caller: the paths of
/// the persisted artifacts and the transport preview payload.
pub struct ConversionResult {
    pub image_path: String,
    pub image_base64: String,
    pub txt_path: String,
}

/// The computed artifacts of one conversion: the full-resolution raster,
/// the glyph text, and the transient transport preview. The raster and the
/// text are persisted by the caller; the preview never is.
pub struct OutputArtifacts {
    pub raster_width: u32,
    pub raster_height: u32,
    pub raster: Vec<u8>,
    pub text: String,
    pub preview: String,
}

/// The output raster of a tw x th glyph grid stays within machine limits:
/// its pixel height fits in u32 and its byte count in usize.
pub open spec fn raster_fits(tw: int, th: int) -> bool {
    &&& th * (CELL_HEIGHT as int) <= u32::MAX
    &&& 3 * (tw * (CELL_WIDTH as int)) * (th * (CELL_HEIGHT as int)) <= usize::MAX
}

/// The planned glyph grid of a source image under this request, with the
/// default width cap.
pub open spec fn planned_grid(src_w: int, src_h: int, scale_milli: int) -> (int, int) {
    (
        target_width(src_w, scale_milli, MAX_ASCII_WIDTH as int, true),
        target_height(src_w, src_h, scale_milli, MAX_ASCII_WIDTH as int, true),
    )
}

/// Plans the glyph grid, resizes the decoded source onto it with the
/// nearest-neighbor filter, and applies the color adjustments in place:
/// the working buffer of one conversion, ready for text generation and
/// rendering.
///
/// Fails with InvalidDimensions exactly when the source has a zero
/// dimension or the planned output would not fit machine integers.
pub fn prepare_frame(img: &image::DynamicImage, params: &ConversionParams) -> (r: Result<
    Frame,
    ConvError,
>)
    requires
        params.wf(),
    ensures
        ({
            let sw = dyn_dims(*img).0 as int;
            let sh = dyn_dims(*img).1 as int;
            let grid = planned_grid(sw, sh, params.scale_factor_milli as int);
            let bad = sw == 0 || sh == 0 || grid.1 > u32::MAX || !raster_fits(grid.0, grid.1);
            &&& (r is Err <==> bad)
            &&& (r matches Err(e) ==> e matches ConvError::InvalidDimensions)
            &&& (r matches Ok(f) ==> {
                &&& f.wf()
                &&& f.width == grid.0
                &&& f.height == grid.1
                &&& 1 <= grid.0 <= MAX_ASCII_WIDTH as int
                &&& 1 <= grid.1
                &&& raster_fits(grid.0, grid.1)
                &&& f.data@ == adjusted_data(
                    resized_px(*img, grid.0 as nat, grid.1 as nat),
                    params.adjust_spec(),
                )
            })
        }),
{
    let (src_w, src_h) = image_dims(img);
    let (tw, th) = match plan_dimensions_default(src_w, src_h, params.scale_factor_milli) {
        Ok(d) => d,
        Err(_) => {
            return Err(ConvError::InvalidDimensions);
        },
    };
    proof {
        assert(CELL_WIDTH == 10 && CELL_HEIGHT == 18 && MAX_ASCII_WIDTH == 400);
    }
    let ch64: u64 = (th as u64) * (CELL_HEIGHT as u64);
    if ch64 > (u32::MAX as u64) {
        return Err(ConvError::InvalidDimensions);
    }
    let cw: u32 = tw * CELL_WIDTH;
    let ch: u32 = th * CELL_HEIGHT;
    proof {
        assert(3 * (cw as int) * (ch as int) <= 0x40000000000000000) by (nonlinear_arith)
            requires
                0 <= (cw as int) < 0x100000000,
                0 <= (ch as int) < 0x100000000,
        ;
    }
    let total: u128 = 3u128 * (cw as u128) * (ch as u128);
    if total > (usize::MAX as u128) {
        return Err(ConvError::InvalidDimensions);
    }
    proof {
        assert(3 * (tw as int) * (th as int) <= 3 * ((tw as int) * (CELL_WIDTH as int)) * ((
        th as int) * (CELL_HEIGHT as int))) by (nonlinear_arith)
            requires
                1 <= (tw as int),
                1 <= (th as int),
        ;
    }
    let mut frame = resize_to_frame(img, tw, th);
    let adjust = params.adjust_params();
    adjust_frame(&mut frame, &adjust);
    Ok(frame)
}

/// The working buffer of one conversion: the source resized to the planned
/// glyph grid with the nearest-neighbor filter, then color-adjusted per
/// pixel.
pub open spec fn working_px(img: image::DynamicImage, params: ConversionParams) -> Seq<u8> {
    let grid = planned_grid(
        dyn_dims(img).0 as int,
        dyn_dims(img).1 as int,
        params.scale_factor_milli as int,
    );
    adjusted_data(resized_px(img, grid.0 as nat, grid.1 as nat), params.adjust_spec())
}

/// The color of pixel (x, y) of a row-major RGB byte buffer of width `w`.
pub open spec fn px_at(data: Seq<u8>, w: int, x: int, y: int) -> (u8, u8, u8) {
    (data[3 * (y * w + x)], data[3 * (y * w + x) + 1], data[3 * (y * w + x) + 2])
}

/// The glyph line of row `y` of a buffer: one ramp glyph per pixel, picked
/// by the pixel's gray value.
pub open spec fn glyph_line_of(data: Seq<u8>, w: int, y: int) -> Seq<char> {
    Seq::new(
        w as nat,
        |x: int|
            ramp_spec()[glyph_index_spec(gray_of(px_at(data, w, x, y)), ramp_spec().len() as int)],
    )
}

/// The full text artifact of a w x h buffer: its glyph lines joined by
/// single newlines, nothing after the last.
pub open spec fn glyph_text_of(data: Seq<u8>, w: int, h: int) -> Seq<char> {
    joined(Seq::new(h as nat, |y: int| glyph_line_of(data, w, y)))
}

/// The colors of row `y` of a buffer, left to right.
pub open spec fn row_colors_of(data: Seq<u8>, w: int, y: int) -> Seq<(u8, u8, u8)> {
    Seq::new(w as nat, |x: int| px_at(data, w, x, y))
}

/// The final raster of a w x h working buffer: each row's maximal color
/// runs drawn one text-draw at a time onto a zeroed row canvas, and the
/// canvases stacked in strict row order.
pub open spec fn raster_of(
    data: Seq<u8>,
    w: int,
    h: int,
    scale: ab_glyph::PxScale,
    font: ab_glyph::FontArc,
) -> Seq<u8> {
    stacked_px(
        Seq::new(
            h as nat,
            |y: int|
                drawn_runs_px(
                    zero_px((w * (CELL_WIDTH as int)) as nat, CELL_HEIGHT as nat),
                    (w * (CELL_WIDTH as int)) as nat,
                    runs_of(row_colors_of(data, w, y)),
                    scale,
                    font,
                    glyph_line_of(data, w, y),
                ),
        ),
        (w * (CELL_WIDTH as int)) as nat,
        CELL_HEIGHT as nat,
    )
}

/// The output model of one successful conversion: the text is the glyph
/// rendering of the working buffer, the raster is the per-run drawing of
/// its rows stacked in order, and the preview is the raster's transport
/// payload.
pub open spec fn artifacts_match(
    img: image::DynamicImage,
    params: ConversionParams,
    scale: ab_glyph::PxScale,
    font: ab_glyph::FontArc,
    a: OutputArtifacts,
) -> bool {
    let grid = planned_grid(
        dyn_dims(img).0 as int,
        dyn_dims(img).1 as int,
        params.scale_factor_milli as int,
    );
    let wpx = working_px(img, params);
    let rpx = raster_of(wpx, grid.0, grid.1, scale, font);
    &&& a.raster_width == grid.0 * (CELL_WIDTH as int)
    &&& a.raster_height == grid.1 * (CELL_HEIGHT as int)
    &&& a.raster@ == rpx
    &&& a.text@ == glyph_text_of(wpx, grid.0, grid.1)
    &&& a.preview@ == preview_payload(
        rpx,
        (grid.0 * (CELL_WIDTH as int)) as nat,
        (grid.1 * (CELL_HEIGHT as int)) as nat,
    )
}

/// Parallel-but-deterministic output: any two successful conversions of
/// the same decoded source, request, glyph scale and font hand back
/// byte-identical text, raster bytes and preview payload. Every stage's
/// result is a function of those inputs alone, so the outcome cannot
/// depend on worker count or on the order in which per-pixel and per-row
/// work completed.
pub proof fn lemma_conversion_deterministic(
    img: image::DynamicImage,
    params: ConversionParams,
    scale: ab_glyph::PxScale,
    font: ab_glyph::FontArc,
    a1: OutputArtifacts,
    a2: OutputArtifacts,
)
    requires
        artifacts_match(img, params, scale, font, a1),
        artifacts_match(img, params, scale, font, a2),
    ensures
        a1.text@ == a2.text@,
        a1.raster@ == a2.raster@,
        a1.preview@ == a2.preview@,
        a1.raster_width == a2.raster_width,
        a1.raster_height == a2.raster_height,
{
}

/// Converts an already-decoded source image into its artifacts: a raster
/// of one colored glyph cell per pixel and one text line per pixel row,
/// plus the format-tagged preview payload.
///
/// Fails with InvalidDimensions exactly when the source has a zero
/// dimension or the planned output would not fit machine integers; the
/// only other failure is the preview encoder's, surfaced as EncodeError.
pub fn convert_decoded(
    img: &image::DynamicImage,
    params: &ConversionParams,
    font: &ab_glyph::FontArc,
    scale: &ab_glyph::PxScale,
) -> (r: Result<OutputArtifacts, ConvError>)
    requires
        params.wf(),
    ensures
        ({
            let sw = dyn_dims(*img).0 as int;
            let sh = dyn_dims(*img).1 as int;
            let grid = planned_grid(sw, sh, params.scale_factor_milli as int);
            let bad = sw == 0 || sh == 0 || grid.1 > u32::MAX || !raster_fits(grid.0, grid.1);
            let wpx = working_px(*img, *params);
            let rpx = raster_of(wpx, grid.0, grid.1, *scale, *font);
            let rw = (grid.0 * (CELL_WIDTH as int)) as nat;
            let rh = (grid.1 * (CELL_HEIGHT as int)) as nat;
            &&& ((r matches Err(e) && e matches ConvError::InvalidDimensions) <==> bad)
            &&& (r matches Err(e) ==> (e matches ConvError::InvalidDimensions || e
                matches ConvError::EncodeError(_)))
            &&& (r is Ok <==> (!bad && preview_succeeds(rpx, rw, rh)))
            &&& (r matches Ok(a) ==> {
                &&& artifacts_match(*img, *params, *scale, *font, a)
                &&& a.raster@.len() == 3 * (grid.0 * (CELL_WIDTH as int)) * (grid.1 * (
                CELL_HEIGHT as int))
                &&& a.text@.len() == grid.1 * (grid.0 + 1) - 1
                &&& a.preview@.len() >= 23
                &&& a.preview@.subrange(0, 23) == "data:image/jpeg;base64,"@
            })
        }),
{
    let frame = match prepare_frame(img, params) {
        Ok(f) => f,
        Err(e) => {
            return Err(e);
        },
    };
    let tw: u32 = frame.width;
    let th: u32 = frame.height;
    proof {
        assert(CELL_WIDTH == 10 && CELL_HEIGHT == 18 && MAX_ASCII_WIDTH == 400);
    }
    let cw: u32 = tw * CELL_WIDTH;
    let ghost wpx = working_px(*img, *params);
    proof {
        assert(frame.data@ == wpx);
    }
    let ramp = glyph_ramp();
    let lines = ascii_lines(&frame, ramp);
    let text = join_lines(&lines);
    proof {
        assert forall|i: int| 0 <= i < views_of(lines@).len() implies #[trigger] views_of(lines@)[
            i
        ].len() == tw as int by {
            assert(row_matches(frame, i, ramp@, lines@[i]@));
        }
        lemma_joined_len(views_of(lines@), tw as int);
        let lines_model = Seq::new(th as nat, |yy: int| glyph_line_of(wpx, tw as int, yy));
        assert forall|yy: int| 0 <= yy < th as int implies #[trigger] views_of(lines@)[yy]
            == lines_model[yy] by {
            assert(row_matches(frame, yy, ramp@, lines@[yy]@));
            assert forall|x: int| 0 <= x < tw as int implies #[trigger] lines@[yy]@[x]
                == glyph_line_of(wpx, tw as int, yy)[x] by {
                assert(frame.px(x, yy) == px_at(wpx, tw as int, x, yy));
            }
            assert(views_of(lines@)[yy] =~= glyph_line_of(wpx, tw as int, yy));
        }
        assert(views_of(lines@) =~= lines_model);
        assert(text@ == glyph_text_of(wpx, tw as int, th as int));
    }

    let mut rows: Vec<Raster> = Vec::new();
    let mut y: u32 = 0;
    while y < th
        invariant
            frame.wf(),
            frame.width == tw,
            frame.height == th,
            1 <= tw <= MAX_ASCII_WIDTH,
            cw == tw * CELL_WIDTH,
            (tw as int) * (CELL_WIDTH as int) <= i32::MAX,
            3 * ((tw as int) * (CELL_WIDTH as int)) * (CELL_HEIGHT as int) <= usize::MAX,
            lines@.len() == th as int,
            forall|i: int|
                0 <= i < th as int ==> (#[trigger] lines@[i])@.len() == tw as int
                    && vstd::utf8::is_ascii_chars(lines@[i]@),
            y <= th,
            rows@.len() == y as int,
            forall|i: int|
                0 <= i < y as int ==> raster_dims(#[trigger] rows@[i]).0 == cw as nat
                    && raster_dims(rows@[i]).1 == CELL_HEIGHT as nat,
            forall|i: int|
                0 <= i < y as int ==> raster_px(#[trigger] rows@[i]) == drawn_runs_px(
                    zero_px(cw as nat, CELL_HEIGHT as nat),
                    cw as nat,
                    runs_of(row_colors(frame, i)),
                    *scale,
                    *font,
                    lines@[i]@,
                ),
        decreases th - y,
    {
        let canvas = render_row(&frame, y, &lines[y as usize], font, scale);
        proof {
            assert((frame.width as nat) * (CELL_WIDTH as nat) == cw as nat);
        }
        rows.push(canvas);
        y = y + 1;
    }
    let raster = composite_rows(rows, cw, th);
    proof {
        let model_rows = Seq::new(
            th as nat,
            |yy: int|
                drawn_runs_px(
                    zero_px(cw as nat, CELL_HEIGHT as nat),
                    cw as nat,
                    runs_of(row_colors_of(wpx, tw as int, yy)),
                    *scale,
                    *font,
                    glyph_line_of(wpx, tw as int, yy),
                ),
        );
        assert forall|yy: int| 0 <= yy < th as int implies #[trigger] rows_px(rows@)[yy]
            == model_rows[yy] by {
            assert forall|x: int| 0 <= x < tw as int implies #[trigger] row_colors(frame, yy)[x]
                == row_colors_of(wpx, tw as int, yy)[x] by {
                assert(frame.px(x, yy) == px_at(wpx, tw as int, x, yy));
            }
            assert(row_colors(frame, yy) =~= row_colors_of(wpx, tw as int, yy));
            assert(views_of(lines@)[yy] == lines@[yy]@);
            assert(lines@[yy]@ == glyph_line_of(wpx, tw as int, yy));
        }
        assert(rows_px(rows@) =~= model_rows);
        assert((tw as int) * (CELL_WIDTH as int) == cw as int);
        assert(raster_px(raster) == raster_of(wpx, tw as int, th as int, *scale, *font));
    }

    let preview = match encode_preview(&raster) {
        Ok(p) => p,
        Err(e) => {
            return Err(e);
        },
    };

    let (rw, rh, data) = raster_into_bytes(raster);
    Ok(OutputArtifacts { raster_width: rw, raster_height: rh, raster: data, text, preview })
}

/// Loads the fixed monospace font from its raw bytes, once at start-up:
/// it succeeds exactly when the bytes parse as a font, and a malformed
/// asset surfaces as FontLoadError.
pub fn load_glyph_font(data: Vec<u8>) -> (r: Result<ab_glyph::FontArc, ConvError>)
    ensures
        r is Ok <==> font_parses(data@),
        r matches Err(e) ==> e matches ConvError::FontLoadError(_),
{
    match load_font(data) {
        Ok(f) => Ok(f),
        Err(m) => Err(ConvError::FontLoadError(m)),
    }
}

/// Derives the two artifact paths from the caller-supplied base name: the
/// raster as `<base>.png`, the text as `<base>.txt`.
pub fn artifact_paths(base: &String) -> (r: (String, String))
    ensures
        r.0@ == base@ + ".png"@,
        r.1@ == base@ + ".txt"@,
{
    let mut png = base.clone();
    png.append(".png");
    let mut txt = base.clone();
    txt.append(".txt");
    (png, txt)
}

} // verus!
