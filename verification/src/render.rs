//! Row rendering and compositing: each row's maximal color runs are drawn
//! with one text-draw call per run into a private row canvas, and the row
//! canvases are stitched vertically, in strict row order, into the final
//! raster.

use vstd::prelude::*;
use vstd::string::StrSliceExecFns;
use crate::dims::CELL_WIDTH;
use crate::dims::CELL_HEIGHT;
use crate::frame::Frame;
use crate::runs::ColorRun;
use crate::runs::compute_runs;
use crate::runs::runs_of;
use crate::runs::runs_partition;
use crate::runs::row_colors;
use crate::raster::Raster;
use crate::raster::raster_dims;
use crate::raster::raster_px;
use crate::raster::new_canvas;
use crate::raster::raster_into_bytes;
use crate::raster::draw_run_text;
use crate::raster::drawn_px;
use crate::raster::overlay_canvas;

verus! {

/// The bytes of a row canvas of width `canvas_w` after drawing each run's
/// glyph substring of `line`, in run order, in the run's color at its
/// horizontal pixel offset: the fold of one text-draw per run.
pub open spec fn drawn_runs_px(
    before: Seq<u8>,
    canvas_w: nat,
    runs: Seq<ColorRun>,
    scale: ab_glyph::PxScale,
    font: ab_glyph::FontArc,
    line: Seq<char>,
) -> Seq<u8>
    decreases runs.len(),
{
    if runs.len() == 0 {
        before
    } else {
        let run = runs.last();
        drawn_px(
            drawn_runs_px(before, canvas_w, runs.drop_last(), scale, font, line),
            canvas_w,
            CELL_HEIGHT as nat,
            run.color,
            run.start * (CELL_WIDTH as int),
            scale,
            font,
            line.subrange(run.start as int, run.end + 1),
        )
    }
}

/// A zeroed byte buffer for a `w` x `h` canvas.
pub open spec fn zero_px(w: nat, h: nat) -> Seq<u8> {
    Seq::new(3 * w * h, |i: int| 0u8)
}

/// Renders one pixel row: groups the row into maximal color runs and draws
/// each run's glyph substring once, in the run's exact color, at the run's
/// horizontal pixel offset, into a canvas one cell high and a full row
/// wide. Rows are independent; nothing here reads or writes another row.
pub fn render_row(
    frame: &Frame,
    y: u32,
    line: &String,
    font: &ab_glyph::FontArc,
    scale: &ab_glyph::PxScale,
) -> (canvas: Raster)
    requires
        frame.wf(),
        y < frame.height,
        line@.len() == frame.width as int,
        vstd::utf8::is_ascii_chars(line@),
        (frame.width as int) * (CELL_WIDTH as int) <= i32::MAX,
        3 * ((frame.width as int) * (CELL_WIDTH as int)) * (CELL_HEIGHT as int) <= usize::MAX,
    ensures
        raster_dims(canvas).0 == (frame.width as nat) * (CELL_WIDTH as nat),
        raster_dims(canvas).1 == CELL_HEIGHT as nat,
        raster_px(canvas) == drawn_runs_px(
            zero_px((frame.width as nat) * (CELL_WIDTH as nat), CELL_HEIGHT as nat),
            (frame.width as nat) * (CELL_WIDTH as nat),
            runs_of(row_colors(*frame, y as int)),
            *scale,
            *font,
            line@,
        ),
{
    let w = frame.width;
    let row_w: u32 = w * CELL_WIDTH;
    let mut canvas = new_canvas(row_w, CELL_HEIGHT);
    let runs = compute_runs(frame, y);
    let ghost row = row_colors(*frame, y as int);
    let n = runs.len();
    let mut i: usize = 0;
    proof {
        assert(zero_px(row_w as nat, CELL_HEIGHT as nat) =~= Seq::new(
            3 * (row_w as nat) * (CELL_HEIGHT as nat),
            |j: int| 0u8,
        ));
    }
    while i < n
        invariant
            frame.wf(),
            w == frame.width,
            y < frame.height,
            line@.len() == w as int,
            vstd::utf8::is_ascii_chars(line@),
            runs_partition(runs@, row),
            row == row_colors(*frame, y as int),
            row.len() == w as int,
            n == runs@.len(),
            i <= n,
            (w as int) * (CELL_WIDTH as int) <= i32::MAX,
            row_w == w * CELL_WIDTH,
            raster_dims(canvas).0 == row_w as nat,
            raster_dims(canvas).1 == CELL_HEIGHT as nat,
            runs@ == runs_of(row),
            raster_px(canvas) == drawn_runs_px(
                zero_px(row_w as nat, CELL_HEIGHT as nat),
                row_w as nat,
                runs@.subrange(0, i as int),
                *scale,
                *font,
                line@,
            ),
        decreases n - i,
    {
        proof {
            assert(runs@[i as int].start <= runs@[i as int].end);
            assert(runs@[i as int].end <= runs@[n - 1].end);
            assert(runs@[n - 1].end + 1 == w as int);
        }
        let start = runs[i].start;
        let end = runs[i].end;
        let color = runs[i].color;
        let text = line.as_str().substring_ascii(start, end + 1);
        proof {
            assert((start as int) * (CELL_WIDTH as int) <= (w as int) * (CELL_WIDTH as int))
                by (nonlinear_arith)
                requires
                    0 <= (start as int) <= (w as int),
                    (CELL_WIDTH as int) >= 0,
            ;
        }
        let offset: i32 = (start as u32 * CELL_WIDTH) as i32;
        let ghost before = canvas;
        draw_run_text(&mut canvas, color, offset, scale, font, text);
        proof {
            let cur = runs@.subrange(0, i as int + 1);
            assert(cur.drop_last() =~= runs@.subrange(0, i as int));
            assert(cur.last() == runs@[i as int]);
            assert(text@ == line@.subrange(start as int, end + 1));
            assert(offset as int == start * (CELL_WIDTH as int));
            assert(raster_px(canvas) == drawn_px(
                raster_px(before),
                row_w as nat,
                CELL_HEIGHT as nat,
                color,
                offset as int,
                *scale,
                *font,
                text@,
            ));
            assert(raster_px(canvas) == drawn_runs_px(
                zero_px(row_w as nat, CELL_HEIGHT as nat),
                row_w as nat,
                cur,
                *scale,
                *font,
                line@,
            ));
        }
        i = i + 1;
    }
    proof {
        assert(runs@.subrange(0, n as int) =~= runs@);
    }
    canvas
}

/// The byte buffers of a sequence of row canvases.
pub open spec fn rows_px(rows: Seq<Raster>) -> Seq<Seq<u8>> {
    Seq::new(rows.len(), |i: int| raster_px(rows[i]))
}

/// The vertical stitch of per-row byte buffers, each `w` pixels wide and
/// `band_h` pixels tall, in row order: byte j of the result reads from the
/// canvas of the band its pixel row falls in.
pub open spec fn stacked_px(rows: Seq<Seq<u8>>, w: nat, band_h: nat) -> Seq<u8> {
    Seq::new(
        3 * w * (rows.len() * band_h),
        |j: int|
            {
                let pix = j / 3;
                let k = j % 3;
                let rr = pix / (w as int);
                let cc = pix % (w as int);
                let band = rr / (band_h as int);
                let within = rr % (band_h as int);
                rows[band][3 * (within * (w as int) + cc) + k]
            },
    )
}

/// Stitches the per-row canvases vertically into the final raster, in
/// strict row order: row i occupies vertical offset i * cell height. This
/// is a pure copy with no recomputation — every byte of each row's band in
/// the output equals the corresponding byte of that row's canvas,
/// regardless of the order in which the rows were rendered.
pub fn composite_rows(rows: Vec<Raster>, w: u32, h: u32) -> (out: Raster)
    requires
        1 <= w,
        1 <= h,
        rows@.len() == h as int,
        forall|i: int|
            0 <= i < h as int ==> raster_dims(#[trigger] rows@[i]).0 == w as nat && raster_dims(
                rows@[i],
            ).1 == CELL_HEIGHT as nat,
        (h as int) * (CELL_HEIGHT as int) <= u32::MAX,
        3 * (w as int) * ((h as int) * (CELL_HEIGHT as int)) <= usize::MAX,
    ensures
        raster_dims(out).0 == w as nat,
        raster_dims(out).1 == (h as nat) * (CELL_HEIGHT as nat),
        raster_px(out).len() == 3 * (w as nat) * ((h as nat) * (CELL_HEIGHT as nat)),
        raster_px(out) == stacked_px(rows_px(rows@), w as nat, CELL_HEIGHT as nat),
        forall|i: int, rr: int, cc: int, k: int|
            #![trigger raster_px(out)[3 * ((i * (CELL_HEIGHT as int) + rr) * (w as int) + cc) + k]]
            0 <= i < h as int && 0 <= rr < CELL_HEIGHT as int && 0 <= cc < w as int && 0 <= k < 3
                ==> raster_px(out)[3 * ((i * (CELL_HEIGHT as int) + rr) * (w as int) + cc) + k]
                == raster_px(rows@[i])[3 * (rr * (w as int) + cc) + k],
{
    let out_h: u32 = h * CELL_HEIGHT;
    let mut out = new_canvas(w, out_h);
    let mut i: u32 = 0;
    while i < h
        invariant
            h >= 1,
            rows@.len() == h as int,
            forall|j: int|
                0 <= j < h as int ==> raster_dims(#[trigger] rows@[j]).0 == w as nat
                    && raster_dims(rows@[j]).1 == CELL_HEIGHT as nat,
            (h as int) * (CELL_HEIGHT as int) <= u32::MAX,
            out_h == h * CELL_HEIGHT,
            i <= h,
            raster_dims(out).0 == w as nat,
            raster_dims(out).1 == out_h as nat,
            raster_px(out).len() == 3 * (w as nat) * (out_h as nat),
            forall|j: int, rr: int, cc: int, k: int|
                #![trigger raster_px(out)[3 * ((j * (CELL_HEIGHT as int) + rr) * (w as int) + cc) + k]]
                0 <= j < i as int && 0 <= rr < CELL_HEIGHT as int && 0 <= cc < w as int && 0 <= k
                    < 3 ==> raster_px(out)[3 * ((j * (CELL_HEIGHT as int) + rr) * (w as int) + cc)
                    + k] == raster_px(rows@[j])[3 * (rr * (w as int) + cc) + k],
        decreases h - i,
    {
        proof {
            assert((i as int + 1) * (CELL_HEIGHT as int) <= (h as int) * (CELL_HEIGHT as int))
                by (nonlinear_arith)
                requires
                    (i as int) < (h as int),
                    (CELL_HEIGHT as int) > 0,
            ;
        }
        let offset: u32 = i * CELL_HEIGHT;
        let ghost prev = out;
        overlay_canvas(&mut out, &rows[i as usize], 0, offset);
        proof {
            assert forall|j: int, rr: int, cc: int, k: int|
                #![trigger raster_px(out)[3 * ((j * (CELL_HEIGHT as int) + rr) * (w as int) + cc) + k]]
                0 <= j < i as int + 1 && 0 <= rr < CELL_HEIGHT as int && 0 <= cc < w as int && 0
                    <= k < 3 implies raster_px(out)[3 * ((j * (CELL_HEIGHT as int) + rr) * (w
                as int) + cc) + k] == raster_px(rows@[j])[3 * (rr * (w as int) + cc) + k] by {
                let band = j * (CELL_HEIGHT as int) + rr;
                if j == i as int {
                    assert(raster_px(out)[3 * (((offset as int) + rr) * (raster_dims(prev).0
                        as int) + 0 + cc) + k] == raster_px(rows@[j])[3 * (rr * (raster_dims(
                        rows@[j],
                    ).0 as int) + cc) + k]);
                } else {
                    assert(j * (CELL_HEIGHT as int) + (CELL_HEIGHT as int) <= (i as int) * (
                    CELL_HEIGHT as int)) by (nonlinear_arith)
                        requires
                            j < i as int,
                            (CELL_HEIGHT as int) > 0,
                    ;
                    assert(band < (offset as int));
                    assert(raster_px(out)[3 * (band * (raster_dims(prev).0 as int) + cc) + k]
                        == raster_px(prev)[3 * (band * (raster_dims(prev).0 as int) + cc) + k]);
                }
            }
        }
        i = i + 1;
    }
    proof {
        let wI = w as int;
        let hI = h as int;
        let target = stacked_px(rows_px(rows@), w as nat, CELL_HEIGHT as nat);
        assert((3 * wI) * (hI * 18) == 3 * (wI * (hI * 18))) by (nonlinear_arith);
        assert(rows_px(rows@).len() == h as nat);
        assert(target.len() == 3 * (w as nat) * ((h as nat) * (CELL_HEIGHT as nat)));
        assert forall|j: int| 0 <= j < raster_px(out).len() implies raster_px(out)[j]
            == target[j] by {
            vstd::arithmetic::div_mod::lemma_fundamental_div_mod(j, 3);
            vstd::arithmetic::div_mod::lemma_mod_bound(j, 3);
            let pix = j / 3;
            let k = j % 3;
            vstd::arithmetic::div_mod::lemma_fundamental_div_mod(pix, wI);
            vstd::arithmetic::div_mod::lemma_mod_bound(pix, wI);
            let rr = pix / wI;
            let cc = pix % wI;
            vstd::arithmetic::div_mod::lemma_fundamental_div_mod(rr, 18);
            vstd::arithmetic::div_mod::lemma_mod_bound(rr, 18);
            let band = rr / 18;
            let within = rr % 18;
            assert(3 * (wI * (hI * 18)) == 3 * wI * (hI * 18)) by (nonlinear_arith);
            assert(pix < wI * (hI * 18));
            assert(0 <= rr < hI * 18) by (nonlinear_arith)
                requires
                    pix == wI * rr + cc,
                    0 <= cc < wI,
                    0 <= pix < wI * (hI * 18),
                    wI > 0,
            ;
            assert(0 <= band < hI) by (nonlinear_arith)
                requires
                    rr == 18 * band + within,
                    0 <= within < 18,
                    0 <= rr < hI * 18,
            ;
            assert(raster_px(out)[3 * ((band * (CELL_HEIGHT as int) + within) * wI + cc) + k]
                == raster_px(rows@[band])[3 * (within * wI + cc) + k]);
            assert(band * 18 + within == rr);
            assert(rr * wI == wI * rr) by (nonlinear_arith);
            assert(3 * ((band * 18 + within) * wI + cc) + k == j);
        }
        assert(raster_px(out) =~= target);
    }
    out
}

/// Hands a raster out as plain values — its dimensions and its raw
/// row-major RGB bytes, three per pixel — for persisting or inspection.
pub fn raster_into_parts(img: Raster) -> (r: (u32, u32, Vec<u8>))
    ensures
        r.0 as nat == raster_dims(img).0,
        r.1 as nat == raster_dims(img).1,
        r.2@ == raster_px(img),
{
    raster_into_bytes(img)
}

} // verus!
