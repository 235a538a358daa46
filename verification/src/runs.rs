//! Run-length color grouping: one row is scanned left to right and split
//! into maximal spans of pixels sharing one exact RGB triple. Each span is
//! later drawn with a single text-draw call; grouping is an optimization
//! and must not change what is drawn.

use vstd::prelude::*;
use crate::frame::Frame;

verus! {

/// A maximal horizontal span of same-colored pixels in one row; `start` and
/// `end` are inclusive pixel columns.
pub struct ColorRun {
    pub start: usize,
    pub end: usize,
    pub color: (u8, u8, u8),
}

/// The colors of row `y` of a frame, left to right.
pub open spec fn row_colors(frame: Frame, y: int) -> Seq<(u8, u8, u8)> {
    Seq::new(frame.width as nat, |x: int| frame.px(x, y))
}

/// `runs` splits the first `upto` pixels of `row` into consecutive spans of
/// equal color: the first span starts at 0, each next span starts right
/// after the previous one, the last span ends at `upto - 1`, every pixel of
/// a span has the span's color, and a span ends only where the color
/// changes (or the covered prefix does).
pub open spec fn runs_cover(runs: Seq<ColorRun>, row: Seq<(u8, u8, u8)>, upto: int) -> bool {
    &&& (runs.len() == 0 <==> upto == 0)
    &&& runs.len() > 0 ==> runs[0].start == 0
    &&& runs.len() > 0 ==> runs.last().end + 1 == upto
    &&& forall|i: int| 0 <= i < runs.len() ==> (#[trigger] runs[i]).start <= runs[i].end
    &&& forall|i: int| 0 < i < runs.len() ==> (#[trigger] runs[i]).start == runs[i - 1].end + 1
    &&& forall|i: int, j: int|
        #![trigger runs[i], runs[j]]
        0 <= i <= j < runs.len() ==> runs[i].end <= runs[j].end
    &&& forall|i: int, x: int|
        #![trigger runs[i], row[x]]
        0 <= i < runs.len() && runs[i].start <= x <= runs[i].end ==> row[x] == runs[i].color
    &&& forall|i: int|
        0 <= i < runs.len() - 1 ==> row[(#[trigger] runs[i]).end + 1] != runs[i].color
}

/// `runs` partitions the whole row into maximal equal-color spans, with no
/// gap and no overlap.
pub open spec fn runs_partition(runs: Seq<ColorRun>, row: Seq<(u8, u8, u8)>) -> bool {
    runs_cover(runs, row, row.len() as int)
}

/// The start of the maximal equal-color run that ends at pixel `end`: the
/// least index reachable from `end` through pixels of the same color.
pub open spec fn run_start(row: Seq<(u8, u8, u8)>, end: int) -> int
    decreases end,
{
    if end <= 0 {
        0
    } else if row[end - 1] == row[end] {
        run_start(row, end - 1)
    } else {
        end
    }
}

pub proof fn lemma_run_start_bounds(row: Seq<(u8, u8, u8)>, end: int)
    requires
        0 <= end,
    ensures
        0 <= run_start(row, end) <= end,
    decreases end,
{
    if end > 0 && row[end - 1] == row[end] {
        lemma_run_start_bounds(row, end - 1);
    }
}

/// The canonical run decomposition of the first `upto` pixels of a row:
/// each step takes the maximal run ending at the last uncovered pixel.
pub open spec fn runs_of_prefix(row: Seq<(u8, u8, u8)>, upto: int) -> Seq<ColorRun>
    decreases upto,
    when upto >= 0
    via runs_of_prefix_decreases
{
    if upto <= 0 {
        Seq::empty()
    } else {
        let s = run_start(row, upto - 1);
        runs_of_prefix(row, s).push(
            ColorRun { start: s as usize, end: (upto - 1) as usize, color: row[upto - 1] },
        )
    }
}

#[via_fn]
proof fn runs_of_prefix_decreases(row: Seq<(u8, u8, u8)>, upto: int) {
    if upto > 0 {
        lemma_run_start_bounds(row, upto - 1);
    }
}

/// The canonical maximal-run decomposition of a whole row.
pub open spec fn runs_of(row: Seq<(u8, u8, u8)>) -> Seq<ColorRun> {
    runs_of_prefix(row, row.len() as int)
}

/// A span [s, e] of one color whose left neighbour differs is exactly the
/// maximal run ending at e.
pub proof fn lemma_run_start_eq(row: Seq<(u8, u8, u8)>, s: int, e: int)
    requires
        0 <= s <= e < row.len(),
        forall|j: int| s <= j <= e ==> #[trigger] row[j] == row[e],
        s == 0 || row[s - 1] != row[e],
    ensures
        run_start(row, e) == s,
    decreases e - s,
{
    if e > s {
        assert(row[e - 1] == row[e]);
        lemma_run_start_eq(row, s, e - 1);
        assert(row[e - 1] == row[e]);
    }
}

/// True when the pixel at (x, y) carries exactly the color `c`.
fn same_color(frame: &Frame, x: u32, y: u32, c: (u8, u8, u8)) -> (r: bool)
    requires
        frame.wf(),
        x < frame.width,
        y < frame.height,
    ensures
        r == (frame.px(x as int, y as int) == c),
{
    let n = frame.get(x, y);
    n.0 == c.0 && n.1 == c.1 && n.2 == c.2
}

/// Scans row `y` left to right and groups consecutive pixels of bit-identical
/// color into maximal runs.
pub fn compute_runs(frame: &Frame, y: u32) -> (runs: Vec<ColorRun>)
    requires
        frame.wf(),
        y < frame.height,
    ensures
        runs_partition(runs@, row_colors(*frame, y as int)),
        runs@ == runs_of(row_colors(*frame, y as int)),
        runs@.len() <= frame.width,
{
    let w = frame.width;
    let ghost row = row_colors(*frame, y as int);
    let mut runs: Vec<ColorRun> = Vec::new();
    let mut x: u32 = 0;
    while x < w
        invariant
            frame.wf(),
            w == frame.width,
            y < frame.height,
            x <= w,
            row == row_colors(*frame, y as int),
            runs_cover(runs@, row, x as int),
            runs@ == runs_of_prefix(row, x as int),
            runs@.len() <= x,
            runs@.len() > 0 && x < w ==> row[x as int] != runs@.last().color,
        decreases w - x,
    {
        let start = x;
        let c = frame.get(x, y);
        let mut e: u32 = x;
        while e + 1 < w && same_color(frame, e + 1, y, c)
            invariant
                frame.wf(),
                w == frame.width,
                y < frame.height,
                row == row_colors(*frame, y as int),
                x <= e < w,
                c == row[x as int],
                forall|j: int| x as int <= j <= e as int ==> #[trigger] row[j] == c,
            decreases w - e,
        {
            e = e + 1;
        }
        let ghost prev = runs@;
        runs.push(ColorRun { start: start as usize, end: e as usize, color: c });
        proof {
            assert(runs@ == prev.push(ColorRun { start: start as usize, end: e as usize, color: c }));
            assert(row[e as int] == c);
            if start > 0 {
                assert(prev.last().end + 1 == start as int);
                assert(row[start as int - 1] == prev.last().color);
                assert(row[start as int - 1] != row[e as int]);
            }
            lemma_run_start_eq(row, start as int, e as int);
            assert(runs_of_prefix(row, e as int + 1) == runs_of_prefix(row, start as int).push(
                ColorRun { start: start as usize, end: e as usize, color: row[e as int] },
            ));
            assert(runs@.last().end == e as int);
            assert forall|i: int| 0 <= i < runs@.len() - 1 implies row[(#[trigger] runs@[i]).end + 1]
                != runs@[i].color by {
                assert(runs@[i] == prev[i]);
                if i < prev.len() - 1 {
                } else {
                    assert(prev.last().end + 1 == x as int);
                }
            }
        }
        x = e + 1;
    }
    runs
}

/// The runs' glyph substrings of `line`, concatenated in run order.
pub open spec fn runs_text(runs: Seq<ColorRun>, line: Seq<char>) -> Seq<char>
    decreases runs.len(),
{
    if runs.len() == 0 {
        Seq::empty()
    } else {
        runs_text(runs.drop_last(), line) + line.subrange(
            runs.last().start as int,
            runs.last().end + 1,
        )
    }
}

/// Generalization of the run-grouping law to a covered prefix.
pub proof fn lemma_runs_text_covers_prefix(
    runs: Seq<ColorRun>,
    row: Seq<(u8, u8, u8)>,
    line: Seq<char>,
    upto: int,
)
    requires
        runs_cover(runs, row, upto),
        0 <= upto <= line.len(),
    ensures
        runs_text(runs, line) == line.subrange(0, upto),
    decreases runs.len(),
{
    if runs.len() == 0 {
        assert(runs_text(runs, line) =~= line.subrange(0, 0));
    } else {
        let last = runs.last();
        let front = runs.drop_last();
        if runs.len() == 1 {
            assert(runs_cover(front, row, last.start as int));
        } else {
            assert(front.last() == runs[runs.len() - 2]);
            assert(front.last().end + 1 == last.start as int);
            assert(runs_cover(front, row, last.start as int));
        }
        lemma_runs_text_covers_prefix(front, row, line, last.start as int);
        assert(runs_text(runs, line) =~= line.subrange(0, upto));
    }
}

/// Run-grouping invariant: for any row, the concatenation of all runs'
/// glyph substrings equals the row's full glyph line — the runs partition
/// the row with no gap and no overlap, so grouped drawing renders exactly
/// the glyphs that per-pixel drawing would.
pub proof fn lemma_runs_text_covers(runs: Seq<ColorRun>, row: Seq<(u8, u8, u8)>, line: Seq<char>)
    requires
        runs_partition(runs, row),
        line.len() == row.len(),
    ensures
        runs_text(runs, line) == line,
{
    lemma_runs_text_covers_prefix(runs, row, line, row.len() as int);
    assert(line.subrange(0, line.len() as int) =~= line);
}

} // verus!
