//! Luminance-to-glyph mapping: each pixel's gray value (the unweighted mean
//! of its channels, truncating) picks one glyph out of an ordered ramp, one
//! text line per pixel row.

use vstd::prelude::*;
use vstd::string::StrSliceExecFns;
use vstd::string::StringExecFns;
use crate::frame::Frame;

verus! {

/// The glyph ramp, ordered by visual weight; text generation and the raster
/// renderer must agree on this exact ordering.
pub open spec fn ramp_spec() -> Seq<char> {
    " .'`^ \",:;Il!i><~+_-?][}{1)(|\\/tfjrxnuvczXYUJCLQ0OZmwqpdbkhao*#MW&8%B@$"@
}

/// The glyph ramp as a string slice: 71 ASCII glyphs.
pub fn glyph_ramp() -> (r: &'static str)
    ensures
        r@ == ramp_spec(),
        vstd::string::is_ascii(r),
        r@.len() == 71,
{
    let r = " .'`^ \",:;Il!i><~+_-?][}{1)(|\\/tfjrxnuvczXYUJCLQ0OZmwqpdbkhao*#MW&8%B@$";
    proof {
        reveal_strlit(" .'`^ \",:;Il!i><~+_-?][}{1)(|\\/tfjrxnuvczXYUJCLQ0OZmwqpdbkhao*#MW&8%B@$");
    }
    r
}

/// Gray value of a pixel: the unweighted mean of the three channels,
/// truncating division (the design's deliberate simplification; not a
/// perceptual weighting).
pub open spec fn gray_of(c: (u8, u8, u8)) -> int {
    (c.0 as int + c.1 as int + c.2 as int) / 3
}

/// Quantizes a gray value in [0, 255] into one of `len` buckets of width
/// 256/len: floor(gray * len / 256), clamped to len - 1.
pub open spec fn glyph_index_spec(gray: int, len: int) -> int {
    let i = (gray * len) / 256;
    if i > len - 1 {
        len - 1
    } else {
        i
    }
}

/// Executable bucket selection.
pub fn glyph_index(gray: u32, len: usize) -> (i: usize)
    requires
        gray <= 255,
        1 <= len <= 1000,
    ensures
        i == glyph_index_spec(gray as int, len as int),
        i < len,
{
    proof {
        assert(0 <= (gray as int) * (len as int) <= 255000) by (nonlinear_arith)
            requires
                0 <= (gray as int) <= 255,
                1 <= (len as int) <= 1000,
        ;
    }
    let i = (gray as usize) * len / 256;
    if i > len - 1 {
        len - 1
    } else {
        i
    }
}

/// The line `line` is the glyph rendering of row `y` of `frame` under the
/// ramp `ramp`: one glyph per pixel, picked by the pixel's gray value.
pub open spec fn row_matches(frame: Frame, y: int, ramp: Seq<char>, line: Seq<char>) -> bool {
    &&& line.len() == frame.width as int
    &&& forall|x: int|
        0 <= x < frame.width as int ==> #[trigger] line[x] == ramp[glyph_index_spec(
            gray_of(frame.px(x, y)),
            ramp.len() as int,
        )]
}

/// Generates the text line for one pixel row. Rows are independent: the
/// result depends only on the pixels of row `y`.
pub fn ascii_row(frame: &Frame, y: u32, ramp: &str) -> (line: String)
    requires
        frame.wf(),
        y < frame.height,
        vstd::string::is_ascii(ramp),
        1 <= ramp@.len() <= 1000,
    ensures
        row_matches(*frame, y as int, ramp@, line@),
        vstd::utf8::is_ascii_chars(line@),
{
    let ramp_len = ramp.unicode_len();
    let w = frame.width;
    let mut line = String::new();
    let mut x: u32 = 0;
    while x < w
        invariant
            frame.wf(),
            frame.width == w,
            y < frame.height,
            vstd::string::is_ascii(ramp),
            1 <= ramp_len == ramp@.len() <= 1000,
            x <= w,
            line@.len() == x as int,
            forall|i: int|
                0 <= i < x as int ==> #[trigger] line@[i] == ramp@[glyph_index_spec(
                    gray_of(frame.px(i, y as int)),
                    ramp@.len() as int,
                )],
            vstd::utf8::is_ascii_chars(line@),
        decreases w - x,
    {
        let c = frame.get(x, y);
        let gray: u32 = (c.0 as u32 + c.1 as u32 + c.2 as u32) / 3;
        let idx = glyph_index(gray, ramp_len);
        let glyph = ramp.substring_ascii(idx, idx + 1);
        let ghost old_line = line@;
        line.append(glyph);
        proof {
            assert(line@[x as int] == ramp@[idx as int]);
            assert(gray as int == gray_of(frame.px(x as int, y as int)));
            assert forall|i: int| 0 <= i < line@.len() implies '\0' <= #[trigger] line@[i]
                <= '\u{7f}' by {
                if i < x as int {
                    assert(old_line[i] == line@[i]);
                } else {
                    assert(line@[i] == ramp@[idx as int]);
                }
            }
        }
        x = x + 1;
    }
    line
}

/// Generates one text line per pixel row, in row order.
pub fn ascii_lines(frame: &Frame, ramp: &str) -> (lines: Vec<String>)
    requires
        frame.wf(),
        vstd::string::is_ascii(ramp),
        1 <= ramp@.len() <= 1000,
    ensures
        lines@.len() == frame.height as int,
        forall|y: int|
            0 <= y < frame.height as int ==> row_matches(*frame, y, ramp@, #[trigger] lines@[y]@),
        forall|y: int|
            0 <= y < frame.height as int ==> vstd::utf8::is_ascii_chars(#[trigger] lines@[y]@),
{
    let h = frame.height;
    let mut lines: Vec<String> = Vec::new();
    let mut y: u32 = 0;
    while y < h
        invariant
            frame.wf(),
            frame.height == h,
            vstd::string::is_ascii(ramp),
            1 <= ramp@.len() <= 1000,
            y <= h,
            lines@.len() == y as int,
            forall|i: int|
                0 <= i < y as int ==> row_matches(*frame, i, ramp@, #[trigger] lines@[i]@),
            forall|i: int|
                0 <= i < y as int ==> vstd::utf8::is_ascii_chars(#[trigger] lines@[i]@),
        decreases h - y,
    {
        let line = ascii_row(frame, y, ramp);
        lines.push(line);
        y = y + 1;
    }
    lines
}

/// The views of a sequence of strings.
pub open spec fn views_of(lines: Seq<String>) -> Seq<Seq<char>> {
    lines.map_values(|s: String| s@)
}

/// Lines joined by a single newline separator, with no trailing separator.
pub open spec fn joined(lines: Seq<Seq<char>>) -> Seq<char>
    decreases lines.len(),
{
    if lines.len() == 0 {
        Seq::empty()
    } else if lines.len() == 1 {
        lines[0]
    } else {
        joined(lines.drop_last()) + seq!['\n'] + lines.last()
    }
}

/// Joins the produced lines into the final text artifact: rows in order,
/// one newline between consecutive rows, nothing after the last.
pub fn join_lines(lines: &Vec<String>) -> (text: String)
    ensures
        text@ == joined(views_of(lines@)),
{
    let n = lines.len();
    let mut text = String::new();
    let mut i: usize = 0;
    while i < n
        invariant
            n == lines@.len(),
            i <= n,
            text@ == joined(views_of(lines@.subrange(0, i as int))),
        decreases n - i,
    {
        if i > 0 {
            let sep = "\n";
            proof {
                reveal_strlit("\n");
                assert(sep@ =~= seq!['\n']);
            }
            text.append(sep);
        }
        text.append(lines[i].as_str());
        proof {
            let prev = views_of(lines@.subrange(0, i as int));
            let cur = views_of(lines@.subrange(0, i as int + 1));
            assert(cur.drop_last() =~= prev);
            assert(cur.last() == lines@[i as int]@);
            assert(text@ =~= joined(cur));
        }
        i = i + 1;
    }
    proof {
        assert(lines@.subrange(0, n as int) =~= lines@);
    }
    text
}

/// The length of the joined text of `n` lines of common width `w` is
/// exactly n * (w + 1) - 1: width glyphs per row plus one separator between
/// consecutive rows.
pub proof fn lemma_joined_len(lines: Seq<Seq<char>>, w: int)
    requires
        lines.len() >= 1,
        forall|i: int| 0 <= i < lines.len() ==> #[trigger] lines[i].len() == w,
    ensures
        joined(lines).len() == lines.len() * (w + 1) - 1,
    decreases lines.len(),
{
    if lines.len() == 1 {
        assert(joined(lines).len() == w);
    } else {
        lemma_joined_len(lines.drop_last(), w);
        assert((lines.len() - 1) * (w + 1) + (w + 1) == lines.len() * (w + 1)) by (nonlinear_arith);
    }
}

/// Applied to a row whose pixels all carry one gray value g — channels
/// (g, g, g) — the generator emits the same glyph at every position, and it
/// is the glyph picked directly by floor(g * len / 256) clamped to len - 1.
pub proof fn lemma_flat_gray_row(frame: Frame, y: int, g: u8, ramp: Seq<char>, line: Seq<char>)
    requires
        frame.wf(),
        0 <= y < frame.height as int,
        ramp.len() >= 1,
        forall|x: int| 0 <= x < frame.width as int ==> #[trigger] frame.px(x, y) == (g, g, g),
        row_matches(frame, y, ramp, line),
    ensures
        forall|x: int|
            0 <= x < frame.width as int ==> #[trigger] line[x] == ramp[glyph_index_spec(
                g as int,
                ramp.len() as int,
            )],
{
    assert(gray_of((g, g, g)) == g as int);
}

} // verus!
