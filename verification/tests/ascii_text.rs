use ascii_art::ascii::glyph_ramp;
use ascii_art::ascii::glyph_index;
use ascii_art::ascii::ascii_row;
use ascii_art::ascii::ascii_lines;
use ascii_art::ascii::join_lines;
use ascii_art::frame::Frame;

fn flat_frame(w: u32, h: u32, c: (u8, u8, u8)) -> Frame {
    let mut data = Vec::new();
    for _ in 0..w * h {
        data.push(c.0);
        data.push(c.1);
        data.push(c.2);
    }
    Frame::from_parts(w, h, data)
}

#[test]
fn ramp_has_71_ascii_glyphs() {
    let ramp = glyph_ramp();
    assert_eq!(ramp.chars().count(), 71);
    assert!(ramp.is_ascii());
    assert_eq!(ramp.chars().next(), Some(' '));
    assert_eq!(ramp.chars().last(), Some('$'));
}

#[test]
fn glyph_index_quantizes_like_direct_formula() {
    for (gray, expected) in [(0u32, 0usize), (3, 0), (4, 1), (100, 27), (128, 35), (255, 70)] {
        assert_eq!(glyph_index(gray, 71), expected);
        assert_eq!(expected, ((gray as usize) * 71 / 256).min(70));
    }
}

#[test]
fn flat_gray_row_is_uniform() {
    // every pixel (100, 100, 100): gray = 100, bucket 27 -> '('
    let frame = flat_frame(5, 1, (100, 100, 100));
    let line = ascii_row(&frame, 0, glyph_ramp());
    assert_eq!(line, "(((((");
}

#[test]
fn white_frame_text_is_lightest_glyph_grid() {
    // solid white maps every pixel to the last ramp glyph '$'
    let frame = flat_frame(7, 3, (255, 255, 255));
    let lines = ascii_lines(&frame, glyph_ramp());
    let text = join_lines(&lines);
    assert_eq!(text, "$$$$$$$\n$$$$$$$\n$$$$$$$");
}

#[test]
fn gray_mean_truncates() {
    // (1, 0, 0) has mean 1/3, truncated to 0 -> darkest glyph ' '
    let frame = flat_frame(1, 1, (1, 0, 0));
    let line = ascii_row(&frame, 0, glyph_ramp());
    assert_eq!(line, " ");
}

#[test]
fn join_uses_single_newline_no_trailing() {
    let lines = vec![String::from("ab"), String::from("cd"), String::from("ef")];
    assert_eq!(join_lines(&lines), "ab\ncd\nef");
    let one = vec![String::from("xy")];
    assert_eq!(join_lines(&one), "xy");
}

#[test]
fn rows_are_independent() {
    // two rows with different grays produce their own lines
    let mut data = Vec::new();
    for _ in 0..3 {
        data.extend_from_slice(&[255, 255, 255]);
    }
    for _ in 0..3 {
        data.extend_from_slice(&[0, 0, 0]);
    }
    let frame = Frame::from_parts(3, 2, data);
    let lines = ascii_lines(&frame, glyph_ramp());
    assert_eq!(lines[0], "$$$");
    assert_eq!(lines[1], "   ");
}
