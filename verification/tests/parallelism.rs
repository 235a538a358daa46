use ascii_art::adjust::AdjustParams;
use ascii_art::adjust::adjust_frame;
use ascii_art::adjust::adjust_pixel;
use ascii_art::ascii::ascii_lines;
use ascii_art::ascii::ascii_row;
use ascii_art::ascii::glyph_ramp;
use ascii_art::frame::Frame;
use rayon::iter::IntoParallelIterator;
use rayon::iter::ParallelIterator;

fn test_frame(w: u32, h: u32) -> Frame {
    let mut data = Vec::new();
    for i in 0..(w * h) {
        let v = (i * 37 % 256) as u8;
        data.push(v);
        data.push(255 - v);
        data.push((i % 199) as u8);
    }
    Frame::from_parts(w, h, data)
}

// Rows are written to row-indexed slots, so a multi-threaded pass over the
// rows must produce byte-identical text to the sequential pass.
#[test]
fn parallel_text_generation_matches_serial() {
    let frame = test_frame(16, 9);
    let serial = ascii_lines(&frame, glyph_ramp());
    let parallel: Vec<String> = (0..9u32)
        .into_par_iter()
        .map(|y| ascii_row(&frame, y, glyph_ramp()))
        .collect();
    assert_eq!(serial, parallel);
}

// Pixels are mutually independent, so a multi-threaded per-pixel pass must
// agree with the sequential in-place adjustment.
#[test]
fn parallel_pixel_adjustment_matches_serial() {
    let p = AdjustParams { saturation_milli: 1400, brightness_milli: 800, contrast_milli: 1500 };
    let mut frame = test_frame(12, 7);
    let pixels: Vec<(u8, u8, u8)> =
        frame.data.chunks(3).map(|c| (c[0], c[1], c[2])).collect();
    let parallel: Vec<(u8, u8, u8)> =
        pixels.into_par_iter().map(|c| adjust_pixel(c, &p)).collect();
    adjust_frame(&mut frame, &p);
    let serial: Vec<(u8, u8, u8)> =
        frame.data.chunks(3).map(|c| (c[0], c[1], c[2])).collect();
    assert_eq!(serial, parallel);
}
