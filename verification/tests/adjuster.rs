use ascii_art::adjust::AdjustParams;
use ascii_art::adjust::adjust_pixel;
use ascii_art::adjust::adjust_frame;
use ascii_art::frame::Frame;

fn params(sat: i32, bright: i32, contrast: i32) -> AdjustParams {
    AdjustParams { saturation_milli: sat, brightness_milli: bright, contrast_milli: contrast }
}

#[test]
fn identity_leaves_channels_bit_identical() {
    let p = params(1000, 1000, 1000);
    for c in [(0, 0, 0), (255, 255, 255), (12, 200, 37), (128, 128, 128), (1, 2, 3)] {
        assert_eq!(adjust_pixel(c, &p), c);
    }
}

#[test]
fn saturation_zero_collapses_red_to_mean() {
    // gray = (255 + 0 + 0) / 3 = 85; every channel becomes the mean
    let p = params(0, 1000, 1000);
    assert_eq!(adjust_pixel((255, 0, 0), &p), (85, 85, 85));
}

#[test]
fn contrast_pivot_is_fixed_point() {
    // (128 - 128) * 2.0 + 128 = 128 on every channel
    let p = params(1000, 1000, 2000);
    assert_eq!(adjust_pixel((128, 128, 128), &p), (128, 128, 128));
}

#[test]
fn contrast_two_spreads_around_pivot() {
    // (100 - 128) * 2 + 128 = 72
    let p = params(1000, 1000, 2000);
    assert_eq!(adjust_pixel((100, 100, 100), &p), (72, 72, 72));
}

#[test]
fn brightness_doubles_and_clamps() {
    let p = params(1000, 2000, 1000);
    assert_eq!(adjust_pixel((100, 10, 200), &p), (200, 20, 255));
}

#[test]
fn saturation_boost_clamps_low_channel() {
    // gray of (200, 0, 0) is 200/3; r = gray + 1.2 * (200 - gray) -> 226,
    // g and b drop below zero and clamp to 0
    let p = params(1200, 1000, 1000);
    assert_eq!(adjust_pixel((200, 0, 0), &p), (226, 0, 0));
}

#[test]
fn skip_band_edge_is_identity() {
    // |factor - 1.0| <= 0.01 skips the stage outright
    for m in [990, 1010] {
        let p = params(m, m, m);
        assert_eq!(adjust_pixel((37, 190, 4), &p), (37, 190, 4));
    }
}

#[test]
fn adjust_frame_applies_independently_per_pixel() {
    let data = vec![255, 0, 0, 128, 128, 128];
    let mut frame = Frame::from_parts(2, 1, data);
    let p = params(0, 1000, 1000);
    adjust_frame(&mut frame, &p);
    assert_eq!(frame.data, vec![85, 85, 85, 128, 128, 128]);
}
