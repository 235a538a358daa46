use ascii_art::ascii::ascii_lines;
use ascii_art::ascii::glyph_ramp;
use ascii_art::ascii::join_lines;
use ascii_art::errors::ConvError;
use ascii_art::pipeline::prepare_frame;
use ascii_art::pipeline::ConversionParams;
use ascii_art::pipeline::artifact_paths;
use ascii_art::pipeline::load_glyph_font;

fn identity_params() -> ConversionParams {
    ConversionParams {
        filepath: String::from("in.png"),
        output_name: String::from("out"),
        scale_factor_milli: 1000,
        brightness_milli: 1000,
        contrast_milli: 1000,
        saturation_milli: 1000,
    }
}

#[test]
fn white_source_resizes_to_planned_grid_and_text() {
    // 4x4 solid white at scale 1.0: planner yields a 7x3 glyph grid, the
    // nearest-neighbor resize keeps every pixel white, and every glyph is
    // the lightest in the ramp
    let img = image::DynamicImage::ImageRgb8(image::RgbImage::from_pixel(
        4,
        4,
        image::Rgb([255, 255, 255]),
    ));
    let frame = prepare_frame(&img, &identity_params()).expect("plans");
    assert_eq!((frame.width, frame.height), (7, 3));
    assert!(frame.data.iter().all(|&b| b == 255));
    let text = join_lines(&ascii_lines(&frame, glyph_ramp()));
    assert_eq!(text, "$$$$$$$\n$$$$$$$\n$$$$$$$");
}

#[test]
fn zero_sized_source_is_invalid() {
    let img = image::DynamicImage::ImageRgb8(image::RgbImage::new(0, 0));
    assert!(matches!(
        prepare_frame(&img, &identity_params()),
        Err(ConvError::InvalidDimensions)
    ));
}

#[test]
fn adjustments_run_inside_preparation() {
    // saturation 0.0 turns a pure red source into its gray mean before
    // text generation
    let img = image::DynamicImage::ImageRgb8(image::RgbImage::from_pixel(
        4,
        4,
        image::Rgb([255, 0, 0]),
    ));
    let mut p = identity_params();
    p.saturation_milli = 0;
    let frame = prepare_frame(&img, &p).expect("plans");
    for px in frame.data.chunks(3) {
        assert_eq!(px, &[85, 85, 85]);
    }
}

#[test]
fn garbage_font_bytes_are_rejected() {
    assert!(matches!(
        load_glyph_font(vec![1, 2, 3, 4]),
        Err(ConvError::FontLoadError(_))
    ));
}

#[test]
fn artifact_paths_use_fixed_extensions() {
    let (png, txt) = artifact_paths(&String::from("gallery/out"));
    assert_eq!(png, "gallery/out.png");
    assert_eq!(txt, "gallery/out.txt");
}

#[test]
fn params_carry_fixed_point_multipliers() {
    let p = ConversionParams {
        filepath: String::from("in.png"),
        output_name: String::from("out"),
        scale_factor_milli: 1000,
        brightness_milli: 1000,
        contrast_milli: 1000,
        saturation_milli: 1000,
    };
    let a = p.adjust_params();
    assert_eq!(a.saturation_milli, 1000);
    assert_eq!(a.brightness_milli, 1000);
    assert_eq!(a.contrast_milli, 1000);
}
