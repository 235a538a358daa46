use ascii_art::dims::plan_dimensions;
use ascii_art::dims::plan_dimensions_default;
use ascii_art::errors::ConvError;

#[test]
fn plan_4x4_unit_scale() {
    // raw width = 1.0 * 4 * 1.8 = 7.2 -> 7; height = 7 * 10 * 4 / (4 * 18) = 3
    assert_eq!(plan_dimensions_default(4, 4, 1000).unwrap(), (7, 3));
}

#[test]
fn plan_cap_applies() {
    // raw width = 1000 * 1000 * 1.8 = 1_800_000, capped to 400;
    // height derived from the capped width: 400 * 10 * 1000 / (1000 * 18) = 222
    assert_eq!(plan_dimensions(1000, 1000, 1_000_000, 400, true).unwrap(), (400, 222));
}

#[test]
fn plan_aspect_preserved_under_cap() {
    let (tw, th) = plan_dimensions(1000, 700, 1_000_000, 400, true).unwrap();
    assert_eq!(tw, 400);
    // th is the floor of tw * 10 * src_h / (src_w * 18): within one unit of
    // the exact ratio, derived from the capped width, never the raw scale.
    let (sw, sh) = (1000u64, 700u64);
    assert!(u64::from(th) * sw * 18 <= u64::from(tw) * 10 * sh);
    assert!(u64::from(tw) * 10 * sh < (u64::from(th) + 1) * sw * 18);
}

#[test]
fn plan_zero_width_is_invalid() {
    assert!(matches!(
        plan_dimensions_default(0, 5, 1000),
        Err(ConvError::InvalidDimensions)
    ));
}

#[test]
fn plan_zero_height_is_invalid() {
    assert!(matches!(
        plan_dimensions_default(5, 0, 1000),
        Err(ConvError::InvalidDimensions)
    ));
}

#[test]
fn plan_direct_orientation_skips_compensation() {
    // the direct orientation takes the scale as a fraction of width as is:
    // 4 wide at 1.0 -> 4 columns; height still derives with the inverse
    // cell compensation: 4 * 10 * 4 / (4 * 18) = 2
    assert_eq!(plan_dimensions(4, 4, 1000, 400, false).unwrap(), (4, 2));
}

#[test]
fn plan_huge_scale_caps() {
    // the scale factor has no upper bound; anything past the cap saturates
    assert_eq!(
        plan_dimensions(4, 4, u32::MAX, 400, true).unwrap(),
        (400, 222)
    );
}

#[test]
fn plan_tiny_scale_floors_to_one() {
    // raw width 0 and derived height 0 are both clamped to 1
    assert_eq!(plan_dimensions_default(4, 4, 1).unwrap(), (1, 1));
}
