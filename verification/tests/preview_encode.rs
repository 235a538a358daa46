use ascii_art::preview::preview_dims;
use ascii_art::preview::jpeg_data_uri;

#[test]
fn wide_raster_downscales_to_threshold() {
    assert_eq!(preview_dims(2400, 1000), (1200, 500));
}

#[test]
fn downscale_keeps_ratio_within_one_unit() {
    let (pw, ph) = (1201u32, 601u32);
    let (dw, dh) = preview_dims(pw, ph);
    assert_eq!(dw, 1200);
    assert_eq!(dh, 600);
    // th * pw within pw of ph * 1200
    assert!(u64::from(dh) * u64::from(pw) <= u64::from(ph) * 1200);
    assert!(u64::from(ph) * 1200 < (u64::from(dh) + 1) * u64::from(pw));
}

#[test]
fn narrow_raster_is_kept() {
    assert_eq!(preview_dims(1200, 999), (1200, 999));
    assert_eq!(preview_dims(10, 20), (10, 20));
}

#[test]
fn tiny_height_clamps_to_one_row() {
    assert_eq!(preview_dims(2000, 1), (1200, 1));
}

#[test]
fn data_uri_is_prefixed_and_base64_encoded() {
    assert_eq!(jpeg_data_uri(&vec![1, 2, 3]), "data:image/jpeg;base64,AQID");
    assert_eq!(
        jpeg_data_uri(&vec![104, 101, 108, 108, 111]),
        "data:image/jpeg;base64,aGVsbG8="
    );
    assert_eq!(jpeg_data_uri(&Vec::new()), "data:image/jpeg;base64,");
}
