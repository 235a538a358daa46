//! Trusted boundary to the image, imageproc and ab_glyph crates: opaque
//! raster canvases, nearest-neighbor and smoothing resizes, glyph drawing,
//! row compositing, and JPEG encoding. Every contract here is believed, not
//! proved; each states only what the relied-upon function's source and
//! documentation show.

use vstd::prelude::*;
use crate::frame::Frame;

verus! {

#[verifier::external_type_specification]
#[verifier::external_body]
pub struct ExDynamicImage(image::DynamicImage);

#[verifier::external_type_specification]
#[verifier::external_body]
pub struct ExFontArc(ab_glyph::FontArc);

#[verifier::external_type_specification]
#[verifier::external_body]
pub struct ExPxScale(ab_glyph::PxScale);

/// An output raster: a pixel canvas of the image crate, held opaquely
/// (Verus refuses `ImageBuffer`'s own declaration, whose generics carry an
/// undeclared trait bound).
#[verifier::external_body]
pub struct Raster {
    inner: image::RgbImage,
}

/// The (width, height) of a decoded source image.
pub uninterp spec fn dyn_dims(img: image::DynamicImage) -> (nat, nat);

/// The (width, height) of a raster canvas.
pub uninterp spec fn raster_dims(img: Raster) -> (nat, nat);

/// The contents of a raster canvas: its raw samples, row-major, three
/// bytes (red, green, blue) per pixel.
pub uninterp spec fn raster_px(img: Raster) -> Seq<u8>;

/// What the standard padded base64 encoding of a byte sequence reads as.
pub uninterp spec fn b64_of(bytes: Seq<u8>) -> Seq<char>;

/// The JPEG stream that encoding a raw RGB pixel buffer of the given
/// dimensions at the given quality produces.
pub uninterp spec fn jpeg_of(px: Seq<u8>, w: nat, h: nat, quality: u8) -> Seq<u8>;

/// The raw RGB bytes of a source image resampled to w x h with the
/// nearest-neighbor filter, row-major, three bytes per pixel.
pub uninterp spec fn resized_px(img: image::DynamicImage, w: nat, h: nat) -> Seq<u8>;

/// The raw RGB bytes of a w x h pixel buffer resampled to nw x nh with the
/// Triangle (smoothing) filter.
pub uninterp spec fn triangle_px(px: Seq<u8>, w: nat, h: nat, nw: nat, nh: nat) -> Seq<u8>;

/// The canvas bytes after one text-draw of `text` in `color` at pixel
/// offset (x, 0) onto a w x h canvas holding `before`, with the given
/// glyph scale and font.
pub uninterp spec fn drawn_px(
    before: Seq<u8>,
    w: nat,
    h: nat,
    color: (u8, u8, u8),
    x: int,
    scale: ab_glyph::PxScale,
    font: ab_glyph::FontArc,
    text: Seq<char>,
) -> Seq<u8>;

/// Whether a byte sequence parses as a font the loader accepts.
pub uninterp spec fn font_parses(data: Seq<u8>) -> bool;

/// Relies on image::GenericImageView::dimensions for DynamicImage: the
/// source image's width and height.
#[verifier::external_body]
pub(crate) fn image_dims(img: &image::DynamicImage) -> (d: (u32, u32))
    ensures
        d.0 as nat == dyn_dims(*img).0,
        d.1 as nat == dyn_dims(*img).1,
{
    image::GenericImageView::dimensions(img)
}

/// Relies on DynamicImage::resize_exact with the Nearest filter and
/// to_rgb8: the result is an RGB buffer of exactly w x h pixels, three
/// bytes per pixel, row-major (ImageBuffer's documented layout).
#[verifier::external_body]
pub(crate) fn resize_to_frame(img: &image::DynamicImage, w: u32, h: u32) -> (f: Frame)
    requires
        1 <= w,
        1 <= h,
        3 * (w as int) * (h as int) <= usize::MAX,
    ensures
        f.wf(),
        f.width == w,
        f.height == h,
        f.data@ == resized_px(*img, w as nat, h as nat),
{
    let resized = img.resize_exact(w, h, image::imageops::FilterType::Nearest);
    let rgb = resized.to_rgb8();
    Frame { width: w, height: h, data: rgb.into_raw() }
}

/// Relies on RgbImage::new: a canvas of exactly w x h pixels with every
/// sample zero. (RgbImage::new panics when the buffer length overflows
/// usize, hence the bound.)
#[verifier::external_body]
pub(crate) fn new_canvas(w: u32, h: u32) -> (img: Raster)
    requires
        3 * (w as int) * (h as int) <= usize::MAX,
    ensures
        raster_dims(img) == (w as nat, h as nat),
        raster_px(img) == Seq::new(3 * (w as nat) * (h as nat), |i: int| 0u8),
{
    Raster { inner: image::RgbImage::new(w, h) }
}

/// Relies on ImageBuffer::dimensions: the canvas width and height.
#[verifier::external_body]
pub(crate) fn canvas_dims(img: &Raster) -> (d: (u32, u32))
    ensures
        d.0 as nat == raster_dims(*img).0,
        d.1 as nat == raster_dims(*img).1,
{
    img.inner.dimensions()
}

/// Relies on ImageBuffer::into_raw: hands the raster out as its dimensions
/// and raw row-major RGB bytes (for persisting; writing is the caller's
/// business, not this library's).
#[verifier::external_body]
pub(crate) fn raster_into_bytes(img: Raster) -> (r: (u32, u32, Vec<u8>))
    ensures
        r.0 as nat == raster_dims(img).0,
        r.1 as nat == raster_dims(img).1,
        r.2@ == raster_px(img),
{
    let (w, h) = img.inner.dimensions();
    (w, h, img.inner.into_raw())
}

/// Relies on imageproc::drawing::draw_text_mut: draws `text` in `color` at
/// pixel offset (x, 0), clipping at the canvas edges (its writes are
/// bounds-checked), and never changes the canvas dimensions or length. The
/// drawn bytes are a pure function of the prior bytes, the dimensions, the
/// color, the offset, the scale, the font and the text.
#[verifier::external_body]
pub(crate) fn draw_run_text(
    canvas: &mut Raster,
    color: (u8, u8, u8),
    x: i32,
    scale: &ab_glyph::PxScale,
    font: &ab_glyph::FontArc,
    text: &str,
)
    ensures
        raster_dims(*final(canvas)) == raster_dims(*old(canvas)),
        raster_px(*final(canvas)) == drawn_px(
            raster_px(*old(canvas)),
            raster_dims(*old(canvas)).0,
            raster_dims(*old(canvas)).1,
            color,
            x as int,
            *scale,
            *font,
            text@,
        ),
        raster_px(*final(canvas)).len() == raster_px(*old(canvas)).len(),
{
    imageproc::drawing::draw_text_mut(
        &mut canvas.inner,
        image::Rgb([color.0, color.1, color.2]),
        x,
        0,
        *scale,
        font,
        text,
    );
}

/// Relies on image::imageops::overlay for RGB images, whose per-pixel blend
/// is plain replacement: with the top canvas placed fully inside the bottom
/// one, every byte of the covered region equals the top canvas's byte, and
/// every byte outside it is untouched. Dimensions are unchanged.
#[verifier::external_body]
pub(crate) fn overlay_canvas(bottom: &mut Raster, top: &Raster, x: u32, y: u32)
    requires
        x as nat + raster_dims(*top).0 <= raster_dims(*old(bottom)).0,
        y as nat + raster_dims(*top).1 <= raster_dims(*old(bottom)).1,
    ensures
        raster_dims(*final(bottom)) == raster_dims(*old(bottom)),
        raster_px(*final(bottom)).len() == raster_px(*old(bottom)).len(),
        forall|r: int, c: int, k: int|
            0 <= r < raster_dims(*top).1 && 0 <= c < raster_dims(*top).0 && 0 <= k < 3
                ==> #[trigger] raster_px(*final(bottom))[3 * (((y as int) + r) * (raster_dims(
                *old(bottom),
            ).0 as int) + (x as int) + c) + k] == raster_px(*top)[3 * (r * (raster_dims(
                *top,
            ).0 as int) + c) + k],
        forall|rr: int, cc: int, k: int|
            0 <= rr < raster_dims(*old(bottom)).1 && 0 <= cc < raster_dims(*old(bottom)).0 && 0
                <= k < 3 && !((y as int) <= rr < (y as int) + raster_dims(*top).1 && (x as int)
                <= cc < (x as int) + raster_dims(*top).0)
                ==> #[trigger] raster_px(*final(bottom))[3 * (rr * (raster_dims(*old(bottom)).0
                as int) + cc) + k] == raster_px(*old(bottom))[3 * (rr * (raster_dims(
                *old(bottom),
            ).0 as int) + cc) + k],
{
    image::imageops::overlay(&mut bottom.inner, &top.inner, x as i64, y as i64);
}

/// Relies on image::imageops::resize with the Triangle (smoothing) filter:
/// the result has exactly the requested dimensions. Used only for the
/// transport preview, never for the persisted raster.
#[verifier::external_body]
pub(crate) fn downscale_canvas(img: &Raster, w: u32, h: u32) -> (r: Raster)
    requires
        1 <= w,
        1 <= h,
        3 * (w as int) * (h as int) <= usize::MAX,
    ensures
        raster_dims(r) == (w as nat, h as nat),
        raster_px(r) == triangle_px(
            raster_px(*img),
            raster_dims(*img).0,
            raster_dims(*img).1,
            w as nat,
            h as nat,
        ),
{
    Raster { inner: image::imageops::resize(&img.inner, w, h, image::imageops::FilterType::Triangle) }
}

/// Relies on JpegEncoder::new_with_quality and encode_image writing into a
/// Vec, which never fails as a writer: the encoder errs exactly when a
/// dimension lies outside 1..=65535, and otherwise emits the JPEG stream,
/// a pure function of the pixel bytes, the dimensions and the quality.
#[verifier::external_body]
pub(crate) fn encode_jpeg(img: &Raster, quality: u8) -> (r: Result<Vec<u8>, String>)
    ensures
        r is Ok <==> (1 <= raster_dims(*img).0 <= 65535 && 1 <= raster_dims(*img).1 <= 65535),
        r matches Ok(b) ==> b@ == jpeg_of(
            raster_px(*img),
            raster_dims(*img).0,
            raster_dims(*img).1,
            quality,
        ),
{
    let mut data: Vec<u8> = Vec::new();
    let mut encoder = image::codecs::jpeg::JpegEncoder::new_with_quality(&mut data, quality);
    match encoder.encode_image(&img.inner) {
        Ok(()) => Ok(data),
        Err(e) => Err(format!("{e}")),
    }
}

/// Relies on base64's STANDARD engine (padded standard alphabet): the
/// output is a pure function of the input bytes, four characters for every
/// three input bytes rounded up. (The engine panics when that length
/// overflows usize; the bound keeps it far below even a 32-bit usize.)
#[verifier::external_body]
pub(crate) fn encode_base64(data: &Vec<u8>) -> (r: String)
    requires
        data@.len() <= 0x10000000,
    ensures
        r@ == b64_of(data@),
        r@.len() == 4 * ((data@.len() + 2) / 3),
{
    base64::Engine::encode(&base64::engine::general_purpose::STANDARD, data)
}

/// Relies on ab_glyph::FontArc::try_from_vec: yields the font exactly when
/// the bytes parse as one, and InvalidFont otherwise; whether they parse is
/// a function of the bytes alone.
#[verifier::external_body]
pub(crate) fn load_font(data: Vec<u8>) -> (r: Result<ab_glyph::FontArc, String>)
    ensures
        r is Ok <==> font_parses(data@),
{
    match ab_glyph::FontArc::try_from_vec(data) {
        Ok(f) => Ok(f),
        Err(e) => Err(format!("{e}")),
    }
}

} // verus!
