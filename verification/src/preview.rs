//! Transport preview: the raster is downscaled proportionally (with a
//! smoothing filter, unlike the nearest-neighbor pre-ASCII resize) when it
//! is wider than a fixed threshold, then encoded as a base64 JPEG data URI
//! whose prefix tags the format for the consumer. The preview is transient
//! and never written to disk; the persisted raster is untouched.

use vstd::prelude::*;
use vstd::string::StringExecFns;
use crate::errors::ConvError;
use crate::raster::Raster;
use crate::raster::raster_dims;
use crate::raster::b64_of;
use crate::raster::jpeg_of;
use crate::raster::triangle_px;
use crate::raster::raster_px;
use crate::raster::canvas_dims;
use crate::raster::downscale_canvas;
use crate::raster::encode_jpeg;
use crate::raster::encode_base64;

verus! {

/// Rasters wider than this are downscaled for transport.
pub const PREVIEW_MAX_WIDTH: u32 = 1200;

/// JPEG quality used for the transport preview.
pub const PREVIEW_JPEG_QUALITY: u8 = 85;

/// Preview dimensions: a raster wider than the threshold is scaled to
/// exactly the threshold width, its height scaled by the same ratio
/// (truncating, clamped below to one row); anything else is kept as is.
pub open spec fn preview_dims_spec(pw: int, ph: int) -> (int, int) {
    if pw > PREVIEW_MAX_WIDTH as int {
        let th = (ph * (PREVIEW_MAX_WIDTH as int)) / pw;
        (PREVIEW_MAX_WIDTH as int, if th < 1 { 1 } else { th })
    } else {
        (pw, ph)
    }
}

/// Computes the transport dimensions of a preview.
pub fn preview_dims(pw: u32, ph: u32) -> (d: (u32, u32))
    requires
        1 <= pw,
    ensures
        (d.0 as int, d.1 as int) == preview_dims_spec(pw as int, ph as int),
        d.0 <= pw || d.0 == PREVIEW_MAX_WIDTH,
        d.0 >= 1,
        d.1 <= ph || d.1 == 1,
{
    if pw > PREVIEW_MAX_WIDTH {
        proof {
            assert((ph as u64) * 1200u64 <= 0x1000000000000u64) by (nonlinear_arith)
                requires
                    0 <= (ph as u64) < 0x100000000u64,
            ;
        }
        let num: u64 = (ph as u64) * (PREVIEW_MAX_WIDTH as u64);
        let th64: u64 = num / (pw as u64);
        proof {
            assert((ph as int) * 1200 / (pw as int) <= ph as int) by (nonlinear_arith)
                requires
                    (pw as int) > 1200,
                    (ph as int) >= 0,
            ;
        }
        let th: u32 = if th64 < 1 {
            1
        } else {
            th64 as u32
        };
        (PREVIEW_MAX_WIDTH, th)
    } else {
        (pw, ph)
    }
}

/// A raster wider than the threshold yields a preview no wider than the
/// threshold, and (whenever the scaled height is not degenerate) its height
/// is scaled by exactly the same ratio as its width, within one unit of
/// integer rounding: th * pw never strays from ph * 1200 by pw or more.
pub proof fn lemma_preview_ratio(pw: int, ph: int)
    requires
        pw > PREVIEW_MAX_WIDTH as int,
        ph >= 0,
    ensures
        preview_dims_spec(pw, ph).0 == PREVIEW_MAX_WIDTH as int,
        preview_dims_spec(pw, ph).0 <= PREVIEW_MAX_WIDTH as int,
        (ph * (PREVIEW_MAX_WIDTH as int)) / pw >= 1 ==> {
            let th = preview_dims_spec(pw, ph).1;
            &&& th * pw <= ph * (PREVIEW_MAX_WIDTH as int)
            &&& ph * (PREVIEW_MAX_WIDTH as int) < (th + 1) * pw
        },
{
    let n = ph * (PREVIEW_MAX_WIDTH as int);
    assert(n >= 0) by (nonlinear_arith)
        requires
            n == ph * 1200,
            ph >= 0,
    ;
    vstd::arithmetic::div_mod::lemma_fundamental_div_mod(n, pw);
    vstd::arithmetic::div_mod::lemma_mod_bound(n, pw);
    let q = n / pw;
    if q >= 1 {
        assert(q * pw <= n) by (nonlinear_arith)
            requires
                n == pw * q + n % pw,
                n % pw >= 0,
        ;
        assert(n < (q + 1) * pw) by (nonlinear_arith)
            requires
                n == pw * q + n % pw,
                n % pw < pw,
        ;
    }
}

/// Builds the format-tagged transport payload: the JPEG bytes, base64
/// encoded, behind a data-URI prefix naming the MIME type.
pub fn jpeg_data_uri(jpeg: &Vec<u8>) -> (r: String)
    requires
        jpeg@.len() <= 0x10000000,
    ensures
        r@ == "data:image/jpeg;base64,"@ + b64_of(jpeg@),
        r@.len() == 23 + 4 * ((jpeg@.len() + 2) / 3),
        r@.subrange(0, 23) == "data:image/jpeg;base64,"@,
{
    let mut s = String::from_str("data:image/jpeg;base64,");
    proof {
        reveal_strlit("data:image/jpeg;base64,");
    }
    let b = encode_base64(jpeg);
    s.append(b.as_str());
    proof {
        assert(s@.subrange(0, 23) =~= "data:image/jpeg;base64,"@);
    }
    s
}

/// The pixel buffer the transport preview encodes: the raster itself when
/// it is no wider than the threshold, else its Triangle downscale to the
/// transport dimensions.
pub open spec fn preview_px(px: Seq<u8>, w: nat, h: nat) -> Seq<u8> {
    let d = preview_dims_spec(w as int, h as int);
    if w > PREVIEW_MAX_WIDTH as nat {
        triangle_px(px, w, h, d.0 as nat, d.1 as nat)
    } else {
        px
    }
}

/// The transport payload of a raster: its (possibly downscaled) JPEG
/// stream, base64 encoded behind the data-URI tag.
pub open spec fn preview_payload(px: Seq<u8>, w: nat, h: nat) -> Seq<char> {
    let d = preview_dims_spec(w as int, h as int);
    "data:image/jpeg;base64,"@ + b64_of(
        jpeg_of(preview_px(px, w, h), d.0 as nat, d.1 as nat, PREVIEW_JPEG_QUALITY),
    )
}

/// The preview of a raster succeeds exactly when its transport height fits
/// the encoder's range and the stream stays within the transport bound.
pub open spec fn preview_succeeds(px: Seq<u8>, w: nat, h: nat) -> bool {
    let d = preview_dims_spec(w as int, h as int);
    &&& d.1 <= 65535
    &&& jpeg_of(preview_px(px, w, h), d.0 as nat, d.1 as nat, PREVIEW_JPEG_QUALITY).len()
        <= 0x10000000
}

/// Downsamples the raster if oversized (with the smoothing filter, unlike
/// the nearest-neighbor pre-ASCII resize) and encodes it for fast
/// transport: the payload is exactly the possibly-downscaled raster's JPEG
/// stream, base64 encoded behind the format tag. It succeeds exactly when
/// the transport height fits the encoder's 1..=65535 range and the stream
/// is within the transport bound; every failure surfaces as EncodeError.
pub fn encode_preview(raster: &Raster) -> (r: Result<String, ConvError>)
    requires
        1 <= raster_dims(*raster).0,
        1 <= raster_dims(*raster).1,
        3 * (raster_dims(*raster).0 as int) * (raster_dims(*raster).1 as int) <= usize::MAX,
    ensures
        r matches Ok(s) ==> s@.len() >= 23 && s@.subrange(0, 23) == "data:image/jpeg;base64,"@,
        r matches Err(e) ==> e matches ConvError::EncodeError(_),
        r is Ok <==> preview_succeeds(
            raster_px(*raster),
            raster_dims(*raster).0,
            raster_dims(*raster).1,
        ),
        r matches Ok(s) ==> s@ == preview_payload(
            raster_px(*raster),
            raster_dims(*raster).0,
            raster_dims(*raster).1,
        ),
{
    let (pw, ph) = canvas_dims(raster);
    let encoded: Result<Vec<u8>, String> = if pw > PREVIEW_MAX_WIDTH {
        let (dw, dh) = preview_dims(pw, ph);
        proof {
            assert(3 * (dw as int) * (dh as int) <= 3 * (pw as int) * (ph as int))
                by (nonlinear_arith)
                requires
                    1 <= (dw as int) <= (pw as int),
                    1 <= (dh as int) <= (ph as int),
            ;
        }
        let small = downscale_canvas(raster, dw, dh);
        encode_jpeg(&small, PREVIEW_JPEG_QUALITY)
    } else {
        encode_jpeg(raster, PREVIEW_JPEG_QUALITY)
    };
    match encoded {
        Ok(bytes) => {
            if (bytes.len() as u64) <= 0x10000000u64 {
                Ok(jpeg_data_uri(&bytes))
            } else {
                Err(ConvError::EncodeError(String::new()))
            }
        },
        Err(m) => Err(ConvError::EncodeError(m)),
    }
}

} // verus!
