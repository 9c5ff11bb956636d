//! The header bitmap. A package carries one bitmap at a fixed name, and its
//! canvas is normalized to exactly 400 by 60 pixels before packaging; an
//! image that already has that size is passed through untouched.

use vstd::prelude::*;
use crate::errors::BuildError;

verus! {

/// Canonical width of the header bitmap, in pixels.
pub const CANVAS_WIDTH: u32 = 400;

/// Canonical height of the header bitmap, in pixels.
pub const CANVAS_HEIGHT: u32 = 60;

/// The largest width or height the bitmap codec reads back: its decoder
/// rejects any dimension above this, so nothing larger is ever requested.
pub const MAX_CANVAS_EDGE: u32 = 0xFFFF;

/// The most bytes a bitmap resampled to the canonical canvas takes:
/// headers and palette, then four bytes per pixel and a padded row ending
/// per line.
pub const RESIZED_BYTES_MAX: usize = 2048 + 4 * 400 * 60 + 4 * 60;

/// The size the bytes decode to, if they decode at all. What the decoder
/// reads is a function of the bytes alone (this crate registers no decoding
/// hooks anywhere, so nothing changes it at run time).
pub uninterp spec fn decoded_dims(img: Seq<u8>) -> Option<(u32, u32)>;

/// The bitmap that re-encodes the decoded image resampled to `w` by `h`
/// pixels. A function of the bytes and the requested size alone.
pub uninterp spec fn resized_bmp(img: Seq<u8>, w: u32, h: u32) -> Seq<u8>;

/// What the header bitmap becomes: itself if it is already on the canonical
/// canvas, the canonical resampling otherwise.
pub open spec fn normalized_image(img: Seq<u8>) -> Seq<u8> {
    if decoded_dims(img) == Some((CANVAS_WIDTH, CANVAS_HEIGHT)) {
        img
    } else {
        resized_bmp(img, CANVAS_WIDTH, CANVAS_HEIGHT)
    }
}

/// Relies on `image::load_from_memory`: whether the bytes decode, and the
/// width and height they decode to, depend on the bytes alone.
#[verifier::external_body]
fn probe_image(bytes: &Vec<u8>) -> (r: Option<(u32, u32)>)
    ensures
        r == decoded_dims(bytes@),
{
    match image::load_from_memory(bytes.as_slice()) {
        Ok(img) => Some((img.width(), img.height())),
        Err(_) => None,
    }
}

/// Relies on `image::load_from_memory`, `DynamicImage::resize_exact` and
/// `DynamicImage::write_to`: resampling yields exactly the requested size
/// and succeeds whenever the bytes decode, since the only enabled decoder
/// hands back a color layout the matching encoder accepts, writing into a
/// growable buffer cannot fail, and the encoder takes any size the decoder
/// reads back (its decoder stops at 65535 on either axis, hence the bound
/// on the request). The bitmap written is fixed headers, at most a palette,
/// and one padded row of at most four bytes per pixel per line, which the
/// stated size bound covers. The result depends on the bytes and the
/// requested size alone.
#[verifier::external_body]
fn resize_image(bytes: &Vec<u8>, w: u32, h: u32) -> (r: Option<Vec<u8>>)
    requires
        1 <= w <= MAX_CANVAS_EDGE,
        1 <= h <= MAX_CANVAS_EDGE,
    ensures
        r is Some <==> decoded_dims(bytes@) is Some,
        match r {
            Some(out) => out@ == resized_bmp(bytes@, w, h) && decoded_dims(out@) == Some((w, h))
                && out@.len() <= 2048 + 4 * (w as int) * (h as int) + 4 * (h as int),
            None => true,
        },
{
    let img = match image::load_from_memory(bytes.as_slice()) {
        Ok(img) => img,
        Err(_) => {
            return None;
        },
    };
    let resized = img.resize_exact(w, h, image::imageops::FilterType::Triangle);
    let mut encoded: Vec<u8> = Vec::new();
    match resized.write_to(std::io::Cursor::new(&mut encoded), image::ImageFormat::Bmp) {
        Ok(()) => Some(encoded),
        Err(_) => None,
    }
}

/// A byte-for-byte copy.
pub(crate) fn clone_bytes(b: &Vec<u8>) -> (r: Vec<u8>)
    ensures
        r@ == b@,
{
    let mut out: Vec<u8> = Vec::new();
    let mut i: usize = 0;
    while i < b.len()
        invariant
            i <= b@.len(),
            out@ =~= b@.take(i as int),
        decreases b@.len() - i,
    {
        out.push(b[i]);
        i = i + 1;
    }
    proof {
        assert(out@ =~= b@);
    }
    out
}

/// Normalizes the header bitmap to the canonical canvas. A missing image
/// fails with `HeaderImageMissing` and bytes that do not decode fail with
/// `HeaderImageInvalid`; every decodable image normalizes. An image already
/// on the canonical canvas comes back unchanged.
pub fn normalize_header(image: Option<&Vec<u8>>) -> (r: Result<Vec<u8>, BuildError>)
    ensures
        match image {
            None => r == Err::<Vec<u8>, BuildError>(BuildError::HeaderImageMissing),
            Some(img) => match decoded_dims(img@) {
                None => r == Err::<Vec<u8>, BuildError>(BuildError::HeaderImageInvalid),
                Some(dims) => (r matches Ok(out) && {
                    &&& out@ == normalized_image(img@)
                    &&& decoded_dims(out@) == Some((CANVAS_WIDTH, CANVAS_HEIGHT))
                    &&& (dims == (CANVAS_WIDTH, CANVAS_HEIGHT) ==> out@ == img@)
                    &&& (dims != (CANVAS_WIDTH, CANVAS_HEIGHT) ==> out@.len()
                        <= RESIZED_BYTES_MAX)
                }),
            },
        },
{
    let bytes = match image {
        None => {
            return Err(BuildError::HeaderImageMissing);
        },
        Some(b) => b,
    };
    let dims = match probe_image(bytes) {
        None => {
            return Err(BuildError::HeaderImageInvalid);
        },
        Some(d) => d,
    };
    if dims.0 == CANVAS_WIDTH && dims.1 == CANVAS_HEIGHT {
        return Ok(clone_bytes(bytes));
    }
    match resize_image(bytes, CANVAS_WIDTH, CANVAS_HEIGHT) {
        Some(out) => Ok(out),
        None => Err(BuildError::HeaderImageInvalid),
    }
}

} // verus!
