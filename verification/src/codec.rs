//! The snapshot codec.  A baseline buffer is persisted as a losslessly
//! compressed still image and read back for cache ingestion.  The container
//! work itself is done by the `image` crate; this module states what those
//! calls return and proves the lossless round trip on top of it.

use vstd::prelude::*;
use crate::frame::RenderError;

verus! {

/// The still-image encoding of an RGBA buffer of the given dimensions.  The
/// encoder is a pure function of its input; nothing here says which bytes it
/// produces.
pub uninterp spec fn png_of(pixels: Seq<u8>, width: u32, height: u32) -> Seq<u8>;

/// What decoding a byte string yields: `None` when the bytes are not a still
/// image the default decode path accepts (invalid bytes, or an image whose
/// decoded form would exceed the decoder's default allocation limits),
/// otherwise the RGBA pixels with their width and height.  The decoder is a
/// pure function of its input.
pub uninterp spec fn png_decode_of(bytes: Seq<u8>) -> Option<(Seq<u8>, u32, u32)>;

/// Relies on `image::RgbaImage::write_to` with the PNG format: writing an
/// in-bounds RGBA buffer of nonzero dimensions to an in-memory cursor
/// succeeds, and PNG is lossless, so decoding the produced bytes gives the
/// pixels back exactly.  The size bound keeps the decoded form of the result
/// well under `image::load_from_memory`'s default allocation limit, so the
/// round trip is not cut off by the decoder refusing a large buffer.
#[verifier::external_body]
pub fn png_encode(pixels: &Vec<u8>, width: u32, height: u32) -> (r: Vec<u8>)
    requires
        1 <= width,
        1 <= height,
        pixels@.len() == width as int * height as int * 4,
        width as int * height as int * 4 <= 0x1000_0000,
    ensures
        r@ == png_of(pixels@, width, height),
        png_decode_of(r@) == Some((pixels@, width, height)),
{
    let img = image::RgbaImage::from_vec(width, height, pixels.clone())
        .expect("buffer length matches the dimensions");
    let mut cursor = std::io::Cursor::new(Vec::new());
    img.write_to(&mut cursor, image::ImageFormat::Png)
        .expect("in-memory png encoding of a well-sized buffer");
    cursor.into_inner()
}

/// Relies on `image::load_from_memory` and `DynamicImage::to_rgba8`: bytes
/// this decode path refuses (invalid ones, or images over its default
/// allocation limits) are reported as an error, accepted ones decode to an
/// RGBA buffer whose length is exactly width times height times four.
#[verifier::external_body]
pub fn png_decode(bytes: &Vec<u8>) -> (r: Result<(Vec<u8>, u32, u32), RenderError>)
    ensures
        match r {
            Ok(d) => {
                &&& png_decode_of(bytes@) == Some((d.0@, d.1, d.2))
                &&& d.0@.len() == d.1 as int * d.2 as int * 4
            },
            Err(e) => {
                &&& e == RenderError::InvalidImage
                &&& png_decode_of(bytes@) is None
            },
        },
{
    match image::load_from_memory(bytes.as_slice()) {
        Ok(img) => {
            let rgba = img.to_rgba8();
            let width = rgba.width();
            let height = rgba.height();
            Ok((rgba.into_raw(), width, height))
        },
        Err(_) => Err(RenderError::InvalidImage),
    }
}

/// Lossless round trip: decoding an encoded buffer returns exactly the bytes
/// that were encoded.
pub fn encode_decode_round_trip(pixels: &Vec<u8>, width: u32, height: u32) -> (r: Vec<u8>)
    requires
        1 <= width,
        1 <= height,
        pixels@.len() == width as int * height as int * 4,
        width as int * height as int * 4 <= 0x1000_0000,
    ensures
        r@ == pixels@,
{
    let encoded = png_encode(pixels, width, height);
    match png_decode(&encoded) {
        Ok(d) => d.0,
        Err(_) => unreached(),
    }
}

} // verus!
