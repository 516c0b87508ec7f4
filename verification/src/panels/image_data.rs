//! Turning encoded image bytes into RGBA pixels: artwork in any format the
//! `image` crate recognises, and ROM icons (`.ico`) scaled to the icon size.
//! Reading the bytes from disk and uploading textures is the application's part.
use vstd::prelude::*;

verus! {

/// What `image::load_from_memory` followed by `to_rgba8` gives for `data`:
/// width, height and RGBA bytes, or `None` where the bytes do not decode.
pub uninterp spec fn decoded_rgba(data: Seq<u8>) -> Option<(u32, u32, Seq<u8>)>;

/// What `image::load_from_memory_with_format(.., ImageFormat::Ico)` followed
/// by `to_rgba8` gives for `data`.
pub uninterp spec fn decoded_ico_rgba(data: Seq<u8>) -> Option<(u32, u32, Seq<u8>)>;

/// What `image::imageops::resize` with the Lanczos3 filter gives for an RGBA
/// image of `width` x `height` with bytes `pixels`, scaled to `size` x `size`;
/// `None` where the bytes are too few for the stated dimensions.
pub uninterp spec fn resized_rgba(width: u32, height: u32, pixels: Seq<u8>, size: u32) -> Option<Seq<u8>>;

/// Width, height and bytes of a decoded image as plain values.
pub open spec fn rgba_view(r: Option<(u32, u32, Vec<u8>)>) -> Option<(u32, u32, Seq<u8>)> {
    match r {
        Some((w, h, px)) => Some((w, h, px@)),
        None => None,
    }
}

/// `image::load_from_memory` (format guessed from the bytes) and
/// `DynamicImage::to_rgba8`: the result is named `decoded_rgba(data@)`;
/// nothing more is stated of it.
#[verifier::external_body]
fn decode_image_rgba(data: &[u8]) -> (r: Option<(u32, u32, Vec<u8>)>)
    ensures
        rgba_view(r) == decoded_rgba(data@),
{
    match image::load_from_memory(data) {
        Ok(image) => {
            let rgba = image.to_rgba8();
            Some((rgba.width(), rgba.height(), rgba.into_raw()))
        },
        Err(_) => None,
    }
}

/// `image::load_from_memory_with_format` with `ImageFormat::Ico` and
/// `DynamicImage::to_rgba8`: the result is named `decoded_ico_rgba(data@)`;
/// nothing more is stated of it.
#[verifier::external_body]
fn decode_ico_rgba(data: &[u8]) -> (r: Option<(u32, u32, Vec<u8>)>)
    ensures
        rgba_view(r) == decoded_ico_rgba(data@),
{
    match image::load_from_memory_with_format(data, image::ImageFormat::Ico) {
        Ok(image) => {
            let rgba = image.to_rgba8();
            Some((rgba.width(), rgba.height(), rgba.into_raw()))
        },
        Err(_) => None,
    }
}

/// `ImageBuffer::from_raw` and `image::imageops::resize` with
/// `FilterType::Lanczos3`: the result is named `resized_rgba(..)`. The
/// `requires` keeps the buffers that `resize` allocates (four channels of
/// `width` x `size` and `size` x `size` pixels) within `usize`, where
/// `ImageBuffer::new` would panic.
#[verifier::external_body]
fn resize_rgba(width: u32, height: u32, pixels: Vec<u8>, size: u32) -> (r: Option<Vec<u8>>)
    requires
        4 * ((width as nat) * (size as nat)) <= usize::MAX,
        4 * ((size as nat) * (size as nat)) <= usize::MAX,
    ensures
        match r {
            Some(px) => resized_rgba(width, height, pixels@, size) == Some(px@),
            None => resized_rgba(width, height, pixels@, size) is None,
        },
{
    match image::RgbaImage::from_raw(width, height, pixels) {
        Some(buffer) => Some(
            image::imageops::resize(&buffer, size, size, image::imageops::FilterType::Lanczos3).into_raw(),
        ),
        None => None,
    }
}

/// The RGBA pixels of artwork bytes, as a texture is made of them.
pub fn decode_artwork(data: &[u8]) -> (r: Option<(u32, u32, Vec<u8>)>)
    ensures
        rgba_view(r) == decoded_rgba(data@),
{
    decode_image_rgba(data)
}

/// The buffers of scaling a `width`-wide image to `size` x `size` fit in `usize`.
pub open spec fn resize_fits(width: u32, size: u32) -> bool {
    &&& 4 * ((width as nat) * (size as nat)) <= usize::MAX
    &&& 4 * ((size as nat) * (size as nat)) <= usize::MAX
}

/// The product of two `u32` values fits in a `u64`.
proof fn lemma_u32_product_fits(a: u32, b: u32)
    ensures
        (a as nat) * (b as nat) <= u64::MAX,
{
    assert((a as nat) * (b as nat) <= (u32::MAX as nat) * (u32::MAX as nat)) by (nonlinear_arith);
}

/// What `prepare_icon` gives: the decoded icon as it is when it already has
/// the icon size, otherwise scaled to `size` x `size`. `None` where the bytes
/// do not decode, or where the scaling buffers would not fit in `usize`.
pub open spec fn prepared_icon(data: Seq<u8>, size: u32) -> Option<(u32, u32, Seq<u8>)> {
    match decoded_ico_rgba(data) {
        None => None,
        Some((w, h, px)) => if w == size && h == size {
            Some((w, h, px))
        } else if !resize_fits(w, size) {
            None
        } else {
            match resized_rgba(w, h, px, size) {
                Some(scaled) => Some((size, size, scaled)),
                None => None,
            }
        },
    }
}

/// Decodes `.ico` bytes and scales the icon to `size` x `size` unless it
/// already has that size.
pub fn prepare_icon(data: &[u8], size: u32) -> (r: Option<(u32, u32, Vec<u8>)>)
    ensures
        rgba_view(r) == prepared_icon(data@, size),
{
    match decode_ico_rgba(data) {
        None => None,
        Some((w, h, px)) => {
            if w == size && h == size {
                return Some((w, h, px));
            }
            proof {
                lemma_u32_product_fits(w, size);
                lemma_u32_product_fits(size, size);
            }
            let wide: u64 = (w as u64) * (size as u64);
            let square: u64 = (size as u64) * (size as u64);
            let limit: u64 = (usize::MAX as u64) / 4;
            assert(4 * (limit as nat) <= usize::MAX < 4 * (limit as nat) + 4);
            assert(wide as nat == (w as nat) * (size as nat));
            assert(square as nat == (size as nat) * (size as nat));
            if wide > limit || square > limit {
                return None;
            }
            match resize_rgba(w, h, px, size) {
                Some(scaled) => Some((size, size, scaled)),
                None => None,
            }
        },
    }
}

} // verus!
