use vstd::prelude::*;

verus! {

/// What the image decoder makes of an encoded byte stream: width, height and RGBA8 bytes.
pub uninterp spec fn decoded(data: Seq<u8>) -> Option<(u32, u32, Seq<u8>)>;

/// What the Lanczos resampler makes of a `w` by `h` RGBA8 image at `nw` by `nh`.
pub uninterp spec fn lanczos_resized(px: Seq<u8>, w: u32, h: u32, nw: u32, nh: u32) -> Seq<u8>;

/// Relies on `image::load_from_memory` and `DynamicImage::to_rgba8`: the decoded image as
/// RGBA8 bytes, four per pixel in row-major order (`ImageBuffer::new` sizes the buffer),
/// or `None` when the bytes cannot be decoded.
#[verifier::external_body]
pub(crate) fn decode_rgba(data: &[u8]) -> (r: Option<(u32, u32, Vec<u8>)>)
    ensures
        r is None <==> decoded(data@) is None,
        r matches Some(t) ==> decoded(data@) == Some((t.0, t.1, t.2@)),
        r matches Some(t) ==> t.2@.len() == 4 * t.0 * t.1,
{
    match image::load_from_memory(data) {
        Ok(img) => {
            let buf = img.to_rgba8();
            let (w, h) = buf.dimensions();
            Some((w, h, buf.into_raw()))
        },
        Err(_) => None,
    }
}

/// Relies on `image::imageops::resize` with the Lanczos3 filter: an `nw` by `nh` RGBA8 image
/// (its output is made by `ImageBuffer::new(nw, nh)`), which depends on its arguments alone.
#[verifier::external_body]
pub(crate) fn resize_rgba(px: &Vec<u8>, w: u32, h: u32, nw: u32, nh: u32) -> (r: Vec<u8>)
    requires
        px@.len() == 4 * w * h,
        w >= 1,
        h >= 1,
        nw >= 1,
        nh >= 1,
        4 * nw * nh <= usize::MAX,
    ensures
        r@ == lanczos_resized(px@, w, h, nw, nh),
        r@.len() == 4 * nw * nh,
{
    let src: image::RgbaImage = image::ImageBuffer::from_raw(w, h, px.clone()).unwrap();
    image::imageops::resize(&src, nw, nh, image::imageops::FilterType::Lanczos3).into_raw()
}

} // verus!
