//! PNG encoding of rasterized pages.
use vstd::prelude::*;

verus! {

#[verifier::external_type_specification]
#[verifier::external_body]
pub struct ExImageError(image::ImageError);

/// The PNG file that image's encoder writes for `pixels`, `width` × `height`
/// pixels of RGBA with 8 bits per channel, row by row.
pub uninterp spec fn png_of(pixels: Seq<u8>, width: u32, height: u32) -> Seq<u8>;

/// Relies on `image::write_buffer_with_format` with `ColorType::Rgba8` and
/// `ImageFormat::Png`: on success it has written the PNG file of the pixels,
/// which depends on the arguments alone. Writing into a `Vec` cannot fail, so
/// the encoder fails only on a zero width or height. It panics unless the
/// buffer holds four bytes per pixel.
#[verifier::external_body]
pub(crate) fn encode_png(pixels: &[u8], width: u32, height: u32) -> (r: Result<
    Vec<u8>,
    image::ImageError,
>)
    requires
        pixels@.len() == 4 * width * height,
    ensures
        width > 0 && height > 0 ==> r is Ok,
        r is Ok ==> r->Ok_0@ == png_of(pixels@, width, height),
{
    let mut writer = std::io::Cursor::new(Vec::new());
    image::write_buffer_with_format(
        &mut writer,
        pixels,
        width,
        height,
        image::ColorType::Rgba8,
        image::ImageFormat::Png,
    ).map(|()| writer.into_inner())
}

} // verus!
