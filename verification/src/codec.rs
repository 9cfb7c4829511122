use vstd::prelude::*;
use crate::pixel::Pixel;
use crate::image_buf::Image;
use crate::image_buf::ImageView;

verus! {

/// What decoding a byte stream yields: `Some` image exactly when the bytes
/// are a recognized, decodable raster format, converted to 8-bit RGBA; `None`
/// otherwise. Decoding depends on the bytes alone.
pub uninterp spec fn decode_of(bytes: Seq<u8>) -> Option<ImageView>;

/// The PNG encoding of an image. Encoding depends on the image alone.
pub uninterp spec fn png_of(img: ImageView) -> Seq<u8>;

/// Relies on image::guess_format, which recognizes the format from the
/// content's magic bytes alone, on image::load_from_memory_with_format,
/// which with a known format decodes through the built-in decoder for that
/// format and consults no global registry, and on DynamicImage::to_rgba8,
/// which converts any decoded color model to 8-bit RGBA (opaque alpha where
/// the source had none); the RGBA buffer holds width * height pixels of four
/// bytes each. All three are functions of the input bytes alone.
#[verifier::external_body]
pub fn decode_rgba(bytes: &[u8]) -> (r: Option<Image>)
    ensures
        r is Some <==> decode_of(bytes@) is Some,
        r is Some ==> r.unwrap()@ == decode_of(bytes@).unwrap(),
        r is Some ==> r.unwrap()@.wf(),
{
    let format = image::guess_format(bytes).ok()?;
    let decoded = image::load_from_memory_with_format(bytes, format).ok()?;
    let buf = decoded.to_rgba8();
    let (width, height) = buf.dimensions();
    let pixels = buf.into_raw().chunks_exact(4).map(
        |c| Pixel { r: c[0], g: c[1], b: c[2], a: c[3] },
    ).collect();
    Some(Image { width, height, pixels })
}

/// Relies on image::write_buffer_with_format with ImageFormat::Png, which
/// writes the RGBA buffer as PNG data to the in-memory writer and is a
/// function of the buffer and dimensions alone. The PNG encoder asserts that
/// the buffer holds exactly width * height four-byte pixels, which the
/// well-formedness precondition guarantees; writing to an in-memory cursor
/// cannot fail, so the encoder's only remaining refusal is a zero width or
/// height, and with at least one pixel each way it succeeds.
#[verifier::external_body]
pub fn encode_png(img: &Image) -> (r: Option<Vec<u8>>)
    requires
        img@.wf(),
    ensures
        r is Some ==> r.unwrap()@ == png_of(img@),
        img@.width >= 1 && img@.height >= 1 ==> r is Some,
{
    let raw: Vec<u8> = img.pixels.iter().flat_map(|p| [p.r, p.g, p.b, p.a]).collect();
    let mut out = std::io::Cursor::new(Vec::new());
    match image::write_buffer_with_format(
        &mut out,
        &raw,
        img.width,
        img.height,
        image::ExtendedColorType::Rgba8,
        image::ImageFormat::Png,
    ) {
        Ok(()) => Some(out.into_inner()),
        Err(_) => None,
    }
}

} // verus!
