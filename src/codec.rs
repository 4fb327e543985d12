use vstd::prelude::*;
use image::GenericImageView;

verus! {

#[verifier::external_type_specification]
#[verifier::external_body]
pub struct ExDynamicImage(image::DynamicImage);

#[verifier::external_type_specification]
#[verifier::external_body]
pub struct ExImageError(image::ImageError);

#[verifier::external_type_specification]
#[verifier::external_body]
pub struct ExDecodeError(base64::DecodeError);

/// The bytes that a base64 text decodes to, or `None` where it is not valid
/// base64.
pub uninterp spec fn base64_decoding(text: Seq<u8>) -> Option<Seq<u8>>;

/// The base64 text of a byte sequence.
pub uninterp spec fn base64_text(bytes: Seq<u8>) -> Seq<char>;

/// Whether a byte sequence decodes as an image of a recognised format.
pub uninterp spec fn decodes_as_image(bytes: Seq<u8>) -> bool;

/// The width and height of an image.
pub uninterp spec fn image_dims(img: image::DynamicImage) -> (u32, u32);

/// The JPEG encoding of an image at a quality, or `None` where the encoder
/// refuses it.
pub uninterp spec fn jpeg_encoding(img: image::DynamicImage, quality: u8) -> Option<Seq<u8>>;

/// Relies on base64::decode (standard alphabet, with padding): the bytes or
/// an error, as a function of the text alone.
#[verifier::external_body]
pub(crate) fn decode_base64(text: &[u8]) -> (r: Result<Vec<u8>, base64::DecodeError>)
    ensures
        match r {
            Ok(b) => base64_decoding(text@) == Some(b@),
            Err(_) => base64_decoding(text@) is None,
        },
{
    base64::decode(text)
}

/// Relies on base64::encode (standard alphabet, with padding): the text
/// depends on the bytes alone.
#[verifier::external_body]
pub(crate) fn encode_base64(bytes: &[u8]) -> (r: String)
    ensures
        r@ == base64_text(bytes@),
{
    base64::encode(bytes)
}

/// Relies on image::load_from_memory: sniffs the format from the bytes and
/// decodes them, failing where the format is unknown or the data corrupt.
#[verifier::external_body]
pub(crate) fn load_image(bytes: &[u8]) -> (r: Result<image::DynamicImage, image::ImageError>)
    ensures
        r is Ok == decodes_as_image(bytes@),
{
    image::load_from_memory(bytes)
}

/// Relies on GenericImageView::dimensions of DynamicImage: width and height.
#[verifier::external_body]
pub(crate) fn dimensions(img: &image::DynamicImage) -> (r: (u32, u32))
    ensures
        r == image_dims(*img),
{
    img.dimensions()
}

/// Relies on DynamicImage::resize_exact with the Lanczos3 filter: an image of
/// exactly the requested size. Its working buffers hold the source width by
/// the new height, and the new size, in at most four channels each; their
/// lengths must fit in `usize`, else the crate panics.
#[verifier::external_body]
pub(crate) fn resample(img: &image::DynamicImage, width: u32, height: u32) -> (r: image::DynamicImage)
    requires
        image_dims(*img).0 as int * height as int * 4 <= usize::MAX,
        width as int * height as int * 4 <= usize::MAX,
    ensures
        image_dims(r) == (width, height),
{
    img.resize_exact(width, height, image::imageops::FilterType::Lanczos3)
}

/// Relies on DynamicImage::write_to with ImageOutputFormat::Jpeg: the JPEG
/// bytes, or the encoder's error, as a function of the image and quality.
#[verifier::external_body]
pub(crate) fn encode_jpeg(img: &image::DynamicImage, quality: u8) -> (r: Result<Vec<u8>, image::ImageError>)
    ensures
        match r {
            Ok(b) => jpeg_encoding(*img, quality) == Some(b@),
            Err(_) => jpeg_encoding(*img, quality) is None,
        },
{
    let mut bytes: Vec<u8> = Vec::new();
    let mut cursor = std::io::Cursor::new(&mut bytes);
    img.write_to(&mut cursor, image::ImageOutputFormat::Jpeg(quality))?;
    Ok(bytes)
}

} // verus!
