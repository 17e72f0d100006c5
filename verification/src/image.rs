use vstd::prelude::*;
use crate::text::str_eq;

verus! {

/// Output encoding of a resized image.
#[derive(Clone, Copy, Debug, PartialEq, Eq, Structural)]
pub enum Encoding {
    Jpeg,
    Webp,
}

/// The name of an encoding, in screaming snake case.
pub open spec fn encoding_name(e: Encoding) -> Seq<char> {
    match e {
        Encoding::Jpeg => "JPEG"@,
        Encoding::Webp => "WEBP"@,
    }
}

/// The encoding with the name `s`, if any.
pub open spec fn encoding_from_name(s: Seq<char>) -> Option<Encoding> {
    if s == "JPEG"@ {
        Some(Encoding::Jpeg)
    } else if s == "WEBP"@ {
        Some(Encoding::Webp)
    } else {
        None
    }
}

impl Encoding {
    /// The name of the encoding: `JPEG` or `WEBP`.
    pub fn as_str(&self) -> (s: &'static str)
        ensures
            s@ == encoding_name(*self),
    {
        match self {
            Encoding::Jpeg => "JPEG",
            Encoding::Webp => "WEBP",
        }
    }

    /// The encoding named `s` (exactly `JPEG` or `WEBP`), `None` for any
    /// other string.
    pub fn from_name(s: &str) -> (e: Option<Encoding>)
        ensures
            e == encoding_from_name(s@),
    {
        if str_eq(s, "JPEG") {
            Some(Encoding::Jpeg)
        } else if str_eq(s, "WEBP") {
            Some(Encoding::Webp)
        } else {
            None
        }
    }
}

#[verifier::external_type_specification]
#[verifier::external_body]
pub struct ExImageError(::image::ImageError);

/// Why an image could not be resized.
#[derive(Debug)]
pub enum ResizeError {
    /// The image library failed to read, decode or encode the image.
    Image(::image::ImageError),
    /// libwebp refused to encode the scaled image.
    WebpEncoding,
}

/// What the WebP encoder made of a scaled image.
#[derive(Debug)]
pub enum WebpOutcome {
    /// The encoder does not take the image's pixel layout (only 8-bit RGB
    /// and RGBA are taken).
    Unsupported,
    /// libwebp returned an error.
    Failed,
    /// The encoded file.
    Encoded(Vec<u8>),
}

/// What one of the two encoders returned for a scaled image.
#[derive(Debug)]
pub enum Encoded {
    Jpeg(Result<Vec<u8>, ::image::ImageError>),
    Webp(Result<WebpOutcome, ::image::ImageError>),
}

/// The result of resizing, given what the encoder returned: JPEG bytes and
/// WebP bytes come back as they are, a WebP layout the encoder does not take
/// is `None`, and each error is handed on.
pub open spec fn resize_result(encoded: Encoded) -> Result<Option<Vec<u8>>, ResizeError> {
    match encoded {
        Encoded::Jpeg(Ok(bytes)) => Ok(Some(bytes)),
        Encoded::Jpeg(Err(e)) => Err(ResizeError::Image(e)),
        Encoded::Webp(Ok(WebpOutcome::Encoded(bytes))) => Ok(Some(bytes)),
        Encoded::Webp(Ok(WebpOutcome::Unsupported)) => Ok(None),
        Encoded::Webp(Ok(WebpOutcome::Failed)) => Err(ResizeError::WebpEncoding),
        Encoded::Webp(Err(e)) => Err(ResizeError::Image(e)),
    }
}

/// Whether a side of `size` pixels fits a request of `requested`: scaling
/// to fit never gives more than was asked for, nor less than one pixel.
pub open spec fn fits_request(size: int, requested: u32) -> bool {
    1 <= size <= if requested == 0 { 1 } else { requested as int }
}

/// The big-endian 16-bit number at `i` in `b`.
pub open spec fn be16(b: Seq<u8>, i: int) -> int {
    b[i] * 256 + b[i + 1]
}

/// The little-endian 32-bit number at `i` in `b`.
pub open spec fn le32(b: Seq<u8>, i: int) -> int {
    b[i] + b[i + 1] * 0x100 + b[i + 2] * 0x1_0000 + b[i + 3] * 0x100_0000
}

/// The libjpeg scaling of the standard quantization tables for a quality
/// setting, which is first clamped to 1..=100.
pub open spec fn jpeg_quality_scale(quality: u8) -> int {
    let q: int = if quality < 1 { 1 } else if quality > 100 { 100 } else { quality as int };
    if q < 50 { 5000int / q } else { 200 - 2 * q }
}

/// The first (DC) step of the luminance quantization table written for a
/// quality setting: the standard step 16, scaled and clamped to 1..=255.
pub open spec fn jpeg_luma_dc_step(quality: u8) -> int {
    let v = (16 * jpeg_quality_scale(quality) + 50) / 100;
    if v < 1 { 1 } else if v > 255 { 255 } else { v }
}

/// Whether `b` is a baseline JPEG file as the encoder writes it for an image
/// scaled to fit `width` x `height` at `quality`: the start-of-image marker,
/// the JFIF segment, the frame header at byte 20 with the scaled height and
/// width, the luminance quantization table at byte 39, and the end-of-image
/// marker last.
pub open spec fn jpeg_resized(b: Seq<u8>, width: u32, height: u32, quality: u8) -> bool {
    &&& b.len() >= 110
    &&& b[0] == 0xFF && b[1] == 0xD8
    &&& b[2] == 0xFF && b[3] == 0xE0
    &&& b[20] == 0xFF && b[21] == 0xC0
    &&& fits_request(be16(b, 25), height)
    &&& fits_request(be16(b, 27), width)
    &&& b[39] == 0xFF && b[40] == 0xDB
    &&& b[44] == jpeg_luma_dc_step(quality)
    &&& b[b.len() - 2] == 0xFF && b[b.len() - 1] == 0xD9
}

/// Whether `b` is a RIFF container of WebP data: `RIFF`, the size of what
/// follows the first eight bytes, and `WEBP`.
pub open spec fn webp_riff(b: Seq<u8>) -> bool {
    &&& b.len() >= 12
    &&& b[0] == 0x52 && b[1] == 0x49 && b[2] == 0x46 && b[3] == 0x46
    &&& le32(b, 4) == b.len() - 8
    &&& b[8] == 0x57 && b[9] == 0x45 && b[10] == 0x42 && b[11] == 0x50
}

/// Whether `r` is an outcome of scaling an image to fit `width` x `height`
/// and encoding it as `encoding` at `quality`.
pub open spec fn resized_as(
    r: Result<Option<Vec<u8>>, ResizeError>,
    width: u32,
    height: u32,
    encoding: Encoding,
    quality: u8,
) -> bool {
    match encoding {
        Encoding::Jpeg => match r {
            Ok(Some(b)) => jpeg_resized(b@, width, height, quality),
            Ok(None) => false,
            Err(ResizeError::Image(_)) => true,
            Err(ResizeError::WebpEncoding) => false,
        },
        Encoding::Webp => match r {
            Ok(Some(b)) => webp_riff(b@) && quality <= 100,
            Ok(None) => true,
            Err(_) => true,
        },
    }
}

/// Reads `data` as an image in the format that the extension of `path`
/// names (`ImageFormat::from_path`, `ImageReader::with_format` and
/// `decode`), scales it with `DynamicImage::resize` and the Lanczos filter,
/// and encodes it with `JpegEncoder::new_with_quality` and `encode_image`.
/// The contract claims what the encoder writes in front and at the end: the
/// start-of-image marker, the JFIF segment, the frame header with the scaled
/// size (which `resize` keeps between one pixel and the requested size on
/// each side), the luminance table scaled for `quality`, and the end-of-image
/// marker. Nothing decodes from no bytes, and a path without a dot has no
/// extension to name a format. Beyond that, whether decoding succeeds and
/// the pixels are left unsaid: the scaling runs on floats. A scaled image too large for memory is not
/// excluded: which requests lead there depends on the image's own size.
#[verifier::external_body]
fn resize_to_jpeg(data: &[u8], path: &str, width: u32, height: u32, quality: u8) -> (r: Result<
    Vec<u8>,
    ::image::ImageError,
>)
    ensures
        r matches Ok(b) ==> jpeg_resized(b@, width, height, quality),
        data@.len() == 0 || !path@.contains('.') ==> r is Err,
{
    let format = ::image::ImageFormat::from_path(path)?;
    let img = ::image::ImageReader::with_format(std::io::Cursor::new(data), format).decode()?;
    let scaled = img.resize(width, height, ::image::imageops::FilterType::Lanczos3);
    let mut buffer = Vec::new();
    ::image::codecs::jpeg::JpegEncoder::new_with_quality(&mut buffer, quality).encode_image(
        &scaled,
    )?;
    Ok(buffer)
}

/// Reads and scales as `resize_to_jpeg` does, then calls
/// `webp::Encoder::from_image` (which takes only 8-bit RGB and RGBA) and
/// `encode_simple` for lossy encoding at `quality`. libwebp writes a RIFF
/// header first, whose size field counts the bytes after it, and refuses a
/// quality above 100 (`WebPValidateConfig`). Empty data and a path without a
/// dot fail as in `resize_to_jpeg`. `new_picture` multiplies the
/// scaled width by four in an `i32`, so `requires` keeps the width where
/// that cannot overflow.
#[verifier::external_body]
fn resize_to_webp(data: &[u8], path: &str, width: u32, height: u32, quality: u8) -> (r: Result<
    WebpOutcome,
    ::image::ImageError,
>)
    requires
        width as int * 4 <= i32::MAX,
    ensures
        r matches Ok(WebpOutcome::Encoded(b)) ==> webp_riff(b@),
        quality > 100 ==> !(r matches Ok(WebpOutcome::Encoded(_))),
        data@.len() == 0 || !path@.contains('.') ==> r is Err,
{
    let format = ::image::ImageFormat::from_path(path)?;
    let img = ::image::ImageReader::with_format(std::io::Cursor::new(data), format).decode()?;
    let scaled = img.resize(width, height, ::image::imageops::FilterType::Lanczos3);
    Ok(match webp::Encoder::from_image(&scaled) {
        Err(_) => WebpOutcome::Unsupported,
        Ok(encoder) => match encoder.encode_simple(false, quality.into()) {
            Ok(memory) => WebpOutcome::Encoded(memory.to_vec()),
            Err(_) => WebpOutcome::Failed,
        },
    })
}

/// The result of resizing, given what the encoder returned.
pub fn resize_outcome(encoded: Encoded) -> (r: Result<Option<Vec<u8>>, ResizeError>)
    ensures
        r == resize_result(encoded),
{
    match encoded {
        Encoded::Jpeg(Ok(bytes)) => Ok(Some(bytes)),
        Encoded::Jpeg(Err(e)) => Err(ResizeError::Image(e)),
        Encoded::Webp(Ok(WebpOutcome::Encoded(bytes))) => Ok(Some(bytes)),
        Encoded::Webp(Ok(WebpOutcome::Unsupported)) => Ok(None),
        Encoded::Webp(Ok(WebpOutcome::Failed)) => Err(ResizeError::WebpEncoding),
        Encoded::Webp(Err(e)) => Err(ResizeError::Image(e)),
    }
}

/// Reads the image in `data` in the format named by the extension of
/// `path`, scales it to fit in `width` x `height` keeping its aspect ratio,
/// and encodes it as `encoding` with `quality`. A JPEG result is a JPEG file
/// of the scaled size, or the image library's error; a WebP result is a WebP
/// file, `None` when the WebP encoder does not take the image's pixel
/// layout, or an error.
pub fn try_resize_image(
    data: &[u8],
    path: &str,
    width: u32,
    height: u32,
    encoding: Encoding,
    quality: u8,
) -> (r: Result<Option<Vec<u8>>, ResizeError>)
    requires
        encoding == Encoding::Webp ==> width as int * 4 <= i32::MAX,
    ensures
        resized_as(r, width, height, encoding, quality),
        data@.len() == 0 || !path@.contains('.') ==> r matches Err(ResizeError::Image(_)),
{
    let encoded = match encoding {
        Encoding::Jpeg => Encoded::Jpeg(resize_to_jpeg(data, path, width, height, quality)),
        Encoding::Webp => Encoded::Webp(resize_to_webp(data, path, width, height, quality)),
    };
    resize_outcome(encoded)
}

/// Parsing the name of an encoding gives the encoding back.
pub proof fn lemma_encoding_name_roundtrip(e: Encoding)
    ensures
        encoding_from_name(encoding_name(e)) == Some(e),
{
    reveal_strlit("JPEG");
    reveal_strlit("WEBP");
    assert("JPEG"@ != "WEBP"@) by {
        assert("JPEG"@[0] != "WEBP"@[0]);
    }
}

} // verus!
