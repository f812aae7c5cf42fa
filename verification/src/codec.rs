//! Decoding inputs and encoding results with the `image` crate.
//!
//! The codecs themselves are not verified. Each call into them stands in a
//! small function whose contract is believed, and what a codec returns is
//! known only by name. Everything around the calls is verified: which codec
//! is called with what, and what is made of its answer.

use crate::names::OutputFormat;
use crate::raster::{byte_len, Raster, RasterView};
use crate::text::{eq_ignore_ascii_case, same_ignoring_case};
use image::ImageEncoder;
use vstd::prelude::*;

verus! {

/// The error type of the `image` crate, carried through unopened.
#[verifier::external_type_specification]
#[verifier::external_body]
pub struct ExImageError(image::ImageError);

/// Lowest and highest JPEG quality.
pub const MIN_QUALITY: u8 = 1;

pub const MAX_QUALITY: u8 = 100;

/// Largest width and height that a JPEG can hold.
pub const JPEG_MAX_SIDE: u32 = 65_535;

/// Formats from which an input can be decoded.
#[derive(Clone, Copy, Debug, PartialEq, Eq, Structural)]
pub enum ImageKind {
    Jpeg,
    Png,
    WebP,
    Bmp,
    Tiff,
    Gif,
}

/// The part of a codec's failure that callers can act on.
#[derive(Clone, Copy, Debug, PartialEq, Eq, Structural)]
pub enum FailureKind {
    /// The data does not conform to its format.
    Decoding,
    /// The image cannot be represented in the format.
    Encoding,
    /// An argument was refused.
    Parameter,
    /// A resource limit was hit.
    Limits,
    /// The operation is not supported.
    Unsupported,
    /// Reading or writing failed.
    Io,
}

/// Why an image could not be decoded or encoded.
#[derive(Clone, Copy, Debug, PartialEq, Eq, Structural)]
pub enum CodecError {
    /// The decoded image has no pixels.
    EmptyImage,
    /// The decoder's pixel buffer does not match its dimensions.
    Malformed,
    /// The codec failed.
    Failed(FailureKind),
}

/// What `image::load_from_memory_with_format` followed by a conversion to
/// eight-bit RGBA gives for the bytes of a file in a given format: width,
/// height and pixel bytes, or `None` where the decoder fails.
pub uninterp spec fn decoded_image(bytes: Seq<u8>, kind: ImageKind) -> Option<(u32, u32, Seq<u8>)>;

/// What `image::codecs::png::PngEncoder` writes for an RGBA image, or
/// `None` where it fails.
pub uninterp spec fn png_encoding(width: u32, height: u32, rgba: Seq<u8>) -> Option<Seq<u8>>;

/// What `image::codecs::jpeg::JpegEncoder` writes for an RGB image at a
/// quality, or `None` where it fails.
pub uninterp spec fn jpeg_encoding(width: u32, height: u32, rgb: Seq<u8>, quality: u8) -> Option<
    Seq<u8>,
>;

/// What `image::codecs::webp::WebPEncoder` writes, lossless, for an RGBA
/// image, or `None` where it fails.
pub uninterp spec fn webp_encoding(width: u32, height: u32, rgba: Seq<u8>) -> Option<Seq<u8>>;

/// The format that an extension names, in any case of letters; `None` for
/// every other extension.
pub open spec fn kind_of(ext: Seq<char>) -> Option<ImageKind> {
    if same_ignoring_case(ext, "jpg"@) || same_ignoring_case(ext, "jpeg"@) || same_ignoring_case(
        ext,
        "jfif"@,
    ) {
        Some(ImageKind::Jpeg)
    } else if same_ignoring_case(ext, "png"@) || same_ignoring_case(ext, "apng"@) {
        Some(ImageKind::Png)
    } else if same_ignoring_case(ext, "gif"@) {
        Some(ImageKind::Gif)
    } else if same_ignoring_case(ext, "webp"@) {
        Some(ImageKind::WebP)
    } else if same_ignoring_case(ext, "tif"@) || same_ignoring_case(ext, "tiff"@) {
        Some(ImageKind::Tiff)
    } else if same_ignoring_case(ext, "bmp"@) {
        Some(ImageKind::Bmp)
    } else {
        None
    }
}

/// The quality that the JPEG encoder works with: the one asked for, moved
/// into the range from 1 to 100.
pub open spec fn effective_quality(quality: u8) -> u8 {
    if quality < MIN_QUALITY {
        MIN_QUALITY
    } else if quality > MAX_QUALITY {
        MAX_QUALITY
    } else {
        quality
    }
}

/// The colour bytes of an RGBA buffer: every fourth byte, the alpha, left out.
pub open spec fn rgb_of(rgba: Seq<u8>) -> Seq<u8> {
    Seq::new((rgba.len() / 4 * 3) as nat, |i: int| rgba[i / 3 * 4 + i % 3])
}

/// The encoded form of an image in a format. JPEG drops the alpha channel
/// and encodes at the effective quality; PNG and WebP are lossless and
/// ignore the quality.
pub open spec fn encoding_of(format: OutputFormat, quality: u8, image: RasterView) -> Option<
    Seq<u8>,
> {
    match format {
        OutputFormat::Jpeg => jpeg_encoding(
            image.width as u32,
            image.height as u32,
            rgb_of(image.bytes),
            effective_quality(quality),
        ),
        OutputFormat::Png => png_encoding(image.width as u32, image.height as u32, image.bytes),
        OutputFormat::WebP => webp_encoding(image.width as u32, image.height as u32, image.bytes),
    }
}

/// What `decode_image` owes for the decoder's answer: an image without
/// pixels and a buffer of the wrong length are refused, any other answer is
/// the raster.
pub open spec fn accepted(answer: (u32, u32, Seq<u8>)) -> Result<RasterView, CodecError> {
    if answer.0 == 0 || answer.1 == 0 {
        Err(CodecError::EmptyImage)
    } else if answer.2.len() != byte_len(answer.0 as nat, answer.1 as nat) {
        Err(CodecError::Malformed)
    } else {
        Ok(RasterView { width: answer.0 as nat, height: answer.1 as nat, bytes: answer.2 })
    }
}

/// Calls `image::load_from_memory_with_format` and converts the image to
/// eight-bit RGBA with `DynamicImage::into_rgba8`. The contract only names
/// the answer; it claims nothing of its content.
#[verifier::external_body]
fn load_rgba(bytes: &[u8], kind: ImageKind) -> (r: Result<(u32, u32, Vec<u8>), image::ImageError>)
    ensures
        match r {
            Ok((width, height, data)) => decoded_image(bytes@, kind) == Some(
                (width, height, data@),
            ),
            Err(_) => decoded_image(bytes@, kind) is None,
        },
{
    let format = match kind {
        ImageKind::Jpeg => image::ImageFormat::Jpeg,
        ImageKind::Png => image::ImageFormat::Png,
        ImageKind::WebP => image::ImageFormat::WebP,
        ImageKind::Bmp => image::ImageFormat::Bmp,
        ImageKind::Tiff => image::ImageFormat::Tiff,
        ImageKind::Gif => image::ImageFormat::Gif,
    };
    let img = image::load_from_memory_with_format(bytes, format)?.into_rgba8();
    Ok((img.width(), img.height(), img.into_raw()))
}

/// Calls `PngEncoder::write_image` on an in-memory buffer. The encoder
/// panics on a buffer whose length is not `width * height * 4`, which the
/// precondition rules out. The contract only names the answer.
#[verifier::external_body]
fn write_png(width: u32, height: u32, rgba: &[u8]) -> (r: Result<Vec<u8>, image::ImageError>)
    requires
        rgba@.len() == width * height * 4,
    ensures
        match r {
            Ok(out) => png_encoding(width, height, rgba@) == Some(out@),
            Err(_) => png_encoding(width, height, rgba@) is None,
        },
{
    let mut out = Vec::new();
    image::codecs::png::PngEncoder::new(&mut out).write_image(
        rgba,
        width,
        height,
        image::ExtendedColorType::Rgba8,
    )?;
    Ok(out)
}

/// Calls `JpegEncoder::new_with_quality` and `write_image` on an in-memory
/// buffer. The encoder panics on a buffer whose length is not
/// `width * height * 3`, which the precondition rules out, and refuses a
/// side of zero or above 65535. Beyond that the contract only names the
/// answer.
#[verifier::external_body]
fn write_jpeg(width: u32, height: u32, rgb: &[u8], quality: u8) -> (r: Result<
    Vec<u8>,
    image::ImageError,
>)
    requires
        rgb@.len() == width * height * 3,
    ensures
        match r {
            Ok(out) => jpeg_encoding(width, height, rgb@, quality) == Some(out@),
            Err(_) => jpeg_encoding(width, height, rgb@, quality) is None,
        },
        width == 0 || height == 0 || width > JPEG_MAX_SIDE || height > JPEG_MAX_SIDE ==> r is Err,
{
    let mut out = Vec::new();
    image::codecs::jpeg::JpegEncoder::new_with_quality(&mut out, quality).write_image(
        rgb,
        width,
        height,
        image::ExtendedColorType::Rgb8,
    )?;
    Ok(out)
}

/// Calls `WebPEncoder::new_lossless` and `write_image` on an in-memory
/// buffer. The encoder panics on a buffer whose length is not
/// `width * height * 4`, which the precondition rules out. The contract
/// only names the answer.
#[verifier::external_body]
fn write_webp(width: u32, height: u32, rgba: &[u8]) -> (r: Result<Vec<u8>, image::ImageError>)
    requires
        rgba@.len() == width * height * 4,
    ensures
        match r {
            Ok(out) => webp_encoding(width, height, rgba@) == Some(out@),
            Err(_) => webp_encoding(width, height, rgba@) is None,
        },
{
    let mut out = Vec::new();
    image::codecs::webp::WebPEncoder::new_lossless(&mut out).write_image(
        rgba,
        width,
        height,
        image::ExtendedColorType::Rgba8,
    )?;
    Ok(out)
}

/// Tells the variants of `image::ImageError` apart. Nothing is claimed of
/// the answer.
#[verifier::external_body]
fn failure_kind(error: &image::ImageError) -> FailureKind {
    match error {
        image::ImageError::Decoding(_) => FailureKind::Decoding,
        image::ImageError::Encoding(_) => FailureKind::Encoding,
        image::ImageError::Parameter(_) => FailureKind::Parameter,
        image::ImageError::Limits(_) => FailureKind::Limits,
        image::ImageError::Unsupported(_) => FailureKind::Unsupported,
        image::ImageError::IoError(_) => FailureKind::Io,
    }
}

/// The format in which a file with the given extension is decoded, if any.
pub fn image_kind(ext: &str) -> (kind: Option<ImageKind>)
    ensures
        kind == kind_of(ext@),
{
    if eq_ignore_ascii_case(ext, "jpg") || eq_ignore_ascii_case(ext, "jpeg")
        || eq_ignore_ascii_case(ext, "jfif") {
        Some(ImageKind::Jpeg)
    } else if eq_ignore_ascii_case(ext, "png") || eq_ignore_ascii_case(ext, "apng") {
        Some(ImageKind::Png)
    } else if eq_ignore_ascii_case(ext, "gif") {
        Some(ImageKind::Gif)
    } else if eq_ignore_ascii_case(ext, "webp") {
        Some(ImageKind::WebP)
    } else if eq_ignore_ascii_case(ext, "tif") || eq_ignore_ascii_case(ext, "tiff") {
        Some(ImageKind::Tiff)
    } else if eq_ignore_ascii_case(ext, "bmp") {
        Some(ImageKind::Bmp)
    } else {
        None
    }
}

/// Moves a quality into the range that the JPEG encoder works with.
pub fn clamp_quality(quality: u8) -> (q: u8)
    ensures
        q == effective_quality(quality),
        MIN_QUALITY <= q <= MAX_QUALITY,
{
    if quality < MIN_QUALITY {
        MIN_QUALITY
    } else if quality > MAX_QUALITY {
        MAX_QUALITY
    } else {
        quality
    }
}

/// Copies the colour bytes of an RGBA buffer, leaving the alpha bytes out.
pub fn drop_alpha(rgba: &[u8]) -> (rgb: Vec<u8>)
    ensures
        rgb@ == rgb_of(rgba@),
        rgb@.len() == rgba@.len() / 4 * 3,
{
    let pixels: usize = rgba.len() / 4;
    let mut rgb: Vec<u8> = Vec::new();
    let mut p: usize = 0;
    while p < pixels
        invariant
            pixels == rgba@.len() / 4,
            rgba@.len() <= usize::MAX,
            p <= pixels,
            rgb@.len() == p * 3,
            forall|i: int| 0 <= i < p * 3 ==> #[trigger] rgb@[i] == rgba@[i / 3 * 4 + i % 3],
        decreases pixels - p,
    {
        rgb.push(rgba[p * 4]);
        rgb.push(rgba[p * 4 + 1]);
        rgb.push(rgba[p * 4 + 2]);
        p += 1;
    }
    assert(rgb@ =~= rgb_of(rgba@));
    rgb
}

/// Makes a raster of what the decoder answered.
pub fn accept_decoded(width: u32, height: u32, data: Vec<u8>) -> (r: Result<Raster, CodecError>)
    ensures
        match accepted((width, height, data@)) {
            Ok(view) => r matches Ok(img) && img@ == view && img@.wf(),
            Err(e) => r matches Err(f) && f == e,
        },
{
    if width == 0 || height == 0 {
        return Err(CodecError::EmptyImage);
    }
    match Raster::new(width, height, data) {
        Some(img) => Ok(img),
        None => Err(CodecError::Malformed),
    }
}

/// Decodes the bytes of an image file of the given format into a raster.
///
/// Where the decoder fails, so does this function, with the decoder's kind
/// of failure. Where it answers, the answer is accepted or refused as
/// `accepted` says.
pub fn decode_image(bytes: &[u8], kind: ImageKind) -> (r: Result<Raster, CodecError>)
    ensures
        match decoded_image(bytes@, kind) {
            Some(answer) => match accepted(answer) {
                Ok(view) => r matches Ok(img) && img@ == view && img@.wf(),
                Err(e) => r matches Err(f) && f == e,
            },
            None => r matches Err(CodecError::Failed(_)),
        },
{
    match load_rgba(bytes, kind) {
        Ok((width, height, data)) => accept_decoded(width, height, data),
        Err(error) => Err(CodecError::Failed(failure_kind(&error))),
    }
}

/// Encodes a raster in the given format.
///
/// The result is the codec's encoding of exactly this raster: all four
/// channels for PNG and WebP, the colour channels at the effective quality
/// for JPEG. Where the codec fails, so does this function. A JPEG of an
/// image without pixels or with a side above 65535 always fails.
pub fn encode_image(image: &Raster, format: OutputFormat, quality: u8) -> (r: Result<
    Vec<u8>,
    CodecError,
>)
    ensures
        match encoding_of(format, quality, image@) {
            Some(bytes) => r matches Ok(out) && out@ == bytes,
            None => r matches Err(CodecError::Failed(_)),
        },
        format == OutputFormat::Jpeg && (image@.width == 0 || image@.height == 0 || image@.width
            > JPEG_MAX_SIDE || image@.height > JPEG_MAX_SIDE) ==> r is Err,
{
    let width: u32 = image.width();
    let height: u32 = image.height();
    let rgba = image.as_bytes();
    let answer = match format {
        OutputFormat::Jpeg => {
            let rgb = drop_alpha(rgba.as_slice());
            assert(rgb@.len() == width * height * 3) by (nonlinear_arith)
                requires
                    rgb@.len() == rgba@.len() / 4 * 3,
                    rgba@.len() == width * height * 4,
            ;
            write_jpeg(width, height, rgb.as_slice(), clamp_quality(quality))
        },
        OutputFormat::Png => write_png(width, height, rgba.as_slice()),
        OutputFormat::WebP => write_webp(width, height, rgba.as_slice()),
    };
    match answer {
        Ok(out) => Ok(out),
        Err(error) => Err(CodecError::Failed(failure_kind(&error))),
    }
}

} // verus!
