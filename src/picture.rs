//! Decoded images and the calls into the `image` crate that decode, resize, rotate and
//! encode them.

use vstd::prelude::*;
use crate::transform::ImageKind;

verus! {

#[verifier::external_type_specification]
#[verifier::external_body]
pub struct ExDynamicImage(image::DynamicImage);

#[verifier::external_type_specification]
#[verifier::external_body]
pub struct ExImageError(image::ImageError);

#[verifier::external_type_specification]
#[verifier::external_body]
pub struct ExImageFormat(image::ImageFormat);

/// How the pixels of a decoded image are laid out, as `image::ColorType` reports it: the
/// number of channels and of bytes per pixel, which tell the layouts apart.
#[derive(Clone, Copy, Debug, PartialEq, Eq, Structural)]
pub struct PixelLayout {
    pub channels: u8,
    pub bytes_per_pixel: u8,
}

/// The width, height and pixel layout of the image that `image::load_from_memory` decodes
/// from these bytes, or none when it refuses them. This depends on the bytes alone because
/// this crate registers no `image::hooks` decoder.
pub uninterp spec fn decoded_image(b: Seq<u8>) -> Option<(u32, u32, PixelLayout)>;

/// The format that `image::guess_format` recognises from the leading bytes, or none (also for
/// a format that this build cannot decode).
pub uninterp spec fn guessed_format(b: Seq<u8>) -> Option<ImageKind>;

/// Whether `DynamicImage::write_to` into memory succeeds in format `f` for an image of these
/// dimensions and pixel layout; the encoders' failures do not depend on the pixel values.
pub uninterp spec fn writes_ok(f: ImageKind, width: u32, height: u32, color: PixelLayout) -> bool;

/// The dimensions that `DynamicImage::resize` gives an image of `width` by `height` when it is
/// fitted into `bound_w` by `bound_h`, keeping its aspect ratio.
pub uninterp spec fn fitted_dimensions(width: u32, height: u32, bound_w: u32, bound_h: u32) -> (
    u32,
    u32,
);

/// JPEG encoding accepts each side from 1 to 65535 pixels.
pub open spec fn jpeg_size_ok(width: u32, height: u32) -> bool {
    1 <= width <= 65535 && 1 <= height <= 65535
}

/// A decoded image together with its dimensions and pixel layout.
pub struct Picture {
    image: image::DynamicImage,
    width: u32,
    height: u32,
    color: PixelLayout,
}

impl Picture {
    pub closed spec fn spec_width(&self) -> u32 {
        self.width
    }

    pub closed spec fn spec_height(&self) -> u32 {
        self.height
    }

    pub closed spec fn spec_color(&self) -> PixelLayout {
        self.color
    }

    pub fn width(&self) -> (r: u32)
        ensures
            r == self.spec_width(),
    {
        self.width
    }

    pub fn height(&self) -> (r: u32)
        ensures
            r == self.spec_height(),
    {
        self.height
    }

    pub fn color(&self) -> (r: PixelLayout)
        ensures
            r == self.spec_color(),
    {
        self.color
    }
}

/// Relies on `image::load_from_memory`, which guesses the format from the leading bytes and
/// decodes; an empty buffer matches no format. The dimensions and layout are read with
/// `DynamicImage::width`, `DynamicImage::height` and `DynamicImage::color`
/// (`ColorType::channel_count`, `ColorType::bytes_per_pixel`).
#[verifier::external_body]
pub(crate) fn decode_picture(b: &[u8]) -> (r: Result<Picture, image::ImageError>)
    ensures
        match r {
            Ok(p) => decoded_image(b@) == Some((p.spec_width(), p.spec_height(), p.spec_color())),
            Err(_) => decoded_image(b@) is None,
        },
        b@.len() == 0 ==> r is Err,
{
    image::load_from_memory(b).map(|image| Picture {
        width: image.width(),
        height: image.height(),
        color: PixelLayout {
            channels: image.color().channel_count(),
            bytes_per_pixel: image.color().bytes_per_pixel(),
        },
        image,
    })
}

/// Relies on `DynamicImage::resize_exact` with the Lanczos3 filter: the new image has exactly
/// the requested dimensions and the same pixel layout.
#[verifier::external_body]
pub(crate) fn resize_picture(p: &Picture, width: u32, height: u32) -> (r: Picture)
    requires
        width > 0,
        height > 0,
    ensures
        r.spec_width() == width,
        r.spec_height() == height,
        r.spec_color() == p.spec_color(),
{
    Picture {
        image: p.image.resize_exact(width, height, image::imageops::FilterType::Lanczos3),
        width,
        height,
        color: p.color,
    }
}

/// Relies on `DynamicImage::resize` with the Lanczos3 filter: the image is scaled, keeping its
/// aspect ratio, to the largest size that fits in the bounds; the layout is kept. The
/// dimensions are read with `DynamicImage::width` and `DynamicImage::height`.
#[verifier::external_body]
pub(crate) fn fit_picture(p: &Picture, width: u32, height: u32) -> (r: Picture)
    ensures
        (r.spec_width(), r.spec_height()) == fitted_dimensions(
            p.spec_width(),
            p.spec_height(),
            width,
            height,
        ),
        r.spec_color() == p.spec_color(),
{
    let image = p.image.resize(width, height, image::imageops::FilterType::Lanczos3);
    Picture { width: image.width(), height: image.height(), color: p.color, image }
}

/// Relies on `DynamicImage::rotate90`: a quarter turn clockwise swaps the dimensions.
#[verifier::external_body]
pub(crate) fn rotate_picture_90(p: &Picture) -> (r: Picture)
    ensures
        r.spec_width() == p.spec_height(),
        r.spec_height() == p.spec_width(),
        r.spec_color() == p.spec_color(),
{
    Picture { image: p.image.rotate90(), width: p.height, height: p.width, color: p.color }
}

/// Relies on `DynamicImage::rotate180`: a half turn keeps the dimensions.
#[verifier::external_body]
pub(crate) fn rotate_picture_180(p: &Picture) -> (r: Picture)
    ensures
        r.spec_width() == p.spec_width(),
        r.spec_height() == p.spec_height(),
        r.spec_color() == p.spec_color(),
{
    Picture { image: p.image.rotate180(), width: p.width, height: p.height, color: p.color }
}

/// Relies on `DynamicImage::rotate270`: three quarter turns clockwise swap the dimensions.
#[verifier::external_body]
pub(crate) fn rotate_picture_270(p: &Picture) -> (r: Picture)
    ensures
        r.spec_width() == p.spec_height(),
        r.spec_height() == p.spec_width(),
        r.spec_color() == p.spec_color(),
{
    Picture { image: p.image.rotate270(), width: p.height, height: p.width, color: p.color }
}

/// Relies on `JpegEncoder::new_with_quality` and `DynamicImage::write_with_encoder`: JPEG
/// bytes at the given quality (1 to 100). The image is first converted to a layout that JPEG
/// holds, and encoding into memory fails only for a side of 0 or above 65535 pixels.
#[verifier::external_body]
pub(crate) fn encode_jpeg(p: &Picture, quality: u8) -> (r: Result<Vec<u8>, image::ImageError>)
    requires
        1 <= quality <= 100,
    ensures
        r is Ok <==> jpeg_size_ok(p.spec_width(), p.spec_height()),
{
    let mut out: Vec<u8> = Vec::new();
    let encoder = image::codecs::jpeg::JpegEncoder::new_with_quality(&mut out, quality);
    p.image.write_with_encoder(encoder).map(|_| out)
}

/// Relies on `DynamicImage::write_to`: the image encoded in `format`. JPEG goes through
/// `JpegEncoder::new`, which accepts each side from 1 to 65535 pixels.
#[verifier::external_body]
pub(crate) fn encode_picture(p: &Picture, format: ImageKind) -> (r: Result<Vec<u8>, image::ImageError>)
    ensures
        r is Ok <==> writes_ok(format, p.spec_width(), p.spec_height(), p.spec_color()),
        format == ImageKind::Jpeg ==> (r is Ok <==> jpeg_size_ok(p.spec_width(), p.spec_height())),
{
    let format = match format {
        ImageKind::Png => image::ImageFormat::Png,
        ImageKind::Jpeg => image::ImageFormat::Jpeg,
        ImageKind::Gif => image::ImageFormat::Gif,
        ImageKind::WebP => image::ImageFormat::WebP,
    };
    let mut out = std::io::Cursor::new(Vec::new());
    p.image.write_to(&mut out, format).map(|_| out.into_inner())
}

/// Relies on `image::guess_format`: the format recognised from the leading bytes; an empty
/// buffer matches none. `load_from_memory` finds its format with the same table from a prefix
/// of the bytes, and decodes only the formats whose features this crate enables (PNG, JPEG,
/// GIF, WebP), so whatever it decodes is recognised here as one of them.
#[verifier::external_body]
pub(crate) fn guess_format(b: &[u8]) -> (r: Result<ImageKind, image::ImageError>)
    ensures
        match r {
            Ok(f) => guessed_format(b@) == Some(f),
            Err(_) => guessed_format(b@) is None,
        },
        decoded_image(b@) is Some ==> r is Ok,
        b@.len() == 0 ==> r is Err,
{
    image::guess_format(b).and_then(|f| match f {
        image::ImageFormat::Png => Ok(ImageKind::Png),
        image::ImageFormat::Jpeg => Ok(ImageKind::Jpeg),
        image::ImageFormat::Gif => Ok(ImageKind::Gif),
        image::ImageFormat::WebP => Ok(ImageKind::WebP),
        other => Err(image::ImageError::Unsupported(image::error::ImageFormatHint::from(other).into())),
    })
}

/// Relies on `ImageFormat::extensions_str`: the first file extension that the crate lists for
/// the format, if it lists any.
#[verifier::external_body]
pub(crate) fn first_extension(format: image::ImageFormat) -> (r: Option<String>) {
    format.extensions_str().first().map(|e| e.to_string())
}

} // verus!
