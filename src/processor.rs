//! Loading, resizing and rotating images whose bytes have been read from disk.

use vstd::prelude::*;
use crate::cache::Variant;
use crate::picture::{
    decode_picture, decoded_image, encode_picture, fit_picture, fitted_dimensions, guess_format,
    guessed_format, jpeg_size_ok, rotate_picture_180, rotate_picture_270, rotate_picture_90,
    writes_ok,
};
use vstd::string::StringExecFns;
use crate::transform::{target_dimensions, transform, CachedArtifact, ImageKind, TransformError};

verus! {

/// What is known of an image file: its bytes (when asked for), dimensions, size and format.
pub struct ImageData {
    pub content: Vec<u8>,
    pub dimensions: (u32, u32),
    pub size_bytes: usize,
    pub format: ImageKind,
}

/// The name under which a format is written out: `PNG`, `JPEG`, `GIF` or `WEBP`.
pub open spec fn label_spec(f: ImageKind) -> Seq<char> {
    match f {
        ImageKind::Png => "PNG"@,
        ImageKind::Jpeg => "JPEG"@,
        ImageKind::Gif => "GIF"@,
        ImageKind::WebP => "WEBP"@,
            }
}

/// The format that an upper-case name reads as; `JPG` is JPEG too, and any other name is
/// read as JPEG.
pub open spec fn format_for_label(upper: Seq<char>) -> ImageKind {
    if upper == "PNG"@ {
        ImageKind::Png
    } else if upper == "GIF"@ {
        ImageKind::Gif
    } else if upper == "WEBP"@ {
        ImageKind::WebP
    } else {
        ImageKind::Jpeg
    }
}

/// `str::to_uppercase`: the Unicode upper-case mapping of each character.
pub uninterp spec fn uppercase_of(s: Seq<char>) -> Seq<char>;

/// Relies on `str::to_uppercase`.
#[verifier::external_body]
fn to_uppercase(s: &str) -> (r: String)
    ensures
        r@ == uppercase_of(s@),
{
    s.to_uppercase()
}

impl ImageKind {
    /// The name under which the format is written out.
    pub fn label(&self) -> (r: &'static str)
        ensures
            r@ == label_spec(*self),
    {
        match self {
            ImageKind::Png => "PNG",
            ImageKind::Jpeg => "JPEG",
            ImageKind::Gif => "GIF",
            ImageKind::WebP => "WEBP",
        }
    }

    /// The format that a written-out name reads as, in any case; unknown names read as JPEG.
    pub fn from_label(name: &str) -> (r: ImageKind)
        ensures
            r == format_for_label(uppercase_of(name@)),
    {
        let upper = to_uppercase(name);
        if upper == String::from_str("PNG") {
            ImageKind::Png
        } else if upper == String::from_str("GIF") {
            ImageKind::Gif
        } else if upper == String::from_str("WEBP") {
            ImageKind::WebP
        } else {
            ImageKind::Jpeg
        }
    }
}

/// An encoded image with its format and dimensions.
pub struct EncodedImage {
    pub bytes: Vec<u8>,
    pub format: ImageKind,
    pub width: u32,
    pub height: u32,
}

/// What resizing `content` into `width` by `height` gives: the format and dimensions of the
/// encoded result, or the error. The image is fitted into the bounds keeping its aspect
/// ratio and encoded in the format that its bytes are in.
pub open spec fn resize_outcome(content: Seq<u8>, width: u32, height: u32) -> Result<
    (ImageKind, u32, u32),
    TransformError,
> {
    match decoded_image(content) {
        None => Err(TransformError::DecodeError),
        Some(d) => if width == 0 || height == 0 {
            Err(TransformError::ValidationError)
        } else {
            let dims = fitted_dimensions(d.0, d.1, width, height);
            match guessed_format(content) {
                None => Err(TransformError::DecodeError),
                Some(f) => if writes_ok(f, dims.0, dims.1, d.2) {
                    Ok((f, dims.0, dims.1))
                } else {
                    Err(TransformError::EncodeError)
                },
            }
        },
    }
}

/// The dimensions after turning clockwise by a right angle.
pub open spec fn rotated_dimensions(width: u32, height: u32, angle: i32) -> (u32, u32) {
    if angle == 180 {
        (width, height)
    } else {
        (height, width)
    }
}

/// What turning `content` clockwise by `angle` gives: any angle but 90, 180 or 270 is refused
/// whatever the bytes; otherwise the format and dimensions of the result, encoded in the
/// format that the bytes are in, or the error.
pub open spec fn rotate_outcome(content: Seq<u8>, angle: i32) -> Result<
    (ImageKind, u32, u32),
    TransformError,
> {
    if angle != 90 && angle != 180 && angle != 270 {
        Err(TransformError::ValidationError)
    } else {
        match decoded_image(content) {
            None => Err(TransformError::DecodeError),
            Some(d) => {
                let dims = rotated_dimensions(d.0, d.1, angle);
                match guessed_format(content) {
                    None => Err(TransformError::DecodeError),
                    Some(f) => if writes_ok(f, dims.0, dims.1, d.2) {
                        Ok((f, dims.0, dims.1))
                    } else {
                        Err(TransformError::EncodeError)
                    },
                }
            },
        }
    }
}

/// `r` is the encoded image that `outcome` describes, or its error.
pub open spec fn matches_outcome(
    r: Result<EncodedImage, TransformError>,
    outcome: Result<(ImageKind, u32, u32), TransformError>,
) -> bool {
    match outcome {
        Ok(o) => r matches Ok(e) && e.format == o.0 && e.width == o.1 && e.height == o.2,
        Err(err) => r == Err::<EncodedImage, TransformError>(err),
    }
}

/// Stateless image operations on file contents.
pub struct ImageProcessor;

impl ImageProcessor {
    pub fn new() -> (r: Self) {
        ImageProcessor
    }

    /// Describes the image in `content`, keeping the bytes only when `include_data` is set;
    /// it succeeds exactly when the bytes decode.
    pub fn get_image_data(&self, content: Vec<u8>, include_data: bool) -> (r: Result<ImageData, TransformError>)
        ensures
            decoded_image(content@) is None ==> r == Err::<ImageData, TransformError>(
                TransformError::DecodeError,
            ),
            decoded_image(content@) is Some ==> r is Ok,
            r matches Ok(d) ==> {
                &&& decoded_image(content@) matches Some(i) && (i.0, i.1) == d.dimensions
                &&& guessed_format(content@) == Some(d.format)
                &&& d.size_bytes == content@.len()
                &&& include_data ==> d.content@ == content@
                &&& !include_data ==> d.content@.len() == 0
            },
    {
        let picture = match decode_picture(content.as_slice()) {
            Ok(p) => p,
            Err(_) => {
                return Err(TransformError::DecodeError);
            },
        };
        let format = match guess_format(content.as_slice()) {
            Ok(f) => f,
            Err(_) => {
                return Err(TransformError::DecodeError);
            },
        };
        let size_bytes = content.len();
        Ok(ImageData {
            content: if include_data {
                content
            } else {
                Vec::new()
            },
            dimensions: (picture.width(), picture.height()),
            size_bytes,
            format,
        })
    }

    /// The full-size artifact of an image given as bytes, encoded as JPEG; it succeeds exactly
    /// when the bytes decode and each side is from 1 to 65535 pixels.
    pub fn process_image_data(&self, data: &[u8]) -> (r: Result<CachedArtifact, TransformError>)
        ensures
            decoded_image(data@) is None ==> r == Err::<CachedArtifact, TransformError>(
                TransformError::DecodeError,
            ),
            decoded_image(data@) matches Some(d) ==> (r is Ok <==> jpeg_size_ok(d.0, d.1)),
            decoded_image(data@) matches Some(d) ==> match r {
                Ok(a) => a.kind == ImageKind::Jpeg && (a.width, a.height) == target_dimensions(
                    d.0,
                    d.1,
                    Variant::Full,
                ),
                Err(e) => e == TransformError::EncodeError,
            },
    {
        transform(data, ImageKind::Jpeg, Variant::Full)
    }

    /// The image fitted, keeping its aspect ratio, into `width` by `height`, encoded in the
    /// format of the input bytes, with its format and dimensions.
    pub fn resize_encoded(&self, content: &[u8], width: u32, height: u32) -> (r: Result<
        EncodedImage,
        TransformError,
    >)
        ensures
            matches_outcome(r, resize_outcome(content@, width, height)),
    {
        let picture = match decode_picture(content) {
            Ok(p) => p,
            Err(_) => {
                return Err(TransformError::DecodeError);
            },
        };
        if width == 0 || height == 0 {
            return Err(TransformError::ValidationError);
        }
        let resized = fit_picture(&picture, width, height);
        let format = match guess_format(content) {
            Ok(f) => f,
            Err(_) => {
                return Err(TransformError::DecodeError);
            },
        };
        match encode_picture(&resized, format) {
            Ok(bytes) => Ok(EncodedImage { bytes, format, width: resized.width(), height: resized.height() }),
            Err(_) => Err(TransformError::EncodeError),
        }
    }

    /// The bytes of `resize_encoded`.
    pub fn resize_image(&self, content: &[u8], width: u32, height: u32) -> (r: Result<Vec<u8>, TransformError>)
        ensures
            match resize_outcome(content@, width, height) {
                Ok(_) => r is Ok,
                Err(e) => r == Err::<Vec<u8>, TransformError>(e),
            },
    {
        match self.resize_encoded(content, width, height) {
            Ok(e) => Ok(e.bytes),
            Err(e) => Err(e),
        }
    }

    /// The image turned clockwise by `angle` degrees, which must be 90, 180 or 270, encoded in
    /// the format of the input bytes, with its format and dimensions.
    pub fn rotate_encoded(&self, content: &[u8], angle: i32) -> (r: Result<EncodedImage, TransformError>)
        ensures
            matches_outcome(r, rotate_outcome(content@, angle)),
    {
        if angle != 90 && angle != 180 && angle != 270 {
            return Err(TransformError::ValidationError);
        }
        let picture = match decode_picture(content) {
            Ok(p) => p,
            Err(_) => {
                return Err(TransformError::DecodeError);
            },
        };
        let rotated = if angle == 90 {
            rotate_picture_90(&picture)
        } else if angle == 180 {
            rotate_picture_180(&picture)
        } else {
            rotate_picture_270(&picture)
        };
        let format = match guess_format(content) {
            Ok(f) => f,
            Err(_) => {
                return Err(TransformError::DecodeError);
            },
        };
        match encode_picture(&rotated, format) {
            Ok(bytes) => Ok(EncodedImage { bytes, format, width: rotated.width(), height: rotated.height() }),
            Err(_) => Err(TransformError::EncodeError),
        }
    }

    /// The bytes of `rotate_encoded`.
    pub fn rotate_image(&self, content: &[u8], angle: i32) -> (r: Result<Vec<u8>, TransformError>)
        ensures
            match rotate_outcome(content@, angle) {
                Ok(_) => r is Ok,
                Err(e) => r == Err::<Vec<u8>, TransformError>(e),
            },
    {
        match self.rotate_encoded(content, angle) {
            Ok(e) => Ok(e.bytes),
            Err(e) => Err(e),
        }
    }
}

} // verus!
