//! Turning the bytes of an image file into a cached artifact: the full image or a thumbnail,
//! re-encoded in the format that the path's extension names.

use vstd::prelude::*;
use crate::cache::Variant;
use crate::picture::{
    decode_picture, decoded_image, encode_jpeg, encode_picture, jpeg_size_ok, resize_picture,
    writes_ok, Picture, PixelLayout,
};
use crate::encoding::{base64_spec, push_base64};
use crate::text::chars_of;
use vstd::string::StringExecFns;

verus! {

/// The longest edge of a thumbnail.
pub const THUMBNAIL_EDGE: u32 = 300;

/// The JPEG quality that artifacts are encoded with.
pub const JPEG_QUALITY: u8 = 85;

/// The formats that artifacts are encoded in.
#[derive(Clone, Copy, Debug, PartialEq, Eq, Structural)]
pub enum ImageKind {
    Jpeg,
    Png,
    Gif,
    WebP,
}

/// Why an image could not be turned into an artifact.
#[derive(Clone, Copy, Debug, PartialEq, Eq, Structural)]
pub enum TransformError {
    /// The file could not be read.
    IoError,
    /// The bytes are not an image in a supported format.
    DecodeError,
    /// The image could not be encoded in the requested format.
    EncodeError,
    /// The requested operation is not supported for these arguments.
    ValidationError,
}

impl TransformError {
    /// A short description for logs; clients get a generic message.
    pub fn message(&self) -> (r: &'static str)
        ensures
            *self == TransformError::IoError ==> r@ == "IO error"@,
            *self == TransformError::DecodeError ==> r@ == "Image error: not a supported image"@,
            *self == TransformError::EncodeError ==> r@ == "Image error: encoding failed"@,
            *self == TransformError::ValidationError ==> r@ == "Validation error"@,
    {
        match self {
            TransformError::IoError => "IO error",
            TransformError::DecodeError => "Image error: not a supported image",
            TransformError::EncodeError => "Image error: encoding failed",
            TransformError::ValidationError => "Validation error",
        }
    }
}

/// `c` is the letter `lower` (a lower-case ASCII letter), or also its upper case when case is
/// ignored.
pub open spec fn same_letter(c: char, lower: char, ignore_case: bool) -> bool {
    c == lower || (ignore_case && 'a' <= lower && lower <= 'z' && c as u32 + 32 == lower as u32)
}

/// The file name in `path` ends in `.` followed by `ext`, with at least one character of the
/// name before the dot.
pub open spec fn has_extension_in(path: Seq<char>, ext: Seq<char>, ignore_case: bool) -> bool {
    let n = path.len();
    let d = n - ext.len() - 1;
    &&& d >= 1
    &&& path[d] == '.'
    &&& path[d - 1] != '/'
    &&& forall|i: int|
        0 <= i < ext.len() ==> same_letter(#[trigger] path[d + 1 + i], ext[i], ignore_case)
}

/// The extension of `path` is `ext` in any case.
pub open spec fn has_extension(path: Seq<char>, ext: Seq<char>) -> bool {
    has_extension_in(path, ext, true)
}

/// The format that a path's extension names; anything unrecognised is JPEG.
pub open spec fn kind_for_path_spec(path: Seq<char>) -> ImageKind {
    if has_extension(path, seq!['p', 'n', 'g']) {
        ImageKind::Png
    } else if has_extension(path, seq!['g', 'i', 'f']) {
        ImageKind::Gif
    } else if has_extension(path, seq!['w', 'e', 'b', 'p']) {
        ImageKind::WebP
    } else {
        ImageKind::Jpeg
    }
}

pub(crate) fn ends_with_extension(path: &Vec<char>, ext: &Vec<char>, ignore_case: bool) -> (r: bool)
    requires
        forall|i: int| 0 <= i < ext@.len() ==> 'a' <= #[trigger] ext@[i] <= 'z',
    ensures
        r == has_extension_in(path@, ext@, ignore_case),
{
    let n = path.len();
    if n < 2 || n - 2 < ext.len() {
        return false;
    }
    let d = n - ext.len() - 1;
    if path[d] != '.' || path[d - 1] == '/' {
        return false;
    }
    let mut i: usize = 0;
    while i < ext.len()
        invariant
            n == path@.len(),
            d == path@.len() - ext@.len() - 1,
            d >= 1,
            i <= ext@.len(),
            forall|k: int| 0 <= k < ext@.len() ==> 'a' <= #[trigger] ext@[k] <= 'z',
            forall|k: int| 0 <= k < i ==> same_letter(#[trigger] path@[d + 1 + k], ext@[k], ignore_case),
        decreases ext@.len() - i,
    {
        let c = path[d + 1 + i];
        let e = ext[i];
        if !(c == e || (ignore_case && c as u32 == e as u32 - 32)) {
            assert(!same_letter(path@[d + 1 + i], ext@[i as int], ignore_case));
            return false;
        }
        i = i + 1;
    }
    true
}

/// The MIME type of each format.
pub open spec fn mime_spec(kind: ImageKind) -> Seq<char> {
    match kind {
        ImageKind::Jpeg => "image/jpeg"@,
        ImageKind::Png => "image/png"@,
        ImageKind::Gif => "image/gif"@,
        ImageKind::WebP => "image/webp"@,
    }
}

impl ImageKind {
    /// The format named by the extension of `path`, JPEG when it names none of the others.
    pub fn for_path(path: &str) -> (r: ImageKind)
        ensures
            r == kind_for_path_spec(path@),
    {
        let p = chars_of(path);
        if ends_with_extension(&p, &vec!['p', 'n', 'g'], true) {
            ImageKind::Png
        } else if ends_with_extension(&p, &vec!['g', 'i', 'f'], true) {
            ImageKind::Gif
        } else if ends_with_extension(&p, &vec!['w', 'e', 'b', 'p'], true) {
            ImageKind::WebP
        } else {
            ImageKind::Jpeg
        }
    }

    /// The MIME type of the format.
    pub fn mime(&self) -> (r: &'static str)
        ensures
            r@ == mime_spec(*self),
    {
        match self {
            ImageKind::Jpeg => "image/jpeg",
            ImageKind::Png => "image/png",
            ImageKind::Gif => "image/gif",
            ImageKind::WebP => "image/webp",
        }
    }
}

/// The short side scaled by `THUMBNAIL_EDGE / long`, rounded to the nearest pixel, and at
/// least one pixel.
pub open spec fn scaled_side(short: u32, long: u32) -> u32 {
    let s = (short as int * THUMBNAIL_EDGE as int + long as int / 2) / long as int;
    if s < 1 {
        1
    } else {
        s as u32
    }
}

/// The dimensions of the artifact for an image of `width` by `height`: the full image keeps
/// them; a thumbnail whose longer side exceeds `THUMBNAIL_EDGE` is scaled down so that this
/// side is exactly `THUMBNAIL_EDGE`, keeping the aspect ratio; smaller images are not scaled.
pub open spec fn target_dimensions(width: u32, height: u32, variant: Variant) -> (u32, u32) {
    if variant == Variant::Full || (width <= THUMBNAIL_EDGE && height <= THUMBNAIL_EDGE) {
        (width, height)
    } else if width >= height {
        (THUMBNAIL_EDGE, scaled_side(height, width))
    } else {
        (scaled_side(width, height), THUMBNAIL_EDGE)
    }
}

fn scale_side(short: u32, long: u32) -> (r: u32)
    requires
        short <= long,
        long > THUMBNAIL_EDGE,
    ensures
        r == scaled_side(short, long),
        1 <= r <= THUMBNAIL_EDGE,
{
    let a: u64 = short as u64 * 300;
    let s: u64 = (a + long as u64 / 2) / long as u64;
    assert(s <= THUMBNAIL_EDGE) by (nonlinear_arith)
        requires
            s == (short as int * 300 + long as int / 2) / long as int,
            short <= long,
            long > 300,
    ;
    if s < 1 {
        1
    } else {
        s as u32
    }
}

/// The artifact dimensions, as `target_dimensions` gives them.
pub fn thumbnail_dimensions(width: u32, height: u32, variant: Variant) -> (r: (u32, u32))
    ensures
        r == target_dimensions(width, height, variant),
        r != (width, height) ==> r.0 > 0 && r.1 > 0,
{
    if variant == Variant::Full || (width <= THUMBNAIL_EDGE && height <= THUMBNAIL_EDGE) {
        (width, height)
    } else if width >= height {
        (THUMBNAIL_EDGE, scale_side(height, width))
    } else {
        (scale_side(width, height), THUMBNAIL_EDGE)
    }
}

/// A thumbnail of an image whose longer side exceeds `THUMBNAIL_EDGE` has exactly that longer
/// side, and its shorter side is within one pixel of the exact proportion
/// (`short * THUMBNAIL_EDGE / long`); a thumbnail of a smaller image has its dimensions.
pub proof fn lemma_thumbnail_dimensions(width: u32, height: u32)
    ensures
        ({
            let (w, h) = target_dimensions(width, height, Variant::Thumbnail);
            if width > THUMBNAIL_EDGE || height > THUMBNAIL_EDGE {
                &&& (if w >= h { w } else { h }) == THUMBNAIL_EDGE
                &&& width >= height ==> w == THUMBNAIL_EDGE && -(width as int) <= h as int
                    * width as int - height as int * THUMBNAIL_EDGE as int <= width as int
                &&& width < height ==> h == THUMBNAIL_EDGE && -(height as int) <= w as int
                    * height as int - width as int * THUMBNAIL_EDGE as int <= height as int
            } else {
                w == width && h == height
            }
        }),
{
    if width > THUMBNAIL_EDGE || height > THUMBNAIL_EDGE {
        if width >= height {
            lemma_scaled_side(height, width);
        } else {
            lemma_scaled_side(width, height);
        }
    }
}

/// A thumbnail of an image with no empty side can always be encoded as JPEG: its sides stay
/// between 1 and `THUMBNAIL_EDGE` when scaled, and are the image's own when it is small.
pub proof fn lemma_thumbnail_fits_jpeg(width: u32, height: u32)
    requires
        width >= 1,
        height >= 1,
    ensures
        jpeg_size_ok(
            target_dimensions(width, height, Variant::Thumbnail).0,
            target_dimensions(width, height, Variant::Thumbnail).1,
        ),
{
    if width > THUMBNAIL_EDGE || height > THUMBNAIL_EDGE {
        if width >= height {
            lemma_scaled_side(height, width);
        } else {
            lemma_scaled_side(width, height);
        }
    }
}

proof fn lemma_scaled_side(short: u32, long: u32)
    requires
        short <= long,
        long > THUMBNAIL_EDGE,
    ensures
        1 <= scaled_side(short, long) <= THUMBNAIL_EDGE,
        -(long as int) <= scaled_side(short, long) as int * long as int - short as int
            * THUMBNAIL_EDGE as int <= long as int,
{
    let a = short as int * 300;
    let l = long as int;
    let s = (a + l / 2) / l;
    assert(s * l <= a + l / 2 && a + l / 2 < s * l + l) by (nonlinear_arith)
        requires
            s == (a + l / 2) / l,
            l > 0,
    ;
    assert(s <= 300) by (nonlinear_arith)
        requires
            s == (a + l / 2) / l,
            a == short as int * 300,
            short <= l,
            l > 300,
    ;
    assert(s >= 0) by (nonlinear_arith)
        requires
            s == (a + l / 2) / l,
            a >= 0,
            l > 0,
    ;
    if s < 1 {
        assert(s == 0);
        assert(s * l == 0) by (nonlinear_arith)
            requires
                s == 0,
        ;
        assert(a + l / 2 < l);
    }
}

/// An encoded image with its format and pixel dimensions.
#[derive(Debug)]
pub struct CachedArtifact {
    pub bytes: Vec<u8>,
    pub kind: ImageKind,
    pub width: u32,
    pub height: u32,
}

impl CachedArtifact {
    /// The same encoded bytes, format and dimensions.
    pub open spec fn same_as(&self, other: &CachedArtifact) -> bool {
        &&& self.bytes@ == other.bytes@
        &&& self.kind == other.kind
        &&& self.width == other.width
        &&& self.height == other.height
    }

    /// The encoded size in bytes.
    pub fn size_bytes(&self) -> (r: usize)
        ensures
            r == self.bytes@.len(),
    {
        self.bytes.len()
    }

    /// The artifact as a self-contained `data:` URI with its MIME type and base64 bytes.
    pub fn data_uri(&self) -> (r: String)
        ensures
            r@ == "data:"@ + mime_spec(self.kind) + ";base64,"@ + base64_spec(self.bytes@),
    {
        let mut s = String::from_str("data:");
        s.append(self.kind.mime());
        s.append(";base64,");
        push_base64(&mut s, self.bytes.as_slice());
        s
    }

    /// A copy for a reader; the stored artifact itself never changes.
    pub fn duplicate(&self) -> (r: CachedArtifact)
        ensures
            r.same_as(self),
    {
        let mut bytes: Vec<u8> = Vec::new();
        let mut i: usize = 0;
        while i < self.bytes.len()
            invariant
                i <= self.bytes@.len(),
                bytes@ == self.bytes@.take(i as int),
            decreases self.bytes@.len() - i,
        {
            bytes.push(self.bytes[i]);
            assert(self.bytes@.take(i + 1) =~= self.bytes@.take(i as int).push(self.bytes@[i as int]));
            i = i + 1;
        }
        assert(self.bytes@.take(i as int) =~= self.bytes@);
        CachedArtifact { bytes, kind: self.kind, width: self.width, height: self.height }
    }
}

/// An image of these dimensions and pixel layout can be encoded as `kind`: JPEG (at
/// `JPEG_QUALITY`) takes sides from 1 to 65535 pixels, the others as `writes_ok` says.
pub open spec fn encodable(kind: ImageKind, width: u32, height: u32, color: PixelLayout) -> bool {
    match kind {
        ImageKind::Jpeg => jpeg_size_ok(width, height),
        _ => writes_ok(kind, width, height, color),
    }
}

/// Encodes a picture in `kind`, JPEG at `JPEG_QUALITY`.
fn encode_as(p: &Picture, kind: ImageKind) -> (r: Result<Vec<u8>, TransformError>)
    ensures
        r is Ok <==> encodable(kind, p.spec_width(), p.spec_height(), p.spec_color()),
        r matches Err(e) ==> e == TransformError::EncodeError,
{
    let encoded = match kind {
        ImageKind::Jpeg => encode_jpeg(p, JPEG_QUALITY),
        _ => encode_picture(p, kind),
    };
    match encoded {
        Ok(bytes) => Ok(bytes),
        Err(_) => Err(TransformError::EncodeError),
    }
}

/// Decodes `content`, scales it for the variant and encodes it in `kind`: it succeeds exactly
/// when the bytes decode and the scaled image can be encoded as `kind`.
pub fn transform(content: &[u8], kind: ImageKind, variant: Variant) -> (r: Result<
    CachedArtifact,
    TransformError,
>)
    ensures
        decoded_image(content@) is None ==> r == Err::<CachedArtifact, TransformError>(
            TransformError::DecodeError,
        ),
        decoded_image(content@) matches Some(d) ==> match r {
            Ok(a) => a.kind == kind && (a.width, a.height) == target_dimensions(d.0, d.1, variant),
            Err(e) => e == TransformError::EncodeError,
        },
        decoded_image(content@) matches Some(d) ==> (r is Ok <==> encodable(
            kind,
            target_dimensions(d.0, d.1, variant).0,
            target_dimensions(d.0, d.1, variant).1,
            d.2,
        )),
{
    let picture = match decode_picture(content) {
        Ok(p) => p,
        Err(_) => {
            return Err(TransformError::DecodeError);
        },
    };
    let (width, height) = thumbnail_dimensions(picture.width(), picture.height(), variant);
    let encoded = if width == picture.width() && height == picture.height() {
        encode_as(&picture, kind)
    } else {
        let scaled = resize_picture(&picture, width, height);
        encode_as(&scaled, kind)
    };
    match encoded {
        Ok(bytes) => Ok(CachedArtifact { bytes, kind, width, height }),
        Err(e) => Err(e),
    }
}

} // verus!
