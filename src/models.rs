//! The plain records that the HTTP layer reads from queries and writes as JSON.

use vstd::prelude::*;
use crate::picture::first_extension;

verus! {

/// Where the served content lives.
pub struct Config {
    pub content_directory: String,
}

impl Config {
    pub fn new(content_directory: String) -> (r: Self)
        ensures
            r.content_directory@ == content_directory@,
    {
        Config { content_directory }
    }
}

/// Shared request state; the handlers keep theirs in separate pieces of application data.
pub struct AppState {}

/// The page asked for when a query names none.
pub fn default_page() -> (r: usize)
    ensures
        r == 1,
{
    1
}

/// The page size used when a query names none.
pub fn default_limit() -> (r: usize)
    ensures
        r == 20,
{
    20
}

pub struct ImageDimensions {
    pub width: i32,
    pub height: i32,
}

/// One image of a listing.
pub struct ImageMetadata {
    pub name: String,
    /// Served under the JSON name `url`.
    pub path: String,
    pub size: i64,
    /// Served under the JSON name `date`.
    pub modified_date: String,
    pub dimensions: Option<ImageDimensions>,
    pub kind: Option<String>,
    pub tags: Vec<String>,
}

pub struct PaginatedImageResponse {
    pub images: Vec<ImageMetadata>,
    pub total: i64,
    pub page: i32,
    pub total_pages: i32,
    pub page_size: i32,
}

pub struct GalleryImagesQuery {
    pub page: usize,
    pub limit: usize,
    pub sort: Option<String>,
    pub tag: Option<String>,
}

pub struct ListImagesQuery {
    pub page: usize,
    pub limit: usize,
    pub sort: Option<String>,
    pub tag: Option<String>,
}

pub struct OpenInPreviewRequest {
    pub filepath: String,
}

pub struct ImageContentQuery {
    pub image_name: String,
    pub page: usize,
    pub limit: usize,
}

pub struct HealthResponse {
    pub status: String,
    pub commit: String,
    pub timestamp: String,
}

/// What is known of one image file.
pub struct ImageDetail {
    pub filename: String,
    pub dimensions: Option<(u32, u32)>,
    pub size_bytes: u64,
    /// Last modification, in milliseconds since the Unix epoch (UTC).
    pub last_modified_millis: i64,
    pub format: Option<FormatName>,
    /// The bytes, base64-encoded.
    pub data: Option<String>,
}

/// The name of an image format: its usual file extension.
pub struct FormatName(pub String);

impl FormatName {
    /// The first extension that the `image` crate lists for the format, or an empty name when
    /// it lists none.
    pub fn from_image_format(format: image::ImageFormat) -> (r: FormatName) {
        match first_extension(format) {
            Some(e) => FormatName(e),
            None => FormatName(String::new()),
        }
    }
}

/// One item found by a content search.
pub struct ContentInfo {
    pub content_name: String,
    pub content_type: String,
    pub content_url: String,
    pub content_tags: Vec<String>,
    pub content_created: Option<i64>,
    pub content_viewed: Option<i64>,
    pub content_size: Option<i64>,
}

pub struct PaginatedContentResponse {
    pub items: Vec<ContentInfo>,
    pub total: usize,
    pub page: usize,
    pub total_pages: usize,
    pub page_size: usize,
}

} // verus!
