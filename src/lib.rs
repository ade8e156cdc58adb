//! Byte-range streaming and a bounded cache of transformed images, the core of an image and
//! video serving API.
//!
//! - `range`, `stream`: the `Range` header, the plan of an answer (status, headers, offset,
//!   length) and the budget that cuts the chunks read from disk to that length.
//! - `cache`, `transform`, `picture`, `store`: the bounded recency cache, the full-size and
//!   thumbnail artifacts computed with the `image` crate, and the cache that holds them.
//! - `processor`: loading, resizing and rotating image bytes.
//! - `gallery`, `tags`, `mdls`, `search`, `http`, `models`: the listing, tag and search logic
//!   around the metadata index, header values and URLs, and the records sent as JSON.
//! - `text`, `encoding`: decimal numbers, strings and base64.

pub mod text;
pub mod range;
pub mod stream;
pub mod cache;
pub mod picture;
pub mod transform;
pub mod store;
pub mod processor;
pub mod models;
pub mod encoding;
pub mod tags;
pub mod gallery;
pub mod http;
pub mod search;
pub mod mdls;
