//! Header values and URLs that the request handlers send.

use vstd::prelude::*;
use vstd::string::StringExecFns;
use crate::stream::{content_range_spec, StreamPlan, StreamStatus};
use crate::text::{chars_of, decimal_of};
use crate::transform::{ends_with_extension, has_extension_in};

verus! {

/// The content type of a served image: by its exact extension, `application/octet-stream`
/// for any other.
pub open spec fn image_content_type_spec(path: Seq<char>) -> Seq<char> {
    if has_extension_in(path, seq!['j', 'p', 'g'], false) || has_extension_in(
        path,
        seq!['j', 'p', 'e', 'g'],
        false,
    ) {
        "image/jpeg"@
    } else if has_extension_in(path, seq!['p', 'n', 'g'], false) {
        "image/png"@
    } else if has_extension_in(path, seq!['g', 'i', 'f'], false) {
        "image/gif"@
    } else {
        "application/octet-stream"@
    }
}

pub fn image_content_type(path: &str) -> (r: &'static str)
    ensures
        r@ == image_content_type_spec(path@),
{
    let p = chars_of(path);
    if ends_with_extension(&p, &vec!['j', 'p', 'g'], false) || ends_with_extension(
        &p,
        &vec!['j', 'p', 'e', 'g'],
        false,
    ) {
        "image/jpeg"
    } else if ends_with_extension(&p, &vec!['p', 'n', 'g'], false) {
        "image/png"
    } else if ends_with_extension(&p, &vec!['g', 'i', 'f'], false) {
        "image/gif"
    } else {
        "application/octet-stream"
    }
}

/// The MIME type that `mime_guess::from_path(p).first_or_octet_stream()` gives for a path.
pub uninterp spec fn guessed_mime(p: Seq<char>) -> Seq<char>;

/// Relies on `mime_guess::from_path` and `MimeGuess::first_or_octet_stream`: the first MIME
/// type known for the path's extension, `application/octet-stream` when none is.
#[verifier::external_body]
fn guess_mime(path: &str) -> (r: String)
    ensures
        r@ == guessed_mime(path@),
{
    mime_guess::from_path(path).first_or_octet_stream().to_string()
}

/// The headers of a streamed answer, in order: `Content-Range` (for a range only),
/// `Accept-Ranges`, `Content-Length` and `Content-Type`, the last guessed from the path.
pub fn stream_headers(plan: &StreamPlan, path: &str) -> (r: Vec<(String, String)>)
    requires
        plan.well_formed(),
    ensures
        ({
            let extra: int = if plan.status == StreamStatus::Partial {
                1
            } else {
                0
            };
            &&& r@.len() == 3 + extra
            &&& plan.status == StreamStatus::Partial ==> r@[0].0@ == "Content-Range"@ && r@[0].1@
                == content_range_spec(plan.offset as nat, plan.last_byte(), plan.total_length as nat)
            &&& r@[extra].0@ == "Accept-Ranges"@ && r@[extra].1@ == "bytes"@
            &&& r@[extra + 1].0@ == "Content-Length"@ && r@[extra + 1].1@ == decimal_of(
                plan.length as nat,
            )
            &&& r@[extra + 2].0@ == "Content-Type"@ && r@[extra + 2].1@ == guessed_mime(path@)
        }),
{
    let mut headers: Vec<(String, String)> = Vec::new();
    match plan.content_range() {
        Some(range) => headers.push((String::from_str("Content-Range"), range)),
        None => {},
    }
    headers.push((String::from_str("Accept-Ranges"), String::from_str("bytes")));
    headers.push((String::from_str("Content-Length"), plan.content_length()));
    headers.push((String::from_str("Content-Type"), guess_mime(path)));
    headers
}

/// What `percent_encoding::percent_decode_str(s).decode_utf8()` gives: the text with each
/// `%` and two hex digits replaced by that byte, when the bytes are UTF-8.
pub uninterp spec fn percent_decoded(s: Seq<char>) -> Option<Seq<char>>;

/// Relies on `percent_encoding::percent_decode_str` and `PercentDecode::decode_utf8`.
#[verifier::external_body]
fn percent_decode(s: &str) -> (r: Option<String>)
    ensures
        match r {
            Some(d) => percent_decoded(s@) == Some(d@),
            None => percent_decoded(s@) is None,
        },
{
    percent_encoding::percent_decode_str(s).decode_utf8().ok().map(|d| d.into_owned())
}

/// The proxy URL of an image named in a request path: the name percent-decoded, or as it
/// was when it does not decode to UTF-8.
pub fn info_url(filename: &str) -> (r: String)
    ensures
        r@ == "/api/gallery/proxy-image/"@ + match percent_decoded(filename@) {
            Some(d) => d,
            None => filename@,
        },
{
    let mut url = String::from_str("/api/gallery/proxy-image/");
    match percent_decode(filename) {
        Some(d) => url.append(d.as_str()),
        None => url.append(filename),
    }
    url
}

} // verus!
