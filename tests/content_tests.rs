use images_api::encoding::push_base64;
use images_api::gallery::{escape_spaces, gallery_listing, GalleryRecord};
use images_api::http::{image_content_type, info_url, stream_headers};
use images_api::mdls::user_tags;
use images_api::search::{base_name, page_window, search_results, PageWindow};
use images_api::stream::plan_for_header;
use images_api::tags::{clean_hex, parse_binary_plist_tags, tag_color, tag_colors};
use images_api::transform::{CachedArtifact, ImageKind};

fn b64(bytes: &[u8]) -> String {
    let mut s = String::new();
    push_base64(&mut s, bytes);
    s
}

fn plist_hex(items: Vec<plist::Value>) -> String {
    let mut out = Vec::new();
    plist::Value::Array(items).to_writer_binary(&mut out).unwrap();
    hex::encode(out)
}

#[test]
fn base64_known_vectors() {
    assert_eq!(b64(b""), "");
    assert_eq!(b64(b"f"), "Zg==");
    assert_eq!(b64(b"fo"), "Zm8=");
    assert_eq!(b64(b"foo"), "Zm9v");
    assert_eq!(b64(b"foobar"), "Zm9vYmFy");
    assert_eq!(b64(&[0xff, 0xfe, 0x00]), "//4A");
}

#[test]
fn data_uri_of_artifact() {
    let a = CachedArtifact { bytes: b"abc".to_vec(), kind: ImageKind::Png, width: 1, height: 1 };
    assert_eq!(a.data_uri(), "data:image/png;base64,YWJj");
    let j = CachedArtifact { bytes: vec![], kind: ImageKind::Jpeg, width: 0, height: 0 };
    assert!(j.data_uri().starts_with("data:image/jpeg;base64,"));
}

#[test]
fn hex_dump_is_cleaned() {
    assert_eq!(clean_hex(" 62 70\n\t6c 69 \r\n73"), "62706c6973");
    assert_eq!(clean_hex("ab\tcd"), "ab\tcd");
    assert_eq!(clean_hex(""), "");
}

#[test]
fn tag_colors_from_names() {
    assert_eq!(tag_color("Red\n6"), Some("red".to_string()));
    assert_eq!(tag_color("Grey"), Some("grey".to_string()));
    assert_eq!(tag_color("Work"), None);
    assert_eq!(tag_color("blue2"), Some("blue".to_string()));
    let items = vec![Some("Green".to_string()), None, Some("Important".to_string()), Some("PURPLE".to_string())];
    assert_eq!(tag_colors(&items), vec!["green".to_string(), "purple".to_string()]);
}

#[test]
fn binary_plist_tags() {
    let dump = plist_hex(vec![
        plist::Value::String("Red\n6".to_string()),
        plist::Value::String("Work".to_string()),
        plist::Value::Integer(3.into()),
        plist::Value::String("Orange\n7".to_string()),
    ]);
    let spaced: String = dump.chars().enumerate().map(|(i, c)| if i % 2 == 1 { format!("{} ", c) } else { c.to_string() }).collect();
    assert_eq!(parse_binary_plist_tags(&dump), vec!["red".to_string(), "orange".to_string()]);
    assert_eq!(parse_binary_plist_tags(&spaced), vec!["red".to_string(), "orange".to_string()]);
    assert!(parse_binary_plist_tags("zz").is_empty());
    assert!(parse_binary_plist_tags("abc").is_empty());
    assert!(parse_binary_plist_tags("00ff").is_empty());
}

fn record(name: &str, size: Option<i64>) -> GalleryRecord {
    GalleryRecord { filename: name.to_string(), size, date: "2024-01-01T00:00:00.000Z".to_string(), tags_hex: None }
}

#[test]
fn gallery_skips_hidden_and_repeated_names() {
    let mut recs = vec![record("a b.jpg", Some(10)), record(".DS_Store", Some(1)), record("c.png", None), record("a b.jpg", Some(99))];
    recs[2].tags_hex = Some(plist_hex(vec![plist::Value::String("Blue".to_string())]));
    let out = gallery_listing(&recs);
    assert_eq!(out.len(), 2);
    assert_eq!(out[0].name, "a b.jpg");
    assert_eq!(out[0].path, "/api/gallery/proxy-image/a%20b.jpg");
    assert_eq!(out[0].size, 10);
    assert_eq!(out[0].modified_date, "2024-01-01T00:00:00.000Z");
    assert!(out[0].tags.is_empty());
    assert_eq!(out[1].name, "c.png");
    assert_eq!(out[1].size, 0);
    assert_eq!(out[1].tags, vec!["blue".to_string()]);
    assert_eq!(escape_spaces("x y z"), "x%20y%20z");
}

#[test]
fn content_types_by_extension() {
    assert_eq!(image_content_type("/d/a.jpg"), "image/jpeg");
    assert_eq!(image_content_type("/d/a.jpeg"), "image/jpeg");
    assert_eq!(image_content_type("/d/a.png"), "image/png");
    assert_eq!(image_content_type("/d/a.gif"), "image/gif");
    assert_eq!(image_content_type("/d/a.JPG"), "application/octet-stream");
    assert_eq!(image_content_type("/d/a.txt"), "application/octet-stream");
}

#[test]
fn video_headers() {
    let plan = plan_for_header(Some("bytes=500-999"), 1000).unwrap();
    let h = stream_headers(&plan, "/v/clip.mp4");
    assert_eq!(h.len(), 4);
    assert_eq!(h[0], ("Content-Range".to_string(), "bytes 500-999/1000".to_string()));
    assert_eq!(h[1], ("Accept-Ranges".to_string(), "bytes".to_string()));
    assert_eq!(h[2], ("Content-Length".to_string(), "500".to_string()));
    assert_eq!(h[3], ("Content-Type".to_string(), "video/mp4".to_string()));
    let whole = plan_for_header(None, 1000).unwrap();
    let h = stream_headers(&whole, "/v/clip.unknownext");
    assert_eq!(h.len(), 3);
    assert_eq!(h[1], ("Content-Length".to_string(), "1000".to_string()));
    assert_eq!(h[2], ("Content-Type".to_string(), "application/octet-stream".to_string()));
}

#[test]
fn info_urls_are_decoded() {
    assert_eq!(info_url("a%20b.jpg"), "/api/gallery/proxy-image/a b.jpg");
    assert_eq!(info_url("plain.jpg"), "/api/gallery/proxy-image/plain.jpg");
    assert_eq!(info_url("bad%ff.jpg"), "/api/gallery/proxy-image/bad%ff.jpg");
}

#[test]
fn search_names_and_pages() {
    assert_eq!(base_name("photo.final.jpg"), "photo");
    assert_eq!(base_name("photo"), "photo");
    assert_eq!(base_name(".hidden"), "");
    assert_eq!(page_window(45, 1, 20), PageWindow { total_pages: 3, start: 0, end: 20 });
    assert_eq!(page_window(45, 3, 20), PageWindow { total_pages: 3, start: 40, end: 45 });
    assert_eq!(page_window(45, 4, 20), PageWindow { total_pages: 3, start: 45, end: 45 });
    assert_eq!(page_window(0, 1, 20), PageWindow { total_pages: 0, start: 0, end: 0 });
    assert_eq!(page_window(usize::MAX, 2, usize::MAX), PageWindow { total_pages: 1, start: usize::MAX, end: usize::MAX });
}

#[test]
fn search_output_is_sorted_and_unique() {
    let out = b"/b/x\0/a/y\0\0/b/x\0\xff\xfe\0/a/\xc3\xa9";
    assert_eq!(search_results(out), vec!["/a/y".to_string(), "/a/\u{e9}".to_string(), "/b/x".to_string()]);
    assert!(search_results(b"").is_empty());
    assert_eq!(search_results(b"only"), vec!["only".to_string()]);
}

#[test]
fn mdls_user_tags() {
    let raw = "kMDItemContentType = \"public.jpeg\"\nkMDItemUserTags    = (\n    Red,\n    \"Project X\"\n)\nkMDItemVersion = 1\n";
    assert_eq!(user_tags(raw), vec!["Red".to_string(), "Project X".to_string()]);
    let inline = "kMDItemUserTags = (\r\n  \"A\",\r\n  B\r\n)\r\n  C\n";
    assert_eq!(user_tags(inline), vec!["A".to_string(), "B".to_string()]);
    let split = "kMDItemUserTags =\n   junk\n(\n  one,\n)\n";
    assert_eq!(user_tags(split), vec!["one".to_string()]);
    assert!(user_tags("kMDItemUserTags = (null)\n").is_empty());
    assert!(user_tags("nothing here").is_empty());
}
