
use images_api::processor::ImageProcessor;
use images_api::store::{TransformCache, DEFAULT_CAPACITY};
use images_api::transform::{thumbnail_dimensions, transform, ImageKind, TransformError};
use images_api::cache::Variant;
use images_api::models::{default_limit, default_page, Config, FormatName};

fn encoded(width: u32, height: u32, format: image::ImageFormat) -> Vec<u8> {
    let img = image::DynamicImage::new_rgb8(width, height);
    let mut out = std::io::Cursor::new(Vec::new());
    img.write_to(&mut out, format).unwrap();
    out.into_inner()
}

fn dims_of(bytes: &[u8]) -> (u32, u32) {
    let img = image::load_from_memory(bytes).unwrap();
    (img.width(), img.height())
}

#[test]
fn test_invalid_image_data() {
    let processor = ImageProcessor::new();
    let invalid_data = vec![0, 1, 2, 3];
    let result = processor.process_image_data(&invalid_data);
    assert!(result.is_err());
}

#[test]
fn test_process_empty_image_data() {
    let processor = ImageProcessor::new();
    let result = processor.process_image_data(&vec![]);
    assert!(result.is_err());
}

#[test]
fn test_process_image_data_corrupt() {
    let processor = ImageProcessor::new();
    let corrupt_data = vec![0xFF, 0xD8, 0xFF, 0xE0];
    let result = processor.process_image_data(&corrupt_data);
    assert!(result.is_err());
}

#[test]
fn test_process_image_data_large_size() {
    let processor = ImageProcessor::new();
    let large_data = vec![0; 100 * 1024 * 1024];
    let result = processor.process_image_data(&large_data);
    assert!(result.is_err());
}

#[test]
fn image_processor_test_get_image_data() {
    let test_image = encoded(2, 2, image::ImageFormat::Jpeg);
    let processor = ImageProcessor::new();
    let result = processor.get_image_data(test_image, false);
    assert!(result.is_ok());
    let data = result.unwrap();
    assert_eq!(data.dimensions, (2, 2));
    assert_eq!(data.format, ImageKind::Jpeg);
    assert!(data.size_bytes > 0);
    assert!(data.content.is_empty());
}

#[test]
fn image_data_keeps_bytes_when_asked() {
    let bytes = encoded(3, 5, image::ImageFormat::Png);
    let data = ImageProcessor::new().get_image_data(bytes.clone(), true).unwrap();
    assert_eq!(data.content, bytes);
    assert_eq!(data.size_bytes, bytes.len());
    assert_eq!(data.dimensions, (3, 5));
    assert_eq!(data.format, ImageKind::Png);
}

#[test]
fn test_resize_image() {
    let test_image = encoded(2, 2, image::ImageFormat::Jpeg);
    let result = ImageProcessor::new().resize_image(&test_image, 4, 4);
    assert!(result.is_ok());
    let resized_data = result.unwrap();
    assert!(!resized_data.is_empty());
    assert_eq!(dims_of(&resized_data), (4, 4));
}

#[test]
fn test_rotate_image() {
    let test_image = encoded(2, 2, image::ImageFormat::Jpeg);
    let result = ImageProcessor::new().rotate_image(&test_image, 90);
    assert!(result.is_ok());
    let rotated_data = result.unwrap();
    assert!(!rotated_data.is_empty());
}

#[test]
fn rotation_swaps_or_keeps_dimensions() {
    let test_image = encoded(4, 2, image::ImageFormat::Png);
    let p = ImageProcessor::new();
    let r = p.rotate_encoded(&test_image, 90).unwrap();
    assert_eq!((r.width, r.height, r.format), (2, 4, ImageKind::Png));
    assert_eq!(dims_of(&r.bytes), (2, 4));
    assert_eq!(dims_of(&p.rotate_image(&test_image, 180).unwrap()), (4, 2));
    assert_eq!(dims_of(&p.rotate_image(&test_image, 270).unwrap()), (2, 4));
}

#[test]
fn rotate_refuses_other_angles() {
    let test_image = encoded(4, 2, image::ImageFormat::Png);
    let p = ImageProcessor::new();
    assert_eq!(p.rotate_image(&test_image, 45), Err(TransformError::ValidationError));
    assert_eq!(p.rotate_image(&test_image, 360), Err(TransformError::ValidationError));
    assert_eq!(p.rotate_image(&[0, 1, 2, 3], 45), Err(TransformError::ValidationError));
    assert_eq!(p.rotate_image(&[0, 1, 2, 3], 90), Err(TransformError::DecodeError));
}

#[test]
fn test_rotate_image_invalid_angles() {
    let processor = ImageProcessor::new();
    let test_data = vec![0, 1, 2, 3];
    let result = processor.rotate_image(&test_data, -90);
    assert!(result.is_err());
    let result = processor.rotate_image(&test_data, 450);
    assert!(result.is_err());
}

#[test]
fn resize_fits_the_box() {
    let p = ImageProcessor::new();
    let r = p.resize_encoded(&encoded(4, 2, image::ImageFormat::Png), 10, 10).unwrap();
    assert_eq!((r.width, r.height, r.format), (10, 5, ImageKind::Png));
    assert_eq!(dims_of(&r.bytes), (10, 5));
    let r = p.resize_encoded(&encoded(2, 2, image::ImageFormat::Jpeg), 4, 4).unwrap();
    assert_eq!((r.width, r.height, r.format), (4, 4, ImageKind::Jpeg));
}

#[test]
fn format_labels() {
    assert_eq!(ImageKind::Png.label(), "PNG");
    assert_eq!(ImageKind::WebP.label(), "WEBP");
    assert_eq!(ImageKind::from_label("jpg"), ImageKind::Jpeg);
    assert_eq!(ImageKind::from_label("png"), ImageKind::Png);
    assert_eq!(ImageKind::from_label("Webp"), ImageKind::WebP);
    assert_eq!(ImageKind::from_label("gıf"), ImageKind::Gif);
    assert_eq!(ImageKind::from_label("bmp"), ImageKind::Jpeg);
}

#[test]
fn small_jpeg_artifact_succeeds() {
    let bytes = encoded(2, 2, image::ImageFormat::Jpeg);
    let a = ImageProcessor::new().process_image_data(&bytes).unwrap();
    assert_eq!((a.width, a.height), (2, 2));
    assert!(a.data_uri().starts_with("data:image/jpeg;base64,"));
}

#[test]
fn image_processor_test_invalid_image() {
    let invalid_data = b"not an image".to_vec();
    let result = ImageProcessor::new().get_image_data(invalid_data, false);
    assert!(result.is_err());
}

#[test]
fn test_resize_invalid_dimensions() {
    let result = ImageProcessor::new().resize_image(&vec![0, 1, 2, 3], 0, 0);
    assert!(result.is_err());
}

#[test]
fn test_rotate_invalid_image() {
    let result = ImageProcessor::new().rotate_image(&vec![0, 1, 2, 3], 90);
    assert!(result.is_err());
}

#[test]
fn test_resize_image_zero_dimensions() {
    let processor = ImageProcessor::new();
    let result = processor.resize_image(&vec![0, 1, 2, 3], 0, 100);
    assert!(result.is_err());
    let result = processor.resize_image(&vec![0, 1, 2, 3], 100, 0);
    assert!(result.is_err());
}

#[test]
fn test_resize_image_extreme_dimensions() {
    let result = ImageProcessor::new().resize_image(&vec![0, 1, 2, 3], 100000, 100000);
    assert!(result.is_err());
}

#[test]
fn resize_of_valid_image_with_zero_side_is_a_validation_error() {
    let test_image = encoded(2, 2, image::ImageFormat::Png);
    assert_eq!(
        ImageProcessor::new().resize_image(&test_image, 0, 4),
        Err(TransformError::ValidationError)
    );
}

#[test]
fn test_get_image_dimensions() {
    let bytes = encoded(100, 100, image::ImageFormat::Jpeg);
    let data = ImageProcessor::new().get_image_data(bytes, false).unwrap();
    assert_eq!(data.dimensions, (100, 100));
}

#[test]
fn full_artifact_keeps_dimensions_and_format() {
    let bytes = encoded(40, 30, image::ImageFormat::Png);
    let a = ImageProcessor::new().process_image_data(&bytes).unwrap();
    assert_eq!((a.width, a.height), (40, 30));
    assert_eq!(a.kind, ImageKind::Jpeg);
    assert_eq!(dims_of(&a.bytes), (40, 30));
    assert_eq!(a.size_bytes(), a.bytes.len());
    assert_eq!(image::guess_format(&a.bytes).unwrap(), image::ImageFormat::Jpeg);
}

#[test]
fn thumbnail_of_large_image_has_edge_300() {
    let bytes = encoded(600, 300, image::ImageFormat::Png);
    let a = transform(&bytes, ImageKind::Png, Variant::Thumbnail).unwrap();
    assert_eq!((a.width, a.height), (300, 150));
    assert_eq!(dims_of(&a.bytes), (300, 150));
    assert_eq!(image::guess_format(&a.bytes).unwrap(), image::ImageFormat::Png);
    let bytes = encoded(400, 1000, image::ImageFormat::Png);
    let a = transform(&bytes, ImageKind::Png, Variant::Thumbnail).unwrap();
    assert_eq!((a.width, a.height), (120, 300));
    assert_eq!(dims_of(&a.bytes), (120, 300));
}

#[test]
fn thumbnail_of_small_image_is_not_scaled() {
    let bytes = encoded(100, 50, image::ImageFormat::Png);
    let a = transform(&bytes, ImageKind::Png, Variant::Thumbnail).unwrap();
    assert_eq!((a.width, a.height), (100, 50));
    assert_eq!(dims_of(&a.bytes), (100, 50));
}

#[test]
fn thumbnail_dimension_rule() {
    assert_eq!(thumbnail_dimensions(1000, 1000, Variant::Thumbnail), (300, 300));
    assert_eq!(thumbnail_dimensions(1001, 2, Variant::Thumbnail), (300, 1));
    assert_eq!(thumbnail_dimensions(301, 200, Variant::Thumbnail), (300, 199));
    assert_eq!(thumbnail_dimensions(300, 300, Variant::Thumbnail), (300, 300));
    assert_eq!(thumbnail_dimensions(1000, 500, Variant::Full), (1000, 500));
    assert_eq!(thumbnail_dimensions(7, 3000, Variant::Thumbnail), (1, 300));
}

#[test]
fn kinds_follow_extensions() {
    assert_eq!(ImageKind::for_path("/a/b.png"), ImageKind::Png);
    assert_eq!(ImageKind::for_path("/a/b.PNG"), ImageKind::Png);
    assert_eq!(ImageKind::for_path("b.gif"), ImageKind::Gif);
    assert_eq!(ImageKind::for_path("b.WebP"), ImageKind::WebP);
    assert_eq!(ImageKind::for_path("b.jpeg"), ImageKind::Jpeg);
    assert_eq!(ImageKind::for_path("b.tiff"), ImageKind::Jpeg);
    assert_eq!(ImageKind::for_path("/a/.png"), ImageKind::Jpeg);
    assert_eq!(ImageKind::for_path("png"), ImageKind::Jpeg);
    assert_eq!(ImageKind::Png.mime(), "image/png");
    assert_eq!(ImageKind::Jpeg.mime(), "image/jpeg");
}

#[test]
fn test_cache_behavior() {
    let bytes = encoded(100, 100, image::ImageFormat::Jpeg);
    let mut cache = TransformCache::with_default_capacity();
    let result1 = cache.get("/tmp/test.jpg", false, &bytes);
    assert!(result1.is_ok());
    let result2 = cache.get("/tmp/test.jpg", false, &bytes);
    assert!(result2.is_ok());
    assert_eq!(result1.unwrap().bytes, result2.unwrap().bytes);
    assert_eq!(cache.len(), 1);
}

#[test]
fn hit_serves_stored_artifact_without_reading() {
    let bytes = encoded(500, 250, image::ImageFormat::Png);
    let mut cache = TransformCache::new(4);
    assert!(cache.lookup("/x/a.png", true).is_none());
    let first = cache.fill("/x/a.png", true, &bytes).unwrap();
    assert_eq!((first.width, first.height), (300, 150));
    let again = cache.get("/x/a.png", true, &[]).unwrap();
    assert_eq!(again.bytes, first.bytes);
    assert!(cache.lookup("/x/a.png", false).is_none());
    cache.clear_all();
    assert_eq!(cache.len(), 0);
    assert!(cache.lookup("/x/a.png", true).is_none());
}

#[test]
fn computed_artifact_is_stored_for_its_key() {
    let bytes = encoded(10, 20, image::ImageFormat::Png);
    let mut cache = TransformCache::new(3);
    let a = TransformCache::compute("/p/x.gif", false, &bytes).unwrap();
    assert_eq!(a.kind, ImageKind::Gif);
    assert_eq!((a.width, a.height), (10, 20));
    let kept = a.bytes.clone();
    cache.store("/p/x.gif", false, a);
    assert_eq!(cache.lookup("/p/x.gif", false).unwrap().bytes, kept);
    assert!(cache.lookup("/p/x.gif", true).is_none());
    assert!(matches!(TransformCache::compute("/p/x.gif", false, &[]), Err(TransformError::DecodeError)));
}

#[test]
fn cache_bound_on_artifacts() {
    let bytes = encoded(4, 4, image::ImageFormat::Png);
    let mut cache = TransformCache::new(2);
    for p in ["/a.png", "/b.png", "/c.png"] {
        cache.fill(p, false, &bytes).unwrap();
    }
    assert_eq!(cache.len(), 2);
    assert!(cache.lookup("/a.png", false).is_none());
    assert!(cache.lookup("/c.png", false).is_some());
    assert_eq!(DEFAULT_CAPACITY, 1000);
}

#[test]
fn failed_fill_stores_nothing() {
    let mut cache = TransformCache::new(2);
    assert!(matches!(cache.fill("/a.png", false, b"nope"), Err(TransformError::DecodeError)));
    assert_eq!(cache.len(), 0);
}

#[test]
fn records_and_defaults() {
    assert_eq!(default_page(), 1);
    assert_eq!(default_limit(), 20);
    assert_eq!(Config::new("dir".to_string()).content_directory, "dir");
    assert_eq!(FormatName::from_image_format(image::ImageFormat::Jpeg).0, "jpg");
    assert_eq!(FormatName::from_image_format(image::ImageFormat::Png).0, "png");
}
