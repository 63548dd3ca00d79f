use image::{DynamicImage, RgbImage};
use omarchy_imageview::thumbnail::{
    cache_identity, cache_key_of, make_thumbnail, to_lower_hex, ThumbnailCache, THUMBNAIL_SIZE,
};

#[test]
fn test_cache_key_deterministic() {
    let id = cache_identity("/tmp/pics/test.jpg", "SystemTime { tv_sec: 100, tv_nsec: 80 }");
    let k1 = cache_key_of(&id);
    let k2 = cache_key_of(&id);
    assert_eq!(k1, k2);
    assert_eq!(k1.len(), 64);
}

#[test]
fn cache_key_is_the_sha256_hex_digest() {
    assert_eq!(
        cache_key_of("abc"),
        "ba7816bf8f01cfea414140de5dae2223b00361a396177a9cb410ff61f20015ad"
    );
    assert_ne!(cache_key_of("abc"), cache_key_of("abd"));
}

#[test]
fn identity_carries_version_path_and_time() {
    assert_eq!(cache_identity("/a/b.png", "t"), "v2:/a/b.png:t");
}

#[test]
fn hex_is_two_lower_case_digits_per_byte() {
    assert_eq!(to_lower_hex(&[0x00, 0x0f, 0xa0, 0xff]), "000fa0ff");
    assert_eq!(to_lower_hex(&[]), "");
}

#[test]
fn test_generate_thumbnail() {
    let img = DynamicImage::ImageRgb8(RgbImage::new(100, 80));
    let thumb = make_thumbnail(&img);
    assert!(thumb.width() <= 256 && thumb.height() <= 256);
}

#[test]
fn test_large_image_scaled() {
    let img = DynamicImage::ImageRgb8(RgbImage::new(4000, 3000));
    let thumb = make_thumbnail(&img);
    assert!(thumb.width() <= 256);
    assert!(thumb.height() <= 256);
    assert_eq!((thumb.width(), thumb.height()), (256, 192));
}

#[test]
fn thumbnail_of_a_thin_image_keeps_one_pixel() {
    let img = DynamicImage::ImageRgb8(RgbImage::new(3000, 1));
    let thumb = make_thumbnail(&img);
    assert_eq!((thumb.width(), thumb.height()), (THUMBNAIL_SIZE, 1));
}

#[test]
fn cached_path_is_key_png_in_the_cache_dir() {
    let cache = ThumbnailCache::new("/home/u/.cache/omarchy-imageview".to_string());
    assert_eq!(cache.cached_path("abc"), "/home/u/.cache/omarchy-imageview/abc.png");
    let root = ThumbnailCache::new("/".to_string());
    assert_eq!(root.cached_path("k"), "/k.png");
}
