use omarchy_imageview::formats::{detect_format, extension, file_name, is_supported, FormatGroup};

#[test]
fn test_jpeg_supported() {
    assert!(is_supported("photo.jpg"));
    assert!(is_supported("photo.JPEG"));
    assert!(is_supported("photo.JPG"));
    assert!(is_supported("photo.jpe"));
    assert!(is_supported("photo.jfif"));
}

#[test]
fn test_png_supported() {
    assert!(is_supported("image.png"));
    assert!(is_supported("image.PNG"));
}

#[test]
fn test_webp_supported() {
    assert!(is_supported("photo.webp"));
}

#[test]
fn test_easy_raster_formats() {
    for name in [
        "icon.ico", "shot.tga", "pix.qoi", "env.hdr", "tex.dds",
        "a.pbm", "a.pgm", "a.ppm", "a.pnm", "a.ff", "scene.exr", "photo.jxl",
    ] {
        assert!(is_supported(name), "{name}");
        assert_eq!(detect_format(name), Some(FormatGroup::Image), "{name}");
    }
}

#[test]
fn test_raw_not_supported() {
    for name in ["photo.cr2", "photo.NEF", "photo.arw", "photo.dng", "photo.orf", "photo.raf"] {
        assert!(!is_supported(name), "{name}");
        assert_eq!(detect_format(name), None, "{name}");
    }
}

#[test]
fn test_heic_supported() {
    assert!(is_supported("photo.heic"));
    assert!(is_supported("photo.HEIF"));
    assert_eq!(detect_format("photo.heic"), Some(FormatGroup::Image));
}

#[test]
fn test_svg_supported() {
    assert!(is_supported("icon.svg"));
}

#[test]
fn test_unsupported() {
    assert!(!is_supported("document.pdf"));
    assert!(!is_supported("video.mp4"));
    assert!(!is_supported("noext"));
}

#[test]
fn test_detect_format_image() {
    assert_eq!(detect_format("photo.jpg"), Some(FormatGroup::Image));
    assert_eq!(detect_format("photo.png"), Some(FormatGroup::Image));
    assert_eq!(detect_format("photo.webp"), Some(FormatGroup::Image));
    assert_eq!(detect_format("photo.avif"), Some(FormatGroup::Image));
    assert_eq!(detect_format("photo.heic"), Some(FormatGroup::Image));
    assert_eq!(detect_format("photo.jxl"), Some(FormatGroup::Image));
}

#[test]
fn test_detect_format_svg() {
    assert_eq!(detect_format("icon.svg"), Some(FormatGroup::Svg));
}

#[test]
fn test_detect_format_none() {
    assert_eq!(detect_format("doc.pdf"), None);
    assert_eq!(detect_format("noext"), None);
}

#[test]
fn extension_is_lowered_and_taken_after_the_last_dot() {
    let e: String = extension("archive.tar.GZ").into_iter().collect();
    assert_eq!(e, "gz");
    let none: String = extension("README").into_iter().collect();
    assert_eq!(none, "");
}

#[test]
fn hidden_file_without_extension_is_not_an_image() {
    assert!(!is_supported(".png"));
    assert_eq!(detect_format(".jpg"), None);
}

#[test]
fn file_name_is_the_last_component() {
    assert_eq!(file_name("/home/u/pics/a.png"), Some("a.png"));
    assert_eq!(file_name("a.png"), Some("a.png"));
    assert_eq!(file_name("/home/u/pics/"), Some("pics"));
    assert_eq!(file_name("/"), None);
}

#[test]
fn letter_case_does_not_change_support() {
    for name in ["PHOTO.JPG", "photo.jpg", "Photo.WebP", "scan.TIFF", "notes.TXT", "README"] {
        let answer = is_supported(name);
        assert_eq!(answer, detect_format(name).is_some());
        assert_eq!(answer, is_supported(&name.to_ascii_uppercase()));
        assert_eq!(answer, is_supported(&name.to_ascii_lowercase()));
    }
    assert!(is_supported("PHOTO.JPG"));
    assert!(!is_supported("NOTES.TXT"));
}
