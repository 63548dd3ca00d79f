use omarchy_imageview::file_ops::{
    editor_commands, exif_tag_after_rotation, rename_wanted, save_rotation_plan, SavePlan,
};

#[test]
fn editor_prefers_tensaku() {
    assert_eq!(editor_commands()[0], "tensaku-edit");
    assert_eq!(*editor_commands().last().unwrap(), "pinta");
}

#[test]
fn zero_and_full_turns_write_nothing() {
    assert_eq!(save_rotation_plan("/p/shot.png", 0), SavePlan::Nothing);
    assert_eq!(save_rotation_plan("/p/shot.png", 360), SavePlan::Nothing);
    assert_eq!(save_rotation_plan("/p/shot.heic", 720), SavePlan::Nothing);
}

#[test]
fn odd_angles_are_refused() {
    assert_eq!(save_rotation_plan("/p/shot.png", 45), SavePlan::UnsupportedAngle);
    assert_eq!(save_rotation_plan("/p/photo.jpg", 100), SavePlan::UnsupportedAngle);
}

#[test]
fn jpeg_and_tiff_use_the_exif_tag_first() {
    for name in ["a.jpg", "a.JPEG", "a.jpe", "a.jfif", "a.tif", "a.TIFF"] {
        assert_eq!(save_rotation_plan(name, 90), SavePlan::ExifThenPixels(90), "{name}");
    }
    assert_eq!(save_rotation_plan("/p/photo.jpg", 450), SavePlan::ExifThenPixels(90));
}

#[test]
fn formats_without_an_encoder_are_refused() {
    for name in ["a.heic", "a.HEIF", "a.svg", "a.jxl"] {
        assert_eq!(save_rotation_plan(name, 180), SavePlan::NoEncoder, "{name}");
    }
}

#[test]
fn other_rasters_rewrite_pixels() {
    assert_eq!(save_rotation_plan("/p/shot.png", 270), SavePlan::Pixels(270));
    assert_eq!(save_rotation_plan("/p/noext", 90), SavePlan::Pixels(90));
}

#[test]
fn tag_after_rotation_composes_with_the_current_tag() {
    assert_eq!(exif_tag_after_rotation(None, 90), 6);
    assert_eq!(exif_tag_after_rotation(Some(6), 90), 3);
    assert_eq!(exif_tag_after_rotation(Some(8), 90), 1);
    assert_eq!(exif_tag_after_rotation(Some(0), 270), 8);
}

#[test]
fn rename_needs_a_new_nonempty_name() {
    assert!(rename_wanted("photo.jpg", "holiday.jpg"));
    assert!(!rename_wanted("photo.jpg", "photo.jpg"));
    assert!(!rename_wanted("photo.jpg", ""));
    assert!(rename_wanted("photo.jpg", "Photo.jpg"));
}
