use omarchy_imageview::app_state::ScaleMode;
use omarchy_imageview::status::{decimal_text, file_label, grid_info, single_info, window_title};

#[test]
fn decimal_text_has_no_leading_zeros() {
    assert_eq!(decimal_text(0), "0");
    assert_eq!(decimal_text(7), "7");
    assert_eq!(decimal_text(1030), "1030");
    assert_eq!(decimal_text(u64::MAX), "18446744073709551615");
}

#[test]
fn window_title_marks_unsaved_edits() {
    assert_eq!(window_title(Some("a.png"), false), "a.png \u{2014} Image Viewer");
    assert_eq!(window_title(Some("a.png"), true), "a.png * \u{2014} Image Viewer");
    assert_eq!(window_title(None, true), "Image Viewer");
}

#[test]
fn file_label_shows_the_name_or_dashes() {
    assert_eq!(file_label(Some("a.png"), false), "a.png");
    assert_eq!(file_label(Some("a.png"), true), "a.png *");
    assert_eq!(file_label(None, false), "--");
}

#[test]
fn grid_info_counts_images() {
    assert_eq!(grid_info(12), "12 images");
    assert_eq!(grid_info(0), "0 images");
}

#[test]
fn single_info_shows_position_scale_and_slideshow() {
    assert_eq!(single_info(0, 5, ScaleMode::Fit, 0), "1 / 5");
    assert_eq!(single_info(4, 5, ScaleMode::Actual, 0), "5 / 5  \u{b7}  1:1");
    assert_eq!(single_info(1, 12, ScaleMode::Fill, 3), "2 / 12  \u{b7}  Fill  \u{b7}  3s");
    assert_eq!(single_info(0, 0, ScaleMode::Fit, 30), "1 / 0  \u{b7}  30s");
}
