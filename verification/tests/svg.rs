use omarchy_imageview::svg::{
    length_of_bits, svg_exceeds_cap, svg_raster_bounds, svg_raster_box, svg_size_from,
    svg_size_texts, SvgSizeNumbers, MAX_SVG_EDGE,
};

fn parse(text: &str) -> Option<u64> {
    text.parse::<f64>().ok().map(f64::to_bits)
}

/// The intrinsic size, with the texts read as `f64` the way the viewer does.
fn svg_intrinsic_size(svg: &str) -> Option<(u32, u32)> {
    let texts = svg_size_texts(svg)?;
    let numbers = SvgSizeNumbers {
        width: texts.width.as_deref().and_then(parse),
        height: texts.height.as_deref().and_then(parse),
        view_box: texts.view_box.map(|v| v.iter().map(|s| parse(s)).collect()),
    };
    svg_size_from(&numbers)
}

fn len(text: &str) -> Option<u32> {
    parse(text).and_then(length_of_bits)
}

#[test]
fn reads_width_and_height() {
    let svg = r#"<svg width="1024" height="768" xmlns="http://www.w3.org/2000/svg"></svg>"#;
    assert_eq!(svg_intrinsic_size(svg), Some((1024, 768)));
}

#[test]
fn reads_view_box_when_width_missing() {
    let svg = r#"<svg viewBox="0 0 320 240" xmlns="http://www.w3.org/2000/svg"></svg>"#;
    assert_eq!(svg_intrinsic_size(svg), Some((320, 240)));
}

#[test]
fn ceils_fractional_width() {
    let svg = r#"<svg width="633631.5" height="543913.75" viewBox="0 0 633631.5 543913.75"></svg>"#;
    assert_eq!(svg_intrinsic_size(svg), Some((633632, 543914)));
}

#[test]
fn flags_huge_aseprite_export() {
    assert!(svg_exceeds_cap(633632, 543914));
    assert!(!svg_exceeds_cap(1024, 1024));
    assert!(!svg_exceeds_cap(MAX_SVG_EDGE, MAX_SVG_EDGE));
    assert!(svg_exceeds_cap(MAX_SVG_EDGE + 1, 1));
}

#[test]
fn texts_are_trimmed_and_lose_px() {
    let t = svg_size_texts("<svg width=' 12px ' height=\"5pxpx\" viewBox='0, 0 ,4 3'>").unwrap();
    assert_eq!(t.width.as_deref(), Some("12"));
    assert_eq!(t.height.as_deref(), Some("5"));
    assert_eq!(t.view_box, Some(vec!["0".to_string(), "0".to_string(), "4".to_string(), "3".to_string()]));
    let p = svg_size_texts(r#"<svg width="100%">"#).unwrap();
    assert_eq!(p.width, None);
    assert_eq!(p.height, None);
    assert_eq!(p.view_box, None);
    assert!(svg_size_texts("<html>").is_none());
    assert!(svg_size_texts("<svg width='3'").is_none());
}

#[test]
fn lengths_round_up_the_parsed_value() {
    assert_eq!(len("12"), Some(12));
    assert_eq!(len("12.01"), Some(13));
    assert_eq!(len(".5"), Some(1));
    assert_eq!(len("1e3"), Some(1000));
    assert_eq!(len("4294967295"), Some(4294967295));
    assert_eq!(len("4294967295.5"), None);
    assert_eq!(len("1.00000000000000000001"), Some(1));
    assert_eq!(len("4294967295.0000000001"), Some(4294967295));
    assert_eq!(len("1e-400"), None);
    assert_eq!(len("5e-324"), Some(1));
    assert_eq!(len("1e-30"), Some(1));
    assert_eq!(len("0"), None);
    assert_eq!(len("-0"), None);
    assert_eq!(len("-3"), None);
    assert_eq!(len("inf"), None);
    assert_eq!(len("NaN"), None);
    assert_eq!(len("1e300"), None);
    assert_eq!(len("12px"), None);
}

#[test]
fn single_quotes_and_px_units() {
    let svg = "<?xml version='1.0'?><svg width='12px' height=' 7.2 ' xmlns='x'>";
    assert_eq!(svg_intrinsic_size(svg), Some((12, 8)));
}

#[test]
fn percentages_fall_back_to_view_box() {
    let svg = r#"<svg width="100%" height="100%" viewBox="0,0,64,48">"#;
    assert_eq!(svg_intrinsic_size(svg), Some((64, 48)));
}

#[test]
fn view_box_lower_case_and_exponents() {
    let svg = r#"<svg viewbox="0 0 1.5e2 2E1">"#;
    assert_eq!(svg_intrinsic_size(svg), Some((150, 20)));
}

#[test]
fn view_box_skips_words_that_are_not_numbers() {
    let svg = r#"<svg viewBox="0 0 abc 320 240">"#;
    assert_eq!(svg_intrinsic_size(svg), Some((320, 240)));
}

#[test]
fn view_box_needs_exactly_four_numbers() {
    assert_eq!(svg_intrinsic_size(r#"<svg viewBox="0 0 320">"#), None);
    assert_eq!(svg_intrinsic_size(r#"<svg viewBox="0 0 320 240 7">"#), None);
}

#[test]
fn non_positive_and_non_finite_sizes_are_refused() {
    assert_eq!(svg_intrinsic_size(r#"<svg viewBox="0 0 0 240">"#), None);
    assert_eq!(svg_intrinsic_size(r#"<svg viewBox="0 0 -5 240">"#), None);
    assert_eq!(svg_intrinsic_size(r#"<svg viewBox="0 0 inf 240">"#), None);
    assert_eq!(svg_intrinsic_size(r#"<svg width="1e-400" height="2">"#), None);
    assert_eq!(svg_intrinsic_size(r#"<svg width="4294967296" height="2">"#), None);
}

#[test]
fn width_and_height_win_over_view_box() {
    let svg = r#"<svg viewBox="0 0 10 10" width="30" height="40">"#;
    assert_eq!(svg_intrinsic_size(svg), Some((30, 40)));
    let half = r#"<svg width="30" viewBox="0 0 10 20">"#;
    assert_eq!(svg_intrinsic_size(half), Some((10, 20)));
}

#[test]
fn raster_bounds_cap_only_huge_sizes() {
    assert_eq!(svg_raster_bounds(Some((633632, 543914))), Some((MAX_SVG_EDGE, MAX_SVG_EDGE)));
    assert_eq!(svg_raster_bounds(Some((10, 10))), None);
    assert_eq!(svg_raster_bounds(None), None);
}

#[test]
fn raster_box_clamps_each_edge() {
    assert_eq!(svg_raster_box(4, 4), (4, 4));
    assert_eq!(svg_raster_box(0, 9000), (1, MAX_SVG_EDGE));
    assert_eq!(svg_raster_box(u32::MAX, 1), (MAX_SVG_EDGE, 1));
}
