use omarchy_imageview::icons::{rgb_hex, tint_svg};

#[test]
fn every_current_color_is_replaced() {
    let svg = r#"<svg viewBox="0 0 24 24"><path fill="currentColor"/><path stroke="currentColor"/></svg>"#;
    assert_eq!(
        tint_svg(svg, "#CECDC3"),
        r##"<svg viewBox="0 0 24 24"><path fill="#CECDC3"/><path stroke="#CECDC3"/></svg>"##
    );
}

#[test]
fn text_without_the_colour_is_kept() {
    assert_eq!(tint_svg("<svg/>", "#000000"), "<svg/>");
    assert_eq!(tint_svg("", "#000000"), "");
    assert_eq!(tint_svg("currentColorcurrentColor", "x"), "xx");
    assert_eq!(tint_svg("currentColo", "x"), "currentColo");
}

#[test]
fn rgb_hex_is_upper_case_without_alpha() {
    assert_eq!(rgb_hex([0xCE, 0xCD, 0xC3, 255]), "#CECDC3");
    assert_eq!(rgb_hex([0, 10, 255, 0]), "#000AFF");
}
