use omarchy_imageview::theme::{
    foreground_rgba, generate_css, hex_rgba, load_theme, parse_colors, theme_foreground, ColorTable,
    FALLBACK_ACCENT, FALLBACK_BG, FALLBACK_FG,
};

#[test]
fn hex_rgba_reads_three_channels() {
    assert_eq!(hex_rgba("#4385BE"), [0x43, 0x85, 0xBE, 255]);
    assert_eq!(hex_rgba("  ##ff0080  "), [255, 0, 128, 255]);
    assert_eq!(hex_rgba("abcdef12"), [0xab, 0xcd, 0xef, 255]);
}

#[test]
fn hex_rgba_short_text_is_the_fallback_foreground() {
    assert_eq!(hex_rgba("#fff"), [0xCE, 0xCD, 0xC3, 255]);
    assert_eq!(hex_rgba(""), [0xCE, 0xCD, 0xC3, 255]);
}

#[test]
fn hex_rgba_bad_digits_read_as_zero() {
    assert_eq!(hex_rgba("#zz8000"), [0, 0x80, 0, 255]);
    assert_eq!(hex_rgba("#+f8000"), [15, 0x80, 0, 255]);
}

#[test]
fn colors_fall_back_without_a_file() {
    let colors = parse_colors(None);
    assert_eq!(colors.get("accent"), Some(FALLBACK_ACCENT));
    assert_eq!(colors.get("foreground"), Some(FALLBACK_FG));
    assert_eq!(colors.get("background"), Some(FALLBACK_BG));
    assert_eq!(colors.get("selection_bg"), Some("#403E3C"));
    assert_eq!(colors.get("color0"), Some("#1C1B1A"));
    assert_eq!(colors.get("color1"), None);
}

#[test]
fn file_text_values_override_fallbacks() {
    let content = "accent = \"#112233\"\nforeground = \"#ffffff\"\nbackground = 5\ncolor7 = \"#010203\"\n";
    let colors = parse_colors(Some(content));
    assert_eq!(colors.get("accent"), Some("#112233"));
    assert_eq!(colors.get("foreground"), Some("#ffffff"));
    assert_eq!(colors.get("background"), Some(FALLBACK_BG));
    assert_eq!(colors.get("color7"), Some("#010203"));
}

#[test]
fn unreadable_toml_keeps_fallbacks() {
    let colors = parse_colors(Some("this is = = not toml"));
    assert_eq!(colors.get("accent"), Some(FALLBACK_ACCENT));
}

#[test]
fn foreground_rgba_uses_the_theme() {
    let colors = parse_colors(Some("foreground = \"#102030\"\n"));
    assert_eq!(foreground_rgba(&colors), [0x10, 0x20, 0x30, 255]);
    assert_eq!(foreground_rgba(&ColorTable::new()), [0xCE, 0xCD, 0xC3, 255]);
}

#[test]
fn css_fills_in_the_colours() {
    let colors = parse_colors(Some("background = \"#000001\"\naccent = \"#000002\"\n"));
    let css = generate_css(&colors);
    assert!(css.starts_with("\n    window {\n        background-color: #000001;\n        color: #CECDC3;"));
    assert!(css.contains("border-color: #000002;"));
    assert!(css.contains("background-color: #1C1B1A;\n        border-top: 1px solid #403E3C;"));
    assert!(css.ends_with("box-shadow: none;\n    }\n    "));
}

#[test]
fn load_theme_is_the_css_of_the_parsed_colours() {
    let content = "foreground = \"#abcdef\"\n";
    assert_eq!(load_theme(Some(content)), generate_css(&parse_colors(Some(content))));
    assert!(load_theme(None).contains("color: #CECDC3;"));
}

#[test]
fn later_inserts_replace_earlier_ones() {
    let mut t = ColorTable::new();
    t.insert("a".to_string(), "1".to_string());
    t.insert("a".to_string(), "2".to_string());
    assert_eq!(t.get("a"), Some("2"));
}

#[test]
fn foreground_comes_from_the_colour_file() {
    assert_eq!(theme_foreground(Some("foreground = \"#102030\"\n")), [0x10, 0x20, 0x30, 255]);
    assert_eq!(theme_foreground(None), [0xCE, 0xCD, 0xC3, 255]);
    assert_eq!(theme_foreground(Some("][ not toml")), [0xCE, 0xCD, 0xC3, 255]);
    assert_eq!(theme_foreground(Some("foreground = 7\n")), [0xCE, 0xCD, 0xC3, 255]);
}

#[test]
fn unreadable_theme_uses_every_fallback() {
    assert_eq!(load_theme(None), generate_css(&parse_colors(None)));
    assert_eq!(load_theme(Some("][ not toml")), load_theme(None));
    assert_eq!(load_theme(Some("][ not toml")), generate_css(&parse_colors(Some("also [ bad"))));
}
