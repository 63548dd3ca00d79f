//! Theme colours: the Omarchy colour file, hex colour parsing and the
//! stylesheet of the viewer.

use vstd::prelude::*;
use crate::text::{chars_of, is_space, lemma_trim_back, lemma_trim_front, space_char, trim_back, trim_front};
use crate::toml_data::{parse_toml, toml_entries, ScalarView, TomlEntry, TomlScalar, entries_view};

verus! {

pub const FALLBACK_ACCENT: &'static str = "#4385BE";
pub const FALLBACK_FG: &'static str = "#CECDC3";
pub const FALLBACK_BG: &'static str = "#100F0F";
pub const FALLBACK_SEL_BG: &'static str = "#403E3C";
pub const FALLBACK_SURFACE: &'static str = "#1C1B1A";

pub open spec fn strip_hashes(s: Seq<char>) -> Seq<char>
    decreases s.len(),
{
    if s.len() > 0 && s[0] == '#' {
        strip_hashes(s.drop_first())
    } else {
        s
    }
}

/// The digits of a colour: surrounding white space trimmed, then leading `#`s removed.
pub open spec fn hex_body(s: Seq<char>) -> Seq<char> {
    strip_hashes(trim_back(trim_front(s)))
}

pub open spec fn is_hex_byte(b: u8) -> bool {
    (48 <= b <= 57) || (65 <= b <= 70) || (97 <= b <= 102)
}

pub open spec fn hex_value(b: u8) -> int {
    if 48 <= b <= 57 {
        b - 48
    } else if 65 <= b <= 70 {
        b - 55
    } else {
        b - 87
    }
}

/// `u8::from_str_radix(.., 16)` on a two-byte ASCII text, with 0 for an error:
/// two hex digits, or `+` and one hex digit.
pub open spec fn parse_hex_pair(b0: u8, b1: u8) -> int {
    if b0 == 43 {
        if is_hex_byte(b1) {
            hex_value(b1)
        } else {
            0
        }
    } else if is_hex_byte(b0) && is_hex_byte(b1) {
        16 * hex_value(b0) + hex_value(b1)
    } else {
        0
    }
}

/// The byte pair at offset `i` read as a hex number; 0 when the pair is not
/// there, is not ASCII, or does not parse.
pub open spec fn channel_at(b: Seq<u8>, i: int) -> int {
    if i + 2 <= b.len() && b[i] < 128 && b[i + 1] < 128 {
        parse_hex_pair(b[i], b[i + 1])
    } else {
        0
    }
}

/// RGBA of a `#RRGGBB` colour; texts shorter than six bytes give the
/// fallback foreground `#CECDC3`.
pub open spec fn spec_hex_rgba(hex: Seq<char>) -> Seq<u8> {
    let b = vstd::utf8::encode_utf8(hex_body(hex));
    if b.len() >= 6 {
        seq![channel_at(b, 0) as u8, channel_at(b, 2) as u8, channel_at(b, 4) as u8, 255u8]
    } else {
        seq![0xCEu8, 0xCDu8, 0xC3u8, 255u8]
    }
}

fn hex_digit(b: u8) -> (r: Option<u8>)
    ensures
        match r {
            Some(v) => is_hex_byte(b) && v == hex_value(b),
            None => !is_hex_byte(b),
        },
{
    if 48 <= b && b <= 57 {
        Some(b - 48)
    } else if 65 <= b && b <= 70 {
        Some(b - 55)
    } else if 97 <= b && b <= 102 {
        Some(b - 87)
    } else {
        None
    }
}

fn channel(b: &[u8], i: usize) -> (r: u8)
    ensures
        r == channel_at(b@, i as int),
{
    if i < b.len() && b.len() - i >= 2 && b[i] < 128 && b[i + 1] < 128 {
        let b0 = b[i];
        let b1 = b[i + 1];
        if b0 == 43 {
            match hex_digit(b1) {
                Some(v) => v,
                None => 0,
            }
        } else {
            match (hex_digit(b0), hex_digit(b1)) {
                (Some(h), Some(l)) => h * 16 + l,
                _ => 0,
            }
        }
    } else {
        0
    }
}

proof fn lemma_strip_hashes(s: Seq<char>, i: int)
    requires
        0 <= i <= s.len(),
        forall|j: int| 0 <= j < i ==> s[j] == '#',
        i == s.len() || s[i] != '#',
    ensures
        strip_hashes(s) == s.subrange(i, s.len() as int),
    decreases i,
{
    if i > 0 {
        lemma_strip_hashes(s.drop_first(), i - 1);
        assert(s.drop_first().subrange(i - 1, s.len() - 1) =~= s.subrange(i, s.len() as int));
    } else {
        assert(s.subrange(0, s.len() as int) =~= s);
    }
}

/// Bounds of `hex_body(s)` inside `s`.
fn hex_body_range(s: &Vec<char>) -> (r: (usize, usize))
    ensures
        r.0 <= r.1 <= s.len(),
        hex_body(s@) == s@.subrange(r.0 as int, r.1 as int),
{
    let mut a: usize = 0;
    while a < s.len() && space_char(s[a])
        invariant
            a <= s.len(),
            forall|j: int| 0 <= j < a ==> is_space(s@[j]),
        decreases s.len() - a,
    {
        a = a + 1;
    }
    let mut b: usize = s.len();
    while b > a && space_char(s[b - 1])
        invariant
            a <= b <= s.len(),
            forall|j: int| b <= j < s.len() ==> is_space(s@[j]),
        decreases b,
    {
        b = b - 1;
    }
    let ghost front = s@.subrange(a as int, s@.len() as int);
    proof {
        lemma_trim_front(s@, a as int);
        if b > a {
            lemma_trim_back(front, b - a);
        } else {
            lemma_trim_back(front, 0);
        }
        assert(front.subrange(0, b - a) =~= s@.subrange(a as int, b as int));
    }
    let mut c: usize = a;
    while c < b && s[c] == '#'
        invariant
            a <= c <= b <= s.len(),
            forall|j: int| a <= j < c ==> s@[j] == '#',
        decreases b - c,
    {
        c = c + 1;
    }
    proof {
        let mid = s@.subrange(a as int, b as int);
        lemma_strip_hashes(mid, c - a);
        assert(mid.subrange(c - a, mid.len() as int) =~= s@.subrange(c as int, b as int));
    }
    (c, b)
}

/// RGBA of a hex colour such as `#4385BE`.
pub fn hex_rgba(hex: &str) -> (r: [u8; 4])
    ensures
        r@ == spec_hex_rgba(hex@),
{
    let s = chars_of(hex);
    let (c, b) = hex_body_range(&s);
    let body = hex.substring_char(c, b);
    let bytes = body.as_bytes();
    if bytes.len() >= 6 {
        let r = [channel(bytes, 0), channel(bytes, 2), channel(bytes, 4), 255];
        assert(r@ =~= spec_hex_rgba(hex@));
        r
    } else {
        let r = [0xCE, 0xCD, 0xC3, 255];
        assert(r@ =~= spec_hex_rgba(hex@));
        r
    }
}

/// Colour settings by name; a later setting of a name replaces an earlier one.
pub struct ColorTable {
    pub entries: Vec<(String, String)>,
}

pub open spec fn last_value(es: Seq<(String, String)>, key: Seq<char>) -> Option<Seq<char>>
    decreases es.len(),
{
    if es.len() == 0 {
        None
    } else if es.last().0@ == key {
        Some(es.last().1@)
    } else {
        last_value(es.drop_last(), key)
    }
}

/// The colours of the theme when the colour file gives none.
pub open spec fn fallback_color(key: Seq<char>) -> Option<Seq<char>> {
    if key == "accent"@ {
        Some(FALLBACK_ACCENT@)
    } else if key == "foreground"@ {
        Some(FALLBACK_FG@)
    } else if key == "background"@ {
        Some(FALLBACK_BG@)
    } else if key == "selection_bg"@ {
        Some(FALLBACK_SEL_BG@)
    } else if key == "color0"@ {
        Some(FALLBACK_SURFACE@)
    } else {
        None
    }
}

/// The last text value given to `key` among TOML entries.
pub open spec fn last_text(es: Seq<(Seq<char>, ScalarView)>, key: Seq<char>) -> Option<Seq<char>>
    decreases es.len(),
{
    if es.len() == 0 {
        None
    } else if es.last().0 == key && es.last().1 is Text {
        Some(es.last().1->Text_0)
    } else {
        last_text(es.drop_last(), key)
    }
}

/// The colour a theme file's text gives to `key`: its text value in the
/// file, else the fallback. Without a readable TOML file, only fallbacks.
pub open spec fn spec_theme_color(content: Option<Seq<char>>, key: Seq<char>) -> Option<Seq<char>> {
    let from_file = match content {
        Some(c) => match toml_entries(c) {
            Some(es) => last_text(es, key),
            None => None,
        },
        None => None,
    };
    match from_file {
        Some(v) => Some(v),
        None => fallback_color(key),
    }
}

impl ColorTable {
    pub open spec fn color(&self, key: Seq<char>) -> Option<Seq<char>> {
        last_value(self.entries@, key)
    }

    pub fn new() -> (r: Self)
        ensures
            forall|k: Seq<char>| r.color(k) is None,
    {
        ColorTable { entries: Vec::new() }
    }

    pub fn insert(&mut self, key: String, value: String)
        ensures
            forall|k: Seq<char>| #[trigger] final(self).color(k) == if k == key@ {
                Some(value@)
            } else {
                old(self).color(k)
            },
    {
        let ghost kv = key@;
        let ghost vv = value@;
        self.entries.push((key, value));
        assert forall|k: Seq<char>| #[trigger] self.color(k) == if k == kv {
            Some(vv)
        } else {
            old(self).color(k)
        } by {
            assert(self.entries@.drop_last() =~= old(self).entries@);
        }
    }

    pub fn get(&self, key: &str) -> (r: Option<&str>)
        ensures
            match r {
                Some(v) => self.color(key@) == Some(v@),
                None => self.color(key@) is None,
            },
    {
        let k = chars_of(key);
        let mut i: usize = self.entries.len();
        assert(self.entries@.subrange(0, i as int) =~= self.entries@);
        while i > 0
            invariant
                i <= self.entries.len(),
                k@ == key@,
                self.color(key@) == last_value(self.entries@.subrange(0, i as int), key@),
            decreases i,
        {
            let ghost pre = self.entries@.subrange(0, i as int);
            assert(pre.drop_last() =~= self.entries@.subrange(0, i - 1));
            if crate::text::eq_chars(&k, self.entries[i - 1].0.as_str()) {
                return Some(self.entries[i - 1].1.as_str());
            }
            i = i - 1;
        }
        None
    }
}

fn insert_str(t: &mut ColorTable, key: &str, value: &str)
    ensures
        forall|k: Seq<char>| #[trigger] final(t).color(k) == if k == key@ {
            Some(value@)
        } else {
            old(t).color(k)
        },
{
    t.insert(key.to_owned(), value.to_owned());
}

/// The theme colours: the fallbacks, overridden by every text value of the
/// colour file's text `content` (`None` when the file could not be read).
pub fn parse_colors(content: Option<&str>) -> (r: ColorTable)
    ensures
        forall|k: Seq<char>| #[trigger] r.color(k) == spec_theme_color(
            match content {
                Some(c) => Some(c@),
                None => None,
            },
            k,
        ),
{
    let mut colors = ColorTable::new();
    insert_str(&mut colors, "accent", FALLBACK_ACCENT);
    insert_str(&mut colors, "foreground", FALLBACK_FG);
    insert_str(&mut colors, "background", FALLBACK_BG);
    insert_str(&mut colors, "selection_bg", FALLBACK_SEL_BG);
    insert_str(&mut colors, "color0", FALLBACK_SURFACE);
    proof {
        reveal_strlit("accent");
        reveal_strlit("foreground");
        reveal_strlit("background");
        reveal_strlit("selection_bg");
        reveal_strlit("color0");
        assert("accent"@.len() == 6 && "color0"@.len() == 6 && "foreground"@.len() == 10);
        assert("background"@.len() == 10 && "selection_bg"@.len() == 12);
        assert("accent"@[0] != "color0"@[0]);
        assert("foreground"@[0] != "background"@[0]);
        assert forall|k: Seq<char>| #[trigger] colors.color(k) == fallback_color(k) by {
            if k == "accent"@ {
                assert(k != "foreground"@ && k != "background"@ && k != "selection_bg"@ && k != "color0"@);
            } else if k == "foreground"@ {
                assert(k != "background"@ && k != "selection_bg"@ && k != "color0"@);
            } else if k == "background"@ {
                assert(k != "selection_bg"@ && k != "color0"@);
            } else if k == "selection_bg"@ {
                assert(k != "color0"@);
            }
        }
    }
    let parsed = match content {
        Some(c) => parse_toml(c),
        None => None,
    };
    match parsed {
        None => {},
        Some(entries) => {
            let ghost es = entries_view(entries@);
            let mut i: usize = 0;
            while i < entries.len()
                invariant
                    0 <= i <= entries.len(),
                    es == entries_view(entries@),
                    forall|k: Seq<char>| #[trigger] colors.color(k) == match last_text(es.take(i as int), k) {
                        Some(v) => Some(v),
                        None => fallback_color(k),
                    },
                decreases entries.len() - i,
            {
                assert(es.take(i + 1).drop_last() =~= es.take(i as int));
                assert(es.take(i + 1).last() == entries@[i as int]@);
                match &entries[i].value {
                    TomlScalar::Text(s) => {
                        colors.insert(entries[i].key.clone(), s.clone());
                    },
                    _ => {},
                }
                i = i + 1;
            }
            assert(es.take(entries.len() as int) =~= es);
        },
    }
    colors
}

fn color_or<'a>(colors: &'a ColorTable, key: &str, fallback: &'static str) -> (r: &'a str)
    ensures
        r@ == match colors.color(key@) {
            Some(v) => v,
            None => fallback@,
        },
{
    match colors.get(key) {
        Some(v) => v,
        None => fallback,
    }
}

/// The foreground colour as RGBA.
pub fn foreground_rgba(colors: &ColorTable) -> (r: [u8; 4])
    ensures
        r@ == spec_hex_rgba(match colors.color("foreground"@) {
            Some(v) => v,
            None => FALLBACK_FG@,
        }),
{
    hex_rgba(color_or(colors, "foreground", FALLBACK_FG))
}

/// The stylesheet with the theme's background, foreground, accent, surface
/// and selection colours filled in.
pub open spec fn css_text(bg: Seq<char>, fg: Seq<char>, accent: Seq<char>, surface: Seq<char>, sel_bg: Seq<char>) -> Seq<char> {
    "\n    window {\n        background-color: "@
        + bg
        + ";\n        color: "@
        + fg
        + ";\n    }\n\n    .toolbar {\n        background-color: "@
        + bg
        + ";\n        border-bottom: 1px solid alpha("@
        + fg
        + ", 0.08);\n        padding: 8px 14px;\n        min-height: 0;\n    }\n\n    .toolbar-copy {\n        margin-right: 16px;\n    }\n\n    .toolbar-identity {\n        color: "@
        + fg
        + ";\n        font-weight: 500;\n        font-size: 0.95em;\n        letter-spacing: -0.01em;\n    }\n\n    .toolbar-meta {\n        color: alpha("@
        + fg
        + ", 0.45);\n        font-size: 0.75em;\n        letter-spacing: 0.02em;\n    }\n\n    .toolbar-tools {\n        margin-left: 4px;\n    }\n\n    .grid-item {\n        border: 2px solid transparent;\n        border-radius: 4px;\n        padding: 4px;\n    }\n\n    .grid-item:selected,\n    .grid-item.selected {\n        border-color: "@
        + accent
        + ";\n        background-color: alpha("@
        + accent
        + ", 0.1);\n    }\n\n    .filmstrip {\n        background-color: "@
        + surface
        + ";\n        border-top: 1px solid "@
        + sel_bg
        + ";\n        padding: 6px 8px;\n        min-height: 80px;\n    }\n\n    .filmstrip-item {\n        opacity: 0.5;\n        border: 2px solid transparent;\n        border-radius: 3px;\n    }\n\n    .filmstrip-current {\n        opacity: 1.0;\n        border-color: "@
        + accent
        + ";\n    }\n\n    .info-panel {\n        background-color: "@
        + surface
        + ";\n        border-left: 1px solid "@
        + sel_bg
        + ";\n        padding: 12px;\n    }\n\n    .info-label {\n        color: alpha("@
        + fg
        + ", 0.6);\n        font-size: 0.85em;\n    }\n\n    .info-value {\n        color: "@
        + fg
        + ";\n    }\n\n    .status-text {\n        color: alpha("@
        + fg
        + ", 0.6);\n        font-size: 0.9em;\n    }\n\n    .sort-menu checkbutton {\n        padding: 4px 10px;\n    }\n\n    .empty-state {\n        color: alpha("@
        + fg
        + ", 0.4);\n        font-size: 1.2em;\n    }\n\n    .single-image.nearest {\n        image-rendering: pixelated;\n        image-rendering: crisp-edges;\n    }\n\n    button.pixel-btn,\n    menubutton.pixel-btn > button {\n        min-width: 32px;\n        min-height: 32px;\n        padding: 4px;\n        border: none;\n        border-radius: 4px;\n        background: transparent;\n        background-image: none;\n        box-shadow: none;\n        outline: none;\n        color: "@
        + fg
        + ";\n    }\n\n    menubutton.pixel-btn {\n        min-width: 32px;\n        min-height: 32px;\n        padding: 0;\n        border: none;\n        background: transparent;\n        box-shadow: none;\n    }\n\n    button.pixel-btn:hover,\n    menubutton.pixel-btn > button:hover {\n        background: alpha("@
        + fg
        + ", 0.08);\n        background-image: none;\n        box-shadow: none;\n    }\n\n    button.pixel-btn:active,\n    menubutton.pixel-btn > button:active,\n    menubutton.pixel-btn > button:checked {\n        background: alpha("@
        + fg
        + ", 0.12);\n        background-image: none;\n        box-shadow: none;\n    }\n\n    button.pixel-btn:focus,\n    button.pixel-btn:focus-visible,\n    menubutton.pixel-btn > button:focus,\n    menubutton.pixel-btn > button:focus-visible {\n        outline: 1px solid "@
        + accent
        + ";\n        outline-offset: 0;\n        box-shadow: none;\n    }\n    "@
}

pub open spec fn color_or_fallback(colors: ColorTable, key: Seq<char>, fallback: Seq<char>) -> Seq<char> {
    match colors.color(key) {
        Some(v) => v,
        None => fallback,
    }
}

pub fn generate_css(colors: &ColorTable) -> (r: String)
    ensures
        r@ == css_text(
            color_or_fallback(*colors, "background"@, FALLBACK_BG@),
            color_or_fallback(*colors, "foreground"@, FALLBACK_FG@),
            color_or_fallback(*colors, "accent"@, FALLBACK_ACCENT@),
            color_or_fallback(*colors, "color0"@, FALLBACK_SURFACE@),
            color_or_fallback(*colors, "selection_bg"@, FALLBACK_SEL_BG@),
        ),
{
    let bg = color_or(colors, "background", FALLBACK_BG);
    let fg = color_or(colors, "foreground", FALLBACK_FG);
    let accent = color_or(colors, "accent", FALLBACK_ACCENT);
    let surface = color_or(colors, "color0", FALLBACK_SURFACE);
    let sel_bg = color_or(colors, "selection_bg", FALLBACK_SEL_BG);
    let mut css = String::new();
    css.append("\n    window {\n        background-color: ");
    css.append(bg);
    css.append(";\n        color: ");
    css.append(fg);
    css.append(";\n    }\n\n    .toolbar {\n        background-color: ");
    css.append(bg);
    css.append(";\n        border-bottom: 1px solid alpha(");
    css.append(fg);
    css.append(", 0.08);\n        padding: 8px 14px;\n        min-height: 0;\n    }\n\n    .toolbar-copy {\n        margin-right: 16px;\n    }\n\n    .toolbar-identity {\n        color: ");
    css.append(fg);
    css.append(";\n        font-weight: 500;\n        font-size: 0.95em;\n        letter-spacing: -0.01em;\n    }\n\n    .toolbar-meta {\n        color: alpha(");
    css.append(fg);
    css.append(", 0.45);\n        font-size: 0.75em;\n        letter-spacing: 0.02em;\n    }\n\n    .toolbar-tools {\n        margin-left: 4px;\n    }\n\n    .grid-item {\n        border: 2px solid transparent;\n        border-radius: 4px;\n        padding: 4px;\n    }\n\n    .grid-item:selected,\n    .grid-item.selected {\n        border-color: ");
    css.append(accent);
    css.append(";\n        background-color: alpha(");
    css.append(accent);
    css.append(", 0.1);\n    }\n\n    .filmstrip {\n        background-color: ");
    css.append(surface);
    css.append(";\n        border-top: 1px solid ");
    css.append(sel_bg);
    css.append(";\n        padding: 6px 8px;\n        min-height: 80px;\n    }\n\n    .filmstrip-item {\n        opacity: 0.5;\n        border: 2px solid transparent;\n        border-radius: 3px;\n    }\n\n    .filmstrip-current {\n        opacity: 1.0;\n        border-color: ");
    css.append(accent);
    css.append(";\n    }\n\n    .info-panel {\n        background-color: ");
    css.append(surface);
    css.append(";\n        border-left: 1px solid ");
    css.append(sel_bg);
    css.append(";\n        padding: 12px;\n    }\n\n    .info-label {\n        color: alpha(");
    css.append(fg);
    css.append(", 0.6);\n        font-size: 0.85em;\n    }\n\n    .info-value {\n        color: ");
    css.append(fg);
    css.append(";\n    }\n\n    .status-text {\n        color: alpha(");
    css.append(fg);
    css.append(", 0.6);\n        font-size: 0.9em;\n    }\n\n    .sort-menu checkbutton {\n        padding: 4px 10px;\n    }\n\n    .empty-state {\n        color: alpha(");
    css.append(fg);
    css.append(", 0.4);\n        font-size: 1.2em;\n    }\n\n    .single-image.nearest {\n        image-rendering: pixelated;\n        image-rendering: crisp-edges;\n    }\n\n    button.pixel-btn,\n    menubutton.pixel-btn > button {\n        min-width: 32px;\n        min-height: 32px;\n        padding: 4px;\n        border: none;\n        border-radius: 4px;\n        background: transparent;\n        background-image: none;\n        box-shadow: none;\n        outline: none;\n        color: ");
    css.append(fg);
    css.append(";\n    }\n\n    menubutton.pixel-btn {\n        min-width: 32px;\n        min-height: 32px;\n        padding: 0;\n        border: none;\n        background: transparent;\n        box-shadow: none;\n    }\n\n    button.pixel-btn:hover,\n    menubutton.pixel-btn > button:hover {\n        background: alpha(");
    css.append(fg);
    css.append(", 0.08);\n        background-image: none;\n        box-shadow: none;\n    }\n\n    button.pixel-btn:active,\n    menubutton.pixel-btn > button:active,\n    menubutton.pixel-btn > button:checked {\n        background: alpha(");
    css.append(fg);
    css.append(", 0.12);\n        background-image: none;\n        box-shadow: none;\n    }\n\n    button.pixel-btn:focus,\n    button.pixel-btn:focus-visible,\n    menubutton.pixel-btn > button:focus,\n    menubutton.pixel-btn > button:focus-visible {\n        outline: 1px solid ");
    css.append(accent);
    css.append(";\n        outline-offset: 0;\n        box-shadow: none;\n    }\n    ");
    css
}


/// The colour the theme gives to `key`, or `fallback`.
pub open spec fn theme_color_or(content: Option<Seq<char>>, key: Seq<char>, fallback: Seq<char>) -> Seq<char> {
    match spec_theme_color(content, key) {
        Some(v) => v,
        None => fallback,
    }
}

/// The stylesheet for the colour file's text `content` (`None` when the
/// file could not be read).
pub fn load_theme(content: Option<&str>) -> (r: String)
    ensures
        ({
            let c = match content {
                Some(t) => Some(t@),
                None => None,
            };
            r@ == css_text(
                theme_color_or(c, "background"@, FALLBACK_BG@),
                theme_color_or(c, "foreground"@, FALLBACK_FG@),
                theme_color_or(c, "accent"@, FALLBACK_ACCENT@),
                theme_color_or(c, "color0"@, FALLBACK_SURFACE@),
                theme_color_or(c, "selection_bg"@, FALLBACK_SEL_BG@),
            )
        }),
{
    let colors = parse_colors(content);
    generate_css(&colors)
}

/// The foreground colour as RGBA for the colour file's text `content`
/// (`None` when the file could not be read): the file's `foreground` text,
/// else `#CECDC3`. It is always opaque.
pub fn theme_foreground(content: Option<&str>) -> (r: [u8; 4])
    ensures
        ({
            let c = match content {
                Some(t) => Some(t@),
                None => None,
            };
            r@ == spec_hex_rgba(theme_color_or(c, "foreground"@, FALLBACK_FG@))
        }),
        r[3] == 255,
{
    let colors = parse_colors(content);
    let r = foreground_rgba(&colors);
    proof {
        let c = match content {
            Some(t) => Some(t@),
            None => None,
        };
        assert(colors.color("foreground"@) == spec_theme_color(c, "foreground"@));
        assert(r@[3] == 255);
    }
    r
}

/// Without a colour file, or with one that is not TOML, every colour of the
/// theme is its fallback.
pub proof fn law_unreadable_theme_falls_back(content: Option<Seq<char>>, key: Seq<char>)
    requires
        content matches Some(t) ==> toml_entries(t) is None,
    ensures
        spec_theme_color(content, key) == fallback_color(key),
{
}

/// `t` stands in `s` starting at index `i`.
pub open spec fn contains_at(s: Seq<char>, t: Seq<char>, i: int) -> bool {
    0 <= i && i + t.len() <= s.len() && s.subrange(i, i + t.len()) == t
}

/// The current filmstrip item is outlined in the accent colour, whatever
/// the other colours are.
pub proof fn law_current_item_in_accent(bg: Seq<char>, fg: Seq<char>, accent: Seq<char>, surface: Seq<char>, sel_bg: Seq<char>)
    ensures
        exists|i: int| #[trigger] contains_at(css_text(bg, fg, accent, surface, sel_bg), ".filmstrip-current {\n        opacity: 1.0;\n        border-color: "@ + accent + ";\n    }"@, i),
{
    reveal_strlit(";\n        padding: 6px 8px;\n        min-height: 80px;\n    }\n\n    .filmstrip-item {\n        opacity: 0.5;\n        border: 2px solid transparent;\n        border-radius: 3px;\n    }\n\n    .filmstrip-current {\n        opacity: 1.0;\n        border-color: ");
    reveal_strlit(";\n        padding: 6px 8px;\n        min-height: 80px;\n    }\n\n    .filmstrip-item {\n        opacity: 0.5;\n        border: 2px solid transparent;\n        border-radius: 3px;\n    }\n\n    ");
    reveal_strlit(".filmstrip-current {\n        opacity: 1.0;\n        border-color: ");
    reveal_strlit(";\n    }\n\n    .info-panel {\n        background-color: ");
    reveal_strlit(";\n    }");
    let css = css_text(bg, fg, accent, surface, sel_bg);
    let pre = ((((((((((((((((((("\n    window {\n        background-color: "@ + bg) + ";\n        color: "@) + fg) + ";\n    }\n\n    .toolbar {\n        background-color: "@) + bg) + ";\n        border-bottom: 1px solid alpha("@) + fg) + ", 0.08);\n        padding: 8px 14px;\n        min-height: 0;\n    }\n\n    .toolbar-copy {\n        margin-right: 16px;\n    }\n\n    .toolbar-identity {\n        color: "@) + fg) + ";\n        font-weight: 500;\n        font-size: 0.95em;\n        letter-spacing: -0.01em;\n    }\n\n    .toolbar-meta {\n        color: alpha("@) + fg) + ", 0.45);\n        font-size: 0.75em;\n        letter-spacing: 0.02em;\n    }\n\n    .toolbar-tools {\n        margin-left: 4px;\n    }\n\n    .grid-item {\n        border: 2px solid transparent;\n        border-radius: 4px;\n        padding: 4px;\n    }\n\n    .grid-item:selected,\n    .grid-item.selected {\n        border-color: "@) + accent) + ";\n        background-color: alpha("@) + accent) + ", 0.1);\n    }\n\n    .filmstrip {\n        background-color: "@) + surface) + ";\n        border-top: 1px solid "@) + sel_bg);
    let q = (((((((((((((((((((((("\n    window {\n        background-color: "@ + bg) + ";\n        color: "@) + fg) + ";\n    }\n\n    .toolbar {\n        background-color: "@) + bg) + ";\n        border-bottom: 1px solid alpha("@) + fg) + ", 0.08);\n        padding: 8px 14px;\n        min-height: 0;\n    }\n\n    .toolbar-copy {\n        margin-right: 16px;\n    }\n\n    .toolbar-identity {\n        color: "@) + fg) + ";\n        font-weight: 500;\n        font-size: 0.95em;\n        letter-spacing: -0.01em;\n    }\n\n    .toolbar-meta {\n        color: alpha("@) + fg) + ", 0.45);\n        font-size: 0.75em;\n        letter-spacing: 0.02em;\n    }\n\n    .toolbar-tools {\n        margin-left: 4px;\n    }\n\n    .grid-item {\n        border: 2px solid transparent;\n        border-radius: 4px;\n        padding: 4px;\n    }\n\n    .grid-item:selected,\n    .grid-item.selected {\n        border-color: "@) + accent) + ";\n        background-color: alpha("@) + accent) + ", 0.1);\n    }\n\n    .filmstrip {\n        background-color: "@) + surface) + ";\n        border-top: 1px solid "@) + sel_bg) + ";\n        padding: 6px 8px;\n        min-height: 80px;\n    }\n\n    .filmstrip-item {\n        opacity: 0.5;\n        border: 2px solid transparent;\n        border-radius: 3px;\n    }\n\n    .filmstrip-current {\n        opacity: 1.0;\n        border-color: "@) + accent) + ";\n    }\n\n    .info-panel {\n        background-color: "@);
    assert(";\n        padding: 6px 8px;\n        min-height: 80px;\n    }\n\n    .filmstrip-item {\n        opacity: 0.5;\n        border: 2px solid transparent;\n        border-radius: 3px;\n    }\n\n    .filmstrip-current {\n        opacity: 1.0;\n        border-color: "@ =~= ";\n        padding: 6px 8px;\n        min-height: 80px;\n    }\n\n    .filmstrip-item {\n        opacity: 0.5;\n        border: 2px solid transparent;\n        border-radius: 3px;\n    }\n\n    "@ + ".filmstrip-current {\n        opacity: 1.0;\n        border-color: "@);
    assert(css.subrange(0, q.len() as int) =~= q);
    let rule = ".filmstrip-current {\n        opacity: 1.0;\n        border-color: "@ + accent + ";\n    }"@;
    let i: int = (pre.len() + ";\n        padding: 6px 8px;\n        min-height: 80px;\n    }\n\n    .filmstrip-item {\n        opacity: 0.5;\n        border: 2px solid transparent;\n        border-radius: 3px;\n    }\n\n    "@.len()) as int;
    assert(q.subrange(i, i + rule.len() as int) =~= rule);
    assert(css.subrange(i, i + rule.len() as int) =~= rule);
    assert(contains_at(css, rule, i));
}


/// The selected grid item is bordered in the accent colour.
pub proof fn law_selected_grid_item_in_accent(bg: Seq<char>, fg: Seq<char>, accent: Seq<char>, surface: Seq<char>, sel_bg: Seq<char>)
    ensures
        exists|i: int| #[trigger] contains_at(css_text(bg, fg, accent, surface, sel_bg), ".grid-item.selected {\n        border-color: "@ + accent + ";"@, i),
{
    reveal_strlit(", 0.45);\n        font-size: 0.75em;\n        letter-spacing: 0.02em;\n    }\n\n    .toolbar-tools {\n        margin-left: 4px;\n    }\n\n    .grid-item {\n        border: 2px solid transparent;\n        border-radius: 4px;\n        padding: 4px;\n    }\n\n    .grid-item:selected,\n    .grid-item.selected {\n        border-color: ");
    reveal_strlit(", 0.45);\n        font-size: 0.75em;\n        letter-spacing: 0.02em;\n    }\n\n    .toolbar-tools {\n        margin-left: 4px;\n    }\n\n    .grid-item {\n        border: 2px solid transparent;\n        border-radius: 4px;\n        padding: 4px;\n    }\n\n    .grid-item:selected,\n    ");
    reveal_strlit(".grid-item.selected {\n        border-color: ");
    reveal_strlit(";\n        background-color: alpha(");
    reveal_strlit(";");
    let css = css_text(bg, fg, accent, surface, sel_bg);
    let pre = ((((((((((("\n    window {\n        background-color: "@ + bg) + ";\n        color: "@) + fg) + ";\n    }\n\n    .toolbar {\n        background-color: "@) + bg) + ";\n        border-bottom: 1px solid alpha("@) + fg) + ", 0.08);\n        padding: 8px 14px;\n        min-height: 0;\n    }\n\n    .toolbar-copy {\n        margin-right: 16px;\n    }\n\n    .toolbar-identity {\n        color: "@) + fg) + ";\n        font-weight: 500;\n        font-size: 0.95em;\n        letter-spacing: -0.01em;\n    }\n\n    .toolbar-meta {\n        color: alpha("@) + fg);
    let q = (((((((((((((("\n    window {\n        background-color: "@ + bg) + ";\n        color: "@) + fg) + ";\n    }\n\n    .toolbar {\n        background-color: "@) + bg) + ";\n        border-bottom: 1px solid alpha("@) + fg) + ", 0.08);\n        padding: 8px 14px;\n        min-height: 0;\n    }\n\n    .toolbar-copy {\n        margin-right: 16px;\n    }\n\n    .toolbar-identity {\n        color: "@) + fg) + ";\n        font-weight: 500;\n        font-size: 0.95em;\n        letter-spacing: -0.01em;\n    }\n\n    .toolbar-meta {\n        color: alpha("@) + fg) + ", 0.45);\n        font-size: 0.75em;\n        letter-spacing: 0.02em;\n    }\n\n    .toolbar-tools {\n        margin-left: 4px;\n    }\n\n    .grid-item {\n        border: 2px solid transparent;\n        border-radius: 4px;\n        padding: 4px;\n    }\n\n    .grid-item:selected,\n    .grid-item.selected {\n        border-color: "@) + accent) + ";\n        background-color: alpha("@);
    assert(", 0.45);\n        font-size: 0.75em;\n        letter-spacing: 0.02em;\n    }\n\n    .toolbar-tools {\n        margin-left: 4px;\n    }\n\n    .grid-item {\n        border: 2px solid transparent;\n        border-radius: 4px;\n        padding: 4px;\n    }\n\n    .grid-item:selected,\n    .grid-item.selected {\n        border-color: "@ =~= ", 0.45);\n        font-size: 0.75em;\n        letter-spacing: 0.02em;\n    }\n\n    .toolbar-tools {\n        margin-left: 4px;\n    }\n\n    .grid-item {\n        border: 2px solid transparent;\n        border-radius: 4px;\n        padding: 4px;\n    }\n\n    .grid-item:selected,\n    "@ + ".grid-item.selected {\n        border-color: "@);
    assert(css.subrange(0, q.len() as int) =~= q);
    let rule = ".grid-item.selected {\n        border-color: "@ + accent + ";"@;
    let i: int = (pre.len() + ", 0.45);\n        font-size: 0.75em;\n        letter-spacing: 0.02em;\n    }\n\n    .toolbar-tools {\n        margin-left: 4px;\n    }\n\n    .grid-item {\n        border: 2px solid transparent;\n        border-radius: 4px;\n        padding: 4px;\n    }\n\n    .grid-item:selected,\n    "@.len()) as int;
    assert(q.subrange(i, i + rule.len() as int) =~= rule);
    assert(css.subrange(i, i + rule.len() as int) =~= rule);
    assert(contains_at(css, rule, i));
}

/// A focused toolbar button is outlined in the accent colour.
pub proof fn law_focus_outline_in_accent(bg: Seq<char>, fg: Seq<char>, accent: Seq<char>, surface: Seq<char>, sel_bg: Seq<char>)
    ensures
        exists|i: int| #[trigger] contains_at(css_text(bg, fg, accent, surface, sel_bg), "outline: 1px solid "@ + accent + ";"@, i),
{
    reveal_strlit(", 0.12);\n        background-image: none;\n        box-shadow: none;\n    }\n\n    button.pixel-btn:focus,\n    button.pixel-btn:focus-visible,\n    menubutton.pixel-btn > button:focus,\n    menubutton.pixel-btn > button:focus-visible {\n        outline: 1px solid ");
    reveal_strlit(", 0.12);\n        background-image: none;\n        box-shadow: none;\n    }\n\n    button.pixel-btn:focus,\n    button.pixel-btn:focus-visible,\n    menubutton.pixel-btn > button:focus,\n    menubutton.pixel-btn > button:focus-visible {\n        ");
    reveal_strlit("outline: 1px solid ");
    reveal_strlit(";\n        outline-offset: 0;\n        box-shadow: none;\n    }\n    ");
    reveal_strlit(";");
    let css = css_text(bg, fg, accent, surface, sel_bg);
    let pre = ((((((((((((((((((((((((((((((((((((((("\n    window {\n        background-color: "@ + bg) + ";\n        color: "@) + fg) + ";\n    }\n\n    .toolbar {\n        background-color: "@) + bg) + ";\n        border-bottom: 1px solid alpha("@) + fg) + ", 0.08);\n        padding: 8px 14px;\n        min-height: 0;\n    }\n\n    .toolbar-copy {\n        margin-right: 16px;\n    }\n\n    .toolbar-identity {\n        color: "@) + fg) + ";\n        font-weight: 500;\n        font-size: 0.95em;\n        letter-spacing: -0.01em;\n    }\n\n    .toolbar-meta {\n        color: alpha("@) + fg) + ", 0.45);\n        font-size: 0.75em;\n        letter-spacing: 0.02em;\n    }\n\n    .toolbar-tools {\n        margin-left: 4px;\n    }\n\n    .grid-item {\n        border: 2px solid transparent;\n        border-radius: 4px;\n        padding: 4px;\n    }\n\n    .grid-item:selected,\n    .grid-item.selected {\n        border-color: "@) + accent) + ";\n        background-color: alpha("@) + accent) + ", 0.1);\n    }\n\n    .filmstrip {\n        background-color: "@) + surface) + ";\n        border-top: 1px solid "@) + sel_bg) + ";\n        padding: 6px 8px;\n        min-height: 80px;\n    }\n\n    .filmstrip-item {\n        opacity: 0.5;\n        border: 2px solid transparent;\n        border-radius: 3px;\n    }\n\n    .filmstrip-current {\n        opacity: 1.0;\n        border-color: "@) + accent) + ";\n    }\n\n    .info-panel {\n        background-color: "@) + surface) + ";\n        border-left: 1px solid "@) + sel_bg) + ";\n        padding: 12px;\n    }\n\n    .info-label {\n        color: alpha("@) + fg) + ", 0.6);\n        font-size: 0.85em;\n    }\n\n    .info-value {\n        color: "@) + fg) + ";\n    }\n\n    .status-text {\n        color: alpha("@) + fg) + ", 0.6);\n        font-size: 0.9em;\n    }\n\n    .sort-menu checkbutton {\n        padding: 4px 10px;\n    }\n\n    .empty-state {\n        color: alpha("@) + fg) + ", 0.4);\n        font-size: 1.2em;\n    }\n\n    .single-image.nearest {\n        image-rendering: pixelated;\n        image-rendering: crisp-edges;\n    }\n\n    button.pixel-btn,\n    menubutton.pixel-btn > button {\n        min-width: 32px;\n        min-height: 32px;\n        padding: 4px;\n        border: none;\n        border-radius: 4px;\n        background: transparent;\n        background-image: none;\n        box-shadow: none;\n        outline: none;\n        color: "@) + fg) + ";\n    }\n\n    menubutton.pixel-btn {\n        min-width: 32px;\n        min-height: 32px;\n        padding: 0;\n        border: none;\n        background: transparent;\n        box-shadow: none;\n    }\n\n    button.pixel-btn:hover,\n    menubutton.pixel-btn > button:hover {\n        background: alpha("@) + fg) + ", 0.08);\n        background-image: none;\n        box-shadow: none;\n    }\n\n    button.pixel-btn:active,\n    menubutton.pixel-btn > button:active,\n    menubutton.pixel-btn > button:checked {\n        background: alpha("@) + fg);
    let q = (((((((((((((((((((((((((((((((((((((((((("\n    window {\n        background-color: "@ + bg) + ";\n        color: "@) + fg) + ";\n    }\n\n    .toolbar {\n        background-color: "@) + bg) + ";\n        border-bottom: 1px solid alpha("@) + fg) + ", 0.08);\n        padding: 8px 14px;\n        min-height: 0;\n    }\n\n    .toolbar-copy {\n        margin-right: 16px;\n    }\n\n    .toolbar-identity {\n        color: "@) + fg) + ";\n        font-weight: 500;\n        font-size: 0.95em;\n        letter-spacing: -0.01em;\n    }\n\n    .toolbar-meta {\n        color: alpha("@) + fg) + ", 0.45);\n        font-size: 0.75em;\n        letter-spacing: 0.02em;\n    }\n\n    .toolbar-tools {\n        margin-left: 4px;\n    }\n\n    .grid-item {\n        border: 2px solid transparent;\n        border-radius: 4px;\n        padding: 4px;\n    }\n\n    .grid-item:selected,\n    .grid-item.selected {\n        border-color: "@) + accent) + ";\n        background-color: alpha("@) + accent) + ", 0.1);\n    }\n\n    .filmstrip {\n        background-color: "@) + surface) + ";\n        border-top: 1px solid "@) + sel_bg) + ";\n        padding: 6px 8px;\n        min-height: 80px;\n    }\n\n    .filmstrip-item {\n        opacity: 0.5;\n        border: 2px solid transparent;\n        border-radius: 3px;\n    }\n\n    .filmstrip-current {\n        opacity: 1.0;\n        border-color: "@) + accent) + ";\n    }\n\n    .info-panel {\n        background-color: "@) + surface) + ";\n        border-left: 1px solid "@) + sel_bg) + ";\n        padding: 12px;\n    }\n\n    .info-label {\n        color: alpha("@) + fg) + ", 0.6);\n        font-size: 0.85em;\n    }\n\n    .info-value {\n        color: "@) + fg) + ";\n    }\n\n    .status-text {\n        color: alpha("@) + fg) + ", 0.6);\n        font-size: 0.9em;\n    }\n\n    .sort-menu checkbutton {\n        padding: 4px 10px;\n    }\n\n    .empty-state {\n        color: alpha("@) + fg) + ", 0.4);\n        font-size: 1.2em;\n    }\n\n    .single-image.nearest {\n        image-rendering: pixelated;\n        image-rendering: crisp-edges;\n    }\n\n    button.pixel-btn,\n    menubutton.pixel-btn > button {\n        min-width: 32px;\n        min-height: 32px;\n        padding: 4px;\n        border: none;\n        border-radius: 4px;\n        background: transparent;\n        background-image: none;\n        box-shadow: none;\n        outline: none;\n        color: "@) + fg) + ";\n    }\n\n    menubutton.pixel-btn {\n        min-width: 32px;\n        min-height: 32px;\n        padding: 0;\n        border: none;\n        background: transparent;\n        box-shadow: none;\n    }\n\n    button.pixel-btn:hover,\n    menubutton.pixel-btn > button:hover {\n        background: alpha("@) + fg) + ", 0.08);\n        background-image: none;\n        box-shadow: none;\n    }\n\n    button.pixel-btn:active,\n    menubutton.pixel-btn > button:active,\n    menubutton.pixel-btn > button:checked {\n        background: alpha("@) + fg) + ", 0.12);\n        background-image: none;\n        box-shadow: none;\n    }\n\n    button.pixel-btn:focus,\n    button.pixel-btn:focus-visible,\n    menubutton.pixel-btn > button:focus,\n    menubutton.pixel-btn > button:focus-visible {\n        outline: 1px solid "@) + accent) + ";\n        outline-offset: 0;\n        box-shadow: none;\n    }\n    "@);
    assert(", 0.12);\n        background-image: none;\n        box-shadow: none;\n    }\n\n    button.pixel-btn:focus,\n    button.pixel-btn:focus-visible,\n    menubutton.pixel-btn > button:focus,\n    menubutton.pixel-btn > button:focus-visible {\n        outline: 1px solid "@ =~= ", 0.12);\n        background-image: none;\n        box-shadow: none;\n    }\n\n    button.pixel-btn:focus,\n    button.pixel-btn:focus-visible,\n    menubutton.pixel-btn > button:focus,\n    menubutton.pixel-btn > button:focus-visible {\n        "@ + "outline: 1px solid "@);
    assert(css.subrange(0, q.len() as int) =~= q);
    let rule = "outline: 1px solid "@ + accent + ";"@;
    let i: int = (pre.len() + ", 0.12);\n        background-image: none;\n        box-shadow: none;\n    }\n\n    button.pixel-btn:focus,\n    button.pixel-btn:focus-visible,\n    menubutton.pixel-btn > button:focus,\n    menubutton.pixel-btn > button:focus-visible {\n        "@.len()) as int;
    assert(q.subrange(i, i + rule.len() as int) =~= rule);
    assert(css.subrange(i, i + rule.len() as int) =~= rule);
    assert(contains_at(css, rule, i));
}

/// The filmstrip's top edge is drawn in the selection background colour.
pub proof fn law_filmstrip_edge_in_selection_colour(bg: Seq<char>, fg: Seq<char>, accent: Seq<char>, surface: Seq<char>, sel_bg: Seq<char>)
    ensures
        exists|i: int| #[trigger] contains_at(css_text(bg, fg, accent, surface, sel_bg), "border-top: 1px solid "@ + sel_bg + ";"@, i),
{
    reveal_strlit(";\n        border-top: 1px solid ");
    reveal_strlit(";\n        ");
    reveal_strlit("border-top: 1px solid ");
    reveal_strlit(";\n        padding: 6px 8px;\n        min-height: 80px;\n    }\n\n    .filmstrip-item {\n        opacity: 0.5;\n        border: 2px solid transparent;\n        border-radius: 3px;\n    }\n\n    .filmstrip-current {\n        opacity: 1.0;\n        border-color: ");
    reveal_strlit(";");
    let css = css_text(bg, fg, accent, surface, sel_bg);
    let pre = ((((((((((((((((("\n    window {\n        background-color: "@ + bg) + ";\n        color: "@) + fg) + ";\n    }\n\n    .toolbar {\n        background-color: "@) + bg) + ";\n        border-bottom: 1px solid alpha("@) + fg) + ", 0.08);\n        padding: 8px 14px;\n        min-height: 0;\n    }\n\n    .toolbar-copy {\n        margin-right: 16px;\n    }\n\n    .toolbar-identity {\n        color: "@) + fg) + ";\n        font-weight: 500;\n        font-size: 0.95em;\n        letter-spacing: -0.01em;\n    }\n\n    .toolbar-meta {\n        color: alpha("@) + fg) + ", 0.45);\n        font-size: 0.75em;\n        letter-spacing: 0.02em;\n    }\n\n    .toolbar-tools {\n        margin-left: 4px;\n    }\n\n    .grid-item {\n        border: 2px solid transparent;\n        border-radius: 4px;\n        padding: 4px;\n    }\n\n    .grid-item:selected,\n    .grid-item.selected {\n        border-color: "@) + accent) + ";\n        background-color: alpha("@) + accent) + ", 0.1);\n    }\n\n    .filmstrip {\n        background-color: "@) + surface);
    let q = (((((((((((((((((((("\n    window {\n        background-color: "@ + bg) + ";\n        color: "@) + fg) + ";\n    }\n\n    .toolbar {\n        background-color: "@) + bg) + ";\n        border-bottom: 1px solid alpha("@) + fg) + ", 0.08);\n        padding: 8px 14px;\n        min-height: 0;\n    }\n\n    .toolbar-copy {\n        margin-right: 16px;\n    }\n\n    .toolbar-identity {\n        color: "@) + fg) + ";\n        font-weight: 500;\n        font-size: 0.95em;\n        letter-spacing: -0.01em;\n    }\n\n    .toolbar-meta {\n        color: alpha("@) + fg) + ", 0.45);\n        font-size: 0.75em;\n        letter-spacing: 0.02em;\n    }\n\n    .toolbar-tools {\n        margin-left: 4px;\n    }\n\n    .grid-item {\n        border: 2px solid transparent;\n        border-radius: 4px;\n        padding: 4px;\n    }\n\n    .grid-item:selected,\n    .grid-item.selected {\n        border-color: "@) + accent) + ";\n        background-color: alpha("@) + accent) + ", 0.1);\n    }\n\n    .filmstrip {\n        background-color: "@) + surface) + ";\n        border-top: 1px solid "@) + sel_bg) + ";\n        padding: 6px 8px;\n        min-height: 80px;\n    }\n\n    .filmstrip-item {\n        opacity: 0.5;\n        border: 2px solid transparent;\n        border-radius: 3px;\n    }\n\n    .filmstrip-current {\n        opacity: 1.0;\n        border-color: "@);
    assert(";\n        border-top: 1px solid "@ =~= ";\n        "@ + "border-top: 1px solid "@);
    assert(css.subrange(0, q.len() as int) =~= q);
    let rule = "border-top: 1px solid "@ + sel_bg + ";"@;
    let i: int = (pre.len() + ";\n        "@.len()) as int;
    assert(q.subrange(i, i + rule.len() as int) =~= rule);
    assert(css.subrange(i, i + rule.len() as int) =~= rule);
    assert(contains_at(css, rule, i));
}

} // verus!
