//! The texts the toolbar and the window title show.

use vstd::prelude::*;
use crate::app_state::ScaleMode;
use crate::text::push_char;

verus! {

pub open spec fn digit_char(d: int) -> char {
    (48 + d) as char
}

/// Decimal digits of `n`, most significant first, without leading zeros.
pub open spec fn decimal(n: nat) -> Seq<char>
    decreases n,
{
    if n < 10 {
        seq![digit_char(n as int)]
    } else {
        decimal(n / 10).push(digit_char((n % 10) as int))
    }
}

/// Append the decimal digits of `n`.
fn push_decimal(s: &mut String, n: u64)
    ensures
        final(s)@ == old(s)@ + decimal(n as nat),
    decreases n,
{
    if n >= 10 {
        push_decimal(s, n / 10);
    }
    let d: u8 = (n % 10) as u8;
    let c = (48u8 + d) as char;
    push_char(s, c);
    proof {
        assert(c == digit_char((n % 10) as int));
        if n >= 10 {
            assert(decimal(n as nat) == decimal((n / 10) as nat).push(digit_char((n % 10) as int)));
        } else {
            assert(decimal(n as nat) == seq![digit_char(n as int)]);
        }
    }
    assert(final(s)@ =~= old(s)@ + decimal(n as nat));
}

/// The decimal text of `n` (`n.to_string()`).
pub fn decimal_text(n: u64) -> (r: String)
    ensures
        r@ == decimal(n as nat),
{
    let mut s = String::new();
    push_decimal(&mut s, n);
    assert(s@ =~= decimal(n as nat));
    s
}

pub open spec fn str_opt(o: Option<&str>) -> Option<Seq<char>> {
    match o {
        Some(s) => Some(s@),
        None => None,
    }
}

pub open spec fn spec_window_title(name: Option<Seq<char>>, dirty: bool) -> Seq<char> {
    match name {
        Some(s) => if dirty {
            s + " * \u{2014} Image Viewer"@
        } else {
            s + " \u{2014} Image Viewer"@
        },
        None => "Image Viewer"@,
    }
}

/// The window title: the shown file (or folder), marked when it has unsaved
/// edits, then the application's name.
pub fn window_title(name: Option<&str>, dirty: bool) -> (r: String)
    ensures
        r@ == spec_window_title(str_opt(name), dirty),
{
    match name {
        Some(s) => {
            let mut t = String::new();
            t.append(s);
            if dirty {
                t.append(" * \u{2014} Image Viewer");
            } else {
                t.append(" \u{2014} Image Viewer");
            }
            assert(t@ =~= spec_window_title(str_opt(name), dirty));
            t
        },
        None => "Image Viewer".to_owned(),
    }
}

pub open spec fn spec_file_label(name: Option<Seq<char>>, dirty: bool) -> Seq<char> {
    match name {
        Some(s) => if dirty {
            s + " *"@
        } else {
            s
        },
        None => "--"@,
    }
}

/// The toolbar's identity line: the file name, with ` *` while it has unsaved
/// edits; `--` when there is none.
pub fn file_label(name: Option<&str>, dirty: bool) -> (r: String)
    ensures
        r@ == spec_file_label(str_opt(name), dirty),
{
    match name {
        Some(s) => {
            let mut t = s.to_owned();
            if dirty {
                t.append(" *");
            }
            t
        },
        None => "--".to_owned(),
    }
}

/// The toolbar's second line in the grid: how many images the folder holds.
pub fn grid_info(count: usize) -> (r: String)
    ensures
        r@ == decimal(count as nat) + " images"@,
{
    let mut s = decimal_text(count as u64);
    s.append(" images");
    s
}

pub open spec fn spec_single_info(index: nat, count: nat, scale: ScaleMode, secs: nat) -> Seq<char> {
    let position = decimal(index + 1) + " / "@ + decimal(count);
    let with_scale = if scale != ScaleMode::Fit {
        position + "  \u{b7}  "@ + match scale {
            ScaleMode::Fit => "Fit"@,
            ScaleMode::Fill => "Fill"@,
            ScaleMode::Actual => "1:1"@,
        }
    } else {
        position
    };
    if secs > 0 {
        with_scale + "  \u{b7}  "@ + decimal(secs) + "s"@
    } else {
        with_scale
    }
}

/// The toolbar's second line in the single view: the position, the scale
/// mode unless it is Fit, and the slideshow step while one runs.
pub fn single_info(index: usize, count: usize, scale: ScaleMode, slideshow_secs: u32) -> (r: String)
    requires
        index < usize::MAX,
    ensures
        r@ == spec_single_info(index as nat, count as nat, scale, slideshow_secs as nat),
{
    let mut s = String::new();
    push_decimal(&mut s, index as u64 + 1);
    s.append(" / ");
    push_decimal(&mut s, count as u64);
    if scale != ScaleMode::Fit {
        s.append("  \u{b7}  ");
        s.append(scale.label());
    }
    if slideshow_secs > 0 {
        s.append("  \u{b7}  ");
        push_decimal(&mut s, slideshow_secs as u64);
        s.append("s");
    }
    assert(s@ =~= spec_single_info(index as nat, count as nat, scale, slideshow_secs as nat));
    s
}

} // verus!
