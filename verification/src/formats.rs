//! Which files the viewer opens, decided by file extension.

use vstd::prelude::*;
use crate::text::{ascii_lower, ascii_lower_char, ascii_upper, ascii_upper_char, chars_of, eq_chars, lower_slice};

verus! {

#[derive(Debug, Clone, Copy, PartialEq, Eq, Structural)]
pub enum FormatGroup {
    /// Raster formats decoded to a bitmap
    Image,
    /// SVG, rasterised through librsvg
    Svg,
}

/// Index at which the last `/`-separated segment of `s` starts.
pub open spec fn seg_start(s: Seq<char>) -> int
    decreases s.len(),
{
    if s.len() == 0 {
        0
    } else if s.last() == '/' {
        s.len() as int
    } else {
        seg_start(s.drop_last())
    }
}

/// The final normal component of a `/`-separated path: trailing separators and
/// `.` components are skipped, and a final `..` (or nothing at all) gives `None`.
pub open spec fn file_name_of(s: Seq<char>) -> Option<Seq<char>>
    decreases s.len(),
{
    if s.len() == 0 {
        None
    } else if s.last() == '/' {
        file_name_of(s.drop_last())
    } else {
        proof {
            lemma_seg_start_bounds(s);
        }
        let start = seg_start(s);
        let seg = s.subrange(start, s.len() as int);
        if seg == seq!['.'] {
            file_name_of(s.subrange(0, start))
        } else if seg == seq!['.', '.'] {
            None
        } else {
            Some(seg)
        }
    }
}

/// Index of the last `.` in `s`, or -1.
pub open spec fn last_dot(s: Seq<char>) -> int
    decreases s.len(),
{
    if s.len() == 0 {
        -1
    } else if s.last() == '.' {
        s.len() - 1
    } else {
        last_dot(s.drop_last())
    }
}

/// The extension of a file name: the text after its last `.`, provided that
/// `.` is not the first character.
pub open spec fn name_extension(name: Seq<char>) -> Option<Seq<char>> {
    let d = last_dot(name);
    if d <= 0 {
        None
    } else {
        Some(name.subrange(d + 1, name.len() as int))
    }
}

/// The extension of a path, as `std::path::Path::extension` reads it.
pub open spec fn path_extension(path: Seq<char>) -> Option<Seq<char>> {
    match file_name_of(path) {
        Some(name) => name_extension(name),
        None => None,
    }
}

/// The lower-cased extension of a path, or the empty text when it has none.
pub open spec fn spec_extension(path: Seq<char>) -> Seq<char> {
    match path_extension(path) {
        Some(e) => ascii_lower(e),
        None => Seq::empty(),
    }
}

pub open spec fn is_raster_extension(e: Seq<char>) -> bool {
    ||| e == "jpg"@
    ||| e == "jpeg"@
    ||| e == "jpe"@
    ||| e == "jfif"@
    ||| e == "png"@
    ||| e == "webp"@
    ||| e == "gif"@
    ||| e == "bmp"@
    ||| e == "tif"@
    ||| e == "tiff"@
    ||| e == "avif"@
    ||| e == "heic"@
    ||| e == "heif"@
    ||| e == "jxl"@
    ||| e == "ico"@
    ||| e == "tga"@
    ||| e == "qoi"@
    ||| e == "hdr"@
    ||| e == "dds"@
    ||| e == "pbm"@
    ||| e == "pgm"@
    ||| e == "ppm"@
    ||| e == "pnm"@
    ||| e == "ff"@
    ||| e == "exr"@
}

pub open spec fn spec_detect_format(path: Seq<char>) -> Option<FormatGroup> {
    let e = spec_extension(path);
    if e == "svg"@ {
        Some(FormatGroup::Svg)
    } else if is_raster_extension(e) {
        Some(FormatGroup::Image)
    } else {
        None
    }
}

pub proof fn lemma_seg_start_bounds(s: Seq<char>)
    ensures
        0 <= seg_start(s) <= s.len(),
        s.len() > 0 && s.last() != '/' ==> seg_start(s) < s.len(),
    decreases s.len(),
{
    if s.len() > 0 && s.last() != '/' {
        lemma_seg_start_bounds(s.drop_last());
    }
}

proof fn lemma_seg_start(s: Seq<char>, start: int)
    requires
        0 <= start <= s.len(),
        start == 0 || s[start - 1] == '/',
        forall|j: int| start <= j < s.len() ==> s[j] != '/',
    ensures
        seg_start(s) == start,
    decreases s.len(),
{
    if s.len() > start {
        lemma_seg_start(s.drop_last(), start);
    } else if s.len() > 0 {
        assert(s.last() == '/');
    }
}

proof fn lemma_last_dot(s: Seq<char>, k: int)
    requires
        -1 <= k < s.len(),
        k == -1 || s[k] == '.',
        forall|j: int| k < j < s.len() ==> s[j] != '.',
    ensures
        last_dot(s) == k,
    decreases s.len(),
{
    if s.len() > 0 && s.len() - 1 > k {
        lemma_last_dot(s.drop_last(), k);
    }
}

/// Bounds `[start, end)` of the file name of `s` inside `s`, if it has one.
fn file_name_range(s: &Vec<char>) -> (r: Option<(usize, usize)>)
    ensures
        match r {
            Some((a, b)) => a <= b <= s.len() && file_name_of(s@) == Some(s@.subrange(a as int, b as int)),
            None => file_name_of(s@) is None,
        },
{
    let mut end: usize = s.len();
    assert(s@.subrange(0, end as int) =~= s@);
    loop
        invariant
            end <= s.len(),
            file_name_of(s@) == file_name_of(s@.subrange(0, end as int)),
        decreases end,
    {
        if end == 0 {
            return None;
        }
        if s[end - 1] == '/' {
            assert(s@.subrange(0, end as int).drop_last() =~= s@.subrange(0, end - 1));
            end = end - 1;
        } else {
            let mut start: usize = end;
            while start > 0 && s[start - 1] != '/'
                invariant
                    start <= end <= s.len(),
                    forall|j: int| start <= j < end ==> s@[j] != '/',
                decreases start,
            {
                start = start - 1;
            }
            let ghost t = s@.subrange(0, end as int);
            proof {
                lemma_seg_start(t, start as int);
            }
            assert(t.subrange(start as int, t.len() as int) =~= s@.subrange(start as int, end as int));
            assert(t.subrange(0, start as int) =~= s@.subrange(0, start as int));
            let len = end - start;
            if len == 1 && s[start] == '.' {
                assert(s@.subrange(start as int, end as int) =~= seq!['.']);
                end = start;
            } else if len == 2 && s[start] == '.' && s[start + 1] == '.' {
                assert(s@.subrange(start as int, end as int) =~= seq!['.', '.']);
                return None;
            } else {
                assert(s@.subrange(start as int, end as int) != seq!['.']) by {
                    if len == 1 {
                        assert(s@.subrange(start as int, end as int)[0] == s@[start as int]);
                    }
                }
                assert(s@.subrange(start as int, end as int) != seq!['.', '.']) by {
                    if len == 2 {
                        assert(s@.subrange(start as int, end as int)[0] == s@[start as int]);
                        assert(s@.subrange(start as int, end as int)[1] == s@[start + 1]);
                    }
                }
                return Some((start, end));
            }
        }
    }
}

/// The final normal component of a path (`Path::file_name`).
pub fn file_name(path: &str) -> (r: Option<&str>)
    ensures
        match r {
            Some(n) => file_name_of(path@) == Some(n@),
            None => file_name_of(path@) is None,
        },
{
    let s = chars_of(path);
    match file_name_range(&s) {
        Some((a, b)) => Some(path.substring_char(a, b)),
        None => None,
    }
}

/// The lower-cased extension of `filename`, empty when it has none.
pub fn extension(filename: &str) -> (r: Vec<char>)
    ensures
        r@ == spec_extension(filename@),
{
    let s = chars_of(filename);
    match file_name_range(&s) {
        None => Vec::new(),
        Some((a, b)) => {
            let ghost name = s@.subrange(a as int, b as int);
            let mut k: usize = b;
            while k > a && s[k - 1] != '.'
                invariant
                    a <= k <= b <= s.len(),
                    forall|j: int| k <= j < b ==> s@[j] != '.',
                decreases k,
            {
                k = k - 1;
            }
            proof {
                if k > a {
                    lemma_last_dot(name, k - 1 - a);
                } else {
                    lemma_last_dot(name, -1);
                }
            }
            if k - a <= 1 {
                Vec::new()
            } else {
                assert(name.subrange(k - a, name.len() as int) =~= s@.subrange(k as int, b as int));
                lower_slice(&s, k, b)
            }
        },
    }
}

fn is_raster(e: &Vec<char>) -> (r: bool)
    ensures
        r == is_raster_extension(e@),
{
    eq_chars(e, "jpg") || eq_chars(e, "jpeg") || eq_chars(e, "jpe") || eq_chars(e, "jfif")
        || eq_chars(e, "png") || eq_chars(e, "webp") || eq_chars(e, "gif") || eq_chars(e, "bmp")
        || eq_chars(e, "tif") || eq_chars(e, "tiff") || eq_chars(e, "avif") || eq_chars(e, "heic")
        || eq_chars(e, "heif") || eq_chars(e, "jxl") || eq_chars(e, "ico") || eq_chars(e, "tga")
        || eq_chars(e, "qoi") || eq_chars(e, "hdr") || eq_chars(e, "dds") || eq_chars(e, "pbm")
        || eq_chars(e, "pgm") || eq_chars(e, "ppm") || eq_chars(e, "pnm") || eq_chars(e, "ff")
        || eq_chars(e, "exr")
}

/// Detect the format group for a filename. Returns None if unsupported.
pub fn detect_format(filename: &str) -> (r: Option<FormatGroup>)
    ensures
        r == spec_detect_format(filename@),
{
    let ext = extension(filename);
    if eq_chars(&ext, "svg") {
        return Some(FormatGroup::Svg);
    }
    if is_raster(&ext) {
        return Some(FormatGroup::Image);
    }
    None
}

/// Check if a filename has a supported image extension.
pub fn is_supported(filename: &str) -> (r: bool)
    ensures
        r == spec_detect_format(filename@) is Some,
{
    detect_format(filename).is_some()
}

/// A change of characters that keeps `/` and `.` (and nothing else becomes
/// one) and that lower-casing does not tell apart from the identity.
pub open spec fn case_change(f: spec_fn(char) -> char) -> bool {
    &&& forall|c: char| (#[trigger] f(c) == '/') == (c == '/')
    &&& forall|c: char| (#[trigger] f(c) == '.') == (c == '.')
    &&& forall|c: char| #[trigger] ascii_lower_char(f(c)) == ascii_lower_char(c)
}

proof fn lemma_seg_start_case(s: Seq<char>, f: spec_fn(char) -> char)
    requires
        case_change(f),
    ensures
        seg_start(s.map_values(f)) == seg_start(s),
    decreases s.len(),
{
    if s.len() > 0 {
        assert(s.map_values(f).drop_last() =~= s.drop_last().map_values(f));
        assert(s.map_values(f).last() == f(s.last()));
        lemma_seg_start_case(s.drop_last(), f);
    }
}

proof fn lemma_last_dot_case(s: Seq<char>, f: spec_fn(char) -> char)
    requires
        case_change(f),
    ensures
        last_dot(s.map_values(f)) == last_dot(s),
    decreases s.len(),
{
    if s.len() > 0 {
        assert(s.map_values(f).drop_last() =~= s.drop_last().map_values(f));
        assert(s.map_values(f).last() == f(s.last()));
        lemma_last_dot_case(s.drop_last(), f);
    }
}

proof fn lemma_file_name_case(s: Seq<char>, f: spec_fn(char) -> char)
    requires
        case_change(f),
    ensures
        file_name_of(s.map_values(f)) == match file_name_of(s) {
            Some(n) => Some(n.map_values(f)),
            None => None,
        },
    decreases s.len(),
{
    let m = s.map_values(f);
    if s.len() > 0 {
        assert(m.last() == f(s.last()));
        if s.last() == '/' {
            assert(m.drop_last() =~= s.drop_last().map_values(f));
            lemma_file_name_case(s.drop_last(), f);
        } else {
            lemma_seg_start_case(s, f);
            lemma_seg_start_bounds(s);
            let start = seg_start(s);
            let seg = s.subrange(start, s.len() as int);
            let mseg = m.subrange(start, m.len() as int);
            assert(mseg =~= seg.map_values(f));
            assert((seg == seq!['.']) == (mseg == seq!['.'])) by {
                if seg.len() == 1 {
                    assert(mseg[0] == f(seg[0]));
                    if seg == seq!['.'] {
                        assert(mseg =~= seq!['.']);
                    }
                    if mseg == seq!['.'] {
                        assert(seg =~= seq!['.']);
                    }
                }
            }
            assert((seg == seq!['.', '.']) == (mseg == seq!['.', '.'])) by {
                if seg.len() == 2 {
                    assert(mseg[0] == f(seg[0]));
                    assert(mseg[1] == f(seg[1]));
                    if seg == seq!['.', '.'] {
                        assert(mseg =~= seq!['.', '.']);
                    }
                    if mseg == seq!['.', '.'] {
                        assert(seg =~= seq!['.', '.']);
                    }
                }
            }
            assert(m.subrange(0, start) =~= s.subrange(0, start).map_values(f));
            lemma_file_name_case(s.subrange(0, start), f);
        }
    }
}

proof fn lemma_last_dot_bounds(s: Seq<char>)
    ensures
        -1 <= last_dot(s) < s.len(),
    decreases s.len(),
{
    if s.len() > 0 {
        lemma_last_dot_bounds(s.drop_last());
    }
}

proof fn lemma_extension_case(s: Seq<char>, f: spec_fn(char) -> char)
    requires
        case_change(f),
    ensures
        spec_extension(s.map_values(f)) == spec_extension(s),
{
    lemma_file_name_case(s, f);
    match file_name_of(s) {
        Some(name) => {
            lemma_last_dot_case(name, f);
            lemma_last_dot_bounds(name);
            let d = last_dot(name);
            if d > 0 {
                let e = name.subrange(d + 1, name.len() as int);
                let me = name.map_values(f).subrange(d + 1, name.len() as int);
                assert(me =~= e.map_values(f));
                assert(ascii_lower(me) =~= ascii_lower(e)) by {
                    assert forall|k: int| 0 <= k < e.len() implies ascii_lower(me)[k] == ascii_lower(e)[k] by {
                        assert(me[k] == f(e[k]));
                    }
                }
            }
        },
        None => {},
    }
}

/// Whether a file is an image does not depend on the case of its name: an
/// ASCII upper- or lower-cased name is detected as the name is.
pub proof fn law_detect_ignores_case(name: Seq<char>)
    ensures
        spec_detect_format(ascii_lower(name)) == spec_detect_format(name),
        spec_detect_format(ascii_upper(name)) == spec_detect_format(name),
{
    let lo = |c: char| ascii_lower_char(c);
    let up = |c: char| ascii_upper_char(c);
    assert forall|c: char| ascii_lower_char(#[trigger] ascii_upper_char(c)) == ascii_lower_char(c) by {
        if 'a' <= c && c <= 'z' {
            assert(ascii_upper_char(c) as u32 == (c as u32) - 32);
        }
    }
    assert(case_change(lo));
    assert(case_change(up));
    assert(ascii_lower(name) =~= name.map_values(lo));
    assert(ascii_upper(name) =~= name.map_values(up));
    lemma_extension_case(name, lo);
    lemma_extension_case(name, up);
}

} // verus!
