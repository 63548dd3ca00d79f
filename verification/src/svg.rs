//! The pixel size an SVG file declares in its opening `<svg>` tag, and the
//! cap on how large one SVG raster may be.
//!
//! The sizes are numbers in the syntax of `f64`. Reading them is left to
//! the caller (`str::parse::<f64>`), which hands back the bit patterns of
//! the values read; the library takes the texts out of the tag and decides
//! from the bit patterns.

use vstd::prelude::*;
use vstd::arithmetic::power2::{pow2, lemma_pow2_adds, lemma_pow2_pos, lemma_pow2_strictly_increases, lemma2_to64};
use crate::text::{chars_of, is_space, push_char, space_char, trim_front, trim_back, lemma_trim_front, lemma_trim_back};

verus! {


/// Hard ceiling for one SVG raster, in pixels per edge.
pub const MAX_SVG_EDGE: u32 = 8192;

/// Whether an intrinsic size is too large to raster as it is.
pub fn svg_exceeds_cap(w: u32, h: u32) -> (r: bool)
    ensures
        r == (w > MAX_SVG_EDGE || h > MAX_SVG_EDGE),
{
    w > MAX_SVG_EDGE || h > MAX_SVG_EDGE
}

/// The bounds a raster is drawn within: each edge clamped to `1..=MAX_SVG_EDGE`.
pub fn svg_raster_box(max_w: u32, max_h: u32) -> (r: (u32, u32))
    ensures
        r.0 == (if max_w < 1 { 1 } else if max_w > MAX_SVG_EDGE { MAX_SVG_EDGE } else { max_w }),
        r.1 == (if max_h < 1 { 1 } else if max_h > MAX_SVG_EDGE { MAX_SVG_EDGE } else { max_h }),
{
    let w = if max_w < 1 { 1 } else if max_w > MAX_SVG_EDGE { MAX_SVG_EDGE } else { max_w };
    let h = if max_h < 1 { 1 } else if max_h > MAX_SVG_EDGE { MAX_SVG_EDGE } else { max_h };
    (w, h)
}

/// The first index at or after `from` where `n` occurs in `h` (`str::find`).
pub open spec fn find_from(h: Seq<char>, n: Seq<char>, from: int) -> Option<int>
    decreases h.len() + 1 - from,
{
    if from < 0 || from + n.len() > h.len() {
        None
    } else if h.subrange(from, from + n.len()) == n {
        Some(from)
    } else {
        find_from(h, n, from + 1)
    }
}

/// The text up to the first `q`, or all of it (`split(q).next()`).
pub open spec fn up_to(s: Seq<char>, q: char) -> Seq<char> {
    s.take(first_of(s, q, q))
}

/// The raw value of attribute `name` in a tag: after the first `name="`, up
/// to the next `"`; failing that, after the first `name='`, up to the next `'`.
pub open spec fn spec_attr_raw(tag: Seq<char>, name: Seq<char>) -> Option<Seq<char>> {
    let dq = name.push('=').push('"');
    let sq = name.push('=').push('\'');
    match find_from(tag, dq, 0) {
        Some(i) => Some(up_to(tag.skip(i + dq.len()), '"')),
        None => match find_from(tag, sq, 0) {
            Some(i) => Some(up_to(tag.skip(i + sq.len()), '\'')),
            None => None,
        },
    }
}

/// `s` with every trailing `px` removed (`trim_end_matches("px")`).
pub open spec fn strip_px(s: Seq<char>) -> Seq<char>
    decreases s.len(),
{
    if s.len() >= 2 && s[s.len() - 2] == 'p' && s[s.len() - 1] == 'x' {
        strip_px(s.take(s.len() - 2))
    } else {
        s
    }
}

pub open spec fn is_box_sep(c: char) -> bool {
    is_space(c) || c == ','
}

/// `s` cut at every whitespace character or comma, empty pieces kept
/// (`str::split`).
pub open spec fn fields(s: Seq<char>) -> Seq<Seq<char>>
    decreases s.len(),
{
    if s.len() == 0 {
        seq![Seq::<char>::empty()]
    } else {
        let f = fields(s.drop_last());
        if is_box_sep(s.last()) {
            f.push(Seq::<char>::empty())
        } else {
            f.update(f.len() - 1, f.last().push(s.last()))
        }
    }
}

/// The opening tag: from the first `<svg` up to (not including) the next `>`.
pub open spec fn svg_tag(svg: Seq<char>) -> Option<Seq<char>> {
    match find_from(svg, seq!['<', 's', 'v', 'g'], 0) {
        Some(s) => {
            let rest = svg.skip(s);
            let e = first_of(rest, '>', '>');
            if e < rest.len() {
                Some(rest.take(e))
            } else {
                None
            }
        },
        None => None,
    }
}

/// Index of the first `c1` or `c2` in `s`, or `s.len()`.
pub open spec fn first_of(s: Seq<char>, c1: char, c2: char) -> int
    decreases s.len(),
{
    if s.len() == 0 {
        0
    } else if s[0] == c1 || s[0] == c2 {
        0
    } else {
        1 + first_of(s.drop_first(), c1, c2)
    }
}

proof fn lemma_first_of(s: Seq<char>, c1: char, c2: char, k: int)
    requires
        0 <= k <= s.len(),
        forall|j: int| 0 <= j < k ==> s[j] != c1 && s[j] != c2,
        k == s.len() || s[k] == c1 || s[k] == c2,
    ensures
        first_of(s, c1, c2) == k,
    decreases s.len(),
{
    if k > 0 {
        lemma_first_of(s.drop_first(), c1, c2, k - 1);
    }
}

/// Absolute index of the first `c1` or `c2` in `t[a..b]`, or `b`.
pub fn find_first(t: &Vec<char>, a: usize, b: usize, c1: char, c2: char) -> (k: usize)
    requires
        a <= b <= t.len(),
    ensures
        a <= k <= b,
        first_of(t@.subrange(a as int, b as int), c1, c2) == k - a,
{
    let mut k = a;
    while k < b && t[k] != c1 && t[k] != c2
        invariant
            a <= k <= b <= t.len(),
            forall|j: int| a <= j < k ==> t@[j] != c1 && t@[j] != c2,
        decreases b - k,
    {
        k = k + 1;
    }
    proof {
        lemma_first_of(t@.subrange(a as int, b as int), c1, c2, k - a);
    }
    k
}

/// Whether `t[i..i + n.len()]` is `n`.
fn matches_at(t: &Vec<char>, i: usize, n: &Vec<char>) -> (r: bool)
    requires
        i <= t.len(),
        n.len() <= t.len() - i,
    ensures
        r == (t@.subrange(i as int, i + n.len()) == n@),
{
    let mut j: usize = 0;
    while j < n.len()
        invariant
            j <= n.len(),
            i + n.len() <= t.len(),
            forall|k: int| 0 <= k < j ==> t@[i + k] == n@[k],
        decreases n.len() - j,
    {
        if t[i + j] != n[j] {
            assert(t@.subrange(i as int, i + n.len())[j as int] != n@[j as int]);
            return false;
        }
        j = j + 1;
    }
    assert(t@.subrange(i as int, i + n.len()) =~= n@);
    true
}

/// The first occurrence of `n` in `t[a..b]`, as an absolute index.
pub(crate) fn find_in(t: &Vec<char>, a: usize, b: usize, n: &Vec<char>) -> (r: Option<usize>)
    requires
        a <= b <= t.len(),
    ensures
        match r {
            Some(k) => a <= k && k + n.len() <= b && find_from(t@.subrange(a as int, b as int), n@, 0)
                == Some(k - a),
            None => find_from(t@.subrange(a as int, b as int), n@, 0) is None,
        },
{
    let ghost w = t@.subrange(a as int, b as int);
    let mut i = a;
    while n.len() <= b - i
        invariant
            a <= i <= b <= t.len(),
            w == t@.subrange(a as int, b as int),
            find_from(w, n@, 0) == find_from(w, n@, i - a),
        decreases b - i,
    {
        assert(w.subrange(i - a, i - a + n.len()) =~= t@.subrange(i as int, i + n.len()));
        if matches_at(t, i, n) {
            return Some(i);
        }
        if n.len() == 0 {
            assert(t@.subrange(i as int, i as int) =~= n@);
        }
        i = i + 1;
    }
    None
}

/// Where the raw value of attribute `name` lies in `t[a..b]`.
fn attr_raw(t: &Vec<char>, a: usize, b: usize, name: &str) -> (r: Option<(usize, usize)>)
    requires
        a <= b <= t.len(),
    ensures
        match r {
            Some((s, e)) => a <= s <= e <= b && spec_attr_raw(t@.subrange(a as int, b as int), name@)
                == Some(t@.subrange(s as int, e as int)),
            None => spec_attr_raw(t@.subrange(a as int, b as int), name@) is None,
        },
{
    let ghost w = t@.subrange(a as int, b as int);
    let mut dq = chars_of(name);
    dq.push('=');
    dq.push('"');
    if let Some(i) = find_in(t, a, b, &dq) {
        let s = i + dq.len();
        let e = find_first(t, s, b, '"', '"');
        assert(w.skip(i - a + dq.len()) =~= t@.subrange(s as int, b as int));
        assert(t@.subrange(s as int, b as int).take(e - s) =~= t@.subrange(s as int, e as int));
        return Some((s, e));
    }
    let mut sq = chars_of(name);
    sq.push('=');
    sq.push('\'');
    if let Some(i) = find_in(t, a, b, &sq) {
        let s = i + sq.len();
        let e = find_first(t, s, b, '\'', '\'');
        assert(w.skip(i - a + sq.len()) =~= t@.subrange(s as int, b as int));
        assert(t@.subrange(s as int, b as int).take(e - s) =~= t@.subrange(s as int, e as int));
        return Some((s, e));
    }
    None
}

/// The number text of a length: trimmed, with every trailing `px` removed;
/// `None` for a percentage.
pub open spec fn length_text(s: Seq<char>) -> Option<Seq<char>> {
    let t = trim_back(trim_front(s));
    if t.len() > 0 && t.last() == '%' {
        None
    } else {
        Some(strip_px(t))
    }
}

/// The number text of the length attribute `name` of a tag.
pub open spec fn attr_length_text(tag: Seq<char>, name: Seq<char>) -> Option<Seq<char>> {
    match spec_attr_raw(tag, name) {
        Some(v) => length_text(v),
        None => None,
    }
}

/// The non-empty pieces, in order.
pub open spec fn nonempty(fs: Seq<Seq<char>>) -> Seq<Seq<char>>
    decreases fs.len(),
{
    if fs.len() == 0 {
        Seq::empty()
    } else if fs.last().len() > 0 {
        nonempty(fs.drop_last()).push(fs.last())
    } else {
        nonempty(fs.drop_last())
    }
}

/// The raw `viewBox` value (spelt `viewBox`, or else `viewbox`).
pub open spec fn view_box_raw(tag: Seq<char>) -> Option<Seq<char>> {
    match spec_attr_raw(tag, "viewBox"@) {
        Some(v) => Some(v),
        None => spec_attr_raw(tag, "viewbox"@),
    }
}

/// The non-empty pieces of the `viewBox` value, cut at white space and commas.
pub open spec fn view_box_pieces(tag: Seq<char>) -> Option<Seq<Seq<char>>> {
    match view_box_raw(tag) {
        Some(v) => Some(nonempty(fields(v))),
        None => None,
    }
}

/// The texts of an `<svg>` tag that its size is read from.
pub struct SvgSizeTexts {
    /// The number text of `width`; `None` when the tag has none or it is a percentage.
    pub width: Option<String>,
    /// The number text of `height`, likewise.
    pub height: Option<String>,
    /// The pieces of `viewBox`, when the tag has one.
    pub view_box: Option<Vec<String>>,
}

pub open spec fn opt_text(o: Option<String>) -> Option<Seq<char>> {
    match o {
        Some(s) => Some(s@),
        None => None,
    }
}

pub open spec fn texts_view(v: Seq<String>) -> Seq<Seq<char>> {
    v.map_values(|s: String| s@)
}

pub open spec fn opt_texts(o: Option<Vec<String>>) -> Option<Seq<Seq<char>>> {
    match o {
        Some(v) => Some(texts_view(v@)),
        None => None,
    }
}

/// The text `t[a..b]`.
fn string_of(t: &Vec<char>, a: usize, b: usize) -> (r: String)
    requires
        a <= b <= t.len(),
    ensures
        r@ == t@.subrange(a as int, b as int),
{
    let mut s = String::new();
    let mut k = a;
    while k < b
        invariant
            a <= k <= b <= t.len(),
            s@ == t@.subrange(a as int, k as int),
        decreases b - k,
    {
        push_char(&mut s, t[k]);
        assert(t@.subrange(a as int, k + 1) =~= t@.subrange(a as int, k as int).push(t@[k as int]));
        k = k + 1;
    }
    s
}

/// The number text of the length `t[a..b]` (see `length_text`).
fn length_text_of(t: &Vec<char>, a: usize, b: usize) -> (r: Option<String>)
    requires
        a <= b <= t.len(),
    ensures
        opt_text(r) == length_text(t@.subrange(a as int, b as int)),
{
    let ghost w = t@.subrange(a as int, b as int);
    let mut s = a;
    while s < b && space_char(t[s])
        invariant
            a <= s <= b <= t.len(),
            forall|j: int| a <= j < s ==> is_space(t@[j]),
        decreases b - s,
    {
        s = s + 1;
    }
    proof {
        lemma_trim_front(w, s - a);
        assert(w.subrange(s - a, w.len() as int) =~= t@.subrange(s as int, b as int));
    }
    let mut e = b;
    while e > s && space_char(t[e - 1])
        invariant
            a <= s <= e <= b <= t.len(),
            forall|j: int| e <= j < b ==> is_space(t@[j]),
        decreases e - s,
    {
        e = e - 1;
    }
    proof {
        let u = t@.subrange(s as int, b as int);
        lemma_trim_back(u, e - s);
        assert(u.subrange(0, e - s) =~= t@.subrange(s as int, e as int));
    }
    let ghost trimmed = t@.subrange(s as int, e as int);
    assert(trim_back(trim_front(w)) == trimmed);
    if e > s && t[e - 1] == '%' {
        return None;
    }
    let mut f = e;
    while f - s >= 2 && t[f - 2] == 'p' && t[f - 1] == 'x'
        invariant
            s <= f <= e <= t.len(),
            strip_px(trimmed) == strip_px(t@.subrange(s as int, f as int)),
        decreases f,
    {
        assert(t@.subrange(s as int, f as int).take(f - s - 2) =~= t@.subrange(s as int, f - 2));
        f = f - 2;
    }
    assert(strip_px(t@.subrange(s as int, f as int)) == t@.subrange(s as int, f as int));
    Some(string_of(t, s, f))
}

fn attr_length_text_of(t: &Vec<char>, a: usize, b: usize, name: &str) -> (r: Option<String>)
    requires
        a <= b <= t.len(),
    ensures
        opt_text(r) == attr_length_text(t@.subrange(a as int, b as int), name@),
{
    match attr_raw(t, a, b, name) {
        Some((s, e)) => length_text_of(t, s, e),
        None => None,
    }
}

/// The non-empty pieces of `t[a..b]`, cut at white space and commas.
fn pieces_of(t: &Vec<char>, a: usize, b: usize) -> (r: Vec<String>)
    requires
        a <= b <= t.len(),
    ensures
        texts_view(r@) == nonempty(fields(t@.subrange(a as int, b as int))),
{
    let mut out: Vec<String> = Vec::new();
    let mut start = a;
    let mut i = a;
    assert(t@.subrange(a as int, a as int) =~= Seq::<char>::empty());
    assert(texts_view(out@) =~= nonempty(Seq::<Seq<char>>::empty()));
    while i < b
        invariant
            a <= start <= i <= b <= t.len(),
            fields(t@.subrange(a as int, i as int)).len() >= 1,
            fields(t@.subrange(a as int, i as int)).last() == t@.subrange(start as int, i as int),
            texts_view(out@) == nonempty(fields(t@.subrange(a as int, i as int)).drop_last()),
        decreases b - i,
    {
        let ghost f = fields(t@.subrange(a as int, i as int));
        let ghost g = fields(t@.subrange(a as int, i + 1));
        assert(t@.subrange(a as int, i + 1).drop_last() =~= t@.subrange(a as int, i as int));
        let c = t[i];
        if space_char(c) || c == ',' {
            assert(g == f.push(Seq::<char>::empty()));
            assert(g.drop_last() =~= f);
            assert(f.drop_last() =~= f.subrange(0, f.len() - 1));
            if start < i {
                let piece = string_of(t, start, i);
                let ghost before = out@;
                let ghost pv = piece@;
                out.push(piece);
                assert(texts_view(out@) =~= texts_view(before).push(pv));
            }
            start = i + 1;
            assert(t@.subrange(start as int, i + 1) =~= Seq::<char>::empty());
        } else {
            assert(g == f.update(f.len() - 1, f.last().push(c)));
            assert(g.drop_last() =~= f.drop_last());
            assert(t@.subrange(start as int, i + 1) =~= t@.subrange(start as int, i as int).push(c));
        }
        i = i + 1;
    }
    if start < b {
        let piece = string_of(t, start, b);
        let ghost before = out@;
        let ghost pv = piece@;
        out.push(piece);
        assert(texts_view(out@) =~= texts_view(before).push(pv));
    }
    out
}

/// The texts the size of an SVG file is read from, out of its opening tag
/// (from the first `<svg` up to the next `>`); `None` when there is no such tag.
pub fn svg_size_texts(svg: &str) -> (r: Option<SvgSizeTexts>)
    ensures
        match svg_tag(svg@) {
            None => r is None,
            Some(tag) => r matches Some(t) && {
                &&& opt_text(t.width) == attr_length_text(tag, "width"@)
                &&& opt_text(t.height) == attr_length_text(tag, "height"@)
                &&& opt_texts(t.view_box) == view_box_pieces(tag)
            },
        },
{
    let t = chars_of(svg);
    let mut open: Vec<char> = Vec::new();
    open.push('<');
    open.push('s');
    open.push('v');
    open.push('g');
    assert(open@ =~= seq!['<', 's', 'v', 'g']);
    assert(t@.subrange(0, t@.len() as int) =~= t@);
    let start = match find_in(&t, 0, t.len(), &open) {
        Some(s) => s,
        None => return None,
    };
    let end = find_first(&t, start, t.len(), '>', '>');
    assert(t@.skip(start as int) =~= t@.subrange(start as int, t@.len() as int));
    if end == t.len() {
        return None;
    }
    assert(t@.skip(start as int).take(end - start) =~= t@.subrange(start as int, end as int));
    let width = attr_length_text_of(&t, start, end, "width");
    let height = attr_length_text_of(&t, start, end, "height");
    let raw = match attr_raw(&t, start, end, "viewBox") {
        Some(v) => Some(v),
        None => attr_raw(&t, start, end, "viewbox"),
    };
    let view_box = match raw {
        Some((s, e)) => Some(pieces_of(&t, s, e)),
        None => None,
    };
    Some(SvgSizeTexts { width, height, view_box })
}

/// The sign bit of an `f64` bit pattern.
pub open spec fn bits_sign(b: u64) -> int {
    b as int / 0x8000_0000_0000_0000
}

/// The biased exponent field of an `f64` bit pattern.
pub open spec fn bits_exponent(b: u64) -> int {
    (b as int / 0x10_0000_0000_0000) % 2048
}

/// The fraction field of an `f64` bit pattern.
pub open spec fn bits_fraction(b: u64) -> int {
    b as int % 0x10_0000_0000_0000
}

/// The length in pixels an `f64` gives, read from its bits: a finite,
/// positive value `m * 2^x` (IEEE 754: `m` is the fraction with the hidden
/// bit, `x` the unbiased exponent; subnormals have `m` the fraction and
/// `x = -1074`) of at most `u32::MAX`, rounded up. Anything else is `None`.
pub open spec fn bits_len(b: u64) -> Option<u32> {
    let e = bits_exponent(b);
    let f = bits_fraction(b);
    if e == 2047 || bits_sign(b) == 1 || (e == 0 && f == 0) {
        None
    } else {
        let m = if e == 0 { f } else { f + 0x10_0000_0000_0000 };
        let x = if e == 0 { -1074 } else { e - 1075 };
        if x >= 0 {
            if m * pow2(x as nat) <= u32::MAX {
                Some((m * pow2(x as nat)) as u32)
            } else {
                None
            }
        } else {
            let p = pow2((-x) as nat) as int;
            if m <= u32::MAX * p {
                Some(((m + p - 1) / p) as u32)
            } else {
                None
            }
        }
    }
}

/// The length in pixels of a parsed number, given as its `f64` bits (see
/// `bits_len`).
pub fn length_of_bits(b: u64) -> (r: Option<u32>)
    ensures
        r == bits_len(b),
        r matches Some(c) ==> c >= 1,
{
    let s = b / 0x8000_0000_0000_0000;
    let e = (b / 0x10_0000_0000_0000) % 2048;
    let f = b % 0x10_0000_0000_0000;
    if e == 2047 || s == 1 || (e == 0 && f == 0) {
        return None;
    }
    let m: u64 = if e == 0 { f } else { f + 0x10_0000_0000_0000 };
    assert(1 <= m < 0x20_0000_0000_0000);
    proof {
        lemma2_to64();
    }
    if e >= 1075 {
        proof {
            let x = (e - 1075) as nat;
            lemma_pow2_pos(x);
            assert(m * pow2(x) >= m) by (nonlinear_arith)
                requires
                    pow2(x) >= 1,
                    m >= 1,
            ;
        }
        return None;
    }
    let k: u64 = if e == 0 { 1074 } else { 1075 - e };
    assert(k >= 1);
    if k >= 64 {
        proof {
            let p = pow2(k as nat) as int;
            if k > 64 {
                lemma_pow2_strictly_increases(64, k as nat);
            }
            assert(p >= 0x1_0000_0000_0000_0000);
            assert(m <= u32::MAX * p) by (nonlinear_arith)
                requires
                    m < 0x20_0000_0000_0000,
                    p >= 0x1_0000_0000_0000_0000,
            ;
            assert((m + p - 1) / p == 1) by (nonlinear_arith)
                requires
                    1 <= m < p,
            ;
        }
        return Some(1);
    }
    let mut p: u128 = 1;
    let mut i: u64 = 0;
    while i < k
        invariant
            i <= k < 64,
            p == pow2(i as nat),
            pow2(64) == 0x1_0000_0000_0000_0000,
        decreases k - i,
    {
        proof {
            vstd::arithmetic::power2::lemma_pow2_unfold((i + 1) as nat);
            lemma_pow2_strictly_increases(i as nat, 64);
        }
        p = p * 2;
        i = i + 1;
    }
    proof {
        lemma_pow2_pos(k as nat);
        lemma_pow2_strictly_increases(k as nat, 64);
    }
    let cap: u128 = 0xffff_ffff * p;
    if (m as u128) > cap {
        return None;
    }
    let c: u128 = (m as u128 + p - 1) / p;
    assert(1 <= c <= u32::MAX) by (nonlinear_arith)
        requires
            c == (m + p - 1) / (p as int),
            1 <= m <= 0xffff_ffff * p,
            p >= 1,
    ;
    Some(c as u32)
}

/// Numbers read from the texts of `SvgSizeTexts`: the `f64` bits of each
/// text that parsed, `None` for one that did not (or was not there).
pub struct SvgSizeNumbers {
    pub width: Option<u64>,
    pub height: Option<u64>,
    /// One entry per piece of `viewBox`.
    pub view_box: Option<Vec<Option<u64>>>,
}

/// The numbers among parse results, in order.
pub open spec fn parsed(v: Seq<Option<u64>>) -> Seq<u64>
    decreases v.len(),
{
    if v.len() == 0 {
        Seq::empty()
    } else {
        match v.last() {
            Some(b) => parsed(v.drop_last()).push(b),
            None => parsed(v.drop_last()),
        }
    }
}

pub open spec fn opt_len(b: Option<u64>) -> Option<u32> {
    match b {
        Some(x) => bits_len(x),
        None => None,
    }
}

/// The intrinsic size from what the size texts read as: `width` and
/// `height` when both are lengths; otherwise, when the `viewBox` holds
/// exactly four numbers, its third and fourth as lengths.
pub open spec fn spec_size_from(w: Option<u64>, h: Option<u64>, vb: Option<Seq<Option<u64>>>) -> Option<(u32, u32)> {
    match (opt_len(w), opt_len(h)) {
        (Some(a), Some(b)) => Some((a, b)),
        _ => match vb {
            Some(v) => {
                let n = parsed(v);
                if n.len() == 4 && bits_len(n[2]) is Some && bits_len(n[3]) is Some {
                    Some((bits_len(n[2]).unwrap(), bits_len(n[3]).unwrap()))
                } else {
                    None
                }
            },
            None => None,
        },
    }
}

pub open spec fn opt_numbers(o: Option<Vec<Option<u64>>>) -> Option<Seq<Option<u64>>> {
    match o {
        Some(v) => Some(v@),
        None => None,
    }
}

/// The numbers among parse results.
fn numbers_of(v: &Vec<Option<u64>>) -> (r: Vec<u64>)
    ensures
        r@ == parsed(v@),
{
    let mut out: Vec<u64> = Vec::new();
    let mut i: usize = 0;
    while i < v.len()
        invariant
            i <= v.len(),
            out@ == parsed(v@.take(i as int)),
        decreases v.len() - i,
    {
        assert(v@.take(i + 1).drop_last() =~= v@.take(i as int));
        if let Some(b) = v[i] {
            out.push(b);
        }
        i = i + 1;
    }
    assert(v@.take(v.len() as int) =~= v@);
    out
}

/// Pixel size of an SVG file from the numbers its size texts read as.
/// Width/height win over viewBox. Each edge of a size is at least 1.
pub fn svg_size_from(n: &SvgSizeNumbers) -> (r: Option<(u32, u32)>)
    ensures
        r == spec_size_from(n.width, n.height, opt_numbers(n.view_box)),
        r matches Some((a, b)) ==> a >= 1 && b >= 1,
{
    let w = match n.width {
        Some(x) => length_of_bits(x),
        None => None,
    };
    let h = match n.height {
        Some(x) => length_of_bits(x),
        None => None,
    };
    if let (Some(a), Some(b)) = (w, h) {
        return Some((a, b));
    }
    match &n.view_box {
        Some(v) => {
            let nums = numbers_of(v);
            if nums.len() == 4 {
                match (length_of_bits(nums[2]), length_of_bits(nums[3])) {
                    (Some(a), Some(b)) => Some((a, b)),
                    _ => None,
                }
            } else {
                None
            }
        },
        None => None,
    }
}

/// The bounds an SVG file is rastered within: `None` to raster it at its
/// own size, `Some((MAX_SVG_EDGE, MAX_SVG_EDGE))` when its intrinsic size
/// exceeds the cap.
pub fn svg_raster_bounds(size: Option<(u32, u32)>) -> (r: Option<(u32, u32)>)
    ensures
        r == (match size {
            Some((w, h)) => if w > MAX_SVG_EDGE || h > MAX_SVG_EDGE {
                Some((MAX_SVG_EDGE, MAX_SVG_EDGE))
            } else {
                None
            },
            None => None,
        }),
{
    match size {
        Some((w, h)) => if svg_exceeds_cap(w, h) {
            Some(svg_raster_box(MAX_SVG_EDGE, MAX_SVG_EDGE))
        } else {
            None
        },
        None => None,
    }
}

/// With no usable width and height, a `viewBox` of four numbers gives its
/// third and fourth as the size, whatever its first two (the origin) are.
pub proof fn law_view_box_origin_is_ignored(
    width: Option<u64>,
    height: Option<u64>,
    x: u64,
    y: u64,
    other_x: u64,
    other_y: u64,
    w: u64,
    h: u64,
)
    requires
        !(opt_len(width) is Some && opt_len(height) is Some),
    ensures
        spec_size_from(width, height, Some(seq![Some(x), Some(y), Some(w), Some(h)])) == spec_size_from(
            width,
            height,
            Some(seq![Some(other_x), Some(other_y), Some(w), Some(h)]),
        ),
        bits_len(w) is Some && bits_len(h) is Some ==> spec_size_from(
            width,
            height,
            Some(seq![Some(x), Some(y), Some(w), Some(h)]),
        ) == Some((bits_len(w).unwrap(), bits_len(h).unwrap())),
{
    reveal_with_fuel(parsed, 5);
    let v = seq![Some(x), Some(y), Some(w), Some(h)];
    let u = seq![Some(other_x), Some(other_y), Some(w), Some(h)];
    assert(v.drop_last().drop_last().drop_last().drop_last() =~= Seq::<Option<u64>>::empty());
    assert(u.drop_last().drop_last().drop_last().drop_last() =~= Seq::<Option<u64>>::empty());
    assert(parsed(v) =~= seq![x, y, w, h]);
    assert(parsed(u) =~= seq![other_x, other_y, w, h]);
}

/// Width and height that both read as lengths are the size, whatever the
/// `viewBox` says.
pub proof fn law_width_and_height_win(width: u64, height: u64, vb: Option<Seq<Option<u64>>>)
    requires
        bits_len(width) is Some,
        bits_len(height) is Some,
    ensures
        spec_size_from(Some(width), Some(height), vb) == Some((bits_len(width).unwrap(), bits_len(height).unwrap())),
{
}

} // verus!
