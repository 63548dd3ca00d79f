//! Tinting the toolbar icons: their SVG text draws in `currentColor`, which
//! is replaced by the theme's foreground colour.

use vstd::prelude::*;
use crate::svg::{find_from, find_in};
use crate::text::{chars_of, push_char};

verus! {

/// `h` with every occurrence of `pat`, found left to right without overlap,
/// replaced by `rep` (`str::replace` with a non-empty pattern).
pub open spec fn replace_all(h: Seq<char>, pat: Seq<char>, rep: Seq<char>) -> Seq<char>
    decreases h.len(),
{
    if pat.len() == 0 {
        h
    } else {
        match find_from(h, pat, 0) {
            Some(i) => if 0 <= i && i + pat.len() <= h.len() {
                h.take(i) + rep + replace_all(h.skip(i + pat.len()), pat, rep)
            } else {
                h
            },
            None => h,
        }
    }
}

/// Append `t[a..b]`.
fn push_range(out: &mut String, t: &Vec<char>, a: usize, b: usize)
    requires
        a <= b <= t.len(),
    ensures
        final(out)@ == old(out)@ + t@.subrange(a as int, b as int),
{
    let mut k = a;
    while k < b
        invariant
            a <= k <= b <= t.len(),
            out@ == old(out)@ + t@.subrange(a as int, k as int),
        decreases b - k,
    {
        push_char(out, t[k]);
        assert(t@.subrange(a as int, k + 1) =~= t@.subrange(a as int, k as int).push(t@[k as int]));
        k = k + 1;
    }
}

/// The icon text with its drawing colour set to `color`.
pub fn tint_svg(svg: &str, color: &str) -> (r: String)
    ensures
        r@ == replace_all(svg@, "currentColor"@, color@),
{
    let t = chars_of(svg);
    let pat = chars_of("currentColor");
    let rep = chars_of(color);
    let n = t.len();
    let mut out = String::new();
    assert(t@.subrange(0, n as int) =~= t@);
    if pat.len() == 0 {
        push_range(&mut out, &t, 0, n);
        assert(out@ =~= t@);
        return out;
    }
    let mut i: usize = 0;
    let mut done = false;
    while !done
        invariant
            i <= n,
            n == t@.len(),
            pat@.len() > 0,
            pat@ == "currentColor"@,
            rep@ == color@,
            t@ == svg@,
            !done ==> out@ + replace_all(t@.subrange(i as int, n as int), pat@, rep@)
                == replace_all(t@, pat@, rep@),
            done ==> out@ == replace_all(t@, pat@, rep@),
        decreases n - i + (if done { 0int } else { 1int }),
    {
        let ghost w = t@.subrange(i as int, n as int);
        match find_in(&t, i, n, &pat) {
            None => {
                push_range(&mut out, &t, i, n);
                done = true;
            },
            Some(k) => {
                let ghost before = out@;
                push_range(&mut out, &t, i, k);
                push_range(&mut out, &rep, 0, rep.len());
                assert(rep@.subrange(0, rep@.len() as int) =~= rep@);
                let next = k + pat.len();
                assert(w.take(k - i) =~= t@.subrange(i as int, k as int));
                assert(w.skip(k - i + pat@.len()) =~= t@.subrange(next as int, n as int));
                assert(out@ + replace_all(t@.subrange(next as int, n as int), pat@, rep@)
                    =~= before + replace_all(w, pat@, rep@));
                i = next;
            },
        }
    }
    out
}

pub open spec fn upper_hex_char(v: int) -> char {
    if v < 10 {
        (48 + v) as char
    } else {
        (55 + v) as char
    }
}

/// Two upper-case hex digits of a byte.
pub open spec fn hex_byte(b: u8) -> Seq<char> {
    seq![upper_hex_char((b / 16) as int), upper_hex_char((b % 16) as int)]
}

fn upper_hex_digit(v: u8) -> (r: char)
    requires
        v < 16,
    ensures
        r == upper_hex_char(v as int),
{
    if v < 10 {
        (48 + v) as char
    } else {
        (55 + v) as char
    }
}

fn push_hex_byte(out: &mut String, b: u8)
    ensures
        final(out)@ == old(out)@ + hex_byte(b),
{
    push_char(out, upper_hex_digit(b / 16));
    push_char(out, upper_hex_digit(b % 16));
    assert(final(out)@ =~= old(out)@ + hex_byte(b));
}

/// `#RRGGBB` (upper-case digits) of an RGBA colour; the alpha is dropped.
pub fn rgb_hex(rgba: [u8; 4]) -> (r: String)
    ensures
        r@ == seq!['#'] + hex_byte(rgba@[0]) + hex_byte(rgba@[1]) + hex_byte(rgba@[2]),
{
    let mut out = String::new();
    push_char(&mut out, '#');
    push_hex_byte(&mut out, rgba[0]);
    push_hex_byte(&mut out, rgba[1]);
    push_hex_byte(&mut out, rgba[2]);
    assert(out@ =~= seq!['#'] + hex_byte(rgba@[0]) + hex_byte(rgba@[1]) + hex_byte(rgba@[2]));
    out
}

} // verus!
