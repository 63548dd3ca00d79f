//! Joining `/`-separated paths the way `Path::join` does on Unix.

use vstd::prelude::*;
use crate::text::chars_of;

verus! {

/// `dir` joined with `name`: an absolute `name` replaces `dir`; otherwise a
/// `/` is put between them unless `dir` is empty or already ends with one.
pub open spec fn spec_join(dir: Seq<char>, name: Seq<char>) -> Seq<char> {
    if name.len() > 0 && name[0] == '/' {
        name
    } else if dir.len() == 0 || dir.last() == '/' {
        dir + name
    } else {
        dir + seq!['/'] + name
    }
}

pub fn join(dir: &str, name: &str) -> (r: String)
    ensures
        r@ == spec_join(dir@, name@),
{
    let d = chars_of(dir);
    let n = chars_of(name);
    if n.len() > 0 && n[0] == '/' {
        return name.to_owned();
    }
    let mut out = dir.to_owned();
    if d.len() > 0 && d[d.len() - 1] != '/' {
        out.append("/");
        proof {
            reveal_strlit("/");
        }
        assert("/"@ =~= seq!['/']);
    }
    out.append(name);
    out
}

/// `s` cut at every `/`, empty pieces kept.
pub open spec fn slash_pieces(s: Seq<char>) -> Seq<Seq<char>>
    decreases s.len(),
{
    if s.len() == 0 {
        seq![Seq::<char>::empty()]
    } else {
        let f = slash_pieces(s.drop_last());
        if s.last() == '/' {
            f.push(Seq::<char>::empty())
        } else {
            f.update(f.len() - 1, f.last().push(s.last()))
        }
    }
}

/// The pieces that name something: empty pieces and `.` are left out.
pub open spec fn named_pieces(fs: Seq<Seq<char>>) -> Seq<Seq<char>>
    decreases fs.len(),
{
    if fs.len() == 0 {
        Seq::empty()
    } else if fs.last().len() > 0 && fs.last() != seq!['.'] {
        named_pieces(fs.drop_last()).push(fs.last())
    } else {
        named_pieces(fs.drop_last())
    }
}

/// The components of a path as `Path::components` reads them: whether it
/// starts at the root, whether it starts with a `.` component, and its
/// other components (repeated `/`, `.` and a trailing `/` do not count).
pub open spec fn path_key(s: Seq<char>) -> (bool, bool, Seq<Seq<char>>) {
    let rooted = s.len() > 0 && s[0] == '/';
    let here = !rooted && s.len() > 0 && s[0] == '.' && (s.len() == 1 || s[1] == '/');
    (rooted, here, named_pieces(slash_pieces(s)))
}

/// Two paths are equal as `Path`s: they have the same components.
pub open spec fn same_path(a: Seq<char>, b: Seq<char>) -> bool {
    path_key(a) == path_key(b)
}

fn chars_eq(a: &Vec<char>, b: &Vec<char>) -> (r: bool)
    ensures
        r == (a@ == b@),
{
    if a.len() != b.len() {
        return false;
    }
    let mut i: usize = 0;
    while i < a.len()
        invariant
            a.len() == b.len(),
            i <= a.len(),
            forall|j: int| 0 <= j < i ==> a@[j] == b@[j],
        decreases a.len() - i,
    {
        if a[i] != b[i] {
            return false;
        }
        i = i + 1;
    }
    assert(a@ =~= b@);
    true
}

/// The characters of `t[a..b]`.
fn slice_of(t: &Vec<char>, a: usize, b: usize) -> (r: Vec<char>)
    requires
        a <= b <= t.len(),
    ensures
        r@ == t@.subrange(a as int, b as int),
{
    let mut r: Vec<char> = Vec::new();
    let mut k = a;
    while k < b
        invariant
            a <= k <= b <= t.len(),
            r@ == t@.subrange(a as int, k as int),
        decreases b - k,
    {
        r.push(t[k]);
        assert(r@ =~= t@.subrange(a as int, k + 1));
        k = k + 1;
    }
    r
}

pub open spec fn pieces_view(v: Seq<Vec<char>>) -> Seq<Seq<char>> {
    v.map_values(|p: Vec<char>| p@)
}

/// The named components of `t`.
fn named_of(t: &Vec<char>) -> (r: Vec<Vec<char>>)
    ensures
        pieces_view(r@) == named_pieces(slash_pieces(t@)),
{
    let n = t.len();
    let mut out: Vec<Vec<char>> = Vec::new();
    let mut start: usize = 0;
    let mut i: usize = 0;
    assert(t@.subrange(0, 0) =~= Seq::<char>::empty());
    assert(pieces_view(out@) =~= named_pieces(Seq::<Seq<char>>::empty()));
    while i < n
        invariant
            n == t.len(),
            start <= i <= n,
            slash_pieces(t@.subrange(0, i as int)).len() >= 1,
            slash_pieces(t@.subrange(0, i as int)).last() == t@.subrange(start as int, i as int),
            pieces_view(out@) == named_pieces(slash_pieces(t@.subrange(0, i as int)).drop_last()),
        decreases n - i,
    {
        let ghost f = slash_pieces(t@.subrange(0, i as int));
        let ghost g = slash_pieces(t@.subrange(0, i + 1));
        assert(t@.subrange(0, i + 1).drop_last() =~= t@.subrange(0, i as int));
        let c = t[i];
        if c == '/' {
            assert(g == f.push(Seq::<char>::empty()));
            assert(g.drop_last() =~= f);
            assert(f.drop_last() =~= f.subrange(0, f.len() - 1));
            let is_dot = i - start == 1 && t[start] == '.';
            proof {
                let piece = t@.subrange(start as int, i as int);
                if i - start == 1 {
                    assert(piece[0] == t@[start as int]);
                    if t@[start as int] == '.' {
                        assert(piece =~= seq!['.']);
                    }
                }
                assert(is_dot == (piece.len() > 0 && piece == seq!['.']));
            }
            if start < i && !is_dot {
                let piece = slice_of(t, start, i);
                let ghost before = out@;
                let ghost pv = piece@;
                out.push(piece);
                assert(pieces_view(out@) =~= pieces_view(before).push(pv));
            }
            start = i + 1;
            assert(t@.subrange(start as int, i + 1) =~= Seq::<char>::empty());
        } else {
            assert(g == f.update(f.len() - 1, f.last().push(c)));
            assert(g.drop_last() =~= f.drop_last());
            assert(t@.subrange(start as int, i + 1) =~= t@.subrange(start as int, i as int).push(c));
        }
        i = i + 1;
    }
    assert(t@.subrange(0, n as int) =~= t@);
    let is_dot = n - start == 1 && t[start] == '.';
    proof {
        let piece = t@.subrange(start as int, n as int);
        if n - start == 1 {
            assert(piece[0] == t@[start as int]);
            if t@[start as int] == '.' {
                assert(piece =~= seq!['.']);
            }
        }
        assert(is_dot == (piece.len() > 0 && piece == seq!['.']));
    }
    if start < n && !is_dot {
        let piece = slice_of(t, start, n);
        let ghost before = out@;
        let ghost pv = piece@;
        out.push(piece);
        assert(pieces_view(out@) =~= pieces_view(before).push(pv));
    }
    out
}

/// Whether two paths are equal as `Path`s compare them (component by
/// component), so that `a//b/` and `a/./b` are `a/b`.
pub fn paths_equal(a: &str, b: &str) -> (r: bool)
    ensures
        r == same_path(a@, b@),
{
    let x = chars_of(a);
    let y = chars_of(b);
    let xr = x.len() > 0 && x[0] == '/';
    let yr = y.len() > 0 && y[0] == '/';
    let xh = !xr && x.len() > 0 && x[0] == '.' && (x.len() == 1 || x[1] == '/');
    let yh = !yr && y.len() > 0 && y[0] == '.' && (y.len() == 1 || y[1] == '/');
    if xr != yr || xh != yh {
        return false;
    }
    let xp = named_of(&x);
    let yp = named_of(&y);
    assert(path_key(a@).2 == pieces_view(xp@));
    assert(path_key(b@).2 == pieces_view(yp@));
    if xp.len() != yp.len() {
        assert(pieces_view(xp@).len() != pieces_view(yp@).len());
        assert(path_key(a@).2 != path_key(b@).2);
        return false;
    }
    let mut i: usize = 0;
    while i < xp.len()
        invariant
            xp.len() == yp.len(),
            i <= xp.len(),
            forall|j: int| 0 <= j < i ==> xp@[j]@ == yp@[j]@,
            path_key(a@).2 == pieces_view(xp@),
            path_key(b@).2 == pieces_view(yp@),
        decreases xp.len() - i,
    {
        if !chars_eq(&xp[i], &yp[i]) {
            assert(pieces_view(xp@)[i as int] == xp@[i as int]@);
            assert(pieces_view(yp@)[i as int] == yp@[i as int]@);
            assert(pieces_view(xp@)[i as int] != pieces_view(yp@)[i as int]);
            assert(path_key(a@).2 != path_key(b@).2);
            return false;
        }
        i = i + 1;
    }
    assert(pieces_view(xp@) =~= pieces_view(yp@));
    true
}

} // verus!
