//! Turning and mirroring the picture on screen, on the RGBA bytes the view
//! holds it as.

use vstd::prelude::*;
use crate::app_state::ScaleMode;
use crate::image_loader::{
    bytes_raster, dimensions, flip_h, flip_v, image_fliph, image_flipv, in_rect, raster_bytes,
    raster_wf, rgba8_bytes, rgba_image, rot90, rotate_degrees, spec_rotate_degrees, Raster,
};
use vstd::arithmetic::div_mod::{
    lemma_fundamental_div_mod, lemma_fundamental_div_mod_converse, lemma_mod_pos_bound,
};

verus! {

/// The RGBA bytes of `r` with its width and height.
pub open spec fn shown(r: Raster) -> (Seq<u8>, int, int) {
    (raster_bytes(r), r.0, r.1)
}

/// `4 * w * h`, the length of a buffer that holds at least that many bytes.
fn rgba_len(w: u32, h: u32, held: usize) -> (n: usize)
    requires
        4 * w * h <= held,
    ensures
        n == 4 * w * h,
{
    let n: u128 = 4 * (w as u128) * (h as u128);
    n as usize
}

/// Rotate a `w` by `h` RGBA picture clockwise by 90, 180 or 270 degrees.
/// `None` (the picture stays as it is) for any other angle, or when the
/// buffer is shorter than `4 * w * h` bytes.
pub fn rotate_rgba(bytes: Vec<u8>, w: u32, h: u32, degrees: u32) -> (r: Option<(Vec<u8>, u32, u32)>)
    ensures
        r is Some <==> (4 * w * h <= bytes@.len() && (degrees == 90 || degrees == 180 || degrees == 270)),
        r matches Some((out, nw, nh)) ==> (out@, nw as int, nh as int) == shown(
            spec_rotate_degrees(bytes_raster(bytes@, w as int, h as int), degrees as int),
        ),
{
    if !(degrees == 90 || degrees == 180 || degrees == 270) {
        return None;
    }
    let img = match rgba_image(bytes, w, h) {
        Some(i) => i,
        None => return None,
    };
    let turned = rotate_degrees(img, degrees);
    let (nw, nh) = dimensions(&turned);
    let mut out = rgba8_bytes(turned);
    let n = rgba_len(nw, nh, out.len());
    out.truncate(n);
    Some((out, nw, nh))
}

/// Mirror a `w` by `h` RGBA picture left to right (`horizontal`) or top to
/// bottom. `None` when the buffer is shorter than `4 * w * h` bytes.
pub fn flip_rgba(bytes: Vec<u8>, w: u32, h: u32, horizontal: bool) -> (r: Option<(Vec<u8>, u32, u32)>)
    ensures
        r is Some <==> 4 * w * h <= bytes@.len(),
        r matches Some((out, nw, nh)) ==> (out@, nw as int, nh as int) == shown(
            if horizontal {
                flip_h(bytes_raster(bytes@, w as int, h as int))
            } else {
                flip_v(bytes_raster(bytes@, w as int, h as int))
            },
        ),
{
    let img = match rgba_image(bytes, w, h) {
        Some(i) => i,
        None => return None,
    };
    let turned = if horizontal { image_fliph(&img) } else { image_flipv(&img) };
    let (nw, nh) = dimensions(&turned);
    let mut out = rgba8_bytes(turned);
    let n = rgba_len(nw, nh, out.len());
    out.truncate(n);
    Some((out, nw, nh))
}


/// How the picture widget lays out the image.
#[derive(Debug, Clone, Copy, PartialEq, Eq, Structural)]
pub enum PictureFit {
    /// Scaled to fit inside the view.
    Contain,
    /// Scaled to cover the view, cropping the rest.
    Cover,
    /// One image pixel per screen pixel, never shrunk.
    Natural,
}

/// The layout each scale mode asks for.
pub fn picture_fit(mode: ScaleMode) -> (r: PictureFit)
    ensures
        r == match mode {
            ScaleMode::Fit => PictureFit::Contain,
            ScaleMode::Fill => PictureFit::Cover,
            ScaleMode::Actual => PictureFit::Natural,
        },
{
    match mode {
        ScaleMode::Fit => PictureFit::Contain,
        ScaleMode::Fill => PictureFit::Cover,
        ScaleMode::Actual => PictureFit::Natural,
    }
}

/// The frame an animation shows after frame `index` of `count`: the next
/// one, wrapping to the first.
pub fn next_frame(index: usize, count: usize) -> (r: usize)
    requires
        count > 0,
        index < count,
    ensures
        r == (index + 1) % (count as int),
        r < count,
{
    if index + 1 == count {
        proof {
            vstd::arithmetic::div_mod::lemma_mod_self_0(count as int);
        }
        0
    } else {
        proof {
            vstd::arithmetic::div_mod::lemma_small_mod((index + 1) as nat, count as nat);
        }
        index + 1
    }
}

/// What `rotate_rgba` shows for a `w` by `h` buffer turned by `degrees`.
pub open spec fn rotated_shown(b: Seq<u8>, w: int, h: int, degrees: int) -> (Seq<u8>, int, int) {
    shown(spec_rotate_degrees(bytes_raster(b, w, h), degrees))
}

pub open spec fn four_byte_pixels(r: Raster) -> bool {
    forall|p: (int, int)| r.2.dom().contains(p) ==> #[trigger] r.2[p].len() == 4
}

/// Byte `i` of a `w` by `h` RGBA buffer is channel `i % 4` of the pixel
/// `((i / 4) % w, (i / 4) / w)`, which lies in the picture.
proof fn lemma_byte_of_pixel(i: int, w: int, h: int)
    requires
        0 <= i < 4 * w * h,
        w >= 0,
        h >= 0,
    ensures
        w > 0,
        in_rect(((i / 4) % w, (i / 4) / w), w, h),
        4 * ((i / 4) / w * w + (i / 4) % w) + i % 4 == i,
        0 <= i % 4 < 4,
{
    assert(w > 0 && h > 0) by (nonlinear_arith)
        requires
            0 <= i < 4 * w * h,
            w >= 0,
            h >= 0,
    ;
    let p = i / 4;
    lemma_fundamental_div_mod(i, 4);
    lemma_fundamental_div_mod(p, w);
    lemma_mod_pos_bound(p, w);
    let x = p % w;
    let y = p / w;
    assert(p < w * h) by (nonlinear_arith)
        requires
            i == 4 * p + i % 4,
            0 <= i % 4 < 4,
            i < 4 * w * h,
    ;
    assert(0 <= y < h) by (nonlinear_arith)
        requires
            p == w * y + x,
            0 <= x < w,
            0 <= p < w * h,
    ;
    assert(y * w == w * y) by (nonlinear_arith);
}

/// Pixel `(x, y)` of a `w` by `h` picture starts at byte `4 * (y * w + x)`,
/// inside the buffer.
proof fn lemma_pixel_offset(x: int, y: int, w: int, h: int, c: int)
    requires
        in_rect((x, y), w, h),
        0 <= c < 4,
    ensures
        0 <= 4 * (y * w + x) + c < 4 * w * h,
        4 * (y * w + x) + 4 <= 4 * w * h,
        (4 * (y * w + x) + c) / 4 == y * w + x,
        (4 * (y * w + x) + c) % 4 == c,
        (y * w + x) % w == x,
        (y * w + x) / w == y,
{
    assert(0 <= y * w + x < w * h && y * w + x + 1 <= w * h) by (nonlinear_arith)
        requires
            0 <= x < w,
            0 <= y < h,
    ;
    assert(4 * w * h == 4 * (w * h)) by (nonlinear_arith);
    lemma_fundamental_div_mod_converse(4 * (y * w + x) + c, 4, y * w + x, c);
    lemma_fundamental_div_mod_converse(y * w + x, w, y, x);
}

/// Reading the pixels of a buffer of exactly `4 * w * h` bytes and writing
/// them back gives the buffer.
proof fn lemma_bytes_round_trip(b: Seq<u8>, w: int, h: int)
    requires
        w >= 0,
        h >= 0,
        b.len() == 4 * w * h,
    ensures
        raster_bytes(bytes_raster(b, w, h)) == b,
        raster_wf(bytes_raster(b, w, h)),
        four_byte_pixels(bytes_raster(b, w, h)),
{
    let r = bytes_raster(b, w, h);
    assert forall|i: int| 0 <= i < b.len() implies #[trigger] raster_bytes(r)[i] == b[i] by {
        lemma_byte_of_pixel(i, w, h);
        let x = (i / 4) % w;
        let y = (i / 4) / w;
        lemma_pixel_offset(x, y, w, h, i % 4);
        assert(y * w + x == (i / 4) / w * w + (i / 4) % w);
    }
    assert(raster_bytes(r) =~= b);
    assert(r.2.dom() =~= Set::new(|p: (int, int)| in_rect(p, r.0, r.1)));
    assert forall|p: (int, int)| r.2.dom().contains(p) implies #[trigger] r.2[p].len() == 4 by {
        lemma_pixel_offset(p.0, p.1, w, h, 0);
    }
}

/// Writing the pixels of a well-formed picture of four-byte pixels to a
/// buffer and reading them back gives the picture.
proof fn lemma_raster_round_trip(r: Raster)
    requires
        raster_wf(r),
        four_byte_pixels(r),
    ensures
        bytes_raster(raster_bytes(r), r.0, r.1) == r,
{
    let (w, h, m) = r;
    let b = raster_bytes(r);
    let back = bytes_raster(b, w, h);
    assert forall|p: (int, int)| #[trigger] back.2.dom().contains(p) implies back.2[p] == m[p] by {
        let q = p.1 * w + p.0;
        lemma_pixel_offset(p.0, p.1, w, h, 0);
        assert(m.dom().contains(p));
        assert forall|c: int| 0 <= c < 4 implies #[trigger] back.2[p][c] == m[p][c] by {
            lemma_pixel_offset(p.0, p.1, w, h, c);
        }
        assert(back.2[p] =~= m[p]);
    }
    assert(back.2 =~= m);
}

/// A quarter turn of a well-formed picture of four-byte pixels is one too.
proof fn lemma_rot90_keeps_pixels(r: Raster)
    requires
        raster_wf(r),
        four_byte_pixels(r),
    ensures
        raster_wf(rot90(r)),
        four_byte_pixels(rot90(r)),
{
    let t = rot90(r);
    assert(t.2.dom() =~= Set::new(|p: (int, int)| in_rect(p, t.0, t.1)));
    assert forall|p: (int, int)| t.2.dom().contains(p) implies #[trigger] t.2[p].len() == 4 by {
        assert(r.2.dom().contains((p.1, r.1 - 1 - p.0)));
    }
}

/// Four quarter turns of the shown picture give it back, byte for byte.
pub proof fn law_four_quarter_turns(b: Seq<u8>, w: int, h: int)
    requires
        w >= 0,
        h >= 0,
        b.len() == 4 * w * h,
    ensures
        ({
            let s1 = rotated_shown(b, w, h, 90);
            let s2 = rotated_shown(s1.0, s1.1, s1.2, 90);
            let s3 = rotated_shown(s2.0, s2.1, s2.2, 90);
            rotated_shown(s3.0, s3.1, s3.2, 90) == (b, w, h)
        }),
{
    let r0 = bytes_raster(b, w, h);
    lemma_bytes_round_trip(b, w, h);
    lemma_rot90_keeps_pixels(r0);
    let r1 = rot90(r0);
    lemma_raster_round_trip(r1);
    lemma_rot90_keeps_pixels(r1);
    let r2 = rot90(r1);
    lemma_raster_round_trip(r2);
    lemma_rot90_keeps_pixels(r2);
    let r3 = rot90(r2);
    lemma_raster_round_trip(r3);
    let r4 = rot90(r3);
    assert(r4.2 =~= r0.2);
    assert(r4 == r0);
}

} // verus!
