//! Decoding decisions and pixel transforms of the loader.
//!
//! A decoded image is modelled as a `Raster`: its width, its height and the
//! pixel (raw channel bytes) at each coordinate `(x, y)` with `x < width`,
//! `y < height`. Rotations and mirrors of `image::DynamicImage` are called
//! through the trusted wrappers below, whose contracts say how they move
//! pixels, as the `image` crate's `imageops::affine` loops do.

use vstd::prelude::*;
use image::DynamicImage;
use image::GenericImageView;
use crate::formats::{detect_format, extension, file_name, file_name_of, spec_detect_format, spec_extension, FormatGroup};
use crate::text::eq_chars;
use crate::orientation::{
    law_rotations_add, spec_compose_cw, spec_compose_flip_h, spec_compose_flip_v,
    spec_compose_transform, tag_symmetry, Symmetry, quarter_turns, normalize_tag,
};

verus! {

#[verifier::external_type_specification]
#[verifier::external_body]
pub struct ExDynamicImage(DynamicImage);

/// The channel bytes of the pixel at `(x, y)` of an image, read where
/// `x < width` and `y < height`.
pub uninterp spec fn image_pixel(img: DynamicImage, x: int, y: int) -> Seq<u8>;

/// The width and height an image was decoded with.
pub uninterp spec fn image_dimensions(img: DynamicImage) -> (u32, u32);

/// The colour type of an image: the position of `DynamicImage::color()`
/// among the variants of `image::ColorType` (`L8` is 0, `Rgba8` is 3).
pub uninterp spec fn image_color(img: DynamicImage) -> int;

/// The colour type of 8-bit RGBA images (`ColorType::Rgba8`).
pub open spec fn rgba8_color() -> int {
    3
}

/// Width, height and pixels.
pub type Raster = (int, int, Map<(int, int), Seq<u8>>);

/// The raster an image holds: its size and the pixel at each point of its
/// rectangle.
pub open spec fn raster_of(img: DynamicImage) -> Raster {
    let w = image_dimensions(img).0 as int;
    let h = image_dimensions(img).1 as int;
    (w, h, Map::new(|p: (int, int)| in_rect(p, w, h), |p: (int, int)| image_pixel(img, p.0, p.1)))
}

pub open spec fn in_rect(p: (int, int), w: int, h: int) -> bool {
    0 <= p.0 < w && 0 <= p.1 < h
}

/// A raster whose pixels are given exactly on its rectangle.
pub open spec fn raster_wf(r: Raster) -> bool {
    &&& r.0 >= 0
    &&& r.1 >= 0
    &&& r.2.dom() == Set::new(|p: (int, int)| in_rect(p, r.0, r.1))
}

/// Clockwise quarter turn: the pixel at `(x, y)` moves to `(h - 1 - y, x)`.
pub open spec fn rot90(r: Raster) -> Raster {
    let (w, h, m) = r;
    (h, w, Map::new(|p: (int, int)| in_rect(p, h, w), |p: (int, int)| m[(p.1, h - 1 - p.0)]))
}

/// Half turn: the pixel at `(x, y)` moves to `(w - 1 - x, h - 1 - y)`.
pub open spec fn rot180(r: Raster) -> Raster {
    let (w, h, m) = r;
    (w, h, Map::new(|p: (int, int)| in_rect(p, w, h), |p: (int, int)| m[(w - 1 - p.0, h - 1 - p.1)]))
}

/// Three clockwise quarter turns: the pixel at `(x, y)` moves to `(y, w - 1 - x)`.
pub open spec fn rot270(r: Raster) -> Raster {
    let (w, h, m) = r;
    (h, w, Map::new(|p: (int, int)| in_rect(p, h, w), |p: (int, int)| m[(w - 1 - p.1, p.0)]))
}

/// Left-right mirror: the pixel at `(x, y)` moves to `(w - 1 - x, y)`.
pub open spec fn flip_h(r: Raster) -> Raster {
    let (w, h, m) = r;
    (w, h, Map::new(|p: (int, int)| in_rect(p, w, h), |p: (int, int)| m[(w - 1 - p.0, p.1)]))
}

/// Up-down mirror: the pixel at `(x, y)` moves to `(x, h - 1 - y)`.
pub open spec fn flip_v(r: Raster) -> Raster {
    let (w, h, m) = r;
    (w, h, Map::new(|p: (int, int)| in_rect(p, w, h), |p: (int, int)| m[(p.0, h - 1 - p.1)]))
}

/// `DynamicImage::fliph`: the `image` crate copies each pixel `(x, y)` to `(w - 1 - x, y)`
/// of a new buffer of the same size and pixel type.
#[verifier::external_body]
pub(crate) fn image_fliph(img: &DynamicImage) -> (r: DynamicImage)
    ensures
        raster_of(r) == flip_h(raster_of(*img)),
        image_color(r) == image_color(*img),
{
    img.fliph()
}

/// `DynamicImage::flipv`: each pixel `(x, y)` goes to `(x, h - 1 - y)`.
#[verifier::external_body]
pub(crate) fn image_flipv(img: &DynamicImage) -> (r: DynamicImage)
    ensures
        raster_of(r) == flip_v(raster_of(*img)),
        image_color(r) == image_color(*img),
{
    img.flipv()
}

/// `DynamicImage::rotate90`: each pixel `(x, y)` goes to `(h - 1 - y, x)` of an
/// `h` by `w` buffer.
#[verifier::external_body]
fn image_rotate90(img: &DynamicImage) -> (r: DynamicImage)
    ensures
        raster_of(r) == rot90(raster_of(*img)),
        image_color(r) == image_color(*img),
{
    img.rotate90()
}

/// `DynamicImage::rotate180`: each pixel `(x, y)` goes to `(w - 1 - x, h - 1 - y)`.
#[verifier::external_body]
fn image_rotate180(img: &DynamicImage) -> (r: DynamicImage)
    ensures
        raster_of(r) == rot180(raster_of(*img)),
        image_color(r) == image_color(*img),
{
    img.rotate180()
}

/// `DynamicImage::rotate270`: each pixel `(x, y)` goes to `(y, w - 1 - x)` of an
/// `h` by `w` buffer.
#[verifier::external_body]
fn image_rotate270(img: &DynamicImage) -> (r: DynamicImage)
    ensures
        raster_of(r) == rot270(raster_of(*img)),
        image_color(r) == image_color(*img),
{
    img.rotate270()
}

/// The pixels of a `w` by `h` RGBA buffer stored row by row, four bytes a pixel.
pub open spec fn bytes_raster(bytes: Seq<u8>, w: int, h: int) -> Raster {
    (w, h, Map::new(|p: (int, int)| in_rect(p, w, h), |p: (int, int)| bytes.subrange(4 * (p.1 * w + p.0), 4 * (p.1 * w + p.0) + 4)))
}

/// The RGBA bytes of a raster, row by row: byte `c` of pixel `(x, y)` at `4 * (y * w + x) + c`.
pub open spec fn raster_bytes(r: Raster) -> Seq<u8> {
    Seq::new((4 * r.0 * r.1) as nat, |i: int| r.2[((i / 4) % r.0, (i / 4) / r.0)][i % 4])
}

/// `RgbaImage::from_raw`, the buffer then held as a `DynamicImage::ImageRgba8`:
/// `None` when the buffer is shorter than `4 * w * h` bytes, otherwise an
/// image whose pixel `(x, y)` is the four bytes at `4 * (y * w + x)`.
#[verifier::external_body]
pub(crate) fn rgba8_image(bytes: Vec<u8>, w: u32, h: u32) -> (r: Option<DynamicImage>)
    ensures
        r is Some <==> 4 * w * h <= bytes@.len(),
        r matches Some(img) ==> {
            &&& image_color(img) == rgba8_color()
            &&& image_dimensions(img) == (w, h)
            &&& forall|x: int, y: int|
                0 <= x < w && 0 <= y < h ==> #[trigger] image_pixel(img, x, y) == bytes@.subrange(
                    4 * (y * w + x),
                    4 * (y * w + x) + 4,
                )
        },
{
    image::RgbaImage::from_raw(w, h, bytes).map(DynamicImage::ImageRgba8)
}

/// `GenericImageView::dimensions`: the width and height.
#[verifier::external_body]
pub(crate) fn dimensions(img: &DynamicImage) -> (r: (u32, u32))
    ensures
        r == image_dimensions(*img),
{
    img.dimensions()
}

/// `DynamicImage::into_rgba8` then `ImageBuffer::into_raw` on an RGBA image:
/// its buffer, which starts with the pixels row by row (a buffer made by
/// `from_raw` may run on past them).
#[verifier::external_body]
pub(crate) fn rgba8_bytes(img: DynamicImage) -> (r: Vec<u8>)
    requires
        image_color(img) == rgba8_color(),
    ensures
        r@.len() >= 4 * image_dimensions(img).0 * image_dimensions(img).1,
        r@.subrange(0, 4 * image_dimensions(img).0 * image_dimensions(img).1) == raster_bytes(raster_of(img)),
{
    img.into_rgba8().into_raw()
}

/// A decoded RGBA buffer as an image: `None` when it is shorter than
/// `4 * w * h` bytes, otherwise pixel `(x, y)` is the four bytes at
/// `4 * (y * w + x)`.
pub fn rgba_image(bytes: Vec<u8>, w: u32, h: u32) -> (r: Option<DynamicImage>)
    ensures
        r is Some <==> 4 * w * h <= bytes@.len(),
        r matches Some(img) ==> raster_of(img) == bytes_raster(bytes@, w as int, h as int)
            && image_color(img) == rgba8_color(),
{
    let ghost b = bytes@;
    let r = rgba8_image(bytes, w, h);
    if let Some(img) = &r {
        assert(raster_of(*img).2 =~= bytes_raster(b, w as int, h as int).2);
    }
    r
}

/// The rows of an interleaved RGBA plane, packed tightly: row `y` of the
/// plane starts at byte `y * stride`, and `4 * w` bytes of it are kept.
pub open spec fn packed_rows(data: Seq<u8>, w: int, h: int, stride: int) -> Seq<u8> {
    Seq::new((4 * w * h) as nat, |i: int| data[(i / (4 * w)) * stride + i % (4 * w)])
}

/// Pack the rows of a `w` by `h` RGBA plane whose rows are `stride` bytes
/// apart.
pub fn pack_plane(data: &[u8], w: u32, h: u32, stride: usize) -> (r: Vec<u8>)
    requires
        h == 0 || (h - 1) * stride + 4 * w <= data@.len(),
    ensures
        r@ == packed_rows(data@, w as int, h as int, stride as int),
{
    let mut out: Vec<u8> = Vec::new();
    if w == 0 || h == 0 {
        assert(4 * w * h == 0) by (nonlinear_arith)
            requires
                w == 0 || h == 0,
        ;
        assert(out@ =~= packed_rows(data@, w as int, h as int, stride as int));
        return out;
    }
    let n = data.len();
    let row: usize = 4 * (w as usize);
    let mut y: usize = 0;
    while y < h as usize
        invariant
            n == data@.len(),
            row == 4 * w,
            w > 0,
            h > 0,
            (h - 1) * stride + 4 * w <= data@.len(),
            y <= h,
            out@.len() == y * row,
            forall|i: int| 0 <= i < out@.len() ==> #[trigger] out@[i] == data@[(i / (4 * w)) * stride + i % (4 * w)],
        decreases h - y,
    {
        assert(y * stride + row <= data@.len()) by (nonlinear_arith)
            requires
                y < h,
                (h - 1) * stride + row <= data@.len(),
        ;
        assert(y * stride <= data@.len());
        let start = y * stride;
        let mut x: usize = 0;
        while x < row
            invariant
                n == data@.len(),
                row == 4 * w,
                w > 0,
                y < h,
                start == y * stride,
                start + row <= data@.len(),
                x <= row,
                out@.len() == y * row + x,
                forall|i: int| 0 <= i < out@.len() ==> #[trigger] out@[i] == data@[(i / (4 * w)) * stride + i % (4 * w)],
            decreases row - x,
        {
            let ghost i = out@.len() as int;
            proof {
                vstd::arithmetic::div_mod::lemma_fundamental_div_mod_converse(i, 4 * w, y as int, x as int);
            }
            out.push(data[start + x]);
            x = x + 1;
        }
        assert((y + 1) * row == y * row + row) by (nonlinear_arith);
        y = y + 1;
    }
    assert(h * row == 4 * w * h) by (nonlinear_arith)
        requires
            row == 4 * w,
    ;
    assert(out@ =~= packed_rows(data@, w as int, h as int, stride as int));
    out
}

/// The image an interleaved RGBA plane decodes to (as libheif hands it over).
pub fn plane_image(data: &[u8], w: u32, h: u32, stride: usize) -> (r: Option<DynamicImage>)
    requires
        h == 0 || (h - 1) * stride + 4 * w <= data@.len(),
    ensures
        r matches Some(img) && raster_of(img) == bytes_raster(
            packed_rows(data@, w as int, h as int, stride as int),
            w as int,
            h as int,
        ),
{
    let packed = pack_plane(data, w, h, stride);
    proof {
        assert(4 * w * h == packed@.len()) by (nonlinear_arith)
            requires
                packed@.len() == (4 * w * h) as nat,
                w >= 0,
                h >= 0,
        ;
    }
    rgba_image(packed, w, h)
}

/// What the PNG decoder of the `image` crate makes of a byte string: the
/// raster and the colour type, or `None` when the bytes are not a PNG it reads.
pub uninterp spec fn png_image(bytes: Seq<u8>) -> Option<(Raster, int)>;

/// `image::load_from_memory_with_format` for PNG, with the default limits.
#[verifier::external_body]
fn load_png(bytes: &[u8]) -> (r: Option<DynamicImage>)
    ensures
        r is Some <==> png_image(bytes@) is Some,
        r matches Some(img) ==> (raster_of(img), image_color(img)) == png_image(bytes@).unwrap(),
{
    image::load_from_memory_with_format(bytes, image::ImageFormat::Png).ok()
}

/// A PNG (such as the one an SVG renderer writes), decoded.
pub fn decode_png(bytes: &[u8]) -> (r: Option<DynamicImage>)
    ensures
        r is Some <==> png_image(bytes@) is Some,
        r matches Some(img) ==> (raster_of(img), image_color(img)) == png_image(bytes@).unwrap(),
{
    load_png(bytes)
}

/// The raster that `transform_image` makes: turned clockwise, then mirrored
/// left to right, then top to bottom, as asked.
pub open spec fn spec_transform(r: Raster, degrees: int, fh: bool, fv: bool) -> Raster {
    let turned = spec_rotate_degrees(r, degrees);
    let mirrored = if fh { flip_h(turned) } else { turned };
    if fv { flip_v(mirrored) } else { mirrored }
}

/// Apply a pending rotation and mirrors to the pixels.
pub fn transform_image(img: DynamicImage, degrees: u32, fh: bool, fv: bool) -> (r: DynamicImage)
    ensures
        raster_of(r) == spec_transform(raster_of(img), degrees as int, fh, fv),
        image_color(r) == image_color(img),
{
    let turned = rotate_degrees(img, degrees);
    let mirrored = if fh { image_fliph(&turned) } else { turned };
    if fv { image_flipv(&mirrored) } else { mirrored }
}

/// The raster that `apply_orientation` makes of `r` for a tag.
pub open spec fn spec_apply_orientation(r: Raster, orientation: int) -> Raster {
    if orientation == 2 {
        flip_h(r)
    } else if orientation == 3 {
        rot180(r)
    } else if orientation == 4 {
        flip_v(r)
    } else if orientation == 5 {
        flip_h(rot90(r))
    } else if orientation == 6 {
        rot90(r)
    } else if orientation == 7 {
        flip_h(rot270(r))
    } else if orientation == 8 {
        rot270(r)
    } else {
        r
    }
}

/// Apply a TIFF/EXIF orientation tag (1–8) to a decoded image.
pub fn apply_orientation(img: DynamicImage, orientation: u32) -> (r: DynamicImage)
    ensures
        raster_of(r) == spec_apply_orientation(raster_of(img), orientation as int),
        image_color(r) == image_color(img),
        !(2 <= orientation <= 8) ==> r == img,
{
    match orientation {
        2 => image_fliph(&img),
        3 => image_rotate180(&img),
        4 => image_flipv(&img),
        5 => image_fliph(&image_rotate90(&img)),
        6 => image_rotate90(&img),
        7 => image_fliph(&image_rotate270(&img)),
        8 => image_rotate270(&img),
        _ => img,
    }
}

pub open spec fn spec_rotate_degrees(r: Raster, degrees: int) -> Raster {
    let d = degrees % 360;
    if d == 90 {
        rot90(r)
    } else if d == 180 {
        rot180(r)
    } else if d == 270 {
        rot270(r)
    } else {
        r
    }
}

/// Rotate clockwise by a multiple of 90 degrees; other angles leave the image as it is.
pub fn rotate_degrees(img: DynamicImage, degrees: u32) -> (r: DynamicImage)
    ensures
        raster_of(r) == spec_rotate_degrees(raster_of(img), degrees as int),
        image_color(r) == image_color(img),
        !(degrees % 360 == 90 || degrees % 360 == 180 || degrees % 360 == 270) ==> r == img,
{
    match degrees % 360 {
        90 => image_rotate90(&img),
        180 => image_rotate180(&img),
        270 => image_rotate270(&img),
        _ => img,
    }
}

/// Honour an EXIF orientation tag read from the file: tags 2 to 8 are applied,
/// anything else (no tag, 1, or out of range) leaves the image as decoded.
pub fn apply_exif_orientation(img: DynamicImage, tag: Option<u32>) -> (r: DynamicImage)
    ensures
        raster_of(r) == match tag {
            Some(t) => if 2 <= t <= 8 {
                spec_apply_orientation(raster_of(img), t as int)
            } else {
                raster_of(img)
            },
            None => raster_of(img),
        },
        image_color(r) == image_color(img),
        !(tag matches Some(t) && 2 <= t <= 8) ==> r == img,
{
    match tag {
        Some(t) if 2 <= t && t <= 8 => apply_orientation(img, t),
        _ => img,
    }
}

/// `k` clockwise quarter turns.
pub open spec fn quarter_turned(r: Raster, k: nat) -> Raster
    decreases k,
{
    if k == 0 {
        r
    } else {
        rot90(quarter_turned(r, (k - 1) as nat))
    }
}

/// The raster that a symmetry of the square makes of `r`.
pub open spec fn oriented(r: Raster, e: Symmetry) -> Raster {
    let turned = quarter_turned(r, (e.0 % 4) as nat);
    if e.1 {
        flip_h(turned)
    } else {
        turned
    }
}

/// The tags are read as the symmetries of `orientation::tag_symmetry`: tag
/// `t` displays the stored pixels turned and mirrored as its symmetry says.
pub proof fn law_tags_display_symmetries(r: Raster, t: int)
    ensures
        spec_apply_orientation(r, t) == oriented(r, tag_symmetry(t)),
{
    reveal_with_fuel(quarter_turned, 4);
    let (w, h, m) = r;
    if t == 3 {
        assert(rot180(r).2 =~= rot90(rot90(r)).2);
    } else if t == 4 {
        assert(flip_v(r).2 =~= flip_h(rot90(rot90(r))).2);
    } else if t == 7 {
        assert(rot270(r).2 =~= rot90(rot90(rot90(r))).2);
    } else if t == 8 {
        assert(rot270(r).2 =~= rot90(rot90(rot90(r))).2);
    }
}

proof fn lemma_rect_domain(r: Raster)
    requires
        r.0 >= 0,
        r.1 >= 0,
    ensures
        raster_wf(rot90(r)),
        raster_wf(rot180(r)),
        raster_wf(rot270(r)),
        raster_wf(flip_h(r)),
        raster_wf(flip_v(r)),
{
    assert(rot90(r).2.dom() =~= Set::new(|p: (int, int)| in_rect(p, rot90(r).0, rot90(r).1)));
    assert(rot180(r).2.dom() =~= Set::new(|p: (int, int)| in_rect(p, rot180(r).0, rot180(r).1)));
    assert(rot270(r).2.dom() =~= Set::new(|p: (int, int)| in_rect(p, rot270(r).0, rot270(r).1)));
    assert(flip_h(r).2.dom() =~= Set::new(|p: (int, int)| in_rect(p, flip_h(r).0, flip_h(r).1)));
    assert(flip_v(r).2.dom() =~= Set::new(|p: (int, int)| in_rect(p, flip_v(r).0, flip_v(r).1)));
}

/// Orienting a well-formed raster gives a well-formed raster.
pub proof fn lemma_apply_orientation_wf(r: Raster, t: int)
    requires
        raster_wf(r),
    ensures
        raster_wf(spec_apply_orientation(r, t)),
{
    lemma_rect_domain(r);
    lemma_rect_domain(rot90(r));
    lemma_rect_domain(rot270(r));
}

/// Four quarter turns give back a well-formed raster.
proof fn lemma_full_turn(r: Raster)
    requires
        raster_wf(r),
    ensures
        rot90(rot270(r)) == r,
        rot90(rot90(rot180(r))) == r,
{
    assert(rot90(rot270(r)).2 =~= r.2);
    assert(rot90(rot90(rot180(r))).2 =~= r.2);
}

/// Writing `compose_orientation_cw(t, 90)` into a file whose pixels are `r`
/// displays exactly what a clockwise quarter turn of the current display
/// shows: saving a rotation keeps what the user saw.
pub proof fn law_saved_rotation_matches_display(r: Raster, t: int)
    requires
        raster_wf(r),
    ensures
        spec_apply_orientation(r, spec_compose_cw(t, 90)) == rot90(spec_apply_orientation(r, t)),
{
    let (w, h, m) = r;
    let t2 = spec_compose_cw(t, 90);
    if t == 2 {
        assert(flip_h(rot270(r)).2 =~= rot90(flip_h(r)).2);
    } else if t == 3 {
        assert(rot270(r).2 =~= rot90(rot180(r)).2);
    } else if t == 4 {
        assert(flip_h(rot90(r)).2 =~= rot90(flip_v(r)).2);
    } else if t == 5 {
        assert(flip_h(r).2 =~= rot90(flip_h(rot90(r))).2);
    } else if t == 6 {
        assert(rot180(r).2 =~= rot90(rot90(r)).2);
    } else if t == 7 {
        assert(flip_v(r).2 =~= rot90(flip_h(rot270(r))).2);
    } else if t == 8 {
        lemma_full_turn(r);
    }
}

/// Saving a left-right mirror through the tag keeps what the user saw.
pub proof fn law_saved_flip_h_matches_display(r: Raster, t: int)
    requires
        raster_wf(r),
    ensures
        spec_apply_orientation(r, spec_compose_flip_h(t)) == flip_h(spec_apply_orientation(r, t)),
{
    let (w, h, m) = r;
    if 1 <= t <= 8 {
        if t == 1 {
        } else if t == 2 {
            assert(r.2 =~= flip_h(flip_h(r)).2);
        } else if t == 3 {
            assert(flip_v(r).2 =~= flip_h(rot180(r)).2);
        } else if t == 4 {
            assert(rot180(r).2 =~= flip_h(flip_v(r)).2);
        } else if t == 5 {
            assert(rot90(r).2 =~= flip_h(flip_h(rot90(r))).2);
        } else if t == 6 {
        } else if t == 7 {
            assert(rot270(r).2 =~= flip_h(flip_h(rot270(r))).2);
        } else {
        }
    }
}

/// Saving an up-down mirror through the tag keeps what the user saw.
pub proof fn law_saved_flip_v_matches_display(r: Raster, t: int)
    requires
        raster_wf(r),
    ensures
        spec_apply_orientation(r, spec_compose_flip_v(t)) == flip_v(spec_apply_orientation(r, t)),
{
    let (w, h, m) = r;
    if t == 2 {
        assert(rot180(r).2 =~= flip_v(flip_h(r)).2);
    } else if t == 3 {
        assert(flip_h(r).2 =~= flip_v(rot180(r)).2);
    } else if t == 4 {
        assert(r.2 =~= flip_v(flip_v(r)).2);
    } else if t == 5 {
        assert(rot270(r).2 =~= flip_v(flip_h(rot90(r))).2);
    } else if t == 6 {
        assert(flip_h(rot270(r)).2 =~= flip_v(rot90(r)).2);
    } else if t == 7 {
        assert(rot90(r).2 =~= flip_v(flip_h(rot270(r))).2);
    } else if t == 8 {
        assert(flip_h(rot90(r)).2 =~= flip_v(rot270(r)).2);
    } else {
        assert(flip_v(r).2 =~= flip_v(r).2);
    }
}

proof fn lemma_multiple_of_quarter(i: int)
    requires
        i >= 0,
    ensures
        (90 * i) % 360 == 90 * (i % 4),
        quarter_turns(90 * i) == i % 4,
{
    assert((90 * i) % 360 == 90 * (i % 4)) by (nonlinear_arith)
        requires
            i >= 0,
    ;
    assert((90 * i) / 90 == i) by (nonlinear_arith)
        requires
            i >= 0,
    ;
}

/// Writing a rotation of `90 * i` degrees into the tag displays the current
/// display rotated by `90 * i` degrees.
pub proof fn law_saved_rotations_match_display(r: Raster, t: int, i: int)
    requires
        raster_wf(r),
        i >= 0,
    ensures
        spec_apply_orientation(r, spec_compose_cw(t, 90 * i))
            == spec_rotate_degrees(spec_apply_orientation(r, t), 90 * i),
{
    let k = i % 4;
    lemma_multiple_of_quarter(i);
    lemma_multiple_of_quarter(k);
    assert(spec_compose_cw(t, 90 * i) == spec_compose_cw(t, 90 * k));
    let x = spec_apply_orientation(r, t);
    lemma_apply_orientation_wf(r, t);
    let a1 = spec_compose_cw(t, 90);
    let a2 = spec_compose_cw(a1, 90);
    law_saved_rotation_matches_display(r, t);
    if k == 0 {
        assert(spec_compose_cw(t, 0) == normalize_tag(t));
    } else if k == 1 {
    } else if k == 2 {
        law_rotations_add(t, 1, 1);
        law_saved_rotation_matches_display(r, a1);
        assert(rot180(x).2 =~= rot90(rot90(x)).2);
    } else {
        law_rotations_add(t, 1, 1);
        law_rotations_add(t, 2, 1);
        law_saved_rotation_matches_display(r, a1);
        law_saved_rotation_matches_display(r, a2);
        assert(rot270(x).2 =~= rot90(rot90(rot90(x))).2);
    }
}

/// Saving a pending rotation of `90 * i` degrees followed by optional
/// mirrors, as `compose_transform` writes it into the tag, displays what
/// rotating and then mirroring the current display shows.
pub proof fn law_saved_transform_matches_display(r: Raster, t: int, i: int, fh: bool, fv: bool)
    requires
        raster_wf(r),
        i >= 0,
    ensures
        spec_apply_orientation(r, spec_compose_transform(t, 90 * i, fh, fv))
            == spec_transform(spec_apply_orientation(r, t), 90 * i, fh, fv),
{
    let a = spec_compose_cw(t, 90 * i);
    law_saved_rotations_match_display(r, t, i);
    law_saved_flip_h_matches_display(r, a);
    let b = if fh { spec_compose_flip_h(a) } else { a };
    law_saved_flip_v_matches_display(r, b);
}

/// Every image's raster covers exactly its rectangle.
pub proof fn law_images_are_well_formed(img: DynamicImage)
    ensures
        raster_wf(raster_of(img)),
{
    let r = raster_of(img);
    assert(r.2.dom() =~= Set::new(|p: (int, int)| in_rect(p, r.0, r.1)));
}

/// Writing `compose_orientation_cw(t, d)` into an image's EXIF tag shows
/// the image as tag `t` showed it, turned by the whole quarter turns in `d`.
pub proof fn law_image_saved_rotation(img: DynamicImage, t: int, d: int)
    requires
        d >= 0,
    ensures
        spec_apply_orientation(raster_of(img), spec_compose_cw(t, d))
            == spec_rotate_degrees(spec_apply_orientation(raster_of(img), t), 90 * ((d / 90) % 4)),
{
    let i = (d / 90) % 4;
    law_images_are_well_formed(img);
    lemma_multiple_of_quarter(i);
    assert(i % 4 == i);
    assert(spec_compose_cw(t, d) == spec_compose_cw(t, 90 * i));
    law_saved_rotations_match_display(raster_of(img), t, i);
}

/// Writing `compose_flip_h(t)` into an image's EXIF tag shows the image
/// as tag `t` showed it, mirrored left to right; likewise `compose_flip_v`
/// and top to bottom.
pub proof fn law_image_saved_flips(img: DynamicImage, t: int)
    ensures
        spec_apply_orientation(raster_of(img), spec_compose_flip_h(t)) == flip_h(
            spec_apply_orientation(raster_of(img), t),
        ),
        spec_apply_orientation(raster_of(img), spec_compose_flip_v(t)) == flip_v(
            spec_apply_orientation(raster_of(img), t),
        ),
{
    law_images_are_well_formed(img);
    law_saved_flip_h_matches_display(raster_of(img), t);
    law_saved_flip_v_matches_display(raster_of(img), t);
}

/// Writing `compose_transform(t, d, fh, fv)` into an image's EXIF tag
/// shows what `transform_image` makes of the image as tag `t` showed it,
/// turned by the whole quarter turns in `d`.
pub proof fn law_image_saved_transform(img: DynamicImage, t: int, d: int, fh: bool, fv: bool)
    requires
        d >= 0,
    ensures
        spec_apply_orientation(raster_of(img), spec_compose_transform(t, d, fh, fv))
            == spec_transform(spec_apply_orientation(raster_of(img), t), 90 * ((d / 90) % 4), fh, fv),
{
    let i = (d / 90) % 4;
    law_images_are_well_formed(img);
    lemma_multiple_of_quarter(i);
    assert(i % 4 == i);
    assert(spec_compose_transform(t, d, fh, fv) == spec_compose_transform(t, 90 * i, fh, fv));
    law_saved_transform_matches_display(raster_of(img), t, i, fh, fv);
}

/// How a supported file is decoded.
#[derive(Debug, Clone, Copy, PartialEq, Eq, Structural)]
pub enum Decoder {
    /// Rasterised by librsvg.
    Svg,
    /// libheif, which applies the container's rotation itself.
    Heif,
    /// jxl-oxide, then the EXIF orientation.
    Jxl,
    /// The `image` crate, then the EXIF orientation.
    Raster,
}

pub open spec fn spec_decoder_for(path: Seq<char>) -> Option<Decoder> {
    match file_name_of(path) {
        None => None,
        Some(name) => match spec_detect_format(name) {
            None => None,
            Some(FormatGroup::Svg) => Some(Decoder::Svg),
            Some(FormatGroup::Image) => {
                let e = spec_extension(path);
                if e == "heic"@ || e == "heif"@ {
                    Some(Decoder::Heif)
                } else if e == "jxl"@ {
                    Some(Decoder::Jxl)
                } else {
                    Some(Decoder::Raster)
                }
            },
        },
    }
}

/// Which decoder `load_image` uses for `path`; `None` for unsupported files.
pub fn decoder_for(path: &str) -> (r: Option<Decoder>)
    ensures
        r == spec_decoder_for(path@),
{
    let name = match file_name(path) {
        Some(n) => n,
        None => return None,
    };
    match detect_format(name) {
        None => None,
        Some(FormatGroup::Svg) => Some(Decoder::Svg),
        Some(FormatGroup::Image) => {
            let e = extension(path);
            if eq_chars(&e, "heic") || eq_chars(&e, "heif") {
                Some(Decoder::Heif)
            } else if eq_chars(&e, "jxl") {
                Some(Decoder::Jxl)
            } else {
                Some(Decoder::Raster)
            }
        },
    }
}

/// Whether a decoder leaves the EXIF orientation to the loader.
pub fn honours_exif(d: Decoder) -> (r: bool)
    ensures
        r == (d == Decoder::Jxl || d == Decoder::Raster),
{
    match d {
        Decoder::Jxl | Decoder::Raster => true,
        _ => false,
    }
}

/// One decoded animation frame: raw RGBA bytes, dimensions, and per-frame delay in ms.
pub struct AnimatedFrame {
    pub rgba: Vec<u8>,
    pub width: u32,
    pub height: u32,
    pub delay_ms: u32,
}

/// A frame as the decoder hands it over: RGBA bytes, dimensions and its delay
/// as the fraction `delay_numer / delay_denom` of a millisecond count.
pub struct DecodedFrame {
    pub rgba: Vec<u8>,
    pub width: u32,
    pub height: u32,
    pub delay_numer: u32,
    pub delay_denom: u32,
}

/// Frame delay in whole milliseconds: 100 when the delay is undefined, never
/// below 20.
pub open spec fn spec_frame_delay(numer: u32, denom: u32) -> u32 {
    if denom == 0 {
        100
    } else if numer / denom < 20 {
        20
    } else {
        numer / denom
    }
}

pub fn frame_delay_ms(numer: u32, denom: u32) -> (r: u32)
    ensures
        r == spec_frame_delay(numer, denom),
{
    if denom == 0 {
        100
    } else {
        let d = numer / denom;
        if d < 20 { 20 } else { d }
    }
}

/// Which animated format a path may hold.
#[derive(Debug, Clone, Copy, PartialEq, Eq, Structural)]
pub enum AnimationKind {
    Gif,
    WebP,
}

pub open spec fn spec_animation_kind(path: Seq<char>) -> Option<AnimationKind> {
    let e = spec_extension(path);
    if e == "gif"@ {
        Some(AnimationKind::Gif)
    } else if e == "webp"@ {
        Some(AnimationKind::WebP)
    } else {
        None
    }
}

/// GIF and WebP files are tried as animations; other files are not.
pub fn animation_kind(path: &str) -> (r: Option<AnimationKind>)
    ensures
        r == spec_animation_kind(path@),
{
    let e = extension(path);
    if eq_chars(&e, "gif") {
        Some(AnimationKind::Gif)
    } else if eq_chars(&e, "webp") {
        Some(AnimationKind::WebP)
    } else {
        None
    }
}

/// `a` carries the pixels of `f` with its delay in whole milliseconds.
pub open spec fn converted_frame(a: AnimatedFrame, f: DecodedFrame) -> bool {
    &&& a.rgba@ == f.rgba@
    &&& a.width == f.width
    &&& a.height == f.height
    &&& a.delay_ms == spec_frame_delay(f.delay_numer, f.delay_denom)
}

/// Turn decoded frames into an animation. A single frame (or none) is a
/// static image: `None`, so the caller decodes it the static way.
pub fn finish_animation(frames: Vec<DecodedFrame>) -> (r: Option<Vec<AnimatedFrame>>)
    requires
        forall|i: int| 0 <= i < frames@.len() ==> #[trigger] frames@[i].rgba@.len() == 4 * frames@[i].width
            * frames@[i].height,
    ensures
        r matches Some(out) ==> forall|i: int| 0 <= i < out@.len() ==> #[trigger] out@[i].rgba@.len() == 4
            * out@[i].width * out@[i].height,
        frames@.len() <= 1 <==> r is None,
        r matches Some(out) ==> {
            &&& out@.len() == frames@.len()
            &&& forall|i: int| 0 <= i < out@.len() ==> converted_frame(#[trigger] out@[i], frames@[i])
        },
{
    if frames.len() <= 1 {
        return None;
    }
    let ghost orig = frames@;
    let mut rest = frames;
    let mut back: Vec<AnimatedFrame> = Vec::new();
    while rest.len() > 0
        invariant
            rest.len() <= orig.len(),
            rest@ == orig.subrange(0, rest.len() as int),
            back@.len() == orig.len() - rest.len(),
            forall|j: int| 0 <= j < back@.len() ==> converted_frame(#[trigger] back@[j], orig[orig.len() - 1 - j]),
        decreases rest.len(),
    {
        let f = rest.pop().unwrap();
        assert(rest@ =~= orig.subrange(0, rest.len() as int));
        let delay_ms = frame_delay_ms(f.delay_numer, f.delay_denom);
        back.push(AnimatedFrame { rgba: f.rgba, width: f.width, height: f.height, delay_ms });
    }
    let ghost done = back@;
    let mut out: Vec<AnimatedFrame> = Vec::new();
    while back.len() > 0
        invariant
            back@ == done.subrange(0, back.len() as int),
            done.len() == orig.len(),
            out@.len() == done.len() - back.len(),
            forall|j: int| 0 <= j < out@.len() ==> #[trigger] out@[j] == done[done.len() - 1 - j],
        decreases back.len(),
    {
        let f = back.pop().unwrap();
        assert(back@ =~= done.subrange(0, back.len() as int));
        out.push(f);
    }
    assert forall|i: int| 0 <= i < out@.len() implies converted_frame(#[trigger] out@[i], orig[i]) by {
        let j = done.len() - 1 - i;
        assert(out@[i] == done[j]);
        assert(orig[orig.len() - 1 - j] == orig[i]);
    }
    assert(out@.len() == orig.len());
    Some(out)
}

/// Which decoder a supported raster file goes to follows its (lower-cased)
/// extension alone: libheif exactly for `heic` and `heif`, jxl-oxide exactly
/// for `jxl`, and the `image` crate, which honours the EXIF tag, for every
/// other one.
pub proof fn law_decoder_follows_extension(path: Seq<char>)
    requires
        spec_decoder_for(path) is Some,
        spec_decoder_for(path) != Some(Decoder::Svg),
    ensures
        ({
            let e = spec_extension(path);
            &&& spec_decoder_for(path) == Some(Decoder::Heif) <==> (e == "heic"@ || e == "heif"@)
            &&& spec_decoder_for(path) == Some(Decoder::Jxl) <==> e == "jxl"@
            &&& spec_decoder_for(path) == Some(Decoder::Raster) <==> !(e == "heic"@ || e == "heif"@ || e == "jxl"@)
        }),
{
    let name = file_name_of(path).unwrap();
    assert(spec_detect_format(name) == Some(FormatGroup::Image));
    reveal_strlit("heic");
    reveal_strlit("heif");
    reveal_strlit("jxl");
    assert("jxl"@ != "heic"@ && "jxl"@ != "heif"@) by {
        assert("jxl"@.len() != "heic"@.len());
    }
}

} // verus!
