//! Where thumbnails are cached: file names derived from a SHA-256 digest.

use vstd::prelude::*;
use crate::paths::{join, spec_join};
use crate::text::push_char;
use sha2::Digest;
use vstd::string::StringSliceAdditionalSpecFns;
use image::DynamicImage;
use crate::image_loader::{image_color, image_dimensions, raster_of, Raster};

verus! {

/// Longest edge of a generated thumbnail, in pixels.
pub const THUMBNAIL_SIZE: u32 = 256;

/// The SHA-256 digest of a byte string.
pub uninterp spec fn sha256_of(data: Seq<u8>) -> Seq<u8>;

/// `sha2::Sha256::digest`: a 32-byte digest that depends only on the input.
#[verifier::external_body]
fn sha256(data: &[u8]) -> (r: Vec<u8>)
    ensures
        r@ == sha256_of(data@),
        r@.len() == 32,
{
    sha2::Sha256::digest(data).to_vec()
}

pub open spec fn hex_char(v: int) -> char {
    if v < 10 {
        (48 + v) as char
    } else {
        (87 + v) as char
    }
}

/// Lower-case hexadecimal text of a byte string, two digits per byte.
pub open spec fn lower_hex(bytes: Seq<u8>) -> Seq<char>
    decreases bytes.len(),
{
    if bytes.len() == 0 {
        Seq::empty()
    } else {
        lower_hex(bytes.drop_last()).push(hex_char((bytes.last() / 16) as int)).push(
            hex_char((bytes.last() % 16) as int),
        )
    }
}

fn hex_digit_char(v: u8) -> (r: char)
    requires
        v < 16,
    ensures
        r == hex_char(v as int),
{
    if v < 10 {
        (48 + v) as char
    } else {
        (87 + v) as char
    }
}

pub fn to_lower_hex(bytes: &[u8]) -> (r: String)
    ensures
        r@ == lower_hex(bytes@),
        r@.len() == 2 * bytes@.len(),
{
    let mut out = String::new();
    let mut i: usize = 0;
    while i < bytes.len()
        invariant
            0 <= i <= bytes.len(),
            out@ == lower_hex(bytes@.subrange(0, i as int)),
            out@.len() == 2 * i,
        decreases bytes.len() - i,
    {
        let b = bytes[i];
        let hi = hex_digit_char(b / 16);
        let lo = hex_digit_char(b % 16);
        push_char(&mut out, hi);
        push_char(&mut out, lo);
        assert(bytes@.subrange(0, i + 1).drop_last() =~= bytes@.subrange(0, i as int));
        i = i + 1;
    }
    assert(bytes@.subrange(0, bytes@.len() as int) =~= bytes@);
    out
}

/// The cache key of a file from its identity text (its canonical path and
/// modification time): the lower-case hex SHA-256 digest of that text's bytes.
pub fn cache_key_of(identity: &str) -> (r: String)
    ensures
        r@ == lower_hex(sha256_of(identity.spec_bytes())),
        r@.len() == 64,
{
    let digest = sha256(identity.as_bytes());
    to_lower_hex(digest.as_slice())
}

/// The text a cache key is digested from: a version tag, the file's
/// canonical path and the text of its modification time.
pub fn cache_identity(abs_path: &str, mtime: &str) -> (r: String)
    ensures
        r@ == "v2:"@ + abs_path@ + ":"@ + mtime@,
{
    let mut s = "v2:".to_owned();
    s.append(abs_path);
    s.append(":");
    s.append(mtime);
    s
}

/// What `DynamicImage::thumbnail` makes of an image with a raster and a
/// colour type (which fixes how its channels are averaged) for given bounds.
pub uninterp spec fn thumbnail_raster(r: Raster, color: int, max_w: u32, max_h: u32) -> Raster;

/// `DynamicImage::thumbnail`: the image scaled down, aspect ratio kept, to fit
/// within `max_w` by `max_h`, in the same colour type; each edge of the
/// result is at least one pixel.
#[verifier::external_body]
fn image_thumbnail(img: &DynamicImage, max_w: u32, max_h: u32) -> (r: DynamicImage)
    requires
        max_w >= 1,
        max_h >= 1,
    ensures
        raster_of(r) == thumbnail_raster(raster_of(*img), image_color(*img), max_w, max_h),
        image_color(r) == image_color(*img),
        1 <= image_dimensions(r).0 <= max_w,
        1 <= image_dimensions(r).1 <= max_h,
{
    img.thumbnail(max_w, max_h)
}

/// The thumbnail of a decoded image: scaled to fit within
/// `THUMBNAIL_SIZE` pixels on each edge, in the image's colour type.
pub fn make_thumbnail(img: &DynamicImage) -> (r: DynamicImage)
    ensures
        raster_of(r) == thumbnail_raster(raster_of(*img), image_color(*img), THUMBNAIL_SIZE, THUMBNAIL_SIZE),
        image_color(r) == image_color(*img),
        1 <= image_dimensions(r).0 <= THUMBNAIL_SIZE,
        1 <= image_dimensions(r).1 <= THUMBNAIL_SIZE,
{
    image_thumbnail(img, THUMBNAIL_SIZE, THUMBNAIL_SIZE)
}

/// Thumbnails kept as PNG files in one directory.
pub struct ThumbnailCache {
    pub cache_dir: String,
}

impl ThumbnailCache {
    pub fn new(cache_dir: String) -> (r: Self)
        ensures
            r.cache_dir@ == cache_dir@,
    {
        ThumbnailCache { cache_dir }
    }

    /// The cached thumbnail of the file with cache key `key`: `<key>.png` in
    /// the cache directory.
    pub fn cached_path(&self, key: &str) -> (r: String)
        ensures
            r@ == spec_join(self.cache_dir@, key@ + ".png"@),
    {
        let mut name = key.to_owned();
        name.append(".png");
        join(self.cache_dir.as_str(), name.as_str())
    }
}

} // verus!
