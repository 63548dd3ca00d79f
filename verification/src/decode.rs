//! Decoding the bytes of an image file: the `image`, `exif` and `jxl-oxide`
//! decoders are called through the trusted items below; what the viewer does
//! with their results (orientation, the animation checks) is verified.

use vstd::prelude::*;
use image::AnimationDecoder;
use image::DynamicImage;
use crate::image_loader::{
    animation_kind, apply_exif_orientation, bytes_raster, finish_animation, image_color, raster_of, rgba8_color,
    rgba_image, spec_animation_kind, spec_apply_orientation, spec_frame_delay, AnimatedFrame,
    AnimationKind, DecodedFrame, Raster,
};

verus! {

#[verifier::external_type_specification]
#[verifier::external_body]
pub struct ExJxlRender(jxl_oxide::Render);

/// The orientation tag that `kamadak-exif` reads from a file's bytes: the
/// primary image's `Orientation` field as an unsigned number, or `None` when
/// the container, the EXIF data or the field is missing or unreadable.
pub uninterp spec fn exif_orientation_of(bytes: Seq<u8>) -> Option<u32>;

/// `exif::Reader::read_from_container` over the bytes, then
/// `get_field(Tag::Orientation, In::PRIMARY)` and `get_uint(0)`.
#[verifier::external_body]
fn exif_orientation(bytes: &[u8]) -> (r: Option<u32>)
    ensures
        r == exif_orientation_of(bytes@),
{
    let exif = exif::Reader::new().read_from_container(&mut std::io::Cursor::new(bytes)).ok()?;
    exif.get_field(exif::Tag::Orientation, exif::In::PRIMARY)?.value.get_uint(0)
}

/// The EXIF orientation tag of an image file's bytes.
pub fn read_exif_orientation(bytes: &[u8]) -> (r: Option<u32>)
    ensures
        r == exif_orientation_of(bytes@),
{
    exif_orientation(bytes)
}

/// The raster an image shows once its EXIF tag is honoured: tags 2 to 8 are
/// applied, anything else leaves it as decoded.
pub open spec fn exif_oriented(r: Raster, tag: Option<u32>) -> Raster {
    match tag {
        Some(t) => if 2 <= t <= 8 {
            spec_apply_orientation(r, t as int)
        } else {
            r
        },
        None => r,
    }
}

/// What the `image` crate decodes a file's bytes to, with the format taken
/// from the extension of its path as `image::open` takes it: the raster and
/// the colour type, or `None`. The JPEG decoder's vector code paths give the
/// same output as its scalar ones (zune-jpeg, `idct/avx2.rs`).
pub uninterp spec fn raster_decode(bytes: Seq<u8>, path: Seq<char>) -> Option<(Raster, int)>;

/// `ImageReader` over the bytes with the format of `ImageFormat::from_path`,
/// the default limits, then `decode`.
#[verifier::external_body]
fn decode_raster(bytes: &[u8], path: &str) -> (r: Option<DynamicImage>)
    ensures
        r is Some <==> raster_decode(bytes@, path@) is Some,
        r matches Some(img) ==> (raster_of(img), image_color(img)) == raster_decode(bytes@, path@).unwrap(),
{
    let mut reader = image::ImageReader::new(std::io::Cursor::new(bytes));
    reader.set_format(image::ImageFormat::from_path(path).ok()?);
    reader.decode().ok()
}

/// A raster image file (`path` gives its format), decoded and turned
/// upright by its EXIF tag.
pub fn load_raster(bytes: &[u8], path: &str) -> (r: Option<DynamicImage>)
    ensures
        r is Some <==> raster_decode(bytes@, path@) is Some,
        r matches Some(img) ==> {
            &&& raster_of(img) == exif_oriented(raster_decode(bytes@, path@).unwrap().0, exif_orientation_of(bytes@))
            &&& image_color(img) == raster_decode(bytes@, path@).unwrap().1
        },
{
    match decode_raster(bytes, path) {
        Some(img) => Some(apply_exif_orientation(img, exif_orientation(bytes))),
        None => None,
    }
}

/// Whether `jxl-oxide` decodes a file's bytes and renders its first frame,
/// and the width and height of that render's sample stream. These follow
/// from the bytes alone; only the samples themselves are computed in
/// floating point by code chosen for the machine, and they get no name.
pub uninterp spec fn jxl_size_of(bytes: Seq<u8>) -> Option<(u32, u32)>;

/// `JxlImage::builder().read` over the bytes, `render_frame(0)`, and the
/// width and height of the render's stream (`Render::stream`).
#[verifier::external_body]
fn jxl_render(bytes: &[u8]) -> (r: Option<(jxl_oxide::Render, u32, u32)>)
    ensures
        match r {
            Some((_, w, h)) => jxl_size_of(bytes@) == Some((w, h)),
            None => jxl_size_of(bytes@) is None,
        },
{
    let image = jxl_oxide::JxlImage::builder().read(std::io::Cursor::new(bytes)).ok()?;
    let render = image.render_frame(0).ok()?;
    let (w, h) = {
        let stream = render.stream();
        (stream.width(), stream.height())
    };
    Some((render, w, h))
}

/// `ImageStream::write_to_buffer` of the render's samples into `buf`, which
/// writes through a slice and so keeps its length.
#[verifier::external_body]
fn jxl_write(render: &jxl_oxide::Render, buf: &mut Vec<u8>)
    ensures
        final(buf)@.len() == old(buf)@.len(),
{
    render.stream().write_to_buffer(buf.as_mut_slice());
}

/// The image a rendered RGBA buffer of `w` by `h` pixels makes, turned
/// upright by the EXIF tag `tag`: `None` when the buffer is shorter than
/// `4 * w * h` bytes.
pub fn finish_jxl(buf: Vec<u8>, w: u32, h: u32, tag: Option<u32>) -> (r: Option<DynamicImage>)
    ensures
        r is Some <==> 4 * w * h <= buf@.len(),
        r matches Some(img) ==> {
            &&& raster_of(img) == exif_oriented(bytes_raster(buf@, w as int, h as int), tag)
            &&& image_color(img) == rgba8_color()
        },
{
    match rgba_image(buf, w, h) {
        Some(img) => Some(apply_exif_orientation(img, tag)),
        None => None,
    }
}

/// `img` is what a JPEG XL file with these bytes shows when its render wrote
/// the samples `samples`: a `w` by `h` RGBA image of them (the size of the
/// file's render), turned upright by the file's EXIF tag.
pub open spec fn jxl_image_from(img: DynamicImage, bytes: Seq<u8>, samples: Seq<u8>) -> bool {
    let (w, h) = jxl_size_of(bytes).unwrap();
    &&& samples.len() == 4 * w * h
    &&& raster_of(img) == exif_oriented(bytes_raster(samples, w as int, h as int), exif_orientation_of(bytes))
    &&& image_color(img) == rgba8_color()
}

/// A JPEG XL file, rendered to 8-bit RGBA (four bytes per pixel) and turned
/// upright by its EXIF tag. `None` when it does not decode, or when its
/// buffer would not fit in memory.
pub fn load_jxl(bytes: &[u8]) -> (r: Option<DynamicImage>)
    ensures
        r is Some <==> (jxl_size_of(bytes@) matches Some((w, h)) && 4 * w * h <= usize::MAX),
        r matches Some(img) ==> exists|samples: Seq<u8>| #[trigger] jxl_image_from(img, bytes@, samples),
{
    let (render, w, h) = match jxl_render(bytes) {
        Some(t) => t,
        None => return None,
    };
    proof {
        assert(w * h <= 0xffff_ffff_ffff_ffff) by (nonlinear_arith)
            requires
                w <= 0xffff_ffff,
                h <= 0xffff_ffff,
        ;
        assert(4 * (w * h) == 4 * w * h) by (nonlinear_arith);
    }
    let len = match (w as usize).checked_mul(h as usize) {
        Some(n) => match n.checked_mul(4) {
            Some(m) => m,
            None => return None,
        },
        None => return None,
    };
    let mut buf = vec![0u8; len];
    jxl_write(&render, &mut buf);
    let ghost samples = buf@;
    let r = finish_jxl(buf, w, h, exif_orientation(bytes));
    proof {
        if r is Some {
            assert(jxl_image_from(r->0, bytes@, samples));
        }
    }
    r
}

/// A decoded frame as plain values: RGBA bytes, width, height and the delay
/// as a fraction of milliseconds.
pub type FrameData = (Seq<u8>, u32, u32, u32, u32);

pub open spec fn frame_data(f: DecodedFrame) -> FrameData {
    (f.rgba@, f.width, f.height, f.delay_numer, f.delay_denom)
}

pub open spec fn frames_data(v: Seq<DecodedFrame>) -> Seq<FrameData> {
    v.map_values(|f: DecodedFrame| frame_data(f))
}

/// The frames the `image` crate's GIF decoder reads from the bytes
/// (`GifDecoder`, `into_frames`, `collect_frames`), or `None`.
pub uninterp spec fn gif_frames_of(bytes: Seq<u8>) -> Option<Seq<FrameData>>;

/// Whether the `image` crate's WebP decoder finds an animation in the bytes
/// (`WebPDecoder::has_animation`), or `None` when it cannot read them.
pub uninterp spec fn webp_animated_of(bytes: Seq<u8>) -> Option<bool>;

/// The frames the `image` crate's WebP decoder reads from the bytes
/// (`WebPDecoder`, `into_frames`, `collect_frames`), or `None`.
pub uninterp spec fn webp_frames_of(bytes: Seq<u8>) -> Option<Seq<FrameData>>;

/// `GifDecoder::new` over the bytes and its frames, each as its RGBA buffer,
/// size and delay (`Delay::numer_denom_ms`).
#[verifier::external_body]
fn gif_frames(bytes: &[u8]) -> (r: Option<Vec<DecodedFrame>>)
    ensures
        match r {
            Some(v) => gif_frames_of(bytes@) == Some(frames_data(v@)),
            None => gif_frames_of(bytes@) is None,
        },
{
    let decoder = image::codecs::gif::GifDecoder::new(std::io::Cursor::new(bytes)).ok()?;
    let frames = decoder.into_frames().collect_frames().ok()?;
    Some(frames.into_iter().map(|f| {
        let (delay_numer, delay_denom) = f.delay().numer_denom_ms();
        let buf = f.into_buffer();
        DecodedFrame { width: buf.width(), height: buf.height(), rgba: buf.into_raw(), delay_numer, delay_denom }
    }).collect())
}

/// `WebPDecoder::new` over the bytes, then `has_animation`.
#[verifier::external_body]
fn webp_animated(bytes: &[u8]) -> (r: Option<bool>)
    ensures
        r == webp_animated_of(bytes@),
{
    let decoder = image::codecs::webp::WebPDecoder::new(std::io::Cursor::new(bytes)).ok()?;
    Some(decoder.has_animation())
}

/// `WebPDecoder::new` over the bytes and its frames, each as its RGBA
/// buffer, size and delay (`Delay::numer_denom_ms`).
#[verifier::external_body]
fn webp_frames(bytes: &[u8]) -> (r: Option<Vec<DecodedFrame>>)
    ensures
        match r {
            Some(v) => webp_frames_of(bytes@) == Some(frames_data(v@)),
            None => webp_frames_of(bytes@) is None,
        },
{
    let decoder = image::codecs::webp::WebPDecoder::new(std::io::Cursor::new(bytes)).ok()?;
    let frames = decoder.into_frames().collect_frames().ok()?;
    Some(frames.into_iter().map(|f| {
        let (delay_numer, delay_denom) = f.delay().numer_denom_ms();
        let buf = f.into_buffer();
        DecodedFrame { width: buf.width(), height: buf.height(), rgba: buf.into_raw(), delay_numer, delay_denom }
    }).collect())
}

/// The frames an animated file of this kind holds: every GIF's frames; a
/// WebP's only when it is animated.
pub open spec fn animated_source(kind: AnimationKind, bytes: Seq<u8>) -> Option<Seq<FrameData>> {
    match kind {
        AnimationKind::Gif => gif_frames_of(bytes),
        AnimationKind::WebP => if webp_animated_of(bytes) == Some(true) {
            webp_frames_of(bytes)
        } else {
            None
        },
    }
}

/// The frames of the file at `path` with these bytes, when it is a GIF or
/// WebP file that decodes.
pub open spec fn source_frames(bytes: Seq<u8>, path: Seq<char>) -> Option<Seq<FrameData>> {
    match spec_animation_kind(path) {
        Some(k) => animated_source(k, bytes),
        None => None,
    }
}

/// Every frame's buffer holds four bytes for each of its pixels.
pub open spec fn whole_frames(fs: Seq<FrameData>) -> bool {
    forall|i: int| 0 <= i < fs.len() ==> (#[trigger] fs[i]).0.len() == 4 * fs[i].1 * fs[i].2
}

/// A shown frame as plain values: RGBA bytes, width, height, delay in ms.
pub open spec fn shown_frame(a: AnimatedFrame) -> (Seq<u8>, u32, u32, u32) {
    (a.rgba@, a.width, a.height, a.delay_ms)
}

/// What a decoded frame is shown as.
pub open spec fn frame_shown_as(f: FrameData) -> (Seq<u8>, u32, u32, u32) {
    (f.0, f.1, f.2, spec_frame_delay(f.3, f.4))
}

/// The frames of an animated GIF or WebP file, in order, with their delays
/// in whole milliseconds. `None` for other files, for files that do not
/// decode, for a single frame (a still image) and for a frame whose buffer
/// does not hold its pixels.
pub fn load_animated_frames(bytes: &[u8], path: &str) -> (r: Option<Vec<AnimatedFrame>>)
    ensures
        r is Some <==> (source_frames(bytes@, path@) matches Some(fs) && fs.len() > 1 && whole_frames(fs)),
        r matches Some(out) ==> {
            &&& out@.len() == source_frames(bytes@, path@).unwrap().len()
            &&& forall|i: int| 0 <= i < out@.len() ==> shown_frame(#[trigger] out@[i]) == frame_shown_as(
                source_frames(bytes@, path@).unwrap()[i],
            )
        },
{
    let kind = match animation_kind(path) {
        Some(k) => k,
        None => return None,
    };
    let decoded = match kind {
        AnimationKind::Gif => gif_frames(bytes),
        AnimationKind::WebP => match webp_animated(bytes) {
            Some(true) => webp_frames(bytes),
            _ => None,
        },
    };
    let frames = match decoded {
        Some(f) => f,
        None => return None,
    };
    let ghost fs = frames_data(frames@);
    assert(source_frames(bytes@, path@) == Some(fs));
    let mut i: usize = 0;
    while i < frames.len()
        invariant
            i <= frames.len(),
            fs == frames_data(frames@),
            source_frames(bytes@, path@) == Some(fs),
            forall|j: int| 0 <= j < i ==> (#[trigger] frames@[j]).rgba@.len() == 4 * frames@[j].width
                * frames@[j].height,
        decreases frames.len() - i,
    {
        let f = &frames[i];
        let n = f.rgba.len() as u128;
        let w = f.width as u128;
        let h = f.height as u128;
        assert(w * h <= 0xffff_ffff_ffff_ffff_ffff_ffff_ffff) by (nonlinear_arith)
            requires
                w <= 0xffff_ffff,
                h <= 0xffff_ffff,
        ;
        assert(4 * (w * h) == 4 * w * h) by (nonlinear_arith);
        assert(n == f.rgba@.len() && w == f.width && h == f.height);
        if n != 4 * (w * h) {
            proof {
                assert(fs[i as int] == frame_data(frames@[i as int]));
                assert(fs[i as int].0.len() != 4 * fs[i as int].1 * fs[i as int].2);
                assert(!whole_frames(fs));
            }
            return None;
        }
        i = i + 1;
    }
    proof {
        assert forall|j: int| 0 <= j < fs.len() implies (#[trigger] fs[j]).0.len() == 4 * fs[j].1 * fs[j].2 by {
            assert(fs[j] == frame_data(frames@[j]));
        }
    }
    let ghost before = frames@;
    let r = finish_animation(frames);
    proof {
        if r is Some {
            let out = r->0;
            assert forall|j: int| 0 <= j < out@.len() implies shown_frame(#[trigger] out@[j]) == frame_shown_as(fs[j]) by {
                assert(fs[j] == frame_data(before[j]));
            }
        }
    }
    r
}

} // verus!
