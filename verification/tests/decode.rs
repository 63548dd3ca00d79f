use image::codecs::gif::GifEncoder;
use image::{Delay, DynamicImage, Frame, ImageFormat, Rgba, RgbaImage};
use omarchy_imageview::decode::{
    finish_jxl, load_animated_frames, load_jxl, load_raster, read_exif_orientation,
};

fn two_by_one() -> RgbaImage {
    let mut img = RgbaImage::new(2, 1);
    img.put_pixel(0, 0, Rgba([255, 0, 0, 255]));
    img.put_pixel(1, 0, Rgba([0, 0, 255, 255]));
    img
}

fn encoded(format: ImageFormat) -> Vec<u8> {
    let mut out = Vec::new();
    DynamicImage::ImageRgba8(two_by_one())
        .write_to(&mut std::io::Cursor::new(&mut out), format)
        .unwrap();
    out
}

/// A little-endian TIFF header with one IFD entry: Orientation = `tag`.
fn tiff_with_orientation(tag: u16) -> Vec<u8> {
    let mut b = vec![b'I', b'I', 42, 0, 8, 0, 0, 0];
    b.extend_from_slice(&1u16.to_le_bytes());
    b.extend_from_slice(&0x0112u16.to_le_bytes());
    b.extend_from_slice(&3u16.to_le_bytes());
    b.extend_from_slice(&1u32.to_le_bytes());
    b.extend_from_slice(&tag.to_le_bytes());
    b.extend_from_slice(&[0, 0]);
    b.extend_from_slice(&0u32.to_le_bytes());
    b
}

fn gif_of(frames: &[(u8, u32)]) -> Vec<u8> {
    let mut out = Vec::new();
    {
        let mut enc = GifEncoder::new(&mut out);
        let frames: Vec<Frame> = frames
            .iter()
            .map(|&(shade, ms)| {
                let buf = RgbaImage::from_pixel(2, 2, Rgba([shade, shade, shade, 255]));
                Frame::from_parts(buf, 0, 0, Delay::from_numer_denom_ms(ms, 1))
            })
            .collect();
        enc.encode_frames(frames).unwrap();
    }
    out
}

#[test]
fn exif_orientation_is_read_from_the_bytes() {
    assert_eq!(read_exif_orientation(&tiff_with_orientation(6)), Some(6));
    assert_eq!(read_exif_orientation(&tiff_with_orientation(3)), Some(3));
    assert_eq!(read_exif_orientation(b"not an image at all"), None);
    assert_eq!(read_exif_orientation(&encoded(ImageFormat::Png)), None);
}

#[test]
fn raster_files_decode_by_their_extension() {
    let png = encoded(ImageFormat::Png);
    let img = load_raster(&png, "/pics/a.png").unwrap();
    assert_eq!((img.width(), img.height()), (2, 1));
    assert_eq!(img.to_rgba8().get_pixel(1, 0).0, [0, 0, 255, 255]);
    assert!(load_raster(&png, "/pics/a.jpg").is_none());
    assert!(load_raster(&png, "/pics/noextension").is_none());
    assert!(load_raster(b"garbage", "/pics/a.png").is_none());
    let bmp = encoded(ImageFormat::Bmp);
    let img = load_raster(&bmp, "/pics/a.BMP").unwrap();
    assert_eq!(img.to_rgba8().get_pixel(0, 0).0, [255, 0, 0, 255]);
}

#[test]
fn jxl_that_does_not_decode_is_none() {
    assert!(load_jxl(b"").is_none());
    assert!(load_jxl(&encoded(ImageFormat::Png)).is_none());
}

#[test]
fn animated_gif_frames_come_in_order() {
    let gif = gif_of(&[(10, 50), (200, 5), (90, 0)]);
    let frames = load_animated_frames(&gif, "/pics/anim.gif").unwrap();
    assert_eq!(frames.len(), 3);
    assert_eq!((frames[0].width, frames[0].height), (2, 2));
    assert_eq!(frames[0].rgba.len(), 16);
    assert!(frames[0].rgba[0] < frames[1].rgba[0]);
    assert!(frames[2].rgba[0] < frames[1].rgba[0]);
    assert_eq!(frames[0].delay_ms, 50);
    assert_eq!(frames[1].delay_ms, 20);
    assert!(load_animated_frames(&gif, "/pics/anim.png").is_none());
}

#[test]
fn still_images_are_not_animations() {
    let one = gif_of(&[(10, 50)]);
    assert!(load_animated_frames(&one, "/pics/still.gif").is_none());
    let webp = encoded(ImageFormat::WebP);
    assert!(load_animated_frames(&webp, "/pics/still.webp").is_none());
    assert!(load_animated_frames(b"junk", "/pics/x.gif").is_none());
}

#[test]
fn rendered_samples_become_an_upright_image() {
    let samples = vec![255, 0, 0, 255, 0, 0, 255, 255];
    let img = finish_jxl(samples.clone(), 2, 1, None).unwrap();
    assert_eq!((img.width(), img.height()), (2, 1));
    assert_eq!(img.to_rgba8().get_pixel(0, 0).0, [255, 0, 0, 255]);
    let turned = finish_jxl(samples.clone(), 2, 1, Some(3)).unwrap();
    assert_eq!(turned.to_rgba8().get_pixel(0, 0).0, [0, 0, 255, 255]);
    let quarter = finish_jxl(samples.clone(), 2, 1, Some(6)).unwrap();
    assert_eq!((quarter.width(), quarter.height()), (1, 2));
    assert_eq!(quarter.to_rgba8().get_pixel(0, 0).0, [255, 0, 0, 255]);
    let kept = finish_jxl(samples.clone(), 2, 1, Some(1)).unwrap();
    assert_eq!(kept.to_rgba8().into_raw(), samples);
    assert!(finish_jxl(vec![0; 7], 2, 1, None).is_none());
}
