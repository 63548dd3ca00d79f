use omarchy_imageview::app_state::ScaleMode;
use omarchy_imageview::display::{flip_rgba, next_frame, picture_fit, rotate_rgba, PictureFit};
use omarchy_imageview::image_loader::{pack_plane, plane_image, rgba_image};

const RED: [u8; 4] = [255, 0, 0, 255];
const BLUE: [u8; 4] = [0, 0, 255, 255];
const GREEN: [u8; 4] = [0, 255, 0, 255];

fn pixels(ps: &[[u8; 4]]) -> Vec<u8> {
    ps.iter().flat_map(|p| p.iter().copied()).collect()
}

#[test]
fn rotate_quarter_turn_clockwise() {
    let (out, w, h) = rotate_rgba(pixels(&[RED, BLUE]), 2, 1, 90).unwrap();
    assert_eq!((w, h), (1, 2));
    assert_eq!(out, pixels(&[RED, BLUE]));
    let (out, w, h) = rotate_rgba(pixels(&[RED, BLUE, GREEN, RED]), 2, 2, 90).unwrap();
    assert_eq!((w, h), (2, 2));
    assert_eq!(out, pixels(&[GREEN, RED, RED, BLUE]));
}

#[test]
fn rotate_half_and_three_quarter_turns() {
    let (out, w, h) = rotate_rgba(pixels(&[RED, BLUE]), 2, 1, 180).unwrap();
    assert_eq!((w, h), (2, 1));
    assert_eq!(out, pixels(&[BLUE, RED]));
    let (out, w, h) = rotate_rgba(pixels(&[RED, BLUE]), 2, 1, 270).unwrap();
    assert_eq!((w, h), (1, 2));
    assert_eq!(out, pixels(&[BLUE, RED]));
}

#[test]
fn rotate_refuses_other_angles_and_short_buffers() {
    assert!(rotate_rgba(pixels(&[RED, BLUE]), 2, 1, 0).is_none());
    assert!(rotate_rgba(pixels(&[RED, BLUE]), 2, 1, 450).is_none());
    assert!(rotate_rgba(pixels(&[RED]), 2, 1, 90).is_none());
}

#[test]
fn rotate_drops_bytes_past_the_picture() {
    let mut bytes = pixels(&[RED, BLUE]);
    bytes.extend_from_slice(&[9, 9, 9]);
    let (out, _, _) = rotate_rgba(bytes, 2, 1, 180).unwrap();
    assert_eq!(out, pixels(&[BLUE, RED]));
}

#[test]
fn four_quarter_turns_give_back_the_picture() {
    let start = pixels(&[RED, BLUE, GREEN, RED, BLUE, GREEN]);
    let (mut bytes, mut w, mut h) = (start.clone(), 3u32, 2u32);
    for _ in 0..4 {
        let (b, nw, nh) = rotate_rgba(bytes, w, h, 90).unwrap();
        bytes = b;
        w = nw;
        h = nh;
    }
    assert_eq!((bytes, w, h), (start, 3, 2));
}

#[test]
fn flips_mirror_the_picture() {
    let (out, w, h) = flip_rgba(pixels(&[RED, BLUE]), 2, 1, true).unwrap();
    assert_eq!((w, h), (2, 1));
    assert_eq!(out, pixels(&[BLUE, RED]));
    let (out, _, _) = flip_rgba(pixels(&[RED, BLUE]), 1, 2, false).unwrap();
    assert_eq!(out, pixels(&[BLUE, RED]));
    let (out, _, _) = flip_rgba(pixels(&[RED, BLUE]), 1, 2, true).unwrap();
    assert_eq!(out, pixels(&[RED, BLUE]));
    assert!(flip_rgba(vec![1, 2, 3], 1, 1, true).is_none());
}

#[test]
fn rgba_image_reads_rows() {
    let img = rgba_image(pixels(&[RED, BLUE, GREEN, RED]), 2, 2).unwrap();
    assert_eq!((img.width(), img.height()), (2, 2));
    assert_eq!(img.to_rgba8().get_pixel(0, 1).0, GREEN);
    assert!(rgba_image(vec![0; 15], 2, 2).is_none());
}

#[test]
fn plane_rows_are_packed_without_padding() {
    let data = [1, 2, 3, 4, 0, 0, 5, 6, 7, 8, 0, 0];
    assert_eq!(pack_plane(&data, 1, 2, 6), vec![1, 2, 3, 4, 5, 6, 7, 8]);
    assert_eq!(pack_plane(&data, 0, 2, 6), Vec::<u8>::new());
    assert_eq!(pack_plane(&data[..4], 1, 1, 100), vec![1, 2, 3, 4]);
    let img = plane_image(&data, 1, 2, 6).unwrap();
    assert_eq!(img.to_rgba8().get_pixel(0, 1).0, [5, 6, 7, 8]);
}

#[test]
fn encoded_images_are_decoded() {
    let mut img = image::RgbaImage::new(2, 1);
    img.put_pixel(0, 0, image::Rgba(RED));
    img.put_pixel(1, 0, image::Rgba(BLUE));
    let mut png = Vec::new();
    image::DynamicImage::ImageRgba8(img)
        .write_to(&mut std::io::Cursor::new(&mut png), image::ImageFormat::Png)
        .unwrap();
    let back = omarchy_imageview::image_loader::decode_png(&png).unwrap();
    assert_eq!((back.width(), back.height()), (2, 1));
    assert_eq!(back.to_rgba8().get_pixel(1, 0).0, BLUE);
    assert!(omarchy_imageview::image_loader::decode_png(b"not an image").is_none());
}

#[test]
fn scale_modes_lay_out_the_picture() {
    assert_eq!(picture_fit(ScaleMode::Fit), PictureFit::Contain);
    assert_eq!(picture_fit(ScaleMode::Fill), PictureFit::Cover);
    assert_eq!(picture_fit(ScaleMode::Actual), PictureFit::Natural);
}

#[test]
fn animation_frames_wrap() {
    assert_eq!(next_frame(0, 3), 1);
    assert_eq!(next_frame(2, 3), 0);
    assert_eq!(next_frame(0, 1), 0);
}
