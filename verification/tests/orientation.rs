use image::{DynamicImage, Rgba, RgbaImage};
use omarchy_imageview::image_loader::{apply_exif_orientation, apply_orientation, rotate_degrees};
use omarchy_imageview::orientation::{
    compose_flip_h, compose_flip_v, compose_orientation_cw, compose_transform,
};

fn sample() -> DynamicImage {
    // 2x1: left red, right blue
    let mut img = RgbaImage::new(2, 1);
    img.put_pixel(0, 0, Rgba([255, 0, 0, 255]));
    img.put_pixel(1, 0, Rgba([0, 0, 255, 255]));
    DynamicImage::ImageRgba8(img)
}

fn px(img: &DynamicImage, x: u32, y: u32) -> [u8; 4] {
    img.to_rgba8().get_pixel(x, y).0
}

#[test]
fn orientation_1_unchanged() {
    let img = apply_orientation(sample(), 1);
    assert_eq!(img.width(), 2);
    assert_eq!(img.height(), 1);
    assert_eq!(px(&img, 0, 0), [255, 0, 0, 255]);
}

#[test]
fn orientation_3_rotate_180() {
    let img = apply_orientation(sample(), 3);
    assert_eq!(px(&img, 0, 0), [0, 0, 255, 255]);
    assert_eq!(px(&img, 1, 0), [255, 0, 0, 255]);
}

#[test]
fn orientation_6_rotate_90_cw() {
    let img = apply_orientation(sample(), 6);
    assert_eq!(img.width(), 1);
    assert_eq!(img.height(), 2);
    assert_eq!(px(&img, 0, 0), [255, 0, 0, 255]);
    assert_eq!(px(&img, 0, 1), [0, 0, 255, 255]);
}

#[test]
fn orientation_8_rotate_270_cw() {
    let img = apply_orientation(sample(), 8);
    assert_eq!(img.width(), 1);
    assert_eq!(img.height(), 2);
    assert_eq!(px(&img, 0, 0), [0, 0, 255, 255]);
    assert_eq!(px(&img, 0, 1), [255, 0, 0, 255]);
}

#[test]
fn orientation_unknown_passthrough() {
    let img = apply_orientation(sample(), 99);
    assert_eq!(img.width(), 2);
    assert_eq!(px(&img, 0, 0), [255, 0, 0, 255]);
}

#[test]
fn orientation_2_mirrors_left_right() {
    let img = apply_orientation(sample(), 2);
    assert_eq!(px(&img, 0, 0), [0, 0, 255, 255]);
    assert_eq!(px(&img, 1, 0), [255, 0, 0, 255]);
}

#[test]
fn orientation_5_and_7_transpose() {
    let five = apply_orientation(sample(), 5);
    assert_eq!((five.width(), five.height()), (1, 2));
    assert_eq!(px(&five, 0, 0), [255, 0, 0, 255]);
    let seven = apply_orientation(sample(), 7);
    assert_eq!((seven.width(), seven.height()), (1, 2));
    assert_eq!(px(&seven, 0, 0), [0, 0, 255, 255]);
}

#[test]
fn exif_tag_is_applied_only_between_2_and_8() {
    let none = apply_exif_orientation(sample(), None);
    assert_eq!(none.width(), 2);
    let one = apply_exif_orientation(sample(), Some(1));
    assert_eq!(one.width(), 2);
    let nine = apply_exif_orientation(sample(), Some(9));
    assert_eq!(nine.width(), 2);
    let six = apply_exif_orientation(sample(), Some(6));
    assert_eq!((six.width(), six.height()), (1, 2));
}

#[test]
fn rotate_degrees_takes_the_angle_modulo_a_turn() {
    let img = rotate_degrees(sample(), 450);
    assert_eq!((img.width(), img.height()), (1, 2));
    assert_eq!(px(&img, 0, 0), [255, 0, 0, 255]);
    let img = rotate_degrees(sample(), 180);
    assert_eq!(px(&img, 0, 0), [0, 0, 255, 255]);
    let img = rotate_degrees(sample(), 45);
    assert_eq!(px(&img, 0, 0), [255, 0, 0, 255]);
}

#[test]
fn compose_90_steps_around_the_identity() {
    assert_eq!(compose_orientation_cw(1, 90), 6);
    assert_eq!(compose_orientation_cw(6, 90), 3);
    assert_eq!(compose_orientation_cw(3, 90), 8);
    assert_eq!(compose_orientation_cw(8, 90), 1);
}

#[test]
fn compose_180_and_270() {
    assert_eq!(compose_orientation_cw(1, 180), 3);
    assert_eq!(compose_orientation_cw(1, 270), 8);
    assert_eq!(compose_orientation_cw(6, 270), 1);
}

#[test]
fn compose_missing_tag_treated_as_normal() {
    assert_eq!(compose_orientation_cw(0, 90), 6);
    assert_eq!(compose_orientation_cw(99, 90), 6);
}

#[test]
fn flips_map_tags() {
    let h = [2, 1, 4, 3, 6, 5, 8, 7];
    let v = [4, 3, 2, 1, 8, 7, 6, 5];
    for t in 1..=8u32 {
        assert_eq!(compose_flip_h(t), h[(t - 1) as usize]);
        assert_eq!(compose_flip_v(t), v[(t - 1) as usize]);
    }
    assert_eq!(compose_flip_h(0), 2);
    assert_eq!(compose_flip_v(42), 4);
}

#[test]
fn transform_rotates_then_flips() {
    assert_eq!(compose_transform(1, 90, false, false), 6);
    assert_eq!(compose_transform(1, 90, true, false), 5);
    assert_eq!(compose_transform(1, 0, true, true), 3);
    assert_eq!(compose_transform(1, 0, false, true), 4);
}
