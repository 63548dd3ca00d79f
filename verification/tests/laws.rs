use image::{DynamicImage, Rgba, RgbaImage};
use omarchy_imageview::app_state::{AppState, ScaleMode};
use omarchy_imageview::folder::SortMode;
use omarchy_imageview::image_loader::{apply_orientation, rotate_degrees};
use omarchy_imageview::orientation::{
    compose_flip_h, compose_flip_v, compose_orientation_cw, compose_transform,
};

fn pattern() -> DynamicImage {
    let mut img = RgbaImage::new(3, 2);
    for y in 0..2u32 {
        for x in 0..3u32 {
            img.put_pixel(x, y, Rgba([x as u8, y as u8, (10 * x + y) as u8, 255]));
        }
    }
    DynamicImage::ImageRgba8(img)
}

fn same(a: &DynamicImage, b: &DynamicImage) -> bool {
    a.width() == b.width() && a.height() == b.height() && a.to_rgba8().into_raw() == b.to_rgba8().into_raw()
}

fn state(count: usize) -> AppState {
    let mut s = AppState::new("/tmp/laws".to_string());
    let files = (0..count).map(|i| format!("/pics/{i}.png")).collect();
    s.load_folder("/pics", files, None);
    s
}

#[test]
fn next_then_prev_returns_to_the_same_image() {
    for start in 0..4 {
        let mut s = state(4);
        s.index = start;
        s.navigate_next();
        s.navigate_prev();
        assert_eq!(s.index, start);
        s.navigate_prev();
        s.navigate_next();
        assert_eq!(s.index, start);
    }
}

#[test]
fn going_round_the_folder_returns_to_the_start() {
    let mut s = state(7);
    s.index = 3;
    for _ in 0..7 {
        s.navigate_next();
    }
    assert_eq!(s.index, 3);
}

#[test]
fn four_quarter_turns_leave_nothing_to_save() {
    let mut s = state(2);
    for _ in 0..4 {
        s.add_rotation(90);
    }
    assert_eq!(s.pending_rotation, 0);
    assert!(!s.is_dirty());
}

#[test]
fn tag_algebra() {
    for t in 1..=8u32 {
        assert_eq!(compose_orientation_cw(t, 0), t);
        assert_eq!(compose_orientation_cw(t, 360), t);
        assert_eq!(compose_orientation_cw(compose_orientation_cw(t, 90), 270), t);
        assert_eq!(compose_orientation_cw(compose_orientation_cw(t, 90), 180), compose_orientation_cw(t, 270));
        assert_eq!(compose_flip_h(compose_flip_h(t)), t);
        assert_eq!(compose_flip_v(compose_flip_v(t)), t);
        assert_eq!(compose_flip_v(compose_flip_h(t)), compose_orientation_cw(t, 180));
        assert_eq!(compose_flip_h(compose_orientation_cw(t, 90)), compose_orientation_cw(compose_flip_h(t), 270));
    }
    assert_eq!(compose_flip_h(compose_flip_h(0)), 1);
}

#[test]
fn saved_tag_shows_what_the_screen_showed() {
    for t in 1..=8u32 {
        for quarter in 0..4u32 {
            for fh in [false, true] {
                for fv in [false, true] {
                    let saved = apply_orientation(pattern(), compose_transform(t, 90 * quarter, fh, fv));
                    let mut shown = rotate_degrees(apply_orientation(pattern(), t), 90 * quarter);
                    if fh {
                        shown = shown.fliph();
                    }
                    if fv {
                        shown = shown.flipv();
                    }
                    assert!(same(&saved, &shown), "t={t} q={quarter} fh={fh} fv={fv}");
                }
            }
        }
    }
}

#[test]
fn mode_cycles() {
    for m in [SortMode::Date, SortMode::Name] {
        assert_eq!(m.next().next(), m);
        assert_eq!(SortMode::parse(m.as_str()), m);
    }
    for m in [ScaleMode::Fit, ScaleMode::Fill, ScaleMode::Actual] {
        assert_eq!(m.next().next().next(), m);
        assert_ne!(m.next(), m);
    }
}
