use omarchy_imageview::image_loader::{
    animation_kind, decoder_for, finish_animation, frame_delay_ms, honours_exif, AnimationKind,
    DecodedFrame, Decoder,
};

#[test]
fn decoders_by_file_type() {
    assert_eq!(decoder_for("/p/icon.svg"), Some(Decoder::Svg));
    assert_eq!(decoder_for("/p/photo.HEIC"), Some(Decoder::Heif));
    assert_eq!(decoder_for("/p/photo.heif"), Some(Decoder::Heif));
    assert_eq!(decoder_for("/p/photo.jxl"), Some(Decoder::Jxl));
    assert_eq!(decoder_for("/p/photo.jpg"), Some(Decoder::Raster));
    assert_eq!(decoder_for("/p/anim.gif"), Some(Decoder::Raster));
    assert_eq!(decoder_for("/p/doc.pdf"), None);
    assert_eq!(decoder_for("/"), None);
}

#[test]
fn exif_is_left_to_the_loader_except_for_heif_and_svg() {
    assert!(honours_exif(Decoder::Raster));
    assert!(honours_exif(Decoder::Jxl));
    assert!(!honours_exif(Decoder::Heif));
    assert!(!honours_exif(Decoder::Svg));
}

#[test]
fn frame_delays_are_whole_milliseconds_of_at_least_20() {
    assert_eq!(frame_delay_ms(100, 1), 100);
    assert_eq!(frame_delay_ms(10, 1), 20);
    assert_eq!(frame_delay_ms(250, 3), 83);
    assert_eq!(frame_delay_ms(7, 0), 100);
}

#[test]
fn animations_are_gif_or_webp() {
    assert_eq!(animation_kind("/p/a.GIF"), Some(AnimationKind::Gif));
    assert_eq!(animation_kind("/p/a.webp"), Some(AnimationKind::WebP));
    assert_eq!(animation_kind("/p/a.png"), None);
    assert_eq!(animation_kind("/p/.gif"), None);
}

fn frame(tag: u8, numer: u32, denom: u32) -> DecodedFrame {
    DecodedFrame { rgba: vec![tag; 4], width: 1, height: 1, delay_numer: numer, delay_denom: denom }
}

#[test]
fn single_frame_is_not_an_animation() {
    assert!(finish_animation(vec![]).is_none());
    assert!(finish_animation(vec![frame(1, 50, 1)]).is_none());
}

#[test]
fn frames_keep_their_order_and_pixels() {
    let out = finish_animation(vec![frame(1, 50, 1), frame(2, 5, 1), frame(3, 0, 0)]).unwrap();
    assert_eq!(out.len(), 3);
    assert_eq!(out[0].rgba, vec![1; 4]);
    assert_eq!(out[1].rgba, vec![2; 4]);
    assert_eq!(out[2].rgba, vec![3; 4]);
    assert_eq!(out[0].delay_ms, 50);
    assert_eq!(out[1].delay_ms, 20);
    assert_eq!(out[2].delay_ms, 100);
    assert_eq!((out[2].width, out[2].height), (1, 1));
}
