//! Pipeline routing: preset resolution from query flags, content-kind
//! selection, and preset application.

use media_proxy::media::{AnimFrame, DecodedMedia, RasterImage};
use media_proxy::pipeline::{apply_preset, content_kind_for, OutputKind};
use media_proxy::{resolve_convert_type, ConvertType};

fn solid(width: u32, height: u32) -> RasterImage {
    RasterImage { width, height, data: [5, 6, 7, 255].repeat(width as usize * height as usize) }
}

#[test]
fn preset_priority_order() {
    assert_eq!(resolve_convert_type(true, true, true, true), ConvertType::Emoji);
    assert_eq!(resolve_convert_type(false, true, true, true), ConvertType::Avatar);
    assert_eq!(resolve_convert_type(false, false, true, true), ConvertType::Preview);
    assert_eq!(resolve_convert_type(false, false, false, true), ConvertType::Badge);
    assert_eq!(resolve_convert_type(false, false, false, false), ConvertType::Original);
}

#[test]
fn badge_is_png_everything_else_webp() {
    assert_eq!(content_kind_for(ConvertType::Badge), OutputKind::Png);
    assert_eq!(content_kind_for(ConvertType::Emoji), OutputKind::Webp);
    assert_eq!(content_kind_for(ConvertType::Avatar), OutputKind::Webp);
    assert_eq!(content_kind_for(ConvertType::Preview), OutputKind::Webp);
    assert_eq!(content_kind_for(ConvertType::Original), OutputKind::Webp);
}

#[test]
fn original_without_static_is_identity() {
    let img = solid(33, 44);
    let before = img.data.clone();
    match apply_preset(DecodedMedia::Raster(img), ConvertType::Original, false).unwrap() {
        DecodedMedia::Raster(r) => {
            assert_eq!((r.width, r.height), (33, 44));
            assert_eq!(r.data, before);
        },
        _ => panic!("expected a raster"),
    }
}

#[test]
fn preset_routing_reaches_each_target() {
    let tall = || DecodedMedia::Raster(solid(100, 1000));
    let emoji = apply_preset(tall(), ConvertType::Emoji, false).unwrap();
    assert_eq!(emoji.height().unwrap(), 128);
    let preview = apply_preset(tall(), ConvertType::Preview, false).unwrap();
    assert_eq!((preview.width().unwrap(), preview.height().unwrap()), (200, 200));
    let badge = apply_preset(tall(), ConvertType::Badge, false).unwrap();
    assert_eq!((badge.width().unwrap(), badge.height().unwrap()), (96, 96));
}

#[test]
fn static_flag_composes_with_presets() {
    // a tall animation: static-ize caps it at 422, then emoji caps at 128
    let frames: Vec<AnimFrame> = (0..2)
        .map(|_| AnimFrame { image: solid(100, 1000), delay_numer: 100, delay_denom: 1 })
        .collect();
    let out = apply_preset(DecodedMedia::Frames(frames), ConvertType::Emoji, true).unwrap();
    match out {
        DecodedMedia::Raster(r) => {
            // 1000 -> 422 (width 42), then 422 -> 128 (width round(42*128/422) = 13)
            assert_eq!((r.width, r.height), (13, 128));
        },
        _ => panic!("expected a raster"),
    }
}

#[test]
fn static_flag_applies_before_preset() {
    let frames: Vec<AnimFrame> = (0..3)
        .map(|_| AnimFrame { image: solid(10, 10), delay_numer: 100, delay_denom: 1 })
        .collect();
    let out = apply_preset(DecodedMedia::Frames(frames), ConvertType::Original, true).unwrap();
    match out {
        DecodedMedia::Raster(r) => assert_eq!((r.width, r.height), (10, 10)),
        _ => panic!("a static-ized animation must become a raster"),
    }
}
