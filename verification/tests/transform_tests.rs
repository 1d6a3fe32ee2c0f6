//! Transform engine behavior: the height cap, exact resizing, first-frame
//! reduction, and deferred vector rasterization.

use media_proxy::media::{AnimFrame, DecodedMedia, MediaError, RasterImage};

fn solid(width: u32, height: u32, rgba: [u8; 4]) -> RasterImage {
    let mut data = Vec::new();
    for _ in 0..(width as usize * height as usize) {
        data.extend_from_slice(&rgba);
    }
    RasterImage { width, height, data }
}

fn frame(width: u32, height: u32, rgba: [u8; 4], numer: u32, denom: u32) -> AnimFrame {
    AnimFrame { image: solid(width, height, rgba), delay_numer: numer, delay_denom: denom }
}

fn dims(m: &DecodedMedia) -> (u32, u32) {
    (m.width().unwrap(), m.height().unwrap())
}

#[test]
fn height_cap_is_noop_when_within_cap() {
    let img = solid(40, 30, [1, 2, 3, 255]);
    let before = img.data.clone();
    let out = DecodedMedia::Raster(img).resize_by_height_cap(30).unwrap();
    match out {
        DecodedMedia::Raster(r) => {
            assert_eq!((r.width, r.height), (40, 30));
            assert_eq!(r.data, before);
        },
        _ => panic!("expected a raster"),
    }
}

#[test]
fn height_cap_resizes_and_keeps_ratio() {
    // 400x300 capped to height 150 gives exactly half the width
    let out = DecodedMedia::Raster(solid(400, 300, [9, 9, 9, 255]))
        .resize_by_height_cap(150)
        .unwrap();
    assert_eq!(dims(&out), (200, 150));
    // rounding: 333x100 capped to 50 gives round(333 * 50 / 100) = 167
    let out = DecodedMedia::Raster(solid(333, 100, [9, 9, 9, 255]))
        .resize_by_height_cap(50)
        .unwrap();
    assert_eq!(dims(&out), (167, 50));
}

#[test]
fn height_cap_on_frames_uses_first_frame_dimensions() {
    let fs = vec![
        frame(100, 80, [0, 0, 0, 255], 100, 1),
        frame(100, 80, [255, 255, 255, 255], 200, 1),
    ];
    let out = DecodedMedia::Frames(fs).resize_by_height_cap(40).unwrap();
    match out {
        DecodedMedia::Frames(fs) => {
            assert_eq!(fs.len(), 2);
            for f in &fs {
                assert_eq!((f.image.width, f.image.height), (50, 40));
            }
            // delays survive the resample
            assert_eq!((fs[0].delay_numer, fs[0].delay_denom), (100, 1));
            assert_eq!((fs[1].delay_numer, fs[1].delay_denom), (200, 1));
        },
        _ => panic!("expected frames"),
    }
}

#[test]
fn height_cap_on_empty_frames_fails() {
    let out = DecodedMedia::Frames(Vec::new()).resize_by_height_cap(100);
    assert!(matches!(out, Err(MediaError::TransformFailed(_))));
}

#[test]
fn resize_exact_hits_requested_box() {
    let out = DecodedMedia::Raster(solid(17, 11, [4, 5, 6, 255]))
        .resize_exact(96, 96)
        .unwrap();
    assert_eq!(dims(&out), (96, 96));
}

#[test]
fn resample_blends_pixels() {
    // downscaling a black-and-white pair must blend, not copy an input pixel
    let img = RasterImage {
        width: 2,
        height: 1,
        data: vec![0, 0, 0, 255, 255, 255, 255, 255],
    };
    let out = DecodedMedia::Raster(img).resize_exact(1, 1).unwrap();
    match out {
        DecodedMedia::Raster(r) => {
            assert_eq!((r.width, r.height), (1, 1));
            let v = r.data[0] as i32;
            assert!((v - 127).abs() <= 1, "expected a blend, got {v}");
            assert_eq!(r.data[3], 255);
        },
        _ => panic!("expected a raster"),
    }
}

#[test]
fn reduce_to_first_frame_takes_frame_zero() {
    let fs = vec![
        frame(3, 2, [10, 20, 30, 255], 100, 1),
        frame(3, 2, [200, 200, 200, 255], 100, 1),
    ];
    let first_pixels = fs[0].image.data.clone();
    let out = DecodedMedia::Frames(fs).reduce_to_first_frame().unwrap();
    match out {
        DecodedMedia::Raster(r) => {
            assert_eq!((r.width, r.height), (3, 2));
            assert_eq!(r.data, first_pixels);
        },
        _ => panic!("expected a raster"),
    }
}

#[test]
fn reduce_to_first_frame_is_identity_elsewhere() {
    let img = solid(4, 4, [1, 1, 1, 255]);
    let before = img.data.clone();
    match DecodedMedia::Raster(img).reduce_to_first_frame().unwrap() {
        DecodedMedia::Raster(r) => assert_eq!(r.data, before),
        _ => panic!("expected a raster"),
    }
    let markup = "<svg xmlns=\"http://www.w3.org/2000/svg\" width=\"10\" height=\"20\"/>";
    match DecodedMedia::Vector(markup.to_owned()).reduce_to_first_frame().unwrap() {
        DecodedMedia::Vector(t) => assert_eq!(t, markup),
        _ => panic!("expected vector markup"),
    }
}

#[test]
fn reduce_to_first_frame_fails_on_empty_sequence() {
    let out = DecodedMedia::Frames(Vec::new()).reduce_to_first_frame();
    assert!(matches!(out, Err(MediaError::TransformFailed(_))));
}

#[test]
fn vector_markup_reports_declared_size() {
    let markup = "<svg xmlns=\"http://www.w3.org/2000/svg\" width=\"10\" height=\"20\"/>";
    let m = DecodedMedia::Vector(markup.to_owned());
    assert_eq!(m.width().unwrap(), 10);
    assert_eq!(m.height().unwrap(), 20);
}

#[test]
fn vector_markup_rasterizes_on_resize() {
    let markup = "<svg xmlns=\"http://www.w3.org/2000/svg\" width=\"10\" height=\"20\"/>";
    let out = DecodedMedia::Vector(markup.to_owned()).resize_exact(8, 6).unwrap();
    match out {
        DecodedMedia::Raster(r) => assert_eq!((r.width, r.height), (6, 8)),
        _ => panic!("expected a raster"),
    }
}

#[test]
fn malformed_markup_fails_dimension_queries() {
    let m = DecodedMedia::Vector("this is not markup".to_owned());
    assert!(matches!(m.height(), Err(MediaError::TransformFailed(_))));
    assert!(matches!(m.width(), Err(MediaError::TransformFailed(_))));
}

#[test]
fn presets_pick_their_targets() {
    let tall = || DecodedMedia::Raster(solid(100, 1000, [7, 7, 7, 255]));
    assert_eq!(dims(&tall().emoji().unwrap()), (13, 128));
    assert_eq!(dims(&tall().avatar().unwrap()), (32, 320));
    assert_eq!(dims(&tall().preview().unwrap()), (200, 200));
    assert_eq!(dims(&tall().badge().unwrap()), (96, 96));
}

#[test]
fn static_reduces_and_caps() {
    let fs = vec![
        frame(100, 1000, [1, 2, 3, 255], 50, 1),
        frame(100, 1000, [3, 2, 1, 255], 50, 1),
    ];
    let out = DecodedMedia::Frames(fs).static_().unwrap();
    match out {
        DecodedMedia::Raster(r) => assert_eq!((r.width, r.height), (42, 422)),
        _ => panic!("expected a raster"),
    }
}
