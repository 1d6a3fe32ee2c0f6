//! Codec adapter behavior: WebP still and animation encoding, animation
//! decoding with timestamp differencing, and the PNG fallback.

use media_proxy::classify::MediaKind;
use media_proxy::codec::{count_webp_anim_frame, decode_webp_anim, encode_webp_anim,
    encode_webp_image, encode_webp_image_lossless};
use media_proxy::decode::decode;
use media_proxy::media::{AnimFrame, DecodedMedia, MediaError, RasterImage};

fn gradient(width: u32, height: u32) -> RasterImage {
    let mut data = Vec::new();
    for y in 0..height {
        for x in 0..width {
            data.extend_from_slice(&[(x * 16 % 256) as u8, (y * 16 % 256) as u8, 64, 255]);
        }
    }
    RasterImage { width, height, data }
}

fn solid_frame(width: u32, height: u32, level: u8, delay_ms: u32) -> AnimFrame {
    let data = [level, level, level, 255].repeat(width as usize * height as usize);
    AnimFrame {
        image: RasterImage { width, height, data },
        delay_numer: delay_ms,
        delay_denom: 1,
    }
}

#[test]
fn still_encode_produces_webp_container() {
    let bytes = encode_webp_image(&gradient(16, 8), 75).unwrap();
    assert_eq!(&bytes[0..4], b"RIFF");
    assert_eq!(&bytes[8..12], b"WEBP");
}

#[test]
fn lossless_round_trip_is_exact() {
    let img = gradient(16, 8);
    let original = img.data.clone();
    let bytes = encode_webp_image_lossless(&img).unwrap();
    let decoded = decode(MediaKind::Webp, &bytes).unwrap();
    match decoded {
        DecodedMedia::Raster(r) => {
            assert_eq!((r.width, r.height), (16, 8));
            assert_eq!(r.data, original);
        },
        _ => panic!("expected a raster"),
    }
}

#[test]
fn lossy_round_trip_keeps_dimensions_and_tone() {
    let img = RasterImage {
        width: 8,
        height: 8,
        data: [128, 128, 128, 255].repeat(64),
    };
    let bytes = encode_webp_image(&img, 100).unwrap();
    let decoded = decode(MediaKind::Webp, &bytes).unwrap();
    match decoded {
        DecodedMedia::Raster(r) => {
            assert_eq!((r.width, r.height), (8, 8));
            for px in r.data.chunks(4) {
                for c in &px[0..3] {
                    assert!((*c as i32 - 128).abs() <= 8, "channel drifted: {c}");
                }
                assert_eq!(px[3], 255);
            }
        },
        _ => panic!("expected a raster"),
    }
}

#[test]
fn animation_round_trip_reconstructs_durations() {
    let delays = [100u32, 250, 40];
    let frames: Vec<AnimFrame> = delays
        .iter()
        .enumerate()
        .map(|(i, d)| solid_frame(32, 16, (i as u8) * 90, *d))
        .collect();
    let bytes = encode_webp_anim(&frames, 80).unwrap();
    assert_eq!(&bytes[0..4], b"RIFF");

    let decoded = decode_webp_anim(&bytes).unwrap();
    assert_eq!(decoded.len(), delays.len());
    for (f, d) in decoded.iter().zip(delays.iter()) {
        assert_eq!((f.image.width, f.image.height), (32, 16));
        assert_eq!(f.delay_denom, 1);
        assert_eq!(f.delay_numer, *d);
    }
}

#[test]
fn animation_frame_count_matches() {
    let frames: Vec<AnimFrame> = (0..5).map(|i| solid_frame(8, 8, i * 40, 100)).collect();
    let bytes = encode_webp_anim(&frames, 75).unwrap();
    assert_eq!(count_webp_anim_frame(&bytes).unwrap(), 5);
}

#[test]
fn animated_bytes_decode_as_frames_through_decode() {
    let frames: Vec<AnimFrame> = (0..3).map(|i| solid_frame(8, 8, i * 80, 120)).collect();
    let bytes = encode_webp_anim(&frames, 75).unwrap();
    match decode(MediaKind::Webp, &bytes).unwrap() {
        DecodedMedia::Frames(fs) => {
            assert_eq!(fs.len(), 3);
            assert_eq!(fs[1].delay_numer, 120);
        },
        _ => panic!("expected frames"),
    }
}

#[test]
fn empty_animation_is_rejected() {
    let r = encode_webp_anim(&Vec::new(), 75);
    assert!(matches!(r, Err(MediaError::CodecFailed(_))));
}

#[test]
fn garbage_is_not_a_decodable_animation() {
    assert!(matches!(
        decode_webp_anim(b"not webp at all"),
        Err(MediaError::CodecFailed(_))
    ));
    assert!(matches!(
        count_webp_anim_frame(&[]),
        Err(MediaError::CodecFailed(_))
    ));
}

#[test]
fn to_webp_encodes_every_variant() {
    let still = DecodedMedia::Raster(gradient(10, 10)).to_webp(75).unwrap();
    assert_eq!(&still[8..12], b"WEBP");

    let frames: Vec<AnimFrame> = (0..2).map(|i| solid_frame(6, 6, i * 100, 90)).collect();
    let anim = DecodedMedia::Frames(frames).to_webp(75).unwrap();
    assert_eq!(&anim[8..12], b"WEBP");

    let markup = "<svg xmlns=\"http://www.w3.org/2000/svg\" width=\"12\" height=\"6\"/>";
    let vector = DecodedMedia::Vector(markup.to_owned()).to_webp(75).unwrap();
    assert_eq!(&vector[8..12], b"WEBP");
}

#[test]
fn to_png_emits_png_signature_and_first_frame() {
    let png = DecodedMedia::Raster(gradient(5, 4)).to_png().unwrap();
    assert_eq!(&png[0..8], &[0x89, b'P', b'N', b'G', 0x0d, 0x0a, 0x1a, 0x0a]);

    let frames: Vec<AnimFrame> = (0..2).map(|i| solid_frame(5, 4, i * 100, 50)).collect();
    let png = DecodedMedia::Frames(frames).to_png().unwrap();
    assert_eq!(&png[0..8], &[0x89, b'P', b'N', b'G', 0x0d, 0x0a, 0x1a, 0x0a]);

    match decode(MediaKind::Png, &png).unwrap() {
        DecodedMedia::Raster(r) => {
            assert_eq!((r.width, r.height), (5, 4));
            // the first frame is all black
            assert_eq!(&r.data[0..4], &[0, 0, 0, 255]);
        },
        _ => panic!("expected a raster"),
    }
}

#[test]
fn to_png_on_empty_frames_fails() {
    let r = DecodedMedia::Frames(Vec::new()).to_png();
    assert!(matches!(r, Err(MediaError::TransformFailed(_))));
}

#[test]
fn rational_delays_round_to_whole_milliseconds() {
    assert_eq!(media_proxy::media::delay_ms(100, 3), 33);
    assert_eq!(media_proxy::media::delay_ms(100, 1), 100);
    assert_eq!(media_proxy::media::delay_ms(7, 0), 0);

    // a 100/3 ms delay is carried as 33 whole milliseconds end to end
    let frames = vec![
        AnimFrame { image: solid_frame(8, 8, 0, 0).image, delay_numer: 100, delay_denom: 3 },
        AnimFrame { image: solid_frame(8, 8, 200, 0).image, delay_numer: 100, delay_denom: 3 },
    ];
    let bytes = encode_webp_anim(&frames, 75).unwrap();
    let decoded = decode_webp_anim(&bytes).unwrap();
    assert_eq!(decoded.len(), 2);
    assert_eq!(decoded[0].delay_numer / decoded[0].delay_denom, 33);
}

#[test]
fn mismatched_frame_size_fails_the_animation() {
    let frames = vec![
        solid_frame(8, 8, 10, 100),
        solid_frame(4, 4, 20, 100),
    ];
    let r = encode_webp_anim(&frames, 75);
    assert!(matches!(r, Err(MediaError::CodecFailed(_))));
}

#[test]
fn zero_delay_frames_are_kept_one_millisecond_apart() {
    // delays that round to zero milliseconds do not fail the encode: each
    // frame still occupies one millisecond of the timeline
    let frames = vec![solid_frame(8, 8, 0, 0), solid_frame(8, 8, 200, 0)];
    let bytes = encode_webp_anim(&frames, 75).unwrap();
    let decoded = decode_webp_anim(&bytes).unwrap();
    assert_eq!(decoded.len(), 2);
    assert_eq!(decoded[0].delay_numer / decoded[0].delay_denom, 1);
}

#[test]
fn truncated_animation_is_rejected_not_partial() {
    let frames: Vec<AnimFrame> = (0..4).map(|i| solid_frame(16, 16, i * 60, 100)).collect();
    let bytes = encode_webp_anim(&frames, 75).unwrap();
    // cut into the last frame's payload: no partial frame list may come back
    let cut = &bytes[0..bytes.len() - 12];
    assert!(decode_webp_anim(cut).is_err());
    assert!(count_webp_anim_frame(cut).is_err());
}
