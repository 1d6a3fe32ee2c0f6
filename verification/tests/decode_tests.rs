//! Decoder dispatch: each recognized kind reaches its decoder, unknown kinds
//! are rejected, and malformed bytes surface decode failures.

use media_proxy::classify::MediaKind;
use media_proxy::decode::decode;
use media_proxy::media::{DecodedMedia, MediaError};

fn png_fixture(width: u32, height: u32) -> Vec<u8> {
    let img = image::RgbaImage::from_fn(width, height, |x, y| {
        image::Rgba([(x % 256) as u8, (y % 256) as u8, 7, 255])
    });
    let mut out = Vec::new();
    let enc = image::codecs::png::PngEncoder::new(&mut out);
    image::ImageEncoder::write_image(
        enc,
        img.as_raw(),
        width,
        height,
        image::ExtendedColorType::Rgba8,
    )
    .unwrap();
    out
}

fn gif_fixture(frames: u32, width: u32, height: u32) -> Vec<u8> {
    let mut out = Vec::new();
    {
        let mut enc = image::codecs::gif::GifEncoder::new(&mut out);
        enc.set_repeat(image::codecs::gif::Repeat::Infinite).unwrap();
        for i in 0..frames {
            let level = (i * 60 % 256) as u8;
            let buf = image::RgbaImage::from_pixel(
                width,
                height,
                image::Rgba([level, level, level, 255]),
            );
            let delay = image::Delay::from_numer_denom_ms(100, 1);
            enc.encode_frame(image::Frame::from_parts(buf, 0, 0, delay)).unwrap();
        }
    }
    out
}

#[test]
fn png_bytes_become_a_raster() {
    let bytes = png_fixture(9, 6);
    match decode(MediaKind::Png, &bytes).unwrap() {
        DecodedMedia::Raster(r) => {
            assert_eq!((r.width, r.height), (9, 6));
            assert_eq!(r.data.len(), 9 * 6 * 4);
            assert_eq!(&r.data[0..4], &[0, 0, 7, 255]);
        },
        _ => panic!("expected a raster"),
    }
}

#[test]
fn gif_bytes_become_frames_with_delays() {
    let bytes = gif_fixture(3, 4, 4);
    match decode(MediaKind::Gif, &bytes).unwrap() {
        DecodedMedia::Frames(fs) => {
            assert_eq!(fs.len(), 3);
            for f in &fs {
                assert_eq!((f.image.width, f.image.height), (4, 4));
                assert!(f.delay_denom >= 1);
                assert_eq!(f.delay_numer / f.delay_denom, 100);
            }
        },
        _ => panic!("expected frames"),
    }
}

#[test]
fn svg_bytes_keep_their_text() {
    let markup = b"<svg xmlns=\"http://www.w3.org/2000/svg\" width=\"3\" height=\"4\"/>";
    match decode(MediaKind::Svg, markup).unwrap() {
        DecodedMedia::Vector(t) => assert_eq!(t.as_bytes(), markup),
        _ => panic!("expected vector markup"),
    }
}

#[test]
fn svg_decoding_replaces_invalid_utf8() {
    let bytes = [b'<', 0xff, b'>'];
    match decode(MediaKind::Svg, &bytes).unwrap() {
        DecodedMedia::Vector(t) => assert_eq!(t, "<\u{fffd}>"),
        _ => panic!("expected vector markup"),
    }
}

#[test]
fn unknown_kind_is_unsupported() {
    let r = decode(MediaKind::Unknown, b"anything");
    assert!(matches!(r, Err(MediaError::UnsupportedFormat)));
}

#[test]
fn malformed_bytes_fail_with_decode_errors() {
    assert!(matches!(
        decode(MediaKind::Png, b"not a png"),
        Err(MediaError::DecodeFailed(_))
    ));
    assert!(matches!(
        decode(MediaKind::Jpeg, b"not a jpeg"),
        Err(MediaError::DecodeFailed(_))
    ));
    assert!(matches!(
        decode(MediaKind::Gif, b"not a gif"),
        Err(MediaError::DecodeFailed(_))
    ));
    assert!(matches!(
        decode(MediaKind::Webp, b"not a webp"),
        Err(MediaError::DecodeFailed(_))
    ));
    assert!(matches!(
        decode(MediaKind::Ico, b"not an ico"),
        Err(MediaError::DecodeFailed(_))
    ));
}

#[test]
fn error_kind_names_are_stable() {
    assert_eq!(MediaError::AddressRejected.kind_name(), "address rejected");
    assert_eq!(
        MediaError::NetworkFailed(String::new()).kind_name(),
        "network failed"
    );
    assert_eq!(MediaError::UnsupportedFormat.kind_name(), "unsupported format");
    assert_eq!(
        MediaError::DecodeFailed(String::new()).kind_name(),
        "decode failed"
    );
    assert_eq!(
        MediaError::TransformFailed(String::new()).kind_name(),
        "transform failed"
    );
    assert_eq!(MediaError::CodecFailed(String::new()).kind_name(), "codec failed");
}
