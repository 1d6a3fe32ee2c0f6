//! The still/animation decoder: turn (kind, bytes) into decoded media. The
//! common container formats go through the generic image library; animated
//! WebP goes through the codec adapter, whose native decoder is the only
//! path that reports reliable per-frame timing for that container.

use vstd::prelude::*;

use crate::classify::MediaKind;
use crate::codec::{all_frames_fit, anim_decode_of, decoded_frames_match, decode_webp_anim,
    walk_complete};
use crate::media::{AnimFrame, DecodedMedia, FrameView, MediaError, MediaView, RasterImage,
    RasterView};

verus! {

/// What PNG decoding of a byte buffer yields, as RGBA8.
pub uninterp spec fn png_decode_of(b: Seq<u8>) -> Option<RasterView>;

/// What JPEG decoding of a byte buffer yields, as RGBA8.
pub uninterp spec fn jpeg_decode_of(b: Seq<u8>) -> Option<RasterView>;

/// What ICO decoding of a byte buffer yields, as RGBA8.
pub uninterp spec fn ico_decode_of(b: Seq<u8>) -> Option<RasterView>;

/// What still (non-animated) WebP decoding of a byte buffer yields.
pub uninterp spec fn webp_still_decode_of(b: Seq<u8>) -> Option<RasterView>;

/// What GIF decoding yields: every frame with its rational millisecond delay.
pub uninterp spec fn gif_decode_of(b: Seq<u8>) -> Option<Seq<FrameView>>;

/// Whether the WebP container header has its animation flag set, or nothing
/// when the header cannot be read.
pub uninterp spec fn webp_animated_flag(b: Seq<u8>) -> Option<bool>;

/// What replacement-character text decoding of a byte buffer yields.
pub uninterp spec fn utf8_lossy_of(b: Seq<u8>) -> Seq<char>;

/// Relies on image::codecs::png::PngDecoder and DynamicImage::from_decoder,
/// converted to RGBA8: deterministic decoding of the byte buffer; the RGBA8
/// buffer holds exactly width * height quadruples.
#[verifier::external_body]
fn decode_png(buf: &[u8]) -> (r: Result<RasterImage, String>)
    ensures
        r matches Ok(img) ==> png_decode_of(buf@) == Some(img@) && img.wf(),
        r is Err ==> png_decode_of(buf@) is None,
{
    let stream = std::io::Cursor::new(buf);
    match image::codecs::png::PngDecoder::new(stream).and_then(image::DynamicImage::from_decoder) {
        Ok(img) => {
            let rgba = img.to_rgba8();
            let (w, h) = rgba.dimensions();
            Ok(RasterImage { width: w, height: h, data: rgba.into_raw() })
        },
        Err(e) => Err(format!("{:?}", e)),
    }
}

/// Relies on image::codecs::jpeg::JpegDecoder and DynamicImage::from_decoder,
/// converted to RGBA8, as for PNG.
#[verifier::external_body]
fn decode_jpeg(buf: &[u8]) -> (r: Result<RasterImage, String>)
    ensures
        r matches Ok(img) ==> jpeg_decode_of(buf@) == Some(img@) && img.wf(),
        r is Err ==> jpeg_decode_of(buf@) is None,
{
    let stream = std::io::Cursor::new(buf);
    match image::codecs::jpeg::JpegDecoder::new(stream).and_then(image::DynamicImage::from_decoder) {
        Ok(img) => {
            let rgba = img.to_rgba8();
            let (w, h) = rgba.dimensions();
            Ok(RasterImage { width: w, height: h, data: rgba.into_raw() })
        },
        Err(e) => Err(format!("{:?}", e)),
    }
}

/// Relies on image::codecs::ico::IcoDecoder and DynamicImage::from_decoder,
/// converted to RGBA8, as for PNG.
#[verifier::external_body]
fn decode_ico(buf: &[u8]) -> (r: Result<RasterImage, String>)
    ensures
        r matches Ok(img) ==> ico_decode_of(buf@) == Some(img@) && img.wf(),
        r is Err ==> ico_decode_of(buf@) is None,
{
    let stream = std::io::Cursor::new(buf);
    match image::codecs::ico::IcoDecoder::new(stream).and_then(image::DynamicImage::from_decoder) {
        Ok(img) => {
            let rgba = img.to_rgba8();
            let (w, h) = rgba.dimensions();
            Ok(RasterImage { width: w, height: h, data: rgba.into_raw() })
        },
        Err(e) => Err(format!("{:?}", e)),
    }
}

/// Relies on image::codecs::webp::WebPDecoder and DynamicImage::from_decoder,
/// converted to RGBA8, as for PNG; used for the non-animated case only.
#[verifier::external_body]
fn decode_webp_still(buf: &[u8]) -> (r: Result<RasterImage, String>)
    ensures
        r matches Ok(img) ==> webp_still_decode_of(buf@) == Some(img@) && img.wf(),
        r is Err ==> webp_still_decode_of(buf@) is None,
{
    let stream = std::io::Cursor::new(buf);
    match image::codecs::webp::WebPDecoder::new(stream).and_then(image::DynamicImage::from_decoder) {
        Ok(img) => {
            let rgba = img.to_rgba8();
            let (w, h) = rgba.dimensions();
            Ok(RasterImage { width: w, height: h, data: rgba.into_raw() })
        },
        Err(e) => Err(format!("{:?}", e)),
    }
}

/// Relies on image::codecs::gif::GifDecoder and AnimationDecoder::into_frames
/// with collect_frames: decodes every frame eagerly, each with its rational
/// millisecond delay as the container declares it.
#[verifier::external_body]
fn decode_gif(buf: &[u8]) -> (r: Result<Vec<AnimFrame>, String>)
    ensures
        r matches Ok(fs) ==> gif_decode_of(buf@) == Some(fs@.map_values(|f: AnimFrame| f@)) && (
        forall|i: int| 0 <= i < fs@.len() ==> (#[trigger] fs@[i]).wf()),
        r is Err ==> gif_decode_of(buf@) is None,
{
    let dec = image::codecs::gif::GifDecoder::new(std::io::Cursor::new(buf))
        .map_err(|e| format!("{:?}", e))?;
    let frames = image::AnimationDecoder::into_frames(dec).collect_frames()
        .map_err(|e| format!("{:?}", e))?;
    Ok(frames.into_iter().map(|f| {
        let (delay_numer, delay_denom) = f.delay().numer_denom_ms();
        let rgba = f.into_buffer();
        let (w, h) = rgba.dimensions();
        let image = RasterImage { width: w, height: h, data: rgba.into_raw() };
        AnimFrame { image, delay_numer, delay_denom }
    }).collect())
}

/// Relies on image::codecs::webp::WebPDecoder::has_animation: reads the
/// container header's animation flag; nothing when the header is unreadable.
#[verifier::external_body]
fn webp_has_animation(buf: &[u8]) -> (r: Option<bool>)
    ensures
        r == webp_animated_flag(buf@),
{
    match image::codecs::webp::WebPDecoder::new(std::io::Cursor::new(buf)) {
        Ok(d) => Some(d.has_animation()),
        Err(_) => None,
    }
}

/// Relies on String::from_utf8_lossy: deterministic replacement-character
/// decoding of the byte buffer into text.
#[verifier::external_body]
fn utf8_lossy(buf: &[u8]) -> (r: String)
    ensures
        r@ == utf8_lossy_of(buf@),
{
    String::from_utf8_lossy(buf).into_owned()
}

/// A still decode produced exactly the decoder's raster, or the decoder's
/// failure.
pub open spec fn decoded_still(
    d: Option<RasterView>,
    r: Result<DecodedMedia, MediaError>,
) -> bool {
    match d {
        Option::Some(v) => r matches Ok(m) && m@ == MediaView::Raster(v),
        Option::None => r matches Err(e) && e is DecodeFailed,
    }
}

/// How WebP bytes decode: the header's animation flag picks the path — the
/// generic still decoder, or the codec adapter's animation decoder.
pub open spec fn webp_decoded(b: Seq<u8>, r: Result<DecodedMedia, MediaError>) -> bool {
    match webp_animated_flag(b) {
        Option::None => r matches Err(e) && e is DecodeFailed,
        Option::Some(false) => decoded_still(webp_still_decode_of(b), r),
        Option::Some(true) => match anim_decode_of(b) {
            Option::None => r matches Err(e) && e is CodecFailed,
            Option::Some(d) => if walk_complete(b, d.1) && all_frames_fit(d.0, d.1) {
                r matches Ok(m) && (m matches DecodedMedia::Frames(fs) && decoded_frames_match(
                    d.0,
                    d.1,
                    fs,
                ))
            } else {
                r matches Err(e) && e is DecodeFailed
            },
        },
    }
}

/// Decode a classified byte buffer into media. PNG, JPEG and ICO become a
/// single raster; GIF becomes a frame sequence; SVG keeps its text for
/// deferred rasterization; WebP is probed for animation and routed to the
/// matching decoder; an unknown kind is rejected.
pub fn decode(kind: MediaKind, buf: &[u8]) -> (r: Result<DecodedMedia, MediaError>)
    ensures
        r matches Ok(m) ==> m.wf(),
        kind == MediaKind::Png ==> decoded_still(png_decode_of(buf@), r),
        kind == MediaKind::Jpeg ==> decoded_still(jpeg_decode_of(buf@), r),
        kind == MediaKind::Ico ==> decoded_still(ico_decode_of(buf@), r),
        kind == MediaKind::Svg ==> (r matches Ok(m) && m@ == MediaView::Vector(utf8_lossy_of(
            buf@,
        ))),
        kind == MediaKind::Gif ==> match gif_decode_of(buf@) {
            Option::Some(fs) => r matches Ok(m) && m@ == MediaView::Frames(fs),
            Option::None => r matches Err(e) && e is DecodeFailed,
        },
        kind == MediaKind::Webp ==> webp_decoded(buf@, r),
        kind == MediaKind::Unknown ==> (r matches Err(e) && e is UnsupportedFormat),
{
    match kind {
        MediaKind::Png => {
            match decode_png(buf) {
                Ok(img) => Ok(DecodedMedia::Raster(img)),
                Err(m) => Err(MediaError::DecodeFailed(m)),
            }
        },
        MediaKind::Jpeg => {
            match decode_jpeg(buf) {
                Ok(img) => Ok(DecodedMedia::Raster(img)),
                Err(m) => Err(MediaError::DecodeFailed(m)),
            }
        },
        MediaKind::Ico => {
            match decode_ico(buf) {
                Ok(img) => Ok(DecodedMedia::Raster(img)),
                Err(m) => Err(MediaError::DecodeFailed(m)),
            }
        },
        MediaKind::Svg => Ok(DecodedMedia::Vector(utf8_lossy(buf))),
        MediaKind::Gif => {
            match decode_gif(buf) {
                Ok(fs) => Ok(DecodedMedia::Frames(fs)),
                Err(m) => Err(MediaError::DecodeFailed(m)),
            }
        },
        MediaKind::Webp => {
            match webp_has_animation(buf) {
                None => Err(MediaError::DecodeFailed("unreadable container header".to_owned())),
                Some(true) => {
                    match decode_webp_anim(buf) {
                        Ok(fs) => Ok(DecodedMedia::Frames(fs)),
                        Err(e) => Err(e),
                    }
                },
                Some(false) => {
                    match decode_webp_still(buf) {
                        Ok(img) => Ok(DecodedMedia::Raster(img)),
                        Err(m) => Err(MediaError::DecodeFailed(m)),
                    }
                },
            }
        },
        MediaKind::Unknown => Err(MediaError::UnsupportedFormat),
    }
}

} // verus!
