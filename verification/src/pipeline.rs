//! The orchestration step between decode and encode: apply the static-ize
//! flag and the resolved preset to decoded media, and pick the outbound
//! content kind for a preset.

use vstd::prelude::*;

use crate::ConvertType;
use crate::media::{DecodedMedia, MediaError};
use crate::transform::{caps_to, resizes_to, spec_first};

verus! {

/// The content kind of the response body: every preset is emitted as WebP
/// except Badge, which is emitted as a plain still image.
#[derive(Clone, Copy, Debug, PartialEq, Eq, Structural)]
pub enum OutputKind {
    Webp,
    Png,
}

/// The content kind a preset is emitted as.
pub fn content_kind_for(ct: ConvertType) -> (r: OutputKind)
    ensures
        r == OutputKind::Png <==> ct == ConvertType::Badge,
{
    match ct {
        ConvertType::Badge => OutputKind::Png,
        _ => OutputKind::Webp,
    }
}

/// The static-then-preset composition: the static-ize stage produced some
/// intermediate media `mid` (the first frame, capped at 422) and the result
/// relates to `mid` by the preset's own relation — or the static-ize stage
/// itself failed and its error is the result.
pub open spec fn staged_then(
    midv: crate::media::MediaView,
    r: Result<DecodedMedia, MediaError>,
    preset_rel: spec_fn(crate::media::MediaView, Result<DecodedMedia, MediaError>) -> bool,
) -> bool {
    ||| exists|mid: DecodedMedia|
        #[trigger] caps_to(midv, 422, Result::<DecodedMedia, MediaError>::Ok(mid)) && preset_rel(
            mid@,
            r,
        )
    ||| (caps_to(midv, 422, r) && r is Err)
}

/// Apply the static-ize flag, then the preset, to decoded media. The flag
/// reduces an animation to its first frame and caps the height at 422; the
/// presets are the capped and exact resizes of the transform engine, with
/// Original the identity.
pub fn apply_preset(media: DecodedMedia, ct: ConvertType, is_static: bool) -> (r: Result<
    DecodedMedia,
    MediaError,
>)
    requires
        media.wf(),
    ensures
        r matches Ok(m) ==> m.wf(),
        !is_static && ct == ConvertType::Original ==> (r matches Ok(m) && m == media),
        !is_static && ct == ConvertType::Emoji ==> caps_to(media@, 128, r),
        !is_static && ct == ConvertType::Avatar ==> caps_to(media@, 320, r),
        !is_static && ct == ConvertType::Preview ==> resizes_to(media@, 200, 200, r),
        !is_static && ct == ConvertType::Badge ==> resizes_to(media@, 96, 96, r),
        is_static ==> match spec_first(media@) {
            Option::None => r matches Err(e) && e is TransformFailed,
            Option::Some(midv) => match ct {
                ConvertType::Original => caps_to(midv, 422, r),
                ConvertType::Emoji => staged_then(
                    midv,
                    r,
                    |m: crate::media::MediaView, rr: Result<DecodedMedia, MediaError>|
                        caps_to(m, 128, rr),
                ),
                ConvertType::Avatar => staged_then(
                    midv,
                    r,
                    |m: crate::media::MediaView, rr: Result<DecodedMedia, MediaError>|
                        caps_to(m, 320, rr),
                ),
                ConvertType::Preview => staged_then(
                    midv,
                    r,
                    |m: crate::media::MediaView, rr: Result<DecodedMedia, MediaError>|
                        resizes_to(m, 200, 200, rr),
                ),
                ConvertType::Badge => staged_then(
                    midv,
                    r,
                    |m: crate::media::MediaView, rr: Result<DecodedMedia, MediaError>|
                        resizes_to(m, 96, 96, rr),
                ),
            },
        },
{
    let staged = if is_static {
        match media.static_() {
            Ok(m) => m,
            Err(e) => {
                let r: Result<DecodedMedia, MediaError> = Err(e);
                proof {
                    if spec_first(media@) is Some {
                        assert(caps_to(spec_first(media@)->0, 422, r));
                    }
                }
                return r;
            },
        }
    } else {
        media
    };
    let ghost staged_snap = staged;
    let out = match ct {
        ConvertType::Emoji => staged.emoji(),
        ConvertType::Avatar => staged.avatar(),
        ConvertType::Preview => staged.preview(),
        ConvertType::Badge => staged.badge(),
        ConvertType::Original => Ok(staged),
    };
    proof {
        if is_static {
            let midv = spec_first(media@)->0;
            assert(caps_to(midv, 422, Result::<DecodedMedia, MediaError>::Ok(staged_snap)));
        }
    }
    out
}

} // verus!
