//! A media-transcoding proxy library: classify a source image by URL path or
//! byte signature, decode it into a normalized pixel representation, apply a
//! presentation preset (resize / crop-to-first-frame policies), and re-encode
//! the result into the WebP interchange format.

pub mod addr;
pub mod classify;
pub mod codec;
pub mod decode;
pub mod lifecycle;
pub mod media;
pub mod pipeline;
pub mod transform;

use vstd::prelude::*;

verus! {

/// The presentation preset requested by a caller, resolved from the
/// mutually-exclusive query flags with priority emoji > avatar > preview >
/// badge > original.
#[derive(Clone, Copy, Debug, PartialEq, Eq, Structural)]
pub enum ConvertType {
    Emoji,
    Avatar,
    Preview,
    Badge,
    Original,
}

/// Resolve the preset from the boolean-ish query flags.
/// Priority order: emoji > avatar > preview > badge > original.
pub fn resolve_convert_type(emoji: bool, avatar: bool, preview: bool, badge: bool) -> (r:
    ConvertType)
    ensures
        emoji ==> r == ConvertType::Emoji,
        !emoji && avatar ==> r == ConvertType::Avatar,
        !emoji && !avatar && preview ==> r == ConvertType::Preview,
        !emoji && !avatar && !preview && badge ==> r == ConvertType::Badge,
        !emoji && !avatar && !preview && !badge ==> r == ConvertType::Original,
{
    if emoji {
        ConvertType::Emoji
    } else if avatar {
        ConvertType::Avatar
    } else if preview {
        ConvertType::Preview
    } else if badge {
        ConvertType::Badge
    } else {
        ConvertType::Original
    }
}

} // verus!
