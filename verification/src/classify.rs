//! Format classification: map a URL path to a media kind by its extension,
//! with a byte-signature fallback when the extension is absent or unknown.

use image::ImageFormat as F;
use vstd::prelude::*;

verus! {

/// The media kinds the proxy distinguishes.
#[derive(Clone, Copy, Debug, PartialEq, Eq, Structural)]
pub enum MediaKind {
    Png,
    Jpeg,
    Gif,
    Svg,
    Webp,
    Ico,
    Unknown,
}

/// The substring of `p` after its last `.` (0x2e), or all of `p` when it
/// holds no dot — exactly the last piece of splitting on `.`.
pub open spec fn ext_of(p: Seq<u8>) -> Seq<u8>
    decreases p.len(),
{
    if p.len() == 0 {
        p
    } else if p.last() == 46u8 {
        Seq::empty()
    } else {
        ext_of(p.drop_last()).push(p.last())
    }
}

pub open spec fn spec_ext_png() -> Seq<u8> {
    seq![112u8, 110u8, 103u8]
}

pub open spec fn spec_ext_jpg() -> Seq<u8> {
    seq![106u8, 112u8, 103u8]
}

pub open spec fn spec_ext_jpeg() -> Seq<u8> {
    seq![106u8, 112u8, 101u8, 103u8]
}

pub open spec fn spec_ext_jfif() -> Seq<u8> {
    seq![106u8, 102u8, 105u8, 102u8]
}

pub open spec fn spec_ext_pjpeg() -> Seq<u8> {
    seq![112u8, 106u8, 112u8, 101u8, 103u8]
}

pub open spec fn spec_ext_pjp() -> Seq<u8> {
    seq![112u8, 106u8, 112u8]
}

pub open spec fn spec_ext_gif() -> Seq<u8> {
    seq![103u8, 105u8, 102u8]
}

pub open spec fn spec_ext_svg() -> Seq<u8> {
    seq![115u8, 118u8, 103u8]
}

pub open spec fn spec_ext_webp() -> Seq<u8> {
    seq![119u8, 101u8, 98u8, 112u8]
}

/// The kind a lowercase extension maps to; anything unrecognized is Unknown.
pub open spec fn kind_of_ext(e: Seq<u8>) -> MediaKind {
    if e == spec_ext_png() {
        MediaKind::Png
    } else if e == spec_ext_jpg() || e == spec_ext_jpeg() || e == spec_ext_jfif() || e
        == spec_ext_pjpeg() || e == spec_ext_pjp() {
        MediaKind::Jpeg
    } else if e == spec_ext_gif() {
        MediaKind::Gif
    } else if e == spec_ext_svg() {
        MediaKind::Svg
    } else if e == spec_ext_webp() {
        MediaKind::Webp
    } else {
        MediaKind::Unknown
    }
}

/// Byte-for-byte slice equality.
pub fn bytes_eq(a: &[u8], b: &[u8]) -> (r: bool)
    ensures
        r == (a@ == b@),
{
    if a.len() != b.len() {
        proof {
            assert(a@.len() != b@.len());
        }
        return false;
    }
    let mut i: usize = 0;
    while i < a.len()
        invariant
            0 <= i <= a@.len(),
            a@.len() == b@.len(),
            forall|j: int| 0 <= j < i ==> a@[j] == b@[j],
        decreases a@.len() - i,
    {
        if a[i] != b[i] {
            return false;
        }
        i = i + 1;
    }
    proof {
        assert(a@ =~= b@);
    }
    true
}

/// Index just past the last `.` in `p`, or 0 when `p` holds none; `ext_of`
/// is the suffix of `p` from that index.
fn ext_start(p: &[u8]) -> (r: usize)
    ensures
        r <= p@.len(),
        ext_of(p@) == p@.subrange(r as int, p@.len() as int),
{
    let mut i: usize = p.len();
    proof {
        assert(p@.subrange(0, i as int) =~= p@);
        assert(p@.subrange(i as int, p@.len() as int) =~= Seq::<u8>::empty());
        assert(ext_of(p@).add(Seq::<u8>::empty()) =~= ext_of(p@));
    }
    while i > 0
        invariant
            0 <= i <= p@.len(),
            ext_of(p@) == ext_of(p@.subrange(0, i as int)).add(
                p@.subrange(i as int, p@.len() as int),
            ),
            forall|j: int| i <= j < p@.len() ==> p@[j] != 46u8,
        decreases i,
    {
        if p[i - 1] == 46u8 {
            proof {
                assert(p@.subrange(0, i as int).last() == 46u8);
                assert(ext_of(p@.subrange(0, i as int)) == Seq::<u8>::empty());
                assert(ext_of(p@) =~= p@.subrange(i as int, p@.len() as int));
            }
            return i;
        }
        proof {
            let pre = p@.subrange(0, i as int);
            assert(pre.last() == p@[i - 1]);
            assert(pre.drop_last() =~= p@.subrange(0, i - 1));
            assert(ext_of(pre) == ext_of(p@.subrange(0, i - 1)).push(p@[i - 1]));
            assert(ext_of(p@.subrange(0, i - 1)).push(p@[i - 1]).add(
                p@.subrange(i as int, p@.len() as int),
            ) =~= ext_of(p@.subrange(0, i - 1)).add(p@.subrange(i - 1, p@.len() as int)));
        }
        i = i - 1;
    }
    proof {
        assert(p@.subrange(0, 0) =~= Seq::<u8>::empty());
        assert(ext_of(Seq::<u8>::empty()) == Seq::<u8>::empty());
        assert(ext_of(p@) =~= p@.subrange(0, p@.len() as int));
    }
    0
}

/// Classify a URL path (as bytes) by the extension after its last dot.
pub fn get_image_ext(path: &[u8]) -> (r: MediaKind)
    ensures
        r == kind_of_ext(ext_of(path@)),
{
    let start = ext_start(path);
    let ext = vstd::slice::slice_subrange(path, start, path.len());
    proof {
        assert(ext@ == ext_of(path@));
    }
    if bytes_eq(ext, &[112u8, 110u8, 103u8]) {
        proof {
            assert(ext@ =~= spec_ext_png());
        }
        MediaKind::Png
    } else if bytes_eq(ext, &[106u8, 112u8, 103u8]) {
        proof {
            assert(ext@ =~= spec_ext_jpg());
        }
        MediaKind::Jpeg
    } else if bytes_eq(ext, &[106u8, 112u8, 101u8, 103u8]) {
        proof {
            assert(ext@ =~= spec_ext_jpeg());
        }
        MediaKind::Jpeg
    } else if bytes_eq(ext, &[106u8, 102u8, 105u8, 102u8]) {
        proof {
            assert(ext@ =~= spec_ext_jfif());
        }
        MediaKind::Jpeg
    } else if bytes_eq(ext, &[112u8, 106u8, 112u8, 101u8, 103u8]) {
        proof {
            assert(ext@ =~= spec_ext_pjpeg());
        }
        MediaKind::Jpeg
    } else if bytes_eq(ext, &[112u8, 106u8, 112u8]) {
        proof {
            assert(ext@ =~= spec_ext_pjp());
        }
        MediaKind::Jpeg
    } else if bytes_eq(ext, &[103u8, 105u8, 102u8]) {
        proof {
            assert(ext@ =~= spec_ext_gif());
        }
        MediaKind::Gif
    } else if bytes_eq(ext, &[115u8, 118u8, 103u8]) {
        proof {
            assert(ext@ =~= spec_ext_svg());
        }
        MediaKind::Svg
    } else if bytes_eq(ext, &[119u8, 101u8, 98u8, 112u8]) {
        proof {
            assert(ext@ =~= spec_ext_webp());
        }
        MediaKind::Webp
    } else {
        MediaKind::Unknown
    }
}

/// The container formats the signature sniffer can report, as far as the
/// classifier distinguishes them: the five kinds the proxy can decode, any
/// other known container, and a match the sniffer itself cannot place.
#[derive(Clone, Copy, Debug, PartialEq, Eq, Structural)]
pub enum SniffFormat {
    Png,
    Jpeg,
    Gif,
    WebP,
    Ico,
    OtherKnown,
    Unrecognized,
}

/// What the signature sniffer reports for a byte buffer: `None` when no
/// known container magic matches.
pub uninterp spec fn sniff_of(b: Seq<u8>) -> Option<SniffFormat>;

/// Relies on image::guess_format: recognizes a container by its leading
/// magic bytes, deterministically from the buffer alone. The containers the
/// proxy cannot decode are reported collapsed to one value each way.
#[verifier::external_body]
fn sniff_format(buf: &[u8]) -> (r: Option<SniffFormat>)
    ensures
        r == sniff_of(buf@),
{
    match image::guess_format(buf) {
        Ok(F::Png) => Some(SniffFormat::Png),
        Ok(F::Jpeg) => Some(SniffFormat::Jpeg),
        Ok(F::Gif) => Some(SniffFormat::Gif),
        Ok(F::WebP) => Some(SniffFormat::WebP),
        Ok(F::Ico) => Some(SniffFormat::Ico),
        Ok(F::Pnm | F::Tiff | F::Tga | F::Dds | F::Bmp | F::Hdr | F::OpenExr) => Some(SniffFormat::OtherKnown),
        Ok(F::Farbfeld | F::Avif | F::Qoi) => Some(SniffFormat::OtherKnown),
        Ok(_) => Some(SniffFormat::Unrecognized),
        Err(_) => None,
    }
}

/// The kind a sniffed container collapses to: the five kinds the proxy can
/// decode keep their identity; every other sniffed format, and sniff
/// failure, falls back to Svg as a last-resort textual guess.
pub open spec fn sniffed_kind(s: Option<SniffFormat>) -> MediaKind {
    match s {
        Some(SniffFormat::Png) => MediaKind::Png,
        Some(SniffFormat::Jpeg) => MediaKind::Jpeg,
        Some(SniffFormat::Gif) => MediaKind::Gif,
        Some(SniffFormat::WebP) => MediaKind::Webp,
        Some(SniffFormat::Ico) => MediaKind::Ico,
        Some(SniffFormat::OtherKnown) => MediaKind::Svg,
        Some(SniffFormat::Unrecognized) => MediaKind::Svg,
        None => MediaKind::Svg,
    }
}

/// Classify a byte buffer by its container signature, falling back to Svg.
pub fn guess_format(buf: &[u8]) -> (r: MediaKind)
    ensures
        r == sniffed_kind(sniff_of(buf@)),
{
    match sniff_format(buf) {
        Some(SniffFormat::Png) => MediaKind::Png,
        Some(SniffFormat::Jpeg) => MediaKind::Jpeg,
        Some(SniffFormat::Gif) => MediaKind::Gif,
        Some(SniffFormat::WebP) => MediaKind::Webp,
        Some(SniffFormat::Ico) => MediaKind::Ico,
        Some(SniffFormat::OtherKnown) => MediaKind::Svg,
        Some(SniffFormat::Unrecognized) => MediaKind::Svg,
        None => MediaKind::Svg,
    }
}

} // verus!
