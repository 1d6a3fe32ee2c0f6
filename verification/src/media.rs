//! The normalized pixel representation that decoding produces and the
//! transform engine consumes: a tagged union of a single raster image, an
//! ordered frame sequence, and deferred vector markup.

use vstd::prelude::*;

verus! {

/// Mathematical view of a raster image: dimensions plus the RGBA8 pixel
/// bytes, row-major, four bytes per pixel.
pub struct RasterView {
    pub width: u32,
    pub height: u32,
    pub pixels: Seq<u8>,
}

impl RasterView {
    /// The pixel buffer holds exactly width * height RGBA quadruples.
    pub open spec fn wf(self) -> bool {
        self.pixels.len() == self.width * self.height * 4
    }
}

/// A fixed-size grid of RGBA8 pixels (straight alpha, row-major).
pub struct RasterImage {
    pub width: u32,
    pub height: u32,
    pub data: Vec<u8>,
}

impl RasterImage {
    pub open spec fn wf(self) -> bool {
        self@.wf()
    }
}

impl View for RasterImage {
    type V = RasterView;

    open spec fn view(&self) -> RasterView {
        RasterView { width: self.width, height: self.height, pixels: self.data@ }
    }
}

/// Mathematical view of one animation frame: the raster plus its display
/// duration as a rational number of milliseconds (numerator / denominator).
pub struct FrameView {
    pub image: RasterView,
    pub delay_numer: u32,
    pub delay_denom: u32,
}

/// One animation frame: a raster image shown for a rational number of
/// milliseconds (delay_numer / delay_denom).
pub struct AnimFrame {
    pub image: RasterImage,
    pub delay_numer: u32,
    pub delay_denom: u32,
}

impl AnimFrame {
    pub open spec fn wf(self) -> bool {
        self.image.wf()
    }
}

impl View for AnimFrame {
    type V = FrameView;

    open spec fn view(&self) -> FrameView {
        FrameView {
            image: self.image@,
            delay_numer: self.delay_numer,
            delay_denom: self.delay_denom,
        }
    }
}

/// A frame's display duration in whole milliseconds: the rational delay
/// rounded down, and zero when the denominator is degenerate.
pub open spec fn spec_delay_ms(numer: u32, denom: u32) -> u32 {
    if denom == 0 {
        0u32
    } else {
        (numer / denom) as u32
    }
}

/// Executable counterpart of `spec_delay_ms`.
pub fn delay_ms(numer: u32, denom: u32) -> (r: u32)
    ensures
        r == spec_delay_ms(numer, denom),
{
    if denom == 0 {
        0
    } else {
        numer / denom
    }
}

/// Mathematical view of decoded media.
pub enum MediaView {
    Raster(RasterView),
    Frames(Seq<FrameView>),
    Vector(Seq<char>),
}

/// Decoded media: a single raster image, an ordered sequence of frames, or
/// vector markup that is rasterized only once a concrete size is needed.
pub enum DecodedMedia {
    Raster(RasterImage),
    Frames(Vec<AnimFrame>),
    Vector(String),
}

impl View for DecodedMedia {
    type V = MediaView;

    open spec fn view(&self) -> MediaView {
        match self {
            DecodedMedia::Raster(img) => MediaView::Raster(img@),
            DecodedMedia::Frames(fs) => MediaView::Frames(fs@.map_values(|f: AnimFrame| f@)),
            DecodedMedia::Vector(t) => MediaView::Vector(t@),
        }
    }
}

impl DecodedMedia {
    /// Every raster buffer inside is well-formed.
    pub open spec fn wf(self) -> bool {
        match self {
            DecodedMedia::Raster(img) => img.wf(),
            DecodedMedia::Frames(fs) => forall|i: int|
                0 <= i < fs@.len() ==> (#[trigger] fs@[i]).wf(),
            DecodedMedia::Vector(_) => true,
        }
    }
}

/// The error kinds a request can fail with, mirroring the pipeline's stages:
/// a rejected literal-address target, a fetch that did not succeed, an
/// unrecognized media kind, malformed bytes for a recognized kind, a failed
/// transform, and a native codec failure carrying the codec's own
/// diagnostic.
#[derive(Debug)]
pub enum MediaError {
    AddressRejected,
    NetworkFailed(String),
    UnsupportedFormat,
    DecodeFailed(String),
    TransformFailed(String),
    CodecFailed(String),
}

impl MediaError {
    /// A short human-readable tag for the error kind.
    pub fn kind_name(&self) -> (r: &'static str)
        ensures
            self is AddressRejected ==> r@ == "address rejected"@,
            self is NetworkFailed ==> r@ == "network failed"@,
            self is UnsupportedFormat ==> r@ == "unsupported format"@,
            self is DecodeFailed ==> r@ == "decode failed"@,
            self is TransformFailed ==> r@ == "transform failed"@,
            self is CodecFailed ==> r@ == "codec failed"@,
    {
        match self {
            MediaError::AddressRejected => "address rejected",
            MediaError::NetworkFailed(_) => "network failed",
            MediaError::UnsupportedFormat => "unsupported format",
            MediaError::DecodeFailed(_) => "decode failed",
            MediaError::TransformFailed(_) => "transform failed",
            MediaError::CodecFailed(_) => "codec failed",
        }
    }
}

} // verus!
