//! The transform engine: pure, ownership-consuming operations over decoded
//! media implementing the presentation presets — exact resampling, an
//! aspect-preserving height cap, reduction to the first frame, and deferred
//! rasterization of vector markup.

use vstd::prelude::*;

use crate::media::{AnimFrame, DecodedMedia, FrameView, MediaError, MediaView, RasterImage,
    RasterView};

verus! {

/// What resampling a pixel grid to a new size yields, as the triangle
/// (bilinear) filter of the image library computes it.
pub uninterp spec fn resample_of(pixels: Seq<u8>, w: u32, h: u32, nw: u32, nh: u32) -> Seq<u8>;

/// The raster that resampling `v` to `nw` by `nh` produces.
pub open spec fn resample_view(v: RasterView, nw: u32, nh: u32) -> RasterView {
    RasterView { width: nw, height: nh, pixels: resample_of(v.pixels, v.width, v.height, nw, nh) }
}

/// The frame that resampling `f`'s raster produces; the delay is kept.
pub open spec fn resample_frame_view(f: FrameView, nw: u32, nh: u32) -> FrameView {
    FrameView {
        image: resample_view(f.image, nw, nh),
        delay_numer: f.delay_numer,
        delay_denom: f.delay_denom,
    }
}

/// Relies on image::imageops::resize with FilterType::Triangle: resampling
/// is a deterministic function of the pixel grid and the target size, and
/// yields a buffer of exactly nw * nh RGBA quadruples.
#[verifier::external_body]
fn resample_rgba(img: &RasterImage, nw: u32, nh: u32) -> (r: RasterImage)
    requires
        img.wf(),
        (nw as int) * (nh as int) * 4 <= usize::MAX as int,
    ensures
        r.width == nw,
        r.height == nh,
        r@.pixels == resample_of(img@.pixels, img.width, img.height, nw, nh),
        r@ == resample_view(img@, nw, nh),
        r.wf(),
{
    let buf = image::RgbaImage::from_raw(img.width, img.height, img.data.clone()).unwrap();
    let resized = image::imageops::resize(&buf, nw, nh, image::imageops::FilterType::Triangle);
    RasterImage { width: nw, height: nh, data: resized.into_raw() }
}

/// The declared viewport size of vector markup, or nothing when the markup
/// does not parse; both dimensions are at least one pixel.
pub uninterp spec fn svg_size_of(text: Seq<char>) -> Option<(u32, u32)>;

/// Relies on usvg::Tree::from_str and Tree::size: the intrinsic size is
/// resolved from the markup's declared width/height/viewBox alone, rounded
/// to an integer size of at least one pixel each way.
#[verifier::external_body]
fn svg_intrinsic_size(text: &str) -> (r: Option<(u32, u32)>)
    ensures
        r == svg_size_of(text@),
        r matches Some(wh) ==> wh.0 >= 1 && wh.1 >= 1,
{
    let opt = resvg::usvg::Options::default();
    let tree = resvg::usvg::Tree::from_str(text, &opt).ok()?;
    let size = tree.size().to_int_size();
    Some((size.width(), size.height()))
}

/// Whether a pixmap of the given size can exist: tiny_skia accepts a size
/// exactly when its internal byte-length computation stays in range, a
/// deterministic function of the dimensions alone.
pub uninterp spec fn pixmap_ok(wh: (u32, u32)) -> bool;

/// Relies on usvg::Tree::from_str, tiny_skia::Pixmap::new and resvg::render:
/// the pixmap has exactly the markup's intrinsic size; the rendered pixels
/// depend on the fonts installed on the machine, so nothing is claimed of
/// them. Fails exactly when the markup does not parse or the pixmap size is
/// rejected — both deterministic in the inputs.
#[verifier::external_body]
fn rasterize_svg(text: &str) -> (r: Option<RasterImage>)
    ensures
        r matches Some(img) ==> img.wf() && svg_size_of(text@) == Some((img.width, img.height)),
        svg_size_of(text@) is None ==> r is None,
        svg_size_of(text@) matches Some(wh) ==> (r is Some <==> pixmap_ok(wh)),
{
    let mut opt = resvg::usvg::Options::default();
    opt.fontdb_mut().load_system_fonts();
    let tree = resvg::usvg::Tree::from_str(text, &opt).ok()?;
    let size = tree.size().to_int_size();
    let mut pixmap = resvg::tiny_skia::Pixmap::new(size.width(), size.height())?;
    resvg::render(&tree, resvg::tiny_skia::Transform::default(), &mut pixmap.as_mut());
    let w = pixmap.width();
    let h = pixmap.height();
    Some(RasterImage { width: w, height: h, data: pixmap.take() })
}

/// How `resize_exact(h, w)` relates its input view to its result: rasters
/// and frames are resampled exactly (failing only when the target buffer
/// cannot exist), vector markup is rasterized at its intrinsic size first
/// and then resampled, failing exactly when it does not parse, its pixmap
/// size is rejected, or the target buffer cannot exist.
pub open spec fn resizes_to(
    m: MediaView,
    h: u32,
    w: u32,
    r: Result<DecodedMedia, MediaError>,
) -> bool {
    match m {
        MediaView::Raster(v) => if (w as int) * (h as int) * 4 <= usize::MAX as int {
            r matches Ok(o) && o@ == MediaView::Raster(resample_view(v, w, h))
        } else {
            r matches Err(e) && e is TransformFailed
        },
        MediaView::Frames(fs) => if (w as int) * (h as int) * 4 <= usize::MAX as int {
            r matches Ok(o) && o@ == MediaView::Frames(
                Seq::new(fs.len(), |i: int| resample_frame_view(fs[i], w, h)),
            )
        } else {
            r matches Err(e) && e is TransformFailed
        },
        MediaView::Vector(t) => match svg_size_of(t) {
            Option::None => r matches Err(e) && e is TransformFailed,
            Option::Some(wh) => if pixmap_ok(wh) && (w as int) * (h as int) * 4 <= usize::MAX
                as int {
                r matches Ok(o) && (o@ matches MediaView::Raster(v) && v.width == w && v.height
                    == h)
            } else {
                r matches Err(e) && e is TransformFailed
            },
        },
    }
}

impl DecodedMedia {
    /// Rasterize vector markup at its intrinsic size; anything already
    /// pixel-based passes through unchanged.
    pub fn render_svg(self) -> (r: Result<DecodedMedia, MediaError>)
        requires
            self.wf(),
        ensures
            !(self@ is Vector) ==> (r matches Ok(m) && m == self),
            self@ matches MediaView::Vector(t) ==> match svg_size_of(t) {
                Option::None => r matches Err(e) && e is TransformFailed,
                Option::Some(wh) => if pixmap_ok(wh) {
                    r matches Ok(m) && (m@ matches MediaView::Raster(v) && v.width == wh.0
                        && v.height == wh.1) && m.wf()
                } else {
                    r matches Err(e) && e is TransformFailed
                },
            },
    {
        match self {
            DecodedMedia::Raster(img) => Ok(DecodedMedia::Raster(img)),
            DecodedMedia::Frames(fs) => Ok(DecodedMedia::Frames(fs)),
            DecodedMedia::Vector(t) => {
                match rasterize_svg(t.as_str()) {
                    Some(img) => Ok(DecodedMedia::Raster(img)),
                    None => Err(
                        MediaError::TransformFailed("vector markup could not be rendered".to_owned()),
                    ),
                }
            },
        }
    }

    /// Resample to exactly `w` by `h` with the triangle filter. Frames are
    /// resampled one by one, each keeping its own delay; vector markup is
    /// rasterized first.
    pub fn resize_exact(self, h: u32, w: u32) -> (r: Result<DecodedMedia, MediaError>)
        requires
            self.wf(),
        ensures
            resizes_to(self@, h, w, r),
            r matches Ok(m) ==> m.wf(),
    {
        proof {
            assert((w as int) * (h as int) * 4 < 0x1_0000_0000_0000_0000_0000 as int)
                by (nonlinear_arith)
                requires
                    w <= 0xffff_ffffu32,
                    h <= 0xffff_ffffu32,
            ;
        }
        let fits = (w as u128) * (h as u128) * 4 <= (usize::MAX as u128);
        match self {
            DecodedMedia::Raster(img) => {
                if !fits {
                    return Err(
                        MediaError::TransformFailed("resample target too large".to_owned()),
                    );
                }
                let out = resample_rgba(&img, w, h);
                Ok(DecodedMedia::Raster(out))
            },
            DecodedMedia::Frames(fs) => {
                if !fits {
                    return Err(
                        MediaError::TransformFailed("resample target too large".to_owned()),
                    );
                }
                let ghost pre = fs@.map_values(|f: AnimFrame| f@);
                let mut out: Vec<AnimFrame> = Vec::new();
                let mut i: usize = 0;
                while i < fs.len()
                    invariant
                        0 <= i <= fs@.len(),
                        (w as int) * (h as int) * 4 <= usize::MAX as int,
                        pre == fs@.map_values(|f: AnimFrame| f@),
                        forall|j: int| 0 <= j < fs@.len() ==> (#[trigger] fs@[j]).wf(),
                        out@.len() == i,
                        forall|j: int|
                            0 <= j < i ==> (#[trigger] out@[j])@ == resample_frame_view(
                                pre[j],
                                w,
                                h,
                            ) && out@[j].wf(),
                    decreases fs@.len() - i,
                {
                    let f = &fs[i];
                    let img = resample_rgba(&f.image, w, h);
                    out.push(
                        AnimFrame {
                            image: img,
                            delay_numer: f.delay_numer,
                            delay_denom: f.delay_denom,
                        },
                    );
                    i = i + 1;
                }
                proof {
                    assert(out@.map_values(|f: AnimFrame| f@) =~= Seq::new(
                        pre.len(),
                        |i: int| resample_frame_view(pre[i], w, h),
                    ));
                }
                Ok(DecodedMedia::Frames(out))
            },
            DecodedMedia::Vector(t) => {
                let rendered = DecodedMedia::Vector(t).render_svg()?;
                match rendered {
                    DecodedMedia::Raster(img) => {
                        if !fits {
                            return Err(
                                MediaError::TransformFailed("resample target too large".to_owned()),
                            );
                        }
                        let out = resample_rgba(&img, w, h);
                        Ok(DecodedMedia::Raster(out))
                    },
                    _ => {
                        proof {
                            assert(false);
                        }
                        Err(MediaError::TransformFailed("unreachable".to_owned()))
                    },
                }
            },
        }
    }
}

/// The width that preserves the aspect ratio when the height is capped to
/// `cap`: `w * cap / h`, rounded to the nearest integer (half up).
pub open spec fn spec_cap_width(w: u32, h: u32, cap: u32) -> u32 {
    (((w * cap) + (h / 2)) / h as int) as u32
}

/// The capped width never exceeds the original width, and it is the best
/// integer approximation of the exact ratio: the scaled difference between
/// `cap_width / cap` and `w / h` stays within half a pixel of rounding.
pub proof fn lemma_cap_width_ratio(w: u32, h: u32, cap: u32)
    requires
        cap < h,
    ensures
        spec_cap_width(w, h, cap) <= w,
        0 <= ((w * cap) + (h / 2)) / (h as int) <= w,
        spec_cap_width(w, h, cap) == ((w * cap) + (h / 2)) / (h as int),
        -((h as int) / 2) <= spec_cap_width(w, h, cap) * h - w * cap <= (h as int) / 2 + (h as int
            - 1) / 2,
{
    let x = (w as int) * (cap as int);
    let hh = h as int;
    let q = (x + hh / 2) / hh;
    assert(hh >= 1);
    assert(x >= 0) by (nonlinear_arith)
        requires
            x == (w as int) * (cap as int),
            w >= 0,
            cap >= 0,
    ;
    assert(q * hh <= x + hh / 2 < (q + 1) * hh) by (nonlinear_arith)
        requires
            hh >= 1,
            x >= 0,
            q == (x + hh / 2) / hh,
    ;
    assert(x <= w * (hh - 1)) by (nonlinear_arith)
        requires
            x == (w as int) * (cap as int),
            cap < hh,
            w >= 0,
    ;
    assert(q <= w) by (nonlinear_arith)
        requires
            q * hh <= x + hh / 2,
            x <= w * (hh - 1),
            hh >= 1,
            w >= 0,
            q >= 0,
    ;
    assert(q >= 0) by (nonlinear_arith)
        requires
            hh >= 1,
            x >= 0,
            q == (x + hh / 2) / hh,
    ;
    assert((q + 1) * hh == q * hh + hh) by (nonlinear_arith);
    assert(q * hh - x <= hh / 2);
    assert(x - q * hh <= hh - hh / 2 - 1);
    assert(spec_cap_width(w, h, cap) == q);
}

/// Compute the capped width; exact per `spec_cap_width`.
fn cap_width(w: u32, h: u32, cap: u32) -> (r: u32)
    requires
        cap < h,
    ensures
        r == spec_cap_width(w, h, cap),
        r <= w,
{
    proof {
        lemma_cap_width_ratio(w, h, cap);
        assert((w as int) * (cap as int) + (h as int) / 2 < 0x1_0000_0000_0000_0000 as int)
            by (nonlinear_arith)
            requires
                w <= 0xffff_ffffu32,
                cap <= 0xffff_ffffu32,
                h <= 0xffff_ffffu32,
        ;
    }
    let wide: u64 = (w as u64) * (cap as u64) + ((h / 2) as u64);
    let q: u64 = wide / (h as u64);
    proof {
        assert(q == spec_cap_width(w, h, cap));
    }
    q as u32
}

/// What the view of decoded media reports as its height and width: the
/// raster's size, the first frame's size, or the vector markup's intrinsic
/// size; nothing for an empty frame sequence or unparseable markup.
pub open spec fn spec_dims(m: MediaView) -> Option<(u32, u32)> {
    match m {
        MediaView::Raster(v) => Some((v.width, v.height)),
        MediaView::Frames(fs) => if fs.len() >= 1 {
            Some((fs[0].image.width, fs[0].image.height))
        } else {
            None
        },
        MediaView::Vector(t) => svg_size_of(t),
    }
}

/// How `resize_by_height_cap(cap)` relates its input view to its result: a
/// no-op exactly when the current height is within the cap, otherwise a
/// resample to height `cap` and the rounded aspect-preserving width.
pub open spec fn caps_to(m: MediaView, cap: u32, r: Result<DecodedMedia, MediaError>) -> bool {
    match spec_dims(m) {
        Option::None => r matches Err(e) && e is TransformFailed,
        Option::Some(wh) => if wh.1 <= cap {
            r matches Ok(o) && o@ == m
        } else {
            resizes_to(m, cap, spec_cap_width(wh.0, wh.1, cap), r)
        },
    }
}

/// The first-frame reduction at the view level: a frame sequence becomes its
/// first frame's raster (nothing when it is empty); anything else is kept.
pub open spec fn spec_first(m: MediaView) -> Option<MediaView> {
    match m {
        MediaView::Frames(fs) => if fs.len() >= 1 {
            Some(MediaView::Raster(fs[0].image))
        } else {
            None
        },
        _ => Some(m),
    }
}

impl DecodedMedia {
    /// The current height: the raster's, the first frame's, or the vector
    /// markup's declared height.
    pub fn height(&self) -> (r: Result<u32, MediaError>)
        ensures
            match spec_dims(self@) {
                Option::Some(wh) => r matches Ok(v) && v == wh.1,
                Option::None => r matches Err(e) && e is TransformFailed,
            },
    {
        match self {
            DecodedMedia::Raster(img) => Ok(img.height),
            DecodedMedia::Frames(fs) => {
                if fs.len() >= 1 {
                    proof {
                        assert(fs@.map_values(|f: AnimFrame| f@)[0] == fs@[0]@);
                    }
                    Ok(fs[0].image.height)
                } else {
                    Err(MediaError::TransformFailed("empty frame sequence".to_owned()))
                }
            },
            DecodedMedia::Vector(t) => {
                match svg_intrinsic_size(t.as_str()) {
                    Some(wh) => Ok(wh.1),
                    None => Err(
                        MediaError::TransformFailed("vector markup does not parse".to_owned()),
                    ),
                }
            },
        }
    }

    /// The current width, symmetrically to `height`.
    pub fn width(&self) -> (r: Result<u32, MediaError>)
        ensures
            match spec_dims(self@) {
                Option::Some(wh) => r matches Ok(v) && v == wh.0,
                Option::None => r matches Err(e) && e is TransformFailed,
            },
    {
        match self {
            DecodedMedia::Raster(img) => Ok(img.width),
            DecodedMedia::Frames(fs) => {
                if fs.len() >= 1 {
                    proof {
                        assert(fs@.map_values(|f: AnimFrame| f@)[0] == fs@[0]@);
                    }
                    Ok(fs[0].image.width)
                } else {
                    Err(MediaError::TransformFailed("empty frame sequence".to_owned()))
                }
            },
            DecodedMedia::Vector(t) => {
                match svg_intrinsic_size(t.as_str()) {
                    Some(wh) => Ok(wh.0),
                    None => Err(
                        MediaError::TransformFailed("vector markup does not parse".to_owned()),
                    ),
                }
            },
        }
    }

    /// Cap the height at `cap`, preserving the aspect ratio: a no-op when
    /// the current height is already within the cap.
    pub fn resize_by_height_cap(self, cap: u32) -> (r: Result<DecodedMedia, MediaError>)
        requires
            self.wf(),
        ensures
            caps_to(self@, cap, r),
            r matches Ok(m) ==> m.wf(),
    {
        let ch = match self.height() {
            Ok(v) => v,
            Err(e) => {
                return Err(e);
            },
        };
        if ch <= cap {
            return Ok(self);
        }
        let cw = match self.width() {
            Ok(v) => v,
            Err(e) => {
                return Err(e);
            },
        };
        let nw = cap_width(cw, ch, cap);
        proof {
            match &self {
                DecodedMedia::Raster(img) => {
                    assert(img.data.len() == img@.pixels.len());
                    assert((nw as int) * (cap as int) * 4 <= (cw as int) * (ch as int) * 4)
                        by (nonlinear_arith)
                        requires
                            nw <= cw,
                            cap <= ch,
                            nw >= 0,
                            cap >= 0,
                    ;
                },
                DecodedMedia::Frames(fs) => {
                    assert(fs@.map_values(|f: AnimFrame| f@)[0] == fs@[0]@);
                    assert(fs@[0].image.data.len() == fs@[0].image@.pixels.len());
                    assert((nw as int) * (cap as int) * 4 <= (cw as int) * (ch as int) * 4)
                        by (nonlinear_arith)
                        requires
                            nw <= cw,
                            cap <= ch,
                            nw >= 0,
                            cap >= 0,
                    ;
                },
                DecodedMedia::Vector(_) => {},
            }
        }
        self.resize_exact(cap, nw)
    }

    /// Reduce an animation to its first frame; single images and vector
    /// markup pass through unchanged (markup stays unrasterized here).
    pub fn reduce_to_first_frame(self) -> (r: Result<DecodedMedia, MediaError>)
        ensures
            match spec_first(self@) {
                Option::Some(m) => r matches Ok(o) && o@ == m,
                Option::None => r matches Err(e) && e is TransformFailed,
            },
            !(self@ is Frames) ==> (r matches Ok(o) && o == self),
            self.wf() ==> (r matches Ok(o) ==> o.wf()),
    {
        match self {
            DecodedMedia::Raster(img) => Ok(DecodedMedia::Raster(img)),
            DecodedMedia::Vector(t) => Ok(DecodedMedia::Vector(t)),
            DecodedMedia::Frames(mut fs) => {
                if fs.len() >= 1 {
                    proof {
                        assert(fs@.map_values(|f: AnimFrame| f@)[0] == fs@[0]@);
                    }
                    let first = fs.remove(0);
                    Ok(DecodedMedia::Raster(first.image))
                } else {
                    Err(MediaError::TransformFailed("empty frame sequence".to_owned()))
                }
            },
        }
    }

    /// The emoji preset: cap the height at 128.
    pub fn emoji(self) -> (r: Result<DecodedMedia, MediaError>)
        requires
            self.wf(),
        ensures
            caps_to(self@, 128, r),
            r matches Ok(m) ==> m.wf(),
    {
        self.resize_by_height_cap(128)
    }

    /// The avatar preset: cap the height at 320.
    pub fn avatar(self) -> (r: Result<DecodedMedia, MediaError>)
        requires
            self.wf(),
        ensures
            caps_to(self@, 320, r),
            r matches Ok(m) ==> m.wf(),
    {
        self.resize_by_height_cap(320)
    }

    /// The preview preset: resample to exactly 200 by 200.
    pub fn preview(self) -> (r: Result<DecodedMedia, MediaError>)
        requires
            self.wf(),
        ensures
            resizes_to(self@, 200, 200, r),
            r matches Ok(m) ==> m.wf(),
    {
        self.resize_exact(200, 200)
    }

    /// The badge preset: resample to exactly 96 by 96.
    pub fn badge(self) -> (r: Result<DecodedMedia, MediaError>)
        requires
            self.wf(),
        ensures
            resizes_to(self@, 96, 96, r),
            r matches Ok(m) ==> m.wf(),
    {
        self.resize_exact(96, 96)
    }

    /// Strip animation: reduce to the first frame, then cap the height at
    /// 422 — the de-animated thumbnail budget.
    pub fn static_(self) -> (r: Result<DecodedMedia, MediaError>)
        requires
            self.wf(),
        ensures
            match spec_first(self@) {
                Option::Some(mid) => caps_to(mid, 422, r),
                Option::None => r matches Err(e) && e is TransformFailed,
            },
            r matches Ok(m) ==> m.wf(),
    {
        let first = self.reduce_to_first_frame()?;
        first.resize_by_height_cap(422)
    }
}

} // verus!
