//! The codec adapter: encode decoded media into the WebP interchange format
//! (single images and animations), decode animated WebP buffers into frame
//! sequences, and encode the plain still-image fallback. The native codec is
//! driven through safe facades; the timestamp bookkeeping that turns rational
//! per-frame delays into the cumulative millisecond timeline — and back — is
//! verified here.

use vstd::prelude::*;

use crate::media::{spec_delay_ms, delay_ms, AnimFrame, DecodedMedia, FrameView, MediaError,
    MediaView, RasterImage};

verus! {

// ---------------------------------------------------------------------------
// The cumulative-timestamp algebra shared by the encode and decode paths.
// ---------------------------------------------------------------------------
/// The timeline step a frame contributes when submitted: its delay in whole
/// milliseconds, floored at one. The native encoder requires strictly
/// increasing timestamps, so a delay that rounds to zero milliseconds is
/// carried as one millisecond rather than dropping the frame or failing.
pub open spec fn spec_step_ms(numer: u32, denom: u32) -> u32 {
    if spec_delay_ms(numer, denom) == 0 {
        1u32
    } else {
        spec_delay_ms(numer, denom)
    }
}

/// Executable counterpart of `spec_step_ms`.
pub fn step_ms(numer: u32, denom: u32) -> (r: u32)
    ensures
        r == spec_step_ms(numer, denom),
{
    let d = delay_ms(numer, denom);
    if d == 0 {
        1
    } else {
        d
    }
}

/// The total length of the encoded timeline, in whole milliseconds: every
/// frame contributes its rounded delay, at least one millisecond each.
pub open spec fn spec_total_ms(fs: Seq<FrameView>) -> int
    decreases fs.len(),
{
    if fs.len() == 0 {
        0
    } else {
        spec_total_ms(fs.drop_last()) + spec_step_ms(fs.last().delay_numer, fs.last().delay_denom)
    }
}

pub proof fn lemma_total_ms_nonneg(fs: Seq<FrameView>)
    ensures
        spec_total_ms(fs) >= 0,
    decreases fs.len(),
{
    if fs.len() > 0 {
        lemma_total_ms_nonneg(fs.drop_last());
    }
}

/// The cumulative end timestamp of every frame: entry `i` is the sum of the
/// first `i + 1` delays.
pub open spec fn cumulative_ends(d: Seq<int>) -> Seq<int> {
    Seq::new(d.len(), |i: int| sum_prefix(d, i + 1))
}

/// The sum of the first `n` entries of `d`.
pub open spec fn sum_prefix(d: Seq<int>, n: int) -> int
    decreases n,
{
    if n <= 0 {
        0
    } else {
        sum_prefix(d, n - 1) + d[n - 1]
    }
}

/// The per-frame delays recovered from cumulative end timestamps by
/// differencing: the first frame's delay is its own timestamp, every later
/// frame's is the delta to its predecessor.
pub open spec fn delays_from_ends(e: Seq<int>) -> Seq<int> {
    Seq::new(
        e.len(),
        |i: int|
            if i == 0 {
                e[0]
            } else {
                e[i] - e[i - 1]
            },
    )
}

/// The decode side inverts the encode side: differencing the cumulative end
/// timestamps that a sequence of per-frame delays accumulates yields exactly
/// those delays again, whatever they are.
pub proof fn lemma_duration_round_trip(d: Seq<int>)
    ensures
        delays_from_ends(cumulative_ends(d)) =~= d,
{
    assert forall|i: int| 0 <= i < d.len() implies delays_from_ends(cumulative_ends(d))[i]
        == d[i] by {
        if i == 0 {
            assert(sum_prefix(d, 1) == sum_prefix(d, 0) + d[0]);
        } else {
            assert(sum_prefix(d, i + 1) == sum_prefix(d, i) + d[i]);
        }
    }
}

// ---------------------------------------------------------------------------
// Still-image encoding.
// ---------------------------------------------------------------------------
/// The WebP encoding of an RGBA buffer under the given mode, or nothing when
/// the codec rejects the input (for instance a dimension beyond its limit).
pub uninterp spec fn webp_still_of(
    pixels: Seq<u8>,
    w: u32,
    h: u32,
    lossless: bool,
    quality: u8,
) -> Option<Seq<u8>>;

/// Relies on webp::Encoder::from_rgba and Encoder::encode_simple: encoding
/// is a deterministic function of the pixel grid, the mode and the quality
/// factor, and so is its failure (a configuration or dimension the codec
/// rejects). The buffer must hold exactly w * h RGBA quadruples, or the
/// constructor panics.
#[verifier::external_body]
fn webp_encode_still(img: &RasterImage, lossless: bool, quality: u8) -> (r: Result<Vec<u8>, String>)
    requires
        img.wf(),
    ensures
        r matches Ok(b) ==> webp_still_of(img@.pixels, img.width, img.height, lossless, quality)
            == Some(b@),
        r is Err ==> webp_still_of(img@.pixels, img.width, img.height, lossless, quality)
            is None,
{
    let enc = webp::Encoder::from_rgba(&img.data, img.width, img.height);
    match enc.encode_simple(lossless, quality.into()) {
        Ok(mem) => Ok(mem.to_vec()),
        Err(e) => Err(format!("{:?}", e)),
    }
}

/// Encode a single raster image into lossy WebP at the given quality:
/// exactly the named still encoding, failing exactly when it does not exist.
pub fn encode_webp_image(img: &RasterImage, quality: u8) -> (r: Result<Vec<u8>, MediaError>)
    requires
        img.wf(),
    ensures
        r matches Ok(b) ==> webp_still_of(img@.pixels, img.width, img.height, false, quality)
            == Some(b@),
        r is Err ==> webp_still_of(img@.pixels, img.width, img.height, false, quality) is None,
        r matches Err(e) ==> e is CodecFailed,
{
    match webp_encode_still(img, false, quality) {
        Ok(b) => Ok(b),
        Err(m) => Err(MediaError::CodecFailed(m)),
    }
}

/// Encode a single raster image into lossless WebP: exactly the named
/// lossless encoding, failing exactly when it does not exist.
pub fn encode_webp_image_lossless(img: &RasterImage) -> (r: Result<Vec<u8>, MediaError>)
    requires
        img.wf(),
    ensures
        r matches Ok(b) ==> webp_still_of(img@.pixels, img.width, img.height, true, 100)
            == Some(b@),
        r is Err ==> webp_still_of(img@.pixels, img.width, img.height, true, 100) is None,
        r matches Err(e) ==> e is CodecFailed,
{
    match webp_encode_still(img, true, 100) {
        Ok(b) => Ok(b),
        Err(m) => Err(MediaError::CodecFailed(m)),
    }
}

// ---------------------------------------------------------------------------
// Animation encoding.
// ---------------------------------------------------------------------------
#[verifier::external_type_specification]
#[verifier::external_body]
pub struct ExAnimEncoder(webp_animation::Encoder);

/// The frames an animation encoder holds so far: each frame's RGBA bytes
/// with the start timestamp it was submitted at, in submission order.
pub uninterp spec fn anim_contents_of(enc: webp_animation::Encoder) -> Seq<(Seq<u8>, i32)>;

/// The configuration an animation encoder was created with: its canvas
/// size and its quality factor.
pub uninterp spec fn anim_config_of(enc: webp_animation::Encoder) -> ((u32, u32), u8);

/// The animated WebP that the encoding protocol yields for a canvas, a
/// quality factor, a sequence of timestamped frames and a final timestamp —
/// or nothing when any stage of the protocol rejects them (a canvas or
/// quality the codec refuses, a frame buffer that does not match the
/// canvas, a timestamp out of order, a failed native call). A deterministic
/// function of these arguments alone.
pub uninterp spec fn anim_webp_of(
    canvas: (u32, u32),
    quality: u8,
    frames: Seq<(Seq<u8>, i32)>,
    end_ts: i32,
) -> Option<Seq<u8>>;

/// Relies on webp_animation::Encoder::new_with_options: a fresh animation
/// encoder for a canvas of the given size, configured for lossy frames at
/// the given quality and an infinite loop count (zero). The facade does not
/// expose the animation background color, which stays the native default
/// (opaque white) rather than zero; no contract speaks of it. Creation
/// fails exactly on a zero dimension, a rejected configuration, or a
/// refused native allocation — determined by the arguments — so a failed
/// creation means the protocol yields nothing for this configuration,
/// whatever the frames.
#[verifier::external_body]
fn anim_encoder_new(w: u32, h: u32, quality: u8) -> (r: Result<webp_animation::Encoder, String>)
    ensures
        (w == 0 || h == 0) ==> r is Err,
        r matches Ok(enc) ==> anim_config_of(enc) == (((w, h), quality)) && anim_contents_of(enc)
            == Seq::<(Seq<u8>, i32)>::empty(),
        r is Err ==> forall|fs: Seq<(Seq<u8>, i32)>, e: i32|
            anim_webp_of((w, h), quality, fs, e) is None,
{
    let config = webp_animation::EncodingConfig {
        encoding_type: webp_animation::EncodingType::Lossy(Default::default()),
        quality: quality.into(),
        ..Default::default()
    };
    let options = webp_animation::EncoderOptions { encoding_config: Some(config), ..Default::default() };
    webp_animation::Encoder::new_with_options((w, h), options).map_err(|e| format!("{:?}", e))
}

/// Relies on webp_animation::Encoder::add_frame: imports one RGBA frame at
/// its starting timestamp. On success the frame joins the encoder's
/// contents. Failure — a buffer that does not match the canvas, a
/// timestamp that does not increase, a refused native add, all determined
/// by the configuration, the contents so far and this frame — leaves the
/// contents unchanged, and no frame sequence extending this one encodes.
#[verifier::external_body]
fn anim_encoder_add(
    enc: &mut webp_animation::Encoder,
    frame: &RasterImage,
    ts: i32,
) -> (r: Result<(), String>)
    ensures
        anim_config_of(*final(enc)) == anim_config_of(*old(enc)),
        r is Ok ==> anim_contents_of(*final(enc)) == anim_contents_of(*old(enc)).push(
            (frame@.pixels, ts),
        ),
        r is Err ==> anim_contents_of(*final(enc)) == anim_contents_of(*old(enc)),
        r is Err ==> forall|rest: Seq<(Seq<u8>, i32)>, e: i32|
            anim_webp_of(
                anim_config_of(*old(enc)).0,
                anim_config_of(*old(enc)).1,
                anim_contents_of(*old(enc)).push((frame@.pixels, ts)).add(rest),
                e,
            ) is None,
{
    enc.add_frame(&frame.data, ts).map_err(|e| format!("{:?}", e))
}

/// Relies on webp_animation::Encoder::finalize: closes the last frame at
/// the given end timestamp and assembles the animation bytes — exactly the
/// protocol's encoding of the accumulated contents, failing exactly when
/// the codec rejects them (no frames, an end timestamp before the last
/// frame, a refused native assemble).
#[verifier::external_body]
fn anim_encoder_finalize(enc: webp_animation::Encoder, end_ts: i32) -> (r: Result<Vec<u8>, String>)
    ensures
        r matches Ok(b) ==> anim_webp_of(
            anim_config_of(enc).0,
            anim_config_of(enc).1,
            anim_contents_of(enc),
            end_ts,
        ) == Some(b@),
        r is Err ==> anim_webp_of(
            anim_config_of(enc).0,
            anim_config_of(enc).1,
            anim_contents_of(enc),
            end_ts,
        ) is None,
{
    match enc.finalize(end_ts) {
        Ok(data) => Ok(data.to_vec()),
        Err(e) => Err(format!("{:?}", e)),
    }
}

/// The pairs the encode loop submits: frame `i`'s pixels at the start
/// timestamp given by the sum of the timeline steps before it — each
/// frame's whole-millisecond delay, floored at one.
pub open spec fn submitted_pairs(fs: Seq<FrameView>) -> Seq<(Seq<u8>, i32)> {
    Seq::new(fs.len(), |i: int| (fs[i].image.pixels, spec_total_ms(fs.take(i)) as i32))
}

/// The canvas an animation is encoded on: the first frame's size.
pub open spec fn spec_anim_canvas(fs: Seq<FrameView>) -> (u32, u32) {
    (fs[0].image.width, fs[0].image.height)
}

/// The bytes a frame sequence encodes to: the protocol's result for the
/// first frame's canvas, the frames at their start timestamps, and the
/// total duration as the final timestamp.
pub open spec fn spec_anim_encoding(fs: Seq<FrameView>, quality: u8) -> Option<Seq<u8>> {
    anim_webp_of(spec_anim_canvas(fs), quality, submitted_pairs(fs), spec_total_ms(fs) as i32)
}

/// A prefix of the timeline never exceeds the whole: delays are never
/// negative.
proof fn lemma_total_ms_prefix(fs: Seq<FrameView>, i: int)
    requires
        0 <= i <= fs.len(),
    ensures
        spec_total_ms(fs.take(i)) <= spec_total_ms(fs),
    decreases fs.len() - i,
{
    if i < fs.len() {
        assert(fs.take(i + 1).drop_last() =~= fs.take(i));
        assert(fs.take(i + 1).last() == fs[i]);
        lemma_total_ms_prefix(fs, i + 1);
    } else {
        assert(fs.take(i) =~= fs);
    }
}

/// Encode a frame sequence into animated WebP. Frame `i` is submitted at
/// the start timestamp given by the sum of the preceding timeline steps
/// (whole-millisecond delays, floored at one each so the timestamps
/// strictly increase), and the stream is finalized at the total duration,
/// so that the per-frame durations survive a decode exactly
/// (`lemma_duration_round_trip`). The result is exactly the named protocol
/// encoding of that submission; it fails exactly on an empty sequence, a
/// timeline beyond the codec's millisecond range, or a submission the
/// protocol rejects.
pub fn encode_webp_anim(frames: &Vec<AnimFrame>, quality: u8) -> (r: Result<Vec<u8>, MediaError>)
    requires
        forall|i: int| 0 <= i < frames@.len() ==> (#[trigger] frames@[i]).wf(),
    ensures
        frames@.len() == 0 ==> (r matches Err(e) && e is CodecFailed),
        r matches Ok(b) ==> frames@.len() >= 1 && spec_total_ms(
            frames@.map_values(|f: AnimFrame| f@),
        ) <= i32::MAX && spec_anim_encoding(frames@.map_values(|f: AnimFrame| f@), quality)
            == Some(b@),
        r matches Err(e) ==> e is CodecFailed && (frames@.len() == 0 || spec_total_ms(
            frames@.map_values(|f: AnimFrame| f@),
        ) > i32::MAX || spec_anim_encoding(frames@.map_values(|f: AnimFrame| f@), quality)
            is None),
{
    let ghost views = frames@.map_values(|f: AnimFrame| f@);
    let ghost pairs = submitted_pairs(views);
    if frames.len() == 0 {
        return Err(MediaError::CodecFailed("empty frame sequence".to_owned()));
    }
    proof {
        assert(views[0] == frames@[0]@);
    }
    let w = frames[0].image.width;
    let h = frames[0].image.height;
    let mut enc = match anim_encoder_new(w, h, quality) {
        Ok(e) => e,
        Err(m) => {
            proof {
                assert(anim_webp_of(
                    (w, h),
                    quality,
                    submitted_pairs(views),
                    spec_total_ms(views) as i32,
                ) is None);
            }
            return Err(MediaError::CodecFailed(m));
        },
    };
    let mut cum: u64 = 0;
    let mut i: usize = 0;
    proof {
        assert(views.take(0) =~= Seq::<FrameView>::empty());
        assert(pairs.take(0) =~= Seq::<(Seq<u8>, i32)>::empty());
    }
    while i < frames.len()
        invariant
            0 <= i <= frames@.len(),
            views == frames@.map_values(|f: AnimFrame| f@),
            pairs == submitted_pairs(views),
            (w, h) == spec_anim_canvas(views),
            forall|j: int| 0 <= j < frames@.len() ==> (#[trigger] frames@[j]).wf(),
            cum == spec_total_ms(views.take(i as int)),
            cum <= i32::MAX as u64,
            anim_config_of(enc) == (((w, h), quality)),
            anim_contents_of(enc) == pairs.take(i as int),
        decreases frames@.len() - i,
    {
        let f = &frames[i];
        let ghost before_contents = anim_contents_of(enc);
        proof {
            assert(views[i as int] == frames@[i as int]@);
            assert(pairs[i as int] == (
                views[i as int].image.pixels,
                spec_total_ms(views.take(i as int)) as i32,
            ));
        }
        match anim_encoder_add(&mut enc, &f.image, cum as i32) {
            Ok(_) => {
                proof {
                    assert(pairs.take(i + 1) =~= pairs.take(i as int).push(pairs[i as int]));
                }
            },
            Err(m) => {
                proof {
                    assert(before_contents.push((f.image@.pixels, cum as i32)).add(
                        pairs.skip(i + 1),
                    ) =~= pairs);
                    assert(anim_webp_of(
                        (w, h),
                        quality,
                        before_contents.push((f.image@.pixels, cum as i32)).add(
                            pairs.skip(i + 1),
                        ),
                        spec_total_ms(views) as i32,
                    ) is None);
                    assert(anim_webp_of((w, h), quality, pairs, spec_total_ms(views) as i32)
                        is None);
                }
                return Err(MediaError::CodecFailed(m));
            },
        }
        let d = step_ms(f.delay_numer, f.delay_denom);
        let next: u64 = cum + (d as u64);
        proof {
            assert(views.take(i + 1).drop_last() =~= views.take(i as int));
            assert(views.take(i + 1).last() == views[i as int]);
        }
        if next > (i32::MAX as u64) {
            proof {
                lemma_total_ms_prefix(views, i + 1);
            }
            return Err(MediaError::CodecFailed("animation timeline too long".to_owned()));
        }
        cum = next;
        i = i + 1;
    }
    proof {
        assert(views.take(frames@.len() as int) =~= views);
        assert(pairs.take(frames@.len() as int) =~= pairs);
    }
    match anim_encoder_finalize(enc, cum as i32) {
        Ok(b) => Ok(b),
        Err(m) => Err(MediaError::CodecFailed(m)),
    }
}

// ---------------------------------------------------------------------------
// Animation decoding.
// ---------------------------------------------------------------------------
/// The views of decoded frame pairs: each frame's pixel bytes with its
/// cumulative end timestamp.
pub open spec fn frame_pair_views(ps: Seq<(Vec<u8>, i32)>) -> Seq<(Seq<u8>, i32)> {
    ps.map_values(|p: (Vec<u8>, i32)| (p.0@, p.1))
}

/// What decoding an animated WebP buffer yields: the canvas size and, for
/// every frame the walk reaches in order, its RGBA bytes and its cumulative
/// end timestamp in milliseconds — or nothing when the buffer is not a
/// decodable animation. The walk can end early on a corrupt frame, so
/// callers must hold the number of frames against the count the container
/// declares (`anim_frame_count_of`) before treating the list as complete.
pub uninterp spec fn anim_decode_of(b: Seq<u8>) -> Option<((u32, u32), Seq<(Seq<u8>, i32)>)>;

/// Relies on webp_animation::Decoder: opens the buffer, reads the canvas
/// size once, and walks the frames, copying each decoder-owned buffer out
/// together with its cumulative timestamp; deterministic in the bytes
/// alone. Two facade behaviors to know: a frame that fails to decode
/// mid-stream ends the walk silently (the callers enforce completeness
/// against the declared frame count), and a canvas larger than 3840 by 2160
/// is refused outright.
#[verifier::external_body]
fn anim_decode_all(buf: &[u8]) -> (r: Option<(u32, u32, Vec<(Vec<u8>, i32)>)>)
    ensures
        match r {
            Some(d) => anim_decode_of(buf@) == Some(((d.0, d.1), frame_pair_views(d.2@))),
            None => anim_decode_of(buf@) is None,
        },
{
    let decoder = webp_animation::Decoder::new(buf).ok()?;
    let (w, h) = decoder.dimensions();
    let mut frames: Vec<(Vec<u8>, i32)> = Vec::new();
    for f in decoder.into_iter() {
        frames.push((f.data().to_vec(), f.timestamp()));
    }
    Some((w, h, frames))
}

/// The number of frames the container's directory declares, or nothing when
/// the container cannot be read; zero when the image is not animated.
pub uninterp spec fn anim_frame_count_of(b: Seq<u8>) -> Option<u32>;

/// Relies on image_webp::WebPDecoder::num_frames: the count of frame
/// entries the container's directory holds, read without decoding any frame
/// payload; deterministic in the bytes alone.
#[verifier::external_body]
fn anim_declared_frames(buf: &[u8]) -> (r: Option<u32>)
    ensures
        r == anim_frame_count_of(buf@),
{
    match image_webp::WebPDecoder::new(std::io::Cursor::new(buf)) {
        Ok(d) => Some(d.num_frames()),
        Err(_) => None,
    }
}

/// The frame walk covered the whole animation: as many frames came back as
/// the container declares.
pub open spec fn walk_complete(b: Seq<u8>, ps: Seq<(Seq<u8>, i32)>) -> bool {
    ps.len() <= u32::MAX && anim_frame_count_of(b) == Some(ps.len() as u32)
}

/// How a decoded frame relates to the raw pair the native decoder handed
/// back: canvas-sized pixels, and the delay recovered by differencing the
/// cumulative timestamps (exact whenever the delta fits in u32
/// milliseconds), over a denominator of one.
pub open spec fn frame_matches_pair(
    f: FrameView,
    pair: (Seq<u8>, i32),
    prev_ts: i32,
    wh: (u32, u32),
) -> bool {
    &&& f.image.width == wh.0
    &&& f.image.height == wh.1
    &&& f.image.pixels == pair.0
    &&& f.delay_denom == 1
    &&& (0 <= pair.1 - prev_ts <= u32::MAX ==> f.delay_numer == pair.1 - prev_ts)
}

/// Every decoded frame buffer is exactly canvas-sized, and a canvas-sized
/// buffer can exist in memory.
pub open spec fn all_frames_fit(wh: (u32, u32), ps: Seq<(Seq<u8>, i32)>) -> bool {
    &&& forall|i: int| 0 <= i < ps.len() ==> (#[trigger] ps[i]).0.len() == wh.0 * wh.1 * 4
    &&& (wh.0 as int) * (wh.1 as int) * 4 <= usize::MAX as int
}

/// The produced frames match the native pairs one for one.
pub open spec fn decoded_frames_match(
    wh: (u32, u32),
    ps: Seq<(Seq<u8>, i32)>,
    fs: Vec<AnimFrame>,
) -> bool {
    &&& fs@.len() == ps.len()
    &&& forall|i: int|
        0 <= i < ps.len() ==> frame_matches_pair(
            (#[trigger] fs@[i])@,
            ps[i],
            if i == 0 {
                0i32
            } else {
                ps[i - 1].1
            },
            wh,
        )
    &&& forall|i: int| 0 <= i < fs@.len() ==> (#[trigger] fs@[i]).wf()
}

/// Decode an animated WebP buffer into a frame sequence: one frame per
/// native frame, canvas-sized, with per-frame delays recovered from the
/// cumulative timestamps. Fails when the buffer is not a decodable
/// animation, when the frame walk ends before the count the container
/// declares (no partial sequence is ever returned), or when a native frame
/// buffer does not match the canvas.
#[verifier::rlimit(60)]
#[verifier::spinoff_prover]
pub fn decode_webp_anim(buf: &[u8]) -> (r: Result<Vec<AnimFrame>, MediaError>)
    ensures
        anim_decode_of(buf@) is None ==> (r matches Err(e) && e is CodecFailed),
        anim_decode_of(buf@) matches Some(d) ==> ((walk_complete(buf@, d.1) && all_frames_fit(
            d.0,
            d.1,
        )) ==> (r matches Ok(fs) && decoded_frames_match(d.0, d.1, fs))),
        anim_decode_of(buf@) matches Some(d) ==> (!(walk_complete(buf@, d.1) && all_frames_fit(
            d.0,
            d.1,
        )) ==> (r matches Err(e) && e is DecodeFailed)),
{
    let decoded = match anim_decode_all(buf) {
        Some(d) => d,
        None => {
            return Err(MediaError::CodecFailed("not a decodable animation".to_owned()));
        },
    };
    let (w, h, pairs) = decoded;
    let ghost ps = frame_pair_views(pairs@);
    proof {
        assert(ps.len() == pairs@.len());
    }
    let complete = match anim_declared_frames(buf) {
        Some(n) => pairs.len() == (n as usize),
        None => false,
    };
    if !complete {
        proof {
            assert(!walk_complete(buf@, ps));
        }
        return Err(MediaError::DecodeFailed("animation frames incomplete".to_owned()));
    }
    proof {
        assert((w as int) * (h as int) * 4 < 0x1_0000_0000_0000_0000_0000 as int)
            by (nonlinear_arith)
            requires
                w <= 0xffff_ffffu32,
                h <= 0xffff_ffffu32,
        ;
    }
    let frame_len_wide: u128 = (w as u128) * (h as u128) * 4;
    if frame_len_wide > (usize::MAX as u128) {
        return Err(MediaError::DecodeFailed("canvas larger than memory".to_owned()));
    }
    let frame_len: usize = frame_len_wide as usize;
    let mut out: Vec<AnimFrame> = Vec::new();
    let mut before: i32 = 0;
    let mut i: usize = 0;
    while i < pairs.len()
        invariant
            0 <= i <= pairs@.len(),
            ps == frame_pair_views(pairs@),
            anim_decode_of(buf@) == Some((((w, h)), ps)),
            frame_len == (w as int) * (h as int) * 4,
            frame_len <= usize::MAX,
            forall|j: int| 0 <= j < i ==> (#[trigger] ps[j]).0.len() == frame_len,
            out@.len() == i,
            before == (if i == 0 {
                0i32
            } else {
                ps[i - 1].1
            }),
            forall|j: int|
                0 <= j < i ==> frame_matches_pair(
                    (#[trigger] out@[j])@,
                    ps[j],
                    if j == 0 {
                        0i32
                    } else {
                        ps[j - 1].1
                    },
                    (w, h),
                ),
            forall|j: int| 0 <= j < i ==> (#[trigger] out@[j]).wf(),
        decreases pairs@.len() - i,
    {
        proof {
            assert(ps[i as int] == (pairs@[i as int].0@, pairs@[i as int].1));
        }
        let pair = &pairs[i];
        let data = vstd::slice::slice_to_vec(pair.0.as_slice());
        let ts = pair.1;
        if data.len() != frame_len {
            proof {
                assert(ps.len() == pairs@.len());
                assert(ps[i as int].0.len() != (w as int) * (h as int) * 4);
                assert(!all_frames_fit((w, h), ps));
            }
            return Err(MediaError::DecodeFailed("frame does not match canvas".to_owned()));
        }
        let delta: i64 = (ts as i64) - (before as i64);
        let numer: u32 = if 0 <= delta && delta <= (u32::MAX as i64) {
            delta as u32
        } else {
            #[verifier::truncate]
            (delta as u32)
        };
        let img = RasterImage { width: w, height: h, data };
        out.push(AnimFrame { image: img, delay_numer: numer, delay_denom: 1 });
        before = ts;
        i = i + 1;
    }
    Ok(out)
}

/// How many frames an animated WebP buffer holds, by decoding and counting
/// them. Fails when the buffer is not a decodable animation, or when the
/// frame walk ends before the count the container declares.
pub fn count_webp_anim_frame(buf: &[u8]) -> (r: Result<u32, MediaError>)
    ensures
        anim_decode_of(buf@) is None ==> (r matches Err(e) && e is CodecFailed),
        anim_decode_of(buf@) matches Some(d) ==> (walk_complete(buf@, d.1) ==> (r matches Ok(n)
            && n == d.1.len())),
        anim_decode_of(buf@) matches Some(d) ==> (!walk_complete(buf@, d.1) ==> (r matches Err(e)
            && e is DecodeFailed)),
{
    match anim_decode_all(buf) {
        Some(d) => {
            let n = d.2.len();
            proof {
                assert(frame_pair_views(d.2@).len() == d.2@.len());
            }
            let complete = match anim_declared_frames(buf) {
                Some(declared) => n == (declared as usize),
                None => false,
            };
            if complete {
                Ok(n as u32)
            } else {
                proof {
                    assert(!walk_complete(buf@, frame_pair_views(d.2@)));
                }
                Err(MediaError::DecodeFailed("animation frames incomplete".to_owned()))
            }
        },
        None => Err(MediaError::CodecFailed("not a decodable animation".to_owned())),
    }
}

// ---------------------------------------------------------------------------
// The still-image fallback encoding.
// ---------------------------------------------------------------------------
/// The PNG encoding of an RGBA buffer, or nothing when the encoder rejects
/// the input.
pub uninterp spec fn png_of(pixels: Seq<u8>, w: u32, h: u32) -> Option<Seq<u8>>;

/// Relies on image::codecs::png::PngEncoder::write_image: deterministic PNG
/// encoding of the RGBA buffer, writing into memory; failure (a dimension
/// the encoder rejects) is a deterministic function of the input too.
#[verifier::external_body]
fn png_encode_rgba(img: &RasterImage) -> (r: Result<Vec<u8>, String>)
    requires
        img.wf(),
    ensures
        r matches Ok(b) ==> png_of(img@.pixels, img.width, img.height) == Some(b@),
        r is Err ==> png_of(img@.pixels, img.width, img.height) is None,
{
    let mut out: Vec<u8> = Vec::new();
    let enc = image::codecs::png::PngEncoder::new(&mut out);
    let color = image::ExtendedColorType::Rgba8;
    match image::ImageEncoder::write_image(enc, &img.data, img.width, img.height, color) {
        Ok(()) => Ok(out),
        Err(e) => Err(format!("{:?}", e)),
    }
}

impl DecodedMedia {
    /// Encode into the interchange format: a raster becomes exactly the
    /// named lossy WebP still, a frame sequence exactly the named animated
    /// WebP of its timestamped submission, and vector markup is rasterized
    /// at its intrinsic size first and encoded as a still.
    pub fn to_webp(self, quality: u8) -> (r: Result<Vec<u8>, MediaError>)
        requires
            self.wf(),
            quality <= 100,
        ensures
            self@ matches MediaView::Raster(v) ==> {
                &&& (r matches Ok(b) ==> webp_still_of(v.pixels, v.width, v.height, false, quality)
                    == Some(b@))
                &&& (r matches Err(e) ==> e is CodecFailed && webp_still_of(
                    v.pixels,
                    v.width,
                    v.height,
                    false,
                    quality,
                ) is None)
            },
            self@ matches MediaView::Frames(fs) ==> {
                &&& (fs.len() == 0 ==> (r matches Err(e) && e is CodecFailed))
                &&& (r matches Ok(b) ==> fs.len() >= 1 && spec_total_ms(fs) <= i32::MAX
                    && spec_anim_encoding(fs, quality) == Some(b@))
                &&& (r matches Err(e) ==> e is CodecFailed && (fs.len() == 0 || spec_total_ms(fs)
                    > i32::MAX || spec_anim_encoding(fs, quality) is None))
            },
            self@ matches MediaView::Vector(t) ==> match crate::transform::svg_size_of(t) {
                Option::None => r matches Err(e) && e is TransformFailed,
                Option::Some(wh) => if crate::transform::pixmap_ok(wh) {
                    &&& (r matches Ok(b) ==> exists|p: Seq<u8>|
                        p.len() == wh.0 * wh.1 * 4 && #[trigger] webp_still_of(
                            p,
                            wh.0,
                            wh.1,
                            false,
                            quality,
                        ) == Some(b@))
                    &&& (r matches Err(e) ==> e is CodecFailed && (exists|p: Seq<u8>|
                        p.len() == wh.0 * wh.1 * 4 && #[trigger] webp_still_of(
                            p,
                            wh.0,
                            wh.1,
                            false,
                            quality,
                        ) is None))
                } else {
                    r matches Err(e) && e is TransformFailed
                },
            },
    {
        match self {
            DecodedMedia::Raster(img) => encode_webp_image(&img, quality),
            DecodedMedia::Frames(fs) => encode_webp_anim(&fs, quality),
            DecodedMedia::Vector(t) => {
                let rendered = DecodedMedia::Vector(t).render_svg()?;
                match rendered {
                    DecodedMedia::Raster(img) => encode_webp_image(&img, quality),
                    _ => {
                        proof {
                            assert(false);
                        }
                        Err(MediaError::TransformFailed("unreachable".to_owned()))
                    },
                }
            },
        }
    }

    /// Encode into the plain still-image fallback (PNG): a raster becomes
    /// exactly its named PNG encoding, a frame sequence is reduced to its
    /// first frame first, and vector markup is rasterized first.
    pub fn to_png(self) -> (r: Result<Vec<u8>, MediaError>)
        requires
            self.wf(),
        ensures
            self@ matches MediaView::Raster(v) ==> {
                &&& (r matches Ok(b) ==> png_of(v.pixels, v.width, v.height) == Some(b@))
                &&& (r matches Err(e) ==> e is CodecFailed && png_of(v.pixels, v.width, v.height)
                    is None)
            },
            self@ matches MediaView::Frames(fs) ==> {
                &&& (fs.len() == 0 ==> (r matches Err(e) && e is TransformFailed))
                &&& (fs.len() >= 1 ==> ((r matches Ok(b) ==> png_of(
                    fs[0].image.pixels,
                    fs[0].image.width,
                    fs[0].image.height,
                ) == Some(b@)) && (r matches Err(e) ==> e is CodecFailed && png_of(
                    fs[0].image.pixels,
                    fs[0].image.width,
                    fs[0].image.height,
                ) is None)))
            },
            self@ matches MediaView::Vector(t) ==> match crate::transform::svg_size_of(t) {
                Option::None => r matches Err(e) && e is TransformFailed,
                Option::Some(wh) => if crate::transform::pixmap_ok(wh) {
                    &&& (r matches Ok(b) ==> exists|p: Seq<u8>|
                        p.len() == wh.0 * wh.1 * 4 && #[trigger] png_of(p, wh.0, wh.1) == Some(
                            b@,
                        ))
                    &&& (r matches Err(e) ==> e is CodecFailed && (exists|p: Seq<u8>|
                        p.len() == wh.0 * wh.1 * 4 && #[trigger] png_of(p, wh.0, wh.1) is None))
                } else {
                    r matches Err(e) && e is TransformFailed
                },
            },
    {
        let first = self.reduce_to_first_frame()?;
        match first {
            DecodedMedia::Raster(img) => {
                match png_encode_rgba(&img) {
                    Ok(b) => Ok(b),
                    Err(m) => Err(MediaError::CodecFailed(m)),
                }
            },
            DecodedMedia::Vector(t) => {
                let rendered = DecodedMedia::Vector(t).render_svg()?;
                match rendered {
                    DecodedMedia::Raster(img) => {
                        match png_encode_rgba(&img) {
                            Ok(b) => Ok(b),
                            Err(m) => Err(MediaError::CodecFailed(m)),
                        }
                    },
                    _ => {
                        proof {
                            assert(false);
                        }
                        Err(MediaError::TransformFailed("unreachable".to_owned()))
                    },
                }
            },
            _ => {
                proof {
                    assert(false);
                }
                Err(MediaError::TransformFailed("unreachable".to_owned()))
            },
        }
    }
}

} // verus!
