use vstd::prelude::*;

use openh264::encoder::Encoder;
use openh264::formats::YUVSlices;
use std::sync::Arc;

use crate::resize::{resize_bgra, scaled};
use crate::text::str_eq;
use crate::yuv::{convert_bgra_to_yuv420, luma_plane, u_plane, v_plane, YuvBuffer};

verus! {

#[verifier::external_type_specification]
#[verifier::external_body]
pub struct ExEncoder(openh264::encoder::Encoder);

#[verifier::external_type_specification]
#[verifier::external_body]
pub struct ExH264Error(openh264::Error);

/// Nanoseconds in one second.
pub const NANOS_PER_SEC: u64 = 1_000_000_000;

/// One captured desktop image in BGRA, shared between all encoders.
pub struct RawFrame {
    pub width: u32,
    pub height: u32,
    pub data: Arc<Vec<u8>>,
    pub timestamp: u64,
    pub frame_id: u64,
}

/// Settings of one output quality.
#[derive(Debug, PartialEq, Eq, Hash)]
pub struct QualityConfig {
    pub name: String,
    pub width: u32,
    pub height: u32,
    pub bitrate: u32,
    pub fps: u32,
    pub max_keyframe_interval: u32,
}

impl QualityConfig {
    /// Dimensions positive and even, frame rate in `[1, 120]`, bitrate positive.
    pub open spec fn valid(&self) -> bool {
        &&& self.width > 0 && self.height > 0
        &&& self.width % 2 == 0 && self.height % 2 == 0
        &&& 1 <= self.fps <= 120
        &&& self.bitrate > 0
    }

    /// A configuration whose keyframe interval is two seconds of frames.
    pub fn new(name: &str, width: u32, height: u32, bitrate: u32, fps: u32) -> (r: Self)
        requires
            fps <= u32::MAX / 2,
        ensures
            r.name@ == name@,
            r.width == width,
            r.height == height,
            r.bitrate == bitrate,
            r.fps == fps,
            r.max_keyframe_interval == 2 * fps,
    {
        QualityConfig {
            name: crate::text::owned(name),
            width,
            height,
            bitrate,
            fps,
            max_keyframe_interval: fps * 2,
        }
    }

    /// The message naming the first rule the configuration breaks.
    pub open spec fn error_message(&self) -> Seq<char> {
        if !(self.width > 0 && self.height > 0 && self.width % 2 == 0 && self.height % 2 == 0) {
            "dimensions must be positive and even"@
        } else if !(1 <= self.fps <= 120) {
            "fps must be between 1 and 120"@
        } else {
            "bitrate must be positive"@
        }
    }

    /// Checks the configuration and names the first rule it breaks.
    pub fn validate(&self) -> (r: Result<(), &'static str>)
        ensures
            r is Ok <==> self.valid(),
            r matches Err(m) ==> m@ == self.error_message(),
    {
        if self.width == 0 || self.height == 0 || self.width % 2 != 0 || self.height % 2 != 0 {
            return Err("dimensions must be positive and even");
        }
        if self.fps == 0 || self.fps > 120 {
            return Err("fps must be between 1 and 120");
        }
        if self.bitrate == 0 {
            return Err("bitrate must be positive");
        }
        Ok(())
    }

    /// The quality each peer's video track is attached to: 480p at 30 fps and 500 kbit/s.
    pub fn peer_default() -> (r: Self)
        ensures
            r.valid(),
            r.name@ == "480p"@,
            r.width == 854,
            r.height == 480,
            r.bitrate == 500_000,
            r.fps == 30,
            r.max_keyframe_interval == 60,
    {
        QualityConfig::new("480p", 854, 480, 500_000, 30)
    }

    /// A field-by-field copy.
    pub fn copy(&self) -> (r: Self)
        ensures
            r.name@ == self.name@,
            r.width == self.width,
            r.height == self.height,
            r.bitrate == self.bitrate,
            r.fps == self.fps,
            r.max_keyframe_interval == self.max_keyframe_interval,
    {
        QualityConfig {
            name: self.name.clone(),
            width: self.width,
            height: self.height,
            bitrate: self.bitrate,
            fps: self.fps,
            max_keyframe_interval: self.max_keyframe_interval,
        }
    }
}

/// Capture period of a 60 Hz desktop capture, in nanoseconds.
pub const CAPTURE_PERIOD_NS: u64 = 16_666_667;

/// Below this remainder of the period (in nanoseconds) the capture loop yields instead of
/// sleeping.
pub const YIELD_BELOW_NS: u64 = 100_000;

/// How much shorter than the remainder the capture loop sleeps, so as to wake in time.
pub const SLEEP_MARGIN_NS: u64 = 50_000;

/// What the capture loop does next.
#[derive(Debug, Clone, Copy, PartialEq, Eq, Structural)]
pub enum CaptureAction {
    /// The period has elapsed: capture a frame.
    Capture,
    /// Sleep this many nanoseconds.
    Sleep(u64),
    /// Less than the yield threshold remains: yield the processor.
    Yield,
}

/// The capture loop's decision, `elapsed_ns` after the last captured frame: capture once a
/// full period has passed; otherwise sleep the remainder less a small margin, or yield when
/// the remainder is under the threshold.
pub fn capture_step(elapsed_ns: u64) -> (r: CaptureAction)
    ensures
        elapsed_ns >= CAPTURE_PERIOD_NS ==> r == CaptureAction::Capture,
        elapsed_ns < CAPTURE_PERIOD_NS && CAPTURE_PERIOD_NS - elapsed_ns > YIELD_BELOW_NS ==> r
            == CaptureAction::Sleep((CAPTURE_PERIOD_NS - elapsed_ns - SLEEP_MARGIN_NS) as u64),
        elapsed_ns < CAPTURE_PERIOD_NS && CAPTURE_PERIOD_NS - elapsed_ns <= YIELD_BELOW_NS ==> r
            == CaptureAction::Yield,
{
    if elapsed_ns >= CAPTURE_PERIOD_NS {
        CaptureAction::Capture
    } else {
        let rest = CAPTURE_PERIOD_NS - elapsed_ns;
        if rest > YIELD_BELOW_NS {
            CaptureAction::Sleep(rest - SLEEP_MARGIN_NS)
        } else {
            CaptureAction::Yield
        }
    }
}

/// One compressed picture of a quality stream.
pub struct EncodedFrame {
    pub data: Vec<u8>,
    pub timestamp: u64,
    pub frame_id: u64,
    pub is_keyframe: bool,
    pub quality: String,
}

/// Why a frame could not be encoded.
#[derive(Debug, Clone, Copy, PartialEq, Eq, Structural)]
pub enum EncodeError {
    /// The frame's buffer does not hold its stated size.
    BadFrame,
    /// The H.264 encoder reported a failure.
    EncodingFailed,
}

/// The frame's buffer holds `width * height` BGRA pixels, and its size is usable by the scaler.
pub open spec fn frame_ok(raw: &RawFrame) -> bool {
    &&& raw.width > 0 && raw.height > 0
    &&& raw.width * raw.height * 4 <= usize::MAX
    &&& raw.data@.len() >= raw.width * raw.height * 4
}

/// The BGRA image an encoder of size `w` x `h` converts: the frame itself when the sizes
/// match, else the frame scaled to `w` x `h`.
pub open spec fn encoder_input(raw: &RawFrame, w: int, h: int) -> Seq<u8> {
    if raw.width == w && raw.height == h {
        raw.data@
    } else {
        scaled(raw.data@, raw.width as int, raw.height as int, w, h)
    }
}

/// The frame counter after one more encoded frame.
pub open spec fn next_count(c: u64) -> u64 {
    if c == u64::MAX {
        0
    } else {
        (c + 1) as u64
    }
}

/// Relies on openh264's `Encoder::encode`: compresses one I420 picture into an H.264
/// bitstream. The bitstream also depends on the pictures encoded before, so nothing is
/// stated of it.
#[verifier::external_body]
fn h264_encode(
    encoder: &mut Encoder,
    picture: &YuvBuffer,
    strides: (usize, usize, usize),
) -> (r: Result<Vec<u8>, openh264::Error>)
    requires
        picture.wf(),
        picture.width % 2 == 0,
        picture.height % 2 == 0,
        strides == (picture.width, picture.width / 2, picture.width / 2),
{
    let slices = YUVSlices::new(
        (picture.y.as_slice(), picture.u.as_slice(), picture.v.as_slice()),
        (picture.width, picture.height),
        strides,
    );
    encoder.encode(&slices).map(|bits| bits.to_vec())
}

/// A frame passes the pacing rule at time `t` when at least `interval` has elapsed since the
/// last encoded frame at `last`.
pub open spec fn due_at(last: int, interval: int, t: int) -> bool {
    t >= last && t - last >= interval
}

/// One step of [`QualityEncoder::encode`] at time `now` on frame `raw`, from encoder state
/// `old` to `new` with result `r`:
/// - not due: `Ok(None)` and nothing changes;
/// - due but the frame's buffer does not hold its size: `BadFrame` and nothing changes;
/// - otherwise the frame time is recorded, the picture handed to the H.264 encoder is the
///   frame (scaled to the configured size when it differs) converted to YUV 4:2:0, and the
///   result is the encoded frame, numbered and flagged as keyframe at multiples of the
///   keyframe interval, or `EncodingFailed` with the frame count unchanged.
pub open spec fn encode_step(
    old: QualityEncoder,
    new: QualityEncoder,
    raw: &RawFrame,
    now: u64,
    r: Result<Option<EncodedFrame>, EncodeError>,
) -> bool {
    let w = old.config.width as int;
    let h = old.config.height as int;
    &&& new.wf()
    &&& new.config == old.config
    &&& !old.due(now) ==> r == Ok::<Option<EncodedFrame>, EncodeError>(None) && new == old
    &&& old.due(now) && !frame_ok(raw) ==> r == Err::<Option<EncodedFrame>, EncodeError>(
        EncodeError::BadFrame,
    ) && new == old
    &&& old.due(now) && frame_ok(raw) ==> {
        &&& new.last_encode_ns == now
        &&& new.yuv_buffer.width == old.config.width
        &&& new.yuv_buffer.height == old.config.height
        &&& new.yuv_buffer.y@ == luma_plane(encoder_input(raw, w, h), w, h)
        &&& new.yuv_buffer.u@ == u_plane(encoder_input(raw, w, h), w, h)
        &&& new.yuv_buffer.v@ == v_plane(encoder_input(raw, w, h), w, h)
        &&& r is Ok || r == Err::<Option<EncodedFrame>, EncodeError>(EncodeError::EncodingFailed)
        &&& r is Ok ==> (r matches Ok(Some(f)) && f.frame_id == raw.frame_id && f.timestamp
            == raw.timestamp && f.quality@ == old.config.name@ && f.is_keyframe == (old.frame_count
            % (old.config.max_keyframe_interval as u64) == 0))
        &&& r is Ok ==> new.frame_count == next_count(old.frame_count)
        &&& r is Err ==> new.frame_count == old.frame_count
    }
}

/// The encoder of one quality: paces, scales, converts and compresses frames.
pub struct QualityEncoder {
    pub encoder: Encoder,
    pub config: QualityConfig,
    pub frame_interval_ns: u64,
    pub last_encode_ns: u64,
    pub frame_count: u64,
    pub yuv_buffer: YuvBuffer,
    pub resize_buffer: Vec<u8>,
}

impl QualityEncoder {
    /// Valid settings, a positive keyframe interval, and buffers of the configured size.
    pub open spec fn wf(&self) -> bool {
        &&& self.config.valid()
        &&& self.config.max_keyframe_interval > 0
        &&& self.config.width * self.config.height * 4 <= usize::MAX
        &&& self.frame_interval_ns == NANOS_PER_SEC / (self.config.fps as u64)
        &&& self.yuv_buffer.wf()
        &&& self.resize_buffer@.len() == self.config.width * self.config.height * 4
    }

    /// Whether a frame arriving at `now` is due.
    pub open spec fn due(&self, now: u64) -> bool {
        due_at(self.last_encode_ns as int, self.frame_interval_ns as int, now as int)
    }

    /// An encoder for `config` around the H.264 encoder `encoder`, as if it had just encoded a
    /// frame at `now_ns`.
    pub fn new(config: QualityConfig, encoder: Encoder, now_ns: u64) -> (r: Self)
        requires
            config.valid(),
            config.max_keyframe_interval > 0,
            config.width * config.height * 4 <= usize::MAX,
        ensures
            r.wf(),
            r.config == config,
            r.last_encode_ns == now_ns,
            r.frame_count == 0,
    {
        let w = config.width as usize;
        let h = config.height as usize;
        let frame_interval_ns = NANOS_PER_SEC / (config.fps as u64);
        let yuv_buffer = YuvBuffer::new(w, h);
        let resize_buffer = vec![0u8; w * h * 4];
        QualityEncoder {
            encoder,
            config,
            frame_interval_ns,
            last_encode_ns: now_ns,
            frame_count: 0,
            yuv_buffer,
            resize_buffer,
        }
    }

    /// Whether at least one frame interval has passed since the last encoded frame.
    pub fn should_encode(&self, now_ns: u64) -> (r: bool)
        ensures
            r == self.due(now_ns),
    {
        now_ns >= self.last_encode_ns && now_ns - self.last_encode_ns >= self.frame_interval_ns
    }

    /// Encodes `raw` when a frame is due at `now_ns`. The picture handed to the H.264 encoder
    /// is the frame, scaled when its size differs from the configured one, converted to YUV
    /// 4:2:0. Frames counted from zero are keyframes at multiples of the keyframe interval.
    pub fn encode(&mut self, raw: &RawFrame, now_ns: u64) -> (r: Result<Option<EncodedFrame>, EncodeError>)
        requires
            old(self).wf(),
        ensures
            encode_step(*old(self), *final(self), raw, now_ns, r),
    {
        if !self.should_encode(now_ns) {
            return Ok(None);
        }
        if raw.width == 0 || raw.height == 0 {
            return Err(EncodeError::BadFrame);
        }
        let rw = raw.width as usize;
        let rh = raw.height as usize;
        let pixels = match rw.checked_mul(rh) {
            Some(p) => p,
            None => return Err(EncodeError::BadFrame),
        };
        let bytes = match pixels.checked_mul(4) {
            Some(b) => b,
            None => return Err(EncodeError::BadFrame),
        };
        if raw.data.len() < bytes {
            return Err(EncodeError::BadFrame);
        }
        self.last_encode_ns = now_ns;
        let w = self.config.width as usize;
        let h = self.config.height as usize;
        let src: &[u8] = raw.data.as_slice();
        if raw.width == self.config.width && raw.height == self.config.height {
            convert_bgra_to_yuv420(src, w, h, &mut self.yuv_buffer);
        } else {
            resize_bgra(src, rw, rh, self.resize_buffer.as_mut_slice(), w, h);
            proof {
                assert(self.resize_buffer@ =~= self.resize_buffer@.subrange(0, (w * h * 4) as int));
            }
            convert_bgra_to_yuv420(self.resize_buffer.as_slice(), w, h, &mut self.yuv_buffer);
        }
        let strides = self.yuv_buffer.strides();
        match h264_encode(&mut self.encoder, &self.yuv_buffer, strides) {
            Ok(bits) => {
                let is_keyframe = self.frame_count % (self.config.max_keyframe_interval as u64) == 0;
                let frame = EncodedFrame {
                    data: bits,
                    timestamp: raw.timestamp,
                    frame_id: raw.frame_id,
                    is_keyframe,
                    quality: self.config.name.clone(),
                };
                self.frame_count = if self.frame_count == u64::MAX {
                    0
                } else {
                    self.frame_count + 1
                };
                Ok(Some(frame))
            },
            Err(_) => Err(EncodeError::EncodingFailed),
        }
    }
}

} // verus!

verus! {

/// Number of frames the pacing rule of [`QualityEncoder`] lets through when `n` frames arrive
/// every `p` nanoseconds from `t` on and the last encoded frame was at `last`: a frame passes
/// when at least `interval` has elapsed since the last one that passed.
pub open spec fn paced_frames(last: int, interval: int, t: int, p: int, n: nat) -> nat
    decreases n,
{
    if n == 0 {
        0
    } else if due_at(last, interval, t) {
        1 + paced_frames(t, interval, t + p, p, (n - 1) as nat)
    } else {
        paced_frames(last, interval, t + p, p, (n - 1) as nat)
    }
}

proof fn lemma_every_other(interval: int, t: int, p: int, n: nat)
    requires
        p < interval <= 2 * p,
    ensures
        paced_frames(t - 2 * p, interval, t, p, n) == (n + 1) / 2,
    decreases n,
{
    if n >= 2 {
        lemma_every_other(interval, t + 2 * p, p, (n - 2) as nat);
        assert(paced_frames(t, interval, t + p, p, (n - 1) as nat) == paced_frames(
            t,
            interval,
            t + 2 * p,
            p,
            (n - 2) as nat,
        ));
        assert((t + 2 * p) - 2 * p == t);
    } else if n == 1 {
        assert(paced_frames(t, interval, t + p, p, 0) == 0);
    }
}

/// When frames arrive faster than the frame interval but at least every other one is due,
/// every other frame is encoded: starting with the first when it is due, else with the second.
pub proof fn lemma_pacing_every_other_frame(last: int, interval: int, t0: int, p: int, n: nat)
    requires
        p < interval <= 2 * p,
        t0 - last >= p,
    ensures
        t0 - last >= interval ==> paced_frames(last, interval, t0, p, n) == (n + 1) / 2,
        t0 - last < interval ==> paced_frames(last, interval, t0, p, n) == n / 2,
{
    if t0 - last < interval {
        if n >= 1 {
            lemma_every_other(interval, t0 + p, p, (n - 1) as nat);
            assert(paced_frames(last, interval, t0, p, n) == paced_frames(last, interval, t0 + p, p, (n - 1) as nat));
            if n >= 2 {
                assert(paced_frames((t0 + p) - 2 * p, interval, t0 + p, p, (n - 1) as nat) == 1 + paced_frames(
                    t0 + p,
                    interval,
                    t0 + 2 * p,
                    p,
                    (n - 2) as nat,
                ));
                assert(paced_frames(last, interval, t0 + p, p, (n - 1) as nat) == 1 + paced_frames(
                    t0 + p,
                    interval,
                    t0 + 2 * p,
                    p,
                    (n - 2) as nat,
                ));
            }
        }
    } else if n >= 1 {
        lemma_every_other(interval, t0, p, n);
        assert(paced_frames(t0 - 2 * p, interval, t0, p, n) == 1 + paced_frames(
            t0,
            interval,
            t0 + p,
            p,
            (n - 1) as nat,
        ));
    }
}


/// A 30 fps encoder fed by sustained 60 Hz capture (the last encoded frame at least one
/// capture period before the window) encodes, over the `n` capture periods of a window,
/// exactly the window's length times 30 frames, give or take one (for windows of up to a
/// hundred million frames, about nineteen days; the integer period drifts beyond).
pub proof fn lemma_thirty_fps_from_sixty_hz_capture(last: int, t0: int, n: nat)
    requires
        t0 - last >= CAPTURE_PERIOD_NS,
        n <= 100_000_000,
    ensures
        (n * CAPTURE_PERIOD_NS * 30) / NANOS_PER_SEC as int - 1 <= paced_frames(
            last,
            (NANOS_PER_SEC / 30) as int,
            t0,
            CAPTURE_PERIOD_NS as int,
            n,
        ) <= (n * CAPTURE_PERIOD_NS * 30) / NANOS_PER_SEC as int + 1,
{
    let ni = n as int;
    let interval = (NANOS_PER_SEC / 30) as int;
    assert(interval == 33_333_333);
    lemma_pacing_every_other_frame(last, interval, t0, CAPTURE_PERIOD_NS as int, n);
    let e = n * CAPTURE_PERIOD_NS * 30;
    assert(e == ni * 500_000_010);
    let f = e / 1_000_000_000;
    assert(ni * 500_000_000 <= e <= ni * 500_000_000 + 1_000_000_000) by (nonlinear_arith)
        requires
            e == ni * 500_000_010,
            0 <= ni <= 100_000_000,
    ;
    vstd::arithmetic::div_mod::lemma_div_is_ordered(ni * 500_000_000, e, 1_000_000_000);
    vstd::arithmetic::div_mod::lemma_div_is_ordered(e, ni * 500_000_000 + 1_000_000_000, 1_000_000_000);
    assert((ni * 500_000_000) / 1_000_000_000 == ni / 2) by {
        vstd::arithmetic::div_mod::lemma_fundamental_div_mod(n as int, 2);
        assert(ni * 500_000_000 == (ni / 2) * 1_000_000_000 + (ni % 2) * 500_000_000) by (nonlinear_arith)
            requires
                ni == 2 * (ni / 2) + ni % 2,
        ;
        vstd::arithmetic::div_mod::lemma_fundamental_div_mod_converse(
            ni * 500_000_000,
            1_000_000_000,
            ni / 2,
            (ni % 2) * 500_000_000,
        );
    }
    assert((ni * 500_000_000 + 1_000_000_000) / 1_000_000_000 == ni / 2 + 1) by {
        vstd::arithmetic::div_mod::lemma_hoist_over_denominator(ni * 500_000_000, 1, 1_000_000_000);
    }
}

} // verus!

verus! {

/// Number of results that are an encoded frame.
pub open spec fn encoded_count(rs: Seq<Result<Option<EncodedFrame>, EncodeError>>) -> nat
    decreases rs.len(),
{
    if rs.len() == 0 {
        0
    } else {
        (if rs[0] matches Ok(Some(_)) {
            1nat
        } else {
            0nat
        }) + encoded_count(rs.drop_first())
    }
}

/// A run of [`QualityEncoder::encode`] calls on well-formed frames arriving every `p`
/// nanoseconds from `t0`, none of which the H.264 encoder fails, yields exactly the frames the
/// pacing model [`paced_frames`] lets through: `encoders[k]` is the state before call `k` and
/// `results[k]` its result.
pub proof fn lemma_encode_calls_follow_pacing(
    encoders: Seq<QualityEncoder>,
    frames: Seq<RawFrame>,
    results: Seq<Result<Option<EncodedFrame>, EncodeError>>,
    t0: int,
    p: int,
)
    requires
        encoders.len() == results.len() + 1,
        frames.len() == results.len(),
        encoders[0].wf(),
        forall|k: int|
            0 <= k < results.len() ==> 0 <= #[trigger] (t0 + k * p) <= u64::MAX && frame_ok(&frames[k])
                && results[k] is Ok && encode_step(
                encoders[k],
                encoders[k + 1],
                &frames[k],
                (t0 + k * p) as u64,
                results[k],
            ),
    ensures
        encoded_count(results) == paced_frames(
            encoders[0].last_encode_ns as int,
            encoders[0].frame_interval_ns as int,
            t0,
            p,
            results.len(),
        ),
    decreases results.len(),
{
    if results.len() > 0 {
        assert(0 <= t0 + 0 * p <= u64::MAX);
        assert(t0 + 0 * p == t0);
        let e0 = encoders[0];
        let e1 = encoders[1];
        assert(encode_step(e0, e1, &frames[0], t0 as u64, results[0]));
        assert forall|k: int| 0 <= k < results.drop_first().len() implies 0 <= #[trigger] ((t0 + p) + k * p)
            <= u64::MAX && frame_ok(&frames.drop_first()[k]) && results.drop_first()[k] is Ok
            && encode_step(
            encoders.drop_first()[k],
            encoders.drop_first()[k + 1],
            &frames.drop_first()[k],
            ((t0 + p) + k * p) as u64,
            results.drop_first()[k],
        ) by {
            assert((t0 + p) + k * p == t0 + (k + 1) * p) by (nonlinear_arith);
            assert(0 <= t0 + (k + 1) * p <= u64::MAX);
        }
        lemma_encode_calls_follow_pacing(
            encoders.drop_first(),
            frames.drop_first(),
            results.drop_first(),
            t0 + p,
            p,
        );
        assert(e1.frame_interval_ns == e0.frame_interval_ns);
    }
}

} // verus!
