//! Live preview: turning captured frames into RGBA pixels, and the decisions
//! of the capture thread (when to stop, how long to retry opening).
use vstd::prelude::*;
use std::sync::mpsc::{Receiver, TryRecvError};

verus! {

/// A decoded RGBA frame ready for display.
#[derive(Debug, Clone)]
pub struct Frame {
    pub rgba: Vec<u8>,
    pub width: u32,
    pub height: u32,
}

/// RGB pixels widened to RGBA, opaque: every complete 3-byte pixel of
/// `buf` gives 4 bytes; trailing bytes that do not make a pixel are dropped.
pub open spec fn rgba_of_rgb(buf: Seq<u8>) -> Seq<u8> {
    Seq::new(
        ((buf.len() / 3) * 4) as nat,
        |i: int|
            if i % 4 == 3 {
                255u8
            } else {
                buf[(i / 4) * 3 + i % 4]
            },
    )
}

/// Widens packed RGB pixels to opaque RGBA.
pub fn rgb_to_rgba(buf: &[u8]) -> (rgba: Vec<u8>)
    ensures
        rgba@ == rgba_of_rgb(buf@),
{
    let len = buf.len();
    let pixel_count = len / 3;
    let mut rgba: Vec<u8> = Vec::new();
    let mut p: usize = 0;
    while p < pixel_count
        invariant
            pixel_count == buf@.len() / 3,
            len == buf@.len(),
            p <= pixel_count,
            rgba@.len() == p * 4,
            forall|i: int| 0 <= i < p * 4 ==> #[trigger] rgba@[i] == rgba_of_rgb(buf@)[i],
        decreases pixel_count - p,
    {
        assert(p * 3 + 2 < len) by (nonlinear_arith)
            requires
                p < pixel_count,
                pixel_count == len / 3,
        ;
        let base = p * 3;
        let ghost before = rgba@;
        rgba.push(buf[base]);
        rgba.push(buf[base + 1]);
        rgba.push(buf[base + 2]);
        rgba.push(255);
        assert forall|i: int| 0 <= i < (p + 1) * 4 implies #[trigger] rgba@[i] == rgba_of_rgb(buf@)[i] by {
            if i >= p * 4 {
                assert(i / 4 == p);
                assert(i % 4 == i - p * 4);
            }
        }
        p = p + 1;
    }
    assert(rgba@ =~= rgba_of_rgb(buf@));
    rgba
}

/// Decodes a compressed frame (MJPEG, or any format the `image` crate
/// recognises) to RGBA pixels: `image::load_from_memory`, then
/// `to_rgba8().into_raw()`; `None` when the crate gives an error.
///
/// Nothing is stated of the pixels: which decoder the crate picks goes
/// through format hooks that any code in the process may register, and
/// its JPEG decoder takes different paths on different processors.
#[verifier::external_body]
fn decode_mjpeg(buf: &[u8]) -> Option<Vec<u8>> {
    match image::load_from_memory(buf) {
        Ok(img) => Some(img.to_rgba8().into_raw()),
        Err(_) => None,
    }
}

/// The outcome of decoding a frame.
#[derive(Debug)]
pub enum Decoded {
    /// The frame as RGBA pixels.
    Rgba(Vec<u8>),
    /// The frame could not be decoded.
    Failed,
    /// The frame is packed YUV 4:2:2; its colour conversion is left to the
    /// caller.
    Yuyv,
}

pub open spec fn is_code(fourcc: [u8; 4], a: u8, b: u8, c: u8, d: u8) -> bool {
    fourcc@ == seq![a, b, c, d]
}

/// "MJPG"
pub open spec fn is_mjpg(fourcc: [u8; 4]) -> bool {
    is_code(fourcc, 77, 74, 80, 71)
}

/// "YUYV"
pub open spec fn is_yuyv(fourcc: [u8; 4]) -> bool {
    is_code(fourcc, 89, 85, 89, 86)
}

/// "RGB3"
pub open spec fn is_rgb3(fourcc: [u8; 4]) -> bool {
    is_code(fourcc, 82, 71, 66, 51)
}

/// "RGB4"
pub open spec fn is_rgb4(fourcc: [u8; 4]) -> bool {
    is_code(fourcc, 82, 71, 66, 52)
}

/// How a frame in pixel format `fourcc` decodes: YUYV is handed back,
/// RGB3 is widened, RGB4 is taken as it is, and MJPG as well as every other
/// format goes through the image decoder, whose outcome `frame_from_image`
/// turns into pixels or a failure.
pub open spec fn decodes_to(d: Decoded, buf: Seq<u8>, fourcc: [u8; 4]) -> bool {
    if is_yuyv(fourcc) {
        d is Yuyv
    } else if is_rgb3(fourcc) {
        d matches Decoded::Rgba(v) && v@ == rgba_of_rgb(buf)
    } else if is_rgb4(fourcc) {
        d matches Decoded::Rgba(v) && v@ == buf
    } else {
        d is Rgba || d is Failed
    }
}

fn code_is(fourcc: &[u8; 4], a: u8, b: u8, c: u8, d: u8) -> (r: bool)
    ensures
        r == is_code(*fourcc, a, b, c, d),
{
    let r = fourcc[0] == a && fourcc[1] == b && fourcc[2] == c && fourcc[3] == d;
    assert(r ==> fourcc@ =~= seq![a, b, c, d]);
    r
}

/// The outcome of a frame given to the image decoder, from what the decoder
/// returned.
pub fn frame_from_image(rgba: Option<Vec<u8>>) -> (d: Decoded)
    ensures
        match rgba {
            Some(v) => d matches Decoded::Rgba(w) && w == v,
            None => d is Failed,
        },
{
    match rgba {
        Some(v) => Decoded::Rgba(v),
        None => Decoded::Failed,
    }
}

/// Decodes a raw frame buffer to RGBA based on its pixel format.
pub fn decode_frame(buf: &[u8], fourcc: [u8; 4]) -> (d: Decoded)
    ensures
        decodes_to(d, buf@, fourcc),
{
    if code_is(&fourcc, 77, 74, 80, 71) {
        assert(!is_yuyv(fourcc) && !is_rgb3(fourcc) && !is_rgb4(fourcc)) by {
            assert(fourcc@[0] == 77);
        }
        frame_from_image(decode_mjpeg(buf))
    } else if code_is(&fourcc, 89, 85, 89, 86) {
        Decoded::Yuyv
    } else if code_is(&fourcc, 82, 71, 66, 51) {
        assert(!is_yuyv(fourcc)) by {
            assert(fourcc@[0] == 82);
        }
        Decoded::Rgba(rgb_to_rgba(buf))
    } else if code_is(&fourcc, 82, 71, 66, 52) {
        assert(!is_yuyv(fourcc) && !is_rgb3(fourcc)) by {
            assert(fourcc@[0] == 82);
            assert(fourcc@[3] == 52);
        }
        Decoded::Rgba(vstd::slice::slice_to_vec(buf))
    } else {
        frame_from_image(decode_mjpeg(buf))
    }
}

// ── The capture thread ──────────────────────────────────────────────────

#[verifier::external_type_specification]
#[verifier::external_body]
#[verifier::reject_recursive_types(T)]
pub struct ExReceiver<T>(Receiver<T>);

/// What polling the stop channel found.
#[derive(Debug, Clone, Copy, PartialEq, Eq)]
pub enum StopPoll {
    /// A stop signal was sent.
    Signalled,
    /// Nothing was sent.
    Empty,
    /// The sending side is gone.
    Disconnected,
}

/// `Receiver::try_recv` on the stop channel, without blocking. What it
/// finds depends on the other thread: nothing is stated of it.
#[verifier::external_body]
fn poll_stop(stop: &Receiver<()>) -> StopPoll {
    match stop.try_recv() {
        Ok(()) => StopPoll::Signalled,
        Err(TryRecvError::Empty) => StopPoll::Empty,
        Err(TryRecvError::Disconnected) => StopPoll::Disconnected,
    }
}

/// The capture thread stops on a signal, and when the handle that could
/// send one is gone.
pub fn stop_requested(poll: StopPoll) -> (r: bool)
    ensures
        r == !(poll is Empty),
{
    match poll {
        StopPoll::Signalled => true,
        StopPoll::Disconnected => true,
        StopPoll::Empty => false,
    }
}

/// Whether the capture thread has been told to stop (or orphaned).
pub fn should_stop(stop: &Receiver<()>) -> bool {
    stop_requested(poll_stop(stop))
}

/// How many times the capture thread tries to open the device.
pub const OPEN_ATTEMPTS: u32 = 15;

/// The step of opening the device that failed.
#[derive(Debug, Clone, Copy, PartialEq, Eq)]
pub enum CaptureStage {
    Open,
    Format,
    Stream,
}

pub open spec fn stage_text(stage: CaptureStage) -> Seq<char> {
    match stage {
        CaptureStage::Open => seq!['o', 'p', 'e', 'n'],
        CaptureStage::Format => seq!['f', 'o', 'r', 'm', 'a', 't'],
        CaptureStage::Stream => seq!['s', 't', 'r', 'e', 'a', 'm'],
    }
}

/// "Failed after retries: {last_err}"
pub open spec fn give_up_text(last_err: Seq<char>) -> Seq<char> {
    seq!['F', 'a', 'i', 'l', 'e', 'd', ' ', 'a', 'f', 't', 'e', 'r', ' ', 'r', 'e', 't', 'r', 'i', 'e', 's', ':', ' ']
        + last_err
}

/// The retry state of the capture thread while it opens the device.
#[derive(Debug)]
pub struct OpenRetry {
    /// Attempts made so far.
    pub attempt: u32,
    /// What went wrong last.
    pub last_err: String,
}

impl OpenRetry {
    /// No attempt made yet; the error is "unknown".
    pub fn new() -> (r: OpenRetry)
        ensures
            r.attempt == 0,
            r.last_err@ == seq!['u', 'n', 'k', 'n', 'o', 'w', 'n'],
    {
        proof { reveal_strlit("unknown"); }
        let last_err = String::from_str("unknown");
        assert(last_err@ =~= seq!['u', 'n', 'k', 'n', 'o', 'w', 'n']);
        OpenRetry { attempt: 0, last_err }
    }

    /// Whether another attempt is allowed.
    pub fn may_try(&self) -> (r: bool)
        ensures
            r == (self.attempt < OPEN_ATTEMPTS),
    {
        self.attempt < OPEN_ATTEMPTS
    }

    /// Records that the current attempt failed at `stage` with `detail`.
    pub fn failed(&mut self, stage: CaptureStage, detail: &str)
        requires
            old(self).attempt < OPEN_ATTEMPTS,
        ensures
            final(self).attempt == old(self).attempt + 1,
            final(self).last_err@ == stage_text(stage) + seq![':', ' '] + detail@,
    {
        proof {
            reveal_strlit("open");
            reveal_strlit("format");
            reveal_strlit("stream");
            reveal_strlit(": ");
        }
        let mut text = match stage {
            CaptureStage::Open => String::from_str("open"),
            CaptureStage::Format => String::from_str("format"),
            CaptureStage::Stream => String::from_str("stream"),
        };
        assert(text@ =~= stage_text(stage));
        text.append(": ");
        text.append(detail);
        self.last_err = text;
        self.attempt = self.attempt + 1;
    }

    /// The error of a capture thread that gave up opening the device.
    pub fn give_up_message(&self) -> (s: String)
        ensures
            s@ == give_up_text(self.last_err@),
    {
        proof { reveal_strlit("Failed after retries: "); }
        let mut s = String::from_str("Failed after retries: ");
        s.append(self.last_err.as_str());
        assert(s@ =~= give_up_text(self.last_err@));
        s
    }
}


/// Whether a frame that could not be decoded is worth a warning: an MJPG
/// frame that fails to decode is a damaged frame, any other format is one
/// that the preview does not support.
pub fn warns_unsupported(fourcc: [u8; 4]) -> (r: bool)
    ensures
        r == !is_mjpg(fourcc),
{
    !code_is(&fourcc, 77, 74, 80, 71)
}

// ── The capture thread's steps ──────────────────────────────────────────

/// Pause after a failed attempt to open the device, in nanoseconds.
pub const OPEN_RETRY_PAUSE_NANOS: u64 = 200_000_000;

/// Pause after the stream failed to give a frame, in nanoseconds.
pub const FRAME_RETRY_PAUSE_NANOS: u64 = 100_000_000;

/// The time each frame is given (about 15 frames a second), in nanoseconds.
pub const FRAME_INTERVAL_NANOS: u64 = 66_000_000;

/// What the capture thread found out by doing the last action.
#[derive(Debug)]
pub enum CaptureEvent {
    /// The stop channel was polled: whether the thread should stop.
    Polled(bool),
    /// Opening the device failed at a stage, with the error's text.
    OpenFailed(CaptureStage, String),
    /// The device is open and streaming.
    Opened,
    /// The stream gave no frame.
    FrameMissed,
    /// A frame came but could not be decoded.
    FrameUndecodable,
    /// A frame came and was decoded.
    FrameReady,
    /// The decoded frame was handed on: whether the window still receives,
    /// and the nanoseconds since the frame was asked for.
    Delivered(bool, u128),
    /// A pause is over.
    Paused,
}

/// What the capture thread does next.
#[derive(Debug, PartialEq, Eq)]
pub enum CaptureAction {
    /// Poll the stop channel.
    PollStop,
    /// Open the device, read its format and start the stream.
    Open,
    /// Sleep for the given nanoseconds.
    Pause(u64),
    /// Take the next frame from the stream and decode it.
    NextFrame,
    /// Hand the decoded frame to the window.
    Deliver,
    /// End the thread: it was told to stop, or nobody receives frames.
    Stop,
    /// End the thread with this error: the device could not be opened.
    GiveUp(String),
}

/// The capture thread's state: the open attempts, and whether the device
/// streams.
#[derive(Debug)]
pub struct CaptureState {
    pub retry: OpenRetry,
    pub streaming: bool,
}

/// `a` ends the thread with the give-up message of `retry`.
pub open spec fn gives_up(a: CaptureAction, retry: OpenRetry) -> bool {
    &&& a is GiveUp
    &&& a->GiveUp_0@ == give_up_text(retry.last_err@)
}

/// Nothing of the state changed.
pub open spec fn keeps(after: CaptureState, before: CaptureState) -> bool {
    &&& after.retry.attempt == before.retry.attempt
    &&& after.retry.last_err@ == before.retry.last_err@
    &&& after.streaming == before.streaming
}

impl CaptureState {
    /// No attempt made, nothing streaming.
    pub fn new() -> (s: CaptureState)
        ensures
            s.retry.attempt == 0,
            s.retry.last_err@ == seq!['u', 'n', 'k', 'n', 'o', 'w', 'n'],
            !s.streaming,
    {
        CaptureState { retry: OpenRetry::new(), streaming: false }
    }

    /// The capture thread's start: no attempt made, nothing streaming, and
    /// the stop channel polled before anything else, so that a stop sent
    /// before the thread began ends it before the device is opened.
    pub fn start() -> (r: (CaptureState, CaptureAction))
        ensures
            r.0.retry.attempt == 0,
            r.0.retry.last_err@ == seq!['u', 'n', 'k', 'n', 'o', 'w', 'n'],
            !r.0.streaming,
            r.1 == CaptureAction::PollStop,
    {
        (CaptureState::new(), CaptureAction::PollStop)
    }
}

/// The action that follows the opening phase's last step: another attempt
/// while any is left, else giving up.
fn next_attempt(retry: &OpenRetry) -> (a: CaptureAction)
    ensures
        retry.attempt < OPEN_ATTEMPTS ==> a == CaptureAction::PollStop,
        retry.attempt >= OPEN_ATTEMPTS ==> gives_up(a, *retry),
{
    if retry.may_try() {
        CaptureAction::PollStop
    } else {
        CaptureAction::GiveUp(retry.give_up_message())
    }
}

/// One step of the capture thread: takes what the last action found and
/// decides the next action.
///
/// The device is opened at most `OPEN_ATTEMPTS` times, with a pause after
/// each failure; the stop channel is polled before each attempt and before
/// each frame; a frame that the stream does not give is followed by a
/// pause, one that does not decode is skipped, and one that was handed on
/// is followed by a pause that fills the frame's interval. The thread ends
/// when told to stop, when nobody receives frames, or with the last error
/// when no attempt is left.
pub fn capture_step(state: &mut CaptureState, event: CaptureEvent) -> (a: CaptureAction)
    ensures
        match event {
            CaptureEvent::Polled(stop) => {
                &&& keeps(*final(state), *old(state))
                &&& if stop {
                    a == CaptureAction::Stop
                } else if old(state).streaming {
                    a == CaptureAction::NextFrame
                } else if old(state).retry.attempt < OPEN_ATTEMPTS {
                    a == CaptureAction::Open
                } else {
                    gives_up(a, old(state).retry)
                }
            },
            CaptureEvent::OpenFailed(stage, detail) => if old(state).retry.attempt < OPEN_ATTEMPTS {
                &&& final(state).retry.attempt == old(state).retry.attempt + 1
                &&& final(state).retry.last_err@ == stage_text(stage) + seq![':', ' '] + detail@
                &&& !final(state).streaming
                &&& a == CaptureAction::Pause(OPEN_RETRY_PAUSE_NANOS)
            } else {
                &&& keeps(*final(state), *old(state))
                &&& gives_up(a, old(state).retry)
            },
            CaptureEvent::Opened => {
                &&& final(state).retry.attempt == old(state).retry.attempt
                &&& final(state).retry.last_err@ == old(state).retry.last_err@
                &&& final(state).streaming
                &&& a == CaptureAction::PollStop
            },
            CaptureEvent::FrameMissed => {
                &&& keeps(*final(state), *old(state))
                &&& a == CaptureAction::Pause(FRAME_RETRY_PAUSE_NANOS)
            },
            CaptureEvent::FrameUndecodable => {
                &&& keeps(*final(state), *old(state))
                &&& a == CaptureAction::PollStop
            },
            CaptureEvent::FrameReady => {
                &&& keeps(*final(state), *old(state))
                &&& a == CaptureAction::Deliver
            },
            CaptureEvent::Delivered(received, elapsed) => {
                &&& keeps(*final(state), *old(state))
                &&& if !received {
                    a == CaptureAction::Stop
                } else if elapsed < FRAME_INTERVAL_NANOS {
                    a == CaptureAction::Pause((FRAME_INTERVAL_NANOS - elapsed) as u64)
                } else {
                    a == CaptureAction::PollStop
                }
            },
            CaptureEvent::Paused => {
                &&& keeps(*final(state), *old(state))
                &&& if old(state).streaming || old(state).retry.attempt < OPEN_ATTEMPTS {
                    a == CaptureAction::PollStop
                } else {
                    gives_up(a, old(state).retry)
                }
            },
        },
{
    match event {
        CaptureEvent::Polled(stop) => {
            if stop {
                CaptureAction::Stop
            } else if state.streaming {
                CaptureAction::NextFrame
            } else if state.retry.may_try() {
                CaptureAction::Open
            } else {
                CaptureAction::GiveUp(state.retry.give_up_message())
            }
        },
        CaptureEvent::OpenFailed(stage, detail) => {
            if state.retry.may_try() {
                state.retry.failed(stage, detail.as_str());
                state.streaming = false;
                CaptureAction::Pause(OPEN_RETRY_PAUSE_NANOS)
            } else {
                CaptureAction::GiveUp(state.retry.give_up_message())
            }
        },
        CaptureEvent::Opened => {
            state.streaming = true;
            CaptureAction::PollStop
        },
        CaptureEvent::FrameMissed => CaptureAction::Pause(FRAME_RETRY_PAUSE_NANOS),
        CaptureEvent::FrameUndecodable => CaptureAction::PollStop,
        CaptureEvent::FrameReady => CaptureAction::Deliver,
        CaptureEvent::Delivered(received, elapsed) => {
            if !received {
                CaptureAction::Stop
            } else if elapsed < FRAME_INTERVAL_NANOS as u128 {
                CaptureAction::Pause((FRAME_INTERVAL_NANOS as u128 - elapsed) as u64)
            } else {
                CaptureAction::PollStop
            }
        },
        CaptureEvent::Paused => {
            if state.streaming {
                CaptureAction::PollStop
            } else {
                next_attempt(&state.retry)
            }
        },
    }
}

} // verus!
