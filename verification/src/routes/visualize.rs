//! Request rules of the image and video endpoints: limits on sizes, the
//! frame plan of a video, the answers to failures, and the statistics shown
//! on the image.

use vstd::prelude::*;
use vstd::string::StringExecFns;
use tokio::sync::Semaphore;
use crate::error::AppError;
use crate::fixed::{clamp_int, larger, ratio_u64, scale_ratio, UNIT};
use crate::license::LicenseClaims;
use crate::text::str_eq;
use crate::types::gradient::{known_stops, Gradient};
use crate::pipeline::progress::progress_of;
use crate::pipeline::render::{lemma_lerp_bounds, lerp};
use crate::text::push_tenths;
use crate::types::activity::{AvailableData, Metrics};
use crate::types::viz::{color_by_named, ColorByMetric, OutputConfig, RenderOptions, RoutePoint, StatOverlayItem, VizData};
use crate::state::{admitted, history_after, history_of, pruned, retry_after, EntryView, VideoExportRateLimiter};
use crate::text::{decimal, hundredths, push_decimal, push_hundredths, push_zero_padded, zero_padded};

verus! {

/// The HTTP status a failure is answered with.
pub fn app_error_status_code(err: &AppError) -> (status: u16)
    ensures
        status == err.status_of(),
{
    match err {
        AppError::Parse(_) | AppError::Process(_) | AppError::Prepare(_) | AppError::BadRequest(
            _,
        ) => 400,
        AppError::NotFound(_) => 404,
        AppError::Unauthorized(_) => 401,
        AppError::Internal(_) | AppError::Render(_) | AppError::Raster(_) => 500,
    }
}

/// The machine-readable code a failure is answered with.
pub fn app_error_code(err: &AppError) -> (code: &'static str)
    ensures
        code@ == err.code_of(),
{
    match err {
        AppError::Parse(_) | AppError::Process(_) | AppError::Prepare(_) | AppError::BadRequest(
            _,
        ) => "bad_request",
        AppError::NotFound(_) => "not_found",
        AppError::Unauthorized(_) => "unauthorized",
        AppError::Internal(_) | AppError::Render(_) | AppError::Raster(_) => "internal",
    }
}

/// The gradient of a request that names none.
pub fn default_gradient() -> (name: String)
    ensures
        name@ == "fire"@,
{
    String::from_str("fire")
}

/// The stroke width of a request that gives none, in tenths of a pixel.
pub fn default_stroke_width() -> (width: u32)
    ensures
        width == 30,
{
    30
}

/// The padding of a request that gives none, in pixels.
pub fn default_padding() -> (padding: u32)
    ensures
        padding == 40,
{
    40
}

/// The smoothing level of a request that gives none.
pub fn default_smoothing() -> (level: usize)
    ensures
        level == 30,
{
    30
}

/// The value of a switch that a request leaves out.
pub fn default_true() -> (on: bool)
    ensures
        on,
{
    true
}

/// Smallest accepted width or height, in pixels.
pub const MIN_DIM: u32 = 320;

/// Largest accepted width or height, in pixels.
pub const MAX_DIM: u32 = 4096;

/// Largest accepted number of pixels of an image.
pub const MAX_PIXELS: u64 = 10_000_000;

/// Whether an image of this size is accepted: each side within the limits,
/// and no more than ten megapixels in all.
pub open spec fn dimensions_ok(width: u32, height: u32) -> bool {
    &&& MIN_DIM <= width <= MAX_DIM
    &&& MIN_DIM <= height <= MAX_DIM
    &&& width * height <= MAX_PIXELS
}

/// What a request for an image of a refused size is told.
pub open spec fn dimensions_complaint(width: u32, height: u32) -> Seq<char> {
    if !(MIN_DIM <= width <= MAX_DIM && MIN_DIM <= height <= MAX_DIM) {
        "Invalid dimensions: "@ + decimal(width as nat) + "x"@ + decimal(height as nat)
            + ". Width/height must be between 320 and 4096"@
    } else {
        "Image too large: "@ + decimal(width as nat) + "x"@ + decimal(height as nat) + " ("@
            + hundredths((width * height + 5000) / 10000) + " MP). Max allowed is 10.0 MP"@
    }
}

/// Accepts or refuses the size of an image.
pub fn validate_dimensions(width: u32, height: u32) -> (result: Result<(), AppError>)
    ensures
        result.is_ok() == dimensions_ok(width, height),
        match result {
            Ok(_) => true,
            Err(AppError::BadRequest(text)) => text@ == dimensions_complaint(width, height),
            Err(_) => false,
        },
{
    if width < MIN_DIM || width > MAX_DIM || height < MIN_DIM || height > MAX_DIM {
        let mut text = String::from_str("Invalid dimensions: ");
        push_decimal(&mut text, width as u64);
        text.append("x");
        push_decimal(&mut text, height as u64);
        text.append(". Width/height must be between 320 and 4096");
        return Err(AppError::BadRequest(text));
    }
    assert(width * height <= 4096 * 4096) by (nonlinear_arith)
        requires
            width <= 4096,
            height <= 4096,
    ;
    let pixels: u64 = width as u64 * height as u64;
    if pixels > MAX_PIXELS {
        let mut text = String::from_str("Image too large: ");
        push_decimal(&mut text, width as u64);
        text.append("x");
        push_decimal(&mut text, height as u64);
        text.append(" (");
        push_hundredths(&mut text, ((pixels + 5000) / 10000) as i64);
        text.append(" MP). Max allowed is 10.0 MP");
        return Err(AppError::BadRequest(text));
    }
    Ok(())
}

/// The simplify stride (1 to 30) and the curve tension in millionths (0 to
/// 450000) that a smoothing level stands for. Levels above 100 count as 100.
pub open spec fn route_params_of(level: int) -> (int, int) {
    let t = clamp_int(level, 0, 100);
    ((150 + 29 * t) / 100, t * 4500)
}

/// Maps a smoothing level to the simplify stride and the curve tension.
pub fn smoothing_to_route_params(level: usize) -> (params: (usize, u32))
    ensures
        params.0 == route_params_of(level as int).0,
        params.1 == route_params_of(level as int).1,
        1 <= params.0 <= 30,
        params.1 <= 450_000,
{
    let t: usize = if level > 100 {
        100
    } else {
        level
    };
    ((150 + 29 * t) / 100, (t * 4500) as u32)
}

/// A duration as `H:MM:SS`, or `MM:SS` below one hour.
pub open spec fn duration_text(seconds: nat) -> Seq<char> {
    let hours = seconds / 3600;
    let minutes = (seconds % 3600) / 60;
    let rest = seconds % 60;
    if hours > 0 {
        decimal(hours) + ":"@ + zero_padded(minutes, 2) + ":"@ + zero_padded(rest, 2)
    } else {
        zero_padded(minutes, 2) + ":"@ + zero_padded(rest, 2)
    }
}

/// Writes a duration as `H:MM:SS`, or `MM:SS` below one hour.
pub fn format_duration(duration_seconds: u64) -> (text: String)
    ensures
        text@ == duration_text(duration_seconds as nat),
{
    let hours = duration_seconds / 3600;
    let minutes = (duration_seconds % 3600) / 60;
    let seconds = duration_seconds % 60;
    let mut text = String::new();
    if hours > 0 {
        push_decimal(&mut text, hours);
        text.append(":");
    }
    push_zero_padded(&mut text, minutes, 2);
    text.append(":");
    push_zero_padded(&mut text, seconds, 2);
    assert(text@ =~= duration_text(duration_seconds as nat));
    text
}

/// The file name of frame `idx`: the index in five digits between `frame_`
/// and `.png`, so that the names sort in frame order.
pub open spec fn frame_name(idx: u32) -> Seq<char> {
    "frame_"@ + zero_padded(idx as nat, 5) + ".png"@
}

/// The file name of frame `idx`.
pub fn frame_file_name(idx: u32) -> (name: String)
    ensures
        name@ == frame_name(idx),
{
    let mut name = String::from_str("frame_");
    push_zero_padded(&mut name, idx as u64, 5);
    name.append(".png");
    name
}

/// Where frame `idx` is written: its file name inside `work_dir`.
pub fn frame_file_path(work_dir: &str, idx: u32) -> (path: String)
    ensures
        path@ == work_dir@ + "/"@ + frame_name(idx),
{
    let mut path = String::from_str(work_dir);
    path.append("/");
    let name = frame_file_name(idx);
    path.append(name.as_str());
    assert(path@ =~= work_dir@ + "/"@ + frame_name(idx));
    path
}

/// The pixel budget of a video frame: that of 1280 by 720.
pub const MAX_PIXELS_720P: u64 = 921_600;

/// Whether `r` is the square root of `p / q` rounded to the nearest whole
/// number, halves rounded up.
pub open spec fn is_rounded_root(r: int, p: int, q: int) -> bool {
    &&& r >= 0
    &&& r > 0 ==> (2 * r - 1) * (2 * r - 1) * q <= 4 * p
    &&& 4 * p < (2 * r + 1) * (2 * r + 1) * q
}

/// A ratio has only one rounded square root.
pub proof fn lemma_rounded_root_unique(r: int, s: int, p: int, q: int)
    requires
        q > 0,
        is_rounded_root(r, p, q),
        is_rounded_root(s, p, q),
    ensures
        r == s,
{
    if r < s {
        assert((2 * r + 1) * (2 * r + 1) * q <= (2 * s - 1) * (2 * s - 1) * q)
            by (nonlinear_arith)
            requires
                0 <= r < s,
                q > 0,
        ;
    } else if s < r {
        assert((2 * s + 1) * (2 * s + 1) * q <= (2 * r - 1) * (2 * r - 1) * q)
            by (nonlinear_arith)
            requires
                0 <= s < r,
                q > 0,
        ;
    }
}

/// `value` rounded down to an even number.
pub open spec fn even_floor(value: int) -> int {
    value - value % 2
}

/// Whether `(out_w, out_h)` is the size of the video frames for a requested
/// size. A size within the pixel budget keeps its sides, rounded down to
/// even numbers. A larger one is scaled by the square root of the budget
/// over its pixels, which keeps its aspect; the sides are rounded to whole
/// pixels, then down to even numbers.
pub open spec fn is_capped_size(width: u32, height: u32, out_w: u32, out_h: u32) -> bool {
    if width * height <= MAX_PIXELS_720P {
        out_w == even_floor(width as int) && out_h == even_floor(height as int)
    } else {
        exists|rw: int, rh: int|
            {
                &&& is_rounded_root(rw, MAX_PIXELS_720P * width, height as int)
                &&& is_rounded_root(rh, MAX_PIXELS_720P * height, width as int)
                &&& out_w == even_floor(rw)
                &&& out_h == even_floor(rh)
            }
    }
}

/// The square root of `p / q`, rounded to the nearest whole number.
fn rounded_root(p: u64, q: u64) -> (r: u64)
    requires
        0 < q <= 0xFFFF_FFFF,
        p <= 0x10_0000_0000_0000,
    ensures
        is_rounded_root(r as int, p as int, q as int),
        r <= 0x1000_0000,
{
    let target: u128 = 4 * (p as u128);
    let mut lo: u64 = 0;
    let mut hi: u64 = 0x1000_0000;
    assert((2 * 0x1000_0000 - 1) * (2 * 0x1000_0000 - 1) * q > 4 * p) by (nonlinear_arith)
        requires
            q >= 1,
            p <= 0x10_0000_0000_0000,
    ;
    while hi - lo > 1
        invariant
            0 <= lo < hi <= 0x1000_0000,
            0 < q <= 0xFFFF_FFFF,
            target == 4 * p,
            lo > 0 ==> (2 * lo - 1) * (2 * lo - 1) * q <= 4 * p,
            (2 * hi - 1) * (2 * hi - 1) * q > 4 * p,
        decreases hi - lo,
    {
        let mid: u64 = lo + (hi - lo) / 2;
        let side: u128 = 2 * (mid as u128) - 1;
        assert(side * side <= 0x2000_0000 * 0x2000_0000) by (nonlinear_arith)
            requires
                0 <= side <= 0x2000_0000,
        ;
        assert(side * side * q <= 0x2000_0000 * 0x2000_0000 * 0xFFFF_FFFF) by (nonlinear_arith)
            requires
                0 <= side * side <= 0x2000_0000 * 0x2000_0000,
                0 < q <= 0xFFFF_FFFF,
        ;
        if side * side * (q as u128) <= target {
            lo = mid;
        } else {
            hi = mid;
        }
    }
    assert(2 * lo + 1 == 2 * hi - 1);
    lo
}

/// Rounds down to an even number.
fn floor_to_even(value: u32) -> (r: u32)
    ensures
        r == even_floor(value as int),
{
    value - value % 2
}

/// Caps the size of video frames to the pixel budget of 1280 by 720,
/// keeping the aspect; both sides come out even.
pub fn cap_mp4_dimensions_to_720p(width: u32, height: u32) -> (size: (u32, u32))
    ensures
        is_capped_size(width, height, size.0, size.1),
        size.0 % 2 == 0,
        size.1 % 2 == 0,
{
    assert(width * height <= 0xFFFF_FFFF * 0xFFFF_FFFF) by (nonlinear_arith)
        requires
            width <= 0xFFFF_FFFF,
            height <= 0xFFFF_FFFF,
    ;
    let pixels: u64 = width as u64 * height as u64;
    if pixels <= MAX_PIXELS_720P {
        return (floor_to_even(width), floor_to_even(height));
    }
    assert(width > 0 && height > 0) by (nonlinear_arith)
        requires
            width * height > 0,
            width >= 0,
            height >= 0,
    ;
    assert(MAX_PIXELS_720P * width <= 0x10_0000_0000_0000 && MAX_PIXELS_720P * height
        <= 0x10_0000_0000_0000) by (nonlinear_arith)
        requires
            width <= 0xFFFF_FFFF,
            height <= 0xFFFF_FFFF,
            MAX_PIXELS_720P == 921_600,
    ;
    let rw = rounded_root(MAX_PIXELS_720P * width as u64, height as u64);
    let rh = rounded_root(MAX_PIXELS_720P * height as u64, width as u64);
    let out_w = floor_to_even(rw as u32);
    let out_h = floor_to_even(rh as u32);
    assert(is_capped_size(width, height, out_w, out_h)) by {
        assert(is_rounded_root(rw as int, MAX_PIXELS_720P * width, height as int));
        assert(is_rounded_root(rh as int, MAX_PIXELS_720P * height, width as int));
    }
    (out_w, out_h)
}

/// Frame rate, frame count and length of a video.
#[derive(Debug, Clone, Copy, PartialEq, Eq, Structural)]
pub struct FramePlan {
    /// Frames per second, 24 to 30.
    pub fps: u32,
    /// Number of frames, 24 to 450.
    pub frame_count: u32,
    /// Length of the video in milliseconds.
    pub animation_duration_ms: u32,
}

/// The largest number of frames of a video.
pub const MAX_MP4_FRAMES: u32 = 450;

/// The plan of a video asked for with a length in milliseconds and a frame
/// rate: the rate limited to 24..30, the length to 3..15 seconds, the frame
/// count their product rounded and limited to 24..450, and the length that
/// this count takes at the rate.
pub open spec fn frame_plan_of(duration_ms: u64, fps: u32) -> FramePlan {
    let rate = clamp_int(fps as int, 24, 30);
    let length = clamp_int(duration_ms as int, 3000, 15000);
    let frames = clamp_int((length * rate + 500) / 1000, 24, MAX_MP4_FRAMES as int);
    FramePlan {
        fps: rate as u32,
        frame_count: frames as u32,
        animation_duration_ms: ((frames * 1000 + rate / 2) / rate) as u32,
    }
}

/// Plans the frames of a video.
pub fn plan_frames(duration_ms: u64, fps: u32) -> (plan: FramePlan)
    ensures
        plan == frame_plan_of(duration_ms, fps),
        24 <= plan.fps <= 30,
        24 <= plan.frame_count <= MAX_MP4_FRAMES,
{
    let rate: u32 = if fps < 24 {
        24
    } else if fps > 30 {
        30
    } else {
        fps
    };
    let length: u64 = if duration_ms < 3000 {
        3000
    } else if duration_ms > 15000 {
        15000
    } else {
        duration_ms
    };
    assert(length * rate <= 15000 * 30) by (nonlinear_arith)
        requires
            0 <= length <= 15000,
            0 <= rate <= 30,
    ;
    let requested: u64 = (length * rate as u64 + 500) / 1000;
    let frames: u32 = if requested < 24 {
        24
    } else if requested > MAX_MP4_FRAMES as u64 {
        MAX_MP4_FRAMES
    } else {
        requested as u32
    };
    FramePlan {
        fps: rate,
        frame_count: frames,
        animation_duration_ms: (frames * 1000 + rate / 2) / rate,
    }
}

/// The share of the video that has played when frame `index` of `total` is
/// shown, in millionths; one whole for a video of a single frame.
pub open spec fn linear_progress_of(index: int, total: int) -> int {
    if total <= 1 {
        UNIT as int
    } else {
        scale_ratio(index, total - 1, UNIT as int)
    }
}

/// What the frame loop does next.
#[derive(Debug, Clone, Copy, PartialEq, Eq, Structural)]
pub enum FrameStep {
    /// Render and write the frame `index` at this share of the video.
    Render { index: u32, linear_progress: u64 },
    /// All frames are written: hand them to the encoder.
    Encode,
    /// The export was cancelled: write nothing more.
    Cancelled,
}

/// Progress of the frame loop of one export.
#[derive(Debug, Clone, Copy)]
pub struct FrameLoop {
    next: u32,
    total: u32,
}

impl FrameLoop {
    /// Number of frames handed out for rendering.
    pub closed spec fn rendered(&self) -> u32 {
        self.next
    }

    /// Number of frames of the video.
    pub closed spec fn total(&self) -> u32 {
        self.total
    }

    /// The loop of a video of `total` frames, before its first frame.
    pub fn new(total: u32) -> (frames: Self)
        ensures
            frames.rendered() == 0,
            frames.total() == total,
    {
        FrameLoop { next: 0, total }
    }

    /// Decides the next step at a frame boundary, given the cancellation flag.
    ///
    /// A cancelled loop hands out no frame, whatever is left to render.
    /// Otherwise the frames are handed out in order, each once, and then the
    /// encoder is called for.
    pub fn advance(&mut self, cancelled: bool) -> (step: FrameStep)
        ensures
            final(self).total() == old(self).total(),
            cancelled ==> step == FrameStep::Cancelled && final(self).rendered() == old(self).rendered(),
            !cancelled && old(self).rendered() < old(self).total() ==> step == (FrameStep::Render {
                index: old(self).rendered(),
                linear_progress: linear_progress_of(
                    old(self).rendered() as int,
                    old(self).total() as int,
                ) as u64,
            }) && final(self).rendered() == old(self).rendered() + 1,
            !cancelled && old(self).rendered() >= old(self).total() ==> step == FrameStep::Encode
                && final(self).rendered() == old(self).rendered(),
    {
        if cancelled {
            return FrameStep::Cancelled;
        }
        if self.next >= self.total {
            return FrameStep::Encode;
        }
        let index = self.next;
        let linear_progress = if self.total <= 1 {
            UNIT
        } else {
            ratio_u64(index as u64, (self.total - 1) as u64, UNIT)
        };
        self.next = self.next + 1;
        FrameStep::Render { index, linear_progress }
    }
}

/// How often the encoder's exit status is asked for, in milliseconds.
pub const ENCODER_POLL_MS: u64 = 100;

/// What the supervisor of the encoder does next.
#[derive(Debug, Clone, Copy, PartialEq, Eq, Structural)]
pub enum EncoderStep {
    /// Kill the encoder, reap it, and report the export as cancelled.
    Kill,
    /// Sleep for this many milliseconds, then ask again.
    Sleep(u64),
    /// The encoder has ended; whether it succeeded.
    Finished(bool),
}

/// Decides the next step of the encoder's supervisor from the cancellation
/// flag and the encoder's exit status, if it has ended. Cancellation goes
/// before everything else.
pub fn supervise_encoder(cancelled: bool, exited: Option<bool>) -> (step: EncoderStep)
    ensures
        cancelled ==> step == EncoderStep::Kill,
        !cancelled ==> step == match exited {
            Some(success) => EncoderStep::Finished(success),
            None => EncoderStep::Sleep(ENCODER_POLL_MS),
        },
{
    if cancelled {
        EncoderStep::Kill
    } else {
        match exited {
            Some(success) => EncoderStep::Finished(success),
            None => EncoderStep::Sleep(ENCODER_POLL_MS),
        }
    }
}

/// The arguments of the encoder for frames at `fps`, read by the pattern
/// `frame_pattern` and written to `output_path`.
pub open spec fn encoder_arguments_of(fps: u32, frame_pattern: Seq<char>, output_path: Seq<char>) -> Seq<
    Seq<char>,
> {
    seq![
        "-y"@,
        "-hide_banner"@,
        "-loglevel"@,
        "error"@,
        "-framerate"@,
        decimal(fps as nat),
        "-i"@,
        frame_pattern,
        "-c:v"@,
        "libx264"@,
        "-preset"@,
        "veryfast"@,
        "-pix_fmt"@,
        "yuv420p"@,
        "-movflags"@,
        "+faststart"@,
        output_path,
    ]
}

/// The texts of a list of strings.
pub open spec fn texts_of(items: Seq<String>) -> Seq<Seq<char>> {
    Seq::new(items.len(), |i: int| items[i]@)
}

/// The argument list of the H.264 encoder.
pub fn encoder_arguments(fps: u32, frame_pattern: &str, output_path: &str) -> (args: Vec<String>)
    ensures
        texts_of(args@) == encoder_arguments_of(fps, frame_pattern@, output_path@),
{
    let mut args: Vec<String> = Vec::new();
    args.push(String::from_str("-y"));
    args.push(String::from_str("-hide_banner"));
    args.push(String::from_str("-loglevel"));
    args.push(String::from_str("error"));
    args.push(String::from_str("-framerate"));
    args.push(crate::text::format_u64(fps as u64));
    args.push(String::from_str("-i"));
    args.push(String::from_str(frame_pattern));
    args.push(String::from_str("-c:v"));
    args.push(String::from_str("libx264"));
    args.push(String::from_str("-preset"));
    args.push(String::from_str("veryfast"));
    args.push(String::from_str("-pix_fmt"));
    args.push(String::from_str("yuv420p"));
    args.push(String::from_str("-movflags"));
    args.push(String::from_str("+faststart"));
    args.push(String::from_str(output_path));
    assert(texts_of(args@) =~= encoder_arguments_of(fps, frame_pattern@, output_path@));
    args
}

/// What is reported when the encoder fails, given what it wrote to its
/// error stream.
pub fn encoder_failure(stderr: &str) -> (err: AppError)
    ensures
        err matches AppError::Internal(text) && text@ == "ffmpeg failed to encode MP4: "@ + (
        if stderr@.len() == 0 {
            "unknown error"@
        } else {
            stderr@
        }),
{
    let mut text = String::from_str("ffmpeg failed to encode MP4: ");
    if stderr.unicode_len() == 0 {
        text.append("unknown error");
    } else {
        text.append(stderr);
    }
    AppError::Internal(text)
}

/// The answer to a video export request that failed.
#[derive(Debug, Clone)]
pub struct ExportFailure {
    /// HTTP status.
    pub status: u16,
    /// Machine-readable code.
    pub code: &'static str,
    /// Text for the reader.
    pub message: String,
    /// Seconds after which the request may be tried again, for failures that pass.
    pub retry_after_seconds: Option<u64>,
}

impl ExportFailure {
    /// Whether this answer has the given status, code, text and retry time.
    pub open spec fn is(
        self,
        status: u16,
        code: Seq<char>,
        message: Seq<char>,
        retry: Option<u64>,
    ) -> bool {
        &&& self.status == status
        &&& self.code@ == code
        &&& self.message@ == message
        &&& self.retry_after_seconds == retry
    }
}

/// The answer to a failure of the stages behind admission: its status, code
/// and text, without a retry time.
pub fn failure_of(err: &AppError) -> (failure: ExportFailure)
    ensures
        failure.is(err.status_of(), err.code_of(), err.message_of(), None),
{
    ExportFailure {
        status: app_error_status_code(err),
        code: app_error_code(err),
        message: err.message(),
        retry_after_seconds: None,
    }
}

/// What the check of a request's bearer token found.
#[derive(Debug, Clone)]
pub enum TokenCheck {
    /// The request carries no bearer token.
    Missing,
    /// The token does not verify.
    Invalid,
    /// The token verifies and makes these claims.
    Valid(LicenseClaims),
}

/// What a request that may not export video is told: that it carries no
/// token, that its token does not verify, or that its license is not a
/// paid one. None for a request that may.
pub open spec fn refusal_of(token: TokenCheck) -> Option<Seq<char>> {
    match token {
        TokenCheck::Missing => Some("Missing bearer token"@),
        TokenCheck::Invalid => Some("Invalid license token"@),
        TokenCheck::Valid(claims) => if claims.pro {
            None
        } else {
            Some("Pro license required for MP4 export"@)
        },
    }
}

/// The subject that may export video, or the answer to a request that may
/// not: one without a token, with a token that does not verify, or with a
/// license that is not a paid one.
pub fn authorize_export(token: TokenCheck) -> (result: Result<String, ExportFailure>)
    ensures
        match (result, refusal_of(token)) {
            (Err(f), Some(text)) => f.is(401, "unauthorized"@, text, None),
            (Ok(subject), None) => token matches TokenCheck::Valid(claims) && subject@
                == claims.sub@,
            _ => false,
        },
{
    let text = match token {
        TokenCheck::Missing => "Missing bearer token",
        TokenCheck::Invalid => "Invalid license token",
        TokenCheck::Valid(claims) => {
            if claims.pro {
                return Ok(claims.sub);
            }
            "Pro license required for MP4 export"
        },
    };
    Err(
        ExportFailure {
            status: 401,
            code: "unauthorized",
            message: String::from_str(text),
            retry_after_seconds: None,
        },
    )
}

/// What a subject over its limit is told.
pub open spec fn rate_limit_text(seconds: u64) -> Seq<char> {
    "Too many MP4 export requests. Try again in "@ + decimal(seconds as nat) + "s."@
}

/// The first two controls of the export path: authorization, then the rate
/// limit of the license's subject. Yields the subject, or the answer to the
/// request. A request that is not authorized leaves the limiter untouched.
#[verifier::rlimit(40)]
pub fn admit_export(token: TokenCheck, limiter: &mut VideoExportRateLimiter, now: u64) -> (result:
    Result<String, ExportFailure>)
    ensures
        final(limiter).window() == old(limiter).window(),
        final(limiter).max_requests() == old(limiter).max_requests(),
        match token {
            TokenCheck::Valid(claims) if claims.pro => {
                let before = history_of(old(limiter).histories(), claims.sub@);
                let limit = old(limiter).max_requests() as int;
                let window = old(limiter).window();
                &&& final(limiter).histories() == old(limiter).histories().insert(
                    claims.sub@,
                    EntryView::History(history_after(before, now, window, limit)),
                )
                &&& match result {
                    Ok(subject) => subject@ == claims.sub@ && admitted(before, now, window, limit),
                    Err(f) => !admitted(before, now, window, limit) && f.is(
                        429,
                        "rate_limited"@,
                        rate_limit_text(retry_after(pruned(before, now, window), now, window) as u64),
                        Some(retry_after(pruned(before, now, window), now, window) as u64),
                    ),
                }
            },
            _ => final(limiter).histories() == old(limiter).histories() && match (
                result,
                refusal_of(token),
            ) {
                (Err(f), Some(text)) => f.is(401, "unauthorized"@, text, None),
                _ => false,
            },
        },
{
    let subject = match authorize_export(token) {
        Ok(subject) => subject,
        Err(failure) => {
            return Err(failure);
        },
    };
    match limiter.check(subject.as_str(), now) {
        Ok(_) => Ok(subject),
        Err(seconds) => {
            let mut message = String::from_str("Too many MP4 export requests. Try again in ");
            push_decimal(&mut message, seconds);
            message.append("s.");
            Err(
                ExportFailure {
                    status: 429,
                    code: "rate_limited",
                    message,
                    retry_after_seconds: Some(seconds),
                },
            )
        },
    }
}

#[verifier::external_type_specification]
#[verifier::external_body]
pub struct ExSemaphore(Semaphore);

/// The permits that a semaphore has free; none once it is closed.
pub uninterp spec fn free_permits(semaphore: Semaphore) -> Option<nat>;

/// The most permits that a semaphore can hold.
pub open spec fn most_permits() -> int {
    usize::MAX as int / 8
}

/// `Semaphore::new`: an open semaphore with that many free permits.
#[verifier::external_body]
fn semaphore_new(permits: usize) -> (semaphore: Semaphore)
    requires
        permits <= most_permits(),
    ensures
        free_permits(semaphore) == Some(permits as nat),
{
    Semaphore::new(permits)
}

/// `Semaphore::available_permits`: the number of free permits.
#[verifier::external_body]
fn semaphore_free(semaphore: &Semaphore) -> (free: usize)
    ensures
        free_permits(*semaphore).is_some() ==> free_permits(*semaphore) == Some(free as nat),
{
    semaphore.available_permits()
}

/// `Semaphore::try_acquire` and `SemaphorePermit::forget`: takes one permit
/// for good where the semaphore is open and has one free.
#[verifier::external_body]
fn semaphore_take(semaphore: &mut Semaphore) -> (taken: bool)
    ensures
        match free_permits(*old(semaphore)) {
            Some(n) => taken == (n > 0) && free_permits(*final(semaphore)) == Some(
                if taken {
                    (n - 1) as nat
                } else {
                    n
                },
            ),
            None => !taken && free_permits(*final(semaphore)).is_none(),
        },
{
    match semaphore.try_acquire() {
        Ok(permit) => {
            permit.forget();
            true
        },
        Err(_) => false,
    }
}

/// `Semaphore::add_permits` with one permit: one more permit is free.
#[verifier::external_body]
fn semaphore_give(semaphore: &mut Semaphore)
    requires
        match free_permits(*old(semaphore)) {
            Some(n) => n < most_permits(),
            None => false,
        },
    ensures
        free_permits(*final(semaphore)) == Some((free_permits(*old(semaphore))->0 + 1) as nat),
{
    semaphore.add_permits(1);
}

/// The permits of the export path: at most `capacity` exports render at once.
pub struct PermitPool {
    capacity: usize,
    permits: Semaphore,
}

/// What a request that waits for a permit does next.
#[derive(Debug, Clone)]
pub enum QueueStep {
    /// A permit was taken: start the export.
    Admit,
    /// No permit is free and the wait is not over: ask again later.
    Wait,
    /// No permit came free within the queue timeout: answer with this.
    Busy(ExportFailure),
}

impl PermitPool {
    /// Number of exports that may render at once.
    pub closed spec fn capacity(&self) -> usize {
        self.capacity
    }

    /// Number of permits taken.
    pub closed spec fn in_use(&self) -> int {
        match free_permits(self.permits) {
            Some(free) => self.capacity - free,
            None => 0,
        }
    }

    /// Whether the pool is in order: its semaphore is open, and no more
    /// permits are free than there are.
    pub closed spec fn wf(&self) -> bool {
        match free_permits(self.permits) {
            Some(free) => free <= self.capacity <= most_permits(),
            None => false,
        }
    }

    /// In a pool that is in order, between none and all of the permits are taken.
    pub proof fn lemma_in_use(&self)
        requires
            self.wf(),
        ensures
            0 <= self.in_use() <= self.capacity(),
    {
    }

    /// A pool of `max_concurrency` free permits.
    pub fn new(max_concurrency: usize) -> (pool: Self)
        requires
            max_concurrency <= most_permits(),
        ensures
            pool.wf(),
            pool.in_use() == 0,
            pool.capacity() == max_concurrency,
    {
        PermitPool { capacity: max_concurrency, permits: semaphore_new(max_concurrency) }
    }

    /// Takes a permit if one is free.
    pub fn try_acquire(&mut self) -> (taken: bool)
        requires
            old(self).wf(),
        ensures
            final(self).wf(),
            final(self).capacity() == old(self).capacity(),
            taken == (old(self).in_use() < old(self).capacity()),
            final(self).in_use() == old(self).in_use() + if taken {
                1int
            } else {
                0int
            },
    {
        semaphore_take(&mut self.permits)
    }

    /// Gives a permit back. Without a permit taken, nothing changes.
    pub fn release(&mut self)
        requires
            old(self).wf(),
        ensures
            final(self).wf(),
            final(self).capacity() == old(self).capacity(),
            final(self).in_use() == if old(self).in_use() > 0 {
                old(self).in_use() - 1
            } else {
                0
            },
    {
        if semaphore_free(&self.permits) < self.capacity {
            semaphore_give(&mut self.permits);
        }
    }

    /// The concurrency control of the export path, for a request that has
    /// waited `waited_ms` of a queue timeout of `queue_timeout_ms`: take a
    /// permit if one is free; else keep waiting until the timeout is over,
    /// then answer that the service is busy, with the timeout in whole
    /// seconds as the time to retry after.
    pub fn queue_step(&mut self, waited_ms: u64, queue_timeout_ms: u64) -> (step: QueueStep)
        requires
            old(self).wf(),
        ensures
            final(self).wf(),
            final(self).capacity() == old(self).capacity(),
            match step {
                QueueStep::Admit => old(self).in_use() < old(self).capacity() && final(self).in_use() == old(self).in_use() + 1,
                QueueStep::Wait => old(self).in_use() == old(self).capacity() && waited_ms
                    < queue_timeout_ms && final(self).in_use() == old(self).in_use(),
                QueueStep::Busy(f) => old(self).in_use() == old(self).capacity() && waited_ms
                    >= queue_timeout_ms && final(self).in_use() == old(self).in_use() && f.is(
                    503,
                    "export_busy"@,
                    "MP4 export capacity is busy. Try again shortly."@,
                    Some(queue_timeout_ms / 1000),
                ),
            },
    {
        if self.try_acquire() {
            QueueStep::Admit
        } else if waited_ms < queue_timeout_ms {
            QueueStep::Wait
        } else {
            QueueStep::Busy(
                ExportFailure {
                    status: 503,
                    code: "export_busy",
                    message: String::from_str("MP4 export capacity is busy. Try again shortly."),
                    retry_after_seconds: Some(queue_timeout_ms / 1000),
                },
            )
        }
    }
}

/// How many of `requests` exports are turned away as busy when they arrive
/// together at a pool of `capacity` permits of which `in_use` are taken,
/// and do not wait: each takes a permit while one is free and holds it.
pub open spec fn turned_away(in_use: nat, capacity: nat, requests: nat) -> nat
    decreases requests,
{
    if requests == 0 {
        0
    } else if in_use < capacity {
        turned_away(in_use + 1, capacity, (requests - 1) as nat)
    } else {
        1 + turned_away(in_use, capacity, (requests - 1) as nat)
    }
}

/// Exports that arrive together at a pool without waiting are turned away
/// as far as they outnumber the free permits.
pub proof fn lemma_turned_away(in_use: nat, capacity: nat, requests: nat)
    requires
        in_use <= capacity,
    ensures
        turned_away(in_use, capacity, requests) == if requests > capacity - in_use {
            requests - (capacity - in_use)
        } else {
            0
        },
    decreases requests,
{
    if requests > 0 {
        if in_use < capacity {
            lemma_turned_away(in_use + 1, capacity, (requests - 1) as nat);
        } else {
            lemma_turned_away(in_use, capacity, (requests - 1) as nat);
        }
    }
}

/// Of `k + 1` exports that arrive together at `k` free permits without
/// waiting, exactly one is turned away.
pub proof fn lemma_one_too_many(k: nat)
    ensures
        turned_away(0, k, k + 1) == 1,
{
    lemma_turned_away(0, k, k + 1);
}

/// What an export that ran into the render deadline is told.
pub open spec fn timeout_text(render_timeout_seconds: u64) -> Seq<char> {
    "MP4 export timed out after "@ + decimal(render_timeout_seconds as nat)
        + "s. Try a smaller size or shorter duration."@
}

/// The answer to an export that ran into the render deadline.
pub fn timeout_failure(render_timeout_seconds: u64) -> (failure: ExportFailure)
    ensures
        failure.is(504, "export_timeout"@, timeout_text(render_timeout_seconds), None),
{
    let mut message = String::from_str("MP4 export timed out after ");
    push_decimal(&mut message, render_timeout_seconds);
    message.append("s. Try a smaller size or shorter duration.");
    ExportFailure { status: 504, code: "export_timeout", message, retry_after_seconds: None }
}

/// What ends an admitted export.
#[derive(Debug, Clone)]
pub enum RenderOutcome {
    /// The render task ended with the video.
    Finished,
    /// The render task ended with a failure.
    Failed(AppError),
    /// The render task could not be joined; carries the reason.
    JoinFailed(String),
    /// The render deadline passed first.
    DeadlinePassed,
}

/// What follows the race between the render task and the render deadline:
/// whether the cancellation flag is to be set and the task aborted, and the
/// answer to the request where the export failed.
pub fn conclude_export(outcome: RenderOutcome, render_timeout_seconds: u64) -> (end: (
    bool,
    Option<ExportFailure>,
))
    ensures
        end.0 == (outcome is DeadlinePassed),
        match (outcome, end.1) {
            (RenderOutcome::Finished, None) => true,
            (RenderOutcome::Failed(err), Some(f)) => f.is(
                err.status_of(),
                err.code_of(),
                err.message_of(),
                None,
            ),
            (RenderOutcome::JoinFailed(reason), Some(f)) => f.is(
                500,
                "internal"@,
                "Internal error: Video export task join failed: "@ + reason@,
                None,
            ),
            (RenderOutcome::DeadlinePassed, Some(f)) => f.is(
                504,
                "export_timeout"@,
                timeout_text(render_timeout_seconds),
                None,
            ),
            _ => false,
        },
{
    match outcome {
        RenderOutcome::Finished => (false, None),
        RenderOutcome::Failed(err) => (false, Some(failure_of(&err))),
        RenderOutcome::JoinFailed(reason) => {
            let mut message = String::from_str("Internal error: Video export task join failed: ");
            message.append(reason.as_str());
            (
                false,
                Some(
                    ExportFailure {
                        status: 500,
                        code: "internal",
                        message,
                        retry_after_seconds: None,
                    },
                ),
            )
        },
        RenderOutcome::DeadlinePassed => (true, Some(timeout_failure(render_timeout_seconds))),
    }
}

/// A statistic that can be shown on the image.
#[derive(Debug, Clone, Copy, PartialEq, Eq, Structural)]
pub enum StatKey {
    Distance,
    Duration,
    ElevationGain,
    AvgSpeed,
    AvgHeartRate,
    MaxHeartRate,
    AvgPower,
    MaxPower,
}

/// The statistic that a key names.
pub open spec fn stat_key_named(key: Seq<char>) -> Option<StatKey> {
    if key == "distance"@ {
        Some(StatKey::Distance)
    } else if key == "duration"@ {
        Some(StatKey::Duration)
    } else if key == "elevation_gain"@ {
        Some(StatKey::ElevationGain)
    } else if key == "avg_speed"@ {
        Some(StatKey::AvgSpeed)
    } else if key == "avg_heart_rate"@ {
        Some(StatKey::AvgHeartRate)
    } else if key == "max_heart_rate"@ {
        Some(StatKey::MaxHeartRate)
    } else if key == "avg_power"@ {
        Some(StatKey::AvgPower)
    } else if key == "max_power"@ {
        Some(StatKey::MaxPower)
    } else {
        None
    }
}

/// Reads the key of a statistic.
pub fn parse_stat_key(key: &str) -> (kind: Option<StatKey>)
    ensures
        kind == stat_key_named(key@),
{
    if str_eq(key, "distance") {
        Some(StatKey::Distance)
    } else if str_eq(key, "duration") {
        Some(StatKey::Duration)
    } else if str_eq(key, "elevation_gain") {
        Some(StatKey::ElevationGain)
    } else if str_eq(key, "avg_speed") {
        Some(StatKey::AvgSpeed)
    } else if str_eq(key, "avg_heart_rate") {
        Some(StatKey::AvgHeartRate)
    } else if str_eq(key, "max_heart_rate") {
        Some(StatKey::MaxHeartRate)
    } else if str_eq(key, "avg_power") {
        Some(StatKey::AvgPower)
    } else if str_eq(key, "max_power") {
        Some(StatKey::MaxPower)
    } else {
        None
    }
}

/// The label under which a statistic is shown, where the activity has it:
/// distance always; duration and mean speed where the activity takes time;
/// elevation gain where it has elevations; heart rate and power where the
/// channel is present and its aggregate known.
pub open spec fn stat_label_of(key: Seq<char>, metrics: Metrics, available: AvailableData) -> Option<
    Seq<char>,
> {
    match stat_key_named(key) {
        Some(StatKey::Distance) => Some("DIST"@),
        Some(StatKey::Duration) => if metrics.duration_seconds > 0 {
            Some("DUR"@)
        } else {
            None
        },
        Some(StatKey::ElevationGain) => if available.has_elevation {
            Some("GAIN"@)
        } else {
            None
        },
        Some(StatKey::AvgSpeed) => if metrics.duration_seconds > 0 {
            Some("AVG SPD"@)
        } else {
            None
        },
        Some(StatKey::AvgHeartRate) => if available.has_heart_rate
            && metrics.avg_heart_rate.is_some() {
            Some("AVG HR"@)
        } else {
            None
        },
        Some(StatKey::MaxHeartRate) => if available.has_heart_rate
            && metrics.max_heart_rate.is_some() {
            Some("MAX HR"@)
        } else {
            None
        },
        Some(StatKey::AvgPower) => if available.has_power && metrics.avg_power.is_some() {
            Some("AVG PWR"@)
        } else {
            None
        },
        Some(StatKey::MaxPower) => if available.has_power && metrics.max_power.is_some() {
            Some("MAX PWR"@)
        } else {
            None
        },
        None => None,
    }
}

/// The label under which a statistic is shown, where the activity has it.
pub fn stat_key_to_label(key: &str, metrics: &Metrics, available_data: &AvailableData) -> (label:
    Option<String>)
    ensures
        match (label, stat_label_of(key@, *metrics, *available_data)) {
            (Some(text), Some(expected)) => text@ == expected,
            (None, None) => true,
            _ => false,
        },
{
    let text: &str = match parse_stat_key(key) {
        Some(StatKey::Distance) => "DIST",
        Some(StatKey::Duration) => if metrics.duration_seconds > 0 {
            "DUR"
        } else {
            return None;
        },
        Some(StatKey::ElevationGain) => if available_data.has_elevation {
            "GAIN"
        } else {
            return None;
        },
        Some(StatKey::AvgSpeed) => if metrics.duration_seconds > 0 {
            "AVG SPD"
        } else {
            return None;
        },
        Some(StatKey::AvgHeartRate) => if available_data.has_heart_rate
            && metrics.avg_heart_rate.is_some() {
            "AVG HR"
        } else {
            return None;
        },
        Some(StatKey::MaxHeartRate) => if available_data.has_heart_rate
            && metrics.max_heart_rate.is_some() {
            "MAX HR"
        } else {
            return None;
        },
        Some(StatKey::AvgPower) => if available_data.has_power && metrics.avg_power.is_some() {
            "AVG PWR"
        } else {
            return None;
        },
        Some(StatKey::MaxPower) => if available_data.has_power && metrics.max_power.is_some() {
            "MAX PWR"
        } else {
            return None;
        },
        None => {
            return None;
        },
    };
    Some(String::from_str(text))
}

/// A statistic chosen for the overlay.
#[derive(Debug, Clone)]
pub struct StatOverlaySpec {
    pub key: String,
    pub label: String,
    /// Position of the line's colour along the gradient, in millionths.
    pub color_t: u64,
}

/// Index of the first of the first `k` keys that names no statistic, or -1.
pub open spec fn first_unknown_key(keys: Seq<String>, k: int) -> int
    decreases k,
{
    if k <= 0 {
        -1
    } else if first_unknown_key(keys, k - 1) >= 0 {
        first_unknown_key(keys, k - 1)
    } else if stat_key_named(keys[k - 1]@).is_none() {
        k - 1
    } else {
        -1
    }
}

/// Whether key `i` is shown: it occurs for the first time and the activity
/// has its statistic.
pub open spec fn key_shown(keys: Seq<String>, metrics: Metrics, available: AvailableData, i: int) -> bool {
    &&& stat_label_of(keys[i]@, metrics, available).is_some()
    &&& forall|j: int| 0 <= j < i ==> (#[trigger] keys[j])@ != keys[i]@
}

/// The indices of the keys that are shown, among the first `k`.
pub open spec fn shown_keys(keys: Seq<String>, metrics: Metrics, available: AvailableData, k: int) -> Seq<
    int,
>
    decreases k,
{
    if k <= 0 {
        Seq::empty()
    } else if key_shown(keys, metrics, available, k - 1) {
        shown_keys(keys, metrics, available, k - 1).push(k - 1)
    } else {
        shown_keys(keys, metrics, available, k - 1)
    }
}

/// Where line `idx` of `count` takes its colour from the gradient, in
/// millionths: the lines are spread from one end to the other; a single
/// line takes the middle.
pub open spec fn overlay_color(idx: int, count: int) -> int {
    if count <= 1 {
        (UNIT / 2) as int
    } else {
        scale_ratio(idx, count - 1, UNIT as int)
    }
}

/// What a request with an unknown statistic is told.
pub open spec fn unknown_key_text(key: Seq<char>) -> Seq<char> {
    "Invalid stat key: "@ + key
        + ". Allowed: distance, duration, elevation_gain, avg_speed, avg_heart_rate, max_heart_rate, avg_power, max_power"@
}

/// Whether the chosen statistics are those of the requested keys: one for
/// every key that is shown, in the order of the keys, each with its label
/// and its colour.
pub open spec fn specs_match(
    specs: Seq<StatOverlaySpec>,
    keys: Seq<String>,
    metrics: Metrics,
    available: AvailableData,
) -> bool {
    let shown = shown_keys(keys, metrics, available, keys.len() as int);
    &&& specs.len() == shown.len()
    &&& forall|i: int|
        0 <= i < specs.len() ==> {
            &&& (#[trigger] specs[i]).key@ == keys[shown[i]]@
            &&& Some(specs[i].label@) == stat_label_of(keys[shown[i]]@, metrics, available)
            &&& specs[i].color_t == overlay_color(i, shown.len() as int)
        }
}

/// The shown keys are indices of keys, and no more than there are keys.
pub proof fn lemma_shown_keys(keys: Seq<String>, metrics: Metrics, available: AvailableData, k: int)
    requires
        0 <= k <= keys.len(),
    ensures
        shown_keys(keys, metrics, available, k).len() <= k,
        forall|i: int|
            0 <= i < shown_keys(keys, metrics, available, k).len() ==> 0 <= #[trigger] shown_keys(
                keys,
                metrics,
                available,
                k,
            )[i] < k,
    decreases k,
{
    if k > 0 {
        lemma_shown_keys(keys, metrics, available, k - 1);
    }
}

/// Chooses the statistics of the overlay from the requested keys. A key
/// that names no statistic refuses the request; a key that occurs again,
/// and one whose statistic the activity lacks, is passed over.
#[verifier::rlimit(40)]
pub fn build_stats_overlay_specs(
    requested_keys: Option<&Vec<String>>,
    metrics: &Metrics,
    available_data: &AvailableData,
) -> (result: Result<Vec<StatOverlaySpec>, AppError>)
    ensures
        match (requested_keys, result) {
            (None, Ok(specs)) => specs@.len() == 0,
            (Some(keys), Ok(specs)) => first_unknown_key(keys@, keys@.len() as int) < 0
                && specs_match(specs@, keys@, *metrics, *available_data),
            (Some(keys), Err(AppError::BadRequest(text))) => {
                let bad = first_unknown_key(keys@, keys@.len() as int);
                bad >= 0 && text@ == unknown_key_text(keys@[bad]@)
            },
            _ => false,
        },
{
    let keys = match requested_keys {
        Some(keys) => keys,
        None => {
            return Ok(Vec::new());
        },
    };
    let n = keys.len();
    let mut i: usize = 0;
    while i < n
        invariant
            0 <= i <= n,
            n == keys@.len(),
            requested_keys == Some(keys),
            first_unknown_key(keys@, i as int) < 0,
        decreases n - i,
    {
        if parse_stat_key(keys[i].as_str()).is_none() {
            let mut text = String::from_str("Invalid stat key: ");
            text.append(keys[i].as_str());
            text.append(
                ". Allowed: distance, duration, elevation_gain, avg_speed, avg_heart_rate, max_heart_rate, avg_power, max_power",
            );
            assert(first_unknown_key(keys@, i + 1) == i);
            assert(first_unknown_key(keys@, n as int) == i) by {
                lemma_first_unknown_key_stays(keys@, i + 1, n as int);
            }
            return Err(AppError::BadRequest(text));
        }
        i = i + 1;
    }
    let mut chosen: Vec<(usize, String)> = Vec::new();
    let mut k: usize = 0;
    while k < n
        invariant
            0 <= k <= n,
            n == keys@.len(),
            chosen@.len() == shown_keys(keys@, *metrics, *available_data, k as int).len(),
            forall|c: int|
                0 <= c < chosen@.len() ==> {
                    &&& (#[trigger] chosen@[c]).0 == shown_keys(
                        keys@,
                        *metrics,
                        *available_data,
                        k as int,
                    )[c]
                    &&& Some(chosen@[c].1@) == stat_label_of(
                        keys@[chosen@[c].0 as int]@,
                        *metrics,
                        *available_data,
                    )
                },
        decreases n - k,
    {
        proof {
            lemma_shown_keys(keys@, *metrics, *available_data, k as int);
        }
        let mut seen = false;
        let mut j: usize = 0;
        while j < k
            invariant
                0 <= j <= k < n,
                n == keys@.len(),
                seen == exists|e: int| 0 <= e < j && (#[trigger] keys@[e])@ == keys@[k as int]@,
            decreases k - j,
        {
            if str_eq(keys[j].as_str(), keys[k].as_str()) {
                seen = true;
            }
            j = j + 1;
        }
        if !seen {
            if let Some(label) = stat_key_to_label(keys[k].as_str(), metrics, available_data) {
                chosen.push((k, label));
            }
        }
        k = k + 1;
    }
    let count = chosen.len();
    let ghost shown = shown_keys(keys@, *metrics, *available_data, n as int);
    proof {
        lemma_shown_keys(keys@, *metrics, *available_data, n as int);
    }
    let mut specs: Vec<StatOverlaySpec> = Vec::new();
    let mut idx: usize = 0;
    while idx < count
        invariant
            0 <= idx <= count,
            count == chosen@.len(),
            count == shown.len(),
            count <= n,
            n == keys@.len(),
            shown == shown_keys(keys@, *metrics, *available_data, n as int),
            forall|c: int|
                0 <= c < chosen@.len() ==> {
                    &&& (#[trigger] chosen@[c]).0 == shown[c]
                    &&& 0 <= shown[c] < n
                    &&& Some(chosen@[c].1@) == stat_label_of(
                        keys@[chosen@[c].0 as int]@,
                        *metrics,
                        *available_data,
                    )
                },
            specs@.len() == idx,
            forall|c: int|
                0 <= c < idx ==> {
                    &&& (#[trigger] specs@[c]).key@ == keys@[shown[c]]@
                    &&& Some(specs@[c].label@) == stat_label_of(
                        keys@[shown[c]]@,
                        *metrics,
                        *available_data,
                    )
                    &&& specs@[c].color_t == overlay_color(c, count as int)
                },
        decreases count - idx,
    {
        let color_t: u64 = if count <= 1 {
            UNIT / 2
        } else {
            proof {
                crate::fixed::lemma_scale_ratio_bounds(idx as int, count - 1, UNIT as int);
            }
            ratio_u64(idx as u64, (count - 1) as u64, UNIT)
        };
        let source = chosen[idx].0;
        let ghost entry = chosen@[idx as int];
        assert(entry.0 == shown[idx as int]);
        let key = keys[source].clone();
        let label = chosen[idx].1.clone();
        specs.push(StatOverlaySpec { key, label, color_t });
        idx = idx + 1;
    }
    Ok(specs)
}

/// Once a key is found that names no statistic, it stays the first.
pub proof fn lemma_first_unknown_key_stays(keys: Seq<String>, k: int, n: int)
    requires
        0 <= k <= n,
        first_unknown_key(keys, k) >= 0,
    ensures
        first_unknown_key(keys, n) == first_unknown_key(keys, k),
    decreases n - k,
{
    if k < n {
        lemma_first_unknown_key_stays(keys, k, n - 1);
    }
}

/// What is known of the ride at one moment of it.
#[derive(Debug, Clone, Copy, PartialEq, Eq, Structural)]
pub struct ProgressTelemetry {
    pub distance_mm: u64,
    pub elevation_gain_mm: u64,
    pub elapsed_seconds: Option<u64>,
    /// Mean heart rate, in thousandths of a beat per minute.
    pub avg_heart_rate: Option<u64>,
    /// Highest heart rate, in thousandths of a beat per minute.
    pub max_heart_rate: Option<u64>,
    /// Mean power, in thousandths of a watt.
    pub avg_power: Option<u64>,
    /// Highest power, in thousandths of a watt.
    pub max_power: Option<u64>,
}

/// The telemetry that a route point carries.
pub open spec fn point_telemetry(p: RoutePoint) -> ProgressTelemetry {
    ProgressTelemetry {
        distance_mm: p.cumulative_distance_mm,
        elevation_gain_mm: p.cumulative_elevation_gain_mm,
        elapsed_seconds: p.elapsed_seconds,
        avg_heart_rate: match p.cumulative_avg_heart_rate {
            Some(v) => Some(v as u64),
            None => None,
        },
        max_heart_rate: match p.cumulative_max_heart_rate {
            Some(v) => Some((v * 1000) as u64),
            None => None,
        },
        avg_power: match p.cumulative_avg_power {
            Some(v) => Some(v as u64),
            None => None,
        },
        max_power: match p.cumulative_max_power {
            Some(v) => Some((v * 1000) as u64),
            None => None,
        },
    }
}

/// Reads the telemetry that a route point carries.
pub fn telemetry_from_point(point: &RoutePoint) -> (sample: ProgressTelemetry)
    ensures
        sample == point_telemetry(*point),
{
    ProgressTelemetry {
        distance_mm: point.cumulative_distance_mm,
        elevation_gain_mm: point.cumulative_elevation_gain_mm,
        elapsed_seconds: point.elapsed_seconds,
        avg_heart_rate: match point.cumulative_avg_heart_rate {
            Some(v) => Some(v as u64),
            None => None,
        },
        max_heart_rate: match point.cumulative_max_heart_rate {
            Some(v) => Some(v as u64 * 1000),
            None => None,
        },
        avg_power: match point.cumulative_avg_power {
            Some(v) => Some(v as u64),
            None => None,
        },
        max_power: match point.cumulative_max_power {
            Some(v) => Some(v as u64 * 1000),
            None => None,
        },
    }
}

/// The blend of two amounts that may be unknown: of two known amounts
/// their interpolation, else the known one.
pub open spec fn blend_optional(a: Option<u64>, b: Option<u64>, num: int, den: int) -> Option<u64> {
    match (a, b) {
        (Some(x), Some(y)) => Some(lerp(x as int, y as int, num, den) as u64),
        (Some(x), None) => Some(x),
        (None, Some(y)) => Some(y),
        (None, None) => None,
    }
}

/// Interpolates between two amounts.
fn blend_amount(a: u64, b: u64, num: u64, den: u64) -> (r: u64)
    requires
        0 <= num <= den,
        0 < den <= UNIT,
    ensures
        r == lerp(a as int, b as int, num as int, den as int),
{
    proof {
        lemma_lerp_bounds(a as int, b as int, num as int, den as int);
        crate::fixed::lemma_product_bounds(
            b - a,
            num as int,
            0xFFFF_FFFF_FFFF_FFFF,
            1_000_000,
        );
    }
    let delta: i128 = (b as i128 - a as i128) * (num as i128);
    (a as i128 + crate::fixed::divide_toward_zero(delta, den as u128)) as u64
}

/// Interpolates between two amounts that may be unknown.
pub fn interpolate_optional(a: Option<u64>, b: Option<u64>, num: u64, den: u64) -> (r: Option<u64>)
    requires
        0 <= num <= den,
        0 < den <= UNIT,
    ensures
        r == blend_optional(a, b, num as int, den as int),
{
    match (a, b) {
        (Some(x), Some(y)) => Some(blend_amount(x, y, num, den)),
        (Some(x), None) => Some(x),
        (None, Some(y)) => Some(y),
        (None, None) => None,
    }
}

/// The telemetry at progress `p` between two route points, at the share
/// `(p - a.progress) / (b.progress - a.progress)` of the way from `a` to
/// `b` (none of it where `p` lies before `a`). The progress of a point
/// counts as one whole at most.
pub open spec fn telemetry_between(a: RoutePoint, b: RoutePoint, p: int) -> ProgressTelemetry {
    let den = progress_of(b) - progress_of(a);
    let num = clamp_int(p - progress_of(a), 0, den);
    let from = point_telemetry(a);
    let to = point_telemetry(b);
    ProgressTelemetry {
        distance_mm: lerp(from.distance_mm as int, to.distance_mm as int, num, den) as u64,
        elevation_gain_mm: lerp(
            from.elevation_gain_mm as int,
            to.elevation_gain_mm as int,
            num,
            den,
        ) as u64,
        elapsed_seconds: blend_optional(from.elapsed_seconds, to.elapsed_seconds, num, den),
        avg_heart_rate: blend_optional(from.avg_heart_rate, to.avg_heart_rate, num, den),
        max_heart_rate: blend_optional(from.max_heart_rate, to.max_heart_rate, num, den),
        avg_power: blend_optional(from.avg_power, to.avg_power, num, den),
        max_power: blend_optional(from.max_power, to.max_power, num, den),
    }
}

/// The telemetry at progress `p`, searched from segment `idx` on: that
/// between the points of the first segment along which the progress grows
/// and which does not end before `p`; the last point's where there is none.
pub open spec fn telemetry_from(points: Seq<RoutePoint>, p: int, idx: int) -> ProgressTelemetry
    decreases points.len() - idx,
{
    if idx < 0 || idx >= points.len() - 1 {
        point_telemetry(points.last())
    } else {
        let current = points[idx];
        let next = points[idx + 1];
        if progress_of(next) <= progress_of(current) || progress_of(next) < p {
            telemetry_from(points, p, idx + 1)
        } else {
            telemetry_between(current, next, p)
        }
    }
}

/// The telemetry of a route at a progress in millionths: the first point's
/// at zero, the last point's at one whole, between them interpolated
/// between the points around the progress. None for a route without points.
pub open spec fn telemetry_at_progress(points: Seq<RoutePoint>, progress: int) -> Option<
    ProgressTelemetry,
> {
    let p = clamp_int(progress, 0, UNIT as int);
    if points.len() == 0 {
        None
    } else if p <= 0 {
        Some(point_telemetry(points[0]))
    } else if p >= UNIT {
        Some(point_telemetry(points.last()))
    } else {
        Some(telemetry_from(points, p, 0))
    }
}

/// Reads the telemetry of a route at a progress.
pub fn sample_route_telemetry(data: &VizData, progress: u64) -> (sample: Option<ProgressTelemetry>)
    ensures
        sample == telemetry_at_progress(data.points@, progress as int),
{
    let n = data.points.len();
    if n == 0 {
        return None;
    }
    let p: u64 = if progress > UNIT {
        UNIT
    } else {
        progress
    };
    if p == 0 {
        return Some(telemetry_from_point(&data.points[0]));
    }
    if p >= UNIT {
        return Some(telemetry_from_point(&data.points[n - 1]));
    }
    let mut idx: usize = 0;
    while idx < n - 1
        invariant
            0 <= idx <= n - 1,
            1 <= n == data.points@.len(),
            0 < p < UNIT,
            telemetry_at_progress(data.points@, progress as int) == Some(
                telemetry_from(data.points@, p as int, idx as int),
            ),
        decreases n - idx,
    {
        let current = &data.points[idx];
        let next = &data.points[idx + 1];
        let here: u64 = if current.route_progress > UNIT {
            UNIT
        } else {
            current.route_progress
        };
        let there: u64 = if next.route_progress > UNIT {
            UNIT
        } else {
            next.route_progress
        };
        if there <= here || there < p {
            idx = idx + 1;
            continue ;
        }
        let den: u64 = there - here;
        let num: u64 = if p <= here {
            0
        } else {
            p - here
        };
        let from = telemetry_from_point(current);
        let to = telemetry_from_point(next);
        return Some(
            ProgressTelemetry {
                distance_mm: blend_amount(from.distance_mm, to.distance_mm, num, den),
                elevation_gain_mm: blend_amount(
                    from.elevation_gain_mm,
                    to.elevation_gain_mm,
                    num,
                    den,
                ),
                elapsed_seconds: interpolate_optional(
                    from.elapsed_seconds,
                    to.elapsed_seconds,
                    num,
                    den,
                ),
                avg_heart_rate: interpolate_optional(
                    from.avg_heart_rate,
                    to.avg_heart_rate,
                    num,
                    den,
                ),
                max_heart_rate: interpolate_optional(
                    from.max_heart_rate,
                    to.max_heart_rate,
                    num,
                    den,
                ),
                avg_power: interpolate_optional(from.avg_power, to.avg_power, num, den),
                max_power: interpolate_optional(from.max_power, to.max_power, num, den),
            },
        );
    }
    Some(telemetry_from_point(&data.points[n - 1]))
}

/// The telemetry of the whole activity, for a route that has no points to
/// read it from.
pub open spec fn whole_telemetry(metrics: Metrics) -> ProgressTelemetry {
    ProgressTelemetry {
        distance_mm: metrics.distance_mm,
        elevation_gain_mm: metrics.elevation_gain_mm,
        elapsed_seconds: if metrics.duration_seconds > 0 {
            Some(metrics.duration_seconds)
        } else {
            None
        },
        avg_heart_rate: match metrics.avg_heart_rate {
            Some(v) => Some((v * 1000) as u64),
            None => None,
        },
        max_heart_rate: match metrics.max_heart_rate {
            Some(v) => Some((v * 1000) as u64),
            None => None,
        },
        avg_power: match metrics.avg_power {
            Some(v) => Some((v * 1000) as u64),
            None => None,
        },
        max_power: match metrics.max_power {
            Some(v) => Some((v * 1000) as u64),
            None => None,
        },
    }
}

/// The telemetry of the whole activity.
pub fn fallback_telemetry(metrics: &Metrics) -> (sample: ProgressTelemetry)
    ensures
        sample == whole_telemetry(*metrics),
{
    ProgressTelemetry {
        distance_mm: metrics.distance_mm,
        elevation_gain_mm: metrics.elevation_gain_mm,
        elapsed_seconds: if metrics.duration_seconds > 0 {
            Some(metrics.duration_seconds)
        } else {
            None
        },
        avg_heart_rate: match metrics.avg_heart_rate {
            Some(v) => Some(v as u64 * 1000),
            None => None,
        },
        max_heart_rate: match metrics.max_heart_rate {
            Some(v) => Some(v as u64 * 1000),
            None => None,
        },
        avg_power: match metrics.avg_power {
            Some(v) => Some(v as u64 * 1000),
            None => None,
        },
        max_power: match metrics.max_power {
            Some(v) => Some(v as u64 * 1000),
            None => None,
        },
    }
}

/// `value / unit`, rounded to the nearest whole number.
pub open spec fn rounded(value: int, unit: int) -> int {
    (value + unit / 2) / unit
}

/// The mean speed in tenths of a kilometre per hour over a distance in
/// millimetres and a time in seconds, rounded; zero without time.
pub open spec fn speed_tenths(distance_mm: int, seconds: int) -> int {
    if seconds > 0 {
        crate::fixed::saturate((distance_mm * 36 + seconds * 500) / (seconds * 1000))
    } else {
        0
    }
}

/// The text of a statistic: the distance in kilometres with one decimal,
/// the duration as a clock time, the gain in whole metres, the mean speed
/// in kilometres per hour with one decimal, heart rates in whole beats per
/// minute and powers in whole watts. None where the activity or the
/// telemetry lacks the statistic.
pub open spec fn stat_text(key: Seq<char>, metrics: Metrics, at: ProgressTelemetry) -> Option<
    Seq<char>,
> {
    match stat_key_named(key) {
        Some(StatKey::Distance) => Some(
            crate::text::tenths(rounded(at.distance_mm as int, 100_000) as nat) + " km"@,
        ),
        Some(StatKey::Duration) => match at.elapsed_seconds {
            Some(s) => if metrics.duration_seconds > 0 {
                Some(duration_text(s as nat))
            } else {
                None
            },
            None => None,
        },
        Some(StatKey::ElevationGain) => Some(
            decimal(rounded(at.elevation_gain_mm as int, 1000) as nat) + " m"@,
        ),
        Some(StatKey::AvgSpeed) => match at.elapsed_seconds {
            Some(s) => if metrics.duration_seconds > 0 {
                Some(
                    crate::text::tenths(speed_tenths(at.distance_mm as int, s as int) as nat)
                        + " km/h"@,
                )
            } else {
                None
            },
            None => None,
        },
        Some(StatKey::AvgHeartRate) => match at.avg_heart_rate {
            Some(v) => Some(decimal(rounded(v as int, 1000) as nat) + " bpm"@),
            None => None,
        },
        Some(StatKey::MaxHeartRate) => match at.max_heart_rate {
            Some(v) => Some(decimal(rounded(v as int, 1000) as nat) + " bpm"@),
            None => None,
        },
        Some(StatKey::AvgPower) => match at.avg_power {
            Some(v) => Some(decimal(rounded(v as int, 1000) as nat) + " W"@),
            None => None,
        },
        Some(StatKey::MaxPower) => match at.max_power {
            Some(v) => Some(decimal(rounded(v as int, 1000) as nat) + " W"@),
            None => None,
        },
        None => None,
    }
}

/// Rounds to the nearest multiple of a unit and counts the units.
fn round_to(value: u64, unit: u64) -> (r: u64)
    requires
        unit >= 2,
    ensures
        r == rounded(value as int, unit as int),
{
    proof {
        vstd::arithmetic::div_mod::lemma_div_is_ordered_by_denominator(
            value + unit / 2,
            2,
            unit as int,
        );
    }
    ((value as u128 + (unit / 2) as u128) / unit as u128) as u64
}

/// A rounded amount followed by its unit.
fn amount_text(value: u64, unit: u64, suffix: &str) -> (text: String)
    requires
        unit >= 2,
    ensures
        text@ == decimal(rounded(value as int, unit as int) as nat) + suffix@,
{
    let mut text = String::new();
    push_decimal(&mut text, round_to(value, unit));
    text.append(suffix);
    assert(text@ =~= decimal(rounded(value as int, unit as int) as nat) + suffix@);
    text
}

/// Writes the text of a statistic at a moment of the ride.
pub fn stat_value_for_progress(key: &str, metrics: &Metrics, telemetry: &ProgressTelemetry) -> (text:
    Option<String>)
    ensures
        match (text, stat_text(key@, *metrics, *telemetry)) {
            (Some(t), Some(expected)) => t@ == expected,
            (None, None) => true,
            _ => false,
        },
{
    match parse_stat_key(key) {
        Some(StatKey::Distance) => {
            let mut text = String::new();
            push_tenths(&mut text, round_to(telemetry.distance_mm, 100_000));
            text.append(" km");
            assert(text@ =~= crate::text::tenths(
                rounded(telemetry.distance_mm as int, 100_000) as nat,
            ) + " km"@);
            Some(text)
        },
        Some(StatKey::Duration) => match telemetry.elapsed_seconds {
            Some(s) => if metrics.duration_seconds > 0 {
                Some(format_duration(s))
            } else {
                None
            },
            None => None,
        },
        Some(StatKey::ElevationGain) => Some(amount_text(telemetry.elevation_gain_mm, 1000, " m")),
        Some(StatKey::AvgSpeed) => match telemetry.elapsed_seconds {
            Some(s) => if metrics.duration_seconds > 0 {
                let speed: u64 = if s > 0 {
                    crate::fixed::saturate_u128(
                        (telemetry.distance_mm as u128 * 36 + s as u128 * 500) / (s as u128
                            * 1000),
                    )
                } else {
                    0
                };
                let mut text = String::new();
                push_tenths(&mut text, speed);
                text.append(" km/h");
                assert(text@ =~= crate::text::tenths(
                    speed_tenths(telemetry.distance_mm as int, s as int) as nat,
                ) + " km/h"@);
                Some(text)
            } else {
                None
            },
            None => None,
        },
        Some(StatKey::AvgHeartRate) => match telemetry.avg_heart_rate {
            Some(v) => Some(amount_text(v, 1000, " bpm")),
            None => None,
        },
        Some(StatKey::MaxHeartRate) => match telemetry.max_heart_rate {
            Some(v) => Some(amount_text(v, 1000, " bpm")),
            None => None,
        },
        Some(StatKey::AvgPower) => match telemetry.avg_power {
            Some(v) => Some(amount_text(v, 1000, " W")),
            None => None,
        },
        Some(StatKey::MaxPower) => match telemetry.max_power {
            Some(v) => Some(amount_text(v, 1000, " W")),
            None => None,
        },
        None => None,
    }
}

/// The telemetry that the overlay shows at a progress: that of the route,
/// or of the whole activity for a route without points.
pub open spec fn overlay_telemetry(points: Seq<RoutePoint>, metrics: Metrics, progress: int) -> ProgressTelemetry {
    match telemetry_at_progress(points, progress) {
        Some(sample) => sample,
        None => whole_telemetry(metrics),
    }
}

/// Whether the lines are those of the chosen statistics at a progress:
/// each with the label and the colour of its statistic, and with its text
/// at that moment of the ride, or a dash where it has none.
pub open spec fn items_match(
    items: Seq<StatOverlayItem>,
    specs: Seq<StatOverlaySpec>,
    points: Seq<RoutePoint>,
    metrics: Metrics,
    progress: int,
) -> bool {
    &&& items.len() == specs.len()
    &&& forall|i: int|
        0 <= i < items.len() ==> {
            &&& (#[trigger] items[i]).label@ == specs[i].label@
            &&& items[i].color_t == specs[i].color_t
            &&& items[i].value@ == match stat_text(
                specs[i].key@,
                metrics,
                overlay_telemetry(points, metrics, progress),
            ) {
                Some(text) => text,
                None => "-"@,
            }
        }
}

/// Builds the lines of the overlay for one frame.
pub fn build_stats_overlay_items_at_progress(
    specs: &Vec<StatOverlaySpec>,
    data: &VizData,
    metrics: &Metrics,
    progress: u64,
) -> (items: Vec<StatOverlayItem>)
    ensures
        items_match(items@, specs@, data.points@, *metrics, progress as int),
{
    let mut items: Vec<StatOverlayItem> = Vec::new();
    if specs.len() == 0 {
        return items;
    }
    let telemetry = match sample_route_telemetry(data, progress) {
        Some(sample) => sample,
        None => fallback_telemetry(metrics),
    };
    let mut i: usize = 0;
    while i < specs.len()
        invariant
            0 <= i <= specs@.len(),
            telemetry == overlay_telemetry(data.points@, *metrics, progress as int),
            items@.len() == i,
            forall|j: int|
                0 <= j < i ==> {
                    &&& (#[trigger] items@[j]).label@ == specs@[j].label@
                    &&& items@[j].color_t == specs@[j].color_t
                    &&& items@[j].value@ == match stat_text(specs@[j].key@, *metrics, telemetry) {
                        Some(text) => text,
                        None => "-"@,
                    }
                },
        decreases specs@.len() - i,
    {
        let spec = &specs[i];
        let value = match stat_value_for_progress(spec.key.as_str(), metrics, &telemetry) {
            Some(text) => text,
            None => String::from_str("-"),
        };
        items.push(StatOverlayItem { label: spec.label.clone(), value, color_t: spec.color_t });
        i = i + 1;
    }
    items
}

/// The stops of the gradient that a request names; those of `fire` where
/// the library does not know the name.
pub open spec fn chosen_stops(name: Seq<char>) -> Seq<Seq<char>> {
    match known_stops(name) {
        Some(stops) => seq![stops.0, stops.1, stops.2],
        None => seq!["#FF3366"@, "#FF6600"@, "#FF9933"@],
    }
}

/// The name of the gradient that a request gets: the one it names, or
/// `fire` where the library does not know the name.
pub open spec fn chosen_name(name: Seq<char>) -> Seq<char> {
    if known_stops(name).is_some() {
        name
    } else {
        "fire"@
    }
}

/// What is wrong with the size that a request asks for, if anything.
pub open spec fn size_complaint(width: Option<u32>, height: Option<u32>) -> Option<Seq<char>> {
    match (width, height) {
        (Some(w), Some(h)) => if dimensions_ok(w, h) {
            None
        } else {
            Some(dimensions_complaint(w, h))
        },
        (None, None) => None,
        _ => Some("Both width and height must be provided together"@),
    }
}

/// What a request with an unknown colouring channel is told.
pub open spec fn color_complaint(name: Seq<char>) -> Seq<char> {
    "Invalid color_by: "@ + name + ". Use 'elevation', 'speed', 'heartrate', or 'power'"@
}

/// What is wrong with the style that a request asks for, if anything: its
/// size first, then its colouring channel.
pub open spec fn style_complaint(width: Option<u32>, height: Option<u32>, color_by: Option<String>) -> Option<
    Seq<char>,
> {
    match size_complaint(width, height) {
        Some(text) => Some(text),
        None => match color_by {
            Some(name) => if color_by_named(name@).is_none() {
                Some(color_complaint(name@))
            } else {
                None
            },
            None => None,
        },
    }
}

/// The style of a request, as its fields give it.
#[derive(Debug, Clone)]
pub struct StyleRequest {
    pub gradient: String,
    pub width: Option<u32>,
    pub height: Option<u32>,
    pub color_by: Option<String>,
    /// Stroke width in tenths of a pixel.
    pub stroke_width: u32,
    pub padding: u32,
    pub smoothing: usize,
    pub glow: bool,
}

/// Whether the options are those that a style asks for: the defaults of
/// the route with the named gradient, the size asked for (capped to the
/// frame budget for video), and the stroke, padding, smoothing and glow of
/// the request.
pub open spec fn options_match(options: RenderOptions, style: StyleRequest, video: bool) -> bool {
    let (width, height) = match (style.width, style.height) {
        (Some(w), Some(h)) => (w, h),
        _ => (1920u32, 1080u32),
    };
    &&& if video {
        is_capped_size(width, height, options.width, options.height)
    } else {
        options.width == width && options.height == height
    }
    &&& options.gradient.stops() == chosen_stops(style.gradient@)
    &&& options.gradient.name@ == chosen_name(style.gradient@)
    &&& options.stroke_width == style.stroke_width
    &&& options.padding == style.padding
    &&& options.smoothing == style.smoothing
    &&& options.glow == style.glow
    &&& options.color_by == match style.color_by {
        Some(name) => color_by_named(name@),
        None => None,
    }
    &&& options.simplify == route_params_of(style.smoothing as int).0
    &&& options.curve_tension == route_params_of(style.smoothing as int).1
}

/// Turns the style of a request into render options, or says what is wrong
/// with it. For video the size is capped to the frame budget.
#[verifier::rlimit(40)]
pub fn plan_render_options(style: &StyleRequest, video: bool) -> (result: Result<
    RenderOptions,
    AppError,
>)
    ensures
        match result {
            Ok(options) => style_complaint(style.width, style.height, style.color_by).is_none()
                && options_match(options, *style, video) && options.animation_frames == 72
                && options.animation_duration_ms == 3000,
            Err(AppError::BadRequest(text)) => style_complaint(
                style.width,
                style.height,
                style.color_by,
            ) == Some(text@),
            Err(_) => false,
        },
{
    let mut options = RenderOptions::route_3d_defaults();
    options.gradient = match Gradient::get(style.gradient.as_str()) {
        Some(gradient) => gradient,
        None => Gradient::default(),
    };
    match (style.width, style.height) {
        (Some(width), Some(height)) => {
            match validate_dimensions(width, height) {
                Ok(_) => {},
                Err(e) => {
                    return Err(e);
                },
            }
            options.width = width;
            options.height = height;
        },
        (None, None) => {},
        _ => {
            return Err(
                AppError::BadRequest(
                    String::from_str("Both width and height must be provided together"),
                ),
            );
        },
    }
    if video {
        let (width, height) = cap_mp4_dimensions_to_720p(options.width, options.height);
        options.width = width;
        options.height = height;
    }
    options.stroke_width = style.stroke_width;
    options.padding = style.padding;
    options.smoothing = style.smoothing;
    options.glow = style.glow;
    options.color_by = match &style.color_by {
        Some(name) => match ColorByMetric::from_str(name.as_str()) {
            Some(metric) => Some(metric),
            None => {
                let mut text = String::from_str("Invalid color_by: ");
                text.append(name.as_str());
                text.append(". Use 'elevation', 'speed', 'heartrate', or 'power'");
                return Err(AppError::BadRequest(text));
            },
        },
        None => None,
    };
    let (simplify, curve_tension) = smoothing_to_route_params(style.smoothing);
    options.simplify = simplify;
    options.curve_tension = curve_tension;
    Ok(options)
}

/// Turns the style of a video request into render options with the frames
/// and the length of its frame plan, or says what is wrong with the style.
pub fn plan_video_options(style: &StyleRequest, duration_ms: u64, fps: u32) -> (result: Result<
    (RenderOptions, FramePlan),
    AppError,
>)
    ensures
        match result {
            Ok((options, plan)) => style_complaint(style.width, style.height, style.color_by).is_none()
                && options_match(options, *style, true) && plan == frame_plan_of(duration_ms, fps)
                && options.animation_frames == plan.frame_count && options.animation_duration_ms
                == plan.animation_duration_ms,
            Err(AppError::BadRequest(text)) => style_complaint(
                style.width,
                style.height,
                style.color_by,
            ) == Some(text@),
            Err(_) => false,
        },
{
    match plan_render_options(style, true) {
        Ok(planned) => {
            let plan = plan_frames(duration_ms, fps);
            let mut options = planned;
            options.animation_frames = plan.frame_count;
            options.animation_duration_ms = plan.animation_duration_ms;
            Ok((options, plan))
        },
        Err(e) => Err(e),
    }
}

/// The background of an image: white or black where the request names
/// them, none where it names `transparent` or nothing.
pub open spec fn image_background_of(name: Option<String>) -> Result<
    Option<(u8, u8, u8, u8)>,
    Seq<char>,
> {
    match name {
        None => Ok(None),
        Some(text) => if text@ == "white"@ {
            Ok(Some((255u8, 255u8, 255u8, 255u8)))
        } else if text@ == "black"@ {
            Ok(Some((0u8, 0u8, 0u8, 255u8)))
        } else if text@ == "transparent"@ {
            Ok(None)
        } else {
            Err("Invalid background: "@ + text@ + ". Use 'transparent', 'white', or 'black'"@)
        },
    }
}

/// Reads the background of an image from a request.
pub fn image_background(name: &Option<String>) -> (result: Result<
    Option<(u8, u8, u8, u8)>,
    AppError,
>)
    ensures
        match (result, image_background_of(*name)) {
            (Ok(color), Ok(expected)) => color == expected,
            (Err(AppError::BadRequest(text)), Err(expected)) => text@ == expected,
            _ => false,
        },
{
    match name {
        None => Ok(None),
        Some(text) => {
            if str_eq(text.as_str(), "white") {
                Ok(Some((255, 255, 255, 255)))
            } else if str_eq(text.as_str(), "black") {
                Ok(Some((0, 0, 0, 255)))
            } else if str_eq(text.as_str(), "transparent") {
                Ok(None)
            } else {
                let mut message = String::from_str("Invalid background: ");
                message.append(text.as_str());
                message.append(". Use 'transparent', 'white', or 'black'");
                Err(AppError::BadRequest(message))
            }
        },
    }
}

/// The background of a video: white where the request names it or
/// nothing, black where it names it. A video cannot be transparent.
pub open spec fn video_background_of(name: Option<String>) -> Result<(u8, u8, u8, u8), Seq<char>> {
    match name {
        None => Ok((255u8, 255u8, 255u8, 255u8)),
        Some(text) => if text@ == "white"@ {
            Ok((255u8, 255u8, 255u8, 255u8))
        } else if text@ == "black"@ {
            Ok((0u8, 0u8, 0u8, 255u8))
        } else if text@ == "transparent"@ {
            Err("MP4 export does not support transparent background"@)
        } else {
            Err("Invalid background: "@ + text@ + ". Use 'white' or 'black'"@)
        },
    }
}

/// Reads the background of a video from a request.
pub fn video_background(name: &Option<String>) -> (result: Result<(u8, u8, u8, u8), AppError>)
    ensures
        match (result, video_background_of(*name)) {
            (Ok(color), Ok(expected)) => color == expected,
            (Err(AppError::BadRequest(text)), Err(expected)) => text@ == expected,
            _ => false,
        },
{
    match name {
        None => Ok((255, 255, 255, 255)),
        Some(text) => {
            if str_eq(text.as_str(), "white") {
                Ok((255, 255, 255, 255))
            } else if str_eq(text.as_str(), "black") {
                Ok((0, 0, 0, 255))
            } else if str_eq(text.as_str(), "transparent") {
                Err(
                    AppError::BadRequest(
                        String::from_str("MP4 export does not support transparent background"),
                    ),
                )
            } else {
                let mut message = String::from_str("Invalid background: ");
                message.append(text.as_str());
                message.append(". Use 'white' or 'black'");
                Err(AppError::BadRequest(message))
            }
        },
    }
}

/// The output of an image: the size of the options, the background, and a
/// watermark unless the request comes with a paid license.
pub fn image_output(options: &RenderOptions, background: Option<(u8, u8, u8, u8)>, pro_license: bool) -> (output:
    OutputConfig)
    ensures
        output.width == options.width,
        output.height == options.height,
        output.background == background,
        output.watermark == !pro_license,
{
    OutputConfig {
        width: options.width,
        height: options.height,
        background,
        watermark: !pro_license,
    }
}

/// The output of a video frame: the size of the options on a background,
/// without a watermark.
pub fn video_output(options: &RenderOptions, background: (u8, u8, u8, u8)) -> (output: OutputConfig)
    ensures
        output.width == options.width,
        output.height == options.height,
        output.background == Some(background),
        !output.watermark,
{
    OutputConfig {
        width: options.width,
        height: options.height,
        background: Some(background),
        watermark: false,
    }
}

} // verus!
