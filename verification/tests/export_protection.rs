use rideviz_rs::error::AppError;
use rideviz_rs::license::LicenseClaims;
use rideviz_rs::routes::visualize::{
    admit_export, authorize_export, conclude_export, encoder_arguments, encoder_failure,
    failure_of, supervise_encoder, timeout_failure, EncoderStep, FrameLoop, FrameStep, PermitPool,
    QueueStep, RenderOutcome, TokenCheck,
};
use rideviz_rs::state::VideoExportRateLimiter;

fn claims(sub: &str, pro: bool) -> TokenCheck {
    TokenCheck::Valid(LicenseClaims {
        sub: sub.to_string(),
        email: format!("{sub}@example.com"),
        pro,
        exp: 4_000_000_000,
    })
}

#[test]
fn the_limiter_admits_up_to_the_limit_within_the_window() {
    let mut limiter = VideoExportRateLimiter::new(60_000, 3);
    assert_eq!(limiter.check("rider", 1_000), Ok(()));
    assert_eq!(limiter.check("rider", 2_000), Ok(()));
    assert_eq!(limiter.check("rider", 3_000), Ok(()));
    // The fourth request within the window is denied until the oldest
    // request leaves the window: 60 s after 1 s, seen from 10 s.
    assert_eq!(limiter.check("rider", 10_000), Err(51));
    assert_eq!(limiter.check("rider", 60_500), Err(1));
    assert_eq!(limiter.check("rider", 61_000), Err(1));
    // Another subject has a history of its own.
    assert_eq!(limiter.check("walker", 10_000), Ok(()));
    // Once the oldest request is older than the window, the next is admitted.
    assert_eq!(limiter.check("rider", 61_001), Ok(()));
    assert_eq!(limiter.check("rider", 61_002), Err(1));
}

#[test]
fn a_denied_request_is_not_recorded() {
    let mut limiter = VideoExportRateLimiter::new(10_000, 1);
    assert_eq!(limiter.check("a", 0), Ok(()));
    for now in 1..100 {
        assert!(limiter.check("a", now).is_err());
    }
    // Only the admitted request counts: it leaves the window after 10 s.
    assert_eq!(limiter.check("a", 10_001), Ok(()));
}

#[test]
fn a_limit_of_zero_denies_every_request() {
    let mut limiter = VideoExportRateLimiter::new(60_000, 0);
    for now in 0..50 {
        // Nothing is left in the window: the wait is the whole window.
        assert_eq!(limiter.check("a", now), Err(60));
    }
    let mut short = VideoExportRateLimiter::new(400, 0);
    assert_eq!(short.check("a", 7), Err(1));
    let refused = admit_export(claims("u-none", true), &mut limiter, 0).unwrap_err();
    assert_eq!((refused.status, refused.code), (429, "rate_limited"));
    assert_eq!(refused.retry_after_seconds, Some(60));
    assert_eq!(refused.message, "Too many MP4 export requests. Try again in 60s.");
}

#[test]
fn a_clock_that_runs_backwards_counts_as_no_time_passed() {
    let mut limiter = VideoExportRateLimiter::new(5_000, 1);
    assert_eq!(limiter.check("a", 100_000), Ok(()));
    assert_eq!(limiter.check("a", 50_000), Err(5));
}

#[test]
fn export_without_a_token_is_unauthorized() {
    let failure = authorize_export(TokenCheck::Missing).unwrap_err();
    assert_eq!(failure.status, 401);
    assert_eq!(failure.code, "unauthorized");
    assert_eq!(failure.message, "Missing bearer token");
    assert_eq!(failure.retry_after_seconds, None);
    let invalid = authorize_export(TokenCheck::Invalid).unwrap_err();
    assert_eq!((invalid.status, invalid.message.as_str()), (401, "Invalid license token"));
    let free = authorize_export(claims("u-free", false)).unwrap_err();
    assert_eq!(
        (free.status, free.code, free.message.as_str()),
        (401, "unauthorized", "Pro license required for MP4 export")
    );
    assert_eq!(authorize_export(claims("u-pro", true)).unwrap(), "u-pro");
}

#[test]
fn export_is_rate_limited_by_subject() {
    let mut limiter = VideoExportRateLimiter::new(60_000, 1);
    assert_eq!(admit_export(claims("u-rate", true), &mut limiter, 0).unwrap(), "u-rate");
    let second = admit_export(claims("u-rate", true), &mut limiter, 1_500).unwrap_err();
    assert_eq!(second.status, 429);
    assert_eq!(second.code, "rate_limited");
    assert_eq!(second.retry_after_seconds, Some(58));
    assert_eq!(second.message, "Too many MP4 export requests. Try again in 58s.");
    // A request that is not authorized does not count against the limit.
    let mut fresh = VideoExportRateLimiter::new(60_000, 1);
    assert!(admit_export(TokenCheck::Missing, &mut fresh, 0).is_err());
    assert!(admit_export(claims("u-free", false), &mut fresh, 0).is_err());
    assert!(admit_export(claims("u-free", true), &mut fresh, 0).is_ok());
}

#[test]
fn one_export_too_many_is_turned_away_as_busy() {
    let mut pool = PermitPool::new(2);
    let mut busy = 0;
    for _ in 0..3 {
        match pool.queue_step(0, 0) {
            QueueStep::Admit => {}
            QueueStep::Wait => panic!("nothing waits with a timeout of zero"),
            QueueStep::Busy(failure) => {
                busy += 1;
                assert_eq!(failure.status, 503);
                assert_eq!(failure.code, "export_busy");
                assert_eq!(failure.message, "MP4 export capacity is busy. Try again shortly.");
                assert_eq!(failure.retry_after_seconds, Some(0));
            }
        }
    }
    assert_eq!(busy, 1);
    pool.release();
    assert!(matches!(pool.queue_step(0, 0), QueueStep::Admit));
}

#[test]
fn a_queued_export_waits_until_the_timeout() {
    let mut pool = PermitPool::new(1);
    assert!(pool.try_acquire());
    assert!(!pool.try_acquire());
    assert!(matches!(pool.queue_step(0, 2_500), QueueStep::Wait));
    assert!(matches!(pool.queue_step(2_499, 2_500), QueueStep::Wait));
    match pool.queue_step(2_500, 2_500) {
        QueueStep::Busy(failure) => assert_eq!(failure.retry_after_seconds, Some(2)),
        _ => panic!("the wait is over"),
    }
    pool.release();
    pool.release();
    // Giving back more than was taken makes no permit.
    assert!(pool.try_acquire());
    assert!(!pool.try_acquire());
}

#[test]
fn a_cancelled_frame_loop_renders_nothing() {
    let mut frames = FrameLoop::new(72);
    assert_eq!(frames.advance(true), FrameStep::Cancelled);
    assert_eq!(frames.advance(true), FrameStep::Cancelled);
    // Nothing was handed out: the loop still starts with the first frame.
    assert_eq!(frames.advance(false), FrameStep::Render { index: 0, linear_progress: 0 });
    assert_eq!(frames.advance(true), FrameStep::Cancelled);
    assert_eq!(frames.advance(false), FrameStep::Render { index: 1, linear_progress: 14_084 });
}

#[test]
fn the_frame_loop_hands_out_every_frame_once() {
    let mut frames = FrameLoop::new(5);
    let mut seen = Vec::new();
    loop {
        match frames.advance(false) {
            FrameStep::Render { index, linear_progress } => seen.push((index, linear_progress)),
            FrameStep::Encode => break,
            FrameStep::Cancelled => panic!("nobody cancelled"),
        }
    }
    assert_eq!(
        seen,
        vec![(0, 0), (1, 250_000), (2, 500_000), (3, 750_000), (4, 1_000_000)]
    );
    assert_eq!(frames.advance(false), FrameStep::Encode);
    let mut single = FrameLoop::new(1);
    assert_eq!(single.advance(false), FrameStep::Render { index: 0, linear_progress: 1_000_000 });
    let mut none = FrameLoop::new(0);
    assert_eq!(none.advance(false), FrameStep::Encode);
}

#[test]
fn the_encoder_is_killed_on_cancellation() {
    assert_eq!(supervise_encoder(true, None), EncoderStep::Kill);
    assert_eq!(supervise_encoder(true, Some(true)), EncoderStep::Kill);
    assert_eq!(supervise_encoder(false, None), EncoderStep::Sleep(100));
    assert_eq!(supervise_encoder(false, Some(true)), EncoderStep::Finished(true));
    assert_eq!(supervise_encoder(false, Some(false)), EncoderStep::Finished(false));
}

#[test]
fn the_encoder_is_called_for_h264() {
    assert_eq!(
        encoder_arguments(30, "/tmp/x/frame_%05d.png", "/tmp/x/rideviz-route.mp4"),
        vec![
            "-y", "-hide_banner", "-loglevel", "error", "-framerate", "30", "-i",
            "/tmp/x/frame_%05d.png", "-c:v", "libx264", "-preset", "veryfast", "-pix_fmt",
            "yuv420p", "-movflags", "+faststart", "/tmp/x/rideviz-route.mp4",
        ]
    );
    assert_eq!(
        encoder_failure("no such codec"),
        AppError::Internal("ffmpeg failed to encode MP4: no such codec".to_string())
    );
    assert_eq!(
        encoder_failure(""),
        AppError::Internal("ffmpeg failed to encode MP4: unknown error".to_string())
    );
}

#[test]
fn an_export_ends_in_the_answer_to_its_outcome() {
    let (cancel, failure) = conclude_export(RenderOutcome::Finished, 120);
    assert!(!cancel && failure.is_none());
    let (cancel, failure) = conclude_export(RenderOutcome::DeadlinePassed, 120);
    let failure = failure.expect("a timeout is a failure");
    assert!(cancel);
    assert_eq!(failure.status, 504);
    assert_eq!(failure.code, "export_timeout");
    assert_eq!(
        failure.message,
        "MP4 export timed out after 120s. Try a smaller size or shorter duration."
    );
    assert_eq!(failure.retry_after_seconds, None);
    let (cancel, failure) =
        conclude_export(RenderOutcome::Failed(AppError::NotFound("missing".to_string())), 120);
    let failure = failure.expect("a failure");
    assert!(!cancel);
    assert_eq!((failure.status, failure.code), (404, "not_found"));
    assert_eq!(failure.message, "Activity not found: missing");
    let (_, failure) = conclude_export(RenderOutcome::JoinFailed("panicked".to_string()), 120);
    let failure = failure.expect("a failure");
    assert_eq!((failure.status, failure.code), (500, "internal"));
    assert_eq!(failure.message, "Internal error: Video export task join failed: panicked");
    assert_eq!(timeout_failure(5).status, 504);
    let internal = failure_of(&AppError::Internal("MP4 export cancelled".to_string()));
    assert_eq!((internal.status, internal.code), (500, "internal"));
}

#[test]
fn a_pool_without_permits_turns_every_export_away() {
    let mut pool = PermitPool::new(0);
    assert!(!pool.try_acquire());
    assert!(matches!(pool.queue_step(0, 1_000), QueueStep::Wait));
    match pool.queue_step(1_000, 1_000) {
        QueueStep::Busy(failure) => {
            assert_eq!((failure.status, failure.code), (503, "export_busy"));
            assert_eq!(failure.retry_after_seconds, Some(1));
        }
        _ => panic!("no permit can come free"),
    }
    pool.release();
    assert!(!pool.try_acquire());
}
