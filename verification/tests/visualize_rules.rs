use rideviz_rs::error::AppError;
use rideviz_rs::pipeline::prepare::RouteTelemetrySample;
use rideviz_rs::routes::upload::{format_name, get_available_visualizations};
use rideviz_rs::routes::visualize::{
    app_error_code, app_error_status_code, build_stats_overlay_items_at_progress,
    build_stats_overlay_specs, cap_mp4_dimensions_to_720p, default_gradient, default_padding,
    default_smoothing, default_stroke_width, default_true, fallback_telemetry, format_duration,
    frame_file_name, frame_file_path, image_background, image_output, plan_frames,
    plan_render_options, plan_video_options, sample_route_telemetry, smoothing_to_route_params, stat_key_to_label,
    stat_value_for_progress, validate_dimensions, video_background, video_output, FramePlan,
    ProgressTelemetry, StyleRequest,
};
use rideviz_rs::types::activity::{AvailableData, FileFormat, Metrics};
use rideviz_rs::types::viz::{ColorByMetric, RoutePoint, VizData};
use rideviz_rs::error::{ParseError, PrepareError, ProcessError, RasterError, RenderError};

fn metrics() -> Metrics {
    Metrics {
        distance_mm: 42_195_000,
        elevation_gain_mm: 512_400,
        duration_seconds: 3_725,
        avg_speed_m_per_h: 40_779,
        avg_heart_rate: Some(142),
        max_heart_rate: Some(181),
        avg_power: None,
        max_power: None,
    }
}

fn available() -> AvailableData {
    AvailableData {
        has_coordinates: true,
        has_elevation: true,
        has_heart_rate: true,
        has_power: false,
    }
}

fn route_point(progress: u64, distance: u64, elapsed: Option<u64>, avg_hr: Option<u32>) -> RoutePoint {
    RoutePoint {
        x: 0,
        y: 0,
        route_progress: progress,
        cumulative_distance_mm: distance,
        cumulative_elevation_gain_mm: distance / 100,
        elapsed_seconds: elapsed,
        heart_rate: None,
        power: None,
        cumulative_avg_heart_rate: avg_hr,
        cumulative_max_heart_rate: avg_hr.map(|v| (v / 1000) as u16 + 10),
        cumulative_avg_power: None,
        cumulative_max_power: None,
        value: None,
        elevation: None,
    }
}

fn style() -> StyleRequest {
    StyleRequest {
        gradient: "ocean".to_string(),
        width: Some(1080),
        height: Some(1920),
        color_by: Some("HeartRate".to_string()),
        stroke_width: 45,
        padding: 60,
        smoothing: 50,
        glow: false,
    }
}

#[test]
fn failures_map_to_status_and_code() {
    let cases: Vec<(AppError, u16, &str, &str)> = vec![
        (AppError::Parse(ParseError::EmptyFile), 400, "bad_request", "No track points found in file"),
        (
            AppError::Parse(ParseError::InvalidGpx("oops".to_string())),
            400,
            "bad_request",
            "Invalid GPX: oops",
        ),
        (
            AppError::Parse(ParseError::InvalidFit("oops".to_string())),
            400,
            "bad_request",
            "Invalid FIT: oops",
        ),
        (
            AppError::Process(ProcessError::InsufficientPoints(0)),
            400,
            "bad_request",
            "Insufficient data points (need at least 2, got 0)",
        ),
        (
            AppError::Prepare(PrepareError::MissingData("power")),
            400,
            "bad_request",
            "No power data available in this activity",
        ),
        (AppError::BadRequest("x".to_string()), 400, "bad_request", "Invalid request: x"),
        (AppError::NotFound("abc".to_string()), 404, "not_found", "Activity not found: abc"),
        (AppError::Unauthorized("no".to_string()), 401, "unauthorized", "Unauthorized: no"),
        (AppError::Internal("boom".to_string()), 500, "internal", "Internal error: boom"),
        (
            AppError::Render(RenderError::SvgError("bad".to_string())),
            500,
            "internal",
            "SVG generation failed: bad",
        ),
        (
            AppError::Raster(RasterError::RenderFailed("bad".to_string())),
            500,
            "internal",
            "PNG rendering failed: bad",
        ),
        (
            AppError::Raster(RasterError::AnimationFailed("bad".to_string())),
            500,
            "internal",
            "Animation rendering failed: bad",
        ),
    ];
    for (err, status, code, message) in cases {
        assert_eq!(app_error_status_code(&err), status);
        assert_eq!(app_error_code(&err), code);
        assert_eq!(err.message(), message);
    }
}

#[test]
fn requests_have_defaults() {
    assert_eq!(default_gradient(), "fire");
    assert_eq!(default_stroke_width(), 30);
    assert_eq!(default_padding(), 40);
    assert_eq!(default_smoothing(), 30);
    assert!(default_true());
}

#[test]
fn dimensions_are_limited() {
    assert_eq!(validate_dimensions(320, 320), Ok(()));
    assert_eq!(validate_dimensions(4096, 2441), Ok(()));
    assert_eq!(validate_dimensions(2500, 4000), Ok(()));
    assert_eq!(
        validate_dimensions(319, 1080),
        Err(AppError::BadRequest(
            "Invalid dimensions: 319x1080. Width/height must be between 320 and 4096".to_string()
        ))
    );
    assert_eq!(
        validate_dimensions(1080, 4097),
        Err(AppError::BadRequest(
            "Invalid dimensions: 1080x4097. Width/height must be between 320 and 4096".to_string()
        ))
    );
    assert_eq!(
        validate_dimensions(4096, 4096),
        Err(AppError::BadRequest(
            "Image too large: 4096x4096 (16.78 MP). Max allowed is 10.0 MP".to_string()
        ))
    );
    assert_eq!(
        validate_dimensions(4096, 2442),
        Err(AppError::BadRequest(
            "Image too large: 4096x2442 (10.00 MP). Max allowed is 10.0 MP".to_string()
        ))
    );
}

#[test]
fn video_frames_are_capped_to_the_720p_budget() {
    assert_eq!(cap_mp4_dimensions_to_720p(1280, 720), (1280, 720));
    assert_eq!(cap_mp4_dimensions_to_720p(1279, 719), (1278, 718));
    assert_eq!(cap_mp4_dimensions_to_720p(0, 0), (0, 0));
    assert_eq!(cap_mp4_dimensions_to_720p(1920, 1080), (1280, 720));
    assert_eq!(cap_mp4_dimensions_to_720p(1080, 1920), (720, 1280));
    assert_eq!(cap_mp4_dimensions_to_720p(4096, 4096), (960, 960));
    assert_eq!(cap_mp4_dimensions_to_720p(1081, 1080), (960, 960));
    // A long, low frame keeps its aspect and stays within the budget.
    assert_eq!(cap_mp4_dimensions_to_720p(3000, 330), (2894, 318));
    assert_eq!(cap_mp4_dimensions_to_720p(4096, 320), (3434, 268));
    assert_eq!(cap_mp4_dimensions_to_720p(2000, 1000), (1358, 678));
    assert_eq!(cap_mp4_dimensions_to_720p(1281, 720), (1280, 720));
    let (w, h) = cap_mp4_dimensions_to_720p(u32::MAX, u32::MAX);
    assert_eq!((w, h), (960, 960));
}

#[test]
fn smoothing_maps_to_stride_and_tension() {
    assert_eq!(smoothing_to_route_params(0), (1, 0));
    assert_eq!(smoothing_to_route_params(30), (10, 135_000));
    assert_eq!(smoothing_to_route_params(50), (16, 225_000));
    assert_eq!(smoothing_to_route_params(100), (30, 450_000));
    assert_eq!(smoothing_to_route_params(1_000_000), (30, 450_000));
}

#[test]
fn durations_are_written_as_clock_times() {
    assert_eq!(format_duration(0), "00:00");
    assert_eq!(format_duration(59), "00:59");
    assert_eq!(format_duration(600), "10:00");
    assert_eq!(format_duration(3_599), "59:59");
    assert_eq!(format_duration(3_600), "1:00:00");
    assert_eq!(format_duration(3_725), "1:02:05");
    assert_eq!(format_duration(360_000), "100:00:00");
}

#[test]
fn frames_are_named_in_order() {
    assert_eq!(frame_file_name(0), "frame_00000.png");
    assert_eq!(frame_file_name(42), "frame_00042.png");
    assert_eq!(frame_file_name(449), "frame_00449.png");
    assert_eq!(frame_file_name(123_456), "frame_123456.png");
    assert_eq!(frame_file_path("/tmp/rideviz-video-1", 7), "/tmp/rideviz-video-1/frame_00007.png");
}

#[test]
fn video_plans_are_clamped() {
    assert_eq!(
        plan_frames(3_000, 24),
        FramePlan { fps: 24, frame_count: 72, animation_duration_ms: 3_000 }
    );
    assert_eq!(
        plan_frames(15_000, 30),
        FramePlan { fps: 30, frame_count: 450, animation_duration_ms: 15_000 }
    );
    assert_eq!(
        plan_frames(1_000, 10),
        FramePlan { fps: 24, frame_count: 72, animation_duration_ms: 3_000 }
    );
    assert_eq!(
        plan_frames(60_000, 60),
        FramePlan { fps: 30, frame_count: 450, animation_duration_ms: 15_000 }
    );
    assert_eq!(
        plan_frames(4_500, 25),
        FramePlan { fps: 25, frame_count: 113, animation_duration_ms: 4_520 }
    );
    assert_eq!(
        plan_frames(3_333, 29),
        FramePlan { fps: 29, frame_count: 97, animation_duration_ms: 3_345 }
    );
}

#[test]
fn a_style_becomes_render_options() {
    let options = plan_render_options(&style(), false).expect("the style is fine");
    assert_eq!((options.width, options.height), (1080, 1920));
    assert_eq!(options.gradient.name, "ocean");
    assert_eq!(options.gradient.colors, vec!["#0055FF", "#0099DD", "#00D1FF"]);
    assert_eq!(options.color_by, Some(ColorByMetric::HeartRate));
    assert_eq!(options.stroke_width, 45);
    assert_eq!(options.padding, 60);
    assert_eq!(options.smoothing, 50);
    assert!(!options.glow);
    assert_eq!((options.simplify, options.curve_tension), (16, 225_000));
    let video = plan_render_options(&style(), true).expect("the style is fine");
    assert_eq!((video.width, video.height), (720, 1280));
    let mut plain = style();
    plain.width = None;
    plain.height = None;
    plain.color_by = None;
    plain.gradient = "no such gradient".to_string();
    let defaults = plan_render_options(&plain, false).expect("the style is fine");
    assert_eq!((defaults.width, defaults.height), (1920, 1080));
    assert_eq!(defaults.gradient.name, "fire");
    assert_eq!(defaults.color_by, None);
    let capped = plan_render_options(&plain, true).expect("the style is fine");
    assert_eq!((capped.width, capped.height), (1280, 720));
    assert_eq!((capped.animation_frames, capped.animation_duration_ms), (72, 3000));
}

#[test]
fn a_video_style_carries_its_frame_plan() {
    let (options, plan) = plan_video_options(&style(), 9_000, 30).expect("the style is fine");
    assert_eq!(plan, FramePlan { fps: 30, frame_count: 270, animation_duration_ms: 9_000 });
    assert_eq!((options.width, options.height), (720, 1280));
    assert_eq!((options.animation_frames, options.animation_duration_ms), (270, 9_000));
    assert_eq!(options.gradient.name, "ocean");
    let (long, plan) = plan_video_options(&style(), 60_000, 60).expect("the style is fine");
    assert_eq!(plan, FramePlan { fps: 30, frame_count: 450, animation_duration_ms: 15_000 });
    assert_eq!((long.animation_frames, long.animation_duration_ms), (450, 15_000));
    let mut small = style();
    small.width = Some(64);
    assert_eq!(
        plan_video_options(&small, 9_000, 30).unwrap_err(),
        AppError::BadRequest(
            "Invalid dimensions: 64x1920. Width/height must be between 320 and 4096".to_string()
        )
    );
}

#[test]
fn a_style_is_refused_for_the_first_thing_that_is_wrong() {
    let mut half = style();
    half.height = None;
    half.color_by = Some("colour".to_string());
    assert_eq!(
        plan_render_options(&half, false).unwrap_err(),
        AppError::BadRequest("Both width and height must be provided together".to_string())
    );
    let mut small = style();
    small.width = Some(64);
    assert_eq!(
        plan_render_options(&small, true).unwrap_err(),
        AppError::BadRequest(
            "Invalid dimensions: 64x1920. Width/height must be between 320 and 4096".to_string()
        )
    );
    let mut odd = style();
    odd.color_by = Some("colour".to_string());
    assert_eq!(
        plan_render_options(&odd, false).unwrap_err(),
        AppError::BadRequest(
            "Invalid color_by: colour. Use 'elevation', 'speed', 'heartrate', or 'power'"
                .to_string()
        )
    );
}

#[test]
fn backgrounds_are_read_from_the_request() {
    assert_eq!(image_background(&None), Ok(None));
    assert_eq!(image_background(&Some("transparent".to_string())), Ok(None));
    assert_eq!(image_background(&Some("white".to_string())), Ok(Some((255, 255, 255, 255))));
    assert_eq!(image_background(&Some("black".to_string())), Ok(Some((0, 0, 0, 255))));
    assert_eq!(
        image_background(&Some("red".to_string())),
        Err(AppError::BadRequest(
            "Invalid background: red. Use 'transparent', 'white', or 'black'".to_string()
        ))
    );
    assert_eq!(video_background(&None), Ok((255, 255, 255, 255)));
    assert_eq!(video_background(&Some("white".to_string())), Ok((255, 255, 255, 255)));
    assert_eq!(video_background(&Some("black".to_string())), Ok((0, 0, 0, 255)));
    assert_eq!(
        video_background(&Some("transparent".to_string())),
        Err(AppError::BadRequest(
            "MP4 export does not support transparent background".to_string()
        ))
    );
    assert_eq!(
        video_background(&Some("red".to_string())),
        Err(AppError::BadRequest("Invalid background: red. Use 'white' or 'black'".to_string()))
    );
}

#[test]
fn outputs_take_the_size_of_the_options() {
    let options = plan_render_options(&style(), false).expect("the style is fine");
    let free = image_output(&options, None, false);
    assert_eq!((free.width, free.height, free.background, free.watermark), (1080, 1920, None, true));
    let paid = image_output(&options, Some((0, 0, 0, 255)), true);
    assert!(!paid.watermark);
    let video = video_output(&options, (255, 255, 255, 255));
    assert_eq!(video.background, Some((255, 255, 255, 255)));
    assert!(!video.watermark);
}

#[test]
fn uploads_are_answered_with_the_charts_they_allow() {
    assert_eq!(format_name(FileFormat::Gpx), "gpx");
    assert_eq!(format_name(FileFormat::Fit), "fit");
    assert_eq!(get_available_visualizations(&available()), vec!["route", "elevation", "heartrate"]);
    let nothing = AvailableData {
        has_coordinates: false,
        has_elevation: false,
        has_heart_rate: false,
        has_power: true,
    };
    assert_eq!(get_available_visualizations(&nothing), vec!["power"]);
}

#[test]
fn statistics_are_labelled_where_the_activity_has_them() {
    let label = |key: &str| stat_key_to_label(key, &metrics(), &available());
    assert_eq!(label("distance"), Some("DIST".to_string()));
    assert_eq!(label("duration"), Some("DUR".to_string()));
    assert_eq!(label("elevation_gain"), Some("GAIN".to_string()));
    assert_eq!(label("avg_speed"), Some("AVG SPD".to_string()));
    assert_eq!(label("avg_heart_rate"), Some("AVG HR".to_string()));
    assert_eq!(label("max_heart_rate"), Some("MAX HR".to_string()));
    assert_eq!(label("avg_power"), None);
    assert_eq!(label("max_power"), None);
    assert_eq!(label("cadence"), None);
    let mut still = metrics();
    still.duration_seconds = 0;
    assert_eq!(stat_key_to_label("duration", &still, &available()), None);
    assert_eq!(stat_key_to_label("avg_speed", &still, &available()), None);
    let mut powered = metrics();
    powered.avg_power = Some(200);
    powered.max_power = Some(900);
    let mut with_power = available();
    with_power.has_power = true;
    assert_eq!(stat_key_to_label("avg_power", &powered, &with_power), Some("AVG PWR".to_string()));
    assert_eq!(stat_key_to_label("max_power", &powered, &with_power), Some("MAX PWR".to_string()));
}

#[test]
fn the_overlay_shows_each_requested_statistic_once() {
    let keys: Vec<String> = ["distance", "avg_power", "duration", "distance", "max_heart_rate"]
        .iter()
        .map(|k| k.to_string())
        .collect();
    let specs = build_stats_overlay_specs(Some(&keys), &metrics(), &available()).expect("known keys");
    let shown: Vec<(&str, &str, u64)> =
        specs.iter().map(|s| (s.key.as_str(), s.label.as_str(), s.color_t)).collect();
    assert_eq!(
        shown,
        vec![("distance", "DIST", 0), ("duration", "DUR", 500_000), ("max_heart_rate", "MAX HR", 1_000_000)]
    );
    let one = vec!["elevation_gain".to_string()];
    let single = build_stats_overlay_specs(Some(&one), &metrics(), &available()).expect("known key");
    assert_eq!(single[0].color_t, 500_000);
    assert!(build_stats_overlay_specs(None, &metrics(), &available()).expect("nothing asked").is_empty());
    assert!(build_stats_overlay_specs(Some(&vec![]), &metrics(), &available()).expect("nothing asked").is_empty());
    let bad = vec!["distance".to_string(), "pace".to_string(), "speed".to_string()];
    assert_eq!(
        build_stats_overlay_specs(Some(&bad), &metrics(), &available()).unwrap_err(),
        AppError::BadRequest(
            "Invalid stat key: pace. Allowed: distance, duration, elevation_gain, avg_speed, avg_heart_rate, max_heart_rate, avg_power, max_power"
                .to_string()
        )
    );
}

#[test]
fn telemetry_is_interpolated_along_the_route() {
    let data = VizData {
        points: vec![
            route_point(0, 0, Some(0), None),
            route_point(400_000, 4_000_000, Some(100), Some(120_000)),
            route_point(400_000, 4_000_000, Some(160), Some(125_000)),
            route_point(1_000_000, 10_000_000, Some(400), Some(150_000)),
        ],
    };
    assert_eq!(sample_route_telemetry(&VizData { points: vec![] }, 500_000), None);
    let start = sample_route_telemetry(&data, 0).expect("a route");
    assert_eq!((start.distance_mm, start.elapsed_seconds, start.avg_heart_rate), (0, Some(0), None));
    let end = sample_route_telemetry(&data, 2_000_000).expect("a route");
    assert_eq!((end.distance_mm, end.elapsed_seconds), (10_000_000, Some(400)));
    assert_eq!((end.avg_heart_rate, end.max_heart_rate), (Some(150_000), Some(160_000)));
    // A quarter of the way from the first to the second point.
    let early = sample_route_telemetry(&data, 100_000).expect("a route");
    assert_eq!(
        early,
        ProgressTelemetry {
            distance_mm: 1_000_000,
            elevation_gain_mm: 10_000,
            elapsed_seconds: Some(25),
            avg_heart_rate: Some(120_000),
            max_heart_rate: Some(130_000),
            avg_power: None,
            max_power: None,
        }
    );
    // Half of the way from the third to the last point; the segment along
    // which the progress stands still is passed over.
    let late = sample_route_telemetry(&data, 700_000).expect("a route");
    assert_eq!(late.distance_mm, 7_000_000);
    assert_eq!(late.elapsed_seconds, Some(280));
    assert_eq!(late.avg_heart_rate, Some(137_500));
    let whole = fallback_telemetry(&metrics());
    assert_eq!(whole.distance_mm, 42_195_000);
    assert_eq!(whole.elapsed_seconds, Some(3_725));
    assert_eq!(whole.avg_heart_rate, Some(142_000));
    assert_eq!(whole.max_power, None);
}

#[test]
fn statistics_are_written_with_their_units() {
    let telemetry = fallback_telemetry(&metrics());
    let text = |key: &str| stat_value_for_progress(key, &metrics(), &telemetry);
    assert_eq!(text("distance"), Some("42.2 km".to_string()));
    assert_eq!(text("duration"), Some("1:02:05".to_string()));
    assert_eq!(text("elevation_gain"), Some("512 m".to_string()));
    // 42.195 km in 3725 s are 40.78 km/h.
    assert_eq!(text("avg_speed"), Some("40.8 km/h".to_string()));
    assert_eq!(text("avg_heart_rate"), Some("142 bpm".to_string()));
    assert_eq!(text("max_heart_rate"), Some("181 bpm".to_string()));
    assert_eq!(text("avg_power"), None);
    assert_eq!(text("max_power"), None);
    assert_eq!(text("altitude"), None);
    let powered = ProgressTelemetry { avg_power: Some(199_500), max_power: Some(850_499), ..telemetry };
    assert_eq!(stat_value_for_progress("avg_power", &metrics(), &powered), Some("200 W".to_string()));
    assert_eq!(stat_value_for_progress("max_power", &metrics(), &powered), Some("850 W".to_string()));
    let standing = ProgressTelemetry { elapsed_seconds: Some(0), ..telemetry };
    assert_eq!(
        stat_value_for_progress("avg_speed", &metrics(), &standing),
        Some("0.0 km/h".to_string())
    );
}

#[test]
fn overlay_lines_follow_the_progress() {
    let keys: Vec<String> =
        ["distance", "duration", "avg_heart_rate"].iter().map(|k| k.to_string()).collect();
    let specs = build_stats_overlay_specs(Some(&keys), &metrics(), &available()).expect("known keys");
    let data = VizData {
        points: vec![
            route_point(0, 0, Some(0), None),
            route_point(1_000_000, 42_195_000, Some(3_725), Some(142_000)),
        ],
    };
    let items = build_stats_overlay_items_at_progress(&specs, &data, &metrics(), 500_000);
    let lines: Vec<(&str, &str, u64)> =
        items.iter().map(|i| (i.label.as_str(), i.value.as_str(), i.color_t)).collect();
    assert_eq!(
        lines,
        vec![("DIST", "21.1 km", 0), ("DUR", "31:02", 500_000), ("AVG HR", "142 bpm", 1_000_000)]
    );
    let at_start = build_stats_overlay_items_at_progress(&specs, &data, &metrics(), 0);
    assert_eq!(at_start[2].value, "-");
    let empty = VizData { points: vec![] };
    let fallback = build_stats_overlay_items_at_progress(&specs, &empty, &metrics(), 500_000);
    assert_eq!(fallback[0].value, "42.2 km");
    assert!(build_stats_overlay_items_at_progress(&vec![], &data, &metrics(), 500_000).is_empty());
}

#[test]
fn telemetry_samples_compare_by_value() {
    let sample = RouteTelemetrySample {
        route_progress: 1,
        cumulative_distance_mm: 2,
        cumulative_elevation_gain_mm: 3,
        elapsed_seconds: None,
        heart_rate: None,
        power: None,
        cumulative_avg_heart_rate: None,
        cumulative_max_heart_rate: None,
        cumulative_avg_power: None,
        cumulative_max_power: None,
    };
    assert_eq!(sample, sample.clone());
}
