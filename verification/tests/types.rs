use rideviz_rs::config::{Config, Variables};
use rideviz_rs::types::activity::FileFormat;
use rideviz_rs::types::gradient::{format_color, lerp_u8, parse_hex_color, Gradient};
use rideviz_rs::types::viz::{ColorByMetric, RenderOptions, VizType};

#[test]
fn formats_are_told_by_extension() {
    assert_eq!(FileFormat::from_filename("ride.gpx"), Some(FileFormat::Gpx));
    assert_eq!(FileFormat::from_filename("RIDE.GPX"), Some(FileFormat::Gpx));
    assert_eq!(FileFormat::from_filename("morning.ride.Fit"), Some(FileFormat::Fit));
    assert_eq!(FileFormat::from_filename("fit"), Some(FileFormat::Fit));
    assert_eq!(FileFormat::from_filename(".gpx"), Some(FileFormat::Gpx));
    assert_eq!(FileFormat::from_filename("ride.txt"), None);
    assert_eq!(FileFormat::from_filename("ride.gpx."), None);
    assert_eq!(FileFormat::from_filename("ride.gpx.bak"), None);
    assert_eq!(FileFormat::from_filename("ridegpx"), None);
    assert_eq!(FileFormat::from_filename(""), None);
    assert_eq!(FileFormat::from_filename("ride.gpx "), None);
}

#[test]
fn chart_kinds_have_names() {
    assert_eq!(VizType::from_str("route"), Some(VizType::Route));
    assert_eq!(VizType::from_str("Elevation"), Some(VizType::Elevation));
    assert_eq!(VizType::from_str("HEARTRATE"), Some(VizType::HeartRate));
    assert_eq!(VizType::from_str("heart_rate"), Some(VizType::HeartRate));
    assert_eq!(VizType::from_str("power"), Some(VizType::Power));
    assert_eq!(VizType::from_str("speed"), None);
    assert_eq!(VizType::from_str(""), None);
    for kind in [VizType::Route, VizType::Elevation, VizType::HeartRate, VizType::Power] {
        assert_eq!(VizType::from_str(kind.as_str()), Some(kind));
    }
    assert_eq!(VizType::HeartRate.as_str(), "heartrate");
    assert_eq!(ColorByMetric::from_str("Speed"), Some(ColorByMetric::Speed));
    assert_eq!(ColorByMetric::from_str("elevation"), Some(ColorByMetric::Elevation));
    assert_eq!(ColorByMetric::from_str("heartrate"), Some(ColorByMetric::HeartRate));
    assert_eq!(ColorByMetric::from_str("power"), Some(ColorByMetric::Power));
    assert_eq!(ColorByMetric::from_str("route"), None);
}

#[test]
fn gradients_are_known_by_name() {
    let expected = [
        ("fire", ["#FF3366", "#FF6600", "#FF9933"]),
        ("ocean", ["#0055FF", "#0099DD", "#00D1FF"]),
        ("sunset", ["#FF2D55", "#FF7E5F", "#FEB47B"]),
        ("forest", ["#1D976C", "#4CD964", "#93F9B9"]),
        ("violet", ["#FF0080", "#8E2DE2", "#4A00E0"]),
        ("rideviz", ["#00C2FF", "#00EABD", "#00FF94"]),
        ("white", ["#FFFFFF", "#FFFFFF", "#FFFFFF"]),
        ("black", ["#000000", "#000000", "#000000"]),
    ];
    for (name, colors) in expected {
        let gradient = Gradient::get(name).expect("a known gradient");
        assert_eq!(gradient.name, name);
        assert_eq!(gradient.colors, colors.to_vec());
    }
    assert!(Gradient::get("Fire").is_none());
    assert!(Gradient::get("").is_none());
    let default = Gradient::default();
    assert_eq!(default.name, "fire");
    assert_eq!(default.colors, vec!["#FF3366", "#FF6600", "#FF9933"]);
}

#[test]
fn colours_are_read_and_written_in_hexadecimal() {
    assert_eq!(parse_hex_color("#FF3366"), Some((255, 51, 102)));
    assert_eq!(parse_hex_color("00d1ff"), Some((0, 209, 255)));
    assert_eq!(parse_hex_color("##a0B1c2"), Some((160, 177, 194)));
    assert_eq!(parse_hex_color("#FFF"), None);
    assert_eq!(parse_hex_color("#GG0000"), None);
    assert_eq!(parse_hex_color("#FF33667"), None);
    assert_eq!(parse_hex_color(""), None);
    assert_eq!(parse_hex_color("#+a0f+1"), Some((10, 15, 1)));
    assert_eq!(parse_hex_color("#-a0f01"), None);
    assert_eq!(parse_hex_color("#a+0f01"), None);
    assert_eq!(format_color(255, 51, 102), "#FF3366");
    assert_eq!(format_color(0, 9, 160), "#0009A0");
}

#[test]
fn channels_are_interpolated_to_the_nearest_value() {
    assert_eq!(lerp_u8(0, 255, 0), 0);
    assert_eq!(lerp_u8(0, 255, 1_000_000), 255);
    assert_eq!(lerp_u8(0, 255, 500_000), 128);
    assert_eq!(lerp_u8(255, 0, 500_000), 128);
    assert_eq!(lerp_u8(51, 102, 250_000), 64);
    assert_eq!(lerp_u8(200, 100, 333_333), 167);
    assert_eq!(lerp_u8(7, 7, 123_456), 7);
}

#[test]
fn gradients_are_interpolated_between_their_stops() {
    let fire = Gradient::default();
    assert_eq!(fire.interpolate(0), "#FF3366");
    assert_eq!(fire.interpolate(500_000), "#FF6600");
    assert_eq!(fire.interpolate(1_000_000), "#FF9933");
    assert_eq!(fire.interpolate(9_000_000), "#FF9933");
    assert_eq!(fire.interpolate(250_000), "#FF4D33");
    assert_eq!(fire.interpolate(750_000), "#FF801A");
    let none = Gradient { name: "none", colors: vec![] };
    assert_eq!(none.interpolate(500_000), "#FFFFFF");
    let one = Gradient { name: "one", colors: vec!["#abcdef"] };
    assert_eq!(one.interpolate(500_000), "#abcdef");
    let broken = Gradient { name: "broken", colors: vec!["#000000", "no colour"] };
    assert_eq!(broken.interpolate(500_000), "#808080");
}

#[test]
fn render_options_have_defaults() {
    let options = RenderOptions::route_3d_defaults();
    assert_eq!((options.width, options.height, options.padding), (1920, 1080, 40));
    assert_eq!(options.stroke_width, 30);
    assert_eq!(options.gradient.name, "fire");
    assert_eq!(options.color_by, None);
    assert_eq!((options.smoothing, options.simplify, options.curve_tension), (30, 10, 135_000));
    assert!(options.glow);
    assert!((8..=180).contains(&options.animation_frames));
    assert!((500..=8000).contains(&options.animation_duration_ms));
    let story = RenderOptions::from_format("story").expect("a known format");
    assert_eq!((story.width, story.height, story.padding, story.stroke_width), (1080, 1920, 80, 40));
    let post = RenderOptions::from_format("post").expect("a known format");
    assert_eq!((post.width, post.height), (1080, 1080));
    let wide = RenderOptions::from_format("wide").expect("a known format");
    assert_eq!((wide.width, wide.height, wide.simplify, wide.curve_tension), (1920, 1080, 5, 300_000));
    assert_eq!(wide.gradient.name, "fire");
    assert_eq!(wide.gradient.colors, vec!["#FF3366", "#FF6600", "#FF9933"]);
    assert_eq!(wide.color_by, None);
    assert_eq!((wide.smoothing, wide.glow), (5, true));
    assert_eq!((wide.animation_frames, wide.animation_duration_ms), (72, 3000));
    assert!(RenderOptions::from_format("square").is_none());
}

#[test]
fn the_service_has_default_settings() {
    let config = Config::default();
    assert_eq!(config.port, 3000);
    assert_eq!(config.max_file_size, 25 * 1024 * 1024);
    assert_eq!(config.cache_ttl, 3600);
    assert_eq!(config.jwt_secret, "dev-insecure-change-me");
    assert_eq!(config.app_base_url, "http://localhost:3000");
    assert_eq!(config.video_export_max_concurrency, 2);
    assert_eq!(config.video_export_queue_timeout, 2);
    assert_eq!(config.video_export_timeout, 120);
    assert_eq!(config.video_export_rate_limit_window, 60);
    assert_eq!(config.video_export_rate_limit_max_requests, 4);
    assert!(config.stripe_secret_key.is_none() && config.strava_client_id.is_none());
}

fn no_variables() -> Variables {
    Variables {
        port: None,
        max_file_size_mb: None,
        cache_ttl_seconds: None,
        jwt_secret: None,
        app_base_url: None,
        video_export_max_concurrency: None,
        video_export_queue_timeout_seconds: None,
        video_export_timeout_seconds: None,
        video_export_rate_limit_window_seconds: None,
        video_export_rate_limit_max_requests: None,
        stripe_allow_mock: None,
        stripe_secret_key: None,
        stripe_webhook_secret: None,
        stripe_price_id: None,
        strava_client_id: None,
        strava_client_secret: None,
        strava_redirect_uri: None,
    }
}

#[test]
fn settings_are_read_from_variables() {
    let defaults = Config::from_variables(no_variables(), false);
    assert_eq!(defaults.port, 3000);
    assert_eq!(defaults.max_file_size, 25 * 1024 * 1024);
    assert_eq!(defaults.cache_ttl, 3600);
    assert_eq!(defaults.jwt_secret, "dev-insecure-change-me");
    assert_eq!(defaults.video_export_rate_limit_max_requests, 4);
    assert!(!defaults.stripe_allow_mock);
    assert!(Config::from_variables(no_variables(), true).stripe_allow_mock);

    let mut set = no_variables();
    set.port = Some("8080".to_string());
    set.max_file_size_mb = Some("2".to_string());
    set.cache_ttl_seconds = Some("one hour".to_string());
    set.jwt_secret = Some("secret".to_string());
    set.video_export_max_concurrency = Some("+8".to_string());
    set.video_export_queue_timeout_seconds = Some("0".to_string());
    set.video_export_timeout_seconds = Some("-5".to_string());
    set.video_export_rate_limit_window_seconds = Some(" 30".to_string());
    set.video_export_rate_limit_max_requests = Some("1".to_string());
    set.stripe_allow_mock = Some("false".to_string());
    set.stripe_price_id = Some("price_1".to_string());
    let config = Config::from_variables(set.clone(), true);
    assert_eq!(config.port, 8080);
    assert_eq!(config.max_file_size, 2 * 1024 * 1024);
    assert_eq!(config.cache_ttl, 3600);
    assert_eq!(config.jwt_secret, "secret");
    assert_eq!(config.app_base_url, "http://localhost:3000");
    assert_eq!(config.video_export_max_concurrency, 8);
    assert_eq!(config.video_export_queue_timeout, 0);
    assert_eq!(config.video_export_timeout, 120);
    assert_eq!(config.video_export_rate_limit_window, 60);
    assert_eq!(config.video_export_rate_limit_max_requests, 1);
    assert!(!config.stripe_allow_mock);
    assert_eq!(config.stripe_price_id, Some("price_1".to_string()));
    set.port = Some("65536".to_string());
    set.stripe_allow_mock = Some("maybe".to_string());
    let odd = Config::from_variables(set, true);
    assert_eq!(odd.port, 3000);
    assert!(odd.stripe_allow_mock);
}
