use rideviz_rs::error::PrepareError;
use rideviz_rs::fixed::UNIT;
use rideviz_rs::pipeline::prepare::{
    compute_route_metric_values, compute_route_telemetry, has_speed_samples,
    normalize_optional_values, normalize_route_points, prepare, Geodesy,
};
use rideviz_rs::pipeline::process::compute_metrics;
use rideviz_rs::pipeline::process::detect_available_data;
use rideviz_rs::types::activity::{ProcessedActivity, TrackPoint};
use rideviz_rs::types::viz::{ColorByMetric, RenderOptions};

fn point(lon: i32, elevation: Option<i32>, time: Option<i64>, hr: Option<u16>) -> TrackPoint {
    TrackPoint {
        lat: 500_000_000,
        lon,
        elevation,
        time,
        heart_rate: hr,
        power: None,
        cadence: None,
        temperature: None,
    }
}

fn activity(points: Vec<TrackPoint>, segments: &Vec<u64>) -> ProcessedActivity {
    ProcessedActivity {
        metrics: compute_metrics(&points, segments),
        available_data: detect_available_data(&points),
        points,
    }
}

fn sample_route() -> (ProcessedActivity, Geodesy) {
    let points = vec![
        point(100, Some(10_000), Some(0), Some(100)),
        point(200, Some(20_000), Some(10), Some(120)),
        point(400, Some(15_000), Some(30), None),
        point(500, Some(35_000), Some(40), Some(140)),
    ];
    let segments = vec![1_000, 3_000, 4_000];
    let processed = activity(points, &segments);
    (processed, Geodesy { segments, ordinates: vec![1_000, 1_500, 3_000, 2_000] })
}

#[test]
fn coordinates_are_normalised_to_the_unit_square() {
    let out = normalize_route_points(&vec![(10, -50), (20, 50), (15, 0), (10, 25)]);
    assert_eq!(out, vec![(0, 0), (1_000_000, 1_000_000), (500_000, 500_000), (0, 750_000)]);
    for (x, y) in out {
        assert!((0..=UNIT as i64).contains(&x) && (0..=UNIT as i64).contains(&y));
    }
}

#[test]
fn coordinates_without_range_pass_through() {
    let flat = vec![(10, 7), (20, 7), (30, 7)];
    assert_eq!(normalize_route_points(&flat), flat);
    assert_eq!(normalize_route_points(&vec![]), vec![]);
    let single = vec![(i64::MIN, i64::MAX)];
    assert_eq!(normalize_route_points(&single), single);
}

#[test]
fn coordinates_at_the_ends_of_the_integer_range_are_normalised() {
    let out = normalize_route_points(&vec![(i64::MIN, 0), (i64::MAX, 1), (0, 1)]);
    assert_eq!(out[0], (0, 0));
    assert_eq!(out[1], (1_000_000, 1_000_000));
    assert_eq!(out[2], (500_000, 1_000_000));
}

#[test]
fn route_progress_runs_from_zero_to_one() {
    let (processed, geodesy) = sample_route();
    let telemetry = compute_route_telemetry(&processed.points, &processed.metrics, &geodesy.segments);
    let progress: Vec<u64> = telemetry.iter().map(|s| s.route_progress).collect();
    assert_eq!(progress, vec![0, 125_000, 500_000, 1_000_000]);
    for pair in progress.windows(2) {
        assert!(pair[0] <= pair[1]);
    }
    let distance: Vec<u64> = telemetry.iter().map(|s| s.cumulative_distance_mm).collect();
    assert_eq!(distance, vec![0, 1_000, 4_000, 8_000]);
    // The route gains 10 m and then 20 m.
    let gain: Vec<u64> = telemetry.iter().map(|s| s.cumulative_elevation_gain_mm).collect();
    assert_eq!(gain, vec![0, 9_999, 9_999, 30_000]);
    let elapsed: Vec<Option<u64>> = telemetry.iter().map(|s| s.elapsed_seconds).collect();
    assert_eq!(elapsed, vec![Some(0), Some(10), Some(30), Some(40)]);
    let avg: Vec<Option<u32>> = telemetry.iter().map(|s| s.cumulative_avg_heart_rate).collect();
    assert_eq!(avg, vec![Some(100_000), Some(110_000), Some(110_000), Some(120_000)]);
    let max: Vec<Option<u16>> = telemetry.iter().map(|s| s.cumulative_max_heart_rate).collect();
    assert_eq!(max, vec![Some(100), Some(120), Some(120), Some(140)]);
    assert_eq!(telemetry[2].heart_rate, None);
    assert_eq!(telemetry[3].cumulative_avg_power, None);
}

#[test]
fn a_route_without_length_progresses_by_index() {
    let points = vec![point(1, Some(0), None, None); 5];
    let segments = vec![0, 0, 0, 0];
    let processed = activity(points, &segments);
    let telemetry = compute_route_telemetry(&processed.points, &processed.metrics, &segments);
    let progress: Vec<u64> = telemetry.iter().map(|s| s.route_progress).collect();
    assert_eq!(progress, vec![0, 250_000, 500_000, 750_000, 1_000_000]);
    assert!(telemetry.iter().all(|s| s.elapsed_seconds.is_none()));
    let single = vec![point(1, None, None, None)];
    let one = compute_route_telemetry(&single, &processed.metrics, &vec![]);
    assert_eq!(one[0].route_progress, 1_000_000);
}

#[test]
fn optional_values_are_normalised_between_their_bounds() {
    let out = normalize_optional_values(&vec![Some(10), None, Some(30), Some(15), Some(-10)]);
    assert_eq!(out, vec![Some(500_000), None, Some(1_000_000), Some(625_000), Some(0)]);
    let flat = normalize_optional_values(&vec![Some(7), None, Some(7)]);
    assert_eq!(flat, vec![Some(500_000), None, Some(500_000)]);
    assert_eq!(normalize_optional_values(&vec![None, None]), vec![None, None]);
    assert_eq!(normalize_optional_values(&vec![]), vec![]);
}

#[test]
fn heart_rate_colours_carry_the_last_value() {
    let (processed, geodesy) = sample_route();
    let mut points = processed.points.clone();
    points[3].heart_rate = None;
    // 100, 120, none, none: the last takes its predecessor's, which is none.
    let values = compute_route_metric_values(&points, &geodesy.segments, ColorByMetric::HeartRate);
    assert_eq!(values, vec![Some(0), Some(1_000_000), None, None]);
    points[2].heart_rate = Some(110);
    let carried = compute_route_metric_values(&points, &geodesy.segments, ColorByMetric::HeartRate);
    assert_eq!(carried, vec![Some(0), Some(1_000_000), Some(500_000), Some(500_000)]);
}

#[test]
fn speed_colours_come_from_segment_length_over_time() {
    let (processed, geodesy) = sample_route();
    // 1 m in 10 s, 3 m in 20 s, 4 m in 10 s: 360, 540 and 1440 m/h.
    let values =
        compute_route_metric_values(&processed.points, &geodesy.segments, ColorByMetric::Speed);
    assert_eq!(values, vec![Some(0), Some(166_666), Some(1_000_000), Some(1_000_000)]);
    assert!(has_speed_samples(&processed.points));
    assert!(!has_speed_samples(&vec![point(0, None, Some(5), None), point(0, None, Some(5), None)]));
    assert!(!has_speed_samples(&vec![]));
}

#[test]
fn grade_colours_are_smoothed_and_limited() {
    // Rising 1 m per metre, far beyond the limit of 15 percent.
    let steep: Vec<TrackPoint> =
        (0..4).map(|i| point(i, Some(i * 1_000), None, None)).collect();
    let values =
        compute_route_metric_values(&steep, &vec![1_000, 1_000, 1_000], ColorByMetric::Elevation);
    // Every window averages above the limit: all values agree.
    assert_eq!(values, vec![Some(500_000); 4]);
    // A gentle climb followed by a flat stretch.
    let mut points: Vec<TrackPoint> = (0..12).map(|i| point(i, Some(0), None, None)).collect();
    points[1].elevation = Some(100);
    for p in points.iter_mut().skip(2) {
        p.elevation = Some(100);
    }
    let segments = vec![1_000; 11];
    let values = compute_route_metric_values(&points, &segments, ColorByMetric::Elevation);
    // The raw grade of the first segment is 10 percent. The window of point
    // 0 holds six points, so its mean is 16666 millionths; that of point 5
    // holds eleven, so its mean is 9090; the window of point 11 holds none
    // of the climb.
    assert_eq!(values[0], Some(1_000_000));
    assert_eq!(values[5], Some(545_421));
    assert_eq!(values[11], Some(0));
}

#[test]
fn prepare_builds_the_route() {
    let (processed, geodesy) = sample_route();
    let mut options = RenderOptions::route_3d_defaults();
    options.color_by = Some(ColorByMetric::HeartRate);
    let data = prepare(&processed, &options, &geodesy).expect("all channels are there");
    assert_eq!(data.points.len(), 4);
    let xs: Vec<i64> = data.points.iter().map(|p| p.x).collect();
    let ys: Vec<i64> = data.points.iter().map(|p| p.y).collect();
    assert_eq!(xs, vec![0, 250_000, 750_000, 1_000_000]);
    assert_eq!(ys, vec![0, 250_000, 1_000_000, 500_000]);
    assert_eq!(data.points[0].route_progress, 0);
    assert_eq!(data.points[3].route_progress, 1_000_000);
    assert_eq!(data.points[1].value, Some(500_000));
    assert_eq!(data.points[2].value, None);
    assert_eq!(data.points[3].value, Some(1_000_000));
    assert_eq!(data.points[2].elevation, Some(15_000));
    assert_eq!(data.points[3].elapsed_seconds, Some(40));
    for p in &data.points {
        assert!(p.value.map_or(true, |v| v <= UNIT));
    }
}

#[test]
fn prepare_names_the_missing_channel() {
    let (processed, geodesy) = sample_route();
    let options = RenderOptions::route_3d_defaults();

    let mut no_coordinates = processed.clone();
    no_coordinates.available_data.has_coordinates = false;
    assert_eq!(
        prepare(&no_coordinates, &options, &geodesy).unwrap_err(),
        PrepareError::MissingData("coordinates")
    );

    let mut no_elevation = processed.clone();
    no_elevation.available_data.has_elevation = false;
    let err = prepare(&no_elevation, &options, &geodesy).unwrap_err();
    assert_eq!(err, PrepareError::MissingData("elevation"));
    assert_eq!(err.message(), "No elevation data available in this activity");

    let mut by_power = options.clone();
    by_power.color_by = Some(ColorByMetric::Power);
    assert_eq!(
        prepare(&processed, &by_power, &geodesy).unwrap_err(),
        PrepareError::MissingData("power")
    );

    let mut no_heart_rate = processed.clone();
    no_heart_rate.available_data.has_heart_rate = false;
    let mut by_heart_rate = options.clone();
    by_heart_rate.color_by = Some(ColorByMetric::HeartRate);
    assert_eq!(
        prepare(&no_heart_rate, &by_heart_rate, &geodesy).unwrap_err(),
        PrepareError::MissingData("heart rate")
    );

    let mut untimed = processed.clone();
    for p in untimed.points.iter_mut() {
        p.time = None;
    }
    let mut by_speed = options.clone();
    by_speed.color_by = Some(ColorByMetric::Speed);
    assert_eq!(
        prepare(&untimed, &by_speed, &geodesy).unwrap_err(),
        PrepareError::MissingData("timestamp")
    );

    let mut empty = processed.clone();
    empty.points.clear();
    let nothing = Geodesy { segments: vec![], ordinates: vec![] };
    assert_eq!(
        prepare(&empty, &options, &nothing).unwrap_err(),
        PrepareError::MissingData("coordinates")
    );
}
