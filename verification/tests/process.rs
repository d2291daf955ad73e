use rideviz_rs::error::ProcessError;
use rideviz_rs::pipeline::process::{
    compute_metrics, detect_available_data, downsample, lttb_downsample, process, MAX_POINTS,
};
use rideviz_rs::types::activity::{FileFormat, ParsedActivity, TrackPoint};

fn point(lat: i32, lon: i32, elevation: Option<i32>, time: Option<i64>) -> TrackPoint {
    TrackPoint {
        lat,
        lon,
        elevation,
        time,
        heart_rate: None,
        power: None,
        cadence: None,
        temperature: None,
    }
}

#[test]
fn two_point_activity_has_the_expected_metrics() {
    let t0 = 1_700_000_000;
    let parsed = ParsedActivity {
        points: vec![
            point(525_200_000, 134_050_000, Some(34_000), Some(t0)),
            point(525_205_000, 134_060_000, Some(39_000), Some(t0 + 10)),
        ],
        file_format: FileFormat::Gpx,
    };
    let processed = process(&parsed, &vec![87_573]).expect("two points are enough");
    assert_eq!(processed.points.len(), 2);
    assert_eq!(processed.metrics.distance_mm, 87_573);
    assert_eq!(processed.metrics.elevation_gain_mm, 5_000);
    assert_eq!(processed.metrics.duration_seconds, 10);
    // 87.573 m in 10 s are 31526.28 m/h.
    assert_eq!(processed.metrics.avg_speed_m_per_h, 31_526);
    assert_eq!(processed.metrics.avg_heart_rate, None);
    assert_eq!(processed.metrics.max_power, None);
    assert!(processed.available_data.has_coordinates);
    assert!(processed.available_data.has_elevation);
    assert!(!processed.available_data.has_heart_rate);
    assert!(!processed.available_data.has_power);
}

#[test]
fn fewer_than_two_points_are_refused_with_their_number() {
    let empty = ParsedActivity { points: vec![], file_format: FileFormat::Gpx };
    assert_eq!(process(&empty, &vec![]).unwrap_err(), ProcessError::InsufficientPoints(0));
    let one = ParsedActivity {
        points: vec![point(1, 1, None, None)],
        file_format: FileFormat::Fit,
    };
    assert_eq!(process(&one, &vec![]).unwrap_err(), ProcessError::InsufficientPoints(1));
    assert_eq!(
        ProcessError::InsufficientPoints(1).message(),
        "Insufficient data points (need at least 2, got 1)"
    );
}

#[test]
fn metrics_sum_positive_steps_only() {
    let mut points = vec![
        point(0, 0, Some(100_000), Some(100)),
        point(0, 0, Some(90_000), Some(130)),
        point(0, 0, None, Some(120)),
        point(0, 0, Some(95_000), None),
        point(0, 0, Some(97_500), Some(200)),
    ];
    points[0].heart_rate = Some(100);
    points[1].heart_rate = Some(151);
    points[4].heart_rate = Some(120);
    points[2].power = Some(0);
    let metrics = compute_metrics(&points, &vec![1_000, 2_000, 3_000, 4_000]);
    assert_eq!(metrics.distance_mm, 10_000);
    // Only the last step climbs between two known elevations.
    assert_eq!(metrics.elevation_gain_mm, 2_500);
    // 30 s forward, then a step back, then two steps without a stamp.
    assert_eq!(metrics.duration_seconds, 30);
    assert_eq!(metrics.avg_speed_m_per_h, 1_200);
    assert_eq!(metrics.avg_heart_rate, Some(123));
    assert_eq!(metrics.max_heart_rate, Some(151));
    assert_eq!(metrics.avg_power, Some(0));
    assert_eq!(metrics.max_power, None);
}

#[test]
fn metrics_saturate_instead_of_overflowing() {
    let points = vec![point(0, 0, None, None); 3];
    let metrics = compute_metrics(&points, &vec![u64::MAX, 5]);
    assert_eq!(metrics.distance_mm, u64::MAX);
    assert_eq!(metrics.avg_speed_m_per_h, 0);
}

#[test]
fn channels_are_detected() {
    let mut points = vec![point(0, 0, None, None), point(0, 0, None, None)];
    let none = detect_available_data(&points);
    assert!(!none.has_coordinates && !none.has_elevation && !none.has_heart_rate && !none.has_power);
    points[1].lon = -1;
    points[0].elevation = Some(0);
    points[1].power = Some(250);
    let some = detect_available_data(&points);
    assert!(some.has_coordinates && some.has_elevation && !some.has_heart_rate && some.has_power);
}

#[test]
fn short_series_are_kept_as_they_are() {
    let points: Vec<TrackPoint> =
        (0..1000).map(|i| point(i, -i, Some(i * 10), None)).collect();
    assert_eq!(downsample(&points), points);
    assert_eq!(lttb_downsample(&points, 1000), points);
    assert_eq!(lttb_downsample(&points, 0), points);
}

#[test]
fn long_series_are_reduced_to_the_budget_and_keep_their_ends() {
    let points: Vec<TrackPoint> = (0..2500)
        .map(|i| point(i, 2 * i, Some(((i * 37) % 101) * 1000), None))
        .collect();
    let sampled = downsample(&points);
    assert_eq!(sampled.len(), MAX_POINTS);
    assert_eq!(sampled[0], points[0]);
    assert_eq!(sampled[MAX_POINTS - 1], points[2499]);
    // The samples keep the order of the input: latitudes hold the index.
    for pair in sampled.windows(2) {
        assert!(pair[0].lat < pair[1].lat);
    }
}

#[test]
fn lttb_picks_the_largest_triangle_of_each_bucket() {
    // Six points reduced to four: two buckets of two points each.
    let elevations = [0, 10_000, 1_000, 2_000, 50_000, 0];
    let points: Vec<TrackPoint> = elevations
        .iter()
        .enumerate()
        .map(|(i, e)| point(i as i32, 0, Some(*e), None))
        .collect();
    let sampled = lttb_downsample(&points, 4);
    let kept: Vec<i32> = sampled.iter().map(|p| p.lat).collect();
    // Bucket one holds the points 1 and 2, bucket two the points 3 and 4.
    // Against the first point and the centre of bucket two (index 4, mean
    // elevation 26 m), point 1 spans |-4 * 10 + 1 * 26| = 14 and point 2
    // spans |-4 * 1 + 2 * 26| = 48. Against point 2 and the last point,
    // point 4 spans the larger triangle.
    assert_eq!(kept, vec![0, 2, 4, 5]);
}

#[test]
fn lttb_with_a_threshold_of_two_keeps_the_ends() {
    let points: Vec<TrackPoint> = (0..5).map(|i| point(i, 0, Some(i), None)).collect();
    let sampled = lttb_downsample(&points, 2);
    assert_eq!(sampled, vec![points[0], points[4]]);
}

#[test]
fn lttb_follows_the_shape_of_a_longer_series() {
    let elevations = [
        550_000, 2_331_000, 258_000, 1_044_000, 482_000, 2_029_000, 1_841_000, 1_934_000,
        2_668_000, 1_554_000, 859_000, 384_000, 1_998_000, 116_000, 1_596_000, 1_772_000,
        2_488_000, 8_000, 2_850_000, 1_824_000, 1_090_000, 2_955_000, 937_000, 2_421_000, 418_000,
        1_300_000, 125_000, 91_000, 104_000, 2_660_000, 2_217_000, 37_000, 1_561_000, 2_811_000,
        887_000, 1_728_000, 2_973_000,
    ];
    let points: Vec<TrackPoint> = elevations
        .iter()
        .enumerate()
        .map(|(i, e)| point(i as i32, 0, Some(*e), None))
        .collect();
    let sampled = lttb_downsample(&points, 10);
    let kept: Vec<i32> = sampled.iter().map(|p| p.lat).collect();
    assert_eq!(kept, vec![0, 1, 8, 11, 17, 18, 26, 29, 31, 36]);
}
