use rideviz_rs::pipeline::progress::map_linear_progress_to_route;
use rideviz_rs::types::viz::{RoutePoint, VizData};

fn route_point(progress: u64, elapsed: Option<u64>) -> RoutePoint {
    RoutePoint {
        x: 0,
        y: 0,
        route_progress: progress,
        cumulative_distance_mm: 0,
        cumulative_elevation_gain_mm: 0,
        elapsed_seconds: elapsed,
        heart_rate: None,
        power: None,
        cumulative_avg_heart_rate: None,
        cumulative_max_heart_rate: None,
        cumulative_avg_power: None,
        cumulative_max_power: None,
        value: None,
        elevation: None,
    }
}

fn ride() -> VizData {
    // A fast first half and a slow second half.
    VizData {
        points: vec![
            route_point(0, Some(0)),
            route_point(500_000, Some(100)),
            route_point(600_000, Some(100)),
            route_point(1_000_000, Some(400)),
        ],
    }
}

#[test]
fn the_video_keeps_the_pace_of_the_ride() {
    let data = ride();
    assert_eq!(map_linear_progress_to_route(&data, 0), 0);
    // An eighth of the time is half of the first 100 s.
    assert_eq!(map_linear_progress_to_route(&data, 125_000), 250_000);
    assert_eq!(map_linear_progress_to_route(&data, 250_000), 500_000);
    // Half of the time: 100 s into the 300 s from the third to the last point.
    assert_eq!(map_linear_progress_to_route(&data, 500_000), 733_333);
    assert_eq!(map_linear_progress_to_route(&data, 1_000_000), 1_000_000);
    assert_eq!(map_linear_progress_to_route(&data, 7_000_000), 1_000_000);
    let mut last = 0;
    for step in 0..=100 {
        let shown = map_linear_progress_to_route(&data, step * 10_000);
        assert!(shown >= last && shown <= 1_000_000);
        last = shown;
    }
}

#[test]
fn without_times_the_video_runs_evenly() {
    let untimed = VizData { points: vec![route_point(0, None), route_point(1_000_000, None)] };
    assert_eq!(map_linear_progress_to_route(&untimed, 300_000), 300_000);
    assert_eq!(map_linear_progress_to_route(&untimed, 2_000_000), 1_000_000);
    let partly = VizData {
        points: vec![route_point(0, Some(0)), route_point(500_000, None), route_point(1_000_000, Some(50))],
    };
    assert_eq!(map_linear_progress_to_route(&partly, 300_000), 300_000);
    let standing = VizData { points: vec![route_point(0, Some(0)), route_point(1_000_000, Some(0))] };
    assert_eq!(map_linear_progress_to_route(&standing, 300_000), 300_000);
    let single = VizData { points: vec![route_point(700_000, Some(9))] };
    assert_eq!(map_linear_progress_to_route(&single, 300_000), 300_000);
    let empty = VizData { points: vec![] };
    assert_eq!(map_linear_progress_to_route(&empty, 300_000), 300_000);
}

#[test]
fn a_ride_that_starts_late_shows_its_first_point_until_then() {
    let data = VizData {
        points: vec![route_point(100_000, Some(50)), route_point(1_000_000, Some(100))],
    };
    assert_eq!(map_linear_progress_to_route(&data, 0), 100_000);
    assert_eq!(map_linear_progress_to_route(&data, 500_000), 100_000);
    assert_eq!(map_linear_progress_to_route(&data, 750_000), 550_000);
}
