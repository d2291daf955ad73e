use rideviz_rs::error::RenderError;
use rideviz_rs::pipeline::render::{
    elevation_shares, filter_route_points, fit_to_viewport, paint_order, precompute_route_3d,
    project_to_isometric, render_svg_frame, render_svg_frame_precomputed,
    reveal_projected_points, route_elevation_bounds, subdivide_projected_catmull, ProjectedPoint,
};
use rideviz_rs::types::viz::{ColorByMetric, RenderOptions, RoutePoint, StatOverlayItem, VizData};

fn route_point(x: i64, y: i64, progress: u64, elevation: Option<i32>) -> RoutePoint {
    RoutePoint {
        x,
        y,
        route_progress: progress,
        cumulative_distance_mm: progress,
        cumulative_elevation_gain_mm: 0,
        elapsed_seconds: None,
        heart_rate: None,
        power: None,
        cumulative_avg_heart_rate: None,
        cumulative_max_heart_rate: None,
        cumulative_avg_power: None,
        cumulative_max_power: None,
        value: None,
        elevation,
    }
}

fn scene_point(x: i64, y: i64, progress: u64, value: Option<i64>) -> ProjectedPoint {
    ProjectedPoint {
        ground_x: x,
        ground_y: y,
        top_x: x,
        top_y: y - 1_000,
        value,
        route_progress: progress,
    }
}

fn sample_data() -> VizData {
    VizData {
        points: vec![
            route_point(0, 0, 0, Some(0)),
            route_point(250_000, 100_000, 200_000, Some(200_000)),
            route_point(500_000, 250_000, 500_000, Some(600_000)),
            route_point(750_000, 900_000, 800_000, Some(300_000)),
            route_point(1_000_000, 1_000_000, 1_000_000, Some(100_000)),
        ],
    }
}

fn options() -> RenderOptions {
    let mut options = RenderOptions::route_3d_defaults();
    options.width = 1080;
    options.height = 1080;
    options.simplify = 1;
    options
}

#[test]
fn simplification_keeps_every_nth_point_and_the_last() {
    let points: Vec<RoutePoint> = (0..8).map(|i| route_point(i, 0, 0, None)).collect();
    let kept = filter_route_points(&points, 3).expect("four points are left");
    let xs: Vec<i64> = kept.iter().map(|p| p.x).collect();
    assert_eq!(xs, vec![0, 3, 6, 7]);
    let all = filter_route_points(&points, 0).expect("a stride of zero counts as one");
    assert_eq!(all.len(), 8);
    let ends = filter_route_points(&points, 100).expect("the ends are left");
    assert_eq!(ends.iter().map(|p| p.x).collect::<Vec<_>>(), vec![0, 7]);
}

#[test]
fn simplification_refuses_fewer_than_two_points() {
    let one = vec![route_point(0, 0, 0, None)];
    let err = filter_route_points(&one, 1).unwrap_err();
    assert_eq!(err, RenderError::SvgError("Not enough route points for 3D route".to_string()));
    assert_eq!(err.message(), "SVG generation failed: Not enough route points for 3D route");
    assert!(filter_route_points(&vec![], 5).is_err());
}

#[test]
fn elevation_bounds_span_the_known_elevations() {
    let data = sample_data();
    assert_eq!(route_elevation_bounds(&data.points), Ok((0, 600_000)));
    let mut partly = data.points.clone();
    partly[0].elevation = None;
    partly[2].elevation = None;
    assert_eq!(route_elevation_bounds(&partly), Ok((100_000, 300_000)));
    let none: Vec<RoutePoint> = (0..3).map(|i| route_point(i, 0, 0, None)).collect();
    assert_eq!(
        route_elevation_bounds(&none),
        Err(RenderError::SvgError("No elevation data available for 3D route".to_string()))
    );
}

#[test]
fn elevation_shares_lie_between_the_bounds() {
    let shares = elevation_shares(&sample_data(), &options()).expect("the route has elevations");
    assert_eq!(shares, vec![0, 333_333, 1_000_000, 500_000, 166_666]);
}

#[test]
fn projection_turns_and_raises_the_points() {
    let points = vec![
        route_point(0, 0, 0, Some(0)),
        route_point(500_000, 250_000, 400_000, Some(600_000)),
        route_point(1_000_000, 1_000_000, 2_000_000, Some(100_000)),
    ];
    let projected =
        project_to_isometric(&points, &vec![0, 1_000_000, 300_000], 40, 0, 600_000);
    assert_eq!(
        (projected[0].ground_x, projected[0].ground_y, projected[0].top_y),
        (500_000_000, 866_025_000, 866_025_000)
    );
    assert_eq!(
        (projected[1].ground_x, projected[1].ground_y, projected[1].top_y),
        (1_171_743_000, 189_518_750, -50_481_250)
    );
    assert_eq!(
        (projected[2].ground_x, projected[2].ground_y, projected[2].top_y),
        (1_593_486_000, -920_000_000, -992_000_000)
    );
    assert_eq!(projected[1].top_x, projected[1].ground_x);
    // A progress beyond one whole counts as one whole.
    assert_eq!(projected[2].route_progress, 1_000_000);
}

#[test]
fn the_fitted_scene_fills_the_viewport() {
    let points = vec![
        route_point(0, 0, 0, Some(0)),
        route_point(500_000, 250_000, 400_000, Some(600_000)),
        route_point(1_000_000, 1_000_000, 1_000_000, Some(100_000)),
    ];
    let projected =
        project_to_isometric(&points, &vec![0, 1_000_000, 300_000], 40, 0, 600_000);
    let fitted = fit_to_viewport(&projected, 40, 1000, 1000).expect("the scene has points");
    let corners: Vec<(i64, i64, i64, i64)> =
        fitted.iter().map(|p| (p.ground_x, p.ground_y, p.top_x, p.top_y)).collect();
    assert_eq!(
        corners,
        vec![
            (24_574, 104_000, 24_574, 104_000),
            (60_727, 67_590, 60_727, 54_673),
            (83_426, 7_875, 83_426, 4_000),
        ]
    );
    for p in &fitted {
        for v in [p.ground_x, p.ground_y, p.top_x, p.top_y] {
            assert!((4_000..=104_000).contains(&v));
        }
    }
    assert_eq!(
        fit_to_viewport(&vec![], 40, 1000, 1000),
        Err(RenderError::SvgError("No projected points".to_string()))
    );
}

#[test]
fn reveal_cuts_the_scene_at_the_progress() {
    let scene = vec![
        scene_point(0, 0, 0, Some(0)),
        scene_point(1_000, 2_000, 250_000, Some(400_000)),
        scene_point(3_000, 2_000, 750_000, None),
        scene_point(4_000, 0, 1_000_000, Some(1_000_000)),
    ];
    assert_eq!(reveal_projected_points(&scene, 0), vec![scene[0]]);
    assert_eq!(reveal_projected_points(&scene, 1_000_000), scene);
    assert_eq!(reveal_projected_points(&scene, 5_000_000), scene);
    let half = reveal_projected_points(&scene, 500_000);
    assert_eq!(half.len(), 3);
    assert_eq!(half[0], scene[0]);
    assert_eq!(half[1], scene[1]);
    assert_eq!(
        half[2],
        ProjectedPoint {
            ground_x: 2_000,
            ground_y: 2_000,
            top_x: 2_000,
            top_y: 1_000,
            value: Some(400_000),
            route_progress: 500_000,
        }
    );
    // A progress that meets a point ends the reveal in that point.
    let quarter = reveal_projected_points(&scene, 250_000);
    assert_eq!(quarter, vec![scene[0], scene[1]]);
    let single = vec![scene[0]];
    assert_eq!(reveal_projected_points(&single, 500_000), single);
}

#[test]
fn subdivision_runs_through_the_points() {
    let scene = vec![
        scene_point(0, 0, 0, Some(0)),
        scene_point(4_000, 4_000, 400_000, Some(400_000)),
        scene_point(8_000, 0, 1_000_000, Some(800_000)),
    ];
    // Without curvature the curve is the polyline, sampled four times a segment.
    let straight = subdivide_projected_catmull(&scene, 0, 4);
    let xs: Vec<i64> = straight.iter().map(|p| p.ground_x).collect();
    assert_eq!(xs.len(), 8);
    assert_eq!(xs[0], 0);
    assert_eq!(*xs.last().unwrap(), 8_000);
    // Step t of the Hermite curve without tangents lies at 3t^2 - 2t^3.
    assert_eq!(xs[1], 625);
    assert_eq!(xs[2], 2_000);
    assert_eq!(xs[3], 3_375);
    assert_eq!(straight[1].route_progress, 100_000);
    let curved = subdivide_projected_catmull(&scene, 250_000, 4);
    assert_eq!(curved.len(), 8);
    assert_eq!(curved[0], scene[0]);
    assert_eq!(curved[7], scene[2]);
    // Two points, or a single piece, leave the scene as it is.
    let two = vec![scene[0], scene[1]];
    assert_eq!(subdivide_projected_catmull(&two, 250_000, 4), two);
    assert_eq!(subdivide_projected_catmull(&scene, 250_000, 1), scene);
}

#[test]
fn walls_are_painted_back_to_front() {
    assert_eq!(paint_order(&vec![30, 10, 20, 10, 40]), vec![1, 3, 2, 0, 4]);
    assert_eq!(paint_order(&vec![]), Vec::<usize>::new());
    assert_eq!(paint_order(&vec![5, 5, 5]), vec![0, 1, 2]);
}

#[test]
fn a_scene_is_refused_for_the_first_thing_that_is_wrong() {
    let data = sample_data();
    let lifts = vec![0, 300_000, 1_000_000, 500_000, 100_000];
    let mut narrow = options();
    narrow.padding = 540;
    assert_eq!(
        precompute_route_3d(&data, &narrow, &lifts).unwrap_err(),
        RenderError::SvgError("Invalid viewport size".to_string())
    );
    let mut coarse = options();
    coarse.simplify = 10;
    assert!(precompute_route_3d(&data, &coarse, &vec![0, 0]).is_ok());
    let one = VizData { points: vec![data.points[0]] };
    assert_eq!(
        precompute_route_3d(&one, &options(), &vec![0]).unwrap_err(),
        RenderError::SvgError("Not enough route points for 3D route".to_string())
    );
    let mut flat = data.clone();
    for p in flat.points.iter_mut() {
        p.elevation = None;
    }
    assert_eq!(
        precompute_route_3d(&flat, &options(), &lifts).unwrap_err(),
        RenderError::SvgError("No elevation data available for 3D route".to_string())
    );
    let mut far = data.clone();
    far.points[1].x = i64::MAX;
    assert_eq!(
        precompute_route_3d(&far, &options(), &lifts).unwrap_err(),
        RenderError::SvgError("Route coordinates out of range".to_string())
    );
    assert_eq!(
        precompute_route_3d(&data, &options(), &vec![0, 1]).unwrap_err(),
        RenderError::SvgError("Elevation lifts do not match the route".to_string())
    );
}

#[test]
fn a_frame_is_a_complete_document() {
    let data = sample_data();
    let lifts = vec![0, 300_000, 1_000_000, 500_000, 100_000];
    let stats = vec![StatOverlayItem {
        label: "DIST".to_string(),
        value: "12.3 km".to_string(),
        color_t: 500_000,
    }];
    let svg = render_svg_frame(&data, &options(), 1_000_000, &stats, &lifts).expect("a scene");
    assert!(svg.starts_with(
        "<svg xmlns=\"http://www.w3.org/2000/svg\" width=\"1080\" height=\"1080\" viewBox=\"0 0 1080 1080\">"
    ));
    assert!(svg.ends_with("\n</svg>"));
    assert!(svg.contains("<linearGradient id=\"routeGradient\" x1=\"0%\" y1=\"0%\" x2=\"100%\" y2=\"0%\">"));
    assert!(svg.contains("<stop offset=\"0.0%\" style=\"stop-color:#FF3366;stop-opacity:1\" />"));
    assert!(svg.contains("<stop offset=\"50.0%\" style=\"stop-color:#FF6600;stop-opacity:1\" />"));
    assert!(svg.contains("<stop offset=\"100.0%\" style=\"stop-color:#FF9933;stop-opacity:1\" />"));
    assert!(svg.contains("<filter id=\"glow\""));
    // Five points become 14 curve points, with a wall between each two.
    assert_eq!(svg.matches("<polygon points=").count(), 13);
    assert!(svg.contains("fill-opacity=\"0.24\"/>"));
    assert!(svg.contains("stroke=\"#FFFFFF\" stroke-opacity=\"0.14\" stroke-width=\"2.7\""));
    assert!(svg.contains("stroke=\"#FFFFFF\" stroke-opacity=\"0.55\" stroke-width=\"4.5\""));
    assert!(svg.contains("stroke=\"url(#routeGradient)\" stroke-width=\"3.0\""));
    assert!(svg.contains("stroke-width=\"7.2\" stroke-linecap=\"round\" stroke-linejoin=\"round\" filter=\"url(#glow)\" opacity=\"0.6\"/>"));
    assert_eq!(svg.matches("<circle ").count(), 2);
    assert!(svg.contains("r=\"6.60\" fill=\"#FF3366\" opacity=\"0.95\"/>"));
    assert!(svg.contains("r=\"6.60\" fill=\"#FF9933\" opacity=\"0.95\"/>"));
    assert!(svg.contains("<g id=\"statsOverlay\"><text x=\"54.00\" y=\"68.00\""));
    assert!(svg.contains("font-size=\"17.62\" font-weight=\"600\" letter-spacing=\"0.2\" fill=\"#FF6600\" fill-opacity=\"0.78\">DIST</text>"));
    assert!(svg.contains("<text x=\"212.11\" y=\"68.00\" font-family=\"Geist Sans, Geist, DejaVu Sans, sans-serif\" font-size=\"25.92\" font-weight=\"700\" fill=\"#FF6600\">12.3 km</text></g>"));
}

#[test]
fn rendering_twice_gives_the_same_document() {
    let data = sample_data();
    let lifts = vec![0, 300_000, 1_000_000, 500_000, 100_000];
    let mut coloured = options();
    coloured.color_by = Some(ColorByMetric::Elevation);
    let first = render_svg_frame(&data, &coloured, 600_000, &vec![], &lifts).expect("a scene");
    let second = render_svg_frame(&data, &coloured, 600_000, &vec![], &lifts).expect("a scene");
    assert_eq!(first, second);
    let scene = precompute_route_3d(&data, &coloured, &lifts).expect("a scene");
    let third = render_svg_frame_precomputed(&scene, &coloured, 600_000, &vec![]);
    assert_eq!(first, third);
    // Without colour values every segment falls back on its place in the
    // series, so the stroke is drawn in several colours.
    assert!(first.matches("<path d=\"M ").count() > 3);
    assert!(first.contains("<g filter=\"url(#glow)\" opacity=\"0.6\">"));
}

#[test]
fn a_frame_at_zero_progress_shows_no_route() {
    let data = sample_data();
    let lifts = vec![0, 300_000, 1_000_000, 500_000, 100_000];
    let svg = render_svg_frame(&data, &options(), 0, &vec![], &lifts).expect("a scene");
    assert_eq!(svg.matches("<polygon").count(), 0);
    assert_eq!(svg.matches("<circle").count(), 0);
    assert!(!svg.contains("<filter id=\"glow\""));
    assert!(!svg.contains("statsOverlay"));
}

#[test]
fn walls_lie_where_the_projection_puts_them() {
    // The corners of the thirteen walls of the sample route, back to front,
    // in hundredths of a pixel, as the projection formulas give them.
    let expected: Vec<i64> = vec![80524, 9631, 80524, 5927, 83694, 4000, 83694, 6999, 74301, 14870, 74301, 9774, 80524, 5927, 80524, 9631, 68045, 20472, 68045, 13937, 74301, 9774, 74301, 14870, 63853, 31671, 63853, 23201, 68045, 13937, 68045, 20472, 62758, 45687, 62758, 35273, 63853, 23201, 63853, 31671, 61676, 59722, 61676, 47467, 62758, 35273, 62758, 45687, 57867, 71269, 57867, 59400, 61676, 47467, 61676, 59722, 52260, 77468, 52260, 68119, 57867, 59400, 57867, 71269, 46527, 83450, 46527, 76711, 52260, 68119, 52260, 77468, 39697, 90080, 39697, 85827, 46527, 76711, 46527, 83450, 33470, 95732, 33470, 93216, 39697, 85827, 39697, 90080, 27390, 101219, 27390, 100374, 33470, 93216, 33470, 95732, 24306, 104000, 24306, 104000, 27390, 100374, 27390, 101219];
    let data = sample_data();
    let lifts = vec![0, 406_219, 1_000_000, 566_442, 230_100];
    let svg = render_svg_frame(&data, &options(), 1_000_000, &vec![], &lifts).expect("a scene");
    let mut corners: Vec<i64> = Vec::new();
    for polygon in svg.split("<polygon points=\"").skip(1) {
        let list = polygon.split('"').next().expect("a list of points");
        for number in list.split(|c| c == ',' || c == ' ') {
            let (whole, fraction) = number.split_once('.').expect("two decimals");
            let value: i64 = whole.parse::<i64>().expect("a number") * 100
                + fraction.parse::<i64>().expect("a number");
            corners.push(value);
        }
    }
    assert_eq!(corners.len(), expected.len());
    for (found, wanted) in corners.iter().zip(expected.iter()) {
        assert!((found - wanted).abs() <= 3, "{found} is not near {wanted}");
    }
}

#[test]
fn the_ground_line_is_nine_tenths_of_the_stroke() {
    let data = sample_data();
    let lifts = vec![0, 300_000, 1_000_000, 500_000, 100_000];
    let mut thin = options();
    thin.stroke_width = 10;
    let svg = render_svg_frame(&data, &thin, 1_000_000, &[].to_vec(), &lifts).expect("a scene");
    assert!(svg.contains("stroke=\"#FFFFFF\" stroke-opacity=\"0.14\" stroke-width=\"0.9\""));
    assert!(svg.contains("stroke=\"#FFFFFF\" stroke-opacity=\"0.55\" stroke-width=\"1.5\""));
    assert!(svg.contains("stroke=\"url(#routeGradient)\" stroke-width=\"1.0\""));
}
