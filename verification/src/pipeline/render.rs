//! The three-dimensional scene of a route: simplification, isometric
//! projection with elevation extrusion, fit to the canvas, progressive
//! reveal, curve subdivision and depth order.
//!
//! Positions on the canvas are hundredths of a pixel.

use vstd::prelude::*;
use vstd::string::StringExecFns;
use vstd::arithmetic::div_mod::{lemma_div_is_ordered, lemma_div_multiples_vanish, lemma_div_pos_is_pos};
use crate::error::RenderError;
use crate::fixed::{clamp_int, divide_toward_zero, lemma_product_bounds, lemma_toward_zero_bounds, lemma_toward_zero_monotonic, toward_zero, UNIT};
use crate::fixed::lesser;
use crate::fixed::larger;
use crate::pipeline::svg::{frame_text, render_scene_frame};
use crate::types::viz::{RenderOptions, RoutePoint, StatOverlayItem, VizData};

verus! {

/// Width of the camera that every output size is projected with, in pixels.
pub const CAMERA_WIDTH: i64 = 1920;

/// Height of the camera, in pixels.
pub const CAMERA_HEIGHT: i64 = 1080;

/// Sine of the isometric angle of 30 degrees, in millionths.
pub const SIN_ANGLE: i128 = 500_000;

/// Cosine of the isometric angle of 30 degrees, in millionths.
pub const COS_ANGLE: i128 = 866_025;

/// Share of the camera height that the highest point is raised by, in
/// millionths, before the elevation scale.
pub const EXTRUSION_RATIO: i128 = 240_000;

/// Largest magnitude of a route coordinate that can be projected.
pub const COORD_LIMIT: i64 = 1_099_511_627_776;

/// A point of the scene: where it stands on the ground and where its top is.
#[derive(Debug, Clone, Copy, PartialEq, Eq, Structural)]
pub struct ProjectedPoint {
    pub ground_x: i64,
    pub ground_y: i64,
    pub top_x: i64,
    pub top_y: i64,
    /// Colour value of the segment that starts here, in millionths.
    pub value: Option<i64>,
    /// Share of the route covered up to this point, in millionths.
    pub route_progress: u64,
}

/// The stride that a simplify setting stands for: itself, at least one.
pub open spec fn stride_of(simplify: usize) -> int {
    larger(simplify as int, 1)
}

/// Of the first `k` points, those that are kept: every `stride`-th from the
/// first on, and the last of the whole series.
pub open spec fn simplified_prefix(points: Seq<RoutePoint>, stride: int, k: int) -> Seq<RoutePoint>
    decreases k,
{
    if k <= 0 {
        Seq::empty()
    } else {
        let before = simplified_prefix(points, stride, k - 1);
        if (k - 1) % stride == 0 || k - 1 == points.len() - 1 {
            before.push(points[k - 1])
        } else {
            before
        }
    }
}

/// The points that are kept of a series.
pub open spec fn simplified(points: Seq<RoutePoint>, stride: int) -> Seq<RoutePoint> {
    simplified_prefix(points, stride, points.len() as int)
}

/// What a route with too few points is told.
pub open spec fn too_few_points() -> Seq<char> {
    "Not enough route points for 3D route"@
}

/// Simplifies a route: keeps every `simplify`-th point and the last. A route
/// of which fewer than two points are left is refused.
pub fn filter_route_points(points: &Vec<RoutePoint>, simplify: usize) -> (result: Result<
    Vec<RoutePoint>,
    RenderError,
>)
    ensures
        match result {
            Ok(kept) => kept@ == simplified(points@, stride_of(simplify)) && kept@.len() >= 2,
            Err(RenderError::SvgError(text)) => simplified(points@, stride_of(simplify)).len() < 2
                && text@ == too_few_points(),
        },
{
    let stride: usize = if simplify < 1 {
        1
    } else {
        simplify
    };
    let n = points.len();
    let mut kept: Vec<RoutePoint> = Vec::new();
    let mut i: usize = 0;
    while i < n
        invariant
            0 <= i <= n,
            n == points@.len(),
            stride == stride_of(simplify),
            stride >= 1,
            kept@ == simplified_prefix(points@, stride as int, i as int),
        decreases n - i,
    {
        if i % stride == 0 || i == n - 1 {
            kept.push(points[i]);
        }
        i = i + 1;
    }
    if kept.len() < 2 {
        return Err(RenderError::SvgError(String::from_str("Not enough route points for 3D route")));
    }
    Ok(kept)
}

/// The smallest known elevation among the first `n` points.
pub open spec fn lowest_elevation(points: Seq<RoutePoint>, n: int) -> Option<int>
    decreases n,
{
    if n <= 0 {
        None
    } else {
        let before = lowest_elevation(points, n - 1);
        match (points[n - 1].elevation, before) {
            (Some(e), Some(b)) => Some(lesser(e as int, b)),
            (Some(e), None) => Some(e as int),
            (None, _) => before,
        }
    }
}

/// The largest known elevation among the first `n` points.
pub open spec fn highest_elevation(points: Seq<RoutePoint>, n: int) -> Option<int>
    decreases n,
{
    if n <= 0 {
        None
    } else {
        let before = highest_elevation(points, n - 1);
        match (points[n - 1].elevation, before) {
            (Some(e), Some(b)) => Some(larger(e as int, b)),
            (Some(e), None) => Some(e as int),
            (None, _) => before,
        }
    }
}

/// Known elevations lie between the smallest and the largest, which exist
/// together.
pub proof fn lemma_elevation_bounds(points: Seq<RoutePoint>, n: int, i: int)
    requires
        0 <= n <= points.len(),
    ensures
        lowest_elevation(points, n).is_some() == highest_elevation(points, n).is_some(),
        lowest_elevation(points, n).is_some() ==> -0x8000_0000 <= lowest_elevation(
            points,
            n,
        ).unwrap() <= highest_elevation(points, n).unwrap() < 0x8000_0000,
        0 <= i < n && points[i].elevation.is_some() ==> lowest_elevation(points, n).is_some()
            && lowest_elevation(points, n).unwrap() <= points[i].elevation.unwrap()
            <= highest_elevation(points, n).unwrap(),
    decreases n,
{
    if n > 0 {
        lemma_elevation_bounds(points, n - 1, i);
    }
}

/// What a route without elevations is told.
pub open spec fn no_elevation() -> Seq<char> {
    "No elevation data available for 3D route"@
}

/// The smallest and the largest known elevation of a route. A route without
/// any known elevation is refused.
pub fn route_elevation_bounds(points: &Vec<RoutePoint>) -> (result: Result<(i32, i32), RenderError>)
    ensures
        match result {
            Ok((low, high)) => lowest_elevation(points@, points@.len() as int) == Some(low as int)
                && highest_elevation(points@, points@.len() as int) == Some(high as int) && low
                <= high,
            Err(RenderError::SvgError(text)) => lowest_elevation(
                points@,
                points@.len() as int,
            ).is_none() && text@ == no_elevation(),
        },
{
    let n = points.len();
    let mut low: Option<i32> = None;
    let mut high: Option<i32> = None;
    let mut i: usize = 0;
    while i < n
        invariant
            0 <= i <= n,
            n == points@.len(),
            match low {
                Some(v) => lowest_elevation(points@, i as int) == Some(v as int),
                None => lowest_elevation(points@, i as int).is_none(),
            },
            match high {
                Some(v) => highest_elevation(points@, i as int) == Some(v as int),
                None => highest_elevation(points@, i as int).is_none(),
            },
        decreases n - i,
    {
        if let Some(e) = points[i].elevation {
            low = match low {
                Some(b) => Some(
                    if e < b {
                        e
                    } else {
                        b
                    },
                ),
                None => Some(e),
            };
            high = match high {
                Some(b) => Some(
                    if e > b {
                        e
                    } else {
                        b
                    },
                ),
                None => Some(e),
            };
        }
        i = i + 1;
    }
    proof {
        lemma_elevation_bounds(points@, n as int, 0);
    }
    match (low, high) {
        (Some(l), Some(h)) => Ok((l, h)),
        _ => Err(
            RenderError::SvgError(String::from_str("No elevation data available for 3D route")),
        ),
    }
}

/// How far up between the lowest and the highest elevation a point lies, in
/// millionths; zero where its elevation is unknown or all elevations agree.
pub open spec fn elevation_share(p: RoutePoint, low: int, high: int) -> int {
    match p.elevation {
        Some(e) => if high > low && low <= e <= high {
            ((e - low) * UNIT) / (high - low)
        } else {
            0
        },
        None => 0,
    }
}

/// The elevation share of every point.
pub open spec fn elevation_shares_of(points: Seq<RoutePoint>, low: int, high: int) -> Seq<u64> {
    Seq::new(points.len(), |i: int| elevation_share(points[i], low, high) as u64)
}

/// Computes the elevation share of one point.
fn elevation_share_at(p: &RoutePoint, low: i32, high: i32) -> (share: u64)
    ensures
        share == elevation_share(*p, low as int, high as int),
        share <= UNIT,
{
    match p.elevation {
        Some(e) => {
            if high > low && low <= e && e <= high {
                proof {
                    crate::fixed::lemma_scale_ratio_bounds(
                        e as int - low as int,
                        high as int - low as int,
                        UNIT as int,
                    );
                }
                crate::fixed::ratio_u64(
                    (e as i64 - low as i64) as u64,
                    (high as i64 - low as i64) as u64,
                    UNIT,
                )
            } else {
                0
            }
        },
        None => 0,
    }
}

/// The simplified route and the elevation share of each of its points: what
/// the elevation curve is applied to before the scene is built.
pub fn elevation_shares(data: &VizData, options: &RenderOptions) -> (result: Result<
    Vec<u64>,
    RenderError,
>)
    ensures
        match result {
            Ok(shares) => {
                let kept = simplified(data.points@, stride_of(options.simplify));
                &&& kept.len() >= 2
                &&& lowest_elevation(kept, kept.len() as int).is_some()
                &&& shares@ == elevation_shares_of(
                    kept,
                    lowest_elevation(kept, kept.len() as int).unwrap(),
                    highest_elevation(kept, kept.len() as int).unwrap(),
                )
            },
            Err(RenderError::SvgError(text)) => {
                let kept = simplified(data.points@, stride_of(options.simplify));
                if kept.len() < 2 {
                    text@ == too_few_points()
                } else {
                    lowest_elevation(kept, kept.len() as int).is_none() && text@ == no_elevation()
                }
            },
        },
{
    let kept = match filter_route_points(&data.points, options.simplify) {
        Ok(kept) => kept,
        Err(e) => {
            return Err(e);
        },
    };
    let (low, high) = match route_elevation_bounds(&kept) {
        Ok(bounds) => bounds,
        Err(e) => {
            return Err(e);
        },
    };
    let mut shares: Vec<u64> = Vec::new();
    let mut i: usize = 0;
    while i < kept.len()
        invariant
            0 <= i <= kept@.len(),
            shares@ == elevation_shares_of(kept@, low as int, high as int).subrange(0, i as int),
        decreases kept@.len() - i,
    {
        shares.push(elevation_share_at(&kept[i], low, high));
        assert(shares@ =~= elevation_shares_of(kept@, low as int, high as int).subrange(0, i + 1));
        i = i + 1;
    }
    assert(shares@ =~= elevation_shares_of(kept@, low as int, high as int));
    Ok(shares)
}

/// The side of the camera that is left between the paddings, at least one pixel.
pub open spec fn camera_span(side: int, padding: int) -> int {
    larger(side - 2 * padding, 1)
}

/// How much the elevation range stretches the extrusion, in millionths: the
/// range over 600 metres, kept between 0.7 and 1.4.
pub open spec fn elevation_scale(low: int, high: int) -> int {
    clamp_int(((high - low) * 5) / 3, 700_000, 1_400_000)
}

/// How far the highest point is raised above the ground, in millionths of a
/// pixel of the camera.
pub open spec fn extrusion_of(padding: int, low: int, high: int) -> int {
    (camera_span(CAMERA_HEIGHT as int, padding) * EXTRUSION_RATIO * elevation_scale(low, high))
        / (UNIT as int)
}

/// Whether a route point can be projected.
pub open spec fn coordinate_ok(p: RoutePoint) -> bool {
    -COORD_LIMIT <= p.x <= COORD_LIMIT && -COORD_LIMIT <= p.y <= COORD_LIMIT
}

/// Whether every point of a route can be projected.
pub open spec fn coordinates_ok(points: Seq<RoutePoint>) -> bool {
    forall|i: int| 0 <= i < points.len() ==> coordinate_ok(#[trigger] points[i])
}

/// A route point in the isometric view, in millionths of a pixel of the
/// camera. The point is placed in the camera rectangle with its ordinate
/// flipped and turned by 30 degrees; its top is raised by its `lift` (a
/// share in millionths, at most one whole) of the extrusion height.
pub open spec fn project_point(p: RoutePoint, lift: u64, padding: int, low: int, high: int) -> ProjectedPoint {
    let x = p.x * camera_span(CAMERA_WIDTH as int, padding);
    let y = (UNIT - p.y) * camera_span(CAMERA_HEIGHT as int, padding);
    let ground_x = toward_zero(x * COS_ANGLE + y * SIN_ANGLE, UNIT as int);
    let ground_y = toward_zero(y * COS_ANGLE - x * SIN_ANGLE, UNIT as int);
    let rise = (lesser(lift as int, UNIT as int) * extrusion_of(padding, low, high)) / (UNIT as int);
    ProjectedPoint {
        ground_x: ground_x as i64,
        ground_y: ground_y as i64,
        top_x: ground_x as i64,
        top_y: (ground_y - rise) as i64,
        value: match p.value {
            Some(v) => Some(lesser(v as int, UNIT as int) as i64),
            None => None,
        },
        route_progress: lesser(p.route_progress as int, UNIT as int) as u64,
    }
}

/// The isometric view of a route.
pub open spec fn projected_of(
    points: Seq<RoutePoint>,
    lifts: Seq<u64>,
    padding: int,
    low: int,
    high: int,
) -> Seq<ProjectedPoint> {
    Seq::new(points.len(), |i: int| project_point(points[i], lifts[i], padding, low, high))
}

/// Largest magnitude of a coordinate of the isometric view.
pub const VIEW_LIMIT: i64 = 0x40_0000_0000_0000;

/// Whether the coordinates of a scene point have at most this magnitude.
pub open spec fn within(p: ProjectedPoint, limit: int) -> bool {
    &&& -limit <= p.ground_x <= limit
    &&& -limit <= p.ground_y <= limit
    &&& -limit <= p.top_x <= limit
    &&& -limit <= p.top_y <= limit
}

/// Whether all points of a scene have coordinates of at most this magnitude.
pub open spec fn all_within(points: Seq<ProjectedPoint>, limit: int) -> bool {
    forall|i: int| 0 <= i < points.len() ==> within(#[trigger] points[i], limit)
}

/// The side of the camera between the paddings.
fn camera_span_of(side: i64, padding: u32) -> (span: i128)
    requires
        1 <= side <= 1920,
    ensures
        span == camera_span(side as int, padding as int),
        1 <= span <= 1920,
{
    let left: i128 = side as i128 - 2 * (padding as i128);
    if left > 1 {
        left
    } else {
        1
    }
}

/// The extrusion height for a padding and an elevation range.
fn extrusion_height(padding: u32, low: i32, high: i32) -> (height: i128)
    requires
        low <= high,
    ensures
        height == extrusion_of(padding as int, low as int, high as int),
        0 <= height <= 1920 * 240_000 * 2,
{
    let range: i128 = high as i128 - low as i128;
    let raw: i128 = (range * 5) / 3;
    let scale: i128 = if raw < 700_000 {
        700_000
    } else if raw > 1_400_000 {
        1_400_000
    } else {
        raw
    };
    let span = camera_span_of(CAMERA_HEIGHT, padding);
    assert(0 <= span * EXTRUSION_RATIO <= 1920 * 240_000) by (nonlinear_arith)
        requires
            1 <= span <= 1920,
            EXTRUSION_RATIO == 240_000,
    ;
    assert(0 <= span * EXTRUSION_RATIO * scale <= 1920 * 240_000 * 1_400_000) by (nonlinear_arith)
        requires
            0 <= span * EXTRUSION_RATIO <= 1920 * 240_000,
            700_000 <= scale <= 1_400_000,
    ;
    (span * EXTRUSION_RATIO * scale) / (UNIT as i128)
}

/// Projects one route point.
#[verifier::rlimit(40)]
fn project_one(p: &RoutePoint, lift: u64, padding: u32, low: i32, high: i32) -> (out: ProjectedPoint)
    requires
        coordinate_ok(*p),
        low <= high,
    ensures
        out == project_point(*p, lift, padding as int, low as int, high as int),
        within(out, VIEW_LIMIT as int),
        match out.value {
            Some(v) => 0 <= v <= UNIT,
            None => true,
        },
        out.route_progress <= UNIT,
{
    let span_x = camera_span_of(CAMERA_WIDTH, padding);
    let span_y = camera_span_of(CAMERA_HEIGHT, padding);
    proof {
        lemma_product_bounds(p.x as int, span_x as int, COORD_LIMIT as int, 1920);
        lemma_product_bounds(
            UNIT as int - p.y as int,
            span_y as int,
            COORD_LIMIT as int + 1_000_000,
            1920,
        );
    }
    let x: i128 = p.x as i128 * span_x;
    let y: i128 = (UNIT as i128 - p.y as i128) * span_y;
    proof {
        lemma_product_bounds(x as int, COS_ANGLE as int, COORD_LIMIT * 1920, 866_025);
        lemma_product_bounds(x as int, SIN_ANGLE as int, COORD_LIMIT * 1920, 866_025);
        lemma_product_bounds(
            y as int,
            COS_ANGLE as int,
            (COORD_LIMIT + 1_000_000) * 1920,
            866_025,
        );
        lemma_product_bounds(
            y as int,
            SIN_ANGLE as int,
            (COORD_LIMIT + 1_000_000) * 1920,
            866_025,
        );
    }
    let ground_x = divide_toward_zero(x * COS_ANGLE + y * SIN_ANGLE, UNIT as u128);
    let ground_y = divide_toward_zero(y * COS_ANGLE - x * SIN_ANGLE, UNIT as u128);
    let share: i128 = if lift > UNIT {
        UNIT as i128
    } else {
        lift as i128
    };
    let extrusion = extrusion_height(padding, low, high);
    proof {
        lemma_product_bounds(share as int, extrusion as int, 1_000_000, 921_600_000);
        lemma_div_pos_is_pos(share * extrusion, UNIT as int);
        vstd::arithmetic::div_mod::lemma_div_nonincreasing(share * extrusion, UNIT as int);
        assert(ground_x <= (COORD_LIMIT * 1920 * 866_025 + (COORD_LIMIT + 1_000_000) * 1920
            * 866_025) / 1_000_000 + 1) by {
            lemma_toward_zero_monotonic(
                x * COS_ANGLE + y * SIN_ANGLE,
                COORD_LIMIT * 1920 * 866_025 + (COORD_LIMIT + 1_000_000) * 1920 * 866_025,
                1_000_000,
            );
        }
        assert(ground_x >= -((COORD_LIMIT * 1920 * 866_025 + (COORD_LIMIT + 1_000_000) * 1920
            * 866_025) / 1_000_000) - 1) by {
            lemma_toward_zero_monotonic(
                -(COORD_LIMIT * 1920 * 866_025 + (COORD_LIMIT + 1_000_000) * 1920 * 866_025),
                x * COS_ANGLE + y * SIN_ANGLE,
                1_000_000,
            );
        }
        assert(ground_y <= (COORD_LIMIT * 1920 * 866_025 + (COORD_LIMIT + 1_000_000) * 1920
            * 866_025) / 1_000_000 + 1) by {
            lemma_toward_zero_monotonic(
                y * COS_ANGLE - x * SIN_ANGLE,
                COORD_LIMIT * 1920 * 866_025 + (COORD_LIMIT + 1_000_000) * 1920 * 866_025,
                1_000_000,
            );
        }
        assert(ground_y >= -((COORD_LIMIT * 1920 * 866_025 + (COORD_LIMIT + 1_000_000) * 1920
            * 866_025) / 1_000_000) - 1) by {
            lemma_toward_zero_monotonic(
                -(COORD_LIMIT * 1920 * 866_025 + (COORD_LIMIT + 1_000_000) * 1920 * 866_025),
                y * COS_ANGLE - x * SIN_ANGLE,
                1_000_000,
            );
        }
    }
    let rise: i128 = (share * extrusion) / (UNIT as i128);
    ProjectedPoint {
        ground_x: ground_x as i64,
        ground_y: ground_y as i64,
        top_x: ground_x as i64,
        top_y: (ground_y - rise) as i64,
        value: match p.value {
            Some(v) => Some(
                if v > UNIT {
                    UNIT as i64
                } else {
                    v as i64
                },
            ),
            None => None,
        },
        route_progress: if p.route_progress > UNIT {
            UNIT
        } else {
            p.route_progress
        },
    }
}

/// Places every point of a route in the isometric view and raises its top
/// by its lift.
pub fn project_to_isometric(
    points: &Vec<RoutePoint>,
    lifts: &Vec<u64>,
    padding: u32,
    low: i32,
    high: i32,
) -> (out: Vec<ProjectedPoint>)
    requires
        lifts@.len() == points@.len(),
        coordinates_ok(points@),
        low <= high,
    ensures
        out@ == projected_of(points@, lifts@, padding as int, low as int, high as int),
        all_within(out@, VIEW_LIMIT as int),
{
    let n = points.len();
    let mut out: Vec<ProjectedPoint> = Vec::new();
    let mut i: usize = 0;
    while i < n
        invariant
            0 <= i <= n,
            n == points@.len(),
            lifts@.len() == n,
            coordinates_ok(points@),
            low <= high,
            out@ == projected_of(points@, lifts@, padding as int, low as int, high as int).subrange(
                0,
                i as int,
            ),
            all_within(out@, VIEW_LIMIT as int),
        decreases n - i,
    {
        let projected = project_one(&points[i], lifts[i], padding, low, high);
        out.push(projected);
        assert(out@ =~= projected_of(
            points@,
            lifts@,
            padding as int,
            low as int,
            high as int,
        ).subrange(0, i + 1));
        i = i + 1;
    }
    assert(out@ =~= projected_of(points@, lifts@, padding as int, low as int, high as int));
    out
}

/// The smaller of a point's ground and top coordinate along an axis.
pub open spec fn point_low(p: ProjectedPoint, vertical: bool) -> int {
    if vertical {
        lesser(p.ground_y as int, p.top_y as int)
    } else {
        lesser(p.ground_x as int, p.top_x as int)
    }
}

/// The larger of a point's ground and top coordinate along an axis.
pub open spec fn point_high(p: ProjectedPoint, vertical: bool) -> int {
    if vertical {
        larger(p.ground_y as int, p.top_y as int)
    } else {
        larger(p.ground_x as int, p.top_x as int)
    }
}

/// The smallest coordinate along an axis among the first `n` points.
pub open spec fn box_low(points: Seq<ProjectedPoint>, n: int, vertical: bool) -> int
    decreases n,
{
    if n <= 1 {
        point_low(points[0], vertical)
    } else {
        lesser(box_low(points, n - 1, vertical), point_low(points[n - 1], vertical))
    }
}

/// The largest coordinate along an axis among the first `n` points.
pub open spec fn box_high(points: Seq<ProjectedPoint>, n: int, vertical: bool) -> int
    decreases n,
{
    if n <= 1 {
        point_high(points[0], vertical)
    } else {
        larger(box_high(points, n - 1, vertical), point_high(points[n - 1], vertical))
    }
}

/// Every point lies within the bounding box, and the box within the limit
/// of the points.
pub proof fn lemma_box(points: Seq<ProjectedPoint>, n: int, vertical: bool, i: int, limit: int)
    requires
        0 <= i < n <= points.len(),
        all_within(points, limit),
    ensures
        -limit <= box_low(points, n, vertical) <= point_low(points[i], vertical),
        point_high(points[i], vertical) <= box_high(points, n, vertical) <= limit,
    decreases n,
{
    assert(within(points[0], limit) && within(points[n - 1], limit));
    if n > 1 {
        if i < n - 1 {
            lemma_box(points, n - 1, vertical, i, limit);
        } else {
            lemma_box(points, n - 1, vertical, 0, limit);
        }
    }
}

/// How a scene is laid onto the canvas: what is subtracted from its
/// coordinates, the ratio `view / content` they are scaled by, and what is
/// added to bring the scene to the middle of the viewport.
#[derive(Debug, Clone, Copy, PartialEq, Eq, Structural)]
pub struct FitFrame {
    pub min_x: i64,
    pub min_y: i64,
    /// Side of the viewport along the axis that limits the scale, in pixels.
    pub view: u64,
    /// Side of the content along that axis, in millionths of a camera pixel.
    pub content: u64,
    /// Left edge of the scene on the canvas.
    pub offset_x: i64,
    /// Upper edge of the scene on the canvas.
    pub offset_y: i64,
}

/// A length of the scene on the canvas.
pub open spec fn scaled(d: int, view: int, content: int) -> int {
    (d * view * 100) / content
}

/// The frame that fits a bounding box into a viewport of `view_w` by
/// `view_h` pixels inside a padding: the scale is the smaller of the two
/// ratios of viewport to content, the same on both axes, and the content
/// is centred.
pub open spec fn frame_of_box(
    min_x: int,
    max_x: int,
    min_y: int,
    max_y: int,
    padding: int,
    view_w: int,
    view_h: int,
) -> FitFrame {
    let content_w = larger(max_x - min_x, 1);
    let content_h = larger(max_y - min_y, 1);
    let by_width = view_w * content_h <= view_h * content_w;
    let view = if by_width {
        view_w
    } else {
        view_h
    };
    let content = if by_width {
        content_w
    } else {
        content_h
    };
    FitFrame {
        min_x: min_x as i64,
        min_y: min_y as i64,
        view: view as u64,
        content: content as u64,
        offset_x: (padding * 100 + (view_w * 100 - scaled(content_w, view, content)) / 2) as i64,
        offset_y: (padding * 100 + (view_h * 100 - scaled(content_h, view, content)) / 2) as i64,
    }
}

/// The frame that fits a scene into a viewport.
pub open spec fn fit_of(points: Seq<ProjectedPoint>, padding: int, view_w: int, view_h: int) -> FitFrame {
    let n = points.len() as int;
    frame_of_box(
        box_low(points, n, false),
        box_high(points, n, false),
        box_low(points, n, true),
        box_high(points, n, true),
        padding,
        view_w,
        view_h,
    )
}

/// Where a horizontal coordinate of the scene comes to lie on the canvas.
pub open spec fn laid_x(v: int, frame: FitFrame) -> int {
    frame.offset_x + scaled(v - frame.min_x, frame.view as int, frame.content as int)
}

/// Where a vertical coordinate of the scene comes to lie on the canvas.
pub open spec fn laid_y(v: int, frame: FitFrame) -> int {
    frame.offset_y + scaled(v - frame.min_y, frame.view as int, frame.content as int)
}

/// A scene point laid onto the canvas.
pub open spec fn fit_point(p: ProjectedPoint, frame: FitFrame) -> ProjectedPoint {
    ProjectedPoint {
        ground_x: laid_x(p.ground_x as int, frame) as i64,
        ground_y: laid_y(p.ground_y as int, frame) as i64,
        top_x: laid_x(p.top_x as int, frame) as i64,
        top_y: laid_y(p.top_y as int, frame) as i64,
        value: p.value,
        route_progress: p.route_progress,
    }
}

/// A scene laid onto the canvas.
pub open spec fn fitted(points: Seq<ProjectedPoint>, padding: int, view_w: int, view_h: int) -> Seq<
    ProjectedPoint,
> {
    Seq::new(points.len(), |i: int| fit_point(points[i], fit_of(points, padding, view_w, view_h)))
}

/// Whether a scene point lies in the viewport.
pub open spec fn in_viewport(p: ProjectedPoint, padding: int, view_w: int, view_h: int) -> bool {
    &&& padding * 100 <= p.ground_x <= (padding + view_w) * 100
    &&& padding * 100 <= p.top_x <= (padding + view_w) * 100
    &&& padding * 100 <= p.ground_y <= (padding + view_h) * 100
    &&& padding * 100 <= p.top_y <= (padding + view_h) * 100
}

/// Lengths on the canvas grow with the lengths of the scene, and the
/// content of the limiting axis fills the viewport.
pub proof fn lemma_scaled(a: int, b: int, view: int, content: int)
    requires
        0 <= a <= b,
        view >= 0,
        content > 0,
    ensures
        0 <= scaled(a, view, content) <= scaled(b, view, content),
        scaled(content, view, content) == view * 100,
{
    assert(0 <= a * view * 100 <= b * view * 100) by (nonlinear_arith)
        requires
            0 <= a <= b,
            view >= 0,
    ;
    lemma_div_pos_is_pos(a * view * 100, content);
    lemma_div_is_ordered(a * view * 100, b * view * 100, content);
    lemma_div_multiples_vanish(view * 100, content);
    assert(content * view * 100 == content * (view * 100)) by (nonlinear_arith);
}

/// The scene on the canvas is no larger than the viewport on either axis.
pub proof fn lemma_fit_sizes(content_w: int, content_h: int, view_w: int, view_h: int)
    requires
        content_w >= 1,
        content_h >= 1,
        view_w >= 1,
        view_h >= 1,
    ensures
        ({
            let by_width = view_w * content_h <= view_h * content_w;
            let view = if by_width {
                view_w
            } else {
                view_h
            };
            let content = if by_width {
                content_w
            } else {
                content_h
            };
            &&& 0 <= scaled(content_w, view, content) <= view_w * 100
            &&& 0 <= scaled(content_h, view, content) <= view_h * 100
        }),
{
    let by_width = view_w * content_h <= view_h * content_w;
    if by_width {
        lemma_scaled(content_w, content_w, view_w, content_w);
        lemma_scaled(0, content_h, view_w, content_w);
        assert(content_h * view_w * 100 <= content_w * (view_h * 100)) by (nonlinear_arith)
            requires
                view_w * content_h <= view_h * content_w,
        ;
        lemma_div_is_ordered(content_h * view_w * 100, content_w * (view_h * 100), content_w);
        lemma_div_multiples_vanish(view_h * 100, content_w);
    } else {
        lemma_scaled(content_h, content_h, view_h, content_h);
        lemma_scaled(0, content_w, view_h, content_h);
        assert(content_w * view_h * 100 <= content_h * (view_w * 100)) by (nonlinear_arith)
            requires
                view_w * content_h > view_h * content_w,
        ;
        lemma_div_is_ordered(content_w * view_h * 100, content_h * (view_w * 100), content_h);
        lemma_div_multiples_vanish(view_w * 100, content_h);
    }
}

/// Every point of a fitted scene lies in the viewport.
#[verifier::rlimit(40)]
pub proof fn lemma_fitted_in_viewport(
    points: Seq<ProjectedPoint>,
    padding: int,
    view_w: int,
    view_h: int,
    limit: int,
    i: int,
)
    requires
        0 <= i < points.len(),
        all_within(points, limit),
        0 <= limit <= VIEW_LIMIT,
        0 <= padding <= u32::MAX,
        1 <= view_w <= u32::MAX,
        1 <= view_h <= u32::MAX,
    ensures
        in_viewport(fitted(points, padding, view_w, view_h)[i], padding, view_w, view_h),
        ({
            let frame = fit_of(points, padding, view_w, view_h);
            &&& frame.min_x == box_low(points, points.len() as int, false)
            &&& frame.min_y == box_low(points, points.len() as int, true)
            &&& 1 <= frame.content <= 2 * limit + 1
            &&& 1 <= frame.view <= u32::MAX
            &&& padding * 100 <= laid_x(points[i].ground_x as int, frame) <= (padding + view_w)
                * 100
            &&& padding * 100 <= laid_x(points[i].top_x as int, frame) <= (padding + view_w) * 100
            &&& padding * 100 <= laid_y(points[i].ground_y as int, frame) <= (padding + view_h)
                * 100
            &&& padding * 100 <= laid_y(points[i].top_y as int, frame) <= (padding + view_h) * 100
        }),
{
    let n = points.len() as int;
    let min_x = box_low(points, n, false);
    let min_y = box_low(points, n, true);
    let content_w = larger(box_high(points, n, false) - min_x, 1);
    let content_h = larger(box_high(points, n, true) - min_y, 1);
    let by_width = view_w * content_h <= view_h * content_w;
    let view = if by_width {
        view_w
    } else {
        view_h
    };
    let content = if by_width {
        content_w
    } else {
        content_h
    };
    lemma_box(points, n, false, i, limit);
    lemma_box(points, n, true, i, limit);
    lemma_fit_sizes(content_w, content_h, view_w, view_h);
    let p = points[i];
    lemma_scaled(p.ground_x - min_x, content_w, view, content);
    lemma_scaled(p.top_x - min_x, content_w, view, content);
    lemma_scaled(p.ground_y - min_y, content_h, view, content);
    lemma_scaled(p.top_y - min_y, content_h, view, content);
    assert((padding + view_w) * 100 == padding * 100 + view_w * 100) by (nonlinear_arith);
    assert((padding + view_h) * 100 == padding * 100 + view_h * 100) by (nonlinear_arith);
    let frame = fit_of(points, padding, view_w, view_h);
    assert(frame.min_x == min_x && frame.min_y == min_y && frame.view == view && frame.content
        == content) by {
        lemma_box(points, n, false, 0, limit);
        lemma_box(points, n, true, 0, limit);
    }
}

/// Largest magnitude of a coordinate on the canvas.
pub const CANVAS_LIMIT: i64 = 0x100_0000_0000;

/// What an empty scene is told.
pub open spec fn no_points() -> Seq<char> {
    "No projected points"@
}

/// The bounding box of a scene: the least and the greatest abscissa, the
/// least and the greatest ordinate.
fn bounding_box(points: &Vec<ProjectedPoint>) -> (bounds: (i64, i64, i64, i64))
    requires
        points@.len() >= 1,
        all_within(points@, VIEW_LIMIT as int),
    ensures
        bounds.0 == box_low(points@, points@.len() as int, false),
        bounds.1 == box_high(points@, points@.len() as int, false),
        bounds.2 == box_low(points@, points@.len() as int, true),
        bounds.3 == box_high(points@, points@.len() as int, true),
        -VIEW_LIMIT <= bounds.0 <= bounds.1 <= VIEW_LIMIT,
        -VIEW_LIMIT <= bounds.2 <= bounds.3 <= VIEW_LIMIT,
{
    let n = points.len();
    let first = points[0];
    let mut min_x: i64 = if first.ground_x < first.top_x {
        first.ground_x
    } else {
        first.top_x
    };
    let mut max_x: i64 = if first.ground_x > first.top_x {
        first.ground_x
    } else {
        first.top_x
    };
    let mut min_y: i64 = if first.ground_y < first.top_y {
        first.ground_y
    } else {
        first.top_y
    };
    let mut max_y: i64 = if first.ground_y > first.top_y {
        first.ground_y
    } else {
        first.top_y
    };
    let mut i: usize = 1;
    while i < n
        invariant
            1 <= i <= n,
            n == points@.len(),
            min_x == box_low(points@, i as int, false),
            max_x == box_high(points@, i as int, false),
            min_y == box_low(points@, i as int, true),
            max_y == box_high(points@, i as int, true),
        decreases n - i,
    {
        let p = points[i];
        if p.ground_x < min_x {
            min_x = p.ground_x;
        }
        if p.top_x < min_x {
            min_x = p.top_x;
        }
        if p.ground_x > max_x {
            max_x = p.ground_x;
        }
        if p.top_x > max_x {
            max_x = p.top_x;
        }
        if p.ground_y < min_y {
            min_y = p.ground_y;
        }
        if p.top_y < min_y {
            min_y = p.top_y;
        }
        if p.ground_y > max_y {
            max_y = p.ground_y;
        }
        if p.top_y > max_y {
            max_y = p.top_y;
        }
        i = i + 1;
    }
    proof {
        lemma_box(points@, n as int, false, 0, VIEW_LIMIT as int);
        lemma_box(points@, n as int, true, 0, VIEW_LIMIT as int);
    }
    (min_x, max_x, min_y, max_y)
}

/// Computes the frame that fits a bounding box into the viewport.
#[verifier::rlimit(40)]
fn frame_for(min_x: i64, max_x: i64, min_y: i64, max_y: i64, padding: u32, view_w: u32, view_h: u32) -> (frame:
    FitFrame)
    requires
        -VIEW_LIMIT <= min_x <= max_x <= VIEW_LIMIT,
        -VIEW_LIMIT <= min_y <= max_y <= VIEW_LIMIT,
        view_w >= 1,
        view_h >= 1,
    ensures
        frame == frame_of_box(
            min_x as int,
            max_x as int,
            min_y as int,
            max_y as int,
            padding as int,
            view_w as int,
            view_h as int,
        ),
{
    let content_w: u64 = if max_x - min_x > 1 {
        (max_x - min_x) as u64
    } else {
        1
    };
    let content_h: u64 = if max_y - min_y > 1 {
        (max_y - min_y) as u64
    } else {
        1
    };
    proof {
        lemma_product_bounds(view_w as int, content_h as int, 0xFFFF_FFFF, 2 * VIEW_LIMIT);
        lemma_product_bounds(view_h as int, content_w as int, 0xFFFF_FFFF, 2 * VIEW_LIMIT);
        lemma_fit_sizes(content_w as int, content_h as int, view_w as int, view_h as int);
    }
    let by_width = view_w as u128 * content_h as u128 <= view_h as u128 * content_w as u128;
    let view: u64 = if by_width {
        view_w as u64
    } else {
        view_h as u64
    };
    let content: u64 = if by_width {
        content_w
    } else {
        content_h
    };
    let size_w = scale_part(content_w as i128, view, content);
    let size_h = scale_part(content_h as i128, view, content);
    FitFrame {
        min_x,
        min_y,
        view,
        content,
        offset_x: (padding as i128 * 100 + (view_w as i128 * 100 - size_w) / 2) as i64,
        offset_y: (padding as i128 * 100 + (view_h as i128 * 100 - size_h) / 2) as i64,
    }
}

/// Measures a scene and computes the frame that fits it into the viewport.
fn fit_frame(points: &Vec<ProjectedPoint>, padding: u32, view_w: u32, view_h: u32) -> (frame:
    FitFrame)
    requires
        points@.len() >= 1,
        all_within(points@, VIEW_LIMIT as int),
        view_w >= 1,
        view_h >= 1,
    ensures
        frame == fit_of(points@, padding as int, view_w as int, view_h as int),
{
    let (min_x, max_x, min_y, max_y) = bounding_box(points);
    frame_for(min_x, max_x, min_y, max_y, padding, view_w, view_h)
}

/// Lays one point of a scene onto the canvas.
#[verifier::rlimit(40)]
fn fit_one(
    points: &Vec<ProjectedPoint>,
    j: usize,
    frame: FitFrame,
    padding: u32,
    view_w: u32,
    view_h: u32,
) -> (laid: ProjectedPoint)
    requires
        j < points@.len(),
        all_within(points@, VIEW_LIMIT as int),
        view_w >= 1,
        view_h >= 1,
        frame == fit_of(points@, padding as int, view_w as int, view_h as int),
    ensures
        laid == fit_point(points@[j as int], frame),
        laid == fitted(points@, padding as int, view_w as int, view_h as int)[j as int],
        in_viewport(laid, padding as int, view_w as int, view_h as int),
{
    let p = points[j];
    proof {
        let n = points@.len() as int;
        lemma_box(points@, n, false, j as int, VIEW_LIMIT as int);
        lemma_box(points@, n, true, j as int, VIEW_LIMIT as int);
        lemma_fitted_in_viewport(
            points@,
            padding as int,
            view_w as int,
            view_h as int,
            VIEW_LIMIT as int,
            j as int,
        );
        assert((padding + view_w) * 100 <= 0x2_0000_0000 * 100 && (padding + view_h) * 100
            <= 0x2_0000_0000 * 100);
    }
    ProjectedPoint {
        ground_x: (frame.offset_x as i128 + scale_part(
            p.ground_x as i128 - frame.min_x as i128,
            frame.view,
            frame.content,
        )) as i64,
        ground_y: (frame.offset_y as i128 + scale_part(
            p.ground_y as i128 - frame.min_y as i128,
            frame.view,
            frame.content,
        )) as i64,
        top_x: (frame.offset_x as i128 + scale_part(
            p.top_x as i128 - frame.min_x as i128,
            frame.view,
            frame.content,
        )) as i64,
        top_y: (frame.offset_y as i128 + scale_part(
            p.top_y as i128 - frame.min_y as i128,
            frame.view,
            frame.content,
        )) as i64,
        value: p.value,
        route_progress: p.route_progress,
    }
}

/// Lays a scene onto the canvas: scaled by one ratio on both axes so that
/// it fits the viewport, and centred in it. An empty scene is refused.
pub fn fit_to_viewport(points: &Vec<ProjectedPoint>, padding: u32, view_w: u32, view_h: u32) -> (result:
    Result<Vec<ProjectedPoint>, RenderError>)
    requires
        all_within(points@, VIEW_LIMIT as int),
        view_w >= 1,
        view_h >= 1,
    ensures
        match result {
            Ok(out) => {
                &&& points@.len() > 0
                &&& out@ == fitted(points@, padding as int, view_w as int, view_h as int)
                &&& forall|i: int|
                    0 <= i < out@.len() ==> in_viewport(
                        #[trigger] out@[i],
                        padding as int,
                        view_w as int,
                        view_h as int,
                    )
            },
            Err(RenderError::SvgError(text)) => points@.len() == 0 && text@ == no_points(),
        },
{
    let n = points.len();
    if n == 0 {
        return Err(RenderError::SvgError(String::from_str("No projected points")));
    }
    let frame = fit_frame(points, padding, view_w, view_h);
    let mut out: Vec<ProjectedPoint> = Vec::new();
    let mut j: usize = 0;
    while j < n
        invariant
            0 <= j <= n,
            n == points@.len(),
            all_within(points@, VIEW_LIMIT as int),
            view_w >= 1,
            view_h >= 1,
            frame == fit_of(points@, padding as int, view_w as int, view_h as int),
            out@ == fitted(points@, padding as int, view_w as int, view_h as int).subrange(
                0,
                j as int,
            ),
            forall|i: int|
                0 <= i < out@.len() ==> in_viewport(
                    #[trigger] out@[i],
                    padding as int,
                    view_w as int,
                    view_h as int,
                ),
        decreases n - j,
    {
        let laid = fit_one(points, j, frame, padding, view_w, view_h);
        out.push(laid);
        assert(out@ =~= fitted(points@, padding as int, view_w as int, view_h as int).subrange(
            0,
            j + 1,
        ));
        j = j + 1;
    }
    assert(out@ =~= fitted(points@, padding as int, view_w as int, view_h as int));
    Ok(out)
}

/// A length of the scene on the canvas, for a length within the scene.
fn scale_part(d: i128, view: u64, content: u64) -> (r: i128)
    requires
        0 <= d <= 2 * VIEW_LIMIT + 1,
        content > 0,
        view <= u32::MAX,
    ensures
        r == scaled(d as int, view as int, content as int),
        0 <= r <= (2 * VIEW_LIMIT + 1) * 0xFFFF_FFFF * 100,
{
    proof {
        assert(0 <= d * view * 100 <= (2 * VIEW_LIMIT + 1) * 0xFFFF_FFFF * 100)
            by (nonlinear_arith)
            requires
                0 <= d <= 2 * VIEW_LIMIT + 1,
                0 <= view <= 0xFFFF_FFFF,
        ;
        assert(0 <= d * view <= (2 * VIEW_LIMIT + 1) * 0xFFFF_FFFF) by (nonlinear_arith)
            requires
                0 <= d <= 2 * VIEW_LIMIT + 1,
                0 <= view <= 0xFFFF_FFFF,
        ;
        lemma_div_pos_is_pos(d * view * 100, content as int);
        vstd::arithmetic::div_mod::lemma_div_nonincreasing(d * view * 100, content as int);
    }
    (d * (view as i128) * 100) / (content as i128)
}

/// The value `num / den` of the way from `a` to `b`, rounded toward `a`.
pub open spec fn lerp(a: int, b: int, num: int, den: int) -> int {
    a + toward_zero((b - a) * num, den)
}

/// The blend of two values that may be unknown: of two known values their
/// interpolation, else the known one.
pub open spec fn lerp_optional(a: Option<i64>, b: Option<i64>, num: int, den: int) -> Option<i64> {
    match (a, b) {
        (Some(x), Some(y)) => Some(lerp(x as int, y as int, num, den) as i64),
        (Some(x), None) => Some(x),
        (None, Some(y)) => Some(y),
        (None, None) => None,
    }
}

/// An interpolated value lies between the two values.
pub proof fn lemma_lerp_bounds(a: int, b: int, num: int, den: int)
    requires
        0 <= num <= den,
        den > 0,
    ensures
        lesser(a, b) <= lerp(a, b, num, den) <= larger(a, b),
        num == 0 ==> lerp(a, b, num, den) == a,
        num == den ==> lerp(a, b, num, den) == b,
{
    if b >= a {
        assert(0 <= (b - a) * num <= (b - a) * den) by (nonlinear_arith)
            requires
                0 <= b - a,
                0 <= num <= den,
        ;
        lemma_toward_zero_monotonic((b - a) * num, (b - a) * den, den);
        lemma_toward_zero_bounds((b - a) * num, den);
        lemma_div_multiples_vanish(b - a, den);
        assert((b - a) * den == den * (b - a)) by (nonlinear_arith);
    } else {
        assert((b - a) * den <= (b - a) * num <= 0) by (nonlinear_arith)
            requires
                b - a <= 0,
                0 <= num <= den,
        ;
        lemma_toward_zero_monotonic((b - a) * den, (b - a) * num, den);
        lemma_toward_zero_bounds((b - a) * num, den);
        lemma_div_multiples_vanish(a - b, den);
        assert(-((b - a) * den) == den * (a - b)) by (nonlinear_arith);
    }
    if num == 0 {
        assert((b - a) * num == 0) by (nonlinear_arith)
            requires
                num == 0,
        ;
    }
}

/// Interpolates between two values within the canvas limit.
fn lerp_of(a: i64, b: i64, num: u64, den: u64) -> (r: i64)
    requires
        0 <= num <= den,
        0 < den <= 0xFFFF_FFFF,
        -0x1000_0000_0000_0000 <= a <= 0x1000_0000_0000_0000,
        -0x1000_0000_0000_0000 <= b <= 0x1000_0000_0000_0000,
    ensures
        r == lerp(a as int, b as int, num as int, den as int),
        lesser(a as int, b as int) <= r <= larger(a as int, b as int),
{
    proof {
        lemma_lerp_bounds(a as int, b as int, num as int, den as int);
        lemma_product_bounds(b - a, num as int, 0x2000_0000_0000_0000, 0xFFFF_FFFF);
    }
    let delta: i128 = (b as i128 - a as i128) * (num as i128);
    (a as i128 + divide_toward_zero(delta, den as u128)) as i64
}

/// Interpolates between two values that may be unknown.
fn lerp_optional_of(a: Option<i64>, b: Option<i64>, num: u64, den: u64) -> (r: Option<i64>)
    requires
        0 <= num <= den,
        0 < den <= 0xFFFF_FFFF,
        value_within(a, 0x1000_0000_0000_0000),
        value_within(b, 0x1000_0000_0000_0000),
    ensures
        r == lerp_optional(a, b, num as int, den as int),
        forall|limit: int|
            value_within(a, limit) && value_within(b, limit) ==> #[trigger] value_within(r, limit),
{
    match (a, b) {
        (Some(x), Some(y)) => Some(lerp_of(x, y, num, den)),
        (Some(x), None) => Some(x),
        (None, Some(y)) => Some(y),
        (None, None) => None,
    }
}

/// Whether a colour value, if known, has at most this magnitude.
pub open spec fn value_within(v: Option<i64>, limit: int) -> bool {
    match v {
        Some(x) => -limit <= x <= limit,
        None => true,
    }
}

/// Whether a scene point lies on the canvas and carries a value and a
/// progress of at most one whole.
pub open spec fn on_canvas(p: ProjectedPoint) -> bool {
    &&& within(p, CANVAS_LIMIT as int)
    &&& value_within(p.value, UNIT as int)
    &&& p.route_progress <= UNIT
}

/// Whether all points of a scene lie on the canvas.
pub open spec fn all_on_canvas(points: Seq<ProjectedPoint>) -> bool {
    forall|i: int| 0 <= i < points.len() ==> on_canvas(#[trigger] points[i])
}

/// The point where the reveal stops between two scene points: at progress
/// `p`, which lies the share `(p - a.progress) / (b.progress - a.progress)`
/// of the way from `a` to `b` (none of it where `p` lies before `a`).
pub open spec fn reveal_point(a: ProjectedPoint, b: ProjectedPoint, p: int) -> ProjectedPoint {
    let den = b.route_progress - a.route_progress;
    let num = clamp_int(p - a.route_progress, 0, den);
    ProjectedPoint {
        ground_x: lerp(a.ground_x as int, b.ground_x as int, num, den) as i64,
        ground_y: lerp(a.ground_y as int, b.ground_y as int, num, den) as i64,
        top_x: lerp(a.top_x as int, b.top_x as int, num, den) as i64,
        top_y: lerp(a.top_y as int, b.top_y as int, num, den) as i64,
        value: lerp_optional(a.value, b.value, num, den),
        route_progress: p as u64,
    }
}

/// The revealed scene from segment `idx` on, where `out` is what has been
/// revealed before it. A segment along which the progress does not grow is
/// passed over; one that ends before `p` adds its end point; the first that
/// does not is cut at `p`, and the reveal stops. A scene whose segments all
/// end before `p` is shown whole.
pub open spec fn revealed_from(
    points: Seq<ProjectedPoint>,
    p: int,
    idx: int,
    out: Seq<ProjectedPoint>,
) -> Seq<ProjectedPoint>
    decreases points.len() - idx,
{
    if idx < 0 || idx >= points.len() - 1 {
        points
    } else {
        let current = points[idx];
        let next = points[idx + 1];
        if next.route_progress <= current.route_progress {
            revealed_from(points, p, idx + 1, out)
        } else if next.route_progress < p {
            revealed_from(points, p, idx + 1, out.push(next))
        } else {
            out.push(reveal_point(current, next, p))
        }
    }
}

/// The part of a scene that is shown at route progress `progress`: its
/// first point alone at zero, all of it at one whole, and in between the
/// points up to the progress, ending in the point at the progress itself.
pub open spec fn revealed(points: Seq<ProjectedPoint>, progress: int) -> Seq<ProjectedPoint> {
    let p = clamp_int(progress, 0, UNIT as int);
    if points.len() <= 1 {
        points
    } else if p <= 0 {
        seq![points[0]]
    } else if p >= UNIT {
        points
    } else {
        revealed_from(points, p, 0, seq![points[0]])
    }
}

/// Copies a scene.
pub fn copy_scene(points: &Vec<ProjectedPoint>) -> (out: Vec<ProjectedPoint>)
    ensures
        out@ == points@,
{
    let mut out: Vec<ProjectedPoint> = Vec::new();
    let mut i: usize = 0;
    while i < points.len()
        invariant
            0 <= i <= points@.len(),
            out@ == points@.subrange(0, i as int),
        decreases points@.len() - i,
    {
        out.push(points[i]);
        assert(out@ =~= points@.subrange(0, i + 1));
        i = i + 1;
    }
    assert(out@ =~= points@);
    out
}

/// Cuts a scene at a route progress; see [`revealed`].
pub fn reveal_projected_points(points: &Vec<ProjectedPoint>, progress: u64) -> (out: Vec<
    ProjectedPoint,
>)
    requires
        all_on_canvas(points@),
    ensures
        out@ == revealed(points@, progress as int),
        all_on_canvas(out@),
        points@.len() >= 1 ==> out@.len() >= 1,
{
    let n = points.len();
    if n <= 1 {
        return copy_scene(points);
    }
    let p: u64 = if progress > UNIT {
        UNIT
    } else {
        progress
    };
    if p == 0 {
        let mut out: Vec<ProjectedPoint> = Vec::new();
        out.push(points[0]);
        assert(out@ =~= seq![points@[0]]);
        return out;
    }
    if p >= UNIT {
        return copy_scene(points);
    }
    let mut out: Vec<ProjectedPoint> = Vec::new();
    out.push(points[0]);
    assert(out@ =~= seq![points@[0]]);
    let mut idx: usize = 0;
    while idx < n - 1
        invariant
            0 <= idx <= n - 1,
            2 <= n == points@.len(),
            0 < p < UNIT,
            all_on_canvas(points@),
            all_on_canvas(out@),
            out@.len() >= 1,
            revealed(points@, progress as int) == revealed_from(
                points@,
                p as int,
                idx as int,
                out@,
            ),
        decreases n - idx,
    {
        let current = points[idx];
        let next = points[idx + 1];
        if next.route_progress <= current.route_progress {
            idx = idx + 1;
            continue ;
        }
        if next.route_progress < p {
            out.push(next);
            idx = idx + 1;
            continue ;
        }
        let den: u64 = next.route_progress - current.route_progress;
        let num: u64 = if p <= current.route_progress {
            0
        } else {
            p - current.route_progress
        };
        let cut = ProjectedPoint {
            ground_x: lerp_of(current.ground_x, next.ground_x, num, den),
            ground_y: lerp_of(current.ground_y, next.ground_y, num, den),
            top_x: lerp_of(current.top_x, next.top_x, num, den),
            top_y: lerp_of(current.top_y, next.top_y, num, den),
            value: lerp_optional_of(current.value, next.value, num, den),
            route_progress: p,
        };
        assert(cut == reveal_point(current, next, p as int));
        assert(value_within(cut.value, UNIT as int));
        out.push(cut);
        return out;
    }
    copy_scene(points)
}

/// Into how many pieces each segment of the revealed route is divided.
pub const WALL_SUBDIVISIONS: usize = 4;

/// The largest number of pieces a segment can be divided into.
pub const MAX_SUBDIVISIONS: usize = 64;

/// The curvature that a curve tension in millionths stands for: twice the
/// tension, the tension taken as one half at most.
pub open spec fn curvature_of(tension: u32) -> int {
    lesser(tension as int, 500_000) * 2
}

/// The cube of `n`.
pub open spec fn cube(n: int) -> int {
    n * n * n
}

/// The four cubic Hermite weights at step `s` of `n`, each times the cube of `n`.
pub open spec fn hermite(s: int, n: int) -> (int, int, int, int) {
    (
        2 * (s * s * s) - 3 * (n * s * s) + n * n * n,
        s * s * s - 2 * (n * s * s) + n * n * s,
        3 * (n * s * s) - 2 * (s * s * s),
        s * s * s - n * s * s,
    )
}

/// The Catmull-Rom curve through `q_from` and `q_to` at step `s` of `n`, with the
/// neighbours `q_prev` and `q_next` and a curvature in millionths: the cubic
/// Hermite curve whose tangents at `q_from` and `q_to` are half the curvature
/// times `q_to - q_prev` and `q_next - q_from`.
pub open spec fn catmull(q_prev: int, q_from: int, q_to: int, q_next: int, s: int, n: int, curvature: int) -> int {
    let h = hermite(s, n);
    toward_zero(
        (h.0 * q_from + h.2 * q_to) * (2 * UNIT) + (h.1 * (q_to - q_prev) + h.3 * (q_next - q_from)) * curvature,
        2 * UNIT * cube(n),
    )
}

/// The Hermite weights are bounded by multiples of the cube of `n`, and at
/// step zero the curve starts in `q_from`.
pub proof fn lemma_hermite_bounds(s: int, n: int)
    requires
        0 <= s < n,
    ensures
        cube(n) >= 1,
        -3 * cube(n) <= hermite(s, n).0 <= 3 * cube(n),
        -2 * cube(n) <= hermite(s, n).1 <= 2 * cube(n),
        -3 * cube(n) <= hermite(s, n).2 <= 3 * cube(n),
        -cube(n) <= hermite(s, n).3 <= cube(n),
        s == 0 ==> hermite(s, n) == (cube(n), 0int, 0int, 0int),
{
    assert(0 <= s * s * s <= n * n * n) by (nonlinear_arith)
        requires
            0 <= s < n,
    ;
    assert(0 <= n * s * s <= n * n * n) by (nonlinear_arith)
        requires
            0 <= s < n,
    ;
    assert(0 <= n * n * s <= n * n * n) by (nonlinear_arith)
        requires
            0 <= s < n,
    ;
    assert(n * n * n >= 1) by (nonlinear_arith)
        requires
            n >= 1,
    ;
    if s == 0 {
        assert(s * s * s == 0 && n * s * s == 0 && n * n * s == 0) by (nonlinear_arith)
            requires
                s == 0,
        ;
    }
}

/// A point of the curve stays within nine times the magnitude of the
/// points that shape it.
#[verifier::rlimit(40)]
pub proof fn lemma_catmull_bounds(
    q_prev: int,
    q_from: int,
    q_to: int,
    q_next: int,
    s: int,
    n: int,
    curvature: int,
    limit: int,
)
    requires
        0 <= s < n,
        0 <= curvature <= UNIT,
        limit >= 0,
        -limit <= q_prev <= limit,
        -limit <= q_from <= limit,
        -limit <= q_to <= limit,
        -limit <= q_next <= limit,
    ensures
        -9 * limit <= catmull(q_prev, q_from, q_to, q_next, s, n, curvature) <= 9 * limit,
        ({
            let h = hermite(s, n);
            -18 * (cube(n) * limit) * UNIT <= (h.0 * q_from + h.2 * q_to) * (2 * UNIT) + (h.1 * (q_to - q_prev)
                + h.3 * (q_next - q_from)) * curvature <= 18 * (cube(n) * limit) * UNIT
        }),
        s == 0 ==> catmull(q_prev, q_from, q_to, q_next, s, n, curvature) == q_from,
{
    lemma_hermite_bounds(s, n);
    let h = hermite(s, n);
    let c = cube(n);
    let cl = c * limit;
    lemma_product_bounds(h.0, q_from, 3 * c, limit);
    lemma_product_bounds(h.2, q_to, 3 * c, limit);
    lemma_product_bounds(h.1, q_to - q_prev, 2 * c, 2 * limit);
    lemma_product_bounds(h.3, q_next - q_from, c, 2 * limit);
    assert((3 * c) * limit == 3 * cl && (2 * c) * (2 * limit) == 4 * cl && c * (2 * limit) == 2
        * cl) by (nonlinear_arith)
        requires
            cl == c * limit,
    ;
    let plain = h.0 * q_from + h.2 * q_to;
    let bent = h.1 * (q_to - q_prev) + h.3 * (q_next - q_from);
    assert(0 <= cl) by (nonlinear_arith)
        requires
            cl == c * limit,
            c >= 1,
            limit >= 0,
    ;
    lemma_product_bounds(plain, 2 * UNIT, 6 * cl, 2 * UNIT);
    lemma_product_bounds(bent, curvature, 6 * cl, UNIT as int);
    let num = plain * (2 * UNIT) + bent * curvature;
    let den = 2 * UNIT * c;
    assert((6 * cl) * (2 * UNIT) + (6 * cl) * UNIT == 18 * cl * UNIT) by (nonlinear_arith);
    assert(18 * cl * UNIT == den * (9 * limit)) by (nonlinear_arith)
        requires
            cl == c * limit,
            den == 2 * UNIT * c,
    ;
    assert(den >= 1) by (nonlinear_arith)
        requires
            den == 2 * UNIT * c,
            c >= 1,
            UNIT == 1_000_000,
    ;
    lemma_toward_zero_monotonic(num, den * (9 * limit), den);
    lemma_toward_zero_monotonic(-(den * (9 * limit)), num, den);
    lemma_div_multiples_vanish(9 * limit, den);
    if s == 0 {
        assert(num == den * q_from) by (nonlinear_arith)
            requires
                num == (c * q_from + 0 * q_to) * (2 * UNIT) + (0 * (q_to - q_prev) + 0 * (q_next - q_from)) * curvature,
                den == 2 * UNIT * c,
        ;
        if q_from >= 0 {
            lemma_div_multiples_vanish(q_from, den);
            assert(den * q_from >= 0) by (nonlinear_arith)
                requires
                    den >= 1,
                    q_from >= 0,
            ;
        } else {
            lemma_div_multiples_vanish(-q_from, den);
            assert(-(den * q_from) == den * (-q_from)) by (nonlinear_arith);
            assert(den * q_from < 0) by (nonlinear_arith)
                requires
                    den >= 1,
                    q_from < 0,
            ;
        }
    }
}

/// The neighbour before segment `i`: the point before it, or its own start.
pub open spec fn neighbor_before(points: Seq<ProjectedPoint>, i: int) -> ProjectedPoint {
    if i > 0 {
        points[i - 1]
    } else {
        points[i]
    }
}

/// The neighbour after segment `i`: the point after its end, or its own end.
pub open spec fn neighbor_after(points: Seq<ProjectedPoint>, i: int) -> ProjectedPoint {
    if i + 2 < points.len() {
        points[i + 2]
    } else {
        points[i + 1]
    }
}

/// The colour value on the curve: on the Catmull-Rom curve where all four
/// values are known, else interpolated between the known ones.
pub open spec fn curve_value(
    v0: Option<i64>,
    v1: Option<i64>,
    v2: Option<i64>,
    v3: Option<i64>,
    s: int,
    n: int,
    curvature: int,
) -> Option<i64> {
    match (v0, v1, v2, v3) {
        (Some(a), Some(b), Some(c), Some(d)) => Some(
            catmull(a as int, b as int, c as int, d as int, s, n, curvature) as i64,
        ),
        _ => lerp_optional(v1, v2, s, n),
    }
}

/// The point at step `s` of `n` on the curve over segment `i`.
pub open spec fn curve_point(points: Seq<ProjectedPoint>, i: int, s: int, n: int, curvature: int) -> ProjectedPoint {
    let q_prev = neighbor_before(points, i);
    let q_from = points[i];
    let q_to = points[i + 1];
    let q_next = neighbor_after(points, i);
    ProjectedPoint {
        ground_x: catmull(
            q_prev.ground_x as int,
            q_from.ground_x as int,
            q_to.ground_x as int,
            q_next.ground_x as int,
            s,
            n,
            curvature,
        ) as i64,
        ground_y: catmull(
            q_prev.ground_y as int,
            q_from.ground_y as int,
            q_to.ground_y as int,
            q_next.ground_y as int,
            s,
            n,
            curvature,
        ) as i64,
        top_x: catmull(
            q_prev.top_x as int,
            q_from.top_x as int,
            q_to.top_x as int,
            q_next.top_x as int,
            s,
            n,
            curvature,
        ) as i64,
        top_y: catmull(
            q_prev.top_y as int,
            q_from.top_y as int,
            q_to.top_y as int,
            q_next.top_y as int,
            s,
            n,
            curvature,
        ) as i64,
        value: curve_value(q_prev.value, q_from.value, q_to.value, q_next.value, s, n, curvature),
        route_progress: lerp(q_from.route_progress as int, q_to.route_progress as int, s, n) as u64,
    }
}

/// The curve points of the first `k` steps, counted through all segments
/// with `n` steps each. Step zero of every segment but the first is left out.
pub open spec fn curve_prefix(points: Seq<ProjectedPoint>, n: int, curvature: int, k: int) -> Seq<
    ProjectedPoint,
>
    decreases k,
{
    if k <= 0 || n <= 0 {
        Seq::empty()
    } else {
        let before = curve_prefix(points, n, curvature, k - 1);
        let i = (k - 1) / n;
        let s = (k - 1) % n;
        if i > 0 && s == 0 {
            before
        } else {
            before.push(curve_point(points, i, s, n, curvature))
        }
    }
}

/// The scene with every segment divided into `n` pieces along the
/// Catmull-Rom curve through its points, ending in its last point. A scene
/// of fewer than three points, or a division into fewer than two pieces,
/// leaves the scene as it is.
pub open spec fn subdivided(points: Seq<ProjectedPoint>, tension: u32, n: int) -> Seq<ProjectedPoint> {
    if points.len() < 3 || n < 2 {
        points
    } else {
        curve_prefix(points, n, curvature_of(tension), (points.len() - 1) * n).push(points.last())
    }
}

/// Largest magnitude of a coordinate of a curve point.
pub const CURVE_LIMIT: i64 = 0x900_0000_0000;

/// Whether a curve point is within the limits that the curve keeps.
pub open spec fn on_curve(p: ProjectedPoint) -> bool {
    &&& within(p, CURVE_LIMIT as int)
    &&& value_within(p.value, 9 * UNIT)
    &&& p.route_progress <= UNIT
}

/// Whether all points are within the limits that the curve keeps.
pub open spec fn all_on_curve(points: Seq<ProjectedPoint>) -> bool {
    forall|i: int| 0 <= i < points.len() ==> on_curve(#[trigger] points[i])
}

/// Evaluates the Catmull-Rom curve.
#[verifier::rlimit(40)]
fn catmull_rom_scalar(q_prev: i64, q_from: i64, q_to: i64, q_next: i64, s: u64, n: u64, curvature: u64) -> (r: i64)
    requires
        0 <= s < n <= MAX_SUBDIVISIONS,
        curvature <= UNIT,
        -CANVAS_LIMIT <= q_prev <= CANVAS_LIMIT,
        -CANVAS_LIMIT <= q_from <= CANVAS_LIMIT,
        -CANVAS_LIMIT <= q_to <= CANVAS_LIMIT,
        -CANVAS_LIMIT <= q_next <= CANVAS_LIMIT,
    ensures
        r == catmull(
            q_prev as int,
            q_from as int,
            q_to as int,
            q_next as int,
            s as int,
            n as int,
            curvature as int,
        ),
        -CURVE_LIMIT <= r <= CURVE_LIMIT,
{
    proof {
        lemma_hermite_bounds(s as int, n as int);
        lemma_catmull_bounds(
            q_prev as int,
            q_from as int,
            q_to as int,
            q_next as int,
            s as int,
            n as int,
            curvature as int,
            CANVAS_LIMIT as int,
        );
        assert(n * n * n <= 262_144) by (nonlinear_arith)
            requires
                1 <= n <= 64,
        ;
        assert(0 <= s * s <= 4096 && 0 <= n * s <= 4096 && 0 <= n * n <= 4096)
            by (nonlinear_arith)
            requires
                0 <= s < n <= 64,
        ;
        assert(0 <= s * s * s <= n * n * n && 0 <= n * s * s <= n * n * n && 0 <= n * n * s <= n
            * n * n) by (nonlinear_arith)
            requires
                0 <= s < n,
        ;
    }
    let si = s as i128;
    let ni = n as i128;
    let s3: i128 = si * si * si;
    let ns2: i128 = ni * si * si;
    let n2s: i128 = ni * ni * si;
    let n3: i128 = ni * ni * ni;
    let h0: i128 = 2 * s3 - 3 * ns2 + n3;
    let h1: i128 = s3 - 2 * ns2 + n2s;
    let h2: i128 = 3 * ns2 - 2 * s3;
    let h3: i128 = s3 - ns2;
    proof {
        lemma_product_bounds(h0 as int, q_from as int, 786_432, CANVAS_LIMIT as int);
        lemma_product_bounds(h2 as int, q_to as int, 786_432, CANVAS_LIMIT as int);
        lemma_product_bounds(h1 as int, q_to - q_prev, 524_288, 2 * CANVAS_LIMIT);
        lemma_product_bounds(h3 as int, q_next - q_from, 262_144, 2 * CANVAS_LIMIT);
    }
    let plain: i128 = h0 * (q_from as i128) + h2 * (q_to as i128);
    let bent: i128 = h1 * (q_to as i128 - q_prev as i128) + h3 * (q_next as i128 - q_from as i128);
    proof {
        lemma_product_bounds(plain as int, 2 * UNIT, 6 * 262_144 * CANVAS_LIMIT, 2 * UNIT);
        lemma_product_bounds(
            bent as int,
            curvature as int,
            6 * 262_144 * CANVAS_LIMIT,
            UNIT as int,
        );
        assert(1 <= 2 * UNIT * (n * n * n) <= 2 * 1_000_000 * 262_144) by (nonlinear_arith)
            requires
                1 <= n * n * n <= 262_144,
                UNIT == 1_000_000,
        ;
        assert(2 * UNIT * cube(n as int) == 2 * UNIT * (n * n * n)) by (nonlinear_arith);
    }
    let num: i128 = plain * (2 * UNIT as i128) + bent * (curvature as i128);
    let den: u128 = 2 * (UNIT as u128) * (n3 as u128);
    divide_toward_zero(num, den) as i64
}

/// Evaluates the colour value on the curve.
fn catmull_rom_optional(
    v0: Option<i64>,
    v1: Option<i64>,
    v2: Option<i64>,
    v3: Option<i64>,
    s: u64,
    n: u64,
    curvature: u64,
) -> (r: Option<i64>)
    requires
        0 <= s < n <= MAX_SUBDIVISIONS,
        curvature <= UNIT,
        value_within(v0, UNIT as int),
        value_within(v1, UNIT as int),
        value_within(v2, UNIT as int),
        value_within(v3, UNIT as int),
    ensures
        r == curve_value(v0, v1, v2, v3, s as int, n as int, curvature as int),
        value_within(r, 9 * UNIT),
{
    match (v0, v1, v2, v3) {
        (Some(a), Some(b), Some(c), Some(d)) => {
            proof {
                lemma_catmull_bounds(
                    a as int,
                    b as int,
                    c as int,
                    d as int,
                    s as int,
                    n as int,
                    curvature as int,
                    UNIT as int,
                );
            }
            Some(catmull_rom_scalar(a, b, c, d, s, n, curvature))
        },
        _ => {
            let r = lerp_optional_of(v1, v2, s, n);
            assert(value_within(r, UNIT as int));
            r
        },
    }
}

/// The point at step `s` of `n` on the curve over segment `i`.
fn curve_point_of(points: &Vec<ProjectedPoint>, i: usize, s: u64, n: u64, curvature: u64) -> (out:
    ProjectedPoint)
    requires
        all_on_canvas(points@),
        i + 1 < points@.len(),
        0 <= s < n <= MAX_SUBDIVISIONS,
        curvature <= UNIT,
    ensures
        out == curve_point(points@, i as int, s as int, n as int, curvature as int),
        on_curve(out),
{
    let len = points.len();
    let q_prev = if i > 0 {
        points[i - 1]
    } else {
        points[i]
    };
    let q_from = points[i];
    let q_to = points[i + 1];
    let q_next = if len - i > 2 {
        points[i + 2]
    } else {
        points[i + 1]
    };
    let progress = lerp_of(q_from.route_progress as i64, q_to.route_progress as i64, s, n);
    ProjectedPoint {
        ground_x: catmull_rom_scalar(
            q_prev.ground_x,
            q_from.ground_x,
            q_to.ground_x,
            q_next.ground_x,
            s,
            n,
            curvature,
        ),
        ground_y: catmull_rom_scalar(
            q_prev.ground_y,
            q_from.ground_y,
            q_to.ground_y,
            q_next.ground_y,
            s,
            n,
            curvature,
        ),
        top_x: catmull_rom_scalar(q_prev.top_x, q_from.top_x, q_to.top_x, q_next.top_x, s, n, curvature),
        top_y: catmull_rom_scalar(q_prev.top_y, q_from.top_y, q_to.top_y, q_next.top_y, s, n, curvature),
        value: catmull_rom_optional(q_prev.value, q_from.value, q_to.value, q_next.value, s, n, curvature),
        route_progress: progress as u64,
    }
}

/// Smooths a scene: divides every segment into `subdivisions` pieces along
/// the Catmull-Rom curve through its points; see [`subdivided`].
pub fn subdivide_projected_catmull(points: &Vec<ProjectedPoint>, tension: u32, subdivisions: usize) -> (out:
    Vec<ProjectedPoint>)
    requires
        all_on_canvas(points@),
        subdivisions <= MAX_SUBDIVISIONS,
    ensures
        out@ == subdivided(points@, tension, subdivisions as int),
        all_on_curve(out@),
        points@.len() >= 1 ==> out@.len() >= 1,
{
    let len = points.len();
    if len < 3 || subdivisions < 2 {
        let out = copy_scene(points);
        assert(all_on_curve(out@)) by {
            assert forall|i: int| 0 <= i < out@.len() implies on_curve(#[trigger] out@[i]) by {
                assert(on_canvas(points@[i]));
            }
        }
        return out;
    }
    let limited: u64 = if tension > 500_000 {
        500_000
    } else {
        tension as u64
    };
    let curvature: u64 = limited * 2;
    let n: u64 = subdivisions as u64;
    let mut out: Vec<ProjectedPoint> = Vec::new();
    let mut i: usize = 0;
    while i < len - 1
        invariant
            0 <= i <= len - 1,
            3 <= len == points@.len(),
            2 <= n <= MAX_SUBDIVISIONS,
            n == subdivisions,
            curvature == curvature_of(tension),
            curvature <= UNIT,
            all_on_canvas(points@),
            all_on_curve(out@),
            out@ == curve_prefix(points@, n as int, curvature as int, i * n),
        decreases len - i,
    {
        let mut step: u64 = 0;
        while step < n
            invariant
                0 <= step <= n,
                0 <= i < len - 1,
                3 <= len == points@.len(),
                2 <= n <= MAX_SUBDIVISIONS,
                curvature <= UNIT,
                all_on_canvas(points@),
                all_on_curve(out@),
                out@ == curve_prefix(points@, n as int, curvature as int, i * n + step),
            decreases n - step,
        {
            proof {
                vstd::arithmetic::div_mod::lemma_fundamental_div_mod_converse(
                    i * n + step,
                    n as int,
                    i as int,
                    step as int,
                );
            }
            if !(i > 0 && step == 0) {
                let point = curve_point_of(points, i, step, n, curvature);
                out.push(point);
            }
            step = step + 1;
        }
        assert(i * n + n == (i + 1) * n) by (nonlinear_arith);
        i = i + 1;
    }
    let last = points[len - 1];
    assert(on_canvas(last));
    out.push(last);
    assert(out@ =~= subdivided(points@, tension, subdivisions as int));
    out
}

/// The order `order` with index `k` put in behind every index whose depth
/// is no larger than that of `k`.
pub open spec fn insert_by_depth(order: Seq<int>, depths: Seq<int>, k: int) -> Seq<int>
    decreases order.len(),
{
    if order.len() == 0 {
        seq![k]
    } else if depths[order.last()] <= depths[k] {
        order.push(k)
    } else {
        insert_by_depth(order.drop_last(), depths, k).push(order.last())
    }
}

/// The first `n` indices in the order in which they are painted: by
/// growing depth, and among equal depths by growing index.
pub open spec fn depth_order(depths: Seq<int>, n: int) -> Seq<int>
    decreases n,
{
    if n <= 0 {
        Seq::empty()
    } else {
        insert_by_depth(depth_order(depths, n - 1), depths, n - 1)
    }
}

/// Whether an order goes by growing depth, and among equal depths by growing index.
pub open spec fn is_painted_back_to_front(order: Seq<int>, depths: Seq<int>) -> bool {
    forall|a: int, b: int|
        0 <= a < b < order.len() ==> depths[#[trigger] order[a]] < depths[#[trigger] order[b]] || (
        depths[order[a]] == depths[order[b]] && order[a] < order[b])
}

/// Putting an index in keeps the order sorted and adds just that index.
#[verifier::rlimit(40)]
pub proof fn lemma_insert_by_depth(order: Seq<int>, depths: Seq<int>, k: int)
    requires
        is_painted_back_to_front(order, depths),
        forall|a: int| 0 <= a < order.len() ==> #[trigger] order[a] < k,
    ensures
        is_painted_back_to_front(insert_by_depth(order, depths, k), depths),
        insert_by_depth(order, depths, k).len() == order.len() + 1,
        forall|x: int|
            #[trigger] insert_by_depth(order, depths, k).contains(x) <==> (order.contains(x) || x
                == k),
    decreases order.len(),
{
    let out = insert_by_depth(order, depths, k);
    if order.len() == 0 {
        assert(out =~= seq![k]);
        assert forall|x: int| #[trigger] out.contains(x) <==> (order.contains(x) || x == k) by {
            if x == k {
                assert(out[0] == k);
            }
        }
    } else if depths[order.last()] <= depths[k] {
        assert forall|a: int, b: int| 0 <= a < b < out.len() implies depths[#[trigger] out[a]]
            < depths[#[trigger] out[b]] || (depths[out[a]] == depths[out[b]] && out[a]
            < out[b]) by {
            if b == order.len() {
                if a < order.len() - 1 {
                    assert(order[a] == out[a] && order[order.len() - 1] == order.last());
                }
            }
        }
        assert forall|x: int| #[trigger] out.contains(x) <==> (order.contains(x) || x == k) by {
            if x == k {
                assert(out[order.len() as int] == k);
            }
            if order.contains(x) {
                let a = choose|a: int| 0 <= a < order.len() && order[a] == x;
                assert(out[a] == x);
            }
        }
    } else {
        let rest = order.drop_last();
        assert forall|a: int, b: int| 0 <= a < b < rest.len() implies depths[#[trigger] rest[a]]
            < depths[#[trigger] rest[b]] || (depths[rest[a]] == depths[rest[b]] && rest[a]
            < rest[b]) by {
            assert(rest[a] == order[a] && rest[b] == order[b]);
        }
        assert forall|a: int| 0 <= a < rest.len() implies #[trigger] rest[a] < k by {
            assert(rest[a] == order[a]);
        }
        lemma_insert_by_depth(rest, depths, k);
        let inner = insert_by_depth(rest, depths, k);
        assert forall|a: int, b: int| 0 <= a < b < out.len() implies depths[#[trigger] out[a]]
            < depths[#[trigger] out[b]] || (depths[out[a]] == depths[out[b]] && out[a]
            < out[b]) by {
            if b == inner.len() {
                assert(out[a] == inner[a]);
                assert(inner.contains(inner[a]));
                if inner[a] != k {
                    assert(rest.contains(inner[a]));
                    let c = choose|c: int| 0 <= c < rest.len() && rest[c] == inner[a];
                    assert(order[c] == inner[a] && order[order.len() - 1] == order.last());
                }
            } else {
                assert(out[a] == inner[a] && out[b] == inner[b]);
            }
        }
        assert forall|x: int| #[trigger] out.contains(x) <==> (order.contains(x) || x == k) by {
            if out.contains(x) {
                let a = choose|a: int| 0 <= a < out.len() && out[a] == x;
                if a < inner.len() {
                    assert(inner[a] == x);
                    assert(inner.contains(x));
                    if rest.contains(x) {
                        let c = choose|c: int| 0 <= c < rest.len() && rest[c] == x;
                        assert(order[c] == x);
                    }
                } else {
                    assert(order[order.len() - 1] == x);
                }
            }
            if order.contains(x) {
                let c = choose|c: int| 0 <= c < order.len() && order[c] == x;
                if c < rest.len() {
                    assert(rest[c] == x);
                    assert(rest.contains(x));
                    assert(inner.contains(x));
                    let a = choose|a: int| 0 <= a < inner.len() && inner[a] == x;
                    assert(out[a] == x);
                } else {
                    assert(out[inner.len() as int] == x);
                }
            }
            if x == k {
                assert(inner.contains(k));
                let a = choose|a: int| 0 <= a < inner.len() && inner[a] == k;
                assert(out[a] == k);
            }
        }
    }
}

/// The painting order holds each of the first `n` indices once, and goes
/// back to front: by growing depth, equal depths in their first order.
pub proof fn lemma_depth_order(depths: Seq<int>, n: int)
    requires
        0 <= n,
    ensures
        depth_order(depths, n).len() == n,
        is_painted_back_to_front(depth_order(depths, n), depths),
        forall|x: int| #[trigger] depth_order(depths, n).contains(x) <==> 0 <= x < n,
    decreases n,
{
    if n > 0 {
        lemma_depth_order(depths, n - 1);
        let before = depth_order(depths, n - 1);
        assert forall|a: int| 0 <= a < before.len() implies #[trigger] before[a] < n - 1 by {
            assert(before.contains(before[a]));
        }
        lemma_insert_by_depth(before, depths, n - 1);
    } else {
        assert forall|x: int| #[trigger] depth_order(depths, n).contains(x) <==> 0 <= x < n by {
            if depth_order(depths, n).contains(x) {
                let a = choose|a: int| 0 <= a < depth_order(depths, n).len() && depth_order(
                    depths,
                    n,
                )[a] == x;
            }
        }
    }
}

/// The depths of a list of machine integers.
pub open spec fn depths_of(depths: Seq<i64>) -> Seq<int> {
    Seq::new(depths.len(), |i: int| depths[i] as int)
}

/// The indices of a list of machine indices.
pub open spec fn indices_of(order: Seq<usize>) -> Seq<int> {
    Seq::new(order.len(), |i: int| order[i] as int)
}

/// Orders the indices of `depths` back to front.
#[verifier::rlimit(40)]
pub fn paint_order(depths: &Vec<i64>) -> (order: Vec<usize>)
    ensures
        indices_of(order@) == depth_order(depths_of(depths@), depths@.len() as int),
        order@.len() == depths@.len(),
        forall|a: int| 0 <= a < order@.len() ==> #[trigger] order@[a] < depths@.len(),
{
    let n = depths.len();
    let ghost keys = depths_of(depths@);
    let mut order: Vec<usize> = Vec::new();
    let mut k: usize = 0;
    while k < n
        invariant
            0 <= k <= n,
            n == depths@.len(),
            keys == depths_of(depths@),
            indices_of(order@) == depth_order(keys, k as int),
            order@.len() == k,
            forall|a: int| 0 <= a < order@.len() ==> #[trigger] order@[a] < k,
        decreases n - k,
    {
        let ghost before = indices_of(order@);
        let mut pos: usize = order.len();
        proof {
            assert(before.subrange(0, pos as int) =~= before);
            assert(insert_by_depth(before, keys, k as int) + before.subrange(
                pos as int,
                before.len() as int,
            ) =~= insert_by_depth(before, keys, k as int));
        }
        while pos > 0 && depths[order[pos - 1]] > depths[k]
            invariant
                0 <= pos <= order@.len(),
                k < n,
                n == depths@.len(),
                keys == depths_of(depths@),
                before == indices_of(order@),
                forall|a: int| 0 <= a < order@.len() ==> #[trigger] order@[a] < k,
                insert_by_depth(before, keys, k as int) == insert_by_depth(
                    before.subrange(0, pos as int),
                    keys,
                    k as int,
                ) + before.subrange(pos as int, before.len() as int),
            decreases pos,
        {
            proof {
                let head = before.subrange(0, pos as int);
                assert(head.last() == before[pos - 1]);
                assert(head.drop_last() =~= before.subrange(0, pos - 1));
                assert(insert_by_depth(head, keys, k as int) == insert_by_depth(
                    head.drop_last(),
                    keys,
                    k as int,
                ).push(head.last()));
                assert(insert_by_depth(head.drop_last(), keys, k as int).push(head.last())
                    + before.subrange(pos as int, before.len() as int) =~= insert_by_depth(
                    head.drop_last(),
                    keys,
                    k as int,
                ) + before.subrange(pos - 1, before.len() as int));
            }
            pos = pos - 1;
        }
        proof {
            let head = before.subrange(0, pos as int);
            if pos > 0 {
                assert(head.last() == before[pos - 1]);
                assert(insert_by_depth(head, keys, k as int) == head.push(k as int));
            } else {
                assert(head.len() == 0);
                assert(insert_by_depth(head, keys, k as int) == seq![k as int]);
            }
        }
        order.insert(pos, k);
        assert(indices_of(order@) =~= insert_by_depth(before, keys, k as int)) by {
            assert(indices_of(order@) =~= before.subrange(0, pos as int).push(k as int)
                + before.subrange(pos as int, before.len() as int));
            if pos == 0 {
                assert(before.subrange(0, pos as int).push(k as int) =~= seq![k as int]);
            }
        }
        k = k + 1;
    }
    assert(forall|a: int| 0 <= a < order@.len() ==> #[trigger] order@[a] < n);
    order
}

/// A route projected and laid onto the canvas, ready to be drawn at any progress.
#[derive(Debug, Clone)]
pub struct Scene {
    pub points: Vec<ProjectedPoint>,
}

impl Scene {
    /// Whether every point of the scene lies on the canvas.
    pub open spec fn wf(&self) -> bool {
        all_on_canvas(self.points@)
    }
}

/// Why no scene can be built of a route, if anything: the padding leaves no
/// viewport; fewer than two points are left after simplification; none of
/// them has an elevation; a coordinate is too large to be projected; or the
/// lifts are not one for each point that is left.
pub open spec fn scene_problem(points: Seq<RoutePoint>, options: RenderOptions, lifts: Seq<u64>) -> Option<
    Seq<char>,
> {
    let kept = simplified(points, stride_of(options.simplify));
    if options.width <= 2 * options.padding || options.height <= 2 * options.padding {
        Some("Invalid viewport size"@)
    } else if kept.len() < 2 {
        Some(too_few_points())
    } else if lowest_elevation(kept, kept.len() as int).is_none() {
        Some(no_elevation())
    } else if !coordinates_ok(kept) {
        Some("Route coordinates out of range"@)
    } else if lifts.len() != kept.len() {
        Some("Elevation lifts do not match the route"@)
    } else {
        None
    }
}

/// The scene of a route: its simplified points in the isometric view, each
/// top raised by its lift of the extrusion height, fitted into the viewport
/// that the padding leaves of the canvas.
pub open spec fn scene_of(points: Seq<RoutePoint>, options: RenderOptions, lifts: Seq<u64>) -> Seq<
    ProjectedPoint,
> {
    let kept = simplified(points, stride_of(options.simplify));
    fitted(
        projected_of(
            kept,
            lifts,
            options.padding as int,
            lowest_elevation(kept, kept.len() as int).unwrap(),
            highest_elevation(kept, kept.len() as int).unwrap(),
        ),
        options.padding as int,
        options.width - 2 * options.padding,
        options.height - 2 * options.padding,
    )
}

/// Tells whether every point of a route can be projected.
fn check_coordinates(points: &Vec<RoutePoint>) -> (ok: bool)
    ensures
        ok == coordinates_ok(points@),
{
    let mut i: usize = 0;
    while i < points.len()
        invariant
            0 <= i <= points@.len(),
            forall|j: int| 0 <= j < i ==> coordinate_ok(#[trigger] points@[j]),
        decreases points@.len() - i,
    {
        let p = points[i];
        if p.x < -COORD_LIMIT || p.x > COORD_LIMIT || p.y < -COORD_LIMIT || p.y > COORD_LIMIT {
            assert(!coordinate_ok(points@[i as int]));
            return false;
        }
        i = i + 1;
    }
    true
}

/// Builds the scene of a route once, for all frames: simplifies the route,
/// projects it with the fixed camera, raises the tops, and fits the result
/// into the viewport.
///
/// `lifts[i]` is the share of the extrusion height, in millionths, by which
/// the top of the `i`-th point left after simplification is raised: the
/// elevation curve applied to its elevation share.
#[verifier::rlimit(40)]
pub fn precompute_route_3d(data: &VizData, options: &RenderOptions, lifts: &Vec<u64>) -> (result:
    Result<Scene, RenderError>)
    ensures
        match result {
            Ok(scene) => scene_problem(data.points@, *options, lifts@).is_none() && scene.points@
                == scene_of(data.points@, *options, lifts@) && scene.wf(),
            Err(RenderError::SvgError(text)) => scene_problem(data.points@, *options, lifts@)
                == Some(text@),
        },
{
    if options.width as u64 <= 2 * options.padding as u64 || options.height as u64 <= 2
        * options.padding as u64 {
        return Err(RenderError::SvgError(String::from_str("Invalid viewport size")));
    }
    let view_w: u32 = options.width - 2 * options.padding;
    let view_h: u32 = options.height - 2 * options.padding;
    let kept = match filter_route_points(&data.points, options.simplify) {
        Ok(kept) => kept,
        Err(e) => {
            return Err(e);
        },
    };
    let (low, high) = match route_elevation_bounds(&kept) {
        Ok(bounds) => bounds,
        Err(e) => {
            return Err(e);
        },
    };
    if !check_coordinates(&kept) {
        return Err(RenderError::SvgError(String::from_str("Route coordinates out of range")));
    }
    if lifts.len() != kept.len() {
        return Err(
            RenderError::SvgError(String::from_str("Elevation lifts do not match the route")),
        );
    }
    let projected = project_to_isometric(&kept, lifts, options.padding, low, high);
    match fit_to_viewport(&projected, options.padding, view_w, view_h) {
        Ok(points) => {
            assert(all_on_canvas(points@)) by {
                assert forall|i: int| 0 <= i < points@.len() implies on_canvas(
                    #[trigger] points@[i],
                ) by {
                    assert(in_viewport(
                        points@[i],
                        options.padding as int,
                        view_w as int,
                        view_h as int,
                    ));
                    let source = projected@[i];
                    assert(source == project_point(
                        kept@[i],
                        lifts@[i],
                        options.padding as int,
                        low as int,
                        high as int,
                    ));
                    assert(points@[i].value == source.value);
                    assert(points@[i].route_progress == source.route_progress);
                }
            }
            Ok(Scene { points })
        },
        Err(e) => Err(e),
    }
}

/// Draws a precomputed scene at a route progress in millionths, with the
/// statistics of that moment.
pub fn render_svg_frame_precomputed(
    scene: &Scene,
    options: &RenderOptions,
    progress: u64,
    stats: &Vec<StatOverlayItem>,
) -> (text: String)
    requires
        scene.wf(),
        stats@.len() <= 0xFFFF_FFFF,
    ensures
        text@ == frame_text(scene.points@, *options, progress, stats@),
{
    render_scene_frame(&scene.points, options, progress, stats)
}

/// Draws the three-dimensional route at a progress: builds the scene and
/// draws it.
pub fn render_route_3d(
    data: &VizData,
    options: &RenderOptions,
    progress: u64,
    stats: &Vec<StatOverlayItem>,
    lifts: &Vec<u64>,
) -> (result: Result<String, RenderError>)
    requires
        stats@.len() <= 0xFFFF_FFFF,
    ensures
        match result {
            Ok(text) => scene_problem(data.points@, *options, lifts@).is_none() && text@
                == frame_text(scene_of(data.points@, *options, lifts@), *options, progress, stats@),
            Err(RenderError::SvgError(text)) => scene_problem(data.points@, *options, lifts@)
                == Some(text@),
        },
{
    match precompute_route_3d(data, options, lifts) {
        Ok(scene) => Ok(render_svg_frame_precomputed(&scene, options, progress, stats)),
        Err(e) => Err(e),
    }
}

/// Produces the document of a route for one progress, in millionths of the
/// route; a progress beyond one whole counts as one whole.
pub fn render_svg_frame(
    data: &VizData,
    options: &RenderOptions,
    progress: u64,
    stats: &Vec<StatOverlayItem>,
    lifts: &Vec<u64>,
) -> (result: Result<String, RenderError>)
    requires
        stats@.len() <= 0xFFFF_FFFF,
    ensures
        match result {
            Ok(text) => scene_problem(data.points@, *options, lifts@).is_none() && text@
                == frame_text(scene_of(data.points@, *options, lifts@), *options, progress, stats@),
            Err(RenderError::SvgError(text)) => scene_problem(data.points@, *options, lifts@)
                == Some(text@),
        },
{
    render_route_3d(data, options, progress, stats, lifts)
}

} // verus!
