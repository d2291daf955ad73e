//! The text of a scene: walls, strokes, glow, end points and the
//! statistics overlay.

use vstd::prelude::*;
use vstd::string::StringExecFns;
use crate::fixed::{clamp_int, divide_toward_zero, lemma_product_bounds, toward_zero, UNIT};
use crate::fixed::lesser;
use crate::pipeline::render::{all_on_canvas, all_on_curve, depth_order, depths_of, indices_of, lemma_lerp_bounds, lerp, on_curve, paint_order, reveal_projected_points, revealed, subdivide_projected_catmull, subdivided, within, ProjectedPoint, CURVE_LIMIT, WALL_SUBDIVISIONS};
use crate::fixed::larger;
use crate::text::{decimal, hundredths, push_decimal, push_hundredths, push_tenths, tenths};
use crate::types::gradient::{gradient_color, Gradient};
use crate::types::viz::{RenderOptions, StatOverlayItem};

verus! {

/// How many colours a coloured route is drawn in.
pub const COLOR_BUCKETS: usize = 48;

/// A colour position with its contrast raised: stretched by 1.55 around
/// the middle and kept within one whole.
pub open spec fn contrast(value: int) -> int {
    clamp_int(
        toward_zero((clamp_int(value, 0, UNIT as int) - UNIT / 2) * 155, 100) + UNIT / 2,
        0,
        UNIT as int,
    )
}

/// Raises the contrast of a colour position.
pub fn remap_color_contrast(value: i64) -> (r: u64)
    ensures
        r == contrast(value as int),
        r <= UNIT,
{
    let v: i128 = if value < 0 {
        0
    } else if value > UNIT as i64 {
        UNIT as i128
    } else {
        value as i128
    };
    let moved = divide_toward_zero((v - (UNIT / 2) as i128) * 155, 100) + (UNIT / 2) as i128;
    if moved < 0 {
        0
    } else if moved > UNIT as i128 {
        UNIT
    } else {
        moved as u64
    }
}

/// The position along the gradient of the segment that starts at point `i`:
/// its colour value, or its place in the series where it has none.
pub open spec fn segment_position(points: Seq<ProjectedPoint>, i: int) -> int {
    match points[i].value {
        Some(v) => v as int,
        None => (i * UNIT) / larger(points.len() - 1, 1),
    }
}

/// Two numbers of hundredths with a separator between them.
pub open spec fn pair_text(x: int, y: int, separator: Seq<char>) -> Seq<char> {
    hundredths(x) + separator + hundredths(y)
}

/// Appends two numbers of hundredths with a separator between them.
pub fn push_pair(out: &mut String, x: i64, y: i64, separator: &str)
    ensures
        final(out)@ == old(out)@ + pair_text(x as int, y as int, separator@),
{
    let ghost start = out@;
    push_hundredths(out, x);
    out.append(separator);
    push_hundredths(out, y);
    assert(out@ =~= start + pair_text(x as int, y as int, separator@));
}

/// The ground and the top of a scene point, as a polygon lists them.
pub open spec fn upward_text(p: ProjectedPoint) -> Seq<char> {
    pair_text(p.ground_x as int, p.ground_y as int, ","@) + " "@ + pair_text(
        p.top_x as int,
        p.top_y as int,
        ","@,
    )
}

/// The top and the ground of a scene point, as a polygon lists them.
pub open spec fn downward_text(p: ProjectedPoint) -> Seq<char> {
    pair_text(p.top_x as int, p.top_y as int, ","@) + " "@ + pair_text(
        p.ground_x as int,
        p.ground_y as int,
        ","@,
    )
}

/// The wall between point `i` and the next: a polygon from ground to top
/// and back, filled with the colour of the segment.
pub open spec fn wall_text(points: Seq<ProjectedPoint>, stops: Seq<Seq<char>>, i: int) -> Seq<char> {
    wall_shape_text(points[i], points[i + 1]) + gradient_color(
        stops,
        contrast(segment_position(points, i)),
    ) + "\" fill-opacity=\"0.24\"/>"@
}

/// The outline of the wall between two scene points, up to its colour.
pub open spec fn wall_shape_text(a: ProjectedPoint, b: ProjectedPoint) -> Seq<char> {
    "<polygon points=\""@ + upward_text(a) + " "@ + downward_text(b) + "\" fill=\""@
}

/// Appends the outline of the wall between two scene points.
fn push_wall_shape(out: &mut String, a: &ProjectedPoint, b: &ProjectedPoint)
    ensures
        final(out)@ == old(out)@ + wall_shape_text(*a, *b),
{
    let ghost start = out@;
    out.append("<polygon points=\"");
    push_upward(out, a);
    out.append(" ");
    push_downward(out, b);
    out.append("\" fill=\"");
    assert(out@ =~= start + wall_shape_text(*a, *b));
}

/// Appends the ground and the top of a scene point.
fn push_upward(out: &mut String, p: &ProjectedPoint)
    ensures
        final(out)@ == old(out)@ + upward_text(*p),
{
    let ghost start = out@;
    push_pair(out, p.ground_x, p.ground_y, ",");
    out.append(" ");
    push_pair(out, p.top_x, p.top_y, ",");
    assert(out@ =~= start + upward_text(*p));
}

/// Appends the top and the ground of a scene point.
fn push_downward(out: &mut String, p: &ProjectedPoint)
    ensures
        final(out)@ == old(out)@ + downward_text(*p),
{
    let ghost start = out@;
    push_pair(out, p.top_x, p.top_y, ",");
    out.append(" ");
    push_pair(out, p.ground_x, p.ground_y, ",");
    assert(out@ =~= start + downward_text(*p));
}

/// The depth of the wall that starts at point `i`: twice the mean of the
/// ground ordinates of its two points.
pub open spec fn wall_depth(points: Seq<ProjectedPoint>, i: int) -> int {
    points[i].ground_y + points[i + 1].ground_y
}

/// The depths of all walls of a scene.
pub open spec fn wall_depths(points: Seq<ProjectedPoint>) -> Seq<int> {
    Seq::new(
        if points.len() > 0 {
            (points.len() - 1) as nat
        } else {
            0
        },
        |i: int| wall_depth(points, i),
    )
}

/// The texts of the first `k` walls in the given order.
pub open spec fn walls_in_order(
    points: Seq<ProjectedPoint>,
    stops: Seq<Seq<char>>,
    order: Seq<int>,
    k: int,
) -> Seq<char>
    decreases k,
{
    if k <= 0 {
        Seq::empty()
    } else {
        walls_in_order(points, stops, order, k - 1) + wall_text(points, stops, order[k - 1])
    }
}

/// The walls of a scene, painted back to front.
pub open spec fn walls_text(points: Seq<ProjectedPoint>, stops: Seq<Seq<char>>) -> Seq<char> {
    let depths = wall_depths(points);
    walls_in_order(points, stops, depth_order(depths, depths.len() as int), depths.len() as int)
}

/// The position along the gradient of the segment that starts at point `i`.
fn segment_position_of(points: &Vec<ProjectedPoint>, i: usize) -> (t: i64)
    requires
        i < points@.len(),
    ensures
        t == segment_position(points@, i as int),
{
    match points[i].value {
        Some(v) => v,
        None => {
            let last: u128 = if points.len() > 1 {
                (points.len() - 1) as u128
            } else {
                1
            };
            assert(i * UNIT <= 0xFFFF_FFFF_FFFF_FFFF * 1_000_000) by (nonlinear_arith)
                requires
                    i <= 0xFFFF_FFFF_FFFF_FFFF,
                    UNIT == 1_000_000,
            ;
            proof {
                crate::fixed::lemma_scale_ratio_bounds(i as int, last as int, UNIT as int);
            }
            ((i as u128 * UNIT as u128) / last) as i64
        },
    }
}

/// Appends the wall between point `i` and the next.
#[verifier::rlimit(40)]
fn push_wall(out: &mut String, points: &Vec<ProjectedPoint>, gradient: &Gradient, i: usize)
    requires
        i + 1 < points@.len(),
    ensures
        final(out)@ == old(out)@ + wall_text(points@, gradient.stops(), i as int),
{
    let ghost start = out@;
    let len = points.len();
    let color = gradient.interpolate(remap_color_contrast(segment_position_of(points, i)));
    push_wall_shape(out, &points[i], &points[i + 1]);
    out.append(color.as_str());
    out.append("\" fill-opacity=\"0.24\"/>");
    assert(out@ =~= start + wall_text(points@, gradient.stops(), i as int));
}

/// Writes the walls of a scene: one polygon for every pair of consecutive
/// points, in the order in which they are painted, back to front.
#[verifier::rlimit(40)]
pub fn build_wall_polygons(points: &Vec<ProjectedPoint>, gradient: &Gradient) -> (text: String)
    requires
        all_on_curve(points@),
    ensures
        text@ == walls_text(points@, gradient.stops()),
{
    let n = points.len();
    let mut depths: Vec<i64> = Vec::new();
    if n < 2 {
        assert(depths_of(depths@) =~= wall_depths(points@));
        assert(wall_depths(points@).len() == 0);
        return String::new();
    }
    let mut i: usize = 0;
    while i < n - 1
        invariant
            0 <= i <= n - 1,
            n >= 2,
            n == points@.len(),
            all_on_curve(points@),
            depths@.len() == i,
            forall|j: int| 0 <= j < i ==> #[trigger] depths@[j] == wall_depth(points@, j),
        decreases n - i,
    {
        assert(on_curve(points@[i as int]) && on_curve(points@[i + 1]));
        depths.push(points[i].ground_y + points[i + 1].ground_y);
        i = i + 1;
    }
    assert(depths_of(depths@) =~= wall_depths(points@));
    let order = paint_order(&depths);
    let ghost painted = depth_order(wall_depths(points@), depths@.len() as int);
    let mut text = String::new();
    let mut k: usize = 0;
    while k < order.len()
        invariant
            0 <= k <= order@.len(),
            n == points@.len(),
            order@.len() == depths@.len(),
            depths@.len() + 1 == n,
            indices_of(order@) == painted,
            forall|a: int| 0 <= a < order@.len() ==> #[trigger] order@[a] < depths@.len(),
            text@ == walls_in_order(points@, gradient.stops(), painted, k as int),
        decreases order@.len() - k,
    {
        assert(painted[k as int] == order@[k as int]);
        push_wall(&mut text, points, gradient, order[k]);
        k = k + 1;
    }
    text
}

/// The abscissa of a scene point: of its top or of its ground.
pub open spec fn spot_x(p: ProjectedPoint, top: bool) -> int {
    if top {
        p.top_x as int
    } else {
        p.ground_x as int
    }
}

/// The ordinate of a scene point: of its top or of its ground.
pub open spec fn spot_y(p: ProjectedPoint, top: bool) -> int {
    if top {
        p.top_y as int
    } else {
        p.ground_y as int
    }
}

/// The abscissa of a scene point.
fn spot_x_of(p: &ProjectedPoint, top: bool) -> (x: i64)
    ensures
        x == spot_x(*p, top),
{
    if top {
        p.top_x
    } else {
        p.ground_x
    }
}

/// The ordinate of a scene point.
fn spot_y_of(p: &ProjectedPoint, top: bool) -> (y: i64)
    ensures
        y == spot_y(*p, top),
{
    if top {
        p.top_y
    } else {
        p.ground_y
    }
}

/// A path through the first `k` points in straight lines.
pub open spec fn polyline_text(points: Seq<ProjectedPoint>, top: bool, k: int) -> Seq<char>
    decreases k,
{
    if k <= 0 {
        Seq::empty()
    } else if k == 1 {
        "M "@ + pair_text(spot_x(points[0], top), spot_y(points[0], top), " "@)
    } else {
        polyline_text(points, top, k - 1) + " L "@ + pair_text(
            spot_x(points[k - 1], top),
            spot_y(points[k - 1], top),
            " "@,
        )
    }
}

/// Writes a path through the points in straight lines.
pub fn build_polyline_path(points: &Vec<ProjectedPoint>, top: bool) -> (path: String)
    ensures
        path@ == polyline_text(points@, top, points@.len() as int),
{
    let mut path = String::new();
    let mut k: usize = 0;
    while k < points.len()
        invariant
            0 <= k <= points@.len(),
            path@ == polyline_text(points@, top, k as int),
        decreases points@.len() - k,
    {
        let ghost before = path@;
        if k == 0 {
            path.append("M ");
        } else {
            path.append(" L ");
        }
        push_pair(&mut path, spot_x_of(&points[k], top), spot_y_of(&points[k], top), " ");
        assert(path@ =~= polyline_text(points@, top, k + 1));
        k = k + 1;
    }
    path
}

/// The first control point of the curve over the segment from `q_from` to
/// `q_to`: `q_from` moved by the tension times `q_to - q_prev`.
pub open spec fn control_after(q_prev: int, q_from: int, q_to: int, tension: int) -> int {
    q_from + (lerp(q_prev, q_to, lesser(tension, UNIT as int), UNIT as int) - q_prev)
}

/// The second control point of the curve over the segment from `q_from` to
/// `q_to`: `q_to` moved back by the tension times `q_next - q_from`.
pub open spec fn control_before(q_from: int, q_to: int, q_next: int, tension: int) -> int {
    q_to - (lerp(q_from, q_next, lesser(tension, UNIT as int), UNIT as int) - q_from)
}

/// The cubic curve over segment `i` of the path.
pub open spec fn curve_to_text(points: Seq<ProjectedPoint>, top: bool, tension: int, i: int) -> Seq<
    char,
> {
    let q_prev = crate::pipeline::render::neighbor_before(points, i);
    let q_from = points[i];
    let q_to = points[i + 1];
    let q_next = crate::pipeline::render::neighbor_after(points, i);
    cubic_text(
        control_after(spot_x(q_prev, top), spot_x(q_from, top), spot_x(q_to, top), tension),
        control_after(spot_y(q_prev, top), spot_y(q_from, top), spot_y(q_to, top), tension),
        control_before(spot_x(q_from, top), spot_x(q_to, top), spot_x(q_next, top), tension),
        control_before(spot_y(q_from, top), spot_y(q_to, top), spot_y(q_next, top), tension),
        spot_x(q_to, top),
        spot_y(q_to, top),
    )
}

/// A cubic curve to `(x, y)` with two control points.
pub open spec fn cubic_text(c1x: int, c1y: int, c2x: int, c2y: int, x: int, y: int) -> Seq<char> {
    " C "@ + pair_text(c1x, c1y, " "@) + " "@ + pair_text(c2x, c2y, " "@) + " "@ + pair_text(
        x,
        y,
        " "@,
    )
}

/// Appends a cubic curve.
fn push_cubic(out: &mut String, c1x: i64, c1y: i64, c2x: i64, c2y: i64, x: i64, y: i64)
    ensures
        final(out)@ == old(out)@ + cubic_text(
            c1x as int,
            c1y as int,
            c2x as int,
            c2y as int,
            x as int,
            y as int,
        ),
{
    let ghost start = out@;
    out.append(" C ");
    push_pair(out, c1x, c1y, " ");
    out.append(" ");
    push_pair(out, c2x, c2y, " ");
    out.append(" ");
    push_pair(out, x, y, " ");
    assert(out@ =~= start + cubic_text(
        c1x as int,
        c1y as int,
        c2x as int,
        c2y as int,
        x as int,
        y as int,
    ));
}

/// A smooth path from the first point over the first `k` segments.
pub open spec fn smooth_prefix(points: Seq<ProjectedPoint>, top: bool, tension: int, k: int) -> Seq<
    char,
>
    decreases k,
{
    if k <= 0 {
        "M "@ + pair_text(spot_x(points[0], top), spot_y(points[0], top), " "@)
    } else {
        smooth_prefix(points, top, tension, k - 1) + curve_to_text(points, top, tension, k - 1)
    }
}

/// A smooth path through all points; empty for no points.
pub open spec fn smooth_text(points: Seq<ProjectedPoint>, top: bool, tension: int) -> Seq<char> {
    if points.len() == 0 {
        Seq::empty()
    } else {
        smooth_prefix(points, top, tension, points.len() - 1)
    }
}

/// A control point: `anchor` moved by the tension times `to - from`, away
/// from or back toward it.
fn control_of(anchor: i64, from: i64, to: i64, tension: u64, forward: bool) -> (c: i64)
    requires
        tension <= UNIT,
        -CURVE_LIMIT <= anchor <= CURVE_LIMIT,
        -CURVE_LIMIT <= from <= CURVE_LIMIT,
        -CURVE_LIMIT <= to <= CURVE_LIMIT,
    ensures
        forward ==> c == anchor + (lerp(from as int, to as int, tension as int, UNIT as int)
            - from),
        !forward ==> c == anchor - (lerp(from as int, to as int, tension as int, UNIT as int)
            - from),
{
    proof {
        lemma_lerp_bounds(from as int, to as int, tension as int, UNIT as int);
        lemma_product_bounds(to - from, tension as int, 2 * CURVE_LIMIT, UNIT as int);
    }
    let moved: i128 = divide_toward_zero(
        (to as i128 - from as i128) * (tension as i128),
        UNIT as u128,
    );
    if forward {
        (anchor as i128 + moved) as i64
    } else {
        (anchor as i128 - moved) as i64
    }
}

/// Appends the cubic curve over segment `i`.
#[verifier::rlimit(40)]
fn push_curve_to(out: &mut String, points: &Vec<ProjectedPoint>, top: bool, tension: u32, i: usize)
    requires
        i + 1 < points@.len(),
        all_on_curve(points@),
    ensures
        final(out)@ == old(out)@ + curve_to_text(points@, top, tension as int, i as int),
{
    let ghost start = out@;
    let len = points.len();
    let t: u64 = if tension as u64 > UNIT {
        UNIT
    } else {
        tension as u64
    };
    let q_prev = if i > 0 {
        points[i - 1]
    } else {
        points[i]
    };
    let q_from = points[i];
    let q_to = points[i + 1];
    let q_next = if len - i > 2 {
        points[i + 2]
    } else {
        points[i + 1]
    };
    assert(on_curve(q_prev) && on_curve(q_from) && on_curve(q_to) && on_curve(q_next));
    let c1x = control_of(spot_x_of(&q_from, top), spot_x_of(&q_prev, top), spot_x_of(&q_to, top), t, true);
    let c1y = control_of(spot_y_of(&q_from, top), spot_y_of(&q_prev, top), spot_y_of(&q_to, top), t, true);
    let c2x = control_of(spot_x_of(&q_to, top), spot_x_of(&q_from, top), spot_x_of(&q_next, top), t, false);
    let c2y = control_of(spot_y_of(&q_to, top), spot_y_of(&q_from, top), spot_y_of(&q_next, top), t, false);
    push_cubic(out, c1x, c1y, c2x, c2y, spot_x_of(&q_to, top), spot_y_of(&q_to, top));
}

/// Writes a smooth path through the points: cubic curves whose control
/// points follow the neighbours of each segment.
pub fn build_smooth_path(points: &Vec<ProjectedPoint>, top: bool, tension: u32) -> (path: String)
    requires
        all_on_curve(points@),
    ensures
        path@ == smooth_text(points@, top, tension as int),
{
    let n = points.len();
    let mut path = String::new();
    if n == 0 {
        return path;
    }
    path.append("M ");
    push_pair(&mut path, spot_x_of(&points[0], top), spot_y_of(&points[0], top), " ");
    assert(path@ =~= smooth_prefix(points@, top, tension as int, 0));
    let mut i: usize = 0;
    while i < n - 1
        invariant
            0 <= i <= n - 1,
            1 <= n == points@.len(),
            all_on_curve(points@),
            path@ == smooth_prefix(points@, top, tension as int, i as int),
        decreases n - i,
    {
        push_curve_to(&mut path, points, top, tension, i);
        i = i + 1;
    }
    path
}

/// The path of the route: smooth where there is tension, else straight.
pub open spec fn route_path_text(points: Seq<ProjectedPoint>, top: bool, tension: int) -> Seq<char> {
    if tension > 0 {
        smooth_text(points, top, tension)
    } else {
        polyline_text(points, top, points.len() as int)
    }
}

/// Writes the path of the route.
pub fn build_route_path(points: &Vec<ProjectedPoint>, top: bool, tension: u32) -> (path: String)
    requires
        all_on_curve(points@),
    ensures
        path@ == route_path_text(points@, top, tension as int),
{
    if tension > 0 {
        build_smooth_path(points, top, tension)
    } else {
        build_polyline_path(points, top)
    }
}

/// The position along the gradient that colours the stroke of the segment
/// that starts at point `i`: its colour value with the contrast raised, or
/// its place in the series where it has none.
pub open spec fn stroke_position(points: Seq<ProjectedPoint>, i: int) -> int {
    match points[i].value {
        Some(v) => contrast(v as int),
        None => (i * UNIT) / (points.len() - 1),
    }
}

/// The colour bucket of the segment that starts at point `i`: its stroke
/// position times the last bucket, rounded.
pub open spec fn bucket_of(points: Seq<ProjectedPoint>, i: int) -> int {
    (stroke_position(points, i) * (COLOR_BUCKETS - 1) + UNIT / 2) / (UNIT as int)
}

/// The line over the segment that starts at point `i`, along the tops.
pub open spec fn segment_command(points: Seq<ProjectedPoint>, i: int) -> Seq<char> {
    "M "@ + pair_text(points[i].top_x as int, points[i].top_y as int, " "@) + " L "@ + pair_text(
        points[i + 1].top_x as int,
        points[i + 1].top_y as int,
        " "@,
    )
}

/// The lines of the segments among the first `k` that fall into `bucket`,
/// with a space between one and the next.
pub open spec fn bucket_commands(points: Seq<ProjectedPoint>, bucket: int, k: int) -> Seq<char>
    decreases k,
{
    if k <= 0 {
        Seq::empty()
    } else {
        let before = bucket_commands(points, bucket, k - 1);
        if bucket_of(points, k - 1) != bucket {
            before
        } else if before.len() == 0 {
            segment_command(points, k - 1)
        } else {
            before + " "@ + segment_command(points, k - 1)
        }
    }
}

/// The attributes that every stroke ends in.
pub open spec fn stroke_tail(width: nat) -> Seq<char> {
    "\" stroke-width=\""@ + tenths(width) + "\" stroke-linecap=\"round\" stroke-linejoin=\"round\""@
}

/// The path of one colour bucket; nothing for a bucket without segments.
pub open spec fn bucket_path(
    points: Seq<ProjectedPoint>,
    stops: Seq<Seq<char>>,
    width: nat,
    bucket: int,
) -> Seq<char> {
    let commands = bucket_commands(points, bucket, points.len() - 1);
    if commands.len() == 0 {
        Seq::empty()
    } else {
        "<path d=\""@ + commands + "\" fill=\"none\" stroke=\""@ + gradient_color(
            stops,
            (bucket * UNIT) / (COLOR_BUCKETS - 1),
        ) + stroke_tail(width) + "/>"@
    }
}

/// The paths of the first `k` colour buckets.
pub open spec fn bucket_paths(
    points: Seq<ProjectedPoint>,
    stops: Seq<Seq<char>>,
    width: nat,
    k: int,
) -> Seq<char>
    decreases k,
{
    if k <= 0 {
        Seq::empty()
    } else {
        bucket_paths(points, stops, width, k - 1) + bucket_path(points, stops, width, k - 1)
    }
}

/// The stroke of a coloured route: one path for each colour bucket that
/// holds a segment; nothing for fewer than two points.
pub open spec fn segment_paths_text(points: Seq<ProjectedPoint>, stops: Seq<Seq<char>>, width: nat) -> Seq<
    char,
> {
    if points.len() < 2 {
        Seq::empty()
    } else {
        bucket_paths(points, stops, width, COLOR_BUCKETS as int)
    }
}

/// The colour bucket of the segment that starts at point `i`.
fn bucket_index(points: &Vec<ProjectedPoint>, i: usize) -> (bucket: usize)
    requires
        i + 1 < points@.len(),
    ensures
        bucket == bucket_of(points@, i as int),
        bucket < COLOR_BUCKETS,
{
    let position: u64 = match points[i].value {
        Some(v) => remap_color_contrast(v),
        None => {
            assert(i * UNIT <= 0xFFFF_FFFF_FFFF_FFFF * 1_000_000) by (nonlinear_arith)
                requires
                    i <= 0xFFFF_FFFF_FFFF_FFFF,
                    UNIT == 1_000_000,
            ;
            proof {
                crate::fixed::lemma_scale_ratio_bounds(
                    i as int,
                    points@.len() - 1,
                    UNIT as int,
                );
            }
            ((i as u128 * UNIT as u128) / ((points.len() - 1) as u128)) as u64
        },
    };
    ((position * 47 + UNIT / 2) / UNIT) as usize
}

/// Appends the line over the segment that starts at point `i`.
fn push_segment_command(out: &mut String, points: &Vec<ProjectedPoint>, i: usize)
    requires
        i + 1 < points@.len(),
    ensures
        final(out)@ == old(out)@ + segment_command(points@, i as int),
{
    let ghost start = out@;
    let a = points[i];
    let len = points.len();
    let b = points[i + 1];
    out.append("M ");
    push_pair(out, a.top_x, a.top_y, " ");
    out.append(" L ");
    push_pair(out, b.top_x, b.top_y, " ");
    assert(out@ =~= start + segment_command(points@, i as int));
}

/// Appends the attributes that every stroke ends in.
fn push_stroke_tail(out: &mut String, width: u64)
    ensures
        final(out)@ == old(out)@ + stroke_tail(width as nat),
{
    let ghost start = out@;
    out.append("\" stroke-width=\"");
    push_tenths(out, width);
    out.append("\" stroke-linecap=\"round\" stroke-linejoin=\"round\"");
    assert(out@ =~= start + stroke_tail(width as nat));
}

/// Writes the path of one colour bucket.
#[verifier::rlimit(40)]
fn build_bucket_path(points: &Vec<ProjectedPoint>, gradient: &Gradient, width: u64, bucket: usize) -> (path:
    String)
    requires
        2 <= points@.len(),
        bucket < COLOR_BUCKETS,
    ensures
        path@ == bucket_path(points@, gradient.stops(), width as nat, bucket as int),
{
    let n = points.len();
    let mut commands = String::new();
    let mut i: usize = 0;
    while i < n - 1
        invariant
            0 <= i <= n - 1,
            2 <= n == points@.len(),
            commands@ == bucket_commands(points@, bucket as int, i as int),
        decreases n - i,
    {
        if bucket_index(points, i) == bucket {
            if !commands.as_str().is_empty() {
                commands.append(" ");
            }
            push_segment_command(&mut commands, points, i);
        }
        assert(commands@ =~= bucket_commands(points@, bucket as int, i + 1));
        i = i + 1;
    }
    if commands.as_str().is_empty() {
        return String::new();
    }
    let color = gradient.interpolate((bucket as u64 * UNIT) / 47);
    let mut path = String::from_str("<path d=\"");
    path.append(commands.as_str());
    path.append("\" fill=\"none\" stroke=\"");
    path.append(color.as_str());
    push_stroke_tail(&mut path, width);
    path.append("/>");
    assert(path@ =~= bucket_path(points@, gradient.stops(), width as nat, bucket as int));
    path
}

/// Writes the stroke of a coloured route along the tops of the scene: the
/// segments are sorted into 48 colours of the gradient, and each colour
/// that occurs is drawn as one path. `stroke_width` is in tenths of a pixel.
pub fn build_segment_paths(points: &Vec<ProjectedPoint>, stroke_width: u64, gradient: &Gradient) -> (paths:
    String)
    ensures
        paths@ == segment_paths_text(points@, gradient.stops(), stroke_width as nat),
{
    let mut paths = String::new();
    if points.len() < 2 {
        return paths;
    }
    let mut bucket: usize = 0;
    while bucket < COLOR_BUCKETS
        invariant
            0 <= bucket <= COLOR_BUCKETS,
            2 <= points@.len(),
            paths@ == bucket_paths(
                points@,
                gradient.stops(),
                stroke_width as nat,
                bucket as int,
            ),
        decreases COLOR_BUCKETS - bucket,
    {
        let path = build_bucket_path(points, gradient, stroke_width, bucket);
        paths.append(path.as_str());
        bucket = bucket + 1;
    }
    paths
}

/// The definition of the glow filter; nothing where the glow is off.
pub open spec fn glow_filter_text(enabled: bool) -> Seq<char> {
    if enabled {
        "<filter id=\"glow\" x=\"-20%\" y=\"-20%\" width=\"140%\" height=\"140%\">\n      <feGaussianBlur stdDeviation=\"6\" result=\"blur\"/>\n      <feMerge>\n        <feMergeNode in=\"blur\"/>\n        <feMergeNode in=\"blur\"/>\n        <feMergeNode in=\"SourceGraphic\"/>\n      </feMerge>\n    </filter>"@
    } else {
        Seq::empty()
    }
}

/// Writes the definition of the glow filter: a Gaussian blur merged twice
/// under the drawing.
pub fn glow_filter_def(enabled: bool) -> (text: String)
    ensures
        text@ == glow_filter_text(enabled),
{
    if !enabled {
        return String::new();
    }
    String::from_str(
        "<filter id=\"glow\" x=\"-20%\" y=\"-20%\" width=\"140%\" height=\"140%\">\n      <feGaussianBlur stdDeviation=\"6\" result=\"blur\"/>\n      <feMerge>\n        <feMergeNode in=\"blur\"/>\n        <feMergeNode in=\"blur\"/>\n        <feMergeNode in=\"SourceGraphic\"/>\n      </feMerge>\n    </filter>",
    )
}

/// Where stop `i` of `count` lies along the gradient, in tenths of a
/// percent, rounded; at the start for a single stop.
pub open spec fn stop_offset(i: int, count: int) -> int {
    if count <= 1 {
        0
    } else {
        (i * 2000 + (count - 1)) / (2 * (count - 1))
    }
}

/// One stop of a gradient definition.
pub open spec fn stop_text(stops: Seq<Seq<char>>, i: int) -> Seq<char> {
    "<stop offset=\""@ + tenths(stop_offset(i, stops.len() as int) as nat)
        + "%\" style=\"stop-color:"@ + stops[i] + ";stop-opacity:1\" />"@
}

/// The first `k` stops of a gradient definition.
pub open spec fn stops_text(stops: Seq<Seq<char>>, k: int) -> Seq<char>
    decreases k,
{
    if k <= 0 {
        Seq::empty()
    } else {
        stops_text(stops, k - 1) + stop_text(stops, k - 1)
    }
}

/// The definition of a linear gradient from left to right.
pub open spec fn linear_gradient_text(id: Seq<char>, stops: Seq<Seq<char>>) -> Seq<char> {
    "<linearGradient id=\""@ + id + "\" x1=\"0%\" y1=\"0%\" x2=\"100%\" y2=\"0%\">\n      "@
        + stops_text(stops, stops.len() as int) + "\n    </linearGradient>"@
}

/// Writes the definition of a linear gradient with the stops of `gradient`
/// spread evenly from left to right.
#[verifier::rlimit(40)]
pub fn create_linear_gradient(id: &str, gradient: &Gradient) -> (text: String)
    ensures
        text@ == linear_gradient_text(id@, gradient.stops()),
{
    let count = gradient.colors.len();
    let mut text = String::from_str("<linearGradient id=\"");
    text.append(id);
    text.append("\" x1=\"0%\" y1=\"0%\" x2=\"100%\" y2=\"0%\">\n      ");
    let ghost head = text@;
    let mut i: usize = 0;
    while i < count
        invariant
            0 <= i <= count,
            count == gradient.colors@.len(),
            text@ == head + stops_text(gradient.stops(), i as int),
        decreases count - i,
    {
        let offset: u64 = if count <= 1 {
            0
        } else {
            proof {
                assert(i * 2000 + (count - 1) <= (count - 1) * 2001) by (nonlinear_arith)
                    requires
                        0 <= i <= count - 1,
                ;
                assert((count - 1) * 2001 <= (2 * (count - 1)) * 1001) by (nonlinear_arith)
                    requires
                        count >= 2,
                ;
                vstd::arithmetic::div_mod::lemma_div_is_ordered(
                    i * 2000 + (count - 1),
                    (2 * (count - 1)) * 1001,
                    2 * (count - 1),
                );
                vstd::arithmetic::div_mod::lemma_div_pos_is_pos(
                    i * 2000 + (count - 1),
                    2 * (count - 1),
                );
                vstd::arithmetic::div_mod::lemma_div_multiples_vanish(1001, 2 * (count - 1));
                assert((2 * (count - 1)) * 1001 == 1001 * (2 * (count - 1)))
                    by (nonlinear_arith);
            }
            ((i as u128 * 2000 + (count - 1) as u128) / (2 * (count - 1) as u128)) as u64
        };
        let ghost before = text@;
        text.append("<stop offset=\"");
        push_tenths(&mut text, offset);
        text.append("%\" style=\"stop-color:");
        text.append(gradient.colors[i]);
        text.append(";stop-opacity:1\" />");
        assert(text@ =~= before + stop_text(gradient.stops(), i as int));
        assert(text@ =~= head + stops_text(gradient.stops(), i + 1));
        i = i + 1;
    }
    text.append("\n    </linearGradient>");
    assert(text@ =~= linear_gradient_text(id@, gradient.stops()));
    text
}

/// A dot of the given radius and colour at a place, up to its opacity.
pub open spec fn dot_text(x: int, y: int, radius: int, color: Seq<char>) -> Seq<char> {
    "<circle cx=\""@ + hundredths(x) + "\" cy=\""@ + hundredths(y) + "\" r=\""@ + hundredths(radius)
        + "\" fill=\""@ + color + "\" opacity=\"0.95\"/>"@
}

/// Appends a dot.
fn push_dot(out: &mut String, x: i64, y: i64, radius: i64, color: &str)
    ensures
        final(out)@ == old(out)@ + dot_text(x as int, y as int, radius as int, color@),
{
    let ghost start = out@;
    out.append("<circle cx=\"");
    push_hundredths(out, x);
    out.append("\" cy=\"");
    push_hundredths(out, y);
    out.append("\" r=\"");
    push_hundredths(out, radius);
    out.append("\" fill=\"");
    out.append(color);
    out.append("\" opacity=\"0.95\"/>");
    assert(out@ =~= start + dot_text(x as int, y as int, radius as int, color@));
}

/// The colour of the first stop; white without stops.
pub open spec fn first_color(stops: Seq<Seq<char>>) -> Seq<char> {
    if stops.len() > 0 {
        stops[0]
    } else {
        "#FFFFFF"@
    }
}

/// The colour of the last stop; white without stops.
pub open spec fn last_color(stops: Seq<Seq<char>>) -> Seq<char> {
    if stops.len() > 0 {
        stops[stops.len() - 1]
    } else {
        "#FFFFFF"@
    }
}

/// The dots at the two ends of the route, on the tops of its first and its
/// last point: in the colours of the first and the last stop, with a radius
/// of 2.2 stroke widths. Nothing for fewer than two points.
pub open spec fn endpoint_dots_text(points: Seq<ProjectedPoint>, stops: Seq<Seq<char>>, stroke_width: u32) -> Seq<
    char,
> {
    if points.len() < 2 {
        Seq::empty()
    } else {
        dot_text(
            points[0].top_x as int,
            points[0].top_y as int,
            stroke_width * 22,
            first_color(stops),
        ) + "\n  "@ + dot_text(
            points.last().top_x as int,
            points.last().top_y as int,
            stroke_width * 22,
            last_color(stops),
        )
    }
}

/// Writes the dots at the two ends of the route.
pub fn build_3d_endpoint_dots(points: &Vec<ProjectedPoint>, options: &RenderOptions) -> (text: String)
    ensures
        text@ == endpoint_dots_text(points@, options.gradient.stops(), options.stroke_width),
{
    let n = points.len();
    let mut text = String::new();
    if n < 2 {
        return text;
    }
    let count = options.gradient.colors.len();
    let start_color: &str = if count > 0 {
        options.gradient.colors[0]
    } else {
        "#FFFFFF"
    };
    let end_color: &str = if count > 0 {
        options.gradient.colors[count - 1]
    } else {
        "#FFFFFF"
    };
    let radius: i64 = options.stroke_width as i64 * 22;
    push_dot(&mut text, points[0].top_x, points[0].top_y, radius, start_color);
    text.append("\n  ");
    push_dot(&mut text, points[n - 1].top_x, points[n - 1].top_y, radius, end_color);
    assert(text@ =~= endpoint_dots_text(
        points@,
        options.gradient.stops(),
        options.stroke_width,
    ));
    text
}

/// Font size of the statistics, in hundredths of a pixel: 2.4 percent of
/// the canvas height, between 12 and 34 pixels.
pub open spec fn stats_font_size(height: u32) -> int {
    clamp_int((height * 24) / 10, 1200, 3400)
}

/// Distance between two lines of the statistics, in hundredths of a pixel.
pub open spec fn stats_line_gap(height: u32) -> int {
    clamp_int((stats_font_size(height) * 138) / 100, 1800, 5200)
}

/// Distance from a label to its value, in hundredths of a pixel.
pub open spec fn stats_label_dx(height: u32) -> int {
    clamp_int((stats_font_size(height) * 61) / 10, 7200, 28000)
}

/// The opening of a text element at a place in a font size.
pub open spec fn text_open(x: int, y: int, size: int) -> Seq<char> {
    "<text x=\""@ + hundredths(x) + "\" y=\""@ + hundredths(y)
        + "\" font-family=\"Geist Sans, Geist, DejaVu Sans, sans-serif\" font-size=\""@
        + hundredths(size)
}

/// Appends the opening of a text element.
fn push_text_open(out: &mut String, x: i64, y: i64, size: i64)
    ensures
        final(out)@ == old(out)@ + text_open(x as int, y as int, size as int),
{
    let ghost start = out@;
    out.append("<text x=\"");
    push_hundredths(out, x);
    out.append("\" y=\"");
    push_hundredths(out, y);
    out.append("\" font-family=\"Geist Sans, Geist, DejaVu Sans, sans-serif\" font-size=\"");
    push_hundredths(out, size);
    assert(out@ =~= start + text_open(x as int, y as int, size as int));
}

/// Line `idx` of the statistics: the label in a smaller font, and beside it
/// the value, both in the line's colour of the gradient.
pub open spec fn stat_line_text(
    label: Seq<char>,
    value: Seq<char>,
    color: Seq<char>,
    idx: int,
    padding: u32,
    height: u32,
) -> Seq<char> {
    let x = (padding + 14) * 100;
    let y = (padding + 28) * 100 + idx * stats_line_gap(height);
    let size = stats_font_size(height);
    text_open(x, y, (size * 68) / 100)
        + "\" font-weight=\"600\" letter-spacing=\"0.2\" fill=\""@ + color
        + "\" fill-opacity=\"0.78\">"@ + label + "</text>\n"@ + text_open(
        x + stats_label_dx(height),
        y,
        size,
    ) + "\" font-weight=\"700\" fill=\""@ + color + "\">"@ + value + "</text>"@
}

/// The first `k` lines of the statistics.
pub open spec fn stat_lines_text(
    stats: Seq<StatOverlayItem>,
    stops: Seq<Seq<char>>,
    padding: u32,
    height: u32,
    k: int,
) -> Seq<char>
    decreases k,
{
    if k <= 0 {
        Seq::empty()
    } else {
        stat_lines_text(stats, stops, padding, height, k - 1) + stat_line_text(
            stats[k - 1].label@,
            stats[k - 1].value@,
            gradient_color(stops, stats[k - 1].color_t as int),
            k - 1,
            padding,
            height,
        )
    }
}

/// The statistics overlay: a group of one line for each item, from the
/// upper left corner down. Nothing without items.
pub open spec fn stats_overlay_text(
    stats: Seq<StatOverlayItem>,
    stops: Seq<Seq<char>>,
    padding: u32,
    height: u32,
) -> Seq<char> {
    if stats.len() == 0 {
        Seq::empty()
    } else {
        "<g id=\"statsOverlay\">"@ + stat_lines_text(
            stats,
            stops,
            padding,
            height,
            stats.len() as int,
        ) + "</g>"@
    }
}

/// Limits a size in hundredths of a pixel.
fn clamp_size(value: u64, lo: u64, hi: u64) -> (r: i64)
    requires
        lo <= hi <= 1_000_000,
    ensures
        r == clamp_int(value as int, lo as int, hi as int),
{
    if value < lo {
        lo as i64
    } else if value > hi {
        hi as i64
    } else {
        value as i64
    }
}

/// Appends one line of the statistics.
#[verifier::rlimit(40)]
fn push_stat_line(out: &mut String, stat: &StatOverlayItem, color: &str, idx: usize, padding: u32, height: u32)
    requires
        idx <= 0xFFFF_FFFF,
    ensures
        final(out)@ == old(out)@ + stat_line_text(
            stat.label@,
            stat.value@,
            color@,
            idx as int,
            padding,
            height,
        ),
{
    let ghost start = out@;
    let size = clamp_size(height as u64 * 24 / 10, 1200, 3400);
    let gap = clamp_size(size as u64 * 138 / 100, 1800, 5200);
    let dx = clamp_size(size as u64 * 61 / 10, 7200, 28000);
    let x: i64 = (padding as i64 + 14) * 100;
    assert(idx * gap <= 0xFFFF_FFFF * 5200) by (nonlinear_arith)
        requires
            0 <= idx <= 0xFFFF_FFFF,
            0 <= gap <= 5200,
    ;
    let y: i64 = (padding as i64 + 28) * 100 + idx as i64 * gap;
    push_text_open(out, x, y, size * 68 / 100);
    out.append("\" font-weight=\"600\" letter-spacing=\"0.2\" fill=\"");
    out.append(color);
    out.append("\" fill-opacity=\"0.78\">");
    out.append(stat.label.as_str());
    out.append("</text>\n");
    push_text_open(out, x + dx, y, size);
    out.append("\" font-weight=\"700\" fill=\"");
    out.append(color);
    out.append("\">");
    out.append(stat.value.as_str());
    out.append("</text>");
    assert(out@ =~= start + stat_line_text(
        stat.label@,
        stat.value@,
        color@,
        idx as int,
        padding,
        height,
    ));
}

/// Writes the statistics overlay.
pub fn build_stats_overlay(stats: &Vec<StatOverlayItem>, options: &RenderOptions) -> (text: String)
    requires
        stats@.len() <= 0xFFFF_FFFF,
    ensures
        text@ == stats_overlay_text(
            stats@,
            options.gradient.stops(),
            options.padding,
            options.height,
        ),
{
    let mut text = String::new();
    if stats.len() == 0 {
        return text;
    }
    text.append("<g id=\"statsOverlay\">");
    let ghost head = text@;
    let mut k: usize = 0;
    while k < stats.len()
        invariant
            0 <= k <= stats@.len(),
            stats@.len() <= 0xFFFF_FFFF,
            text@ == head + stat_lines_text(
                stats@,
                options.gradient.stops(),
                options.padding,
                options.height,
                k as int,
            ),
        decreases stats@.len() - k,
    {
        let color = options.gradient.interpolate(stats[k].color_t);
        let ghost before = text@;
        push_stat_line(&mut text, &stats[k], color.as_str(), k, options.padding, options.height);
        assert(text@ =~= head + stat_lines_text(
            stats@,
            options.gradient.stops(),
            options.padding,
            options.height,
            k + 1,
        ));
        k = k + 1;
    }
    text.append("</g>");
    assert(text@ =~= stats_overlay_text(
        stats@,
        options.gradient.stops(),
        options.padding,
        options.height,
    ));
    text
}

/// A stroke along a path: painted as `paint` says, in the given width, and
/// ended as `finish` says.
pub open spec fn stroke_text(d: Seq<char>, paint: Seq<char>, width: nat, finish: Seq<char>) -> Seq<
    char,
> {
    "<path d=\""@ + d + "\" fill=\"none\" stroke=\""@ + paint + stroke_tail(width) + finish
}

/// Writes a stroke along a path.
fn build_stroke(d: &str, paint: &str, width: u64, finish: &str) -> (text: String)
    ensures
        text@ == stroke_text(d@, paint@, width as nat, finish@),
{
    let mut text = String::from_str("<path d=\"");
    text.append(d);
    text.append("\" fill=\"none\" stroke=\"");
    text.append(paint);
    push_stroke_tail(&mut text, width);
    text.append(finish);
    assert(text@ =~= stroke_text(d@, paint@, width as nat, finish@));
    text
}

/// Whether the tops of a scene reach more than a pixel away from the first.
pub open spec fn has_extent(points: Seq<ProjectedPoint>) -> bool {
    points.len() >= 2 && exists|i: int| 0 <= i < points.len() && far_from_first(points, i)
}

/// Whether the top of point `i` lies more than a pixel from the first top.
pub open spec fn far_from_first(points: Seq<ProjectedPoint>, i: int) -> bool {
    let dx = points[i].top_x - points[0].top_x;
    let dy = points[i].top_y - points[0].top_y;
    dx * dx + dy * dy > 10000
}

/// Tells whether the tops of a scene reach more than a pixel away from the first.
fn scene_has_extent(points: &Vec<ProjectedPoint>) -> (found: bool)
    requires
        all_on_curve(points@),
    ensures
        found == has_extent(points@),
{
    let n = points.len();
    if n < 2 {
        return false;
    }
    let first = points[0];
    assert(on_curve(first));
    let mut i: usize = 0;
    while i < n
        invariant
            0 <= i <= n,
            2 <= n == points@.len(),
            all_on_curve(points@),
            first == points@[0],
            forall|j: int| 0 <= j < i ==> !far_from_first(points@, j),
        decreases n - i,
    {
        let p = points[i];
        assert(on_curve(p));
        let dx: i128 = p.top_x as i128 - first.top_x as i128;
        let dy: i128 = p.top_y as i128 - first.top_y as i128;
        proof {
            lemma_product_bounds(dx as int, dx as int, 2 * CURVE_LIMIT, 2 * CURVE_LIMIT);
            lemma_product_bounds(dy as int, dy as int, 2 * CURVE_LIMIT, 2 * CURVE_LIMIT);
        }
        if dx * dx + dy * dy > 10000 {
            assert(far_from_first(points@, i as int));
            return true;
        }
        i = i + 1;
    }
    false
}

/// The widths of the strokes of a scene, in tenths of a pixel, for a route
/// stroke of `stroke_width`: the ground line of nine tenths, the outline of
/// one and a half, the glow of 2.4 stroke widths.
pub open spec fn stroke_widths(stroke_width: u32) -> (nat, nat, nat) {
    (
        ((stroke_width * 9) / 10) as nat,
        ((stroke_width * 15) / 10) as nat,
        ((stroke_width * 24) / 10) as nat,
    )
}

/// The stroke along the tops of the route in its full width: one path in
/// the gradient, or the coloured segments where a channel colours the route.
pub open spec fn top_stroke_text(points: Seq<ProjectedPoint>, options: RenderOptions) -> Seq<char> {
    if options.color_by.is_some() {
        segment_paths_text(points, options.gradient.stops(), options.stroke_width as nat)
    } else {
        stroke_text(
            route_path_text(points, true, options.curve_tension as int),
            "url(#routeGradient)"@,
            options.stroke_width as nat,
            "/>"@,
        )
    }
}

/// The glow under the route: the route stroke again, wider, blurred and at
/// 60 percent opacity. Nothing where the glow is off.
pub open spec fn glow_text(points: Seq<ProjectedPoint>, options: RenderOptions, glow_on: bool) -> Seq<
    char,
> {
    if !glow_on {
        Seq::empty()
    } else if options.color_by.is_some() {
        "<g filter=\"url(#glow)\" opacity=\"0.6\">"@ + segment_paths_text(
            points,
            options.gradient.stops(),
            stroke_widths(options.stroke_width).2,
        ) + "</g>"@
    } else {
        stroke_text(
            route_path_text(points, true, options.curve_tension as int),
            "url(#routeGradient)"@,
            stroke_widths(options.stroke_width).2,
            " filter=\"url(#glow)\" opacity=\"0.6\"/>"@,
        )
    }
}

/// The faint white line along the ground of the route.
pub open spec fn ground_stroke_text(points: Seq<ProjectedPoint>, options: RenderOptions) -> Seq<char> {
    stroke_text(
        route_path_text(points, false, options.curve_tension as int),
        "#FFFFFF\" stroke-opacity=\"0.14"@,
        stroke_widths(options.stroke_width).0,
        "/>"@,
    )
}

/// The white outline under the stroke along the tops.
pub open spec fn outline_stroke_text(points: Seq<ProjectedPoint>, options: RenderOptions) -> Seq<char> {
    stroke_text(
        route_path_text(points, true, options.curve_tension as int),
        "#FFFFFF\" stroke-opacity=\"0.55"@,
        stroke_widths(options.stroke_width).1,
        "/>"@,
    )
}

/// The opening of the document with its definitions: the gradient of the
/// route and, where the glow is on, the glow filter.
pub open spec fn document_head(options: RenderOptions, glow_on: bool) -> Seq<char> {
    "<svg xmlns=\"http://www.w3.org/2000/svg\" width=\""@ + decimal(options.width as nat)
        + "\" height=\""@ + decimal(options.height as nat) + "\" viewBox=\"0 0 "@ + decimal(
        options.width as nat,
    ) + " "@ + decimal(options.height as nat) + "\">\n  <defs>\n    "@ + linear_gradient_text(
        "routeGradient"@,
        options.gradient.stops(),
    ) + "\n    "@ + glow_filter_text(glow_on) + "\n  </defs>"@
}

/// The drawing of a scene: walls, ground line, outline, glow and route stroke.
pub open spec fn drawing_text(points: Seq<ProjectedPoint>, options: RenderOptions, glow_on: bool) -> Seq<
    char,
> {
    "\n  "@ + walls_text(points, options.gradient.stops()) + "\n  "@ + ground_stroke_text(
        points,
        options,
    ) + "\n  "@ + outline_stroke_text(points, options) + "\n  "@ + glow_text(
        points,
        options,
        glow_on,
    ) + "\n  "@ + top_stroke_text(points, options)
}

/// The document of a scene: definitions, the drawing, the dots at the ends
/// of the route and the statistics overlay.
pub open spec fn scene_text(
    points: Seq<ProjectedPoint>,
    options: RenderOptions,
    stats: Seq<StatOverlayItem>,
) -> Seq<char> {
    let glow_on = options.glow && has_extent(points);
    document_head(options, glow_on) + drawing_text(points, options, glow_on) + "\n  "@
        + endpoint_dots_text(points, options.gradient.stops(), options.stroke_width) + "\n  "@
        + stats_overlay_text(stats, options.gradient.stops(), options.padding, options.height)
        + "\n</svg>"@
}

/// Writes the opening of the document with its definitions.
fn build_document_head(options: &RenderOptions, glow_on: bool) -> (text: String)
    ensures
        text@ == document_head(*options, glow_on),
{
    let gradient = create_linear_gradient("routeGradient", &options.gradient);
    let filter = glow_filter_def(glow_on);
    let mut text = String::from_str("<svg xmlns=\"http://www.w3.org/2000/svg\" width=\"");
    push_decimal(&mut text, options.width as u64);
    text.append("\" height=\"");
    push_decimal(&mut text, options.height as u64);
    text.append("\" viewBox=\"0 0 ");
    push_decimal(&mut text, options.width as u64);
    text.append(" ");
    push_decimal(&mut text, options.height as u64);
    text.append("\">\n  <defs>\n    ");
    text.append(gradient.as_str());
    text.append("\n    ");
    text.append(filter.as_str());
    text.append("\n  </defs>");
    assert(text@ =~= document_head(*options, glow_on));
    text
}

/// Writes the stroke along the tops of the route.
fn build_top_stroke(points: &Vec<ProjectedPoint>, options: &RenderOptions) -> (text: String)
    requires
        all_on_curve(points@),
    ensures
        text@ == top_stroke_text(points@, *options),
{
    if options.color_by.is_some() {
        build_segment_paths(points, options.stroke_width as u64, &options.gradient)
    } else {
        let d = build_route_path(points, true, options.curve_tension);
        build_stroke(d.as_str(), "url(#routeGradient)", options.stroke_width as u64, "/>")
    }
}

/// Writes the glow under the route.
fn build_glow(points: &Vec<ProjectedPoint>, options: &RenderOptions, glow_on: bool) -> (text: String)
    requires
        all_on_curve(points@),
    ensures
        text@ == glow_text(points@, *options, glow_on),
{
    let width: u64 = options.stroke_width as u64 * 24 / 10;
    if !glow_on {
        String::new()
    } else if options.color_by.is_some() {
        let segments = build_segment_paths(points, width, &options.gradient);
        let mut text = String::from_str("<g filter=\"url(#glow)\" opacity=\"0.6\">");
        text.append(segments.as_str());
        text.append("</g>");
        text
    } else {
        let d = build_route_path(points, true, options.curve_tension);
        build_stroke(
            d.as_str(),
            "url(#routeGradient)",
            width,
            " filter=\"url(#glow)\" opacity=\"0.6\"/>",
        )
    }
}

/// Writes the drawing of a scene.
fn build_drawing(points: &Vec<ProjectedPoint>, options: &RenderOptions, glow_on: bool) -> (text:
    String)
    requires
        all_on_curve(points@),
    ensures
        text@ == drawing_text(points@, *options, glow_on),
{
    let walls = build_wall_polygons(points, &options.gradient);
    let ground_width: u64 = options.stroke_width as u64 * 9 / 10;
    let ground_d = build_route_path(points, false, options.curve_tension);
    let ground = build_stroke(
        ground_d.as_str(),
        "#FFFFFF\" stroke-opacity=\"0.14",
        ground_width,
        "/>",
    );
    let top_d = build_route_path(points, true, options.curve_tension);
    let outline = build_stroke(
        top_d.as_str(),
        "#FFFFFF\" stroke-opacity=\"0.55",
        options.stroke_width as u64 * 15 / 10,
        "/>",
    );
    let glow = build_glow(points, options, glow_on);
    let top = build_top_stroke(points, options);
    let mut text = String::from_str("\n  ");
    text.append(walls.as_str());
    text.append("\n  ");
    text.append(ground.as_str());
    text.append("\n  ");
    text.append(outline.as_str());
    text.append("\n  ");
    text.append(glow.as_str());
    text.append("\n  ");
    text.append(top.as_str());
    assert(text@ =~= drawing_text(points@, *options, glow_on));
    text
}

/// Writes the document of a scene.
pub fn build_scene(points: &Vec<ProjectedPoint>, options: &RenderOptions, stats: &Vec<StatOverlayItem>) -> (text:
    String)
    requires
        all_on_curve(points@),
        stats@.len() <= 0xFFFF_FFFF,
    ensures
        text@ == scene_text(points@, *options, stats@),
{
    let glow_on = options.glow && scene_has_extent(points);
    let mut text = build_document_head(options, glow_on);
    let drawing = build_drawing(points, options, glow_on);
    let dots = build_3d_endpoint_dots(points, options);
    let overlay = build_stats_overlay(stats, options);
    text.append(drawing.as_str());
    text.append("\n  ");
    text.append(dots.as_str());
    text.append("\n  ");
    text.append(overlay.as_str());
    text.append("\n</svg>");
    assert(text@ =~= scene_text(points@, *options, stats@));
    text
}

/// The document of a fitted scene at a route progress: the scene revealed
/// up to the progress, smoothed, and drawn.
pub open spec fn frame_text(
    scene: Seq<ProjectedPoint>,
    options: RenderOptions,
    progress: u64,
    stats: Seq<StatOverlayItem>,
) -> Seq<char> {
    scene_text(
        subdivided(
            revealed(scene, progress as int),
            options.curve_tension,
            WALL_SUBDIVISIONS as int,
        ),
        options,
        stats,
    )
}

/// Draws a fitted scene at a route progress in millionths.
pub fn render_scene_frame(
    scene: &Vec<ProjectedPoint>,
    options: &RenderOptions,
    progress: u64,
    stats: &Vec<StatOverlayItem>,
) -> (text: String)
    requires
        all_on_canvas(scene@),
        stats@.len() <= 0xFFFF_FFFF,
    ensures
        text@ == frame_text(scene@, *options, progress, stats@),
{
    let shown = reveal_projected_points(scene, progress);
    let smoothed = subdivide_projected_catmull(&shown, options.curve_tension, WALL_SUBDIVISIONS);
    build_scene(&smoothed, options, stats)
}

} // verus!
