//! Per-point telemetry, normalised coordinates and colour values of a route.

use vstd::prelude::*;
use vstd::arithmetic::div_mod::{lemma_div_is_ordered, lemma_div_pos_is_pos};
use crate::error::PrepareError;
use crate::fixed::{clamp_int, divide_toward_zero, lemma_scale_ratio_bounds, lemma_scale_ratio_monotonic, ratio_u64, saturate_u128, scale_ratio, toward_zero, UNIT};
use crate::pipeline::process::{channel_count, channel_max, channel_sum, climb_mm, distance_up_to, elapsed_up_to, gain_up_to, heart_rates, lemma_channel_bounds, powers, seconds_between, speed_m_per_h, step_seconds, MAX_TRACK_POINTS};
use crate::types::activity::{AvailableData, Metrics, ProcessedActivity, TrackPoint};
use crate::fixed::lesser;
use crate::types::viz::{ColorByMetric, RenderOptions, RoutePoint, VizData};

verus! {

/// What the caller measured of a point series on the sphere of radius 6371 km:
/// `segments[i]` is the great-circle length from point `i` to point `i + 1`
/// in millimetres, and `ordinates[i]` the Mercator ordinate
/// `ln(tan(lat) + 1 / cos(lat))` of point `i`, in billionths.
#[derive(Debug, Clone)]
pub struct Geodesy {
    pub segments: Vec<u64>,
    pub ordinates: Vec<i64>,
}

impl Geodesy {
    /// Whether the measurements belong to a series of `n` points.
    pub open spec fn fits(&self, n: nat) -> bool {
        &&& self.ordinates@.len() == n
        &&& n >= 1 ==> self.segments@.len() + 1 == n
    }
}

/// How many neighbours on each side a grade is averaged over.
pub const SMOOTH_WINDOW: usize = 5;

/// The steepest grade that is told apart, in millionths.
pub const MAX_GRADE: i64 = 150_000;

/// Largest magnitude a colour value may have before it is normalised.
pub const VALUE_LIMIT: i128 = 0xFFFF_FFFF_FFFF_FFFF;

/// The smallest of the first `n` values.
pub open spec fn lowest(values: Seq<int>, n: int) -> int
    decreases n,
{
    if n <= 1 {
        values[0]
    } else {
        let before = lowest(values, n - 1);
        if values[n - 1] < before {
            values[n - 1]
        } else {
            before
        }
    }
}

/// The largest of the first `n` values.
pub open spec fn highest(values: Seq<int>, n: int) -> int
    decreases n,
{
    if n <= 1 {
        values[0]
    } else {
        let before = highest(values, n - 1);
        if values[n - 1] > before {
            values[n - 1]
        } else {
            before
        }
    }
}

/// Every one of the first `n` values lies between the smallest and the largest.
pub proof fn lemma_lowest_highest(values: Seq<int>, n: int, i: int)
    requires
        0 <= i < n <= values.len(),
    ensures
        lowest(values, n) <= values[i] <= highest(values, n),
    decreases n,
{
    if n > 1 && i < n - 1 {
        lemma_lowest_highest(values, n - 1, i);
    }
}

/// The abscissas of a list of plane points.
pub open spec fn abscissas(points: Seq<(i64, i64)>) -> Seq<int> {
    Seq::new(points.len(), |i: int| points[i].0 as int)
}

/// The ordinates of a list of plane points.
pub open spec fn ordinates(points: Seq<(i64, i64)>) -> Seq<int> {
    Seq::new(points.len(), |i: int| points[i].1 as int)
}

/// Whether both axes of a list of plane points have a nonzero range.
pub open spec fn has_extent(points: Seq<(i64, i64)>) -> bool {
    let n = points.len() as int;
    &&& n > 0
    &&& lowest(abscissas(points), n) < highest(abscissas(points), n)
    &&& lowest(ordinates(points), n) < highest(ordinates(points), n)
}

/// The points mapped onto the unit square, in millionths: each axis is
/// shifted by its minimum and divided by its range. Where an axis has no
/// range the points are left as they are.
pub open spec fn normalized(points: Seq<(i64, i64)>) -> Seq<(i64, i64)> {
    let n = points.len() as int;
    if !has_extent(points) {
        points
    } else {
        let min_x = lowest(abscissas(points), n);
        let min_y = lowest(ordinates(points), n);
        let range_x = highest(abscissas(points), n) - min_x;
        let range_y = highest(ordinates(points), n) - min_y;
        Seq::new(
            points.len(),
            |i: int|
                (
                    scale_ratio(points[i].0 - min_x, range_x, UNIT as int) as i64,
                    scale_ratio(points[i].1 - min_y, range_y, UNIT as int) as i64,
                ),
        )
    }
}

/// Normalised coordinates lie in the unit square whenever both axes have a
/// nonzero range.
pub proof fn lemma_normalized_in_unit_square(points: Seq<(i64, i64)>, i: int)
    requires
        has_extent(points),
        0 <= i < points.len(),
    ensures
        0 <= normalized(points)[i].0 <= UNIT,
        0 <= normalized(points)[i].1 <= UNIT,
{
    let n = points.len() as int;
    lemma_lowest_highest(abscissas(points), n, i);
    lemma_lowest_highest(ordinates(points), n, i);
    let min_x = lowest(abscissas(points), n);
    let min_y = lowest(ordinates(points), n);
    lemma_scale_ratio_bounds(
        points[i].0 - min_x,
        highest(abscissas(points), n) - min_x,
        UNIT as int,
    );
    lemma_scale_ratio_bounds(
        points[i].1 - min_y,
        highest(ordinates(points), n) - min_y,
        UNIT as int,
    );
}

/// Maps plane points onto the unit square; see [`normalized`].
pub fn normalize_route_points(points: &Vec<(i64, i64)>) -> (out: Vec<(i64, i64)>)
    ensures
        out@ == normalized(points@),
{
    let n = points.len();
    let mut out: Vec<(i64, i64)> = Vec::new();
    if n == 0 {
        assert(out@ =~= points@);
        return out;
    }
    let ghost xs = abscissas(points@);
    let ghost ys = ordinates(points@);
    let mut min_x: i64 = points[0].0;
    let mut max_x: i64 = points[0].0;
    let mut min_y: i64 = points[0].1;
    let mut max_y: i64 = points[0].1;
    let mut i: usize = 1;
    while i < n
        invariant
            1 <= i <= n,
            n == points@.len(),
            xs == abscissas(points@),
            ys == ordinates(points@),
            min_x == lowest(xs, i as int),
            max_x == highest(xs, i as int),
            min_y == lowest(ys, i as int),
            max_y == highest(ys, i as int),
        decreases n - i,
    {
        let p = points[i];
        if p.0 < min_x {
            min_x = p.0;
        }
        if p.0 > max_x {
            max_x = p.0;
        }
        if p.1 < min_y {
            min_y = p.1;
        }
        if p.1 > max_y {
            max_y = p.1;
        }
        i = i + 1;
    }
    proof {
        lemma_lowest_highest(xs, n as int, 0);
        lemma_lowest_highest(ys, n as int, 0);
    }
    if max_x == min_x || max_y == min_y {
        let mut j: usize = 0;
        while j < n
            invariant
                0 <= j <= n,
                n == points@.len(),
                out@ == points@.subrange(0, j as int),
            decreases n - j,
        {
            out.push(points[j]);
            assert(out@ =~= points@.subrange(0, j + 1));
            j = j + 1;
        }
        assert(out@ =~= points@);
        return out;
    }
    let range_x: u64 = (max_x as i128 - min_x as i128) as u64;
    let range_y: u64 = (max_y as i128 - min_y as i128) as u64;
    let mut j: usize = 0;
    while j < n
        invariant
            0 <= j <= n,
            n == points@.len(),
            has_extent(points@),
            xs == abscissas(points@),
            ys == ordinates(points@),
            min_x == lowest(xs, n as int),
            max_x == highest(xs, n as int),
            min_y == lowest(ys, n as int),
            max_y == highest(ys, n as int),
            range_x == max_x - min_x,
            range_y == max_y - min_y,
            out@ == normalized(points@).subrange(0, j as int),
        decreases n - j,
    {
        let p = points[j];
        proof {
            lemma_lowest_highest(xs, n as int, j as int);
            lemma_lowest_highest(ys, n as int, j as int);
        }
        let dx: u64 = (p.0 as i128 - min_x as i128) as u64;
        let dy: u64 = (p.1 as i128 - min_y as i128) as u64;
        let x = ratio_u64(dx, range_x, UNIT);
        let y = ratio_u64(dy, range_y, UNIT);
        out.push((x as i64, y as i64));
        assert(out@ =~= normalized(points@).subrange(0, j + 1));
        j = j + 1;
    }
    assert(out@ =~= normalized(points@));
    out
}

/// What is known of the route at one of its points.
#[derive(Debug, Clone, Copy, PartialEq, Eq, Structural)]
pub struct RouteTelemetrySample {
    pub route_progress: u64,
    pub cumulative_distance_mm: u64,
    pub cumulative_elevation_gain_mm: u64,
    pub elapsed_seconds: Option<u64>,
    pub heart_rate: Option<u16>,
    pub power: Option<u16>,
    pub cumulative_avg_heart_rate: Option<u32>,
    pub cumulative_max_heart_rate: Option<u16>,
    pub cumulative_avg_power: Option<u32>,
    pub cumulative_max_power: Option<u16>,
}

/// Progress by position in the series, for a route without length: the
/// index over the last index, in millionths; one whole for a single point.
pub open spec fn fallback_progress(n: int, i: int) -> int {
    if n <= 1 {
        UNIT as int
    } else {
        (i * UNIT) / (n - 1)
    }
}

/// The share `part / whole` in millionths, or `otherwise` where the whole is zero.
pub open spec fn share_or(part: int, whole: int, otherwise: int) -> int {
    if whole > 0 {
        scale_ratio(part, whole, UNIT as int)
    } else {
        otherwise
    }
}

/// Share of the route's length covered at point `i` of `n`, in millionths.
pub open spec fn route_progress_at(segments: Seq<u64>, n: int, i: int) -> int {
    share_or(
        distance_up_to(segments, i),
        distance_up_to(segments, n - 1),
        fallback_progress(n, i),
    )
}

/// Share of the route's elevation gain reached at point `i`, in millionths;
/// the route progress where the route gains nothing.
pub open spec fn gain_progress_at(points: Seq<TrackPoint>, segments: Seq<u64>, i: int) -> int {
    share_or(
        gain_up_to(points, i),
        gain_up_to(points, points.len() - 1),
        route_progress_at(segments, points.len() as int, i),
    )
}

/// Share of the route's time elapsed at point `i`, in millionths; the route
/// progress where no time passes along the route.
pub open spec fn elapsed_progress_at(points: Seq<TrackPoint>, segments: Seq<u64>, i: int) -> int {
    share_or(
        elapsed_up_to(points, i),
        elapsed_up_to(points, points.len() - 1),
        route_progress_at(segments, points.len() as int, i),
    )
}

/// The part of `amount` that a progress in millionths stands for.
pub open spec fn portion(progress: int, amount: int) -> int {
    scale_ratio(progress, UNIT as int, amount)
}

/// Mean of the known values among the first `n` samples of a channel, in thousandths.
pub open spec fn running_average(channel: Seq<Option<u16>>, n: int) -> Option<u32> {
    if channel_count(channel, n) > 0 {
        Some(((channel_sum(channel, n) * 1000) / channel_count(channel, n)) as u32)
    } else {
        None
    }
}

/// Largest known value among the first `n` samples of a channel, absent when zero.
pub open spec fn running_peak(channel: Seq<Option<u16>>, n: int) -> Option<u16> {
    if channel_max(channel, n) > 0 {
        Some(channel_max(channel, n) as u16)
    } else {
        None
    }
}

/// The telemetry of point `i`: progress along the route, the shares of the
/// activity's distance, gain and duration that the progress stands for, and
/// the heart-rate and power statistics over the points up to `i`.
pub open spec fn telemetry_at(
    points: Seq<TrackPoint>,
    metrics: Metrics,
    segments: Seq<u64>,
    i: int,
) -> RouteTelemetrySample {
    let progress = route_progress_at(segments, points.len() as int, i);
    RouteTelemetrySample {
        route_progress: progress as u64,
        cumulative_distance_mm: portion(progress, metrics.distance_mm as int) as u64,
        cumulative_elevation_gain_mm: portion(
            gain_progress_at(points, segments, i),
            metrics.elevation_gain_mm as int,
        ) as u64,
        elapsed_seconds: if metrics.duration_seconds > 0 {
            Some(
                portion(
                    elapsed_progress_at(points, segments, i),
                    metrics.duration_seconds as int,
                ) as u64,
            )
        } else {
            None
        },
        heart_rate: points[i].heart_rate,
        power: points[i].power,
        cumulative_avg_heart_rate: running_average(heart_rates(points), i + 1),
        cumulative_max_heart_rate: running_peak(heart_rates(points), i + 1),
        cumulative_avg_power: running_average(powers(points), i + 1),
        cumulative_max_power: running_peak(powers(points), i + 1),
    }
}

/// The telemetry of every point of a series.
pub open spec fn telemetry_of(points: Seq<TrackPoint>, metrics: Metrics, segments: Seq<u64>) -> Seq<
    RouteTelemetrySample,
> {
    Seq::new(points.len(), |i: int| telemetry_at(points, metrics, segments, i))
}

/// Cumulative sums grow along the series and stay below the number of steps
/// times the largest step.
pub proof fn lemma_cumulative_sums(points: Seq<TrackPoint>, segments: Seq<u64>, i: int, j: int)
    requires
        0 <= i <= j,
    ensures
        0 <= distance_up_to(segments, i) <= distance_up_to(segments, j) <= j
            * 0xFFFF_FFFF_FFFF_FFFF,
        0 <= gain_up_to(points, i) <= gain_up_to(points, j) <= j * 0xFFFF_FFFF_FFFF_FFFF,
        0 <= elapsed_up_to(points, i) <= elapsed_up_to(points, j) <= j * 0xFFFF_FFFF_FFFF_FFFF,
        i == 0 ==> distance_up_to(segments, i) == 0 && gain_up_to(points, i) == 0 && elapsed_up_to(
            points,
            i,
        ) == 0,
    decreases j,
{
    if j > 0 {
        if i < j {
            lemma_cumulative_sums(points, segments, i, j - 1);
        } else {
            lemma_cumulative_sums(points, segments, i - 1, j - 1);
        }
        assert(j * 0xFFFF_FFFF_FFFF_FFFF == (j - 1) * 0xFFFF_FFFF_FFFF_FFFF + 0xFFFF_FFFF_FFFF_FFFF)
            by (nonlinear_arith);
    }
}

/// Route progress never decreases along the route, and where the route has
/// length it starts at zero and ends at one whole.
pub proof fn lemma_route_progress_monotonic(segments: Seq<u64>, n: int, i: int, j: int)
    requires
        0 <= i <= j < n,
    ensures
        0 <= route_progress_at(segments, n, i) <= route_progress_at(segments, n, j) <= UNIT,
        distance_up_to(segments, n - 1) > 0 ==> route_progress_at(segments, n, 0) == 0
            && route_progress_at(segments, n, n - 1) == UNIT,
{
    let points = Seq::<TrackPoint>::empty();
    lemma_cumulative_sums(points, segments, i, j);
    lemma_cumulative_sums(points, segments, j, n - 1);
    lemma_cumulative_sums(points, segments, 0, i);
    let total = distance_up_to(segments, n - 1);
    if total > 0 {
        lemma_scale_ratio_monotonic(
            distance_up_to(segments, i),
            distance_up_to(segments, j),
            total,
            UNIT as int,
        );
        lemma_scale_ratio_bounds(distance_up_to(segments, i), total, UNIT as int);
        lemma_scale_ratio_bounds(distance_up_to(segments, j), total, UNIT as int);
        lemma_scale_ratio_bounds(0, total, UNIT as int);
        lemma_scale_ratio_bounds(total, total, UNIT as int);
    } else if n > 1 {
        lemma_scale_ratio_monotonic(i, j, n - 1, UNIT as int);
        lemma_scale_ratio_bounds(i, n - 1, UNIT as int);
        lemma_scale_ratio_bounds(j, n - 1, UNIT as int);
    }
}

/// The share of one running total in its final total, or `otherwise` where
/// the total is zero.
fn share_of(part: u128, whole: u128, otherwise: u64) -> (r: u64)
    requires
        part <= whole <= 0xFFFF_FFFF * 0xFFFF_FFFF_FFFF_FFFF,
        otherwise <= UNIT,
    ensures
        r == share_or(part as int, whole as int, otherwise as int),
        r <= UNIT,
{
    if whole > 0 {
        assert(whole * UNIT <= u128::MAX) by (nonlinear_arith)
            requires
                whole <= 0xFFFF_FFFF * 0xFFFF_FFFF_FFFF_FFFF,
                UNIT == 1_000_000,
        ;
        crate::fixed::ratio_u128(part, whole, UNIT)
    } else {
        otherwise
    }
}

/// Mean of a channel in thousandths, from its running sum and count.
fn average_of(sum: u64, count: u64) -> (r: Option<u32>)
    requires
        sum <= count * 65535,
        count <= 0xFFFF_FFFF,
    ensures
        r == if count > 0 {
            Some(((sum * 1000) / (count as int)) as u32)
        } else {
            None
        },
{
    if count == 0 {
        return None;
    }
    proof {
        assert(sum * 1000 <= count * 65_535_000) by (nonlinear_arith)
            requires
                sum <= count * 65535,
        ;
        assert(count * 65_535_000 <= 0xFFFF_FFFF * 65_535_000) by (nonlinear_arith)
            requires
                count <= 0xFFFF_FFFF,
        ;
        lemma_div_is_ordered(sum * 1000, count * 65_535_000, count as int);
        vstd::arithmetic::div_mod::lemma_div_multiples_vanish(65_535_000, count as int);
        assert(65_535_000 * count == count * 65_535_000) by (nonlinear_arith);
        lemma_div_pos_is_pos(sum * 1000, count as int);
    }
    Some(((sum * 1000) / count) as u32)
}

/// Computes the telemetry of every point: progress along the route from the
/// cumulative segment lengths, the distance, gain and time that the progress
/// stands for, and the running heart-rate and power statistics.
#[verifier::rlimit(40)]
pub fn compute_route_telemetry(
    points: &Vec<TrackPoint>,
    metrics: &Metrics,
    segments: &Vec<u64>,
) -> (out: Vec<RouteTelemetrySample>)
    requires
        points@.len() <= MAX_TRACK_POINTS,
        points@.len() >= 1 ==> segments@.len() + 1 == points@.len(),
    ensures
        out@ == telemetry_of(points@, *metrics, segments@),
{
    let n = points.len();
    let mut out: Vec<RouteTelemetrySample> = Vec::new();
    if n == 0 {
        assert(out@ =~= telemetry_of(points@, *metrics, segments@));
        return out;
    }
    let mut total_distance: u128 = 0;
    let mut total_gain: u128 = 0;
    let mut total_elapsed: u128 = 0;
    let mut i: usize = 1;
    while i < n
        invariant
            1 <= i <= n,
            n == points@.len(),
            n <= MAX_TRACK_POINTS,
            segments@.len() + 1 == n,
            total_distance == distance_up_to(segments@, i - 1),
            total_gain == gain_up_to(points@, i - 1),
            total_elapsed == elapsed_up_to(points@, i - 1),
        decreases n - i,
    {
        proof {
            lemma_cumulative_sums(points@, segments@, 0, i as int - 1);
            assert((i - 1) * 0xFFFF_FFFF_FFFF_FFFF + 0xFFFF_FFFF_FFFF_FFFF <= 0xFFFF_FFFF
                * 0xFFFF_FFFF_FFFF_FFFF) by (nonlinear_arith)
                requires
                    1 <= i < 0xFFFF_FFFF,
            ;
        }
        total_distance = total_distance + segments[i - 1] as u128;
        total_gain = total_gain + climb_mm(&points[i - 1], &points[i]) as u128;
        total_elapsed = total_elapsed + step_seconds(&points[i - 1], &points[i]) as u128;
        i = i + 1;
    }
    let ghost hr = heart_rates(points@);
    let ghost pw = powers(points@);
    let mut distance: u128 = 0;
    let mut gain: u128 = 0;
    let mut elapsed: u128 = 0;
    let mut hr_sum: u64 = 0;
    let mut hr_count: u64 = 0;
    let mut max_hr: u16 = 0;
    let mut power_sum: u64 = 0;
    let mut power_count: u64 = 0;
    let mut max_power: u16 = 0;
    let mut idx: usize = 0;
    while idx < n
        invariant
            0 <= idx <= n,
            1 <= n == points@.len(),
            n <= MAX_TRACK_POINTS,
            segments@.len() + 1 == n,
            hr == heart_rates(points@),
            pw == powers(points@),
            total_distance == distance_up_to(segments@, n - 1),
            total_gain == gain_up_to(points@, n - 1),
            total_elapsed == elapsed_up_to(points@, n - 1),
            idx > 0 ==> distance == distance_up_to(segments@, idx - 1),
            idx > 0 ==> gain == gain_up_to(points@, idx - 1),
            idx > 0 ==> elapsed == elapsed_up_to(points@, idx - 1),
            idx == 0 ==> distance == 0 && gain == 0 && elapsed == 0,
            hr_sum == channel_sum(hr, idx as int),
            hr_count == channel_count(hr, idx as int),
            max_hr == channel_max(hr, idx as int),
            power_sum == channel_sum(pw, idx as int),
            power_count == channel_count(pw, idx as int),
            max_power == channel_max(pw, idx as int),
            out@ == telemetry_of(points@, *metrics, segments@).subrange(0, idx as int),
        decreases n - idx,
    {
        proof {
            lemma_cumulative_sums(points@, segments@, idx as int, n as int - 1);
            if idx > 0 {
                lemma_cumulative_sums(points@, segments@, idx as int - 1, idx as int);
            }
            lemma_cumulative_sums(points@, segments@, 0, idx as int);
            lemma_channel_bounds(hr, idx as int);
            lemma_channel_bounds(pw, idx as int);
            lemma_channel_bounds(hr, idx as int + 1);
            lemma_channel_bounds(pw, idx as int + 1);
            assert((n - 1) * 0xFFFF_FFFF_FFFF_FFFF <= 0xFFFF_FFFF * 0xFFFF_FFFF_FFFF_FFFF)
                by (nonlinear_arith)
                requires
                    1 <= n <= 0xFFFF_FFFF,
            ;
            assert(channel_count(hr, idx as int) * 65535 + 65535 <= 0xFFFF_FFFF * 65535)
                by (nonlinear_arith)
                requires
                    0 <= channel_count(hr, idx as int) <= idx,
                    idx < 0xFFFF_FFFF,
            ;
            assert(channel_count(pw, idx as int) * 65535 + 65535 <= 0xFFFF_FFFF * 65535)
                by (nonlinear_arith)
                requires
                    0 <= channel_count(pw, idx as int) <= idx,
                    idx < 0xFFFF_FFFF,
            ;
        }
        if idx > 0 {
            distance = distance + segments[idx - 1] as u128;
            gain = gain + climb_mm(&points[idx - 1], &points[idx]) as u128;
            elapsed = elapsed + step_seconds(&points[idx - 1], &points[idx]) as u128;
        }
        if let Some(v) = points[idx].heart_rate {
            hr_sum = hr_sum + v as u64;
            hr_count = hr_count + 1;
            if v > max_hr {
                max_hr = v;
            }
        }
        if let Some(v) = points[idx].power {
            power_sum = power_sum + v as u64;
            power_count = power_count + 1;
            if v > max_power {
                max_power = v;
            }
        }
        let fallback: u64 = if n <= 1 {
            UNIT
        } else {
            proof {
                lemma_scale_ratio_bounds(idx as int, n as int - 1, UNIT as int);
            }
            ratio_u64(idx as u64, (n - 1) as u64, UNIT)
        };
        let route_progress = share_of(distance, total_distance, fallback);
        let gain_progress = share_of(gain, total_gain, route_progress);
        let elapsed_seconds = if metrics.duration_seconds > 0 {
            let elapsed_progress = share_of(elapsed, total_elapsed, route_progress);
            Some(ratio_u64(elapsed_progress, UNIT, metrics.duration_seconds))
        } else {
            None
        };
        let sample = RouteTelemetrySample {
            route_progress,
            cumulative_distance_mm: ratio_u64(route_progress, UNIT, metrics.distance_mm),
            cumulative_elevation_gain_mm: ratio_u64(gain_progress, UNIT, metrics.elevation_gain_mm),
            elapsed_seconds,
            heart_rate: points[idx].heart_rate,
            power: points[idx].power,
            cumulative_avg_heart_rate: average_of(hr_sum, hr_count),
            cumulative_max_heart_rate: if max_hr > 0 {
                Some(max_hr)
            } else {
                None
            },
            cumulative_avg_power: average_of(power_sum, power_count),
            cumulative_max_power: if max_power > 0 {
                Some(max_power)
            } else {
                None
            },
        };
        assert(sample == telemetry_at(points@, *metrics, segments@, idx as int));
        out.push(sample);
        assert(out@ =~= telemetry_of(points@, *metrics, segments@).subrange(0, idx + 1));
        idx = idx + 1;
    }
    assert(out@ =~= telemetry_of(points@, *metrics, segments@));
    out
}

/// The grade of the segment that starts at point `i`, in millionths: the
/// elevation difference over the segment length. Zero where an elevation is
/// unknown, the segment has no length, or `i` is the last point.
pub open spec fn raw_grade(points: Seq<TrackPoint>, segments: Seq<u64>, i: int) -> int {
    if 0 <= i < points.len() - 1 {
        match (points[i].elevation, points[i + 1].elevation) {
            (Some(a), Some(b)) => if segments[i] > 0 {
                toward_zero((b - a) * UNIT, segments[i] as int)
            } else {
                0
            },
            _ => 0,
        }
    } else {
        0
    }
}

/// Sum of the raw grades of the points in `[lo, hi)`.
pub open spec fn grade_sum(points: Seq<TrackPoint>, segments: Seq<u64>, lo: int, hi: int) -> int
    decreases hi - lo,
{
    if hi <= lo {
        0
    } else {
        grade_sum(points, segments, lo, hi - 1) + raw_grade(points, segments, hi - 1)
    }
}

/// First index of the smoothing window around point `i`.
pub open spec fn window_start(i: int) -> int {
    if i >= SMOOTH_WINDOW {
        i - SMOOTH_WINDOW
    } else {
        0
    }
}

/// End of the smoothing window around point `i` of `n`.
pub open spec fn window_end(n: int, i: int) -> int {
    lesser(i + SMOOTH_WINDOW + 1, n)
}

/// The mean raw grade over the window around point `i`, limited to the
/// steepest grade that is told apart.
pub open spec fn smoothed_grade(points: Seq<TrackPoint>, segments: Seq<u64>, i: int) -> int {
    let start = window_start(i);
    let end = window_end(points.len() as int, i);
    clamp_int(
        toward_zero(grade_sum(points, segments, start, end), end - start),
        -MAX_GRADE as int,
        MAX_GRADE as int,
    )
}

/// The colour value of point `i` before normalisation: the smoothed grade,
/// the speed over the segment that starts at `i` in metres per hour (where
/// time passes over it), or the heart rate or power recorded at `i`.
pub open spec fn metric_value_at(
    points: Seq<TrackPoint>,
    segments: Seq<u64>,
    metric: ColorByMetric,
    i: int,
) -> Option<i128> {
    match metric {
        ColorByMetric::Elevation => Some(smoothed_grade(points, segments, i) as i128),
        ColorByMetric::Speed => if 0 <= i < points.len() - 1 && seconds_between(
            points[i],
            points[i + 1],
        ) > 0 {
            Some(
                speed_m_per_h(
                    segments[i] as int,
                    seconds_between(points[i], points[i + 1]),
                ) as i128,
            )
        } else {
            None
        },
        ColorByMetric::HeartRate => match points[i].heart_rate {
            Some(v) => Some(v as i128),
            None => None,
        },
        ColorByMetric::Power => match points[i].power {
            Some(v) => Some(v as i128),
            None => None,
        },
    }
}

/// The colour values of all points before normalisation.
pub open spec fn metric_values(
    points: Seq<TrackPoint>,
    segments: Seq<u64>,
    metric: ColorByMetric,
) -> Seq<Option<i128>> {
    Seq::new(points.len(), |i: int| metric_value_at(points, segments, metric, i))
}

/// The values with an undefined last one replaced by its predecessor.
pub open spec fn carry_last(values: Seq<Option<i128>>) -> Seq<Option<i128>> {
    if values.len() >= 2 && values.last().is_none() {
        values.update(values.len() - 1, values[values.len() - 2])
    } else {
        values
    }
}

/// The smallest defined value among the first `n`.
pub open spec fn lowest_defined(values: Seq<Option<i128>>, n: int) -> Option<int>
    decreases n,
{
    if n <= 0 {
        None
    } else {
        let before = lowest_defined(values, n - 1);
        match (values[n - 1], before) {
            (Some(v), Some(b)) => Some(
                if v < b {
                    v as int
                } else {
                    b
                },
            ),
            (Some(v), None) => Some(v as int),
            (None, _) => before,
        }
    }
}

/// The largest defined value among the first `n`.
pub open spec fn highest_defined(values: Seq<Option<i128>>, n: int) -> Option<int>
    decreases n,
{
    if n <= 0 {
        None
    } else {
        let before = highest_defined(values, n - 1);
        match (values[n - 1], before) {
            (Some(v), Some(b)) => Some(
                if v > b {
                    v as int
                } else {
                    b
                },
            ),
            (Some(v), None) => Some(v as int),
            (None, _) => before,
        }
    }
}

/// A defined value normalised between the bounds `lo` and `hi`, in
/// millionths; one half where the bounds coincide.
pub open spec fn normalized_value(v: int, lo: int, hi: int) -> int {
    if hi - lo <= 0 {
        (UNIT / 2) as int
    } else {
        scale_ratio(v - lo, hi - lo, UNIT as int)
    }
}

/// The defined values mapped to millionths between their minimum and their
/// maximum; undefined values stay undefined.
pub open spec fn normalized_values(values: Seq<Option<i128>>) -> Seq<Option<u64>> {
    let n = values.len() as int;
    match (lowest_defined(values, n), highest_defined(values, n)) {
        (Some(lo), Some(hi)) => Seq::new(
            values.len(),
            |i: int|
                match values[i] {
                    Some(v) => Some(normalized_value(v as int, lo, hi) as u64),
                    None => None,
                },
        ),
        _ => Seq::new(values.len(), |i: int| None),
    }
}

/// The normalised colour values of a series for a channel.
pub open spec fn color_values(
    points: Seq<TrackPoint>,
    segments: Seq<u64>,
    metric: ColorByMetric,
) -> Seq<Option<u64>> {
    normalized_values(carry_last(metric_values(points, segments, metric)))
}

/// Whether every defined value is small enough to be normalised.
pub open spec fn values_in_range(values: Seq<Option<i128>>) -> bool {
    forall|i: int|
        0 <= i < values.len() ==> match #[trigger] values[i] {
            Some(v) => -VALUE_LIMIT <= v <= VALUE_LIMIT,
            None => true,
        }
}

/// Defined values lie between the smallest and the largest defined value,
/// and both exist as soon as one value is defined.
pub proof fn lemma_defined_bounds(values: Seq<Option<i128>>, n: int, i: int)
    requires
        0 <= i < n <= values.len(),
        values[i].is_some(),
    ensures
        lowest_defined(values, n).is_some(),
        highest_defined(values, n).is_some(),
        lowest_defined(values, n).unwrap() <= values[i].unwrap() <= highest_defined(
            values,
            n,
        ).unwrap(),
    decreases n,
{
    if i < n - 1 {
        lemma_defined_bounds(values, n - 1, i);
    }
}

/// The bounds of the defined values are themselves within the value limit,
/// and exist together.
pub proof fn lemma_defined_bounds_in_range(values: Seq<Option<i128>>, n: int)
    requires
        0 <= n <= values.len(),
        values_in_range(values),
    ensures
        lowest_defined(values, n).is_some() == highest_defined(values, n).is_some(),
        lowest_defined(values, n).is_some() ==> -VALUE_LIMIT <= lowest_defined(values, n).unwrap()
            <= highest_defined(values, n).unwrap() <= VALUE_LIMIT,
        lowest_defined(values, n).is_none() ==> forall|i: int| 0 <= i < n ==> values[i].is_none(),
    decreases n,
{
    if n > 0 {
        lemma_defined_bounds_in_range(values, n - 1);
    }
}

/// After normalisation every defined colour value lies between zero and one
/// whole, and is one half where all defined values coincide.
pub proof fn lemma_normalized_values_in_unit(values: Seq<Option<i128>>, i: int)
    requires
        0 <= i < values.len(),
    ensures
        normalized_values(values).len() == values.len(),
        normalized_values(values)[i].is_some() == values[i].is_some(),
        values[i].is_some() ==> 0 <= normalized_values(values)[i].unwrap() <= UNIT,
        values[i].is_some() && lowest_defined(values, values.len() as int) == highest_defined(
            values,
            values.len() as int,
        ) ==> normalized_values(values)[i].unwrap() == UNIT / 2,
{
    let n = values.len() as int;
    if values[i].is_some() {
        lemma_defined_bounds(values, n, i);
        let lo = lowest_defined(values, n).unwrap();
        let hi = highest_defined(values, n).unwrap();
        if hi - lo > 0 {
            lemma_scale_ratio_bounds(values[i].unwrap() - lo, hi - lo, UNIT as int);
        }
    } else {
        match (lowest_defined(values, n), highest_defined(values, n)) {
            (Some(lo), Some(hi)) => {},
            _ => {},
        }
    }
}

/// Maps the defined values to millionths between their minimum and maximum.
pub fn normalize_optional_values(values: &Vec<Option<i128>>) -> (out: Vec<Option<u64>>)
    requires
        values_in_range(values@),
    ensures
        out@ == normalized_values(values@),
{
    let n = values.len();
    let mut low: Option<i128> = None;
    let mut high: Option<i128> = None;
    let mut i: usize = 0;
    while i < n
        invariant
            0 <= i <= n,
            n == values@.len(),
            values_in_range(values@),
            match low {
                Some(v) => lowest_defined(values@, i as int) == Some(v as int),
                None => lowest_defined(values@, i as int).is_none(),
            },
            match high {
                Some(v) => highest_defined(values@, i as int) == Some(v as int),
                None => highest_defined(values@, i as int).is_none(),
            },
        decreases n - i,
    {
        if let Some(v) = values[i] {
            low = match low {
                Some(b) => Some(
                    if v < b {
                        v
                    } else {
                        b
                    },
                ),
                None => Some(v),
            };
            high = match high {
                Some(b) => Some(
                    if v > b {
                        v
                    } else {
                        b
                    },
                ),
                None => Some(v),
            };
        }
        i = i + 1;
    }
    proof {
        lemma_defined_bounds_in_range(values@, n as int);
    }
    let mut out: Vec<Option<u64>> = Vec::new();
    let mut j: usize = 0;
    while j < n
        invariant
            0 <= j <= n,
            n == values@.len(),
            values_in_range(values@),
            match low {
                Some(v) => lowest_defined(values@, n as int) == Some(v as int),
                None => lowest_defined(values@, n as int).is_none(),
            },
            match high {
                Some(v) => highest_defined(values@, n as int) == Some(v as int),
                None => highest_defined(values@, n as int).is_none(),
            },
            low.is_some() == high.is_some(),
            low.is_some() ==> -VALUE_LIMIT <= low.unwrap() <= high.unwrap() <= VALUE_LIMIT,
            out@ == normalized_values(values@).subrange(0, j as int),
        decreases n - j,
    {
        let item: Option<u64> = match (values[j], low, high) {
            (Some(v), Some(lo), Some(hi)) => {
                proof {
                    lemma_defined_bounds(values@, n as int, j as int);
                }
                if hi - lo <= 0 {
                    Some(UNIT / 2)
                } else {
                    let part: u128 = (v - lo) as u128;
                    let whole: u128 = (hi - lo) as u128;
                    assert(whole * UNIT <= u128::MAX) by (nonlinear_arith)
                        requires
                            whole <= 2 * 0xFFFF_FFFF_FFFF_FFFF,
                            UNIT == 1_000_000,
                    ;
                    Some(crate::fixed::ratio_u128(part, whole, UNIT))
                }
            },
            _ => None,
        };
        out.push(item);
        assert(out@ =~= normalized_values(values@).subrange(0, j + 1));
        j = j + 1;
    }
    assert(out@ =~= normalized_values(values@));
    out
}

/// The raw grades are bounded by the largest elevation step in millionths.
pub proof fn lemma_raw_grade_bounds(points: Seq<TrackPoint>, segments: Seq<u64>, i: int)
    requires
        points.len() >= 1 ==> segments.len() + 1 == points.len(),
    ensures
        -4_294_967_296_000_000 <= raw_grade(points, segments, i) <= 4_294_967_296_000_000,
{
    if 0 <= i < points.len() - 1 {
        match (points[i].elevation, points[i + 1].elevation) {
            (Some(a), Some(b)) => {
                if segments[i] > 0 {
                    let d = b - a;
                    let den = segments[i] as int;
                    assert(d * UNIT == d * 1_000_000);
                    if d >= 0 {
                        lemma_div_pos_is_pos(d * UNIT, den);
                        vstd::arithmetic::div_mod::lemma_div_nonincreasing(d * UNIT, den);
                    } else {
                        lemma_div_pos_is_pos(-(d * UNIT), den);
                        vstd::arithmetic::div_mod::lemma_div_nonincreasing(-(d * UNIT), den);
                    }
                }
            },
            _ => {},
        }
    }
}

/// Grade sums are bounded by the size of their range.
pub proof fn lemma_grade_sum_bounds(points: Seq<TrackPoint>, segments: Seq<u64>, lo: int, hi: int)
    requires
        points.len() >= 1 ==> segments.len() + 1 == points.len(),
        lo <= hi,
    ensures
        -(hi - lo) * 4_294_967_296_000_000 <= grade_sum(points, segments, lo, hi),
        grade_sum(points, segments, lo, hi) <= (hi - lo) * 4_294_967_296_000_000,
    decreases hi - lo,
{
    if lo < hi {
        lemma_grade_sum_bounds(points, segments, lo, hi - 1);
        lemma_raw_grade_bounds(points, segments, hi - 1);
    }
}

/// The raw grade of the segment that starts at point `i`.
fn raw_grade_of(points: &Vec<TrackPoint>, segments: &Vec<u64>, i: usize) -> (r: i128)
    requires
        i < points@.len(),
        segments@.len() + 1 == points@.len(),
    ensures
        r == raw_grade(points@, segments@, i as int),
        -4_294_967_296_000_000 <= r <= 4_294_967_296_000_000,
{
    proof {
        lemma_raw_grade_bounds(points@, segments@, i as int);
    }
    if i >= points.len() - 1 {
        return 0;
    }
    match (points[i].elevation, points[i + 1].elevation) {
        (Some(a), Some(b)) => {
            let den = segments[i];
            if den > 0 {
                let d: i128 = b as i128 - a as i128;
                assert(d * UNIT == d * 1_000_000);
                divide_toward_zero(d * (UNIT as i128), den as u128)
            } else {
                0
            }
        },
        _ => 0,
    }
}

/// Metres per hour over a segment.
fn speed_of(distance_mm: u64, seconds: u64) -> (r: u64)
    requires
        seconds > 0,
    ensures
        r == speed_m_per_h(distance_mm as int, seconds as int),
{
    saturate_u128((distance_mm as u128 * 18) / (seconds as u128 * 5))
}

/// The colour value of every point for a channel, normalised to millionths:
/// smoothed and limited grade, speed, heart rate or power. An undefined last
/// value takes its predecessor's.
#[verifier::rlimit(40)]
pub fn compute_route_metric_values(
    points: &Vec<TrackPoint>,
    segments: &Vec<u64>,
    metric: ColorByMetric,
) -> (out: Vec<Option<u64>>)
    requires
        points@.len() <= MAX_TRACK_POINTS,
        points@.len() >= 1 ==> segments@.len() + 1 == points@.len(),
    ensures
        out@ == color_values(points@, segments@, metric),
{
    let n = points.len();
    let mut values: Vec<Option<i128>> = Vec::new();
    if n == 0 {
        assert(values@ =~= carry_last(metric_values(points@, segments@, metric)));
        return normalize_optional_values(&values);
    }
    let mut i: usize = 0;
    while i < n
        invariant
            0 <= i <= n,
            n == points@.len(),
            n <= MAX_TRACK_POINTS,
            segments@.len() + 1 == n,
            values@ == metric_values(points@, segments@, metric).subrange(0, i as int),
            values_in_range(values@),
        decreases n - i,
    {
        let item: Option<i128> = match metric {
            ColorByMetric::Elevation => {
                let start: usize = if i >= SMOOTH_WINDOW {
                    i - SMOOTH_WINDOW
                } else {
                    0
                };
                let end: usize = if n - i > SMOOTH_WINDOW + 1 {
                    i + SMOOTH_WINDOW + 1
                } else {
                    n
                };
                let mut sum: i128 = 0;
                let mut j: usize = start;
                while j < end
                    invariant
                        start <= j <= end <= n,
                        end - start <= 11,
                        n == points@.len(),
                        segments@.len() + 1 == n,
                        sum == grade_sum(points@, segments@, start as int, j as int),
                    decreases end - j,
                {
                    proof {
                        lemma_grade_sum_bounds(points@, segments@, start as int, j as int);
                    }
                    sum = sum + raw_grade_of(points, segments, j);
                    j = j + 1;
                }
                proof {
                    lemma_grade_sum_bounds(points@, segments@, start as int, end as int);
                }
                let mean = divide_toward_zero(sum, (end - start) as u128);
                let limited: i128 = if mean < -(MAX_GRADE as i128) {
                    -(MAX_GRADE as i128)
                } else if mean > MAX_GRADE as i128 {
                    MAX_GRADE as i128
                } else {
                    mean
                };
                Some(limited)
            },
            ColorByMetric::Speed => {
                if i + 1 < n {
                    let seconds = step_seconds(&points[i], &points[i + 1]);
                    if seconds > 0 {
                        Some(speed_of(segments[i], seconds) as i128)
                    } else {
                        None
                    }
                } else {
                    None
                }
            },
            ColorByMetric::HeartRate => match points[i].heart_rate {
                Some(v) => Some(v as i128),
                None => None,
            },
            ColorByMetric::Power => match points[i].power {
                Some(v) => Some(v as i128),
                None => None,
            },
        };
        assert(item == metric_value_at(points@, segments@, metric, i as int));
        values.push(item);
        assert(values@ =~= metric_values(points@, segments@, metric).subrange(0, i + 1));
        i = i + 1;
    }
    assert(values@ =~= metric_values(points@, segments@, metric));
    if n >= 2 && values[n - 1].is_none() {
        let carried = values[n - 2];
        values.set(n - 1, carried);
    }
    assert(values@ =~= carry_last(metric_values(points@, segments@, metric)));
    normalize_optional_values(&values)
}

/// Whether time passes over some segment of the series.
pub open spec fn speed_samples_in(points: Seq<TrackPoint>) -> bool {
    exists|i: int|
        0 <= i < points.len() - 1 && #[trigger] seconds_between(points[i], points[i + 1]) > 0
}

/// Tells whether some pair of consecutive points has a positive time step.
pub fn has_speed_samples(points: &Vec<TrackPoint>) -> (found: bool)
    ensures
        found == speed_samples_in(points@),
{
    let n = points.len();
    if n == 0 {
        return false;
    }
    let mut i: usize = 0;
    while i < n - 1
        invariant
            1 <= n == points@.len(),
            i <= n - 1,
            forall|j: int| 0 <= j < i ==> #[trigger] seconds_between(points@[j], points@[j + 1]) <= 0,
        decreases n - i,
    {
        if step_seconds(&points[i], &points[i + 1]) > 0 {
            return true;
        }
        i = i + 1;
    }
    false
}

/// The channel whose absence keeps a route from being prepared, if any:
/// coordinates, then elevation, then the channel that colours the route
/// (time stamps for speed), then coordinates again for an empty series.
pub open spec fn missing_channel(
    points: Seq<TrackPoint>,
    available: AvailableData,
    color_by: Option<ColorByMetric>,
) -> Option<Seq<char>> {
    if !available.has_coordinates {
        Some("coordinates"@)
    } else if !available.has_elevation {
        Some("elevation"@)
    } else if color_by == Some(ColorByMetric::HeartRate) && !available.has_heart_rate {
        Some("heart rate"@)
    } else if color_by == Some(ColorByMetric::Power) && !available.has_power {
        Some("power"@)
    } else if color_by == Some(ColorByMetric::Speed) && !speed_samples_in(points) {
        Some("timestamp"@)
    } else if points.len() == 0 {
        Some("coordinates"@)
    } else {
        None
    }
}

/// The points of a series in the Mercator plane: longitude and measured ordinate.
pub open spec fn projected(points: Seq<TrackPoint>, ordinates: Seq<i64>) -> Seq<(i64, i64)> {
    Seq::new(points.len(), |i: int| (points[i].lon as i64, ordinates[i]))
}

/// The colour value of point `i`, where the route is coloured by a channel.
pub open spec fn color_value_at(
    points: Seq<TrackPoint>,
    segments: Seq<u64>,
    color_by: Option<ColorByMetric>,
    i: int,
) -> Option<u64> {
    match color_by {
        Some(metric) => color_values(points, segments, metric)[i],
        None => None,
    }
}

/// Point `i` of the prepared route.
pub open spec fn route_point_at(
    points: Seq<TrackPoint>,
    metrics: Metrics,
    color_by: Option<ColorByMetric>,
    segments: Seq<u64>,
    ordinates: Seq<i64>,
    i: int,
) -> RoutePoint {
    let place = normalized(projected(points, ordinates))[i];
    let sample = telemetry_at(points, metrics, segments, i);
    RoutePoint {
        x: place.0,
        y: place.1,
        route_progress: sample.route_progress,
        cumulative_distance_mm: sample.cumulative_distance_mm,
        cumulative_elevation_gain_mm: sample.cumulative_elevation_gain_mm,
        elapsed_seconds: sample.elapsed_seconds,
        heart_rate: sample.heart_rate,
        power: sample.power,
        cumulative_avg_heart_rate: sample.cumulative_avg_heart_rate,
        cumulative_max_heart_rate: sample.cumulative_max_heart_rate,
        cumulative_avg_power: sample.cumulative_avg_power,
        cumulative_max_power: sample.cumulative_max_power,
        value: color_value_at(points, segments, color_by, i),
        elevation: points[i].elevation,
    }
}

/// The prepared route of a series.
pub open spec fn route_points_of(
    points: Seq<TrackPoint>,
    metrics: Metrics,
    color_by: Option<ColorByMetric>,
    segments: Seq<u64>,
    ordinates: Seq<i64>,
) -> Seq<RoutePoint> {
    Seq::new(
        points.len(),
        |i: int| route_point_at(points, metrics, color_by, segments, ordinates, i),
    )
}

/// In a prepared route the progress never decreases; where the route has
/// length, it starts at zero and ends at one whole.
pub proof fn lemma_prepared_progress(
    points: Seq<TrackPoint>,
    metrics: Metrics,
    color_by: Option<ColorByMetric>,
    segments: Seq<u64>,
    ordinates: Seq<i64>,
    i: int,
    j: int,
)
    requires
        0 <= i <= j < points.len(),
    ensures
        ({
            let route = route_points_of(points, metrics, color_by, segments, ordinates);
            &&& route[i].route_progress <= route[j].route_progress <= UNIT
            &&& distance_up_to(segments, points.len() - 1) > 0 ==> route.first().route_progress == 0
                && route.last().route_progress == UNIT
        }),
{
    let n = points.len() as int;
    lemma_route_progress_monotonic(segments, n, i, j);
    lemma_route_progress_monotonic(segments, n, 0, n - 1);
}

/// In a prepared route every colour value lies between zero and one whole.
pub proof fn lemma_prepared_values(
    points: Seq<TrackPoint>,
    metrics: Metrics,
    color_by: Option<ColorByMetric>,
    segments: Seq<u64>,
    ordinates: Seq<i64>,
    i: int,
)
    requires
        0 <= i < points.len(),
    ensures
        match route_points_of(points, metrics, color_by, segments, ordinates)[i].value {
            Some(v) => v <= UNIT,
            None => true,
        },
{
    match color_by {
        Some(metric) => {
            let raw = carry_last(metric_values(points, segments, metric));
            lemma_normalized_values_in_unit(raw, i);
        },
        None => {},
    }
}

/// Builds the route that the renderer draws: normalised coordinates, the
/// telemetry of every point and, where asked for, its colour value.
///
/// Refused where the activity lacks coordinates or elevation, or the channel
/// that is to colour the route.
#[verifier::rlimit(40)]
pub fn prepare(processed: &ProcessedActivity, options: &RenderOptions, geodesy: &Geodesy) -> (result:
    Result<VizData, PrepareError>)
    requires
        processed.points@.len() <= MAX_TRACK_POINTS,
        geodesy.fits(processed.points@.len()),
    ensures
        match result {
            Ok(data) => {
                &&& missing_channel(
                    processed.points@,
                    processed.available_data,
                    options.color_by,
                ).is_none()
                &&& data.points@ == route_points_of(
                    processed.points@,
                    processed.metrics,
                    options.color_by,
                    geodesy.segments@,
                    geodesy.ordinates@,
                )
            },
            Err(PrepareError::MissingData(name)) => missing_channel(
                processed.points@,
                processed.available_data,
                options.color_by,
            ) == Some(name@),
        },
{
    if !processed.available_data.has_coordinates {
        return Err(PrepareError::MissingData("coordinates"));
    }
    if !processed.available_data.has_elevation {
        return Err(PrepareError::MissingData("elevation"));
    }
    match options.color_by {
        Some(ColorByMetric::HeartRate) => {
            if !processed.available_data.has_heart_rate {
                return Err(PrepareError::MissingData("heart rate"));
            }
        },
        Some(ColorByMetric::Power) => {
            if !processed.available_data.has_power {
                return Err(PrepareError::MissingData("power"));
            }
        },
        Some(ColorByMetric::Speed) => {
            if !has_speed_samples(&processed.points) {
                return Err(PrepareError::MissingData("timestamp"));
            }
        },
        _ => {},
    }
    let n = processed.points.len();
    if n == 0 {
        return Err(PrepareError::MissingData("coordinates"));
    }
    let mut plane: Vec<(i64, i64)> = Vec::new();
    let mut i: usize = 0;
    while i < n
        invariant
            0 <= i <= n,
            n == processed.points@.len(),
            geodesy.ordinates@.len() == n,
            plane@ == projected(processed.points@, geodesy.ordinates@).subrange(0, i as int),
        decreases n - i,
    {
        plane.push((processed.points[i].lon as i64, geodesy.ordinates[i]));
        assert(plane@ =~= projected(processed.points@, geodesy.ordinates@).subrange(0, i + 1));
        i = i + 1;
    }
    assert(plane@ =~= projected(processed.points@, geodesy.ordinates@));
    let places = normalize_route_points(&plane);
    let values: Option<Vec<Option<u64>>> = match options.color_by {
        Some(metric) => Some(
            compute_route_metric_values(&processed.points, &geodesy.segments, metric),
        ),
        None => None,
    };
    let telemetry = compute_route_telemetry(
        &processed.points,
        &processed.metrics,
        &geodesy.segments,
    );
    let ghost route = route_points_of(
        processed.points@,
        processed.metrics,
        options.color_by,
        geodesy.segments@,
        geodesy.ordinates@,
    );
    let mut points: Vec<RoutePoint> = Vec::new();
    let mut idx: usize = 0;
    while idx < n
        invariant
            0 <= idx <= n,
            n == processed.points@.len(),
            places@ == normalized(projected(processed.points@, geodesy.ordinates@)),
            places@.len() == n,
            telemetry@ == telemetry_of(
                processed.points@,
                processed.metrics,
                geodesy.segments@,
            ),
            match (values, options.color_by) {
                (Some(v), Some(metric)) => v@ == color_values(
                    processed.points@,
                    geodesy.segments@,
                    metric,
                ) && v@.len() == n,
                (None, None) => true,
                _ => false,
            },
            route == route_points_of(
                processed.points@,
                processed.metrics,
                options.color_by,
                geodesy.segments@,
                geodesy.ordinates@,
            ),
            points@ == route.subrange(0, idx as int),
        decreases n - idx,
    {
        let place = places[idx];
        let sample = telemetry[idx];
        let value: Option<u64> = match &values {
            Some(v) => v[idx],
            None => None,
        };
        points.push(
            RoutePoint {
                x: place.0,
                y: place.1,
                route_progress: sample.route_progress,
                cumulative_distance_mm: sample.cumulative_distance_mm,
                cumulative_elevation_gain_mm: sample.cumulative_elevation_gain_mm,
                elapsed_seconds: sample.elapsed_seconds,
                heart_rate: sample.heart_rate,
                power: sample.power,
                cumulative_avg_heart_rate: sample.cumulative_avg_heart_rate,
                cumulative_max_heart_rate: sample.cumulative_max_heart_rate,
                cumulative_avg_power: sample.cumulative_avg_power,
                cumulative_max_power: sample.cumulative_max_power,
                value,
                elevation: processed.points[idx].elevation,
            },
        );
        assert(points@ =~= route.subrange(0, idx + 1));
        idx = idx + 1;
    }
    assert(points@ =~= route);
    Ok(VizData { points })
}

} // verus!
