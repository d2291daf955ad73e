//! Metrics, channel detection and downsampling of a parsed recording.

use vstd::prelude::*;
use vstd::arithmetic::div_mod::{lemma_div_is_ordered, lemma_div_multiples_vanish, lemma_div_pos_is_pos};
use crate::error::ProcessError;
use crate::fixed::{lesser, saturate, saturate_u128};
use crate::types::activity::{AvailableData, Metrics, ParsedActivity, ProcessedActivity, TrackPoint};

verus! {

/// The largest number of points a processed activity keeps.
pub const MAX_POINTS: usize = 1000;

/// The longest recording the stages accept, so that index arithmetic stays
/// within machine integers.
pub const MAX_TRACK_POINTS: usize = 0xFFFF_FFFF;

/// Sum of the first `n` segment lengths.
pub open spec fn distance_up_to(segments: Seq<u64>, n: int) -> int
    decreases n,
{
    if n <= 0 {
        0
    } else {
        distance_up_to(segments, n - 1) + segments[n - 1]
    }
}

/// The elevation gained from `a` to `b`: their difference when both are known
/// and `b` is higher, else nothing.
pub open spec fn climb(a: TrackPoint, b: TrackPoint) -> int {
    match (a.elevation, b.elevation) {
        (Some(x), Some(y)) => if y > x {
            y - x
        } else {
            0
        },
        _ => 0,
    }
}

/// Elevation gained from the first point to point `i`.
pub open spec fn gain_up_to(points: Seq<TrackPoint>, i: int) -> int
    decreases i,
{
    if i <= 0 {
        0
    } else {
        gain_up_to(points, i - 1) + climb(points[i - 1], points[i])
    }
}

/// The time that passed from `a` to `b`: their difference when both are
/// stamped and `b` is later, else nothing.
pub open spec fn seconds_between(a: TrackPoint, b: TrackPoint) -> int {
    match (a.time, b.time) {
        (Some(s), Some(t)) => if t > s {
            t - s
        } else {
            0
        },
        _ => 0,
    }
}

/// Time that passed from the first point to point `i`, counting forward steps only.
pub open spec fn elapsed_up_to(points: Seq<TrackPoint>, i: int) -> int
    decreases i,
{
    if i <= 0 {
        0
    } else {
        elapsed_up_to(points, i - 1) + seconds_between(points[i - 1], points[i])
    }
}

/// The heart-rate channel of a point sequence.
pub open spec fn heart_rates(points: Seq<TrackPoint>) -> Seq<Option<u16>> {
    Seq::new(points.len(), |i: int| points[i].heart_rate)
}

/// The power channel of a point sequence.
pub open spec fn powers(points: Seq<TrackPoint>) -> Seq<Option<u16>> {
    Seq::new(points.len(), |i: int| points[i].power)
}

/// Sum of the known values among the first `n` samples of a channel.
pub open spec fn channel_sum(channel: Seq<Option<u16>>, n: int) -> int
    decreases n,
{
    if n <= 0 {
        0
    } else {
        channel_sum(channel, n - 1) + match channel[n - 1] {
            Some(v) => v as int,
            None => 0,
        }
    }
}

/// Number of known values among the first `n` samples of a channel.
pub open spec fn channel_count(channel: Seq<Option<u16>>, n: int) -> int
    decreases n,
{
    if n <= 0 {
        0
    } else {
        channel_count(channel, n - 1) + if channel[n - 1].is_some() {
            1int
        } else {
            0int
        }
    }
}

/// Largest known value among the first `n` samples of a channel; zero when none is known.
pub open spec fn channel_max(channel: Seq<Option<u16>>, n: int) -> int
    decreases n,
{
    if n <= 0 {
        0
    } else {
        let before = channel_max(channel, n - 1);
        match channel[n - 1] {
            Some(v) => if v > before {
                v as int
            } else {
                before
            },
            None => before,
        }
    }
}

/// Mean of the known values among the first `n` samples, rounded down.
pub open spec fn channel_average(channel: Seq<Option<u16>>, n: int) -> Option<u16> {
    if channel_count(channel, n) > 0 {
        Some((channel_sum(channel, n) / channel_count(channel, n)) as u16)
    } else {
        None
    }
}

/// Largest known value among the first `n` samples, absent when it is zero.
pub open spec fn channel_peak(channel: Seq<Option<u16>>, n: int) -> Option<u16> {
    if channel_max(channel, n) > 0 {
        Some(channel_max(channel, n) as u16)
    } else {
        None
    }
}

/// Metres per hour for a distance in millimetres covered in a number of seconds.
pub open spec fn speed_m_per_h(distance_mm: int, seconds: int) -> int {
    if seconds > 0 {
        saturate((distance_mm * 18) / (seconds * 5))
    } else {
        0
    }
}

/// The aggregates of a recording whose consecutive points lie `segments` apart.
pub open spec fn metrics_of(points: Seq<TrackPoint>, segments: Seq<u64>) -> Metrics {
    let last = points.len() - 1;
    let distance = saturate(distance_up_to(segments, last));
    let duration = saturate(elapsed_up_to(points, last));
    Metrics {
        distance_mm: distance as u64,
        elevation_gain_mm: saturate(gain_up_to(points, last)) as u64,
        duration_seconds: duration as u64,
        avg_speed_m_per_h: speed_m_per_h(distance, duration) as u64,
        avg_heart_rate: channel_average(heart_rates(points), points.len() as int),
        max_heart_rate: channel_peak(heart_rates(points), points.len() as int),
        avg_power: channel_average(powers(points), points.len() as int),
        max_power: channel_peak(powers(points), points.len() as int),
    }
}

/// The sum of a channel never exceeds the count times the largest sample value.
pub proof fn lemma_channel_bounds(channel: Seq<Option<u16>>, n: int)
    requires
        0 <= n <= channel.len(),
    ensures
        0 <= channel_count(channel, n) <= n,
        0 <= channel_sum(channel, n) <= channel_count(channel, n) * 65535,
        0 <= channel_max(channel, n) <= 65535,
        channel_count(channel, n) > 0 ==> 0 <= channel_sum(channel, n) / channel_count(
            channel,
            n,
        ) <= 65535,
    decreases n,
{
    if n > 0 {
        lemma_channel_bounds(channel, n - 1);
        let c = channel_count(channel, n);
        let s = channel_sum(channel, n);
        assert(s <= c * 65535) by (nonlinear_arith)
            requires
                channel_sum(channel, n - 1) <= channel_count(channel, n - 1) * 65535,
                s <= channel_sum(channel, n - 1) + 65535 * (c - channel_count(channel, n - 1)),
                c >= channel_count(channel, n - 1),
        ;
        if c > 0 {
            lemma_div_pos_is_pos(s, c);
            lemma_div_is_ordered(s, c * 65535, c);
            lemma_div_multiples_vanish(65535, c);
            assert(c * 65535 == 65535 * c) by (nonlinear_arith);
        }
    }
}

/// Elevation gained over one step, in millimetres.
pub fn climb_mm(a: &TrackPoint, b: &TrackPoint) -> (r: u64)
    ensures
        r == climb(*a, *b),
        r <= 0xFFFF_FFFF,
{
    match (a.elevation, b.elevation) {
        (Some(x), Some(y)) => {
            if y > x {
                let d: i64 = y as i64 - x as i64;
                d as u64
            } else {
                0
            }
        },
        _ => 0,
    }
}

/// Seconds that passed over one step; backward steps count as nothing.
pub fn step_seconds(a: &TrackPoint, b: &TrackPoint) -> (r: u64)
    ensures
        r == seconds_between(*a, *b),
{
    match (a.time, b.time) {
        (Some(s), Some(t)) => {
            if t > s {
                let d: i128 = t as i128 - s as i128;
                d as u64
            } else {
                0
            }
        },
        _ => 0,
    }
}

/// Distance, elevation gain, duration, mean speed and the heart-rate and
/// power statistics of a recording.
///
/// `segments[i]` is the great-circle length from point `i` to point `i + 1`.
/// Sums that exceed `u64::MAX` stop there.
#[verifier::rlimit(40)]
pub fn compute_metrics(points: &Vec<TrackPoint>, segments: &Vec<u64>) -> (m: Metrics)
    requires
        points@.len() <= MAX_TRACK_POINTS,
        points@.len() >= 1 ==> segments@.len() + 1 == points@.len(),
    ensures
        m == metrics_of(points@, segments@),
{
    let n = points.len();
    let ghost hr = heart_rates(points@);
    let ghost pw = powers(points@);
    let mut distance: u128 = 0;
    let mut gain: u128 = 0;
    let mut duration: u128 = 0;
    let mut hr_sum: u64 = 0;
    let mut hr_count: u64 = 0;
    let mut max_hr: u16 = 0;
    let mut power_sum: u64 = 0;
    let mut power_count: u64 = 0;
    let mut max_power: u16 = 0;
    let mut i: usize = 0;
    while i < n
        invariant
            0 <= i <= n,
            n == points@.len(),
            n <= MAX_TRACK_POINTS,
            n >= 1 ==> segments@.len() + 1 == n,
            hr == heart_rates(points@),
            pw == powers(points@),
            i > 0 ==> distance == distance_up_to(segments@, i - 1),
            i > 0 ==> gain == gain_up_to(points@, i - 1),
            i > 0 ==> duration == elapsed_up_to(points@, i - 1),
            i == 0 ==> distance == 0 && gain == 0 && duration == 0,
            distance <= i * 0xFFFF_FFFF_FFFF_FFFF,
            gain <= i * 0xFFFF_FFFF_FFFF_FFFF,
            duration <= i * 0xFFFF_FFFF_FFFF_FFFF,
            hr_sum == channel_sum(hr, i as int),
            hr_count == channel_count(hr, i as int),
            max_hr == channel_max(hr, i as int),
            power_sum == channel_sum(pw, i as int),
            power_count == channel_count(pw, i as int),
            max_power == channel_max(pw, i as int),
        decreases n - i,
    {
        proof {
            lemma_channel_bounds(hr, i as int);
            lemma_channel_bounds(pw, i as int);
            assert(i * 0xFFFF_FFFF_FFFF_FFFF + 0xFFFF_FFFF_FFFF_FFFF <= 0xFFFF_FFFF
                * 0xFFFF_FFFF_FFFF_FFFF) by (nonlinear_arith)
                requires
                    0 <= i < 0xFFFF_FFFF,
            ;
            assert(channel_count(hr, i as int) * 65535 + 65535 <= 0xFFFF_FFFF * 65535)
                by (nonlinear_arith)
                requires
                    0 <= channel_count(hr, i as int) <= i,
                    i < 0xFFFF_FFFF,
            ;
            assert(channel_count(pw, i as int) * 65535 + 65535 <= 0xFFFF_FFFF * 65535)
                by (nonlinear_arith)
                requires
                    0 <= channel_count(pw, i as int) <= i,
                    i < 0xFFFF_FFFF,
            ;
        }
        if i > 0 {
            let prev = &points[i - 1];
            let curr = &points[i];
            distance = distance + segments[i - 1] as u128;
            gain = gain + climb_mm(prev, curr) as u128;
            duration = duration + step_seconds(prev, curr) as u128;
        }
        if let Some(v) = points[i].heart_rate {
            hr_sum = hr_sum + v as u64;
            hr_count = hr_count + 1;
            if v > max_hr {
                max_hr = v;
            }
        }
        if let Some(v) = points[i].power {
            power_sum = power_sum + v as u64;
            power_count = power_count + 1;
            if v > max_power {
                max_power = v;
            }
        }
        i = i + 1;
    }
    proof {
        lemma_channel_bounds(hr, n as int);
        lemma_channel_bounds(pw, n as int);
    }
    let distance_mm = saturate_u128(distance);
    let duration_seconds = saturate_u128(duration);
    let avg_speed_m_per_h = if duration_seconds > 0 {
        saturate_u128((distance_mm as u128 * 18) / (duration_seconds as u128 * 5))
    } else {
        0
    };
    Metrics {
        distance_mm,
        elevation_gain_mm: saturate_u128(gain),
        duration_seconds,
        avg_speed_m_per_h,
        avg_heart_rate: if hr_count > 0 {
            Some((hr_sum / hr_count) as u16)
        } else {
            None
        },
        max_heart_rate: if max_hr > 0 {
            Some(max_hr)
        } else {
            None
        },
        avg_power: if power_count > 0 {
            Some((power_sum / power_count) as u16)
        } else {
            None
        },
        max_power: if max_power > 0 {
            Some(max_power)
        } else {
            None
        },
    }
}

/// Whether a point has a nonzero latitude or longitude.
pub open spec fn off_origin(p: TrackPoint) -> bool {
    p.lat != 0 || p.lon != 0
}

/// The channels present in a point sequence.
pub open spec fn channels_of(points: Seq<TrackPoint>) -> AvailableData {
    AvailableData {
        has_coordinates: exists|i: int| 0 <= i < points.len() && off_origin(#[trigger] points[i]),
        has_elevation: exists|i: int| 0 <= i < points.len() && (#[trigger] points[i]).elevation.is_some(),
        has_heart_rate: exists|i: int| 0 <= i < points.len() && (#[trigger] points[i]).heart_rate.is_some(),
        has_power: exists|i: int| 0 <= i < points.len() && (#[trigger] points[i]).power.is_some(),
    }
}

/// Finds which channels occur in a point sequence: coordinates count as
/// present when some point is off the origin.
pub fn detect_available_data(points: &Vec<TrackPoint>) -> (data: AvailableData)
    ensures
        data == channels_of(points@),
{
    let mut has_coordinates = false;
    let mut has_elevation = false;
    let mut has_heart_rate = false;
    let mut has_power = false;
    let mut i: usize = 0;
    while i < points.len()
        invariant
            0 <= i <= points@.len(),
            has_coordinates == exists|j: int| 0 <= j < i && off_origin(#[trigger] points@[j]),
            has_elevation == exists|j: int| 0 <= j < i && (#[trigger] points@[j]).elevation.is_some(),
            has_heart_rate == exists|j: int| 0 <= j < i && (#[trigger] points@[j]).heart_rate.is_some(),
            has_power == exists|j: int| 0 <= j < i && (#[trigger] points@[j]).power.is_some(),
        decreases points@.len() - i,
    {
        let p = &points[i];
        if p.lat != 0 || p.lon != 0 {
            has_coordinates = true;
        }
        if p.elevation.is_some() {
            has_elevation = true;
        }
        if p.heart_rate.is_some() {
            has_heart_rate = true;
        }
        if p.power.is_some() {
            has_power = true;
        }
        i = i + 1;
    }
    AvailableData { has_coordinates, has_elevation, has_heart_rate, has_power }
}

/// The elevation used for shape comparison: the point's own, or zero when unknown.
pub open spec fn elevation_or_zero(p: TrackPoint) -> int {
    match p.elevation {
        Some(e) => e as int,
        None => 0,
    }
}

/// Sum of the comparison elevations of the points in `[lo, hi)`.
pub open spec fn elevation_sum(data: Seq<TrackPoint>, lo: int, hi: int) -> int
    decreases hi - lo,
{
    if hi <= lo {
        0
    } else {
        elevation_sum(data, lo, hi - 1) + elevation_or_zero(data[hi - 1])
    }
}

/// First index of bucket `k`, when the points between the first and the last
/// of `n` are divided into `threshold - 2` buckets of equal width.
pub open spec fn bucket_start(n: int, threshold: int, k: int) -> int {
    (k * (n - 2)) / (threshold - 2) + 1
}

/// The magnitude of an integer.
pub open spec fn magnitude(x: int) -> int {
    if x < 0 {
        -x
    } else {
        x
    }
}

/// The area of the triangle between the point at index `a`, the point at index
/// `s` and the centre of the points in `[lo, hi)`, with the index as abscissa
/// and the comparison elevation as ordinate. The centre is the midpoint of
/// `lo` and `hi` and the mean elevation of the range; the area is scaled by
/// four times the size of the range, which keeps it whole.
pub open spec fn triangle_weight(data: Seq<TrackPoint>, a: int, s: int, lo: int, hi: int) -> int {
    let count = hi - lo;
    let base = elevation_or_zero(data[a]);
    magnitude(
        (2 * a - (lo + hi)) * (elevation_or_zero(data[s]) - base) * count - (2 * (a - s)) * (
        elevation_sum(data, lo, hi) - count * base),
    )
}

/// The first index in `[from, to)` whose triangle with the point at `a` and
/// the centre of `[lo, hi)` is largest.
pub open spec fn first_largest(
    data: Seq<TrackPoint>,
    a: int,
    lo: int,
    hi: int,
    from: int,
    to: int,
) -> int
    decreases to - from,
{
    if to <= from + 1 {
        from
    } else {
        let best = first_largest(data, a, lo, hi, from, to - 1);
        if triangle_weight(data, a, to - 1, lo, hi) > triangle_weight(data, a, best, lo, hi) {
            to - 1
        } else {
            best
        }
    }
}

/// The index in `data` of sample `k` when `data` is reduced to `threshold`
/// samples: the first point, then from each bucket the point that forms the
/// largest triangle with the previous sample and the centre of the next
/// bucket, then the last point.
pub open spec fn sampled_index(data: Seq<TrackPoint>, threshold: int, k: int) -> int
    decreases k,
{
    let n = data.len() as int;
    if k <= 0 {
        0
    } else if k >= threshold - 1 {
        n - 1
    } else {
        first_largest(
            data,
            sampled_index(data, threshold, k - 1),
            bucket_start(n, threshold, k),
            lesser(bucket_start(n, threshold, k + 1), n),
            bucket_start(n, threshold, k - 1),
            bucket_start(n, threshold, k),
        )
    }
}

/// The reduction of `data` to `threshold` samples; `data` itself where it is
/// no longer than the threshold or the threshold is zero.
pub open spec fn lttb_of(data: Seq<TrackPoint>, threshold: int) -> Seq<TrackPoint> {
    if threshold >= data.len() || threshold == 0 {
        data
    } else {
        Seq::new(threshold as nat, |k: int| data[sampled_index(data, threshold, k)])
    }
}

/// Buckets start after the first point, end at the last point, and each
/// holds at least one point.
pub proof fn lemma_bucket_start(n: int, threshold: int, k: int)
    requires
        3 <= threshold < n,
        0 <= k,
    ensures
        bucket_start(n, threshold, 0) == 1,
        bucket_start(n, threshold, threshold - 2) == n - 1,
        bucket_start(n, threshold, k) + 1 <= bucket_start(n, threshold, k + 1),
        k <= threshold - 2 ==> 1 <= bucket_start(n, threshold, k) <= n - 1,
        k >= threshold - 2 ==> bucket_start(n, threshold, k) >= n - 1,
{
    let m = n - 2;
    let d = threshold - 2;
    assert(0 * m == 0);
    lemma_div_multiples_vanish(m, d);
    assert(d * m == m * d) by (nonlinear_arith);
    assert((k + 1) * m == k * m + m) by (nonlinear_arith);
    assert(0 <= k * m) by (nonlinear_arith)
        requires
            0 <= k,
            0 <= m,
    ;
    lemma_div_is_ordered(k * m + d, k * m + m, d);
    vstd::arithmetic::div_mod::lemma_div_plus_one(k * m, d);
    lemma_div_pos_is_pos(k * m, d);
    if k <= d {
        assert(k * m <= d * m) by (nonlinear_arith)
            requires
                0 <= k <= d,
                0 <= m,
        ;
        lemma_div_is_ordered(k * m, d * m, d);
    }
    if k >= d {
        assert(d * m <= k * m) by (nonlinear_arith)
            requires
                0 <= d <= k,
                0 <= m,
        ;
        lemma_div_is_ordered(d * m, k * m, d);
    }
}

/// The chosen index lies in the range that was searched.
pub proof fn lemma_first_largest_in_range(
    data: Seq<TrackPoint>,
    a: int,
    lo: int,
    hi: int,
    from: int,
    to: int,
)
    requires
        from < to,
    ensures
        from <= first_largest(data, a, lo, hi, from, to) < to,
    decreases to - from,
{
    if to > from + 1 {
        lemma_first_largest_in_range(data, a, lo, hi, from, to - 1);
    }
}

/// Sample `k` is taken from bucket `k - 1`; so the samples keep the order of
/// the points they were taken from.
pub proof fn lemma_sampled_index_in_bucket(data: Seq<TrackPoint>, threshold: int, k: int)
    requires
        3 <= threshold < data.len(),
        1 <= k <= threshold - 2,
    ensures
        bucket_start(data.len() as int, threshold, k - 1) <= sampled_index(data, threshold, k)
            < bucket_start(data.len() as int, threshold, k),
        sampled_index(data, threshold, k - 1) < sampled_index(data, threshold, k) < sampled_index(
            data,
            threshold,
            k + 1,
        ) <= data.len() - 1,
    decreases k,
{
    let n = data.len() as int;
    lemma_bucket_start(n, threshold, k - 1);
    lemma_bucket_start(n, threshold, k);
    lemma_first_largest_in_range(
        data,
        sampled_index(data, threshold, k - 1),
        bucket_start(n, threshold, k),
        lesser(bucket_start(n, threshold, k + 1), n),
        bucket_start(n, threshold, k - 1),
        bucket_start(n, threshold, k),
    );
    if k > 1 {
        lemma_sampled_index_in_bucket(data, threshold, k - 1);
    }
    if k + 1 <= threshold - 2 {
        lemma_bucket_start(n, threshold, k + 1);
        lemma_first_largest_in_range(
            data,
            sampled_index(data, threshold, k),
            bucket_start(n, threshold, k + 1),
            lesser(bucket_start(n, threshold, k + 2), n),
            bucket_start(n, threshold, k),
            bucket_start(n, threshold, k + 1),
        );
    }
}

/// A downsampled series starts with the first point of its input and ends
/// with the last.
pub proof fn lemma_lttb_keeps_endpoints(data: Seq<TrackPoint>, threshold: int)
    requires
        data.len() >= 1,
        threshold != 1 || data.len() == 1,
        threshold >= 0,
    ensures
        lttb_of(data, threshold).len() >= 1,
        lttb_of(data, threshold).first() == data.first(),
        lttb_of(data, threshold).last() == data.last(),
{
}

/// The elevation sum of a range is bounded by the size of the range.
pub proof fn lemma_elevation_sum_bounds(data: Seq<TrackPoint>, lo: int, hi: int)
    requires
        lo <= hi,
    ensures
        -(hi - lo) * 0x8000_0000 <= elevation_sum(data, lo, hi) <= (hi - lo) * 0x8000_0000,
    decreases hi - lo,
{
    if lo < hi {
        lemma_elevation_sum_bounds(data, lo, hi - 1);
        assert(-(hi - lo) * 0x8000_0000 == -(hi - 1 - lo) * 0x8000_0000 - 0x8000_0000)
            by (nonlinear_arith);
        assert((hi - lo) * 0x8000_0000 == (hi - 1 - lo) * 0x8000_0000 + 0x8000_0000)
            by (nonlinear_arith);
    }
}

/// The comparison elevation of a point.
fn elevation_of(p: &TrackPoint) -> (r: i128)
    ensures
        r == elevation_or_zero(*p),
        -0x8000_0000 <= r < 0x8000_0000,
{
    match p.elevation {
        Some(e) => e as i128,
        None => 0,
    }
}

/// Start of bucket `k`.
fn bucket_start_of(n: usize, threshold: usize, k: usize) -> (r: usize)
    requires
        3 <= threshold < n <= MAX_TRACK_POINTS,
        k <= threshold - 1,
    ensures
        r == lesser(bucket_start(n as int, threshold as int, k as int), n as int),
{
    proof {
        lemma_bucket_start(n as int, threshold as int, k as int);
        assert(0 <= k * (n - 2) <= 0xFFFF_FFFF * 0xFFFF_FFFF) by (nonlinear_arith)
            requires
                0 <= k <= 0xFFFF_FFFF,
                0 <= n - 2 <= 0xFFFF_FFFF,
        ;
        lemma_div_pos_is_pos(k * (n - 2), threshold - 2);
    }
    let wide: u128 = (k as u128) * ((n - 2) as u128);
    let q: u128 = wide / ((threshold - 2) as u128);
    if q >= (n - 1) as u128 {
        n
    } else {
        (q + 1) as usize
    }
}

/// Scaled area of the triangle at `a`, `s` and the centre of `[lo, hi)`,
/// given the elevation sum of that range.
#[verifier::rlimit(40)]
fn triangle_weight_of(
    data: &Vec<TrackPoint>,
    a: usize,
    s: usize,
    lo: usize,
    hi: usize,
    sum: i128,
) -> (w: i128)
    requires
        data@.len() <= MAX_TRACK_POINTS,
        a < data@.len(),
        s < data@.len(),
        lo < hi <= data@.len(),
        sum == elevation_sum(data@, lo as int, hi as int),
    ensures
        w == triangle_weight(data@, a as int, s as int, lo as int, hi as int),
{
    let count: i128 = (hi - lo) as i128;
    let base: i128 = elevation_of(&data[a]);
    let lean: i128 = 2 * (a as i128) - ((lo as i128) + (hi as i128));
    let rise: i128 = elevation_of(&data[s]) - base;
    let reach: i128 = 2 * ((a as i128) - (s as i128));
    proof {
        lemma_elevation_sum_bounds(data@, lo as int, hi as int);
        assert(-0x2_0000_0000 * 0x1_0000_0000 <= lean * rise <= 0x2_0000_0000 * 0x1_0000_0000)
            by (nonlinear_arith)
            requires
                -0x2_0000_0000 <= lean <= 0x2_0000_0000,
                -0x1_0000_0000 <= rise <= 0x1_0000_0000,
        ;
        assert(-0x2_0000_0000_0000_0000 * 0x1_0000_0000 <= (lean * rise) * count
            <= 0x2_0000_0000_0000_0000 * 0x1_0000_0000) by (nonlinear_arith)
            requires
                -0x2_0000_0000_0000_0000 <= lean * rise <= 0x2_0000_0000_0000_0000,
                0 <= count <= 0x1_0000_0000,
        ;
        assert(-0x1_0000_0000 * 0x8000_0000 <= count * base <= 0x1_0000_0000 * 0x8000_0000)
            by (nonlinear_arith)
            requires
                0 <= count <= 0x1_0000_0000,
                -0x8000_0000 <= base <= 0x8000_0000,
        ;
        assert(-0x1_0000_0000 * 0x8000_0000 <= sum <= 0x1_0000_0000 * 0x8000_0000)
            by (nonlinear_arith)
            requires
                -count * 0x8000_0000 <= sum <= count * 0x8000_0000,
                0 <= count <= 0x1_0000_0000,
        ;
    }
    let spread: i128 = sum - count * base;
    proof {
        assert(-0x2_0000_0000 * 0x1_0000_0000_0000_0000 <= reach * spread <= 0x2_0000_0000
            * 0x1_0000_0000_0000_0000) by (nonlinear_arith)
            requires
                -0x2_0000_0000 <= reach <= 0x2_0000_0000,
                -0x1_0000_0000_0000_0000 <= spread <= 0x1_0000_0000_0000_0000,
        ;
    }
    let diff: i128 = lean * rise * count - reach * spread;
    if diff < 0 {
        -diff
    } else {
        diff
    }
}

/// Copies a point sequence.
pub fn copy_points(points: &Vec<TrackPoint>) -> (out: Vec<TrackPoint>)
    ensures
        out@ == points@,
{
    let mut out: Vec<TrackPoint> = Vec::new();
    let mut i: usize = 0;
    while i < points.len()
        invariant
            0 <= i <= points@.len(),
            out@ == points@.subrange(0, i as int),
        decreases points@.len() - i,
    {
        out.push(points[i]);
        assert(out@ =~= points@.subrange(0, i + 1));
        i = i + 1;
    }
    assert(points@.subrange(0, points@.len() as int) =~= points@);
    out
}

/// Reduces `data` to `threshold` points with the largest-triangle-three-buckets
/// method over the elevation channel. The first and the last point are always
/// kept, and the samples keep the order of the input.
#[verifier::rlimit(40)]
pub fn lttb_downsample(data: &Vec<TrackPoint>, threshold: usize) -> (sampled: Vec<TrackPoint>)
    requires
        data@.len() <= MAX_TRACK_POINTS,
        threshold != 1 || data@.len() <= 1,
    ensures
        sampled@ == lttb_of(data@, threshold as int),
{
    let n = data.len();
    if threshold >= n || threshold == 0 {
        return copy_points(data);
    }
    let mut sampled: Vec<TrackPoint> = Vec::new();
    sampled.push(data[0]);
    let mut a: usize = 0;
    let mut k: usize = 1;
    while k < threshold - 1
        invariant
            2 <= threshold < n,
            n == data@.len(),
            n <= MAX_TRACK_POINTS,
            1 <= k <= threshold - 1,
            sampled@.len() == k,
            forall|j: int|
                0 <= j < k ==> sampled@[j] == data@[#[trigger] sampled_index(
                    data@,
                    threshold as int,
                    j,
                )],
            a == sampled_index(data@, threshold as int, k - 1),
            a < n,
        decreases threshold - k,
    {
        proof {
            lemma_bucket_start(n as int, threshold as int, k as int - 1);
            lemma_bucket_start(n as int, threshold as int, k as int);
            lemma_bucket_start(n as int, threshold as int, k as int + 1);
        }
        let from = bucket_start_of(n, threshold, k - 1);
        let to = bucket_start_of(n, threshold, k);
        let lo = to;
        let hi = bucket_start_of(n, threshold, k + 1);
        let mut sum: i128 = 0;
        let mut j: usize = lo;
        while j < hi
            invariant
                lo <= j <= hi <= n,
                n == data@.len(),
                n <= MAX_TRACK_POINTS,
                sum == elevation_sum(data@, lo as int, j as int),
            decreases hi - j,
        {
            proof {
                lemma_elevation_sum_bounds(data@, lo as int, j as int);
                assert((j - lo) * 0x8000_0000 <= 0x1_0000_0000 * 0x8000_0000) by (nonlinear_arith)
                    requires
                        0 <= j - lo <= 0x1_0000_0000,
                ;
            }
            sum = sum + elevation_of(&data[j]);
            j = j + 1;
        }
        let mut best: usize = from;
        let mut best_weight: i128 = triangle_weight_of(data, a, from, lo, hi, sum);
        let mut s: usize = from + 1;
        while s < to
            invariant
                from < s <= to <= n,
                lo < hi <= n,
                a < n,
                n == data@.len(),
                n <= MAX_TRACK_POINTS,
                sum == elevation_sum(data@, lo as int, hi as int),
                best == first_largest(
                    data@,
                    a as int,
                    lo as int,
                    hi as int,
                    from as int,
                    s as int,
                ),
                from <= best < s,
                best_weight == triangle_weight(
                    data@,
                    a as int,
                    best as int,
                    lo as int,
                    hi as int,
                ),
            decreases to - s,
        {
            let weight = triangle_weight_of(data, a, s, lo, hi, sum);
            if weight > best_weight {
                best = s;
                best_weight = weight;
            }
            s = s + 1;
        }
        sampled.push(data[best]);
        a = best;
        k = k + 1;
    }
    sampled.push(data[n - 1]);
    assert(sampled@ =~= lttb_of(data@, threshold as int));
    sampled
}

/// The point series of a processed activity: the input itself up to
/// [`MAX_POINTS`] points, else its reduction to that many.
pub open spec fn downsampled(points: Seq<TrackPoint>) -> Seq<TrackPoint> {
    if points.len() <= MAX_POINTS {
        points
    } else {
        lttb_of(points, MAX_POINTS as int)
    }
}

/// Keeps a series within the point budget.
pub fn downsample(points: &Vec<TrackPoint>) -> (out: Vec<TrackPoint>)
    requires
        points@.len() <= MAX_TRACK_POINTS,
    ensures
        out@ == downsampled(points@),
        out@.len() <= MAX_POINTS,
        points@.len() >= 2 ==> out@.len() >= 2,
{
    if points.len() <= MAX_POINTS {
        return copy_points(points);
    }
    lttb_downsample(points, MAX_POINTS)
}

/// A processed activity has between two and [`MAX_POINTS`] points, and its
/// distance, elevation gain and duration are not negative.
pub proof fn lemma_processed_bounds(points: Seq<TrackPoint>, segments: Seq<u64>)
    requires
        points.len() >= 2,
    ensures
        2 <= downsampled(points).len() <= MAX_POINTS,
        metrics_of(points, segments).distance_mm >= 0,
        metrics_of(points, segments).elevation_gain_mm >= 0,
        metrics_of(points, segments).duration_seconds >= 0,
{
}

/// Turns a parsed recording into a processed activity: its aggregates, the
/// channels it carries, and its points reduced to the point budget.
///
/// `segments[i]` is the great-circle length, in millimetres, from point `i`
/// to point `i + 1`. A recording of fewer than two points is refused.
pub fn process(parsed: &ParsedActivity, segments: &Vec<u64>) -> (result: Result<
    ProcessedActivity,
    ProcessError,
>)
    requires
        parsed.points@.len() <= MAX_TRACK_POINTS,
        parsed.points@.len() >= 2 ==> segments@.len() + 1 == parsed.points@.len(),
    ensures
        match result {
            Ok(activity) => {
                &&& parsed.points@.len() >= 2
                &&& activity.points@ == downsampled(parsed.points@)
                &&& 2 <= activity.points@.len() <= MAX_POINTS
                &&& activity.metrics == metrics_of(parsed.points@, segments@)
                &&& activity.available_data == channels_of(parsed.points@)
            },
            Err(e) => parsed.points@.len() < 2 && e == ProcessError::InsufficientPoints(
                parsed.points@.len() as usize,
            ),
        },
{
    if parsed.points.len() < 2 {
        return Err(ProcessError::InsufficientPoints(parsed.points.len()));
    }
    let metrics = compute_metrics(&parsed.points, segments);
    let available_data = detect_available_data(&parsed.points);
    let points = downsample(&parsed.points);
    Ok(ProcessedActivity { points, metrics, available_data })
}

} // verus!
