//! Pacing of a video: which share of the route is shown at which share of
//! the playing time.

use vstd::prelude::*;
use vstd::arithmetic::div_mod::{lemma_div_is_ordered, lemma_div_multiples_vanish, lemma_div_pos_is_pos};
use crate::fixed::{clamp_int, UNIT};
use crate::fixed::lesser;
use crate::types::viz::{RoutePoint, VizData};

verus! {

/// The route progress of a point, limited to one whole.
pub open spec fn progress_of(p: RoutePoint) -> int {
    lesser(p.route_progress as int, UNIT as int)
}

/// The elapsed seconds of a point; zero where it has none.
pub open spec fn elapsed_of(p: RoutePoint) -> int {
    match p.elapsed_seconds {
        Some(s) => s as int,
        None => 0,
    }
}

/// Whether every point carries its elapsed time.
pub open spec fn all_timed(points: Seq<RoutePoint>) -> bool {
    forall|i: int| 0 <= i < points.len() ==> (#[trigger] points[i]).elapsed_seconds.is_some()
}

/// The value `part / whole` of the way from `from` to `to`, rounded toward `from`.
pub open spec fn blend(from: int, to: int, part: int, whole: int) -> int {
    if to >= from {
        from + ((to - from) * part) / whole
    } else {
        from - ((from - to) * part) / whole
    }
}

/// The route progress at the elapsed time `target` (in millionths of a
/// second), searched from point `i` on, where the last sample before `i`
/// whose time counts lies at `prev_elapsed` seconds with progress
/// `prev_progress`: the blend of the two samples around the target. Samples
/// whose time does not advance are passed over. Past the last sample, its
/// progress.
pub open spec fn paced_from(
    points: Seq<RoutePoint>,
    target: int,
    prev_elapsed: int,
    prev_progress: int,
    i: int,
) -> int
    decreases points.len() - i,
{
    if i < 0 || i >= points.len() {
        progress_of(points.last())
    } else {
        let elapsed = elapsed_of(points[i]);
        let progress = progress_of(points[i]);
        if elapsed > prev_elapsed && target <= elapsed * UNIT {
            blend(
                prev_progress,
                progress,
                target - prev_elapsed * UNIT,
                (elapsed - prev_elapsed) * UNIT,
            )
        } else {
            paced_from(points, target, elapsed, progress, i + 1)
        }
    }
}

/// The share of the route shown when the share `linear` of the playing time
/// has passed, both in millionths. With elapsed times on every point and a
/// route that takes time, the playing time is mapped onto the elapsed time
/// of the ride and the progress read off between the samples around it, so
/// that the video keeps the pace of the ride. Otherwise the share of the
/// playing time itself.
pub open spec fn paced_progress(points: Seq<RoutePoint>, linear: int) -> int {
    let share = clamp_int(linear, 0, UNIT as int);
    if points.len() < 2 || !all_timed(points) || elapsed_of(points.last()) == 0 {
        share
    } else {
        let target = share * elapsed_of(points.last());
        if target <= elapsed_of(points[0]) * UNIT {
            progress_of(points[0])
        } else {
            paced_from(points, target, elapsed_of(points[0]), progress_of(points[0]), 1)
        }
    }
}

/// A blend of two values within a range stays within the range.
pub proof fn lemma_blend_bounds(from: int, to: int, part: int, whole: int)
    requires
        0 <= from <= UNIT,
        0 <= to <= UNIT,
        0 <= part <= whole,
        whole > 0,
    ensures
        0 <= blend(from, to, part, whole) <= UNIT,
        lesser(from, to) <= blend(from, to, part, whole),
        blend(from, to, part, whole) <= if from > to {
            from
        } else {
            to
        },
{
    let span = if to >= from {
        to - from
    } else {
        from - to
    };
    assert(0 <= span * part <= span * whole) by (nonlinear_arith)
        requires
            0 <= span,
            0 <= part <= whole,
    ;
    lemma_div_pos_is_pos(span * part, whole);
    lemma_div_is_ordered(span * part, span * whole, whole);
    lemma_div_multiples_vanish(span, whole);
    assert(span * whole == whole * span) by (nonlinear_arith);
}

/// The search yields a progress within one whole.
pub proof fn lemma_paced_from_bounds(
    points: Seq<RoutePoint>,
    target: int,
    prev_elapsed: int,
    prev_progress: int,
    i: int,
)
    requires
        points.len() >= 1,
        0 <= i,
        0 <= prev_progress <= UNIT,
        0 <= prev_elapsed,
        prev_elapsed * UNIT < target,
    ensures
        0 <= paced_from(points, target, prev_elapsed, prev_progress, i) <= UNIT,
    decreases points.len() - i,
{
    if i < points.len() {
        let elapsed = elapsed_of(points[i]);
        let progress = progress_of(points[i]);
        if elapsed > prev_elapsed && target <= elapsed * UNIT {
            assert((elapsed - prev_elapsed) * UNIT == elapsed * UNIT - prev_elapsed * UNIT)
                by (nonlinear_arith);
            lemma_blend_bounds(
                prev_progress,
                progress,
                target - prev_elapsed * UNIT,
                (elapsed - prev_elapsed) * UNIT,
            );
        } else {
            assert(elapsed * UNIT < target) by (nonlinear_arith)
                requires
                    elapsed <= prev_elapsed || target > elapsed * UNIT,
                    prev_elapsed * UNIT < target,
                    UNIT == 1_000_000,
            ;
            lemma_paced_from_bounds(points, target, elapsed, progress, i + 1);
        }
    }
}

/// The paced progress is a share of the route: it lies within one whole.
pub proof fn lemma_paced_progress_bounds(points: Seq<RoutePoint>, linear: int)
    ensures
        0 <= paced_progress(points, linear) <= UNIT,
{
    let share = clamp_int(linear, 0, UNIT as int);
    if !(points.len() < 2 || !all_timed(points) || elapsed_of(points.last()) == 0) {
        let target = share * elapsed_of(points.last());
        if target > elapsed_of(points[0]) * UNIT {
            lemma_paced_from_bounds(
                points,
                target,
                elapsed_of(points[0]),
                progress_of(points[0]),
                1,
            );
        }
    }
}

/// The route progress of a point, limited to one whole.
fn progress_at(p: &RoutePoint) -> (r: u64)
    ensures
        r == progress_of(*p),
        r <= UNIT,
{
    if p.route_progress > UNIT {
        UNIT
    } else {
        p.route_progress
    }
}

/// Blends two progress values.
fn blend_of(from: u64, to: u64, part: u128, whole: u128) -> (r: u64)
    requires
        from <= UNIT,
        to <= UNIT,
        part <= whole,
        0 < whole <= 0xFFFF_FFFF_FFFF_FFFF * 1_000_000,
    ensures
        r == blend(from as int, to as int, part as int, whole as int),
        r <= UNIT,
{
    proof {
        lemma_blend_bounds(from as int, to as int, part as int, whole as int);
    }
    if to >= from {
        let span = (to - from) as u128;
        assert(span * part <= 1_000_000 * (0xFFFF_FFFF_FFFF_FFFF * 1_000_000)) by (nonlinear_arith)
            requires
                0 <= span <= 1_000_000,
                0 <= part <= 0xFFFF_FFFF_FFFF_FFFF * 1_000_000,
        ;
        (from as u128 + (span * part) / whole) as u64
    } else {
        let span = (from - to) as u128;
        assert(span * part <= 1_000_000 * (0xFFFF_FFFF_FFFF_FFFF * 1_000_000)) by (nonlinear_arith)
            requires
                0 <= span <= 1_000_000,
                0 <= part <= 0xFFFF_FFFF_FFFF_FFFF * 1_000_000,
        ;
        (from as u128 - (span * part) / whole) as u64
    }
}

/// Maps a share of the playing time to the share of the route shown then;
/// see [`paced_progress`].
pub fn map_linear_progress_to_route(data: &VizData, linear_progress: u64) -> (progress: u64)
    ensures
        progress == paced_progress(data.points@, linear_progress as int),
        progress <= UNIT,
{
    proof {
        lemma_paced_progress_bounds(data.points@, linear_progress as int);
    }
    let share: u64 = if linear_progress > UNIT {
        UNIT
    } else {
        linear_progress
    };
    let n = data.points.len();
    if n < 2 {
        return share;
    }
    let mut k: usize = 0;
    while k < n
        invariant
            0 <= k <= n,
            n == data.points@.len(),
            share == clamp_int(linear_progress as int, 0, UNIT as int),
            forall|j: int| 0 <= j < k ==> (#[trigger] data.points@[j]).elapsed_seconds.is_some(),
        decreases n - k,
    {
        if data.points[k].elapsed_seconds.is_none() {
            assert(!all_timed(data.points@)) by {
                assert(data.points@[k as int].elapsed_seconds.is_none());
            }
            return share;
        }
        k = k + 1;
    }
    let total: u64 = match data.points[n - 1].elapsed_seconds {
        Some(s) => s,
        None => 0,
    };
    if total == 0 {
        return share;
    }
    assert(share * total <= 1_000_000 * 0xFFFF_FFFF_FFFF_FFFF) by (nonlinear_arith)
        requires
            share <= 1_000_000,
            total <= 0xFFFF_FFFF_FFFF_FFFF,
    ;
    let target: u128 = share as u128 * total as u128;
    let first: u64 = match data.points[0].elapsed_seconds {
        Some(s) => s,
        None => 0,
    };
    if target <= first as u128 * UNIT as u128 {
        return progress_at(&data.points[0]);
    }
    let mut prev_elapsed: u64 = first;
    let mut prev_progress: u64 = progress_at(&data.points[0]);
    let mut i: usize = 1;
    while i < n
        invariant
            1 <= i <= n,
            2 <= n == data.points@.len(),
            all_timed(data.points@),
            prev_progress <= UNIT,
            prev_elapsed * UNIT < target,
            target <= 1_000_000 * 0xFFFF_FFFF_FFFF_FFFF,
            paced_progress(data.points@, linear_progress as int) == paced_from(
                data.points@,
                target as int,
                prev_elapsed as int,
                prev_progress as int,
                i as int,
            ),
        decreases n - i,
    {
        let point = &data.points[i];
        let elapsed: u64 = match point.elapsed_seconds {
            Some(s) => s,
            None => 0,
        };
        let progress = progress_at(point);
        if elapsed > prev_elapsed && target <= elapsed as u128 * UNIT as u128 {
            assert((elapsed - prev_elapsed) * UNIT == elapsed * UNIT - prev_elapsed * UNIT)
                by (nonlinear_arith);
            assert((elapsed - prev_elapsed) * UNIT <= 0xFFFF_FFFF_FFFF_FFFF * 1_000_000)
                by (nonlinear_arith)
                requires
                    0 <= elapsed - prev_elapsed <= 0xFFFF_FFFF_FFFF_FFFF,
                    UNIT == 1_000_000,
            ;
            let part: u128 = target - prev_elapsed as u128 * UNIT as u128;
            let whole: u128 = (elapsed - prev_elapsed) as u128 * UNIT as u128;
            return blend_of(prev_progress, progress, part, whole);
        }
        assert(elapsed * UNIT < target) by (nonlinear_arith)
            requires
                elapsed <= prev_elapsed || target > elapsed * UNIT,
                prev_elapsed * UNIT < target,
                UNIT == 1_000_000,
        ;
        prev_elapsed = elapsed;
        prev_progress = progress;
        i = i + 1;
    }
    progress_at(&data.points[n - 1])
}

} // verus!
