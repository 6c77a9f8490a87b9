//! Double-clap pairing: two claps 150–600 ms apart with similar peak level
//! and spectrum make a trigger.
use vstd::prelude::*;

use crate::engine::event::ClapEvent;

verus! {

/// Pairing limits. Intervals are in milliseconds, the peak difference in
/// thousandths of a decibel and the flatness difference in basis points.
#[derive(Clone, Copy, Debug, PartialEq, Eq, Structural)]
pub struct MatcherConfig {
    pub min_interval_ms: u64,
    pub max_interval_ms: u64,
    pub max_peak_mdb_diff: i32,
    pub max_flatness_bp_diff: i32,
}

impl MatcherConfig {
    /// The shipped tuning: 150–600 ms apart, peaks within 12 dB, flatness
    /// within 0.25.
    pub fn default_config() -> (r: MatcherConfig)
        ensures
            r == (MatcherConfig {
                min_interval_ms: 150,
                max_interval_ms: 600,
                max_peak_mdb_diff: 12000,
                max_flatness_bp_diff: 2500,
            }),
    {
        MatcherConfig {
            min_interval_ms: 150,
            max_interval_ms: 600,
            max_peak_mdb_diff: 12000,
            max_flatness_bp_diff: 2500,
        }
    }
}

/// A matched double clap. Confidence is in basis points.
#[derive(Clone, Copy, Debug, PartialEq, Eq, Structural)]
pub struct TriggerEvent {
    pub first_at_ms: u64,
    pub second_at_ms: u64,
    pub interval_ms: u64,
    pub confidence_bp: i32,
}

/// Why a pair of claps is not a double clap.
#[derive(Clone, Copy, Debug, PartialEq, Eq, Structural)]
pub enum RejectReason {
    IntervalTooShort,
    IntervalTooLong,
    PeakMismatch,
    FlatnessMismatch,
}

/// `|a - b|`.
pub open spec fn abs_diff(a: i32, b: i32) -> int {
    if a >= b {
        a - b
    } else {
        b - a
    }
}

/// `a - b`, or 0 when `b` is later.
pub open spec fn sat_sub(a: u64, b: u64) -> u64 {
    if a >= b {
        (a - b) as u64
    } else {
        0
    }
}

/// The first limit a pair breaks, checked in order: interval too short,
/// interval too long, peak mismatch, flatness mismatch.
pub open spec fn reject_reason(
    first: ClapEvent,
    second: ClapEvent,
    interval_ms: u64,
    config: MatcherConfig,
) -> Option<RejectReason> {
    if interval_ms < config.min_interval_ms {
        Some(RejectReason::IntervalTooShort)
    } else if interval_ms > config.max_interval_ms {
        Some(RejectReason::IntervalTooLong)
    } else if abs_diff(first.peak_mdb, second.peak_mdb) > config.max_peak_mdb_diff {
        Some(RejectReason::PeakMismatch)
    } else if abs_diff(first.flatness_bp, second.flatness_bp) > config.max_flatness_bp_diff {
        Some(RejectReason::FlatnessMismatch)
    } else {
        None
    }
}

/// A similarity score in basis points: 10000 minus the share of `limit`
/// that `diff` uses; a limit below `floor` (a thousandth of the unit: 1
/// for thousandths of a decibel, 10 for basis points) counts as `floor`.
pub open spec fn closeness_score(diff: int, limit: int, floor: int) -> int {
    let l = if limit < floor {
        floor
    } else {
        limit
    };
    10000 - (diff * 10000) / l
}

/// How central the interval sits in `[min, max]`, in basis points: 10000
/// at the centre, 0 at either end, and 0 when the range is a single point.
pub open spec fn interval_score(interval_ms: u64, config: MatcherConfig) -> int {
    let span = config.max_interval_ms - config.min_interval_ms;
    let off = 2 * interval_ms - (config.min_interval_ms + config.max_interval_ms);
    let dist = if off >= 0 {
        off
    } else {
        -off
    };
    if span > 0 {
        10000 - (dist * 10000) / span
    } else {
        0
    }
}

/// Confidence of an accepted pair: 40% the claps' mean confidence and 20%
/// each for peak similarity, flatness similarity and interval centrality,
/// clamped to `[0, 10000]` and rounded to the nearest basis point.
pub open spec fn pair_confidence(
    first: ClapEvent,
    second: ClapEvent,
    interval_ms: u64,
    config: MatcherConfig,
) -> int {
    let sum = first.confidence_bp + second.confidence_bp + closeness_score(
        abs_diff(first.peak_mdb, second.peak_mdb),
        config.max_peak_mdb_diff as int,
        1,
    ) + closeness_score(
        abs_diff(first.flatness_bp, second.flatness_bp),
        config.max_flatness_bp_diff as int,
        10,
    ) + interval_score(interval_ms, config);
    if sum < 0 {
        0
    } else if sum > 50000 {
        10000
    } else {
        (sum + 2) / 5
    }
}

/// What pairing `first` with `second` gives: the first broken limit, or a
/// trigger spanning the two claps.
pub open spec fn evaluate_pair_spec(
    first: ClapEvent,
    second: ClapEvent,
    interval_ms: u64,
    config: MatcherConfig,
) -> Result<TriggerEvent, RejectReason> {
    match reject_reason(first, second, interval_ms, config) {
        Some(reason) => Err(reason),
        None => Ok(
            TriggerEvent {
                first_at_ms: first.timestamp_ms,
                second_at_ms: second.timestamp_ms,
                interval_ms,
                confidence_bp: pair_confidence(first, second, interval_ms, config) as i32,
            },
        ),
    }
}

/// A pair is accepted exactly when the interval lies in
/// `[min_interval_ms, max_interval_ms]`, the peaks differ by at most
/// `max_peak_mdb_diff` and the flatness values by at most
/// `max_flatness_bp_diff`, whichever clap is the louder or the flatter. So
/// acceptance does not depend on the order of the two claps, and a pair
/// with an interval in range whose peaks differ by more than the limit, in
/// either direction, is rejected for its peaks. The confidence of a pair
/// does not depend on the order of its claps either, and lies in
/// `[0, 10000]`.
pub proof fn pairing_is_symmetric_in_level(
    first: ClapEvent,
    second: ClapEvent,
    interval_ms: u64,
    config: MatcherConfig,
)
    ensures
        evaluate_pair_spec(first, second, interval_ms, config) is Ok <==> {
            &&& config.min_interval_ms <= interval_ms <= config.max_interval_ms
            &&& first.peak_mdb - second.peak_mdb <= config.max_peak_mdb_diff
            &&& second.peak_mdb - first.peak_mdb <= config.max_peak_mdb_diff
            &&& first.flatness_bp - second.flatness_bp <= config.max_flatness_bp_diff
            &&& second.flatness_bp - first.flatness_bp <= config.max_flatness_bp_diff
        },
        (evaluate_pair_spec(first, second, interval_ms, config) is Ok) == (evaluate_pair_spec(
            second,
            first,
            interval_ms,
            config,
        ) is Ok),
        config.min_interval_ms <= interval_ms <= config.max_interval_ms && (first.peak_mdb
            - second.peak_mdb > config.max_peak_mdb_diff || second.peak_mdb - first.peak_mdb
            > config.max_peak_mdb_diff) ==> evaluate_pair_spec(first, second, interval_ms, config)
            == Err::<TriggerEvent, RejectReason>(RejectReason::PeakMismatch),
        pair_confidence(first, second, interval_ms, config) == pair_confidence(
            second,
            first,
            interval_ms,
            config,
        ),
        0 <= pair_confidence(first, second, interval_ms, config) <= 10000,
{
}

/// In the live stream, a clap that follows the waiting one within the
/// interval range but is much louder or much softer than it completes no
/// trigger, and becomes the clap left waiting.
pub proof fn mismatched_peak_completes_no_trigger(
    config: MatcherConfig,
    first: ClapEvent,
    clap: ClapEvent,
)
    requires
        first.timestamp_ms <= clap.timestamp_ms,
        config.min_interval_ms <= clap.timestamp_ms - first.timestamp_ms <= config.max_interval_ms,
        first.peak_mdb - clap.peak_mdb > config.max_peak_mdb_diff || clap.peak_mdb - first.peak_mdb
            > config.max_peak_mdb_diff,
    ensures
        stream_step(config, Some(first), clap) == (None::<TriggerEvent>, Some(clap)),
{
    pairing_is_symmetric_in_level(first, clap, (clap.timestamp_ms - first.timestamp_ms) as u64, config);
}

fn abs_diff_exec(a: i32, b: i32) -> (r: i64)
    ensures
        r == abs_diff(a, b),
{
    if a >= b {
        a as i64 - b as i64
    } else {
        b as i64 - a as i64
    }
}

fn closeness_score_exec(diff: i64, limit: i32, floor: i32) -> (r: i64)
    requires
        0 <= diff <= 0x1_0000_0000,
        1 <= floor <= 10,
    ensures
        r == closeness_score(diff as int, limit as int, floor as int),
{
    let l: i64 = if limit < floor {
        floor as i64
    } else {
        limit as i64
    };
    10000 - (diff * 10000) / l
}

fn interval_score_exec(interval_ms: u64, config: &MatcherConfig) -> (r: i64)
    requires
        config.min_interval_ms <= interval_ms <= config.max_interval_ms,
    ensures
        r == interval_score(interval_ms, *config),
        0 <= r <= 10000,
{
    let span: u128 = config.max_interval_ms as u128 - config.min_interval_ms as u128;
    let twice: u128 = 2 * interval_ms as u128;
    let ends: u128 = config.min_interval_ms as u128 + config.max_interval_ms as u128;
    let dist: u128 = if twice >= ends {
        twice - ends
    } else {
        ends - twice
    };
    if span > 0 {
        assert(dist <= span);
        assert(dist * 10000 <= span * 10000) by (nonlinear_arith)
            requires
                dist <= span,
        ;
        let q: u128 = (dist * 10000) / span;
        assert(q <= 10000) by (nonlinear_arith)
            requires
                q as int == (dist as int * 10000) / (span as int),
                dist <= span,
                span > 0,
        ;
        10000 - q as i64
    } else {
        0
    }
}

/// Check a pair of claps against the limits and, when it passes, build the
/// trigger with its confidence.
pub fn evaluate_pair(
    first: &ClapEvent,
    second: &ClapEvent,
    interval_ms: u64,
    config: &MatcherConfig,
) -> (r: Result<TriggerEvent, RejectReason>)
    ensures
        r == evaluate_pair_spec(*first, *second, interval_ms, *config),
{
    if interval_ms < config.min_interval_ms {
        return Err(RejectReason::IntervalTooShort);
    }
    if interval_ms > config.max_interval_ms {
        return Err(RejectReason::IntervalTooLong);
    }
    let peak_diff = abs_diff_exec(first.peak_mdb, second.peak_mdb);
    if peak_diff > config.max_peak_mdb_diff as i64 {
        return Err(RejectReason::PeakMismatch);
    }
    let flat_diff = abs_diff_exec(first.flatness_bp, second.flatness_bp);
    if flat_diff > config.max_flatness_bp_diff as i64 {
        return Err(RejectReason::FlatnessMismatch);
    }
    let peak_score = closeness_score_exec(peak_diff, config.max_peak_mdb_diff, 1);
    let flat_score = closeness_score_exec(flat_diff, config.max_flatness_bp_diff, 10);
    let int_score = interval_score_exec(interval_ms, config);
    proof {
        let pl = if config.max_peak_mdb_diff < 1 { 1int } else { config.max_peak_mdb_diff as int };
        let fl = if config.max_flatness_bp_diff < 1 { 1int } else { config.max_flatness_bp_diff as int };
        assert(0 <= peak_diff <= pl);
        assert(0 <= flat_diff <= fl);
        assert(0 <= (peak_diff * 10000) / pl <= 10000) by (nonlinear_arith)
            requires
                0 <= peak_diff <= pl,
                pl >= 1,
        ;
        assert(0 <= (flat_diff * 10000) / fl <= 10000) by (nonlinear_arith)
            requires
                0 <= flat_diff <= fl,
                fl >= 1,
        ;
    }
    let sum: i64 = first.confidence_bp as i64 + second.confidence_bp as i64 + peak_score
        + flat_score + int_score;
    let confidence: i64 = if sum < 0 {
        0
    } else if sum > 50000 {
        10000
    } else {
        (sum + 2) / 5
    };
    Ok(
        TriggerEvent {
            first_at_ms: first.timestamp_ms,
            second_at_ms: second.timestamp_ms,
            interval_ms,
            confidence_bp: confidence as i32,
        },
    )
}

/// Stateful double-clap matcher for a live clap stream. Holds at most one
/// unconsumed clap; a rejected pair advances by one so the newer clap can
/// pair with the next one.
#[derive(Clone, Copy, Debug)]
pub struct StreamingMatcher {
    pub config: MatcherConfig,
    pub pending: Option<ClapEvent>,
}

/// One step of the streaming matcher: the trigger the clap completes, if
/// any, and the clap left waiting afterwards.
pub open spec fn stream_step(
    config: MatcherConfig,
    pending: Option<ClapEvent>,
    clap: ClapEvent,
) -> (Option<TriggerEvent>, Option<ClapEvent>) {
    match pending {
        None => (None, Some(clap)),
        Some(first) => match evaluate_pair_spec(
            first,
            clap,
            sat_sub(clap.timestamp_ms, first.timestamp_ms),
            config,
        ) {
            Ok(t) => (Some(t), None),
            Err(_) => (None, Some(clap)),
        },
    }
}

impl StreamingMatcher {
    pub fn new(config: MatcherConfig) -> (r: Self)
        ensures
            r.config == config,
            r.pending is None,
    {
        StreamingMatcher { config, pending: None }
    }

    /// Drop any half-matched clap, e.g. when detection is paused and resumed.
    pub fn reset(&mut self)
        ensures
            final(self).config == old(self).config,
            final(self).pending is None,
    {
        self.pending = None;
    }

    /// Feed the next clap; returns the trigger it completes.
    pub fn push(&mut self, clap: ClapEvent) -> (r: Option<TriggerEvent>)
        ensures
            final(self).config == old(self).config,
            (r, final(self).pending) == stream_step(old(self).config, old(self).pending, clap),
    {
        let first = match self.pending.take() {
            None => {
                self.pending = Some(clap);
                return None;
            },
            Some(first) => first,
        };
        let interval_ms = if clap.timestamp_ms >= first.timestamp_ms {
            clap.timestamp_ms - first.timestamp_ms
        } else {
            0
        };
        match evaluate_pair(&first, &clap, interval_ms, &self.config) {
            Ok(trigger) => Some(trigger),
            Err(_) => {
                self.pending = Some(clap);
                None
            },
        }
    }
}

} // verus!
