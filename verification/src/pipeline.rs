//! Decisions of the capture → detect → match pipeline: the post-trigger
//! quiet gate and the exactly-two rule.
use vstd::prelude::*;

use crate::engine::event::ClapEvent;
use crate::engine::matcher::{stream_step, MatcherConfig, StreamingMatcher, TriggerEvent};
use crate::engine::Sensitivity;

verus! {

/// Post-trigger quiet gate window: a held trigger is decided within this
/// much audio after the pair.
pub const QUIET_GATE_WINDOW_MS: u64 = 300;

/// Continuous quiet that confirms the trigger immediately.
pub const QUIET_GATE_CONFIRM_MS: u64 = 100;

/// Loudness over the adaptive floor that counts as "still noisy", in
/// thousandths of a decibel (12 dB).
pub const QUIET_GATE_MARGIN_MDB: i32 = 12000;

/// Cumulative loud time tolerated inside the window (reverb allowance).
pub const QUIET_GATE_LOUD_LIMIT_MS: u64 = 90;

/// This many interruptions of a running quiet streak inside the window
/// mean an impulse train, not clap reverb.
pub const QUIET_GATE_MAX_STREAK_RESETS: u32 = 3;

/// A matched trigger held until a short stretch of continuous quiet
/// confirms the impulse. Claps are impulses: after the second clap the room
/// drops back to the noise floor almost immediately, while sustained noise
/// stays loud and can never produce that quiet stretch.
#[derive(Clone, Copy, Debug)]
pub struct QuietGate {
    pub trigger: TriggerEvent,
    pub elapsed_ms: u64,
    pub loud_ms: u64,
    pub quiet_streak_ms: u64,
    pub streak_resets: u32,
}

/// The outcome of one audio chunk for a held trigger.
#[derive(Clone, Copy, Debug, PartialEq, Eq, Structural)]
pub enum GateVerdict {
    Pending,
    Fire(TriggerEvent),
    Discard,
}

/// A chunk is loud when its level is finite (`Some`) and at least the
/// margin above the floor.
pub open spec fn is_loud(above_floor_mdb: Option<i32>) -> bool {
    match above_floor_mdb {
        Some(a) => a >= QUIET_GATE_MARGIN_MDB,
        None => false,
    }
}

/// The held trigger's window after a chunk of `chunk_ms` milliseconds, and the outcome:
/// loud time accumulates and breaks the quiet streak (counting a reset when
/// a streak was running); too much loud time discards; a long enough quiet
/// streak fires at once; at the end of the window the trigger fires unless
/// the quiet kept being interrupted.
pub open spec fn gate_step(g: QuietGate, above_floor_mdb: Option<i32>, chunk_ms: u64) -> (
    QuietGate,
    GateVerdict,
) {
    let g1 = if is_loud(above_floor_mdb) {
        QuietGate {
            loud_ms: (g.loud_ms + chunk_ms) as u64,
            streak_resets: if g.quiet_streak_ms > 0 {
                (g.streak_resets + 1) as u32
            } else {
                g.streak_resets
            },
            quiet_streak_ms: 0,
            ..g
        }
    } else {
        QuietGate { quiet_streak_ms: (g.quiet_streak_ms + chunk_ms) as u64, ..g }
    };
    if g1.loud_ms > QUIET_GATE_LOUD_LIMIT_MS {
        (g1, GateVerdict::Discard)
    } else if g1.quiet_streak_ms >= QUIET_GATE_CONFIRM_MS {
        (g1, GateVerdict::Fire(g1.trigger))
    } else {
        let g2 = QuietGate { elapsed_ms: (g1.elapsed_ms + chunk_ms) as u64, ..g1 };
        if g2.elapsed_ms >= QUIET_GATE_WINDOW_MS {
            if g2.streak_resets >= QUIET_GATE_MAX_STREAK_RESETS {
                (g2, GateVerdict::Discard)
            } else {
                (g2, GateVerdict::Fire(g2.trigger))
            }
        } else {
            (g2, GateVerdict::Pending)
        }
    }
}

/// The counters of `g` leave room for one more chunk of `chunk_ms`.
pub open spec fn gate_has_room(g: QuietGate, chunk_ms: u64) -> bool {
    &&& g.loud_ms + chunk_ms <= u64::MAX
    &&& g.quiet_streak_ms + chunk_ms <= u64::MAX
    &&& g.elapsed_ms + chunk_ms <= u64::MAX
    &&& g.streak_resets < u32::MAX
}

impl QuietGate {
    /// A gate holding `trigger`, with nothing heard yet.
    pub fn new(trigger: TriggerEvent) -> (r: Self)
        ensures
            r == (QuietGate {
                trigger,
                elapsed_ms: 0,
                loud_ms: 0,
                quiet_streak_ms: 0,
                streak_resets: 0,
            }),
    {
        QuietGate { trigger, elapsed_ms: 0, loud_ms: 0, quiet_streak_ms: 0, streak_resets: 0 }
    }

    /// Feed one chunk: its level above the adaptive floor in thousandths of
    /// a decibel (`None` when not finite) and its duration.
    pub fn feed(&mut self, above_floor_mdb: Option<i32>, chunk_ms: u64) -> (r: GateVerdict)
        requires
            gate_has_room(*old(self), chunk_ms),
        ensures
            (*final(self), r) == gate_step(*old(self), above_floor_mdb, chunk_ms),
    {
        let loud = match above_floor_mdb {
            Some(a) => a >= QUIET_GATE_MARGIN_MDB,
            None => false,
        };
        if loud {
            self.loud_ms = self.loud_ms + chunk_ms;
            if self.quiet_streak_ms > 0 {
                self.streak_resets = self.streak_resets + 1;
            }
            self.quiet_streak_ms = 0;
        } else {
            self.quiet_streak_ms = self.quiet_streak_ms + chunk_ms;
        }
        if self.loud_ms > QUIET_GATE_LOUD_LIMIT_MS {
            return GateVerdict::Discard;
        }
        if self.quiet_streak_ms >= QUIET_GATE_CONFIRM_MS {
            return GateVerdict::Fire(self.trigger);
        }
        self.elapsed_ms = self.elapsed_ms + chunk_ms;
        if self.elapsed_ms >= QUIET_GATE_WINDOW_MS {
            if self.streak_resets >= QUIET_GATE_MAX_STREAK_RESETS {
                GateVerdict::Discard
            } else {
                GateVerdict::Fire(self.trigger)
            }
        } else {
            GateVerdict::Pending
        }
    }
}

/// The verdicts of feeding `chunks` (level, duration) into `g` in order.
pub open spec fn gate_run(g: QuietGate, chunks: Seq<(Option<i32>, u64)>) -> Seq<GateVerdict>
    decreases chunks.len(),
{
    if chunks.len() == 0 {
        Seq::empty()
    } else {
        let (g1, v) = gate_step(g, chunks[0].0, chunks[0].1);
        seq![v] + gate_run(g1, chunks.drop_first())
    }
}

/// The total duration of a run of chunks.
pub open spec fn chunk_total(chunks: Seq<(Option<i32>, u64)>) -> nat
    decreases chunks.len(),
{
    if chunks.len() == 0 {
        0
    } else {
        chunks[0].1 as nat + chunk_total(chunks.drop_first())
    }
}

proof fn lemma_loud_never_fires(g: QuietGate, chunks: Seq<(Option<i32>, u64)>)
    requires
        g.quiet_streak_ms == 0,
        g.elapsed_ms <= g.loud_ms,
        forall|i: int| 0 <= i < chunks.len() ==> is_loud(#[trigger] chunks[i].0),
        g.loud_ms + chunk_total(chunks) <= u64::MAX,
    ensures
        forall|i: int| 0 <= i < gate_run(g, chunks).len() ==> !(#[trigger] gate_run(g, chunks)[i] is Fire),
        gate_run(g, chunks).len() == chunks.len(),
    decreases chunks.len(),
{
    if chunks.len() > 0 {
        let (g1, v) = gate_step(g, chunks[0].0, chunks[0].1);
        assert(chunk_total(chunks) == chunks[0].1 + chunk_total(chunks.drop_first()));
        assert(is_loud(chunks[0].0));
        assert(!(v is Fire));
        let rest = chunks.drop_first();
        assert forall|i: int| 0 <= i < rest.len() implies is_loud(#[trigger] rest[i].0) by {
            assert(rest[i] == chunks[i + 1]);
        }
        lemma_loud_never_fires(g1, rest);
        let out = gate_run(g, chunks);
        assert(out == seq![v] + gate_run(g1, rest));
        assert forall|i: int| 0 <= i < out.len() implies !(#[trigger] out[i] is Fire) by {
            if i > 0 {
                assert(out[i] == gate_run(g1, rest)[i - 1]);
            }
        }
    }
}

/// Sustained noise never confirms a held trigger: a fresh gate fed only
/// loud chunks never fires, whatever their number and lengths, as long as
/// their total duration fits the millisecond counters.
pub proof fn loud_chunks_never_fire(trigger: TriggerEvent, chunks: Seq<(Option<i32>, u64)>)
    requires
        forall|i: int| 0 <= i < chunks.len() ==> is_loud(#[trigger] chunks[i].0),
        chunk_total(chunks) <= u64::MAX,
    ensures
        forall|i: int|
            0 <= i < chunks.len() ==> !(#[trigger] gate_run(
                QuietGate {
                    trigger,
                    elapsed_ms: 0,
                    loud_ms: 0,
                    quiet_streak_ms: 0,
                    streak_resets: 0,
                },
                chunks,
            )[i] is Fire),
{
    let g = QuietGate { trigger, elapsed_ms: 0, loud_ms: 0, quiet_streak_ms: 0, streak_resets: 0 };
    lemma_loud_never_fires(g, chunks);
}

/// A fresh gate holding `trigger`.
pub open spec fn fresh_gate(trigger: TriggerEvent) -> QuietGate {
    QuietGate { trigger, elapsed_ms: 0, loud_ms: 0, quiet_streak_ms: 0, streak_resets: 0 }
}

/// The quiet window `g` after `chunks` were fed into it in order.
pub open spec fn gate_after(g: QuietGate, chunks: Seq<(Option<i32>, u64)>) -> QuietGate
    decreases chunks.len(),
{
    if chunks.len() == 0 {
        g
    } else {
        gate_step(gate_after(g, chunks.drop_last()), chunks.last().0, chunks.last().1).0
    }
}

/// Total duration of the loud chunks.
pub open spec fn loud_total(chunks: Seq<(Option<i32>, u64)>) -> nat
    decreases chunks.len(),
{
    if chunks.len() == 0 {
        0
    } else {
        loud_total(chunks.drop_last()) + if is_loud(chunks.last().0) {
            chunks.last().1 as nat
        } else {
            0
        }
    }
}

/// Total duration of the trailing run of quiet chunks.
pub open spec fn quiet_run(chunks: Seq<(Option<i32>, u64)>) -> nat
    decreases chunks.len(),
{
    if chunks.len() == 0 {
        0
    } else if is_loud(chunks.last().0) {
        0
    } else {
        quiet_run(chunks.drop_last()) + chunks.last().1 as nat
    }
}

/// Total duration of all chunks.
pub open spec fn run_length(chunks: Seq<(Option<i32>, u64)>) -> nat
    decreases chunks.len(),
{
    if chunks.len() == 0 {
        0
    } else {
        run_length(chunks.drop_last()) + chunks.last().1 as nat
    }
}

/// How many loud chunks ended a running quiet streak.
pub open spec fn streak_breaks(chunks: Seq<(Option<i32>, u64)>) -> nat
    decreases chunks.len(),
{
    if chunks.len() == 0 {
        0
    } else {
        streak_breaks(chunks.drop_last()) + if is_loud(chunks.last().0) && quiet_run(
            chunks.drop_last(),
        ) > 0 {
            1nat
        } else {
            0
        }
    }
}

/// The outcome for a held trigger after a run of chunks, from their totals: too much loud
/// time discards; a long enough trailing quiet streak fires; once the
/// window has passed, the trigger fires unless the quiet kept being
/// interrupted; otherwise it waits.
pub open spec fn gate_verdict_of(trigger: TriggerEvent, chunks: Seq<(Option<i32>, u64)>) -> GateVerdict {
    if loud_total(chunks) > QUIET_GATE_LOUD_LIMIT_MS {
        GateVerdict::Discard
    } else if quiet_run(chunks) >= QUIET_GATE_CONFIRM_MS {
        GateVerdict::Fire(trigger)
    } else if run_length(chunks) >= QUIET_GATE_WINDOW_MS {
        if streak_breaks(chunks) >= QUIET_GATE_MAX_STREAK_RESETS {
            GateVerdict::Discard
        } else {
            GateVerdict::Fire(trigger)
        }
    } else {
        GateVerdict::Pending
    }
}

proof fn lemma_totals_bounded(chunks: Seq<(Option<i32>, u64)>)
    ensures
        loud_total(chunks) + quiet_run(chunks) <= run_length(chunks),
        streak_breaks(chunks) <= chunks.len(),
    decreases chunks.len(),
{
    if chunks.len() > 0 {
        lemma_totals_bounded(chunks.drop_last());
    }
}

proof fn lemma_gate_after_first(g: QuietGate, chunks: Seq<(Option<i32>, u64)>)
    requires
        chunks.len() > 0,
    ensures
        gate_after(g, chunks) == gate_after(gate_step(g, chunks[0].0, chunks[0].1).0, chunks.drop_first()),
    decreases chunks.len(),
{
    if chunks.len() > 1 {
        let d = chunks.drop_last();
        lemma_gate_after_first(g, d);
        assert(d[0] == chunks[0]);
        assert(d.drop_first() =~= chunks.drop_first().drop_last());
        assert(chunks.drop_first().last() == chunks.last());
        let g1 = gate_step(g, chunks[0].0, chunks[0].1).0;
        assert(gate_after(g1, chunks.drop_first()) == gate_step(
            gate_after(g1, chunks.drop_first().drop_last()),
            chunks.last().0,
            chunks.last().1,
        ).0);
    } else {
        assert(chunks.drop_last() =~= Seq::<(Option<i32>, u64)>::empty());
        assert(chunks.drop_first() =~= Seq::<(Option<i32>, u64)>::empty());
        assert(gate_after(g, chunks.drop_last()) == g);
        assert(chunks.last() == chunks[0]);
    }
}

proof fn lemma_run_is_steps(g: QuietGate, chunks: Seq<(Option<i32>, u64)>, i: int)
    requires
        0 <= i < chunks.len(),
    ensures
        gate_run(g, chunks).len() == chunks.len(),
        gate_run(g, chunks)[i] == gate_step(gate_after(g, chunks.take(i)), chunks[i].0, chunks[i].1).1,
    decreases chunks.len(),
{
    let (g1, v) = gate_step(g, chunks[0].0, chunks[0].1);
    let rest = chunks.drop_first();
    if rest.len() > 0 {
        lemma_run_is_steps(g1, rest, 0);
    } else {
        assert(gate_run(g1, rest) =~= Seq::<GateVerdict>::empty());
    }
    assert(gate_run(g, chunks) == seq![v] + gate_run(g1, rest));
    if i == 0 {
        assert(chunks.take(0) =~= Seq::<(Option<i32>, u64)>::empty());
    } else {
        lemma_run_is_steps(g1, rest, i - 1);
        lemma_gate_after_first(g, chunks.take(i));
        assert(chunks.take(i).drop_first() =~= rest.take(i - 1));
        assert(chunks.take(i)[0] == chunks[0]);
        assert(rest[i - 1] == chunks[i]);
    }
}

proof fn lemma_pending_state(trigger: TriggerEvent, chunks: Seq<(Option<i32>, u64)>, i: int)
    requires
        0 <= i <= chunks.len(),
        forall|j: int| 0 <= j < i ==> #[trigger] gate_run(fresh_gate(trigger), chunks)[j] is Pending,
        run_length(chunks.take(i)) <= u64::MAX,
        chunks.len() <= u32::MAX,
    ensures
        gate_after(fresh_gate(trigger), chunks.take(i)) == (QuietGate {
            trigger,
            elapsed_ms: run_length(chunks.take(i)) as u64,
            loud_ms: loud_total(chunks.take(i)) as u64,
            quiet_streak_ms: quiet_run(chunks.take(i)) as u64,
            streak_resets: streak_breaks(chunks.take(i)) as u32,
        }),
    decreases i,
{
    if i == 0 {
        assert(chunks.take(0) =~= Seq::<(Option<i32>, u64)>::empty());
    } else {
        let p = chunks.take(i - 1);
        let q = chunks.take(i);
        assert(q.drop_last() =~= p);
        assert(q.last() == chunks[i - 1]);
        lemma_totals_bounded(p);
        lemma_totals_bounded(q);
        assert(run_length(q) == run_length(p) + chunks[i - 1].1);
        lemma_pending_state(trigger, chunks, i - 1);
        lemma_run_is_steps(fresh_gate(trigger), chunks, i - 1);
        assert(gate_run(fresh_gate(trigger), chunks)[i - 1] is Pending);
    }
}

/// A held trigger is decided on the totals of everything heard since: while every
/// earlier chunk left it pending, its verdict on chunk `i` is
/// `gate_verdict_of` the chunks so far (loud time, trailing quiet streak,
/// elapsed time and streak interruptions, this chunk included), as long
/// as the elapsed time fits its millisecond counter and the interruptions
/// fit theirs.
pub proof fn gate_decides_on_totals(trigger: TriggerEvent, chunks: Seq<(Option<i32>, u64)>, i: int)
    requires
        0 <= i < chunks.len(),
        forall|j: int| 0 <= j < i ==> #[trigger] gate_run(fresh_gate(trigger), chunks)[j] is Pending,
        run_length(chunks.take(i + 1)) <= u64::MAX,
        chunks.len() <= u32::MAX,
    ensures
        gate_run(fresh_gate(trigger), chunks)[i] == gate_verdict_of(trigger, chunks.take(i + 1)),
{
    let p = chunks.take(i);
    let q = chunks.take(i + 1);
    assert(q.drop_last() =~= p);
    assert(q.last() == chunks[i]);
    assert(run_length(q) == run_length(p) + chunks[i].1);
    lemma_totals_bounded(p);
    lemma_totals_bounded(q);
    lemma_pending_state(trigger, chunks, i);
    lemma_run_is_steps(fresh_gate(trigger), chunks, i);
}

/// History horizon for the exactly-two rule bookkeeping.
pub const CLAP_HISTORY_MS: u64 = 3000;

/// Margin added to the pair interval when judging isolation.
pub const PAIR_ISOLATION_MARGIN_MS: u64 = 500;

/// The clap times of `history` that fall within `[second_at_ms - window_ms,
/// second_at_ms]` (the lower end clamped at 0).
pub open spec fn in_window(history: Seq<u64>, second_at_ms: u64, window_ms: u64) -> Seq<u64> {
    history.filter(|t: u64| sat_sub_spec(second_at_ms, window_ms) <= t && t <= second_at_ms)
}

/// `a - b`, or 0 when `b` is larger.
pub open spec fn sat_sub_spec(a: u64, b: u64) -> u64 {
    if a >= b {
        (a - b) as u64
    } else {
        0
    }
}

/// More than two impulses inside the pair's lookback window means the
/// matched pair belongs to an impulse train (plastic-bottle crush), not a
/// deliberate double clap.
pub fn impulse_train(history: &Vec<u64>, second_at_ms: u64, window_ms: u64) -> (r: bool)
    ensures
        r == (in_window(history@, second_at_ms, window_ms).len() > 2),
{
    let from = if second_at_ms >= window_ms {
        second_at_ms - window_ms
    } else {
        0
    };
    let ghost pred = |t: u64| sat_sub_spec(second_at_ms, window_ms) <= t && t <= second_at_ms;
    let n = history.len();
    let mut count: usize = 0;
    let mut k: usize = 0;
    while k < n
        invariant
            n == history@.len(),
            k <= n,
            from == sat_sub_spec(second_at_ms, window_ms),
            pred == (|t: u64| sat_sub_spec(second_at_ms, window_ms) <= t && t <= second_at_ms),
            count == history@.take(k as int).filter(pred).len(),
            count <= k,
        decreases n - k,
    {
        proof {
            assert(history@.take(k + 1) =~= history@.take(k as int).push(history@[k as int]));
            history@.take(k as int).lemma_filter_push(history@[k as int], pred);
        }
        let t = history[k];
        if t >= from && t <= second_at_ms {
            count += 1;
        }
        k += 1;
    }
    assert(history@.take(n as int) =~= history@);
    count > 2
}


/// What the detection loop reports besides triggers.
#[derive(Clone, Copy, Debug, PartialEq, Eq, Structural)]
pub enum DetectionNotice {
    /// A double clap confirmed by the quiet gate.
    Trigger(TriggerEvent),
    /// A clap was detected (for the diagnostics log).
    Clap(ClapEvent),
    /// An impulse arrived within a second of the last fired trigger.
    LateImpulse,
    /// The held trigger was dropped: the room stayed noisy after the pair.
    NoiseAfterPair,
    /// The held trigger was dropped: a third impulse arrived while it was
    /// being confirmed.
    ExtraImpulse,
    /// The matched pair was dropped: it belongs to an impulse train.
    ImpulseTrain,
}

impl DetectionNotice {
    /// The diagnostics line of a notice with fixed wording.
    pub open spec fn text_spec(self) -> Option<Seq<char>> {
        match self {
            DetectionNotice::LateImpulse => Some("[clap] late impulse within 1s of a fire"@),
            DetectionNotice::NoiseAfterPair => Some("[trigger] discarded — noise after the pair"@),
            DetectionNotice::ExtraImpulse => Some("[trigger] discarded — extra impulse during confirmation"@),
            DetectionNotice::ImpulseTrain => Some("[trigger] discarded — impulse train, not a pair"@),
            _ => None,
        }
    }

    pub fn text(&self) -> (r: Option<&'static str>)
        ensures
            match self.text_spec() {
                Some(t) => r matches Some(s) && s@ == t,
                None => r is None,
            },
    {
        match self {
            DetectionNotice::LateImpulse => Some("[clap] late impulse within 1s of a fire"),
            DetectionNotice::NoiseAfterPair => Some("[trigger] discarded — noise after the pair"),
            DetectionNotice::ExtraImpulse => Some("[trigger] discarded — extra impulse during confirmation"),
            DetectionNotice::ImpulseTrain => Some("[trigger] discarded — impulse train, not a pair"),
            _ => None,
        }
    }
}

/// What to do with an incoming audio chunk.
#[derive(Clone, Copy, Debug, PartialEq, Eq, Structural)]
pub enum ChunkStart {
    /// Detection is paused: drop the chunk.
    Skip,
    /// Process the chunk; start a fresh detector first when asked.
    Process { rebuild_detector: bool },
}

/// The detection loop's state, as values.
pub struct DetectionView {
    pub level: Sensitivity,
    pub config: MatcherConfig,
    pub pending: Option<ClapEvent>,
    pub gate: Option<QuietGate>,
    pub history: Seq<u64>,
    pub last_fire_at_ms: Option<u64>,
    pub was_enabled: bool,
}

/// A held trigger's gate that is still undecided: its counters stay small.
pub open spec fn gate_undecided(g: QuietGate) -> bool {
    &&& g.elapsed_ms < QUIET_GATE_WINDOW_MS
    &&& g.loud_ms <= QUIET_GATE_LOUD_LIMIT_MS
    &&& g.quiet_streak_ms < QUIET_GATE_CONFIRM_MS
    &&& g.streak_resets as int + (if g.quiet_streak_ms > 0 { 1int } else { 0 }) <= g.elapsed_ms
}

/// The pairing limits leave room for the isolation margin.
pub open spec fn config_ok(config: MatcherConfig) -> bool {
    config.max_interval_ms <= u64::MAX - PAIR_ISOLATION_MARGIN_MS
}

/// The state between the detector and the application: the double-clap
/// matcher, the quiet gate holding a matched trigger, the recent clap
/// times for the exactly-two rule, and the pause and sensitivity
/// bookkeeping. The audio capture and the signal detector run outside;
/// they hand this state each chunk's loudness and detected claps.
pub struct DetectionState {
    level: Sensitivity,
    matcher: StreamingMatcher,
    quiet_gate: Option<QuietGate>,
    clap_history: Vec<u64>,
    last_fire_at_ms: Option<u64>,
    was_enabled: bool,
}

impl View for DetectionState {
    type V = DetectionView;

    closed spec fn view(&self) -> DetectionView {
        DetectionView {
            level: self.level,
            config: self.matcher.config,
            pending: self.matcher.pending,
            gate: self.quiet_gate,
            history: self.clap_history@,
            last_fire_at_ms: self.last_fire_at_ms,
            was_enabled: self.was_enabled,
        }
    }
}

/// The clap times kept after a clap at `t`: those within the history
/// horizon before it.
pub open spec fn history_after(history: Seq<u64>, t: u64) -> Seq<u64> {
    history.push(t).filter(|x: u64| x >= sat_sub_spec(t, CLAP_HISTORY_MS))
}

/// The state and notices after the detector reports `clap`: the clap is
/// recorded (older history dropped) and reported; an impulse within a
/// second of the last fire is noted; a clap arriving while a trigger is
/// held drops that trigger and the half-matched clap; otherwise the clap
/// goes to the matcher, and a completed pair is held for the quiet gate,
/// unless more than two impulses fall within its interval plus margin, in
/// which case it is dropped.
pub open spec fn on_clap_spec(s: DetectionView, clap: ClapEvent) -> (DetectionView, Seq<DetectionNotice>) {
    let history = history_after(s.history, clap.timestamp_ms);
    let late = match s.last_fire_at_ms {
        Some(fired) => sat_sub_spec(clap.timestamp_ms, fired) <= 1000,
        None => false,
    };
    let head = if late {
        seq![DetectionNotice::Clap(clap), DetectionNotice::LateImpulse]
    } else {
        seq![DetectionNotice::Clap(clap)]
    };
    let s1 = DetectionView { history, ..s };
    if s.gate is Some {
        (DetectionView { gate: None, pending: None, ..s1 }, head.push(DetectionNotice::ExtraImpulse))
    } else {
        let (t, pending) = stream_step(s.config, s.pending, clap);
        match t {
            None => (DetectionView { pending, ..s1 }, head),
            Some(trigger) => {
                let window = (s.config.max_interval_ms + PAIR_ISOLATION_MARGIN_MS) as u64;
                if in_window(history, trigger.second_at_ms, window).len() > 2 {
                    (DetectionView { pending: None, ..s1 }, head.push(DetectionNotice::ImpulseTrain))
                } else {
                    (
                        DetectionView {
                            pending,
                            gate: Some(
                                QuietGate {
                                    trigger,
                                    elapsed_ms: 0,
                                    loud_ms: 0,
                                    quiet_streak_ms: 0,
                                    streak_resets: 0,
                                },
                            ),
                            ..s1
                        },
                        head,
                    )
                }
            },
        }
    }
}

/// The loop state and decision at the start of a chunk: while detection
/// is off the chunk is skipped; on resume the matcher, the held trigger and
/// the history start over; on a new sensitivity level the pairing is
/// rebuilt with `config` and a fresh detector is asked for.
pub open spec fn begin_chunk_spec(s: DetectionView, enabled: bool, level: Sensitivity, config: MatcherConfig) -> (
    DetectionView,
    ChunkStart,
) {
    if !enabled {
        (DetectionView { was_enabled: false, ..s }, ChunkStart::Skip)
    } else {
        let resumed = if !s.was_enabled {
            DetectionView { pending: None, gate: None, history: Seq::empty(), was_enabled: true, ..s }
        } else {
            s
        };
        if level != s.level {
            (
                DetectionView { level, config, pending: None, gate: None, history: Seq::empty(), ..resumed },
                ChunkStart::Process { rebuild_detector: true },
            )
        } else {
            (resumed, ChunkStart::Process { rebuild_detector: false })
        }
    }
}

/// The loop state after a chunk's loudness and duration reach the held
/// trigger's quiet window, if any, and what is reported: a fired trigger
/// (remembered as the last fire), or a trigger discarded for noise (the
/// matcher starts over); nothing while it is still pending.
pub open spec fn feed_gate_spec(s: DetectionView, above_floor_mdb: Option<i32>, chunk_ms: u64) -> (
    DetectionView,
    Option<DetectionNotice>,
) {
    match s.gate {
        None => (s, None),
        Some(g) => {
            let (g1, v) = gate_step(g, above_floor_mdb, chunk_ms);
            match v {
                GateVerdict::Pending => (DetectionView { gate: Some(g1), ..s }, None),
                GateVerdict::Fire(t) => (
                    DetectionView { gate: None, last_fire_at_ms: Some(t.second_at_ms), ..s },
                    Some(DetectionNotice::Trigger(t)),
                ),
                GateVerdict::Discard => (
                    DetectionView { gate: None, pending: None, ..s },
                    Some(DetectionNotice::NoiseAfterPair),
                ),
            }
        },
    }
}

/// What the detection loop takes in: the start of a chunk (whether
/// detection is on, the sensitivity level and its pairing tuning), a
/// chunk's loudness over the floor and duration, or a detected clap.
pub enum DetectionInput {
    Begin(bool, Sensitivity, MatcherConfig),
    Chunk(Option<i32>, u64),
    Clap(ClapEvent),
}

/// One step of the detection loop: the state after the input and what is
/// reported.
pub open spec fn detection_step(s: DetectionView, input: DetectionInput) -> (DetectionView, Seq<DetectionNotice>) {
    match input {
        DetectionInput::Begin(enabled, level, config) => (begin_chunk_spec(s, enabled, level, config).0, Seq::empty()),
        DetectionInput::Chunk(level, ms) => {
            let (s1, n) = feed_gate_spec(s, level, ms);
            (s1, match n {
                Some(x) => seq![x],
                None => Seq::empty(),
            })
        },
        DetectionInput::Clap(clap) => on_clap_spec(s, clap),
    }
}

/// The loop state after a run of inputs.
pub open spec fn detection_after(s: DetectionView, inputs: Seq<DetectionInput>) -> DetectionView
    decreases inputs.len(),
{
    if inputs.len() == 0 {
        s
    } else {
        detection_step(detection_after(s, inputs.drop_last()), inputs.last()).0
    }
}

/// The window before a pair's second clap in which the exactly-two rule
/// counts claps.
pub open spec fn isolation_window(config: MatcherConfig) -> u64 {
    (config.max_interval_ms + PAIR_ISOLATION_MARGIN_MS) as u64
}

proof fn lemma_step_keeps_isolation(s: DetectionView, input: DetectionInput)
    requires
        held_isolated(s),
    ensures
        held_isolated(detection_step(s, input).0),
{
    match input {
        DetectionInput::Clap(clap) => {
            held_trigger_is_isolated(s, clap);
        },
        _ => {},
    }
}

/// Over any run of the detection loop from a state whose held trigger (if
/// any) is isolated: every state keeps its held trigger isolated; every
/// trigger reported was isolated when it was sent (at most two kept claps
/// in its window, with no clap kept since it matched); and a clap arriving
/// while a trigger is held drops that trigger.
pub proof fn only_isolated_pairs_trigger(s: DetectionView, inputs: Seq<DetectionInput>, i: int)
    requires
        held_isolated(s),
        0 <= i < inputs.len(),
    ensures
        ({
            let si = detection_after(s, inputs.take(i));
            let (next, notices) = detection_step(si, inputs[i]);
            &&& held_isolated(si)
            &&& forall|t: TriggerEvent|
                #[trigger] notices.contains(DetectionNotice::Trigger(t)) ==> in_window(
                    si.history,
                    t.second_at_ms,
                    isolation_window(si.config),
                ).len() <= 2
            &&& (inputs[i] is Clap && si.gate is Some) ==> next.gate is None
        }),
{
    lemma_run_keeps_isolation(s, inputs.take(i));
    let si = detection_after(s, inputs.take(i));
    match inputs[i] {
        DetectionInput::Clap(clap) => {
            held_trigger_is_isolated(si, clap);
            let (next, notices) = on_clap_spec(si, clap);
            assert forall|t: TriggerEvent| #[trigger] notices.contains(DetectionNotice::Trigger(t)) implies false by {
                let k = choose|k: int| 0 <= k < notices.len() && notices[k] == DetectionNotice::Trigger(t);
            }
        },
        DetectionInput::Chunk(level, ms) => {
            let (s1, n) = feed_gate_spec(si, level, ms);
            let notices = detection_step(si, inputs[i]).1;
            assert forall|t: TriggerEvent| #[trigger] notices.contains(DetectionNotice::Trigger(t)) implies in_window(
                si.history,
                t.second_at_ms,
                isolation_window(si.config),
            ).len() <= 2 by {
                let k = choose|k: int| 0 <= k < notices.len() && notices[k] == DetectionNotice::Trigger(t);
                assert(n == Some(DetectionNotice::Trigger(t)));
            }
        },
        DetectionInput::Begin(..) => {},
    }
}

proof fn lemma_run_keeps_isolation(s: DetectionView, inputs: Seq<DetectionInput>)
    requires
        held_isolated(s),
    ensures
        held_isolated(detection_after(s, inputs)),
    decreases inputs.len(),
{
    if inputs.len() > 0 {
        lemma_run_keeps_isolation(s, inputs.drop_last());
        lemma_step_keeps_isolation(detection_after(s, inputs.drop_last()), inputs.last());
    }
}

/// The exactly-two rule holds of the held trigger: at most two claps of
/// the kept history fall within its interval plus margin before its second
/// clap. No clap has been kept since it was matched (a clap drops a held
/// trigger), so this is the history as it was when the pair matched.
pub open spec fn held_isolated(s: DetectionView) -> bool {
    match s.gate {
        Some(g) => in_window(
            s.history,
            g.trigger.second_at_ms,
            (s.config.max_interval_ms + PAIR_ISOLATION_MARGIN_MS) as u64,
        ).len() <= 2,
        None => true,
    }
}

impl DetectionState {
    #[verifier::type_invariant]
    spec fn bounded(self) -> bool {
        &&& config_ok(self.matcher.config)
        &&& match self.quiet_gate {
            Some(g) => gate_undecided(g),
            None => true,
        }
        &&& held_isolated(self@)
    }

    /// A fresh loop at sensitivity `level`, pairing with `config`.
    pub fn new(level: Sensitivity, config: MatcherConfig) -> (r: Self)
        requires
            config_ok(config),
        ensures
            r@ == (DetectionView {
                level,
                config,
                pending: None,
                gate: None,
                history: Seq::empty(),
                last_fire_at_ms: None,
                was_enabled: true,
            }),
    {
        DetectionState {
            level,
            matcher: StreamingMatcher::new(config),
            quiet_gate: None,
            clap_history: Vec::new(),
            last_fire_at_ms: None,
            was_enabled: true,
        }
    }

    /// Decide what to do with the next audio chunk. While detection is
    /// paused, chunks are dropped; on resume, a clap from before the pause
    /// must not pair with one after it and a held trigger is stale, so the
    /// matcher, the quiet window and the history start over. A new sensitivity
    /// rebuilds the pairing with `config` (the tuning for that level) and
    /// asks for a fresh detector.
    pub fn begin_chunk(&mut self, enabled: bool, level: Sensitivity, config: MatcherConfig) -> (r: ChunkStart)
        requires
            config_ok(config),
        ensures
            held_isolated(old(self)@),
            (final(self)@, r) == begin_chunk_spec(old(self)@, enabled, level, config),
    {
        proof {
            use_type_invariant(&*self);
        }
        if !enabled {
            self.was_enabled = false;
            return ChunkStart::Skip;
        }
        if !self.was_enabled {
            self.quiet_gate = None;
            let mut m = self.matcher;
            m.reset();
            self.matcher = m;
            self.clap_history = Vec::new();
            self.was_enabled = true;
        }
        if level != self.level {
            self.quiet_gate = None;
            self.level = level;
            self.matcher = StreamingMatcher::new(config);
            self.clap_history = Vec::new();
            return ChunkStart::Process { rebuild_detector: true };
        }
        ChunkStart::Process { rebuild_detector: false }
    }

    /// Feed a chunk's loudness over the floor (thousandths of a decibel,
    /// `None` when not finite) and duration to the held trigger's gate, if
    /// any. A fired trigger is reported and remembered as the last fire; a
    /// discarded one is reported and the matcher starts over.
    pub fn feed_gate(&mut self, above_floor_mdb: Option<i32>, chunk_ms: u64) -> (r: Option<DetectionNotice>)
        requires
            chunk_ms <= u64::MAX - QUIET_GATE_WINDOW_MS,
        ensures
            held_isolated(old(self)@),
            r matches Some(DetectionNotice::Trigger(t)) ==> in_window(
                old(self)@.history,
                t.second_at_ms,
                (old(self)@.config.max_interval_ms + PAIR_ISOLATION_MARGIN_MS) as u64,
            ).len() <= 2,
            (final(self)@, r) == feed_gate_spec(old(self)@, above_floor_mdb, chunk_ms),
    {
        proof {
            use_type_invariant(&*self);
        }
        let mut gate = match self.quiet_gate {
            Some(g) => g,
            None => return None,
        };
        let verdict = gate.feed(above_floor_mdb, chunk_ms);
        match verdict {
            GateVerdict::Pending => {
                self.quiet_gate = Some(gate);
                None
            },
            GateVerdict::Fire(trigger) => {
                self.quiet_gate = None;
                self.last_fire_at_ms = Some(trigger.second_at_ms);
                Some(DetectionNotice::Trigger(trigger))
            },
            GateVerdict::Discard => {
                self.quiet_gate = None;
                let mut m = self.matcher;
                m.reset();
                self.matcher = m;
                Some(DetectionNotice::NoiseAfterPair)
            },
        }
    }

    /// Take one clap from the detector.
    pub fn on_clap(&mut self, clap: ClapEvent) -> (r: Vec<DetectionNotice>)
        ensures
            (final(self)@, r@) == on_clap_spec(old(self)@, clap),
            held_isolated(old(self)@),
    {
        proof {
            use_type_invariant(&*self);
        }
        // A clap always drops a held trigger, so let go of it first.
        let held = self.quiet_gate.is_some();
        self.quiet_gate = None;
        let t = clap.timestamp_ms;
        let horizon = if t >= CLAP_HISTORY_MS {
            t - CLAP_HISTORY_MS
        } else {
            0
        };
        let mut old_history = Vec::new();
        std::mem::swap(&mut old_history, &mut self.clap_history);
        old_history.push(t);
        let ghost full = old_history@;
        let ghost pred = |x: u64| x >= sat_sub_spec(t, CLAP_HISTORY_MS);
        let mut kept: Vec<u64> = Vec::new();
        let n = old_history.len();
        let mut k: usize = 0;
        while k < n
            invariant
                n == old_history@.len(),
                old_history@ == full,
                k <= n,
                horizon == sat_sub_spec(t, CLAP_HISTORY_MS),
                pred == (|x: u64| x >= sat_sub_spec(t, CLAP_HISTORY_MS)),
                kept@ == full.take(k as int).filter(pred),
            decreases n - k,
        {
            proof {
                assert(full.take(k + 1) =~= full.take(k as int).push(full[k as int]));
                full.take(k as int).lemma_filter_push(full[k as int], pred);
            }
            if old_history[k] >= horizon {
                kept.push(old_history[k]);
            }
            k += 1;
        }
        assert(full.take(n as int) =~= full);
        self.clap_history = kept;
        let mut notices: Vec<DetectionNotice> = Vec::new();
        notices.push(DetectionNotice::Clap(clap));
        let late = match self.last_fire_at_ms {
            Some(fired) => (if t >= fired {
                t - fired
            } else {
                0
            }) <= 1000,
            None => false,
        };
        if late {
            notices.push(DetectionNotice::LateImpulse);
        }
        if held {
            let mut m = self.matcher;
            m.reset();
            self.matcher = m;
            notices.push(DetectionNotice::ExtraImpulse);
            return notices;
        }
        let mut m = self.matcher;
        let pushed = m.push(clap);
        self.matcher = m;
        match pushed {
            None => notices,
            Some(trigger) => {
                let window = self.matcher.config.max_interval_ms + PAIR_ISOLATION_MARGIN_MS;
                if impulse_train(&self.clap_history, trigger.second_at_ms, window) {
                    let mut m2 = self.matcher;
                    m2.reset();
                    self.matcher = m2;
                    notices.push(DetectionNotice::ImpulseTrain);
                } else {
                    self.quiet_gate = Some(QuietGate::new(trigger));
                }
                notices
            },
        }
    }
}

/// The exactly-two rule: after a clap, a trigger is held for confirmation
/// only if at most two impulses fall within the pair's interval plus margin
/// before its second clap; and a clap arriving while a trigger is held
/// always drops that trigger.
pub proof fn held_trigger_is_isolated(s: DetectionView, clap: ClapEvent)
    ensures
        ({
            let (s1, _) = on_clap_spec(s, clap);
            &&& s.gate is Some ==> s1.gate is None
            &&& (s.gate is None && s1.gate is Some) ==> in_window(
                s1.history,
                s1.gate->0.trigger.second_at_ms,
                (s.config.max_interval_ms + PAIR_ISOLATION_MARGIN_MS) as u64,
            ).len() <= 2
        }),
{
}

/// Pausing and resuming detection forgets everything half-done: after a
/// skipped chunk, the next enabled chunk leaves no half-matched clap, no
/// held trigger and no clap history.
pub proof fn resume_starts_over(s: DetectionView, level: Sensitivity, config: MatcherConfig)
    requires
        !s.was_enabled,
    ensures
        ({
            let (after, r) = begin_chunk_spec(s, true, level, config);
            &&& r is Process
            &&& after.pending is None
            &&& after.gate is None
            &&& after.history.len() == 0
            &&& after.was_enabled
        }),
{
}

/// A new sensitivity takes effect on the first enabled chunk after it is
/// set: that chunk runs on a fresh detector and on pairing tuned with the
/// new level's `config`; no clap from before the change can pair with one
/// after it, and a trigger held at the change is dropped, never sent.
pub proof fn level_change_starts_over(s: DetectionView, level: Sensitivity, config: MatcherConfig)
    requires
        level != s.level,
    ensures
        ({
            let (after, r) = begin_chunk_spec(s, true, level, config);
            &&& r == (ChunkStart::Process { rebuild_detector: true })
            &&& after.level == level
            &&& after.config == config
            &&& after.pending is None
            &&& after.gate is None
            &&& after.history.len() == 0
        }),
{
}


/// The controls of the running capture → detect → match pipeline: whether
/// detection is on, the sensitivity level the detection thread tunes
/// itself to, and whether the pipeline was asked to stop. The threads of
/// the pipeline read these on every audio chunk.
pub struct Engine {
    detection_enabled: bool,
    sensitivity: Sensitivity,
    stop: bool,
}

/// What the controls of an [`Engine`] hold.
pub struct EngineView {
    pub detection_enabled: bool,
    pub sensitivity: Sensitivity,
    pub stop: bool,
}

impl View for Engine {
    type V = EngineView;

    closed spec fn view(&self) -> EngineView {
        EngineView {
            detection_enabled: self.detection_enabled,
            sensitivity: self.sensitivity,
            stop: self.stop,
        }
    }
}

/// One change to the engine's controls.
pub enum EngineControl {
    SetDetectionEnabled(bool),
    SetSensitivity(Sensitivity),
    Shutdown,
}

/// The controls after one change.
pub open spec fn apply_control(e: EngineView, c: EngineControl) -> EngineView {
    match c {
        EngineControl::SetDetectionEnabled(enabled) => EngineView { detection_enabled: enabled, ..e },
        EngineControl::SetSensitivity(level) => EngineView { sensitivity: level, ..e },
        EngineControl::Shutdown => EngineView { stop: true, ..e },
    }
}

/// The controls after a run of changes, in order.
pub open spec fn controls_after(e: EngineView, cs: Seq<EngineControl>) -> EngineView
    decreases cs.len(),
{
    if cs.len() == 0 {
        e
    } else {
        apply_control(controls_after(e, cs.drop_last()), cs.last())
    }
}

/// The detection flag last set in `cs`, or `current` when none was set.
pub open spec fn last_detection_setting(cs: Seq<EngineControl>, current: bool) -> bool
    decreases cs.len(),
{
    if cs.len() == 0 {
        current
    } else {
        match cs.last() {
            EngineControl::SetDetectionEnabled(b) => b,
            _ => last_detection_setting(cs.drop_last(), current),
        }
    }
}

/// The sensitivity last set in `cs`, or `current` when none was set.
pub open spec fn last_sensitivity_setting(cs: Seq<EngineControl>, current: Sensitivity) -> Sensitivity
    decreases cs.len(),
{
    if cs.len() == 0 {
        current
    } else {
        match cs.last() {
            EngineControl::SetSensitivity(l) => l,
            _ => last_sensitivity_setting(cs.drop_last(), current),
        }
    }
}

/// A shutdown was asked for in `cs`.
pub open spec fn has_shutdown(cs: Seq<EngineControl>) -> bool {
    exists|i: int| 0 <= i < cs.len() && #[trigger] cs[i] is Shutdown
}

/// Each control reads back what was last written to it: after any run of
/// changes on freshly started controls, detection is enabled exactly as
/// last set (on when never set), the sensitivity is the one last set (the
/// starting level when never set), and the engine is stopping exactly when
/// a shutdown was asked for.
pub proof fn controls_read_back(level: Sensitivity, cs: Seq<EngineControl>)
    ensures
        ({
            let e = controls_after(EngineView { detection_enabled: true, sensitivity: level, stop: false }, cs);
            &&& e.detection_enabled == last_detection_setting(cs, true)
            &&& e.sensitivity == last_sensitivity_setting(cs, level)
            &&& e.stop == has_shutdown(cs)
        }),
    decreases cs.len(),
{
    if cs.len() > 0 {
        let init = EngineView { detection_enabled: true, sensitivity: level, stop: false };
        let rest = cs.drop_last();
        controls_read_back(level, rest);
        if has_shutdown(rest) {
            let i = choose|i: int| 0 <= i < rest.len() && #[trigger] rest[i] is Shutdown;
            assert(cs[i] == rest[i]);
        }
        if has_shutdown(cs) && !(cs.last() is Shutdown) {
            let i = choose|i: int| 0 <= i < cs.len() && #[trigger] cs[i] is Shutdown;
            assert(i < cs.len() - 1);
            assert(rest[i] == cs[i]);
        }
        if cs.last() is Shutdown {
            assert(cs[cs.len() - 1] is Shutdown);
        }
    }
}

impl Engine {
    /// The controls of a freshly started pipeline: detection on, at
    /// `sensitivity`, not stopping.
    pub fn new(sensitivity: Sensitivity) -> (r: Engine)
        ensures
            r@ == (EngineView { detection_enabled: true, sensitivity, stop: false }),
    {
        Engine { detection_enabled: true, sensitivity, stop: false }
    }

    pub fn is_detection_enabled(&self) -> (r: bool)
        ensures
            r == self@.detection_enabled,
    {
        self.detection_enabled
    }

    /// Turn detection on or off; while off, the pipeline drops audio.
    pub fn set_detection_enabled(&mut self, enabled: bool)
        ensures
            final(self)@ == apply_control(old(self)@, EngineControl::SetDetectionEnabled(enabled)),
    {
        self.detection_enabled = enabled;
    }

    /// The level the detection thread tunes itself to.
    pub fn sensitivity(&self) -> (r: Sensitivity)
        ensures
            r == self@.sensitivity,
    {
        self.sensitivity
    }

    /// Applied live: the detection thread rebuilds its detector and
    /// matcher on the next audio chunk.
    pub fn set_sensitivity(&mut self, sensitivity: Sensitivity)
        ensures
            final(self)@ == apply_control(old(self)@, EngineControl::SetSensitivity(sensitivity)),
    {
        self.sensitivity = sensitivity;
    }

    /// Ask the pipeline's threads to stop.
    pub fn shutdown(&mut self)
        ensures
            final(self)@ == apply_control(old(self)@, EngineControl::Shutdown),
    {
        self.stop = true;
    }

    /// Whether the pipeline was asked to stop.
    pub fn is_stopped(&self) -> (r: bool)
        ensures
            r == self@.stop,
    {
        self.stop
    }
}


} // verus!
