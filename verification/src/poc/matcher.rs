//! Offline double-clap pairing over a whole list of detected claps.
use vstd::prelude::*;

use crate::engine::event::ClapEvent;
pub use crate::engine::matcher::{MatcherConfig, RejectReason, TriggerEvent};
use crate::engine::matcher::{evaluate_pair, evaluate_pair_spec, sat_sub, stream_step};

verus! {

/// What became of one pair of neighbouring claps.
#[derive(Clone, Copy, Debug, PartialEq, Eq, Structural)]
pub enum PairOutcome {
    Trigger(TriggerEvent),
    Rejected { first_idx: usize, second_idx: usize, interval_ms: u64, reason: RejectReason },
}

/// The outcome of pairing `claps[0]` with `claps[1]`, where `claps[0]` sits
/// at index `base` of the whole list.
pub open spec fn pair_outcome(claps: Seq<ClapEvent>, base: int, config: MatcherConfig) -> PairOutcome {
    let interval = sat_sub(claps[1].timestamp_ms, claps[0].timestamp_ms);
    match evaluate_pair_spec(claps[0], claps[1], interval, config) {
        Ok(t) => PairOutcome::Trigger(t),
        Err(reason) => PairOutcome::Rejected {
            first_idx: base as usize,
            second_idx: (base + 1) as usize,
            interval_ms: interval,
            reason,
        },
    }
}

/// The outcomes of pairing a list of claps from its start: each pair of
/// neighbours is evaluated in turn; a trigger consumes both claps, a
/// rejection moves on by one so the second clap can pair with the next.
/// `base` is the index of `claps[0]` in the whole list.
pub open spec fn pair_outcomes(claps: Seq<ClapEvent>, base: int, config: MatcherConfig) -> Seq<
    PairOutcome,
>
    decreases claps.len(),
{
    if claps.len() < 2 {
        Seq::empty()
    } else {
        let o = pair_outcome(claps, base, config);
        if o is Trigger {
            seq![o] + pair_outcomes(claps.skip(2), base + 2, config)
        } else {
            seq![o] + pair_outcomes(claps.skip(1), base + 1, config)
        }
    }
}

/// The triggers among a list of outcomes, in order.
pub open spec fn triggers_of(outcomes: Seq<PairOutcome>) -> Seq<TriggerEvent>
    decreases outcomes.len(),
{
    if outcomes.len() == 0 {
        Seq::empty()
    } else {
        match outcomes[0] {
            PairOutcome::Trigger(t) => seq![t] + triggers_of(outcomes.drop_first()),
            PairOutcome::Rejected { .. } => triggers_of(outcomes.drop_first()),
        }
    }
}

/// Evaluate neighbouring claps in order, consuming both claps of a trigger
/// and advancing by one after a rejection.
pub fn analyze(events: &Vec<ClapEvent>, config: &MatcherConfig) -> (r: Vec<PairOutcome>)
    ensures
        r@ == pair_outcomes(events@, 0, *config),
{
    let n = events.len();
    let mut outcomes: Vec<PairOutcome> = Vec::new();
    let mut i: usize = 0;
    assert(events@.skip(0) =~= events@);
    while n - i >= 2
        invariant
            n == events@.len(),
            i <= n,
            outcomes@ + pair_outcomes(events@.skip(i as int), i as int, *config) == pair_outcomes(
                events@,
                0,
                *config,
            ),
        decreases n - i,
    {
        let first = &events[i];
        let second = &events[i + 1];
        let interval_ms = if second.timestamp_ms >= first.timestamp_ms {
            second.timestamp_ms - first.timestamp_ms
        } else {
            0
        };
        let ghost rest = events@.skip(i as int);
        assert(rest[0] == events@[i as int]);
        assert(rest[1] == events@[i + 1]);
        let outcome = match evaluate_pair(first, second, interval_ms, config) {
            Ok(trigger) => PairOutcome::Trigger(trigger),
            Err(reason) => PairOutcome::Rejected {
                first_idx: i,
                second_idx: i + 1,
                interval_ms,
                reason,
            },
        };
        assert(outcome == pair_outcome(rest, i as int, *config));
        let consumed_pair = match outcome {
            PairOutcome::Trigger(_) => true,
            _ => false,
        };
        outcomes.push(outcome);
        if consumed_pair {
            assert(rest.skip(2) =~= events@.skip(i + 2));
            i += 2;
        } else {
            assert(rest.skip(1) =~= events@.skip(i + 1));
            i += 1;
        }
        assert(outcomes@ + pair_outcomes(events@.skip(i as int), i as int, *config) =~= pair_outcomes(
            events@,
            0,
            *config,
        ));
    }
    assert(pair_outcomes(events@.skip(i as int), i as int, *config) =~= Seq::<PairOutcome>::empty());
    assert(outcomes@ =~= outcomes@ + Seq::<PairOutcome>::empty());
    outcomes
}

proof fn lemma_triggers_of_append(a: Seq<PairOutcome>, b: Seq<PairOutcome>)
    ensures
        triggers_of(a + b) == triggers_of(a) + triggers_of(b),
    decreases a.len(),
{
    if a.len() == 0 {
        assert(a + b =~= b);
        assert(triggers_of(a) + triggers_of(b) =~= triggers_of(b));
    } else {
        assert((a + b).drop_first() =~= a.drop_first() + b);
        lemma_triggers_of_append(a.drop_first(), b);
        match a[0] {
            PairOutcome::Trigger(t) => {
                assert(seq![t] + triggers_of(a.drop_first()) + triggers_of(b) =~= seq![t] + (
                triggers_of(a.drop_first()) + triggers_of(b)));
            },
            PairOutcome::Rejected { .. } => {},
        }
    }
}

/// The triggers of pairing `events` in order.
pub fn match_pattern(events: &Vec<ClapEvent>, config: &MatcherConfig) -> (r: Vec<TriggerEvent>)
    ensures
        r@ == triggers_of(pair_outcomes(events@, 0, *config)),
{
    let outcomes = analyze(events, config);
    let n = outcomes.len();
    let mut triggers: Vec<TriggerEvent> = Vec::new();
    let mut k: usize = 0;
    while k < n
        invariant
            n == outcomes@.len(),
            k <= n,
            triggers@ == triggers_of(outcomes@.take(k as int)),
        decreases n - k,
    {
        proof {
            lemma_triggers_of_append(outcomes@.take(k as int), seq![outcomes@[k as int]]);
            assert(outcomes@.take(k + 1) =~= outcomes@.take(k as int) + seq![outcomes@[k as int]]);
            assert(seq![outcomes@[k as int]].drop_first() =~= Seq::<PairOutcome>::empty());
        }
        let ghost one = seq![outcomes@[k as int]];
        assert(triggers_of(one.drop_first()) =~= Seq::<TriggerEvent>::empty());
        match outcomes[k] {
            PairOutcome::Trigger(trigger) => {
                assert(triggers_of(one) =~= seq![trigger]);
                triggers.push(trigger);
            },
            PairOutcome::Rejected { .. } => {
                assert(triggers_of(one) =~= Seq::<TriggerEvent>::empty());
            },
        }
        k += 1;
    }
    assert(outcomes@.take(n as int) =~= outcomes@);
    triggers
}

/// The triggers a streaming matcher reports when fed `claps` one by one,
/// starting with `pending` waiting.
pub open spec fn stream_triggers(
    config: MatcherConfig,
    pending: Option<ClapEvent>,
    claps: Seq<ClapEvent>,
) -> Seq<TriggerEvent>
    decreases claps.len(),
{
    if claps.len() == 0 {
        Seq::empty()
    } else {
        let (t, next) = stream_step(config, pending, claps[0]);
        match t {
            Some(trig) => seq![trig] + stream_triggers(config, next, claps.drop_first()),
            None => stream_triggers(config, next, claps.drop_first()),
        }
    }
}

proof fn lemma_outcomes_base(claps: Seq<ClapEvent>, b1: int, b2: int, config: MatcherConfig)
    ensures
        triggers_of(pair_outcomes(claps, b1, config)) == triggers_of(pair_outcomes(claps, b2, config)),
    decreases claps.len(),
{
    if claps.len() >= 2 {
        let o1 = pair_outcome(claps, b1, config);
        let o2 = pair_outcome(claps, b2, config);
        if o1 is Trigger {
            lemma_outcomes_base(claps.skip(2), b1 + 2, b2 + 2, config);
            assert(pair_outcomes(claps, b1, config).drop_first() == pair_outcomes(claps.skip(2), b1 + 2, config));
            assert(pair_outcomes(claps, b2, config).drop_first() == pair_outcomes(claps.skip(2), b2 + 2, config));
        } else {
            lemma_outcomes_base(claps.skip(1), b1 + 1, b2 + 1, config);
            assert(pair_outcomes(claps, b1, config).drop_first() == pair_outcomes(claps.skip(1), b1 + 1, config));
            assert(pair_outcomes(claps, b2, config).drop_first() == pair_outcomes(claps.skip(1), b2 + 1, config));
        }
    }
}

proof fn lemma_stream_pending(config: MatcherConfig, c: ClapEvent, claps: Seq<ClapEvent>)
    ensures
        stream_triggers(config, Some(c), claps) == triggers_of(
            pair_outcomes(seq![c] + claps, 0, config),
        ),
    decreases claps.len(), 1int,
{
    let all = seq![c] + claps;
    if claps.len() == 0 {
        assert(all.len() == 1);
    } else {
        assert(all[0] == c);
        assert(all[1] == claps[0]);
        let o = pair_outcome(all, 0, config);
        let outs = pair_outcomes(all, 0, config);
        if o is Trigger {
            assert(all.skip(2) =~= claps.drop_first());
            lemma_stream_fresh(config, claps.drop_first());
            lemma_outcomes_base(claps.drop_first(), 2, 0, config);
            assert(outs[0] == o);
            assert(outs.drop_first() == pair_outcomes(all.skip(2), 2, config));
        } else {
            assert(all.skip(1) =~= claps);
            assert(claps =~= seq![claps[0]] + claps.drop_first());
            lemma_stream_pending(config, claps[0], claps.drop_first());
            lemma_outcomes_base(claps, 1, 0, config);
            assert(outs[0] == o);
            assert(outs.drop_first() == pair_outcomes(all.skip(1), 1, config));
        }
    }
}

proof fn lemma_stream_fresh(config: MatcherConfig, claps: Seq<ClapEvent>)
    ensures
        stream_triggers(config, None, claps) == triggers_of(pair_outcomes(claps, 0, config)),
    decreases claps.len(), 2int,
{
    if claps.len() > 0 {
        assert(claps =~= seq![claps[0]] + claps.drop_first());
        lemma_stream_pending(config, claps[0], claps.drop_first());
    }
}

/// Feeding claps one at a time into a fresh streaming matcher reports
/// exactly the triggers that pairing the whole list at once reports.
pub proof fn streaming_matches_offline(config: MatcherConfig, claps: Seq<ClapEvent>)
    ensures
        stream_triggers(config, None, claps) == triggers_of(pair_outcomes(claps, 0, config)),
{
    lemma_stream_fresh(config, claps);
}

} // verus!
