use vibe::engine::event::ClapEvent;
use vibe::engine::matcher::StreamingMatcher;
use vibe::poc::matcher::{analyze, match_pattern, MatcherConfig, PairOutcome, RejectReason, TriggerEvent};

fn clap(timestamp_ms: u64, peak_mdb: i32, flatness_bp: i32) -> ClapEvent {
    ClapEvent {
        timestamp_ms,
        peak_mdb,
        above_floor_mdb: peak_mdb + 60_000,
        flatness_bp,
        confidence_bp: 8000,
    }
}

#[test]
fn empty_input_returns_no_triggers() {
    let events: Vec<ClapEvent> = Vec::new();
    assert!(match_pattern(&events, &MatcherConfig::default_config()).is_empty());
}

#[test]
fn single_clap_returns_no_triggers() {
    let events = vec![clap(100, -10_000, 3500)];
    assert!(match_pattern(&events, &MatcherConfig::default_config()).is_empty());
}

#[test]
fn well_spaced_similar_claps_trigger_once() {
    let events = vec![clap(100, -10_000, 3500), clap(400, -11_500, 3600)];
    let triggers = match_pattern(&events, &MatcherConfig::default_config());
    assert_eq!(triggers.len(), 1);
    let trigger = triggers[0];
    assert_eq!(trigger.first_at_ms, 100);
    assert_eq!(trigger.second_at_ms, 400);
    assert_eq!(trigger.interval_ms, 300);
    assert!(trigger.confidence_bp > 7000, "confidence={}", trigger.confidence_bp);
}

#[test]
fn offline_matcher_interval_too_short_is_rejected() {
    let events = vec![clap(100, -10_000, 3500), clap(220, -10_500, 3600)];
    let outcomes = analyze(&events, &MatcherConfig::default_config());
    assert_eq!(outcomes.len(), 1);
    assert!(matches!(
        outcomes[0],
        PairOutcome::Rejected {
            reason: RejectReason::IntervalTooShort,
            ..
        }
    ));
}

#[test]
fn offline_matcher_interval_too_long_is_rejected() {
    let events = vec![clap(100, -10_000, 3500), clap(900, -10_500, 3600)];
    let outcomes = analyze(&events, &MatcherConfig::default_config());
    assert_eq!(outcomes.len(), 1);
    assert!(matches!(
        outcomes[0],
        PairOutcome::Rejected {
            reason: RejectReason::IntervalTooLong,
            ..
        }
    ));
}

#[test]
fn offline_matcher_peak_mismatch_is_rejected() {
    let events = vec![clap(100, -8_000, 3500), clap(380, -25_000, 3600)];
    let outcomes = analyze(&events, &MatcherConfig::default_config());
    assert!(matches!(
        outcomes[0],
        PairOutcome::Rejected {
            reason: RejectReason::PeakMismatch,
            ..
        }
    ));
}

#[test]
fn offline_matcher_flatness_mismatch_is_rejected() {
    let events = vec![clap(100, -10_000, 3500), clap(380, -11_000, 500)];
    let outcomes = analyze(&events, &MatcherConfig::default_config());
    assert!(matches!(
        outcomes[0],
        PairOutcome::Rejected {
            reason: RejectReason::FlatnessMismatch,
            ..
        }
    ));
}

#[test]
fn three_consecutive_claps_consume_first_pair() {
    let events = vec![
        clap(100, -10_000, 3500),
        clap(400, -11_000, 3600),
        clap(700, -10_500, 3500),
    ];
    let triggers = match_pattern(&events, &MatcherConfig::default_config());
    assert_eq!(triggers.len(), 1);
    assert_eq!(triggers[0].first_at_ms, 100);
    assert_eq!(triggers[0].second_at_ms, 400);
}

#[test]
fn four_consecutive_claps_produce_two_triggers() {
    let events = vec![
        clap(100, -10_000, 3500),
        clap(400, -11_000, 3600),
        clap(900, -10_500, 3400),
        clap(1200, -10_800, 3500),
    ];
    let triggers = match_pattern(&events, &MatcherConfig::default_config());
    assert_eq!(triggers.len(), 2);
    assert_eq!(triggers[0].first_at_ms, 100);
    assert_eq!(triggers[1].first_at_ms, 900);
}

#[test]
fn rejected_pair_lets_second_clap_pair_with_next() {
    let events = vec![
        clap(100, -10_000, 3500),
        clap(150, -10_500, 3500),
        clap(450, -11_000, 3600),
    ];
    let triggers = match_pattern(&events, &MatcherConfig::default_config());
    assert_eq!(triggers.len(), 1);
    assert_eq!(triggers[0].first_at_ms, 150);
    assert_eq!(triggers[0].second_at_ms, 450);
}

#[test]
fn boundary_interval_at_minimum_passes() {
    let events = vec![clap(100, -10_000, 3500), clap(250, -10_000, 3500)];
    let triggers = match_pattern(&events, &MatcherConfig::default_config());
    assert_eq!(triggers.len(), 1);
}

#[test]
fn boundary_interval_at_maximum_passes() {
    let events = vec![clap(100, -10_000, 3500), clap(700, -10_000, 3500)];
    let triggers = match_pattern(&events, &MatcherConfig::default_config());
    assert_eq!(triggers.len(), 1);
}

#[test]
fn boundary_peak_diff_at_limit_passes() {
    let config = MatcherConfig::default_config();
    let events = vec![
        clap(100, -10_000, 3500),
        clap(400, -10_000 - config.max_peak_mdb_diff, 3500),
    ];
    let triggers = match_pattern(&events, &config);
    assert_eq!(triggers.len(), 1);
}

#[test]
fn rejected_outcome_names_its_claps() {
    let events = vec![
        clap(100, -10_000, 3500),
        clap(150, -10_500, 3500),
        clap(450, -11_000, 3600),
    ];
    let outcomes = analyze(&events, &MatcherConfig::default_config());
    assert_eq!(outcomes.len(), 2);
    assert_eq!(
        outcomes[0],
        PairOutcome::Rejected {
            first_idx: 0,
            second_idx: 1,
            interval_ms: 50,
            reason: RejectReason::IntervalTooShort,
        }
    );
    assert!(matches!(outcomes[1], PairOutcome::Trigger(_)));
}

#[test]
fn streaming_agrees_with_offline_pairing() {
    let config = MatcherConfig::default_config();
    let events = vec![
        clap(100, -10_000, 3500),
        clap(150, -10_500, 3500),
        clap(450, -11_000, 3600),
        clap(800, -10_000, 3500),
        clap(1100, -30_000, 3500),
        clap(1300, -30_500, 3400),
    ];
    let offline = match_pattern(&events, &config);
    let mut matcher = StreamingMatcher::new(config);
    let streamed: Vec<TriggerEvent> = events.iter().filter_map(|c| matcher.push(*c)).collect();
    assert_eq!(streamed, offline);
    assert_eq!(offline.len(), 2);
}
