use vibe::engine::event::ClapEvent;
use vibe::engine::matcher::{evaluate_pair, MatcherConfig, RejectReason, StreamingMatcher, TriggerEvent};
use vibe::engine::Sensitivity;

fn clap(timestamp_ms: u64, peak_mdb: i32, flatness_bp: i32) -> ClapEvent {
    ClapEvent {
        timestamp_ms,
        peak_mdb,
        above_floor_mdb: peak_mdb + 60_000,
        flatness_bp,
        confidence_bp: 8000,
    }
}

fn push_all(matcher: &mut StreamingMatcher, claps: &[ClapEvent]) -> Vec<TriggerEvent> {
    claps.iter().filter_map(|c| matcher.push(*c)).collect()
}

#[test]
fn sensitivity_u8_roundtrip() {
    for level in [Sensitivity::Low, Sensitivity::Medium, Sensitivity::High] {
        assert_eq!(Sensitivity::from_u8(level.as_u8()), level);
    }
}

#[test]
fn sensitivity_codes_and_unknown_values() {
    assert_eq!(Sensitivity::Low.as_u8(), 0);
    assert_eq!(Sensitivity::Medium.as_u8(), 1);
    assert_eq!(Sensitivity::High.as_u8(), 2);
    assert_eq!(Sensitivity::from_u8(7), Sensitivity::Medium);
}

#[test]
fn single_clap_does_not_trigger() {
    let mut matcher = StreamingMatcher::new(MatcherConfig::default_config());
    assert!(matcher.push(clap(100, -10_000, 3500)).is_none());
}

#[test]
fn similar_pair_in_range_triggers() {
    let mut matcher = StreamingMatcher::new(MatcherConfig::default_config());
    let triggers = push_all(
        &mut matcher,
        &[clap(100, -10_000, 3500), clap(400, -11_000, 3300)],
    );
    assert_eq!(triggers.len(), 1);
    assert_eq!(triggers[0].interval_ms, 300);
}

#[test]
fn matcher_interval_too_short_is_rejected() {
    let mut matcher = StreamingMatcher::new(MatcherConfig::default_config());
    let triggers = push_all(
        &mut matcher,
        &[clap(100, -10_000, 3500), clap(220, -10_000, 3500)],
    );
    assert!(triggers.is_empty());
}

#[test]
fn matcher_interval_too_long_is_rejected() {
    let mut matcher = StreamingMatcher::new(MatcherConfig::default_config());
    let triggers = push_all(
        &mut matcher,
        &[clap(100, -10_000, 3500), clap(900, -10_000, 3500)],
    );
    assert!(triggers.is_empty());
}

#[test]
fn matcher_peak_mismatch_is_rejected() {
    let mut matcher = StreamingMatcher::new(MatcherConfig::default_config());
    let triggers = push_all(
        &mut matcher,
        &[clap(100, -5_000, 3500), clap(400, -25_000, 3500)],
    );
    assert!(triggers.is_empty());
}

#[test]
fn matcher_flatness_mismatch_is_rejected() {
    let mut matcher = StreamingMatcher::new(MatcherConfig::default_config());
    let triggers = push_all(
        &mut matcher,
        &[clap(100, -10_000, 6000), clap(400, -10_000, 2200)],
    );
    assert!(triggers.is_empty());
}

#[test]
fn rejected_pair_advances_by_one() {
    let mut matcher = StreamingMatcher::new(MatcherConfig::default_config());
    let triggers = push_all(
        &mut matcher,
        &[
            clap(100, -10_000, 3500),
            clap(220, -10_000, 3500),
            clap(520, -10_000, 3500),
        ],
    );
    assert_eq!(triggers.len(), 1);
    assert_eq!(triggers[0].first_at_ms, 220);
}

#[test]
fn triggered_pair_consumes_both_claps() {
    let mut matcher = StreamingMatcher::new(MatcherConfig::default_config());
    let triggers = push_all(
        &mut matcher,
        &[
            clap(100, -10_000, 3500),
            clap(400, -10_000, 3500),
            clap(700, -10_000, 3500),
        ],
    );
    assert_eq!(triggers.len(), 1);
}

#[test]
fn reset_drops_pending_clap() {
    let mut matcher = StreamingMatcher::new(MatcherConfig::default_config());
    assert!(matcher.push(clap(100, -10_000, 3500)).is_none());
    matcher.reset();
    assert!(matcher.push(clap(400, -10_000, 3500)).is_none());
}

#[test]
fn boundary_intervals_are_inclusive() {
    let config = MatcherConfig::default_config();
    let mut matcher = StreamingMatcher::new(config);
    let triggers = push_all(
        &mut matcher,
        &[clap(0, -10_000, 3500), clap(config.min_interval_ms, -10_000, 3500)],
    );
    assert_eq!(triggers.len(), 1);

    let mut matcher = StreamingMatcher::new(config);
    let triggers = push_all(
        &mut matcher,
        &[clap(0, -10_000, 3500), clap(config.max_interval_ms, -10_000, 3500)],
    );
    assert_eq!(triggers.len(), 1);
}

#[test]
fn confidence_of_a_centered_identical_pair() {
    let config = MatcherConfig::default_config();
    // Identical claps at the centre of 150–600 ms: every score is 10000,
    // so the confidence is (8000 + 8000 + 3 * 10000) / 5.
    let t = evaluate_pair(&clap(0, -10_000, 3500), &clap(375, -10_000, 3500), 375, &config)
        .expect("accepted");
    assert_eq!(t.confidence_bp, 9200);
    assert_eq!(t.first_at_ms, 0);
    assert_eq!(t.second_at_ms, 375);
}

#[test]
fn confidence_at_the_edges() {
    let config = MatcherConfig::default_config();
    // At the edge of the interval range with the largest allowed peak and
    // flatness differences, only the claps' own confidence counts.
    let t = evaluate_pair(&clap(0, -10_000, 3500), &clap(150, -22_000, 6000), 150, &config)
        .expect("accepted");
    assert_eq!(t.confidence_bp, 3200);
}

#[test]
fn reject_reasons_come_in_order() {
    let config = MatcherConfig::default_config();
    let a = clap(0, -10_000, 3500);
    let b = clap(100, -40_000, 9000);
    assert_eq!(evaluate_pair(&a, &b, 100, &config), Err(RejectReason::IntervalTooShort));
    assert_eq!(evaluate_pair(&a, &b, 700, &config), Err(RejectReason::IntervalTooLong));
    assert_eq!(evaluate_pair(&a, &b, 300, &config), Err(RejectReason::PeakMismatch));
    let c = clap(300, -10_000, 9000);
    assert_eq!(evaluate_pair(&a, &c, 300, &config), Err(RejectReason::FlatnessMismatch));
}

#[test]
fn confidence_rounds_to_the_nearest_basis_point() {
    let config = MatcherConfig::default_config();
    let a = ClapEvent { confidence_bp: 8002, ..clap(0, -10_000, 3500) };
    let b = ClapEvent { confidence_bp: 8001, ..clap(375, -10_000, 3500) };
    // (8002 + 8001 + 3 * 10000) / 5 = 9200.6
    let t = evaluate_pair(&a, &b, 375, &config).expect("accepted");
    assert_eq!(t.confidence_bp, 9201);
}

#[test]
fn tiny_flatness_limit_counts_as_a_thousandth() {
    let config = MatcherConfig { max_flatness_bp_diff: 5, ..MatcherConfig::default_config() };
    // A limit of 0.0005 counts as 0.001: a 0.0005 difference scores half.
    let t = evaluate_pair(&clap(0, -10_000, 3500), &clap(375, -10_000, 3505), 375, &config)
        .expect("accepted");
    // (8000 + 8000 + 10000 + 5000 + 10000) / 5
    assert_eq!(t.confidence_bp, 8200);
}
