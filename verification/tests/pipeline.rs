use vibe::engine::event::ClapEvent;
use vibe::engine::matcher::{MatcherConfig, TriggerEvent};
use vibe::engine::Sensitivity;
use vibe::pipeline::{impulse_train, ChunkStart, DetectionNotice, DetectionState, GateVerdict, QuietGate};

fn trigger() -> TriggerEvent {
    TriggerEvent {
        first_at_ms: 0,
        second_at_ms: 300,
        interval_ms: 300,
        confidence_bp: 8000,
    }
}

fn db(value: i32) -> Option<i32> {
    Some(value * 1000)
}

#[test]
fn continuous_quiet_fires_early() {
    let mut gate = QuietGate::new(trigger());
    for _ in 0..9 {
        assert!(matches!(gate.feed(db(2), 10), GateVerdict::Pending));
    }
    assert!(matches!(gate.feed(db(2), 10), GateVerdict::Fire(_)));
}

#[test]
fn sustained_noise_discards_the_trigger() {
    let mut gate = QuietGate::new(trigger());
    let mut verdicts = Vec::new();
    for _ in 0..10 {
        verdicts.push(gate.feed(db(25), 10));
    }
    assert!(verdicts.iter().any(|v| matches!(v, GateVerdict::Discard)));
}

#[test]
fn short_reverb_tail_is_tolerated() {
    let mut gate = QuietGate::new(trigger());
    for _ in 0..8 {
        assert!(matches!(gate.feed(db(20), 10), GateVerdict::Pending));
    }
    for _ in 0..9 {
        assert!(matches!(gate.feed(db(1), 10), GateVerdict::Pending));
    }
    assert!(matches!(gate.feed(db(1), 10), GateVerdict::Fire(_)));
}

#[test]
fn fragmented_quiet_borderline_discards() {
    let mut gate = QuietGate::new(trigger());
    let mut discarded = false;
    let mut fired = false;
    for _ in 0..8 {
        for _ in 0..7 {
            match gate.feed(db(2), 10) {
                GateVerdict::Discard => discarded = true,
                GateVerdict::Fire(_) => fired = true,
                GateVerdict::Pending => {}
            }
        }
        match gate.feed(db(20), 10) {
            GateVerdict::Discard => discarded = true,
            GateVerdict::Fire(_) => fired = true,
            GateVerdict::Pending => {}
        }
    }
    assert!(discarded);
    assert!(!fired);
}

#[test]
fn exactly_two_impulses_are_a_pair() {
    assert!(!impulse_train(&vec![100, 400], 400, 1300));
}

#[test]
fn extra_impulse_marks_a_train() {
    assert!(impulse_train(&vec![100, 250, 400], 400, 1300));
    assert!(!impulse_train(&vec![100, 1600, 1900], 1900, 1300));
}

#[test]
fn intermittent_noise_resets_the_quiet_streak() {
    let mut gate = QuietGate::new(trigger());
    for _ in 0..3 {
        for _ in 0..8 {
            assert!(matches!(gate.feed(db(2), 10), GateVerdict::Pending));
        }
        assert!(matches!(gate.feed(db(20), 10), GateVerdict::Pending));
    }
}

#[test]
fn non_finite_level_counts_as_quiet() {
    let mut gate = QuietGate::new(trigger());
    assert!(matches!(gate.feed(None, 50), GateVerdict::Pending));
    assert!(matches!(gate.feed(None, 50), GateVerdict::Fire(_)));
}

#[test]
fn window_end_fires_when_the_quiet_kept_coming_back() {
    // Loud 10 ms, then 90 ms quiet, repeated: two resets, under the limit,
    // so the window's end confirms the trigger.
    let mut gate = QuietGate::new(trigger());
    let mut last = GateVerdict::Pending;
    for round in 0..3 {
        assert!(matches!(gate.feed(db(15), 10), GateVerdict::Pending), "round {round}");
        for _ in 0..9 {
            last = gate.feed(db(1), 10);
            if !matches!(last, GateVerdict::Pending) {
                break;
            }
        }
    }
    assert!(matches!(last, GateVerdict::Fire(_)));
}

fn clap(timestamp_ms: u64) -> ClapEvent {
    ClapEvent {
        timestamp_ms,
        peak_mdb: -10_000,
        above_floor_mdb: 50_000,
        flatness_bp: 3500,
        confidence_bp: 8000,
    }
}

#[test]
fn double_clap_is_held_then_fired_by_quiet() {
    let mut state = DetectionState::new(Sensitivity::Medium, MatcherConfig::default_config());
    assert_eq!(
        state.begin_chunk(true, Sensitivity::Medium, MatcherConfig::default_config()),
        ChunkStart::Process { rebuild_detector: false }
    );
    assert_eq!(state.on_clap(clap(1000)), vec![DetectionNotice::Clap(clap(1000))]);
    assert_eq!(state.on_clap(clap(1300)), vec![DetectionNotice::Clap(clap(1300))]);
    assert_eq!(state.feed_gate(Some(1000), 50), None);
    match state.feed_gate(Some(1000), 50) {
        Some(DetectionNotice::Trigger(t)) => {
            assert_eq!(t.first_at_ms, 1000);
            assert_eq!(t.second_at_ms, 1300);
        }
        other => panic!("expected a trigger, got {other:?}"),
    }
    // A clap right after the fire is noted as late.
    let notices = state.on_clap(clap(1500));
    assert_eq!(notices, vec![DetectionNotice::Clap(clap(1500)), DetectionNotice::LateImpulse]);
}

#[test]
fn third_clap_during_confirmation_discards() {
    let mut state = DetectionState::new(Sensitivity::Medium, MatcherConfig::default_config());
    state.on_clap(clap(1000));
    state.on_clap(clap(1300));
    let notices = state.on_clap(clap(1350));
    assert_eq!(notices, vec![DetectionNotice::Clap(clap(1350)), DetectionNotice::ExtraImpulse]);
    assert_eq!(state.feed_gate(Some(0), 500), None);
}

#[test]
fn impulse_train_pair_is_dropped() {
    let mut state = DetectionState::new(Sensitivity::Medium, MatcherConfig::default_config());
    // 1000/1100 is too close to pair; 1100/1400 pairs, but three impulses
    // fall within 1100 ms before 1400.
    state.on_clap(clap(1000));
    state.on_clap(clap(1100));
    let notices = state.on_clap(clap(1400));
    assert_eq!(notices, vec![DetectionNotice::Clap(clap(1400)), DetectionNotice::ImpulseTrain]);
    assert_eq!(state.feed_gate(Some(0), 500), None);
}

#[test]
fn noise_after_the_pair_is_reported() {
    let mut state = DetectionState::new(Sensitivity::Medium, MatcherConfig::default_config());
    state.on_clap(clap(1000));
    state.on_clap(clap(1300));
    assert_eq!(state.feed_gate(Some(30_000), 100), Some(DetectionNotice::NoiseAfterPair));
    assert_eq!(
        DetectionNotice::NoiseAfterPair.text(),
        Some("[trigger] discarded — noise after the pair")
    );
}

#[test]
fn pause_and_level_change_start_over() {
    let config = MatcherConfig::default_config();
    let mut state = DetectionState::new(Sensitivity::Medium, config);
    state.on_clap(clap(1000));
    assert_eq!(state.begin_chunk(false, Sensitivity::Medium, config), ChunkStart::Skip);
    assert_eq!(
        state.begin_chunk(true, Sensitivity::Medium, config),
        ChunkStart::Process { rebuild_detector: false }
    );
    // The clap from before the pause does not pair with this one.
    assert_eq!(state.on_clap(clap(1300)), vec![DetectionNotice::Clap(clap(1300))]);
    assert_eq!(state.feed_gate(Some(0), 500), None);
    assert_eq!(
        state.begin_chunk(true, Sensitivity::High, config),
        ChunkStart::Process { rebuild_detector: true }
    );
}

#[test]
fn engine_starts_enabled_at_the_given_level() {
    let engine = vibe::pipeline::Engine::new(Sensitivity::High);
    assert!(engine.is_detection_enabled());
    assert_eq!(engine.sensitivity(), Sensitivity::High);
    assert!(!engine.is_stopped());
}

#[test]
fn engine_controls_read_back_what_was_set() {
    let mut engine = vibe::pipeline::Engine::new(Sensitivity::Medium);
    engine.set_detection_enabled(false);
    assert!(!engine.is_detection_enabled());
    engine.set_sensitivity(Sensitivity::Low);
    assert_eq!(engine.sensitivity(), Sensitivity::Low);
    assert!(!engine.is_detection_enabled());
    engine.shutdown();
    assert!(engine.is_stopped());
    assert_eq!(engine.sensitivity(), Sensitivity::Low);
    engine.set_detection_enabled(true);
    assert!(engine.is_detection_enabled());
    assert!(engine.is_stopped());
}
