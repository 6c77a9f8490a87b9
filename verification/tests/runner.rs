use vibe::action::runner::RunError;
use vibe::poc::capture::{CaptureConfig, CaptureStats};

fn not_found() -> std::io::Error {
    std::io::Error::new(std::io::ErrorKind::NotFound, "no such file")
}

#[test]
fn spawn_failure_names_the_action_kind() {
    let err = RunError::Spawn { kind: "open-app", source: not_found() };
    assert_eq!(err.message(), "failed to spawn open-app: no such file");
}

#[test]
fn wait_failure_names_the_action_kind() {
    let err = vibe::poc::runner::RunError::Wait { kind: "shortcut", source: not_found() };
    assert_eq!(err.message(), "failed waiting for shortcut: no such file");
}

#[test]
fn capture_stats_start_at_zero() {
    let stats = CaptureStats::new();
    assert_eq!((stats.callbacks, stats.samples, stats.max_callback_gap_us), (0, 0, 0));
    let config = CaptureConfig { wav_path: None };
    assert!(config.wav_path.is_none());
}

#[test]
fn capture_stats_count_callbacks_and_keep_the_longest_gap() {
    let mut stats = CaptureStats::new();
    stats.record_callback(None, 512);
    stats.record_callback(Some(10_000), 512);
    stats.record_callback(Some(4_000), 256);
    assert_eq!(stats.callbacks, 3);
    assert_eq!(stats.samples, 1280);
    assert_eq!(stats.max_callback_gap_us, 10_000);
}

#[test]
fn capture_counters_wrap_around() {
    let mut stats = CaptureStats { callbacks: u64::MAX, samples: u64::MAX - 1, max_callback_gap_us: 7 };
    stats.record_callback(Some(3), 4);
    assert_eq!(stats.callbacks, 0);
    assert_eq!(stats.samples, 2);
    assert_eq!(stats.max_callback_gap_us, 7);
}
