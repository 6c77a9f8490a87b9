use vibe::action::Action;
use vibe::engine::Sensitivity;
use vibe::routine::exec_log::{ActionOutcome, ExecutionLog, ExecutionRecord, LOG_CAPACITY};
use vibe::routine::store::{start_up, FileRead, LoadReport, RoutineStore, StoreError};
use vibe::routine::{Language, Routine, RoutineConfig, Theme};

fn record(name: &str) -> ExecutionRecord {
    ExecutionRecord {
        at_epoch_ms: 0,
        routine_name: name.to_owned(),
        success: true,
        outcomes: Vec::new(),
    }
}

fn routine(id: &str, name: &str) -> Routine {
    Routine {
        id: id.to_owned(),
        name: name.to_owned(),
        actions: vec![Action::open_app("Calculator")],
    }
}

fn fresh_store() -> RoutineStore {
    RoutineStore::new(RoutineConfig::default_config())
}

#[test]
fn snapshot_returns_newest_first() {
    let mut log = ExecutionLog::new();
    log.push(record("first"));
    log.push(record("second"));
    let names: Vec<String> = log.snapshot().into_iter().map(|r| r.routine_name).collect();
    assert_eq!(names, vec!["second", "first"]);
}

#[test]
fn capacity_drops_oldest() {
    let mut log = ExecutionLog::new();
    for i in 0..(LOG_CAPACITY + 5) {
        log.push(record(&format!("run-{i}")));
    }
    let snapshot = log.snapshot();
    assert_eq!(snapshot.len(), LOG_CAPACITY);
    assert_eq!(
        snapshot[0].routine_name,
        format!("run-{}", LOG_CAPACITY + 4)
    );
    assert_eq!(
        snapshot[LOG_CAPACITY - 1].routine_name,
        format!("run-{}", 5)
    );
}

#[test]
fn snapshot_keeps_outcomes() {
    let mut log = ExecutionLog::default();
    log.push(ExecutionRecord {
        at_epoch_ms: 7,
        routine_name: "r".to_owned(),
        success: false,
        outcomes: vec![ActionOutcome {
            label: "open-app(X)".to_owned(),
            success: false,
            detail: "exited with 1".to_owned(),
        }],
    });
    let snap = log.snapshot();
    assert_eq!(snap[0].at_epoch_ms, 7);
    assert_eq!(snap[0].outcomes[0].detail, "exited with 1");
}

#[test]
fn default_config_has_an_active_sample_routine() {
    let config = RoutineConfig::default_config();
    let active = config.active_routine().expect("sample must be active");
    assert!(!active.actions.is_empty());
}

#[test]
fn default_config_contents() {
    let config = RoutineConfig::default_config();
    assert_eq!(config.active_routine_id.as_deref(), Some("sample"));
    assert_eq!(config.routines.len(), 1);
    assert_eq!(config.routines[0].name, "Sample — Calculator");
    assert_eq!(config.routines[0].actions, vec![Action::open_app("Calculator")]);
    assert_eq!(config.language, None);
    assert_eq!(config.theme, Theme::System);
    assert_eq!(config.sensitivity, Sensitivity::Medium);
}

#[test]
fn active_routine_is_none_when_id_dangles() {
    let mut config = RoutineConfig::default_config();
    config.active_routine_id = Some("missing".to_owned());
    assert!(config.active_routine().is_none());
}

#[test]
fn upsert_with_empty_id_assigns_one() {
    let mut store = fresh_store();
    let config = store.upsert_routine(routine("", "New routine"));
    let created = config
        .routines
        .iter()
        .find(|r| r.name == "New routine")
        .expect("created routine");
    assert!(!created.id.is_empty());
    assert_eq!(created.id.len(), 36);
}

#[test]
fn upsert_replaces_by_id() {
    let mut store = fresh_store();
    store.upsert_routine(routine("dev", "Before"));
    let config = store.upsert_routine(routine("dev", "After"));
    let updated = config
        .routines
        .iter()
        .find(|r| r.id == "dev")
        .expect("kept");
    assert_eq!(updated.name, "After");
    assert_eq!(config.routines.iter().filter(|r| r.id == "dev").count(), 1);
}

#[test]
fn delete_active_routine_clears_active_id() {
    let mut store = fresh_store();
    store.upsert_routine(routine("dev", "Dev"));
    store
        .set_active_routine(Some("dev".to_owned()))
        .expect("activate");

    let config = store.delete_routine("dev").expect("delete");
    assert_eq!(config.active_routine_id, None);
    assert!(store.active_actions().is_empty());
}

#[test]
fn delete_unknown_routine_errors() {
    let mut store = fresh_store();
    assert!(matches!(
        store.delete_routine("nope"),
        Err(StoreError::NotFound(_))
    ));
}

#[test]
fn set_active_rejects_unknown_id() {
    let mut store = fresh_store();
    assert!(matches!(
        store.set_active_routine(Some("nope".to_owned())),
        Err(StoreError::NotFound(_))
    ));
}

#[test]
fn active_actions_follow_the_active_routine() {
    let mut store = fresh_store();
    let mut dev = routine("dev", "Dev");
    dev.actions = vec![Action::open_url("https://github.com")];
    store.upsert_routine(dev);
    store
        .set_active_routine(Some("dev".to_owned()))
        .expect("activate");

    assert_eq!(
        store.active_actions(),
        vec![Action::open_url("https://github.com")]
    );

    store.set_active_routine(None).expect("deactivate");
    assert!(store.active_actions().is_empty());
}

#[test]
fn deleting_an_inactive_routine_keeps_the_active_one() {
    let mut store = fresh_store();
    store.upsert_routine(routine("dev", "Dev"));
    let config = store.delete_routine("dev").expect("delete");
    assert_eq!(config.active_routine_id.as_deref(), Some("sample"));
    assert_eq!(config.routines.len(), 1);
}

#[test]
fn settings_are_recorded() {
    let mut store = fresh_store();
    assert_eq!(store.set_language(Language::Ko).language, Some(Language::Ko));
    assert_eq!(store.set_theme(Theme::Dark).theme, Theme::Dark);
    assert_eq!(store.set_sensitivity(Sensitivity::High).sensitivity, Sensitivity::High);
    let snap = store.snapshot();
    assert_eq!(snap.language, Some(Language::Ko));
    assert_eq!(snap.routines.len(), 1);
}

#[test]
fn new_routine_ids_are_uuid_v4_text() {
    let mut store = fresh_store();
    let config = store.upsert_routine(routine("", "Fresh"));
    let id = &config.routines.iter().find(|r| r.name == "Fresh").expect("created").id;
    let chars: Vec<char> = id.chars().collect();
    assert_eq!(chars.len(), 36);
    for (i, c) in chars.iter().enumerate() {
        if [8, 13, 18, 23].contains(&i) {
            assert_eq!(*c, '-');
        } else {
            assert!(c.is_ascii_digit() || ('a'..='f').contains(c), "{id}");
        }
    }
    assert_eq!(chars[14], '4');
    assert!(['8', '9', 'a', 'b'].contains(&chars[19]));
}

#[test]
fn start_up_follows_what_the_file_gave() {
    let mut doc = RoutineConfig::default_config();
    doc.theme = Theme::Dark;
    let loaded = start_up(FileRead::Parsed(doc));
    assert_eq!(loaded.report, LoadReport::Loaded);
    assert_eq!(loaded.config.theme, Theme::Dark);
    assert!(!loaded.back_up_corrupt_file && !loaded.write_back);

    let first = start_up(FileRead::Missing);
    assert_eq!(first.report, LoadReport::CreatedDefault);
    assert_eq!(first.config, RoutineConfig::default_config());
    assert!(!first.back_up_corrupt_file && first.write_back);

    let corrupt = start_up(FileRead::Unparsable);
    assert_eq!(corrupt.report, LoadReport::RecoveredFromCorruption);
    assert_eq!(corrupt.config, RoutineConfig::default_config());
    assert!(corrupt.back_up_corrupt_file && corrupt.write_back);

    let unreadable = start_up(FileRead::Unreadable);
    assert_eq!(unreadable.report, LoadReport::RecoveredFromCorruption);
    assert!(!unreadable.back_up_corrupt_file && unreadable.write_back);
}
