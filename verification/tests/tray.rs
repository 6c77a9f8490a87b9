use vibe::tray::{trigger_verdict, TriggerVerdict};
use vibe::routine::exec_log::ActionOutcome;
use vibe::routine::{Language, RoutineConfig};
use vibe::tray::{
    active_after_click, in_cooldown, record_of_run, routine_menu_id, routine_of_menu_id, tray_menu, tray_text,
    AppStatus, MenuEntry,
};

#[test]
fn status_labels() {
    assert_eq!(AppStatus::Waiting.label(Language::En), "Status: Waiting");
    assert_eq!(AppStatus::DetectionPaused.label(Language::Ko), "상태: 감지 일시정지");
    assert_eq!(AppStatus::MicPermissionMissing.label(Language::En), "Status: Mic permission missing");
}

#[test]
fn menu_texts() {
    assert_eq!(tray_text(Language::En).quit, "Quit");
    assert_eq!(tray_text(Language::Ko).no_routines, "루틴 없음");
}

#[test]
fn cooldown_window() {
    assert!(in_cooldown(10_000, 6_000));
    assert!(!in_cooldown(11_000, 6_000));
    assert!(in_cooldown(1_000, 6_000));
}

#[test]
fn menu_ids_round_trip() {
    assert_eq!(routine_menu_id("dev"), "routine:dev");
    assert_eq!(routine_of_menu_id("routine:dev"), Some("dev".to_owned()));
    assert_eq!(routine_of_menu_id("quit"), None);
    assert_eq!(routine_of_menu_id("routine:"), Some(String::new()));
}

#[test]
fn clicking_toggles_the_active_routine() {
    assert_eq!(active_after_click(Some("dev"), "dev"), None);
    assert_eq!(active_after_click(Some("dev"), "home"), Some("home".to_owned()));
    assert_eq!(active_after_click(None, "home"), Some("home".to_owned()));
}

#[test]
fn record_success_needs_every_action() {
    let ok = ActionOutcome { label: "a".to_owned(), success: true, detail: String::new() };
    let bad = ActionOutcome { label: "b".to_owned(), success: false, detail: String::new() };
    assert!(record_of_run(1, "r".to_owned(), vec![ok.clone()]).success);
    assert!(!record_of_run(1, "r".to_owned(), vec![ok, bad]).success);
    assert!(record_of_run(1, "r".to_owned(), Vec::new()).success);
}

#[test]
fn tray_menu_lists_routines() {
    let config = RoutineConfig::default_config();
    let menu = tray_menu(AppStatus::Waiting, true, false, &config);
    assert_eq!(menu.len(), 10);
    assert_eq!(
        menu[3],
        MenuEntry::Check {
            id: "routine:sample".to_owned(),
            text: "Sample — Calculator".to_owned(),
            enabled: true,
            checked: true,
        }
    );
    assert_eq!(
        menu[0],
        MenuEntry::Item { id: "status".to_owned(), text: "Status: Waiting".to_owned(), enabled: false }
    );
    let mut empty = RoutineConfig::default_config();
    empty.routines.clear();
    empty.language = Some(Language::Ko);
    let menu = tray_menu(AppStatus::DetectionPaused, false, true, &empty);
    assert_eq!(
        menu[3],
        MenuEntry::Item { id: "routines_empty".to_owned(), text: "루틴 없음".to_owned(), enabled: false }
    );
    assert_eq!(menu[9], MenuEntry::Item { id: "quit".to_owned(), text: "종료".to_owned(), enabled: true });
}

#[test]
fn trigger_guards_apply_in_order() {
    assert_eq!(trigger_verdict(1_000, 0, true, false), TriggerVerdict::Cooldown);
    assert_eq!(trigger_verdict(1_000, 0, false, true), TriggerVerdict::Cooldown);
    assert_eq!(trigger_verdict(10_000, 0, false, true), TriggerVerdict::NoActiveRoutine);
    assert_eq!(trigger_verdict(10_000, 0, true, true), TriggerVerdict::AlreadyAssembled);
    assert_eq!(trigger_verdict(10_000, 0, true, false), TriggerVerdict::Run);
    assert_eq!(trigger_verdict(0, 10_000, true, false), TriggerVerdict::Cooldown);
}
