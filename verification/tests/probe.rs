use std::collections::HashSet;
use vibe::layout::placer::{document_stem, document_window, first_pid, file_handler_app, StableTracker};
use vibe::layout::probe::{
    app_window_ready, apps_all_have_windows, find_all_pids, find_pid, path_matches_app, pid_has_real_window,
    ProcessEntry,
};
use vibe::layout::{frame_placement, AxError, LayoutError, Placement};

fn pids(p: &[i64]) -> HashSet<i64> {
    p.iter().copied().collect()
}

fn proc(pid: i32, path: &str) -> ProcessEntry {
    ProcessEntry { pid, path: path.to_owned() }
}

#[test]
fn matches_main_executable_path() {
    assert!(path_matches_app(
        "/Applications/Cursor.app/Contents/MacOS/Cursor",
        "Cursor"
    ));
    assert!(path_matches_app(
        "/Applications/Google Chrome.app/Contents/MacOS/Google Chrome",
        "Google Chrome"
    ));
}

#[test]
fn matches_code_sign_clone_path() {
    assert!(path_matches_app(
        "/private/var/folders/nl/x/T/com.google.Chrome.code_sign_clone/code_sign_clone.abc/Google Chrome.app.bundle/Contents/MacOS/Google Chrome",
        "Google Chrome"
    ));
}

#[test]
fn rejects_helpers_and_other_apps() {
    assert!(!path_matches_app(
        "/Applications/Cursor.app/Contents/Frameworks/Cursor Helper.app/Contents/MacOS/Cursor Helper",
        "Cursor"
    ));
    assert!(!path_matches_app(
        "/Applications/Figma.app/Contents/MacOS/Figma",
        "Cursor"
    ));
}

#[test]
fn find_pid_prefers_the_windowed_process() {
    let procs = vec![
        proc(10, "/Applications/Google Chrome.app/Contents/MacOS/Google Chrome"),
        proc(11, "/usr/sbin/cfprefsd"),
        proc(12, "/x/Google Chrome.app.bundle/Contents/MacOS/Google Chrome"),
    ];
    assert_eq!(find_pid("Google Chrome", &procs, &pids(&[12])), Some(12));
    assert_eq!(find_pid("Google Chrome", &procs, &pids(&[])), Some(10));
    assert_eq!(find_pid("Cursor", &procs, &pids(&[12])), None);
    let single = vec![proc(5, "/Applications/Notes.app/Contents/MacOS/Notes")];
    assert_eq!(find_pid("Notes", &single, &pids(&[])), Some(5));
}

#[test]
fn windows_of_apps() {
    let procs = vec![
        proc(1, "/Applications/Notes.app/Contents/MacOS/Notes"),
        proc(2, "/Applications/Safari.app/Contents/MacOS/Safari"),
    ];
    let names = vec!["Notes".to_owned(), "Safari".to_owned(), "Mail".to_owned()];
    assert_eq!(find_all_pids(&names, &procs), vec![vec![1], vec![2], vec![]]);
    assert!(pid_has_real_window(1, &pids(&[1, 2])));
    assert!(!pid_has_real_window(3, &pids(&[1, 2])));
    assert!(app_window_ready("Notes", &procs, &pids(&[1])));
    assert!(!app_window_ready("Safari", &procs, &pids(&[1])));
    assert!(apps_all_have_windows(&names[..2].to_vec(), &procs, &pids(&[1, 2])));
    assert!(!apps_all_have_windows(&names, &procs, &pids(&[1, 2])));
    assert!(!apps_all_have_windows(&Vec::new(), &procs, &pids(&[1, 2])));
}

#[test]
fn first_line_pid_parsing() {
    assert_eq!(first_pid(b"123\n456\n"), Some(123));
    assert_eq!(first_pid(b"  42 \r\n"), Some(42));
    assert_eq!(first_pid(b"-7"), Some(-7));
    assert_eq!(first_pid(b""), None);
    assert_eq!(first_pid(b"abc\n1"), None);
    assert_eq!(first_pid(b"99999999999"), None);
    assert_eq!(first_pid(b"+5\n"), Some(5));
}

#[test]
fn handler_names_from_bundle_paths() {
    assert_eq!(
        file_handler_app("/Applications/Preview.app"),
        Some("Preview".to_owned())
    );
    assert_eq!(
        file_handler_app("/System/Applications/Google Chrome.app/"),
        Some("Google Chrome".to_owned())
    );
    assert_eq!(file_handler_app("/usr/bin/open"), None);
}

#[test]
fn document_windows_are_found_by_title() {
    assert_eq!(document_stem("/Users/me/Docs/Quarterly Plan.PDF"), "quarterly plan");
    let titles = vec![Some("New Tab".to_owned()), Some("Quarterly Plan.pdf".to_owned())];
    assert_eq!(document_window(&titles, "quarterly plan", false), Some(1));
    let fresh = vec![Some("Untitled".to_owned())];
    assert_eq!(document_window(&fresh, "quarterly plan", false), None);
    assert_eq!(document_window(&fresh, "quarterly plan", true), Some(0));
    assert_eq!(document_window(&titles, "", true), None);
}

#[test]
fn placement_settles_after_two_good_checks() {
    let mut tracker = StableTracker::new();
    tracker.on_drift(Some(Placement::MovedOnly));
    assert!(!tracker.on_target());
    assert!(tracker.on_target());
    assert_eq!(tracker.finish("Preview").ok(), Some(Placement::MovedOnly));
    let never = StableTracker::new();
    match never.finish("Preview") {
        Err(LayoutError::WindowTimeout(label)) => assert_eq!(label, "Preview"),
        other => panic!("expected a timeout, got {other:?}"),
    }
}

#[test]
fn placement_needs_trust_and_a_working_probe() {
    assert!(vibe::layout::placer::is_trusted(true, true));
    assert!(!vibe::layout::placer::is_trusted(true, false));
    assert!(!vibe::layout::placer::is_trusted(false, true));
    assert!(!vibe::layout::placer::is_trusted(false, false));
}

#[test]
fn frame_placement_reports_a_refused_resize_as_moved_only() {
    assert!(matches!(frame_placement(Ok(()), true, Ok(())), Ok(Placement::Full)));
    assert!(matches!(frame_placement(Ok(()), false, Ok(())), Ok(Placement::MovedOnly)));
    let refused = AxError::Call { call: "AXPosition", code: -25200 };
    assert!(matches!(
        frame_placement(Err(refused), true, Ok(())),
        Err(AxError::Call { code: -25200, .. })
    ));
    let later = AxError::Call { call: "AXPosition", code: -25204 };
    assert!(matches!(
        frame_placement(Ok(()), true, Err(later)),
        Err(AxError::Call { code: -25204, .. })
    ));
}
