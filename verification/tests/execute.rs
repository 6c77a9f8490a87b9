use vibe::action::report::RunReport;
use vibe::action::execute::{
    append_detail, assembly_apps, became_ready, classify, group_by_target, initial_outcomes, placed_detail,
    placement_failed_detail, plan_routine, restack_order, routine_already_assembled, skipped_outcome, tab_detail,
    unplaced_outcome, urls_of, Phase1,
};
use vibe::action::Action;
use vibe::layout::{LayoutError, Placement, Region};
use vibe::routine::exec_log::ActionOutcome;

fn url_action(url: &str, region: Region, display: Option<&str>) -> Action {
    match Action::open_url(url) {
        Action::OpenUrl { url, .. } => Action::OpenUrl {
            url,
            region: Some(region),
            display: display.map(str::to_owned),
        },
        other => other,
    }
}

#[test]
fn urls_sharing_a_target_group_together() {
    let actions = vec![
        url_action("https://a.com", Region::RightHalf, None),
        url_action("https://b.com", Region::LeftHalf, None),
        url_action("https://c.com", Region::RightHalf, None),
    ];
    let groups = group_by_target(&actions, &vec![0, 1, 2]);
    assert_eq!(groups.len(), 2);
    assert_eq!(groups[0], ((None, Region::RightHalf), vec![0, 2]));
    assert_eq!(groups[1], ((None, Region::LeftHalf), vec![1]));
}

#[test]
fn same_region_on_different_displays_stays_separate() {
    let actions = vec![
        url_action("https://a.com", Region::RightHalf, None),
        url_action("https://b.com", Region::RightHalf, Some("uuid-b")),
    ];
    let groups = group_by_target(&actions, &vec![0, 1]);
    assert_eq!(groups.len(), 2);
}

#[test]
fn actions_without_region_are_skipped() {
    let actions = vec![Action::open_url("https://a.com")];
    assert!(group_by_target(&actions, &vec![0]).is_empty());
}

fn placed_app(name: &str, region: Region, display: Option<&str>) -> Action {
    Action::OpenApp {
        name: name.to_owned(),
        path: None,
        region: Some(region),
        display: display.map(str::to_owned),
    }
}

fn placed_file(path: &str, region: Region) -> Action {
    Action::OpenFile { path: path.to_owned(), region: Some(region), display: None }
}

#[test]
fn phase_one_plan() {
    let actions = vec![
        Action::open_app("Notes"),
        placed_app("Cursor", Region::LeftHalf, None),
        url_action("https://a.com", Region::RightHalf, None),
        placed_file("/tmp/a.pdf", Region::TopLeft),
        placed_app("Mail", Region::Full, Some("gone")),
        Action::open_url("https://b.com"),
    ];
    let missing = vec![false, false, false, false, true, false];
    let plan = plan_routine(&actions, &missing);
    assert_eq!(
        plan.steps,
        vec![
            Phase1::Run,
            Phase1::RunThenPlace,
            Phase1::DeferUrl,
            Phase1::DeferFile,
            Phase1::SkipMissingDisplay,
            Phase1::Run,
        ]
    );
    assert_eq!(plan.deferred_urls, vec![2]);
    assert_eq!(plan.deferred_files, vec![3]);
    assert_eq!(plan.app_placements, vec![1]);
    assert!(plan.wants_layout());
    assert_eq!(classify(&Action::open_url("x"), true), Phase1::Run);
    let unplaced = plan_routine(&vec![Action::open_app("Notes")], &vec![false]);
    assert!(!unplaced.wants_layout());
}

#[test]
fn outcome_wording() {
    let action = Action::open_app("Notes");
    let outcomes = initial_outcomes(&vec![action.clone()]);
    assert_eq!(outcomes[0].label, "open-app(Notes)");
    assert!(!outcomes[0].success);
    assert_eq!(outcomes[0].detail, "");
    let skipped = skipped_outcome(&action);
    assert!(skipped.success);
    assert_eq!(skipped.detail, "skipped — target display not connected");
    let unplaced = unplaced_outcome(&action, false);
    assert!(!unplaced.success);
    assert_eq!(unplaced.detail, "opened without placement (no permission)");
    assert_eq!(placed_detail(Region::LeftHalf, Placement::Full), "→ LeftHalf (Full)");
    assert_eq!(
        tab_detail(Region::BottomRight, Placement::MovedOnly),
        "tab in new window → BottomRight (MovedOnly)"
    );
    assert_eq!(
        placement_failed_detail(&LayoutError::WindowTimeout("Notes".to_owned())),
        "placement failed: timed out waiting for a window of Notes"
    );
}

#[test]
fn append_detail_joins_with_semicolons() {
    let mut outcome = ActionOutcome {
        label: "x".to_owned(),
        success: true,
        detail: String::new(),
    };
    append_detail(&mut outcome, "first");
    assert_eq!(outcome.detail, "first");
    append_detail(&mut outcome, "second");
    assert_eq!(outcome.detail, "first; second");
    assert!(outcome.success);
}

#[test]
fn urls_in_index_order() {
    let actions = vec![
        url_action("https://a.com", Region::RightHalf, None),
        Action::open_app("Notes"),
        url_action("https://c.com", Region::RightHalf, None),
    ];
    assert_eq!(urls_of(&actions, &vec![2, 1, 0]), vec!["https://c.com".to_owned(), "https://a.com".to_owned()]);
}

#[test]
fn assembled_when_every_app_has_a_window() {
    let actions = vec![
        Action::open_app("Notes"),
        url_action("https://a.com", Region::RightHalf, None),
        Action::open_url("https://b.com"),
        Action::open_file("/tmp/a.pdf"),
        Action::open_app("Notes"),
        placed_app("Mail", Region::Full, Some("gone")),
    ];
    let missing = vec![false, false, false, false, false, true];
    let handlers = vec![None, None, None, Some("Preview".to_owned()), None, None];
    let apps = assembly_apps(&actions, &missing, &handlers);
    assert_eq!(apps, vec!["Notes".to_owned(), "Google Chrome".to_owned(), "Preview".to_owned()]);
    assert!(routine_already_assembled(&apps, &vec![true, true, true]));
    assert!(!routine_already_assembled(&apps, &vec![true, false, true]));
    assert!(!routine_already_assembled(&Vec::new(), &Vec::new()));
}

#[test]
fn restack_order_is_last_first() {
    let actions = vec![
        placed_app("Cursor", Region::LeftHalf, None),
        url_action("https://a.com", Region::RightHalf, None),
        Action::open_file("/tmp/unplaced.pdf"),
        placed_file("/tmp/a.pdf", Region::TopLeft),
        placed_app("Cursor", Region::RightHalf, None),
    ];
    let missing = vec![false; 5];
    let handlers = vec![None, None, Some("Preview".to_owned()), Some("Preview".to_owned()), None];
    let order = restack_order(&actions, &missing, &handlers);
    assert_eq!(
        order,
        vec![
            ("Preview".to_owned(), 3),
            ("Google Chrome".to_owned(), 1),
            ("Cursor".to_owned(), 0),
        ]
    );
}

#[test]
fn readiness_changes() {
    assert!(became_ready(&vec![true, true], &vec![true, false]));
    assert!(!became_ready(&vec![true, false], &vec![true, false]));
    assert!(!became_ready(&vec![true], &vec![]));
}

#[test]
fn failed_spawn_detail_names_the_command_and_cause() {
    let err = LayoutError::Spawn {
        command: "open <file>",
        source: std::io::Error::new(std::io::ErrorKind::NotFound, "no such file"),
    };
    assert_eq!(
        placement_failed_detail(&err),
        "placement failed: failed to run open <file>: no such file"
    );
}

fn report_placed_url(url: &str) -> Action {
    Action::OpenUrl { url: url.to_owned(), region: Some(Region::LeftHalf), display: None }
}

fn report_placed_app(name: &str) -> Action {
    Action::OpenApp { name: name.to_owned(), path: None, region: Some(Region::RightHalf), display: None }
}

fn report_placed_file(path: &str) -> Action {
    Action::OpenFile { path: path.to_owned(), region: Some(Region::TopLeft), display: None }
}

#[test]
fn report_keeps_one_labelled_outcome_per_action() {
    let actions = vec![Action::open_app("Calculator"), report_placed_url("https://a.example"), Action::open_file("/tmp/n.txt")];
    let mut report = RunReport::new(&actions);
    assert_eq!(report.len(), 3);
    report.set(0, true, "done in 12 ms".to_owned());
    report.skip_missing_display(2);
    let out = report.finish();
    let labels: Vec<String> = out.iter().map(|o| o.label.clone()).collect();
    assert_eq!(labels, vec!["open-app(Calculator)", "open-url(https://a.example)", "open-file(n.txt)"]);
    assert!(out[0].success && out[0].detail == "done in 12 ms");
    assert!(!out[1].success && out[1].detail.is_empty());
    assert!(out[2].success && out[2].detail == "skipped — target display not connected");
}

#[test]
fn report_without_permission_opens_everything_unplaced() {
    let actions = vec![report_placed_app("Notes"), report_placed_url("https://a.example"), report_placed_file("/tmp/r.pdf"), Action::open_app("Mail")];
    let plan = plan_routine(&actions, &vec![false; 4]);
    let mut report = RunReport::new(&actions);
    report.set(0, true, "done in 5 ms".to_owned());
    report.set(3, true, "done in 7 ms".to_owned());
    report.no_permission(&plan, true, &vec![false, false, false, false]);
    let out = report.finish();
    assert_eq!(out[0].detail, "done in 5 ms; placement skipped (no permission)");
    assert!(out[0].success);
    assert!(out[1].success && out[1].detail == "opened without placement (no permission)");
    assert!(!out[2].success && out[2].detail == "opened without placement (no permission)");
    assert!(out[3].success && out[3].detail == "done in 7 ms");
}

#[test]
fn report_records_group_and_placement_results() {
    let actions = vec![report_placed_url("https://a.example"), report_placed_app("Notes"), report_placed_url("https://b.example"), report_placed_file("/tmp/r.pdf")];
    let mut report = RunReport::new(&actions);
    report.url_group_placed(&vec![0, 2], Region::LeftHalf, Placement::Full);
    report.set(1, true, "done in 3 ms".to_owned());
    report.app_placement_failed(1, &LayoutError::NotTrusted);
    report.file_placed(3, Region::TopLeft, Placement::MovedOnly);
    let out = report.finish();
    assert!(out[0].success && out[0].detail == "tab in new window → LeftHalf (Full)");
    assert_eq!(out[2].detail, out[0].detail);
    assert!(out[1].success);
    assert_eq!(out[1].detail, "done in 3 ms; placement failed: accessibility permission is not granted");
    assert!(out[3].success && out[3].detail == "→ TopLeft (MovedOnly)");
    let mut again = RunReport::new(&actions);
    again.url_group_failed(&vec![0, 2], "timed out waiting for a window of Google Chrome");
    let out = again.finish();
    assert!(!out[0].success && out[0].detail == "timed out waiting for a window of Google Chrome");
    assert!(!out[1].success && out[1].detail.is_empty());
}
