use vibe::poc::action::Action;

#[test]
fn action_open_app_produces_open_dash_a_args() {
    let action = Action::open_app("Calculator");
    assert_eq!(action.program(), "open");
    assert_eq!(action.args(), vec!["-a", "Calculator"]);
    assert_eq!(action.kind_label(), "open-app");
}

#[test]
fn action_open_url_passes_url_directly_to_open() {
    let action = Action::open_url("https://example.com");
    assert_eq!(action.program(), "open");
    assert_eq!(action.args(), vec!["https://example.com"]);
}

#[test]
fn osascript_uses_dash_e_flag() {
    let action = Action::osascript("return 1");
    assert_eq!(action.program(), "osascript");
    assert_eq!(action.args(), vec!["-e", "return 1"]);
}

#[test]
fn shortcut_uses_run_subcommand() {
    let action = Action::shortcut("test-shortcut");
    assert_eq!(action.program(), "shortcuts");
    assert_eq!(action.args(), vec!["run", "test-shortcut"]);
}

#[test]
fn parse_recognizes_all_known_kinds() {
    assert_eq!(
        Action::parse("open-app", "Calculator"),
        Some(Action::open_app("Calculator"))
    );
    assert_eq!(
        Action::parse("open-url", "https://x"),
        Some(Action::open_url("https://x"))
    );
    assert_eq!(
        Action::parse("osascript", "return 1"),
        Some(Action::osascript("return 1"))
    );
    assert_eq!(
        Action::parse("shortcut", "test"),
        Some(Action::shortcut("test"))
    );
}

#[test]
fn parse_returns_none_for_unknown_kind() {
    assert_eq!(Action::parse("bogus", "x"), None);
}

#[test]
fn poc_labels_hide_scripts() {
    assert_eq!(Action::open_app("Notes").label(), "open-app(Notes)");
    assert_eq!(Action::open_url("https://a").label(), "open-url(https://a)");
    assert_eq!(Action::osascript("secret").label(), "osascript(...)");
    assert_eq!(Action::shortcut("s").label(), "shortcut(s)");
    assert_eq!(Action::shortcut("s").kind_label(), "shortcut");
    assert_eq!(Action::osascript("s").kind_label(), "osascript");
}
