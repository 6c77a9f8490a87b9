use vibe::action::Action;
use vibe::layout::Region;

#[test]
fn mod_open_app_produces_open_dash_a_args() {
    let action = Action::open_app("Calculator");
    assert_eq!(action.program(), "open");
    assert_eq!(action.args(), vec!["-a", "Calculator"]);
    assert_eq!(action.kind_label(), "open-app");
}

#[test]
fn open_app_with_path_appends_the_target() {
    let action = Action::OpenApp {
        name: "Cursor".to_owned(),
        path: Some("/Users/me/projects/vibe".to_owned()),
        region: None,
        display: None,
    };
    assert_eq!(
        action.args(),
        vec!["-a", "Cursor", "/Users/me/projects/vibe"]
    );
    assert_eq!(action.label(), "open-app(Cursor: vibe)");
}

#[test]
fn mod_open_url_passes_url_directly_to_open() {
    let action = Action::open_url("https://example.com");
    assert_eq!(action.program(), "open");
    assert_eq!(action.args(), vec!["https://example.com"]);
    assert_eq!(action.kind_label(), "open-url");
}

#[test]
fn open_file_label_shows_the_file_name() {
    let action = Action::open_file("/Users/me/Documents/plan.pdf");
    assert_eq!(action.kind_label(), "open-file");
    assert_eq!(action.args(), vec!["/Users/me/Documents/plan.pdf"]);
    assert_eq!(action.label(), "open-file(plan.pdf)");
}

#[test]
fn labels_of_each_kind() {
    assert_eq!(Action::open_app("Notes").label(), "open-app(Notes)");
    assert_eq!(Action::open_url("https://x.org").label(), "open-url(https://x.org)");
    let trailing = Action::OpenApp {
        name: "Finder".to_owned(),
        path: Some("/Users/me/work/".to_owned()),
        region: None,
        display: None,
    };
    assert_eq!(trailing.label(), "open-app(Finder: work)");
    let root = Action::OpenFile { path: "/".to_owned(), region: None, display: None };
    assert_eq!(root.label(), "open-file(/)");
}

#[test]
fn region_and_display_accessors() {
    let action = Action::OpenUrl {
        url: "https://a.com".to_owned(),
        region: Some(Region::LeftHalf),
        display: Some("uuid-a".to_owned()),
    };
    assert_eq!(action.region(), Some(Region::LeftHalf));
    assert_eq!(action.display(), Some("uuid-a"));
    assert_eq!(Action::open_app("X").region(), None);
    assert_eq!(Action::open_app("X").display(), None);
}

#[test]
fn display_mut_rewrites_the_display() {
    let mut action = Action::open_file("/tmp/a.txt");
    *action.display_mut() = Some("uuid-z".to_owned());
    assert_eq!(action.display(), Some("uuid-z"));
    assert_eq!(action.kind_label(), "open-file");
    assert_eq!(action.args(), vec!["/tmp/a.txt"]);
}

#[test]
fn clone_is_equal() {
    let action = Action::OpenApp {
        name: "Cursor".to_owned(),
        path: Some("/p".to_owned()),
        region: Some(Region::TopLeft),
        display: Some("d".to_owned()),
    };
    assert_eq!(action.clone(), action);
}
