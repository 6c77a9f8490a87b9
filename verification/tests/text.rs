use vibe::layout::{resolve_display, ActiveDisplay, AxError, DisplayTarget, LayoutError, Region};
use vibe::poc::layout::{parse_region, REGION_LABELS};
use vibe::text::i32_text;

fn displays() -> Vec<ActiveDisplay> {
    vec![
        ActiveDisplay { id: 1, uuid: Some("AAAA".to_owned()) },
        ActiveDisplay { id: 7, uuid: None },
    ]
}

#[test]
fn display_specs_resolve() {
    assert_eq!(resolve_display(None, &displays()), DisplayTarget::Main);
    assert_eq!(resolve_display(Some("AAAA"), &displays()), DisplayTarget::Id(1));
    assert_eq!(resolve_display(Some("7"), &displays()), DisplayTarget::Id(7));
    assert_eq!(resolve_display(Some("+7"), &displays()), DisplayTarget::Id(7));
    assert_eq!(resolve_display(Some("3"), &displays()), DisplayTarget::Missing);
    assert_eq!(resolve_display(Some("BBBB"), &displays()), DisplayTarget::Missing);
    assert_eq!(resolve_display(Some("-7"), &displays()), DisplayTarget::Missing);
}

#[test]
fn region_labels_parse() {
    assert_eq!(parse_region("left"), Ok(Region::LeftHalf));
    assert_eq!(parse_region("bottom-right"), Ok(Region::BottomRight));
    assert_eq!(
        parse_region("middle"),
        Err(format!("unknown region \"middle\"; expected one of: {REGION_LABELS}"))
    );
    assert_eq!(Region::parse("center-third"), Some(Region::CenterThird));
    assert_eq!(Region::parse("Full"), None);
}

#[test]
fn error_messages() {
    assert_eq!(
        LayoutError::AppNotFound("Notes".to_owned()).message(),
        "no running process found for app \"Notes\""
    );
    assert_eq!(LayoutError::NotTrusted.message(), "accessibility permission is not granted");
    assert_eq!(
        LayoutError::Ax(AxError::Call { call: "AXPosition", code: -25200 }).message(),
        "accessibility call AXPosition failed with AXError -25200"
    );
    assert_eq!(
        AxError::UnexpectedType("AXWindows").message(),
        "attribute AXWindows has an unexpected type"
    );
    let spawn = LayoutError::Spawn {
        command: "open <file>",
        source: std::io::Error::new(std::io::ErrorKind::NotFound, "missing"),
    };
    assert!(spawn.message().starts_with("failed to run open <file>: "));
}

#[test]
fn decimal_text() {
    assert_eq!(i32_text(0), "0");
    assert_eq!(i32_text(1203), "1203");
    assert_eq!(i32_text(-25200), "-25200");
    assert_eq!(i32_text(i32::MIN), "-2147483648");
    assert_eq!(i32_text(i32::MAX), "2147483647");
}
