use vibe::catalog::installed_app_names;

#[test]
fn app_names_are_stripped_deduplicated_and_sorted() {
    let entries: Vec<String> = ["Safari.app", "Notes.app", ".DS_Store", "Utilities", "Notes.app", "Calculator.app", "Zoom.app.zip"]
        .iter()
        .map(|s| s.to_string())
        .collect();
    assert_eq!(installed_app_names(&entries), vec!["Calculator", "Notes", "Safari"]);
}

#[test]
fn app_names_sort_by_code_point() {
    let entries: Vec<String> = ["notes.app", "Notes.app", "Note.app", "Émail.app"].iter().map(|s| s.to_string()).collect();
    let mut expected = vec!["Note", "Notes", "notes", "Émail"];
    expected.sort();
    assert_eq!(installed_app_names(&entries), expected);
}
