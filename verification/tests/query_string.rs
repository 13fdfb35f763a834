use nif_viewer::query::{query_text, search_string, submitted_url, QueryState};

#[test]
fn query_state_holds_the_selection() {
    let state = QueryState::new("https://example.com/a.zip", Some("meshes\\tree.nif"));
    assert_eq!(state.zip_url, "https://example.com/a.zip");
    assert_eq!(state.selected_file, Some("meshes\\tree.nif".to_string()));
    let state = QueryState::new("b.zip", None);
    assert_eq!(state.selected_file, None);
}

#[test]
fn the_search_part_starts_with_a_question_mark() {
    assert_eq!(search_string("zip=a.zip&file=b"), "?zip=a.zip&file=b");
    assert_eq!(search_string(""), "?");
}

#[test]
fn the_query_is_read_after_the_question_mark() {
    assert_eq!(query_text("?zip=a.zip"), "zip=a.zip");
    assert_eq!(query_text("zip=a.zip"), "zip=a.zip");
    assert_eq!(query_text("??x"), "?x");
    assert_eq!(query_text(""), "");
}

#[test]
fn submitted_urls_are_trimmed() {
    assert_eq!(submitted_url("  https://example.com/a.zip \n"), Some("https://example.com/a.zip".to_string()));
    assert_eq!(submitted_url(" \t "), None);
    assert_eq!(submitted_url(""), None);
}
