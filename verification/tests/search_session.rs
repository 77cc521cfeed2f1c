use gdio::search::{
    has_more, hit_result, no_results_message, search_key, search_url, selected_line, RepoState, SearchAction,
    SearchKey, SearchResult,
};

fn result(id: &str) -> SearchResult {
    SearchResult { identifier: id.to_string(), description: String::new(), store_url: String::new() }
}

#[test]
fn search_endpoint() {
    assert_eq!(search_url("https://store.godotengine.org/"), "https://store.godotengine.org/api/v1/search/query/");
    assert_eq!(search_url("https://repo.example"), "https://repo.example/api/v1/search/query/");
}

#[test]
fn hits_fill_in_missing_fields() {
    let r = hit_result(Some("bitwes".to_string()), Some("gut".to_string()), Some("Unit tests".to_string()),
        Some("https://store/gut".to_string()));
    assert_eq!(r.identifier, "bitwes/gut");
    assert_eq!(r.description, "Unit tests");
    assert_eq!(r.store_url, "https://store/gut");
    let r = hit_result(None, Some("gut".to_string()), Some(String::new()), None);
    assert_eq!(r.identifier, "?/gut");
    assert_eq!(r.description, "(no description)");
    assert_eq!(r.store_url, "");
    let r = hit_result(Some("bitwes".to_string()), None, None, None);
    assert_eq!(r.identifier, "bitwes/?");
    assert_eq!(r.description, "(no description)");
}

#[test]
fn paging_through_repositories() {
    let mut a = RepoState::new("https://a".to_string());
    let mut b = RepoState::new("https://b".to_string());
    assert!(!a.can_fetch());
    let mut results: Vec<SearchResult> = Vec::new();
    a.take_page(Some((vec![result("x/one"), result("x/two")], Some("tok".to_string()))), &mut results);
    assert_eq!(results.len(), 2);
    assert_eq!(a.scroll.as_deref(), Some("tok"));
    assert!(!a.exhausted);
    assert!(a.can_fetch());
    b.take_page(None, &mut results);
    assert!(b.exhausted);
    assert_eq!(results.len(), 2);
    assert!(has_more(&[a, b]));
    let mut c = RepoState::new("https://c".to_string());
    c.take_page(Some((vec![result("y/three")], None)), &mut results);
    assert!(c.exhausted);
    assert_eq!(results[2].identifier, "y/three");
    let mut d = RepoState::new("https://d".to_string());
    d.take_page(Some((vec![], Some("tok".to_string()))), &mut results);
    assert!(d.exhausted);
    assert_eq!(results.len(), 3);
    assert!(!has_more(&[c, d]));
    assert!(!has_more(&[]));
}

#[test]
fn list_keys() {
    let matched: Vec<usize> = (0..40).collect();
    let mut filter = String::new();
    let mut cursor: usize = 0;
    assert_eq!(search_key(&mut filter, &mut cursor, SearchKey::Down, &matched, false), SearchAction::Stay);
    assert_eq!(cursor, 1);
    assert_eq!(search_key(&mut filter, &mut cursor, SearchKey::PageDown, &matched, false), SearchAction::Stay);
    assert_eq!(cursor, 16);
    assert_eq!(search_key(&mut filter, &mut cursor, SearchKey::PageUp, &matched, false), SearchAction::Stay);
    assert_eq!(cursor, 1);
    assert_eq!(search_key(&mut filter, &mut cursor, SearchKey::PageUp, &matched, false), SearchAction::Stay);
    assert_eq!(cursor, 0);
    assert_eq!(search_key(&mut filter, &mut cursor, SearchKey::Up, &matched, false), SearchAction::Stay);
    assert_eq!(cursor, 0);
    assert_eq!(search_key(&mut filter, &mut cursor, SearchKey::End, &matched, true), SearchAction::Stay);
    assert_eq!(cursor, 39);
    assert_eq!(search_key(&mut filter, &mut cursor, SearchKey::End, &matched, true), SearchAction::FetchMore);
    assert_eq!(search_key(&mut filter, &mut cursor, SearchKey::Down, &matched, true), SearchAction::FetchMore);
    assert_eq!(search_key(&mut filter, &mut cursor, SearchKey::PageDown, &matched, false), SearchAction::Stay);
    assert_eq!(cursor, 39);
    assert_eq!(search_key(&mut filter, &mut cursor, SearchKey::Enter, &matched, false), SearchAction::Select(39));
    assert_eq!(search_key(&mut filter, &mut cursor, SearchKey::Home, &matched, false), SearchAction::Stay);
    assert_eq!(cursor, 0);
    assert_eq!(search_key(&mut filter, &mut cursor, SearchKey::Escape, &matched, false), SearchAction::Cancel);
    assert_eq!(search_key(&mut filter, &mut cursor, SearchKey::Interrupt, &matched, false), SearchAction::Cancel);
    assert_eq!(search_key(&mut filter, &mut cursor, SearchKey::Other, &matched, false), SearchAction::Stay);
}

#[test]
fn typing_filters_and_returns_to_the_top() {
    let matched: Vec<usize> = vec![2, 5, 7];
    let mut filter = String::new();
    let mut cursor: usize = 2;
    assert_eq!(search_key(&mut filter, &mut cursor, SearchKey::Char('g'), &matched, false), SearchAction::Stay);
    assert_eq!(search_key(&mut filter, &mut cursor, SearchKey::Char('u'), &matched, false), SearchAction::Stay);
    assert_eq!(filter, "gu");
    assert_eq!(cursor, 0);
    assert_eq!(search_key(&mut filter, &mut cursor, SearchKey::Backspace, &matched, false), SearchAction::Stay);
    assert_eq!(filter, "g");
    assert_eq!(search_key(&mut filter, &mut cursor, SearchKey::Backspace, &matched, false), SearchAction::Stay);
    assert_eq!(search_key(&mut filter, &mut cursor, SearchKey::Backspace, &matched, false), SearchAction::Stay);
    assert_eq!(filter, "");
    cursor = 9;
    assert_eq!(search_key(&mut filter, &mut cursor, SearchKey::Enter, &matched, false), SearchAction::Select(7));
    assert_eq!(cursor, 2);
    let none: Vec<usize> = Vec::new();
    assert_eq!(search_key(&mut filter, &mut cursor, SearchKey::Enter, &none, false), SearchAction::Stay);
    assert_eq!(cursor, 0);
}

#[test]
fn selection_and_empty_messages() {
    assert_eq!(selected_line("bitwes/gut"), "Selected: bitwes/gut");
    assert_eq!(selected_line("gut"), "Selected: gut/?");
    assert_eq!(no_results_message("gut", true), "Failed to fetch from any repository for 'gut'.");
    assert_eq!(no_results_message("gut", false), "No results found for 'gut'.");
}
