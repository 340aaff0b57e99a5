use stash::search::{choose_result, ResultChoice};
use stash::note::{Note, NoteSource};
use stash::query::parse_search_query;
use stash::search::{find_matching_notes_advanced, SearchOptions, BASELINE_SCORE};

fn note(id: u128, title: Option<&str>, tags: &[&str], content: &str) -> Note {
    Note {
        id,
        title: title.map(|t| t.to_string()),
        tags: tags.iter().map(|t| t.to_string()).collect(),
        projects: Vec::new(),
        links_to: Vec::new(),
        created: 1_700_000_000_000 + id as i64,
        updated: None,
        source: NoteSource::QuickCapture,
        content: content.to_string(),
    }
}

fn options(query: &str) -> SearchOptions {
    SearchOptions {
        query: query.to_string(),
        filter_tags: None,
        filter_projects: None,
        list_tags: false,
        list_projects: false,
        case_sensitive: false,
    }
}

fn run(notes: &[(Note, String)], query: &str, opts: &SearchOptions) -> Vec<stash::search::SearchResult> {
    let q = parse_search_query(query);
    match find_matching_notes_advanced(notes, &q, opts) {
        Ok(r) => r,
        Err(_) => panic!("search failed"),
    }
}

#[test]
fn tag_project_and_text_query_finds_note() {
    let notes = vec![
        (note(1, None, &["rust"], "error handling is tricky\nworking on +webapp"), "a.md".to_string()),
        (note(2, None, &["python"], "error handling in +webapp"), "b.md".to_string()),
    ];
    let results = run(&notes, "#rust +webapp error handling", &options("#rust +webapp error handling"));
    assert_eq!(results.len(), 1);
    let r = &results[0];
    assert_eq!(r.note.id, 1);
    assert!(!r.title_match);
    assert_eq!(r.tag_matches, vec!["rust".to_string()]);
    assert_eq!(r.project_matches, vec!["webapp".to_string()]);
    assert!(r.content_snippets.iter().any(|s| s.contains("error handling is tricky")));
    assert_eq!(r.content_snippets[0], "Line 1: error handling is tricky");
    assert_eq!(r.file_path, "a.md");
}

#[test]
fn exclusion_only_query_keeps_untagged_note_at_baseline() {
    let notes = vec![
        (note(1, None, &["old"], "legacy stuff"), "old.md".to_string()),
        (note(2, None, &[], "fresh stuff"), "new.md".to_string()),
    ];
    let results = run(&notes, "-#old", &options("-#old"));
    assert_eq!(results.len(), 1);
    assert_eq!(results[0].note.id, 2);
    assert_eq!(results[0].score, BASELINE_SCORE);
    assert_eq!(BASELINE_SCORE, 100);
    assert!(results[0].tag_matches.is_empty());
}

#[test]
fn tokens_only_query_gives_baseline_and_matches() {
    let notes = vec![
        (note(1, None, &["rust"], "a +cli tool"), "1.md".to_string()),
        (note(2, None, &["Rust"], "another"), "2.md".to_string()),
        (note(3, None, &["go"], "+cli"), "3.md".to_string()),
    ];
    let results = run(&notes, "#rust", &options("#rust"));
    assert_eq!(results.len(), 2);
    for r in &results {
        assert_eq!(r.score, BASELINE_SCORE);
        assert!(!r.tag_matches.is_empty());
        assert!(r.content_snippets.is_empty());
    }
}

#[test]
fn ranking_prefers_more_matches_and_keeps_ties_in_order() {
    let notes = vec![
        (note(1, None, &["a"], "one"), "1.md".to_string()),
        (note(2, None, &["a", "b"], "two"), "2.md".to_string()),
        (note(3, None, &["a"], "three"), "3.md".to_string()),
    ];
    let q1 = run(&notes, "#a", &options("#a"));
    let ids: Vec<u128> = q1.iter().map(|r| r.note.id).collect();
    assert_eq!(ids, vec![1, 2, 3]);
    let again: Vec<u128> = run(&notes, "#a", &options("#a")).iter().map(|r| r.note.id).collect();
    assert_eq!(ids, again);
    let q2: Vec<u128> = run(&notes, "#a #b", &options("#a #b")).iter().map(|r| r.note.id).collect();
    assert_eq!(q2, vec![2]);
}

#[test]
fn allow_list_filters_by_tag() {
    let notes = vec![
        (note(1, None, &["work"], "x"), "1.md".to_string()),
        (note(2, None, &["home"], "y"), "2.md".to_string()),
    ];
    let mut opts = options("");
    opts.filter_tags = Some(" Home , garden".to_string());
    let results = run(&notes, "", &opts);
    assert_eq!(results.len(), 1);
    assert_eq!(results[0].note.id, 2);
}

#[test]
fn free_text_scores_title_and_caps_snippets() {
    let content = "apple one\napple two\napple three\napple four";
    let notes = vec![(note(1, Some("Apple notes"), &[], content), "1.md".to_string())];
    let results = run(&notes, "apple", &options("apple"));
    assert_eq!(results.len(), 1);
    assert!(results[0].title_match);
    assert!(results[0].score > 0);
    assert_eq!(results[0].content_snippets.len(), 3);
    assert_eq!(results[0].content_snippets[2], "Line 3: apple three");
}

#[test]
fn case_sensitive_search_misses_other_case() {
    let notes = vec![(note(1, None, &[], "hello world"), "1.md".to_string())];
    let mut opts = options("HELLO");
    opts.case_sensitive = true;
    assert!(run(&notes, "HELLO", &opts).is_empty());
    assert_eq!(run(&notes, "HELLO", &options("HELLO")).len(), 1);
}

#[test]
fn results_prompt_choices() {
    assert_eq!(choose_result("q\n", 3), ResultChoice::Quit);
    assert_eq!(choose_result("  \n", 3), ResultChoice::Quit);
    assert_eq!(choose_result("h", 3), ResultChoice::Help);
    assert_eq!(choose_result(" 2 \n", 3), ResultChoice::Open(1));
    assert_eq!(choose_result("+3", 3), ResultChoice::Open(2));
    assert_eq!(choose_result("0", 3), ResultChoice::InvalidNumber);
    assert_eq!(choose_result("4", 3), ResultChoice::InvalidNumber);
    assert_eq!(choose_result("x1", 3), ResultChoice::InvalidInput);
    assert_eq!(choose_result("+", 3), ResultChoice::InvalidInput);
    assert_eq!(choose_result("99999999999999999999999", 3), ResultChoice::InvalidInput);
    assert_eq!(choose_result("18446744073709551615", usize::MAX), ResultChoice::Open(usize::MAX - 1));
}
