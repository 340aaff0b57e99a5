use stash::query::parse_search_query;
use stash::text::{extract_projects, extract_tags, split_lines};

#[test]
fn parse_splits_tokens_and_text() {
    let q = parse_search_query("#rust +webapp error -#old -+legacy handling");
    assert_eq!(q.required_tags, vec!["rust".to_string()]);
    assert_eq!(q.required_projects, vec!["webapp".to_string()]);
    assert_eq!(q.excluded_tags, vec!["old".to_string()]);
    assert_eq!(q.excluded_projects, vec!["legacy".to_string()]);
    assert_eq!(q.text_query, "error   handling");
}

#[test]
fn parse_keeps_duplicates_and_lone_markers() {
    let q = parse_search_query("#a #a # + - x#b");
    assert_eq!(q.required_tags, vec!["a".to_string(), "a".to_string(), "b".to_string()]);
    assert_eq!(q.text_query, "# + - x");
}

#[test]
fn reparse_of_rendered_tokens_is_identical() {
    let q = parse_search_query("find #rust -#old +web -+legacy stuff #async");
    let rendered = q.to_query_string();
    assert_eq!(rendered, "#rust #async -#old +web -+legacy ");
    let q2 = parse_search_query(&rendered);
    assert_eq!(q2.required_tags, q.required_tags);
    assert_eq!(q2.excluded_tags, q.excluded_tags);
    assert_eq!(q2.required_projects, q.required_projects);
    assert_eq!(q2.excluded_projects, q.excluded_projects);
    assert_eq!(q2.text_query, "");
}

#[test]
fn extraction_reads_tags_and_projects() {
    assert_eq!(extract_tags("a #one, b #two_2 -#three ##x"), vec!["one", "two_2", "three", "x"]);
    assert_eq!(extract_projects("see +alpha and +beta+gamma"), vec!["alpha", "beta", "gamma"]);
    assert!(extract_tags("no tags here #").is_empty());
}

#[test]
fn lines_follow_std_lines() {
    let text = "a\r\nb\n\nc\n";
    let expected: Vec<String> = text.lines().map(|l| l.to_string()).collect();
    assert_eq!(split_lines(text), expected);
    assert!(split_lines("").is_empty());
}

#[test]
fn non_ascii_letters_belong_to_names() {
    assert_eq!(extract_tags("#café au #日本語!"), vec!["café", "日本語"]);
    assert_eq!(extract_projects("+naïve-plan"), vec!["naïve"]);
    let q = parse_search_query("#Über  text");
    assert_eq!(q.required_tags, vec!["Über".to_string()]);
    assert_eq!(q.text_query, "text");
}

#[test]
fn trimming_follows_unicode_white_space() {
    let q = parse_search_query("\u{3000}\t#a  free text\u{00A0}\n");
    assert_eq!(q.text_query, "free text");
    let q = parse_search_query("#a -+b\u{2003}");
    assert_eq!(q.text_query, "");
}

#[test]
fn reparse_has_no_free_text() {
    let q = parse_search_query("notes #x about -+y things");
    let q2 = parse_search_query(&q.to_query_string());
    assert_eq!(q2.text_query, "");
    assert_eq!(q2.required_tags, vec!["x".to_string()]);
    assert_eq!(q2.excluded_projects, vec!["y".to_string()]);
}
