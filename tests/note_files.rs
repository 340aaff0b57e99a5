use stash::note::{keep_loaded, Note, NoteSource};
use stash::note::{split_frontmatter, NoteError};

#[test]
fn frontmatter_is_split_at_first_closing_line() {
    let text = "---\nid: 1\ntitle: null\n---\nbody\n---\nmore";
    match split_frontmatter(text) {
        Ok((fm, body)) => {
            assert_eq!(fm, "id: 1\ntitle: null");
            assert_eq!(body, "body\n---\nmore");
        }
        Err(e) => panic!("unexpected {:?}", e),
    }
}

#[test]
fn malformed_note_file_is_skipped_among_valid_ones() {
    let files = vec!["---\nid: 1\n---\nok", "no metadata here", "---\nunterminated", "---\nid: 2\n---\n"];
    let loaded: Vec<String> = files
        .iter()
        .filter_map(|f| split_frontmatter(f).ok())
        .map(|(fm, _)| fm)
        .collect();
    assert_eq!(loaded, vec!["id: 1".to_string(), "id: 2".to_string()]);
    assert!(matches!(split_frontmatter("no metadata here"), Err(NoteError::MissingFrontmatter)));
    assert!(matches!(split_frontmatter("---\nunterminated"), Err(NoteError::InvalidFrontmatter)));
}

#[test]
fn quick_note_text_carries_metadata() {
    let text = stash::note::quick_note_text(
        "abc",
        &Some("T".to_string()),
        "see [[other]] #x +p #y",
        "2024-01-01T00:00:00.000Z",
    );
    assert_eq!(
        text,
        "---\nid: abc\ntitle: \"T\"\ntags: [\"x\", \"y\"]\nprojects: [\"p\"]\nlinks_to: [\"other\"]\ncreated: 2024-01-01T00:00:00.000Z\nupdated: null\nsource: \"QuickCapture\"\n---\nsee [[other]] #x +p #y"
    );
    let empty = stash::note::quick_note_text("i", &None, "plain", "c");
    assert!(empty.contains("title: null\ntags: []\nprojects: []\nlinks_to: []"));
}

#[test]
fn links_need_closing_brackets() {
    assert_eq!(stash::text::extract_links("[[a]] [[b] [[]] [[c d]]"), vec!["a", "c d"]);
}

#[test]
fn failed_loads_are_skipped_in_order() {
    let mk = |id: u128| Note {
        id,
        title: None,
        tags: Vec::new(),
        projects: Vec::new(),
        links_to: Vec::new(),
        created: 0,
        updated: None,
        source: NoteSource::UI,
        content: String::new(),
    };
    let outcomes = vec![
        Ok((mk(1), "a.md".to_string())),
        Err(NoteError::MissingFrontmatter),
        Ok((mk(2), "b.md".to_string())),
        Err(NoteError::Yaml("bad".to_string())),
    ];
    let kept: Vec<u128> = keep_loaded(outcomes).iter().map(|(n, _)| n.id).collect();
    assert_eq!(kept, vec![1, 2]);
}
