use stash::config::Config;
use stash::note::{Note, NoteSource};
use stash::session::{AiState, App, AppMode, DeletionType, Effect, Key};

fn note(id: u128, created: i64, tags: &[&str], content: &str) -> Note {
    Note {
        id,
        title: None,
        tags: tags.iter().map(|t| t.to_string()).collect(),
        projects: Vec::new(),
        links_to: Vec::new(),
        created,
        updated: None,
        source: NoteSource::Editor,
        content: content.to_string(),
    }
}

fn configured_app() -> App {
    let mut config = Config::new_default();
    config.set_api_key("SECRET-REDACTED".to_string());
    let mut app = App::new(config, true);
    app.load_notes(vec![
        note(1, 10, &["rust"], "first +alpha"),
        note(2, 30, &["deleted"], "gone"),
        note(3, 20, &["misc"], "third"),
    ]);
    app
}

#[test]
fn load_orders_newest_first_and_hides_deleted() {
    let app = configured_app();
    let all: Vec<u128> = app.all_notes.iter().map(|n| n.id).collect();
    assert_eq!(all, vec![2, 3, 1]);
    let shown: Vec<u128> = app.notes.iter().map(|n| n.id).collect();
    assert_eq!(shown, vec![3, 1]);
    assert_eq!(app.list_selection, Some(0));
}

#[test]
fn second_rewrite_is_rejected_while_processing() {
    let mut app = configured_app();
    let first = app.start_ai_rewrite(3);
    assert!(matches!(first, Effect::StartRewrite(ref n) if n.id == 3));
    assert!(matches!(app.ai_state, AiState::Processing));
    let second = app.start_ai_rewrite(1);
    assert!(matches!(second, Effect::Nothing));
    assert!(matches!(app.ai_state, AiState::Processing));
    assert!(app.rewrite_pending);
    assert!(matches!(app.mode, AppMode::AiRewrite { original_note_id: 3, rewritten_content: None }));
    assert_eq!(app.status_message.as_deref(), Some("a rewrite is already in progress"));
}

#[test]
fn rewrite_result_is_taken_once() {
    let mut app = configured_app();
    app.start_ai_rewrite(1);
    app.check_ai_result(Some(Ok("better".to_string())));
    assert!(matches!(app.ai_state, AiState::Success));
    assert!(matches!(app.mode, AppMode::AiRewrite { original_note_id: 1, rewritten_content: Some(ref t) } if t == "better"));
    app.check_ai_result(Some(Err("late".to_string())));
    assert!(matches!(app.ai_state, AiState::Success));
    let e = app.handle_input(Key::Enter, 99);
    assert!(matches!(e, Effect::WriteRewrittenNote(ref n) if n.content == "better" && n.updated == Some(99)));
}

#[test]
fn rewrite_without_key_is_refused() {
    let mut app = App::new(Config::new_default(), true);
    app.load_notes(vec![note(5, 1, &[], "text")]);
    let e = app.start_ai_rewrite(5);
    assert!(matches!(e, Effect::Nothing));
    assert!(matches!(app.mode, AppMode::Home));
    assert_eq!(
        app.status_message.as_deref(),
        Some("please configure your openai api key first (press 's' for settings)")
    );
}

#[test]
fn soft_delete_tags_note_and_keeps_it_in_all_notes() {
    let mut app = configured_app();
    app.handle_input(Key::Char('d'), 0);
    assert!(matches!(app.mode, AppMode::DeleteConfirm { note_id: 3 }));
    assert_eq!(app.deletion_preference, DeletionType::Soft);
    let e = app.handle_input(Key::Char('y'), 77);
    let written = match e {
        Effect::WriteSoftDeleted(n) => n,
        other => panic!("unexpected effect {:?}", other),
    };
    assert_eq!(written.tags, vec!["misc".to_string(), "deleted".to_string()]);
    assert_eq!(written.updated, Some(77));
    let reloaded = vec![note(1, 10, &["rust"], "first +alpha"), note(2, 30, &["deleted"], "gone"), written];
    app.finish_soft_delete(Ok(reloaded));
    assert!(matches!(app.mode, AppMode::Home));
    assert_eq!(app.all_notes.len(), 3);
    let shown: Vec<u128> = app.notes.iter().map(|n| n.id).collect();
    assert_eq!(shown, vec![1]);
    assert_eq!(app.status_message.as_deref(), Some("note moved to trash (soft delete)"));
}

#[test]
fn hard_delete_asks_for_removal_and_reports_errors() {
    let mut app = configured_app();
    app.handle_input(Key::Char('d'), 0);
    app.handle_input(Key::Tab, 0);
    assert_eq!(app.deletion_preference, DeletionType::Hard);
    let e = app.handle_input(Key::Enter, 0);
    assert!(matches!(e, Effect::RemoveNote(3)));
    app.finish_hard_delete(Err("denied".to_string()));
    assert!(matches!(app.mode, AppMode::Home));
    assert_eq!(app.status_message.as_deref(), Some("error deleting note: denied"));
}

#[test]
fn filters_apply_and_are_pure() {
    let mut app = configured_app();
    app.handle_input(Key::Char('t'), 0);
    for c in "RU".chars() {
        app.handle_input(Key::Char(c), 0);
    }
    app.handle_input(Key::Enter, 0);
    assert!(matches!(app.mode, AppMode::Home));
    assert_eq!(app.current_tag_filter.as_deref(), Some("RU"));
    let first: Vec<u128> = app.notes.iter().map(|n| n.id).collect();
    app.apply_filters();
    let second: Vec<u128> = app.notes.iter().map(|n| n.id).collect();
    assert_eq!(first, vec![1]);
    assert_eq!(first, second);
    app.handle_input(Key::Char('c'), 0);
    assert_eq!(app.notes.len(), 2);
    assert_eq!(app.status_message.as_deref(), Some("filters cleared"));
}

#[test]
fn blank_search_clears_filter_and_escape_discards() {
    let mut app = configured_app();
    app.current_search = Some("third".to_string());
    app.apply_filters();
    assert_eq!(app.notes.len(), 1);
    app.handle_input(Key::Char('/'), 0);
    app.handle_input(Key::Char(' '), 0);
    app.handle_input(Key::Enter, 0);
    assert!(app.current_search.is_none());
    assert_eq!(app.notes.len(), 2);
    app.handle_input(Key::Char('/'), 0);
    app.handle_input(Key::Char('z'), 0);
    app.handle_input(Key::Esc, 0);
    assert!(app.current_search.is_none());
    assert!(app.search_input.is_empty());
}

#[test]
fn capture_flow_saves_non_blank_note() {
    let mut app = configured_app();
    let e = app.handle_input(Key::Char('a'), 0);
    assert!(matches!(e, Effect::ResetEditor));
    assert!(matches!(app.mode, AppMode::AddNote));
    let e = app.handle_input(Key::Char('x'), 0);
    assert!(matches!(e, Effect::EditContent));
    app.set_content_text("hello #greet +proj".to_string());
    assert_eq!(app.extracted_tags, vec!["greet".to_string()]);
    assert_eq!(app.extracted_projects, vec!["proj".to_string()]);
    app.handle_input(Key::Esc, 0);
    app.handle_input(Key::Char('t'), 0);
    app.handle_input(Key::Char('T'), 0);
    app.handle_input(Key::Esc, 0);
    let e = app.handle_input(Key::Char('s'), 0);
    match e {
        Effect::SaveNewNote { content, title } => {
            assert_eq!(content, "hello #greet +proj");
            assert_eq!(title.as_deref(), Some("T"));
        }
        other => panic!("unexpected effect {:?}", other),
    }
    app.finish_save_note(Ok(vec![note(9, 50, &["greet"], "hello #greet +proj")]));
    assert!(matches!(app.mode, AppMode::Home));
    assert!(app.content_text.is_empty());
    assert_eq!(app.status_message.as_deref(), Some("note saved successfully"));
}

#[test]
fn blank_draft_is_not_saved() {
    let mut app = configured_app();
    app.handle_input(Key::Char('a'), 0);
    app.set_content_text("   ".to_string());
    app.handle_input(Key::Esc, 0);
    let e = app.handle_input(Key::Char('s'), 0);
    assert!(matches!(e, Effect::Nothing));
    assert_eq!(app.status_message.as_deref(), Some("cannot save empty note"));
}

#[test]
fn edit_flow_writes_rederived_metadata() {
    let mut app = configured_app();
    app.handle_input(Key::Enter, 0);
    assert!(matches!(app.mode, AppMode::ViewNote(3)));
    let e = app.handle_input(Key::Char('e'), 0);
    assert!(matches!(e, Effect::LoadEditor(ref t) if t == "third"));
    assert!(matches!(app.mode, AppMode::EditNote(3)));
    app.set_content_text("third #new".to_string());
    app.handle_input(Key::Esc, 0);
    let e = app.handle_input(Key::Char('s'), 42);
    match e {
        Effect::WriteEditedNote(n) => {
            assert_eq!(n.id, 3);
            assert_eq!(n.tags, vec!["new".to_string()]);
            assert_eq!(n.updated, Some(42));
        }
        other => panic!("unexpected effect {:?}", other),
    }
    app.finish_edit_save(Ok(vec![note(3, 20, &["new"], "third #new")]));
    assert!(matches!(app.mode, AppMode::ViewNote(3)));
}

#[test]
fn cursor_wraps_both_ways() {
    let mut app = configured_app();
    app.handle_input(Key::Up, 0);
    assert_eq!(app.selected_note, 1);
    app.handle_input(Key::Down, 0);
    assert_eq!(app.selected_note, 0);
    app.handle_input(Key::Char('j'), 0);
    app.handle_input(Key::Char('j'), 0);
    assert_eq!(app.selected_note, 0);
}

#[test]
fn draft_rewrite_round_trip() {
    let mut app = configured_app();
    app.handle_input(Key::Char('a'), 0);
    app.set_content_text("rough text".to_string());
    app.handle_input(Key::Esc, 0);
    let e = app.handle_input(Key::Char('r'), 5);
    assert!(matches!(e, Effect::StartRewrite(ref n) if n.id == 0 && n.content == "rough text"));
    let e = app.handle_input(Key::Esc, 0);
    assert!(matches!(e, Effect::DropRewrite));
    assert!(matches!(app.mode, AppMode::AddNote));
    assert!(matches!(app.ai_state, AiState::Idle));
    app.check_ai_result(Some(Ok("stale".to_string())));
    assert!(matches!(app.mode, AppMode::AddNote));
}

#[test]
fn settings_flow_stores_key_and_style() {
    let mut app = App::new(Config::new_default(), false);
    app.handle_input(Key::Char('s'), 0);
    assert!(matches!(app.mode, AppMode::Settings));
    for c in "k1".chars() {
        app.handle_input(Key::Char(c), 0);
    }
    app.handle_input(Key::Tab, 0);
    app.handle_input(Key::Down, 0);
    app.handle_input(Key::Tab, 0);
    app.handle_input(Key::Tab, 0);
    let e = app.handle_input(Key::Enter, 0);
    assert!(matches!(e, Effect::SaveConfig));
    assert_eq!(app.config.openai_api_key.as_deref(), Some("k1"));
    assert_eq!(app.config.ai_prompt_style, "casual");
    assert!(app.config.custom_ai_prompt.is_none());
    app.finish_settings_save(Ok(true));
    assert!(matches!(app.mode, AppMode::Home));
    assert!(app.ai_available);
}

#[test]
fn command_translation_waits_for_confirmation() {
    let mut app = configured_app();
    app.handle_input(Key::Char(':'), 0);
    assert!(matches!(app.mode, AppMode::AiCommand { .. }));
    for c in "rust notes".chars() {
        app.handle_input(Key::Char(c), 0);
    }
    let e = app.handle_input(Key::Enter, 0);
    assert!(matches!(e, Effect::StartTranslate(ref t) if t == "rust notes"));
    assert!(app.command_pending);
    let again = app.handle_input(Key::Enter, 0);
    assert!(matches!(again, Effect::Nothing));
    assert_eq!(app.status_message.as_deref(), Some("a query translation is already in progress"));
    app.check_command_result(Some(Ok("#rust".to_string())));
    assert!(!app.command_pending);
    match &app.mode {
        AppMode::AiCommand { generated_query, results, awaiting_confirmation, .. } => {
            assert_eq!(generated_query.as_deref(), Some("#rust"));
            assert!(results.is_none());
            assert!(*awaiting_confirmation);
        }
        other => panic!("unexpected mode {:?}", other),
    }
    app.handle_input(Key::Enter, 0);
    match &app.mode {
        AppMode::AiCommand { results, awaiting_confirmation, .. } => {
            assert_eq!(results.as_deref(), Some("Untitled\n"));
            assert!(!*awaiting_confirmation);
        }
        other => panic!("unexpected mode {:?}", other),
    }
    app.handle_input(Key::Esc, 0);
    assert!(matches!(app.mode, AppMode::Home));
}

#[test]
fn command_mode_needs_ai() {
    let mut app = App::new(Config::new_default(), false);
    app.handle_input(Key::Char(':'), 0);
    assert!(matches!(app.mode, AppMode::Home));
    assert_eq!(app.status_message.as_deref(), Some("ai client not available. please check your configuration."));
}

#[test]
fn accepted_rewrite_rederives_tags() {
    let mut app = configured_app();
    app.start_ai_rewrite(1);
    app.check_ai_result(Some(Ok("new #fresh +proj".to_string())));
    let e = app.handle_input(Key::Enter, 7);
    match e {
        Effect::WriteRewrittenNote(n) => {
            assert_eq!(n.tags, vec!["fresh".to_string()]);
            assert_eq!(n.projects, vec!["proj".to_string()]);
            assert_eq!(n.content, "new #fresh +proj");
        }
        other => panic!("unexpected effect {:?}", other),
    }
}

#[test]
fn soft_delete_of_tagged_note_goes_home_unchanged() {
    let mut app = configured_app();
    let before: Vec<u128> = app.notes.iter().map(|n| n.id).collect();
    app.mode = AppMode::DeleteConfirm { note_id: 2 };
    let e = app.handle_input(Key::Enter, 1);
    assert!(matches!(e, Effect::Nothing));
    assert!(matches!(app.mode, AppMode::Home));
    let after: Vec<u128> = app.notes.iter().map(|n| n.id).collect();
    assert_eq!(before, after);
    assert_eq!(app.all_notes.len(), 3);
}

#[test]
fn filter_input_commits_trimmed_text() {
    let mut app = configured_app();
    app.handle_input(Key::Char('/'), 0);
    for c in "  third ".chars() {
        app.handle_input(Key::Char(c), 0);
    }
    app.handle_input(Key::Enter, 0);
    assert_eq!(app.current_search.as_deref(), Some("third"));
    assert_eq!(app.notes.len(), 1);
}
