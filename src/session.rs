//! The interactive session: its modes, the note list and its filters, the
//! editing buffers, and the rules by which key events move between modes.
//! Everything that touches the terminal, the disk or the network is asked
//! for through an [`Effect`] and reported back through a `finish_*` or
//! polling method.

use vstd::prelude::*;
use vstd::string::StringExecFns;
use crate::config::Config;
use crate::note::{Note, NoteModel, NoteSource};
use crate::search::note_projects;
use crate::text::{
    contains_str, extract_projects, extract_tags, lower_of, marked_names, occurs_in, same_chars, strings_view,
    to_lower, trim_of, trim_str,
};

verus! {

/// The current mode of the session.
#[derive(Debug)]
pub enum AppMode {
    Home,
    AddNote,
    EditNote(u128),
    ViewNote(u128),
    Help,
    Settings,
    AiRewrite { original_note_id: u128, rewritten_content: Option<String> },
    Search,
    TagFilter,
    ProjectFilter,
    DeleteConfirm { note_id: u128 },
    AiCommand {
        input: String,
        generated_query: Option<String>,
        results: Option<String>,
        awaiting_confirmation: bool,
    },
}

/// The two editing sub-modes: single-key commands, or text entry.
#[derive(Clone, Copy, Debug, PartialEq, Eq, Structural)]
pub enum EditorMode {
    Command,
    Insert,
}

/// The input field that receives typed text.
#[derive(Clone, Copy, Debug, PartialEq, Eq, Structural)]
pub enum ActiveField {
    Title,
    Content,
    ApiKey,
    PromptStyle,
    CustomPrompt,
    Search,
    TagFilter,
    ProjectFilter,
    DeleteOption,
}

/// Where the single background rewrite stands.
#[derive(Debug)]
pub enum AiState {
    Idle,
    Processing,
    Success,
    Error(String),
}

/// Whether deleting tags the note or removes its file.
#[derive(Clone, Copy, Debug, PartialEq, Eq, Structural)]
pub enum DeletionType {
    Soft,
    Hard,
}

/// A key press, as the session sees it.
#[derive(Clone, Copy, Debug, PartialEq, Eq, Structural)]
pub enum Key {
    Char(char),
    Enter,
    Esc,
    Tab,
    Up,
    Down,
    Backspace,
    Other,
}

/// Outside work that a transition asks for. The caller performs it and,
/// where it names one, reports the outcome through the matching
/// `finish_*` method.
#[derive(Debug)]
pub enum Effect {
    Nothing,
    /// Feed the key to the content editor, then call `set_content_text`.
    EditContent,
    /// Empty the content editor.
    ResetEditor,
    /// Load this text into the content editor.
    LoadEditor(String),
    /// Reload the notes from disk and call `load_notes`.
    ReloadNotes,
    /// Store a new note; then `finish_save_note`.
    SaveNewNote { content: String, title: Option<String> },
    /// Write an edited note; then `finish_edit_save`.
    WriteEditedNote(Note),
    /// Write a note with rewritten content; then `finish_rewrite_save`.
    WriteRewrittenNote(Note),
    /// Write a note tagged as deleted; then `finish_soft_delete`.
    WriteSoftDeleted(Note),
    /// Remove a note's file; then `finish_hard_delete`.
    RemoveNote(u128),
    /// Start rewriting this note in the background; its result comes back
    /// through `check_ai_result`.
    StartRewrite(Note),
    /// Drop the channel of the running rewrite: its result is not wanted.
    DropRewrite,
    /// Persist the settings; then `finish_settings_save`.
    SaveConfig,
    /// Start translating this text into a query in the background; its
    /// result comes back through `check_command_result`.
    StartTranslate(String),
    /// Drop the channel of the running translation.
    DropTranslate,
}

/// The reserved tag that marks a note as deleted.
pub open spec fn deleted_tag() -> Seq<char> {
    seq!['d', 'e', 'l', 'e', 't', 'e', 'd']
}

/// Whether an optional filter holds more than whitespace.
pub open spec fn filter_active(f: Option<Seq<char>>) -> bool {
    f is Some && trim_of(f->0).len() > 0
}

/// Whether `needle` occurs in `hay`, both lowercased.
pub open spec fn occurs_ci(hay: Seq<char>, needle: Seq<char>) -> bool {
    occurs_in(lower_of(hay), lower_of(needle))
}

pub open spec fn some_occurs_ci(l: Seq<Seq<char>>, needle: Seq<char>) -> bool {
    exists|k: int| 0 <= k < l.len() && occurs_ci(#[trigger] l[k], needle)
}

/// The three filters of the session.
pub struct Filters {
    pub search: Option<Seq<char>>,
    pub tag: Option<Seq<char>>,
    pub project: Option<Seq<char>>,
}

/// Whether a note shows in the filtered list: it is not soft-deleted, and
/// each active filter occurs in it (the search in its content or title,
/// the tag filter in one of its tags, the project filter in one of the
/// projects written in its content), all compared lowercased.
pub open spec fn visible(n: NoteModel, f: Filters) -> bool {
    &&& !n.tags.contains(deleted_tag())
    &&& filter_active(f.search) ==> (occurs_ci(n.content, f.search->0) || (n.title is Some
        && occurs_ci(n.title->0, f.search->0)))
    &&& filter_active(f.tag) ==> some_occurs_ci(n.tags, f.tag->0)
    &&& filter_active(f.project) ==> some_occurs_ci(note_projects(n), f.project->0)
}

pub open spec fn visible_fn(f: Filters) -> spec_fn(NoteModel) -> bool {
    |n: NoteModel| visible(n, f)
}

pub open spec fn notes_view(v: Seq<Note>) -> Seq<NoteModel> {
    v.map_values(|n: Note| n@)
}

/// The filtered list for `all` under `f`.
pub open spec fn filtered(all: Seq<NoteModel>, f: Filters) -> Seq<NoteModel> {
    all.filter(visible_fn(f))
}

pub open spec fn opt_chars(o: Option<String>) -> Option<Seq<char>> {
    match o {
        Some(s) => Some(s@),
        None => None,
    }
}

/// The key of the prompt style at position `i` of the list.
pub open spec fn style_key(i: int) -> Seq<char> {
    if i == 0 {
        "professional"@
    } else if i == 1 {
        "casual"@
    } else if i == 2 {
        "concise"@
    } else if i == 3 {
        "detailed"@
    } else if i == 4 {
        "technical"@
    } else if i == 5 {
        "simple"@
    } else {
        "custom"@
    }
}

/// The list of prompt styles: key and display name.
pub fn get_prompt_styles() -> (r: Vec<(&'static str, &'static str)>)
    ensures
        r@.len() == 7,
        forall|i: int| 0 <= i < 7 ==> (#[trigger] r@[i]).0@ == style_key(i),
{
    vec![
        ("professional", "Professional & Polished"),
        ("casual", "Casual & Conversational"),
        ("concise", "Concise & Brief"),
        ("detailed", "Detailed & Expanded"),
        ("technical", "Technical & Precise"),
        ("simple", "Simple & Clear"),
        ("custom", "Custom Prompt"),
    ]
}

/// The number of prompt styles.
pub const PROMPT_STYLE_COUNT: usize = 7;

fn some_tag_occurs(tags: &Vec<String>, needle: &String) -> (r: bool)
    ensures
        r == some_occurs_ci(strings_view(tags@), needle@),
{
    let ln = to_lower(needle.as_str());
    let mut i: usize = 0;
    while i < tags.len()
        invariant
            0 <= i <= tags@.len(),
            ln@ == lower_of(needle@),
            forall|k: int| 0 <= k < i ==> !occurs_ci(#[trigger] strings_view(tags@)[k], needle@),
        decreases tags@.len() - i,
    {
        let lt = to_lower(tags[i].as_str());
        if contains_str(lt.as_str(), ln.as_str()) {
            assert(occurs_ci(strings_view(tags@)[i as int], needle@));
            return true;
        }
        i = i + 1;
    }
    false
}

fn is_filter_active(f: &Option<String>) -> (r: bool)
    ensures
        r == filter_active(opt_chars(*f)),
{
    match f {
        Some(s) => {
            let t = trim_str(s.as_str());
            !t.as_str().is_empty()
        },
        None => false,
    }
}

fn has_deleted_tag(n: &Note) -> (r: bool)
    ensures
        r == n@.tags.contains(deleted_tag()),
{
    let d = deleted_tag_string();
    n.has_tag(d.as_str())
}

fn deleted_tag_string() -> (r: String)
    ensures
        r@ == deleted_tag(),
{
    let mut r = String::new();
    r.push('d');
    r.push('e');
    r.push('l');
    r.push('e');
    r.push('t');
    r.push('e');
    r.push('d');
    assert(r@ =~= deleted_tag());
    r
}

/// Whether a note shows under the given filters.
pub fn note_visible(
    n: &Note,
    search: &Option<String>,
    tag: &Option<String>,
    project: &Option<String>,
) -> (r: bool)
    ensures
        r == visible(
            n@,
            Filters { search: opt_chars(*search), tag: opt_chars(*tag), project: opt_chars(*project) },
        ),
{
    if has_deleted_tag(n) {
        return false;
    }
    if is_filter_active(search) {
        let term = search.as_ref().unwrap();
        let lterm = to_lower(term.as_str());
        let lcontent = to_lower(n.content.as_str());
        let content_match = contains_str(lcontent.as_str(), lterm.as_str());
        let title_match = match &n.title {
            Some(t) => {
                let lt = to_lower(t.as_str());
                contains_str(lt.as_str(), lterm.as_str())
            },
            None => false,
        };
        if !(content_match || title_match) {
            return false;
        }
    }
    if is_filter_active(tag) {
        if !some_tag_occurs(&n.tags, tag.as_ref().unwrap()) {
            return false;
        }
    }
    if is_filter_active(project) {
        let projects = extract_projects(n.content.as_str());
        if !some_tag_occurs(&projects, project.as_ref().unwrap()) {
            return false;
        }
    }
    true
}

/// Soft-deleted notes never show, whatever the filters.
pub proof fn lemma_filtered_excludes_deleted(all: Seq<NoteModel>, f: Filters)
    ensures
        forall|k: int|
            0 <= k < filtered(all, f).len() ==> !(#[trigger] filtered(all, f)[k]).tags.contains(
                deleted_tag(),
            ),
{
    broadcast use vstd::seq_lib::group_filter_ensures;
    assert forall|k: int| 0 <= k < filtered(all, f).len() implies !(#[trigger] filtered(all, f)[k]).tags.contains(
        deleted_tag(),
    ) by {
        assert(visible_fn(f)(filtered(all, f)[k]));
    }
}

/// Filtering is idempotent: filtering the filtered list again gives the
/// same list.
pub proof fn lemma_filtered_idempotent(all: Seq<NoteModel>, f: Filters)
    ensures
        filtered(filtered(all, f), f) == filtered(all, f),
    decreases all.len(),
{
    reveal(Seq::filter);
    let p = visible_fn(f);
    if all.len() > 0 {
        lemma_filtered_idempotent(all.drop_last(), f);
        let sub = all.drop_last().filter(p);
        if p(all.last()) {
            let s2 = sub.push(all.last());
            assert(s2.drop_last() =~= sub);
            assert(s2.last() == all.last());
        }
    }
}

/// The session state. `notes` is the filtered view of `all_notes`;
/// `content_text` mirrors the content editor.
#[derive(Debug)]
pub struct App {
    pub mode: AppMode,
    pub editor_mode: EditorMode,
    pub notes: Vec<Note>,
    pub all_notes: Vec<Note>,
    pub selected_note: usize,
    pub list_selection: Option<usize>,
    pub content_text: String,
    pub title_input: String,
    pub active_field: ActiveField,
    pub should_quit: bool,
    pub status_message: Option<String>,
    pub extracted_tags: Vec<String>,
    pub extracted_projects: Vec<String>,
    pub config: Config,
    pub ai_available: bool,
    pub ai_state: AiState,
    pub api_key_input: String,
    pub rewrite_pending: bool,
    pub command_pending: bool,
    pub prompt_style_index: usize,
    pub custom_prompt_input: String,
    pub search_input: String,
    pub tag_filter_input: String,
    pub project_filter_input: String,
    pub current_search: Option<String>,
    pub current_tag_filter: Option<String>,
    pub current_project_filter: Option<String>,
    pub deletion_preference: DeletionType,
}

/// Notes ordered newest first; notes created at the same time keep their
/// order.
pub open spec fn insert_by_created(r: Seq<NoteModel>, x: NoteModel) -> Seq<NoteModel>
    decreases r.len(),
{
    if r.len() == 0 {
        seq![x]
    } else if r[0].created < x.created {
        seq![x] + r
    } else {
        seq![r[0]] + insert_by_created(r.drop_first(), x)
    }
}

pub open spec fn newest_first(s: Seq<NoteModel>) -> Seq<NoteModel>
    decreases s.len(),
{
    if s.len() == 0 {
        seq![]
    } else {
        insert_by_created(newest_first(s.drop_last()), s.last())
    }
}

fn insert_note_by_created(v: &mut Vec<Note>, x: Note)
    ensures
        notes_view(final(v)@) == insert_by_created(notes_view(old(v)@), x@),
{
    let ghost w = notes_view(v@);
    let mut p: usize = 0;
    assert(w.subrange(0, 0) + w.subrange(0, w.len() as int) =~= w);
    while p < v.len() && !(v[p].created < x.created)
        invariant
            0 <= p <= v@.len(),
            w == notes_view(v@),
            insert_by_created(w, x@) == w.subrange(0, p as int) + insert_by_created(
                w.subrange(p as int, w.len() as int),
                x@,
            ),
        decreases v@.len() - p,
    {
        proof {
            let t = w.subrange(p as int, w.len() as int);
            assert(t[0] == w[p as int]);
            assert(t.drop_first() =~= w.subrange(p + 1, w.len() as int));
            assert(w.subrange(0, p + 1) =~= w.subrange(0, p as int).push(w[p as int]));
            assert(w.subrange(0, p as int) + insert_by_created(t, x@) =~= w.subrange(0, p + 1)
                + insert_by_created(w.subrange(p + 1, w.len() as int), x@));
        }
        p = p + 1;
    }
    v.insert(p, x);
    proof {
        let t = w.subrange(p as int, w.len() as int);
        if p < w.len() {
            assert(t[0] == w[p as int]);
        }
        assert(notes_view(v@) =~= w.subrange(0, p as int) + insert_by_created(t, x@));
    }
}

/// The notes ordered newest first.
pub fn sort_newest_first(notes: Vec<Note>) -> (r: Vec<Note>)
    ensures
        notes_view(r@) == newest_first(notes_view(notes@)),
{
    let mut notes = notes;
    let ghost orig = notes_view(notes@);
    let mut out: Vec<Note> = Vec::new();
    let mut taken: usize = 0;
    let n = notes.len();
    let mut rest: Vec<Note> = Vec::new();
    while notes.len() > 0
        invariant
            taken + notes@.len() == n,
            n == orig.len(),
            notes_view(notes@) == orig.subrange(taken as int, n as int),
            notes_view(out@) == newest_first(orig.subrange(0, taken as int)),
        decreases notes@.len(),
    {
        let ghost before = notes@;
        let x = notes.remove(0);
        proof {
            assert(notes@ =~= before.subrange(1, before.len() as int));
            assert forall|k: int| 0 <= k < notes@.len() implies notes_view(notes@)[k] == orig.subrange(taken + 1, n as int)[k] by {
                assert(notes@[k] == before[k + 1]);
                assert(notes_view(before)[k + 1] == before[k + 1]@);
            }
            assert(notes_view(before)[0] == before[0]@);
            assert(orig.subrange(taken as int, n as int)[0] == orig[taken as int]);
            assert(x@ == orig[taken as int]);
            assert(orig.subrange(0, taken + 1).drop_last() =~= orig.subrange(0, taken as int));
            assert(notes_view(notes@) =~= orig.subrange(taken + 1, n as int));
        }
        insert_note_by_created(&mut out, x);
        taken = taken + 1;
    }
    assert(orig.subrange(0, n as int) =~= orig);
    out
}

pub open spec fn app_filters(a: App) -> Filters {
    Filters {
        search: opt_chars(a.current_search),
        tag: opt_chars(a.current_tag_filter),
        project: opt_chars(a.current_project_filter),
    }
}

/// Every field but the filtered list, its cursor and the status message
/// is the same.
pub open spec fn same_core(a: App, b: App) -> bool {
    &&& a.mode == b.mode
    &&& a.editor_mode == b.editor_mode
    &&& a.all_notes == b.all_notes
    &&& a.content_text == b.content_text
    &&& a.title_input == b.title_input
    &&& a.active_field == b.active_field
    &&& a.should_quit == b.should_quit
    &&& a.extracted_tags == b.extracted_tags
    &&& a.extracted_projects == b.extracted_projects
    &&& a.config == b.config
    &&& a.ai_available == b.ai_available
    &&& a.ai_state == b.ai_state
    &&& a.api_key_input == b.api_key_input
    &&& a.rewrite_pending == b.rewrite_pending
    &&& a.command_pending == b.command_pending
    &&& a.prompt_style_index == b.prompt_style_index
    &&& a.custom_prompt_input == b.custom_prompt_input
    &&& a.search_input == b.search_input
    &&& a.tag_filter_input == b.tag_filter_input
    &&& a.project_filter_input == b.project_filter_input
    &&& a.current_search == b.current_search
    &&& a.current_tag_filter == b.current_tag_filter
    &&& a.current_project_filter == b.current_project_filter
    &&& a.deletion_preference == b.deletion_preference
}

/// Every field but the filtered list and its cursor is the same.
pub open spec fn same_besides_list(a: App, b: App) -> bool {
    same_core(a, b) && a.status_message == b.status_message
}

pub open spec fn status_is(a: App, msg: Seq<char>) -> bool {
    a.status_message is Some && a.status_message->0@ == msg
}

impl App {
    /// A session at Home over no notes, with the given settings; the
    /// prompt style cursor starts at the configured style.
    pub fn new(config: Config, ai_available: bool) -> (r: App)
        ensures
            r.mode == AppMode::Home,
            r.editor_mode == EditorMode::Command,
            r.all_notes@.len() == 0,
            r.notes@.len() == 0,
            r.ai_available == ai_available,
            r.config == config,
            r.ai_state == AiState::Idle,
            !r.rewrite_pending,
            r.deletion_preference == DeletionType::Soft,
            r.prompt_style_index < PROMPT_STYLE_COUNT,
            (exists|i: int| 0 <= i < 7 && style_key(i) == config.ai_prompt_style@) ==> style_key(
                r.prompt_style_index as int,
            ) == config.ai_prompt_style@ && forall|i: int|
                0 <= i < r.prompt_style_index ==> style_key(i) != config.ai_prompt_style@,
            !(exists|i: int| 0 <= i < 7 && style_key(i) == config.ai_prompt_style@) ==> r.prompt_style_index == 0,
            !r.should_quit,
    {
        let styles = get_prompt_styles();
        let mut idx: usize = 0;
        let mut k: usize = 0;
        let mut found = false;
        while k < styles.len()
            invariant
                styles@.len() == 7,
                forall|i: int| 0 <= i < 7 ==> (#[trigger] styles@[i]).0@ == style_key(i),
                0 <= k <= 7,
                idx < 7,
                found ==> idx < k && style_key(idx as int) == config.ai_prompt_style@ && forall|i: int|
                    0 <= i < idx ==> style_key(i) != config.ai_prompt_style@,
                !found ==> idx == 0 && forall|i: int| 0 <= i < k ==> style_key(i) != config.ai_prompt_style@,
            decreases 7 - k,
        {
            if !found && same_chars(styles[k].0, config.ai_prompt_style.as_str()) {
                idx = k;
                found = true;
            }
            k = k + 1;
        }
        App {
            mode: AppMode::Home,
            editor_mode: EditorMode::Command,
            notes: Vec::new(),
            all_notes: Vec::new(),
            selected_note: 0,
            list_selection: Some(0),
            content_text: String::new(),
            title_input: String::new(),
            active_field: ActiveField::Content,
            should_quit: false,
            status_message: None,
            extracted_tags: Vec::new(),
            extracted_projects: Vec::new(),
            config,
            ai_available,
            ai_state: AiState::Idle,
            api_key_input: String::new(),
            rewrite_pending: false,
            command_pending: false,
            prompt_style_index: idx,
            custom_prompt_input: String::new(),
            search_input: String::new(),
            tag_filter_input: String::new(),
            project_filter_input: String::new(),
            current_search: None,
            current_tag_filter: None,
            current_project_filter: None,
            deletion_preference: DeletionType::Soft,
        }
    }

    /// Recomputes the filtered list from all notes and the three filters,
    /// and puts the cursor on its first note (no cursor when it is empty).
    pub fn apply_filters(&mut self)
        ensures
            notes_view(final(self).notes@) == filtered(notes_view(old(self).all_notes@), app_filters(*old(self))),
            same_besides_list(*final(self), *old(self)),
            final(self).selected_note == 0,
            final(self).list_selection == (if final(self).notes@.len() > 0 { Some(0usize) } else { None }),
    {
        let ghost all = notes_view(self.all_notes@);
        let ghost p = visible_fn(app_filters(*self));
        let mut out: Vec<Note> = Vec::new();
        let mut i: usize = 0;
        while i < self.all_notes.len()
            invariant
                0 <= i <= self.all_notes@.len(),
                all == notes_view(self.all_notes@),
                p == visible_fn(app_filters(*self)),
                notes_view(out@) == all.subrange(0, i as int).filter(p),
            decreases self.all_notes@.len() - i,
        {
            let show = note_visible(&self.all_notes[i], &self.current_search, &self.current_tag_filter, &self.current_project_filter);
            proof {
                reveal(Seq::filter);
                assert(all.subrange(0, i + 1).drop_last() =~= all.subrange(0, i as int));
                assert(all.subrange(0, i + 1).last() == self.all_notes@[i as int]@);
            }
            if show {
                let ghost before = notes_view(out@);
                out.push(self.all_notes[i].duplicate());
                assert(notes_view(out@) =~= before.push(self.all_notes@[i as int]@));
            }
            i = i + 1;
        }
        assert(all.subrange(0, i as int) =~= all);
        self.notes = out;
        self.selected_note = 0;
        if self.notes.len() > 0 {
            self.list_selection = Some(0);
        } else {
            self.list_selection = None;
        }
    }

    /// Replaces all notes with a fresh load (ordered newest first) and
    /// refilters.
    pub fn load_notes(&mut self, loaded: Vec<Note>)
        ensures
            notes_view(final(self).all_notes@) == newest_first(notes_view(loaded@)),
            notes_view(final(self).notes@) == filtered(notes_view(final(self).all_notes@), app_filters(*old(self))),
            app_filters(*final(self)) == app_filters(*old(self)),
            final(self).mode == old(self).mode,
            final(self).status_message == old(self).status_message,
            final(self).selected_note == 0,
    {
        self.all_notes = sort_newest_first(loaded);
        self.apply_filters();
    }

    /// Clears the three filters and their inputs and refilters.
    pub fn clear_filters(&mut self)
        ensures
            final(self).current_search is None,
            final(self).current_tag_filter is None,
            final(self).current_project_filter is None,
            final(self).search_input@.len() == 0,
            final(self).tag_filter_input@.len() == 0,
            final(self).project_filter_input@.len() == 0,
            notes_view(final(self).notes@) == filtered(notes_view(old(self).all_notes@), app_filters(*final(self))),
            final(self).all_notes == old(self).all_notes,
            status_is(*final(self), "filters cleared"@),
    {
        self.current_search = None;
        self.current_tag_filter = None;
        self.current_project_filter = None;
        self.search_input = String::new();
        self.tag_filter_input = String::new();
        self.project_filter_input = String::new();
        self.apply_filters();
        self.set_status("filters cleared");
    }

    /// Moves the cursor to the next note, wrapping around.
    pub fn next_note(&mut self)
        ensures
            old(self).notes@.len() == 0 ==> final(self).selected_note == old(self).selected_note,
            old(self).notes@.len() > 0 ==> final(self).selected_note == (if old(self).selected_note + 1
                >= old(self).notes@.len() {
                0
            } else {
                old(self).selected_note + 1
            }) && final(self).list_selection == Some(final(self).selected_note),
            final(self).notes == old(self).notes,
            final(self).mode == old(self).mode,
    {
        if self.notes.len() > 0 {
            if self.selected_note >= self.notes.len() - 1 {
                self.selected_note = 0;
            } else {
                self.selected_note = self.selected_note + 1;
            }
            self.list_selection = Some(self.selected_note);
        }
    }

    /// Moves the cursor to the previous note, wrapping around.
    pub fn previous_note(&mut self)
        ensures
            old(self).notes@.len() == 0 ==> final(self).selected_note == old(self).selected_note,
            old(self).notes@.len() > 0 ==> final(self).selected_note == (if old(self).selected_note == 0 {
                old(self).notes@.len() - 1
            } else {
                old(self).selected_note - 1
            }) && final(self).list_selection == Some(final(self).selected_note),
            final(self).notes == old(self).notes,
            final(self).mode == old(self).mode,
    {
        if self.notes.len() > 0 {
            if self.selected_note == 0 {
                self.selected_note = self.notes.len() - 1;
            } else {
                self.selected_note = self.selected_note - 1;
            }
            self.list_selection = Some(self.selected_note);
        }
    }

    /// Flips the session-wide choice between soft and hard deletion.
    pub fn toggle_deletion_preference(&mut self)
        ensures
            *final(self) == (App {
                deletion_preference: if old(self).deletion_preference == DeletionType::Soft {
                    DeletionType::Hard
                } else {
                    DeletionType::Soft
                },
                ..*old(self)
            }),
    {
        self.deletion_preference = match self.deletion_preference {
            DeletionType::Soft => DeletionType::Hard,
            DeletionType::Hard => DeletionType::Soft,
        };
    }

    /// Asks to confirm deleting the note under the cursor, if there is one.
    pub fn confirm_delete_current_note(&mut self)
        ensures
            old(self).selected_note < old(self).notes@.len() ==> *final(self) == (App {
                mode: AppMode::DeleteConfirm { note_id: old(self).notes@[old(self).selected_note as int].id },
                active_field: ActiveField::DeleteOption,
                ..*old(self)
            }),
            old(self).selected_note >= old(self).notes@.len() ==> *final(self) == *old(self),
    {
        if self.notes.len() > 0 && self.selected_note < self.notes.len() {
            let note_id = self.notes[self.selected_note].id;
            self.mode = AppMode::DeleteConfirm { note_id };
            self.active_field = ActiveField::DeleteOption;
        }
    }

    /// Takes the editor's text as the content and re-derives the tags and
    /// projects written in it.
    pub fn set_content_text(&mut self, text: String)
        ensures
            *final(self) == (App {
                content_text: text,
                extracted_tags: final(self).extracted_tags,
                extracted_projects: final(self).extracted_projects,
                ..*old(self)
            }),
            strings_view(final(self).extracted_tags@) == marked_names(text@, '#', 0),
            strings_view(final(self).extracted_projects@) == marked_names(text@, '+', 0),
    {
        self.content_text = text;
        self.update_extracted_metadata();
    }

    /// Re-derives the tags and projects from the content.
    pub fn update_extracted_metadata(&mut self)
        ensures
            *final(self) == (App {
                extracted_tags: final(self).extracted_tags,
                extracted_projects: final(self).extracted_projects,
                ..*old(self)
            }),
            strings_view(final(self).extracted_tags@) == marked_names(old(self).content_text@, '#', 0),
            strings_view(final(self).extracted_projects@) == marked_names(old(self).content_text@, '+', 0),
    {
        self.extracted_tags = extract_tags(self.content_text.as_str());
        self.extracted_projects = extract_projects(self.content_text.as_str());
    }

    fn reset_editing(&mut self)
        ensures
            *final(self) == (App {
                content_text: final(self).content_text,
                title_input: final(self).title_input,
                extracted_tags: final(self).extracted_tags,
                extracted_projects: final(self).extracted_projects,
                ..*old(self)
            }),
            final(self).content_text@.len() == 0,
            final(self).title_input@.len() == 0,
            final(self).extracted_tags@.len() == 0,
            final(self).extracted_projects@.len() == 0,
    {
        self.content_text = String::new();
        self.title_input = String::new();
        self.extracted_tags = Vec::new();
        self.extracted_projects = Vec::new();
    }

    /// Opens an empty note for capture, typing into its content.
    pub fn start_new_note(&mut self) -> (e: Effect)
        ensures
            start_new_post(*old(self), *final(self), e),
    {
        self.mode = AppMode::AddNote;
        self.editor_mode = EditorMode::Insert;
        self.active_field = ActiveField::Content;
        self.reset_editing();
        Effect::ResetEditor
    }
}

/// Every field but the status message is the same.
pub open spec fn same_but_status(a: App, b: App) -> bool {
    &&& same_core(a, b)
    &&& a.notes == b.notes
    &&& a.selected_note == b.selected_note
    &&& a.list_selection == b.list_selection
}

/// Every field is the same but the status message, which is `msg`.
pub open spec fn only_status(a: App, b: App, msg: Seq<char>) -> bool {
    same_but_status(a, b) && status_is(a, msg)
}

pub open spec fn has_api_key_spec(c: Config) -> bool {
    c.openai_api_key is Some && c.openai_api_key->0@.len() > 0
}

pub open spec fn rewrite_busy_spec(a: App) -> bool {
    a.rewrite_pending || a.ai_state is Processing
}

/// `k` is the position of the first note with the given id.
pub open spec fn is_first(v: Seq<Note>, id: u128, k: int) -> bool {
    0 <= k < v.len() && v[k].id == id && forall|m: int| 0 <= m < k ==> v[m].id != id
}

pub open spec fn title_of_input(t: Seq<char>) -> Option<Seq<char>> {
    if t.len() == 0 {
        None
    } else {
        Some(t)
    }
}

/// Opening an empty draft: capture mode, typing into the content; nothing
/// else changes.
pub open spec fn start_new_post(a: App, b: App, e: Effect) -> bool {
    &&& b == App {
        mode: AppMode::AddNote,
        editor_mode: EditorMode::Insert,
        active_field: ActiveField::Content,
        content_text: b.content_text,
        title_input: b.title_input,
        extracted_tags: b.extracted_tags,
        extracted_projects: b.extracted_projects,
        ..a
    }
    &&& b.content_text@.len() == 0 && b.title_input@.len() == 0
    &&& b.extracted_tags@.len() == 0 && b.extracted_projects@.len() == 0
    &&& e == Effect::ResetEditor
}

/// Starting a rewrite of a note of the filtered list.
pub open spec fn start_rewrite_post(a: App, b: App, e: Effect, id: u128) -> bool {
    if rewrite_busy_spec(a) {
        only_status(b, a, "a rewrite is already in progress"@) && e == Effect::Nothing
    } else if !has_note(a.notes@, id) {
        b == a && e == Effect::Nothing
    } else if !a.ai_available {
        only_status(b, a, "ai client not available. please check your configuration."@) && e
            == Effect::Nothing
    } else if !has_api_key_spec(a.config) {
        only_status(b, a, "please configure your openai api key first (press 's' for settings)"@)
            && e == Effect::Nothing
    } else {
        &&& b == App {
            ai_state: AiState::Processing,
            rewrite_pending: true,
            mode: AppMode::AiRewrite { original_note_id: id, rewritten_content: None },
            ..a
        }
        &&& e matches Effect::StartRewrite(n) && forall|k: int|
            is_first(a.notes@, id, k) ==> n@ == a.notes@[k]@
    }
}

/// Starting a rewrite of the unsaved draft.
pub open spec fn start_draft_post(a: App, b: App, e: Effect, now: i64) -> bool {
    if trim_of(a.content_text@).len() == 0 {
        only_status(b, a, "cannot rewrite empty content"@) && e == Effect::Nothing
    } else if rewrite_busy_spec(a) {
        only_status(b, a, "a rewrite is already in progress"@) && e == Effect::Nothing
    } else if !a.ai_available {
        only_status(b, a, "ai client not available. please check your configuration."@) && e
            == Effect::Nothing
    } else if !has_api_key_spec(a.config) {
        only_status(b, a, "please configure your openai api key first (press 's' for settings)"@)
            && e == Effect::Nothing
    } else {
        &&& b == App {
            ai_state: AiState::Processing,
            rewrite_pending: true,
            mode: AppMode::AiRewrite { original_note_id: DRAFT_ID, rewritten_content: None },
            ..a
        }
        &&& e matches Effect::StartRewrite(n) && n@ == (NoteModel {
            id: DRAFT_ID,
            title: title_of_input(a.title_input@),
            tags: strings_view(a.extracted_tags@),
            projects: strings_view(a.extracted_projects@),
            links_to: Seq::empty(),
            created: now,
            updated: None,
            source: NoteSource::UI,
            content: a.content_text@,
        })
    }
}

/// Asking to store the draft as a new note.
pub open spec fn save_note_post(a: App, b: App, e: Effect) -> bool {
    if trim_of(a.content_text@).len() == 0 {
        only_status(b, a, "cannot save empty note"@) && e == Effect::Nothing
    } else {
        b == a && (e matches Effect::SaveNewNote { content, title } && content == a.content_text
            && opt_chars(title) == title_of_input(a.title_input@))
    }
}

/// Asking to write the note being edited.
pub open spec fn save_edited_post(a: App, b: App, e: Effect, now: i64) -> bool {
    match a.mode {
        AppMode::EditNote(id) => if trim_of(a.content_text@).len() == 0 {
            only_status(b, a, "cannot save empty note"@) && e == Effect::Nothing
        } else if has_note(a.notes@, id) {
            b == a && (e matches Effect::WriteEditedNote(n) && forall|k: int|
                is_first(a.notes@, id, k) ==> n@ == (NoteModel {
                    content: a.content_text@,
                    title: title_of_input(a.title_input@),
                    updated: Some(now),
                    tags: marked_names(a.content_text@, '#', 0),
                    projects: marked_names(a.content_text@, '+', 0),
                    ..a.notes@[k]@
                }))
        } else {
            b == a && e == Effect::Nothing
        },
        _ => b == a && e == Effect::Nothing,
    }
}

/// Taking the rewritten text.
pub open spec fn accept_post(a: App, b: App, e: Effect, now: i64) -> bool {
    match a.mode {
        AppMode::AiRewrite { original_note_id, rewritten_content: Some(text) } => if original_note_id
            == DRAFT_ID {
            &&& b == App {
                content_text: text,
                extracted_tags: b.extracted_tags,
                extracted_projects: b.extracted_projects,
                status_message: b.status_message,
                mode: AppMode::AddNote,
                ai_state: AiState::Idle,
                ..a
            }
            &&& strings_view(b.extracted_tags@) == marked_names(text@, '#', 0)
            &&& strings_view(b.extracted_projects@) == marked_names(text@, '+', 0)
            &&& status_is(b, "draft updated with ai rewrite"@)
            &&& e == Effect::LoadEditor(text)
        } else if has_note(a.notes@, original_note_id) {
            b == a && (e matches Effect::WriteRewrittenNote(n) && forall|k: int|
                is_first(a.notes@, original_note_id, k) ==> n@ == (NoteModel {
                    content: text@,
                    tags: marked_names(text@, '#', 0),
                    projects: marked_names(text@, '+', 0),
                    updated: Some(now),
                    ..a.notes@[k]@
                }))
        } else {
            b == a && e == Effect::Nothing
        },
        _ => b == a && e == Effect::Nothing,
    }
}

/// Leaving a rewrite: back to the draft or the note, AI idle, the running
/// rewrite dropped.
pub open spec fn reject_post(a: App, b: App, e: Effect) -> bool {
    match a.mode {
        AppMode::AiRewrite { original_note_id, .. } => {
            &&& b == App {
                mode: if original_note_id == DRAFT_ID {
                    AppMode::AddNote
                } else {
                    AppMode::ViewNote(original_note_id)
                },
                ai_state: AiState::Idle,
                rewrite_pending: false,
                status_message: b.status_message,
                ..a
            }
            &&& status_is(b, "ai rewrite rejected"@)
            &&& e == Effect::DropRewrite
        },
        _ => b == a && e == Effect::Nothing,
    }
}

/// Soft deletion of the first note with the id in all notes: a tagged,
/// stamped copy to write when it is not yet tagged; otherwise straight
/// back to Home with nothing else changed.
pub open spec fn soft_delete_post(a: App, b: App, e: Effect, id: u128, now: i64) -> bool {
    &&& forall|k: int|
        #![trigger is_first(a.all_notes@, id, k)]
        is_first(a.all_notes@, id, k) && !a.all_notes@[k]@.tags.contains(deleted_tag()) ==> b == a
            && (e matches Effect::WriteSoftDeleted(n) && n@ == (NoteModel {
            tags: a.all_notes@[k]@.tags.push(deleted_tag()),
            updated: Some(now),
            ..a.all_notes@[k]@
        }))
    &&& !(exists|k: int|
        #![trigger is_first(a.all_notes@, id, k)]
        is_first(a.all_notes@, id, k) && !a.all_notes@[k]@.tags.contains(deleted_tag())) ==> b == (App {
        mode: AppMode::Home,
        ..a
    }) && e == Effect::Nothing
}

/// Opening a note of the filtered list for editing.
pub open spec fn start_edit_post(a: App, b: App, e: Effect, id: u128) -> bool {
    if !has_note(a.notes@, id) {
        b == a && e == Effect::Nothing
    } else {
        forall|k: int|
            #![trigger is_first(a.notes@, id, k)]
            is_first(a.notes@, id, k) ==> {
                &&& b == App {
                    mode: AppMode::EditNote(id),
                    editor_mode: EditorMode::Insert,
                    active_field: ActiveField::Content,
                    content_text: a.notes@[k].content,
                    title_input: b.title_input,
                    extracted_tags: b.extracted_tags,
                    extracted_projects: b.extracted_projects,
                    status_message: b.status_message,
                    ..a
                }
                &&& b.title_input@ == match a.notes@[k]@.title {
                    Some(t) => t,
                    None => Seq::<char>::empty(),
                }
                &&& strings_view(b.extracted_tags@) == marked_names(a.notes@[k]@.content, '#', 0)
                &&& strings_view(b.extracted_projects@) == marked_names(a.notes@[k]@.content, '+', 0)
                &&& status_is(b, "editing note"@)
                &&& e == Effect::LoadEditor(a.notes@[k].content)
            }
    }
}

/// What a key does in the draft editor (`editing` when a saved note is
/// being edited).
pub open spec fn editor_post(a: App, b: App, e: Effect, key: Key, now: i64, editing: bool) -> bool {
    match a.editor_mode {
        EditorMode::Insert => if key == Key::Esc {
            b == App { editor_mode: EditorMode::Command, ..a } && e == Effect::Nothing
        } else if a.active_field == ActiveField::Content {
            b == a && e == Effect::EditContent
        } else if a.active_field == ActiveField::Title {
            &&& e == Effect::Nothing
            &&& b == App { title_input: b.title_input, ..a }
            &&& match key {
                Key::Char(c) => b.title_input@ == a.title_input@.push(c),
                Key::Backspace => b.title_input@ == (if a.title_input@.len() > 0 {
                    a.title_input@.drop_last()
                } else {
                    a.title_input@
                }),
                _ => b.title_input == a.title_input,
            }
        } else {
            b == a && e == Effect::Nothing
        },
        EditorMode::Command => if key == Key::Char('q') || key == Key::Esc {
            &&& b == App {
                mode: AppMode::Home,
                editor_mode: EditorMode::Command,
                content_text: b.content_text,
                title_input: b.title_input,
                extracted_tags: b.extracted_tags,
                extracted_projects: b.extracted_projects,
                ..a
            }
            &&& b.content_text@.len() == 0 && b.title_input@.len() == 0
            &&& b.extracted_tags@.len() == 0 && b.extracted_projects@.len() == 0
            &&& e == Effect::ResetEditor
        } else if key == Key::Char('s') {
            if editing {
                save_edited_post(a, b, e, now)
            } else {
                save_note_post(a, b, e)
            }
        } else if key == Key::Char('r') {
            if editing {
                match a.mode {
                    AppMode::EditNote(id) => start_rewrite_post(a, b, e, id),
                    _ => b == a && e == Effect::Nothing,
                }
            } else {
                start_draft_post(a, b, e, now)
            }
        } else if key == Key::Char('i') {
            b == App { editor_mode: EditorMode::Insert, ..a } && e == Effect::Nothing
        } else if key == Key::Char('t') {
            b == App { active_field: ActiveField::Title, editor_mode: EditorMode::Insert, ..a } && e
                == Effect::Nothing
        } else if key == Key::Char('c') {
            b == App { active_field: ActiveField::Content, editor_mode: EditorMode::Insert, ..a } && e
                == Effect::Nothing
        } else {
            b == a && e == Effect::Nothing
        },
    }
}

pub open spec fn next_style(i: usize) -> usize {
    if i + 1 >= PROMPT_STYLE_COUNT {
        0
    } else {
        (i + 1) as usize
    }
}

pub open spec fn previous_style(i: usize) -> usize {
    if i == 0 || i >= PROMPT_STYLE_COUNT {
        (PROMPT_STYLE_COUNT - 1) as usize
    } else {
        (i - 1) as usize
    }
}

/// The settings after the selected prompt style is taken (a cursor out
/// of range counts as the first style).
pub open spec fn prompt_settings_post(a: App, c: Config) -> bool {
    let idx: int = if a.prompt_style_index < PROMPT_STYLE_COUNT {
        a.prompt_style_index as int
    } else {
        0
    };
    &&& c.ai_prompt_style@ == style_key(idx)
    &&& style_key(idx) == "custom"@ ==> (if trim_of(a.custom_prompt_input@).len() > 0 {
        c.custom_ai_prompt == Some(a.custom_prompt_input)
    } else {
        c.custom_ai_prompt == a.config.custom_ai_prompt
    })
    &&& style_key(idx) != "custom"@ ==> c.custom_ai_prompt is None
}

/// The result of Backspace on a text buffer.
pub open spec fn erased(t: Seq<char>) -> Seq<char> {
    if t.len() > 0 {
        t.drop_last()
    } else {
        t
    }
}

proof fn lemma_first_unique(v: Seq<Note>, id: u128, k: int)
    requires
        is_first(v, id, k),
    ensures
        forall|j: int| #[trigger] is_first(v, id, j) ==> j == k,
{
    assert forall|j: int| #[trigger] is_first(v, id, j) implies j == k by {
        if j < k {
            assert(v[j].id != id);
        } else if j > k {
            assert(v[k].id != id);
        }
    }
}

/// The position of the first note with the given id.
pub fn find_note(v: &Vec<Note>, id: u128) -> (r: Option<usize>)
    ensures
        r matches Some(k) ==> k < v@.len() && v@[k as int].id == id && forall|m: int|
            0 <= m < k ==> v@[m].id != id,
        r is None ==> forall|m: int| 0 <= m < v@.len() ==> v@[m].id != id,
{
    let mut i: usize = 0;
    while i < v.len()
        invariant
            0 <= i <= v@.len(),
            forall|m: int| 0 <= m < i ==> v@[m].id != id,
        decreases v@.len() - i,
    {
        if v[i].id == id {
            return Some(i);
        }
        i = i + 1;
    }
    None
}

pub open spec fn has_note(v: Seq<Note>, id: u128) -> bool {
    exists|m: int| 0 <= m < v.len() && v[m].id == id
}

fn prefixed(prefix: &str, e: &str) -> (r: String)
    ensures
        r@ == prefix@ + e@,
{
    let mut r = String::new();
    crate::text::push_str_chars(&mut r, prefix);
    crate::text::push_str_chars(&mut r, e);
    r
}

/// The note under rewrite, or the nil id for an unsaved draft.
pub const DRAFT_ID: u128 = 0;

impl App {
    /// Shows `msg` as the status message.
    pub fn set_status(&mut self, msg: &str)
        ensures
            only_status(*final(self), *old(self), msg@),
    {
        self.status_message = Some(String::from_str(msg));
    }

    fn rewrite_busy(&self) -> (r: bool)
        ensures
            r == (self.rewrite_pending || self.ai_state is Processing),
    {
        if self.rewrite_pending {
            return true;
        }
        match self.ai_state {
            AiState::Processing => true,
            _ => false,
        }
    }

    /// Starts rewriting a note of the filtered list in the background.
    /// Refused, with only a status message, while another rewrite is
    /// running, when no AI client is available or when no key is set; does
    /// nothing when the note is not in the list.
    pub fn start_ai_rewrite(&mut self, note_id: u128) -> (e: Effect)
        ensures
            start_rewrite_post(*old(self), *final(self), e, note_id),
    {
        if self.rewrite_busy() {
            self.set_status("a rewrite is already in progress");
            return Effect::Nothing;
        }
        let idx = match find_note(&self.notes, note_id) {
            Some(k) => k,
            None => {
                return Effect::Nothing;
            },
        };
        if !self.ai_available {
            self.set_status("ai client not available. please check your configuration.");
            return Effect::Nothing;
        }
        if !self.config.has_api_key() {
            self.set_status("please configure your openai api key first (press 's' for settings)");
            return Effect::Nothing;
        }
        let note = self.notes[idx].duplicate();
        self.ai_state = AiState::Processing;
        self.mode = AppMode::AiRewrite { original_note_id: note_id, rewritten_content: None };
        self.rewrite_pending = true;
        Effect::StartRewrite(note)
    }

    /// Starts rewriting the unsaved draft in the background, under the nil
    /// id. Refused like `start_ai_rewrite`, and also when the draft is blank.
    pub fn start_ai_rewrite_draft(&mut self, now: i64) -> (e: Effect)
        ensures
            start_draft_post(*old(self), *final(self), e, now),
    {
        let trimmed = trim_str(self.content_text.as_str());
        if trimmed.as_str().is_empty() {
            self.set_status("cannot rewrite empty content");
            return Effect::Nothing;
        }
        if self.rewrite_busy() {
            self.set_status("a rewrite is already in progress");
            return Effect::Nothing;
        }
        if !self.ai_available {
            self.set_status("ai client not available. please check your configuration.");
            return Effect::Nothing;
        }
        if !self.config.has_api_key() {
            self.set_status("please configure your openai api key first (press 's' for settings)");
            return Effect::Nothing;
        }
        let title = if self.title_input.as_str().is_empty() {
            None
        } else {
            Some(self.title_input.clone())
        };
        let draft = Note {
            id: DRAFT_ID,
            title,
            tags: crate::note::copy_strings(&self.extracted_tags),
            projects: crate::note::copy_strings(&self.extracted_projects),
            links_to: Vec::new(),
            created: now,
            updated: None,
            source: NoteSource::UI,
            content: self.content_text.clone(),
        };
        self.ai_state = AiState::Processing;
        self.mode = AppMode::AiRewrite { original_note_id: DRAFT_ID, rewritten_content: None };
        self.rewrite_pending = true;
        Effect::StartRewrite(draft)
    }

    /// Takes the outcome of the running rewrite, if one has arrived; it is
    /// taken at most once. Success carries the text into the rewrite mode;
    /// failure records the message.
    pub fn check_ai_result(&mut self, result: Option<Result<String, String>>)
        ensures
            !old(self).rewrite_pending || result is None ==> *final(self) == *old(self),
            old(self).rewrite_pending && result is Some ==> {
                &&& !final(self).rewrite_pending
                &&& match result->0 {
                    Ok(text) => match old(self).mode {
                        AppMode::AiRewrite { original_note_id, .. } => final(self).mode == (AppMode::AiRewrite {
                            original_note_id,
                            rewritten_content: Some(text),
                        }) && final(self).ai_state == AiState::Success,
                        _ => final(self).mode == old(self).mode && final(self).ai_state == old(self).ai_state,
                    },
                    Err(msg) => final(self).ai_state == AiState::Error(msg) && final(self).mode == old(self).mode,
                }
                &&& final(self).notes == old(self).notes
                &&& final(self).all_notes == old(self).all_notes
            },
    {
        if !self.rewrite_pending {
            return;
        }
        match result {
            None => {},
            Some(Ok(text)) => {
                let id = match &self.mode {
                    AppMode::AiRewrite { original_note_id, .. } => Some(*original_note_id),
                    _ => None,
                };
                if let Some(original_note_id) = id {
                    self.mode = AppMode::AiRewrite { original_note_id, rewritten_content: Some(text) };
                    self.ai_state = AiState::Success;
                }
                self.rewrite_pending = false;
            },
            Some(Err(msg)) => {
                self.ai_state = AiState::Error(msg);
                self.rewrite_pending = false;
            },
        }
    }

    /// Leaves the rewrite: back to the draft or to the note, AI idle, and
    /// the running rewrite (if any) is dropped.
    pub fn reject_ai_rewrite(&mut self) -> (e: Effect)
        ensures
            reject_post(*old(self), *final(self), e),
    {
        let id = match &self.mode {
            AppMode::AiRewrite { original_note_id, .. } => *original_note_id,
            _ => {
                return Effect::Nothing;
            },
        };
        if id == DRAFT_ID {
            self.mode = AppMode::AddNote;
        } else {
            self.mode = AppMode::ViewNote(id);
        }
        self.ai_state = AiState::Idle;
        self.rewrite_pending = false;
        self.set_status("ai rewrite rejected");
        Effect::DropRewrite
    }

    /// Takes the rewritten text: into the draft (back to capture), or into
    /// a copy of the saved note to be written.
    pub fn accept_ai_rewrite(&mut self, now: i64) -> (e: Effect)
        ensures
            accept_post(*old(self), *final(self), e, now),
    {
        let (id, text) = match &self.mode {
            AppMode::AiRewrite { original_note_id, rewritten_content: Some(t) } => (*original_note_id, t.clone()),
            _ => {
                return Effect::Nothing;
            },
        };
        if id == DRAFT_ID {
            self.set_content_text(text.clone());
            self.set_status("draft updated with ai rewrite");
            self.mode = AppMode::AddNote;
            self.ai_state = AiState::Idle;
            return Effect::LoadEditor(text);
        }
        match find_note(&self.notes, id) {
            Some(k) => {
                let mut n = self.notes[k].duplicate();
                n.tags = extract_tags(text.as_str());
                n.projects = extract_projects(text.as_str());
                n.content = text;
                n.updated = Some(now);
                proof {
                    lemma_first_unique(self.notes@, id, k as int);
                }
                Effect::WriteRewrittenNote(n)
            },
            None => Effect::Nothing,
        }
    }

    /// After writing a rewritten note: on success the fresh notes are taken
    /// and the note is shown; on failure the error is reported.
    pub fn finish_rewrite_save(&mut self, outcome: Result<Vec<Note>, String>)
        ensures
            match old(self).mode {
                AppMode::AiRewrite { original_note_id, .. } => match outcome {
                    Ok(loaded) => {
                        &&& notes_view(final(self).all_notes@) == newest_first(notes_view(loaded@))
                        &&& final(self).mode == AppMode::ViewNote(original_note_id)
                        &&& final(self).ai_state == AiState::Idle
                        &&& status_is(*final(self), "note updated with ai rewrite"@)
                    },
                    Err(msg) => only_status(*final(self), *old(self), "error saving note: "@ + msg@),
                },
                _ => *final(self) == *old(self),
            },
    {
        let id = match &self.mode {
            AppMode::AiRewrite { original_note_id, .. } => *original_note_id,
            _ => {
                return;
            },
        };
        match outcome {
            Ok(loaded) => {
                self.load_notes(loaded);
                self.set_status("note updated with ai rewrite");
                self.mode = AppMode::ViewNote(id);
                self.ai_state = AiState::Idle;
            },
            Err(msg) => {
                self.status_message = Some(prefixed("error saving note: ", msg.as_str()));
            },
        }
    }
}

fn push_deleted_tag(tags: &mut Vec<String>)
    ensures
        strings_view(final(tags)@) == strings_view(old(tags)@).push(deleted_tag()),
{
    let d = deleted_tag_string();
    tags.push(d);
    assert(strings_view(final(tags)@) =~= strings_view(old(tags)@).push(deleted_tag()));
}

impl App {
    /// Soft deletion: a copy of the note with the reserved tag appended and
    /// the time stamped, to be written back. A note that is missing or
    /// already tagged leads straight back to Home.
    pub fn soft_delete_note(&mut self, note_id: u128, now: i64) -> (e: Effect)
        ensures
            soft_delete_post(*old(self), *final(self), e, note_id, now),
    {
        match find_note(&self.all_notes, note_id) {
            Some(k) => {
                proof {
                    lemma_first_unique(self.all_notes@, note_id, k as int);
                }
                if !has_deleted_tag(&self.all_notes[k]) {
                    let mut n = self.all_notes[k].duplicate();
                    push_deleted_tag(&mut n.tags);
                    n.updated = Some(now);
                    assert(n@ == (NoteModel {
                        tags: self.all_notes@[k as int]@.tags.push(deleted_tag()),
                        updated: Some(now),
                        ..self.all_notes@[k as int]@
                    }));
                    assert(is_first(self.all_notes@, note_id, k as int));
                    return Effect::WriteSoftDeleted(n);
                }
            },
            None => {},
        }
        self.mode = AppMode::Home;
        Effect::Nothing
    }

    /// After writing a soft-deleted note: back to Home, with the fresh
    /// notes on success and the error otherwise.
    pub fn finish_soft_delete(&mut self, outcome: Result<Vec<Note>, String>)
        ensures
            final(self).mode == AppMode::Home,
            match outcome {
                Ok(loaded) => notes_view(final(self).all_notes@) == newest_first(notes_view(loaded@))
                    && status_is(*final(self), "note moved to trash (soft delete)"@),
                Err(msg) => status_is(*final(self), "error saving note: "@ + msg@)
                    && final(self).all_notes == old(self).all_notes,
            },
    {
        match outcome {
            Ok(loaded) => {
                self.load_notes(loaded);
                self.set_status("note moved to trash (soft delete)");
            },
            Err(msg) => {
                self.status_message = Some(prefixed("error saving note: ", msg.as_str()));
            },
        }
        self.mode = AppMode::Home;
    }

    /// Hard deletion: asks for the note's file to be removed.
    pub fn hard_delete_note(&mut self, note_id: u128) -> (e: Effect)
        ensures
            e == Effect::RemoveNote(note_id),
            *final(self) == *old(self),
    {
        Effect::RemoveNote(note_id)
    }

    /// After removing a note's file: back to Home, with the fresh notes on
    /// success and the error otherwise.
    pub fn finish_hard_delete(&mut self, outcome: Result<Vec<Note>, String>)
        ensures
            final(self).mode == AppMode::Home,
            match outcome {
                Ok(loaded) => notes_view(final(self).all_notes@) == newest_first(notes_view(loaded@))
                    && status_is(*final(self), "note permanently deleted"@),
                Err(msg) => status_is(*final(self), "error deleting note: "@ + msg@)
                    && final(self).all_notes == old(self).all_notes,
            },
    {
        match outcome {
            Ok(loaded) => {
                self.load_notes(loaded);
                self.set_status("note permanently deleted");
            },
            Err(msg) => {
                self.status_message = Some(prefixed("error deleting note: ", msg.as_str()));
            },
        }
        self.mode = AppMode::Home;
    }

    /// Asks to store the draft as a new note, unless it is blank.
    pub fn save_note(&mut self) -> (e: Effect)
        ensures
            save_note_post(*old(self), *final(self), e),
    {
        let trimmed = trim_str(self.content_text.as_str());
        if trimmed.as_str().is_empty() {
            self.set_status("cannot save empty note");
            return Effect::Nothing;
        }
        let title = if self.title_input.as_str().is_empty() {
            None
        } else {
            Some(self.title_input.clone())
        };
        Effect::SaveNewNote { content: self.content_text.clone(), title }
    }

    /// After storing a new note: on success the fresh notes are taken, the
    /// draft is emptied and the session returns Home.
    pub fn finish_save_note(&mut self, outcome: Result<Vec<Note>, String>) -> (e: Effect)
        ensures
            match outcome {
                Ok(loaded) => {
                    &&& notes_view(final(self).all_notes@) == newest_first(notes_view(loaded@))
                    &&& final(self).mode == AppMode::Home
                    &&& final(self).editor_mode == EditorMode::Command
                    &&& final(self).content_text@.len() == 0
                    &&& final(self).title_input@.len() == 0
                    &&& final(self).extracted_tags@.len() == 0
                    &&& final(self).extracted_projects@.len() == 0
                    &&& status_is(*final(self), "note saved successfully"@)
                    &&& e == Effect::ResetEditor
                },
                Err(msg) => only_status(*final(self), *old(self), "error saving note: "@ + msg@)
                    && e == Effect::Nothing,
            },
    {
        match outcome {
            Ok(loaded) => {
                self.set_status("note saved successfully");
                self.load_notes(loaded);
                self.mode = AppMode::Home;
                self.editor_mode = EditorMode::Command;
                self.reset_editing();
                Effect::ResetEditor
            },
            Err(msg) => {
                self.status_message = Some(prefixed("error saving note: ", msg.as_str()));
                Effect::Nothing
            },
        }
    }

    /// Opens a note of the filtered list for editing, typing into its
    /// content.
    pub fn start_edit_note(&mut self, note_id: u128) -> (e: Effect)
        ensures
            start_edit_post(*old(self), *final(self), e, note_id),
    {
        match find_note(&self.notes, note_id) {
            Some(k) => {
                self.mode = AppMode::EditNote(note_id);
                self.editor_mode = EditorMode::Insert;
                self.active_field = ActiveField::Content;
                let content = self.notes[k].content.clone();
                self.title_input = match &self.notes[k].title {
                    Some(t) => t.clone(),
                    None => String::new(),
                };
                let ghost m = k as int;
                let ghost before = self.notes@;
                self.set_content_text(content.clone());
                self.set_status("editing note");
                assert(self.notes@ == before);
                assert(self.notes@[m].id == note_id);
                assert(self.content_text@ == before[m]@.content);
                Effect::LoadEditor(content)
            },
            None => Effect::Nothing,
        }
    }

    /// Asks to write the note being edited with the draft's content and
    /// title, a fresh time stamp, and tags and projects re-derived from the
    /// content. A blank draft is refused.
    pub fn save_edited_note(&mut self, now: i64) -> (e: Effect)
        ensures
            save_edited_post(*old(self), *final(self), e, now),
    {
        let id = match &self.mode {
            AppMode::EditNote(id) => *id,
            _ => {
                return Effect::Nothing;
            },
        };
        let trimmed = trim_str(self.content_text.as_str());
        if trimmed.as_str().is_empty() {
            self.set_status("cannot save empty note");
            return Effect::Nothing;
        }
        match find_note(&self.notes, id) {
            Some(k) => {
                let mut n = self.notes[k].duplicate();
                n.content = self.content_text.clone();
                n.title = if self.title_input.as_str().is_empty() {
                    None
                } else {
                    Some(self.title_input.clone())
                };
                n.updated = Some(now);
                n.tags = extract_tags(self.content_text.as_str());
                n.projects = extract_projects(self.content_text.as_str());
                Effect::WriteEditedNote(n)
            },
            None => Effect::Nothing,
        }
    }

    /// After writing an edited note: on success the fresh notes are taken
    /// and the note is shown.
    pub fn finish_edit_save(&mut self, outcome: Result<Vec<Note>, String>) -> (e: Effect)
        ensures
            match old(self).mode {
                AppMode::EditNote(id) => match outcome {
                    Ok(loaded) => {
                        &&& notes_view(final(self).all_notes@) == newest_first(notes_view(loaded@))
                        &&& final(self).mode == AppMode::ViewNote(id)
                        &&& final(self).editor_mode == EditorMode::Command
                        &&& final(self).content_text@.len() == 0
                        &&& final(self).title_input@.len() == 0
                        &&& final(self).extracted_tags@.len() == 0
                        &&& final(self).extracted_projects@.len() == 0
                        &&& status_is(*final(self), "note updated successfully"@)
                        &&& e == Effect::ResetEditor
                    },
                    Err(msg) => only_status(*final(self), *old(self), "error saving note: "@ + msg@)
                        && e == Effect::Nothing,
                },
                _ => *final(self) == *old(self) && e == Effect::Nothing,
            },
    {
        let id = match &self.mode {
            AppMode::EditNote(id) => *id,
            _ => {
                return Effect::Nothing;
            },
        };
        match outcome {
            Ok(loaded) => {
                self.set_status("note updated successfully");
                self.load_notes(loaded);
                self.mode = AppMode::ViewNote(id);
                self.editor_mode = EditorMode::Command;
                self.reset_editing();
                Effect::ResetEditor
            },
            Err(msg) => {
                self.status_message = Some(prefixed("error saving note: ", msg.as_str()));
                Effect::Nothing
            },
        }
    }

    /// Moves the prompt style cursor down, wrapping around.
    pub fn next_prompt_style(&mut self)
        ensures
            *final(self) == (App { prompt_style_index: next_style(old(self).prompt_style_index), ..*old(self) }),
    {
        if self.prompt_style_index >= PROMPT_STYLE_COUNT - 1 {
            self.prompt_style_index = 0;
        } else {
            self.prompt_style_index = self.prompt_style_index + 1;
        }
    }

    /// Moves the prompt style cursor up, wrapping around.
    pub fn previous_prompt_style(&mut self)
        ensures
            *final(self) == (App {
                prompt_style_index: previous_style(old(self).prompt_style_index),
                ..*old(self)
            }),
    {
        if self.prompt_style_index == 0 || self.prompt_style_index >= PROMPT_STYLE_COUNT {
            self.prompt_style_index = PROMPT_STYLE_COUNT - 1;
        } else {
            self.prompt_style_index = self.prompt_style_index - 1;
        }
    }

    /// Takes the selected prompt style into the settings (a cursor out of
    /// range counts as the first style): the custom style keeps the typed
    /// instructions when there are any; any other style clears them.
    pub fn save_prompt_settings(&mut self)
        ensures
            *final(self) == (App { config: final(self).config, ..*old(self) }),
            final(self).config.openai_api_key == old(self).config.openai_api_key,
            final(self).config.ai_enabled == old(self).config.ai_enabled,
            prompt_settings_post(*old(self), final(self).config),
    {
        let styles = get_prompt_styles();
        let idx = if self.prompt_style_index < PROMPT_STYLE_COUNT {
            self.prompt_style_index
        } else {
            0
        };
        let style = styles[idx].0;
        self.config.set_prompt_style(String::from_str(style));
        if same_chars(style, "custom") {
            let trimmed = trim_str(self.custom_prompt_input.as_str());
            if !trimmed.as_str().is_empty() {
                self.config.set_custom_prompt(Some(self.custom_prompt_input.clone()));
            }
        } else {
            self.config.set_custom_prompt(None);
        }
    }

    /// Stores a new key in the settings and reports it saved; the caller
    /// persists the settings.
    pub fn set_api_key(&mut self, api_key: String)
        ensures
            *final(self) == (App {
                config: final(self).config,
                status_message: final(self).status_message,
                ..*old(self)
            }),
            final(self).config.openai_api_key == Some(api_key),
            final(self).config.ai_enabled,
            final(self).config.ai_prompt_style == old(self).config.ai_prompt_style,
            final(self).config.custom_ai_prompt == old(self).config.custom_ai_prompt,
            status_is(*final(self), "api key saved successfully"@),
    {
        self.config.set_api_key(api_key);
        self.set_status("api key saved successfully");
    }

    /// After persisting the settings: on success (which reports whether an
    /// AI client is now available) back to Home with the inputs cleared; on
    /// failure the error is shown and the settings stay open.
    pub fn finish_settings_save(&mut self, outcome: Result<bool, String>)
        ensures
            match outcome {
                Ok(available) => {
                    &&& final(self).mode == AppMode::Home
                    &&& final(self).ai_available == available
                    &&& final(self).api_key_input@.len() == 0
                    &&& final(self).custom_prompt_input@.len() == 0
                    &&& final(self).status_message == old(self).status_message
                },
                Err(msg) => only_status(*final(self), *old(self), msg@),
            },
    {
        match outcome {
            Ok(available) => {
                self.ai_available = available;
                self.mode = AppMode::Home;
                self.api_key_input = String::new();
                self.custom_prompt_input = String::new();
            },
            Err(msg) => {
                self.status_message = Some(msg);
            },
        }
    }
}

impl App {
    /// Home: `q` quits, `a` starts a note, `h` help, `s` settings, `/` `t`
    /// `p` open the search, tag and project filter inputs, `d` asks to
    /// delete, `c` clears the filters, `r` reloads, arrows and `j` `k` move
    /// the cursor, Enter views the note under it.
    pub fn handle_home_input(&mut self, key: Key) -> (e: Effect)
        ensures
            key == Key::Char('q') ==> *final(self) == (App { should_quit: true, ..*old(self) }) && e
                == Effect::Nothing,
            key == Key::Char('a') ==> start_new_post(*old(self), *final(self), e),
            key == Key::Char('h') ==> *final(self) == (App { mode: AppMode::Help, ..*old(self) }) && e
                == Effect::Nothing,
            key == Key::Char('s') ==> *final(self) == (App {
                mode: AppMode::Settings,
                active_field: ActiveField::ApiKey,
                api_key_input: final(self).api_key_input,
                custom_prompt_input: final(self).custom_prompt_input,
                ..*old(self)
            }) && final(self).api_key_input@.len() == 0 && final(self).custom_prompt_input@ == match old(
                self,
            ).config.custom_ai_prompt {
                Some(c) => c@,
                None => Seq::<char>::empty(),
            } && e == Effect::Nothing,
            key == Key::Char('/') ==> *final(self) == (App {
                mode: AppMode::Search,
                active_field: ActiveField::Search,
                search_input: final(self).search_input,
                ..*old(self)
            }) && final(self).search_input@.len() == 0 && e == Effect::Nothing,
            key == Key::Char('t') ==> *final(self) == (App {
                mode: AppMode::TagFilter,
                active_field: ActiveField::TagFilter,
                tag_filter_input: final(self).tag_filter_input,
                ..*old(self)
            }) && final(self).tag_filter_input@.len() == 0 && e == Effect::Nothing,
            key == Key::Char('p') ==> *final(self) == (App {
                mode: AppMode::ProjectFilter,
                active_field: ActiveField::ProjectFilter,
                project_filter_input: final(self).project_filter_input,
                ..*old(self)
            }) && final(self).project_filter_input@.len() == 0 && e == Effect::Nothing,
            key == Key::Char('c') ==> final(self).current_search is None && final(self).current_tag_filter is None
                && final(self).current_project_filter is None && notes_view(final(self).notes@) == filtered(
                notes_view(old(self).all_notes@),
                app_filters(*final(self)),
            ) && final(self).all_notes == old(self).all_notes && status_is(*final(self), "filters cleared"@),
            key == Key::Char('r') ==> only_status(*final(self), *old(self), "notes refreshed"@) && e
                == Effect::ReloadNotes,
            key == Key::Char('d') && old(self).selected_note < old(self).notes@.len() ==> *final(self) == (App {
                mode: AppMode::DeleteConfirm { note_id: old(self).notes@[old(self).selected_note as int].id },
                active_field: ActiveField::DeleteOption,
                ..*old(self)
            }),
            key == Key::Char('d') && old(self).selected_note >= old(self).notes@.len() ==> *final(self) == *old(self),
            key == Key::Enter && old(self).selected_note < old(self).notes@.len() ==> *final(self) == (App {
                mode: AppMode::ViewNote(old(self).notes@[old(self).selected_note as int].id),
                ..*old(self)
            }) && e == Effect::Nothing,
            key == Key::Enter && old(self).selected_note >= old(self).notes@.len() ==> *final(self) == *old(self)
                && e == Effect::Nothing,
            (key == Key::Up || key == Key::Char('k') || key == Key::Down || key == Key::Char('j'))
                ==> final(self).notes == old(self).notes && final(self).mode == old(self).mode,
    {
        match key {
            Key::Char('q') => {
                self.should_quit = true;
                Effect::Nothing
            },
            Key::Char('a') => self.start_new_note(),
            Key::Char('h') => {
                self.mode = AppMode::Help;
                Effect::Nothing
            },
            Key::Char('s') => {
                self.mode = AppMode::Settings;
                self.active_field = ActiveField::ApiKey;
                self.api_key_input = String::new();
                self.custom_prompt_input = match &self.config.custom_ai_prompt {
                    Some(c) => c.clone(),
                    None => String::new(),
                };
                Effect::Nothing
            },
            Key::Char('/') => {
                self.mode = AppMode::Search;
                self.active_field = ActiveField::Search;
                self.search_input = String::new();
                Effect::Nothing
            },
            Key::Char('t') => {
                self.mode = AppMode::TagFilter;
                self.active_field = ActiveField::TagFilter;
                self.tag_filter_input = String::new();
                Effect::Nothing
            },
            Key::Char('p') => {
                self.mode = AppMode::ProjectFilter;
                self.active_field = ActiveField::ProjectFilter;
                self.project_filter_input = String::new();
                Effect::Nothing
            },
            Key::Char('d') => {
                self.confirm_delete_current_note();
                Effect::Nothing
            },
            Key::Char('c') => {
                self.clear_filters();
                Effect::Nothing
            },
            Key::Char('r') => {
                self.set_status("notes refreshed");
                Effect::ReloadNotes
            },
            Key::Char(':') => self.start_ai_command(),
            Key::Up | Key::Char('k') => {
                self.previous_note();
                Effect::Nothing
            },
            Key::Down | Key::Char('j') => {
                self.next_note();
                Effect::Nothing
            },
            Key::Enter => {
                if self.selected_note < self.notes.len() {
                    let note_id = self.notes[self.selected_note].id;
                    self.mode = AppMode::ViewNote(note_id);
                }
                Effect::Nothing
            },
            _ => Effect::Nothing,
        }
    }

    /// The editor shared by capture and editing. Insert: Esc returns to
    /// commands; in the content field the key goes to the editor; in the
    /// title field characters are typed and Backspace erases. Commands:
    /// `q` or Esc leave to Home, `s` saves, `r` rewrites, `i` inserts, `t`
    /// and `c` pick the title or the content field.
    fn handle_editor_input(&mut self, key: Key, now: i64, editing: bool) -> (e: Effect)
        ensures
            editor_post(*old(self), *final(self), e, key, now, editing),
    {
        match self.editor_mode {
            EditorMode::Insert => {
                if key == Key::Esc {
                    self.editor_mode = EditorMode::Command;
                    return Effect::Nothing;
                }
                match self.active_field {
                    ActiveField::Content => Effect::EditContent,
                    ActiveField::Title => {
                        match key {
                            Key::Char(c) => {
                                self.title_input.push(c);
                            },
                            Key::Backspace => {
                                self.title_input.pop();
                            },
                            _ => {},
                        }
                        Effect::Nothing
                    },
                    _ => Effect::Nothing,
                }
            },
            EditorMode::Command => {
                match key {
                    Key::Char('q') | Key::Esc => {
                        self.mode = AppMode::Home;
                        self.editor_mode = EditorMode::Command;
                        self.reset_editing();
                        Effect::ResetEditor
                    },
                    Key::Char('s') => {
                        if editing {
                            self.save_edited_note(now)
                        } else {
                            self.save_note()
                        }
                    },
                    Key::Char('r') => {
                        if editing {
                            let id = match &self.mode {
                                AppMode::EditNote(id) => Some(*id),
                                _ => None,
                            };
                            match id {
                                Some(id) => self.start_ai_rewrite(id),
                                None => Effect::Nothing,
                            }
                        } else {
                            self.start_ai_rewrite_draft(now)
                        }
                    },
                    Key::Char('i') => {
                        self.editor_mode = EditorMode::Insert;
                        Effect::Nothing
                    },
                    Key::Char('t') => {
                        self.active_field = ActiveField::Title;
                        self.editor_mode = EditorMode::Insert;
                        Effect::Nothing
                    },
                    Key::Char('c') => {
                        self.active_field = ActiveField::Content;
                        self.editor_mode = EditorMode::Insert;
                        Effect::Nothing
                    },
                    _ => Effect::Nothing,
                }
            },
        }
    }

    /// Keys while capturing a new note; `s` stores it, `r` rewrites the
    /// draft.
    pub fn handle_add_note_input(&mut self, key: Key, now: i64) -> (e: Effect)
        ensures
            editor_post(*old(self), *final(self), e, key, now, false),
    {
        self.handle_editor_input(key, now, false)
    }

    /// Keys while editing a saved note; `s` writes it, `r` rewrites it.
    pub fn handle_edit_note_input(&mut self, key: Key, now: i64) -> (e: Effect)
        ensures
            editor_post(*old(self), *final(self), e, key, now, true),
    {
        self.handle_editor_input(key, now, true)
    }

    /// Viewing a note: Esc or `q` go Home, `e` edits it, `r` rewrites it.
    pub fn handle_view_note_input(&mut self, key: Key) -> (e: Effect)
        ensures
            (key == Key::Esc || key == Key::Char('q')) ==> *final(self) == (App {
                mode: AppMode::Home,
                ..*old(self)
            }) && e == Effect::Nothing,
            key == Key::Char('e') ==> match old(self).mode {
                AppMode::ViewNote(id) => start_edit_post(*old(self), *final(self), e, id),
                _ => *final(self) == *old(self) && e == Effect::Nothing,
            },
            key == Key::Char('r') ==> match old(self).mode {
                AppMode::ViewNote(id) => start_rewrite_post(*old(self), *final(self), e, id),
                _ => *final(self) == *old(self) && e == Effect::Nothing,
            },
            !(key == Key::Esc || key == Key::Char('q') || key == Key::Char('e') || key == Key::Char('r'))
                ==> *final(self) == *old(self) && e == Effect::Nothing,
    {
        match key {
            Key::Esc | Key::Char('q') => {
                self.mode = AppMode::Home;
                Effect::Nothing
            },
            Key::Char('e') => {
                match &self.mode {
                    AppMode::ViewNote(id) => {
                        let id = *id;
                        self.start_edit_note(id)
                    },
                    _ => Effect::Nothing,
                }
            },
            Key::Char('r') => {
                match &self.mode {
                    AppMode::ViewNote(id) => {
                        let id = *id;
                        self.start_ai_rewrite(id)
                    },
                    _ => Effect::Nothing,
                }
            },
            _ => Effect::Nothing,
        }
    }

    /// Help: Esc or `q` go Home.
    pub fn handle_help_input(&mut self, key: Key) -> (e: Effect)
        ensures
            (key == Key::Esc || key == Key::Char('q')) ==> final(self).mode == AppMode::Home,
            !(key == Key::Esc || key == Key::Char('q')) ==> *final(self) == *old(self),
            e == Effect::Nothing,
    {
        match key {
            Key::Esc | Key::Char('q') => {
                self.mode = AppMode::Home;
            },
            _ => {},
        }
        Effect::Nothing
    }

    /// A rewrite: Esc rejects it; Enter accepts it once it has arrived.
    pub fn handle_ai_rewrite_input(&mut self, key: Key, now: i64) -> (e: Effect)
        ensures
            key == Key::Esc ==> reject_post(*old(self), *final(self), e),
            key == Key::Enter && old(self).ai_state is Success ==> accept_post(*old(self), *final(self), e, now),
            key == Key::Enter && !(old(self).ai_state is Success) ==> *final(self) == *old(self) && e
                == Effect::Nothing,
            !(key == Key::Esc || key == Key::Enter) ==> *final(self) == *old(self) && e == Effect::Nothing,
    {
        match key {
            Key::Esc => self.reject_ai_rewrite(),
            Key::Enter => {
                match self.ai_state {
                    AiState::Success => self.accept_ai_rewrite(now),
                    _ => Effect::Nothing,
                }
            },
            _ => Effect::Nothing,
        }
    }

    /// Deleting: Esc or `n` cancel, Tab and the arrows flip soft / hard,
    /// Enter or `y` delete the note in the preferred way.
    pub fn handle_delete_confirm_input(&mut self, key: Key, now: i64) -> (e: Effect)
        ensures
            match old(self).mode {
                AppMode::DeleteConfirm { note_id } => if key == Key::Esc || key == Key::Char('n') {
                    *final(self) == (App { mode: AppMode::Home, ..*old(self) }) && e == Effect::Nothing
                } else if key == Key::Tab || key == Key::Up || key == Key::Down {
                    *final(self) == (App {
                        deletion_preference: if old(self).deletion_preference == DeletionType::Soft {
                            DeletionType::Hard
                        } else {
                            DeletionType::Soft
                        },
                        ..*old(self)
                    }) && e == Effect::Nothing
                } else if key == Key::Enter || key == Key::Char('y') {
                    if old(self).deletion_preference == DeletionType::Soft {
                        soft_delete_post(*old(self), *final(self), e, note_id, now)
                    } else {
                        *final(self) == *old(self) && e == Effect::RemoveNote(note_id)
                    }
                } else {
                    *final(self) == *old(self) && e == Effect::Nothing
                },
                _ => *final(self) == *old(self) && e == Effect::Nothing,
            },
    {
        let note_id = match &self.mode {
            AppMode::DeleteConfirm { note_id } => *note_id,
            _ => {
                return Effect::Nothing;
            },
        };
        match key {
            Key::Esc | Key::Char('n') => {
                self.mode = AppMode::Home;
                Effect::Nothing
            },
            Key::Tab | Key::Up | Key::Down => {
                self.toggle_deletion_preference();
                Effect::Nothing
            },
            Key::Enter | Key::Char('y') => {
                match self.deletion_preference {
                    DeletionType::Soft => self.soft_delete_note(note_id, now),
                    DeletionType::Hard => self.hard_delete_note(note_id),
                }
            },
            _ => Effect::Nothing,
        }
    }
}

/// What Enter commits from a filter input: the trimmed buffer, or
/// nothing when it is blank.
pub open spec fn committed(input: Seq<char>) -> Option<Seq<char>> {
    if trim_of(input).len() == 0 {
        None
    } else {
        Some(trim_of(input))
    }
}

fn commit_input(input: &String) -> (r: Option<String>)
    ensures
        opt_chars(r) == committed(input@),
{
    let t = trim_str(input.as_str());
    if t.as_str().is_empty() {
        None
    } else {
        Some(t)
    }
}

impl App {
    /// Settings: Esc leaves; Enter on the key field stores a non-blank key
    /// and the prompt settings, on the prompt fields the prompt settings,
    /// and asks to persist them; Tab cycles key, style, instructions; the
    /// arrows move the style cursor; typing edits the key or instructions.
    pub fn handle_settings_input(&mut self, key: Key) -> (e: Effect)
        ensures
            key == Key::Esc ==> *final(self) == (App {
                mode: AppMode::Home,
                api_key_input: final(self).api_key_input,
                custom_prompt_input: final(self).custom_prompt_input,
                ..*old(self)
            }) && final(self).api_key_input@.len() == 0 && final(self).custom_prompt_input@.len() == 0 && e
                == Effect::Nothing,
            key == Key::Enter && old(self).active_field == ActiveField::ApiKey && trim_of(old(self).api_key_input@).len() > 0 ==> {
                &&& *final(self) == (App {
                    config: final(self).config,
                    status_message: final(self).status_message,
                    ..*old(self)
                })
                &&& final(self).config.openai_api_key == Some(old(self).api_key_input)
                &&& final(self).config.ai_enabled
                &&& prompt_settings_post(*old(self), final(self).config)
                &&& status_is(*final(self), "api key saved successfully"@)
                &&& e == Effect::SaveConfig
            },
            key == Key::Enter && old(self).active_field == ActiveField::ApiKey && trim_of(old(self).api_key_input@).len() == 0
                ==> *final(self) == *old(self) && e == Effect::Nothing,
            key == Key::Enter && (old(self).active_field == ActiveField::PromptStyle || old(self).active_field
                == ActiveField::CustomPrompt) ==> {
                &&& *final(self) == (App {
                    config: final(self).config,
                    status_message: final(self).status_message,
                    ..*old(self)
                })
                &&& final(self).config.openai_api_key == old(self).config.openai_api_key
                &&& final(self).config.ai_enabled == old(self).config.ai_enabled
                &&& prompt_settings_post(*old(self), final(self).config)
                &&& status_is(*final(self), "settings saved successfully"@)
                &&& e == Effect::SaveConfig
            },
            key == Key::Enter && !(old(self).active_field == ActiveField::ApiKey || old(self).active_field
                == ActiveField::PromptStyle || old(self).active_field == ActiveField::CustomPrompt) ==> *final(self)
                == *old(self) && e == Effect::Nothing,
            key == Key::Tab ==> *final(self) == (App {
                active_field: if old(self).active_field == ActiveField::ApiKey {
                    ActiveField::PromptStyle
                } else if old(self).active_field == ActiveField::PromptStyle {
                    ActiveField::CustomPrompt
                } else {
                    ActiveField::ApiKey
                },
                ..*old(self)
            }) && e == Effect::Nothing,
            key == Key::Up ==> *final(self) == (if old(self).active_field == ActiveField::PromptStyle {
                App { prompt_style_index: previous_style(old(self).prompt_style_index), ..*old(self) }
            } else {
                *old(self)
            }) && e == Effect::Nothing,
            key == Key::Down ==> *final(self) == (if old(self).active_field == ActiveField::PromptStyle {
                App { prompt_style_index: next_style(old(self).prompt_style_index), ..*old(self) }
            } else {
                *old(self)
            }) && e == Effect::Nothing,
            key matches Key::Char(c) ==> e == Effect::Nothing && (if old(self).active_field == ActiveField::ApiKey {
                *final(self) == (App { api_key_input: final(self).api_key_input, ..*old(self) })
                    && final(self).api_key_input@ == old(self).api_key_input@.push(c)
            } else if old(self).active_field == ActiveField::CustomPrompt {
                *final(self) == (App { custom_prompt_input: final(self).custom_prompt_input, ..*old(self) })
                    && final(self).custom_prompt_input@ == old(self).custom_prompt_input@.push(c)
            } else {
                *final(self) == *old(self)
            }),
            key == Key::Backspace ==> e == Effect::Nothing && (if old(self).active_field == ActiveField::ApiKey {
                *final(self) == (App { api_key_input: final(self).api_key_input, ..*old(self) })
                    && final(self).api_key_input@ == erased(old(self).api_key_input@)
            } else if old(self).active_field == ActiveField::CustomPrompt {
                *final(self) == (App { custom_prompt_input: final(self).custom_prompt_input, ..*old(self) })
                    && final(self).custom_prompt_input@ == erased(old(self).custom_prompt_input@)
            } else {
                *final(self) == *old(self)
            }),
    {
        match key {
            Key::Esc => {
                self.mode = AppMode::Home;
                self.api_key_input = String::new();
                self.custom_prompt_input = String::new();
                Effect::Nothing
            },
            Key::Enter => {
                match self.active_field {
                    ActiveField::ApiKey => {
                        let t = trim_str(self.api_key_input.as_str());
                        if t.as_str().is_empty() {
                            return Effect::Nothing;
                        }
                        let k = self.api_key_input.clone();
                        self.set_api_key(k);
                        self.save_prompt_settings();
                        Effect::SaveConfig
                    },
                    ActiveField::PromptStyle | ActiveField::CustomPrompt => {
                        self.save_prompt_settings();
                        self.set_status("settings saved successfully");
                        Effect::SaveConfig
                    },
                    _ => Effect::Nothing,
                }
            },
            Key::Tab => {
                self.active_field = match self.active_field {
                    ActiveField::ApiKey => ActiveField::PromptStyle,
                    ActiveField::PromptStyle => ActiveField::CustomPrompt,
                    _ => ActiveField::ApiKey,
                };
                Effect::Nothing
            },
            Key::Up => {
                if self.active_field == ActiveField::PromptStyle {
                    self.previous_prompt_style();
                }
                Effect::Nothing
            },
            Key::Down => {
                if self.active_field == ActiveField::PromptStyle {
                    self.next_prompt_style();
                }
                Effect::Nothing
            },
            Key::Char(c) => {
                match self.active_field {
                    ActiveField::ApiKey => self.api_key_input.push(c),
                    ActiveField::CustomPrompt => self.custom_prompt_input.push(c),
                    _ => {},
                }
                Effect::Nothing
            },
            Key::Backspace => {
                match self.active_field {
                    ActiveField::ApiKey => {
                        self.api_key_input.pop();
                    },
                    ActiveField::CustomPrompt => {
                        self.custom_prompt_input.pop();
                    },
                    _ => {},
                }
                Effect::Nothing
            },
            _ => Effect::Nothing,
        }
    }

    /// The search input: Esc discards it; Enter commits it (blank clears
    /// the search), refilters and goes Home; typing edits it.
    pub fn handle_search_input(&mut self, key: Key) -> (e: Effect)
        ensures
            key == Key::Esc ==> final(self).mode == AppMode::Home && final(self).search_input@.len() == 0
                && final(self).current_search == old(self).current_search,
            key == Key::Enter ==> {
                &&& opt_chars(final(self).current_search) == committed(old(self).search_input@)
                &&& notes_view(final(self).notes@) == filtered(notes_view(old(self).all_notes@), app_filters(*final(self)))
                &&& final(self).mode == AppMode::Home
                &&& final(self).search_input@.len() == 0
            },
            key matches Key::Char(c) ==> final(self).search_input@ == old(self).search_input@.push(c),
            e == Effect::Nothing,
    {
        match key {
            Key::Esc => {
                self.mode = AppMode::Home;
                self.search_input = String::new();
            },
            Key::Enter => {
                self.current_search = commit_input(&self.search_input);
                self.apply_filters();
                self.mode = AppMode::Home;
                self.search_input = String::new();
            },
            Key::Char(c) => self.search_input.push(c),
            Key::Backspace => {
                self.search_input.pop();
            },
            _ => {},
        }
        Effect::Nothing
    }

    /// The tag filter input, like the search input.
    pub fn handle_tag_filter_input(&mut self, key: Key) -> (e: Effect)
        ensures
            key == Key::Esc ==> final(self).mode == AppMode::Home && final(self).tag_filter_input@.len() == 0
                && final(self).current_tag_filter == old(self).current_tag_filter,
            key == Key::Enter ==> {
                &&& opt_chars(final(self).current_tag_filter) == committed(old(self).tag_filter_input@)
                &&& notes_view(final(self).notes@) == filtered(notes_view(old(self).all_notes@), app_filters(*final(self)))
                &&& final(self).mode == AppMode::Home
                &&& final(self).tag_filter_input@.len() == 0
            },
            key matches Key::Char(c) ==> final(self).tag_filter_input@ == old(self).tag_filter_input@.push(c),
            e == Effect::Nothing,
    {
        match key {
            Key::Esc => {
                self.mode = AppMode::Home;
                self.tag_filter_input = String::new();
            },
            Key::Enter => {
                self.current_tag_filter = commit_input(&self.tag_filter_input);
                self.apply_filters();
                self.mode = AppMode::Home;
                self.tag_filter_input = String::new();
            },
            Key::Char(c) => self.tag_filter_input.push(c),
            Key::Backspace => {
                self.tag_filter_input.pop();
            },
            _ => {},
        }
        Effect::Nothing
    }

    /// The project filter input, like the search input.
    pub fn handle_project_filter_input(&mut self, key: Key) -> (e: Effect)
        ensures
            key == Key::Esc ==> final(self).mode == AppMode::Home && final(self).project_filter_input@.len() == 0
                && final(self).current_project_filter == old(self).current_project_filter,
            key == Key::Enter ==> {
                &&& opt_chars(final(self).current_project_filter) == committed(old(self).project_filter_input@)
                &&& notes_view(final(self).notes@) == filtered(notes_view(old(self).all_notes@), app_filters(*final(self)))
                &&& final(self).mode == AppMode::Home
                &&& final(self).project_filter_input@.len() == 0
            },
            key matches Key::Char(c) ==> final(self).project_filter_input@ == old(self).project_filter_input@.push(c),
            e == Effect::Nothing,
    {
        match key {
            Key::Esc => {
                self.mode = AppMode::Home;
                self.project_filter_input = String::new();
            },
            Key::Enter => {
                self.current_project_filter = commit_input(&self.project_filter_input);
                self.apply_filters();
                self.mode = AppMode::Home;
                self.project_filter_input = String::new();
            },
            Key::Char(c) => self.project_filter_input.push(c),
            Key::Backspace => {
                self.project_filter_input.pop();
            },
            _ => {},
        }
        Effect::Nothing
    }

    /// Hands a key to the handler of the current mode; `now` stamps any
    /// note that the key changes.
    pub fn handle_input(&mut self, key: Key, now: i64) -> (e: Effect)
        ensures
            old(self).mode == AppMode::Home && key == Key::Char('q') ==> final(self).should_quit,
            old(self).mode == AppMode::Help && (key == Key::Esc || key == Key::Char('q')) ==> final(self).mode
                == AppMode::Home,
            (old(self).mode is ViewNote) && (key == Key::Esc || key == Key::Char('q')) ==> final(self).mode
                == AppMode::Home,
            (old(self).mode == AppMode::Search || old(self).mode == AppMode::TagFilter || old(self).mode
                == AppMode::ProjectFilter || old(self).mode == AppMode::Settings) && key == Key::Esc ==> final(self).mode
                == AppMode::Home,
            (old(self).mode is DeleteConfirm) && (key == Key::Esc || key == Key::Char('n')) ==> final(self).mode
                == AppMode::Home,
            (old(self).mode == AppMode::AddNote || old(self).mode is EditNote) && old(self).editor_mode
                == EditorMode::Insert && key == Key::Esc ==> final(self).editor_mode == EditorMode::Command
                && final(self).mode == old(self).mode,
            (old(self).mode is AiRewrite) && key == Key::Esc ==> final(self).ai_state == AiState::Idle
                && e == Effect::DropRewrite,
    {
        match &self.mode {
            AppMode::Home => self.handle_home_input(key),
            AppMode::AddNote => self.handle_add_note_input(key, now),
            AppMode::EditNote(_) => self.handle_edit_note_input(key, now),
            AppMode::ViewNote(_) => self.handle_view_note_input(key),
            AppMode::Help => self.handle_help_input(key),
            AppMode::Settings => self.handle_settings_input(key),
            AppMode::AiRewrite { .. } => self.handle_ai_rewrite_input(key, now),
            AppMode::Search => self.handle_search_input(key),
            AppMode::TagFilter => self.handle_tag_filter_input(key),
            AppMode::ProjectFilter => self.handle_project_filter_input(key),
            AppMode::DeleteConfirm { .. } => self.handle_delete_confirm_input(key, now),
            AppMode::AiCommand { .. } => self.handle_ai_command_input(key),
        }
    }
}

pub open spec fn untitled() -> Seq<char> {
    seq!['U', 'n', 't', 'i', 't', 'l', 'e', 'd']
}

/// One line per result: its note's title, or `Untitled`.
pub open spec fn results_text(s: Seq<crate::search::ResultModel>) -> Seq<char>
    decreases s.len(),
{
    if s.len() == 0 {
        seq![]
    } else {
        results_text(s.drop_last()) + match s.last().note.title {
            Some(t) => t,
            None => untitled(),
        } + seq!['\n']
    }
}

pub open spec fn no_matches() -> Seq<char> {
    "no matching notes"@
}

fn format_results(results: &Vec<crate::search::SearchResult>) -> (r: String)
    ensures
        r@ == (if results@.len() == 0 {
            no_matches()
        } else {
            results_text(crate::search::results_view(results@))
        }),
{
    let mut r = String::new();
    if results.len() == 0 {
        crate::text::push_str_chars(&mut r, "no matching notes");
        return r;
    }
    let ghost all = crate::search::results_view(results@);
    let mut i: usize = 0;
    while i < results.len()
        invariant
            0 <= i <= results@.len(),
            all == crate::search::results_view(results@),
            r@ == results_text(all.subrange(0, i as int)),
        decreases results@.len() - i,
    {
        let ghost before = r@;
        match &results[i].note.title {
            Some(t) => crate::text::push_str_chars(&mut r, t.as_str()),
            None => {
                r.push('U');
                r.push('n');
                r.push('t');
                r.push('i');
                r.push('t');
                r.push('l');
                r.push('e');
                r.push('d');
            },
        }
        r.push('\n');
        proof {
            let sub = all.subrange(0, i + 1);
            assert(sub.drop_last() =~= all.subrange(0, i as int));
            assert(sub.last() == results@[i as int]@);
            assert(r@ =~= results_text(sub));
        }
        i = i + 1;
    }
    assert(all.subrange(0, i as int) =~= all);
    r
}

/// The visible notes paired with empty file paths, for searching.
fn searchable(notes: &Vec<Note>) -> (r: Vec<(Note, String)>)
    ensures
        r@.len() == notes@.len(),
        forall|k: int| 0 <= k < r@.len() ==> (#[trigger] r@[k]).0@ == notes@[k]@ && r@[k].1@.len() == 0,
{
    let mut r: Vec<(Note, String)> = Vec::new();
    let mut i: usize = 0;
    while i < notes.len()
        invariant
            0 <= i <= notes@.len(),
            r@.len() == i,
            forall|k: int| 0 <= k < i ==> (#[trigger] r@[k]).0@ == notes@[k]@ && r@[k].1@.len() == 0,
        decreases notes@.len() - i,
    {
        r.push((notes[i].duplicate(), String::new()));
        i = i + 1;
    }
    r
}

/// What a confirmed command query shows: the titles found, or a note
/// that nothing matched.
pub open spec fn command_text(
    pairs: Seq<(Note, String)>,
    query: Seq<char>,
    o: crate::search::SearchOptions,
) -> Seq<char> {
    let found = crate::search::search_spec(pairs, crate::query::parse_spec(query), o);
    if found.len() == 0 {
        no_matches()
    } else {
        results_text(found)
    }
}

/// The options under which a confirmed command query runs.
pub open spec fn command_options_ok(o: crate::search::SearchOptions) -> bool {
    o.filter_tags is None && o.filter_projects is None && !o.case_sensitive
}

impl App {
    /// Opens the natural-language command mode, when an AI client is
    /// available and a key is set; otherwise only a status message.
    pub fn start_ai_command(&mut self) -> (e: Effect)
        ensures
            !old(self).ai_available ==> only_status(
                *final(self),
                *old(self),
                "ai client not available. please check your configuration."@,
            ),
            old(self).ai_available && !(old(self).config.openai_api_key is Some
                && old(self).config.openai_api_key->0@.len() > 0) ==> only_status(
                *final(self),
                *old(self),
                "please configure your openai api key first (press 's' for settings)"@,
            ),
            old(self).ai_available && old(self).config.openai_api_key is Some
                && old(self).config.openai_api_key->0@.len() > 0 ==> (final(self).mode matches AppMode::AiCommand {
                input,
                generated_query: None,
                results: None,
                awaiting_confirmation: false,
            } && input@.len() == 0),
            e == Effect::Nothing,
    {
        if !self.ai_available {
            self.set_status("ai client not available. please check your configuration.");
            return Effect::Nothing;
        }
        if !self.config.has_api_key() {
            self.set_status("please configure your openai api key first (press 's' for settings)");
            return Effect::Nothing;
        }
        self.mode = AppMode::AiCommand {
            input: String::new(),
            generated_query: None,
            results: None,
            awaiting_confirmation: false,
        };
        Effect::Nothing
    }

    /// The command mode. Esc leaves it (dropping a running translation).
    /// While a translated query awaits confirmation, Enter runs it through
    /// the query engine over the visible notes and shows the titles found.
    /// Otherwise Enter sends a non-blank input for translation (refused
    /// while one is running), and typing edits the input.
    pub fn handle_ai_command_input(&mut self, key: Key) -> (e: Effect)
        ensures
            !(old(self).mode is AiCommand) ==> *final(self) == *old(self) && e == Effect::Nothing,
            (old(self).mode is AiCommand) && key == Key::Esc ==> final(self).mode == AppMode::Home
                && !final(self).command_pending && final(self).ai_state == AiState::Idle && (if old(
                self,
            ).command_pending {
                e == Effect::DropTranslate
            } else {
                e == Effect::Nothing
            }),
            match old(self).mode {
                AppMode::AiCommand { input, generated_query, awaiting_confirmation, .. } => {
                    &&& key == Key::Enter && awaiting_confirmation && generated_query is Some ==> {
                        &&& (final(self).mode matches AppMode::AiCommand {
                            generated_query: g,
                            results: Some(text),
                            awaiting_confirmation: false,
                            ..
                        } && g == generated_query && exists|pairs: Seq<(Note, String)>, o: crate::search::SearchOptions|
                            pairs.len() == old(self).notes@.len() && (forall|k: int|
                                0 <= k < pairs.len() ==> (#[trigger] pairs[k]).0@ == old(self).notes@[k]@
                                    && pairs[k].1@.len() == 0) && command_options_ok(o) && text@ == #[trigger] command_text(pairs, generated_query->0@, o))
                        &&& e == Effect::Nothing
                    }
                    &&& key == Key::Enter && !(awaiting_confirmation && generated_query is Some)
                        && old(self).command_pending ==> only_status(
                        *final(self),
                        *old(self),
                        "a query translation is already in progress"@,
                    ) && e == Effect::Nothing
                    &&& key == Key::Enter && !(awaiting_confirmation && generated_query is Some)
                        && !old(self).command_pending && trim_of(input@).len() > 0 ==> {
                        &&& final(self).command_pending
                        &&& final(self).ai_state == AiState::Processing
                        &&& e == Effect::StartTranslate(input)
                    }
                },
                _ => true,
            },
    {
        let (input, generated, awaiting) = match &self.mode {
            AppMode::AiCommand { input, generated_query, awaiting_confirmation, .. } => (
                input.clone(),
                copy_opt(generated_query),
                *awaiting_confirmation,
            ),
            _ => {
                return Effect::Nothing;
            },
        };
        match key {
            Key::Esc => {
                self.mode = AppMode::Home;
                self.ai_state = AiState::Idle;
                if self.command_pending {
                    self.command_pending = false;
                    Effect::DropTranslate
                } else {
                    Effect::Nothing
                }
            },
            Key::Enter => {
                if awaiting && generated.is_some() {
                    let q = generated.unwrap();
                    let pairs = searchable(&self.notes);
                    let parsed = crate::query::parse_search_query(q.as_str());
                    let options = crate::search::SearchOptions {
                        query: q.clone(),
                        filter_tags: None,
                        filter_projects: None,
                        list_tags: false,
                        list_projects: false,
                        case_sensitive: false,
                    };
                    let found = crate::search::find_matching_notes_advanced(pairs.as_slice(), &parsed, &options);
                    let text = match found {
                        Ok(found) => {
                            let text = format_results(&found);
                            proof {
                                assert(crate::search::results_view(found@).len() == found@.len());
                                assert(text@ == command_text(pairs@, q@, options));
                            }
                            text
                        },
                        Err(_) => String::new(),
                    };
                    assert(command_options_ok(options));
                    self.mode = AppMode::AiCommand {
                        input,
                        generated_query: Some(q),
                        results: Some(text),
                        awaiting_confirmation: false,
                    };
                    return Effect::Nothing;
                }
                if self.command_pending {
                    self.set_status("a query translation is already in progress");
                    return Effect::Nothing;
                }
                let t = trim_str(input.as_str());
                if t.as_str().is_empty() {
                    return Effect::Nothing;
                }
                self.command_pending = true;
                self.ai_state = AiState::Processing;
                Effect::StartTranslate(input)
            },
            Key::Char(c) => {
                if !self.command_pending && !awaiting {
                    let mut next = input;
                    next.push(c);
                    self.mode = AppMode::AiCommand {
                        input: next,
                        generated_query: generated,
                        results: None,
                        awaiting_confirmation: false,
                    };
                }
                Effect::Nothing
            },
            Key::Backspace => {
                if !self.command_pending && !awaiting {
                    let mut next = input;
                    next.pop();
                    self.mode = AppMode::AiCommand {
                        input: next,
                        generated_query: generated,
                        results: None,
                        awaiting_confirmation: false,
                    };
                }
                Effect::Nothing
            },
            _ => Effect::Nothing,
        }
    }

    /// Takes the outcome of the running translation, if one has arrived;
    /// it is taken at most once. A query is shown for confirmation, never
    /// run on arrival.
    pub fn check_command_result(&mut self, result: Option<Result<String, String>>)
        ensures
            !old(self).command_pending || result is None ==> *final(self) == *old(self),
            old(self).command_pending && result is Some ==> {
                &&& !final(self).command_pending
                &&& match result->0 {
                    Ok(q) => match old(self).mode {
                        AppMode::AiCommand { input, .. } => final(self).mode == (AppMode::AiCommand {
                            input,
                            generated_query: Some(q),
                            results: None,
                            awaiting_confirmation: true,
                        }) && final(self).ai_state == AiState::Success,
                        _ => final(self).mode == old(self).mode,
                    },
                    Err(msg) => final(self).ai_state == AiState::Error(msg) && final(self).mode == old(self).mode,
                }
                &&& final(self).notes == old(self).notes
                &&& final(self).all_notes == old(self).all_notes
            },
    {
        if !self.command_pending {
            return;
        }
        match result {
            None => {},
            Some(Ok(q)) => {
                let input = match &self.mode {
                    AppMode::AiCommand { input, .. } => Some(input.clone()),
                    _ => None,
                };
                if let Some(input) = input {
                    self.mode = AppMode::AiCommand {
                        input,
                        generated_query: Some(q),
                        results: None,
                        awaiting_confirmation: true,
                    };
                    self.ai_state = AiState::Success;
                }
                self.command_pending = false;
            },
            Some(Err(msg)) => {
                self.ai_state = AiState::Error(msg);
                self.command_pending = false;
            },
        }
    }
}

fn copy_opt(o: &Option<String>) -> (r: Option<String>)
    ensures
        r == *o,
{
    match o {
        Some(s) => Some(s.clone()),
        None => None,
    }
}

proof fn lemma_insert_by_created_keeps(r: Seq<NoteModel>, x: NoteModel)
    ensures
        insert_by_created(r, x).contains(x),
        forall|k: int| 0 <= k < r.len() ==> insert_by_created(r, x).contains(#[trigger] r[k]),
    decreases r.len(),
{
    let ins = insert_by_created(r, x);
    if r.len() == 0 {
        assert(ins[0] == x);
    } else if r[0].created < x.created {
        assert(ins[0] == x);
        assert forall|k: int| 0 <= k < r.len() implies ins.contains(#[trigger] r[k]) by {
            assert(ins[k + 1] == r[k]);
        }
    } else {
        let t = r.drop_first();
        lemma_insert_by_created_keeps(t, x);
        let it = insert_by_created(t, x);
        assert(ins == seq![r[0]] + it);
        let j = choose|j: int| 0 <= j < it.len() && it[j] == x;
        assert(ins[j + 1] == x);
        assert forall|k: int| 0 <= k < r.len() implies ins.contains(#[trigger] r[k]) by {
            if k == 0 {
                assert(ins[0] == r[0]);
            } else {
                assert(t[k - 1] == r[k]);
                let m = choose|m: int| 0 <= m < it.len() && it[m] == t[k - 1];
                assert(ins[m + 1] == r[k]);
            }
        }
    }
}

/// Ordering notes newest first loses none: every loaded note, a
/// soft-deleted one included, stays among all notes.
pub proof fn lemma_newest_first_keeps(s: Seq<NoteModel>)
    ensures
        forall|k: int| 0 <= k < s.len() ==> newest_first(s).contains(#[trigger] s[k]),
    decreases s.len(),
{
    if s.len() > 0 {
        let d = s.drop_last();
        lemma_newest_first_keeps(d);
        lemma_insert_by_created_keeps(newest_first(d), s.last());
        let nf = newest_first(d);
        assert forall|k: int| 0 <= k < s.len() implies newest_first(s).contains(#[trigger] s[k]) by {
            if k < s.len() - 1 {
                assert(d[k] == s[k]);
                assert(nf.contains(d[k]));
                let m = choose|m: int| 0 <= m < nf.len() && nf[m] == d[k];
                assert(insert_by_created(nf, s.last()).contains(nf[m]));
            }
        }
    }
}

} // verus!
