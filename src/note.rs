//! The note record, its logical view, and the framing of a stored note
//! file: a metadata block between `---` lines, followed by the content.

use vstd::prelude::*;
use crate::text::{
    chars_of, extract_links, extract_projects, extract_tags, find_chars, links_from, marked_names,
    occurs_at_pos, push_str_chars, same_chars, slice_of, string_from_chars, strings_view,
};

verus! {

/// How a note came to be.
#[derive(Clone, Copy, Debug, PartialEq, Eq, Structural)]
pub enum NoteSource {
    QuickCapture,
    Editor,
    UI,
}

/// A note. The id is a 128-bit identifier (the nil id, zero, marks an
/// unsaved draft); times are milliseconds since the Unix epoch.
#[derive(Clone, Debug)]
pub struct Note {
    pub id: u128,
    pub title: Option<String>,
    pub tags: Vec<String>,
    pub projects: Vec<String>,
    pub links_to: Vec<u128>,
    pub created: i64,
    pub updated: Option<i64>,
    pub source: NoteSource,
    pub content: String,
}

pub struct NoteModel {
    pub id: u128,
    pub title: Option<Seq<char>>,
    pub tags: Seq<Seq<char>>,
    pub projects: Seq<Seq<char>>,
    pub links_to: Seq<u128>,
    pub created: i64,
    pub updated: Option<i64>,
    pub source: NoteSource,
    pub content: Seq<char>,
}

pub open spec fn opt_view(o: Option<String>) -> Option<Seq<char>> {
    match o {
        Some(t) => Some(t@),
        None => None,
    }
}

impl View for Note {
    type V = NoteModel;

    open spec fn view(&self) -> NoteModel {
        NoteModel {
            id: self.id,
            title: opt_view(self.title),
            tags: strings_view(self.tags@),
            projects: strings_view(self.projects@),
            links_to: self.links_to@,
            created: self.created,
            updated: self.updated,
            source: self.source,
            content: self.content@,
        }
    }
}

pub fn copy_opt_string(o: &Option<String>) -> (r: Option<String>)
    ensures
        opt_view(r) == opt_view(*o),
{
    match o {
        Some(t) => Some(t.clone()),
        None => None,
    }
}

pub fn copy_strings(v: &Vec<String>) -> (r: Vec<String>)
    ensures
        strings_view(r@) == strings_view(v@),
{
    let mut r: Vec<String> = Vec::new();
    let mut i: usize = 0;
    while i < v.len()
        invariant
            0 <= i <= v@.len(),
            r@.len() == i,
            forall|k: int| 0 <= k < i ==> r@[k]@ == v@[k]@,
        decreases v@.len() - i,
    {
        r.push(v[i].clone());
        i = i + 1;
    }
    assert(strings_view(r@) =~= strings_view(v@));
    r
}

fn copy_ids(v: &Vec<u128>) -> (r: Vec<u128>)
    ensures
        r@ == v@,
{
    let mut r: Vec<u128> = Vec::new();
    let mut i: usize = 0;
    while i < v.len()
        invariant
            0 <= i <= v@.len(),
            r@ == v@.subrange(0, i as int),
        decreases v@.len() - i,
    {
        r.push(v[i]);
        i = i + 1;
        assert(r@ =~= v@.subrange(0, i as int));
    }
    assert(r@ =~= v@);
    r
}

impl Note {
    /// A copy of the note, field for field.
    pub fn duplicate(&self) -> (r: Note)
        ensures
            r@ == self@,
    {
        Note {
            id: self.id,
            title: copy_opt_string(&self.title),
            tags: copy_strings(&self.tags),
            projects: copy_strings(&self.projects),
            links_to: copy_ids(&self.links_to),
            created: self.created,
            updated: self.updated,
            source: self.source,
            content: self.content.clone(),
        }
    }

    /// Whether the note carries `tag` exactly.
    pub fn has_tag(&self, tag: &str) -> (r: bool)
        ensures
            r == strings_view(self.tags@).contains(tag@),
    {
        let mut i: usize = 0;
        while i < self.tags.len()
            invariant
                0 <= i <= self.tags@.len(),
                forall|k: int| 0 <= k < i ==> strings_view(self.tags@)[k] != tag@,
            decreases self.tags@.len() - i,
        {
            if same_chars(self.tags[i].as_str(), tag) {
                assert(strings_view(self.tags@)[i as int] == tag@);
                return true;
            }
            i = i + 1;
        }
        false
    }
}

/// Why a stored note could not be read or written.
#[derive(Debug)]
pub enum NoteError {
    Io(String),
    Yaml(String),
    InvalidFrontmatter,
    MissingFrontmatter,
}

pub open spec fn opening_delimiter() -> Seq<char> {
    seq!['-', '-', '-', '\n']
}

pub open spec fn closing_delimiter() -> Seq<char> {
    seq!['\n', '-', '-', '-', '\n']
}

/// The first position of the closing delimiter in `rest`, if it has one.
pub open spec fn is_first_closing(rest: Seq<char>, p: int) -> bool {
    occurs_at_pos(rest, closing_delimiter(), p) && forall|m: int|
        0 <= m < p ==> !occurs_at_pos(rest, closing_delimiter(), m)
}

/// Splits a stored note into its metadata block and its content. The text
/// must open with `---` and a line break; the block runs to the first line
/// that is exactly `---`, and the content follows that line.
pub fn split_frontmatter(content: &str) -> (r: Result<(String, String), NoteError>)
    ensures
        !(content@.len() >= 4 && content@.subrange(0, 4) == opening_delimiter()) ==> r matches Err(
            NoteError::MissingFrontmatter,
        ),
        content@.len() >= 4 && content@.subrange(0, 4) == opening_delimiter() ==> ({
            let rest = content@.subrange(4, content@.len() as int);
            &&& (forall|m: int| !occurs_at_pos(rest, closing_delimiter(), m)) ==> (r matches Err(
                NoteError::InvalidFrontmatter,
            ))
            &&& forall|p: int|
                is_first_closing(rest, p) ==> (r is Ok && r->Ok_0.0@ == rest.subrange(0, p)
                    && r->Ok_0.1@ == rest.subrange(p + 5, rest.len() as int))
        }),
{
    let cs = chars_of(content);
    let open = vec!['-', '-', '-', '\n'];
    let close = vec!['\n', '-', '-', '-', '\n'];
    assert(open@ == opening_delimiter());
    assert(close@ == closing_delimiter());
    if cs.len() < 4 {
        return Err(NoteError::MissingFrontmatter);
    }
    let head = slice_of(cs.as_slice(), 0, 4);
    if !(head[0] == '-' && head[1] == '-' && head[2] == '-' && head[3] == '\n') {
        proof {
            if content@.subrange(0, 4) == opening_delimiter() {
                assert(head@[0] == '-' && head@[1] == '-' && head@[2] == '-' && head@[3] == '\n');
            }
        }
        return Err(NoteError::MissingFrontmatter);
    }
    assert(head@ =~= opening_delimiter());
    let rest = slice_of(cs.as_slice(), 4, cs.len());
    match find_chars(rest.as_slice(), close.as_slice()) {
        Some(p) => {
            let fm = string_from_chars(slice_of(rest.as_slice(), 0, p).as_slice());
            let body = string_from_chars(slice_of(rest.as_slice(), p + 5, rest.len()).as_slice());
            proof {
                assert forall|q: int| is_first_closing(rest@, q) implies q == p by {
                    if q < p {
                    } else if q > p {
                        assert(!occurs_at_pos(rest@, closing_delimiter(), p as int));
                    }
                }
            }
            Ok((fm, body))
        },
        None => Err(NoteError::InvalidFrontmatter),
    }
}

pub open spec fn quoted(t: Seq<char>) -> Seq<char> {
    seq!['"'] + t + seq!['"']
}

/// The quoted items joined with `, `.
pub open spec fn joined_quoted(l: Seq<Seq<char>>) -> Seq<char>
    decreases l.len(),
{
    if l.len() == 0 {
        seq![]
    } else if l.len() == 1 {
        quoted(l[0])
    } else {
        joined_quoted(l.drop_last()) + seq![',', ' '] + quoted(l.last())
    }
}

/// A YAML flow list of quoted strings.
pub open spec fn yaml_list(l: Seq<Seq<char>>) -> Seq<char> {
    if l.len() == 0 {
        seq!['[', ']']
    } else {
        seq!['['] + joined_quoted(l) + seq![']']
    }
}

pub open spec fn yaml_title(t: Option<Seq<char>>) -> Seq<char> {
    match t {
        Some(x) => quoted(x),
        None => seq!['n', 'u', 'l', 'l'],
    }
}

/// The metadata block of a quickly captured note.
pub open spec fn frontmatter_text(
    id: Seq<char>,
    title: Option<Seq<char>>,
    tags: Seq<Seq<char>>,
    projects: Seq<Seq<char>>,
    links: Seq<Seq<char>>,
    created: Seq<char>,
) -> Seq<char> {
    "---\nid: "@ + id + "\ntitle: "@ + yaml_title(title) + "\ntags: "@ + yaml_list(tags)
        + "\nprojects: "@ + yaml_list(projects) + "\nlinks_to: "@ + yaml_list(links) + "\ncreated: "@
        + created + "\nupdated: null\nsource: \"QuickCapture\"\n---"@
}

fn push_quoted(out: &mut String, t: &str)
    ensures
        final(out)@ == old(out)@ + quoted(t@),
{
    out.push('"');
    push_str_chars(out, t);
    out.push('"');
    assert(final(out)@ =~= old(out)@ + quoted(t@));
}

fn push_yaml_list(out: &mut String, l: &Vec<String>)
    ensures
        final(out)@ == old(out)@ + yaml_list(strings_view(l@)),
{
    let ghost all = strings_view(l@);
    if l.len() == 0 {
        out.push('[');
        out.push(']');
        assert(final(out)@ =~= old(out)@ + yaml_list(all));
        return;
    }
    out.push('[');
    let ghost base = out@;
    push_quoted(out, l[0].as_str());
    assert(all.subrange(0, 1) =~= seq![all[0]]);
    let mut i: usize = 1;
    while i < l.len()
        invariant
            1 <= i <= l@.len(),
            all == strings_view(l@),
            out@ == base + joined_quoted(all.subrange(0, i as int)),
        decreases l@.len() - i,
    {
        let ghost before = out@;
        out.push(',');
        out.push(' ');
        push_quoted(out, l[i].as_str());
        proof {
            let sub = all.subrange(0, i + 1);
            assert(sub.drop_last() =~= all.subrange(0, i as int));
            assert(sub.last() == l@[i as int]@);
            assert(out@ =~= before + seq![',', ' '] + quoted(l@[i as int]@));
            assert(out@ =~= base + joined_quoted(sub));
        }
        i = i + 1;
    }
    assert(all.subrange(0, i as int) =~= all);
    out.push(']');
    assert(final(out)@ =~= old(out)@ + yaml_list(all));
}

/// The metadata block of a quickly captured note; the id and the
/// creation time come already written out.
pub fn create_frontmatter(
    id: &str,
    title: &Option<String>,
    tags: &Vec<String>,
    projects: &Vec<String>,
    links_to: &Vec<String>,
    created: &str,
) -> (r: String)
    ensures
        r@ == frontmatter_text(
            id@,
            opt_view(*title),
            strings_view(tags@),
            strings_view(projects@),
            strings_view(links_to@),
            created@,
        ),
{
    let mut r = String::new();
    push_str_chars(&mut r, "---\nid: ");
    push_str_chars(&mut r, id);
    push_str_chars(&mut r, "\ntitle: ");
    match title {
        Some(t) => push_quoted(&mut r, t.as_str()),
        None => {
            r.push('n');
            r.push('u');
            r.push('l');
            r.push('l');
        },
    }
    push_str_chars(&mut r, "\ntags: ");
    push_yaml_list(&mut r, tags);
    push_str_chars(&mut r, "\nprojects: ");
    push_yaml_list(&mut r, projects);
    push_str_chars(&mut r, "\nlinks_to: ");
    push_yaml_list(&mut r, links_to);
    push_str_chars(&mut r, "\ncreated: ");
    push_str_chars(&mut r, created);
    push_str_chars(&mut r, "\nupdated: null\nsource: \"QuickCapture\"\n---");
    assert(r@ =~= frontmatter_text(
        id@,
        opt_view(*title),
        strings_view(tags@),
        strings_view(projects@),
        strings_view(links_to@),
        created@,
    ));
    r
}

/// The file text of a quickly captured note: its metadata block (tags,
/// projects and links read from the content), a line break, the content.
pub fn quick_note_text(id: &str, title: &Option<String>, content: &str, created: &str) -> (r: String)
    ensures
        r@ == frontmatter_text(
            id@,
            opt_view(*title),
            marked_names(content@, '#', 0),
            marked_names(content@, '+', 0),
            links_from(content@, 0),
            created@,
        ) + seq!['\n'] + content@,
{
    let tags = extract_tags(content);
    let projects = extract_projects(content);
    let links = extract_links(content);
    let mut r = create_frontmatter(id, title, &tags, &projects, &links, created);
    r.push('\n');
    push_str_chars(&mut r, content);
    r
}

/// The notes that loaded, in order: a file whose reading or parsing
/// failed is left out and the others are kept.
pub open spec fn loaded_notes(s: Seq<Result<(Note, String), NoteError>>) -> Seq<(Note, String)>
    decreases s.len(),
{
    if s.len() == 0 {
        seq![]
    } else {
        let rest = loaded_notes(s.drop_last());
        match s.last() {
            Ok(x) => rest.push(x),
            Err(_) => rest,
        }
    }
}

/// Keeps the notes that loaded and skips the files that did not.
pub fn keep_loaded(outcomes: Vec<Result<(Note, String), NoteError>>) -> (r: Vec<(Note, String)>)
    ensures
        r@ == loaded_notes(outcomes@),
{
    let mut outcomes = outcomes;
    let ghost orig = outcomes@;
    let n = outcomes.len();
    let mut r: Vec<(Note, String)> = Vec::new();
    let mut taken: usize = 0;
    while outcomes.len() > 0
        invariant
            taken + outcomes@.len() == n,
            n == orig.len(),
            outcomes@ == orig.subrange(taken as int, n as int),
            r@ == loaded_notes(orig.subrange(0, taken as int)),
        decreases outcomes@.len(),
    {
        let ghost before = outcomes@;
        let x = outcomes.remove(0);
        proof {
            assert(x == orig[taken as int]);
            assert(orig.subrange(0, taken + 1).drop_last() =~= orig.subrange(0, taken as int));
            assert(outcomes@ =~= orig.subrange(taken + 1, n as int));
        }
        match x {
            Ok(entry) => r.push(entry),
            Err(_) => {},
        }
        taken = taken + 1;
    }
    assert(orig.subrange(0, n as int) =~= orig);
    r
}

} // verus!
