//! Evaluating notes against a parsed query and ranking the results.

use vstd::prelude::*;
use crate::note::{Note, NoteModel};
use crate::query::{ParsedQuery, ParsedQueryModel};
use crate::text::{
    comma_pieces, decimal, extract_projects, lines_of, list_contains, lower_all, lower_of,
    lowered, marked_names, push_decimal, push_str_chars, split_commas, split_lines, strings_view,
    to_lower, trim_of, trim_str,
};

verus! {

/// The score that the fuzzy matcher gives `pattern` in `choice`, if it
/// matches at all.
pub uninterp spec fn fuzzy_of(choice: Seq<char>, pattern: Seq<char>) -> Option<i64>;

/// Relies on fuzzy_matcher's `SkimMatcherV2::default` and
/// `FuzzyMatcher::fuzzy_match`: whether and how well `pattern` matches
/// `choice`, which depends on the two strings alone.
#[verifier::external_body]
fn fuzzy_score(choice: &str, pattern: &str) -> (r: Option<i64>)
    ensures
        r == fuzzy_of(choice@, pattern@),
{
    fuzzy_matcher::FuzzyMatcher::fuzzy_match(
        &fuzzy_matcher::skim::SkimMatcherV2::default(),
        choice,
        pattern,
    )
}

/// The score given to every note when the query has no free text.
pub const BASELINE_SCORE: i64 = 100;

/// Most snippets kept per result.
pub const MAX_SNIPPETS: usize = 3;

/// How a search is run: the query, optional comma-separated allow-lists
/// of tags and projects, listing requests, and case sensitivity.
#[derive(Debug)]
pub struct SearchOptions {
    pub query: String,
    pub filter_tags: Option<String>,
    pub filter_projects: Option<String>,
    pub list_tags: bool,
    pub list_projects: bool,
    pub case_sensitive: bool,
}

/// One note found by a search.
#[derive(Debug)]
pub struct SearchResult {
    pub note: Note,
    pub score: i64,
    pub title_match: bool,
    pub content_snippets: Vec<String>,
    pub file_path: String,
    pub tag_matches: Vec<String>,
    pub project_matches: Vec<String>,
}

pub struct ResultModel {
    pub note: NoteModel,
    pub score: i64,
    pub title_match: bool,
    pub content_snippets: Seq<Seq<char>>,
    pub file_path: Seq<char>,
    pub tag_matches: Seq<Seq<char>>,
    pub project_matches: Seq<Seq<char>>,
}

impl View for SearchResult {
    type V = ResultModel;

    open spec fn view(&self) -> ResultModel {
        ResultModel {
            note: self.note@,
            score: self.score,
            title_match: self.title_match,
            content_snippets: strings_view(self.content_snippets@),
            file_path: self.file_path@,
            tag_matches: strings_view(self.tag_matches@),
            project_matches: strings_view(self.project_matches@),
        }
    }
}

pub open spec fn results_view(v: Seq<SearchResult>) -> Seq<ResultModel> {
    v.map_values(|r: SearchResult| r@)
}

/// The lowercased allow-list of an optional comma-separated filter; empty
/// when there is no filter.
pub open spec fn allow_list(f: Option<Seq<char>>) -> Seq<Seq<char>> {
    match f {
        Some(s) => comma_pieces(s).map_values(|p: Seq<char>| lower_of(trim_of(p))),
        None => seq![],
    }
}

pub open spec fn passes_allow(allow: Seq<Seq<char>>, have: Seq<Seq<char>>) -> bool {
    allow.len() == 0 || exists|k: int| 0 <= k < allow.len() && have.contains(#[trigger] allow[k])
}

pub open spec fn all_present(wanted: Seq<Seq<char>>, have: Seq<Seq<char>>) -> bool {
    forall|k: int| 0 <= k < wanted.len() ==> have.contains(lower_of(#[trigger] wanted[k]))
}

pub open spec fn none_present(unwanted: Seq<Seq<char>>, have: Seq<Seq<char>>) -> bool {
    forall|k: int| 0 <= k < unwanted.len() ==> !have.contains(lower_of(#[trigger] unwanted[k]))
}

/// The projects of a note: those written in its content.
pub open spec fn note_projects(n: NoteModel) -> Seq<Seq<char>> {
    marked_names(n.content, '+', 0)
}

/// Whether a note passes the allow-lists, carries every required tag and
/// project and none of the excluded ones (all compared lowercased).
pub open spec fn admitted(
    n: NoteModel,
    q: ParsedQueryModel,
    allow_tags: Seq<Seq<char>>,
    allow_projects: Seq<Seq<char>>,
) -> bool {
    let tags = lowered(n.tags);
    let projects = lowered(note_projects(n));
    &&& passes_allow(allow_tags, tags)
    &&& passes_allow(allow_projects, projects)
    &&& all_present(q.required_tags, tags)
    &&& all_present(q.required_projects, projects)
    &&& none_present(q.excluded_tags, tags)
    &&& none_present(q.excluded_projects, projects)
}

pub open spec fn folded(s: Seq<char>, case_sensitive: bool) -> Seq<char> {
    if case_sensitive {
        s
    } else {
        lower_of(s)
    }
}

pub open spec fn title_score(n: NoteModel, q: ParsedQueryModel, cs: bool) -> Option<i64> {
    match n.title {
        Some(t) => fuzzy_of(folded(t, cs), folded(q.text_query, cs)),
        None => None,
    }
}

pub open spec fn line_score(l: Seq<char>, q: ParsedQueryModel, cs: bool) -> Option<i64> {
    fuzzy_of(folded(l, cs), folded(q.text_query, cs))
}

pub open spec fn raise(acc: i64, o: Option<i64>) -> i64 {
    match o {
        Some(x) => if x > acc {
            x
        } else {
            acc
        },
        None => acc,
    }
}

/// The best score over the title and the first `k` lines.
pub open spec fn best_upto(n: NoteModel, q: ParsedQueryModel, cs: bool, k: int) -> i64
    decreases k,
{
    if k <= 0 {
        raise(0, title_score(n, q, cs))
    } else {
        raise(best_upto(n, q, cs, k - 1), line_score(lines_of(n.content)[k - 1], q, cs))
    }
}

pub open spec fn line_prefix() -> Seq<char> {
    seq!['L', 'i', 'n', 'e', ' ']
}

/// `Line <n>: <trimmed text>` for the line at index `i`.
pub open spec fn snippet(i: int, l: Seq<char>) -> Seq<char> {
    line_prefix() + decimal((i + 1) as nat) + seq![':', ' '] + trim_of(l)
}

/// The snippets of the matching lines among the first `k`.
pub open spec fn snippets_upto(n: NoteModel, q: ParsedQueryModel, cs: bool, k: int) -> Seq<
    Seq<char>,
>
    decreases k,
{
    if k <= 0 {
        seq![]
    } else {
        let l = lines_of(n.content)[k - 1];
        snippets_upto(n, q, cs, k - 1) + if line_score(l, q, cs) is Some {
            seq![snippet(k - 1, l)]
        } else {
            seq![]
        }
    }
}

pub open spec fn first_three(s: Seq<Seq<char>>) -> Seq<Seq<char>> {
    if s.len() <= 3 {
        s
    } else {
        s.subrange(0, 3)
    }
}

/// What a search makes of one admitted note: with free text, the best
/// fuzzy score over title and lines, the title flag and up to three
/// snippets; without, the baseline score. The note is kept when its score
/// is positive or a required tag or project was matched.
pub open spec fn evaluate_admitted(
    n: NoteModel,
    path: Seq<char>,
    q: ParsedQueryModel,
    cs: bool,
) -> Option<ResultModel> {
    let free = q.text_query.len() > 0;
    let nlines = lines_of(n.content).len() as int;
    let score = if free {
        best_upto(n, q, cs, nlines)
    } else {
        BASELINE_SCORE
    };
    let r = ResultModel {
        note: n,
        score,
        title_match: free && title_score(n, q, cs) is Some,
        content_snippets: if free {
            first_three(snippets_upto(n, q, cs, nlines))
        } else {
            seq![]
        },
        file_path: path,
        tag_matches: q.required_tags,
        project_matches: q.required_projects,
    };
    if score > 0 || q.required_tags.len() > 0 || q.required_projects.len() > 0 {
        Some(r)
    } else {
        None
    }
}

pub open spec fn evaluate(
    n: NoteModel,
    path: Seq<char>,
    q: ParsedQueryModel,
    cs: bool,
    allow_tags: Seq<Seq<char>>,
    allow_projects: Seq<Seq<char>>,
) -> Option<ResultModel> {
    if admitted(n, q, allow_tags, allow_projects) {
        evaluate_admitted(n, path, q, cs)
    } else {
        None
    }
}

/// The allow-list of an optional comma-separated filter.
pub fn build_allow_list(f: &Option<String>) -> (r: Vec<String>)
    ensures
        strings_view(r@) == allow_list(opt_seq(f)),
{
    match f {
        None => Vec::new(),
        Some(s) => {
            let pieces = split_commas(s.as_str());
            let mut r: Vec<String> = Vec::new();
            let mut i: usize = 0;
            while i < pieces.len()
                invariant
                    strings_view(pieces@) == comma_pieces(s@),
                    0 <= i <= pieces@.len(),
                    r@.len() == i,
                    forall|k: int| 0 <= k < i ==> r@[k]@ == lower_of(trim_of(pieces@[k]@)),
                decreases pieces@.len() - i,
            {
                let t = trim_str(pieces[i].as_str());
                r.push(to_lower(t.as_str()));
                i = i + 1;
            }
            assert(strings_view(r@) =~= allow_list(opt_seq(f)));
            r
        },
    }
}

pub open spec fn opt_seq(f: &Option<String>) -> Option<Seq<char>> {
    match f {
        Some(s) => Some(s@),
        None => None,
    }
}

fn passes_allow_exec(allow: &Vec<String>, have: &Vec<String>) -> (r: bool)
    ensures
        r == passes_allow(strings_view(allow@), strings_view(have@)),
{
    if allow.len() == 0 {
        return true;
    }
    let mut i: usize = 0;
    while i < allow.len()
        invariant
            0 <= i <= allow@.len(),
            forall|k: int| 0 <= k < i ==> !strings_view(have@).contains(#[trigger] strings_view(allow@)[k]),
        decreases allow@.len() - i,
    {
        if list_contains(have, allow[i].as_str()) {
            assert(strings_view(have@).contains(strings_view(allow@)[i as int]));
            return true;
        }
        i = i + 1;
    }
    false
}

fn all_present_exec(wanted: &Vec<String>, have: &Vec<String>) -> (r: bool)
    ensures
        r == all_present(strings_view(wanted@), strings_view(have@)),
{
    let mut i: usize = 0;
    while i < wanted.len()
        invariant
            0 <= i <= wanted@.len(),
            forall|k: int| 0 <= k < i ==> strings_view(have@).contains(lower_of(#[trigger] strings_view(wanted@)[k])),
        decreases wanted@.len() - i,
    {
        let w = to_lower(wanted[i].as_str());
        if !list_contains(have, w.as_str()) {
            assert(!strings_view(have@).contains(lower_of(strings_view(wanted@)[i as int])));
            return false;
        }
        i = i + 1;
    }
    true
}

fn none_present_exec(unwanted: &Vec<String>, have: &Vec<String>) -> (r: bool)
    ensures
        r == none_present(strings_view(unwanted@), strings_view(have@)),
{
    let mut i: usize = 0;
    while i < unwanted.len()
        invariant
            0 <= i <= unwanted@.len(),
            forall|k: int| 0 <= k < i ==> !strings_view(have@).contains(lower_of(#[trigger] strings_view(unwanted@)[k])),
        decreases unwanted@.len() - i,
    {
        let w = to_lower(unwanted[i].as_str());
        if list_contains(have, w.as_str()) {
            assert(strings_view(have@).contains(lower_of(strings_view(unwanted@)[i as int])));
            return false;
        }
        i = i + 1;
    }
    true
}

fn fold_case(s: &str, case_sensitive: bool) -> (r: String)
    ensures
        r@ == folded(s@, case_sensitive),
{
    if case_sensitive {
        s.to_string()
    } else {
        to_lower(s)
    }
}

fn raise_exec(acc: i64, o: Option<i64>) -> (r: i64)
    ensures
        r == raise(acc, o),
{
    match o {
        Some(x) => if x > acc {
            x
        } else {
            acc
        },
        None => acc,
    }
}

fn make_snippet(i: usize, line: &str) -> (r: String)
    requires
        i < usize::MAX,
    ensures
        r@ == snippet(i as int, line@),
{
    let mut r = String::new();
    r.push('L');
    r.push('i');
    r.push('n');
    r.push('e');
    r.push(' ');
    push_decimal(&mut r, i + 1);
    r.push(':');
    r.push(' ');
    let t = trim_str(line);
    push_str_chars(&mut r, t.as_str());
    assert(r@ =~= snippet(i as int, line@));
    r
}

/// Scores an admitted note against the free text of the query.
fn evaluate_admitted_exec(note: &Note, path: &String, q: &ParsedQuery, cs: bool) -> (r: Option<
    SearchResult,
>)
    ensures
        match r {
            Some(x) => evaluate_admitted(note@, path@, q@, cs) == Some(x@),
            None => evaluate_admitted(note@, path@, q@, cs) is None,
        },
{
    let free = !q.text_query.as_str().is_empty();
    proof {
        assert(free == (q@.text_query.len() > 0));
    }
    let mut score: i64 = BASELINE_SCORE;
    let mut title_match = false;
    let mut snippets: Vec<String> = Vec::new();
    if free {
        let pat = fold_case(q.text_query.as_str(), cs);
        let t_score = match &note.title {
            Some(t) => {
                let ft = fold_case(t.as_str(), cs);
                fuzzy_score(ft.as_str(), pat.as_str())
            },
            None => None,
        };
        title_match = t_score.is_some();
        score = raise_exec(0, t_score);
        let lines = split_lines(note.content.as_str());
        let mut i: usize = 0;
        while i < lines.len()
            invariant
                0 <= i <= lines@.len(),
                strings_view(lines@) == lines_of(note@.content),
                pat@ == folded(q@.text_query, cs),
                score == best_upto(note@, q@, cs, i as int),
                strings_view(snippets@) == first_three(snippets_upto(note@, q@, cs, i as int)),
            decreases lines@.len() - i,
        {
            let fl = fold_case(lines[i].as_str(), cs);
            let ls = fuzzy_score(fl.as_str(), pat.as_str());
            proof {
                assert(lines@[i as int]@ == lines_of(note@.content)[i as int]);
            }
            score = raise_exec(score, ls);
            if ls.is_some() && snippets.len() < MAX_SNIPPETS {
                let sn = make_snippet(i, lines[i].as_str());
                let ghost before = strings_view(snippets@);
                snippets.push(sn);
                proof {
                    let all = snippets_upto(note@, q@, cs, i as int);
                    assert(strings_view(snippets@) =~= before.push(snippet(i as int, lines_of(note@.content)[i as int])));
                    assert(all.len() < 3);
                    assert(strings_view(snippets@) =~= first_three(snippets_upto(note@, q@, cs, i + 1)));
                }
            } else {
                proof {
                    let all = snippets_upto(note@, q@, cs, i as int);
                    let all2 = snippets_upto(note@, q@, cs, i + 1);
                    if ls.is_some() {
                        assert(all2 =~= all.push(snippet(i as int, lines_of(note@.content)[i as int])));
                        assert(first_three(all2) =~= first_three(all));
                    } else {
                        assert(all2 =~= all);
                    }
                }
            }
            i = i + 1;
        }
    }
    let tag_matches = crate::note::copy_strings(&q.required_tags);
    let project_matches = crate::note::copy_strings(&q.required_projects);
    if score > 0 || tag_matches.len() > 0 || project_matches.len() > 0 {
        let r = SearchResult {
            note: note.duplicate(),
            score,
            title_match,
            content_snippets: snippets,
            file_path: path.clone(),
            tag_matches,
            project_matches,
        };
        proof {
            if !free {
                assert(strings_view(r.content_snippets@) =~= Seq::<Seq<char>>::empty());
            }
        }
        Some(r)
    } else {
        None
    }
}

/// Evaluates one note: `None` when it is filtered out or does not match.
pub fn evaluate_note(
    note: &Note,
    path: &String,
    q: &ParsedQuery,
    case_sensitive: bool,
    allow_tags: &Vec<String>,
    allow_projects: &Vec<String>,
) -> (r: Option<SearchResult>)
    ensures
        match r {
            Some(x) => evaluate(
                note@,
                path@,
                q@,
                case_sensitive,
                strings_view(allow_tags@),
                strings_view(allow_projects@),
            ) == Some(x@),
            None => evaluate(
                note@,
                path@,
                q@,
                case_sensitive,
                strings_view(allow_tags@),
                strings_view(allow_projects@),
            ) is None,
        },
{
    let tags = lower_all(&note.tags);
    let raw_projects = extract_projects(note.content.as_str());
    let projects = lower_all(&raw_projects);
    let ok = passes_allow_exec(allow_tags, &tags) && passes_allow_exec(allow_projects, &projects)
        && all_present_exec(&q.required_tags, &tags) && all_present_exec(
        &q.required_projects,
        &projects,
    ) && none_present_exec(&q.excluded_tags, &tags) && none_present_exec(
        &q.excluded_projects,
        &projects,
    );
    if ok {
        evaluate_admitted_exec(note, path, q, case_sensitive)
    } else {
        None
    }
}

/// Errors of the search front end.
#[derive(Debug)]
pub enum StoreError {
    Io(String),
    HomeNotFound,
    Note(String),
}

/// The number of required tags and projects that a result matched.
pub open spec fn match_count(r: ResultModel) -> int {
    (r.tag_matches.len() + r.project_matches.len()) as int
}

/// Whether `a` ranks strictly below `b`: fewer matched tags and projects,
/// or as many and a lower score.
pub open spec fn ranks_below(a: ResultModel, b: ResultModel) -> bool {
    match_count(a) < match_count(b) || (match_count(a) == match_count(b) && a.score < b.score)
}

/// Inserts `x` before the first element that ranks below it.
pub open spec fn insert_ranked(r: Seq<ResultModel>, x: ResultModel) -> Seq<ResultModel>
    decreases r.len(),
{
    if r.len() == 0 {
        seq![x]
    } else if ranks_below(r[0], x) {
        seq![x] + r
    } else {
        seq![r[0]] + insert_ranked(r.drop_first(), x)
    }
}

/// Results ranked by matched tags and projects, then score, both
/// descending; results that tie keep their order.
pub open spec fn rank(s: Seq<ResultModel>) -> Seq<ResultModel>
    decreases s.len(),
{
    if s.len() == 0 {
        seq![]
    } else {
        insert_ranked(rank(s.drop_last()), s.last())
    }
}

pub open spec fn eval_entry(
    e: (Note, String),
    q: ParsedQueryModel,
    cs: bool,
    allow_tags: Seq<Seq<char>>,
    allow_projects: Seq<Seq<char>>,
) -> Seq<ResultModel> {
    match evaluate(e.0@, e.1@, q, cs, allow_tags, allow_projects) {
        Some(x) => seq![x],
        None => seq![],
    }
}

/// The results of the first `k` notes, in the order of the notes.
pub open spec fn matches_upto(
    notes: Seq<(Note, String)>,
    q: ParsedQueryModel,
    cs: bool,
    allow_tags: Seq<Seq<char>>,
    allow_projects: Seq<Seq<char>>,
    k: int,
) -> Seq<ResultModel>
    decreases k,
{
    if k <= 0 {
        seq![]
    } else {
        matches_upto(notes, q, cs, allow_tags, allow_projects, k - 1) + eval_entry(
            notes[k - 1],
            q,
            cs,
            allow_tags,
            allow_projects,
        )
    }
}

/// What a search over `notes` returns.
pub open spec fn search_spec(notes: Seq<(Note, String)>, q: ParsedQueryModel, o: SearchOptions) -> Seq<
    ResultModel,
> {
    rank(
        matches_upto(
            notes,
            q,
            o.case_sensitive,
            allow_list(opt_seq(&o.filter_tags)),
            allow_list(opt_seq(&o.filter_projects)),
            notes.len() as int,
        ),
    )
}

fn ranks_below_exec(a: &SearchResult, b: &SearchResult) -> (r: bool)
    ensures
        r == ranks_below(a@, b@),
{
    let ca = a.tag_matches.len() as u128 + a.project_matches.len() as u128;
    let cb = b.tag_matches.len() as u128 + b.project_matches.len() as u128;
    ca < cb || (ca == cb && a.score < b.score)
}

/// Inserts `x` into a ranked list at its place.
fn insert_result(ranked: &mut Vec<SearchResult>, x: SearchResult)
    ensures
        results_view(final(ranked)@) == insert_ranked(results_view(old(ranked)@), x@),
{
    let ghost v = results_view(ranked@);
    let mut p: usize = 0;
    assert(v.subrange(0, 0) + v.subrange(0, v.len() as int) =~= v);
    while p < ranked.len() && !ranks_below_exec(&ranked[p], &x)
        invariant
            0 <= p <= ranked@.len(),
            v == results_view(ranked@),
            insert_ranked(v, x@) == v.subrange(0, p as int) + insert_ranked(
                v.subrange(p as int, v.len() as int),
                x@,
            ),
        decreases ranked@.len() - p,
    {
        proof {
            let t = v.subrange(p as int, v.len() as int);
            assert(t[0] == v[p as int]);
            assert(t.drop_first() =~= v.subrange(p + 1, v.len() as int));
            assert(v.subrange(0, p + 1) =~= v.subrange(0, p as int).push(v[p as int]));
            assert(v.subrange(0, p as int) + insert_ranked(t, x@) =~= v.subrange(0, p + 1)
                + insert_ranked(v.subrange(p + 1, v.len() as int), x@));
        }
        p = p + 1;
    }
    ranked.insert(p, x);
    proof {
        let t = v.subrange(p as int, v.len() as int);
        if p < v.len() {
            assert(t[0] == v[p as int]);
        }
        assert(results_view(ranked@) =~= v.subrange(0, p as int) + insert_ranked(t, x@));
    }
}

/// Searches `notes` with a parsed query: keeps the notes that pass the
/// options' allow-lists and the query, scores them, and ranks them.
pub fn find_matching_notes_advanced(
    notes: &[(Note, String)],
    parsed_query: &ParsedQuery,
    options: &SearchOptions,
) -> (r: Result<Vec<SearchResult>, StoreError>)
    ensures
        r is Ok,
        r matches Ok(v) ==> results_view(v@) == search_spec(notes@, parsed_query@, *options),
{
    let allow_tags = build_allow_list(&options.filter_tags);
    let allow_projects = build_allow_list(&options.filter_projects);
    let ghost at = strings_view(allow_tags@);
    let ghost ap = strings_view(allow_projects@);
    let cs = options.case_sensitive;
    let mut ranked: Vec<SearchResult> = Vec::new();
    let mut i: usize = 0;
    while i < notes.len()
        invariant
            0 <= i <= notes@.len(),
            at == strings_view(allow_tags@),
            ap == strings_view(allow_projects@),
            results_view(ranked@) == rank(matches_upto(notes@, parsed_query@, cs, at, ap, i as int)),
        decreases notes@.len() - i,
    {
        let entry = &notes[i];
        let found = evaluate_note(&entry.0, &entry.1, parsed_query, cs, &allow_tags, &allow_projects);
        let ghost prev = matches_upto(notes@, parsed_query@, cs, at, ap, i as int);
        match found {
            Some(x) => {
                proof {
                    let next = matches_upto(notes@, parsed_query@, cs, at, ap, i + 1);
                    assert(next =~= prev.push(x@));
                    assert(next.drop_last() =~= prev);
                }
                insert_result(&mut ranked, x);
            },
            None => {
                proof {
                    assert(matches_upto(notes@, parsed_query@, cs, at, ap, i + 1) =~= prev);
                }
            },
        }
        i = i + 1;
    }
    Ok(ranked)
}

/// Whether `r` is in ranking order: no element ranks below a later one.
pub open spec fn is_ranked(r: Seq<ResultModel>) -> bool {
    forall|i: int, j: int| 0 <= i < j < r.len() ==> !ranks_below(#[trigger] r[i], #[trigger] r[j])
}

/// The results whose matched count is `c` and whose score is `score`.
pub open spec fn same_key(c: int, score: i64) -> spec_fn(ResultModel) -> bool {
    |y: ResultModel| match_count(y) == c && y.score == score
}

proof fn lemma_insert_keeps(r: Seq<ResultModel>, x: ResultModel, p: spec_fn(ResultModel) -> bool)
    requires
        forall|k: int| 0 <= k < r.len() ==> p(#[trigger] r[k]),
        p(x),
    ensures
        forall|k: int| 0 <= k < insert_ranked(r, x).len() ==> p(#[trigger] insert_ranked(r, x)[k]),
        insert_ranked(r, x).len() == r.len() + 1,
    decreases r.len(),
{
    if r.len() > 0 && !ranks_below(r[0], x) {
        let t = r.drop_first();
        assert forall|k: int| 0 <= k < t.len() implies p(#[trigger] t[k]) by {
            assert(t[k] == r[k + 1]);
        }
        lemma_insert_keeps(t, x, p);
        let ins = insert_ranked(r, x);
        assert forall|k: int| 0 <= k < ins.len() implies p(#[trigger] ins[k]) by {
            if k > 0 {
                assert(ins[k] == insert_ranked(t, x)[k - 1]);
            }
        }
    }
}

proof fn lemma_rank_keeps(s: Seq<ResultModel>, p: spec_fn(ResultModel) -> bool)
    requires
        forall|k: int| 0 <= k < s.len() ==> p(#[trigger] s[k]),
    ensures
        forall|k: int| 0 <= k < rank(s).len() ==> p(#[trigger] rank(s)[k]),
        rank(s).len() == s.len(),
    decreases s.len(),
{
    if s.len() > 0 {
        let d = s.drop_last();
        assert forall|k: int| 0 <= k < d.len() implies p(#[trigger] d[k]) by {
            assert(d[k] == s[k]);
        }
        lemma_rank_keeps(d, p);
        lemma_insert_keeps(rank(d), s.last(), p);
    }
}

pub open spec fn tokens_only_result(y: ResultModel) -> bool {
    y.score == BASELINE_SCORE && y.tag_matches.len() + y.project_matches.len() > 0
}

/// When a query has no free text and at least one required tag or
/// project, every result has the baseline score and at least one matched
/// tag or project.
pub proof fn lemma_tokens_only_results(notes: Seq<(Note, String)>, q: ParsedQueryModel, o: SearchOptions)
    requires
        q.text_query.len() == 0,
        q.required_tags.len() + q.required_projects.len() > 0,
    ensures
        forall|k: int|
            0 <= k < search_spec(notes, q, o).len() ==> tokens_only_result(
                #[trigger] search_spec(notes, q, o)[k],
            ),
{
    let at = allow_list(opt_seq(&o.filter_tags));
    let ap = allow_list(opt_seq(&o.filter_projects));
    let cs = o.case_sensitive;
    let p = |y: ResultModel| tokens_only_result(y);
    let m = matches_upto(notes, q, cs, at, ap, notes.len() as int);
    lemma_matches_keep(notes, q, cs, at, ap, notes.len() as int);
    assert forall|k: int| 0 <= k < m.len() implies #[trigger] p(m[k]) by {
        assert(tokens_only_result(m[k]));
    }
    lemma_rank_keeps(matches_upto(notes, q, cs, at, ap, notes.len() as int), p);
}

proof fn lemma_matches_keep(
    notes: Seq<(Note, String)>,
    q: ParsedQueryModel,
    cs: bool,
    at: Seq<Seq<char>>,
    ap: Seq<Seq<char>>,
    n: int,
)
    requires
        q.text_query.len() == 0,
        q.required_tags.len() + q.required_projects.len() > 0,
        0 <= n <= notes.len(),
    ensures
        forall|k: int|
            0 <= k < matches_upto(notes, q, cs, at, ap, n).len() ==> tokens_only_result(
                #[trigger] matches_upto(notes, q, cs, at, ap, n)[k],
            ),
    decreases n,
{
    if n > 0 {
        lemma_matches_keep(notes, q, cs, at, ap, n - 1);
        let prev = matches_upto(notes, q, cs, at, ap, n - 1);
        let e = eval_entry(notes[n - 1], q, cs, at, ap);
        assert forall|k: int| 0 <= k < e.len() implies tokens_only_result(#[trigger] e[k]) by {}
        let m = matches_upto(notes, q, cs, at, ap, n);
        assert forall|k: int| 0 <= k < m.len() implies tokens_only_result(#[trigger] m[k]) by {
            if k < prev.len() {
                assert(m[k] == prev[k]);
            } else {
                assert(m[k] == e[k - prev.len()]);
            }
        }
    }
}

proof fn lemma_insert_ranked_sorted(r: Seq<ResultModel>, x: ResultModel)
    requires
        is_ranked(r),
    ensures
        is_ranked(insert_ranked(r, x)),
        forall|k: int| 0 <= k < insert_ranked(r, x).len() ==> (#[trigger] insert_ranked(r, x)[k] == x
            || r.contains(insert_ranked(r, x)[k])),
    decreases r.len(),
{
    reveal_with_fuel(insert_ranked, 2);
    if r.len() > 0 {
        let t = r.drop_first();
        assert(is_ranked(t)) by {
            assert forall|i: int, j: int| 0 <= i < j < t.len() implies !ranks_below(#[trigger] t[i], #[trigger] t[j]) by {
                assert(t[i] == r[i + 1] && t[j] == r[j + 1]);
            }
        }
        if ranks_below(r[0], x) {
            let ins = seq![x] + r;
            assert forall|i: int, j: int| 0 <= i < j < ins.len() implies !ranks_below(#[trigger] ins[i], #[trigger] ins[j]) by {
                if i == 0 {
                    assert(ins[j] == r[j - 1]);
                    if j - 1 > 0 {
                        assert(!ranks_below(r[0], r[j - 1]));
                    }
                } else {
                    assert(ins[i] == r[i - 1] && ins[j] == r[j - 1]);
                }
            }
            assert forall|k: int| 0 <= k < ins.len() implies (#[trigger] ins[k] == x || r.contains(ins[k])) by {
                if k > 0 {
                    assert(ins[k] == r[k - 1]);
                }
            }
        } else {
            lemma_insert_ranked_sorted(t, x);
            let it = insert_ranked(t, x);
            let ins = seq![r[0]] + it;
            assert forall|k: int| 0 <= k < ins.len() implies (#[trigger] ins[k] == x || r.contains(ins[k])) by {
                if k == 0 {
                    assert(r[0] == ins[0]);
                } else {
                    assert(ins[k] == it[k - 1]);
                    if it[k - 1] != x {
                        let m = choose|m: int| 0 <= m < t.len() && t[m] == it[k - 1];
                        assert(r[m + 1] == ins[k]);
                    }
                }
            }
            assert forall|i: int, j: int| 0 <= i < j < ins.len() implies !ranks_below(#[trigger] ins[i], #[trigger] ins[j]) by {
                if i == 0 {
                    assert(ins[j] == it[j - 1]);
                    if it[j - 1] != x {
                        let m = choose|m: int| 0 <= m < t.len() && t[m] == it[j - 1];
                        assert(r[m + 1] == ins[j]);
                    }
                } else {
                    assert(ins[i] == it[i - 1] && ins[j] == it[j - 1]);
                }
            }
        }
    }
}

proof fn lemma_filter_single(x: ResultModel, f: spec_fn(ResultModel) -> bool)
    ensures
        seq![x].filter(f) == (if f(x) { seq![x] } else { Seq::<ResultModel>::empty() }),
{
    reveal(Seq::filter);
    let e = Seq::<ResultModel>::empty();
    assert(seq![x].drop_last() =~= e);
    assert(e.filter(f) == e);
    if f(x) {
        assert(e.push(x) =~= seq![x]);
    }
}

proof fn lemma_insert_ranked_filter(r: Seq<ResultModel>, x: ResultModel, c: int, sc: i64)
    requires
        is_ranked(r),
    ensures
        insert_ranked(r, x).filter(same_key(c, sc)) == (if same_key(c, sc)(x) {
            r.filter(same_key(c, sc)).push(x)
        } else {
            r.filter(same_key(c, sc))
        }),
    decreases r.len(),
{
    let f = same_key(c, sc);
    broadcast use Seq::filter_distributes_over_add;
    reveal(Seq::filter);
    lemma_filter_single(x, f);
    if r.len() == 0 {
        assert(insert_ranked(r, x) == seq![x]);
        assert(r.filter(f) == r);
        assert(r.push(x) =~= seq![x]);
    } else if ranks_below(r[0], x) {
        assert(insert_ranked(r, x) == seq![x] + r);
        assert(seq![x].drop_last() =~= Seq::<ResultModel>::empty());
        if f(x) {
            assert forall|k: int| 0 <= k < r.len() implies !f(#[trigger] r[k]) by {
                if k > 0 {
                    assert(!ranks_below(r[0], r[k]));
                }
            }
            r.lemma_all_neg_filter_empty(f);
            assert(seq![x].filter(f) =~= seq![x]);
            assert(r.filter(f).push(x) =~= seq![x]);
            assert(seq![x].filter(f) + r.filter(f) =~= seq![x]);
        } else {
            assert(seq![x].filter(f) + r.filter(f) =~= r.filter(f));
        }
    } else {
        let t = r.drop_first();
        assert(is_ranked(t)) by {
            assert forall|i: int, j: int| 0 <= i < j < t.len() implies !ranks_below(#[trigger] t[i], #[trigger] t[j]) by {
                assert(t[i] == r[i + 1] && t[j] == r[j + 1]);
            }
        }
        lemma_insert_ranked_filter(t, x, c, sc);
        assert(r =~= seq![r[0]] + t);
        assert(insert_ranked(r, x) == seq![r[0]] + insert_ranked(t, x));
        lemma_filter_single(r[0], f);
        if f(x) {
            assert((seq![r[0]].filter(f) + t.filter(f)).push(x) =~= seq![r[0]].filter(f) + t.filter(f).push(x));
        }
    }
}

/// Ranking puts results in order (matched tags and projects, then score,
/// both descending), and results that tie on both keep the order they had:
/// for every pair of keys, the results with that pair come out in the order
/// they went in. So repeated runs on the same input never swap two tied
/// results.
pub proof fn lemma_rank_stable(s: Seq<ResultModel>, c: int, score: i64)
    ensures
        is_ranked(rank(s)),
        rank(s).filter(same_key(c, score)) == s.filter(same_key(c, score)),
    decreases s.len(),
{
    reveal(Seq::filter);
    if s.len() > 0 {
        lemma_rank_stable(s.drop_last(), c, score);
        lemma_insert_ranked_sorted(rank(s.drop_last()), s.last());
        lemma_insert_ranked_filter(rank(s.drop_last()), s.last(), c, score);
    }
}

/// Lexicographic order on strings, character by character (the order of
/// std's `Ord` on strings).
pub open spec fn lex_lt(a: Seq<char>, b: Seq<char>) -> bool
    decreases a.len(),
{
    if b.len() == 0 {
        false
    } else if a.len() == 0 {
        true
    } else if a[0] != b[0] {
        (a[0] as u32) < (b[0] as u32)
    } else {
        lex_lt(a.drop_first(), b.drop_first())
    }
}

fn lex_less(a: &Vec<char>, b: &Vec<char>) -> (r: bool)
    ensures
        r == lex_lt(a@, b@),
{
    let mut i: usize = 0;
    assert(a@.subrange(0, a@.len() as int) =~= a@);
    assert(b@.subrange(0, b@.len() as int) =~= b@);
    while i < a.len() && i < b.len() && a[i] == b[i]
        invariant
            0 <= i <= a@.len(),
            i <= b@.len(),
            lex_lt(a@, b@) == lex_lt(a@.subrange(i as int, a@.len() as int), b@.subrange(i as int, b@.len() as int)),
        decreases a@.len() - i,
    {
        proof {
            let x = a@.subrange(i as int, a@.len() as int);
            let y = b@.subrange(i as int, b@.len() as int);
            assert(x.drop_first() =~= a@.subrange(i + 1, a@.len() as int));
            assert(y.drop_first() =~= b@.subrange(i + 1, b@.len() as int));
        }
        i = i + 1;
    }
    if i >= b.len() {
        false
    } else if i >= a.len() {
        true
    } else {
        (a[i] as u32) < (b[i] as u32)
    }
}

/// A name with the number of times it occurs.
pub open spec fn entry_view(e: (String, usize)) -> (Seq<char>, nat) {
    (e.0@, e.1 as nat)
}

pub open spec fn entries_view(v: Seq<(String, usize)>) -> Seq<(Seq<char>, nat)> {
    v.map_values(|e: (String, usize)| entry_view(e))
}

/// The first entry for `x` in `t`, or -1.
pub open spec fn entry_index(t: Seq<(Seq<char>, nat)>, x: Seq<char>) -> int
    decreases t.len(),
{
    if t.len() == 0 {
        -1
    } else {
        let k = entry_index(t.drop_last(), x);
        if k >= 0 {
            k
        } else if t.last().0 == x {
            t.len() - 1
        } else {
            -1
        }
    }
}

/// The distinct names of `s` in order of first appearance, each with its
/// number of occurrences.
pub open spec fn tally(s: Seq<Seq<char>>) -> Seq<(Seq<char>, nat)>
    decreases s.len(),
{
    if s.len() == 0 {
        seq![]
    } else {
        let t = tally(s.drop_last());
        let k = entry_index(t, s.last());
        if k >= 0 {
            t.update(k, (s.last(), t[k].1 + 1))
        } else {
            t.push((s.last(), 1))
        }
    }
}

/// Whether entry `a` is listed after entry `b`: a lower count, or the
/// same count and a later name.
pub open spec fn listed_after(a: (Seq<char>, nat), b: (Seq<char>, nat)) -> bool {
    a.1 < b.1 || (a.1 == b.1 && lex_lt(b.0, a.0))
}

pub open spec fn insert_listed(r: Seq<(Seq<char>, nat)>, x: (Seq<char>, nat)) -> Seq<(Seq<char>, nat)>
    decreases r.len(),
{
    if r.len() == 0 {
        seq![x]
    } else if listed_after(r[0], x) {
        seq![x] + r
    } else {
        seq![r[0]] + insert_listed(r.drop_first(), x)
    }
}

/// Entries ordered by count descending, then name ascending.
pub open spec fn listing_order(s: Seq<(Seq<char>, nat)>) -> Seq<(Seq<char>, nat)>
    decreases s.len(),
{
    if s.len() == 0 {
        seq![]
    } else {
        insert_listed(listing_order(s.drop_last()), s.last())
    }
}

proof fn lemma_entry_index(t: Seq<(Seq<char>, nat)>, x: Seq<char>)
    ensures
        -1 <= entry_index(t, x) < t.len(),
        entry_index(t, x) >= 0 ==> t[entry_index(t, x)].0 == x && forall|m: int| 0 <= m < entry_index(t, x) ==> t[m].0 != x,
        entry_index(t, x) < 0 ==> forall|m: int| 0 <= m < t.len() ==> t[m].0 != x,
    decreases t.len(),
{
    if t.len() > 0 {
        let d = t.drop_last();
        lemma_entry_index(d, x);
        assert forall|m: int| 0 <= m < d.len() implies d[m] == t[m] by {}
    }
}

fn find_entry(t: &Vec<(String, usize)>, x: &String) -> (r: Option<usize>)
    ensures
        match r {
            Some(k) => k as int == entry_index(entries_view(t@), x@),
            None => entry_index(entries_view(t@), x@) < 0,
        },
{
    proof {
        lemma_entry_index(entries_view(t@), x@);
    }
    let mut i: usize = 0;
    while i < t.len()
        invariant
            0 <= i <= t@.len(),
            forall|m: int| 0 <= m < i ==> t@[m].0@ != x@,
        decreases t@.len() - i,
    {
        if crate::text::same_chars(t[i].0.as_str(), x.as_str()) {
            proof {
                let ev = entries_view(t@);
                lemma_entry_index(ev, x@);
                let k = entry_index(ev, x@);
                assert(ev[i as int].0 == x@);
                if k < 0 {
                    assert(ev[i as int].0 != x@);
                } else if k > i {
                    assert(ev[i as int].0 != x@);
                } else if k < i {
                    assert(ev[k].0 == t@[k].0@);
                }
            }
            return Some(i);
        }
        i = i + 1;
    }
    proof {
        let ev = entries_view(t@);
        let k = entry_index(ev, x@);
        if k >= 0 {
            assert(ev[k].0 == t@[k].0@);
        }
    }
    None
}

/// The distinct names with their counts, in order of first appearance.
pub fn tally_names(names: &Vec<String>) -> (r: Vec<(String, usize)>)
    ensures
        entries_view(r@) == tally(strings_view(names@)),
{
    let ghost all = strings_view(names@);
    let mut t: Vec<(String, usize)> = Vec::new();
    let mut i: usize = 0;
    while i < names.len()
        invariant
            0 <= i <= names@.len(),
            all == strings_view(names@),
            entries_view(t@) == tally(all.subrange(0, i as int)),
            forall|m: int| 0 <= m < t@.len() ==> t@[m].1 <= i,
        decreases names@.len() - i,
    {
        let ghost prefix = all.subrange(0, i as int);
        proof {
            lemma_entry_index(entries_view(t@), names@[i as int]@);
            assert(all.subrange(0, i + 1).drop_last() =~= prefix);
            assert(all.subrange(0, i + 1).last() == names@[i as int]@);
        }
        match find_entry(&t, &names[i]) {
            Some(k) => {
                let c = t[k].1;
                let name = t[k].0.clone();
                let ghost before = entries_view(t@);
                t.set(k, (name, c + 1));
                proof {
                    lemma_entry_index(before, names@[i as int]@);
                    assert(entries_view(t@) =~= before.update(k as int, (names@[i as int]@, before[k as int].1 + 1)));
                }
            },
            None => {
                let ghost before = entries_view(t@);
                t.push((names[i].clone(), 1));
                assert(entries_view(t@) =~= before.push((names@[i as int]@, 1)));
            },
        }
        i = i + 1;
    }
    assert(all.subrange(0, i as int) =~= all);
    t
}

fn listed_after_exec(a: &(String, usize), b: &(String, usize)) -> (r: bool)
    ensures
        r == listed_after(entry_view(*a), entry_view(*b)),
{
    if a.1 != b.1 {
        return a.1 < b.1;
    }
    let x = crate::text::chars_of(b.0.as_str());
    let y = crate::text::chars_of(a.0.as_str());
    lex_less(&x, &y)
}

/// Orders entries by count descending, then name ascending.
pub fn order_listing(entries: Vec<(String, usize)>) -> (r: Vec<(String, usize)>)
    ensures
        entries_view(r@) == listing_order(entries_view(entries@)),
{
    let ghost orig = entries_view(entries@);
    let mut out: Vec<(String, usize)> = Vec::new();
    let mut i: usize = 0;
    while i < entries.len()
        invariant
            0 <= i <= entries@.len(),
            orig == entries_view(entries@),
            entries_view(out@) == listing_order(orig.subrange(0, i as int)),
        decreases entries@.len() - i,
    {
        let x = (entries[i].0.clone(), entries[i].1);
        proof {
            assert(orig.subrange(0, i + 1).drop_last() =~= orig.subrange(0, i as int));
            assert(orig.subrange(0, i + 1).last() == entry_view(x));
        }
        let ghost v = entries_view(out@);
        let mut p: usize = 0;
        assert(v.subrange(0, 0) + v.subrange(0, v.len() as int) =~= v);
        while p < out.len() && !listed_after_exec(&out[p], &x)
            invariant
                0 <= p <= out@.len(),
                v == entries_view(out@),
                insert_listed(v, entry_view(x)) == v.subrange(0, p as int) + insert_listed(
                    v.subrange(p as int, v.len() as int),
                    entry_view(x),
                ),
            decreases out@.len() - p,
        {
            proof {
                let t = v.subrange(p as int, v.len() as int);
                assert(t[0] == v[p as int]);
                assert(t.drop_first() =~= v.subrange(p + 1, v.len() as int));
                assert(v.subrange(0, p + 1) =~= v.subrange(0, p as int).push(v[p as int]));
                assert(v.subrange(0, p as int) + insert_listed(t, entry_view(x)) =~= v.subrange(0, p + 1)
                    + insert_listed(v.subrange(p + 1, v.len() as int), entry_view(x)));
            }
            p = p + 1;
        }
        out.insert(p, x);
        proof {
            let t = v.subrange(p as int, v.len() as int);
            if p < v.len() {
                assert(t[0] == v[p as int]);
            }
            assert(entries_view(out@) =~= v.subrange(0, p as int) + insert_listed(t, entry_view(x)));
        }
        i = i + 1;
    }
    assert(orig.subrange(0, i as int) =~= orig);
    out
}

/// All tags of the notes, in order.
pub open spec fn all_tags_upto(notes: Seq<(Note, String)>, k: int) -> Seq<Seq<char>>
    decreases k,
{
    if k <= 0 {
        seq![]
    } else {
        all_tags_upto(notes, k - 1) + notes[k - 1].0@.tags
    }
}

/// All projects written in the notes' content, in order.
pub open spec fn all_projects_upto(notes: Seq<(Note, String)>, k: int) -> Seq<Seq<char>>
    decreases k,
{
    if k <= 0 {
        seq![]
    } else {
        all_projects_upto(notes, k - 1) + note_projects(notes[k - 1].0@)
    }
}

fn append_names(out: &mut Vec<String>, names: &Vec<String>)
    ensures
        strings_view(final(out)@) == strings_view(old(out)@) + strings_view(names@),
{
    let mut i: usize = 0;
    while i < names.len()
        invariant
            0 <= i <= names@.len(),
            strings_view(out@) == strings_view(old(out)@) + strings_view(names@.subrange(0, i as int)),
        decreases names@.len() - i,
    {
        let ghost before = strings_view(out@);
        out.push(names[i].clone());
        assert(strings_view(out@) =~= before.push(names@[i as int]@));
        assert(strings_view(names@.subrange(0, i + 1)) =~= strings_view(names@.subrange(0, i as int)).push(names@[i as int]@));
        i = i + 1;
    }
    assert(names@.subrange(0, i as int) =~= names@);
}

/// Every tag in the notes with the number of times it occurs, by count
/// descending, then name ascending.
pub fn list_tag_counts(notes: &[(Note, String)]) -> (r: Vec<(String, usize)>)
    ensures
        entries_view(r@) == listing_order(tally(all_tags_upto(notes@, notes@.len() as int))),
{
    let mut names: Vec<String> = Vec::new();
    let mut i: usize = 0;
    while i < notes.len()
        invariant
            0 <= i <= notes@.len(),
            strings_view(names@) == all_tags_upto(notes@, i as int),
        decreases notes@.len() - i,
    {
        append_names(&mut names, &notes[i].0.tags);
        i = i + 1;
    }
    order_listing(tally_names(&names))
}

/// Every project in the notes' content with the number of times it
/// occurs, by count descending, then name ascending.
pub fn list_project_counts(notes: &[(Note, String)]) -> (r: Vec<(String, usize)>)
    ensures
        entries_view(r@) == listing_order(tally(all_projects_upto(notes@, notes@.len() as int))),
{
    let mut names: Vec<String> = Vec::new();
    let mut i: usize = 0;
    while i < notes.len()
        invariant
            0 <= i <= notes@.len(),
            strings_view(names@) == all_projects_upto(notes@, i as int),
        decreases notes@.len() - i,
    {
        let projects = extract_projects(notes[i].0.content.as_str());
        append_names(&mut names, &projects);
        i = i + 1;
    }
    order_listing(tally_names(&names))
}

/// What a search over loaded notes comes to: a listing of tags or of
/// projects, nothing found (with the parsed query, to explain it), or the
/// ranked results.
#[derive(Debug)]
pub enum SearchOutcome {
    Tags(Vec<(String, usize)>),
    Projects(Vec<(String, usize)>),
    NoResults(ParsedQuery),
    Results(Vec<SearchResult>),
}

/// Runs a search as the options ask: a tag listing, a project listing,
/// or the query.
pub fn run_search(notes: &[(Note, String)], options: &SearchOptions) -> (r: SearchOutcome)
    ensures
        options.list_tags ==> (r matches SearchOutcome::Tags(v) && entries_view(v@) == listing_order(
            tally(all_tags_upto(notes@, notes@.len() as int)),
        )),
        !options.list_tags && options.list_projects ==> (r matches SearchOutcome::Projects(v)
            && entries_view(v@) == listing_order(tally(all_projects_upto(notes@, notes@.len() as int)))),
        !options.list_tags && !options.list_projects ==> match r {
            SearchOutcome::NoResults(q) => q@ == crate::query::parse_spec(options.query@) && search_spec(
                notes@,
                q@,
                *options,
            ).len() == 0,
            SearchOutcome::Results(v) => results_view(v@) == search_spec(
                notes@,
                crate::query::parse_spec(options.query@),
                *options,
            ) && v@.len() > 0,
            _ => false,
        },
{
    if options.list_tags {
        return SearchOutcome::Tags(list_tag_counts(notes));
    }
    if options.list_projects {
        return SearchOutcome::Projects(list_project_counts(notes));
    }
    let q = crate::query::parse_search_query(options.query.as_str());
    match find_matching_notes_advanced(notes, &q, options) {
        Ok(results) => {
            if results.len() == 0 {
                SearchOutcome::NoResults(q)
            } else {
                SearchOutcome::Results(results)
            }
        },
        Err(_) => SearchOutcome::NoResults(q),
    }
}

/// Searches with a plain query: no allow-lists, no listing, case
/// insensitive.
pub fn search_notes(notes: &[(Note, String)], query: &str) -> (r: SearchOutcome)
    ensures
        match r {
            SearchOutcome::NoResults(q) => q@ == crate::query::parse_spec(query@) && rank(
                matches_upto(notes@, q@, false, seq![], seq![], notes@.len() as int),
            ).len() == 0,
            SearchOutcome::Results(v) => v@.len() > 0 && results_view(v@) == rank(
                matches_upto(notes@, crate::query::parse_spec(query@), false, seq![], seq![], notes@.len() as int),
            ),
            _ => false,
        },
{
    let options = SearchOptions {
        query: crate::text::string_from_chars(crate::text::chars_of(query).as_slice()),
        filter_tags: None,
        filter_projects: None,
        list_tags: false,
        list_projects: false,
        case_sensitive: false,
    };
    run_search(notes, &options)
}

/// What a line typed at the results prompt asks for.
#[derive(Debug, PartialEq, Eq, Structural)]
pub enum ResultChoice {
    Quit,
    Help,
    /// Open the result at this position (from zero).
    Open(usize),
    /// A number that is not the number of a result.
    InvalidNumber,
    InvalidInput,
}

pub open spec fn digit_value(c: char) -> int {
    (c as u32) as int - 48
}

pub open spec fn is_digit(c: char) -> bool {
    48 <= (c as u32) && (c as u32) <= 57
}

/// The value of a run of decimal digits.
pub open spec fn digits_value(d: Seq<char>) -> int
    decreases d.len(),
{
    if d.len() == 0 {
        0
    } else {
        digits_value(d.drop_last()) * 10 + digit_value(d.last())
    }
}

/// The digits of a number as std reads an unsigned integer: an optional
/// `+` and then the digits.
pub open spec fn unsigned_digits(t: Seq<char>) -> Seq<char> {
    if t.len() > 0 && t[0] == '+' {
        t.drop_first()
    } else {
        t
    }
}

/// The number that `t` writes, when it writes one that fits in `usize`.
pub open spec fn number_of(t: Seq<char>) -> Option<int> {
    let d = unsigned_digits(t);
    if d.len() > 0 && (forall|k: int| 0 <= k < d.len() ==> is_digit(#[trigger] d[k])) && digits_value(d)
        <= usize::MAX {
        Some(digits_value(d))
    } else {
        None
    }
}

/// What a trimmed line at the results prompt asks for, with `count`
/// results shown: `q` or nothing quits, `h` asks for help, a number
/// opens that result.
pub open spec fn choice_of(t: Seq<char>, count: int) -> ResultChoice {
    if t.len() == 0 || t == seq!['q'] {
        ResultChoice::Quit
    } else if t == seq!['h'] {
        ResultChoice::Help
    } else {
        match number_of(t) {
            Some(n) => if 1 <= n <= count {
                ResultChoice::Open((n - 1) as usize)
            } else {
                ResultChoice::InvalidNumber
            },
            None => ResultChoice::InvalidInput,
        }
    }
}

proof fn lemma_digits_value_grows(d: Seq<char>, i: int)
    requires
        0 <= i <= d.len(),
        forall|k: int| 0 <= k < d.len() ==> is_digit(#[trigger] d[k]),
    ensures
        0 <= digits_value(d.subrange(0, i)) <= digits_value(d),
    decreases d.len() - i,
{
    if i < d.len() {
        lemma_digits_value_grows(d, i + 1);
        let p = d.subrange(0, i + 1);
        assert(p.drop_last() =~= d.subrange(0, i));
        assert(is_digit(d[i]));
        assert(digits_value(p) == digits_value(d.subrange(0, i)) * 10 + digit_value(d[i]));
        assert(digits_value(d.subrange(0, i)) <= digits_value(p)) by (nonlinear_arith)
            requires
                digits_value(p) == digits_value(d.subrange(0, i)) * 10 + digit_value(d[i]),
                digit_value(d[i]) >= 0,
                digits_value(d.subrange(0, i + 1)) >= 0,
                p == d.subrange(0, i + 1),
        ;
    } else {
        assert(d.subrange(0, i) =~= d);
        lemma_digits_nonneg(d);
    }
}

proof fn lemma_digits_nonneg(d: Seq<char>)
    requires
        forall|k: int| 0 <= k < d.len() ==> is_digit(#[trigger] d[k]),
    ensures
        digits_value(d) >= 0,
    decreases d.len(),
{
    if d.len() > 0 {
        let q = d.drop_last();
        assert forall|k: int| 0 <= k < q.len() implies is_digit(#[trigger] q[k]) by {
            assert(q[k] == d[k]);
        }
        lemma_digits_nonneg(q);
        assert(is_digit(d.last()));
        assert(digits_value(q) * 10 >= 0) by (nonlinear_arith)
            requires
                digits_value(q) >= 0,
        ;
    }
}

fn read_number(t: &Vec<char>) -> (r: Option<usize>)
    ensures
        match r {
            Some(n) => number_of(t@) == Some(n as int),
            None => number_of(t@) is None,
        },
{
    let start: usize = if t.len() > 0 && t[0] == '+' {
        1
    } else {
        0
    };
    let ghost d = unsigned_digits(t@);
    assert(d =~= t@.subrange(start as int, t@.len() as int));
    if start >= t.len() {
        return None;
    }
    let mut acc: usize = 0;
    let mut i: usize = start;
    assert(d.subrange(0, 0) =~= Seq::<char>::empty());
    while i < t.len()
        invariant
            start <= i <= t@.len(),
            d == t@.subrange(start as int, t@.len() as int),
            d == unsigned_digits(t@),
            d.len() > 0,
            forall|k: int| 0 <= k < i - start ==> is_digit(#[trigger] d[k]),
            acc as int == digits_value(d.subrange(0, i - start)),
        decreases t@.len() - i,
    {
        let c = t[i];
        #[verifier::truncate]
        let n = c as u32;
        if n < 48 || n > 57 {
            assert(d[i - start] == t@[i as int]);
            assert(!is_digit(d[i - start]));
            return None;
        }
        let dig = (n - 48) as usize;
        proof {
            let p = d.subrange(0, i - start + 1);
            assert(p.drop_last() =~= d.subrange(0, i - start));
            assert(d[i - start] == t@[i as int]);
            assert(p.last() == c);
            assert(is_digit(c));
            assert(forall|k: int| 0 <= k < i - start + 1 ==> is_digit(#[trigger] d[k]));
        }
        if acc > (usize::MAX - dig) / 10 {
            proof {
                let p = d.subrange(0, i - start + 1);
                assert(acc * 10 + dig > usize::MAX) by (nonlinear_arith)
                    requires
                        acc > (usize::MAX - dig) / 10,
                        dig <= 9,
                ;
                assert(digits_value(p) == acc * 10 + dig);
                if forall|k: int| 0 <= k < d.len() ==> is_digit(#[trigger] d[k]) {
                    lemma_digits_value_grows(d, i - start + 1);
                }
            }
            return None;
        }
        proof {
            assert(acc * 10 + dig <= usize::MAX) by (nonlinear_arith)
                requires
                    acc <= (usize::MAX - dig) / 10,
                    dig <= 9,
            ;
        }
        acc = acc * 10 + dig;
        i = i + 1;
    }
    assert(d.subrange(0, i - start) =~= d);
    Some(acc)
}

/// Reads a line typed at the results prompt.
pub fn choose_result(input: &str, count: usize) -> (r: ResultChoice)
    ensures
        r == choice_of(trim_of(input@), count as int),
{
    let t = crate::text::trim_str(input);
    let cs = crate::text::chars_of(t.as_str());
    if cs.len() == 0 || (cs.len() == 1 && cs[0] == 'q') {
        proof {
            if cs@.len() == 1 {
                assert(cs@ =~= seq!['q']);
            }
        }
        return ResultChoice::Quit;
    }
    if cs.len() == 1 && cs[0] == 'h' {
        assert(cs@ =~= seq!['h']);
        return ResultChoice::Help;
    }
    proof {
        if cs@ == seq!['q'] || cs@ == seq!['h'] {
            assert(cs@.len() == 1);
        }
    }
    match read_number(&cs) {
        Some(n) => if 1 <= n && n <= count {
            ResultChoice::Open(n - 1)
        } else {
            ResultChoice::InvalidNumber
        },
        None => ResultChoice::InvalidInput,
    }
}

} // verus!
