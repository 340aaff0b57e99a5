//! The query engine: a query string mixes free text with `#tag`,
//! `+project`, `-#tag` and `-+project` tokens. Parsing pulls the tokens
//! out; evaluation keeps the notes that satisfy them and scores the free
//! text; ranking orders the results.

use vstd::prelude::*;
use crate::text::{chars_of, push_str_chars, is_word_char, lemma_word_end, scan_word, slice_of, string_from_chars, strings_view, trim_of, trim_str, word_char, word_end};

verus! {

pub open spec fn is_marker(c: char) -> bool {
    c == '#' || c == '+'
}

/// Length of the run of word characters at the front of `s`.
pub open spec fn word_len(s: Seq<char>) -> nat
    decreases s.len(),
{
    if s.len() > 0 && is_word_char(s[0]) {
        1 + word_len(s.drop_first())
    } else {
        0
    }
}

/// Where the name of a token at the front of `s` starts: 1 for `#w` and
/// `+w`, 2 for `-#w` and `-+w`, 0 when `s` does not start with a token.
pub open spec fn name_start(s: Seq<char>) -> int {
    if s.len() >= 2 && is_marker(s[0]) && is_word_char(s[1]) {
        1
    } else if s.len() >= 3 && s[0] == '-' && is_marker(s[1]) && is_word_char(s[2]) {
        2
    } else {
        0
    }
}

/// The tokens and the left-over text of a query, before trimming.
pub struct QueryScan {
    pub required_tags: Seq<Seq<char>>,
    pub required_projects: Seq<Seq<char>>,
    pub excluded_tags: Seq<Seq<char>>,
    pub excluded_projects: Seq<Seq<char>>,
    pub rest: Seq<char>,
}

pub open spec fn empty_scan() -> QueryScan {
    QueryScan {
        required_tags: seq![],
        required_projects: seq![],
        excluded_tags: seq![],
        excluded_projects: seq![],
        rest: seq![],
    }
}

/// `a` followed by `b`, field by field.
pub open spec fn join_scans(a: QueryScan, b: QueryScan) -> QueryScan {
    QueryScan {
        required_tags: a.required_tags + b.required_tags,
        required_projects: a.required_projects + b.required_projects,
        excluded_tags: a.excluded_tags + b.excluded_tags,
        excluded_projects: a.excluded_projects + b.excluded_projects,
        rest: a.rest + b.rest,
    }
}

/// One token: a name with its marker and whether it is an exclusion.
pub open spec fn token_scan(marker: char, excluded: bool, name: Seq<char>) -> QueryScan {
    QueryScan {
        required_tags: if marker == '#' && !excluded { seq![name] } else { seq![] },
        required_projects: if marker == '+' && !excluded { seq![name] } else { seq![] },
        excluded_tags: if marker == '#' && excluded { seq![name] } else { seq![] },
        excluded_projects: if marker == '+' && excluded { seq![name] } else { seq![] },
        rest: seq![],
    }
}

pub open spec fn char_scan(c: char) -> QueryScan {
    QueryScan { rest: seq![c], ..empty_scan() }
}

/// Scans a query from left to right: each token is taken whole (its name
/// is the longest run of word characters after the marker); every other
/// character is left over.
pub open spec fn scan(s: Seq<char>) -> QueryScan
    decreases s.len(),
{
    if s.len() == 0 {
        empty_scan()
    } else {
        let w = name_start(s);
        if w > 0 {
            let e = w + word_len(s.subrange(w, s.len() as int));
            if w < e <= s.len() {
                join_scans(
                    token_scan(s[w - 1], w == 2, s.subrange(w, e)),
                    scan(s.subrange(e, s.len() as int)),
                )
            } else {
                empty_scan()
            }
        } else {
            join_scans(char_scan(s[0]), scan(s.drop_first()))
        }
    }
}

/// A parsed query: the free text is what remains once the tokens are
/// taken out, trimmed.
#[derive(Debug)]
pub struct ParsedQuery {
    pub text_query: String,
    pub required_tags: Vec<String>,
    pub required_projects: Vec<String>,
    pub excluded_tags: Vec<String>,
    pub excluded_projects: Vec<String>,
}

pub struct ParsedQueryModel {
    pub text_query: Seq<char>,
    pub required_tags: Seq<Seq<char>>,
    pub required_projects: Seq<Seq<char>>,
    pub excluded_tags: Seq<Seq<char>>,
    pub excluded_projects: Seq<Seq<char>>,
}

impl View for ParsedQuery {
    type V = ParsedQueryModel;

    open spec fn view(&self) -> ParsedQueryModel {
        ParsedQueryModel {
            text_query: self.text_query@,
            required_tags: strings_view(self.required_tags@),
            required_projects: strings_view(self.required_projects@),
            excluded_tags: strings_view(self.excluded_tags@),
            excluded_projects: strings_view(self.excluded_projects@),
        }
    }
}

/// What a query string parses to.
pub open spec fn parse_spec(s: Seq<char>) -> ParsedQueryModel {
    let sc = scan(s);
    ParsedQueryModel {
        text_query: trim_of(sc.rest),
        required_tags: sc.required_tags,
        required_projects: sc.required_projects,
        excluded_tags: sc.excluded_tags,
        excluded_projects: sc.excluded_projects,
    }
}

proof fn lemma_join_assoc(a: QueryScan, b: QueryScan, c: QueryScan)
    ensures
        join_scans(join_scans(a, b), c) == join_scans(a, join_scans(b, c)),
{
    assert(join_scans(join_scans(a, b), c).required_tags =~= join_scans(a, join_scans(b, c)).required_tags);
    assert(join_scans(join_scans(a, b), c).required_projects =~= join_scans(a, join_scans(b, c)).required_projects);
    assert(join_scans(join_scans(a, b), c).excluded_tags =~= join_scans(a, join_scans(b, c)).excluded_tags);
    assert(join_scans(join_scans(a, b), c).excluded_projects =~= join_scans(a, join_scans(b, c)).excluded_projects);
    assert(join_scans(join_scans(a, b), c).rest =~= join_scans(a, join_scans(b, c)).rest);
}

proof fn lemma_join_empty(a: QueryScan)
    ensures
        join_scans(empty_scan(), a) == a,
        join_scans(a, empty_scan()) == a,
{
    assert(join_scans(empty_scan(), a).required_tags =~= a.required_tags);
    assert(join_scans(empty_scan(), a).required_projects =~= a.required_projects);
    assert(join_scans(empty_scan(), a).excluded_tags =~= a.excluded_tags);
    assert(join_scans(empty_scan(), a).excluded_projects =~= a.excluded_projects);
    assert(join_scans(empty_scan(), a).rest =~= a.rest);
    assert(join_scans(a, empty_scan()).required_tags =~= a.required_tags);
    assert(join_scans(a, empty_scan()).required_projects =~= a.required_projects);
    assert(join_scans(a, empty_scan()).excluded_tags =~= a.excluded_tags);
    assert(join_scans(a, empty_scan()).excluded_projects =~= a.excluded_projects);
    assert(join_scans(a, empty_scan()).rest =~= a.rest);
}

proof fn lemma_word_len_bound(s: Seq<char>)
    ensures
        word_len(s) <= s.len(),
        forall|k: int| 0 <= k < word_len(s) ==> is_word_char(#[trigger] s[k]),
        word_len(s) < s.len() ==> !is_word_char(s[word_len(s) as int]),
    decreases s.len(),
{
    if s.len() > 0 && is_word_char(s[0]) {
        lemma_word_len_bound(s.drop_first());
        assert forall|k: int| 0 <= k < word_len(s) implies is_word_char(#[trigger] s[k]) by {
            if k > 0 {
                assert(s[k] == s.drop_first()[k - 1]);
            }
        }
    }
}

proof fn lemma_word_len_shift(s: Seq<char>, i: int)
    requires
        0 <= i <= s.len(),
    ensures
        word_len(s.subrange(i, s.len() as int)) == word_end(s, i) - i,
    decreases s.len() - i,
{
    let t = s.subrange(i, s.len() as int);
    if i < s.len() && is_word_char(s[i]) {
        lemma_word_len_shift(s, i + 1);
        assert(t.drop_first() =~= s.subrange(i + 1, s.len() as int));
    }
}

/// Pushes `v[from..to]` as a string onto `out`.
fn push_name(out: &mut Vec<String>, v: &Vec<char>, from: usize, to: usize)
    requires
        from <= to <= v@.len(),
    ensures
        strings_view(final(out)@) == strings_view(old(out)@).push(v@.subrange(from as int, to as int)),
{
    let name = string_from_chars(slice_of(v.as_slice(), from, to).as_slice());
    out.push(name);
    assert(strings_view(final(out)@) =~= strings_view(old(out)@).push(v@.subrange(from as int, to as int)));
}

/// Splits a query into free text and tag / project requirements and
/// exclusions.
pub fn parse_search_query(query: &str) -> (r: ParsedQuery)
    ensures
        r@ == parse_spec(query@),
{
    let s = chars_of(query);
    let mut required_tags: Vec<String> = Vec::new();
    let mut required_projects: Vec<String> = Vec::new();
    let mut excluded_tags: Vec<String> = Vec::new();
    let mut excluded_projects: Vec<String> = Vec::new();
    let mut rest: Vec<char> = Vec::new();
    let mut i: usize = 0;
    proof {
        lemma_join_empty(scan(s@));
        assert(s@.subrange(0, s@.len() as int) =~= s@);
        assert(strings_view(required_tags@) =~= Seq::<Seq<char>>::empty());
        assert(strings_view(required_projects@) =~= Seq::<Seq<char>>::empty());
        assert(strings_view(excluded_tags@) =~= Seq::<Seq<char>>::empty());
        assert(strings_view(excluded_projects@) =~= Seq::<Seq<char>>::empty());
    }
    while i < s.len()
        invariant
            s@ == query@,
            0 <= i <= s@.len(),
            join_scans(
                QueryScan {
                    required_tags: strings_view(required_tags@),
                    required_projects: strings_view(required_projects@),
                    excluded_tags: strings_view(excluded_tags@),
                    excluded_projects: strings_view(excluded_projects@),
                    rest: rest@,
                },
                scan(s@.subrange(i as int, s@.len() as int)),
            ) == scan(s@),
        decreases s@.len() - i,
    {
        let ghost t = s@.subrange(i as int, s@.len() as int);
        let ghost acc = QueryScan {
            required_tags: strings_view(required_tags@),
            required_projects: strings_view(required_projects@),
            excluded_tags: strings_view(excluded_tags@),
            excluded_projects: strings_view(excluded_projects@),
            rest: rest@,
        };
        let c = s[i];
        let w: usize = if (c == '#' || c == '+') && i + 1 < s.len() && word_char(s[i + 1]) {
            1
        } else if c == '-' && s.len() - i > 2 && (s[i + 1] == '#' || s[i + 1] == '+') && word_char(
            s[i + 2],
        ) {
            2
        } else {
            0
        };
        assert(w as int == name_start(t));
        if w > 0 {
            let start = i + w;
            let e = scan_word(s.as_slice(), start);
            proof {
                lemma_word_end(s@, start as int);
                lemma_word_len_shift(s@, start as int);
                assert(t.subrange(w as int, t.len() as int) =~= s@.subrange(start as int, s@.len() as int));
                assert(t.subrange(w as int, (e - i) as int) =~= s@.subrange(start as int, e as int));
                assert(t.subrange((e - i) as int, t.len() as int) =~= s@.subrange(e as int, s@.len() as int));
                assert(s@[start - 1] == t[w - 1]);
            }
            let marker = s[start - 1];
            let ghost tok = token_scan(marker, w == 2, s@.subrange(start as int, e as int));
            if marker == '#' && w == 1 {
                push_name(&mut required_tags, &s, start, e);
            } else if marker == '+' && w == 1 {
                push_name(&mut required_projects, &s, start, e);
            } else if marker == '#' {
                push_name(&mut excluded_tags, &s, start, e);
            } else {
                push_name(&mut excluded_projects, &s, start, e);
            }
            proof {
                let acc2 = QueryScan {
                    required_tags: strings_view(required_tags@),
                    required_projects: strings_view(required_projects@),
                    excluded_tags: strings_view(excluded_tags@),
                    excluded_projects: strings_view(excluded_projects@),
                    rest: rest@,
                };
                let j = join_scans(acc, tok);
                assert(acc2.required_tags =~= j.required_tags);
                assert(acc2.required_projects =~= j.required_projects);
                assert(acc2.excluded_tags =~= j.excluded_tags);
                assert(acc2.excluded_projects =~= j.excluded_projects);
                assert(acc2.rest =~= j.rest);
                let u = s@.subrange(e as int, s@.len() as int);
                assert(scan(t) == join_scans(tok, scan(u)));
                lemma_join_assoc(acc, tok, scan(u));
            }
            i = e;
        } else {
            rest.push(c);
            proof {
                let u = s@.subrange(i + 1, s@.len() as int);
                assert(t.drop_first() =~= u);
                let acc2 = QueryScan {
                    required_tags: strings_view(required_tags@),
                    required_projects: strings_view(required_projects@),
                    excluded_tags: strings_view(excluded_tags@),
                    excluded_projects: strings_view(excluded_projects@),
                    rest: rest@,
                };
                let j = join_scans(acc, char_scan(c));
                assert(acc2.required_tags =~= j.required_tags);
                assert(acc2.required_projects =~= j.required_projects);
                assert(acc2.excluded_tags =~= j.excluded_tags);
                assert(acc2.excluded_projects =~= j.excluded_projects);
                assert(acc2.rest =~= j.rest);
                lemma_join_assoc(acc, char_scan(c), scan(u));
            }
            i = i + 1;
        }
    }
    proof {
        assert(s@.subrange(i as int, s@.len() as int) =~= Seq::<char>::empty());
    }
    let rest_str = string_from_chars(rest.as_slice());
    let text_query = trim_str(rest_str.as_str());
    let r = ParsedQuery { text_query, required_tags, required_projects, excluded_tags, excluded_projects };
    proof {
        let fin = QueryScan {
            required_tags: strings_view(r.required_tags@),
            required_projects: strings_view(r.required_projects@),
            excluded_tags: strings_view(r.excluded_tags@),
            excluded_projects: strings_view(r.excluded_projects@),
            rest: rest@,
        };
        lemma_join_empty(fin);
    }
    r
}

/// A name that a token can carry: non-empty, word characters only.
pub open spec fn valid_name(n: Seq<char>) -> bool {
    n.len() > 0 && forall|k: int| 0 <= k < n.len() ==> is_word_char(#[trigger] n[k])
}

pub open spec fn all_valid(l: Seq<Seq<char>>) -> bool {
    forall|k: int| 0 <= k < l.len() ==> valid_name(#[trigger] l[k])
}

/// The text of one token, followed by a space.
pub open spec fn token_text(marker: char, excluded: bool, name: Seq<char>) -> Seq<char> {
    (if excluded { seq!['-', marker] } else { seq![marker] }) + name + seq![' ']
}

pub open spec fn render_names(marker: char, excluded: bool, names: Seq<Seq<char>>) -> Seq<char>
    decreases names.len(),
{
    if names.len() == 0 {
        seq![]
    } else {
        token_text(marker, excluded, names[0]) + render_names(marker, excluded, names.drop_first())
    }
}

/// The tokens of a parsed query written back as a query: required tags,
/// excluded tags, required projects, excluded projects, each followed by
/// a space.
pub open spec fn render_query(q: ParsedQueryModel) -> Seq<char> {
    render_names('#', false, q.required_tags) + (render_names('#', true, q.excluded_tags) + (
    render_names('+', false, q.required_projects) + render_names('+', true, q.excluded_projects)))
}

/// What scanning the rendered names gives.
pub open spec fn names_scan(marker: char, excluded: bool, names: Seq<Seq<char>>) -> QueryScan
    decreases names.len(),
{
    if names.len() == 0 {
        empty_scan()
    } else {
        join_scans(
            token_scan(marker, excluded, names[0]),
            join_scans(char_scan(' '), names_scan(marker, excluded, names.drop_first())),
        )
    }
}

proof fn lemma_names_scan_fields(marker: char, excluded: bool, names: Seq<Seq<char>>)
    requires
        is_marker(marker),
    ensures
        names_scan(marker, excluded, names).required_tags == (if marker == '#' && !excluded { names } else { seq![] }),
        names_scan(marker, excluded, names).required_projects == (if marker == '+' && !excluded { names } else { seq![] }),
        names_scan(marker, excluded, names).excluded_tags == (if marker == '#' && excluded { names } else { seq![] }),
        names_scan(marker, excluded, names).excluded_projects == (if marker == '+' && excluded { names } else { seq![] }),
        forall|k: int|
            0 <= k < names_scan(marker, excluded, names).rest.len() ==> #[trigger] names_scan(
                marker,
                excluded,
                names,
            ).rest[k] == ' ',
    decreases names.len(),
{
    if names.len() > 0 {
        lemma_names_scan_fields(marker, excluded, names.drop_first());
        let ns = names_scan(marker, excluded, names);
        let tail = names_scan(marker, excluded, names.drop_first());
        assert(ns.rest =~= seq![' '] + tail.rest);
        assert forall|k: int| 0 <= k < ns.rest.len() implies #[trigger] ns.rest[k] == ' ' by {
            if k > 0 {
                assert(ns.rest[k] == tail.rest[k - 1]);
            }
        }
        assert(names =~= seq![names[0]] + names.drop_first());
        assert(ns.required_tags =~= (if marker == '#' && !excluded { names } else { seq![] }));
        assert(ns.required_projects =~= (if marker == '+' && !excluded { names } else { seq![] }));
        assert(ns.excluded_tags =~= (if marker == '#' && excluded { names } else { seq![] }));
        assert(ns.excluded_projects =~= (if marker == '+' && excluded { names } else { seq![] }));
    }
}

proof fn lemma_word_len_of_name(n: Seq<char>, rest: Seq<char>)
    requires
        forall|k: int| 0 <= k < n.len() ==> is_word_char(#[trigger] n[k]),
    ensures
        word_len(n + seq![' '] + rest) == n.len(),
    decreases n.len(),
{
    let x = n + seq![' '] + rest;
    if n.len() == 0 {
        assert(x[0] == ' ');
    } else {
        assert(is_word_char(n[0]));
        assert(x[0] == n[0]);
        assert(x.drop_first() =~= n.drop_first() + seq![' '] + rest);
        assert forall|k: int| 0 <= k < n.drop_first().len() implies is_word_char(#[trigger] n.drop_first()[k]) by {
            assert(n.drop_first()[k] == n[k + 1]);
        }
        lemma_word_len_of_name(n.drop_first(), rest);
    }
}

proof fn lemma_scan_token(marker: char, excluded: bool, name: Seq<char>, rest: Seq<char>)
    requires
        is_marker(marker),
        valid_name(name),
    ensures
        scan(token_text(marker, excluded, name) + rest) == join_scans(
            token_scan(marker, excluded, name),
            join_scans(char_scan(' '), scan(rest)),
        ),
{
    let x = token_text(marker, excluded, name) + rest;
    let w: int = if excluded { 2 } else { 1 };
    let pre: Seq<char> = if excluded { seq!['-', marker] } else { seq![marker] };
    assert(x =~= pre + (name + seq![' '] + rest));
    assert(x[w - 1] == marker);
    assert(x[w] == name[0]);
    assert(name_start(x) == w);
    assert(x.subrange(w, x.len() as int) =~= name + seq![' '] + rest);
    lemma_word_len_of_name(name, rest);
    let e = w + name.len();
    assert(x.subrange(w, e) =~= name);
    let after = x.subrange(e, x.len() as int);
    assert(after =~= seq![' '] + rest);
    assert(name_start(after) == 0);
    assert(after.drop_first() =~= rest);
    assert(scan(after) == join_scans(char_scan(' '), scan(rest)));
}

proof fn lemma_scan_names(marker: char, excluded: bool, names: Seq<Seq<char>>, rest: Seq<char>)
    requires
        is_marker(marker),
        all_valid(names),
    ensures
        scan(render_names(marker, excluded, names) + rest) == join_scans(
            names_scan(marker, excluded, names),
            scan(rest),
        ),
    decreases names.len(),
{
    if names.len() == 0 {
        assert(render_names(marker, excluded, names) + rest =~= rest);
        lemma_join_empty(scan(rest));
    } else {
        let tail = names.drop_first();
        assert(all_valid(tail)) by {
            assert forall|k: int| 0 <= k < tail.len() implies valid_name(#[trigger] tail[k]) by {
                assert(tail[k] == names[k + 1]);
            }
        }
        assert(valid_name(names[0]));
        let r2 = render_names(marker, excluded, tail) + rest;
        assert(render_names(marker, excluded, names) + rest =~= token_text(marker, excluded, names[0]) + r2);
        lemma_scan_token(marker, excluded, names[0], r2);
        lemma_scan_names(marker, excluded, tail, rest);
        let t = token_scan(marker, excluded, names[0]);
        let sp = char_scan(' ');
        let ns = names_scan(marker, excluded, tail);
        lemma_join_assoc(sp, ns, scan(rest));
        lemma_join_assoc(t, join_scans(sp, ns), scan(rest));
    }
}

proof fn lemma_scan_names_valid(s: Seq<char>)
    ensures
        all_valid(scan(s).required_tags),
        all_valid(scan(s).required_projects),
        all_valid(scan(s).excluded_tags),
        all_valid(scan(s).excluded_projects),
    decreases s.len(),
{
    if s.len() > 0 {
        let w = name_start(s);
        if w > 0 {
            let tail = s.subrange(w, s.len() as int);
            let e = w + word_len(tail);
            if w < e <= s.len() {
                lemma_word_len_bound(tail);
                let name = s.subrange(w, e);
                assert(valid_name(name)) by {
                    assert forall|k: int| 0 <= k < name.len() implies is_word_char(#[trigger] name[k]) by {
                        assert(name[k] == tail[k]);
                    }
                }
                lemma_scan_names_valid(s.subrange(e, s.len() as int));
                let r = scan(s.subrange(e, s.len() as int));
                let tok = token_scan(s[w - 1], w == 2, name);
                assert(all_valid(tok.required_tags + r.required_tags));
                assert(all_valid(tok.required_projects + r.required_projects));
                assert(all_valid(tok.excluded_tags + r.excluded_tags));
                assert(all_valid(tok.excluded_projects + r.excluded_projects));
            }
        } else {
            lemma_scan_names_valid(s.drop_first());
            let r = scan(s.drop_first());
            assert(scan(s).required_tags =~= r.required_tags);
            assert(scan(s).required_projects =~= r.required_projects);
            assert(scan(s).excluded_tags =~= r.excluded_tags);
            assert(scan(s).excluded_projects =~= r.excluded_projects);
        }
    }
}

/// Writing the tokens of a parsed query back as a query and parsing that
/// again gives the same required and excluded tags and projects, in the
/// same order, and no free text.
pub proof fn lemma_reparse_tokens(query: Seq<char>)
    ensures
        parse_spec(render_query(parse_spec(query))).required_tags == parse_spec(query).required_tags,
        parse_spec(render_query(parse_spec(query))).required_projects == parse_spec(query).required_projects,
        parse_spec(render_query(parse_spec(query))).excluded_tags == parse_spec(query).excluded_tags,
        parse_spec(render_query(parse_spec(query))).excluded_projects == parse_spec(query).excluded_projects,
        parse_spec(render_query(parse_spec(query))).text_query.len() == 0,
{
    let q = parse_spec(query);
    lemma_scan_names_valid(query);
    let r1 = render_names('#', false, q.required_tags);
    let r2 = render_names('#', true, q.excluded_tags);
    let r3 = render_names('+', false, q.required_projects);
    let r4 = render_names('+', true, q.excluded_projects);
    let n1 = names_scan('#', false, q.required_tags);
    let n2 = names_scan('#', true, q.excluded_tags);
    let n3 = names_scan('+', false, q.required_projects);
    let n4 = names_scan('+', true, q.excluded_projects);
    assert(r4 + seq![] =~= r4);
    assert(scan(seq![]) == empty_scan());
    lemma_scan_names('+', true, q.excluded_projects, seq![]);
    lemma_join_empty(n4);
    lemma_scan_names('+', false, q.required_projects, r4);
    lemma_scan_names('#', true, q.excluded_tags, r3 + r4);
    lemma_scan_names('#', false, q.required_tags, r2 + (r3 + r4));
    lemma_names_scan_fields('#', false, q.required_tags);
    lemma_names_scan_fields('#', true, q.excluded_tags);
    lemma_names_scan_fields('+', false, q.required_projects);
    lemma_names_scan_fields('+', true, q.excluded_projects);
    let sc = scan(render_query(q));
    assert(sc == join_scans(n1, join_scans(n2, join_scans(n3, n4))));
    assert(sc.required_tags =~= q.required_tags);
    assert(sc.required_projects =~= q.required_projects);
    assert(sc.excluded_tags =~= q.excluded_tags);
    assert(sc.excluded_projects =~= q.excluded_projects);
    assert(sc.rest =~= n1.rest + (n2.rest + (n3.rest + n4.rest)));
    assert forall|k: int| 0 <= k < sc.rest.len() implies #[trigger] sc.rest[k] == ' ' by {
        let a = n1.rest.len();
        let b = a + n2.rest.len();
        let c = b + n3.rest.len();
        if k < a {
            assert(sc.rest[k] == n1.rest[k]);
        } else if k < b {
            assert(sc.rest[k] == n2.rest[k - a]);
        } else if k < c {
            assert(sc.rest[k] == n3.rest[k - b]);
        } else {
            assert(sc.rest[k] == n4.rest[k - c]);
        }
    }
    lemma_trim_blank(sc.rest);
}

/// A run of spaces trims to nothing.
proof fn lemma_trim_blank(s: Seq<char>)
    requires
        forall|k: int| 0 <= k < s.len() ==> #[trigger] s[k] == ' ',
    ensures
        trim_of(s).len() == 0,
    decreases s.len(),
{
    if s.len() > 0 {
        assert(s[0] == ' ');
        assert forall|k: int| 0 <= k < s.drop_first().len() implies #[trigger] s.drop_first()[k] == ' ' by {
            assert(s.drop_first()[k] == s[k + 1]);
        }
        lemma_trim_blank(s.drop_first());
        assert(crate::text::trim_start(s) == crate::text::trim_start(s.drop_first()));
    }
}

fn push_names(out: &mut String, marker: char, excluded: bool, names: &Vec<String>)
    ensures
        final(out)@ == old(out)@ + render_names(marker, excluded, strings_view(names@)),
{
    let ghost all = strings_view(names@);
    let mut i: usize = 0;
    assert(all.subrange(0, all.len() as int) =~= all);
    while i < names.len()
        invariant
            0 <= i <= names@.len(),
            all == strings_view(names@),
            out@ + render_names(marker, excluded, all.subrange(i as int, all.len() as int))
                == old(out)@ + render_names(marker, excluded, all),
        decreases names@.len() - i,
    {
        let ghost before = out@;
        let ghost sub = all.subrange(i as int, all.len() as int);
        if excluded {
            out.push('-');
        }
        out.push(marker);
        push_str_chars(out, names[i].as_str());
        out.push(' ');
        proof {
            assert(sub[0] == names@[i as int]@);
            assert(sub.drop_first() =~= all.subrange(i + 1, all.len() as int));
            assert(out@ =~= before + token_text(marker, excluded, sub[0]));
            assert(out@ + render_names(marker, excluded, sub.drop_first()) =~= before + render_names(marker, excluded, sub));
        }
        i = i + 1;
    }
    proof {
        assert(all.subrange(i as int, all.len() as int) =~= Seq::<Seq<char>>::empty());
        assert(out@ =~= out@ + render_names(marker, excluded, Seq::<Seq<char>>::empty()));
    }
}

impl ParsedQuery {
    /// The tokens written back as a query string (the free text is left
    /// out).
    pub fn to_query_string(&self) -> (r: String)
        ensures
            r@ == render_query(self@),
    {
        let mut r = String::new();
        push_names(&mut r, '#', false, &self.required_tags);
        push_names(&mut r, '#', true, &self.excluded_tags);
        push_names(&mut r, '+', false, &self.required_projects);
        push_names(&mut r, '+', true, &self.excluded_projects);
        assert(r@ =~= render_query(self@));
        r
    }
}

} // verus!
