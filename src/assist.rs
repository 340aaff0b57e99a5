//! The text that goes to and comes from the AI collaborator: the rewrite
//! request and the cleanup of a translated search command. The network
//! exchange itself happens outside the library.

use vstd::prelude::*;
use crate::text::{chars_of, push_str_chars, string_from_chars, trim_of, trim_str};

verus! {

pub open spec fn rewrite_request_prefix() -> Seq<char> {
    "Please clean up and improve the following note content. Keep the same meaning and tone, but make it clearer, fix any grammar issues, and ensure proper markdown formatting:\n\n"@
}

/// The user message that asks for a note's content to be rewritten.
pub fn create_rewrite_prompt(content: &str) -> (r: String)
    ensures
        r@ == rewrite_request_prefix() + content@,
{
    let mut r = String::new();
    push_str_chars(&mut r, "Please clean up and improve the following note content. Keep the same meaning and tone, but make it clearer, fix any grammar issues, and ensure proper markdown formatting:\n\n");
    push_str_chars(&mut r, content);
    r
}

/// `s` without every leading copy of `p`.
pub open spec fn strip_prefixes(s: Seq<char>, p: Seq<char>) -> Seq<char>
    decreases s.len(),
{
    if p.len() > 0 && p.len() <= s.len() && s.subrange(0, p.len() as int) == p {
        strip_prefixes(s.subrange(p.len() as int, s.len() as int), p)
    } else {
        s
    }
}

/// `s` without every trailing `c`.
pub open spec fn strip_suffix_char(s: Seq<char>, c: char) -> Seq<char>
    decreases s.len(),
{
    if s.len() > 0 && s.last() == c {
        strip_suffix_char(s.drop_last(), c)
    } else {
        s
    }
}

fn strip_prefixes_exec(s: Vec<char>, p: &Vec<char>) -> (r: Vec<char>)
    ensures
        r@ == strip_prefixes(s@, p@),
{
    let mut start: usize = 0;
    let n = s.len();
    if p.len() == 0 {
        return s;
    }
    assert(s@.subrange(0, n as int) =~= s@);
    loop
        invariant
            0 <= start <= n,
            n == s@.len(),
            p@.len() > 0,
            strip_prefixes(s@, p@) == strip_prefixes(s@.subrange(start as int, n as int), p@),
        decreases n - start,
    {
        let rest = crate::text::slice_of(s.as_slice(), start, n);
        let hit = p.len() <= rest.len() && starts_with_chars(&rest, p);
        if !hit {
            assert(rest@ == s@.subrange(start as int, n as int));
            return rest;
        }
        proof {
            assert(rest@.subrange(p@.len() as int, rest@.len() as int) =~= s@.subrange(start + p@.len(), n as int));
        }
        start = start + p.len();
    }
}

fn starts_with_chars(s: &Vec<char>, p: &Vec<char>) -> (r: bool)
    requires
        p@.len() <= s@.len(),
    ensures
        r == (s@.subrange(0, p@.len() as int) == p@),
{
    let mut i: usize = 0;
    while i < p.len()
        invariant
            0 <= i <= p@.len(),
            p@.len() <= s@.len(),
            forall|k: int| 0 <= k < i ==> s@[k] == p@[k],
        decreases p@.len() - i,
    {
        if s[i] != p[i] {
            assert(s@.subrange(0, p@.len() as int)[i as int] != p@[i as int]);
            return false;
        }
        i = i + 1;
    }
    assert(s@.subrange(0, p@.len() as int) =~= p@);
    true
}

fn strip_suffix_exec(s: Vec<char>, c: char) -> (r: Vec<char>)
    ensures
        r@ == strip_suffix_char(s@, c),
{
    let mut s = s;
    let ghost orig = s@;
    while s.len() > 0 && s[s.len() - 1] == c
        invariant
            strip_suffix_char(s@, c) == strip_suffix_char(orig, c),
        decreases s@.len(),
    {
        s.pop();
    }
    s
}

/// What is left of a translated search command once the wrapping is
/// taken off: surrounding whitespace, backticks, a leading `stash search `
/// or `search `, double and single quotes, and whitespace again.
pub open spec fn cleaned_args(reply: Seq<char>) -> Seq<char> {
    let a = strip_prefixes(trim_of(reply), seq!['`']);
    let b = strip_suffix_char(a, '`');
    let c = strip_prefixes(b, "stash search "@);
    let d = strip_prefixes(c, "search "@);
    let e = strip_prefixes(d, seq!['"']);
    let f = strip_suffix_char(e, '"');
    let g = strip_prefixes(f, seq!['\'']);
    let h = strip_suffix_char(g, '\'');
    trim_of(h)
}

/// Cleans the reply of a query translation into bare search arguments.
/// The result is only ever parsed as a query, never run.
pub fn clean_command_args(reply: &str) -> (r: String)
    ensures
        r@ == cleaned_args(reply@),
{
    let t = trim_str(reply);
    let s = chars_of(t.as_str());
    let backtick = vec!['`'];
    let dquote = vec!['"'];
    let squote = vec!['\''];
    let full = chars_of("stash search ");
    let short = chars_of("search ");
    assert(backtick@ =~= seq!['`']);
    assert(dquote@ =~= seq!['"']);
    assert(squote@ =~= seq!['\'']);
    let a = strip_prefixes_exec(s, &backtick);
    let b = strip_suffix_exec(a, '`');
    let c = strip_prefixes_exec(b, &full);
    let d = strip_prefixes_exec(c, &short);
    let e = strip_prefixes_exec(d, &dquote);
    let f = strip_suffix_exec(e, '"');
    let g = strip_prefixes_exec(f, &squote);
    let h = strip_suffix_exec(g, '\'');
    let hs = string_from_chars(h.as_slice());
    trim_str(hs.as_str())
}

} // verus!
