//! Text scanning shared by the note store, the query engine and the session:
//! word characters, `#tag` / `+project` extraction, line splitting and
//! a few string helpers.

use vstd::prelude::*;

verus! {

/// Whether `c` is alphabetic or numeric in Unicode, as std decides it.
pub uninterp spec fn alnum_of(c: char) -> bool;

/// What std's lowercase mapping makes of a string.
pub uninterp spec fn lower_of(s: Seq<char>) -> Seq<char>;

/// Whether `c` has the Unicode White_Space property (the characters that
/// std's `char::is_whitespace` accepts).
pub open spec fn is_white_space(c: char) -> bool {
    let n = c as u32;
    (9 <= n && n <= 13) || n == 32 || n == 0x85 || n == 0xA0 || n == 0x1680 || (0x2000 <= n && n
        <= 0x200A) || n == 0x2028 || n == 0x2029 || n == 0x202F || n == 0x205F || n == 0x3000
}

/// `s` without its leading white space.
pub open spec fn trim_start(s: Seq<char>) -> Seq<char>
    decreases s.len(),
{
    if s.len() > 0 && is_white_space(s[0]) {
        trim_start(s.drop_first())
    } else {
        s
    }
}

/// `s` without its trailing white space.
pub open spec fn trim_end(s: Seq<char>) -> Seq<char>
    decreases s.len(),
{
    if s.len() > 0 && is_white_space(s.last()) {
        trim_end(s.drop_last())
    } else {
        s
    }
}

/// `s` without leading and trailing white space, as std's `str::trim`.
pub open spec fn trim_of(s: Seq<char>) -> Seq<char> {
    trim_end(trim_start(s))
}

fn white_space(c: char) -> (r: bool)
    ensures
        r == is_white_space(c),
{
    let n = c as u32;
    (9 <= n && n <= 13) || n == 32 || n == 0x85 || n == 0xA0 || n == 0x1680 || (0x2000 <= n && n
        <= 0x200A) || n == 0x2028 || n == 0x2029 || n == 0x202F || n == 0x205F || n == 0x3000
}

/// Relies on char::is_alphanumeric: whether a character outside ASCII is
/// alphabetic or numeric, which depends on the character alone.
#[verifier::external_body]
fn char_is_alphanumeric(c: char) -> (r: bool)
    ensures
        r == alnum_of(c),
{
    c.is_alphanumeric()
}

/// Relies on str::to_lowercase: the result depends on the characters alone,
/// and the empty string stays empty.
#[verifier::external_body]
pub(crate) fn to_lower(s: &str) -> (r: String)
    ensures
        r@ == lower_of(s@),
        s@.len() == 0 ==> r@.len() == 0,
{
    s.to_lowercase()
}

/// `s` without leading and trailing white space.
pub fn trim_str(s: &str) -> (r: String)
    ensures
        r@ == trim_of(s@),
{
    let cs = chars_of(s);
    let n = cs.len();
    let mut i: usize = 0;
    assert(cs@.subrange(0, n as int) =~= cs@);
    while i < n && white_space(cs[i])
        invariant
            0 <= i <= n,
            n == cs@.len(),
            cs@ == s@,
            trim_start(s@) == trim_start(cs@.subrange(i as int, n as int)),
        decreases n - i,
    {
        assert(cs@.subrange(i as int, n as int).drop_first() =~= cs@.subrange(i + 1, n as int));
        i = i + 1;
    }
    let mut j: usize = n;
    while j > i && white_space(cs[j - 1])
        invariant
            i <= j <= n,
            n == cs@.len(),
            trim_end(cs@.subrange(i as int, n as int)) == trim_end(cs@.subrange(i as int, j as int)),
        decreases j,
    {
        assert(cs@.subrange(i as int, j as int).drop_last() =~= cs@.subrange(i as int, j - 1));
        j = j - 1;
    }
    let v = slice_of(cs.as_slice(), i, j);
    string_from_chars(v.as_slice())
}

/// Relies on str::chars: the characters of the string, in order.
#[verifier::external_body]
pub(crate) fn chars_of(s: &str) -> (r: Vec<char>)
    ensures
        r@ == s@,
{
    s.chars().collect()
}

/// Relies on String::push: appends one character.
pub assume_specification[ String::push ](s: &mut String, c: char)
    ensures
        final(s)@ == old(s)@.push(c),
;

/// Relies on String::pop: removes and returns the last character, if any.
pub assume_specification[ String::pop ](s: &mut String) -> (r: Option<char>)
    ensures
        old(s)@.len() == 0 ==> r is None && final(s)@ == old(s)@,
        old(s)@.len() > 0 ==> r == Some(old(s)@.last()) && final(s)@ == old(s)@.drop_last(),
;

/// The string made of the given characters.
pub fn string_from_chars(v: &[char]) -> (r: String)
    ensures
        r@ == v@,
{
    let mut r = String::new();
    let mut i: usize = 0;
    while i < v.len()
        invariant
            0 <= i <= v@.len(),
            r@ == v@.subrange(0, i as int),
        decreases v@.len() - i,
    {
        r.push(v[i]);
        i = i + 1;
        assert(r@ =~= v@.subrange(0, i as int));
    }
    assert(r@ =~= v@);
    r
}

/// Appends the characters of `t` to `s`.
pub fn push_str_chars(s: &mut String, t: &str)
    ensures
        final(s)@ == old(s)@ + t@,
{
    let cs = chars_of(t);
    let ghost s0 = s@;
    let mut i: usize = 0;
    while i < cs.len()
        invariant
            0 <= i <= cs@.len(),
            cs@ == t@,
            s@ == s0 + cs@.subrange(0, i as int),
        decreases cs@.len() - i,
    {
        s.push(cs[i]);
        i = i + 1;
        assert(s@ =~= s0 + cs@.subrange(0, i as int));
    }
    assert(cs@.subrange(0, i as int) =~= t@);
}

pub open spec fn is_ascii_word_char(c: char) -> bool {
    let n = c as u32;
    (97 <= n && n <= 122) || (65 <= n && n <= 90) || (48 <= n && n <= 57) || n == 95
}

/// A character that may stand in a tag or project name: a letter, a digit
/// or an underscore.
pub open spec fn is_word_char(c: char) -> bool {
    if (c as u32) < 128 {
        is_ascii_word_char(c)
    } else {
        alnum_of(c)
    }
}

pub fn word_char(c: char) -> (r: bool)
    ensures
        r == is_word_char(c),
{
    let n = c as u32;
    if n < 128 {
        (97 <= n && n <= 122) || (65 <= n && n <= 90) || (48 <= n && n <= 57) || n == 95
    } else {
        char_is_alphanumeric(c)
    }
}

/// The end of the run of word characters that starts at `i`.
pub open spec fn word_end(s: Seq<char>, i: int) -> int
    decreases s.len() - i,
{
    if i < 0 || i >= s.len() || !is_word_char(s[i]) {
        i
    } else {
        word_end(s, i + 1)
    }
}

pub proof fn lemma_word_end(s: Seq<char>, i: int)
    requires
        0 <= i <= s.len(),
    ensures
        i <= word_end(s, i) <= s.len(),
        forall|k: int| i <= k < word_end(s, i) ==> is_word_char(#[trigger] s[k]),
        word_end(s, i) < s.len() ==> !is_word_char(s[word_end(s, i)]),
    decreases s.len() - i,
{
    if i < s.len() && is_word_char(s[i]) {
        lemma_word_end(s, i + 1);
    }
}

/// Index of the end of the word run starting at `i`.
pub fn scan_word(s: &[char], i: usize) -> (e: usize)
    requires
        i <= s@.len(),
    ensures
        e as int == word_end(s@, i as int),
{
    let mut e = i;
    while e < s.len() && word_char(s[e])
        invariant
            i <= e <= s@.len(),
            word_end(s@, e as int) == word_end(s@, i as int),
        decreases s@.len() - e,
    {
        e = e + 1;
    }
    e
}

/// The names introduced by `marker` (`#` for tags, `+` for projects) in
/// `s` from position `i` on, in order: each is the whole run of word
/// characters right after a marker.
pub open spec fn marked_names(s: Seq<char>, marker: char, i: int) -> Seq<Seq<char>>
    decreases s.len() - i,
{
    if i < 0 || i >= s.len() {
        seq![]
    } else if s[i] == marker && i + 1 < s.len() && is_word_char(s[i + 1]) {
        let e = word_end(s, i + 1);
        if i + 1 <= e <= s.len() {
            seq![s.subrange(i + 1, e)] + marked_names(s, marker, e)
        } else {
            seq![]
        }
    } else {
        marked_names(s, marker, i + 1)
    }
}

pub open spec fn strings_view(v: Seq<String>) -> Seq<Seq<char>> {
    v.map_values(|t: String| t@)
}

fn extract_marked(content: &str, marker: char) -> (r: Vec<String>)
    ensures
        strings_view(r@) == marked_names(content@, marker, 0),
{
    let s = chars_of(content);
    let mut r: Vec<String> = Vec::new();
    let mut i: usize = 0;
    while i < s.len()
        invariant
            s@ == content@,
            0 <= i <= s@.len(),
            strings_view(r@) + marked_names(s@, marker, i as int) == marked_names(s@, marker, 0),
        decreases s@.len() - i,
    {
        if s[i] == marker && i + 1 < s.len() && word_char(s[i + 1]) {
            let e = scan_word(&s, i + 1);
            proof {
                lemma_word_end(s@, i + 1);
            }
            let name = string_from_chars(slice_of(&s, i + 1, e).as_slice());
            let ghost prev = strings_view(r@);
            r.push(name);
            assert(strings_view(r@) =~= prev.push(s@.subrange(i + 1, e as int)));
            assert(strings_view(r@) + marked_names(s@, marker, e as int) =~= prev + marked_names(
                s@,
                marker,
                i as int,
            ));
            i = e;
        } else {
            i = i + 1;
        }
    }
    assert(strings_view(r@) =~= strings_view(r@) + marked_names(s@, marker, i as int));
    r
}

/// The characters `s[from..to]` as a vector.
pub fn slice_of(s: &[char], from: usize, to: usize) -> (r: Vec<char>)
    requires
        from <= to <= s@.len(),
    ensures
        r@ == s@.subrange(from as int, to as int),
{
    let mut r: Vec<char> = Vec::new();
    let mut k = from;
    while k < to
        invariant
            from <= k <= to,
            to <= s@.len(),
            r@ == s@.subrange(from as int, k as int),
        decreases to - k,
    {
        r.push(s[k]);
        k = k + 1;
        assert(r@ =~= s@.subrange(from as int, k as int));
    }
    r
}

/// The tags written in `content` as `#name`, in order of appearance,
/// duplicates kept.
pub fn extract_tags(content: &str) -> (r: Vec<String>)
    ensures
        strings_view(r@) == marked_names(content@, '#', 0),
{
    extract_marked(content, '#')
}

/// The projects written in `content` as `+name`, in order of appearance,
/// duplicates kept.
pub fn extract_projects(content: &str) -> (r: Vec<String>)
    ensures
        strings_view(r@) == marked_names(content@, '+', 0),
{
    extract_marked(content, '+')
}

/// A line without the carriage return that may end it.
pub open spec fn strip_cr(l: Seq<char>) -> Seq<char> {
    if l.len() > 0 && l.last() == '\r' {
        l.drop_last()
    } else {
        l
    }
}

/// The lines of `s` from position `i` on, the current line having started
/// at `start`: lines end at `\n`, a final `\r` is dropped, and a final
/// line break opens no empty line.
pub open spec fn lines_from(s: Seq<char>, start: int, i: int) -> Seq<Seq<char>>
    decreases s.len() - i,
{
    if i < 0 || i >= s.len() {
        if 0 <= start < s.len() {
            seq![strip_cr(s.subrange(start, s.len() as int))]
        } else {
            seq![]
        }
    } else if s[i] == '\n' {
        seq![strip_cr(s.subrange(start, i))] + lines_from(s, i + 1, i + 1)
    } else {
        lines_from(s, start, i + 1)
    }
}

pub open spec fn lines_of(s: Seq<char>) -> Seq<Seq<char>> {
    lines_from(s, 0, 0)
}

fn strip_cr_vec(v: Vec<char>) -> (r: Vec<char>)
    ensures
        r@ == strip_cr(v@),
{
    let mut v = v;
    if v.len() > 0 && v[v.len() - 1] == '\r' {
        v.pop();
    }
    v
}

/// The lines of `s`, each as a string.
pub fn split_lines(s: &str) -> (r: Vec<String>)
    ensures
        strings_view(r@) == lines_of(s@),
{
    let cs = chars_of(s);
    let mut r: Vec<String> = Vec::new();
    let mut start: usize = 0;
    let mut i: usize = 0;
    while i < cs.len()
        invariant
            cs@ == s@,
            0 <= start <= i <= cs@.len(),
            strings_view(r@) + lines_from(cs@, start as int, i as int) == lines_of(cs@),
        decreases cs@.len() - i,
    {
        if cs[i] == '\n' {
            let line = strip_cr_vec(slice_of(&cs, start, i));
            let ghost prev = strings_view(r@);
            r.push(string_from_chars(line.as_slice()));
            assert(strings_view(r@) =~= prev.push(strip_cr(cs@.subrange(start as int, i as int))));
            assert(strings_view(r@) + lines_from(cs@, i + 1, i + 1) =~= prev + lines_from(
                cs@,
                start as int,
                i as int,
            ));
            i = i + 1;
            start = i;
        } else {
            i = i + 1;
        }
    }
    if start < cs.len() {
        let line = strip_cr_vec(slice_of(&cs, start, cs.len()));
        let ghost prev = strings_view(r@);
        r.push(string_from_chars(line.as_slice()));
        assert(strings_view(r@) =~= prev + lines_from(cs@, start as int, i as int));
    } else {
        assert(strings_view(r@) =~= strings_view(r@) + lines_from(cs@, start as int, i as int));
    }
    r
}

pub open spec fn digit_char(d: nat) -> char {
    (48 + d % 10) as char
}

/// The decimal digits of `n`.
pub open spec fn decimal(n: nat) -> Seq<char>
    decreases n,
{
    if n < 10 {
        seq![digit_char(n)]
    } else {
        decimal(n / 10).push(digit_char(n % 10))
    }
}

/// Appends the decimal digits of `n` to `s`.
pub fn push_decimal(s: &mut String, n: usize)
    ensures
        final(s)@ == old(s)@ + decimal(n as nat),
    decreases n,
{
    if n >= 10 {
        push_decimal(s, n / 10);
    }
    let d = (n % 10) as u32;
    let c = char_from_digit(d);
    s.push(c);
    assert(s@ =~= old(s)@ + decimal(n as nat));
}

fn char_from_digit(d: u32) -> (c: char)
    requires
        d < 10,
    ensures
        c == digit_char(d as nat),
{
    if d == 0 { '0' }
    else if d == 1 { '1' }
    else if d == 2 { '2' }
    else if d == 3 { '3' }
    else if d == 4 { '4' }
    else if d == 5 { '5' }
    else if d == 6 { '6' }
    else if d == 7 { '7' }
    else if d == 8 { '8' }
    else { '9' }
}

/// Whether `t` occurs in `s` as a contiguous run of characters.
pub open spec fn occurs_in(s: Seq<char>, t: Seq<char>) -> bool {
    exists|k: int| 0 <= k && k + t.len() <= s.len() && #[trigger] s.subrange(k, k + t.len()) == t
}

fn occurs_at(s: &[char], t: &[char], k: usize) -> (r: bool)
    requires
        k + t@.len() <= s@.len(),
    ensures
        r == (s@.subrange(k as int, k + t@.len()) == t@),
{
    let mut j: usize = 0;
    let ghost n = s.len();
    while j < t.len()
        invariant
            0 <= j <= t@.len(),
            k + t@.len() <= s@.len(),
            s@.len() == n,
            n <= usize::MAX,
            s@.subrange(k as int, k + j) == t@.subrange(0, j as int),
        decreases t@.len() - j,
    {
        if s[k + j] != t[j] {
            assert(s@.subrange(k as int, k + t@.len())[j as int] != t@[j as int]);
            return false;
        }
        j = j + 1;
        assert(s@.subrange(k as int, k + j) =~= t@.subrange(0, j as int));
    }
    assert(t@.subrange(0, j as int) =~= t@);
    true
}


/// Whether `t` starts at position `k` of `s`.
pub open spec fn occurs_at_pos(s: Seq<char>, t: Seq<char>, k: int) -> bool {
    0 <= k && k + t.len() <= s.len() && s.subrange(k, k + t.len()) == t
}

/// The first position at which `t` occurs in `s`, if any.
pub fn find_chars(s: &[char], t: &[char]) -> (r: Option<usize>)
    ensures
        r matches Some(k) ==> occurs_at_pos(s@, t@, k as int) && forall|m: int|
            0 <= m < k ==> !occurs_at_pos(s@, t@, m),
        r is None ==> forall|m: int| !occurs_at_pos(s@, t@, m),
{
    if t.len() > s.len() {
        return None;
    }
    let mut k: usize = 0;
    let last = s.len() - t.len();
    loop
        invariant
            t@.len() <= s@.len(),
            last == s@.len() - t@.len(),
            k <= last,
            forall|m: int| 0 <= m < k ==> !occurs_at_pos(s@, t@, m),
        decreases last - k,
    {
        if occurs_at(s, t, k) {
            return Some(k);
        }
        if k == last {
            assert forall|m: int| !occurs_at_pos(s@, t@, m) by {
                if 0 <= m && m + t@.len() <= s@.len() {
                    assert(m <= k);
                }
            }
            return None;
        }
        k = k + 1;
    }
}

/// Whether `t` occurs in `s`.
pub fn contains_str(s: &str, t: &str) -> (r: bool)
    ensures
        r == occurs_in(s@, t@),
{
    let sc = chars_of(s);
    let tc = chars_of(t);
    let found = find_chars(sc.as_slice(), tc.as_slice());
    proof {
        if found is None {
            assert forall|k: int| 0 <= k && k + tc@.len() <= sc@.len() implies #[trigger] sc@.subrange(k, k + tc@.len()) != tc@ by {
                assert(!occurs_at_pos(sc@, tc@, k));
            }
        }
    }
    found.is_some()
}

/// The pieces of `s` between commas, from position `i` on, the current
/// piece having started at `start`.
pub open spec fn pieces_from(s: Seq<char>, start: int, i: int) -> Seq<Seq<char>>
    decreases s.len() - i,
{
    if i < 0 || i >= s.len() {
        seq![s.subrange(start, s.len() as int)]
    } else if s[i] == ',' {
        seq![s.subrange(start, i)] + pieces_from(s, i + 1, i + 1)
    } else {
        pieces_from(s, start, i + 1)
    }
}

/// The comma-separated pieces of `s`; there is always at least one.
pub open spec fn comma_pieces(s: Seq<char>) -> Seq<Seq<char>> {
    pieces_from(s, 0, 0)
}

/// The comma-separated pieces of `s`, untrimmed.
pub fn split_commas(s: &str) -> (r: Vec<String>)
    ensures
        strings_view(r@) == comma_pieces(s@),
{
    let cs = chars_of(s);
    let mut r: Vec<String> = Vec::new();
    let mut start: usize = 0;
    let mut i: usize = 0;
    while i < cs.len()
        invariant
            cs@ == s@,
            0 <= start <= i <= cs@.len(),
            strings_view(r@) + pieces_from(cs@, start as int, i as int) == comma_pieces(cs@),
        decreases cs@.len() - i,
    {
        if cs[i] == ',' {
            let piece = slice_of(&cs, start, i);
            let ghost prev = strings_view(r@);
            r.push(string_from_chars(piece.as_slice()));
            assert(strings_view(r@) =~= prev.push(cs@.subrange(start as int, i as int)));
            assert(strings_view(r@) + pieces_from(cs@, i + 1, i + 1) =~= prev + pieces_from(
                cs@,
                start as int,
                i as int,
            ));
            i = i + 1;
            start = i;
        } else {
            i = i + 1;
        }
    }
    let piece = slice_of(&cs, start, cs.len());
    let ghost prev = strings_view(r@);
    r.push(string_from_chars(piece.as_slice()));
    assert(strings_view(r@) =~= prev + pieces_from(cs@, start as int, i as int));
    r
}

/// Each string of `l`, lowercased.
pub open spec fn lowered(l: Seq<Seq<char>>) -> Seq<Seq<char>> {
    l.map_values(|t: Seq<char>| lower_of(t))
}

/// The strings of `v`, lowercased.
pub fn lower_all(v: &Vec<String>) -> (r: Vec<String>)
    ensures
        strings_view(r@) == lowered(strings_view(v@)),
{
    let mut r: Vec<String> = Vec::new();
    let mut i: usize = 0;
    while i < v.len()
        invariant
            0 <= i <= v@.len(),
            r@.len() == i,
            forall|k: int| 0 <= k < i ==> r@[k]@ == lower_of(v@[k]@),
        decreases v@.len() - i,
    {
        r.push(to_lower(v[i].as_str()));
        i = i + 1;
    }
    assert(strings_view(r@) =~= lowered(strings_view(v@)));
    r
}

/// Whether two strings hold the same characters.
pub fn same_chars(a: &str, b: &str) -> (r: bool)
    ensures
        r == (a@ == b@),
{
    let x = chars_of(a);
    let y = chars_of(b);
    if x.len() != y.len() {
        return false;
    }
    let mut i: usize = 0;
    while i < x.len()
        invariant
            x@ == a@,
            y@ == b@,
            x@.len() == y@.len(),
            0 <= i <= x@.len(),
            forall|k: int| 0 <= k < i ==> x@[k] == y@[k],
        decreases x@.len() - i,
    {
        if x[i] != y[i] {
            return false;
        }
        i = i + 1;
    }
    assert(x@ =~= y@);
    true
}

/// Whether `x` is one of the strings of `v`.
pub fn list_contains(v: &Vec<String>, x: &str) -> (r: bool)
    ensures
        r == strings_view(v@).contains(x@),
{
    let mut i: usize = 0;
    while i < v.len()
        invariant
            0 <= i <= v@.len(),
            forall|k: int| 0 <= k < i ==> v@[k]@ != x@,
        decreases v@.len() - i,
    {
        if same_chars(v[i].as_str(), x) {
            assert(strings_view(v@)[i as int] == x@);
            return true;
        }
        i = i + 1;
    }
    proof {
        if strings_view(v@).contains(x@) {
            let k = choose|k: int| 0 <= k < strings_view(v@).len() && strings_view(v@)[k] == x@;
            assert(v@[k]@ == x@);
        }
    }
    false
}

/// The first `]` at or after `k`, or the end.
pub open spec fn close_index(s: Seq<char>, k: int) -> int
    decreases s.len() - k,
{
    if k < 0 || k >= s.len() || s[k] == ']' {
        k
    } else {
        close_index(s, k + 1)
    }
}

proof fn lemma_close_index(s: Seq<char>, k: int)
    requires
        0 <= k <= s.len(),
    ensures
        k <= close_index(s, k) <= s.len(),
        close_index(s, k) < s.len() ==> s[close_index(s, k)] == ']',
        forall|m: int| k <= m < close_index(s, k) ==> s[m] != ']',
    decreases s.len() - k,
{
    if k < s.len() && s[k] != ']' {
        lemma_close_index(s, k + 1);
    }
}

/// Whether a link `[[target]]` starts at `i`.
pub open spec fn link_at(s: Seq<char>, i: int) -> bool {
    0 <= i && i + 1 < s.len() && s[i] == '[' && s[i + 1] == '[' && i + 2 < close_index(s, i + 2)
        && close_index(s, i + 2) + 1 < s.len() && s[close_index(s, i + 2) + 1] == ']'
}

/// The targets of the `[[target]]` links in `s` from position `i` on: a
/// target is a non-empty run without `]`.
pub open spec fn links_from(s: Seq<char>, i: int) -> Seq<Seq<char>>
    decreases s.len() - i,
{
    if i < 0 || i >= s.len() {
        seq![]
    } else if link_at(s, i) {
        let j = close_index(s, i + 2);
        if i < j + 2 <= s.len() {
            seq![s.subrange(i + 2, j)] + links_from(s, j + 2)
        } else {
            seq![]
        }
    } else {
        links_from(s, i + 1)
    }
}

fn find_close(s: &[char], k: usize) -> (r: usize)
    requires
        k <= s@.len(),
    ensures
        r as int == close_index(s@, k as int),
{
    let mut j = k;
    while j < s.len() && s[j] != ']'
        invariant
            k <= j <= s@.len(),
            close_index(s@, j as int) == close_index(s@, k as int),
        decreases s@.len() - j,
    {
        j = j + 1;
    }
    j
}

/// The targets of the `[[target]]` links in `content`, in order.
pub fn extract_links(content: &str) -> (r: Vec<String>)
    ensures
        strings_view(r@) == links_from(content@, 0),
{
    let s = chars_of(content);
    let mut r: Vec<String> = Vec::new();
    let mut i: usize = 0;
    while i < s.len()
        invariant
            s@ == content@,
            0 <= i <= s@.len(),
            strings_view(r@) + links_from(s@, i as int) == links_from(s@, 0),
        decreases s@.len() - i,
    {
        let mut hit = false;
        let mut j: usize = 0;
        if s.len() - i > 2 && s[i] == '[' && s[i + 1] == '[' {
            j = find_close(s.as_slice(), i + 2);
            proof {
                lemma_close_index(s@, i + 2);
            }
            hit = i + 2 < j && j < s.len() - 1 && s[j + 1] == ']';
        }
        assert(hit == link_at(s@, i as int));
        if hit {
            let target = string_from_chars(slice_of(&s, i + 2, j).as_slice());
            let ghost prev = strings_view(r@);
            r.push(target);
            assert(strings_view(r@) =~= prev.push(s@.subrange(i + 2, j as int)));
            assert(strings_view(r@) + links_from(s@, j + 2) =~= prev + links_from(s@, i as int));
            i = j + 2;
        } else {
            i = i + 1;
        }
    }
    assert(strings_view(r@) =~= strings_view(r@) + links_from(s@, i as int));
    r
}

} // verus!
