//! Character-level text handling shared by the configuration reader, the
//! device database search and the output parsers.
//!
//! Text is handled as `Vec<char>` inside the library; its view is the
//! `Seq<char>` of a `String` or `&str`.
use vstd::prelude::*;

verus! {

// ---------------------------------------------------------------------------
// Unicode character classes and case mapping (std)
// ---------------------------------------------------------------------------

/// Whether a non-ASCII character has the Unicode `White_Space` property.
pub uninterp spec fn non_ascii_white_space(c: char) -> bool;

/// Whether a non-ASCII character is alphabetic or numeric in the Unicode sense.
pub uninterp spec fn non_ascii_alphanumeric(c: char) -> bool;

/// The full Unicode lowercase mapping of a text that holds a non-ASCII character.
pub uninterp spec fn non_ascii_lowercase(s: Seq<char>) -> Seq<char>;

/// ASCII whitespace as Unicode classifies it: space and U+0009 to U+000D.
pub open spec fn ascii_white_space(c: char) -> bool {
    c == ' ' || ('\t' <= c && c <= '\r')
}

pub open spec fn is_ascii_char(c: char) -> bool {
    (c as u32) < 128
}

pub open spec fn is_ascii_text(s: Seq<char>) -> bool {
    forall|i: int| 0 <= i < s.len() ==> is_ascii_char(#[trigger] s[i])
}

pub open spec fn ascii_digit(c: char) -> bool {
    '0' <= c && c <= '9'
}

pub open spec fn ascii_alpha(c: char) -> bool {
    ('a' <= c && c <= 'z') || ('A' <= c && c <= 'Z')
}

pub open spec fn ascii_alnum(c: char) -> bool {
    ascii_alpha(c) || ascii_digit(c)
}

/// ASCII lowercase of one character.
pub open spec fn ascii_lower_char(c: char) -> char {
    if 'A' <= c && c <= 'Z' {
        ((c as u32) + 32) as char
    } else {
        c
    }
}

/// Whether `c` has the Unicode `White_Space` property: on ASCII, space
/// and U+0009 to U+000D.
pub open spec fn is_white_space(c: char) -> bool {
    if is_ascii_char(c) {
        ascii_white_space(c)
    } else {
        non_ascii_white_space(c)
    }
}

/// Whether `c` is Unicode alphabetic or numeric: on ASCII, letters and digits.
pub open spec fn is_alphanumeric_char(c: char) -> bool {
    if is_ascii_char(c) {
        ascii_alnum(c)
    } else {
        non_ascii_alphanumeric(c)
    }
}

/// The Unicode lowercase mapping of a text: on an all-ASCII text, the
/// letters A to Z lowercased one for one and every other character kept.
pub open spec fn lowercase_text(s: Seq<char>) -> Seq<char> {
    if is_ascii_text(s) {
        s.map_values(|c: char| ascii_lower_char(c))
    } else {
        non_ascii_lowercase(s)
    }
}

/// `char::is_whitespace`: true when `c` has the Unicode `White_Space`
/// property. Claimed of std: the result is that property, which on ASCII
/// holds exactly of space and U+0009 to U+000D.
#[verifier::external_body]
pub(crate) fn is_whitespace(c: char) -> (b: bool)
    ensures
        b == is_white_space(c),
        !is_ascii_char(c) ==> b == non_ascii_white_space(c),
{
    c.is_whitespace()
}

/// `char::is_alphanumeric`: true when `c` is Unicode alphabetic or numeric.
/// Claimed of std: the result is that property, which on ASCII holds
/// exactly of letters and digits.
#[verifier::external_body]
pub(crate) fn is_alphanumeric(c: char) -> (b: bool)
    ensures
        b == is_alphanumeric_char(c),
        !is_ascii_char(c) ==> b == non_ascii_alphanumeric(c),
{
    c.is_alphanumeric()
}

/// `str::to_lowercase`: the Unicode lowercase mapping of `s`. Claimed of
/// std: the result is that mapping, which on an all-ASCII text lowercases
/// the letters A to Z one for one and keeps every other character.
#[verifier::external_body]
pub(crate) fn to_lowercase(s: &str) -> (r: String)
    ensures
        r@ == lowercase_text(s@),
        !is_ascii_text(s@) ==> r@ == non_ascii_lowercase(s@),
{
    s.to_lowercase()
}

/// `String: FromIterator<char>`: a string holding exactly the given
/// characters, in order.
#[verifier::external_body]
pub(crate) fn string_from_chars(v: &Vec<char>) -> (s: String)
    ensures
        s@ == v@,
{
    v.iter().collect()
}

// ---------------------------------------------------------------------------
// Moving between strings and character vectors
// ---------------------------------------------------------------------------

/// The characters of a string slice.
pub fn chars_of(s: &str) -> (v: Vec<char>)
    ensures
        v@ == s@,
{
    let mut v: Vec<char> = Vec::new();
    for c in it: s.chars()
        invariant
            v@ == it.seq().take(it.index() as int),
            it.seq() == s@,
    {
        v.push(c);
    }
    v
}

/// Appends the characters of `s` to `out`.
pub fn push_str(out: &mut Vec<char>, s: &str)
    ensures
        final(out)@ == old(out)@ + s@,
{
    let ghost start = out@;
    for c in it: s.chars()
        invariant
            out@ == start + it.seq().take(it.index() as int),
            it.seq() == s@,
    {
        out.push(c);
        proof {
            assert(it.seq().take(it.index() as int + 1) =~= it.seq().take(it.index() as int).push(c));
        }
    }
    proof {
        assert(s@.take(s@.len() as int) =~= s@);
    }
}

/// Appends the characters `s[from..to]` to `out`.
pub fn push_range(out: &mut Vec<char>, s: &Vec<char>, from: usize, to: usize)
    requires
        from <= to <= s@.len(),
    ensures
        final(out)@ == old(out)@ + s@.subrange(from as int, to as int),
{
    let ghost start = out@;
    let mut i = from;
    while i < to
        invariant
            from <= i <= to <= s@.len(),
            out@ == start + s@.subrange(from as int, i as int),
        decreases to - i,
    {
        out.push(s[i]);
        proof {
            assert(s@.subrange(from as int, i + 1) =~= s@.subrange(from as int, i as int).push(s@[i as int]));
        }
        i = i + 1;
    }
}

/// The characters `s[from..to]` as a new vector.
pub fn slice_of(s: &Vec<char>, from: usize, to: usize) -> (r: Vec<char>)
    requires
        from <= to <= s@.len(),
    ensures
        r@ == s@.subrange(from as int, to as int),
{
    let mut r: Vec<char> = Vec::new();
    push_range(&mut r, s, from, to);
    r
}

/// A string holding `s[from..to]`.
pub fn string_of_range(s: &Vec<char>, from: usize, to: usize) -> (r: String)
    requires
        from <= to <= s@.len(),
    ensures
        r@ == s@.subrange(from as int, to as int),
{
    let v = slice_of(s, from, to);
    string_from_chars(&v)
}

/// Concatenation of string slices, as a `String`.
pub fn concat2(a: &str, b: &str) -> (r: String)
    ensures
        r@ == a@ + b@,
{
    let mut v: Vec<char> = Vec::new();
    push_str(&mut v, a);
    push_str(&mut v, b);
    string_from_chars(&v)
}

/// Whether two string slices hold the same characters.
pub fn text_eq(a: &str, b: &str) -> (r: bool)
    ensures
        r == (a@ == b@),
{
    let va = chars_of(a);
    let vb = chars_of(b);
    chars_eq(&va, &vb)
}

/// Whether two character vectors are equal.
pub fn chars_eq(a: &Vec<char>, b: &Vec<char>) -> (r: bool)
    ensures
        r == (a@ == b@),
{
    if a.len() != b.len() {
        return false;
    }
    let mut i: usize = 0;
    while i < a.len()
        invariant
            a@.len() == b@.len(),
            i <= a@.len(),
            forall|k: int| 0 <= k < i ==> a@[k] == b@[k],
        decreases a.len() - i,
    {
        if a[i] != b[i] {
            return false;
        }
        i = i + 1;
    }
    proof {
        assert(a@ =~= b@);
    }
    true
}

// ---------------------------------------------------------------------------
// Prefixes, suffixes and searching
// ---------------------------------------------------------------------------

/// `p` occurs in `s` at position `i`.
pub open spec fn occurs_at(s: Seq<char>, p: Seq<char>, i: int) -> bool {
    0 <= i && i + p.len() <= s.len() && s.subrange(i, i + p.len()) == p
}

pub open spec fn has_prefix(s: Seq<char>, p: Seq<char>) -> bool {
    occurs_at(s, p, 0)
}

pub open spec fn has_suffix(s: Seq<char>, p: Seq<char>) -> bool {
    p.len() <= s.len() && occurs_at(s, p, s.len() - p.len())
}

pub open spec fn contains_text(s: Seq<char>, p: Seq<char>) -> bool {
    exists|i: int| occurs_at(s, p, i)
}

/// The first position at or after `from` where `p` occurs in `s`.
pub open spec fn first_occurrence(s: Seq<char>, p: Seq<char>, from: int) -> Option<int>
    decreases s.len() + 1 - from,
{
    if from < 0 || from + p.len() > s.len() {
        None
    } else if occurs_at(s, p, from) {
        Some(from)
    } else {
        first_occurrence(s, p, from + 1)
    }
}

/// Whether `p` occurs in `s` at `i`.
pub fn matches_at(s: &Vec<char>, p: &Vec<char>, i: usize) -> (r: bool)
    ensures
        r == occurs_at(s@, p@, i as int),
{
    if p.len() > s.len() || i > s.len() - p.len() {
        return false;
    }
    let mut k: usize = 0;
    while k < p.len()
        invariant
            i + p@.len() <= s@.len(),
            p@.len() == p.len(),
            s@.len() == s.len(),
            k <= p@.len(),
            forall|j: int| 0 <= j < k ==> s@[i + j] == p@[j],
        decreases p.len() - k,
    {
        if s[i + k] != p[k] {
            proof {
                assert(s@.subrange(i as int, i + p@.len())[k as int] != p@[k as int]);
            }
            return false;
        }
        k = k + 1;
    }
    proof {
        assert(s@.subrange(i as int, i + p@.len()) =~= p@);
    }
    true
}

/// The first position at or after `from` where `p` occurs in `s`.
pub fn find_from(s: &Vec<char>, p: &Vec<char>, from: usize) -> (r: Option<usize>)
    ensures
        r matches Some(i) ==> first_occurrence(s@, p@, from as int) == Some(i as int),
        r is None ==> first_occurrence(s@, p@, from as int) is None,
{
    if p.len() > s.len() {
        return None;
    }
    let last = s.len() - p.len();
    let mut i = from;
    while i <= last
        invariant
            last == s@.len() - p@.len(),
            from <= i,
            first_occurrence(s@, p@, from as int) == first_occurrence(s@, p@, i as int),
        decreases last + 1 - i,
    {
        if matches_at(s, p, i) {
            return Some(i);
        }
        if i == last {
            assert(first_occurrence(s@, p@, i + 1) is None);
            return None;
        }
        i = i + 1;
    }
    None
}

/// Whether `s` starts with `p`.
pub fn starts_with(s: &Vec<char>, p: &Vec<char>) -> (r: bool)
    ensures
        r == has_prefix(s@, p@),
{
    matches_at(s, p, 0)
}

/// Whether `s` ends with `p`.
pub fn ends_with(s: &Vec<char>, p: &Vec<char>) -> (r: bool)
    ensures
        r == has_suffix(s@, p@),
{
    if p.len() > s.len() {
        false
    } else {
        matches_at(s, p, s.len() - p.len())
    }
}

pub proof fn lemma_first_occurrence_found(s: Seq<char>, p: Seq<char>, from: int)
    requires
        from >= 0,
    ensures
        first_occurrence(s, p, from) matches Some(i) ==> from <= i && occurs_at(s, p, i) && forall|j: int|
            from <= j < i ==> !occurs_at(s, p, j),
        first_occurrence(s, p, from) is None ==> forall|j: int| from <= j ==> !occurs_at(s, p, j),
    decreases s.len() + 1 - from,
{
    if from + p.len() > s.len() {
    } else if occurs_at(s, p, from) {
    } else {
        lemma_first_occurrence_found(s, p, from + 1);
    }
}

/// Whether `p` occurs anywhere in `s`.
pub fn contains_chars(s: &Vec<char>, p: &Vec<char>) -> (r: bool)
    ensures
        r == contains_text(s@, p@),
{
    let f = find_from(s, p, 0);
    proof {
        lemma_first_occurrence_found(s@, p@, 0);
    }
    f.is_some()
}

/// Whether `p` occurs anywhere in `s`.
pub fn contains_str(s: &str, p: &str) -> (r: bool)
    ensures
        r == contains_text(s@, p@),
{
    let vs = chars_of(s);
    let vp = chars_of(p);
    contains_chars(&vs, &vp)
}


// ---------------------------------------------------------------------------
// Trimming
// ---------------------------------------------------------------------------

/// The end of the run of whitespace that starts at `i`.
pub open spec fn white_run_end(s: Seq<char>, i: int) -> int
    decreases s.len() - i,
{
    if 0 <= i < s.len() && is_white_space(s[i]) {
        white_run_end(s, i + 1)
    } else {
        i
    }
}

/// The start of the run of whitespace that ends at `j`, not going below `lo`.
pub open spec fn white_run_start(s: Seq<char>, lo: int, j: int) -> int
    decreases j - lo,
{
    if lo < j && j <= s.len() && is_white_space(s[j - 1]) {
        white_run_start(s, lo, j - 1)
    } else {
        j
    }
}

/// `str::trim`: `s` without leading and trailing Unicode whitespace.
pub open spec fn trim_text(s: Seq<char>) -> Seq<char> {
    let lo = white_run_end(s, 0);
    s.subrange(lo, white_run_start(s, lo, s.len() as int))
}

/// The end of the run of `c` characters that starts at `i`.
pub open spec fn char_run_end(s: Seq<char>, c: char, i: int) -> int
    decreases s.len() - i,
{
    if 0 <= i < s.len() && s[i] == c {
        char_run_end(s, c, i + 1)
    } else {
        i
    }
}

/// The start of the run of `c` characters that ends at `j`, not going below `lo`.
pub open spec fn char_run_start(s: Seq<char>, c: char, lo: int, j: int) -> int
    decreases j - lo,
{
    if lo < j && j <= s.len() && s[j - 1] == c {
        char_run_start(s, c, lo, j - 1)
    } else {
        j
    }
}

/// `str::trim_matches(c)`: `s` without leading and trailing copies of `c`.
pub open spec fn trim_char_text(s: Seq<char>, c: char) -> Seq<char> {
    let lo = char_run_end(s, c, 0);
    s.subrange(lo, char_run_start(s, c, lo, s.len() as int))
}

/// `s` without leading and trailing Unicode whitespace.
pub fn trim_chars(s: &Vec<char>) -> (r: Vec<char>)
    ensures
        r@ == trim_text(s@),
{
    let n = s.len();
    let mut lo: usize = 0;
    while lo < n
        invariant
            n == s@.len(),
            lo <= n,
            white_run_end(s@, 0) == white_run_end(s@, lo as int),
        ensures
            white_run_end(s@, lo as int) == lo,
        decreases n - lo,
    {
        if !is_whitespace(s[lo]) {
            break;
        }
        lo = lo + 1;
    }
    let mut hi: usize = n;
    while hi > lo
        invariant
            n == s@.len(),
            lo <= hi <= n,
            white_run_start(s@, lo as int, n as int) == white_run_start(s@, lo as int, hi as int),
        ensures
            white_run_start(s@, lo as int, hi as int) == hi,
        decreases hi - lo,
    {
        if !is_whitespace(s[hi - 1]) {
            break;
        }
        hi = hi - 1;
    }
    slice_of(s, lo, hi)
}

/// `s` without leading and trailing copies of `c`.
pub fn trim_char(s: &Vec<char>, c: char) -> (r: Vec<char>)
    ensures
        r@ == trim_char_text(s@, c),
{
    let n = s.len();
    let mut lo: usize = 0;
    while lo < n
        invariant
            n == s@.len(),
            lo <= n,
            char_run_end(s@, c, 0) == char_run_end(s@, c, lo as int),
        ensures
            char_run_end(s@, c, lo as int) == lo,
        decreases n - lo,
    {
        if s[lo] != c {
            break;
        }
        lo = lo + 1;
    }
    let mut hi: usize = n;
    while hi > lo
        invariant
            n == s@.len(),
            lo <= hi <= n,
            char_run_start(s@, c, lo as int, n as int) == char_run_start(s@, c, lo as int, hi as int),
        ensures
            char_run_start(s@, c, lo as int, hi as int) == hi,
        decreases hi - lo,
    {
        if s[hi - 1] != c {
            break;
        }
        hi = hi - 1;
    }
    slice_of(s, lo, hi)
}

/// `str::trim` on a string slice.
pub fn trim_str(s: &str) -> (r: String)
    ensures
        r@ == trim_text(s@),
{
    let v = chars_of(s);
    let t = trim_chars(&v);
    string_from_chars(&t)
}

// ---------------------------------------------------------------------------
// Lines and whitespace-separated tokens
// ---------------------------------------------------------------------------

/// The position of the first line feed at or after `i`, or the length.
pub open spec fn line_end(s: Seq<char>, i: int) -> int
    decreases s.len() - i,
{
    if 0 <= i < s.len() && s[i] != '\n' {
        line_end(s, i + 1)
    } else {
        i
    }
}

pub proof fn lemma_line_end(s: Seq<char>, i: int)
    requires
        0 <= i <= s.len(),
    ensures
        i <= line_end(s, i) <= s.len(),
        line_end(s, i) < s.len() ==> s[line_end(s, i)] == '\n',
        forall|k: int| i <= k < line_end(s, i) ==> s[k] != '\n',
    decreases s.len() - i,
{
    if i < s.len() && s[i] != '\n' {
        lemma_line_end(s, i + 1);
    }
}

/// A line without the carriage return that ends it, if any.
pub open spec fn strip_cr(l: Seq<char>) -> Seq<char> {
    if l.len() > 0 && l.last() == '\r' {
        l.drop_last()
    } else {
        l
    }
}

/// `str::lines` on the text from `i` on: split at each line feed, a carriage
/// return just before a line feed is dropped, and a final line feed does not
/// start an empty last line.
pub open spec fn lines_from(s: Seq<char>, i: int) -> Seq<Seq<char>>
    decreases s.len() + 1 - i,
{
    if i < 0 || i >= s.len() {
        Seq::empty()
    } else {
        let j = line_end(s, i);
        proof {
            lemma_line_end(s, i);
        }
        let l = s.subrange(i, j);
        let line = if j < s.len() {
            strip_cr(l)
        } else {
            l
        };
        seq![line] + lines_from(s, j + 1)
    }
}

/// `str::lines`.
pub open spec fn lines_of(s: Seq<char>) -> Seq<Seq<char>> {
    lines_from(s, 0)
}

/// Splits a text into its lines, as `str::lines` does.
pub fn split_lines(s: &Vec<char>) -> (r: Vec<Vec<char>>)
    ensures
        r@.len() == lines_of(s@).len(),
        forall|k: int| 0 <= k < r@.len() ==> (#[trigger] r@[k])@ == lines_of(s@)[k],
{
    let n = s.len();
    let mut r: Vec<Vec<char>> = Vec::new();
    let ghost mut acc: Seq<Seq<char>> = Seq::empty();
    let mut i: usize = 0;
    while i < n
        invariant
            n == s@.len(),
            i <= n,
            lines_of(s@) == acc + lines_from(s@, i as int),
            acc.len() == r@.len(),
            forall|k: int| 0 <= k < r@.len() ==> (#[trigger] r@[k])@ == acc[k],
        decreases n - i,
    {
        let mut j = i;
        while j < n
            invariant
                n == s@.len(),
                i <= j <= n,
                line_end(s@, i as int) == line_end(s@, j as int),
            ensures
                line_end(s@, j as int) == j,
            decreases n - j,
        {
            if s[j] == '\n' {
                break;
            }
            j = j + 1;
        }
        let mut line = slice_of(s, i, j);
        if j < n && line.len() > 0 && line[line.len() - 1] == '\r' {
            line.pop();
        }
        proof {
            let l = s@.subrange(i as int, j as int);
            let expect = if j < n { strip_cr(l) } else { l };
            assert(line@ =~= expect);
            assert(lines_from(s@, i as int) == seq![expect] + lines_from(s@, j + 1));
            assert(acc + lines_from(s@, i as int) =~= acc.push(expect) + lines_from(s@, j + 1));
            acc = acc.push(expect);
        }
        r.push(line);
        if j >= n {
            i = n;
        } else {
            i = j + 1;
        }
    }
    proof {
        assert(acc =~= lines_of(s@));
    }
    r
}

pub proof fn lemma_white_run_end(s: Seq<char>, i: int)
    requires
        0 <= i <= s.len(),
    ensures
        i <= white_run_end(s, i) <= s.len(),
        white_run_end(s, i) < s.len() ==> !is_white_space(s[white_run_end(s, i)]),
        forall|k: int| i <= k < white_run_end(s, i) ==> is_white_space(s[k]),
    decreases s.len() - i,
{
    if i < s.len() && is_white_space(s[i]) {
        lemma_white_run_end(s, i + 1);
    }
}

/// The end of the run of non-whitespace characters that starts at `i`.
pub open spec fn token_end(s: Seq<char>, i: int) -> int
    decreases s.len() - i,
{
    if 0 <= i < s.len() && !is_white_space(s[i]) {
        token_end(s, i + 1)
    } else {
        i
    }
}

pub proof fn lemma_token_end(s: Seq<char>, i: int)
    requires
        0 <= i <= s.len(),
    ensures
        i <= token_end(s, i) <= s.len(),
        i < s.len() && !is_white_space(s[i]) ==> i < token_end(s, i),
        token_end(s, i) < s.len() ==> is_white_space(s[token_end(s, i)]),
        forall|k: int| i <= k < token_end(s, i) ==> !is_white_space(s[k]),
    decreases s.len() - i,
{
    if i < s.len() && !is_white_space(s[i]) {
        lemma_token_end(s, i + 1);
    }
}

/// `str::split_whitespace` on the text from `i` on: the maximal runs of
/// non-whitespace characters, in order.
pub open spec fn tokens_from(s: Seq<char>, i: int) -> Seq<Seq<char>>
    decreases s.len() - i,
{
    if i < 0 || i > s.len() {
        Seq::empty()
    } else {
        let j = white_run_end(s, i);
        proof {
            lemma_white_run_end(s, i);
        }
        if j >= s.len() {
            Seq::empty()
        } else {
            let k = token_end(s, j);
            proof {
                lemma_token_end(s, j);
            }
            seq![s.subrange(j, k)] + tokens_from(s, k)
        }
    }
}

/// `str::split_whitespace`.
pub open spec fn tokens_of(s: Seq<char>) -> Seq<Seq<char>> {
    tokens_from(s, 0)
}

/// Splits a text at Unicode whitespace, dropping empty pieces.
pub fn split_whitespace(s: &Vec<char>) -> (r: Vec<Vec<char>>)
    ensures
        r@.len() == tokens_of(s@).len(),
        forall|k: int| 0 <= k < r@.len() ==> (#[trigger] r@[k])@ == tokens_of(s@)[k],
{
    let n = s.len();
    let mut r: Vec<Vec<char>> = Vec::new();
    let ghost mut acc: Seq<Seq<char>> = Seq::empty();
    let mut i: usize = 0;
    loop
        invariant
            n == s@.len(),
            i <= n,
            tokens_of(s@) == acc + tokens_from(s@, i as int),
            acc.len() == r@.len(),
            forall|k: int| 0 <= k < r@.len() ==> (#[trigger] r@[k])@ == acc[k],
        decreases n - i,
    {
        let mut j = i;
        while j < n
            invariant
                n == s@.len(),
                i <= j <= n,
                white_run_end(s@, i as int) == white_run_end(s@, j as int),
            ensures
                white_run_end(s@, j as int) == j,
            decreases n - j,
        {
            if !is_whitespace(s[j]) {
                break;
            }
            j = j + 1;
        }
        if j >= n {
            proof {
                assert(tokens_from(s@, i as int) =~= Seq::<Seq<char>>::empty());
                assert(acc =~= tokens_of(s@));
            }
            return r;
        }
        let mut k = j;
        while k < n
            invariant
                n == s@.len(),
                j <= k <= n,
                token_end(s@, j as int) == token_end(s@, k as int),
            ensures
                token_end(s@, k as int) == k,
            decreases n - k,
        {
            if is_whitespace(s[k]) {
                break;
            }
            k = k + 1;
        }
        proof {
            lemma_token_end(s@, j as int);
        }
        let tok = slice_of(s, j, k);
        proof {
            assert(tokens_from(s@, i as int) == seq![tok@] + tokens_from(s@, k as int));
            assert(acc + tokens_from(s@, i as int) =~= acc.push(tok@) + tokens_from(s@, k as int));
            acc = acc.push(tok@);
        }
        r.push(tok);
        i = k;
    }
}


// ---------------------------------------------------------------------------
// Ordering of texts
// ---------------------------------------------------------------------------

/// Lexicographic order of texts by character, compared from position `i`:
/// the order of `String`, since UTF-8 keeps the order of code points.
pub open spec fn text_less_from(a: Seq<char>, b: Seq<char>, i: int) -> bool
    decreases a.len() - i,
{
    if i < 0 || i >= b.len() {
        false
    } else if i >= a.len() {
        true
    } else if a[i] != b[i] {
        a[i] < b[i]
    } else {
        text_less_from(a, b, i + 1)
    }
}

/// `a < b` for strings.
pub open spec fn text_less(a: Seq<char>, b: Seq<char>) -> bool {
    text_less_from(a, b, 0)
}

pub proof fn lemma_text_less_irreflexive(a: Seq<char>, i: int)
    requires
        0 <= i,
    ensures
        !text_less_from(a, a, i),
    decreases a.len() - i,
{
    if i < a.len() {
        lemma_text_less_irreflexive(a, i + 1);
    }
}

pub proof fn lemma_text_less_transitive(a: Seq<char>, b: Seq<char>, c: Seq<char>, i: int)
    requires
        0 <= i,
        text_less_from(a, b, i),
        text_less_from(b, c, i),
    ensures
        text_less_from(a, c, i),
    decreases a.len() - i,
{
    if i < a.len() && i < b.len() && i < c.len() && a[i] == b[i] && b[i] == c[i] {
        lemma_text_less_transitive(a, b, c, i + 1);
    }
}

pub proof fn lemma_text_less_total(a: Seq<char>, b: Seq<char>, i: int)
    requires
        0 <= i <= a.len(),
        i <= b.len(),
        !text_less_from(a, b, i),
        !text_less_from(b, a, i),
    ensures
        a.subrange(i, a.len() as int) == b.subrange(i, b.len() as int),
    decreases a.len() - i,
{
    if i < a.len() && i < b.len() {
        lemma_text_less_total(a, b, i + 1);
        assert(a.subrange(i, a.len() as int) =~= seq![a[i]] + a.subrange(i + 1, a.len() as int));
        assert(b.subrange(i, b.len() as int) =~= seq![b[i]] + b.subrange(i + 1, b.len() as int));
    }
}

/// Two texts that neither precede the other are equal.
pub proof fn lemma_text_order_total(a: Seq<char>, b: Seq<char>)
    ensures
        a == b || text_less(a, b) || text_less(b, a),
{
    if !text_less(a, b) && !text_less(b, a) {
        lemma_text_less_total(a, b, 0);
        assert(a.subrange(0, a.len() as int) =~= a);
        assert(b.subrange(0, b.len() as int) =~= b);
    }
}

/// Whether `a` comes before `b` in the order of strings.
pub fn text_less_chars(a: &Vec<char>, b: &Vec<char>) -> (r: bool)
    ensures
        r == text_less(a@, b@),
{
    let mut i: usize = 0;
    loop
        invariant
            i <= a@.len(),
            i <= b@.len(),
            text_less(a@, b@) == text_less_from(a@, b@, i as int),
        decreases a.len() - i,
    {
        if i >= b.len() {
            return false;
        }
        if i >= a.len() {
            return true;
        }
        if a[i] != b[i] {
            return a[i] < b[i];
        }
        i = i + 1;
    }
}


// ---------------------------------------------------------------------------
// Character replacement
// ---------------------------------------------------------------------------

/// `s` with every `from` character replaced by `to`.
pub open spec fn replace_char_text(s: Seq<char>, from: char, to: char) -> Seq<char> {
    s.map_values(|c: char| if c == from { to } else { c })
}

/// `s` with every character that is not alphanumeric replaced by `_`.
pub open spec fn underscore_non_alnum(s: Seq<char>) -> Seq<char> {
    s.map_values(|c: char| if is_alphanumeric_char(c) { c } else { '_' })
}

/// Appends `s` to `out` with every `from` character replaced by `to`.
pub fn push_replaced(out: &mut Vec<char>, s: &str, from: char, to: char)
    ensures
        final(out)@ == old(out)@ + replace_char_text(s@, from, to),
{
    let v = chars_of(s);
    let ghost start = out@;
    let mut i: usize = 0;
    while i < v.len()
        invariant
            i <= v@.len(),
            v@ == s@,
            out@ == start + replace_char_text(v@.take(i as int), from, to),
        decreases v.len() - i,
    {
        let c = v[i];
        if c == from {
            out.push(to);
        } else {
            out.push(c);
        }
        proof {
            assert(replace_char_text(v@.take(i + 1), from, to) =~= replace_char_text(
                v@.take(i as int),
                from,
                to,
            ).push(if c == from { to } else { c }));
        }
        i = i + 1;
    }
    proof {
        assert(v@.take(v@.len() as int) =~= v@);
    }
}

/// Appends `s` to `out` with every character that is not alphanumeric
/// replaced by `_`.
pub fn push_underscored(out: &mut Vec<char>, s: &str)
    ensures
        final(out)@ == old(out)@ + underscore_non_alnum(s@),
{
    let v = chars_of(s);
    let ghost start = out@;
    let mut i: usize = 0;
    while i < v.len()
        invariant
            i <= v@.len(),
            v@ == s@,
            out@ == start + underscore_non_alnum(v@.take(i as int)),
        decreases v.len() - i,
    {
        let c = v[i];
        let keep = is_alphanumeric(c);
        if keep {
            out.push(c);
        } else {
            out.push('_');
        }
        proof {
            assert(underscore_non_alnum(v@.take(i + 1)) =~= underscore_non_alnum(
                v@.take(i as int),
            ).push(if is_alphanumeric_char(c) { c } else { '_' }));
        }
        i = i + 1;
    }
    proof {
        assert(v@.take(v@.len() as int) =~= v@);
    }
}


// ---------------------------------------------------------------------------
// Facts about lines and trimming
// ---------------------------------------------------------------------------

proof fn lemma_line_end_shift(p: Seq<char>, s: Seq<char>, i: int)
    requires
        0 <= i <= s.len(),
    ensures
        line_end(p + s, p.len() + i) == p.len() + line_end(s, i),
    decreases s.len() - i,
{
    let t = p + s;
    if i < s.len() {
        assert(t[p.len() + i] == s[i]);
        if s[i] != '\n' {
            lemma_line_end_shift(p, s, i + 1);
        }
    }
}

/// Lines are found the same way after any prefix that ends a line.
pub proof fn lemma_lines_from_shift(p: Seq<char>, s: Seq<char>, i: int)
    requires
        0 <= i <= s.len(),
    ensures
        lines_from(p + s, p.len() + i) == lines_from(s, i),
    decreases s.len() - i,
{
    let t = p + s;
    if i < s.len() {
        lemma_line_end_shift(p, s, i);
        lemma_line_end(s, i);
        let j = line_end(s, i);
        assert(t.subrange(p.len() + i, p.len() + j) =~= s.subrange(i, j));
        if j < s.len() {
            lemma_lines_from_shift(p, s, j + 1);
        } else {
            assert(lines_from(t, p.len() + j + 1) == Seq::<Seq<char>>::empty());
            assert(lines_from(s, j + 1) == Seq::<Seq<char>>::empty());
        }
        let l = s.subrange(i, j);
        let line = if j < s.len() {
            strip_cr(l)
        } else {
            l
        };
        assert(lines_from(s, i) == seq![line] + lines_from(s, j + 1));
        assert(lines_from(t, p.len() + i) == seq![line] + lines_from(t, p.len() + j + 1));
    }
}

/// A line without line feeds, followed by a line feed, is the first line,
/// less a carriage return that ends it.
pub proof fn lemma_lines_of_line(l: Seq<char>, rest: Seq<char>)
    requires
        forall|k: int| 0 <= k < l.len() ==> l[k] != '\n',
    ensures
        lines_of(l + seq!['\n'] + rest) == seq![strip_cr(l)] + lines_of(rest),
{
    let p = l + seq!['\n'];
    let t = p + rest;
    assert(l + seq!['\n'] + rest == t);
    assert(line_end(t, 0) == l.len()) by {
        lemma_line_end_prefix(l, rest, 0);
    }
    assert(t.subrange(0, l.len() as int) =~= l);
    lemma_lines_from_shift(p, rest, 0);
}

proof fn lemma_line_end_prefix(l: Seq<char>, rest: Seq<char>, i: int)
    requires
        0 <= i <= l.len(),
        forall|k: int| 0 <= k < l.len() ==> l[k] != '\n',
    ensures
        line_end(l + seq!['\n'] + rest, i) == l.len(),
    decreases l.len() - i,
{
    let t = l + seq!['\n'] + rest;
    if i < l.len() {
        assert(t[i] == l[i]);
        lemma_line_end_prefix(l, rest, i + 1);
    } else {
        assert(t[i] == '\n');
    }
}

pub proof fn lemma_white_run_start(s: Seq<char>, lo: int, j: int)
    requires
        0 <= lo <= j <= s.len(),
    ensures
        lo <= white_run_start(s, lo, j) <= j,
        white_run_start(s, lo, j) > lo ==> !is_white_space(s[white_run_start(s, lo, j) - 1]),
    decreases j - lo,
{
    if lo < j && is_white_space(s[j - 1]) {
        lemma_white_run_start(s, lo, j - 1);
    }
}

/// Trimming whitespace from the right stops at a character that is not
/// whitespace.
pub proof fn lemma_white_run_start_stops(s: Seq<char>, lo: int, j: int, m: int)
    requires
        0 <= lo < m <= j <= s.len(),
        !is_white_space(s[m - 1]),
    ensures
        white_run_start(s, lo, j) >= m,
    decreases j - m,
{
    if j > m && is_white_space(s[j - 1]) {
        lemma_white_run_start_stops(s, lo, j - 1, m);
    }
}

/// A text with no whitespace at either end is its own trim.
pub proof fn lemma_trim_unchanged(s: Seq<char>)
    requires
        s.len() > 0 ==> !is_white_space(s[0]) && !is_white_space(s.last()),
    ensures
        trim_text(s) == s,
{
    assert(white_run_end(s, 0) == 0);
    assert(white_run_start(s, 0, s.len() as int) == s.len());
    assert(s.subrange(0, s.len() as int) =~= s);
}

/// A text that is its own trim has no whitespace at either end.
pub proof fn lemma_trimmed_ends(s: Seq<char>)
    requires
        trim_text(s) == s,
        s.len() > 0,
    ensures
        !is_white_space(s[0]),
        !is_white_space(s.last()),
{
    lemma_white_run_end(s, 0);
    let lo = white_run_end(s, 0);
    lemma_white_run_start(s, lo, s.len() as int);
    let hi = white_run_start(s, lo, s.len() as int);
    assert(trim_text(s).len() == hi - lo);
    if is_white_space(s[0]) {
        lemma_white_run_end(s, 1);
        assert(lo >= 1);
    }
    if is_white_space(s.last()) {
        if lo < s.len() {
            assert(hi <= s.len() - 1);
        }
    }
}

/// Where a character first occurs in a text.
pub proof fn lemma_first_char_occurrence(t: Seq<char>, c: char, k: int, i: int)
    requires
        0 <= i <= k < t.len(),
        t[k] == c,
        forall|j: int| 0 <= j < k ==> t[j] != c,
    ensures
        first_occurrence(t, seq![c], i) == Some(k),
    decreases k - i,
{
    if i < k {
        assert(t.subrange(i, i + 1)[0] == t[i]);
        lemma_first_char_occurrence(t, c, k, i + 1);
    } else {
        assert(t.subrange(k, k + 1) =~= seq![c]);
    }
}


/// The first item whose mark is set.
pub fn first_marked(items: &Vec<String>, marks: &Vec<bool>) -> (r: Option<String>)
    requires
        items@.len() == marks@.len(),
    ensures
        r matches Some(p) ==> exists|k: int|
            0 <= k < items@.len() && marks@[k] && p@ == items@[k]@ && forall|j: int|
                0 <= j < k ==> !marks@[j],
        r is None ==> forall|k: int| 0 <= k < marks@.len() ==> !marks@[k],
{
    let mut k: usize = 0;
    while k < items.len()
        invariant
            k <= items@.len(),
            items@.len() == marks@.len(),
            forall|j: int| 0 <= j < k ==> !marks@[j],
        decreases items.len() - k,
    {
        if marks[k] {
            return Some(items[k].clone());
        }
        k = k + 1;
    }
    None
}

} // verus!
