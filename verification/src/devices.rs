//! The J-Link device database: reading the exported device list, ranking
//! the devices that match a pattern, resolving a fuzzy name to one device,
//! and reading the J-Link software version from J-Link Commander's banner.
use vstd::prelude::*;
use crate::numbers::{self, decimal_string};
use crate::text::{
    self, chars_eq, chars_of, contains_chars, find_from, push_str, slice_of, split_lines,
    starts_with, string_from_chars, text_less_chars, to_lowercase, trim_char, trim_chars,
};

verus! {

/// How well a device name matches a search pattern; `Exact` ranks first.
#[derive(Debug, Clone, Copy, PartialEq, Eq, PartialOrd, Ord, Structural)]
pub enum MatchQuality {
    Exact,
    Prefix,
    Contains,
}

/// One device of the database that matches a search pattern.
#[derive(Debug, Clone, PartialEq, Eq)]
pub struct SearchResult {
    pub quality: MatchQuality,
    pub vendor: String,
    pub device: String,
}

impl View for SearchResult {
    type V = (MatchQuality, Seq<char>, Seq<char>);

    open spec fn view(&self) -> (MatchQuality, Seq<char>, Seq<char>) {
        (self.quality, self.vendor@, self.device@)
    }
}

/// The position of a quality in the ranking.
pub open spec fn quality_rank(q: MatchQuality) -> int {
    match q {
        MatchQuality::Exact => 0,
        MatchQuality::Prefix => 1,
        MatchQuality::Contains => 2,
    }
}

fn rank_of(q: MatchQuality) -> (r: u8)
    ensures
        r == quality_rank(q),
{
    match q {
        MatchQuality::Exact => 0,
        MatchQuality::Prefix => 1,
        MatchQuality::Contains => 2,
    }
}

// ---------------------------------------------------------------------------
// Reading the exported device list
// ---------------------------------------------------------------------------

/// The separator between the quoted columns of the device list: `", "`.
pub open spec fn field_separator() -> Seq<char> {
    seq!['"', ',', ' ', '"']
}

/// The first two pieces of `line` split at the column separator, when the
/// line has at least two.
pub open spec fn first_two_fields(line: Seq<char>) -> Option<(Seq<char>, Seq<char>)> {
    match text::first_occurrence(line, field_separator(), 0) {
        None => None,
        Some(p) => {
            let start = p + 4;
            let end = match text::first_occurrence(line, field_separator(), start) {
                Some(q) => q,
                None => line.len() as int,
            };
            Some((line.subrange(0, p), line.subrange(start, end)))
        },
    }
}

/// A column value without surrounding whitespace and quotes.
pub open spec fn clean_field(s: Seq<char>) -> Seq<char> {
    text::trim_text(text::trim_char_text(text::trim_char_text(text::trim_text(s), '"'), '\''))
}

/// The (vendor, device) pair that a line of the device list holds, if any.
pub open spec fn device_entry(line: Seq<char>) -> Option<(Seq<char>, Seq<char>)> {
    if text::trim_text(line).len() == 0 {
        None
    } else {
        match first_two_fields(line) {
            Some((a, b)) => Some((clean_field(a), clean_field(b))),
            None => None,
        }
    }
}

/// The entries of the first `n` lines, the header line excluded.
pub open spec fn entries_upto(lines: Seq<Seq<char>>, n: int) -> Seq<(Seq<char>, Seq<char>)>
    decreases n,
{
    if n <= 1 || n > lines.len() {
        Seq::empty()
    } else {
        let e = entries_upto(lines, n - 1);
        match device_entry(lines[n - 1]) {
            Some(x) => e.push(x),
            None => e,
        }
    }
}

/// The (vendor, device) pairs of an exported device list, in file order.
pub open spec fn device_entries_of(content: Seq<char>) -> Seq<(Seq<char>, Seq<char>)> {
    entries_upto(text::lines_of(content), text::lines_of(content).len() as int)
}

fn separator_chars() -> (v: Vec<char>)
    ensures
        v@ == field_separator(),
{
    let mut v: Vec<char> = Vec::new();
    v.push('"');
    v.push(',');
    v.push(' ');
    v.push('"');
    proof {
        assert(v@ =~= field_separator());
    }
    v
}

fn clean_field_chars(s: &Vec<char>) -> (r: Vec<char>)
    ensures
        r@ == clean_field(s@),
{
    let a = trim_chars(s);
    let b = trim_char(&a, '"');
    let c = trim_char(&b, '\'');
    trim_chars(&c)
}

/// The (vendor, device) pair of one line of the device list.
pub fn parse_device_line(line: &Vec<char>) -> (r: Option<(String, String)>)
    ensures
        r matches Some(x) ==> device_entry(line@) == Some((x.0@, x.1@)),
        r is None ==> device_entry(line@) is None,
{
    let t = trim_chars(line);
    if t.len() == 0 {
        return None;
    }
    let sep = separator_chars();
    match find_from(line, &sep, 0) {
        None => None,
        Some(p) => {
            proof {
                text::lemma_first_occurrence_found(line@, sep@, 0);
                assert(text::first_occurrence(line@, sep@, 0) == Some(p as int));
                assert(p + 4 <= line.len());
            }
            let start = p + 4;
            let end = match find_from(line, &sep, start) {
                Some(q) => {
                    proof {
                        text::lemma_first_occurrence_found(line@, sep@, start as int);
                    }
                    q
                },
                None => line.len(),
            };
            let a = slice_of(line, 0, p);
            let b = slice_of(line, start, end);
            let va = clean_field_chars(&a);
            let vb = clean_field_chars(&b);
            Some((string_from_chars(&va), string_from_chars(&vb)))
        },
    }
}

/// The (vendor, device) pairs of an exported J-Link device list: every line
/// after the header that holds at least two `", "`-separated columns gives
/// its first two columns without whitespace and quotes.
pub fn device_entries(device_list: &str) -> (r: Vec<(String, String)>)
    ensures
        r@.len() == device_entries_of(device_list@).len(),
        forall|k: int|
            0 <= k < r@.len() ==> ((#[trigger] r@[k]).0@, r@[k].1@) == device_entries_of(
                device_list@,
            )[k],
{
    let content = chars_of(device_list);
    let lines = split_lines(&content);
    let ghost ls = text::lines_of(content@);
    let mut r: Vec<(String, String)> = Vec::new();
    let mut i: usize = 1;
    if lines.len() == 0 {
        return r;
    }
    while i < lines.len()
        invariant
            1 <= i <= lines@.len(),
            ls == text::lines_of(device_list@),
            lines@.len() == ls.len(),
            forall|k: int| 0 <= k < lines@.len() ==> (#[trigger] lines@[k])@ == ls[k],
            r@.len() == entries_upto(ls, i as int).len(),
            forall|k: int|
                0 <= k < r@.len() ==> ((#[trigger] r@[k]).0@, r@[k].1@) == entries_upto(ls, i as int)[k],
        decreases lines.len() - i,
    {
        let e = parse_device_line(&lines[i]);
        match e {
            Some(x) => {
                r.push(x);
            },
            None => {},
        }
        i = i + 1;
    }
    r
}

// ---------------------------------------------------------------------------
// Matching and ranking
// ---------------------------------------------------------------------------

/// The quality with which a (lowercased) device name matches a
/// (lowercased) pattern, if it matches at all.
pub open spec fn match_quality(device_lower: Seq<char>, pattern_lower: Seq<char>) -> Option<
    MatchQuality,
> {
    if device_lower == pattern_lower {
        Some(MatchQuality::Exact)
    } else if text::has_prefix(device_lower, pattern_lower) {
        Some(MatchQuality::Prefix)
    } else if text::contains_text(device_lower, pattern_lower) {
        Some(MatchQuality::Contains)
    } else {
        None
    }
}

/// How a lowercased device name matches a lowercased pattern: equal names
/// are an exact match, then a name that starts with the pattern, then one
/// that contains it.
pub fn classify_device(device_lower: &Vec<char>, pattern_lower: &Vec<char>) -> (r: Option<
    MatchQuality,
>)
    ensures
        r == match_quality(device_lower@, pattern_lower@),
{
    if chars_eq(device_lower, pattern_lower) {
        Some(MatchQuality::Exact)
    } else if starts_with(device_lower, pattern_lower) {
        Some(MatchQuality::Prefix)
    } else if contains_chars(device_lower, pattern_lower) {
        Some(MatchQuality::Contains)
    } else {
        None
    }
}

/// A match together with the lowercased device name it is ranked by:
/// (quality, vendor, device, lowercased device).
pub type Candidate = (MatchQuality, Seq<char>, Seq<char>, Seq<char>);

/// The ranking order: better quality first, then the lowercased device
/// name in string order.
pub open spec fn candidate_less(x: Candidate, y: Candidate) -> bool {
    quality_rank(x.0) < quality_rank(y.0) || (quality_rank(x.0) == quality_rank(y.0) && text::text_less(
        x.3,
        y.3,
    ))
}

/// The matching entries among the first `n`, in file order.
pub open spec fn candidates_upto(
    entries: Seq<(Seq<char>, Seq<char>)>,
    lowers: Seq<Seq<char>>,
    pattern_lower: Seq<char>,
    n: int,
) -> Seq<Candidate>
    decreases n,
{
    if n <= 0 || n > entries.len() {
        Seq::empty()
    } else {
        let c = candidates_upto(entries, lowers, pattern_lower, n - 1);
        match match_quality(lowers[n - 1], pattern_lower) {
            Some(q) => c.push((q, entries[n - 1].0, entries[n - 1].1, lowers[n - 1])),
            None => c,
        }
    }
}

/// Where a stable insertion puts `x` into `s`: after every element that
/// does not rank after `x`, scanning from `i`.
pub open spec fn insert_position(s: Seq<Candidate>, x: Candidate, i: int) -> int
    decreases s.len() - i,
{
    if 0 <= i < s.len() && !candidate_less(x, s[i]) {
        insert_position(s, x, i + 1)
    } else {
        i
    }
}

pub proof fn lemma_insert_position(s: Seq<Candidate>, x: Candidate, i: int)
    requires
        0 <= i <= s.len(),
    ensures
        i <= insert_position(s, x, i) <= s.len(),
        forall|k: int| i <= k < insert_position(s, x, i) ==> !candidate_less(x, #[trigger] s[k]),
        insert_position(s, x, i) < s.len() ==> candidate_less(x, s[insert_position(s, x, i)]),
    decreases s.len() - i,
{
    if i < s.len() && !candidate_less(x, s[i]) {
        lemma_insert_position(s, x, i + 1);
    }
}

/// The stable sort of `s` by the ranking order, as insertion sort builds it.
pub open spec fn stable_sort(s: Seq<Candidate>) -> Seq<Candidate>
    decreases s.len(),
{
    if s.len() == 0 {
        s
    } else {
        let sorted = stable_sort(s.drop_last());
        sorted.insert(insert_position(sorted, s.last(), 0), s.last())
    }
}

pub proof fn lemma_stable_sort_len(s: Seq<Candidate>)
    ensures
        stable_sort(s).len() == s.len(),
    decreases s.len(),
{
    if s.len() > 0 {
        lemma_stable_sort_len(s.drop_last());
        lemma_insert_position(stable_sort(s.drop_last()), s.last(), 0);
    }
}

pub open spec fn as_search_result(c: Candidate) -> (MatchQuality, Seq<char>, Seq<char>) {
    (c.0, c.1, c.2)
}

/// The ranked matches of `entries`, given each device name lowercased.
pub open spec fn ranked_matches(
    entries: Seq<(Seq<char>, Seq<char>)>,
    lowers: Seq<Seq<char>>,
    pattern_lower: Seq<char>,
) -> Seq<(MatchQuality, Seq<char>, Seq<char>)> {
    stable_sort(candidates_upto(entries, lowers, pattern_lower, entries.len() as int)).map_values(
        |c: Candidate| as_search_result(c),
    )
}

fn key_less(r1: u8, l1: &Vec<char>, r2: u8, l2: &Vec<char>) -> (b: bool)
    ensures
        b == (r1 < r2 || (r1 == r2 && text::text_less(l1@, l2@))),
{
    if r1 < r2 {
        true
    } else if r1 == r2 {
        text_less_chars(l1, l2)
    } else {
        false
    }
}

/// Ranks the entries that match a lowercased pattern, given the lowercased
/// device name of each entry: exact matches first, then prefix matches,
/// then the others, each group in the string order of the lowercased
/// names, entries that tie keeping their file order.
pub fn rank_device_matches(
    entries: &Vec<(String, String)>,
    lowered: &Vec<String>,
    pattern_lower: &str,
) -> (r: Vec<SearchResult>)
    requires
        lowered@.len() == entries@.len(),
    ensures
        r@.len() == ranked_matches(
            entries@.map_values(|e: (String, String)| (e.0@, e.1@)),
            lowered@.map_values(|l: String| l@),
            pattern_lower@,
        ).len(),
        forall|k: int|
            0 <= k < r@.len() ==> (#[trigger] r@[k])@ == ranked_matches(
                entries@.map_values(|e: (String, String)| (e.0@, e.1@)),
                lowered@.map_values(|l: String| l@),
                pattern_lower@,
            )[k],
{
    let ghost es = entries@.map_values(|e: (String, String)| (e.0@, e.1@));
    let ghost ls = lowered@.map_values(|l: String| l@);
    let pat = chars_of(pattern_lower);
    let mut results: Vec<SearchResult> = Vec::new();
    let mut keys: Vec<(u8, Vec<char>)> = Vec::new();
    let ghost mut sorted: Seq<Candidate> = Seq::empty();
    let mut i: usize = 0;
    while i < entries.len()
        invariant
            i <= entries@.len(),
            lowered@.len() == entries@.len(),
            es == entries@.map_values(|e: (String, String)| (e.0@, e.1@)),
            ls == lowered@.map_values(|l: String| l@),
            pat@ == pattern_lower@,
            sorted == stable_sort(candidates_upto(es, ls, pat@, i as int)),
            results@.len() == sorted.len(),
            keys@.len() == sorted.len(),
            forall|k: int|
                0 <= k < sorted.len() ==> (#[trigger] results@[k])@ == as_search_result(sorted[k]),
            forall|k: int|
                0 <= k < sorted.len() ==> (#[trigger] keys@[k]).0 == quality_rank(sorted[k].0)
                    && keys@[k].1@ == sorted[k].3,
        decreases entries.len() - i,
    {
        let lower = chars_of(lowered[i].as_str());
        let q = classify_device(&lower, &pat);
        proof {
            assert(ls[i as int] == lower@);
            assert(es[i as int] == (entries@[i as int].0@, entries@[i as int].1@));
        }
        match q {
            None => {
                proof {
                    assert(candidates_upto(es, ls, pat@, i + 1) == candidates_upto(es, ls, pat@, i as int));
                }
            },
            Some(quality) => {
                let rank = rank_of(quality);
                let ghost cand: Candidate = (quality, es[i as int].0, es[i as int].1, lower@);
                let mut j: usize = 0;
                while j < keys.len()
                    invariant
                        j <= keys@.len(),
                        keys@.len() == sorted.len(),
                        rank == quality_rank(cand.0),
                        lower@ == cand.3,
                        forall|k: int|
                            0 <= k < sorted.len() ==> (#[trigger] keys@[k]).0 == quality_rank(
                                sorted[k].0,
                            ) && keys@[k].1@ == sorted[k].3,
                        insert_position(sorted, cand, 0) == insert_position(sorted, cand, j as int),
                    ensures
                        insert_position(sorted, cand, 0) == j,
                    decreases keys.len() - j,
                {
                    if key_less(rank, &lower, keys[j].0, &keys[j].1) {
                        break;
                    }
                    j = j + 1;
                }
                proof {
                    lemma_insert_position(sorted, cand, 0);
                    let c = candidates_upto(es, ls, pat@, i + 1);
                    assert(c == candidates_upto(es, ls, pat@, i as int).push(cand));
                    assert(c.drop_last() =~= candidates_upto(es, ls, pat@, i as int));
                    sorted = sorted.insert(j as int, cand);
                }
                let result = SearchResult {
                    quality,
                    vendor: entries[i].0.clone(),
                    device: entries[i].1.clone(),
                };
                results.insert(j, result);
                keys.insert(j, (rank, lower));
            },
        }
        i = i + 1;
    }
    proof {
        lemma_stable_sort_len(candidates_upto(es, ls, pat@, i as int));
    }
    results
}

/// The ranked matches of `pattern` among the devices of an exported device
/// list, compared without regard to case.
pub open spec fn search_spec(device_list: Seq<char>, pattern: Seq<char>) -> Seq<
    (MatchQuality, Seq<char>, Seq<char>),
> {
    let entries = device_entries_of(device_list);
    ranked_matches(
        entries,
        entries.map_values(|e: (Seq<char>, Seq<char>)| text::lowercase_text(e.1)),
        text::lowercase_text(pattern),
    )
}

/// Searches an exported J-Link device list for `pattern`, without regard to
/// case: every device whose lowercased name equals, starts with or contains
/// the lowercased pattern, ranked in that order and then by lowercased name.
pub fn search_devices(pattern: &str, device_list: &str) -> (r: Vec<SearchResult>)
    ensures
        r@.len() == search_spec(device_list@, pattern@).len(),
        forall|k: int| 0 <= k < r@.len() ==> (#[trigger] r@[k])@ == search_spec(device_list@, pattern@)[k],
{
    let entries = device_entries(device_list);
    let ghost es = device_entries_of(device_list@);
    let mut lowered: Vec<String> = Vec::new();
    let mut i: usize = 0;
    while i < entries.len()
        invariant
            i <= entries@.len(),
            entries@.len() == es.len(),
            forall|k: int| 0 <= k < entries@.len() ==> ((#[trigger] entries@[k]).0@, entries@[k].1@) == es[k],
            lowered@.len() == i,
            forall|k: int| 0 <= k < i ==> (#[trigger] lowered@[k])@ == text::lowercase_text(es[k].1),
        decreases entries.len() - i,
    {
        let l = to_lowercase(entries[i].1.as_str());
        lowered.push(l);
        i = i + 1;
    }
    let pattern_lower = to_lowercase(pattern);
    proof {
        assert(entries@.map_values(|e: (String, String)| (e.0@, e.1@)) =~= es);
        assert(lowered@.map_values(|l: String| l@) =~= es.map_values(
            |e: (Seq<char>, Seq<char>)| text::lowercase_text(e.1),
        ));
    }
    rank_device_matches(&entries, &lowered, pattern_lower.as_str())
}


// ---------------------------------------------------------------------------
// Resolving a fuzzy device name
// ---------------------------------------------------------------------------

/// The number of exact matches in `ms`.
pub open spec fn exact_count(ms: Seq<(MatchQuality, Seq<char>, Seq<char>)>) -> nat
    decreases ms.len(),
{
    if ms.len() == 0 {
        0
    } else {
        exact_count(ms.drop_last()) + if ms.last().0 == MatchQuality::Exact {
            1nat
        } else {
            0nat
        }
    }
}

/// The position of the first exact match at or after `i`, or the length.
pub open spec fn first_exact_from(ms: Seq<(MatchQuality, Seq<char>, Seq<char>)>, i: int) -> int
    decreases ms.len() - i,
{
    if 0 <= i < ms.len() && ms[i].0 != MatchQuality::Exact {
        first_exact_from(ms, i + 1)
    } else {
        i
    }
}

pub open spec fn no_match_message(pattern: Seq<char>) -> Seq<char> {
    "[ERROR] No J-Link device matches '"@ + pattern
        + "'.\n[INFO] Try a broader pattern, e.g. 'nrf52' instead of 'nrf52840'.\n[INFO] Or confirm the exact name: cargo run -- --search-device <pattern>"@
}

/// One `[INFO]` line per candidate: vendor and device.
pub open spec fn candidate_lines(ms: Seq<(MatchQuality, Seq<char>, Seq<char>)>) -> Seq<char>
    decreases ms.len(),
{
    if ms.len() == 0 {
        Seq::empty()
    } else {
        candidate_lines(ms.drop_last()) + "[INFO]   "@ + ms.last().1 + " | "@ + ms.last().2 + "\n"@
    }
}

pub open spec fn multiple_match_message(
    pattern: Seq<char>,
    ms: Seq<(MatchQuality, Seq<char>, Seq<char>)>,
) -> Seq<char> {
    "[ERROR] Multiple J-Link devices match '"@ + pattern + "' ("@ + numbers::numeral(ms.len(), 10)
        + " found).\n"@
        + "[INFO] Pick the correct device from the list below and re-run with --device <EXACT_NAME>:\n"@
        + candidate_lines(ms) + "\n[INFO] Example: cargo run -- --init --device <EXACT_NAME>"@
}

/// Which device a fuzzy name resolves to among its matches: the only exact
/// match, else the only match; no match, or several without a single exact
/// one, is an error that says what to do.
pub open spec fn device_choice(pattern: Seq<char>, ms: Seq<(MatchQuality, Seq<char>, Seq<char>)>) -> Result<
    (MatchQuality, Seq<char>, Seq<char>),
    Seq<char>,
> {
    if ms.len() == 0 {
        Err(no_match_message(pattern))
    } else if exact_count(ms) == 1 {
        Ok(ms[first_exact_from(ms, 0)])
    } else if ms.len() == 1 {
        Ok(ms[0])
    } else {
        Err(multiple_match_message(pattern, ms))
    }
}

fn result_copy(r: &SearchResult) -> (c: SearchResult)
    ensures
        c@ == r@,
{
    SearchResult { quality: r.quality, vendor: r.vendor.clone(), device: r.device.clone() }
}

/// Picks the device that `pattern` resolves to among `matches`, or says
/// why none is picked.
pub fn choose_device(pattern: &str, matches: &Vec<SearchResult>) -> (r: Result<SearchResult, String>)
    ensures
        r matches Ok(x) ==> device_choice(pattern@, matches@.map_values(|m: SearchResult| m@)) == Ok::<
            (MatchQuality, Seq<char>, Seq<char>),
            Seq<char>,
        >(x@),
        r matches Err(e) ==> device_choice(pattern@, matches@.map_values(|m: SearchResult| m@)) == Err::<
            (MatchQuality, Seq<char>, Seq<char>),
            Seq<char>,
        >(e@),
{
    let ghost ms = matches@.map_values(|m: SearchResult| m@);
    if matches.len() == 0 {
        let mut v: Vec<char> = Vec::new();
        push_str(&mut v, "[ERROR] No J-Link device matches '");
        push_str(&mut v, pattern);
        push_str(
            &mut v,
            "'.\n[INFO] Try a broader pattern, e.g. 'nrf52' instead of 'nrf52840'.\n[INFO] Or confirm the exact name: cargo run -- --search-device <pattern>",
        );
        return Err(string_from_chars(&v));
    }
    let mut count: usize = 0;
    let mut first: usize = matches.len();
    let mut i: usize = 0;
    while i < matches.len()
        invariant
            i <= matches@.len(),
            ms == matches@.map_values(|m: SearchResult| m@),
            count == exact_count(ms.take(i as int)),
            count <= i,
            first == matches@.len() ==> first_exact_from(ms, 0) == first_exact_from(ms, i as int),
            first < matches@.len() ==> first == first_exact_from(ms, 0) && first < i,
            first <= matches@.len(),
            (first < matches@.len()) == (count > 0),
        decreases matches.len() - i,
    {
        proof {
            assert(ms.take(i + 1).drop_last() =~= ms.take(i as int));
        }
        if matches[i].quality == MatchQuality::Exact {
            count = count + 1;
            if first == matches.len() {
                first = i;
            }
        }
        i = i + 1;
    }
    proof {
        assert(ms.take(ms.len() as int) =~= ms);
    }
    if count == 1 {
        return Ok(result_copy(&matches[first]));
    }
    if matches.len() == 1 {
        return Ok(result_copy(&matches[0]));
    }
    let mut v: Vec<char> = Vec::new();
    push_str(&mut v, "[ERROR] Multiple J-Link devices match '");
    push_str(&mut v, pattern);
    push_str(&mut v, "' (");
    let n = decimal_string(matches.len() as u64);
    push_str(&mut v, n.as_str());
    push_str(&mut v, " found).\n");
    push_str(
        &mut v,
        "[INFO] Pick the correct device from the list below and re-run with --device <EXACT_NAME>:\n",
    );
    let ghost prefix = v@;
    let mut k: usize = 0;
    while k < matches.len()
        invariant
            k <= matches@.len(),
            ms == matches@.map_values(|m: SearchResult| m@),
            v@ == prefix + candidate_lines(ms.take(k as int)),
        decreases matches.len() - k,
    {
        push_str(&mut v, "[INFO]   ");
        push_str(&mut v, matches[k].vendor.as_str());
        push_str(&mut v, " | ");
        push_str(&mut v, matches[k].device.as_str());
        push_str(&mut v, "\n");
        proof {
            assert(ms.take(k + 1).drop_last() =~= ms.take(k as int));
            assert(v@ =~= prefix + candidate_lines(ms.take(k + 1)));
        }
        k = k + 1;
    }
    push_str(&mut v, "\n[INFO] Example: cargo run -- --init --device <EXACT_NAME>");
    proof {
        assert(ms.take(ms.len() as int) =~= ms);
        assert(v@ =~= multiple_match_message(pattern@, ms));
    }
    Err(string_from_chars(&v))
}

/// Resolves a fuzzy device name against an exported device list: the
/// unique exact match, else the only match, else an error that lists the
/// candidates or says that nothing matched.
pub fn resolve_device_name(pattern: &str, device_list: &str) -> (r: Result<SearchResult, String>)
    ensures
        r matches Ok(x) ==> device_choice(
            pattern@,
            search_spec(device_list@, pattern@),
        ) == Ok::<(MatchQuality, Seq<char>, Seq<char>), Seq<char>>(x@),
        r matches Err(e) ==> device_choice(
            pattern@,
            search_spec(device_list@, pattern@),
        ) == Err::<(MatchQuality, Seq<char>, Seq<char>), Seq<char>>(e@),
{
    let matches = search_devices(pattern, device_list);
    proof {
        assert(matches@.map_values(|m: SearchResult| m@) =~= search_spec(device_list@, pattern@));
    }
    choose_device(pattern, &matches)
}


// ---------------------------------------------------------------------------
// The J-Link software version and the device list export
// ---------------------------------------------------------------------------

/// A version token: `V` followed by a digit, e.g. `V7.94a`.
pub open spec fn is_version_token(v: Seq<char>) -> bool {
    v.len() > 1 && v[0] == 'V' && numbers::is_digit(v[1])
}

/// The version that one line of J-Link Commander's banner announces: the
/// text from the `V` of the first " V" up to the next whitespace.
pub open spec fn version_in_line(line: Seq<char>) -> Option<Seq<char>> {
    match text::first_occurrence(line, seq![' ', 'V'], 0) {
        None => None,
        Some(pos) => {
            let sub = line.subrange(pos + 1, line.len() as int);
            let end = text::token_end(sub, 0);
            if end < sub.len() {
                let ver = sub.subrange(0, end);
                if is_version_token(ver) {
                    Some(ver)
                } else {
                    None
                }
            } else if is_version_token(sub) {
                Some(text::trim_text(sub))
            } else {
                None
            }
        },
    }
}

/// The version announced by the first line, from `i` on, that announces one.
pub open spec fn version_in_lines(lines: Seq<Seq<char>>, i: int) -> Option<Seq<char>>
    decreases lines.len() - i,
{
    if i < 0 || i >= lines.len() {
        None
    } else {
        match version_in_line(lines[i]) {
            Some(v) => Some(v),
            None => version_in_lines(lines, i + 1),
        }
    }
}

/// The J-Link software version in J-Link Commander's output, or "unknown".
pub open spec fn jlink_version_of(output: Seq<char>) -> Seq<char> {
    match version_in_lines(text::lines_of(output), 0) {
        Some(v) => v,
        None => "unknown"@,
    }
}

fn version_token(v: &Vec<char>) -> (b: bool)
    ensures
        b == is_version_token(v@),
{
    v.len() > 1 && v[0] == 'V' && '0' <= v[1] && v[1] <= '9'
}

fn line_version(line: &Vec<char>) -> (r: Option<Vec<char>>)
    ensures
        r matches Some(v) ==> version_in_line(line@) == Some(v@),
        r is None ==> version_in_line(line@) is None,
{
    let mut marker: Vec<char> = Vec::new();
    marker.push(' ');
    marker.push('V');
    proof {
        assert(marker@ =~= seq![' ', 'V']);
    }
    match find_from(line, &marker, 0) {
        None => None,
        Some(pos) => {
            proof {
                text::lemma_first_occurrence_found(line@, marker@, 0);
                assert(text::first_occurrence(line@, marker@, 0) == Some(pos as int));
                assert(pos + 2 <= line@.len());
                assert(line@.len() == line.len());
            }
            let sub = slice_of(line, pos + 1, line.len());
            let mut end: usize = 0;
            while end < sub.len()
                invariant
                    end <= sub@.len(),
                    text::token_end(sub@, 0) == text::token_end(sub@, end as int),
                ensures
                    text::token_end(sub@, 0) == end,
                decreases sub.len() - end,
            {
                if text::is_whitespace(sub[end]) {
                    break;
                }
                end = end + 1;
            }
            if end < sub.len() {
                let ver = slice_of(&sub, 0, end);
                if version_token(&ver) {
                    Some(ver)
                } else {
                    None
                }
            } else if version_token(&sub) {
                Some(trim_chars(&sub))
            } else {
                None
            }
        },
    }
}

/// Reads the J-Link software version (such as `V7.94a`) from the output of
/// J-Link Commander; "unknown" when no line announces one.
pub fn parse_jlink_version(output: &str) -> (r: String)
    ensures
        r@ == jlink_version_of(output@),
{
    let content = chars_of(output);
    let lines = split_lines(&content);
    let ghost ls = text::lines_of(content@);
    let mut i: usize = 0;
    while i < lines.len()
        invariant
            i <= lines@.len(),
            lines@.len() == ls.len(),
            ls == text::lines_of(output@),
            forall|k: int| 0 <= k < lines@.len() ==> (#[trigger] lines@[k])@ == ls[k],
            version_in_lines(ls, 0) == version_in_lines(ls, i as int),
        decreases lines.len() - i,
    {
        match line_version(&lines[i]) {
            Some(v) => {
                return string_from_chars(&v);
            },
            None => {},
        }
        i = i + 1;
    }
    let mut u: Vec<char> = Vec::new();
    push_str(&mut u, "unknown");
    string_from_chars(&u)
}

/// The name of the device list cache for a J-Link version: every character
/// of the version that is not alphanumeric becomes `_`.
pub open spec fn device_cache_name_of(version: Seq<char>) -> Seq<char> {
    "jlink_devices_"@ + text::underscore_non_alnum(version) + ".csv"@
}

/// The file name under which the device list of a J-Link version is cached.
pub fn device_cache_file_name(version: &str) -> (r: String)
    ensures
        r@ == device_cache_name_of(version@),
{
    let mut v: Vec<char> = Vec::new();
    push_str(&mut v, "jlink_devices_");
    text::push_underscored(&mut v, version);
    push_str(&mut v, ".csv");
    string_from_chars(&v)
}

/// The J-Link Commander script that exports the device list to a file; on
/// Windows the path is written with forward slashes.
pub open spec fn devlist_script_of(cache_path: Seq<char>, on_windows: bool) -> Seq<char> {
    "ExpDevList "@ + (if on_windows {
        text::replace_char_text(cache_path, '\\', '/')
    } else {
        cache_path
    }) + "\nExit\n"@
}

/// The J-Link Commander script that exports the device list to `cache_path`.
pub fn devlist_script(cache_path: &str, on_windows: bool) -> (r: String)
    ensures
        r@ == devlist_script_of(cache_path@, on_windows),
{
    let mut v: Vec<char> = Vec::new();
    push_str(&mut v, "ExpDevList ");
    if on_windows {
        text::push_replaced(&mut v, cache_path, '\\', '/');
    } else {
        push_str(&mut v, cache_path);
    }
    push_str(&mut v, "\nExit\n");
    string_from_chars(&v)
}


// ---------------------------------------------------------------------------
// Laws of the device search
// ---------------------------------------------------------------------------

/// No element ranks before an element that precedes it.
pub open spec fn in_rank_order(s: Seq<Candidate>) -> bool {
    forall|i: int, j: int| 0 <= i < j < s.len() ==> !candidate_less(#[trigger] s[j], #[trigger] s[i])
}

proof fn lemma_candidate_less_transitive(x: Candidate, y: Candidate, z: Candidate)
    requires
        candidate_less(x, y),
        candidate_less(y, z),
    ensures
        candidate_less(x, z),
{
    if quality_rank(x.0) == quality_rank(y.0) && quality_rank(y.0) == quality_rank(z.0) {
        text::lemma_text_less_transitive(x.3, y.3, z.3, 0);
    }
}

proof fn lemma_insert_keeps_order(t: Seq<Candidate>, x: Candidate)
    requires
        in_rank_order(t),
    ensures
        in_rank_order(t.insert(insert_position(t, x, 0), x)),
{
    lemma_insert_position(t, x, 0);
    let p = insert_position(t, x, 0);
    let u = t.insert(p, x);
    assert forall|i: int, j: int| 0 <= i < j < u.len() implies !candidate_less(
        #[trigger] u[j],
        #[trigger] u[i],
    ) by {
        if j < p {
            assert(u[i] == t[i] && u[j] == t[j]);
        } else if j == p {
            assert(u[i] == t[i]);
        } else if i < p {
            assert(u[i] == t[i] && u[j] == t[j - 1]);
        } else if i == p {
            assert(u[j] == t[j - 1]);
            assert(candidate_less(x, t[p]));
            if p < j - 1 {
                assert(!candidate_less(t[j - 1], t[p]));
            }
            if candidate_less(t[j - 1], x) {
                lemma_candidate_less_transitive(t[j - 1], x, t[p]);
                text::lemma_text_less_irreflexive(t[p].3, 0);
            }
        } else {
            assert(u[i] == t[i - 1] && u[j] == t[j - 1]);
        }
    }
}

/// The ranking sorts: in the sorted sequence no element ranks before one
/// that precedes it.
pub proof fn lemma_stable_sort_in_order(s: Seq<Candidate>)
    ensures
        in_rank_order(stable_sort(s)),
    decreases s.len(),
{
    if s.len() > 0 {
        lemma_stable_sort_in_order(s.drop_last());
        lemma_insert_keeps_order(stable_sort(s.drop_last()), s.last());
    }
}

/// The ranking only reorders: the sorted sequence holds the same elements,
/// each as often.
pub proof fn lemma_stable_sort_permutes(s: Seq<Candidate>)
    ensures
        stable_sort(s).to_multiset() == s.to_multiset(),
    decreases s.len(),
{
    broadcast use vstd::seq_lib::to_multiset_insert, vstd::seq_lib::to_multiset_build;

    if s.len() > 0 {
        lemma_stable_sort_permutes(s.drop_last());
        lemma_insert_position(stable_sort(s.drop_last()), s.last(), 0);
        lemma_stable_sort_len(s.drop_last());
        assert(s.drop_last().push(s.last()) =~= s);
    }
}

/// What the candidates of the first `n` entries are: matching entries, with
/// their quality and lowercased name, and every matching entry among them.
proof fn lemma_candidates_upto(
    entries: Seq<(Seq<char>, Seq<char>)>,
    lowers: Seq<Seq<char>>,
    pattern_lower: Seq<char>,
    n: int,
)
    requires
        0 <= n <= entries.len(),
        lowers.len() == entries.len(),
    ensures
        forall|k: int|
            0 <= k < candidates_upto(entries, lowers, pattern_lower, n).len() ==> {
                let c = #[trigger] candidates_upto(entries, lowers, pattern_lower, n)[k];
                exists|j: int|
                    0 <= j < n && c == (c.0, entries[j].0, entries[j].1, lowers[j]) && match_quality(
                        lowers[j],
                        pattern_lower,
                    ) == Some(c.0)
            },
        forall|j: int|
            0 <= j < n && #[trigger] match_quality(lowers[j], pattern_lower) is Some ==> candidates_upto(
                entries,
                lowers,
                pattern_lower,
                n,
            ).contains(
                (
                    match_quality(lowers[j], pattern_lower)->0,
                    entries[j].0,
                    entries[j].1,
                    lowers[j],
                ),
            ),
    decreases n,
{
    if n > 0 {
        lemma_candidates_upto(entries, lowers, pattern_lower, n - 1);
        let prev = candidates_upto(entries, lowers, pattern_lower, n - 1);
        let cur = candidates_upto(entries, lowers, pattern_lower, n);
        match match_quality(lowers[n - 1], pattern_lower) {
            Some(q) => {
                assert(cur == prev.push((q, entries[n - 1].0, entries[n - 1].1, lowers[n - 1])));
                assert forall|k: int| 0 <= k < cur.len() implies {
                    let c = #[trigger] cur[k];
                    exists|j: int|
                        0 <= j < n && c == (c.0, entries[j].0, entries[j].1, lowers[j]) && match_quality(
                            lowers[j],
                            pattern_lower,
                        ) == Some(c.0)
                } by {
                    if k < prev.len() {
                        assert(cur[k] == prev[k]);
                    } else {
                        assert(cur[k] == (q, entries[n - 1].0, entries[n - 1].1, lowers[n - 1]));
                    }
                }
                assert forall|j: int|
                    0 <= j < n && #[trigger] match_quality(lowers[j], pattern_lower) is Some implies cur.contains(
                    (
                        match_quality(lowers[j], pattern_lower)->0,
                        entries[j].0,
                        entries[j].1,
                        lowers[j],
                    ),
                ) by {
                    if j < n - 1 {
                        let e = (
                            match_quality(lowers[j], pattern_lower)->0,
                            entries[j].0,
                            entries[j].1,
                            lowers[j],
                        );
                        let w = choose|w: int| 0 <= w < prev.len() && prev[w] == e;
                        assert(cur[w] == e);
                    } else {
                        assert(cur[prev.len() as int] == (q, entries[n - 1].0, entries[n - 1].1, lowers[n - 1]));
                    }
                }
            },
            None => {},
        }
    }
}

/// The lowercased device name of every element of a candidate sequence is
/// the lowercase of its device name.
pub open spec fn keys_are_lowercase(s: Seq<Candidate>) -> bool {
    forall|k: int| 0 <= k < s.len() ==> (#[trigger] s[k]).3 == text::lowercase_text(s[k].2)
}

proof fn lemma_search_candidates(device_list: Seq<char>, pattern: Seq<char>)
    ensures
        ({
            let entries = device_entries_of(device_list);
            let lowers = entries.map_values(|e: (Seq<char>, Seq<char>)| text::lowercase_text(e.1));
            let c = candidates_upto(entries, lowers, text::lowercase_text(pattern), entries.len() as int);
            &&& stable_sort(c).to_multiset() == c.to_multiset()
            &&& in_rank_order(stable_sort(c))
            &&& stable_sort(c).len() == c.len()
            &&& keys_are_lowercase(stable_sort(c))
        }),
{
    let entries = device_entries_of(device_list);
    let lowers = entries.map_values(|e: (Seq<char>, Seq<char>)| text::lowercase_text(e.1));
    let pl = text::lowercase_text(pattern);
    let c = candidates_upto(entries, lowers, pl, entries.len() as int);
    lemma_stable_sort_permutes(c);
    lemma_stable_sort_in_order(c);
    lemma_stable_sort_len(c);
    lemma_candidates_upto(entries, lowers, pl, entries.len() as int);
    let sorted = stable_sort(c);
    assert forall|k: int| 0 <= k < sorted.len() implies (#[trigger] sorted[k]).3 == text::lowercase_text(
        sorted[k].2,
    ) by {
        broadcast use vstd::seq_lib::to_multiset_contains;

        assert(sorted.contains(sorted[k]));
        assert(sorted.to_multiset().contains(sorted[k]));
        assert(c.contains(sorted[k]));
        let w = choose|w: int| 0 <= w < c.len() && c[w] == sorted[k];
        assert(c[w] == sorted[k]);
    }
}

/// Law: the search lists exact matches before prefix matches before other
/// matches, and within a group the lowercased device names are in string
/// order.
pub proof fn law_search_results_ranked(device_list: Seq<char>, pattern: Seq<char>)
    ensures
        forall|i: int, j: int|
            0 <= i < j < search_spec(device_list, pattern).len() ==> {
                let a = #[trigger] search_spec(device_list, pattern)[i];
                let b = #[trigger] search_spec(device_list, pattern)[j];
                quality_rank(a.0) < quality_rank(b.0) || (quality_rank(a.0) == quality_rank(b.0)
                    && !text::text_less(text::lowercase_text(b.2), text::lowercase_text(a.2)))
            },
{
    lemma_search_candidates(device_list, pattern);
    let entries = device_entries_of(device_list);
    let lowers = entries.map_values(|e: (Seq<char>, Seq<char>)| text::lowercase_text(e.1));
    let c = candidates_upto(entries, lowers, text::lowercase_text(pattern), entries.len() as int);
    let sorted = stable_sort(c);
    let r = search_spec(device_list, pattern);
    assert forall|i: int, j: int| 0 <= i < j < r.len() implies {
        let a = #[trigger] r[i];
        let b = #[trigger] r[j];
        quality_rank(a.0) < quality_rank(b.0) || (quality_rank(a.0) == quality_rank(b.0)
            && !text::text_less(text::lowercase_text(b.2), text::lowercase_text(a.2)))
    } by {
        assert(r[i] == as_search_result(sorted[i]));
        assert(r[j] == as_search_result(sorted[j]));
        assert(!candidate_less(sorted[j], sorted[i]));
        assert(sorted[i].3 == text::lowercase_text(sorted[i].2));
        assert(sorted[j].3 == text::lowercase_text(sorted[j].2));
    }
}


/// Law: every device the search lists is an entry of the device list whose
/// lowercased name matches the lowercased pattern with the quality listed,
/// and every such entry is listed.
pub proof fn law_search_results_match(device_list: Seq<char>, pattern: Seq<char>)
    ensures
        forall|k: int|
            0 <= k < search_spec(device_list, pattern).len() ==> {
                let r = #[trigger] search_spec(device_list, pattern)[k];
                &&& match_quality(text::lowercase_text(r.2), text::lowercase_text(pattern)) == Some(r.0)
                &&& device_entries_of(device_list).contains((r.1, r.2))
            },
        forall|j: int|
            0 <= j < device_entries_of(device_list).len() && #[trigger] match_quality(
                text::lowercase_text(device_entries_of(device_list)[j].1),
                text::lowercase_text(pattern),
            ) is Some ==> search_spec(device_list, pattern).contains(
                (
                    match_quality(
                        text::lowercase_text(device_entries_of(device_list)[j].1),
                        text::lowercase_text(pattern),
                    )->0,
                    device_entries_of(device_list)[j].0,
                    device_entries_of(device_list)[j].1,
                ),
            ),
{
    broadcast use vstd::seq_lib::to_multiset_contains;

    lemma_search_candidates(device_list, pattern);
    let entries = device_entries_of(device_list);
    let lowers = entries.map_values(|e: (Seq<char>, Seq<char>)| text::lowercase_text(e.1));
    let pl = text::lowercase_text(pattern);
    let c = candidates_upto(entries, lowers, pl, entries.len() as int);
    lemma_candidates_upto(entries, lowers, pl, entries.len() as int);
    let sorted = stable_sort(c);
    let r = search_spec(device_list, pattern);
    assert forall|k: int| 0 <= k < r.len() implies {
        let x = #[trigger] r[k];
        &&& match_quality(text::lowercase_text(x.2), text::lowercase_text(pattern)) == Some(x.0)
        &&& entries.contains((x.1, x.2))
    } by {
        assert(r[k] == as_search_result(sorted[k]));
        assert(sorted.contains(sorted[k]));
        assert(sorted.to_multiset().contains(sorted[k]));
        assert(c.contains(sorted[k]));
        let w = choose|w: int| 0 <= w < c.len() && c[w] == sorted[k];
        assert(c[w] == sorted[k]);
        let j = choose|j: int|
            0 <= j < entries.len() && c[w] == (c[w].0, entries[j].0, entries[j].1, lowers[j])
                && match_quality(lowers[j], pl) == Some(c[w].0);
        assert(entries[j] == (r[k].1, r[k].2));
    }
    assert forall|j: int|
        0 <= j < entries.len() && #[trigger] match_quality(
            text::lowercase_text(entries[j].1),
            text::lowercase_text(pattern),
        ) is Some implies r.contains(
        (
            match_quality(text::lowercase_text(entries[j].1), text::lowercase_text(pattern))->0,
            entries[j].0,
            entries[j].1,
        ),
    ) by {
        assert(lowers[j] == text::lowercase_text(entries[j].1));
        assert(match_quality(lowers[j], pl) is Some);
        let cand = (match_quality(lowers[j], pl)->0, entries[j].0, entries[j].1, lowers[j]);
        assert(c.contains(cand));
        assert(c.to_multiset().contains(cand));
        assert(sorted.contains(cand));
        let w = choose|w: int| 0 <= w < sorted.len() && sorted[w] == cand;
        assert(r[w] == as_search_result(sorted[w]));
    }
}


// ---------------------------------------------------------------------------
// Running J-Link Commander
// ---------------------------------------------------------------------------

/// The J-Link Commander executable: `JLink.exe` on Windows, else `JLinkExe`.
pub fn get_jlink_cmd_name(on_windows: bool) -> (r: &'static str)
    ensures
        r@ == if on_windows {
            "JLink.exe"@
        } else {
            "JLinkExe"@
        },
{
    if on_windows {
        "JLink.exe"
    } else {
        "JLinkExe"
    }
}

/// The null device: `NUL` on Windows, else `/dev/null`.
pub fn get_null_device(on_windows: bool) -> (r: &'static str)
    ensures
        r@ == if on_windows {
            "NUL"@
        } else {
            "/dev/null"@
        },
{
    if on_windows {
        "NUL"
    } else {
        "/dev/null"
    }
}

/// The arguments of J-Link Commander that run a command file without a GUI.
pub open spec fn commander_file_args_of(command_file: Seq<char>) -> Seq<Seq<char>> {
    seq!["-NoGui"@, "1"@, "-ExitOnError"@, "1"@, "-CommandFile"@, command_file]
}

/// The arguments of J-Link Commander that run a command file without a GUI.
pub fn commander_file_args(command_file: &str) -> (r: Vec<String>)
    ensures
        r@.map_values(|a: String| a@) == commander_file_args_of(command_file@),
{
    let mut r: Vec<String> = Vec::new();
    r.push("-NoGui".to_owned());
    r.push("1".to_owned());
    r.push("-ExitOnError".to_owned());
    r.push("1".to_owned());
    r.push("-CommandFile".to_owned());
    r.push(command_file.to_owned());
    proof {
        assert(r@.map_values(|a: String| a@) =~= commander_file_args_of(command_file@));
    }
    r
}

/// The message for J-Link Commander failing to start.
pub open spec fn commander_missing_message_of(cmd: Seq<char>, error: Seq<char>) -> Seq<char> {
    "[ERROR] Failed to run "@ + cmd + ": "@ + error
        + "\n[INFO] Is SEGGER J-Link Software installed and in your PATH?\n[INFO] Download from: https://www.segger.com/downloads/jlink/"@
}

/// The message for J-Link Commander failing to start.
pub fn commander_missing_message(cmd: &str, error: &str) -> (r: String)
    ensures
        r@ == commander_missing_message_of(cmd@, error@),
{
    let mut v: Vec<char> = Vec::new();
    push_str(&mut v, "[ERROR] Failed to run ");
    push_str(&mut v, cmd);
    push_str(&mut v, ": ");
    push_str(&mut v, error);
    push_str(
        &mut v,
        "\n[INFO] Is SEGGER J-Link Software installed and in your PATH?\n[INFO] Download from: https://www.segger.com/downloads/jlink/",
    );
    string_from_chars(&v)
}

/// The message for a failed export of the device list.
pub fn export_failed_message(cmd: &str) -> (r: String)
    ensures
        r@ == "[ERROR] Failed to export J-Link device list database using "@ + cmd@ + "."@,
{
    let mut v: Vec<char> = Vec::new();
    push_str(&mut v, "[ERROR] Failed to export J-Link device list database using ");
    push_str(&mut v, cmd);
    push_str(&mut v, ".");
    string_from_chars(&v)
}


/// Whether a candidate ranks with the given quality rank and lowercased name.
pub open spec fn has_rank_key(c: Candidate, rank: int, lower: Seq<char>) -> bool {
    quality_rank(c.0) == rank && c.3 == lower
}

/// Law: the ranking keeps ties in their order: the candidates with any
/// given quality and lowercased name come out in the order they went in.
pub proof fn law_ranking_keeps_ties_in_order(s: Seq<Candidate>, rank: int, lower: Seq<char>)
    ensures
        stable_sort(s).filter(|c: Candidate| has_rank_key(c, rank, lower)) == s.filter(
            |c: Candidate| has_rank_key(c, rank, lower),
        ),
    decreases s.len(),
{
    let pred = |c: Candidate| has_rank_key(c, rank, lower);
    if s.len() > 0 {
        let rest = s.drop_last();
        let x = s.last();
        law_ranking_keeps_ties_in_order(rest, rank, lower);
        lemma_stable_sort_in_order(rest);
        let t = stable_sort(rest);
        lemma_insert_position(t, x, 0);
        let p = insert_position(t, x, 0);
        let u = t.insert(p, x);
        assert(u == stable_sort(s));
        let front = t.take(p);
        let back = t.skip(p);
        assert(u =~= front + seq![x] + back);
        assert(t =~= front + back);
        Seq::filter_distributes_over_add(front + seq![x], back, pred);
        Seq::filter_distributes_over_add(front, seq![x], pred);
        Seq::filter_distributes_over_add(front, back, pred);
        reveal_with_fuel(Seq::filter, 2);
        assert(seq![x].drop_last() =~= Seq::<Candidate>::empty());
        if pred(x) {
            text::lemma_text_less_irreflexive(lower, 0);
            assert forall|i: int| 0 <= i < back.len() implies !pred(#[trigger] back[i]) by {
                assert(back[i] == t[p + i]);
                assert(candidate_less(x, t[p]));
                if i > 0 {
                    assert(!candidate_less(t[p + i], t[p]));
                }
                if has_rank_key(t[p + i], rank, lower) {
                    assert(quality_rank(x.0) == rank && x.3 == lower);
                    assert(false);
                }
            }
            lemma_filter_none(back, pred);
            assert(seq![x].filter(pred) =~= seq![x]);
        } else {
            assert(seq![x].filter(pred) =~= Seq::<Candidate>::empty());
        }
        rest.lemma_filter_push(x, pred);
        assert(rest.push(x) =~= s);
    }
}

proof fn lemma_filter_none(s: Seq<Candidate>, pred: spec_fn(Candidate) -> bool)
    requires
        forall|i: int| 0 <= i < s.len() ==> !pred(#[trigger] s[i]),
    ensures
        s.filter(pred) == Seq::<Candidate>::empty(),
    decreases s.len(),
{
    reveal_with_fuel(Seq::filter, 1);
    if s.len() > 0 {
        let r = s.drop_last();
        assert forall|i: int| 0 <= i < r.len() implies !pred(#[trigger] r[i]) by {
            assert(r[i] == s[i]);
        }
        lemma_filter_none(r, pred);
        assert(!pred(s[s.len() - 1]));
    } else {
        assert(s.filter(pred) =~= Seq::<Candidate>::empty());
    }
}


proof fn lemma_first_exact_bounds(ms: Seq<(MatchQuality, Seq<char>, Seq<char>)>, i: int)
    requires
        0 <= i <= ms.len(),
    ensures
        i <= first_exact_from(ms, i) <= ms.len(),
        forall|k: int| i <= k < first_exact_from(ms, i) ==> ms[k].0 != MatchQuality::Exact,
        first_exact_from(ms, i) < ms.len() ==> ms[first_exact_from(ms, i)].0 == MatchQuality::Exact,
    decreases ms.len() - i,
{
    if i < ms.len() && ms[i].0 != MatchQuality::Exact {
        lemma_first_exact_bounds(ms, i + 1);
    }
}

proof fn lemma_no_exact_count_zero(ms: Seq<(MatchQuality, Seq<char>, Seq<char>)>)
    requires
        forall|k: int| 0 <= k < ms.len() ==> ms[k].0 != MatchQuality::Exact,
    ensures
        exact_count(ms) == 0,
    decreases ms.len(),
{
    if ms.len() > 0 {
        let r = ms.drop_last();
        assert forall|k: int| 0 <= k < r.len() implies r[k].0 != MatchQuality::Exact by {
            assert(r[k] == ms[k]);
        }
        lemma_no_exact_count_zero(r);
        assert(ms[ms.len() - 1].0 != MatchQuality::Exact);
    }
}

/// Law: a fuzzy name resolves only to one of its matches, and to the
/// exact match when there is exactly one.
pub proof fn law_choice_is_a_match(pattern: Seq<char>, ms: Seq<(MatchQuality, Seq<char>, Seq<char>)>)
    ensures
        device_choice(pattern, ms) matches Ok(x) ==> ms.contains(x),
        exact_count(ms) == 1 ==> (device_choice(pattern, ms) matches Ok(x) && x.0
            == MatchQuality::Exact),
{
    lemma_first_exact_bounds(ms, 0);
    let f = first_exact_from(ms, 0);
    if ms.len() > 0 && exact_count(ms) == 1 {
        if f == ms.len() {
            lemma_no_exact_count_zero(ms);
        }
        assert(ms[f] == ms[f]);
    } else if ms.len() == 1 {
        assert(ms[0] == ms[0]);
    }
    if ms.len() == 0 {
        assert(exact_count(ms) == 0);
    }
}

proof fn lemma_exact_count_one(ms: Seq<(MatchQuality, Seq<char>, Seq<char>)>, i: int)
    requires
        0 <= i < ms.len(),
        ms[i].0 == MatchQuality::Exact,
    ensures
        exact_count(ms) >= 1,
    decreases ms.len(),
{
    if i < ms.len() - 1 {
        let r = ms.drop_last();
        assert(r[i] == ms[i]);
        lemma_exact_count_one(r, i);
    }
}

proof fn lemma_exact_count_two(ms: Seq<(MatchQuality, Seq<char>, Seq<char>)>, i: int, j: int)
    requires
        0 <= i < j < ms.len(),
        ms[i].0 == MatchQuality::Exact,
        ms[j].0 == MatchQuality::Exact,
    ensures
        exact_count(ms) >= 2,
    decreases ms.len(),
{
    let r = ms.drop_last();
    assert(r[i] == ms[i]);
    if j == ms.len() - 1 {
        lemma_exact_count_one(r, i);
    } else {
        assert(r[j] == ms[j]);
        lemma_exact_count_two(r, i, j);
    }
}

/// Law: a fuzzy name resolves only when the choice is not in doubt: to the
/// only match, or to the one match that is exact when exactly one is. With
/// no match it is refused with the no-match message; with two or more
/// matches of which not exactly one is exact, with the message that lists
/// them.
pub proof fn law_choice_needs_a_single_candidate(
    pattern: Seq<char>,
    ms: Seq<(MatchQuality, Seq<char>, Seq<char>)>,
)
    ensures
        device_choice(pattern, ms) matches Ok(x) ==> (ms.len() == 1 && x == ms[0]) || (x.0
            == MatchQuality::Exact && exists|i: int|
            0 <= i < ms.len() && #[trigger] ms[i] == x && forall|j: int|
                0 <= j < ms.len() && j != i ==> ms[j].0 != MatchQuality::Exact),
        device_choice(pattern, ms) is Ok ==> exact_count(ms) == 1 || ms.len() == 1,
        ms.len() == 0 ==> device_choice(pattern, ms) == Err::<
            (MatchQuality, Seq<char>, Seq<char>),
            Seq<char>,
        >(no_match_message(pattern)),
        ms.len() >= 2 && exact_count(ms) != 1 ==> device_choice(pattern, ms) == Err::<
            (MatchQuality, Seq<char>, Seq<char>),
            Seq<char>,
        >(multiple_match_message(pattern, ms)),
{
    lemma_first_exact_bounds(ms, 0);
    let f = first_exact_from(ms, 0);
    if ms.len() > 0 && exact_count(ms) == 1 {
        if f == ms.len() {
            lemma_no_exact_count_zero(ms);
        }
        assert forall|j: int| 0 <= j < ms.len() && j != f implies ms[j].0 != MatchQuality::Exact by {
            if ms[j].0 == MatchQuality::Exact {
                if j < f {
                } else {
                    lemma_exact_count_two(ms, f, j);
                }
            }
        }
        assert(ms[f] == ms[f]);
    }
}

} // verus!
