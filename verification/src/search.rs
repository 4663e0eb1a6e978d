//! Searching the rows of a file for a regular expression, with smart case.
use crate::rows;
use crate::rows::Row;
use crate::text;
use vstd::prelude::*;

verus! {

#[verifier::external_type_specification]
#[verifier::external_body]
pub struct ExRegex(syntect::parsing::Regex);

/// Whether a character is upper case, as `char::is_uppercase` decides it.
pub uninterp spec fn is_upper(c: char) -> bool;

/// `char::is_uppercase` tells the Unicode property `Uppercase`. Believed of
/// it: it is a function of the character, and among ASCII characters it
/// accepts the letters from `A` to `Z` and no other.
pub assume_specification[ char::is_uppercase ](c: char) -> (r: bool)
    ensures
        r == is_upper(c),
        'A' <= c <= 'Z' ==> r,
        c as u32 <= 0x7f && !('A' <= c <= 'Z') ==> !r,
;

/// Whether a pattern is a regular expression, as
/// `syntect::parsing::Regex::try_compile` decides it.
pub uninterp spec fn is_pattern(pattern: Seq<char>) -> bool;

/// Whether a regular expression matches somewhere in a text, as
/// `syntect::parsing::Regex::is_match` decides it.
pub uninterp spec fn hits(pattern: Seq<char>, text: Seq<char>) -> bool;

/// Whether a pattern is a regular expression.
///
/// Calls `syntect::parsing::Regex::try_compile`. Believed of it: the answer is
/// a function of the pattern.
#[verifier::external_body]
fn compiles(pattern: &str) -> (r: bool)
    ensures
        r == is_pattern(pattern@),
{
    syntect::parsing::Regex::try_compile(pattern).is_none()
}

/// A regular expression, with its text.
struct Pattern {
    regex: syntect::parsing::Regex,
    pattern: Ghost<Seq<char>>,
}

impl Pattern {
    /// The regular expression of a text.
    ///
    /// Calls `syntect::parsing::Regex::new`. Believed of it: the regular
    /// expression is that of the text; it is compiled when it is first used.
    #[verifier::external_body]
    fn new(pattern: &str) -> (r: Pattern)
        ensures
            r.pattern@ == pattern@,
    {
        let regex = syntect::parsing::Regex::new(pattern.to_string());
        Pattern { regex, pattern: Ghost(pattern@) }
    }

    /// Whether the regular expression matches somewhere in a text.
    ///
    /// Calls `syntect::parsing::Regex::is_match`. Believed of it: the answer
    /// is a function of the pattern and the text.
    #[verifier::external_body]
    fn is_match(&self, text: &str) -> (r: bool)
        requires
            is_pattern(self.pattern@),
        ensures
            r == hits(self.pattern@, text@),
    {
        self.regex.is_match(text)
    }
}

/// The regular expression for a query: it ignores case unless the query holds
/// an upper-case letter.
pub open spec fn smart_case(query: Seq<char>) -> Seq<char> {
    if exists|i: int| 0 <= i < query.len() && is_upper(#[trigger] query[i]) {
        query
    } else {
        "(?i)"@ + query
    }
}

/// Whether a character is an ASCII capital.
pub open spec fn is_capital(c: char) -> bool {
    'A' <= c <= 'Z'
}

/// The regular expression for a query. Among ASCII queries it ignores case
/// exactly where there is no capital.
pub fn pattern_for(query: &str) -> (r: String)
    ensures
        r@ == smart_case(query@),
        (exists|i: int| 0 <= i < query@.len() && is_capital(#[trigger] query@[i])) ==> r@ == query@,
        (forall|i: int|
            0 <= i < query@.len() ==> (#[trigger] query@[i]) as u32 <= 0x7f && !is_capital(query@[i]))
            ==> r@ == "(?i)"@ + query@,
{
    let v = text::to_chars(query);
    for i in 0..v.len()
        invariant
            v@ == query@,
            forall|j: int| 0 <= j < i ==> !is_upper(#[trigger] query@[j]) && !is_capital(query@[j]),
    {
        if v[i].is_uppercase() {
            assert(is_upper(query@[i as int]));
            return query.to_owned();
        }
    }
    let mut p = "(?i)".to_owned();
    p.push_str(query);
    p
}

/// The text of a row.
pub open spec fn row_text(r: rows::RowV) -> Seq<char> {
    rows::span_text(r.spans)
}

/// For each row, whether the query matches its text. `None` where the query
/// is no regular expression.
pub open spec fn found(v: Seq<rows::RowV>, query: Seq<char>) -> Option<Seq<bool>> {
    let p = smart_case(query);
    if is_pattern(p) {
        Some(v.map_values(|r: rows::RowV| hits(p, row_text(r))))
    } else {
        None
    }
}

fn text_of(r: &Row) -> (t: String)
    ensures
        t@ == row_text(r@),
{
    let ghost sv = rows::span_views(r.spans@);
    let mut s = String::new();
    for i in 0..r.spans.len()
        invariant
            sv == rows::span_views(r.spans@),
            s@ == rows::span_text(sv.take(i as int)),
    {
        assert(sv.take(i as int + 1).drop_last() =~= sv.take(i as int));
        assert(sv[i as int] == r.spans@[i as int]@);
        s.push_str(r.spans[i].text.as_str());
    }
    assert(sv.take(sv.len() as int) =~= sv);
    s
}

/// Search the rows of a file.
pub fn find_rows(v: &Vec<Row>, query: &str) -> (r: Option<Vec<bool>>)
    ensures
        match r {
            Some(m) => found(rows::row_views(v@), query@) == Some(m@),
            None => found(rows::row_views(v@), query@) is None,
        },
{
    let p = pattern_for(query);
    if !compiles(p.as_str()) {
        return None;
    }
    let regex = Pattern::new(p.as_str());
    let mut m: Vec<bool> = Vec::new();
    for i in 0..v.len()
        invariant
            regex.pattern@ == p@,
            is_pattern(p@),
            m@.len() == i,
            forall|j: int| 0 <= j < i ==> #[trigger] m@[j] == hits(p@, row_text(v@[j]@)),
    {
        m.push(regex.is_match(text_of(&v[i]).as_str()));
    }
    assert(m@ =~= rows::row_views(v@).map_values(|r: rows::RowV| hits(p@, row_text(r))));
    Some(m)
}

/// The first match at or behind `from`.
pub open spec fn match_from(m: Seq<bool>, from: int) -> Option<int>
    decreases m.len() - from,
{
    if from < 0 || from >= m.len() {
        None
    } else if m[from] {
        Some(from)
    } else {
        match_from(m, from + 1)
    }
}

/// The last match before `to`.
pub open spec fn match_before(m: Seq<bool>, to: int) -> Option<int>
    decreases to,
{
    if to <= 0 || to > m.len() {
        None
    } else if m[to - 1] {
        Some(to - 1)
    } else {
        match_before(m, to - 1)
    }
}

/// The next match at or behind `from`, going on at the start.
pub open spec fn next_match(m: Seq<bool>, from: int) -> Option<int> {
    match match_from(m, from) {
        Some(i) => Some(i),
        None => match_from(m, 0),
    }
}

/// The match before `to`, going on at the end.
pub open spec fn prev_match(m: Seq<bool>, to: int) -> Option<int> {
    match match_before(m, to) {
        Some(i) => Some(i),
        None => match_before(m, m.len() as int),
    }
}

/// A number in place of an index.
pub open spec fn as_int(i: Option<usize>) -> Option<int> {
    match i {
        Some(n) => Some(n as int),
        None => None,
    }
}

fn scan_from(m: &Vec<bool>, from: usize) -> (r: Option<usize>)
    ensures
        as_int(r) == match_from(m@, from as int),
{
    let mut i: usize = from;
    while i < m.len()
        invariant
            from <= i,
            match_from(m@, from as int) == match_from(m@, i as int),
        decreases m@.len() - i,
    {
        if m[i] {
            return Some(i);
        }
        i = i + 1;
    }
    None
}

fn scan_before(m: &Vec<bool>, to: usize) -> (r: Option<usize>)
    requires
        to <= m@.len(),
    ensures
        as_int(r) == match_before(m@, to as int),
{
    let mut i: usize = to;
    while i > 0
        invariant
            i <= to <= m@.len(),
            match_before(m@, to as int) == match_before(m@, i as int),
        decreases i,
    {
        if m[i - 1] {
            return Some(i - 1);
        }
        i = i - 1;
    }
    None
}

/// The next match at or behind `from`, going on at the start.
pub fn find_next(m: &Vec<bool>, from: usize) -> (r: Option<usize>)
    ensures
        as_int(r) == next_match(m@, from as int),
        r matches Some(j) ==> j < m@.len() && m@[j as int],
        r is None ==> forall|k: int| 0 <= k < m@.len() ==> !m@[k],
        forall|k: int|
            from <= k < m@.len() && #[trigger] m@[k] ==> r is Some && from <= r->0 <= k,
{
    proof {
        lemma_match_from_hits(m@, from as int);
        lemma_match_from_hits(m@, 0);
        assert forall|k: int| 0 <= k < m@.len() && #[trigger] m@[k] implies next_match(
            m@,
            from as int,
        ) is Some && (from <= k ==> from <= next_match(m@, from as int)->0 <= k) by {
            law_next_match_is_nearest(m@, from as int, k);
        }
    }
    match scan_from(m, from) {
        Some(i) => Some(i),
        None => scan_from(m, 0),
    }
}

/// The match before `to`, going on at the end.
pub fn find_prev(m: &Vec<bool>, to: usize) -> (r: Option<usize>)
    requires
        to <= m@.len(),
    ensures
        as_int(r) == prev_match(m@, to as int),
        r matches Some(j) ==> j < m@.len() && m@[j as int],
        r is None ==> forall|k: int| 0 <= k < m@.len() ==> !m@[k],
        forall|k: int| 0 <= k < to && #[trigger] m@[k] ==> r is Some && k <= r->0 < to,
{
    proof {
        lemma_match_before_hits(m@, to as int);
        lemma_match_before_hits(m@, m@.len() as int);
        assert forall|k: int| 0 <= k < m@.len() && #[trigger] m@[k] implies prev_match(
            m@,
            to as int,
        ) is Some && (k < to ==> k <= prev_match(m@, to as int)->0 < to) by {
            law_prev_match_is_nearest(m@, to as int, k);
        }
    }
    match scan_before(m, to) {
        Some(i) => Some(i),
        None => scan_before(m, m.len()),
    }
}

proof fn lemma_match_from(m: Seq<bool>, from: int, i: int)
    requires
        0 <= from <= i < m.len(),
        m[i],
    ensures
        match_from(m, from) is Some,
        from <= match_from(m, from)->0 <= i,
        m[match_from(m, from)->0],
    decreases m.len() - from,
{
    if !m[from] {
        lemma_match_from(m, from + 1, i);
    }
}

proof fn lemma_match_from_hits(m: Seq<bool>, from: int)
    ensures
        match_from(m, from) is Some ==> from <= match_from(m, from)->0 < m.len() && m[match_from(
            m,
            from,
        )->0],
    decreases m.len() - from,
{
    if 0 <= from < m.len() && !m[from] {
        lemma_match_from_hits(m, from + 1);
    }
}

proof fn lemma_match_before_hits(m: Seq<bool>, to: int)
    ensures
        match_before(m, to) is Some ==> 0 <= match_before(m, to)->0 < to <= m.len()
            && m[match_before(m, to)->0],
    decreases to,
{
    if 0 < to <= m.len() && !m[to - 1] {
        lemma_match_before_hits(m, to - 1);
    }
}

/// What a search ahead finds is a row.
pub proof fn lemma_next_in_range(m: Seq<bool>, from: int)
    ensures
        next_match(m, from) is Some ==> next_match(m, from)->0 < m.len(),
{
    lemma_match_from_hits(m, from);
    lemma_match_from_hits(m, 0);
}

/// What a search back finds is a row.
pub proof fn lemma_prev_in_range(m: Seq<bool>, to: int)
    ensures
        prev_match(m, to) is Some ==> 0 <= prev_match(m, to)->0 < m.len(),
{
    lemma_match_before_hits(m, to);
    lemma_match_before_hits(m, m.len() as int);
}

/// A search finds a match exactly where there is one, and what it finds is
/// the nearest one ahead, if any is ahead.
pub proof fn law_next_match_is_nearest(m: Seq<bool>, from: int, i: int)
    requires
        0 <= from,
        0 <= i < m.len(),
        m[i],
    ensures
        next_match(m, from) is Some,
        0 <= next_match(m, from)->0 < m.len(),
        m[next_match(m, from)->0],
        i >= from ==> from <= next_match(m, from)->0 <= i,
{
    lemma_match_from_hits(m, from);
    lemma_match_from(m, 0, i);
    if i >= from {
        lemma_match_from(m, from, i);
    }
}

proof fn lemma_match_before(m: Seq<bool>, to: int, i: int)
    requires
        0 <= i < to <= m.len(),
        m[i],
    ensures
        match_before(m, to) is Some,
        i <= match_before(m, to)->0 < to,
        m[match_before(m, to)->0],
    decreases to,
{
    if !m[to - 1] {
        lemma_match_before(m, to - 1, i);
    }
}

/// A search that goes on at the start finds the first match of all.
pub proof fn law_next_match_wraps(m: Seq<bool>, from: int, i: int)
    requires
        0 <= from,
        0 <= i < m.len(),
        m[i],
        forall|k: int| from <= k < m.len() ==> !m[k],
    ensures
        next_match(m, from) is Some,
        m[next_match(m, from)->0],
        0 <= next_match(m, from)->0 <= i,
{
    lemma_match_from_hits(m, from);
    lemma_match_from(m, 0, i);
}

/// A search back ends on the nearest match above: on a matching row before
/// `to`, with no match between the two. Where none lies above, it ends on the
/// last match of all.
pub proof fn law_prev_match_is_nearest(m: Seq<bool>, to: int, i: int)
    requires
        0 <= to <= m.len(),
        0 <= i < m.len(),
        m[i],
    ensures
        prev_match(m, to) is Some,
        0 <= prev_match(m, to)->0 < m.len(),
        m[prev_match(m, to)->0],
        i < to ==> i <= prev_match(m, to)->0 < to,
        (forall|k: int| 0 <= k < to ==> !m[k]) ==> i <= prev_match(m, to)->0,
{
    lemma_match_before_hits(m, to);
    lemma_match_before(m, m.len() as int, i);
    if i < to {
        lemma_match_before(m, to, i);
    }
}

/// Without a match, a search in either direction finds nothing.
pub proof fn law_no_match_is_found_nowhere(m: Seq<bool>, at: int)
    requires
        0 <= at <= m.len(),
        forall|k: int| 0 <= k < m.len() ==> !m[k],
    ensures
        next_match(m, at) is None,
        prev_match(m, at) is None,
{
    lemma_match_from_hits(m, at);
    lemma_match_from_hits(m, 0);
    lemma_match_before_hits(m, at);
    lemma_match_before_hits(m, m.len() as int);
}

/// Going to the next match and then to the previous one comes back, as long
/// as the start is a match and another one lies behind it.
pub proof fn law_next_and_previous_undo(m: Seq<bool>, at: int, i: int)
    requires
        0 <= at < i < m.len(),
        m[at],
        m[i],
    ensures
        next_match(m, at + 1) is Some,
        at < next_match(m, at + 1)->0 <= i,
        prev_match(m, next_match(m, at + 1)->0) == Some(at),
{
    law_next_match_is_nearest(m, at + 1, i);
    let n = next_match(m, at + 1)->0;
    law_prev_match_is_nearest(m, n, at);
    let p = prev_match(m, n)->0;
    if at < p {
        law_next_match_is_nearest(m, at + 1, p);
    }
}

/// The rows that a search finds are those whose text the expression matches:
/// row by row, whatever the other rows hold.
pub proof fn law_rows_are_searched_one_by_one(v: Seq<rows::RowV>, query: Seq<char>, i: int)
    requires
        0 <= i < v.len(),
        found(v, query) is Some,
    ensures
        found(v, query)->0.len() == v.len(),
        found(seq![v[i]], query) == Some(seq![found(v, query)->0[i]]),
{
    assert(found(seq![v[i]], query)->0 =~= seq![found(v, query)->0[i]]);
}

/// A row matches where the expression matches its text; the expression is the
/// query, which ignores case unless it holds a capital.
pub proof fn law_rows_match_by_their_text(v: Seq<rows::RowV>, query: Seq<char>, i: int)
    requires
        0 <= i < v.len(),
    ensures
        is_pattern(smart_case(query)) <==> found(v, query) is Some,
        found(v, query) is Some ==> found(v, query)->0[i] == hits(
            smart_case(query),
            rows::span_text(v[i].spans),
        ),
        (exists|k: int| 0 <= k < query.len() && is_upper(#[trigger] query[k])) ==> smart_case(query)
            == query,
        (forall|k: int| 0 <= k < query.len() ==> !is_upper(#[trigger] query[k])) ==> smart_case(
            query,
        ) == "(?i)"@ + query,
{
}

} // verus!
