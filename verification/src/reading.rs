//! Reading back: a diff that is written the way git writes it is read as what
//! was written.
use crate::diff;
use crate::diff::{FileV, HunkV, LineKind, LineV, ParserV};
use crate::text;
use vstd::prelude::*;

verus! {

/// A line of a hunk, without its numbers.
pub type Entry = (LineKind, Seq<char>);

/// A hunk to be written: where it starts on each side, whether a count of one
/// line is left out of the header, what stands behind the header's ranges, and
/// the lines.
#[verifier::ext_equal]
pub struct Written {
    pub old_at: usize,
    pub new_at: usize,
    pub short: bool,
    pub tail: Seq<char>,
    pub lines: Seq<Entry>,
}

/// How many of some lines the old side has.
pub open spec fn old_count(v: Seq<Entry>) -> nat
    decreases v.len(),
{
    if v.len() == 0 {
        0
    } else if v.last().0 == LineKind::Add {
        old_count(v.drop_last())
    } else {
        old_count(v.drop_last()) + 1
    }
}

/// How many of some lines the new side has.
pub open spec fn new_count(v: Seq<Entry>) -> nat
    decreases v.len(),
{
    if v.len() == 0 {
        0
    } else if v.last().0 == LineKind::Remove {
        new_count(v.drop_last())
    } else {
        new_count(v.drop_last()) + 1
    }
}

/// A start and a count as a hunk header writes them.
pub open spec fn range_text(at: nat, n: nat, short: bool) -> Seq<char> {
    if short && n == 1 {
        text::dec(at)
    } else {
        text::dec(at) + seq![','] + text::dec(n)
    }
}

/// A text that can stand on a line of its own.
pub open spec fn on_one_line(s: Seq<char>) -> bool {
    !s.contains('\n') && (s.len() > 0 ==> s.last() != '\r')
}

/// The header line `@@ -a,b +c,d @@`.
pub open spec fn header_text(w: Written) -> Seq<char> {
    seq!['@', '@', ' ', '-'] + range_text(w.old_at as nat, old_count(w.lines), w.short) + seq![
        ' ',
        '+',
    ] + range_text(w.new_at as nat, new_count(w.lines), w.short) + seq![' ', '@', '@'] + w.tail
}

/// The sign of a line.
pub open spec fn sign(kind: LineKind) -> char {
    match kind {
        LineKind::Context => ' ',
        LineKind::Add => '+',
        LineKind::Remove => '-',
    }
}

/// The lines of a hunk with their signs.
pub open spec fn entry_texts(v: Seq<Entry>) -> Seq<Seq<char>> {
    v.map_values(|e: Entry| seq![sign(e.0)] + e.1)
}

/// The lines of a hunk with its header.
pub open spec fn hunk_texts(w: Written) -> Seq<Seq<char>> {
    seq![header_text(w)] + entry_texts(w.lines)
}

/// The lines of hunks.
pub open spec fn hunks_texts(v: Seq<Written>) -> Seq<Seq<char>>
    decreases v.len(),
{
    if v.len() == 0 {
        Seq::empty()
    } else {
        hunks_texts(v.drop_last()) + hunk_texts(v.last())
    }
}

/// The lines of a file's diff: its header names `path` twice and then the path
/// of each side, and the hunks follow.
pub open spec fn file_texts(
    path: Seq<char>,
    old_path: Seq<char>,
    new_path: Seq<char>,
    v: Seq<Written>,
) -> Seq<Seq<char>> {
    seq![
        "diff --git "@ + "a/"@ + path + " b/"@ + path,
        "--- "@ + "a/"@ + old_path,
        "+++ "@ + "b/"@ + new_path,
    ] + hunks_texts(v)
}

/// Lines with their line feeds.
pub open spec fn fed(v: Seq<Seq<char>>) -> Seq<Seq<char>> {
    v.map_values(|s: Seq<char>| s.push('\n'))
}

/// A hunk that can be written: its texts stand on one line each, and its
/// numbers fit.
pub open spec fn writable(w: Written) -> bool {
    &&& on_one_line(w.tail)
    &&& forall|i: int| 0 <= i < w.lines.len() ==> on_one_line((#[trigger] w.lines[i]).1)
    &&& w.old_at + w.lines.len() < usize::MAX
    &&& w.new_at + w.lines.len() < usize::MAX
}

// Lines.

proof fn lemma_lines_one(a: Seq<char>, l: Seq<char>)
    requires
        a.len() == 0 || a.last() == '\n',
        !l.contains('\n'),
    ensures
        diff::whole_lines(a + l.push('\n')) == diff::whole_lines(a).push(l.push('\n')),
        l.len() > 0 ==> diff::whole_lines(a + l) == diff::whole_lines(a).push(l),
    decreases l.len(),
{
    let before = diff::whole_lines(a);
    if a.len() > 0 {
        lemma_lines_end(a);
    }
    if l.len() > 0 {
        let m = l.drop_last();
        assert(!m.contains('\n')) by {
            assert forall|i: int| 0 <= i < m.len() implies m[i] != '\n' by {
                assert(l[i] != '\n');
            }
        }
        lemma_lines_one(a, m);
        assert(l[l.len() - 1] != '\n');
        assert((a + l).drop_last() =~= a + m);
        if m.len() == 0 {
            assert(a + m =~= a);
            assert(l =~= seq![l.last()]);
        } else {
            assert(m[m.len() - 1] != '\n') by {
                assert(l[m.len() - 1] != '\n');
            }
            assert(before.push(m).drop_last() =~= before);
            assert(m.push(l.last()) =~= l);
        }
        assert(diff::whole_lines(a + l) == before.push(l));
        assert((a + l.push('\n')).drop_last() =~= a + l);
        assert(before.push(l).drop_last() =~= before);
    } else {
        assert((a + l.push('\n')).drop_last() =~= a);
        assert(l.push('\n') =~= seq!['\n']);
    }
}

proof fn lemma_lines_end(a: Seq<char>)
    requires
        a.len() > 0,
    ensures
        diff::whole_lines(a).len() > 0,
        diff::whole_lines(a).last().len() > 0,
        diff::whole_lines(a).last().last() == a.last(),
    decreases a.len(),
{
    if a.len() > 1 {
        lemma_lines_end(a.drop_last());
    }
}

proof fn lemma_lines_add(a: Seq<char>, v: Seq<Seq<char>>)
    requires
        a.len() == 0 || a.last() == '\n',
        forall|i: int| 0 <= i < v.len() ==> !(#[trigger] v[i]).contains('\n'),
    ensures
        diff::whole_lines(a + diff::glued(fed(v))) == diff::whole_lines(a) + fed(v),
        (a + diff::glued(fed(v))).len() == 0 || (a + diff::glued(fed(v))).last() == '\n',
    decreases v.len(),
{
    if v.len() == 0 {
        assert(a + diff::glued(fed(v)) =~= a);
        assert(diff::whole_lines(a) + fed(v) =~= diff::whole_lines(a));
    } else {
        let w = v.drop_last();
        assert forall|i: int| 0 <= i < w.len() implies !(#[trigger] w[i]).contains('\n') by {
            assert(!v[i].contains('\n'));
        }
        lemma_lines_add(a, w);
        assert(fed(v).drop_last() =~= fed(w));
        let b = a + diff::glued(fed(w));
        assert(!v[v.len() - 1].contains('\n'));
        lemma_lines_one(b, v.last());
        assert(a + diff::glued(fed(v)) =~= b + v.last().push('\n'));
        assert(diff::whole_lines(a) + fed(v) =~= diff::whole_lines(b).push(v.last().push('\n')));
    }
}

proof fn lemma_after_add(p: ParserV, a: Seq<Seq<char>>, b: Seq<Seq<char>>)
    ensures
        p.after_all(a + b) == p.after_all(a).after_all(b),
    decreases b.len(),
{
    if b.len() == 0 {
        assert(a + b =~= a);
    } else {
        assert((a + b).drop_last() =~= a + b.drop_last());
        lemma_after_add(p, a, b.drop_last());
    }
}

// Words and numbers.

pub(crate) proof fn lemma_split_join(a: Seq<char>, c: char, b: Seq<char>, f: spec_fn(char) -> bool)
    requires
        f(c),
    ensures
        text::split_if(a.push(c) + b, f) == text::split_if(a, f) + text::split_if(b, f),
    decreases b.len(),
{
    text::lemma_split_some(b, f);
    if b.len() == 0 {
        assert(a.push(c) + b =~= a.push(c));
        assert(a.push(c).drop_last() =~= a);
        assert(text::split_if(a, f).push(Seq::<char>::empty()) =~= text::split_if(a, f)
            + text::split_if(b, f));
    } else {
        let m = b.drop_last();
        lemma_split_join(a, c, m, f);
        text::lemma_split_some(m, f);
        assert((a.push(c) + b).drop_last() =~= a.push(c) + m);
        assert(text::split_if(a.push(c) + b, f) =~= text::split_if(a, f) + text::split_if(b, f));
    }
}

pub(crate) proof fn lemma_split_none(a: Seq<char>, f: spec_fn(char) -> bool)
    requires
        forall|i: int| 0 <= i < a.len() ==> !f(#[trigger] a[i]),
    ensures
        text::split_if(a, f) == seq![a],
    decreases a.len(),
{
    if a.len() > 0 {
        let m = a.drop_last();
        assert forall|i: int| 0 <= i < m.len() implies !f(#[trigger] m[i]) by {
            assert(!f(a[i]));
        }
        lemma_split_none(m, f);
        assert(!f(a[a.len() - 1]));
        assert(m.push(a.last()) =~= a);
        assert(text::split_if(a, f) =~= seq![a]);
    } else {
        assert(a =~= Seq::<char>::empty());
    }
}

/// Whether a text holds no white space.
pub open spec fn is_solid(a: Seq<char>) -> bool {
    forall|i: int| 0 <= i < a.len() ==> !text::is_space(#[trigger] a[i])
}

pub(crate) proof fn lemma_first_word(a: Seq<char>, b: Seq<char>)
    requires
        a.len() > 0,
        is_solid(a),
    ensures
        text::word_texts(a.push(' ') + b) == seq![a] + text::word_texts(b),
{
    let f = |c: char| text::is_space(c);
    let keep = |w: Seq<char>| w.len() > 0;
    assert(f(' '));
    lemma_split_join(a, ' ', b, f);
    lemma_split_none(a, f);
    Seq::<Seq<char>>::filter_distributes_over_add(seq![a], text::split_if(b, f), keep);
    assert(seq![a].filter(keep) =~= seq![a]) by {
        reveal(Seq::filter);
        assert(seq![a].drop_last() =~= Seq::empty());
        assert(seq![a].drop_last().filter(keep) =~= Seq::empty());
    }
}

proof fn lemma_split_head(a: Seq<char>, f: spec_fn(char) -> bool)
    requires
        a.len() > 0,
        !f(a[0]),
    ensures
        text::split_if(a, f).len() > 0,
        text::split_if(a, f)[0].len() > 0,
        text::split_if(a, f)[0][0] == a[0],
    decreases a.len(),
{
    let m = a.drop_last();
    text::lemma_split_some(m, f);
    if m.len() > 0 {
        lemma_split_head(m, f);
    } else {
        assert(text::split_if(m, f) == seq![Seq::<char>::empty()]);
    }
}

proof fn lemma_filter_head(v: Seq<Seq<char>>, keep: spec_fn(Seq<char>) -> bool)
    requires
        v.len() > 0,
        keep(v[0]),
    ensures
        v.filter(keep).len() > 0,
        v.filter(keep)[0] == v[0],
    decreases v.len(),
{
    reveal(Seq::filter);
    if v.len() > 1 {
        lemma_filter_head(v.drop_last(), keep);
    } else {
        assert(v.drop_last() =~= Seq::empty());
        assert(v.drop_last().filter(keep) =~= Seq::empty());
    }
}

proof fn lemma_word_head(a: Seq<char>)
    requires
        a.len() > 0,
        !text::is_space(a[0]),
    ensures
        text::word_texts(a).len() > 0,
        text::word_texts(a)[0].len() > 0,
        text::word_texts(a)[0][0] == a[0],
{
    let f = |c: char| text::is_space(c);
    lemma_split_head(a, f);
    lemma_filter_head(text::split_if(a, f), |w: Seq<char>| w.len() > 0);
}

pub(crate) proof fn lemma_digits(n: nat)
    ensures
        text::dec(n).len() > 0,
        text::digits_value(text::dec(n)) == n,
        forall|i: int| 0 <= i < text::dec(n).len() ==> text::is_digit(#[trigger] text::dec(n)[i]),
    decreases n,
{
    if n < 10 {
        assert(text::dec(n).drop_last() =~= Seq::<char>::empty());
        assert(text::digits_value(text::dec(n).drop_last()) == 0);
    } else {
        lemma_digits(n / 10);
        let p = text::dec(n / 10);
        assert(p.push(text::digit(n % 10)).drop_last() =~= p);
    }
}

pub(crate) proof fn lemma_reads(n: nat, max: nat)
    requires
        n <= max,
    ensures
        text::parsed_uint(text::dec(n), max) == Some(n),
{
    lemma_digits(n);
    let s = text::dec(n);
    assert(text::is_digit(s[0]));
    assert(text::unsigned_part(s) == s);
}

proof fn lemma_range(at: nat, n: nat, short: bool)
    requires
        at <= usize::MAX,
        n <= usize::MAX,
    ensures
        diff::range_of(range_text(at, n, short)) == Some((at as usize, n as usize)),
        range_text(at, n, short).len() > 0,
        is_solid(range_text(at, n, short)),
{
    lemma_digits(at);
    lemma_digits(n);
    lemma_reads(at, usize::MAX as nat);
    lemma_reads(n, usize::MAX as nat);
    let f = text::is_char(',');
    let s = range_text(at, n, short);
    assert forall|i: int| 0 <= i < s.len() implies !text::is_space(#[trigger] s[i]) by {
        if i < text::dec(at).len() {
            assert(s[i] == text::dec(at)[i]);
            assert(text::is_digit(s[i]));
        } else if i > text::dec(at).len() {
            assert(s[i] == text::dec(n)[i - text::dec(at).len() - 1]);
            assert(text::is_digit(s[i]));
        }
    }
    assert forall|i: int| 0 <= i < text::dec(at).len() implies !f(#[trigger] text::dec(at)[i]) by {
        assert(text::is_digit(text::dec(at)[i]));
    }
    assert forall|i: int| 0 <= i < text::dec(n).len() implies !f(#[trigger] text::dec(n)[i]) by {
        assert(text::is_digit(text::dec(n)[i]));
    }
    lemma_split_none(text::dec(at), f);
    if !(short && n == 1) {
        lemma_split_none(text::dec(n), f);
        lemma_split_join(text::dec(at), ',', text::dec(n), f);
        assert(s =~= text::dec(at).push(',') + text::dec(n));
        assert(text::split_at(s, ',') =~= seq![text::dec(at), text::dec(n)]);
    }
}

/// The numbers of a hunk header are those that were written into it: behind
/// `-` the start and the count of the old side, behind `+` those of the new.
pub proof fn law_hunk_header_reads_back(w: Written)
    requires
        old_count(w.lines) <= usize::MAX,
        new_count(w.lines) <= usize::MAX,
    ensures
        diff::hunk_ranges(header_text(w)) == Some(
            (
                (w.old_at, old_count(w.lines) as usize),
                (w.new_at, new_count(w.lines) as usize),
            ),
        ),
{
    let a = range_text(w.old_at as nat, old_count(w.lines), w.short);
    let b = range_text(w.new_at as nat, new_count(w.lines), w.short);
    lemma_range(w.old_at as nat, old_count(w.lines), w.short);
    lemma_range(w.new_at as nat, new_count(w.lines), w.short);
    lemma_header_words(a, b, w.tail);
    let v = text::word_texts(header_text(w));
    reveal_strlit("@@");
    reveal_strlit("-");
    reveal_strlit("+");
    assert(v[0] =~= "@@"@);
    assert(v[1].take(1) =~= "-"@);
    assert(v[2].take(1) =~= "+"@);
    assert(v[1].skip(1) =~= a);
    assert(v[2].skip(1) =~= b);
}

proof fn lemma_behind_sign(c: char, a: Seq<char>)
    requires
        !text::is_space(c),
        is_solid(a),
    ensures
        is_solid(seq![c] + a),
{
    let x = seq![c] + a;
    assert forall|i: int| 0 <= i < x.len() implies !text::is_space(#[trigger] x[i]) by {
        if i > 0 {
            assert(!text::is_space(a[i - 1]));
        }
    }
}

proof fn lemma_header_words(a: Seq<char>, b: Seq<char>, tail: Seq<char>)
    requires
        is_solid(a),
        is_solid(b),
    ensures
        ({
            let v = text::word_texts(
                seq!['@', '@', ' ', '-'] + a + seq![' ', '+'] + b + seq![' ', '@', '@'] + tail,
            );
            &&& v.len() >= 4
            &&& v[0] == seq!['@', '@']
            &&& v[1] == seq!['-'] + a
            &&& v[2] == seq!['+'] + b
        }),
{
    let at = seq!['@', '@'];
    let x = seq!['-'] + a;
    let y = seq!['+'] + b;
    let z = seq!['@', '@'] + tail;
    let s = seq!['@', '@', ' ', '-'] + a + seq![' ', '+'] + b + seq![' ', '@', '@'] + tail;
    let yz = y.push(' ') + z;
    let xyz = x.push(' ') + yz;
    assert(s =~= at.push(' ') + xyz);
    lemma_behind_sign('-', a);
    lemma_behind_sign('+', b);
    lemma_first_word(at, xyz);
    lemma_first_word(x, yz);
    lemma_first_word(y, z);
    lemma_word_head(z);
    let v = text::word_texts(s);
    let u = text::word_texts(z);
    assert(v =~= seq![at] + (seq![x] + (seq![y] + u)));
}

// Single lines.

proof fn lemma_bare(l: Seq<char>)
    requires
        l.len() > 0 ==> l.last() != '\r',
    ensures
        diff::bare(l.push('\n')) == l,
{
    assert(l.push('\n').drop_last() =~= l);
}

proof fn lemma_not_prefix(l: Seq<char>, p: Seq<char>)
    requires
        p.len() > 0,
        l.len() == 0 || l[0] != p[0],
    ensures
        !text::has_prefix(l, p),
{
    if text::has_prefix(l, p) {
        assert(l.take(p.len() as int)[0] == p[0]);
    }
}

pub(crate) proof fn lemma_prefix(p: Seq<char>, s: Seq<char>)
    ensures
        text::has_prefix(p + s, p),
        (p + s).skip(p.len() as int) == s,
{
    assert((p + s).take(p.len() as int) =~= p);
    assert((p + s).skip(p.len() as int) =~= s);
}

proof fn lemma_no_ranges(l: Seq<char>)
    requires
        l.len() > 0,
        !text::is_space(l[0]),
        l[0] != '@',
    ensures
        diff::hunk_ranges(l) is None,
{
    lemma_word_head(l);
    reveal_strlit("@@");
    let w = text::word_texts(l);
    assert(w[0][0] != '@');
}

/// The state when `raw` has been added to the text of the open file.
pub open spec fn with_raw(p: ParserV, raw: Seq<char>) -> ParserV {
    if p.raw.len() > 0 {
        ParserV { raw: p.raw.drop_last().push(p.raw.last() + raw), ..p }
    } else {
        p
    }
}

/// The state behind a header line, however it was before.
proof fn lemma_header_line(p: ParserV, l: Seq<char>)
    requires
        l.len() > 0,
        l.last() != '\r',
        !p.in_hunk() || !diff::is_body(l),
    ensures
        p.after(l.push('\n')) == with_raw(
            ParserV { old_left: 0, new_left: 0, ..p }.after_header(l),
            l.push('\n'),
        ),
{
    lemma_bare(l);
}

proof fn lemma_twin(path: Seq<char>)
    ensures
        diff::twin_path("a/"@ + path + " b/"@ + path) == path,
{
    reveal_strlit("a/");
    reveal_strlit(" b/");
    let s = "a/"@ + path + " b/"@ + path;
    let n = path.len() as int;
    assert(s.len() == 2 * n + 5);
    assert((s.len() - 5) / 2 == n);
    assert(s.subrange(0, 2) =~= "a/"@);
    assert(s.subrange(n + 2, n + 5) =~= " b/"@);
    assert(s.subrange(2, n + 2) =~= path);
    assert(s.subrange(n + 5, 2 * n + 5) =~= path);
}

proof fn lemma_side(side: Seq<char>, path: Seq<char>)
    requires
        !side.contains('\t'),
        !path.contains('\t'),
    ensures
        diff::side_path(side + path, side) == path,
{
    let s = side + path;
    let f = text::is_char('\t');
    assert forall|i: int| 0 <= i < s.len() implies !f(#[trigger] s[i]) by {
        if i < side.len() {
            assert(side[i] != '\t');
        } else {
            assert(path[i - side.len()] != '\t');
        }
    }
    lemma_split_none(s, f);
    lemma_prefix(side, path);
}

// A file.

/// A line of a hunk with its numbers: each side counts the lines before it.
pub open spec fn numbered(w: Written, i: int) -> LineV {
    let (kind, content) = w.lines[i];
    LineV {
        kind,
        content,
        old_no: if kind == LineKind::Add {
            None
        } else {
            Some((w.old_at + old_count(w.lines.take(i))) as usize)
        },
        new_no: if kind == LineKind::Remove {
            None
        } else {
            Some((w.new_at + new_count(w.lines.take(i))) as usize)
        },
        segments: Seq::empty(),
    }
}

/// The first `n` lines of a hunk with their numbers.
pub open spec fn numbered_hunk(w: Written, n: int) -> HunkV {
    HunkV { header: header_text(w), lines: Seq::new(n as nat, |i: int| numbered(w, i)) }
}

proof fn lemma_count_bounds(v: Seq<Entry>)
    ensures
        old_count(v) <= v.len(),
        new_count(v) <= v.len(),
    decreases v.len(),
{
    if v.len() > 0 {
        lemma_count_bounds(v.drop_last());
    }
}

proof fn lemma_counts(v: Seq<Entry>, i: int)
    requires
        0 <= i <= v.len(),
    ensures
        old_count(v.take(i)) <= i,
        new_count(v.take(i)) <= i,
        old_count(v.take(i)) <= old_count(v),
        new_count(v.take(i)) <= new_count(v),
        i < v.len() && v[i].0 != LineKind::Add ==> old_count(v.take(i)) < old_count(v),
        i < v.len() && v[i].0 != LineKind::Remove ==> new_count(v.take(i)) < new_count(v),
    decreases v.len() - i,
{
    lemma_count_bounds(v.take(i));
    if i < v.len() {
        lemma_counts(v, i + 1);
        assert(v.take(i + 1).drop_last() =~= v.take(i));
    } else {
        assert(v.take(i) =~= v);
    }
}

/// What a hunk adds: the state behind its header and `n` of its lines.
pub open spec fn hunk_read(p: ParserV, w: Written, n: int) -> ParserV {
    let f = p.files.last();
    ParserV {
        files: p.files.drop_last().push(FileV { hunks: f.hunks.push(numbered_hunk(w, n)), ..f }),
        raw: p.raw.drop_last().push(
            p.raw.last() + diff::glued(fed(seq![header_text(w)] + entry_texts(w.lines.take(n)))),
        ),
        old_no: (w.old_at + old_count(w.lines.take(n))) as usize,
        new_no: (w.new_at + new_count(w.lines.take(n))) as usize,
        old_left: (old_count(w.lines) - old_count(w.lines.take(n))) as usize,
        new_left: (new_count(w.lines) - new_count(w.lines.take(n))) as usize,
    }
}

proof fn lemma_header_line_is_plain(w: Written)
    requires
        writable(w),
    ensures
        header_text(w).len() > 0,
        header_text(w)[0] == '@',
        header_text(w).last() != '\r',
        !header_text(w).contains('\n'),
{
    let l = header_text(w);
    let a = range_text(w.old_at as nat, old_count(w.lines), w.short);
    let b = range_text(w.new_at as nat, new_count(w.lines), w.short);
    lemma_counts(w.lines, w.lines.len() as int);
    assert(w.lines.take(w.lines.len() as int) =~= w.lines);
    lemma_range(w.old_at as nat, old_count(w.lines), w.short);
    lemma_range(w.new_at as nat, new_count(w.lines), w.short);
    assert forall|i: int| 0 <= i < l.len() implies l[i] != '\n' by {
        let j = i - 4;
        let k = j - a.len() - 2;
        let m = k - b.len() - 3;
        if 0 <= j < a.len() {
            assert(l[i] == a[j]);
            assert(!text::is_space(a[j]));
        } else if 0 <= k < b.len() {
            assert(l[i] == b[k]);
            assert(!text::is_space(b[k]));
        } else if 0 <= m {
            assert(l[i] == w.tail[m]);
        }
    }
    if w.tail.len() > 0 {
        assert(l.last() == w.tail[w.tail.len() - 1]);
    }
}

proof fn lemma_glued_one(v: Seq<Seq<char>>, l: Seq<char>)
    ensures
        diff::glued(fed(v.push(l))) == diff::glued(fed(v)) + l.push('\n'),
{
    assert(fed(v.push(l)).drop_last() =~= fed(v));
}

#[verifier::rlimit(40)]
proof fn lemma_hunk_start(p: ParserV, w: Written)
    requires
        writable(w),
        p.files.len() > 0,
        p.raw.len() == p.files.len(),
    ensures
        p.after(header_text(w).push('\n')) == hunk_read(p, w, 0),
{
    let l = header_text(w);
    lemma_header_line_is_plain(w);
    lemma_counts(w.lines, w.lines.len() as int);
    assert(w.lines.take(w.lines.len() as int) =~= w.lines);
    law_hunk_header_reads_back(w);
    lemma_header_line(p, l);
    reveal_strlit("diff --git ");
    reveal_strlit("diff --cc ");
    reveal_strlit("--- ");
    lemma_not_prefix(l, "diff --git "@);
    lemma_not_prefix(l, "diff --cc "@);
    lemma_not_prefix(l, "--- "@);
    let none = w.lines.take(0);
    assert(none =~= Seq::<Entry>::empty());
    assert(seq![l] + entry_texts(none) =~= Seq::<Seq<char>>::empty().push(l));
    lemma_glued_one(Seq::empty(), l);
    assert(fed(Seq::empty()) =~= Seq::<Seq<char>>::empty());
    assert(diff::glued(fed(seq![l] + entry_texts(none))) =~= l.push('\n'));
    assert(p.after(l.push('\n')) =~= hunk_read(p, w, 0)) by {
        assert(numbered_hunk(w, 0).lines =~= Seq::<LineV>::empty());
    }
}

#[verifier::rlimit(40)]
proof fn lemma_hunk_line(p: ParserV, w: Written, n: int)
    requires
        writable(w),
        p.files.len() > 0,
        p.raw.len() == p.files.len(),
        0 <= n < w.lines.len(),
    ensures
        hunk_read(p, w, n).after((seq![sign(w.lines[n].0)] + w.lines[n].1).push('\n'))
            == hunk_read(p, w, n + 1),
{
    let q = hunk_read(p, w, n);
    let (kind, content) = w.lines[n];
    let l = seq![sign(kind)] + content;
    assert(on_one_line(content));
    if content.len() > 0 {
        assert(l.last() == content[content.len() - 1]);
    }
    lemma_bare(l);
    lemma_counts(w.lines, n);
    lemma_counts(w.lines, n + 1);
    lemma_counts(w.lines, w.lines.len() as int);
    assert(w.lines.take(w.lines.len() as int) =~= w.lines);
    assert(w.lines.take(n + 1).drop_last() =~= w.lines.take(n));
    assert(w.lines.take(n + 1).last() == w.lines[n]);
    assert(q.in_hunk());
    assert(diff::is_body(l));
    assert(l.skip(1) =~= content);
    let done = seq![header_text(w)] + entry_texts(w.lines.take(n));
    assert(seq![header_text(w)] + entry_texts(w.lines.take(n + 1)) =~= done.push(l));
    lemma_glued_one(done, l);
    assert(numbered_hunk(w, n + 1).lines =~= numbered_hunk(w, n).lines.push(numbered(w, n)));
    let r = q.after(l.push('\n'));
    let want = hunk_read(p, w, n + 1);
    let f = p.files.last();
    assert(q.files.drop_last() =~= p.files.drop_last());
    assert(q.files.last().hunks.drop_last() =~= f.hunks);
    assert(q.files.last().hunks.last() == numbered_hunk(w, n));
    assert(q.raw.drop_last() =~= p.raw.drop_last());
    assert(r.files =~= want.files);
    assert(r.raw.last() =~= want.raw.last());
    assert(r.raw =~= want.raw);
    assert(r =~= want);
}

proof fn lemma_hunk_read(p: ParserV, w: Written, n: int)
    requires
        writable(w),
        p.files.len() > 0,
        p.raw.len() == p.files.len(),
        0 <= n <= w.lines.len(),
    ensures
        p.after_all(fed(seq![header_text(w)] + entry_texts(w.lines.take(n)))) == hunk_read(p, w, n),
    decreases n,
{
    let v = fed(seq![header_text(w)] + entry_texts(w.lines.take(n)));
    if n == 0 {
        lemma_hunk_start(p, w);
        assert(v.drop_last() =~= Seq::<Seq<char>>::empty());
        assert(v.last() == header_text(w).push('\n'));
        assert(p.after_all(v.drop_last()) == p);
    } else {
        lemma_hunk_read(p, w, n - 1);
        lemma_hunk_line(p, w, n - 1);
        let before = fed(seq![header_text(w)] + entry_texts(w.lines.take(n - 1)));
        assert(v.drop_last() =~= before);
        assert(v.last() == (seq![sign(w.lines[n - 1].0)] + w.lines[n - 1].1).push('\n'));
    }
}

/// What hunks add to the file that is open.
pub open spec fn hunks_read(p: ParserV, v: Seq<Written>) -> ParserV
    decreases v.len(),
{
    if v.len() == 0 {
        p
    } else {
        hunk_read(hunks_read(p, v.drop_last()), v.last(), v.last().lines.len() as int)
    }
}

proof fn lemma_glued_add(a: Seq<Seq<char>>, b: Seq<Seq<char>>)
    ensures
        diff::glued(a + b) == diff::glued(a) + diff::glued(b),
    decreases b.len(),
{
    if b.len() == 0 {
        assert(a + b =~= a);
        assert(diff::glued(a) + diff::glued(b) =~= diff::glued(a));
    } else {
        assert((a + b).drop_last() =~= a + b.drop_last());
        lemma_glued_add(a, b.drop_last());
        assert(diff::glued(a + b) =~= diff::glued(a) + diff::glued(b));
    }
}

#[verifier::rlimit(40)]
proof fn lemma_hunks_read(p: ParserV, v: Seq<Written>)
    requires
        p.files.len() > 0,
        p.raw.len() == p.files.len(),
        forall|i: int| 0 <= i < v.len() ==> writable(#[trigger] v[i]),
    ensures
        p.after_all(fed(hunks_texts(v))) == hunks_read(p, v),
        hunks_read(p, v).files.len() == p.files.len(),
        hunks_read(p, v).raw.len() == p.raw.len(),
        hunks_read(p, v).files.drop_last() == p.files.drop_last(),
        hunks_read(p, v).raw.drop_last() == p.raw.drop_last(),
        hunks_read(p, v).raw.last() == p.raw.last() + diff::glued(fed(hunks_texts(v))),
        hunks_read(p, v).files.last() == (FileV {
            hunks: p.files.last().hunks + v.map_values(
                |w: Written| numbered_hunk(w, w.lines.len() as int),
            ),
            ..p.files.last()
        }),
    decreases v.len(),
{
    let f = p.files.last();
    let g = |w: Written| numbered_hunk(w, w.lines.len() as int);
    if v.len() == 0 {
        assert(fed(hunks_texts(v)) =~= Seq::<Seq<char>>::empty());
        assert(p.raw.last() + diff::glued(fed(hunks_texts(v))) =~= p.raw.last());
        assert(f.hunks + v.map_values(g) =~= f.hunks);
    } else {
        let u = v.drop_last();
        let w = v.last();
        assert forall|i: int| 0 <= i < u.len() implies writable(#[trigger] u[i]) by {
            assert(writable(v[i]));
        }
        lemma_hunks_read(p, u);
        let q = hunks_read(p, u);
        assert(writable(v[v.len() - 1]));
        lemma_hunk_read(q, w, w.lines.len() as int);
        assert(w.lines.take(w.lines.len() as int) =~= w.lines);
        lemma_after_add(p, fed(hunks_texts(u)), fed(hunk_texts(w)));
        assert(fed(hunks_texts(v)) =~= fed(hunks_texts(u)) + fed(hunk_texts(w)));
        lemma_glued_add(fed(hunks_texts(u)), fed(hunk_texts(w)));
        let r = hunks_read(p, v);
        assert(r.files.drop_last() =~= q.files.drop_last());
        assert(r.raw.drop_last() =~= q.raw.drop_last());
        assert(r.raw.last() =~= p.raw.last() + diff::glued(fed(hunks_texts(v))));
        assert(r.files.last().hunks =~= f.hunks + v.map_values(g));
    }
}

proof fn lemma_name_line(p: ParserV, path: Seq<char>, l: Seq<char>)
    requires
        l == "diff --git "@ + "a/"@ + path + " b/"@ + path,
        l.last() != '\r',
        l[0] == 'd',
        p.raw.len() == p.files.len(),
    ensures
        p.after(l.push('\n')) == (ParserV {
            files: p.files.push(diff::bare_file(path, path)),
            raw: p.raw.push(l.push('\n')),
            old_left: 0,
            new_left: 0,
            ..p
        }),
{
    reveal_strlit("diff --git ");
    assert(l =~= "diff --git "@ + ("a/"@ + path + " b/"@ + path));
    lemma_prefix("diff --git "@, "a/"@ + path + " b/"@ + path);
    lemma_twin(path);
    lemma_header_line(p, l);
    let q = p.after(l.push('\n'));
    assert(q.files =~= p.files.push(diff::bare_file(path, path)));
    assert(q.raw.last() =~= l.push('\n'));
    assert(q.raw =~= p.raw.push(l.push('\n')));
}

/// The state behind a line that says more of the open file.
pub open spec fn said(p: ParserV, f: FileV, l: Seq<char>) -> ParserV {
    ParserV {
        files: p.files.drop_last().push(f),
        raw: p.raw.drop_last().push(p.raw.last() + l.push('\n')),
        old_left: 0,
        new_left: 0,
        ..p
    }
}

#[verifier::rlimit(40)]
proof fn lemma_said(p: ParserV, l: Seq<char>)
    requires
        p.files.len() > 0,
        p.raw.len() == p.files.len(),
        p.files.last().hunks.len() == 0,
        !p.in_hunk(),
        l.len() > 0,
        l.last() != '\r',
        !text::has_prefix(l, "diff --git "@),
        !text::has_prefix(l, "diff --cc "@),
        l[0] != '@',
        !text::is_space(l[0]),
    ensures
        p.after(l.push('\n')) == said(p, diff::described(p.files.last(), l), l),
{
    lemma_header_line(p, l);
    lemma_no_ranges(l);
    let q = p.after(l.push('\n'));
    let want = said(p, diff::described(p.files.last(), l), l);
    assert(q.files =~= want.files);
    assert(q.raw =~= want.raw);
}

proof fn lemma_old_line(f: FileV, path: Seq<char>, l: Seq<char>)
    requires
        l == "--- "@ + "a/"@ + path,
        !path.contains('\t'),
        !"a/"@.contains('\t'),
    ensures
        diff::described(f, l) == (FileV { old_path: path, ..f }),
{
    reveal_strlit("--- ");
    assert(l =~= "--- "@ + ("a/"@ + path));
    lemma_prefix("--- "@, "a/"@ + path);
    lemma_side("a/"@, path);
}

proof fn lemma_new_line(f: FileV, path: Seq<char>, l: Seq<char>)
    requires
        l == "+++ "@ + "b/"@ + path,
        !path.contains('\t'),
        !"b/"@.contains('\t'),
    ensures
        diff::described(f, l) == (FileV { new_path: path, ..f }),
{
    reveal_strlit("--- ");
    reveal_strlit("+++ ");
    assert(l =~= "+++ "@ + ("b/"@ + path));
    lemma_prefix("+++ "@, "b/"@ + path);
    assert(l[0] == '+');
    lemma_not_prefix(l, "--- "@);
    lemma_side("b/"@, path);
}

/// The state behind the header lines of a file.
#[verifier::rlimit(40)]
proof fn lemma_file_start(p: ParserV, path: Seq<char>, old_path: Seq<char>, new_path: Seq<char>)
    requires
        on_one_line(path) && on_one_line(old_path) && on_one_line(new_path),
        !old_path.contains('\t') && !new_path.contains('\t'),
        p.raw.len() == p.files.len(),
    ensures
        ({
            let v = file_texts(path, old_path, new_path, Seq::empty());
            p.after_all(fed(v)) == (ParserV {
                files: p.files.push(diff::bare_file(old_path, new_path)),
                raw: p.raw.push(diff::glued(fed(v))),
                old_left: 0,
                new_left: 0,
                ..p
            }) && forall|i: int| 0 <= i < v.len() ==> !(#[trigger] v[i]).contains('\n')
        }),
{
    let v = file_texts(path, old_path, new_path, Seq::empty());
    let l0 = "diff --git "@ + "a/"@ + path + " b/"@ + path;
    let l1 = "--- "@ + "a/"@ + old_path;
    let l2 = "+++ "@ + "b/"@ + new_path;
    assert(hunks_texts(Seq::empty()) =~= Seq::<Seq<char>>::empty());
    assert(v =~= seq![l0, l1, l2]);
    lemma_plain_ends(l0, l1, l2, path, old_path, new_path);
    lemma_name_line(p, path, l0);
    let p0 = ParserV {
        files: p.files.push(diff::bare_file(path, path)),
        raw: p.raw.push(l0.push('\n')),
        old_left: 0,
        new_left: 0,
        ..p
    };
    lemma_side_lines(p0, old_path, new_path, l1, l2);
    assert(p0.files.drop_last() =~= p.files);
    assert(p0.raw.drop_last() =~= p.raw);
    let raw = l0.push('\n') + l1.push('\n') + l2.push('\n');
    lemma_three_lines(p, l0, l1, l2);
    assert(diff::glued(fed(v)) =~= raw);
}

proof fn lemma_side_lines(
    p: ParserV,
    old_path: Seq<char>,
    new_path: Seq<char>,
    l1: Seq<char>,
    l2: Seq<char>,
)
    requires
        p.files.len() > 0,
        p.raw.len() == p.files.len(),
        p.files.last().hunks.len() == 0,
        !p.in_hunk(),
        l1 == "--- "@ + "a/"@ + old_path,
        l2 == "+++ "@ + "b/"@ + new_path,
        l1.len() > 0 && l1.last() != '\r' && l1[0] == '-',
        l2.len() > 0 && l2.last() != '\r' && l2[0] == '+',
        !old_path.contains('\t'),
        !new_path.contains('\t'),
        !"a/"@.contains('\t'),
        !"b/"@.contains('\t'),
    ensures
        p.after(l1.push('\n')).after(l2.push('\n')) == (ParserV {
            files: p.files.drop_last().push(FileV { old_path, new_path, ..p.files.last() }),
            raw: p.raw.drop_last().push(p.raw.last() + l1.push('\n') + l2.push('\n')),
            old_left: 0,
            new_left: 0,
            ..p
        }),
{
    let f = p.files.last();
    reveal_strlit("diff --git ");
    reveal_strlit("diff --cc ");
    lemma_not_prefix(l1, "diff --git "@);
    lemma_not_prefix(l1, "diff --cc "@);
    lemma_not_prefix(l2, "diff --git "@);
    lemma_not_prefix(l2, "diff --cc "@);
    lemma_said(p, l1);
    lemma_old_line(f, old_path, l1);
    let q = said(p, FileV { old_path, ..f }, l1);
    lemma_said(q, l2);
    lemma_new_line(FileV { old_path, ..f }, new_path, l2);
    let r = said(q, FileV { old_path, new_path, ..f }, l2);
    assert(r.files =~= p.files.drop_last().push(FileV { old_path, new_path, ..f }));
    assert(r.raw =~= p.raw.drop_last().push(p.raw.last() + l1.push('\n') + l2.push('\n')));
}

proof fn lemma_three_lines(p: ParserV, l0: Seq<char>, l1: Seq<char>, l2: Seq<char>)
    ensures
        p.after_all(fed(seq![l0, l1, l2])) == p.after(l0.push('\n')).after(l1.push('\n')).after(
            l2.push('\n'),
        ),
        diff::glued(fed(seq![l0, l1, l2])) == l0.push('\n') + l1.push('\n') + l2.push('\n'),
{
    let v = seq![l0, l1, l2];
    let e = Seq::<Seq<char>>::empty();
    lemma_glued_one(e, l0);
    lemma_glued_one(e.push(l0), l1);
    lemma_glued_one(e.push(l0).push(l1), l2);
    assert(v =~= e.push(l0).push(l1).push(l2));
    assert(fed(e) =~= e);
    assert(diff::glued(fed(v)) =~= l0.push('\n') + l1.push('\n') + l2.push('\n'));
    lemma_after_one(p, e, l0);
    lemma_after_one(p, e.push(l0), l1);
    lemma_after_one(p, e.push(l0).push(l1), l2);
    assert(p.after_all(e) == p);
}

proof fn lemma_after_one(p: ParserV, v: Seq<Seq<char>>, l: Seq<char>)
    ensures
        p.after_all(fed(v.push(l))) == p.after_all(fed(v)).after(l.push('\n')),
{
    assert(fed(v.push(l)).drop_last() =~= fed(v));
    assert(fed(v.push(l)).last() == l.push('\n'));
}

proof fn lemma_plain_ends(
    l0: Seq<char>,
    l1: Seq<char>,
    l2: Seq<char>,
    path: Seq<char>,
    old_path: Seq<char>,
    new_path: Seq<char>,
)
    requires
        l0 == "diff --git "@ + "a/"@ + path + " b/"@ + path,
        l1 == "--- "@ + "a/"@ + old_path,
        l2 == "+++ "@ + "b/"@ + new_path,
        on_one_line(path) && on_one_line(old_path) && on_one_line(new_path),
    ensures
        l0.len() > 0 && l0.last() != '\r' && !l0.contains('\n') && l0[0] == 'd',
        l1.len() > 0 && l1.last() != '\r' && !l1.contains('\n') && l1[0] == '-',
        l2.len() > 0 && l2.last() != '\r' && !l2.contains('\n') && l2[0] == '+',
        !"a/"@.contains('\t'),
        !"b/"@.contains('\t'),
{
    reveal_strlit("diff --git ");
    reveal_strlit("--- ");
    reveal_strlit("+++ ");
    reveal_strlit("a/");
    reveal_strlit(" b/");
    reveal_strlit("b/");
    let n = path.len();
    assert forall|i: int| 0 <= i < l0.len() implies l0[i] != '\n' by {
        if 13 <= i < 13 + n {
            assert(l0[i] == path[i - 13]);
        } else if 16 + n <= i {
            assert(l0[i] == path[i - 16 - n]);
        }
    }
    assert forall|i: int| 0 <= i < l1.len() implies l1[i] != '\n' by {
        if 6 <= i {
            assert(l1[i] == old_path[i - 6]);
        }
    }
    assert forall|i: int| 0 <= i < l2.len() implies l2[i] != '\n' by {
        if 6 <= i {
            assert(l2[i] == new_path[i - 6]);
        }
    }
    if n > 0 {
        assert(l0[l0.len() - 1] == path[n - 1]);
    }
    if old_path.len() > 0 {
        assert(l1[l1.len() - 1] == old_path[old_path.len() - 1]);
    }
    if new_path.len() > 0 {
        assert(l2[l2.len() - 1] == new_path[new_path.len() - 1]);
    }
}

proof fn lemma_hunk_texts_plain(v: Seq<Written>)
    requires
        forall|i: int| 0 <= i < v.len() ==> writable(#[trigger] v[i]),
    ensures
        forall|i: int|
            0 <= i < hunks_texts(v).len() ==> !(#[trigger] hunks_texts(v)[i]).contains('\n'),
    decreases v.len(),
{
    if v.len() > 0 {
        let u = v.drop_last();
        let w = v.last();
        assert forall|i: int| 0 <= i < u.len() implies writable(#[trigger] u[i]) by {
            assert(writable(v[i]));
        }
        lemma_hunk_texts_plain(u);
        assert(writable(v[v.len() - 1]));
        lemma_header_line_is_plain(w);
        let t = hunks_texts(v);
        assert forall|i: int| 0 <= i < t.len() implies !(#[trigger] t[i]).contains('\n') by {
            let k = i - hunks_texts(u).len();
            if k < 0 {
                assert(t[i] == hunks_texts(u)[i]);
            } else if k > 0 {
                let e = w.lines[k - 1];
                assert(on_one_line(e.1));
                assert(t[i] == seq![sign(e.0)] + e.1);
                assert forall|j: int| 0 <= j < t[i].len() implies t[i][j] != '\n' by {
                    if j > 0 {
                        assert(t[i][j] == e.1[j - 1]);
                    }
                }
            } else {
                assert(t[i] == header_text(w));
            }
        }
    }
}

/// A file's diff that follows some text `s` is read as it was written, and
/// what `s` holds is read as if it stood alone. The file has its paths and its
/// hunks, a hunk its header and its lines, and a line its kind, its text and
/// its numbers. The old side of a hunk is numbered from the number behind `-`
/// in the hunk header, over context and removed lines, and the new side from
/// the number behind `+`, over context and added lines. The raw text of the
/// file is what was written.
#[verifier::rlimit(40)]
pub proof fn law_written_files_read_back(
    s: Seq<char>,
    path: Seq<char>,
    old_path: Seq<char>,
    new_path: Seq<char>,
    v: Seq<Written>,
)
    requires
        s.len() == 0 || s.last() == '\n',
        on_one_line(path) && on_one_line(old_path) && on_one_line(new_path),
        !old_path.contains('\t') && !new_path.contains('\t'),
        forall|i: int| 0 <= i < v.len() ==> writable(#[trigger] v[i]),
    ensures
        ({
            let t = diff::glued(fed(file_texts(path, old_path, new_path, v)));
            let r = diff::parsed(s + t);
            let f = r.last();
            &&& r.len() == diff::parsed(s).len() + 1
            &&& r.drop_last() == diff::parsed(s)
            &&& diff::raw_files(s + t) == diff::raw_files(s).push(t)
            &&& f.old_path == old_path
            &&& f.new_path == new_path
            &&& f.notes == Seq::<Seq<char>>::empty()
            &&& !f.is_binary
            &&& f.hunks.len() == v.len()
            &&& forall|h: int|
                0 <= h < v.len() ==> (#[trigger] f.hunks[h]).header == header_text(v[h])
                    && f.hunks[h].lines.len() == v[h].lines.len()
            &&& forall|h: int, i: int|
                0 <= h < v.len() && 0 <= i < v[h].lines.len() ==> {
                    let l = #[trigger] f.hunks[h].lines[i];
                    let before = v[h].lines.take(i);
                    &&& l.kind == v[h].lines[i].0
                    &&& l.content == v[h].lines[i].1
                    &&& l.old_no == if l.kind == LineKind::Add {
                        None
                    } else {
                        Some((v[h].old_at + old_count(before)) as usize)
                    }
                    &&& l.new_no == if l.kind == LineKind::Remove {
                        None
                    } else {
                        Some((v[h].new_at + new_count(before)) as usize)
                    }
                }
        }),
{
    let p = ParserV::empty().after_all(diff::whole_lines(s));
    diff::law_raw_files_match(s);
    assert(p.raw.len() == p.files.len());
    let head = file_texts(path, old_path, new_path, Seq::empty());
    let all = file_texts(path, old_path, new_path, v);
    assert(hunks_texts(Seq::empty()) =~= Seq::<Seq<char>>::empty());
    assert(all =~= head + hunks_texts(v));
    lemma_file_start(p, path, old_path, new_path);
    lemma_hunk_texts_plain(v);
    assert forall|i: int| 0 <= i < all.len() implies !(#[trigger] all[i]).contains('\n') by {
        if i < head.len() {
            assert(all[i] == head[i]);
        } else {
            assert(all[i] == hunks_texts(v)[i - head.len()]);
        }
    }
    lemma_lines_add(s, all);
    let t = diff::glued(fed(all));
    assert(fed(all) =~= fed(head) + fed(hunks_texts(v)));
    lemma_after_add(ParserV::empty(), diff::whole_lines(s), fed(all));
    lemma_after_add(p, fed(head), fed(hunks_texts(v)));
    lemma_glued_add(fed(head), fed(hunks_texts(v)));
    let q = p.after_all(fed(head));
    lemma_hunks_read(q, v);
    let e = ParserV::empty().after_all(diff::whole_lines(s + t));
    assert(e == hunks_read(q, v));
    assert(q.files.drop_last() =~= p.files);
    assert(q.raw.drop_last() =~= p.raw);
    let f = e.files.last();
    let g = |w: Written| numbered_hunk(w, w.lines.len() as int);
    assert(f.hunks =~= v.map_values(g));
    assert(e.raw =~= p.raw.push(t));
    let r = diff::parsed(s + t);
    assert(r.drop_last() =~= diff::parsed(s));
    assert(r.last() == diff::marked_file(f));
    assert forall|h: int| 0 <= h < v.len() implies (#[trigger] r.last().hunks[h])
        == diff::marked_hunk(numbered_hunk(v[h], v[h].lines.len() as int)) by {
        assert(f.hunks[h] == g(v[h]));
    }
    assert forall|h: int| 0 <= h < v.len() implies (#[trigger] r.last().hunks[h]).lines.len()
        == v[h].lines.len() by {
        let lines = numbered_hunk(v[h], v[h].lines.len() as int).lines;
        diff::lemma_paired_len(lines, 0);
    }
    assert forall|h: int, i: int| 0 <= h < v.len() && 0 <= i < v[h].lines.len() implies {
        let l = #[trigger] r.last().hunks[h].lines[i];
        let n = numbered(v[h], i);
        l.kind == n.kind && l.content == n.content && l.old_no == n.old_no && l.new_no == n.new_no
    } by {
        let lines = numbered_hunk(v[h], v[h].lines.len() as int).lines;
        diff::law_comparing_keeps_lines(lines, i);
        assert(r.last().hunks[h].lines == diff::paired(lines, 0));
        assert(lines[i] == numbered(v[h], i));
    }
}

// What else a header says.

/// The first two lines of a file's diff: the line that names the file twice,
/// and one that says more of it.
pub open spec fn named_and(path: Seq<char>, l: Seq<char>) -> Seq<char> {
    diff::glued(fed(seq!["diff --git "@ + "a/"@ + path + " b/"@ + path, l]))
}

/// A text whose second character differs from that of `p` does not start with
/// it.
pub(crate) proof fn lemma_not_prefix_at(l: Seq<char>, p: Seq<char>, i: int)
    requires
        0 <= i < p.len(),
        i < l.len() ==> l[i] != p[i],
    ensures
        !text::has_prefix(l, p),
{
    if text::has_prefix(l, p) {
        assert(l.take(p.len() as int)[i] == p[i]);
    }
}

#[verifier::rlimit(40)]
proof fn lemma_one_line_more(s: Seq<char>, path: Seq<char>, l: Seq<char>)
    requires
        s.len() == 0 || s.last() == '\n',
        on_one_line(path),
        in_header(l),
    ensures
        diff::parsed(s + named_and(path, l)) == diff::parsed(s).push(
            diff::described(diff::bare_file(path, path), l),
        ),
        diff::raw_files(s + named_and(path, l)) == diff::raw_files(s).push(named_and(path, l)),
{
    let l0 = name_line(path);
    let f = diff::bare_file(path, path);
    let p = read(ParserV::empty(), diff::whole_lines(s));
    lemma_read_len(s);
    assert(seq![l0] + seq![l] =~= seq![l0, l]);
    let one = seq![l];
    assert forall|i: int| 0 <= i < one.len() implies in_header(#[trigger] one[i]) by {}
    lemma_named(p, path, one);
    assert(one.drop_last() =~= Seq::<Seq<char>>::empty());
    assert(told(f, one.drop_last()) == f);
    let g = diff::described(f, l);
    assert(told(f, one) == g);
    lemma_name_is_plain(path);
    let v = seq![l0, l];
    assert forall|i: int| 0 <= i < v.len() implies !(#[trigger] v[i]).contains('\n') by {}
    lemma_file_pushed(s, v, g);
    assert(diff::marked_file(g).hunks =~= g.hunks);
    assert(diff::marked_file(g) =~= g);
}

/// A line of a header that names one path, starting with `l` and then the
/// path.
proof fn lemma_path_line(s: Seq<char>, path: Seq<char>, l: Seq<char>, x: Seq<char>)
    requires
        s.len() == 0 || s.last() == '\n',
        on_one_line(path),
        on_one_line(x),
        on_one_line(l),
        l.len() > 1,
        l[0] != '@',
        !text::is_space(l[0]),
        l[0] != 'd' || l[1] != 'i',
    ensures
        diff::parsed(s + named_and(path, l + x)) == diff::parsed(s).push(
            diff::described(diff::bare_file(path, path), l + x),
        ),
{
    let t = l + x;
    assert forall|i: int| 0 <= i < t.len() implies t[i] != '\n' by {
        if i < l.len() {
            assert(t[i] == l[i]);
        } else {
            assert(t[i] == x[i - l.len()]);
        }
    }
    if x.len() > 0 {
        assert(t.last() == x[x.len() - 1]);
    } else {
        assert(t.last() == l[l.len() - 1]);
    }
    reveal_strlit("diff --git ");
    reveal_strlit("diff --cc ");
    if l[0] != 'd' {
        lemma_not_prefix_at(t, "diff --git "@, 0);
        lemma_not_prefix_at(t, "diff --cc "@, 0);
    } else {
        lemma_not_prefix_at(t, "diff --git "@, 1);
        lemma_not_prefix_at(t, "diff --cc "@, 1);
    }
    lemma_one_line_more(s, path, t);
}

/// A rename or a copy names the old and the new path of the file, and the
/// latter is noted.
#[verifier::rlimit(40)]
pub proof fn law_renames_are_read(s: Seq<char>, path: Seq<char>, x: Seq<char>)
    requires
        s.len() == 0 || s.last() == '\n',
        on_one_line(path),
        on_one_line(x),
    ensures
        ({
            let f = diff::bare_file(path, path);
            &&& diff::parsed(s + named_and(path, "rename from "@ + x)) == diff::parsed(s).push(
                FileV { old_path: x, ..f },
            )
            &&& diff::parsed(s + named_and(path, "rename to "@ + x)) == diff::parsed(s).push(
                FileV { new_path: x, notes: seq!["renamed"@], ..f },
            )
            &&& diff::parsed(s + named_and(path, "copy from "@ + x)) == diff::parsed(s).push(
                FileV { old_path: x, ..f },
            )
            &&& diff::parsed(s + named_and(path, "copy to "@ + x)) == diff::parsed(s).push(
                FileV { new_path: x, notes: seq!["copied"@], ..f },
            )
        }),
{
    let f = diff::bare_file(path, path);
    reveal_strlit("--- ");
    reveal_strlit("+++ ");
    reveal_strlit("rename from ");
    reveal_strlit("rename to ");
    reveal_strlit("copy from ");
    reveal_strlit("copy to ");
    let a = "rename from "@ + x;
    lemma_path_line(s, path, "rename from "@, x);
    lemma_prefix("rename from "@, x);
    lemma_not_prefix_at(a, "--- "@, 0);
    lemma_not_prefix_at(a, "+++ "@, 0);
    let b = "rename to "@ + x;
    lemma_path_line(s, path, "rename to "@, x);
    lemma_prefix("rename to "@, x);
    lemma_not_prefix_at(b, "--- "@, 0);
    lemma_not_prefix_at(b, "+++ "@, 0);
    lemma_not_prefix_at(b, "rename from "@, 7);
    assert(diff::described(f, b).notes =~= seq!["renamed"@]);
    let c = "copy from "@ + x;
    lemma_path_line(s, path, "copy from "@, x);
    lemma_prefix("copy from "@, x);
    lemma_not_prefix_at(c, "--- "@, 0);
    lemma_not_prefix_at(c, "+++ "@, 0);
    lemma_not_prefix_at(c, "rename from "@, 0);
    lemma_not_prefix_at(c, "rename to "@, 0);
    let d = "copy to "@ + x;
    lemma_path_line(s, path, "copy to "@, x);
    lemma_prefix("copy to "@, x);
    lemma_not_prefix_at(d, "--- "@, 0);
    lemma_not_prefix_at(d, "+++ "@, 0);
    lemma_not_prefix_at(d, "rename from "@, 0);
    lemma_not_prefix_at(d, "rename to "@, 0);
    lemma_not_prefix_at(d, "copy from "@, 5);
    assert(diff::described(f, d).notes =~= seq!["copied"@]);
}

proof fn lemma_not_a_path_line(l: Seq<char>)
    requires
        l.len() > 0,
        l[0] != '-',
        l[0] != '+',
        l[0] != 'r',
        l[0] != 'c',
    ensures
        !text::has_prefix(l, "--- "@),
        !text::has_prefix(l, "+++ "@),
        !text::has_prefix(l, "rename from "@),
        !text::has_prefix(l, "rename to "@),
        !text::has_prefix(l, "copy from "@),
        !text::has_prefix(l, "copy to "@),
{
    reveal_strlit("--- ");
    reveal_strlit("+++ ");
    reveal_strlit("rename from ");
    reveal_strlit("rename to ");
    reveal_strlit("copy from ");
    reveal_strlit("copy to ");
    lemma_not_prefix_at(l, "--- "@, 0);
    lemma_not_prefix_at(l, "+++ "@, 0);
    lemma_not_prefix_at(l, "rename from "@, 0);
    lemma_not_prefix_at(l, "rename to "@, 0);
    lemma_not_prefix_at(l, "copy from "@, 0);
    lemma_not_prefix_at(l, "copy to "@, 0);
}

/// A new file, a deleted one, a change of mode and a binary file are noted,
/// and the paths stay. The line with the hashes says nothing.
#[verifier::rlimit(40)]
pub proof fn law_other_headers_are_read(s: Seq<char>, path: Seq<char>, x: Seq<char>)
    requires
        s.len() == 0 || s.last() == '\n',
        on_one_line(path),
        on_one_line(x),
    ensures
        ({
            let f = diff::bare_file(path, path);
            let before = diff::parsed(s);
            &&& diff::parsed(s + named_and(path, "new file mode "@ + x)) == before.push(
                FileV { notes: seq!["new file"@], ..f },
            )
            &&& diff::parsed(s + named_and(path, "deleted file mode "@ + x)) == before.push(
                FileV { notes: seq!["deleted"@], ..f },
            )
            &&& diff::parsed(s + named_and(path, "new mode "@ + x)) == before.push(
                FileV { notes: seq!["mode changed"@], ..f },
            )
            &&& diff::parsed(s + named_and(path, "old mode "@ + x)) == before.push(f)
            &&& diff::parsed(s + named_and(path, "Binary files "@ + x)) == before.push(
                FileV { is_binary: true, ..f },
            )
            &&& diff::parsed(s + named_and(path, "GIT binary patch"@ + x)) == before.push(
                FileV { is_binary: true, ..f },
            )
            &&& diff::parsed(s + named_and(path, "index "@ + x)) == before.push(f)
        }),
{
    let f = diff::bare_file(path, path);
    reveal_strlit("new file mode ");
    reveal_strlit("deleted file mode ");
    reveal_strlit("new mode ");
    reveal_strlit("old mode ");
    reveal_strlit("Binary files ");
    reveal_strlit("GIT binary patch");
    reveal_strlit("index ");
    let a = "new file mode "@ + x;
    lemma_path_line(s, path, "new file mode "@, x);
    lemma_prefix("new file mode "@, x);
    lemma_not_a_path_line(a);
    assert(diff::described(f, a).notes =~= seq!["new file"@]);
    let b = "deleted file mode "@ + x;
    lemma_path_line(s, path, "deleted file mode "@, x);
    lemma_prefix("deleted file mode "@, x);
    lemma_not_a_path_line(b);
    lemma_not_prefix_at(b, "new file mode "@, 0);
    assert(diff::described(f, b).notes =~= seq!["deleted"@]);
    let c = "new mode "@ + x;
    lemma_path_line(s, path, "new mode "@, x);
    lemma_prefix("new mode "@, x);
    lemma_not_a_path_line(c);
    lemma_not_prefix_at(c, "new file mode "@, 4);
    lemma_not_prefix_at(c, "deleted file mode "@, 0);
    assert(diff::described(f, c).notes =~= seq!["mode changed"@]);
    lemma_binary_headers(s, path, x);
}

#[verifier::rlimit(40)]
proof fn lemma_binary_headers(s: Seq<char>, path: Seq<char>, x: Seq<char>)
    requires
        s.len() == 0 || s.last() == '\n',
        on_one_line(path),
        on_one_line(x),
    ensures
        ({
            let f = diff::bare_file(path, path);
            let before = diff::parsed(s);
            &&& diff::parsed(s + named_and(path, "old mode "@ + x)) == before.push(f)
            &&& diff::parsed(s + named_and(path, "Binary files "@ + x)) == before.push(
                FileV { is_binary: true, ..f },
            )
            &&& diff::parsed(s + named_and(path, "GIT binary patch"@ + x)) == before.push(
                FileV { is_binary: true, ..f },
            )
            &&& diff::parsed(s + named_and(path, "index "@ + x)) == before.push(f)
        }),
{
    reveal_strlit("old mode ");
    reveal_strlit("Binary files ");
    reveal_strlit("GIT binary patch");
    reveal_strlit("index ");
    lemma_path_line(s, path, "old mode "@, x);
    lemma_path_line(s, path, "Binary files "@, x);
    lemma_path_line(s, path, "GIT binary patch"@, x);
    lemma_path_line(s, path, "index "@, x);
    lemma_prefix("Binary files "@, x);
    lemma_prefix("GIT binary patch"@, x);
    lemma_no_note("old mode "@ + x);
    lemma_no_note("Binary files "@ + x);
    lemma_no_note("GIT binary patch"@ + x);
    lemma_no_note("index "@ + x);
    lemma_not_prefix_at("old mode "@ + x, "Binary files "@, 0);
    lemma_not_prefix_at("old mode "@ + x, "GIT binary patch"@, 0);
    lemma_not_prefix_at("index "@ + x, "Binary files "@, 0);
    lemma_not_prefix_at("index "@ + x, "GIT binary patch"@, 0);
}

proof fn lemma_no_note(l: Seq<char>)
    requires
        l.len() > 0,
        l[0] == 'o' || l[0] == 'B' || l[0] == 'G' || l[0] == 'i',
    ensures
        !text::has_prefix(l, "--- "@),
        !text::has_prefix(l, "+++ "@),
        !text::has_prefix(l, "rename from "@),
        !text::has_prefix(l, "rename to "@),
        !text::has_prefix(l, "copy from "@),
        !text::has_prefix(l, "copy to "@),
        !text::has_prefix(l, "new file mode "@),
        !text::has_prefix(l, "deleted file mode "@),
        !text::has_prefix(l, "new mode "@),
{
    lemma_not_a_path_line(l);
    reveal_strlit("new file mode ");
    reveal_strlit("deleted file mode ");
    reveal_strlit("new mode ");
    lemma_not_prefix_at(l, "new file mode "@, 0);
    lemma_not_prefix_at(l, "deleted file mode "@, 0);
    lemma_not_prefix_at(l, "new mode "@, 0);
}

// Remarks.

/// Whether two states differ in their raw texts alone.
pub open spec fn same_but_raw(p: ParserV, q: ParserV) -> bool {
    p == ParserV { raw: p.raw, ..q }
}

proof fn lemma_raw_is_apart(p: ParserV, q: ParserV, v: Seq<Seq<char>>)
    requires
        same_but_raw(p, q),
    ensures
        same_but_raw(p.after_all(v), q.after_all(v)),
    decreases v.len(),
{
    if v.len() > 0 {
        lemma_raw_is_apart(p, q, v.drop_last());
    }
}

#[verifier::rlimit(40)]
proof fn lemma_remark(p: ParserV, l: Seq<char>)
    requires
        p.wf(),
        l.len() > 0,
        l[0] == '\\',
        l.last() != '\r',
    ensures
        same_but_raw(p.after(l.push('\n')), p),
{
    lemma_bare(l);
    reveal_strlit("diff --git ");
    reveal_strlit("diff --cc ");
    reveal_strlit("Binary files ");
    reveal_strlit("GIT binary patch");
    reveal_strlit("new file mode ");
    reveal_strlit("deleted file mode ");
    reveal_strlit("new mode ");
    lemma_not_prefix_at(l, "diff --git "@, 0);
    lemma_not_prefix_at(l, "diff --cc "@, 0);
    lemma_not_prefix_at(l, "Binary files "@, 0);
    lemma_not_prefix_at(l, "GIT binary patch"@, 0);
    lemma_not_prefix_at(l, "new file mode "@, 0);
    lemma_not_prefix_at(l, "deleted file mode "@, 0);
    lemma_not_prefix_at(l, "new mode "@, 0);
    lemma_not_a_path_line(l);
    lemma_no_ranges(l);
    if !p.in_hunk() && p.files.len() > 0 {
        assert(p.files.drop_last().push(p.files.last()) =~= p.files);
    }
}

/// A remark such as that on a missing line feed at the end of a file is no
/// line: with and without it, the same is read.
#[verifier::rlimit(40)]
pub proof fn law_remarks_are_skipped(s: Seq<char>, l: Seq<char>, v: Seq<Seq<char>>)
    requires
        s.len() == 0 || s.last() == '\n',
        l.len() > 0,
        l[0] == '\\',
        on_one_line(l),
        forall|i: int| 0 <= i < v.len() ==> !(#[trigger] v[i]).contains('\n'),
    ensures
        diff::parsed(s + diff::glued(fed(seq![l] + v))) == diff::parsed(s + diff::glued(fed(v))),
{
    let p = ParserV::empty().after_all(diff::whole_lines(s));
    diff::lemma_parser_wf(diff::whole_lines(s));
    assert(l[l.len() - 1] != '\r');
    lemma_remark(p, l);
    let all = seq![l] + v;
    assert forall|i: int| 0 <= i < all.len() implies !(#[trigger] all[i]).contains('\n') by {
        if i > 0 {
            assert(all[i] == v[i - 1]);
        }
    }
    lemma_lines_add(s, all);
    lemma_lines_add(s, v);
    lemma_after_add(ParserV::empty(), diff::whole_lines(s), fed(all));
    lemma_after_add(ParserV::empty(), diff::whole_lines(s), fed(v));
    assert(fed(all) =~= fed(seq![l]) + fed(v));
    lemma_after_add(p, fed(seq![l]), fed(v));
    let e = Seq::<Seq<char>>::empty();
    lemma_after_one(p, e, l);
    assert(e.push(l) =~= seq![l]);
    assert(fed(e) =~= e);
    assert(p.after_all(e) == p);
    lemma_raw_is_apart(p.after(l.push('\n')), p, fed(v));
}

/// A diff that no line names a file in starts with the path of its old side:
/// it is read as one file.
#[verifier::rlimit(40)]
pub proof fn law_bare_diffs_read_back(old_path: Seq<char>, new_path: Seq<char>, v: Seq<Written>)
    requires
        on_one_line(old_path) && on_one_line(new_path),
        !old_path.contains('\t') && !new_path.contains('\t'),
        forall|i: int| 0 <= i < v.len() ==> writable(#[trigger] v[i]),
    ensures
        ({
            let t = diff::glued(
                fed(
                    seq!["--- "@ + "a/"@ + old_path, "+++ "@ + "b/"@ + new_path] + hunks_texts(v),
                ),
            );
            let r = diff::parsed(t);
            &&& r.len() == 1
            &&& r[0].old_path == old_path
            &&& r[0].new_path == new_path
            &&& r[0].hunks.len() == v.len()
            &&& forall|h: int|
                0 <= h < v.len() ==> (#[trigger] r[0].hunks[h]) == diff::marked_hunk(
                    numbered_hunk(v[h], v[h].lines.len() as int),
                )
        }),
{
    let l1 = "--- "@ + "a/"@ + old_path;
    let l2 = "+++ "@ + "b/"@ + new_path;
    let none = Seq::<char>::empty();
    lemma_plain_ends(
        "diff --git "@ + "a/"@ + none + " b/"@ + none,
        l1,
        l2,
        none,
        old_path,
        new_path,
    );
    let p = ParserV::empty();
    reveal_strlit("diff --git ");
    reveal_strlit("diff --cc ");
    lemma_not_prefix(l1, "diff --git "@);
    lemma_not_prefix(l1, "diff --cc "@);
    lemma_not_prefix(l2, "diff --git "@);
    lemma_not_prefix(l2, "diff --cc "@);
    lemma_header_line(p, l1);
    assert(l1 =~= "--- "@ + ("a/"@ + old_path));
    reveal_strlit("--- ");
    lemma_prefix("--- "@, "a/"@ + old_path);
    lemma_side("a/"@, old_path);
    let q = p.after(l1.push('\n'));
    assert(q.files =~= seq![diff::bare_file(old_path, old_path)]);
    assert(q.raw.len() == 1);
    assert(!q.in_hunk());
    lemma_said(q, l2);
    lemma_new_line(q.files.last(), new_path, l2);
    let r = said(q, diff::bare_file(old_path, new_path), l2);
    lemma_hunks_read(r, v);
    lemma_hunk_texts_plain(v);
    let head = seq![l1, l2];
    let all = head + hunks_texts(v);
    assert forall|i: int| 0 <= i < all.len() implies !(#[trigger] all[i]).contains('\n') by {
        if i >= 2 {
            assert(all[i] == hunks_texts(v)[i - 2]);
        }
    }
    lemma_lines_add(Seq::empty(), all);
    let t = diff::glued(fed(all));
    assert(Seq::<char>::empty() + t =~= t);
    let e = Seq::<Seq<char>>::empty();
    assert(diff::whole_lines(Seq::empty()) =~= e);
    assert(e + fed(all) =~= fed(all));
    assert(fed(all) =~= fed(head) + fed(hunks_texts(v)));
    lemma_after_add(p, fed(head), fed(hunks_texts(v)));
    lemma_after_one(p, e, l1);
    lemma_after_one(p, e.push(l1), l2);
    assert(head =~= e.push(l1).push(l2));
    assert(fed(e) =~= e);
    assert(p.after_all(e) == p);
    let f = hunks_read(r, v).files.last();
    let g = |w: Written| numbered_hunk(w, w.lines.len() as int);
    assert(f.hunks =~= v.map_values(g));
    let out = diff::parsed(t);
    assert(out.len() == 1);
    assert forall|h: int| 0 <= h < v.len() implies (#[trigger] out[0].hunks[h])
        == diff::marked_hunk(numbered_hunk(v[h], v[h].lines.len() as int)) by {
        assert(f.hunks[h] == g(v[h]));
    }
}

/// A line feed of two characters counts as one.
pub proof fn law_carriage_returns_are_dropped(l: Seq<char>)
    requires
        l.len() > 0 ==> l.last() != '\r',
    ensures
        diff::bare(l.push('\n')) == l,
        diff::bare(l.push('\r').push('\n')) == l,
        l.len() > 0 && l.last() != '\n' ==> diff::bare(l) == l,
{
    lemma_bare(l);
    assert(l.push('\r').push('\n').drop_last() =~= l.push('\r'));
    assert(l.push('\r').drop_last() =~= l);
}

/// A line feed at the end of the diff makes no difference.
pub proof fn law_last_line_feed_is_optional(s: Seq<char>, l: Seq<char>)
    requires
        s.len() == 0 || s.last() == '\n',
        l.len() > 0,
        on_one_line(l),
    ensures
        diff::parsed(s + l.push('\n')) == diff::parsed(s + l),
{
    lemma_lines_one(s, l);
    let v = diff::whole_lines(s);
    let p = ParserV::empty().after_all(v);
    assert(l[l.len() - 1] != '\r' && l[l.len() - 1] != '\n');
    law_carriage_returns_are_dropped(l);
    assert(v.push(l).drop_last() =~= v);
    assert(v.push(l.push('\n')).drop_last() =~= v);
    assert(same_but_raw(p.after(l.push('\n')), p.after(l)));
}

/// A blank line in a hunk is an empty line of context.
pub proof fn law_blank_lines_are_context(p: ParserV)
    requires
        p.in_hunk(),
    ensures
        same_but_raw(p.after(seq!['\n']), p.after(seq![' ', '\n'])),
{
    let e = Seq::<char>::empty();
    lemma_bare(e);
    lemma_bare(seq![' ']);
    assert(e.push('\n') =~= seq!['\n']);
    assert(seq![' '].push('\n') =~= seq![' ', '\n']);
    assert(seq![' '].skip(1) =~= e);
}

// Headers of any number of lines.

/// Whether a line can stand in the header of a file's diff.
pub open spec fn in_header(l: Seq<char>) -> bool {
    &&& on_one_line(l)
    &&& l.len() > 0
    &&& l[0] != '@'
    &&& !text::is_space(l[0])
    &&& !text::has_prefix(l, "diff --git "@)
    &&& !text::has_prefix(l, "diff --cc "@)
}

/// A file after some lines of its header, each of which says its part.
pub open spec fn told(f: FileV, v: Seq<Seq<char>>) -> FileV
    decreases v.len(),
{
    if v.len() == 0 {
        f
    } else {
        diff::described(told(f, v.drop_last()), v.last())
    }
}

#[verifier::rlimit(40)]
proof fn lemma_told(p: ParserV, v: Seq<Seq<char>>)
    requires
        p.files.len() > 0,
        p.raw.len() == p.files.len(),
        p.files.last().hunks.len() == 0,
        p.old_left == 0,
        p.new_left == 0,
        forall|i: int| 0 <= i < v.len() ==> in_header(#[trigger] v[i]),
    ensures
        p.after_all(fed(v)) == (ParserV {
            files: p.files.drop_last().push(told(p.files.last(), v)),
            raw: p.raw.drop_last().push(p.raw.last() + diff::glued(fed(v))),
            ..p
        }),
        told(p.files.last(), v).hunks == p.files.last().hunks,
    decreases v.len(),
{
    if v.len() == 0 {
        assert(fed(v) =~= Seq::<Seq<char>>::empty());
        assert(p.after_all(fed(v)) == p);
        assert(p.files.drop_last().push(p.files.last()) =~= p.files);
        assert(p.raw.last() + diff::glued(fed(v)) =~= p.raw.last());
        assert(p.raw.drop_last().push(p.raw.last()) =~= p.raw);
    } else {
        let w = v.drop_last();
        let l = v.last();
        assert forall|i: int| 0 <= i < w.len() implies in_header(#[trigger] w[i]) by {
            assert(in_header(v[i]));
        }
        lemma_told(p, w);
        assert(in_header(v[v.len() - 1]));
        let q = p.after_all(fed(w));
        assert(v =~= w.push(l));
        lemma_after_one(p, w, l);
        lemma_glued_one(w, l);
        let f = told(p.files.last(), w);
        assert(q.files.last() == f);
        lemma_said(q, l);
        let r = said(q, diff::described(f, l), l);
        assert(r.files =~= p.files.drop_last().push(told(p.files.last(), v)));
        assert(r.raw.last() =~= p.raw.last() + diff::glued(fed(v)));
        assert(r.raw =~= p.raw.drop_last().push(p.raw.last() + diff::glued(fed(v))));
    }
}

/// However many lines a header has, each says its part of the file, and the
/// hunks follow: the file is what its header tells, with the hunks as they
/// were written. What stands before is read as if it stood alone.
#[verifier::rlimit(40)]
pub proof fn law_long_headers_read_back(
    s: Seq<char>,
    path: Seq<char>,
    head: Seq<Seq<char>>,
    v: Seq<Written>,
)
    requires
        s.len() == 0 || s.last() == '\n',
        on_one_line(path),
        forall|i: int| 0 <= i < head.len() ==> in_header(#[trigger] head[i]),
        forall|i: int| 0 <= i < v.len() ==> writable(#[trigger] v[i]),
    ensures
        ({
            let t = diff::glued(
                fed(
                    seq!["diff --git "@ + "a/"@ + path + " b/"@ + path] + head + hunks_texts(v),
                ),
            );
            let r = diff::parsed(s + t);
            let f = told(diff::bare_file(path, path), head);
            &&& r == diff::parsed(s).push(r.last())
            &&& diff::raw_files(s + t) == diff::raw_files(s).push(t)
            &&& r.last() == (FileV { hunks: r.last().hunks, ..f })
            &&& r.last().hunks.len() == v.len()
            &&& forall|h: int|
                0 <= h < v.len() ==> (#[trigger] r.last().hunks[h]) == diff::marked_hunk(
                    numbered_hunk(v[h], v[h].lines.len() as int),
                )
        }),
{
    let l0 = name_line(path);
    let f = told(diff::bare_file(path, path), head);
    let p = read(ParserV::empty(), diff::whole_lines(s));
    lemma_read_len(s);
    lemma_named(p, path, head);
    lemma_name_is_plain(path);
    let all = seq![l0] + head + hunks_texts(v);
    lemma_hunk_texts_plain(v);
    assert forall|i: int| 0 <= i < all.len() implies !(#[trigger] all[i]).contains('\n') by {
        if 0 < i <= head.len() {
            assert(in_header(head[i - 1]));
            assert(all[i] == head[i - 1]);
        } else if i > head.len() {
            assert(all[i] == hunks_texts(v)[i - 1 - head.len()]);
        }
    }
    let u = read(p, fed(seq![l0] + head));
    assert(fed(all) =~= fed(seq![l0] + head) + fed(hunks_texts(v)));
    lemma_read_add(p, fed(seq![l0] + head), fed(hunks_texts(v)));
    lemma_glued_add(fed(seq![l0] + head), fed(hunks_texts(v)));
    lemma_read_hunks(u, v);
    let x = hunks_read(u, v);
    assert(u.files.drop_last() =~= p.files);
    assert(u.raw.drop_last() =~= p.raw);
    let g = |w: Written| numbered_hunk(w, w.lines.len() as int);
    let last = x.files.last();
    assert(last.hunks =~= v.map_values(g));
    assert(x.files =~= p.files.push(last));
    assert(x.raw =~= p.raw.push(diff::glued(fed(all))));
    lemma_file_pushed(s, all, last);
    let r = diff::marked_file(last);
    assert forall|h: int| 0 <= h < v.len() implies (#[trigger] r.hunks[h]) == diff::marked_hunk(
        numbered_hunk(v[h], v[h].lines.len() as int),
    ) by {
        assert(last.hunks[h] == g(v[h]));
    }
}

/// The line that names a file twice.
pub open spec fn name_line(path: Seq<char>) -> Seq<char> {
    "diff --git "@ + "a/"@ + path + " b/"@ + path
}

/// The state behind some lines.
#[verifier::opaque]
pub open spec fn read(p: ParserV, v: Seq<Seq<char>>) -> ParserV {
    p.after_all(v)
}

proof fn lemma_read_add(p: ParserV, a: Seq<Seq<char>>, b: Seq<Seq<char>>)
    ensures
        read(p, a + b) == read(read(p, a), b),
{
    reveal(read);
    lemma_after_add(p, a, b);
}

proof fn lemma_read_len(s: Seq<char>)
    ensures
        ({
            let p = read(ParserV::empty(), diff::whole_lines(s));
            p.raw.len() == p.files.len()
        }),
{
    reveal(read);
    diff::law_raw_files_match(s);
}

proof fn lemma_read_hunks(p: ParserV, v: Seq<Written>)
    requires
        p.files.len() > 0,
        p.raw.len() == p.files.len(),
        forall|i: int| 0 <= i < v.len() ==> writable(#[trigger] v[i]),
    ensures
        read(p, fed(hunks_texts(v))) == hunks_read(p, v),
        hunks_read(p, v).files.len() == p.files.len(),
        hunks_read(p, v).raw.len() == p.raw.len(),
        hunks_read(p, v).files.drop_last() == p.files.drop_last(),
        hunks_read(p, v).raw.drop_last() == p.raw.drop_last(),
        hunks_read(p, v).raw.last() == p.raw.last() + diff::glued(fed(hunks_texts(v))),
        hunks_read(p, v).files.last() == (FileV {
            hunks: p.files.last().hunks + v.map_values(
                |w: Written| numbered_hunk(w, w.lines.len() as int),
            ),
            ..p.files.last()
        }),
{
    reveal(read);
    lemma_hunks_read(p, v);
}

proof fn lemma_name_is_plain(path: Seq<char>)
    requires
        on_one_line(path),
    ensures
        !name_line(path).contains('\n'),
        name_line(path).len() > 0,
        name_line(path).last() != '\r',
        name_line(path)[0] == 'd',
{
    let none = Seq::<char>::empty();
    lemma_plain_ends(
        name_line(path),
        "--- "@ + "a/"@ + none,
        "+++ "@ + "b/"@ + none,
        path,
        none,
        none,
    );
}

proof fn lemma_read_name(p: ParserV, path: Seq<char>)
    requires
        on_one_line(path),
        p.raw.len() == p.files.len(),
    ensures
        read(p, fed(seq![name_line(path)])) == (ParserV {
            files: p.files.push(diff::bare_file(path, path)),
            raw: p.raw.push(name_line(path).push('\n')),
            old_left: 0,
            new_left: 0,
            ..p
        }),
{
    reveal(read);
    let l0 = name_line(path);
    let e = Seq::<Seq<char>>::empty();
    lemma_name_is_plain(path);
    lemma_after_one(p, e, l0);
    assert(e.push(l0) =~= seq![l0]);
    assert(fed(e) =~= e);
    assert(p.after_all(e) == p);
    lemma_name_line(p, path, l0);
}

proof fn lemma_read_told(p: ParserV, v: Seq<Seq<char>>)
    requires
        p.files.len() > 0,
        p.raw.len() == p.files.len(),
        p.files.last().hunks.len() == 0,
        p.old_left == 0,
        p.new_left == 0,
        forall|i: int| 0 <= i < v.len() ==> in_header(#[trigger] v[i]),
    ensures
        read(p, fed(v)) == (ParserV {
            files: p.files.drop_last().push(told(p.files.last(), v)),
            raw: p.raw.drop_last().push(p.raw.last() + diff::glued(fed(v))),
            ..p
        }),
        told(p.files.last(), v).hunks == p.files.last().hunks,
{
    reveal(read);
    lemma_told(p, v);
}

/// The state behind the line that names a file and the rest of its header.
#[verifier::rlimit(40)]
proof fn lemma_named(p: ParserV, path: Seq<char>, head: Seq<Seq<char>>)
    requires
        on_one_line(path),
        p.raw.len() == p.files.len(),
        forall|i: int| 0 <= i < head.len() ==> in_header(#[trigger] head[i]),
    ensures
        ({
            let v = seq![name_line(path)] + head;
            let f = told(diff::bare_file(path, path), head);
            &&& read(p, fed(v)) == (ParserV {
                files: p.files.push(f),
                raw: p.raw.push(diff::glued(fed(v))),
                old_left: 0,
                new_left: 0,
                ..p
            })
            &&& f.hunks == Seq::<HunkV>::empty()
        }),
{
    let l0 = name_line(path);
    let f0 = diff::bare_file(path, path);
    let v = seq![l0] + head;
    assert(fed(v) =~= fed(seq![l0]) + fed(head));
    lemma_read_add(p, fed(seq![l0]), fed(head));
    lemma_glued_add(fed(seq![l0]), fed(head));
    lemma_glued_one(Seq::empty(), l0);
    assert(Seq::<Seq<char>>::empty().push(l0) =~= seq![l0]);
    assert(fed(Seq::empty()) =~= Seq::<Seq<char>>::empty());
    assert(diff::glued(fed(seq![l0])) =~= l0.push('\n'));
    lemma_read_name(p, path);
    let q = ParserV {
        files: p.files.push(f0),
        raw: p.raw.push(l0.push('\n')),
        old_left: 0,
        new_left: 0,
        ..p
    };
    lemma_read_told(q, head);
    assert(q.files.drop_last() =~= p.files);
    assert(q.raw.drop_last() =~= p.raw);
    assert(q.raw.last() + diff::glued(fed(head)) =~= diff::glued(fed(v)));
}

/// Lines that add one file to the state add it to what is read.
proof fn lemma_file_pushed(s: Seq<char>, v: Seq<Seq<char>>, f: FileV)
    requires
        s.len() == 0 || s.last() == '\n',
        forall|i: int| 0 <= i < v.len() ==> !(#[trigger] v[i]).contains('\n'),
        ({
            let p = read(ParserV::empty(), diff::whole_lines(s));
            let q = read(p, fed(v));
            q.files == p.files.push(f) && q.raw == p.raw.push(diff::glued(fed(v)))
        }),
    ensures
        diff::parsed(s + diff::glued(fed(v))) == diff::parsed(s).push(diff::marked_file(f)),
        diff::raw_files(s + diff::glued(fed(v))) == diff::raw_files(s).push(diff::glued(fed(v))),
{
    lemma_lines_add(s, v);
    lemma_read_add(ParserV::empty(), diff::whole_lines(s), fed(v));
    reveal(read);
    let g = |f: FileV| diff::marked_file(f);
    let p = ParserV::empty().after_all(diff::whole_lines(s));
    assert(p.files.push(f).map_values(g) =~= p.files.map_values(g).push(diff::marked_file(f)));
}

/// A line with a path changes that path alone. What follows a tab is no part
/// of it, and a side that does not exist keeps its name.
#[verifier::rlimit(40)]
pub proof fn law_path_lines_change_their_path(f: FileV, x: Seq<char>, y: Seq<char>)
    requires
        !x.contains('\t'),
    ensures
        diff::described(f, "--- "@ + "a/"@ + x) == (FileV { old_path: x, ..f }),
        diff::described(f, "+++ "@ + "b/"@ + x) == (FileV { new_path: x, ..f }),
        diff::described(f, "--- "@ + ("a/"@ + x).push('\t') + y) == (FileV { old_path: x, ..f }),
        diff::described(f, "+++ "@ + ("b/"@ + x).push('\t') + y) == (FileV { new_path: x, ..f }),
        diff::described(f, "--- "@ + "/dev/null"@) == (FileV { old_path: "/dev/null"@, ..f }),
        diff::described(f, "+++ "@ + "/dev/null"@) == (FileV { new_path: "/dev/null"@, ..f }),
{
    reveal_strlit("--- ");
    reveal_strlit("+++ ");
    reveal_strlit("a/");
    reveal_strlit("b/");
    reveal_strlit("/dev/null");
    assert(!"a/"@.contains('\t'));
    assert(!"b/"@.contains('\t'));
    let tab = text::is_char('\t');
    lemma_old_line(f, x, "--- "@ + "a/"@ + x);
    lemma_new_line(f, x, "+++ "@ + "b/"@ + x);
    lemma_tabbed("a/"@, x, y);
    lemma_tabbed("b/"@, x, y);
    let ty = ("a/"@ + x).push('\t') + y;
    let tz = ("b/"@ + x).push('\t') + y;
    assert("--- "@ + ("a/"@ + x).push('\t') + y =~= "--- "@ + ty);
    assert("+++ "@ + ("b/"@ + x).push('\t') + y =~= "+++ "@ + tz);
    lemma_prefix("--- "@, ty);
    lemma_prefix("+++ "@, tz);
    lemma_not_prefix_at("+++ "@ + tz, "--- "@, 0);
    lemma_prefix("--- "@, "/dev/null"@);
    lemma_prefix("+++ "@, "/dev/null"@);
    lemma_not_prefix_at("+++ "@ + "/dev/null"@, "--- "@, 0);
    assert forall|i: int| 0 <= i < "/dev/null"@.len() implies !tab(#[trigger] "/dev/null"@[i]) by {}
    lemma_split_none("/dev/null"@, tab);
    lemma_not_prefix_at("/dev/null"@, "a/"@, 0);
    lemma_not_prefix_at("/dev/null"@, "b/"@, 0);
}

proof fn lemma_tabbed(side: Seq<char>, x: Seq<char>, y: Seq<char>)
    requires
        !side.contains('\t'),
        !x.contains('\t'),
    ensures
        diff::side_path((side + x).push('\t') + y, side) == x,
{
    let s = side + x;
    let f = text::is_char('\t');
    assert forall|i: int| 0 <= i < s.len() implies !f(#[trigger] s[i]) by {
        if i < side.len() {
            assert(side[i] != '\t');
        } else {
            assert(x[i - side.len()] != '\t');
        }
    }
    lemma_split_none(s, f);
    lemma_split_join(s, '\t', y, f);
    text::lemma_split_some(y, f);
    assert(text::split_at(s.push('\t') + y, '\t')[0] == s);
    lemma_prefix(side, x);
}

/// A line with a note adds that note behind those that are there, and keeps
/// the paths, but for a rename or a copy.
#[verifier::rlimit(40)]
pub proof fn law_note_lines_add_their_note(f: FileV, x: Seq<char>)
    ensures
        diff::described(f, "rename to "@ + x) == (FileV {
            new_path: x,
            notes: f.notes.push("renamed"@),
            ..f
        }),
        diff::described(f, "copy to "@ + x) == (FileV {
            new_path: x,
            notes: f.notes.push("copied"@),
            ..f
        }),
        diff::described(f, "new file mode "@ + x) == (FileV {
            notes: f.notes.push("new file"@),
            ..f
        }),
        diff::described(f, "deleted file mode "@ + x) == (FileV {
            notes: f.notes.push("deleted"@),
            ..f
        }),
        diff::described(f, "new mode "@ + x) == (FileV {
            notes: f.notes.push("mode changed"@),
            ..f
        }),
{
    reveal_strlit("--- ");
    reveal_strlit("+++ ");
    reveal_strlit("rename from ");
    reveal_strlit("rename to ");
    reveal_strlit("copy from ");
    reveal_strlit("copy to ");
    reveal_strlit("new file mode ");
    reveal_strlit("deleted file mode ");
    reveal_strlit("new mode ");
    let b = "rename to "@ + x;
    lemma_prefix("rename to "@, x);
    lemma_not_prefix_at(b, "--- "@, 0);
    lemma_not_prefix_at(b, "+++ "@, 0);
    lemma_not_prefix_at(b, "rename from "@, 7);
    let d = "copy to "@ + x;
    lemma_prefix("copy to "@, x);
    lemma_not_prefix_at(d, "--- "@, 0);
    lemma_not_prefix_at(d, "+++ "@, 0);
    lemma_not_prefix_at(d, "rename from "@, 0);
    lemma_not_prefix_at(d, "rename to "@, 0);
    lemma_not_prefix_at(d, "copy from "@, 5);
    let n = "new file mode "@ + x;
    lemma_prefix("new file mode "@, x);
    lemma_not_a_path_line(n);
    let g = "deleted file mode "@ + x;
    lemma_prefix("deleted file mode "@, x);
    lemma_not_a_path_line(g);
    lemma_not_prefix_at(g, "new file mode "@, 0);
    let m = "new mode "@ + x;
    lemma_prefix("new mode "@, x);
    lemma_not_a_path_line(m);
    lemma_not_prefix_at(m, "new file mode "@, 4);
    lemma_not_prefix_at(m, "deleted file mode "@, 0);
}

/// The other lines of a header: the source of a rename or a copy is the old
/// path, and a binary file is known by its line.
#[verifier::rlimit(40)]
pub proof fn law_other_lines_say_their_part(f: FileV, x: Seq<char>)
    ensures
        diff::described(f, "rename from "@ + x) == (FileV { old_path: x, ..f }),
        diff::described(f, "copy from "@ + x) == (FileV { old_path: x, ..f }),
        diff::described(f, "Binary files "@ + x) == (FileV { is_binary: true, ..f }),
        diff::described(f, "index "@ + x) == f,
        diff::described(f, "old mode "@ + x) == f,
{
    reveal_strlit("--- ");
    reveal_strlit("+++ ");
    reveal_strlit("rename from ");
    reveal_strlit("rename to ");
    reveal_strlit("copy from ");
    reveal_strlit("Binary files ");
    reveal_strlit("GIT binary patch");
    reveal_strlit("index ");
    reveal_strlit("old mode ");
    let a = "rename from "@ + x;
    lemma_prefix("rename from "@, x);
    lemma_not_prefix_at(a, "--- "@, 0);
    lemma_not_prefix_at(a, "+++ "@, 0);
    let c = "copy from "@ + x;
    lemma_prefix("copy from "@, x);
    lemma_not_prefix_at(c, "--- "@, 0);
    lemma_not_prefix_at(c, "+++ "@, 0);
    lemma_not_prefix_at(c, "rename from "@, 0);
    lemma_not_prefix_at(c, "rename to "@, 0);
    lemma_prefix("Binary files "@, x);
    lemma_no_note("Binary files "@ + x);
    lemma_no_note("index "@ + x);
    lemma_no_note("old mode "@ + x);
    lemma_not_prefix_at("index "@ + x, "Binary files "@, 0);
    lemma_not_prefix_at("index "@ + x, "GIT binary patch"@, 0);
    lemma_not_prefix_at("old mode "@ + x, "Binary files "@, 0);
    lemma_not_prefix_at("old mode "@ + x, "GIT binary patch"@, 0);
}

} // verus!
