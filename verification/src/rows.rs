//! The display rows of a file: its hunks flattened into styled spans.
use crate::cells;
use crate::cells::Cell;
use crate::diff;
use crate::diff::{FileDiff, LineKind, Segment};
use crate::highlight;
use crate::highlight::{Highlighter, Piece};
use crate::palette::Color;
use crate::text;
use vstd::prelude::*;

verus! {

/// One styled run of text within a display row.
#[derive(Debug, Clone)]
pub struct Span {
    pub fg: Option<Color>,
    pub changed: bool,
    pub text: String,
}

/// The contents of a span.
#[verifier::ext_equal]
pub struct SpanV {
    pub fg: Option<Color>,
    pub changed: bool,
    pub text: Seq<char>,
}

impl View for Span {
    type V = SpanV;

    open spec fn view(&self) -> SpanV {
        SpanV { fg: self.fg, changed: self.changed, text: self.text@ }
    }
}

/// The contents of spans.
pub open spec fn span_views(v: Seq<Span>) -> Seq<SpanV> {
    v.map_values(|s: Span| s@)
}

/// The text of spans, one behind the other.
pub open spec fn span_text(v: Seq<SpanV>) -> Seq<char>
    decreases v.len(),
{
    if v.len() == 0 {
        Seq::empty()
    } else {
        span_text(v.drop_last()) + v.last().text
    }
}

/// What a row shows.
#[derive(Debug, Clone, Copy, PartialEq, Eq, Structural)]
pub enum RowKind {
    Hunk,
    Add,
    Remove,
    Context,
    Note,
}

/// One display row.
#[derive(Debug, Clone)]
pub struct Row {
    pub kind: RowKind,
    pub old_no: Option<usize>,
    pub new_no: Option<usize>,
    pub spans: Vec<Span>,
    /// The row's content laid out in display cells once, so that a selection
    /// reads the exact column-to-text mapping without touching the screen.
    pub content: Vec<Cell>,
}

/// The contents of a row.
#[verifier::ext_equal]
pub struct RowV {
    pub kind: RowKind,
    pub old_no: Option<usize>,
    pub new_no: Option<usize>,
    pub spans: Seq<SpanV>,
    pub content: Seq<(Seq<char>, u8)>,
}

impl View for Row {
    type V = RowV;

    open spec fn view(&self) -> RowV {
        RowV {
            kind: self.kind,
            old_no: self.old_no,
            new_no: self.new_no,
            spans: span_views(self.spans@),
            content: cells::cell_views(self.content@),
        }
    }
}

/// The contents of rows.
pub open spec fn row_views(v: Seq<Row>) -> Seq<RowV> {
    v.map_values(|r: Row| r@)
}

/// The row of some spans: its cells are those of the spans' text.
pub open spec fn row_of(
    kind: RowKind,
    old_no: Option<usize>,
    new_no: Option<usize>,
    spans: Seq<SpanV>,
) -> RowV {
    RowV { kind, old_no, new_no, spans, content: cells::content_cells(span_text(spans)) }
}

impl Row {
    /// A row of some spans.
    pub fn new(
        kind: RowKind,
        old_no: Option<usize>,
        new_no: Option<usize>,
        spans: Vec<Span>,
    ) -> (r: Row)
        ensures
            r@ == row_of(kind, old_no, new_no, span_views(spans@)),
    {
        let ghost sv = span_views(spans@);
        let mut s = String::new();
        for i in 0..spans.len()
            invariant
                sv == span_views(spans@),
                s@ == span_text(sv.take(i as int)),
        {
            assert(sv.take(i as int + 1).drop_last() =~= sv.take(i as int));
            assert(sv[i as int] == spans@[i as int]@);
            s.push_str(spans[i].text.as_str());
        }
        assert(sv.take(sv.len() as int) =~= sv);
        let content = cells::text_cells(s.as_str());
        Row { kind, old_no, new_no, spans, content }
    }
}

/// The column of the tab stop behind column `col`.
pub open spec fn next_stop(col: nat, tab: nat) -> nat {
    (col / tab + 1) * tab
}

/// The column behind one character at column `col`.
pub open spec fn col_after(c: char, col: nat, tab: nat) -> nat {
    if c == '\t' {
        next_stop(col, tab)
    } else {
        col + 1
    }
}

/// The column behind a text that starts at column `col`.
pub open spec fn end_col(s: Seq<char>, col: nat, tab: nat) -> nat
    decreases s.len(),
{
    if s.len() == 0 {
        col
    } else {
        col_after(s.last(), end_col(s.drop_last(), col, tab), tab)
    }
}

/// A text that starts at column `col`, each tab made into the spaces up to
/// its tab stop.
pub open spec fn without_tabs(s: Seq<char>, col: nat, tab: nat) -> Seq<char>
    decreases s.len(),
{
    if s.len() == 0 {
        Seq::empty()
    } else {
        let at = end_col(s.drop_last(), col, tab);
        without_tabs(s.drop_last(), col, tab) + if s.last() == '\t' {
            text::copies(' ', (next_stop(at, tab) - at) as nat)
        } else {
            seq![s.last()]
        }
    }
}

/// The spans with each tab made into the spaces up to its tab stop, columns
/// counted in characters across spans. A tab width of 0 leaves tabs alone.
pub open spec fn expanded(v: Seq<SpanV>, tab: nat) -> Seq<SpanV> {
    if tab == 0 {
        v
    } else {
        Seq::new(
            v.len(),
            |i: int|
                SpanV {
                    text: without_tabs(v[i].text, end_col(span_text(v.take(i)), 0, tab), tab),
                    ..v[i]
                },
        )
    }
}

/// A tab stop lies behind its column, within one tab width, at a multiple of
/// the tab width.
pub proof fn law_next_stop(col: nat, tab: nat)
    requires
        tab > 0,
    ensures
        col < next_stop(col, tab) <= col + tab,
        next_stop(col, tab) % tab == 0,
        next_stop(col, tab) - col == tab - col % tab,
{
    let q = col / tab;
    assert(col == tab * q + col % tab) by {
        vstd::arithmetic::div_mod::lemma_fundamental_div_mod(col as int, tab as int);
    }
    assert((q + 1) * tab == tab * q + tab) by (nonlinear_arith);
    assert(0 <= col % tab < tab) by {
        vstd::arithmetic::div_mod::lemma_mod_bound(col as int, tab as int);
    }
    assert(((q + 1) * tab) % tab == 0) by {
        vstd::arithmetic::div_mod::lemma_mod_multiples_basic((q + 1) as int, tab as int);
    }
}

/// Columns add up over the parts of a text.
pub proof fn lemma_end_col_split(a: Seq<char>, b: Seq<char>, col: nat, tab: nat)
    ensures
        end_col(a + b, col, tab) == end_col(b, end_col(a, col, tab), tab),
    decreases b.len(),
{
    if b.len() == 0 {
        assert(a + b =~= a);
    } else {
        assert((a + b).drop_last() =~= a + b.drop_last());
        lemma_end_col_split(a, b.drop_last(), col, tab);
    }
}

/// The expansion of a text is as long as the columns it covers, so text
/// behind a tab starts at the tab's stop.
pub proof fn law_expansion_is_aligned(s: Seq<char>, col: nat, tab: nat)
    requires
        tab > 0,
    ensures
        col + without_tabs(s, col, tab).len() == end_col(s, col, tab),
        forall|i: int|
            0 <= i < without_tabs(s, col, tab).len() ==> without_tabs(s, col, tab)[i] != '\t',
    decreases s.len(),
{
    if s.len() > 0 {
        law_expansion_is_aligned(s.drop_last(), col, tab);
        law_next_stop(end_col(s.drop_last(), col, tab), tab);
    }
}

/// A text without tabs stays as it is.
pub proof fn law_expansion_keeps_other_text(s: Seq<char>, col: nat, tab: nat)
    requires
        forall|i: int| 0 <= i < s.len() ==> s[i] != '\t',
    ensures
        without_tabs(s, col, tab) == s,
    decreases s.len(),
{
    if s.len() > 0 {
        law_expansion_keeps_other_text(s.drop_last(), col, tab);
        assert(s.drop_last().push(s.last()) =~= s);
    }
}

/// The column within its tab stop, one column further.
fn next_phase(phase: usize, tab: usize, col: Ghost<nat>) -> (r: usize)
    requires
        phase < tab,
        phase == col@ % (tab as nat),
    ensures
        r == (col@ + 1) % (tab as nat),
        r < tab,
{
    proof {
        let c = col@ as int;
        let t = tab as int;
        let q = c / t;
        vstd::arithmetic::div_mod::lemma_fundamental_div_mod(c, t);
        if phase + 1 == tab {
            assert(c + 1 == (q + 1) * t) by (nonlinear_arith)
                requires
                    c == t * q + phase,
                    phase + 1 == t,
            ;
            vstd::arithmetic::div_mod::lemma_mod_multiples_basic(q + 1, t);
        } else {
            assert(c + 1 == q * t + (phase + 1)) by (nonlinear_arith)
                requires
                    c == t * q + phase,
            ;
            vstd::arithmetic::div_mod::lemma_fundamental_div_mod_converse(c + 1, t, q, phase + 1);
        }
    }
    if phase + 1 == tab {
        0
    } else {
        phase + 1
    }
}

/// Expand the tabs of one text whose start lies `phase` columns behind a tab
/// stop. Returns the text and the phase behind it.
fn expand_text(s: &str, phase: usize, tab: usize, col: Ghost<nat>) -> (r: (String, usize))
    requires
        phase < tab,
        phase == col@ % (tab as nat),
    ensures
        r.0@ == without_tabs(s@, col@, tab as nat),
        r.1 == end_col(s@, col@, tab as nat) % (tab as nat),
        r.1 < tab,
{
    let v = text::to_chars(s);
    let mut out = String::new();
    let mut at: usize = phase;
    for i in 0..v.len()
        invariant
            v@ == s@,
            at < tab,
            out@ == without_tabs(v@.take(i as int), col@, tab as nat),
            at == end_col(v@.take(i as int), col@, tab as nat) % (tab as nat),
    {
        let c = v[i];
        assert(v@.take(i as int + 1).drop_last() =~= v@.take(i as int));
        let ghost here = end_col(v@.take(i as int), col@, tab as nat);
        if c == '\t' {
            proof {
                law_next_stop(here, tab as nat);
            }
            let n: usize = tab - at;
            out.push_str(text::repeat(' ', n).as_str());
            at = 0;
        } else {
            out.push(c);
            at = next_phase(at, tab, Ghost(here));
            assert(v@.take(i as int + 1).last() == c);
            assert(out@ =~= without_tabs(v@.take(i as int), col@, tab as nat) + seq![c]);
        }
    }
    assert(v@.take(v@.len() as int) =~= v@);
    (out, at)
}

/// Replace tabs with spaces to the next tab stop, tracking the column across
/// spans so indentation lines up. Tab stops count characters. A tab width of
/// 0 leaves tabs alone.
pub fn expand_tabs(spans: &mut Vec<Span>, tab: usize)
    ensures
        span_views(final(spans)@) == expanded(span_views(old(spans)@), tab as nat),
{
    if tab == 0 {
        return;
    }
    let ghost sv = span_views(spans@);
    let mut phase: usize = 0;
    let n = spans.len();
    assert(sv.take(0) =~= Seq::<SpanV>::empty());
    assert(0int % (tab as int) == 0) by (nonlinear_arith)
        requires
            tab > 0,
    ;
    for i in 0..n
        invariant
            tab > 0,
            n == sv.len(),
            spans@.len() == n,
            phase < tab,
            phase == end_col(span_text(sv.take(i as int)), 0, tab as nat) % (tab as nat),
            forall|j: int| 0 <= j < i ==> (#[trigger] spans@[j])@ == expanded(sv, tab as nat)[j],
            forall|j: int| i <= j < n ==> (#[trigger] spans@[j])@ == sv[j],
    {
        let ghost col = end_col(span_text(sv.take(i as int)), 0, tab as nat);
        assert(spans@[i as int]@ == sv[i as int]);
        let (t, p) = expand_text(spans[i].text.as_str(), phase, tab, Ghost(col));
        proof {
            assert(sv.take(i as int + 1).drop_last() =~= sv.take(i as int));
            lemma_end_col_split(span_text(sv.take(i as int)), sv[i as int].text, 0, tab as nat);
        }
        phase = p;
        let new = Span { fg: spans[i].fg, changed: spans[i].changed, text: t };
        spans.set(i, new);
        assert(spans@[i as int]@ == expanded(sv, tab as nat)[i as int]);
    }
    assert(span_views(spans@) =~= expanded(sv, tab as nat));
}

/// For each character of some segments, whether it changed.
pub open spec fn change_mask(v: Seq<diff::SegmentV>) -> Seq<bool>
    decreases v.len(),
{
    if v.len() == 0 {
        Seq::empty()
    } else {
        change_mask(v.drop_last()) + Seq::new(v.last().0.len(), |i: int| v.last().1)
    }
}

/// Whether character `i` changed. Past the mask nothing did.
pub open spec fn marked(mask: Seq<bool>, i: int) -> bool {
    0 <= i < mask.len() && mask[i]
}

/// A text whose first character is number `at` of its line, cut where the
/// mark of its characters changes.
pub open spec fn runs(fg: Option<Color>, s: Seq<char>, at: nat, mask: Seq<bool>) -> Seq<SpanV>
    decreases s.len(),
{
    if s.len() == 0 {
        Seq::empty()
    } else {
        let before = runs(fg, s.drop_last(), at, mask);
        let changed = marked(mask, at + s.len() - 1);
        if before.len() > 0 && before.last().changed == changed {
            before.drop_last().push(SpanV { text: before.last().text.push(s.last()), ..before.last() })
        } else {
            before.push(SpanV { fg, changed, text: seq![s.last()] })
        }
    }
}

/// How many characters some pieces hold.
pub open spec fn pieces_len(v: Seq<highlight::PieceV>) -> nat
    decreases v.len(),
{
    if v.len() == 0 {
        0
    } else {
        pieces_len(v.drop_last()) + v.last().1.len()
    }
}

/// The pieces of a line, each cut where the mark of its characters changes.
pub open spec fn cut(v: Seq<highlight::PieceV>, mask: Seq<bool>) -> Seq<SpanV>
    decreases v.len(),
{
    if v.len() == 0 {
        Seq::empty()
    } else {
        cut(v.drop_last(), mask) + runs(v.last().0, v.last().1, pieces_len(v.drop_last()), mask)
    }
}

/// Color pieces and changed segments combined. Without segments, or with
/// `intraline` off, each piece is one span.
pub open spec fn merged(
    v: Seq<highlight::PieceV>,
    segments: Seq<diff::SegmentV>,
    intraline: bool,
) -> Seq<SpanV> {
    if !intraline || segments.len() == 0 {
        v.map_values(|p: highlight::PieceV| SpanV { fg: p.0, changed: false, text: p.1 })
    } else {
        cut(v, change_mask(segments))
    }
}

/// One character as it is drawn: its color, its mark and itself.
pub type Inked = (Option<Color>, bool, char);

/// The characters of spans as they are drawn.
pub open spec fn inked(v: Seq<SpanV>) -> Seq<Inked>
    decreases v.len(),
{
    if v.len() == 0 {
        Seq::empty()
    } else {
        inked(v.drop_last()) + v.last().text.map_values(
            |c: char| (v.last().fg, v.last().changed, c),
        )
    }
}

/// The characters of pieces with their colors, each marked as `mask` says.
pub open spec fn painted(v: Seq<highlight::PieceV>, mask: Seq<bool>) -> Seq<Inked>
    decreases v.len(),
{
    if v.len() == 0 {
        Seq::empty()
    } else {
        let before = painted(v.drop_last(), mask);
        before + v.last().1.map(
            |i: int, c: char| (v.last().0, marked(mask, pieces_len(v.drop_last()) + i), c),
        )
    }
}

proof fn lemma_inked_add(a: Seq<SpanV>, b: Seq<SpanV>)
    ensures
        inked(a + b) == inked(a) + inked(b),
    decreases b.len(),
{
    if b.len() == 0 {
        assert(a + b =~= a);
        assert(inked(a) + inked(b) =~= inked(a));
    } else {
        assert((a + b).drop_last() =~= a + b.drop_last());
        lemma_inked_add(a, b.drop_last());
        assert(inked(a + b) =~= inked(a) + inked(b));
    }
}

proof fn lemma_runs_inked(fg: Option<Color>, s: Seq<char>, at: nat, mask: Seq<bool>)
    ensures
        inked(runs(fg, s, at, mask)) == s.map(|i: int, c: char| (fg, marked(mask, at + i), c)),
        forall|i: int| 0 <= i < runs(fg, s, at, mask).len() ==> (#[trigger] runs(fg, s, at, mask)[i]).fg == fg,
    decreases s.len(),
{
    let all = s.map(|i: int, c: char| (fg, marked(mask, at + i), c));
    if s.len() == 0 {
        assert(all =~= Seq::empty());
    } else {
        lemma_runs_inked(fg, s.drop_last(), at, mask);
        let before = runs(fg, s.drop_last(), at, mask);
        let now = runs(fg, s, at, mask);
        let part = s.drop_last().map(|i: int, c: char| (fg, marked(mask, at + i), c));
        let changed = marked(mask, at + s.len() - 1);
        assert(all =~= part.push((fg, changed, s.last())));
        assert(now.drop_last() =~= if before.len() > 0 && before.last().changed == changed {
            before.drop_last()
        } else {
            before
        });
        if before.len() > 0 && before.last().changed == changed {
            let l = before.last();
            assert(now.last().text.map_values(|c: char| (now.last().fg, now.last().changed, c))
                =~= l.text.map_values(|c: char| (l.fg, l.changed, c)).push((fg, changed, s.last())));
            assert(inked(now) =~= inked(before).push((fg, changed, s.last())));
        } else {
            assert(inked(now) =~= inked(before).push((fg, changed, s.last())));
        }
    }
}

/// Merging keeps every character with its color, and marks exactly those
/// that the segments mark as changed.
pub proof fn law_merge_marks_changes(v: Seq<highlight::PieceV>, segments: Seq<diff::SegmentV>)
    requires
        segments.len() > 0,
    ensures
        inked(merged(v, segments, true)) == painted(v, change_mask(segments)),
    decreases v.len(),
{
    let mask = change_mask(segments);
    if v.len() > 0 {
        law_merge_marks_changes(v.drop_last(), segments);
        let l = v.last();
        lemma_inked_add(cut(v.drop_last(), mask), runs(l.0, l.1, pieces_len(v.drop_last()), mask));
        lemma_runs_inked(l.0, l.1, pieces_len(v.drop_last()), mask);
        assert(inked(cut(v, mask)) =~= painted(v, mask));
    }
}

proof fn lemma_inked_text(v: Seq<SpanV>)
    ensures
        inked(v).map_values(|c: Inked| c.2) == span_text(v),
    decreases v.len(),
{
    if v.len() > 0 {
        lemma_inked_text(v.drop_last());
        assert(inked(v).map_values(|c: Inked| c.2) =~= inked(v.drop_last()).map_values(
            |c: Inked| c.2,
        ) + v.last().text);
    } else {
        assert(inked(v).map_values(|c: Inked| c.2) =~= span_text(v));
    }
}

proof fn lemma_painted_text(v: Seq<highlight::PieceV>, mask: Seq<bool>)
    ensures
        painted(v, mask).map_values(|c: Inked| c.2) == highlight::pieces_text(v),
    decreases v.len(),
{
    if v.len() > 0 {
        lemma_painted_text(v.drop_last(), mask);
        assert(painted(v, mask).map_values(|c: Inked| c.2) =~= painted(v.drop_last(), mask).map_values(
            |c: Inked| c.2,
        ) + v.last().1);
    } else {
        assert(painted(v, mask).map_values(|c: Inked| c.2) =~= highlight::pieces_text(v));
    }
}

/// Merging changes no text.
pub proof fn law_merge_keeps_text(
    v: Seq<highlight::PieceV>,
    segments: Seq<diff::SegmentV>,
    intraline: bool,
)
    ensures
        span_text(merged(v, segments, intraline)) == highlight::pieces_text(v),
    decreases v.len(),
{
    let m = merged(v, segments, intraline);
    if !intraline || segments.len() == 0 {
        if v.len() > 0 {
            law_merge_keeps_text(v.drop_last(), segments, intraline);
            assert(m.drop_last() =~= merged(v.drop_last(), segments, intraline));
        }
    } else {
        law_merge_marks_changes(v, segments);
        lemma_inked_text(m);
        lemma_painted_text(v, change_mask(segments));
    }
}

/// The spans cut from one piece are not empty, and neighbours differ in their
/// mark, so there are as few as can be.
pub proof fn law_runs_are_longest(fg: Option<Color>, s: Seq<char>, at: nat, mask: Seq<bool>)
    ensures
        forall|i: int|
            0 <= i < runs(fg, s, at, mask).len() ==> (#[trigger] runs(fg, s, at, mask)[i]).text.len()
                > 0,
        forall|i: int|
            0 < i < runs(fg, s, at, mask).len() ==> (#[trigger] runs(fg, s, at, mask)[i]).changed
                != runs(fg, s, at, mask)[i - 1].changed,
    decreases s.len(),
{
    if s.len() > 0 {
        law_runs_are_longest(fg, s.drop_last(), at, mask);
    }
}

fn push_span(v: &mut Vec<Span>, fg: Option<Color>, changed: bool, text: String)
    ensures
        span_views(final(v)@) == span_views(old(v)@).push(SpanV { fg, changed, text: text@ }),
{
    v.push(Span { fg, changed, text });
    assert(span_views(v@) =~= span_views(old(v)@).push(SpanV { fg, changed, text: text@ }));
}

/// Build a per-character changed mask from segments.
fn mask_of(segments: &Vec<Segment>) -> (r: Vec<bool>)
    ensures
        r@ == change_mask(diff::segment_views(segments@)),
{
    let ghost sv = diff::segment_views(segments@);
    let mut mask: Vec<bool> = Vec::new();
    for i in 0..segments.len()
        invariant
            sv == diff::segment_views(segments@),
            mask@ == change_mask(sv.take(i as int)),
    {
        assert(sv.take(i as int + 1).drop_last() =~= sv.take(i as int));
        assert(sv[i as int] == segments@[i as int]@);
        let v = text::to_chars(segments[i].text.as_str());
        let changed = segments[i].changed;
        let ghost before = mask@;
        assert(before + Seq::new(0, |k: int| changed) =~= before);
        for j in 0..v.len()
            invariant
                mask@ == before + Seq::new(j as nat, |k: int| changed),
        {
            mask.push(changed);
            assert(mask@ =~= before + Seq::new((j + 1) as nat, |k: int| changed));
        }
        assert(mask@ =~= change_mask(sv.take(i as int + 1)));
    }
    assert(sv.take(sv.len() as int) =~= sv);
    mask
}

/// Combine color pieces with intra-line changed segments into a single span
/// list carrying both foreground color and the changed flag.
pub fn merge(syntax: Vec<Piece>, segments: &Vec<Segment>, intraline: bool) -> (r: Vec<Span>)
    ensures
        span_views(r@) == merged(
            highlight::line_views(syntax@),
            diff::segment_views(segments@),
            intraline,
        ),
{
    let ghost pv = highlight::line_views(syntax@);
    let mut out: Vec<Span> = Vec::new();
    if !intraline || segments.len() == 0 {
        for i in 0..syntax.len()
            invariant
                out@.len() == i,
                forall|j: int|
                    0 <= j < i ==> (#[trigger] out@[j])@ == (SpanV {
                        fg: syntax@[j].0,
                        changed: false,
                        text: syntax@[j].1@,
                    }),
        {
            out.push(Span { fg: syntax[i].0, changed: false, text: syntax[i].1.clone() });
        }
        assert(span_views(out@) =~= merged(pv, diff::segment_views(segments@), intraline));
        return out;
    }
    let mask = mask_of(segments);
    let mut ci: usize = 0;
    for i in 0..syntax.len()
        invariant
            pv == highlight::line_views(syntax@),
            ci == diff::saturated(pieces_len(pv.take(i as int))),
            span_views(out@) == cut(pv.take(i as int), mask@),
    {
        let fg = syntax[i].0;
        let v = text::to_chars(syntax[i].1.as_str());
        assert(pv.take(i as int + 1).drop_last() =~= pv.take(i as int));
        assert(pv[i as int] == (fg, v@));
        let ghost at = pieces_len(pv.take(i as int));
        let ghost before = span_views(out@);
        let mut cur = String::new();
        let mut cur_changed: Option<bool> = None;
        assert(v@.take(0) =~= Seq::empty());
        for k in 0..v.len()
            invariant
                ci == diff::saturated((at + k) as nat),
                open_runs(before, span_views(out@), fg, cur@, cur_changed, runs(
                    fg,
                    v@.take(k as int),
                    at,
                    mask@,
                )),
        {
            let ch = v[k];
            assert(v@.take(k as int + 1).drop_last() =~= v@.take(k as int));
            assert(v@.take(k as int + 1).last() == ch);
            let changed = if ci < mask.len() {
                mask[ci]
            } else {
                false
            };
            assert(changed == marked(mask@, (at + k) as int));
            let ghost old_runs = runs(fg, v@.take(k as int), at, mask@);
            let ghost new_runs = runs(fg, v@.take(k as int + 1), at, mask@);
            if ci < usize::MAX {
                ci = ci + 1;
            }
            match cur_changed {
                Some(c) => {
                    if c == changed {
                        cur.push(ch);
                        assert(new_runs.drop_last() =~= old_runs.drop_last());
                        assert(new_runs.last() == SpanV { fg, changed, text: cur@ });
                    } else {
                        push_span(&mut out, fg, c, cur);
                        cur = String::new();
                        cur.push(ch);
                        cur_changed = Some(changed);
                        assert(old_runs.drop_last().push(old_runs.last()) =~= old_runs);
                        assert(span_views(out@) =~= before + old_runs);
                        assert(new_runs.drop_last() =~= old_runs);
                        assert(cur@ =~= seq![ch]);
                    }
                },
                None => {
                    cur.push(ch);
                    cur_changed = Some(changed);
                    assert(cur@ =~= seq![ch]);
                    assert(before + new_runs.drop_last() =~= before);
                },
            }
        }
        assert(v@.take(v@.len() as int) =~= v@);
        let ghost all = runs(fg, v@, at, mask@);
        match cur_changed {
            Some(c) => {
                push_span(&mut out, fg, c, cur);
                assert(all.drop_last().push(all.last()) =~= all);
                assert(span_views(out@) =~= before + all);
            },
            None => {
                assert(span_views(out@) =~= before + all);
            },
        }
    }
    assert(pv.take(pv.len() as int) =~= pv);
    out
}

/// The spans in `out` are `before` and all of `r` but its last, which `cur`
/// and `cur_changed` hold.
spec fn open_runs(
    before: Seq<SpanV>,
    out: Seq<SpanV>,
    fg: Option<Color>,
    cur: Seq<char>,
    cur_changed: Option<bool>,
    r: Seq<SpanV>,
) -> bool {
    match cur_changed {
        Some(changed) => {
            &&& r.len() > 0
            &&& r.last() == SpanV { fg, changed, text: cur }
            &&& out == before + r.drop_last()
        },
        None => r.len() == 0 && out == before && cur.len() == 0,
    }
}

/// One plain span.
pub open spec fn plain_span(s: Seq<char>) -> SpanV {
    SpanV { fg: None, changed: false, text: s }
}

/// The kind of the row that shows a line.
pub open spec fn row_kind(k: LineKind) -> RowKind {
    match k {
        LineKind::Add => RowKind::Add,
        LineKind::Remove => RowKind::Remove,
        LineKind::Context => RowKind::Context,
    }
}

/// The highlighting state behind some lines.
pub open spec fn fed(at: Option<highlight::Progress>, lines: Seq<diff::LineV>) -> Option<
    highlight::Progress,
>
    decreases lines.len(),
{
    if lines.len() == 0 {
        at
    } else {
        highlight::after_line(fed(at, lines.drop_last()), lines.last().content)
    }
}

/// How rows are made: whether changed words are marked, and the tab width.
#[derive(Debug, Clone, Copy)]
pub struct Making {
    pub intraline: bool,
    pub tab: usize,
}

/// The row of one line, highlighted from the state `at`.
pub open spec fn line_row(l: diff::LineV, at: Option<highlight::Progress>, m: Making) -> RowV {
    row_of(
        row_kind(l.kind),
        l.old_no,
        l.new_no,
        expanded(
            merged(highlight::line_pieces(at, l.content), l.segments, m.intraline),
            m.tab as nat,
        ),
    )
}

/// A line as its row shows it: with its tabs expanded, as far as there is a
/// tab width.
pub open spec fn shown_text(s: Seq<char>, tab: nat) -> Seq<char> {
    if tab == 0 {
        s
    } else {
        without_tabs(s, 0, tab)
    }
}

proof fn lemma_without_tabs_split(a: Seq<char>, b: Seq<char>, col: nat, tab: nat)
    ensures
        without_tabs(a + b, col, tab) == without_tabs(a, col, tab) + without_tabs(
            b,
            end_col(a, col, tab),
            tab,
        ),
    decreases b.len(),
{
    if b.len() == 0 {
        assert(a + b =~= a);
        assert(without_tabs(a, col, tab) + Seq::<char>::empty() =~= without_tabs(a, col, tab));
    } else {
        assert((a + b).drop_last() =~= a + b.drop_last());
        lemma_without_tabs_split(a, b.drop_last(), col, tab);
        lemma_end_col_split(a, b.drop_last(), col, tab);
        assert(without_tabs(a + b, col, tab) =~= without_tabs(a, col, tab) + without_tabs(
            b,
            end_col(a, col, tab),
            tab,
        ));
    }
}

/// Expanding tabs span by span is expanding them in the whole text.
pub proof fn law_expansion_ignores_spans(v: Seq<SpanV>, tab: nat)
    ensures
        span_text(expanded(v, tab)) == shown_text(span_text(v), tab),
    decreases v.len(),
{
    if tab > 0 && v.len() > 0 {
        let w = v.drop_last();
        law_expansion_ignores_spans(w, tab);
        assert(v.take(v.len() - 1) =~= w);
        assert forall|i: int| 0 <= i < w.len() implies v.take(i) == #[trigger] w.take(i) by {
            assert(v.take(i) =~= w.take(i));
        }
        assert(expanded(v, tab).drop_last() =~= expanded(w, tab));
        lemma_without_tabs_split(span_text(w), v.last().text, 0, tab);
    }
}

/// The row of a line holds the line, its tabs expanded and nothing else
/// changed, whatever theme colors it and whether or not words are marked. So
/// a search and a copy see the same text with and without highlighting.
pub proof fn law_row_holds_the_line(l: diff::LineV, at: Option<highlight::Progress>, m: Making)
    ensures
        span_text(line_row(l, at, m).spans) == shown_text(l.content, m.tab as nat),
        line_row(l, at, m).content == cells::content_cells(shown_text(l.content, m.tab as nat)),
{
    let v = highlight::line_pieces(at, l.content);
    highlight::law_pieces_make_up_the_line(
        match at {
            Some(p) => highlight::highlighted(p.theme, p.token, p.fed, l.content),
            None => None,
        },
        l.content,
    );
    law_merge_keeps_text(v, l.segments, m.intraline);
    law_expansion_ignores_spans(merged(v, l.segments, m.intraline), m.tab as nat);
}

/// The rows of a hunk: its header, then its lines, highlighted from the start
/// of the hunk.
pub open spec fn hunk_rows(h: diff::HunkV, begin: Option<highlight::Progress>, m: Making) -> Seq<
    RowV,
> {
    seq![row_of(RowKind::Hunk, None, None, seq![plain_span(h.header)])] + Seq::new(
        h.lines.len(),
        |i: int| line_row(h.lines[i], fed(begin, h.lines.take(i)), m),
    )
}

/// The rows of hunks, one behind the other.
pub open spec fn hunks_rows(
    v: Seq<diff::HunkV>,
    begin: Option<highlight::Progress>,
    m: Making,
) -> Seq<RowV>
    decreases v.len(),
{
    if v.len() == 0 {
        Seq::empty()
    } else {
        hunks_rows(v.drop_last(), begin, m) + hunk_rows(v.last(), begin, m)
    }
}

/// The display rows of a file: a note for a binary one, else its hunks.
pub open spec fn file_rows(
    file: diff::FileV,
    begin: Option<highlight::Progress>,
    m: Making,
) -> Seq<RowV> {
    if file.is_binary {
        seq![
            row_of(RowKind::Note, None, None, seq![plain_span("Binary file — no textual diff"@)]),
        ]
    } else {
        hunks_rows(file.hunks, begin, m)
    }
}

fn push_row(v: &mut Vec<Row>, r: Row)
    ensures
        row_views(final(v)@) == row_views(old(v)@).push(r@),
{
    v.push(r);
    assert(row_views(v@) =~= row_views(old(v)@).push(r@));
}

fn one_span(s: String) -> (r: Vec<Span>)
    ensures
        span_views(r@) == seq![plain_span(s@)],
{
    let mut v: Vec<Span> = Vec::new();
    v.push(Span { fg: None, changed: false, text: s });
    assert(span_views(v@) =~= seq![plain_span(s@)]);
    v
}

/// Flatten a single file diff into styled display rows.
pub fn build_file_rows(file: &FileDiff, hl: &Highlighter, intraline: bool, tab: usize) -> (r: Vec<
    Row,
>)
    ensures
        row_views(r@) == file_rows(
            file@,
            hl.begin(file@.path()),
            Making { intraline, tab },
        ),
{
    let mut rows: Vec<Row> = Vec::new();
    let ghost begin = hl.begin(file@.path());
    let ghost m = Making { intraline, tab };
    if file.is_binary {
        let note = one_span("Binary file — no textual diff".to_owned());
        push_row(&mut rows, Row::new(RowKind::Note, None, None, note));
        assert(row_views(rows@) =~= file_rows(file@, begin, m));
        return rows;
    }
    let ghost hv = diff::hunk_views(file.hunks@);
    for i in 0..file.hunks.len()
        invariant
            hv == diff::hunk_views(file.hunks@),
            begin == hl.begin(file@.path()),
            m == (Making { intraline, tab }),
            row_views(rows@) == hunks_rows(hv.take(i as int), begin, m),
    {
        let hunk = &file.hunks[i];
        assert(hv.take(i as int + 1).drop_last() =~= hv.take(i as int));
        assert(hv[i as int] == hunk@);
        let ghost before = row_views(rows@);
        let header = one_span(hunk.header.clone());
        push_row(&mut rows, Row::new(RowKind::Hunk, None, None, header));
        let mut fh = hl.file(file.path());
        let ghost lv = diff::line_views(hunk.lines@);
        let ghost want = hunk_rows(hunk@, begin, m);
        assert(lv.take(0) =~= Seq::<diff::LineV>::empty());
        assert(row_views(rows@) =~= before + want.take(1));
        for k in 0..hunk.lines.len()
            invariant
                lv == diff::line_views(hunk.lines@),
                m == (Making { intraline, tab }),
                want == hunk_rows(hunk@, begin, m),
                fh@ == fed(begin, lv.take(k as int)),
                row_views(rows@) == before + want.take(k as int + 1),
        {
            let line = &hunk.lines[k];
            assert(lv.take(k as int + 1).drop_last() =~= lv.take(k as int));
            assert(lv[k as int] == line@);
            let pieces = fh.line(line.content.as_str());
            let mut spans = merge(pieces, &line.segments, intraline);
            expand_tabs(&mut spans, tab);
            let kind = match line.kind {
                LineKind::Add => RowKind::Add,
                LineKind::Remove => RowKind::Remove,
                LineKind::Context => RowKind::Context,
            };
            push_row(&mut rows, Row::new(kind, line.old_no, line.new_no, spans));
            assert(want[k as int + 1] == line_row(lv[k as int], fed(begin, lv.take(k as int)), m));
            assert(row_views(rows@) =~= before + want.take(k as int + 2));
        }
        assert(want.take(want.len() as int) =~= want);
    }
    assert(hv.take(hv.len() as int) =~= hv);
    rows
}

/// The rows of a hunk: the header, and then a row for each line with its kind
/// and its numbers on both sides.
pub proof fn law_rows_follow_the_lines(
    h: diff::HunkV,
    begin: Option<highlight::Progress>,
    m: Making,
    i: int,
)
    requires
        0 <= i < h.lines.len(),
    ensures
        ({
            let v = hunk_rows(h, begin, m);
            let l = h.lines[i];
            &&& v.len() == h.lines.len() + 1
            &&& v[0].kind == RowKind::Hunk
            &&& span_text(v[0].spans) == h.header
            &&& v[0].old_no is None && v[0].new_no is None
            &&& v[i + 1].kind == match l.kind {
                LineKind::Add => RowKind::Add,
                LineKind::Remove => RowKind::Remove,
                LineKind::Context => RowKind::Context,
            }
            &&& v[i + 1].old_no == l.old_no
            &&& v[i + 1].new_no == l.new_no
            &&& span_text(v[i + 1].spans) == shown_text(l.content, m.tab as nat)
        }),
{
    law_row_holds_the_line(h.lines[i], fed(begin, h.lines.take(i)), m);
    let head = seq![plain_span(h.header)];
    assert(head.drop_last() =~= Seq::<SpanV>::empty());
    assert(span_text(head.drop_last()) =~= Seq::<char>::empty());
    assert(span_text(head) =~= h.header);
}

/// How many rows some hunks have.
pub open spec fn rows_in(v: Seq<diff::HunkV>) -> nat
    decreases v.len(),
{
    if v.len() == 0 {
        0
    } else {
        rows_in(v.drop_last()) + 1 + v.last().lines.len()
    }
}

/// The rows of a file are those of its hunks, one behind the other, each hunk
/// highlighted by itself. A binary file has one row that says so.
pub proof fn law_file_rows_are_its_hunks(
    f: diff::FileV,
    begin: Option<highlight::Progress>,
    m: Making,
    h: int,
)
    ensures
        f.is_binary ==> file_rows(f, begin, m).len() == 1 && file_rows(f, begin, m)[0].kind
            == RowKind::Note && span_text(file_rows(f, begin, m)[0].spans)
            == "Binary file — no textual diff"@,
        !f.is_binary ==> file_rows(f, begin, m).len() == rows_in(f.hunks),
        !f.is_binary && 0 <= h < f.hunks.len() ==> {
            let at = rows_in(f.hunks.take(h)) as int;
            at + 1 + f.hunks[h].lines.len() <= file_rows(f, begin, m).len() && file_rows(
                f,
                begin,
                m,
            ).subrange(at, at + 1 + f.hunks[h].lines.len()) == hunk_rows(f.hunks[h], begin, m)
        },
{
    if f.is_binary {
        let note = "Binary file — no textual diff"@;
        let head = seq![plain_span(note)];
        assert(head.drop_last() =~= Seq::<SpanV>::empty());
        assert(span_text(head.drop_last()) =~= Seq::<char>::empty());
        assert(span_text(head) =~= note);
    }
    if !f.is_binary {
        lemma_hunks_rows_len(f.hunks, begin, m);
        if 0 <= h < f.hunks.len() {
            lemma_hunks_rows_at(f.hunks, begin, m, h);
        }
    }
}

proof fn lemma_hunks_rows_len(v: Seq<diff::HunkV>, begin: Option<highlight::Progress>, m: Making)
    ensures
        hunks_rows(v, begin, m).len() == rows_in(v),
    decreases v.len(),
{
    if v.len() > 0 {
        lemma_hunks_rows_len(v.drop_last(), begin, m);
    }
}

proof fn lemma_hunks_rows_at(
    v: Seq<diff::HunkV>,
    begin: Option<highlight::Progress>,
    m: Making,
    h: int,
)
    requires
        0 <= h < v.len(),
    ensures
        ({
            let at = rows_in(v.take(h)) as int;
            at + 1 + v[h].lines.len() <= hunks_rows(v, begin, m).len() && hunks_rows(
                v,
                begin,
                m,
            ).subrange(at, at + 1 + v[h].lines.len()) == hunk_rows(v[h], begin, m)
        }),
    decreases v.len(),
{
    let w = v.drop_last();
    let all = hunks_rows(v, begin, m);
    let at = rows_in(v.take(h)) as int;
    let n = 1 + v[h].lines.len();
    lemma_hunks_rows_len(w, begin, m);
    if h == v.len() - 1 {
        assert(v.take(h) =~= w);
        assert(all.subrange(at, at + n) =~= hunk_rows(v[h], begin, m));
    } else {
        lemma_hunks_rows_at(w, begin, m, h);
        assert(w.take(h) =~= v.take(h));
        assert(all.subrange(at, at + n) =~= hunks_rows(w, begin, m).subrange(at, at + n));
    }
}

/// The words that a comparison marks are the changed ones on the screen:
/// before its tabs are expanded, a line has its marks character by character.
pub proof fn law_marks_reach_the_row(
    l: diff::LineV,
    at: Option<highlight::Progress>,
    i: int,
)
    requires
        l.segments.len() > 0,
        diff::segments_text(l.segments) == l.content,
        0 <= i < l.content.len(),
    ensures
        ({
            let v = inked(merged(highlight::line_pieces(at, l.content), l.segments, true));
            &&& v.len() == l.content.len()
            &&& v[i].2 == l.content[i]
            &&& v[i].1 == change_mask(l.segments)[i]
        }),
{
    let p = highlight::line_pieces(at, l.content);
    highlight::law_pieces_make_up_the_line(
        match at {
            Some(x) => highlight::highlighted(x.theme, x.token, x.fed, l.content),
            None => None,
        },
        l.content,
    );
    law_merge_marks_changes(p, l.segments);
    let mask = change_mask(l.segments);
    lemma_painted_text(p, mask);
    lemma_painted_marks(p, mask);
    lemma_mask_len(l.segments);
    let v = painted(p, mask);
    assert(v.map_values(|c: Inked| c.2)[i] == l.content[i]);
    assert(v[i].1 == marked(mask, i));
}

proof fn lemma_painted_marks(v: Seq<highlight::PieceV>, mask: Seq<bool>)
    ensures
        painted(v, mask).len() == pieces_len(v),
        pieces_len(v) == highlight::pieces_text(v).len(),
        forall|i: int|
            0 <= i < painted(v, mask).len() ==> (#[trigger] painted(v, mask)[i]).1 == marked(mask, i),
    decreases v.len(),
{
    if v.len() > 0 {
        lemma_painted_marks(v.drop_last(), mask);
    }
}

proof fn lemma_mask_len(v: Seq<diff::SegmentV>)
    ensures
        change_mask(v).len() == diff::segments_text(v).len(),
    decreases v.len(),
{
    if v.len() > 0 {
        lemma_mask_len(v.drop_last());
    }
}

/// With word marks off, or on a line that has no pair, nothing is marked and
/// each piece keeps its text and color.
pub proof fn law_without_marks(
    v: Seq<highlight::PieceV>,
    segments: Seq<diff::SegmentV>,
    intraline: bool,
    i: int,
)
    requires
        !intraline || segments.len() == 0,
        0 <= i < v.len(),
    ensures
        merged(v, segments, intraline).len() == v.len(),
        merged(v, segments, intraline)[i] == (SpanV { fg: v[i].0, changed: false, text: v[i].1 }),
{
}

/// The lines of a hunk are highlighted in order: before a line, all lines
/// above it have been fed, removed ones too, under the same theme and syntax.
pub proof fn law_lines_are_fed_in_order(at: highlight::Progress, lines: Seq<diff::LineV>)
    ensures
        fed(Some(at), lines) == Some(
            highlight::Progress {
                fed: at.fed + lines.map_values(|l: diff::LineV| l.content),
                ..at
            },
        ),
        fed(None, lines) is None,
    decreases lines.len(),
{
    let f = |l: diff::LineV| l.content;
    if lines.len() == 0 {
        assert(at.fed + lines.map_values(f) =~= at.fed);
    } else {
        law_lines_are_fed_in_order(at, lines.drop_last());
        assert((at.fed + lines.drop_last().map_values(f)).push(lines.last().content) =~= at.fed
            + lines.map_values(f));
    }
}

/// Expanding tabs changes neither the colors nor the marks of spans.
pub proof fn law_expansion_keeps_styles(v: Seq<SpanV>, tab: nat, i: int)
    requires
        0 <= i < v.len(),
    ensures
        expanded(v, tab).len() == v.len(),
        expanded(v, tab)[i].fg == v[i].fg,
        expanded(v, tab)[i].changed == v[i].changed,
        tab == 0 ==> expanded(v, tab) == v,
{
}

/// A row of a hunk has the colors that highlighting gave for its line, when all
/// lines above it in the hunk had been fed.
pub proof fn law_rows_are_colored(
    h: diff::HunkV,
    p: highlight::Progress,
    m: Making,
    i: int,
    j: int,
)
    requires
        0 <= i < h.lines.len(),
        !m.intraline || h.lines[i].segments.len() == 0,
    ensures
        ({
            let above = p.fed + h.lines.take(i).map_values(|l: diff::LineV| l.content);
            let v = highlight::colored_pieces(
                highlight::highlighted(p.theme, p.token, above, h.lines[i].content),
                h.lines[i].content,
            );
            let r = hunk_rows(h, Some(p), m)[i + 1];
            &&& r.spans.len() == v.len()
            &&& 0 <= j < v.len() ==> r.spans[j].fg == v[j].0 && !r.spans[j].changed
            &&& 0 <= j < v.len() && m.tab == 0 ==> r.spans[j].text == v[j].1
        }),
{
    law_lines_are_fed_in_order(p, h.lines.take(i));
}

} // verus!
