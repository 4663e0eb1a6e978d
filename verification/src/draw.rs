//! Drawing diff rows: each drawing is a list of texts with their place and
//! style, in the order in which they are painted.
use crate::cells;
use crate::cells::Metrics;
use crate::geometry;
use crate::geometry::Gut;
use crate::palette::{Color, Shades, Style};
use crate::rows;
use crate::rows::{Row, RowKind, RowV, Span, SpanV};
use crate::text;
use vstd::prelude::*;

verus! {

/// A text to be painted at a column and a row of the screen.
#[derive(Debug, Clone)]
pub struct Put {
    pub x: u32,
    pub y: u32,
    pub text: String,
    pub style: Style,
}

/// The contents of a text to be painted.
#[verifier::ext_equal]
pub struct PutV {
    pub x: int,
    pub y: int,
    pub text: Seq<char>,
    pub style: Style,
}

impl View for Put {
    type V = PutV;

    open spec fn view(&self) -> PutV {
        PutV { x: self.x as int, y: self.y as int, text: self.text@, style: self.style }
    }
}

/// The contents of a drawing.
pub open spec fn put_views(v: Seq<Put>) -> Seq<PutV> {
    v.map_values(|p: Put| p@)
}

/// Add a text to a drawing.
pub fn put(v: &mut Vec<Put>, x: u32, y: u32, text: String, style: Style)
    ensures
        put_views(final(v)@) == put_views(old(v)@).push(
            PutV { x: x as int, y: y as int, text: text@, style },
        ),
{
    v.push(Put { x, y, text, style });
    assert(put_views(v@) =~= put_views(old(v)@).push(
        PutV { x: x as int, y: y as int, text: text@, style },
    ));
}

/// An empty drawing.
pub fn blank() -> (r: Vec<Put>)
    ensures
        put_views(r@) == Seq::<PutV>::empty(),
{
    let v: Vec<Put> = Vec::new();
    assert(put_views(v@) =~= Seq::<PutV>::empty());
    v
}

/// The place of a drawn row: the box `[x, x + width)` at screen row `y`.
#[derive(Debug, Clone, Copy)]
pub struct Slot {
    pub x: u16,
    pub y: u16,
    pub width: u16,
}

/// How diff rows are drawn.
#[derive(Debug, Clone, Copy)]
pub struct Brush {
    pub shades: Shades,
    pub metrics: Metrics,
    pub line_numbers: bool,
    /// Whether code is colored by its syntax.
    pub syntax: bool,
    /// Columns of content that are scrolled out to the left.
    pub pan: usize,
}

/// A style on the background of its row, unless it sets its own.
pub open spec fn on_bg(st: Style, bg: Option<Color>) -> Style {
    if bg is Some && st.bg is None {
        st.with_bg(bg)
    } else {
        st
    }
}

fn with_row_bg(st: Style, bg: Option<Color>) -> (r: Style)
    ensures
        r == on_bg(st, bg),
{
    match (bg, st.bg) {
        (Some(_), None) => st.bg(bg),
        _ => st,
    }
}

/// What is left of clusters without their first `n` columns. Of a cluster
/// that is cut, blanks are left.
pub open spec fn without_cols(c: Seq<(Seq<char>, u8)>, n: nat) -> Seq<char>
    decreases c.len(),
{
    if n == 0 || c.len() == 0 {
        cells::cluster_text(c)
    } else if c.first().1 <= n {
        without_cols(c.drop_first(), (n - c.first().1) as nat)
    } else {
        text::copies(' ', (c.first().1 - n) as nat) + cells::cluster_text(c.drop_first())
    }
}

/// A text without its first `n` columns.
pub open spec fn scrolled_text(s: Seq<char>, n: nat, m: Metrics) -> Seq<char> {
    if n == 0 {
        s
    } else {
        without_cols(cells::graphemes(s, m), n)
    }
}

proof fn lemma_cluster_text_first(c: Seq<(Seq<char>, u8)>)
    requires
        c.len() > 0,
    ensures
        cells::cluster_text(c) == c.first().0 + cells::cluster_text(c.drop_first()),
        cells::cluster_width(c) == c.first().1 + cells::cluster_width(c.drop_first()),
    decreases c.len(),
{
    let d = c.drop_first();
    if c.len() == 1 {
        assert(c.drop_last() =~= Seq::empty());
        assert(d =~= Seq::empty());
        assert(cells::cluster_text(c) =~= c.first().0 + cells::cluster_text(d));
    } else {
        lemma_cluster_text_first(c.drop_last());
        assert(c.drop_last().drop_first() =~= d.drop_last());
        assert(cells::cluster_text(c) =~= c.first().0 + cells::cluster_text(d));
    }
}

/// Drop the first `n` columns of clusters.
fn drop_cols(clusters: &Vec<(String, u8)>, n: usize) -> (r: String)
    ensures
        r@ == without_cols(cells::pairs(clusters@), n as nat),
{
    let ghost c = cells::pairs(clusters@);
    let mut left: usize = n;
    let mut i: usize = 0;
    assert(c.skip(0) =~= c);
    while i < clusters.len() && left > 0 && clusters[i].1 as usize <= left
        invariant
            c == cells::pairs(clusters@),
            i <= clusters@.len(),
            without_cols(c, n as nat) == without_cols(c.skip(i as int), left as nat),
        decreases clusters@.len() - i,
    {
        assert(c.skip(i as int).first() == (clusters@[i as int].0@, clusters@[i as int].1));
        assert(c.skip(i as int).drop_first() =~= c.skip(i as int + 1));
        left = left - clusters[i].1 as usize;
        i = i + 1;
    }
    let mut out = String::new();
    let mut from: usize = i;
    assert(out@ =~= Seq::<char>::empty());
    if i < clusters.len() && left > 0 {
        assert(c.skip(i as int).first() == (clusters@[i as int].0@, clusters@[i as int].1));
        assert(c.skip(i as int).drop_first() =~= c.skip(i as int + 1));
        out = text::repeat(' ', clusters[i].1 as usize - left);
        from = i + 1;
    }
    let ghost head = out@;
    assert(c.subrange(from as int, from as int) =~= Seq::empty());
    assert(head + cells::cluster_text(c.subrange(from as int, from as int)) =~= head);
    for k in from..clusters.len()
        invariant
            c == cells::pairs(clusters@),
            from <= clusters@.len(),
            out@ == head + cells::cluster_text(c.subrange(from as int, k as int)),
    {
        assert(c.subrange(from as int, k as int + 1).drop_last() =~= c.subrange(
            from as int,
            k as int,
        ));
        assert(c[k as int] == (clusters@[k as int].0@, clusters@[k as int].1));
        out.push_str(clusters[k].0.as_str());
        assert(out@ =~= head + cells::cluster_text(c.subrange(from as int, k as int + 1)));
    }
    assert(c.subrange(from as int, c.len() as int) =~= c.skip(from as int));
    assert(Seq::<char>::empty() + cells::cluster_text(c.skip(from as int))
        =~= cells::cluster_text(c.skip(from as int)));
    out
}

/// How many of `n` columns are left to be dropped behind a text.
pub open spec fn skip_left(s: Seq<char>, n: nat, m: Metrics) -> nat {
    geometry::minus(n as int, cells::cluster_width(cells::graphemes(s, m)) as int) as nat
}

/// A text without its first `n` columns, and how many of them are left to be
/// dropped behind it.
fn scroll_text(s: &str, n: usize, m: Metrics) -> (r: (String, usize))
    ensures
        r.0@ == scrolled_text(s@, n as nat, m),
        r.1 == skip_left(s@, n as nat, m),
{
    if n == 0 {
        return (s.to_owned(), 0);
    }
    let clusters = cells::grapheme_cells(s, m);
    let t = drop_cols(&clusters, n);
    let ghost c = cells::pairs(clusters@);
    let mut left: usize = n;
    for i in 0..clusters.len()
        invariant
            c == cells::pairs(clusters@),
            left == geometry::minus(n as int, cells::cluster_width(c.take(i as int)) as int),
    {
        assert(c.take(i as int + 1).drop_last() =~= c.take(i as int));
        assert(c[i as int] == (clusters@[i as int].0@, clusters@[i as int].1));
        left = left.saturating_sub(clusters[i].1 as usize);
    }
    assert(c.take(c.len() as int) =~= c);
    (t, left)
}

/// Of a text that is scrolled out whole nothing is left, but for clusters
/// without width.
pub proof fn law_scrolled_out_is_gone(c: Seq<(Seq<char>, u8)>, n: nat)
    requires
        n >= cells::cluster_width(c),
        forall|i: int| 0 <= i < c.len() ==> (#[trigger] c[i]).1 > 0,
    ensures
        n > 0 ==> without_cols(c, n) == Seq::<char>::empty(),
    decreases c.len(),
{
    reveal_with_fuel(without_cols, 2);
    if c.len() > 0 {
        lemma_cluster_text_first(c);
        if c.first().1 <= n {
            law_scrolled_out_is_gone(c.drop_first(), (n - c.first().1) as nat);
            if n == c.first().1 {
                assert(cells::cluster_width(c.drop_first()) == 0);
                if c.drop_first().len() > 0 {
                    assert(c.drop_first()[0] == c[1]);
                    lemma_cluster_text_first(c.drop_first());
                }
                assert(cells::cluster_text(c.drop_first()) =~= Seq::<char>::empty());
            }
        }
    } else {
        assert(cells::cluster_text(c) =~= Seq::<char>::empty());
    }
}

/// The base style of a row of code.
pub open spec fn base_style(s: Shades, kind: RowKind) -> Style {
    match kind {
        RowKind::Add => s.add,
        RowKind::Remove => s.remove,
        _ => s.context,
    }
}

/// The background of changed words.
pub open spec fn emph_bg(s: Shades, kind: RowKind) -> Option<Color> {
    match kind {
        RowKind::Add => s.add_emph_bg,
        RowKind::Remove => s.remove_emph_bg,
        _ => None,
    }
}

/// The style of a span: its own color, or that of its row; changed words stand
/// out by their background and are bold.
pub open spec fn span_style(b: Brush, sp: SpanV, kind: RowKind, bg: Option<Color>) -> Style {
    let base = base_style(b.shades, kind);
    let plain = if b.syntax {
        Style::plain().with_fg(
            match sp.fg {
                Some(c) => Some(c),
                None => base.fg,
            },
        )
    } else {
        base
    };
    let st = if sp.changed && emph_bg(b.shades, kind) is Some {
        plain.with_bg(emph_bg(b.shades, kind)).with_bold()
    } else {
        plain
    };
    on_bg(st, bg)
}

/// The spans of a row of code from column `cx` on, the first `skip` columns
/// scrolled out, clipped at column `end`.
pub open spec fn drawn_spans(
    b: Brush,
    v: Seq<SpanV>,
    kind: RowKind,
    bg: Option<Color>,
    cx: int,
    end: int,
    y: int,
    skip: nat,
) -> Seq<PutV>
    decreases v.len(),
{
    if v.len() == 0 || cx >= end {
        Seq::empty()
    } else {
        let sp = v.first();
        let c = cells::graphemes(scrolled_text(sp.text, skip, b.metrics), b.metrics);
        let t = cells::fit_text(c, (end - cx) as nat);
        let w = cells::fit_width(c, (end - cx) as nat);
        let left = skip_left(sp.text, skip, b.metrics);
        if t.len() == 0 {
            drawn_spans(b, v.drop_first(), kind, bg, cx, end, y, left)
        } else {
            seq![PutV { x: cx, y, text: t, style: span_style(b, sp, kind, bg) }] + drawn_spans(
                b,
                v.drop_first(),
                kind,
                bg,
                cx + w,
                end,
                y,
                left,
            )
        }
    }
}

fn style_span(b: &Brush, sp: &Span, kind: RowKind, bg: Option<Color>) -> (r: Style)
    ensures
        r == span_style(*b, sp@, kind, bg),
{
    let base = match kind {
        RowKind::Add => b.shades.add,
        RowKind::Remove => b.shades.remove,
        _ => b.shades.context,
    };
    let emph = match kind {
        RowKind::Add => b.shades.add_emph_bg,
        RowKind::Remove => b.shades.remove_emph_bg,
        _ => None,
    };
    let mut st = if b.syntax {
        Style::new().fg(
            match sp.fg {
                Some(c) => Some(c),
                None => base.fg,
            },
        )
    } else {
        base
    };
    if sp.changed && emph.is_some() {
        st = st.bg(emph).bold();
    }
    with_row_bg(st, bg)
}

fn draw_spans(
    out: &mut Vec<Put>,
    b: &Brush,
    v: &Vec<Span>,
    kind: RowKind,
    bg: Option<Color>,
    cx: u32,
    end: u32,
    y: u16,
)
    requires
        end <= 0x20000,
        end - cx <= 0xffff,
    ensures
        put_views(final(out)@) == put_views(old(out)@) + drawn_spans(
            *b,
            rows::span_views(v@),
            kind,
            bg,
            cx as int,
            end as int,
            y as int,
            b.pan as nat,
        ),
{
    let ghost sv = rows::span_views(v@);
    let ghost before = put_views(out@);
    let ghost all = drawn_spans(
        *b,
        sv,
        kind,
        bg,
        cx as int,
        end as int,
        y as int,
        b.pan as nat,
    );
    let mut at: u32 = cx;
    let mut skip: usize = b.pan;
    let mut i: usize = 0;
    let ghost mut done: Seq<PutV> = Seq::empty();
    assert(sv.skip(0) =~= sv);
    assert(done + all =~= all);
    assert(before + done =~= before);
    while i < v.len() && at < end
        invariant
            sv == rows::span_views(v@),
            i <= v@.len(),
            end <= 0x20000,
            cx <= at,
            end - cx <= 0xffff,
            put_views(out@) == before + done,
            all == done + drawn_spans(
                *b,
                sv.skip(i as int),
                kind,
                bg,
                at as int,
                end as int,
                y as int,
                skip as nat,
            ),
        decreases v@.len() - i,
    {
        let ghost rest = sv.skip(i as int);
        assert(rest.first() == v@[i as int]@);
        assert(rest.drop_first() =~= sv.skip(i as int + 1));
        let (t, left) = scroll_text(v[i].text.as_str(), skip, b.metrics);
        let (t, w) = cells::clip(t.as_str(), (end - at) as u16, b.metrics);
        skip = left;
        if !t.as_str().is_empty() {
            let st = style_span(b, &v[i], kind, bg);
            put(out, at, y as u32, t, st);
            proof {
                let p = PutV { x: at as int, y: y as int, text: t@, style: st };
                let tail = drawn_spans(
                    *b,
                    sv.skip(i as int + 1),
                    kind,
                    bg,
                    at + w,
                    end as int,
                    y as int,
                    left as nat,
                );
                assert(done + (seq![p] + tail) =~= done.push(p) + tail);
                assert((before + done).push(p) =~= before + done.push(p));
                done = done.push(p);
            }
            at = at + w as u32;
        }
        i = i + 1;
    }
    proof {
        let rest = drawn_spans(
            *b,
            sv.skip(i as int),
            kind,
            bg,
            at as int,
            end as int,
            y as int,
            skip as nat,
        );
        assert(done + rest =~= done);
    }
}

/// The line numbers of a row.
pub open spec fn gutter_text(r: RowV, gut: Gut) -> Seq<char> {
    let old = text::right_aligned(number_text(r.old_no), 4);
    let new = text::right_aligned(number_text(r.new_no), 4);
    match gut {
        Gut::Both => old + " "@ + new,
        Gut::Old => old + " "@,
        Gut::New => new + " "@,
    }
}

/// A line number in decimal, nothing where there is none.
pub open spec fn number_text(n: Option<usize>) -> Seq<char> {
    match n {
        Some(n) => text::dec(n as nat),
        None => Seq::empty(),
    }
}

fn number(n: Option<usize>) -> (r: String)
    ensures
        r@ == text::right_aligned(number_text(n), 4),
{
    let s = match n {
        Some(n) => text::decimal(n),
        None => String::new(),
    };
    assert(s@ =~= number_text(n));
    text::align_right(s.as_str(), 4)
}

fn gutter(r: &Row, gut: Gut) -> (s: String)
    ensures
        s@ == gutter_text(r@, gut),
{
    let (first, second) = match gut {
        Gut::Both => (number(r.old_no), number(r.new_no)),
        Gut::Old => (number(r.old_no), String::new()),
        Gut::New => (number(r.new_no), String::new()),
    };
    let mut s = first;
    s.push_str(" ");
    s.push_str(second.as_str());
    assert(s@ =~= gutter_text(r@, gut));
    s
}

/// The sign of a row of code.
pub open spec fn sign_text(kind: RowKind) -> Seq<char> {
    match kind {
        RowKind::Add => "+"@,
        RowKind::Remove => "-"@,
        _ => " "@,
    }
}

/// The style of the sign of a row of code.
pub open spec fn sign_style(s: Shades, kind: RowKind) -> Style {
    match kind {
        RowKind::Add => s.add.with_bold(),
        RowKind::Remove => s.remove.with_bold(),
        _ => s.context,
    }
}

/// The text of a header or note.
pub open spec fn first_text(r: RowV) -> Seq<char> {
    if r.spans.len() > 0 {
        r.spans[0].text
    } else {
        Seq::empty()
    }
}

/// The wash of a row with its background, so gaps also carry it.
pub open spec fn wash(s: Slot, bg: Option<Color>) -> Seq<PutV> {
    if bg is Some {
        seq![
            PutV {
                x: s.x as int,
                y: s.y as int,
                text: text::copies(' ', s.width as nat),
                style: Style::plain().with_bg(bg),
            },
        ]
    } else {
        Seq::empty()
    }
}

/// The columns of the gutter of a row.
pub open spec fn gutter_cols(b: Brush, gut: Gut) -> int {
    if !b.line_numbers {
        0
    } else {
        match gut {
            Gut::Both => 9,
            _ => 5,
        }
    }
}

/// A row of code: its line numbers, its sign and its spans.
pub open spec fn code_row(b: Brush, r: RowV, s: Slot, bg: Option<Color>, gut: Gut) -> Seq<PutV> {
    let cx = s.x + gutter_cols(b, gut);
    let numbers = if b.line_numbers {
        seq![
            PutV {
                x: s.x as int,
                y: s.y as int,
                text: gutter_text(r, gut),
                style: on_bg(b.shades.line_number, bg),
            },
        ]
    } else {
        Seq::empty()
    };
    numbers.push(
        PutV {
            x: cx,
            y: s.y as int,
            text: sign_text(r.kind),
            style: on_bg(sign_style(b.shades, r.kind), bg),
        },
    ) + drawn_spans(b, r.spans, r.kind, bg, cx + 1, s.x + s.width, s.y as int, b.pan as nat)
}

/// A header or note: its text, clipped to the width of its box.
pub open spec fn label_row(b: Brush, r: RowV, s: Slot, bg: Option<Color>, gut: Gut) -> Seq<PutV> {
    let st = if r.kind == RowKind::Hunk {
        b.shades.header
    } else {
        b.shades.context.with_faint()
    };
    seq![
        PutV {
            x: s.x + gutter_cols(b, gut),
            y: s.y as int,
            text: cells::fit_text(cells::graphemes(first_text(r), b.metrics), s.width as nat),
            style: on_bg(st, bg),
        },
    ]
}

/// A diff row in a box, with an optional whole-row background and a gutter
/// mode.
#[verifier::opaque]
pub open spec fn drawn_row(b: Brush, r: RowV, s: Slot, bg: Option<Color>, gut: Gut) -> Seq<PutV> {
    if s.width == 0 {
        Seq::empty()
    } else {
        wash(s, bg) + if geometry::is_code(r.kind) {
            code_row(b, r, s, bg, gut)
        } else {
            label_row(b, r, s, bg, gut)
        }
    }
}

fn draw_code(out: &mut Vec<Put>, b: &Brush, r: &Row, s: Slot, bg: Option<Color>, gut: Gut)
    requires
        geometry::is_code(r.kind),
    ensures
        put_views(final(out)@) == put_views(old(out)@) + code_row(*b, r@, s, bg, gut),
{
    let ghost before = put_views(out@);
    let y = s.y as u32;
    if b.line_numbers {
        put(out, s.x as u32, y, gutter(r, gut), with_row_bg(b.shades.line_number, bg));
    }
    let num_w: u32 = if !b.line_numbers {
        0
    } else {
        match gut {
            Gut::Both => 9,
            Gut::Old | Gut::New => 5,
        }
    };
    let cx: u32 = s.x as u32 + num_w;
    let (sign, st) = match r.kind {
        RowKind::Add => ("+", b.shades.add.bold()),
        RowKind::Remove => ("-", b.shades.remove.bold()),
        _ => (" ", b.shades.context),
    };
    put(out, cx, y, sign.to_owned(), with_row_bg(st, bg));
    let ghost head = put_views(out@);
    draw_spans(out, b, &r.spans, r.kind, bg, cx + 1, s.x as u32 + s.width as u32, s.y);
    assert(put_views(out@) =~= before + code_row(*b, r@, s, bg, gut));
}

fn draw_label(out: &mut Vec<Put>, b: &Brush, r: &Row, s: Slot, bg: Option<Color>, gut: Gut)
    requires
        !geometry::is_code(r.kind),
    ensures
        put_views(final(out)@) == put_views(old(out)@) + label_row(*b, r@, s, bg, gut),
{
    let ghost before = put_views(out@);
    let num_w: u32 = if !b.line_numbers {
        0
    } else {
        match gut {
            Gut::Both => 9,
            Gut::Old | Gut::New => 5,
        }
    };
    assert(r@.spans.len() == r.spans@.len());
    let t = if r.spans.len() > 0 {
        assert(r@.spans[0] == r.spans@[0]@);
        cells::clip(r.spans[0].text.as_str(), s.width, b.metrics).0
    } else {
        let e = String::new();
        assert(e@ =~= Seq::<char>::empty());
        cells::clip(e.as_str(), s.width, b.metrics).0
    };
    let st = match r.kind {
        RowKind::Hunk => b.shades.header,
        _ => b.shades.context.faint(),
    };
    put(out, s.x as u32 + num_w, s.y as u32, t, with_row_bg(st, bg));
    assert(put_views(out@) =~= before + label_row(*b, r@, s, bg, gut));
}

/// Draw a single diff row into the box `[x, x+width)` at screen row `y`, with
/// an optional whole-row background wash and a gutter mode.
pub fn draw_diff_row(out: &mut Vec<Put>, b: &Brush, r: &Row, s: Slot, bg: Option<Color>, gut: Gut)
    ensures
        put_views(final(out)@) == put_views(old(out)@) + drawn_row(*b, r@, s, bg, gut),
{
    reveal(drawn_row);
    let ghost before = put_views(out@);
    if s.width == 0 {
        assert(before + drawn_row(*b, r@, s, bg, gut) =~= before);
        return;
    }
    if bg.is_some() {
        put(
            out,
            s.x as u32,
            s.y as u32,
            text::repeat(' ', s.width as usize),
            Style::new().bg(bg),
        );
    }
    assert(put_views(out@) =~= before + wash(s, bg));
    if geometry::code(r.kind) {
        draw_code(out, b, r, s, bg, gut);
    } else {
        draw_label(out, b, r, s, bg, gut);
    }
    assert(put_views(out@) =~= before + drawn_row(*b, r@, s, bg, gut));
}

/// An empty half of the split view, hatched with diagonal slashes.
pub open spec fn hatched(b: Brush, s: Slot, bg: Option<Color>) -> Seq<PutV> {
    if s.width == 0 {
        Seq::empty()
    } else {
        seq![
            PutV {
                x: s.x as int,
                y: s.y as int,
                text: text::copies('╱', s.width as nat),
                style: match bg {
                    Some(c) => b.shades.line_number.with_bg(Some(c)),
                    None => b.shades.line_number,
                },
            },
        ]
    }
}

/// Hatch an empty pane half with diagonal slashes (used where a split-view
/// line exists on only one side).
pub fn fill_slash(out: &mut Vec<Put>, b: &Brush, s: Slot, bg: Option<Color>)
    ensures
        put_views(final(out)@) == put_views(old(out)@) + hatched(*b, s, bg),
{
    let ghost before = put_views(out@);
    if s.width > 0 {
        let st = match bg {
            Some(c) => b.shades.line_number.bg(Some(c)),
            None => b.shades.line_number,
        };
        put(out, s.x as u32, s.y as u32, text::repeat('╱', s.width as usize), st);
    }
    assert(put_views(out@) =~= before + hatched(*b, s, bg));
}

/// The texts of a row of code keep within its box, behind the gutter and the
/// sign.
pub proof fn law_spans_stay_in_box(
    b: Brush,
    v: Seq<SpanV>,
    kind: RowKind,
    bg: Option<Color>,
    cx: int,
    end: int,
    y: int,
    skip: nat,
)
    ensures
        forall|i: int|
            0 <= i < drawn_spans(b, v, kind, bg, cx, end, y, skip).len() ==> {
                let p = #[trigger] drawn_spans(b, v, kind, bg, cx, end, y, skip)[i];
                cx <= p.x < end && p.y == y
            },
    decreases v.len(),
{
    if v.len() > 0 && cx < end {
        let sp = v.first();
        let c = cells::graphemes(scrolled_text(sp.text, skip, b.metrics), b.metrics);
        let w = cells::fit_width(c, (end - cx) as nat);
        let left = skip_left(sp.text, skip, b.metrics);
        law_spans_stay_in_box(b, v.drop_first(), kind, bg, cx, end, y, left);
        law_spans_stay_in_box(b, v.drop_first(), kind, bg, cx + w, end, y, left);
        let all = drawn_spans(b, v, kind, bg, cx, end, y, skip);
        let rest = drawn_spans(b, v.drop_first(), kind, bg, cx + w, end, y, left);
        if cells::fit_text(c, (end - cx) as nat).len() > 0 {
            assert forall|i: int| 0 <= i < all.len() implies {
                let p = #[trigger] all[i];
                cx <= p.x < end && p.y == y
            } by {
                if i > 0 {
                    assert(all[i] == rest[i - 1]);
                }
            }
        }
    }
}

/// All that is drawn of a row stands on its screen row.
pub proof fn law_row_stands_on_its_line(b: Brush, r: RowV, s: Slot, bg: Option<Color>, gut: Gut)
    ensures
        forall|i: int|
            0 <= i < drawn_row(b, r, s, bg, gut).len() ==> (#[trigger] drawn_row(
                b,
                r,
                s,
                bg,
                gut,
            )[i]).y == s.y,
{
    reveal(drawn_row);
    let cx = s.x + gutter_cols(b, gut);
    law_spans_stay_in_box(
        b,
        r.spans,
        r.kind,
        bg,
        cx + 1,
        s.x + s.width,
        s.y as int,
        b.pan as nat,
    );
}

/// The number of a line in its four columns, blanks where it has none.
pub open spec fn in_four(n: Option<usize>) -> Seq<char> {
    text::right_aligned(
        match n {
            Some(k) => text::dec(k as nat),
            None => Seq::empty(),
        },
        4,
    )
}

/// The gutter of a row of code shows its line numbers: the old one and then
/// the new one in the unified view, the old one alone in the left pane, the
/// new one alone in the right. The sign stands behind it, and nothing else is
/// painted there but the background.
pub proof fn law_gutter_shows_line_numbers(b: Brush, r: RowV, s: Slot, bg: Option<Color>, gut: Gut)
    requires
        b.line_numbers,
        s.width > 0,
        r.kind == RowKind::Add || r.kind == RowKind::Remove || r.kind == RowKind::Context,
    ensures
        ({
            let d = drawn_row(b, r, s, bg, gut);
            let w: int = if gut == Gut::Both {
                9
            } else {
                5
            };
            let numbers = match gut {
                Gut::Both => in_four(r.old_no) + " "@ + in_four(r.new_no),
                Gut::Old => in_four(r.old_no) + " "@,
                Gut::New => in_four(r.new_no) + " "@,
            };
            let sign = match r.kind {
                RowKind::Add => "+"@,
                RowKind::Remove => "-"@,
                _ => " "@,
            };
            &&& exists|i: int|
                0 <= i < d.len() && (#[trigger] d[i]).x == s.x && d[i].y == s.y && d[i].text
                    == numbers
            &&& exists|i: int|
                0 <= i < d.len() && (#[trigger] d[i]).x == s.x + w && d[i].y == s.y && d[i].text
                    == sign
            &&& forall|i: int|
                0 <= i < d.len() && (#[trigger] d[i]).x < s.x + w ==> d[i].text == numbers
                    || d[i].text == text::copies(' ', s.width as nat)
            &&& forall|i: int| 0 <= i < d.len() && (#[trigger] d[i]).x == s.x + w ==> d[i].text == sign
        }),
{
    reveal(drawn_row);
    let d = drawn_row(b, r, s, bg, gut);
    let cx = s.x + gutter_cols(b, gut);
    law_spans_stay_in_box(
        b,
        r.spans,
        r.kind,
        bg,
        cx + 1,
        s.x + s.width,
        s.y as int,
        b.pan as nat,
    );
    let spans = drawn_spans(
        b,
        r.spans,
        r.kind,
        bg,
        cx + 1,
        s.x + s.width,
        s.y as int,
        b.pan as nat,
    );
    let k = wash(s, bg).len() as int;
    assert(d[k].text == gutter_text(r, gut));
    assert(d[k].x == s.x);
    assert(d[k + 1].text == sign_text(r.kind));
    assert(d[k + 1].x == cx);
    assert forall|i: int| k + 2 <= i < d.len() implies (#[trigger] d[i]).x >= cx + 1 by {
        assert(d[i] == spans[i - k - 2]);
    }
}

/// The texts of a drawing, one behind the other.
pub open spec fn painted_text(v: Seq<PutV>) -> Seq<char>
    decreases v.len(),
{
    if v.len() == 0 {
        Seq::empty()
    } else {
        painted_text(v.drop_last()) + v.last().text
    }
}

/// The columns that spans take.
pub open spec fn spans_width(v: Seq<SpanV>, m: Metrics) -> nat
    decreases v.len(),
{
    if v.len() == 0 {
        0
    } else {
        cells::cluster_width(cells::graphemes(v.first().text, m)) + spans_width(v.drop_first(), m)
    }
}

/// Whether the clusters of each span make up its text.
pub open spec fn measured(v: Seq<SpanV>, m: Metrics) -> bool {
    forall|i: int|
        0 <= i < v.len() ==> cells::cluster_text(cells::graphemes((#[trigger] v[i]).text, m))
            == v[i].text
}

proof fn lemma_painted_first(p: PutV, v: Seq<PutV>)
    ensures
        painted_text(seq![p] + v) == p.text + painted_text(v),
    decreases v.len(),
{
    let all = seq![p] + v;
    if v.len() == 0 {
        assert(all =~= seq![p]);
        assert(all.drop_last() =~= Seq::<PutV>::empty());
        assert(painted_text(all.drop_last()) =~= Seq::<char>::empty());
        assert(painted_text(all) =~= p.text + painted_text(v));
    } else {
        assert(all.drop_last() =~= seq![p] + v.drop_last());
        lemma_painted_first(p, v.drop_last());
        assert(painted_text(all) =~= p.text + painted_text(v));
    }
}

proof fn lemma_span_text_first(v: Seq<SpanV>)
    requires
        v.len() > 0,
    ensures
        rows::span_text(v) == v.first().text + rows::span_text(v.drop_first()),
    decreases v.len(),
{
    let d = v.drop_first();
    if v.len() == 1 {
        assert(v.drop_last() =~= Seq::<SpanV>::empty());
        assert(d =~= Seq::<SpanV>::empty());
        assert(rows::span_text(v) =~= v.first().text + rows::span_text(d));
    } else {
        lemma_span_text_first(v.drop_last());
        assert(v.drop_last().drop_first() =~= d.drop_last());
        assert(rows::span_text(v) =~= v.first().text + rows::span_text(d));
    }
}

/// A row of code that fits into its box and is not scrolled sideways is
/// painted whole: the texts that are painted make up the text of the row.
pub proof fn law_spans_are_painted_whole(
    b: Brush,
    v: Seq<SpanV>,
    kind: RowKind,
    bg: Option<Color>,
    cx: int,
    end: int,
    y: int,
)
    ensures
        measured(v, b.metrics) && cx + spans_width(v, b.metrics) < end ==> painted_text(drawn_spans(b, v, kind, bg, cx, end, y, 0)) == rows::span_text(v),
    decreases v.len(),
{
    let m = b.metrics;
    if measured(v, m) && cx + spans_width(v, m) < end && v.len() > 0 {
        let sp = v.first();
        let c = cells::graphemes(sp.text, m);
        let d = v.drop_first();
        assert(cells::cluster_text(cells::graphemes(v[0].text, m)) == v[0].text);
        assert(measured(d, m)) by {
            assert forall|i: int| 0 <= i < d.len() implies cells::cluster_text(
                cells::graphemes((#[trigger] d[i]).text, m),
            ) == d[i].text by {
                assert(d[i] == v[i + 1]);
            }
        }
        let w = cells::cluster_width(c);
        cells::law_fit_is_longest(c, (end - cx) as nat, c.len());
        assert(c.take(c.len() as int) =~= c);
        assert(cells::fit_count(c, (end - cx) as nat) == c.len());
        assert(cells::fit_text(c, (end - cx) as nat) == sp.text);
        assert(cells::fit_width(c, (end - cx) as nat) == w);
        assert(skip_left(sp.text, 0, m) == 0);
        lemma_span_text_first(v);
        law_spans_are_painted_whole(b, d, kind, bg, cx + w, end, y);
        let rest = drawn_spans(b, d, kind, bg, cx + w, end, y, 0);
        if sp.text.len() == 0 {
            law_spans_are_painted_whole(b, d, kind, bg, cx, end, y);
            assert(sp.text + rows::span_text(d) =~= rows::span_text(d));
        } else {
            lemma_painted_first(
                PutV { x: cx, y, text: sp.text, style: span_style(b, sp, kind, bg) },
                rest,
            );
        }
    }
}

/// Scrolled sideways by the columns of its first `k` clusters, a text starts
/// with the next one.
pub proof fn law_scrolling_drops_columns(c: Seq<(Seq<char>, u8)>, k: int)
    requires
        0 <= k <= c.len(),
        cells::all_wide(c),
    ensures
        without_cols(c, cells::cluster_width(c.take(k))) == cells::cluster_text(c.skip(k)),
    decreases c.len(),
{
    if k == 0 {
        assert(c.take(0) =~= Seq::empty());
        assert(c.skip(0) =~= c);
    } else {
        let d = c.drop_first();
        assert(cells::all_wide(d)) by {
            assert forall|i: int| 0 <= i < d.len() implies (#[trigger] d[i]).1 > 0 by {
                assert(d[i] == c[i + 1]);
            }
        }
        law_scrolling_drops_columns(d, k - 1);
        lemma_cluster_text_first(c.take(k));
        assert(c.take(k).drop_first() =~= d.take(k - 1));
        assert(d.skip(k - 1) =~= c.skip(k));
        assert(c[0].1 > 0);
    }
}

/// A changed word stands out: it is bold, on the emphasis background of its
/// side. A word that did not change has the background of its row. Both keep
/// the color of the syntax, where code is colored.
pub proof fn law_changed_words_stand_out(b: Brush, sp: SpanV, kind: RowKind, bg: Option<Color>)
    requires
        kind == RowKind::Add || kind == RowKind::Remove,
    ensures
        ({
            let st = span_style(b, sp, kind, bg);
            let emph = if kind == RowKind::Add {
                b.shades.add_emph_bg
            } else {
                b.shades.remove_emph_bg
            };
            &&& sp.changed && emph is Some ==> st.bg == emph && st.attrs.bold
            &&& b.syntax && !(sp.changed && emph is Some) ==> st.bg == bg && !st.attrs.bold
            &&& b.syntax && sp.fg is Some ==> st.fg == sp.fg
            &&& !b.syntax && kind == RowKind::Add ==> st.fg == b.shades.add.fg
            &&& !b.syntax && kind == RowKind::Remove ==> st.fg == b.shades.remove.fg
        }),
{
}

/// A context line has no emphasis, whatever its words are marked as.
pub proof fn law_context_is_not_emphasised(b: Brush, sp: SpanV, bg: Option<Color>)
    ensures
        span_style(b, sp, RowKind::Context, bg) == span_style(
            b,
            SpanV { changed: !sp.changed, ..sp },
            RowKind::Context,
            bg,
        ),
        b.syntax && sp.fg is Some ==> span_style(b, sp, RowKind::Context, bg).fg == sp.fg,
        !b.syntax ==> span_style(b, sp, RowKind::Context, bg).fg == b.shades.context.fg,
{
}

/// Behind the sign of a row of code its text is drawn, from the first column
/// that is not scrolled out to the end of the box.
pub proof fn law_text_stands_behind_the_sign(b: Brush, r: RowV, s: Slot, bg: Option<Color>, gut: Gut)
    requires
        s.width > 0,
        r.kind == RowKind::Add || r.kind == RowKind::Remove || r.kind == RowKind::Context,
    ensures
        ({
            let d = drawn_row(b, r, s, bg, gut);
            let w: int = if !b.line_numbers {
                0
            } else if gut == Gut::Both {
                9
            } else {
                5
            };
            let k = (if bg is Some {
                1int
            } else {
                0
            }) + (if b.line_numbers {
                1int
            } else {
                0
            });
            &&& d.len() > k
            &&& d[k].x == s.x + w
            &&& d.skip(k + 1) == drawn_spans(
                b,
                r.spans,
                r.kind,
                bg,
                s.x + w + 1,
                s.x + s.width,
                s.y as int,
                b.pan as nat,
            )
            &&& bg is Some ==> d[0].style.bg == bg && d[0].x == s.x && d[0].text == text::copies(
                ' ',
                s.width as nat,
            )
        }),
{
    reveal(drawn_row);
    let d = drawn_row(b, r, s, bg, gut);
    let k = (if bg is Some {
        1int
    } else {
        0
    }) + (if b.line_numbers {
        1int
    } else {
        0
    });
    let spans = drawn_spans(
        b,
        r.spans,
        r.kind,
        bg,
        s.x + gutter_cols(b, gut) + 1,
        s.x + s.width,
        s.y as int,
        b.pan as nat,
    );
    assert(d.skip(k + 1) =~= spans);
}

/// A header or note shows its text behind the columns of the numbers, as much
/// as the box is wide.
pub proof fn law_headers_show_their_text(b: Brush, r: RowV, s: Slot, bg: Option<Color>, gut: Gut)
    requires
        s.width > 0,
        r.kind == RowKind::Hunk || r.kind == RowKind::Note,
        r.spans.len() == 1,
    ensures
        ({
            let d = drawn_row(b, r, s, bg, gut);
            let w: int = if !b.line_numbers {
                0
            } else if gut == Gut::Both {
                9
            } else {
                5
            };
            let p = d.last();
            &&& d.len() > 0
            &&& p.x == s.x + w
            &&& p.y == s.y
            &&& p.text == cells::fit_text(
                cells::graphemes(rows::span_text(r.spans), b.metrics),
                s.width as nat,
            )
            &&& r.kind == RowKind::Hunk ==> p.style.fg == b.shades.header.fg
            &&& r.kind == RowKind::Note ==> p.style.fg == b.shades.context.fg && p.style.attrs.faint
        }),
{
    reveal(drawn_row);
    lemma_span_text_first(r.spans);
    assert(r.spans.drop_first() =~= Seq::<SpanV>::empty());
    assert(rows::span_text(r.spans) =~= r.spans[0].text);
}

/// The first span of a row starts at its column and is clipped at the end of
/// the box; the next one starts where it ends.
pub proof fn law_spans_follow_each_other(
    b: Brush,
    v: Seq<SpanV>,
    kind: RowKind,
    bg: Option<Color>,
    cx: int,
    end: int,
    y: int,
)
    requires
        v.len() > 0,
        cx < end,
    ensures
        ({
            let c = cells::graphemes(v[0].text, b.metrics);
            let room = (end - cx) as nat;
            let d = drawn_spans(b, v, kind, bg, cx, end, y, 0);
            cells::fit_text(c, room).len() > 0 ==> {
                &&& d.len() > 0
                &&& d[0].x == cx && d[0].y == y && d[0].text == cells::fit_text(c, room)
                &&& d[0].style == span_style(b, v[0], kind, bg)
                &&& d.drop_first() == drawn_spans(
                    b,
                    v.drop_first(),
                    kind,
                    bg,
                    cx + cells::fit_width(c, room),
                    end,
                    y,
                    0,
                )
            }
        }),
{
    let c = cells::graphemes(v[0].text, b.metrics);
    let room = (end - cx) as nat;
    let d = drawn_spans(b, v, kind, bg, cx, end, y, 0);
    assert(skip_left(v[0].text, 0, b.metrics) == 0);
    let rest = drawn_spans(
        b,
        v.drop_first(),
        kind,
        bg,
        cx + cells::fit_width(c, room),
        end,
        y,
        0,
    );
    if cells::fit_text(c, room).len() > 0 {
        assert(d.drop_first() =~= rest);
    }
}

/// The sign of an added or removed line is bold, in the color of its side, and
/// the line numbers have theirs.
pub proof fn law_signs_have_their_colors(b: Brush, r: RowV, s: Slot, bg: Option<Color>, gut: Gut)
    requires
        s.width > 0,
        b.line_numbers,
        bg is None,
        r.kind == RowKind::Add || r.kind == RowKind::Remove || r.kind == RowKind::Context,
    ensures
        ({
            let d = drawn_row(b, r, s, bg, gut);
            &&& d.len() >= 2
            &&& d[0].style == b.shades.line_number
            &&& r.kind == RowKind::Add ==> d[1].style.fg == b.shades.add.fg && d[1].style.attrs.bold
            &&& r.kind == RowKind::Remove ==> d[1].style.fg == b.shades.remove.fg
                && d[1].style.attrs.bold
            &&& r.kind == RowKind::Context ==> d[1].style == b.shades.context
        }),
{
    reveal(drawn_row);
}

/// A span that is scrolled out whole is not drawn, and the next one is
/// scrolled by what is left; a span that is scrolled in part starts at the
/// first column of the row.
pub proof fn law_scrolling_passes_over_spans(
    b: Brush,
    v: Seq<SpanV>,
    kind: RowKind,
    bg: Option<Color>,
    cx: int,
    end: int,
    y: int,
    skip: nat,
)
    requires
        v.len() > 0,
        cx < end,
        skip > 0,
    ensures
        ({
            let m = b.metrics;
            let c = cells::graphemes(v[0].text, m);
            let w = cells::cluster_width(c);
            let rest = without_cols(c, skip);
            let g = cells::graphemes(rest, m);
            let room = (end - cx) as nat;
            let d = drawn_spans(b, v, kind, bg, cx, end, y, skip);
            &&& skip >= w && cells::all_wide(c) && cells::graphemes(Seq::empty(), m).len() == 0
                ==> d == drawn_spans(
                b,
                v.drop_first(),
                kind,
                bg,
                cx,
                end,
                y,
                (skip - w) as nat,
            )
            &&& skip < w && cells::fit_text(g, room).len() > 0 ==> d.len() > 0 && d[0].x == cx
                && d[0].text == cells::fit_text(g, room) && d.drop_first() == drawn_spans(
                b,
                v.drop_first(),
                kind,
                bg,
                cx + cells::fit_width(g, room),
                end,
                y,
                0,
            )
        }),
{
    let m = b.metrics;
    let c = cells::graphemes(v[0].text, m);
    let w = cells::cluster_width(c);
    let g = cells::graphemes(without_cols(c, skip), m);
    let room = (end - cx) as nat;
    let d = drawn_spans(b, v, kind, bg, cx, end, y, skip);
    if skip >= w && cells::all_wide(c) && cells::graphemes(Seq::empty(), m).len() == 0 {
        law_scrolled_out_is_gone(c, skip);
        assert(g.len() == 0);
        assert(g.take(cells::fit_count(g, room) as int) =~= g) by {
            cells::law_fit_is_longest(g, room, 0);
        }
        assert(cells::fit_text(g, room) =~= Seq::<char>::empty());
    }
    if skip < w && cells::fit_text(g, room).len() > 0 {
        assert(skip_left(v[0].text, skip, m) == 0);
        assert(d.drop_first() =~= drawn_spans(
            b,
            v.drop_first(),
            kind,
            bg,
            cx + cells::fit_width(g, room),
            end,
            y,
            0,
        ));
    }
}

} // verus!
