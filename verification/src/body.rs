//! Drawing the diff body: unified, or side by side in two panes.
use crate::draw;
use crate::draw::{Brush, Put, PutV, Slot};
use crate::geometry;
use crate::geometry::Gut;
use crate::palette::Color;
use crate::rows;
use crate::rows::{Row, RowKind, RowV};
use crate::text;
use vstd::prelude::*;

verus! {

/// The place of the diff body and what it shows.
#[derive(Debug, Clone, Copy)]
pub struct Body {
    pub x: u16,
    pub width: u16,
    /// The rows of the body.
    pub height: u16,
    /// The first row to show.
    pub scroll: usize,
    /// The row to mark, if any.
    pub cursor: Option<usize>,
}

impl Body {
    /// The mark of a row: the cursor's background.
    pub open spec fn mark(&self, b: Brush, idx: int) -> Option<Color> {
        if self.cursor is Some && self.cursor->0 == idx {
            Some(b.shades.cursor_bg)
        } else {
            None
        }
    }

    fn mark_of(&self, b: &Brush, idx: usize) -> (r: Option<Color>)
        ensures
            r == self.mark(*b, idx as int),
    {
        match self.cursor {
            Some(c) => if c == idx {
                Some(b.shades.cursor_bg)
            } else {
                None
            },
            None => None,
        }
    }
}

/// The background of a row: the cursor's wins, otherwise added and removed
/// lines and headers have their own.
pub open spec fn row_bg(b: Brush, kind: RowKind, mark: Option<Color>) -> Option<Color> {
    if mark is Some {
        mark
    } else {
        match kind {
            RowKind::Add => b.shades.add_line_bg,
            RowKind::Remove => b.shades.remove_line_bg,
            RowKind::Hunk => b.shades.header_bg,
            _ => None,
        }
    }
}

fn pick_bg(b: &Brush, kind: RowKind, mark: Option<Color>) -> (r: Option<Color>)
    ensures
        r == row_bg(*b, kind, mark),
{
    if mark.is_some() {
        return mark;
    }
    match kind {
        RowKind::Add => b.shades.add_line_bg,
        RowKind::Remove => b.shades.remove_line_bg,
        RowKind::Hunk => b.shades.header_bg,
        _ => None,
    }
}

/// The first `n` rows of the body in the unified view.
pub open spec fn unified(b: Brush, v: Seq<RowV>, o: Body, n: nat) -> Seq<PutV>
    decreases n,
{
    if n == 0 {
        Seq::empty()
    } else {
        let k = n - 1;
        let idx = o.scroll + k;
        unified(b, v, o, k as nat) + if idx < v.len() {
            draw::drawn_row(
                b,
                v[idx],
                Slot { x: o.x, y: k as u16, width: o.width },
                row_bg(b, v[idx].kind, o.mark(b, idx)),
                Gut::Both,
            )
        } else {
            Seq::empty()
        }
    }
}

proof fn lemma_unified_end(b: Brush, v: Seq<RowV>, o: Body, k: nat, n: nat)
    requires
        k <= n,
        o.scroll + k >= v.len(),
    ensures
        unified(b, v, o, n) == unified(b, v, o, k),
    decreases n,
{
    if k < n {
        lemma_unified_end(b, v, o, k, (n - 1) as nat);
        assert(unified(b, v, o, (n - 1) as nat) + Seq::<PutV>::empty() =~= unified(
            b,
            v,
            o,
            (n - 1) as nat,
        ));
    }
}

/// Draw the body in the unified view.
pub fn render_diff(out: &mut Vec<Put>, b: &Brush, v: &Vec<Row>, o: Body)
    ensures
        draw::put_views(final(out)@) == draw::put_views(old(out)@) + unified(
            *b,
            rows::row_views(v@),
            o,
            o.height as nat,
        ),
{
    let ghost rv = rows::row_views(v@);
    let ghost before = draw::put_views(out@);
    let mut k: u16 = 0;
    assert(before + unified(*b, rv, o, 0) =~= before);
    while k < o.height && o.scroll < v.len() && (k as usize) < v.len() - o.scroll
        invariant
            rv == rows::row_views(v@),
            k <= o.height,
            draw::put_views(out@) == before + unified(*b, rv, o, k as nat),
        decreases o.height - k,
    {
        let idx: usize = o.scroll + k as usize;
        assert(rv[idx as int] == v@[idx as int]@);
        let bg = pick_bg(b, v[idx].kind, o.mark_of(b, idx));
        draw::draw_diff_row(out, b, &v[idx], Slot { x: o.x, y: k, width: o.width }, bg, Gut::Both);
        assert(draw::put_views(out@) =~= before + unified(*b, rv, o, (k + 1) as nat));
        k = k + 1;
    }
    proof {
        if k < o.height {
            lemma_unified_end(*b, rv, o, k as nat, o.height as nat);
        }
    }
}

/// The divider between the panes.
pub open spec fn divider(b: Brush, x: int, y: int, mark: Option<Color>) -> PutV {
    PutV {
        x,
        y,
        text: "│"@,
        style: match mark {
            Some(c) => b.shades.sidebar_border.with_bg(Some(c)),
            None => b.shades.sidebar_border,
        },
    }
}

/// `a`, or else `b`.
pub open spec fn either(a: Option<Color>, b: Option<Color>) -> Option<Color> {
    if a is Some {
        a
    } else {
        b
    }
}

fn first_of(a: Option<Color>, b: Option<Color>) -> (r: Option<Color>)
    ensures
        r == either(a, b),
{
    match a {
        Some(c) => Some(c),
        None => b,
    }
}

/// A row of the split view: headers and notes span both panes, old lines
/// stand on the left, new ones on the right, context on both. Where a line
/// exists on one side only, the other is hatched.
#[verifier::opaque]
pub open spec fn split_row(
    b: Brush,
    r: RowV,
    whole: Slot,
    left: Slot,
    right: Slot,
    mark: Option<Color>,
) -> Seq<PutV> {
    match r.kind {
        RowKind::Hunk => draw::drawn_row(b, r, whole, either(mark, b.shades.header_bg), Gut::Both),
        RowKind::Note => draw::drawn_row(b, r, whole, mark, Gut::Both),
        RowKind::Context => (draw::drawn_row(b, r, left, mark, Gut::Old) + draw::drawn_row(
            b,
            r,
            right,
            mark,
            Gut::New,
        )).push(divider(b, right.x - 1, whole.y as int, mark)),
        RowKind::Remove => (draw::drawn_row(
            b,
            r,
            left,
            either(mark, b.shades.remove_line_bg),
            Gut::Old,
        ) + draw::hatched(b, right, mark)).push(divider(b, right.x - 1, whole.y as int, mark)),
        RowKind::Add => (draw::hatched(b, left, mark) + draw::drawn_row(
            b,
            r,
            right,
            either(mark, b.shades.add_line_bg),
            Gut::New,
        )).push(divider(b, right.x - 1, whole.y as int, mark)),
    }
}

fn draw_split_row(
    out: &mut Vec<Put>,
    b: &Brush,
    r: &Row,
    whole: Slot,
    left: Slot,
    right: Slot,
    mark: Option<Color>,
)
    requires
        right.x > 0,
    ensures
        draw::put_views(final(out)@) == draw::put_views(old(out)@) + split_row(
            *b,
            r@,
            whole,
            left,
            right,
            mark,
        ),
{
    reveal(split_row);
    let ghost before = draw::put_views(out@);
    match r.kind {
        RowKind::Hunk => {
            draw::draw_diff_row(out, b, r, whole, first_of(mark, b.shades.header_bg), Gut::Both);
            return;
        },
        RowKind::Note => {
            draw::draw_diff_row(out, b, r, whole, mark, Gut::Both);
            return;
        },
        RowKind::Context => {
            draw::draw_diff_row(out, b, r, left, mark, Gut::Old);
            draw::draw_diff_row(out, b, r, right, mark, Gut::New);
        },
        RowKind::Remove => {
            let bg = first_of(mark, b.shades.remove_line_bg);
            draw::draw_diff_row(out, b, r, left, bg, Gut::Old);
            draw::fill_slash(out, b, right, mark);
        },
        RowKind::Add => {
            draw::fill_slash(out, b, left, mark);
            let bg = first_of(mark, b.shades.add_line_bg);
            draw::draw_diff_row(out, b, r, right, bg, Gut::New);
        },
    }
    let st = match mark {
        Some(c) => b.shades.sidebar_border.bg(Some(c)),
        None => b.shades.sidebar_border,
    };
    draw::put(out, right.x as u32 - 1, whole.y as u32, "│".to_owned(), st);
    assert(draw::put_views(out@) =~= before + split_row(*b, r@, whole, left, right, mark));
}

/// The first `n` rows of the body in the split view, the left pane `left_w`
/// columns wide.
pub open spec fn two_panes(b: Brush, v: Seq<RowV>, o: Body, left_w: int, n: nat) -> Seq<PutV>
    decreases n,
{
    if n == 0 {
        Seq::empty()
    } else {
        let k = n - 1;
        let idx = o.scroll + k;
        two_panes(b, v, o, left_w, k as nat) + if idx < v.len() {
            split_row(
                b,
                v[idx],
                Slot { x: o.x, y: k as u16, width: o.width },
                Slot { x: o.x, y: k as u16, width: left_w as u16 },
                Slot {
                    x: (o.x + left_w + 1) as u16,
                    y: k as u16,
                    width: (o.width - left_w - 1) as u16,
                },
                o.mark(b, idx),
            )
        } else {
            Seq::empty()
        }
    }
}

proof fn lemma_panes_end(b: Brush, v: Seq<RowV>, o: Body, left_w: int, k: nat, n: nat)
    requires
        k <= n,
        o.scroll + k >= v.len(),
    ensures
        two_panes(b, v, o, left_w, n) == two_panes(b, v, o, left_w, k),
    decreases n,
{
    if k < n {
        lemma_panes_end(b, v, o, left_w, k, (n - 1) as nat);
        let before = two_panes(b, v, o, left_w, (n - 1) as nat);
        assert(before + Seq::<PutV>::empty() =~= before);
    }
}

/// Side-by-side rendering: old lines on the left pane, new on the right,
/// context on both, with a divider column. A body under 5 columns is drawn
/// unified.
pub fn render_split(out: &mut Vec<Put>, b: &Brush, v: &Vec<Row>, o: Body, share: u16)
    requires
        o.x + o.width <= 0xffff,
    ensures
        draw::put_views(final(out)@) == draw::put_views(old(out)@) + if o.width < 5 {
            unified(*b, rows::row_views(v@), o, o.height as nat)
        } else {
            two_panes(
                *b,
                rows::row_views(v@),
                o,
                geometry::left_share(o.width as int, share as int),
                o.height as nat,
            )
        },
{
    if o.width < 5 {
        render_diff(out, b, v, o);
        return;
    }
    let left_w = geometry::clamp(share, 2, o.width - 3);
    let ghost lw = geometry::left_share(o.width as int, share as int);
    let ghost rv = rows::row_views(v@);
    let ghost before = draw::put_views(out@);
    let mut k: u16 = 0;
    assert(before + two_panes(*b, rv, o, lw, 0) =~= before);
    while k < o.height && o.scroll < v.len() && (k as usize) < v.len() - o.scroll
        invariant
            rv == rows::row_views(v@),
            k <= o.height,
            o.width >= 5,
            o.x + o.width <= 0xffff,
            left_w == lw,
            2 <= left_w <= o.width - 3,
            draw::put_views(out@) == before + two_panes(*b, rv, o, lw, k as nat),
        decreases o.height - k,
    {
        let idx: usize = o.scroll + k as usize;
        assert(rv[idx as int] == v@[idx as int]@);
        let whole = Slot { x: o.x, y: k, width: o.width };
        let left = Slot { x: o.x, y: k, width: left_w };
        let right = Slot { x: o.x + left_w + 1, y: k, width: o.width - left_w - 1 };
        draw_split_row(out, b, &v[idx], whole, left, right, o.mark_of(b, idx));
        assert(draw::put_views(out@) =~= before + two_panes(*b, rv, o, lw, (k + 1) as nat));
        k = k + 1;
    }
    proof {
        if k < o.height {
            lemma_panes_end(*b, rv, o, lw, k as nat, o.height as nat);
        }
    }
}

/// The unified body keeps to its rows, so it never runs into the footer.
pub proof fn law_unified_keeps_to_its_rows(b: Brush, v: Seq<RowV>, o: Body, n: nat)
    requires
        n <= 0xffff,
    ensures
        forall|i: int|
            0 <= i < unified(b, v, o, n).len() ==> 0 <= (#[trigger] unified(b, v, o, n)[i]).y < n,
    decreases n,
{
    if n > 0 {
        let k = (n - 1) as nat;
        law_unified_keeps_to_its_rows(b, v, o, k);
        let idx = o.scroll + k;
        if idx < v.len() {
            draw::law_row_stands_on_its_line(
                b,
                v[idx],
                Slot { x: o.x, y: k as u16, width: o.width },
                row_bg(b, v[idx].kind, o.mark(b, idx)),
                Gut::Both,
            );
        }
        let before = unified(b, v, o, k);
        let all = unified(b, v, o, n);
        assert forall|i: int| 0 <= i < all.len() implies 0 <= (#[trigger] all[i]).y < n by {
            if i < before.len() {
                assert(all[i] == before[i]);
            } else {
                let row = draw::drawn_row(
                    b,
                    v[idx],
                    Slot { x: o.x, y: k as u16, width: o.width },
                    row_bg(b, v[idx].kind, o.mark(b, idx)),
                    Gut::Both,
                );
                assert(all[i] == row[i - before.len()]);
            }
        }
    }
}

/// All that is drawn of a row of the split view stands on its screen row.
proof fn lemma_split_row_line(
    b: Brush,
    r: RowV,
    whole: Slot,
    left: Slot,
    right: Slot,
    mark: Option<Color>,
)
    requires
        left.y == whole.y,
        right.y == whole.y,
    ensures
        forall|i: int|
            0 <= i < split_row(b, r, whole, left, right, mark).len() ==> (#[trigger] split_row(
                b,
                r,
                whole,
                left,
                right,
                mark,
            )[i]).y == whole.y,
{
    reveal(split_row);
    let h = either(mark, b.shades.header_bg);
    let d = either(mark, b.shades.remove_line_bg);
    let a = either(mark, b.shades.add_line_bg);
    draw::law_row_stands_on_its_line(b, r, whole, h, Gut::Both);
    draw::law_row_stands_on_its_line(b, r, whole, mark, Gut::Both);
    draw::law_row_stands_on_its_line(b, r, left, mark, Gut::Old);
    draw::law_row_stands_on_its_line(b, r, right, mark, Gut::New);
    draw::law_row_stands_on_its_line(b, r, left, d, Gut::Old);
    draw::law_row_stands_on_its_line(b, r, right, a, Gut::New);
    let t = split_row(b, r, whole, left, right, mark);
    assert forall|i: int| 0 <= i < t.len() implies (#[trigger] t[i]).y == whole.y by {
        let ol = draw::drawn_row(b, r, left, mark, Gut::Old);
        let nr = draw::drawn_row(b, r, right, mark, Gut::New);
        let or = draw::drawn_row(b, r, left, d, Gut::Old);
        let ar = draw::drawn_row(b, r, right, a, Gut::New);
        let hl = draw::hatched(b, left, mark);
        match r.kind {
            RowKind::Hunk => {
                assert(t[i] == draw::drawn_row(b, r, whole, h, Gut::Both)[i]);
            },
            RowKind::Note => {
                assert(t[i] == draw::drawn_row(b, r, whole, mark, Gut::Both)[i]);
            },
            RowKind::Context => {
                if i < ol.len() {
                    assert(t[i] == ol[i]);
                } else if i < ol.len() + nr.len() {
                    assert(t[i] == nr[i - ol.len()]);
                }
            },
            RowKind::Remove => {
                if i < or.len() {
                    assert(t[i] == or[i]);
                }
            },
            RowKind::Add => {
                if hl.len() <= i < hl.len() + ar.len() {
                    assert(t[i] == ar[i - hl.len()]);
                }
            },
        }
    }
}

/// What a pane holds of one side of a line: the line with its number, if that
/// side has the line, else a hatched half.
proof fn lemma_pane(b: Brush, r: RowV, s: Slot, bg: Option<Color>, gut: Gut)
    requires
        b.line_numbers,
        s.width > 0,
        r.kind == RowKind::Add || r.kind == RowKind::Remove || r.kind == RowKind::Context,
        gut == Gut::Old || gut == Gut::New,
    ensures
        ({
            let d = draw::drawn_row(b, r, s, bg, gut);
            let numbers = draw::in_four(
                if gut == Gut::Old {
                    r.old_no
                } else {
                    r.new_no
                },
            ) + " "@;
            &&& exists|i: int|
                0 <= i < d.len() && (#[trigger] d[i]).x == s.x && d[i].y == s.y && d[i].text
                    == numbers
            &&& forall|i: int|
                0 <= i < d.len() ==> s.x <= (#[trigger] d[i]).x && (d[i].x < s.x + 5 ==> d[i].text
                    == numbers || d[i].text == text::copies(' ', s.width as nat)) && (d[i].x < s.x
                    + s.width || d[i].x <= s.x + 5)
        }),
{
    draw::law_gutter_shows_line_numbers(b, r, s, bg, gut);
    reveal(draw::drawn_row);
    let d = draw::drawn_row(b, r, s, bg, gut);
    let cx = s.x + 5;
    draw::law_spans_stay_in_box(
        b,
        r.spans,
        r.kind,
        bg,
        cx + 1,
        s.x + s.width,
        s.y as int,
        b.pan as nat,
    );
    let spans = draw::drawn_spans(
        b,
        r.spans,
        r.kind,
        bg,
        cx + 1,
        s.x + s.width,
        s.y as int,
        b.pan as nat,
    );
    let k = draw::wash(s, bg).len() as int;
    assert forall|i: int| 0 <= i < d.len() implies s.x <= (#[trigger] d[i]).x && (d[i].x < s.x
        + s.width || d[i].x <= s.x + 5) by {
        if i >= k + 2 {
            assert(d[i] == spans[i - k - 2]);
        }
    }
}

/// A row of the split view shows the old number of its line in the left pane
/// and the new number in the right one, for context as for changed lines.
/// Where a side does not have the line, its pane is hatched and shows no
/// number.
#[verifier::rlimit(40)]
pub proof fn law_split_row_numbers(
    b: Brush,
    r: RowV,
    whole: Slot,
    left: Slot,
    right: Slot,
    mark: Option<Color>,
)
    requires
        b.line_numbers,
        r.kind == RowKind::Add || r.kind == RowKind::Remove || r.kind == RowKind::Context,
        left.y == whole.y,
        right.y == whole.y,
        left.width >= 6,
        right.width > 0,
        right.x == left.x + left.width + 1,
    ensures
        ({
            let t = split_row(b, r, whole, left, right, mark);
            let old = draw::in_four(r.old_no) + " "@;
            let new = draw::in_four(r.new_no) + " "@;
            &&& r.kind != RowKind::Add ==> exists|i: int|
                0 <= i < t.len() && (#[trigger] t[i]).x == left.x && t[i].y == whole.y && t[i].text
                    == old
            &&& r.kind != RowKind::Remove ==> exists|i: int|
                0 <= i < t.len() && (#[trigger] t[i]).x == right.x && t[i].y == whole.y && t[i].text
                    == new
            &&& forall|i: int|
                0 <= i < t.len() && left.x <= (#[trigger] t[i]).x < left.x + 5 ==> t[i].text
                    == text::copies(' ', left.width as nat) || t[i].text == if r.kind
                    == RowKind::Add {
                    text::copies('╱', left.width as nat)
                } else {
                    old
                }
            &&& forall|i: int|
                0 <= i < t.len() && right.x <= (#[trigger] t[i]).x < right.x + 5 ==> t[i].text
                    == text::copies(' ', right.width as nat) || t[i].text == if r.kind
                    == RowKind::Remove {
                    text::copies('╱', right.width as nat)
                } else {
                    new
                }
        }),
{
    reveal(split_row);
    let t = split_row(b, r, whole, left, right, mark);
    let d = either(mark, b.shades.remove_line_bg);
    let a = either(mark, b.shades.add_line_bg);
    match r.kind {
        RowKind::Context => {
            lemma_pane(b, r, left, mark, Gut::Old);
            lemma_pane(b, r, right, mark, Gut::New);
            let l = draw::drawn_row(b, r, left, mark, Gut::Old);
            let g = draw::drawn_row(b, r, right, mark, Gut::New);
            assert forall|i: int| 0 <= i < l.len() implies #[trigger] t[i] == l[i] by {}
            assert forall|i: int| 0 <= i < g.len() implies #[trigger] g[i] == t[i + l.len()] by {}
            assert forall|i: int| l.len() <= i < l.len() + g.len() implies #[trigger] t[i] == g[i
                - l.len()] by {}
            let i = choose|i: int|
                0 <= i < l.len() && (#[trigger] l[i]).x == left.x && l[i].y == left.y && l[i].text
                    == draw::in_four(r.old_no) + " "@;
            assert(t[i] == l[i]);
            let j = choose|j: int|
                0 <= j < g.len() && (#[trigger] g[j]).x == right.x && g[j].y == right.y && g[j].text
                    == draw::in_four(r.new_no) + " "@;
            assert(t[j + l.len()] == g[j]);
        },
        RowKind::Remove => {
            lemma_pane(b, r, left, d, Gut::Old);
            let l = draw::drawn_row(b, r, left, d, Gut::Old);
            assert forall|i: int| 0 <= i < l.len() implies #[trigger] t[i] == l[i] by {}
            let i = choose|i: int|
                0 <= i < l.len() && (#[trigger] l[i]).x == left.x && l[i].y == left.y && l[i].text
                    == draw::in_four(r.old_no) + " "@;
            assert(t[i] == l[i]);
        },
        RowKind::Add => {
            lemma_pane(b, r, right, a, Gut::New);
            let g = draw::drawn_row(b, r, right, a, Gut::New);
            let h = draw::hatched(b, left, mark);
            assert forall|i: int| h.len() <= i < h.len() + g.len() implies #[trigger] t[i] == g[i
                - h.len()] by {}
            let j = choose|j: int|
                0 <= j < g.len() && (#[trigger] g[j]).x == right.x && g[j].y == right.y && g[j].text
                    == draw::in_four(r.new_no) + " "@;
            assert(t[j + h.len()] == g[j]);
        },
        _ => {},
    }
}

/// The place of the right pane.
pub open spec fn right_slot(o: Body, left_w: int, k: int) -> Slot {
    Slot { x: (o.x + left_w + 1) as u16, y: k as u16, width: (o.width - left_w - 1) as u16 }
}

/// What stands on a screen row of the split view is the row of the file that
/// is so many rows below the top one.
proof fn lemma_panes_row(b: Brush, v: Seq<RowV>, o: Body, left_w: int, n: nat, k: int)
    requires
        0 <= k < n <= 0xffff,
        o.scroll + k < v.len(),
    ensures
        ({
            let all = two_panes(b, v, o, left_w, n);
            let row = split_row(
                b,
                v[o.scroll + k],
                Slot { x: o.x, y: k as u16, width: o.width },
                Slot { x: o.x, y: k as u16, width: left_w as u16 },
                right_slot(o, left_w, k),
                o.mark(b, o.scroll + k),
            );
            let at = two_panes(b, v, o, left_w, k as nat).len();
            &&& at + row.len() <= all.len()
            &&& all.subrange(at as int, (at + row.len()) as int) == row
            &&& forall|i: int|
                0 <= i < all.len() && (#[trigger] all[i]).y == k ==> at <= i < at + row.len()
        }),
    decreases n,
{
    let all = two_panes(b, v, o, left_w, n);
    let m = (n - 1) as nat;
    let before = two_panes(b, v, o, left_w, m);
    let idx = o.scroll + m;
    let last = if idx < v.len() {
        split_row(
            b,
            v[idx],
            Slot { x: o.x, y: m as u16, width: o.width },
            Slot { x: o.x, y: m as u16, width: left_w as u16 },
            right_slot(o, left_w, m as int),
            o.mark(b, idx),
        )
    } else {
        Seq::empty()
    };
    assert(all == before + last);
    if idx < v.len() {
        lemma_split_row_line(
            b,
            v[idx],
            Slot { x: o.x, y: m as u16, width: o.width },
            Slot { x: o.x, y: m as u16, width: left_w as u16 },
            right_slot(o, left_w, m as int),
            o.mark(b, idx),
        );
    }
    if k == m {
        lemma_panes_above(b, v, o, left_w, m);
        assert(all.subrange(before.len() as int, all.len() as int) =~= last);
        assert forall|i: int| 0 <= i < all.len() && (#[trigger] all[i]).y == k implies before.len()
            <= i by {
            if i < before.len() {
                assert(all[i] == before[i]);
            }
        }
    } else {
        lemma_panes_row(b, v, o, left_w, m, k);
        let at = two_panes(b, v, o, left_w, k as nat).len() as int;
        let row = split_row(
            b,
            v[o.scroll + k],
            Slot { x: o.x, y: k as u16, width: o.width },
            Slot { x: o.x, y: k as u16, width: left_w as u16 },
            right_slot(o, left_w, k),
            o.mark(b, o.scroll + k),
        );
        assert(all.subrange(at, at + row.len()) =~= before.subrange(at, at + row.len()));
        assert forall|i: int| 0 <= i < all.len() && (#[trigger] all[i]).y == k implies at <= i < at
            + row.len() by {
            if i < before.len() {
                assert(all[i] == before[i]);
            } else {
                assert(all[i] == last[i - before.len()]);
            }
        }
    }
}

proof fn lemma_panes_above(b: Brush, v: Seq<RowV>, o: Body, left_w: int, n: nat)
    requires
        n <= 0xffff,
    ensures
        forall|i: int|
            0 <= i < two_panes(b, v, o, left_w, n).len() ==> 0 <= (#[trigger] two_panes(
                b,
                v,
                o,
                left_w,
                n,
            )[i]).y < n,
    decreases n,
{
    if n > 0 {
        let m = (n - 1) as nat;
        lemma_panes_above(b, v, o, left_w, m);
        let idx = o.scroll + m;
        let before = two_panes(b, v, o, left_w, m);
        let all = two_panes(b, v, o, left_w, n);
        if idx < v.len() {
            lemma_split_row_line(
                b,
                v[idx],
                Slot { x: o.x, y: m as u16, width: o.width },
                Slot { x: o.x, y: m as u16, width: left_w as u16 },
                right_slot(o, left_w, m as int),
                o.mark(b, idx),
            );
        }
        assert forall|i: int| 0 <= i < all.len() implies 0 <= (#[trigger] all[i]).y < n by {
            if i < before.len() {
                assert(all[i] == before[i]);
            } else {
                let row = split_row(
                    b,
                    v[idx],
                    Slot { x: o.x, y: m as u16, width: o.width },
                    Slot { x: o.x, y: m as u16, width: left_w as u16 },
                    right_slot(o, left_w, m as int),
                    o.mark(b, idx),
                );
                assert(all[i] == row[i - before.len()]);
            }
        }
    }
}

/// In the split view, screen row `k` shows the row of the file that is `k`
/// rows below the top one. All that is painted in the gutter of its right
/// pane is the new number of the line, right-aligned to four columns, and in
/// the gutter of its left pane the old number, but for the background and the
/// hatching of a side that does not have the line.
pub proof fn law_split_view_numbers(b: Brush, v: Seq<RowV>, o: Body, left_w: int, n: nat, k: int)
    requires
        b.line_numbers,
        0 <= k < n <= 0xffff,
        o.scroll + k < v.len(),
        6 <= left_w <= o.width - 2,
        o.x + o.width <= 0xffff,
        v[o.scroll + k].kind != RowKind::Hunk,
        v[o.scroll + k].kind != RowKind::Note,
    ensures
        ({
            let r = v[o.scroll + k];
            let t = two_panes(b, v, o, left_w, n);
            let right_x = o.x + left_w + 1;
            let right_w = (o.width - left_w - 1) as nat;
            let old = draw::in_four(r.old_no) + " "@;
            let new = draw::in_four(r.new_no) + " "@;
            &&& r.kind != RowKind::Add ==> exists|i: int|
                0 <= i < t.len() && (#[trigger] t[i]).x == o.x && t[i].y == k && t[i].text == old
            &&& r.kind != RowKind::Remove ==> exists|i: int|
                0 <= i < t.len() && (#[trigger] t[i]).x == right_x && t[i].y == k && t[i].text
                    == new
            &&& forall|i: int|
                0 <= i < t.len() && (#[trigger] t[i]).y == k && o.x <= t[i].x < o.x + 5
                    ==> t[i].text == text::copies(' ', left_w as nat) || t[i].text == if r.kind
                    == RowKind::Add {
                    text::copies('╱', left_w as nat)
                } else {
                    old
                }
            &&& forall|i: int|
                0 <= i < t.len() && (#[trigger] t[i]).y == k && right_x <= t[i].x < right_x + 5
                    ==> t[i].text == text::copies(' ', right_w) || t[i].text == if r.kind
                    == RowKind::Remove {
                    text::copies('╱', right_w)
                } else {
                    new
                }
        }),
{
    let r = v[o.scroll + k];
    let t = two_panes(b, v, o, left_w, n);
    let whole = Slot { x: o.x, y: k as u16, width: o.width };
    let left = Slot { x: o.x, y: k as u16, width: left_w as u16 };
    let right = right_slot(o, left_w, k);
    let mark = o.mark(b, o.scroll + k);
    lemma_panes_row(b, v, o, left_w, n, k);
    law_split_row_numbers(b, r, whole, left, right, mark);
    let row = split_row(b, r, whole, left, right, mark);
    let at = two_panes(b, v, o, left_w, k as nat).len() as int;
    assert forall|i: int| 0 <= i < row.len() implies #[trigger] row[i] == t[at + i] by {
        assert(t.subrange(at, at + row.len())[i] == t[at + i]);
    }
    assert forall|i: int| at <= i < at + row.len() implies #[trigger] t[i] == row[i - at] by {
        assert(t.subrange(at, at + row.len())[i - at] == t[i]);
    }
    let old = draw::in_four(r.old_no) + " "@;
    let new = draw::in_four(r.new_no) + " "@;
    if r.kind != RowKind::Add {
        let i = choose|i: int|
            0 <= i < row.len() && (#[trigger] row[i]).x == left.x && row[i].y == whole.y
                && row[i].text == old;
        assert(t[at + i] == row[i]);
    }
    if r.kind != RowKind::Remove {
        let i = choose|i: int|
            0 <= i < row.len() && (#[trigger] row[i]).x == right.x && row[i].y == whole.y
                && row[i].text == new;
        assert(t[at + i] == row[i]);
    }
}

/// In the unified view, screen row `k` is the drawing of the row of the file
/// that is `k` rows below the top one, across the body and with both numbers.
/// Nothing else stands there. The cursor's background wins, else added and
/// removed lines have theirs.
pub proof fn law_unified_view_rows(b: Brush, v: Seq<RowV>, o: Body, n: nat, k: int) -> (at: int)
    requires
        0 <= k < n <= 0xffff,
        o.scroll + k < v.len(),
    ensures
        ({
            let r = v[o.scroll + k];
            let all = unified(b, v, o, n);
            let bg = if o.cursor == Some((o.scroll + k) as usize) && o.scroll + k <= usize::MAX {
                Some(b.shades.cursor_bg)
            } else if r.kind == RowKind::Add {
                b.shades.add_line_bg
            } else if r.kind == RowKind::Remove {
                b.shades.remove_line_bg
            } else if r.kind == RowKind::Hunk {
                b.shades.header_bg
            } else {
                None
            };
            let row = draw::drawn_row(
                b,
                r,
                Slot { x: o.x, y: k as u16, width: o.width },
                bg,
                Gut::Both,
            );
            &&& 0 <= at
            &&& at + row.len() <= all.len()
            &&& all.subrange(at, at + row.len()) == row
            &&& forall|i: int|
                0 <= i < all.len() && (#[trigger] all[i]).y == k ==> at <= i < at + row.len()
        }),
    decreases n,
{
    let all = unified(b, v, o, n);
    let m = (n - 1) as nat;
    let before = unified(b, v, o, m);
    let idx = o.scroll + m;
    let r = v[o.scroll + k];
    let row = draw::drawn_row(
        b,
        r,
        Slot { x: o.x, y: k as u16, width: o.width },
        row_bg(b, r.kind, o.mark(b, o.scroll + k)),
        Gut::Both,
    );
    law_unified_keeps_to_its_rows(b, v, o, m);
    if k == m {
        draw::law_row_stands_on_its_line(
            b,
            r,
            Slot { x: o.x, y: k as u16, width: o.width },
            row_bg(b, r.kind, o.mark(b, o.scroll + k)),
            Gut::Both,
        );
        assert(all.subrange(before.len() as int, all.len() as int) =~= row);
        assert forall|i: int| 0 <= i < all.len() && (#[trigger] all[i]).y == k implies before.len()
            <= i by {
            if i < before.len() {
                assert(all[i] == before[i]);
            }
        }
        before.len() as int
    } else {
        let at = law_unified_view_rows(b, v, o, m, k);
        if idx < v.len() {
            draw::law_row_stands_on_its_line(
                b,
                v[idx],
                Slot { x: o.x, y: m as u16, width: o.width },
                row_bg(b, v[idx].kind, o.mark(b, idx)),
                Gut::Both,
            );
        }
        assert(all.subrange(at, at + row.len()) =~= before.subrange(at, at + row.len()));
        assert forall|i: int| 0 <= i < all.len() && (#[trigger] all[i]).y == k implies at <= i < at
            + row.len() by {
            if i < before.len() {
                assert(all[i] == before[i]);
            } else {
                let last = draw::drawn_row(
                    b,
                    v[idx],
                    Slot { x: o.x, y: m as u16, width: o.width },
                    row_bg(b, v[idx].kind, o.mark(b, idx)),
                    Gut::Both,
                );
                assert(all[i] == last[i - before.len()]);
            }
        }
        at
    }
}

/// The parts of a row of the split view. A header or note spans both panes. Of
/// a code line the old side stands in the left pane and the new side in the
/// right, with the divider between them; a side that does not have the line is
/// hatched. The cursor's background wins in both panes.
pub proof fn law_split_row_parts(
    b: Brush,
    r: RowV,
    whole: Slot,
    left: Slot,
    right: Slot,
    mark: Option<Color>,
)
    requires
        left.width > 0,
        right.width > 0,
    ensures
        ({
            let t = split_row(b, r, whole, left, right, mark);
            let bg = |c: Option<Color>|
                if mark is Some {
                    mark
                } else {
                    c
                };
            let code = r.kind != RowKind::Hunk && r.kind != RowKind::Note;
            &&& r.kind == RowKind::Hunk ==> t == draw::drawn_row(
                b,
                r,
                whole,
                bg(b.shades.header_bg),
                Gut::Both,
            )
            &&& r.kind == RowKind::Note ==> t == draw::drawn_row(b, r, whole, mark, Gut::Both)
            &&& code ==> t.last().text == "│"@ && t.last().x == right.x - 1 && t.last().y
                == whole.y
            &&& r.kind == RowKind::Context ==> t.drop_last() == draw::drawn_row(
                b,
                r,
                left,
                mark,
                Gut::Old,
            ) + draw::drawn_row(b, r, right, mark, Gut::New)
            &&& r.kind == RowKind::Remove ==> t.drop_last().drop_last() == draw::drawn_row(
                b,
                r,
                left,
                bg(b.shades.remove_line_bg),
                Gut::Old,
            ) && t.drop_last().last().text == text::copies('╱', right.width as nat)
                && t.drop_last().last().x == right.x
            &&& r.kind == RowKind::Add ==> t.drop_last().skip(1) == draw::drawn_row(
                b,
                r,
                right,
                bg(b.shades.add_line_bg),
                Gut::New,
            ) && t[0].text == text::copies('╱', left.width as nat) && t[0].x == left.x
        }),
{
    reveal(split_row);
    let t = split_row(b, r, whole, left, right, mark);
    match r.kind {
        RowKind::Context => {
            assert(t.drop_last() =~= draw::drawn_row(b, r, left, mark, Gut::Old) + draw::drawn_row(
                b,
                r,
                right,
                mark,
                Gut::New,
            ));
        },
        RowKind::Remove => {
            assert(t.drop_last().drop_last() =~= draw::drawn_row(
                b,
                r,
                left,
                either(mark, b.shades.remove_line_bg),
                Gut::Old,
            ));
        },
        RowKind::Add => {
            assert(t.drop_last().skip(1) =~= draw::drawn_row(
                b,
                r,
                right,
                either(mark, b.shades.add_line_bg),
                Gut::New,
            ));
        },
        _ => {},
    }
}

/// The cursor is marked on its row, and on no other.
pub proof fn law_cursor_is_marked(b: Brush, o: Body, idx: int)
    ensures
        o.mark(b, idx) == if o.cursor is Some && o.cursor->0 == idx {
            Some(b.shades.cursor_bg)
        } else {
            None
        },
{
}

} // verus!
