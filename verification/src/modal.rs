//! Drawing the floating file list: names with a scaled bar of added and
//! removed lines.
use crate::cells;
use crate::cells::Metrics;
use crate::diff;
use crate::diff::FileDiff;
use crate::draw;
use crate::draw::{Put, PutV};
use crate::geometry;
use crate::list;
use crate::palette::Shades;
use crate::text;
use crate::tui::ModalHit;
use vstd::prelude::*;

verus! {

/// The columns of the widest path.
pub open spec fn widest_path(v: Seq<diff::FileV>, m: Metrics) -> nat
    decreases v.len(),
{
    if v.len() == 0 {
        0
    } else {
        let w = widest_path(v.drop_last(), m);
        let n = cells::text_width(v.last().path(), m);
        if n > w {
            n
        } else {
            w
        }
    }
}

/// How many lines a file changes.
pub open spec fn changes(f: diff::FileV) -> usize {
    let (a, d) = f.stats();
    diff::saturated((a + d) as nat)
}

/// The most lines that a file changes, at least 1.
pub open spec fn most_changes(v: Seq<diff::FileV>) -> usize
    decreases v.len(),
{
    if v.len() == 0 {
        1
    } else {
        let w = most_changes(v.drop_last());
        if changes(v.last()) > w {
            changes(v.last())
        } else {
            w
        }
    }
}

/// The length of a bar for `n` of at most `max` lines: in proportion, but
/// never gone for a line that exists.
pub open spec fn scaled(n: nat, bar: nat, max: nat) -> nat {
    if n == 0 {
        0
    } else if n * bar / max < 1 {
        1
    } else {
        n * bar / max
    }
}

proof fn lemma_scaled(n: nat, bar: nat, max: nat)
    requires
        n <= max,
        0 < max,
    ensures
        n * bar / max <= bar,
        scaled(n, bar, max) <= bar || (bar == 0 && scaled(n, bar, max) <= 1),
{
    assert(n * bar <= max * bar) by (nonlinear_arith)
        requires
            n <= max,
    ;
    vstd::arithmetic::div_mod::lemma_div_is_ordered(
        (n * bar) as int,
        (max * bar) as int,
        max as int,
    );
    vstd::arithmetic::div_mod::lemma_div_multiples_vanish(bar as int, max as int);
}

fn scale(n: usize, bar: usize, max: usize) -> (r: usize)
    requires
        n <= max,
        0 < max,
        bar <= 24,
    ensures
        r == scaled(n as nat, bar as nat, max as nat),
        r <= bar || r <= 1,
{
    if n == 0 {
        return 0;
    }
    proof {
        lemma_scaled(n as nat, bar as nat, max as nat);
    }
    assert(n * bar <= 24 * 0xffff_ffff_ffff_ffffu64) by (nonlinear_arith)
        requires
            n <= 0xffff_ffff_ffff_ffffu64,
            bar <= 24,
    ;
    let q: u128 = n as u128 * bar as u128 / max as u128;
    if q < 1 {
        1
    } else {
        q as usize
    }
}

/// The layout of the floating list.
#[derive(Debug, Clone, Copy, PartialEq, Eq, Structural)]
pub struct Plan {
    pub name_w: u16,
    pub bar_w: u16,
    pub inner_w: u16,
    pub list_h: u16,
    pub start: usize,
}

/// The summary line.
pub open spec fn summary_text(t: (nat, usize, usize)) -> Seq<char> {
    text::dec(t.0) + " files changed, "@ + text::dec(t.1 as nat) + " insertion(s)(+), "@ + text::dec(
        t.2 as nat,
    ) + " deletion(s)(-)"@
}

/// The layout of the list of some files on a screen of `w` columns and `h`
/// rows: as wide as its rows or its summary, as far as the screen goes, with
/// the selected file in view.
#[verifier::opaque]
pub open spec fn plan_of(v: Seq<diff::FileV>, selected: int, w: u16, h: u16, m: Metrics) -> Plan {
    let name_w = geometry::clamped(widest_path(v, m) as int, 10, w - 24);
    let bar_w = geometry::lesser(24, geometry::minus(w as int, name_w + 13));
    let list_w = name_w + 10 + bar_w;
    let summary_w = cells::text_width(summary_text(diff::totals_of(v)), m) as int;
    let inner_w = geometry::lesser(
        if list_w < summary_w {
            summary_w
        } else {
            list_w
        },
        w - 2,
    );
    let room = geometry::minus(h as int, 6);
    let list_h = geometry::lesser(
        v.len() as int,
        if room < 1 {
            1
        } else {
            room
        },
    );
    Plan {
        name_w: name_w as u16,
        bar_w: bar_w as u16,
        inner_w: inner_w as u16,
        list_h: list_h as u16,
        start: geometry::minus(selected, list_h - 1) as usize,
    }
}

/// The rows of a plan leave room for the counts and the bars beside the names.
pub open spec fn roomy(p: Plan, w: u16, h: u16) -> bool {
    &&& 10 <= p.name_w
    &&& p.bar_w <= 24
    &&& p.bar_w + 20 <= p.inner_w <= w - 2
    &&& 1 <= p.list_h
    &&& p.list_h + 6 <= h || p.list_h == 1
}

fn widest_of(v: &Vec<FileDiff>, m: Metrics) -> (r: u16)
    ensures
        r == widest_path(diff::file_views(v@), m),
{
    let ghost fv = diff::file_views(v@);
    let mut w: u16 = 0;
    for i in 0..v.len()
        invariant
            fv == diff::file_views(v@),
            w == widest_path(fv.take(i as int), m),
    {
        assert(fv.take(i as int + 1).drop_last() =~= fv.take(i as int));
        assert(fv[i as int] == v@[i as int]@);
        let n = cells::str_width(v[i].path(), m);
        if n > w {
            w = n;
        }
    }
    assert(fv.take(fv.len() as int) =~= fv);
    w
}

fn most_of(v: &Vec<FileDiff>) -> (r: usize)
    ensures
        r == most_changes(diff::file_views(v@)),
        r >= 1,
        forall|i: int| 0 <= i < v@.len() ==> changes(#[trigger] v@[i]@) <= r,
{
    let ghost fv = diff::file_views(v@);
    let mut w: usize = 1;
    for i in 0..v.len()
        invariant
            fv == diff::file_views(v@),
            w == most_changes(fv.take(i as int)),
            w >= 1,
            forall|j: int| 0 <= j < i ==> changes(#[trigger] v@[j]@) <= w,
    {
        assert(fv.take(i as int + 1).drop_last() =~= fv.take(i as int));
        assert(fv[i as int] == v@[i as int]@);
        let (a, d) = v[i].stats();
        let n = a.saturating_add(d);
        if n > w {
            w = n;
        }
    }
    assert(fv.take(fv.len() as int) =~= fv);
    w
}

fn summary(t: (usize, usize, usize)) -> (r: String)
    ensures
        r@ == summary_text((t.0 as nat, t.1, t.2)),
{
    let mut s = text::decimal(t.0);
    s.push_str(" files changed, ");
    s.push_str(text::decimal(t.1).as_str());
    s.push_str(" insertion(s)(+), ");
    s.push_str(text::decimal(t.2).as_str());
    s.push_str(" deletion(s)(-)");
    s
}

/// Lay the list out.
pub fn plan(v: &Vec<FileDiff>, selected: usize, w: u16, h: u16, m: Metrics) -> (r: Plan)
    requires
        w >= 34,
        v@.len() > 0,
    ensures
        r == plan_of(diff::file_views(v@), selected as int, w, h, m),
        roomy(r, w, h),
        r.list_h <= v@.len(),
        r.start == geometry::minus(selected as int, r.list_h - 1),
{
    reveal(plan_of);
    assert(diff::file_views(v@).len() == v@.len());
    let name_w = geometry::clamp(widest_of(v, m), 10, w - 24);
    let spare: u16 = w - name_w;
    let spare = spare.saturating_sub(13);
    let bar_w: u16 = if 24 < spare {
        24
    } else {
        spare
    };
    let list_w: u32 = name_w as u32 + 10 + bar_w as u32;
    let sum_w = cells::str_width(summary(diff::totals(v)).as_str(), m) as u32;
    let want: u32 = if list_w < sum_w {
        sum_w
    } else {
        list_w
    };
    let max: u32 = (w - 2) as u32;
    let inner_w: u16 = if want < max {
        want as u16
    } else {
        w - 2
    };
    let room = h.saturating_sub(6);
    let room: u16 = if room < 1 {
        1
    } else {
        room
    };
    let list_h: u16 = if v.len() < room as usize {
        v.len() as u16
    } else {
        room
    };
    let start = selected.saturating_sub((list_h - 1) as usize);
    Plan { name_w, bar_w, inner_w, list_h, start }
}

/// One row of the list: the name at the left; the count and the bar flush to
/// the right edge.
#[verifier::opaque]
pub open spec fn bar_row(
    f: diff::FileV,
    selected: bool,
    p: Plan,
    max: usize,
    ix: int,
    y: int,
    m: Metrics,
    s: Shades,
) -> Seq<PutV> {
    let (a, d) = f.stats();
    let name = list::shortened(f.path(), p.name_w as int, m);
    let pad = geometry::minus(p.name_w as int, cells::text_width(name, m) as int);
    let ap = scaled(a as nat, p.bar_w as nat, max as nat);
    let dp = geometry::lesser(
        scaled(d as nat, p.bar_w as nat, max as nat) as int,
        geometry::minus(p.bar_w as int, ap as int),
    );
    let right = ix + p.inner_w;
    seq![
        PutV {
            x: ix,
            y,
            text: list::marker(selected) + name + text::copies(' ', pad as nat),
            style: list::name_style(s, selected),
        },
        PutV {
            x: right - p.bar_w - 6,
            y,
            text: text::right_aligned(text::dec(changes(f) as nat), 5),
            style: s.dialog,
        },
        PutV {
            x: right - (ap + dp),
            y,
            text: text::copies('+', ap),
            style: s.dialog.with_fg(s.add.fg),
        },
        PutV {
            x: right - dp,
            y,
            text: text::copies('-', dp as nat),
            style: s.dialog.with_fg(s.remove.fg),
        },
    ]
}

fn draw_bar_row(
    out: &mut Vec<Put>,
    f: &FileDiff,
    selected: bool,
    p: Plan,
    max: usize,
    ix: u16,
    y: u32,
    m: Metrics,
    s: &Shades,
)
    requires
        p.bar_w <= 24,
        p.bar_w + 20 <= p.inner_w,
        changes(f@) <= max,
        0 < max,
        p.bar_w == 0 ==> p.inner_w >= 2,
    ensures
        draw::put_views(final(out)@) == draw::put_views(old(out)@) + bar_row(
            f@,
            selected,
            p,
            max,
            ix as int,
            y as int,
            m,
            *s,
        ),
{
    reveal(bar_row);
    let ghost before = draw::put_views(out@);
    let (a, d) = f.stats();
    let name = cells::shorten(f.path(), p.name_w, m);
    let pad = p.name_w.saturating_sub(cells::str_width(name.as_str(), m));
    let mut t = list::mark(selected);
    t.push_str(name.as_str());
    t.push_str(text::repeat(' ', pad as usize).as_str());
    let st = if selected {
        s.dialog.bold()
    } else {
        s.dialog
    };
    draw::put(out, ix as u32, y, t, st);
    let ap = scale(a, p.bar_w as usize, max);
    let dp = scale(d, p.bar_w as usize, max);
    let room = (p.bar_w as usize).saturating_sub(ap);
    let dp: usize = if dp < room {
        dp
    } else {
        room
    };
    let right: u32 = ix as u32 + p.inner_w as u32;
    let n = text::decimal(a.saturating_add(d));
    draw::put(out, right - p.bar_w as u32 - 6, y, text::align_right(n.as_str(), 5), s.dialog);
    draw::put(out, right - (ap + dp) as u32, y, text::repeat('+', ap), s.dialog.fg(s.add.fg));
    draw::put(out, right - dp as u32, y, text::repeat('-', dp), s.dialog.fg(s.remove.fg));
    assert(draw::put_views(out@) =~= before + bar_row(
        f@,
        selected,
        p,
        max,
        ix as int,
        y as int,
        m,
        *s,
    ));
}

/// The first `n` rows of the list.
pub open spec fn bar_rows(
    v: Seq<diff::FileV>,
    selected: int,
    p: Plan,
    ix: int,
    iy: int,
    m: Metrics,
    s: Shades,
    n: nat,
) -> Seq<PutV>
    decreases n,
{
    if n == 0 {
        Seq::empty()
    } else {
        let idx = p.start + n - 1;
        bar_rows(v, selected, p, ix, iy, m, s, (n - 1) as nat) + if idx < v.len() {
            bar_row(v[idx], idx == selected, p, most_changes(v), ix, iy + n - 1, m, s)
        } else {
            Seq::empty()
        }
    }
}

/// The floating list, and where it is.
#[verifier::opaque]
pub open spec fn modal_drawn(
    v: Seq<diff::FileV>,
    selected: int,
    w: u16,
    h: u16,
    pos: Option<(u16, u16)>,
    m: Metrics,
    s: Shades,
) -> Seq<PutV> {
    if v.len() == 0 {
        let b = list::box_for(24, 1, w, h, pos);
        list::boxed(b, s).push(
            PutV { x: b.x + 1, y: b.y + 1, text: "no changes"@, style: s.dialog },
        )
    } else {
        let p = plan_of(v, selected, w, h, m);
        let b = list::box_for(p.inner_w as int, p.list_h + 2, w, h, pos);
        (list::boxed(b, s) + bar_rows(
            v,
            selected,
            p,
            b.x + 1,
            b.y + 1,
            m,
            s,
            p.list_h as nat,
        )).push(
            PutV {
                x: b.x + 1,
                y: b.y + p.list_h + 2,
                text: cells::fit_text(
                    cells::graphemes(summary_text(diff::totals_of(v)), m),
                    p.inner_w as nat,
                ),
                style: s.dialog.with_bold(),
            },
        )
    }
}

/// Where a click meets the floating list.
#[verifier::opaque]
pub open spec fn modal_place(
    v: Seq<diff::FileV>,
    selected: int,
    w: u16,
    h: u16,
    pos: Option<(u16, u16)>,
    m: Metrics,
) -> Option<ModalHit> {
    if v.len() == 0 {
        None
    } else {
        let p = plan_of(v, selected, w, h, m);
        let b = list::box_for(p.inner_w as int, p.list_h + 2, w, h, pos);
        Some(
            ModalHit {
                x0: b.x,
                y0: b.y,
                x1: (b.x + p.inner_w + 2) as u16,
                y1: (b.y + p.list_h + 4) as u16,
                list_y: (b.y + 1) as u16,
                list_h: p.list_h as usize,
                start: p.start,
            },
        )
    }
}

fn draw_bars(
    out: &mut Vec<Put>,
    v: &Vec<FileDiff>,
    selected: usize,
    p: Plan,
    ix: u16,
    iy: u16,
    m: Metrics,
    s: &Shades,
)
    requires
        p.bar_w <= 24,
        p.bar_w + 20 <= p.inner_w,
        p.start <= v@.len(),
    ensures
        draw::put_views(final(out)@) == draw::put_views(old(out)@) + bar_rows(
            diff::file_views(v@),
            selected as int,
            p,
            ix as int,
            iy as int,
            m,
            *s,
            p.list_h as nat,
        ),
{
    let ghost fv = diff::file_views(v@);
    let ghost before = draw::put_views(out@);
    let max = most_of(v);
    assert(before + bar_rows(fv, selected as int, p, ix as int, iy as int, m, *s, 0) =~= before);
    for k in 0..p.list_h
        invariant
            fv == diff::file_views(v@),
            p.bar_w <= 24,
            p.bar_w + 20 <= p.inner_w,
            p.start <= v@.len(),
            max == most_changes(fv),
            max >= 1,
            forall|i: int| 0 <= i < v@.len() ==> changes(#[trigger] v@[i]@) <= max,
            draw::put_views(out@) == before + bar_rows(
                fv,
                selected as int,
                p,
                ix as int,
                iy as int,
                m,
                *s,
                k as nat,
            ),
    {
        let n = v.len();
        if (k as usize) < n - p.start {
            let idx: usize = p.start + k as usize;
            assert(fv[idx as int] == v@[idx as int]@);
            draw_bar_row(
                out,
                &v[idx],
                idx == selected,
                p,
                max,
                ix,
                iy as u32 + k as u32,
                m,
                s,
            );
        }
        assert(draw::put_views(out@) =~= before + bar_rows(
            fv,
            selected as int,
            p,
            ix as int,
            iy as int,
            m,
            *s,
            (k + 1) as nat,
        ));
    }
}

/// Draw the modal diffstat: file names with a scaled, colored +/- bar,
/// floating over the diff. Returns where a click meets it.
pub fn render_stat_modal(
    out: &mut Vec<Put>,
    v: &Vec<FileDiff>,
    selected: usize,
    w: u16,
    h: u16,
    pos: Option<(u16, u16)>,
    m: Metrics,
    s: &Shades,
) -> (r: Option<ModalHit>)
    requires
        w >= 2,
        h >= 2,
        v@.len() > 0 ==> w >= 34,
        selected < v@.len() || selected == 0,
    ensures
        draw::put_views(final(out)@) == draw::put_views(old(out)@) + modal_drawn(
            diff::file_views(v@),
            selected as int,
            w,
            h,
            pos,
            m,
            *s,
        ),
        r == modal_place(diff::file_views(v@), selected as int, w, h, pos, m),
{
    reveal(modal_drawn);
    reveal(modal_place);
    let ghost fv = diff::file_views(v@);
    assert(fv.len() == v@.len());
    let ghost before = draw::put_views(out@);
    if v.len() == 0 {
        let b = list::draw_box(out, 24, 1, w, h, pos, s);
        draw::put(out, b.x as u32 + 1, b.y as u32 + 1, "no changes".to_owned(), s.dialog);
        assert(draw::put_views(out@) =~= before + modal_drawn(
            fv,
            selected as int,
            w,
            h,
            pos,
            m,
            *s,
        ));
        return None;
    }
    let p = plan(v, selected, w, h, m);
    let b = list::draw_box(out, p.inner_w, p.list_h + 2, w, h, pos, s);
    draw_bars(out, v, selected, p, b.x + 1, b.y + 1, m, s);
    let t = summary(diff::totals(v));
    let (t, _) = cells::clip(t.as_str(), p.inner_w, m);
    draw::put(
        out,
        b.x as u32 + 1,
        b.y as u32 + p.list_h as u32 + 2,
        t,
        s.dialog.bold(),
    );
    assert(draw::put_views(out@) =~= before + modal_drawn(fv, selected as int, w, h, pos, m, *s));
    Some(
        ModalHit {
            x0: b.x,
            y0: b.y,
            x1: b.x + p.inner_w + 2,
            y1: b.y + p.list_h + 4,
            list_y: b.y + 1,
            list_h: p.list_h as usize,
            start: p.start,
        },
    )
}

/// A bar is in proportion to its lines: none for no line, at least one column
/// for a line that exists, the whole bar for the most, and never shorter for
/// more lines.
pub proof fn law_bars_are_in_proportion(n: nat, k: nat, bar: nat, max: nat)
    requires
        n <= k <= max,
        0 < max,
        0 < bar,
    ensures
        scaled(0, bar, max) == 0,
        n > 0 ==> scaled(n, bar, max) >= 1,
        scaled(n, bar, max) <= scaled(k, bar, max),
        scaled(max, bar, max) == bar,
        scaled(n, bar, max) > 1 ==> scaled(n, bar, max) * max <= n * bar,
{
    assert(n * bar <= k * bar) by (nonlinear_arith)
        requires
            n <= k,
    ;
    vstd::arithmetic::div_mod::lemma_div_is_ordered((n * bar) as int, (k * bar) as int, max as int);
    vstd::arithmetic::div_mod::lemma_div_multiples_vanish(bar as int, max as int);
    assert(max * bar == bar * max) by (nonlinear_arith);
    vstd::arithmetic::div_mod::lemma_fundamental_div_mod((n * bar) as int, max as int);
    vstd::arithmetic::div_mod::lemma_mod_bound((n * bar) as int, max as int);
    let q = n * bar / max;
    assert(q * max == max * q) by (nonlinear_arith);
    assert(max >= 1 && max * bar >= bar) by (nonlinear_arith)
        requires
            0 < max,
    ;
}

/// The most lines that a file changes are those of some file, and no file
/// changes more.
pub proof fn law_most_changes_is_the_most(v: Seq<diff::FileV>, i: int)
    requires
        0 <= i < v.len(),
    ensures
        changes(v[i]) <= most_changes(v),
        1 <= most_changes(v),
        most_changes(v) == 1 || exists|k: int|
            0 <= k < v.len() && changes(#[trigger] v[k]) == most_changes(v),
    decreases v.len(),
{
    let w = v.drop_last();
    if i < w.len() {
        law_most_changes_is_the_most(w, i);
        assert(w[i] == v[i]);
    } else if w.len() > 0 {
        law_most_changes_is_the_most(w, 0);
    }
    if changes(v.last()) > most_changes(w) {
        assert(changes(v[v.len() - 1]) == most_changes(v));
    } else if most_changes(v) != 1 && w.len() > 0 {
        let k = choose|k: int| 0 <= k < w.len() && changes(#[trigger] w[k]) == most_changes(w);
        assert(changes(v[k]) == most_changes(v));
    }
}

/// The list shows the selected file, and as many files as there is room for.
pub proof fn law_list_shows_the_selected_file(
    v: Seq<diff::FileV>,
    selected: int,
    w: u16,
    h: u16,
    m: Metrics,
)
    requires
        0 <= selected < v.len() <= usize::MAX,
        h >= 7,
    ensures
        ({
            let p = plan_of(v, selected, w, h, m);
            &&& p.start <= selected < p.start + p.list_h
            &&& p.list_h <= v.len()
            &&& p.list_h == v.len() || p.list_h + 6 == h
        }),
{
    reveal(plan_of);
}

proof fn lemma_bar_rows_at(
    v: Seq<diff::FileV>,
    selected: int,
    p: Plan,
    ix: int,
    iy: int,
    m: Metrics,
    s: Shades,
    n: nat,
    k: int,
) -> (at: int)
    requires
        0 <= k < n,
        p.start + k < v.len(),
    ensures
        ({
            let all = bar_rows(v, selected, p, ix, iy, m, s, n);
            let row = bar_row(
                v[p.start + k],
                p.start + k == selected,
                p,
                most_changes(v),
                ix,
                iy + k,
                m,
                s,
            );
            0 <= at && at + row.len() <= all.len() && all.subrange(at, at + row.len()) == row
        }),
    decreases n,
{
    let mm = (n - 1) as nat;
    let before = bar_rows(v, selected, p, ix, iy, m, s, mm);
    let all = bar_rows(v, selected, p, ix, iy, m, s, n);
    let row = bar_row(
        v[p.start + k],
        p.start + k == selected,
        p,
        most_changes(v),
        ix,
        iy + k,
        m,
        s,
    );
    if k == mm {
        let at = before.len() as int;
        assert(all.subrange(at, at + row.len()) =~= row);
        at
    } else {
        let at = lemma_bar_rows_at(v, selected, p, ix, iy, m, s, mm, k);
        assert(all.subrange(at, at + row.len()) =~= before.subrange(at, at + row.len()));
        at
    }
}

/// A click meets the file that is drawn where it meets: on the row `k` of the
/// list stands the name of the file that is `k` places behind the first one,
/// behind the mark of the selected one, with its count and its bars.
#[verifier::rlimit(40)]
pub proof fn law_list_rows_can_be_clicked(
    v: Seq<diff::FileV>,
    selected: int,
    w: u16,
    h: u16,
    pos: Option<(u16, u16)>,
    m: Metrics,
    s: Shades,
    k: int,
) -> (at: int)
    requires
        0 <= selected < v.len() <= usize::MAX,
        w >= 34,
        h >= 7,
        modal_place(v, selected, w, h, pos, m) is Some,
        0 <= k < modal_place(v, selected, w, h, pos, m)->0.list_h,
        modal_place(v, selected, w, h, pos, m)->0.start + k < v.len(),
    ensures
        ({
            let hit = modal_place(v, selected, w, h, pos, m)->0;
            let all = modal_drawn(v, selected, w, h, pos, m, s);
            let f = v[hit.start + k];
            let y = hit.list_y + k;
            let p = plan_of(v, selected, w, h, m);
            let name = list::shortened(f.path(), p.name_w as int, m);
            let (a, d) = f.stats();
            &&& 0 <= at
            &&& at + 4 <= all.len()
            &&& forall|i: int| at <= i < at + 4 ==> (#[trigger] all[i]).y == y
            &&& all[at].x == hit.x0 + 1
            &&& all[at].text.take(name.len() + 2int) == (if hit.start + k == selected {
                "▸ "@
            } else {
                "  "@
            }) + name
            &&& all[at + 1].text == text::right_aligned(
                text::dec(diff::saturated((a + d) as nat) as nat),
                5,
            )
            &&& all[at + 2].text == text::copies(
                '+',
                scaled(a as nat, p.bar_w as nat, most_changes(v) as nat),
            )
            &&& d == 0 ==> all[at + 3].text == Seq::<char>::empty()
            &&& all[at + 2].text.len() + scaled(d as nat, p.bar_w as nat, most_changes(v) as nat)
                <= p.bar_w ==> all[at + 3].text.len() == scaled(
                d as nat,
                p.bar_w as nat,
                most_changes(v) as nat,
            )
            &&& all[at + 3].x + all[at + 3].text.len() == hit.x0 + 1 + p.inner_w
            &&& all[at + 2].x + all[at + 2].text.len() == all[at + 3].x
            &&& forall|i: int|
                0 <= i < all[at + 3].text.len() ==> (#[trigger] all[at + 3].text[i]) == '-'
        }),
{
    reveal(modal_drawn);
    reveal(modal_place);
    reveal(bar_row);
    reveal_strlit("▸ ");
    reveal_strlit("  ");
    law_list_shows_the_selected_file(v, selected, w, h, m);
    let p = plan_of(v, selected, w, h, m);
    let b = list::box_for(p.inner_w as int, p.list_h + 2, w, h, pos);
    list::law_box_on_screen(p.inner_w as int, p.list_h + 2, w, h, pos);
    let head = list::boxed(b, s);
    let bars = bar_rows(v, selected, p, b.x + 1, b.y + 1, m, s, p.list_h as nat);
    let at = lemma_bar_rows_at(v, selected, p, b.x + 1, b.y + 1, m, s, p.list_h as nat, k);
    let all = modal_drawn(v, selected, w, h, pos, m, s);
    let f = v[p.start + k];
    let row = bar_row(
        f,
        p.start + k == selected,
        p,
        most_changes(v),
        b.x + 1,
        b.y + 1 + k,
        m,
        s,
    );
    assert forall|i: int| 0 <= i < 4 implies all[head.len() + at + i] == #[trigger] row[i] by {
        assert(bars.subrange(at, at + row.len())[i] == bars[at + i]);
        assert(all[head.len() + at + i] == bars[at + i]);
    }
    let name = list::shortened(f.path(), p.name_w as int, m);
    let mark = list::marker(p.start + k == selected);
    assert(all[head.len() + at] == row[0]);
    assert(all[head.len() + at + 1] == row[1]);
    assert(all[head.len() + at + 2] == row[2]);
    assert(all[head.len() + at + 3] == row[3]);
    assert(mark.len() == 2);
    assert(row[0].text.take(name.len() + 2int) =~= mark + name);
    assert(f.stats().1 == 0 ==> row[3].text =~= Seq::<char>::empty());
    head.len() + at
}

proof fn lemma_widest_path(v: Seq<diff::FileV>, m: Metrics, i: int)
    requires
        0 <= i < v.len(),
    ensures
        cells::text_width(v[i].path(), m) <= widest_path(v, m),
    decreases v.len(),
{
    if i < v.len() - 1 {
        lemma_widest_path(v.drop_last(), m, i);
    }
}

/// The names of the list have room for every path, as far as the screen has:
/// beside them are 24 columns for the counts and the bars, or fewer where the
/// names are wide. The box is as wide as its rows or its summary.
pub proof fn law_names_have_room(
    v: Seq<diff::FileV>,
    selected: int,
    w: u16,
    h: u16,
    m: Metrics,
    i: int,
)
    requires
        0 <= i < v.len(),
        w >= 34,
    ensures
        ({
            let p = plan_of(v, selected, w, h, m);
            let wide = widest_path(v, m);
            &&& 10 <= wide <= w - 24 ==> p.name_w == wide
            &&& wide < 10 ==> p.name_w == 10
            &&& wide > w - 24 ==> p.name_w == w - 24
            &&& wide <= w - 24 ==> cells::text_width(v[i].path(), m) <= p.name_w
            &&& p.name_w + 37 <= w ==> p.bar_w == 24
            &&& p.name_w + 37 > w ==> p.bar_w == w - p.name_w - 13 || p.bar_w == 0
            &&& p.inner_w == w - 2 || p.inner_w >= p.name_w + 10 + p.bar_w
        }),
{
    reveal(plan_of);
    lemma_widest_path(v, m, i);
}

} // verus!
