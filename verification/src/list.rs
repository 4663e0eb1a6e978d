//! Drawing the file list: the sidebar, and the floating list with bars.
use crate::cells;
use crate::cells::Metrics;
use crate::diff;
use crate::diff::FileDiff;
use crate::draw;
use crate::draw::{Put, PutV};
use crate::geometry;
use crate::palette::{Shades, Style};
use crate::text;
use vstd::prelude::*;

verus! {

/// A box with rounded borders: its corner and its size.
#[derive(Debug, Clone, Copy, PartialEq, Eq, Structural)]
pub struct Frill {
    pub x: u16,
    pub y: u16,
    pub w: u16,
    pub h: u16,
}

/// The box around an interior on a screen of `w` columns and `h` rows, at the
/// dragged position, else in the middle, and never beyond the screen.
pub open spec fn box_for(inner_w: int, inner_h: int, w: u16, h: u16, pos: Option<(u16, u16)>) -> Frill {
    let bw = geometry::lesser(inner_w + 2, w as int);
    let bh = geometry::lesser(inner_h + 2, h as int);
    let (x, y) = match pos {
        Some((px, py)) => (
            geometry::lesser(px as int, w - bw),
            geometry::lesser(py as int, h - bh),
        ),
        None => ((w - bw) / 2, (h - bh) / 2),
    };
    Frill { x: x as u16, y: y as u16, w: bw as u16, h: bh as u16 }
}

/// A dialog never leaves the screen.
pub proof fn law_box_on_screen(inner_w: int, inner_h: int, w: u16, h: u16, pos: Option<(u16, u16)>)
    requires
        0 <= inner_w,
        0 <= inner_h,
    ensures
        ({
            let b = box_for(inner_w, inner_h, w, h, pos);
            b.x + b.w <= w && b.y + b.h <= h
        }),
{
}

/// The first `n` rows of the sides and the fill of a box.
pub open spec fn box_rows(b: Frill, s: Shades, n: nat) -> Seq<PutV>
    decreases n,
{
    if n == 0 {
        Seq::empty()
    } else {
        let y = b.y + n;
        box_rows(b, s, (n - 1) as nat).push(
            PutV { x: b.x as int, y, text: "│"@, style: s.dialog_border },
        ).push(
            PutV {
                x: b.x + 1,
                y,
                text: text::copies(' ', (b.w - 2) as nat),
                style: s.dialog,
            },
        ).push(PutV { x: b.x + b.w - 1, y, text: "│"@, style: s.dialog_border })
    }
}

/// A horizontal border of a box.
pub open spec fn border(l: char, r: char, w: int) -> Seq<char> {
    seq![l] + text::copies('─', (w - 2) as nat) + seq![r]
}

/// A box with rounded borders, filled inside so that what is underneath is
/// hidden.
#[verifier::opaque]
pub open spec fn boxed(b: Frill, s: Shades) -> Seq<PutV> {
    seq![
        PutV {
            x: b.x as int,
            y: b.y as int,
            text: border('╭', '╮', b.w as int),
            style: s.dialog_border,
        },
        PutV {
            x: b.x as int,
            y: b.y + b.h - 1,
            text: border('╰', '╯', b.w as int),
            style: s.dialog_border,
        },
    ] + box_rows(b, s, (b.h - 2) as nat)
}

fn border_text(l: char, r: char, w: u16) -> (t: String)
    requires
        w >= 2,
    ensures
        t@ == border(l, r, w as int),
{
    let mut t = String::new();
    t.push(l);
    t.push_str(text::repeat('─', (w - 2) as usize).as_str());
    t.push(r);
    assert(t@ =~= border(l, r, w as int));
    t
}

/// Draw a dialog with rounded borders, returning its box. Fills the interior
/// so content underneath is hidden.
pub fn draw_box(
    out: &mut Vec<Put>,
    inner_w: u16,
    inner_h: u16,
    w: u16,
    h: u16,
    pos: Option<(u16, u16)>,
    s: &Shades,
) -> (r: Frill)
    requires
        w >= 2,
        h >= 2,
    ensures
        r == box_for(inner_w as int, inner_h as int, w, h, pos),
        draw::put_views(final(out)@) == draw::put_views(old(out)@) + boxed(r, *s),
        r.x + r.w <= w,
        r.y + r.h <= h,
        2 <= r.w,
        2 <= r.h,
{
    reveal(boxed);
    let bw: u16 = if (inner_w as u32) + 2 < w as u32 {
        inner_w + 2
    } else {
        w
    };
    let bh: u16 = if (inner_h as u32) + 2 < h as u32 {
        inner_h + 2
    } else {
        h
    };
    let (x, y) = match pos {
        Some((px, py)) => (geometry::clamp(px, 0, w - bw), geometry::clamp(py, 0, h - bh)),
        None => ((w - bw) / 2, (h - bh) / 2),
    };
    let b = Frill { x, y, w: bw, h: bh };
    let ghost before = draw::put_views(out@);
    draw::put(out, x as u32, y as u32, border_text('╭', '╮', bw), s.dialog_border);
    draw::put(
        out,
        x as u32,
        y as u32 + bh as u32 - 1,
        border_text('╰', '╯', bw),
        s.dialog_border,
    );
    let ghost head = draw::put_views(out@);
    assert(head + box_rows(b, *s, 0) =~= head);
    for k in 1..(bh - 1)
        invariant
            b == (Frill { x, y, w: bw, h: bh }),
            bw >= 2,
            draw::put_views(out@) == head + box_rows(b, *s, (k - 1) as nat),
    {
        let yy: u32 = y as u32 + k as u32;
        draw::put(out, x as u32, yy, "│".to_owned(), s.dialog_border);
        draw::put(out, x as u32 + 1, yy, text::repeat(' ', (bw - 2) as usize), s.dialog);
        draw::put(out, x as u32 + bw as u32 - 1, yy, "│".to_owned(), s.dialog_border);
        assert(draw::put_views(out@) =~= head + box_rows(b, *s, k as nat));
    }
    assert(draw::put_views(out@) =~= before + boxed(b, *s));
    b
}

/// The counts of a file.
pub open spec fn count_text(f: diff::FileV) -> Seq<char> {
    let (a, d) = f.stats();
    " +"@ + text::dec(a as nat) + " -"@ + text::dec(d as nat) + " "@
}

/// The mark before a file's name.
pub open spec fn marker(selected: bool) -> Seq<char> {
    if selected {
        "▸ "@
    } else {
        "  "@
    }
}

/// The name style of a file.
pub open spec fn name_style(s: Shades, selected: bool) -> Style {
    if selected {
        s.dialog.with_bold()
    } else {
        s.dialog
    }
}

/// One file entry (marker, name, right-aligned counts) that fills the row
/// `[x, x + w)`.
#[verifier::opaque]
pub open spec fn entry_drawn(
    f: Option<diff::FileV>,
    selected: bool,
    x: int,
    y: int,
    w: int,
    m: Metrics,
    s: Shades,
) -> Seq<PutV> {
    let fill = seq![PutV { x, y, text: text::copies(' ', w as nat), style: s.dialog }];
    match f {
        Some(f) => {
            let count = count_text(f);
            let cw = geometry::lesser(cells::text_width(count, m) as int, w);
            let name = shortened(f.path(), geometry::minus(w, 2 + cw), m);
            fill.push(
                PutV { x, y, text: marker(selected) + name, style: name_style(s, selected) },
            ).push(
                PutV {
                    x: x + w - cw,
                    y,
                    text: cells::fit_text(cells::graphemes(count, m), cw as nat),
                    style: s.dialog.with_fg(s.header.fg),
                },
            )
        },
        None => fill,
    }
}

/// A text shortened to `width` columns, its tail kept behind an ellipsis.
pub open spec fn shortened(s: Seq<char>, width: int, m: Metrics) -> Seq<char> {
    cells::shortened(
        s,
        cells::graphemes(s, m),
        cells::text_width("…"@, m),
        width as nat,
    )
}

fn count(f: &FileDiff) -> (r: String)
    ensures
        r@ == count_text(f@),
{
    let (a, d) = f.stats();
    let mut t = " +".to_owned();
    t.push_str(text::decimal(a).as_str());
    t.push_str(" -");
    t.push_str(text::decimal(d).as_str());
    t.push_str(" ");
    t
}

pub fn mark(selected: bool) -> (r: String)
    ensures
        r@ == marker(selected),
{
    if selected {
        "▸ ".to_owned()
    } else {
        "  ".to_owned()
    }
}

/// Draw one file entry (marker, name, right-aligned +/- counts) filling the
/// row `[x, x+w)` on the sidebar surface.
pub fn draw_file_entry(
    out: &mut Vec<Put>,
    f: Option<&FileDiff>,
    selected: bool,
    x: u16,
    y: u16,
    w: u16,
    m: Metrics,
    s: &Shades,
)
    ensures
        draw::put_views(final(out)@) == draw::put_views(old(out)@) + entry_drawn(
            match f {
                Some(f) => Some(f@),
                None => None,
            },
            selected,
            x as int,
            y as int,
            w as int,
            m,
            *s,
        ),
{
    reveal(entry_drawn);
    let ghost before = draw::put_views(out@);
    draw::put(out, x as u32, y as u32, text::repeat(' ', w as usize), s.dialog);
    if let Some(f) = f {
        let c = count(f);
        let full = cells::str_width(c.as_str(), m);
        let cw: u16 = if full < w {
            full
        } else {
            w
        };
        let name_w = w.saturating_sub(cw).saturating_sub(2);
        let mut name = mark(selected);
        name.push_str(cells::shorten(f.path(), name_w, m).as_str());
        let st = if selected {
            s.dialog.bold()
        } else {
            s.dialog
        };
        draw::put(out, x as u32, y as u32, name, st);
        let (t, _) = cells::clip(c.as_str(), cw, m);
        draw::put(out, x as u32 + w as u32 - cw as u32, y as u32, t, s.dialog.fg(s.header.fg));
    }
    assert(draw::put_views(out@) =~= before + entry_drawn(
        match f {
            Some(f) => Some(f@),
            None => None,
        },
        selected,
        x as int,
        y as int,
        w as int,
        m,
        *s,
    ));
}

/// The place of the sidebar: its columns `[x, x + w)`, its rows, on which side
/// of the body it is, and the first file in it.
#[derive(Debug, Clone, Copy)]
pub struct Side {
    pub x: u16,
    pub w: u16,
    pub height: u16,
    pub left: bool,
    pub start: usize,
    pub selected: usize,
}

/// The file at a place in a list.
pub open spec fn file_at(v: Seq<diff::FileV>, i: int) -> Option<diff::FileV> {
    if 0 <= i < v.len() {
        Some(v[i])
    } else {
        None
    }
}

/// The first `n` rows of the sidebar: an entry and the divider, which is on
/// the edge that faces the body.
pub open spec fn side_rows(o: Side, v: Seq<diff::FileV>, m: Metrics, s: Shades, n: nat) -> Seq<PutV>
    decreases n,
{
    if n == 0 {
        Seq::empty()
    } else {
        let k = n - 1;
        let idx = o.start + k;
        (side_rows(o, v, m, s, k as nat) + entry_drawn(
            file_at(v, idx),
            idx == o.selected,
            if o.left {
                o.x as int
            } else {
                o.x + 1
            },
            k,
            o.w - 1,
            m,
            s,
        )).push(
            PutV {
                x: if o.left {
                    o.x + o.w - 1
                } else {
                    o.x as int
                },
                y: k,
                text: "│"@,
                style: s.sidebar_border,
            },
        )
    }
}

/// Draw the file-list sidebar: a scrollable list of file names with counts,
/// plus a divider column on the edge facing the diff body.
pub fn render_sidebar(out: &mut Vec<Put>, o: Side, files: &Vec<FileDiff>, m: Metrics, s: &Shades)
    requires
        o.x + o.w <= 0xffff,
        o.w >= 2,
        o.start <= files@.len(),
    ensures
        draw::put_views(final(out)@) == draw::put_views(old(out)@) + side_rows(
            o,
            diff::file_views(files@),
            m,
            *s,
            o.height as nat,
        ),
{
    let ghost v = diff::file_views(files@);
    let ghost before = draw::put_views(out@);
    let (div_x, list_x) = if o.left {
        (o.x + o.w - 1, o.x)
    } else {
        (o.x, o.x + 1)
    };
    assert(before + side_rows(o, v, m, *s, 0) =~= before);
    for k in 0..o.height
        invariant
            v == diff::file_views(files@),
            o.x + o.w <= 0xffff,
            o.w >= 2,
            o.start <= files@.len(),
            (div_x, list_x) == if o.left {
                ((o.x + o.w - 1) as u16, o.x)
            } else {
                (o.x, (o.x + 1) as u16)
            },
            draw::put_views(out@) == before + side_rows(o, v, m, *s, k as nat),
    {
        let n = files.len();
        let f = if (k as usize) < n - o.start {
            assert(v[o.start + k] == files@[o.start + k]@);
            Some(&files[o.start + k as usize])
        } else {
            None
        };
        let selected = o.selected >= o.start && o.selected - o.start == k as usize;
        draw_file_entry(out, f, selected, list_x, k, o.w - 1, m, s);
        draw::put(out, div_x as u32, k as u32, "│".to_owned(), s.sidebar_border);
        assert(draw::put_views(out@) =~= before + side_rows(o, v, m, *s, (k + 1) as nat));
    }
}

/// Row `k` of the sidebar shows the file that is `k` places behind its first
/// one, marked if it is the selected one, beside the divider.
pub proof fn law_sidebar_lists_the_files(
    o: Side,
    v: Seq<diff::FileV>,
    m: Metrics,
    s: Shades,
    n: nat,
    k: int,
) -> (at: int)
    requires
        0 <= k < n,
    ensures
        ({
            let all = side_rows(o, v, m, s, n);
            let idx = o.start + k;
            let entry = entry_drawn(
                if idx < v.len() {
                    Some(v[idx])
                } else {
                    None
                },
                idx == o.selected,
                if o.left {
                    o.x as int
                } else {
                    o.x + 1
                },
                k,
                o.w - 1,
                m,
                s,
            );
            &&& 0 <= at
            &&& at + entry.len() < all.len()
            &&& all.subrange(at, at + entry.len()) == entry
            &&& all[at + entry.len()].text == "│"@
            &&& all[at + entry.len()].y == k
            &&& all[at + entry.len()].x == if o.left {
                o.x + o.w - 1
            } else {
                o.x as int
            }
        }),
    decreases n,
{
    let mm = (n - 1) as nat;
    let before = side_rows(o, v, m, s, mm);
    let all = side_rows(o, v, m, s, n);
    let idx = o.start + k;
    let entry = entry_drawn(
        file_at(v, idx),
        idx == o.selected,
        if o.left {
            o.x as int
        } else {
            o.x + 1
        },
        k,
        o.w - 1,
        m,
        s,
    );
    if k == mm {
        let at = before.len() as int;
        assert(all.subrange(at, at + entry.len()) =~= entry);
        at
    } else {
        let at = law_sidebar_lists_the_files(o, v, m, s, mm, k);
        assert(all.subrange(at, at + entry.len()) =~= before.subrange(at, at + entry.len()));
        assert(all[at + entry.len()] == before[at + entry.len()]);
        at
    }
}

/// The entry of a file shows its name behind a mark and, at the right edge,
/// how many lines it adds and removes.
pub proof fn law_entry_shows_the_file(
    f: diff::FileV,
    selected: bool,
    x: int,
    y: int,
    w: int,
    m: Metrics,
    s: Shades,
)
    requires
        w >= 0,
    ensures
        ({
            let d = entry_drawn(Some(f), selected, x, y, w, m, s);
            let (a, r) = f.stats();
            let count = " +"@ + text::dec(a as nat) + " -"@ + text::dec(r as nat) + " "@;
            let cw = cells::text_width(count, m);
            let room = if w > 2 + cw {
                w - 2 - cw
            } else {
                0
            };
            &&& d.len() == 3
            &&& forall|i: int| 0 <= i < 3 ==> (#[trigger] d[i]).y == y
            &&& cw <= w ==> d[1].x == x && d[1].text == (if selected {
                "▸ "@
            } else {
                "  "@
            }) + shortened(f.path(), room, m)
            &&& cw <= w ==> d[2].x == x + w - cw && d[2].text == cells::fit_text(
                cells::graphemes(count, m),
                cw,
            )
            &&& d[1].style.attrs.bold <==> selected || s.dialog.attrs.bold
        }),
{
    reveal(entry_drawn);
}

/// A box that is not dragged stands in the middle of the screen; one that is
/// dragged stands where it was dragged to, as far as it fits there.
pub proof fn law_box_stands_in_the_middle(inner_w: int, inner_h: int, w: u16, h: u16, px: u16, py: u16)
    requires
        0 <= inner_w,
        0 <= inner_h,
        inner_w + 2 <= w,
        inner_h + 2 <= h,
    ensures
        ({
            let b = box_for(inner_w, inner_h, w, h, None);
            let d = box_for(inner_w, inner_h, w, h, Some((px, py)));
            &&& b.w == inner_w + 2 && b.h == inner_h + 2
            &&& 0 <= (w - b.w - b.x) - b.x <= 1
            &&& 0 <= (h - b.h - b.y) - b.y <= 1
            &&& d.w == b.w && d.h == b.h
            &&& px + d.w <= w ==> d.x == px
            &&& py + d.h <= h ==> d.y == py
        }),
{
}

} // verus!
