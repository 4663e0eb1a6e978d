//! Drawing the footer bar and the help grid below it.
use crate::cells;
use crate::cells::Metrics;
use crate::diff;
use crate::diff::FileDiff;
use crate::draw;
use crate::draw::{Put, PutV};
use crate::geometry;
use crate::help;
use crate::palette::{Shades, Style};
use crate::text;
use vstd::prelude::*;

verus! {

/// A text and its style.
pub type Bit = (Seq<char>, Style);

/// The column behind some texts that are written one behind the other from
/// column `x` on, none of them beyond column `end`.
pub open spec fn written_to(v: Seq<Bit>, x: int, end: int, m: Metrics) -> int
    decreases v.len(),
{
    if v.len() == 0 {
        x
    } else {
        let at = written_to(v.drop_last(), x, end, m);
        if at >= end {
            at
        } else {
            at + cells::fit_width(cells::graphemes(v.last().0, m), (end - at) as nat)
        }
    }
}

/// Some texts one behind the other from column `x` on, clipped at column
/// `end`.
pub open spec fn written(v: Seq<Bit>, x: int, end: int, row: int, m: Metrics) -> Seq<PutV>
    decreases v.len(),
{
    if v.len() == 0 {
        Seq::empty()
    } else {
        let at = written_to(v.drop_last(), x, end, m);
        let before = written(v.drop_last(), x, end, row, m);
        if at >= end {
            before
        } else {
            before.push(
                PutV {
                    x: at,
                    y: row,
                    text: cells::fit_text(cells::graphemes(v.last().0, m), (end - at) as nat),
                    style: v.last().1,
                },
            )
        }
    }
}

/// A text to write, and its style.
struct Piece {
    text: String,
    style: Style,
}

spec fn bits(v: Seq<Piece>) -> Seq<Bit> {
    v.map_values(|p: Piece| (p.text@, p.style))
}

fn add_piece(v: &mut Vec<Piece>, text: String, style: Style)
    ensures
        bits(final(v)@) == bits(old(v)@).push((text@, style)),
{
    v.push(Piece { text, style });
    assert(bits(v@) =~= bits(old(v)@).push((text@, style)));
}

/// Write texts one behind the other. Returns the column behind them.
fn write(out: &mut Vec<Put>, v: &Vec<Piece>, x: u16, end: u16, row: u16, m: Metrics) -> (r: u16)
    ensures
        draw::put_views(final(out)@) == draw::put_views(old(out)@) + written(
            bits(v@),
            x as int,
            end as int,
            row as int,
            m,
        ),
        r == written_to(bits(v@), x as int, end as int, m),
{
    let ghost b = bits(v@);
    let ghost before = draw::put_views(out@);
    let mut at: u16 = x;
    assert(before + written(b.take(0), x as int, end as int, row as int, m) =~= before);
    for i in 0..v.len()
        invariant
            b == bits(v@),
            at == written_to(b.take(i as int), x as int, end as int, m),
            draw::put_views(out@) == before + written(
                b.take(i as int),
                x as int,
                end as int,
                row as int,
                m,
            ),
    {
        assert(b.take(i as int + 1).drop_last() =~= b.take(i as int));
        assert(b.take(i as int + 1).last() == (v@[i as int].text@, v@[i as int].style));
        if at < end {
            let (t, w) = cells::clip(v[i].text.as_str(), end - at, m);
            draw::put(out, at as u32, row as u32, t, v[i].style);
            at = at + w;
        }
        assert(draw::put_views(out@) =~= before + written(
            b.take(i as int + 1),
            x as int,
            end as int,
            row as int,
            m,
        ));
    }
    assert(b.take(b.len() as int) =~= b);
    at
}

/// What the footer tells.
#[verifier::ext_equal]
pub struct FooterV {
    pub width: u16,
    pub row: u16,
    pub metrics: Metrics,
    pub watch: bool,
    /// How many files there are, and how many lines they add and remove.
    pub totals: (nat, usize, usize),
    /// The selected file.
    pub file: Option<diff::FileV>,
    /// The transient note, or the search pattern while it is typed.
    pub note: Option<Seq<char>>,
}

/// The notes of a file in brackets.
pub open spec fn notes_text(f: diff::FileV) -> Seq<char> {
    if f.notes.len() == 0 {
        Seq::empty()
    } else {
        " ("@ + text::joined(f.notes, ", "@) + ")"@
    }
}

/// The lines that a file adds and removes, and its notes.
pub open spec fn file_bits(f: diff::FileV, s: Shades) -> Seq<Bit> {
    let (a, d) = f.stats();
    let counts = seq![
        (" +"@, s.statusbar_add),
        (text::dec(a as nat), s.statusbar_add),
        (" -"@, s.statusbar_remove),
        (text::dec(d as nat), s.statusbar_remove),
    ];
    let noted = if f.notes.len() == 0 {
        counts
    } else {
        counts.push((notes_text(f), s.statusbar_flags))
    };
    noted.push((" "@, s.statusbar))
}

/// The global diffstat.
pub open spec fn stats_text(t: (nat, usize, usize)) -> Seq<char> {
    " "@ + text::dec(t.0) + " files +"@ + text::dec(t.1 as nat) + " -"@ + text::dec(t.2 as nat)
        + " "@
}

impl FooterV {
    /// Where the help badge starts.
    pub open spec fn help_x(&self) -> int {
        geometry::minus(self.width as int, cells::text_width(" ? help "@, self.metrics) as int)
    }

    /// Where the watch badge starts, or else the help badge.
    pub open spec fn watch_x(&self) -> int {
        if self.watch {
            geometry::minus(self.help_x(), cells::text_width(" W "@, self.metrics) as int)
        } else {
            self.help_x()
        }
    }

    /// Where the diffstat starts.
    pub open spec fn stats_x(&self) -> int {
        geometry::minus(
            self.watch_x(),
            cells::text_width(stats_text(self.totals), self.metrics) as int,
        )
    }

    /// The right edge, over the fill of the bar.
    pub open spec fn right(&self, s: Shades) -> Seq<PutV> {
        let y = self.row as int;
        let fill = seq![
            PutV { x: 0, y, text: text::copies(' ', self.width as nat), style: s.statusbar },
            PutV { x: self.help_x(), y, text: " ? help "@, style: s.statusbar_help },
        ];
        let badges = if self.watch {
            fill.push(PutV { x: self.watch_x(), y, text: " W "@, style: s.statusbar_watch })
        } else {
            fill
        };
        badges.push(
            PutV {
                x: self.stats_x(),
                y,
                text: stats_text(self.totals),
                style: s.statusbar_stats,
            },
        )
    }

    /// The name of the file.
    pub open spec fn name(&self) -> Seq<char> {
        match self.file {
            Some(f) => " "@ + f.path(),
            None => " "@ + "(no changes)"@,
        }
    }

    /// The column behind the logo.
    pub open spec fn name_x(&self) -> int {
        cells::text_width(" diffv "@, self.metrics) as int
    }

    /// The clusters of the name.
    pub open spec fn name_cells(&self) -> Seq<(Seq<char>, u8)> {
        cells::graphemes(self.name(), self.metrics)
    }

    /// The columns for the name.
    pub open spec fn name_room(&self) -> nat {
        geometry::minus(self.stats_x(), self.name_x()) as nat
    }

    /// What stands behind the name.
    pub open spec fn rest(&self, s: Shades) -> Seq<Bit> {
        let bits = match self.file {
            Some(f) => file_bits(f, s),
            None => Seq::empty(),
        };
        match self.note {
            Some(n) => bits.push((" "@ + n + " "@, s.statusbar_add)),
            None => bits,
        }
    }

    /// The footer: a badge, the file's name, its stats and flags, a transient
    /// note, then at the right the global stats, a watch indicator and a help
    /// badge.
    #[verifier::opaque]
    pub open spec fn drawn(&self, s: Shades) -> Seq<PutV> {
        let y = self.row as int;
        self.right(s).push(
            PutV { x: 0, y, text: " diffv "@, style: s.statusbar_logo },
        ).push(
            PutV {
                x: self.name_x(),
                y,
                text: cells::fit_text(self.name_cells(), self.name_room()),
                style: s.statusbar_filename,
            },
        ) + written(
            self.rest(s),
            self.name_x() + cells::fit_width(self.name_cells(), self.name_room()),
            self.stats_x(),
            y,
            self.metrics,
        )
    }
}

/// What the footer tells.
pub struct Footer<'a> {
    pub width: u16,
    pub row: u16,
    pub metrics: Metrics,
    pub watch: bool,
    pub totals: (usize, usize, usize),
    pub file: Option<&'a FileDiff>,
    pub note: Option<String>,
}

impl<'a> View for Footer<'a> {
    type V = FooterV;

    open spec fn view(&self) -> FooterV {
        FooterV {
            width: self.width,
            row: self.row,
            metrics: self.metrics,
            watch: self.watch,
            totals: (self.totals.0 as nat, self.totals.1, self.totals.2),
            file: match self.file {
                Some(f) => Some(f@),
                None => None,
            },
            note: crate::tui::text_of(self.note),
        }
    }
}

fn stats(t: (usize, usize, usize)) -> (r: String)
    ensures
        r@ == stats_text((t.0 as nat, t.1, t.2)),
{
    let mut s = " ".to_owned();
    s.push_str(text::decimal(t.0).as_str());
    s.push_str(" files +");
    s.push_str(text::decimal(t.1).as_str());
    s.push_str(" -");
    s.push_str(text::decimal(t.2).as_str());
    s.push_str(" ");
    s
}

fn file_pieces(f: &FileDiff, s: &Shades) -> (r: Vec<Piece>)
    ensures
        bits(r@) == file_bits(f@, *s),
{
    let (a, d) = f.stats();
    let mut v: Vec<Piece> = Vec::new();
    assert(bits(v@) =~= Seq::<Bit>::empty());
    add_piece(&mut v, " +".to_owned(), s.statusbar_add);
    add_piece(&mut v, text::decimal(a), s.statusbar_add);
    add_piece(&mut v, " -".to_owned(), s.statusbar_remove);
    add_piece(&mut v, text::decimal(d), s.statusbar_remove);
    assert(text::texts(f.notes@).len() == f.notes@.len());
    if f.notes.len() > 0 {
        let mut n = " (".to_owned();
        n.push_str(text::join(&f.notes, ", ").as_str());
        n.push_str(")");
        add_piece(&mut v, n, s.statusbar_flags);
    }
    add_piece(&mut v, " ".to_owned(), s.statusbar);
    v
}

impl<'a> Footer<'a> {
    fn draw_right(&self, out: &mut Vec<Put>, s: &Shades) -> (r: (u16, u16))
        ensures
            draw::put_views(final(out)@) == draw::put_views(old(out)@) + self@.right(*s),
            r.0 == self@.help_x(),
            r.1 == self@.stats_x(),
    {
        let ghost before = draw::put_views(out@);
        let m = self.metrics;
        let row = self.row as u32;
        draw::put(out, 0, row, text::repeat(' ', self.width as usize), s.statusbar);
        let help_x = self.width.saturating_sub(cells::str_width(" ? help ", m));
        draw::put(out, help_x as u32, row, " ? help ".to_owned(), s.statusbar_help);
        let mut w_x: u16 = help_x;
        if self.watch {
            w_x = help_x.saturating_sub(cells::str_width(" W ", m));
            draw::put(out, w_x as u32, row, " W ".to_owned(), s.statusbar_watch);
        }
        let t = stats(self.totals);
        let stats_x = w_x.saturating_sub(cells::str_width(t.as_str(), m));
        draw::put(out, stats_x as u32, row, t, s.statusbar_stats);
        assert(draw::put_views(out@) =~= before + self@.right(*s));
        (help_x, stats_x)
    }

    fn pieces(&self, s: &Shades) -> (r: Vec<Piece>)
        ensures
            bits(r@) == self@.rest(*s),
    {
        let mut v = match self.file {
            Some(f) => file_pieces(f, s),
            None => {
                let v: Vec<Piece> = Vec::new();
                assert(bits(v@) =~= Seq::<Bit>::empty());
                v
            },
        };
        if let Some(n) = &self.note {
            let mut t = " ".to_owned();
            t.push_str(n.as_str());
            t.push_str(" ");
            add_piece(&mut v, t, s.statusbar_add);
        }
        v
    }

    /// Draw the footer. Returns where its help badge starts.
    pub fn render_footer(&self, out: &mut Vec<Put>, s: &Shades) -> (r: u16)
        ensures
            draw::put_views(final(out)@) == draw::put_views(old(out)@) + self@.drawn(*s),
            r == self@.help_x(),
    {
        reveal(FooterV::drawn);
        let ghost before = draw::put_views(out@);
        let m = self.metrics;
        let row = self.row as u32;
        let (help_x, stats_x) = self.draw_right(out, s);
        draw::put(out, 0, row, " diffv ".to_owned(), s.statusbar_logo);
        let x = cells::str_width(" diffv ", m);
        let mut name = " ".to_owned();
        match self.file {
            Some(f) => name.push_str(f.path()),
            None => name.push_str("(no changes)"),
        }
        let (clipped, w) = cells::clip(name.as_str(), stats_x.saturating_sub(x), m);
        draw::put(out, x as u32, row, clipped, s.statusbar_filename);
        let at: u16 = x + w;
        let v = self.pieces(s);
        write(out, &v, at, stats_x, self.row, m);
        assert(draw::put_views(out@) =~= before + self@.drawn(*s));
        help_x
    }
}

proof fn lemma_written_fits(v: Seq<Bit>, x: int, end: int, m: Metrics)
    requires
        x <= end,
    ensures
        x <= written_to(v, x, end, m) <= end,
    decreases v.len(),
{
    if v.len() > 0 {
        lemma_written_fits(v.drop_last(), x, end, m);
        let at = written_to(v.drop_last(), x, end, m);
        if at < end {
            cells::law_fit_within(cells::graphemes(v.last().0, m), (end - at) as nat);
        }
    }
}

/// What stands behind the file's name never runs into the global stats.
pub proof fn law_footer_parts_keep_apart(f: FooterV, s: Shades)
    requires
        f.name_x() <= f.stats_x(),
    ensures
        written_to(
            f.rest(s),
            f.name_x() + cells::fit_width(f.name_cells(), f.name_room()),
            f.stats_x(),
            f.metrics,
        ) <= f.stats_x(),
        f.stats_x() <= f.watch_x() <= f.help_x(),
{
    cells::law_fit_within(f.name_cells(), f.name_room());
    lemma_written_fits(
        f.rest(s),
        f.name_x() + cells::fit_width(f.name_cells(), f.name_room()),
        f.stats_x(),
        f.metrics,
    );
}

/// The first `n` entries of a help grid with `rows` rows and columns of
/// `cell` cells, from row `y0` on, as far as they are above row `h`.
pub open spec fn grid_puts(
    v: Seq<(Seq<char>, Seq<char>)>,
    n: nat,
    rows: int,
    cell: int,
    key_w: int,
    y0: int,
    h: int,
    s: Shades,
) -> Seq<PutV>
    decreases n,
{
    if n == 0 {
        Seq::empty()
    } else {
        let i = n - 1;
        let before = grid_puts(v, i as nat, rows, cell, key_w, y0, h, s);
        let y = y0 + i % rows;
        let x = 1 + (i / rows) * cell;
        if y >= h {
            before
        } else {
            before.push(PutV { x, y, text: v[i].0, style: s.help_key }).push(
                PutV { x: x + key_w + 2, y, text: v[i].1, style: s.help_desc },
            )
        }
    }
}

/// The help grid from row `y0` on.
#[verifier::opaque]
pub open spec fn help_drawn(width: u16, m: Metrics, y0: int, h: int, s: Shades) -> Seq<PutV> {
    let (_, rows, cell) = help::grid_of(width, m);
    grid_puts(
        help::help_texts(),
        help::help_texts().len(),
        rows,
        cell,
        help::widest_key(help::help_texts(), m) as int,
        y0,
        h,
        s,
    )
}

/// Draw the expandable help grid below the footer, packing key/description
/// pairs into as many columns as fit.
pub fn render_help_grid(out: &mut Vec<Put>, width: u16, m: Metrics, y0: u16, h: u16, s: &Shades)
    ensures
        draw::put_views(final(out)@) == draw::put_views(old(out)@) + help_drawn(
            width,
            m,
            y0 as int,
            h as int,
            *s,
        ),
{
    reveal(help_drawn);
    let entries = help::help_entries();
    let (_, rows, cell) = help::help_grid(width, m);
    let key_w = help::measure_keys(&entries, m);
    let ghost e = help::entry_views(entries@);
    let ghost before = draw::put_views(out@);
    assert(e.len() == entries@.len());
    assert(before + grid_puts(e, 0, rows as int, cell as int, key_w as int, y0 as int, h as int, *s)
        =~= before);
    for i in 0..entries.len()
        invariant
            e == help::entry_views(entries@),
            e.len() == 24,
            1 <= rows <= 24,
            cell <= 0x20003,
            draw::put_views(out@) == before + grid_puts(
                e,
                i as nat,
                rows as int,
                cell as int,
                key_w as int,
                y0 as int,
                h as int,
                *s,
            ),
    {
        let col: usize = i / rows;
        let r: usize = i % rows;
        assert(e[i as int] == (entries@[i as int].0@, entries@[i as int].1@));
        let y: usize = y0 as usize + r;
        if y < h as usize {
            assert(col <= 24 && col * cell <= 24 * 0x20003) by (nonlinear_arith)
                requires
                    col == i / rows,
                    i < 24,
                    1 <= rows,
                    cell <= 0x20003,
            ;
            let x: u32 = (1 + col * cell) as u32;
            draw::put(out, x, y as u32, entries[i].0.to_owned(), s.help_key);
            draw::put(
                out,
                x + key_w as u32 + 2,
                y as u32,
                entries[i].1.to_owned(),
                s.help_desc,
            );
        }
        assert(draw::put_views(out@) =~= before + grid_puts(
            e,
            (i + 1) as nat,
            rows as int,
            cell as int,
            key_w as int,
            y0 as int,
            h as int,
            *s,
        ));
    }
}

/// The footer tells the counts of the file, and then its notes in brackets.
pub proof fn law_footer_counts(f: diff::FileV, s: Shades)
    ensures
        ({
            let b = file_bits(f, s);
            let (a, d) = f.stats();
            &&& b.len() >= 5
            &&& b[0].0 == " +"@ && b[1].0 == text::dec(a as nat)
            &&& b[2].0 == " -"@ && b[3].0 == text::dec(d as nat)
            &&& b[0].1 == s.statusbar_add && b[1].1 == s.statusbar_add
            &&& b[2].1 == s.statusbar_remove && b[3].1 == s.statusbar_remove
            &&& f.notes.len() == 1 ==> b[4].0 == " ("@ + f.notes[0] + ")"@
            &&& f.notes.len() == 2 ==> b[4].0 == " ("@ + (f.notes[0] + ", "@ + f.notes[1]) + ")"@
            &&& f.notes.len() == 0 ==> b.len() == 5
        }),
{
    if f.notes.len() == 2 {
        let v = f.notes;
        assert(v.drop_last().len() == 1);
        assert(v.drop_last()[0] == v[0]);
        assert(text::joined(v.drop_last(), ", "@) == v[0]);
        assert(text::joined(v, ", "@) == v[0] + ", "@ + v[1]);
    }
}

/// At the right edge of the footer stand the counts of the whole diff, a badge
/// while watching, and the help badge.
pub proof fn law_footer_right_edge(f: FooterV, s: Shades)
    ensures
        ({
            let v = f.right(s);
            let n = v.len() as int;
            let (files, add, del) = f.totals;
            &&& v[1].text == " ? help "@ && v[1].x == f.help_x()
            &&& f.watch ==> n == 4 && v[2].text == " W "@ && v[2].x == f.watch_x()
            &&& !f.watch ==> n == 3
            &&& v[n - 1].x == f.stats_x()
            &&& v[n - 1].text == " "@ + text::dec(files) + " files +"@ + text::dec(add as nat)
                + " -"@ + text::dec(del as nat) + " "@
            &&& forall|i: int| 0 <= i < n ==> (#[trigger] v[i]).y == f.row
        }),
{
}

/// The footer names the file, as much of it as there is room for, and notes
/// follow its counts.
pub proof fn law_footer_names_the_file(f: FooterV, s: Shades)
    ensures
        ({
            let v = f.drawn(s);
            let n = f.right(s).len() as int;
            let name = " "@ + match f.file {
                Some(x) => x.path(),
                None => "(no changes)"@,
            };
            &&& v.len() >= n + 2
            &&& v[n].text == " diffv "@ && v[n].x == 0 && v[n].y == f.row
            &&& v[n + 1].x == f.name_x() && v[n + 1].y == f.row
            &&& v[n + 1].text == cells::fit_text(
                cells::graphemes(name, f.metrics),
                f.name_room(),
            )
            &&& f.note is Some ==> f.rest(s).last().0 == " "@ + f.note->0 + " "@
            &&& f.file is Some && f.note is Some ==> f.rest(s).drop_last() == file_bits(
                f.file->0,
                s,
            )
            &&& f.file is Some && f.note is None ==> f.rest(s) == file_bits(f.file->0, s)
            &&& v.skip(n + 2) == written(
                f.rest(s),
                f.name_x() + cells::fit_width(f.name_cells(), f.name_room()),
                f.stats_x(),
                f.row as int,
                f.metrics,
            )
        }),
{
    reveal(FooterV::drawn);
    let v = f.drawn(s);
    let n = f.right(s).len() as int;
    let w = written(
        f.rest(s),
        f.name_x() + cells::fit_width(f.name_cells(), f.name_room()),
        f.stats_x(),
        f.row as int,
        f.metrics,
    );
    assert(v.skip(n + 2) =~= w);
    if f.file is Some && f.note is Some {
        assert(f.rest(s).drop_last() =~= file_bits(f.file->0, s));
    }
}

proof fn lemma_grid_at(
    v: Seq<(Seq<char>, Seq<char>)>,
    n: nat,
    rows: int,
    cell: int,
    key_w: int,
    y0: int,
    h: int,
    s: Shades,
    i: int,
)
    requires
        0 <= i < n <= v.len(),
        0 < rows,
        y0 + rows <= h,
    ensures
        ({
            let g = grid_puts(v, n, rows, cell, key_w, y0, h, s);
            let x = 1 + (i / rows) * cell;
            &&& g.len() == 2 * n
            &&& g[2 * i].text == v[i].0 && g[2 * i].x == x && g[2 * i].y == y0 + i % rows
            &&& g[2 * i + 1].text == v[i].1 && g[2 * i + 1].x == x + key_w + 2 && g[2 * i + 1].y
                == y0 + i % rows
        }),
    decreases n,
{
    let m = (n - 1) as nat;
    vstd::arithmetic::div_mod::lemma_mod_bound(m as int, rows);
    let before = grid_puts(v, m, rows, cell, key_w, y0, h, s);
    if i < m {
        lemma_grid_at(v, m, rows, cell, key_w, y0, h, s, i);
        assert(grid_puts(v, n, rows, cell, key_w, y0, h, s)[2 * i] == before[2 * i]);
    } else if m > 0 {
        lemma_grid_at(v, m, rows, cell, key_w, y0, h, s, 0);
    } else {
        assert(before.len() == 0);
    }
}

/// Every entry of the help grid has a place of its own: its key, and its
/// description behind the widest key. The columns are filled one after the
/// other.
pub proof fn law_help_entries_have_places(
    v: Seq<(Seq<char>, Seq<char>)>,
    rows: int,
    cell: int,
    key_w: int,
    y0: int,
    h: int,
    s: Shades,
    i: int,
    j: int,
)
    requires
        0 <= i < v.len(),
        0 <= j < v.len(),
        i != j,
        0 < rows,
        0 < cell,
        y0 + rows <= h,
    ensures
        ({
            let g = grid_puts(v, v.len(), rows, cell, key_w, y0, h, s);
            &&& g.len() == 2 * v.len()
            &&& g[2 * i].text == v[i].0 && g[2 * i + 1].text == v[i].1
            &&& g[2 * i + 1].x == g[2 * i].x + key_w + 2 && g[2 * i + 1].y == g[2 * i].y
            &&& y0 <= g[2 * i].y < y0 + rows
            &&& g[2 * i].x != g[2 * j].x || g[2 * i].y != g[2 * j].y
        }),
{
    lemma_grid_at(v, v.len(), rows, cell, key_w, y0, h, s, i);
    lemma_grid_at(v, v.len(), rows, cell, key_w, y0, h, s, j);
    vstd::arithmetic::div_mod::lemma_mod_bound(i, rows);
    vstd::arithmetic::div_mod::lemma_fundamental_div_mod(i, rows);
    vstd::arithmetic::div_mod::lemma_fundamental_div_mod(j, rows);
    let p = i / rows;
    let q = j / rows;
    if i % rows == j % rows {
        assert(p != q) by {
            if p == q {
                assert(rows * p == rows * q);
            }
        }
        assert(p * cell != q * cell) by (nonlinear_arith)
            requires
                p != q,
                cell > 0,
        ;
    }
}

/// The columns that some texts take.
pub open spec fn bits_width(v: Seq<Bit>, m: Metrics) -> nat
    decreases v.len(),
{
    if v.len() == 0 {
        0
    } else {
        bits_width(v.drop_last(), m) + cells::cluster_width(cells::graphemes(v.last().0, m))
    }
}

/// Texts that have room are all written, each behind the one before it, in its
/// own style.
pub proof fn law_texts_are_written(v: Seq<Bit>, x: int, end: int, row: int, m: Metrics, i: int)
    requires
        0 <= i < v.len(),
    ensures
        x + bits_width(v, m) < end ==> {
            let w = written(v, x, end, row, m);
            &&& w.len() == v.len()
            &&& w[i].x == x + bits_width(v.take(i), m)
            &&& w[i].y == row
            &&& w[i].style == v[i].1
            &&& w[i].text == cells::cluster_text(cells::graphemes(v[i].0, m))
            &&& written_to(v, x, end, m) == x + bits_width(v, m)
        },
    decreases v.len(),
{
    if x + bits_width(v, m) < end {
        let d = v.drop_last();
        let c = cells::graphemes(v.last().0, m);
        let at = x + bits_width(d, m);
        if d.len() > 0 {
            law_texts_are_written(d, x, end, row, m, 0);
        }
        assert(written_to(d, x, end, m) == at);
        cells::law_fit_is_longest(c, (end - at) as nat, c.len());
        assert(c.take(c.len() as int) =~= c);
        if i < d.len() {
            law_texts_are_written(d, x, end, row, m, i);
            assert(d.take(i) =~= v.take(i));
        } else {
            assert(v.take(i) =~= d);
        }
    }
}

} // verus!
