//! Drawing the whole screen.
use crate::body;
use crate::body::Body;
use crate::diff;
use crate::draw;
use crate::draw::{Brush, Put, PutV};
use crate::footer;
use crate::footer::{Footer, FooterV};
use crate::geometry;
use crate::geometry::Pane;
use crate::list;
use crate::list::Side;
use crate::modal;
use crate::palette::{Shades, Style};
use crate::rows;
use crate::rows::Row;
use crate::select;
use crate::tui;
use crate::tui::{App, AppV, ModalHit, Page, Sel, Setup, Ui};
use vstd::prelude::*;

verus! {

/// The colors of the screen.
pub struct Look {
    pub shades: Shades,
    /// Whether code is colored by its syntax.
    pub syntax: bool,
}

/// The colors of a setup.
pub open spec fn look_of(s: Setup) -> Look {
    Look { shades: s.theme, syntax: s.config@.syntax && s.config@.theme != "ansi"@ }
}

/// A run of columns `[from, to)` of a screen row.
pub type Run = (int, int, int);

/// The runs of marks.
pub open spec fn runs(v: Seq<(u32, u32, u32)>) -> Seq<Run> {
    v.map_values(|r: (u32, u32, u32)| (r.0 as int, r.1 as int, r.2 as int))
}

/// The run on screen row `y` of the cells `[from, to)` of `len` cells that
/// begin at column `at`, the first `off` of them scrolled out; it stops at
/// column `edge`.
pub open spec fn run_between(
    y: int,
    at: int,
    from: int,
    to: int,
    len: int,
    off: int,
    edge: int,
) -> Seq<Run> {
    let sx = geometry::lesser(
        at + geometry::minus(geometry::lesser(from, len), off),
        edge,
    );
    let ex = geometry::lesser(at + geometry::minus(geometry::lesser(to, len), off), edge);
    if ex > sx {
        seq![(y, sx, ex)]
    } else {
        Seq::empty()
    }
}

/// A highlight stays between where the content begins and the edge.
pub proof fn law_highlight_stays_in_body(
    y: int,
    at: int,
    from: int,
    to: int,
    len: int,
    off: int,
    edge: int,
)
    requires
        0 <= from,
        0 <= to,
        0 <= len,
        0 <= off,
    ensures
        forall|i: int|
            0 <= i < run_between(y, at, from, to, len, off, edge).len() ==> {
                let r = #[trigger] run_between(y, at, from, to, len, off, edge)[i];
                r.0 == y && at <= r.1 < r.2 <= edge && r.2 <= at + len
            },
{
}

fn cut_run(y: u16, at: usize, from: usize, to: usize, len: usize, off: usize, edge: usize) -> (r:
    Option<(u32, u32, u32)>)
    requires
        at <= 0x20000,
        edge <= 0xffff,
    ensures
        match r {
            Some(x) => run_between(
                y as int,
                at as int,
                from as int,
                to as int,
                len as int,
                off as int,
                edge as int,
            ) == seq![(x.0 as int, x.1 as int, x.2 as int)],
            None => run_between(
                y as int,
                at as int,
                from as int,
                to as int,
                len as int,
                off as int,
                edge as int,
            ) == Seq::<Run>::empty(),
        },
{
    let from: usize = if from < len {
        from
    } else {
        len
    };
    let to: usize = if to < len {
        to
    } else {
        len
    };
    let sx = stop_at(at, from.saturating_sub(off), edge);
    let ex = stop_at(at, to.saturating_sub(off), edge);
    if ex > sx {
        Some((y as u32, sx as u32, ex as u32))
    } else {
        None
    }
}

impl AppV {
    /// The column where a highlight has to stop: the edge of the body, or of
    /// the left pane.
    pub open spec fn mark_edge(&self, s: Sel, share: u16) -> int {
        let f = self.frame(share);
        let right = if f.sidebar_left {
            f.width as int
        } else {
            f.width - f.side_w()
        };
        if s.pane == Some(Pane::Left) {
            geometry::lesser(f.split_edge(), right)
        } else {
            right
        }
    }

    /// The run of a row that a selection covers on the screen.
    #[verifier::opaque]
    pub open spec fn run_of(&self, s: Sel, r: int, share: u16) -> Seq<Run> {
        let v = self.rows();
        let (sr, sc, er, ec) = s.span();
        let last = select::last_row(s, v.len());
        if r < sr || r > last || !select::in_pane(v[r].kind, s.pane) {
            Seq::empty()
        } else {
            let len = v[r].content.len() as int;
            run_between(
                r - self.ui.scroll,
                self.frame(share).text_at(v[r].kind, s.pane),
                if r == sr {
                    sc as int
                } else {
                    0
                },
                if r == last {
                    ec as int
                } else {
                    len
                },
                len,
                self.hidden(v[r].kind),
                self.mark_edge(s, share),
            )
        }
    }

    /// The runs of the first `n` screen rows that a selection covers.
    pub open spec fn marked(&self, s: Sel, share: u16, n: nat) -> Seq<Run>
        decreases n,
    {
        if n == 0 {
            Seq::empty()
        } else {
            self.marked(s, share, (n - 1) as nat) + self.run_of(
                s,
                self.ui.scroll + n - 1,
                share,
            )
        }
    }

    /// How diff rows are drawn.
    pub open spec fn brush(&self, l: Look) -> Brush {
        Brush {
            shades: l.shades,
            metrics: self.ui.layout.metrics,
            line_numbers: self.setup.line_numbers,
            syntax: l.syntax,
            pan: self.ui.pan,
        }
    }

    /// The place of the diff body.
    pub open spec fn body_place(&self, share: u16) -> Body {
        let f = self.frame(share);
        Body {
            x: f.body_at() as u16,
            width: f.body_w() as u16,
            height: f.body_rows() as u16,
            scroll: self.ui.scroll,
            cursor: if self.ui.page == Page::Diff {
                Some(self.ui.cursor)
            } else {
                None
            },
        }
    }

    /// The diff body.
    #[verifier::opaque]
    pub open spec fn body_drawn(&self, l: Look, share: u16) -> Seq<PutV> {
        let o = self.body_place(share);
        if self.ui.split && o.width >= 5 {
            body::two_panes(
                self.brush(l),
                self.rows(),
                o,
                geometry::left_share(o.width as int, share as int),
                o.height as nat,
            )
        } else {
            body::unified(self.brush(l), self.rows(), o, o.height as nat)
        }
    }

    /// The place of the sidebar.
    pub open spec fn side_place(&self, share: u16) -> Side {
        let f = self.frame(share);
        Side {
            x: if f.sidebar_left {
                0
            } else {
                (f.width - f.side_w()) as u16
            },
            w: f.side_w() as u16,
            height: f.body_rows() as u16,
            left: f.sidebar_left,
            start: self.window(f.body_rows()) as usize,
            selected: self.ui.selected,
        }
    }

    /// The sidebar, if it is showing.
    #[verifier::opaque]
    pub open spec fn side_drawn(&self, l: Look, share: u16) -> Seq<PutV> {
        if self.frame(share).sidebar {
            let o = self.side_place(share);
            list::side_rows(
                o,
                self.files,
                self.ui.layout.metrics,
                l.shades,
                o.height as nat,
            )
        } else {
            Seq::empty()
        }
    }

    /// What the footer tells.
    pub open spec fn footer(&self) -> FooterV {
        FooterV {
            width: self.ui.layout.width,
            row: self.vh() as u16,
            metrics: self.ui.layout.metrics,
            watch: self.ui.watch,
            totals: diff::totals_of(self.files),
            file: list::file_at(self.files, self.ui.selected as int),
            note: match self.typing {
                Some(t) => Some("/"@ + t),
                None => match self.flash {
                    Some(f) => Some(f.0),
                    None => None,
                },
            },
        }
    }

    /// The help grid, if it is open.
    #[verifier::opaque]
    pub open spec fn help_drawn(&self, l: Look) -> Seq<PutV> {
        if self.ui.layout.help_open {
            footer::help_drawn(
                self.ui.layout.width,
                self.ui.layout.metrics,
                self.vh() + 1,
                self.ui.layout.height as int,
                l.shades,
            )
        } else {
            Seq::empty()
        }
    }

    /// The floating file list, if it is open.
    #[verifier::opaque]
    pub open spec fn list_drawn(&self, l: Look) -> Seq<PutV> {
        if self.ui.page == Page::Stat {
            modal::modal_drawn(
                self.files,
                self.ui.selected as int,
                self.ui.layout.width,
                self.ui.layout.height,
                self.ui.modal_pos,
                self.ui.layout.metrics,
                l.shades,
            )
        } else {
            Seq::empty()
        }
    }

    /// Whether the screen is too small to show anything.
    pub open spec fn too_small(&self) -> bool {
        self.ui.layout.width < 20 || self.ui.layout.height < 4
    }

    /// The screen: the diff body, the sidebar beside it, the footer below,
    /// then the help grid, and the file list above everything.
    pub open spec fn picture(&self, l: Look, share: u16) -> Seq<PutV> {
        if self.too_small() {
            seq![PutV { x: 0, y: 0, text: "terminal too small"@, style: Style::plain() }]
        } else {
            self.body_drawn(l, share) + self.side_drawn(l, share) + self.footer().drawn(l.shades)
                + self.help_drawn(l) + self.list_drawn(l)
        }
    }

    /// The highlights on top of the screen.
    pub open spec fn highlights(&self, share: u16) -> Seq<Run> {
        if self.too_small() {
            Seq::empty()
        } else {
            match self.ui.sel {
                Some(s) => self.marked(s, share, self.vh() as nat),
                None => Seq::empty(),
            }
        }
    }

    /// With the places of what can be clicked.
    pub open spec fn rendered(self) -> AppV {
        if self.too_small() {
            self
        } else {
            AppV {
                ui: Ui {
                    help_badge_x: self.footer().help_x() as u16,
                    modal_hit: if self.ui.page == Page::Stat {
                        modal::modal_place(
                            self.files,
                            self.ui.selected as int,
                            self.ui.layout.width,
                            self.ui.layout.height,
                            self.ui.modal_pos,
                            self.ui.layout.metrics,
                        )
                    } else {
                        self.ui.modal_hit
                    },
                    ..self.ui
                },
                ..self
            }
        }
    }

    /// Whether the screen can be drawn: the file list needs 34 columns.
    pub open spec fn drawable(&self) -> bool {
        self.ui.page == Page::Stat && self.files.len() > 0 && !self.too_small()
            ==> self.ui.layout.width >= 34
    }
}

/// What to paint on the screen: the texts, then the runs to be reversed.
#[derive(Debug, Clone)]
pub struct Picture {
    pub puts: Vec<Put>,
    pub marks: Vec<(u32, u32, u32)>,
}

impl App {
    fn brush(&self) -> (r: Brush)
        ensures
            r == self@.brush(look_of(self.setup)),
    {
        Brush {
            shades: self.setup.theme,
            metrics: self.ui.layout.metrics,
            line_numbers: self.setup.config.line_numbers,
            syntax: self.setup.config.syntax_enabled(),
            pan: self.ui.pan,
        }
    }

    fn draw_body(&self, out: &mut Vec<Put>, share: u16)
        requires
            self@.ui.split ==> self@.frame(share).body_w() >= 5,
        ensures
            draw::put_views(final(out)@) == draw::put_views(old(out)@) + self@.body_drawn(
                look_of(self.setup),
                share,
            ),
    {
        reveal(AppV::body_drawn);
        let f = self.frame(share);
        let u = self.ui();
        let o = Body {
            x: f.body_x(),
            width: f.body_width(),
            height: f.viewport_rows() as u16,
            scroll: u.scroll,
            cursor: if u.page == Page::Diff {
                Some(u.cursor)
            } else {
                None
            },
        };
        let b = self.brush();
        let none: Vec<Row> = Vec::new();
        assert(rows::row_views(none@) =~= Seq::<rows::RowV>::empty());
        let v = match self.rows() {
            Some(v) => v,
            None => &none,
        };
        if u.split {
            body::render_split(out, &b, v, o, share);
        } else {
            body::render_diff(out, &b, v, o);
        }
    }

    fn draw_side(&self, out: &mut Vec<Put>, share: u16)
        requires
            self@.ui.layout.width >= 4,
            self@.wf(),
        ensures
            draw::put_views(final(out)@) == draw::put_views(old(out)@) + self@.side_drawn(
                look_of(self.setup),
                share,
            ),
    {
        reveal(AppV::side_drawn);
        let f = self.frame(share);
        let ghost before = draw::put_views(out@);
        if !f.sidebar {
            assert(before + Seq::<PutV>::empty() =~= before);
            return;
        }
        let sw = f.sidebar_w();
        proof {
            tui::lemma_frame(self@, share);
            geometry::law_sidebar_at_most_half(f);
        }
        let height = f.viewport_rows();
        let o = Side {
            x: if f.sidebar_left {
                0
            } else {
                f.width - sw
            },
            w: sw,
            height: height as u16,
            left: f.sidebar_left,
            start: self.file_window(height),
            selected: self.ui.selected,
        };
        assert(diff::file_views(self.files@).len() == self.files@.len());
        list::render_sidebar(out, o, &self.files, self.ui.layout.metrics, &self.setup.theme);
    }

    fn draw_footer(&self, out: &mut Vec<Put>) -> (r: u16)
        ensures
            draw::put_views(final(out)@) == draw::put_views(old(out)@) + self@.footer().drawn(
                self.setup.theme,
            ),
            r == self@.footer().help_x(),
    {
        let note = match &self.typing {
            Some(t) => {
                let mut n = "/".to_owned();
                n.push_str(t.as_str());
                Some(n)
            },
            None => match &self.flash {
                Some((t, _)) => Some(t.clone()),
                None => None,
            },
        };
        assert(diff::file_views(self.files@).len() == self.files@.len());
        let sel = self.ui.selected;
        let file = if sel < self.files.len() {
            assert(self@.files[sel as int] == self.files@[sel as int]@);
            Some(&self.files[sel])
        } else {
            None
        };
        let foot = Footer {
            width: self.ui.layout.width,
            row: self.viewport_rows() as u16,
            metrics: self.ui.layout.metrics,
            watch: self.ui.watch,
            totals: diff::totals(&self.files),
            file,
            note,
        };
        assert(foot@ =~= self@.footer());
        foot.render_footer(out, &self.setup.theme)
    }

    fn draw_help(&self, out: &mut Vec<Put>)
        requires
            self@.ui.layout.height > 0,
        ensures
            draw::put_views(final(out)@) == draw::put_views(old(out)@) + self@.help_drawn(
                look_of(self.setup),
            ),
    {
        reveal(AppV::help_drawn);
        let l = self.ui().layout;
        let ghost before = draw::put_views(out@);
        if l.help_open {
            let vh = self.viewport_rows() as u16;
            proof {
                tui::lemma_frame(self@, 0);
            }
            footer::render_help_grid(
                out,
                l.width,
                l.metrics,
                vh + 1,
                l.height,
                &self.setup.theme,
            );
        } else {
            assert(before + Seq::<PutV>::empty() =~= before);
        }
    }

    fn draw_list(&self, out: &mut Vec<Put>) -> (r: Option<ModalHit>)
        requires
            self@.wf(),
            self@.drawable(),
            !self@.too_small(),
        ensures
            draw::put_views(final(out)@) == draw::put_views(old(out)@) + self@.list_drawn(
                look_of(self.setup),
            ),
            r == self@.rendered().ui.modal_hit,
    {
        reveal(AppV::list_drawn);
        let u = self.ui();
        let ghost before = draw::put_views(out@);
        if u.page == Page::Stat {
            assert(diff::file_views(self.files@).len() == self.files@.len());
            modal::render_stat_modal(
                out,
                &self.files,
                u.selected,
                u.layout.width,
                u.layout.height,
                u.modal_pos,
                u.layout.metrics,
                &self.setup.theme,
            )
        } else {
            assert(before + Seq::<PutV>::empty() =~= before);
            u.modal_hit
        }
    }

    /// The column where a highlight has to stop.
    fn highlight_edge(&self, s: Sel, share: u16) -> (r: usize)
        requires
            s.pane is Some ==> self@.frame(share).body_w() >= 5,
        ensures
            r == self@.mark_edge(s, share),
            r <= 0xffff,
    {
        let f = self.frame(share);
        let right: u16 = if f.sidebar_left {
            f.width
        } else {
            f.width - f.sidebar_w()
        };
        match s.pane {
            Some(Pane::Left) => {
                let div = f.split_div_x();
                if div < right {
                    div as usize
                } else {
                    right as usize
                }
            },
            _ => right as usize,
        }
    }

    /// The run of the row on screen row `k` that a selection covers.
    fn highlight_row(&self, s: Sel, k: u16, share: u16) -> (r: Option<(u32, u32, u32)>)
        requires
            s.pane is Some ==> self@.frame(share).body_w() >= 5,
        ensures
            match r {
                Some(x) => self@.run_of(s, self@.ui.scroll + k, share) == seq![
                    (x.0 as int, x.1 as int, x.2 as int),
                ],
                None => self@.run_of(s, self@.ui.scroll + k, share) == Seq::<Run>::empty(),
            },
    {
        reveal(AppV::run_of);
        let n = self.row_count();
        let scroll = self.ui().scroll;
        let (sr, sc, er, ec) = s.ordered();
        if n == 0 || scroll >= n || k as usize >= n - scroll {
            return None;
        }
        let row: usize = scroll + k as usize;
        let last: usize = if er < n - 1 {
            er
        } else {
            n - 1
        };
        if row < sr || row > last || !App::row_in_pane(self.kind_at(row), s.pane) {
            return None;
        }
        let kind = self.kind_at(row);
        let at = self.frame(share).pane_geom(kind, s.pane);
        let len = self.cells_at(row);
        let from: usize = if row == sr {
            sc
        } else {
            0
        };
        let to: usize = if row == last {
            ec
        } else {
            len
        };
        let off: usize = if geometry::code(kind) {
            self.ui().pan
        } else {
            0
        };
        cut_run(k, at, from, to, len, off, self.highlight_edge(s, share))
    }

    /// The selected content cells of the visible rows, to be shown in reverse
    /// video on top of the freshly drawn frame.
    pub fn paint_selection(&self, s: Sel, share: u16) -> (r: Vec<(u32, u32, u32)>)
        requires
            s.pane is Some ==> self@.frame(share).body_w() >= 5,
        ensures
            runs(r@) == self@.marked(s, share, self@.vh() as nat),
    {
        let mut out: Vec<(u32, u32, u32)> = Vec::new();
        let vh = self.viewport_rows() as u16;
        assert(runs(out@) =~= Seq::<Run>::empty());
        for k in 0..vh
            invariant
                s.pane is Some ==> self@.frame(share).body_w() >= 5,
                runs(out@) == self@.marked(s, share, k as nat),
        {
            let ghost before = out@;
            match self.highlight_row(s, k, share) {
                Some(x) => {
                    out.push(x);
                    assert(runs(out@) =~= runs(before) + seq![
                        (x.0 as int, x.1 as int, x.2 as int),
                    ]);
                },
                None => {
                    assert(runs(before) + Seq::<Run>::empty() =~= runs(before));
                },
            }
        }
        out
    }

    /// Whether the screen can be drawn.
    pub fn is_drawable(&self) -> (r: bool)
        ensures
            r == self@.drawable(),
    {
        let u = self.ui();
        let l = u.layout;
        let small = l.width < 20 || l.height < 4;
        u.page != Page::Stat || self.file_count() == 0 || small || l.width >= 34
    }

    /// Draw the screen, and note where what can be clicked is.
    #[verifier::rlimit(40)]
    pub fn render(&mut self, share: u16) -> (r: Picture)
        requires
            old(self)@.wf(),
            old(self)@.drawable(),
        ensures
            draw::put_views(r.puts@) == old(self)@.picture(look_of(old(self).setup), share),
            runs(r.marks@) == old(self)@.highlights(share),
            final(self)@ == old(self)@.rendered(),
            final(self)@.wf(),
            final(self).setup == old(self).setup,
    {
        let mut puts = draw::blank();
        let mut marks: Vec<(u32, u32, u32)> = Vec::new();
        assert(runs(marks@) =~= Seq::<Run>::empty());
        let u = self.ui();
        if u.layout.width < 20 || u.layout.height < 4 {
            draw::put(&mut puts, 0, 0, "terminal too small".to_owned(), Style::new());
            assert(draw::put_views(puts@) =~= self@.picture(look_of(self.setup), share));
            return Picture { puts, marks };
        }
        proof {
            tui::lemma_frame(self@, share);
            geometry::law_sidebar_at_most_half(self@.frame(share));
        }
        self.draw_body(&mut puts, share);
        self.draw_side(&mut puts, share);
        let help_badge_x = self.draw_footer(&mut puts);
        self.draw_help(&mut puts);
        let modal_hit = self.draw_list(&mut puts);
        if let Some(s) = u.sel {
            marks = self.paint_selection(s, share);
        }
        assert(draw::put_views(puts@) =~= self@.picture(look_of(self.setup), share));
        self.set_ui(Ui { help_badge_x, modal_hit, ..u });
        Picture { puts, marks }
    }
}

/// `at + n`, but not beyond `edge`.
fn stop_at(at: usize, n: usize, edge: usize) -> (r: usize)
    requires
        at <= 0x20000,
        edge <= 0xffff,
    ensures
        r == geometry::lesser(at + n, edge as int),
        r <= 0xffff,
{
    if at >= edge || n >= edge - at {
        edge
    } else {
        at + n
    }
}

/// What is marked on the screen is what is copied: the run of a row that is in
/// view covers the cells that the copy takes of it, each at the column where
/// it is drawn.
pub proof fn law_marks_are_what_is_copied(a: AppV, s: Sel, r: int, share: u16) -> (p: (int, int))
    requires
        s.span().0 <= r <= s.span().2,
        0 <= r < a.rows().len(),
        select::in_pane(a.rows()[r].kind, s.pane),
        a.rows()[r].content.len() <= usize::MAX,
    ensures
        ({
            let c = a.rows()[r].content;
            let at = a.frame(share).text_at(a.rows()[r].kind, s.pane);
            let edge = a.mark_edge(s, share);
            let (from, to) = p;
            &&& 0 <= from && 0 <= to
            &&& select::row_part(a.rows(), s, r) == crate::cells::cells_text(
                c,
                from as nat,
                to as nat,
            )
            &&& a.hidden(a.rows()[r].kind) <= from < to <= c.len() && at + to - a.hidden(
                a.rows()[r].kind,
            ) <= edge ==> a.run_of(s, r, share) == seq![
                (
                    r - a.ui.scroll,
                    at + from - a.hidden(a.rows()[r].kind),
                    at + to - a.hidden(a.rows()[r].kind),
                ),
            ]
            &&& a.hidden(a.rows()[r].kind) <= from < to <= c.len() && at + from - a.hidden(
                a.rows()[r].kind,
            ) < edge <= at + to - a.hidden(a.rows()[r].kind) ==> a.run_of(s, r, share) == seq![
                (r - a.ui.scroll, at + from - a.hidden(a.rows()[r].kind), edge),
            ]
            &&& to <= from ==> a.run_of(s, r, share) == Seq::<Run>::empty()
        }),
{
    reveal(AppV::run_of);
    let v = a.rows();
    let last = select::last_row(s, v.len());
    let len = v[r].content.len() as int;
    let from = if r == s.span().0 {
        s.span().1 as int
    } else {
        0
    };
    let to = if r == last {
        s.span().3 as int
    } else {
        len
    };
    if r != last {
        crate::cells::law_copied_range_stops_at_the_end(
            v[r].content,
            from as nat,
            usize::MAX as nat,
        );
    }
    (from, to)
}

/// A row that the selection does not cover, or that is not in its pane, is not
/// marked.
pub proof fn law_other_rows_are_not_marked(a: AppV, s: Sel, r: int, share: u16)
    requires
        r < s.span().0 || r > s.span().2 || r >= a.rows().len() || !select::in_pane(
            a.rows()[r].kind,
            s.pane,
        ),
    ensures
        a.run_of(s, r, share) == Seq::<Run>::empty(),
{
    reveal(AppV::run_of);
}

/// The marks of a selection are those of the rows in view.
pub proof fn law_marks_are_those_in_view(a: AppV, s: Sel, share: u16, n: nat, k: int) -> (at: int)
    requires
        0 <= k < n,
    ensures
        ({
            let all = a.marked(s, share, n);
            let row = a.run_of(s, a.ui.scroll + k, share);
            0 <= at && at + row.len() <= all.len() && all.subrange(at, at + row.len()) == row
        }),
    decreases n,
{
    let m = (n - 1) as nat;
    let before = a.marked(s, share, m);
    let all = a.marked(s, share, n);
    let row = a.run_of(s, a.ui.scroll + k, share);
    if k == m {
        assert(all.subrange(before.len() as int, all.len() as int) =~= row);
        before.len() as int
    } else {
        let at = law_marks_are_those_in_view(a, s, share, m, k);
        assert(all.subrange(at, at + row.len()) =~= before.subrange(at, at + row.len()));
        at
    }
}

/// The footer stands on the row below the viewport, and the help grid below
/// it; the body and the sidebar are above.
pub proof fn law_footer_is_below(a: AppV, l: Look, share: u16)
    requires
        a.ui.layout.height > 0,
    ensures
        a.vh() < a.ui.layout.height,
        a.footer().row == a.vh(),
        a.body_place(share).height == a.vh(),
        a.side_place(share).height == a.vh(),
        a.body_place(share).scroll == a.ui.scroll,
        a.side_place(share).selected == a.ui.selected,
        a.body_place(share).cursor == if a.ui.page == Page::Diff {
            Some(a.ui.cursor)
        } else {
            None
        },
{
    tui::lemma_frame(a, share);
}

/// The footer tells the note, or the pattern while it is typed.
pub proof fn law_footer_note(a: AppV)
    ensures
        a.typing is Some ==> a.footer().note == Some("/"@ + a.typing->0),
        a.typing is None ==> a.footer().note == match a.flash {
            Some((t, _)) => Some(t),
            None => None,
        },
        a.footer().watch == a.ui.watch,
        a.ui.selected < a.files.len() ==> a.footer().file == Some(a.files[a.ui.selected as int]),
        a.footer().totals == diff::totals_of(a.files),
{
}

/// A drawing that is part of another.
pub open spec fn holds(all: Seq<PutV>, part: Seq<PutV>) -> bool {
    exists|at: int|
        0 <= at && at + part.len() <= all.len() && #[trigger] all.subrange(at, at + part.len())
            == part
}

/// The screen shows the body, the footer, and where they are open the sidebar,
/// the help grid and the file list. In the split view the body is in two
/// panes, as far as there is room.
pub proof fn law_screen_shows_all(a: AppV, l: Look, share: u16)
    requires
        a.ui.layout.width >= 20,
        a.ui.layout.height >= 4,
    ensures
        ({
            let all = a.picture(l, share);
            let o = a.body_place(share);
            let b = a.brush(l);
            &&& !(a.ui.split && o.width >= 5) ==> holds(
                all,
                body::unified(b, a.rows(), o, a.vh() as nat),
            )
            &&& a.ui.split && o.width >= 5 ==> holds(
                all,
                body::two_panes(
                    b,
                    a.rows(),
                    o,
                    geometry::left_share(o.width as int, share as int),
                    a.vh() as nat,
                ),
            )
            &&& holds(all, a.footer().drawn(l.shades))
            &&& a.sidebar_on() ==> holds(
                all,
                list::side_rows(
                    a.side_place(share),
                    a.files,
                    a.ui.layout.metrics,
                    l.shades,
                    a.vh() as nat,
                ),
            )
            &&& a.ui.layout.help_open ==> holds(
                all,
                footer::help_drawn(
                    a.ui.layout.width,
                    a.ui.layout.metrics,
                    a.vh() + 1,
                    a.ui.layout.height as int,
                    l.shades,
                ),
            )
            &&& a.ui.page == Page::Stat ==> holds(
                all,
                modal::modal_drawn(
                    a.files,
                    a.ui.selected as int,
                    a.ui.layout.width,
                    a.ui.layout.height,
                    a.ui.modal_pos,
                    a.ui.layout.metrics,
                    l.shades,
                ),
            )
        }),
{
    reveal(AppV::body_drawn);
    reveal(AppV::side_drawn);
    reveal(AppV::help_drawn);
    reveal(AppV::list_drawn);
    tui::lemma_frame(a, share);
    let all = a.picture(l, share);
    let d = a.body_drawn(l, share);
    let e = a.side_drawn(l, share);
    let f = a.footer().drawn(l.shades);
    let g = a.help_drawn(l);
    let h = a.list_drawn(l);
    let none = Seq::<PutV>::empty();
    assert(all =~= none + d + (e + f + g + h));
    assert(all =~= d + e + (f + g + h));
    assert(all =~= (d + e) + f + (g + h));
    assert(all =~= (d + e + f) + g + h);
    assert(all =~= (d + e + f + g) + h + none);
    lemma_holds(none, d, e + f + g + h);
    lemma_holds(d, e, f + g + h);
    lemma_holds(d + e, f, g + h);
    lemma_holds(d + e + f, g, h);
    lemma_holds(d + e + f + g, h, none);
}

proof fn lemma_holds(a: Seq<PutV>, b: Seq<PutV>, c: Seq<PutV>)
    ensures
        holds(a + b + c, b),
{
    let at = a.len() as int;
    assert((a + b + c).subrange(at, at + b.len()) =~= b);
}

/// How code is drawn follows the settings: line numbers, colors of the syntax
/// and the columns scrolled out.
pub proof fn law_brush_follows_the_settings(a: AppV, s: Setup)
    ensures
        ({
            let b = a.brush(look_of(s));
            &&& b.line_numbers == a.setup.line_numbers
            &&& b.pan == a.ui.pan
            &&& b.shades == s.theme
            &&& b.syntax <==> s.config@.syntax && s.config@.theme != "ansi"@
        }),
{
}

/// A highlight stops where the body ends, or at the divider in the left pane.
pub proof fn law_highlight_edge(a: AppV, s: Sel, share: u16)
    ensures
        ({
            let f = a.frame(share);
            let right = if f.sidebar_left {
                f.width as int
            } else {
                f.width - f.side_w()
            };
            &&& s.pane != Some(Pane::Left) ==> a.mark_edge(s, share) == right
            &&& s.pane == Some(Pane::Left) && f.split_edge() <= right ==> a.mark_edge(s, share)
                == f.split_edge()
        }),
{
}

/// What was drawn can be clicked: the help badge and the file list are where
/// they were last painted.
pub proof fn law_clicks_meet_what_was_drawn(a: AppV)
    requires
        a.ui.layout.width >= 20,
        a.ui.layout.height >= 4,
    ensures
        ({
            let b = a.rendered();
            &&& b.ui.help_badge_x == a.footer().help_x() as u16
            &&& a.ui.page == Page::Stat ==> b.ui.modal_hit == modal::modal_place(
                a.files,
                a.ui.selected as int,
                a.ui.layout.width,
                a.ui.layout.height,
                a.ui.modal_pos,
                a.ui.layout.metrics,
            )
            &&& b == AppV {
                ui: Ui { help_badge_x: b.ui.help_badge_x, modal_hit: b.ui.modal_hit, ..a.ui },
                ..a
            }
        }),
{
}

} // verus!
