//! The state of the viewer: which file, row and columns are on the screen,
//! and how events change that.
use crate::cells::Metrics;
use crate::config::Config;
use crate::diff;
use crate::diff::FileDiff;
use crate::geometry;
use crate::geometry::{Frame, Pane};
use crate::git::{Knobs, Opts, Source};
use crate::help;
use crate::highlight::{Highlighter, Progress};
use crate::palette::Shades;
use crate::rows;
use crate::rows::{Row, RowKind, RowV};
use crate::text;
use std::sync::Arc;
use vstd::prelude::*;

verus! {

/// Which top-level view is showing.
#[derive(Debug, Clone, Copy, PartialEq, Eq, Structural)]
pub enum Page {
    Diff,
    Stat,
}

/// A mouse text selection anchored to the content model (not the screen), so
/// it survives scrolling and can span more rows than fit on screen. `a_*` is
/// where the drag began, `c_*` follows the pointer. `col` is a cell index
/// into the row's content cells (span text only: no gutter, no +/- sign).
#[derive(Debug, Clone, Copy, PartialEq, Eq, Structural)]
pub struct Sel {
    pub a_row: usize,
    pub a_col: usize,
    pub c_row: usize,
    pub c_col: usize,
    pub dragging: bool,
    /// Which split pane the selection is confined to; `None` in unified view.
    pub pane: Option<Pane>,
}

/// Whether one position stands before another in reading order, or is it.
pub open spec fn reads_before(a: (usize, usize), b: (usize, usize)) -> bool {
    a.0 < b.0 || (a.0 == b.0 && a.1 <= b.1)
}

impl Sel {
    /// The ends of the selection in reading order.
    pub open spec fn span(&self) -> (usize, usize, usize, usize) {
        if reads_before((self.a_row, self.a_col), (self.c_row, self.c_col)) {
            (self.a_row, self.a_col, self.c_row, self.c_col)
        } else {
            (self.c_row, self.c_col, self.a_row, self.a_col)
        }
    }

    /// (start_row, start_col, end_row, end_col) in reading order.
    pub fn ordered(&self) -> (r: (usize, usize, usize, usize))
        ensures
            r == self.span(),
            reads_before((r.0, r.1), (r.2, r.3)),
    {
        if self.a_row < self.c_row || (self.a_row == self.c_row && self.a_col <= self.c_col) {
            (self.a_row, self.a_col, self.c_row, self.c_col)
        } else {
            (self.c_row, self.c_col, self.a_row, self.a_col)
        }
    }

    /// Whether the selection covers nothing.
    pub fn is_empty(&self) -> (r: bool)
        ensures
            r == ((self.a_row, self.a_col) == (self.c_row, self.c_col)),
    {
        self.a_row == self.c_row && self.a_col == self.c_col
    }
}

/// A selection dragged the other way round has the same ends.
pub proof fn law_drag_direction_is_irrelevant(s: Sel)
    ensures
        s.span() == (Sel {
            a_row: s.c_row,
            a_col: s.c_col,
            c_row: s.a_row,
            c_col: s.a_col,
            ..s
        }).span(),
{
}

/// Where the file list was drawn: the corners of its box, the first row of
/// the list, how many rows it has and the first file in it.
#[derive(Debug, Clone, Copy, PartialEq, Eq, Structural)]
pub struct ModalHit {
    pub x0: u16,
    pub y0: u16,
    pub x1: u16,
    pub y1: u16,
    pub list_y: u16,
    pub list_h: usize,
    pub start: usize,
}

/// A click on the body: when, in milliseconds, and where.
#[derive(Debug, Clone, Copy, PartialEq, Eq, Structural)]
pub struct LastClick {
    pub at: u64,
    pub x: u16,
    pub y: u16,
}

/// What the layout depends on besides the configuration.
#[derive(Debug, Clone, Copy)]
pub struct Layout {
    /// The size of the screen.
    pub width: u16,
    pub height: u16,
    /// How the screen measures text.
    pub metrics: Metrics,
    /// Sidebar override: `None` follows the configured rule, `Some(_)` is the
    /// user's toggle.
    pub sidebar: Option<bool>,
    /// Sidebar width from a mouse-drag resize; `None` follows the config.
    pub sidebar_width: Option<usize>,
    pub help_open: bool,
}

/// What the viewer shows, and how.
#[derive(Debug, Clone, Copy)]
pub struct Ui {
    pub layout: Layout,
    /// The file on the screen.
    pub selected: usize,
    /// Top visible row (viewport offset).
    pub scroll: usize,
    /// Selected/highlighted row within the diff.
    pub cursor: usize,
    /// Columns of content that are scrolled out to the left.
    pub pan: usize,
    pub page: Page,
    /// True while dragging the sidebar divider to resize it.
    pub resizing: bool,
    /// True while dragging the split divider to resize the two panes.
    pub resizing_split: bool,
    /// Last body left-click for double-click detection.
    pub last_click: Option<LastClick>,
    /// Side-by-side (split) diff rendering.
    pub split: bool,
    /// Screen x where the help badge of the footer starts.
    pub help_badge_x: u16,
    /// Clickable geometry of the file list from the last render.
    pub modal_hit: Option<ModalHit>,
    /// Top-left of the file list, once dragged; `None` is centered.
    pub modal_pos: Option<(u16, u16)>,
    /// While dragging the file list: the grab offset into its box.
    pub modal_drag: Option<(u16, u16)>,
    /// Whether watch mode reacts to changes.
    pub watch: bool,
    /// Extra lines of context on top of the base setting.
    pub expand: usize,
    /// Active mouse text selection.
    pub sel: Option<Sel>,
}

impl Ui {
    /// The state at startup.
    pub open spec fn initial(width: u16, height: u16, metrics: Metrics, watch: bool) -> Ui {
        Ui {
            layout: Layout {
                width,
                height,
                metrics,
                sidebar: None,
                sidebar_width: None,
                help_open: false,
            },
            selected: 0,
            scroll: 0,
            cursor: 0,
            pan: 0,
            page: Page::Diff,
            resizing: false,
            resizing_split: false,
            last_click: None,
            split: false,
            help_badge_x: 0,
            modal_hit: None,
            modal_pos: None,
            modal_drag: None,
            watch,
            expand: 0,
            sel: None,
        }
    }
}

/// What does not change while the viewer runs.
pub struct Setup {
    pub config: Config,
    pub theme: Shades,
    pub highlighter: Arc<Highlighter>,
    pub source: Source,
    pub opts: Opts,
    /// The root of the working tree.
    pub toplevel: Option<String>,
    /// The editor's command line.
    pub editor: String,
}

/// The viewer.
pub struct App {
    pub setup: Setup,
    pub files: Vec<FileDiff>,
    /// The raw unified-diff text for each file, in the same order as `files`,
    /// so an exact per-file patch can be copied without reconstructing it.
    pub raw_files: Vec<String>,
    /// Precomputed display rows per file, built lazily and kept until reload.
    pub row_cache: Vec<Option<Vec<Row>>>,
    pub ui: Ui,
    /// Last window title pushed to the terminal, to avoid redundant writes.
    pub title: String,
    /// Transient footer note with the time it was set, in milliseconds.
    pub flash: Option<(String, u64)>,
    /// Raw diff text last applied, so that a poll only rebuilds when the diff
    /// actually changed.
    pub last_diff: String,
    /// The search pattern while it is typed.
    pub typing: Option<String>,
    /// The search pattern that was last searched for.
    pub query: Option<String>,
}

/// The contents of the row cache.
pub open spec fn cache_views(v: Seq<Option<Vec<Row>>>) -> Seq<Option<Seq<RowV>>> {
    v.map_values(
        |o: Option<Vec<Row>>|
            match o {
                Some(r) => Some(rows::row_views(r@)),
                None => None,
            },
    )
}

/// The contents of an optional string.
pub open spec fn text_of(s: Option<String>) -> Option<Seq<char>> {
    match s {
        Some(t) => Some(t@),
        None => None,
    }
}

/// What the viewer's state depends on of its setup.
pub struct SetupV {
    /// Whether line numbers are shown.
    pub line_numbers: bool,
    /// When the sidebar opens.
    pub sidebar: Seq<char>,
    pub sidebar_width: usize,
    pub sidebar_side: Seq<char>,
    /// How display rows are made.
    pub making: rows::Making,
    /// The highlighting at the start of the file with a path.
    pub begin: spec_fn(Seq<char>) -> Option<Progress>,
    /// Whether the diff was piped in.
    pub piped: bool,
    /// Whether the diff shows the working tree.
    pub worktree: bool,
    pub opts: Knobs,
    pub toplevel: Option<Seq<char>>,
    pub editor: Seq<char>,
}

/// What the viewer's state depends on of its setup.
pub open spec fn setup_of(s: Setup) -> SetupV {
    SetupV {
        line_numbers: s.config@.line_numbers,
        sidebar: s.config@.sidebar,
        sidebar_width: s.config@.sidebar_width,
        sidebar_side: s.config@.sidebar_side,
        making: rows::Making {
            intraline: s.config@.intraline && s.config@.theme != "ansi"@,
            tab: s.config@.tab_width,
        },
        begin: |path: Seq<char>| s.highlighter.begin(path),
        piped: s.source is Stdin,
        worktree: s.source is Worktree,
        opts: s.opts@,
        toplevel: text_of(s.toplevel),
        editor: s.editor@,
    }
}

/// The contents of the viewer.
pub struct AppV {
    pub setup: SetupV,
    pub files: Seq<diff::FileV>,
    pub raw_files: Seq<Seq<char>>,
    pub cache: Seq<Option<Seq<RowV>>>,
    pub ui: Ui,
    pub title: Seq<char>,
    pub flash: Option<(Seq<char>, u64)>,
    pub last_diff: Seq<char>,
    pub typing: Option<Seq<char>>,
    pub query: Option<Seq<char>>,
}

impl View for App {
    type V = AppV;

    open spec fn view(&self) -> AppV {
        AppV {
            setup: setup_of(self.setup),
            files: diff::file_views(self.files@),
            raw_files: text::texts(self.raw_files@),
            cache: cache_views(self.row_cache@),
            ui: self.ui,
            title: self.title@,
            flash: match self.flash {
                Some(f) => Some((f.0@, f.1)),
                None => None,
            },
            last_diff: self.last_diff@,
            typing: text_of(self.typing),
            query: text_of(self.query),
        }
    }
}

/// Whether a sidebar mode keeps the sidebar open at a screen width.
pub open spec fn mode_shows(mode: Seq<char>, width: u16) -> bool {
    if mode == "always"@ || mode == "on"@ || mode == "open"@ {
        true
    } else if mode == "never"@ || mode == "off"@ || mode == "closed"@ {
        false
    } else {
        width >= 150
    }
}

/// Whether the sidebar is showing beside `n` files: the user's toggle wins,
/// otherwise the configured mode decides. Without files there is none.
pub open spec fn shows_sidebar(c: SetupV, n: nat, l: Layout) -> bool {
    n > 0 && match l.sidebar {
        Some(b) => b,
        None => mode_shows(c.sidebar, l.width),
    }
}

/// The layout beside `n` files, with the columns that the left pane should
/// have.
pub open spec fn frame_of(c: SetupV, n: nat, l: Layout, share: u16) -> Frame {
    Frame {
        width: l.width,
        height: l.height,
        line_numbers: c.line_numbers,
        sidebar: shows_sidebar(c, n, l),
        sidebar_left: c.sidebar_side != "right"@,
        sidebar_want: match l.sidebar_width {
            Some(w) => w,
            None => c.sidebar_width,
        },
        help_rows: if l.help_open {
            help::grid_of(l.width, l.metrics).1 as usize
        } else {
            0
        },
        share,
    }
}

/// The first row to show, so that the cursor is in view: the one shown
/// before, or the nearest one from which `vh` rows reach the cursor.
pub open spec fn scroll_for(scroll: int, cursor: int, vh: int) -> int {
    if cursor < scroll {
        cursor
    } else if cursor >= scroll + vh {
        cursor + 1 - vh
    } else {
        scroll
    }
}

/// Cursor and top row of `n` rows in a viewport of `vh` rows, after the cursor
/// has moved by `delta` rows.
pub open spec fn moved_place(cursor: int, scroll: int, delta: int, n: int, vh: int) -> (int, int) {
    if n == 0 {
        (cursor, scroll)
    } else {
        let c = geometry::clamped(cursor + delta, 0, n - 1);
        (c, geometry::lesser(scroll_for(scroll, c, vh), geometry::minus(n, vh)))
    }
}

/// Cursor and top row of `n` rows in a viewport of `vh` rows, after the
/// viewport has moved by `delta` rows.
pub open spec fn paged_place(cursor: int, scroll: int, delta: int, n: int, vh: int) -> (int, int) {
    if n == 0 || vh == 0 {
        (cursor, scroll)
    } else {
        let s = geometry::clamped(scroll + delta, 0, geometry::minus(n, vh));
        (geometry::clamped(cursor, s, geometry::lesser(s + vh, n) - 1), s)
    }
}

/// The first hunk header at or behind row `from`.
pub open spec fn hunk_from(v: Seq<RowV>, from: int) -> Option<int>
    decreases v.len() - from,
{
    if from < 0 || from >= v.len() {
        None
    } else if v[from].kind == RowKind::Hunk {
        Some(from)
    } else {
        hunk_from(v, from + 1)
    }
}

/// The last hunk header before row `to`.
pub open spec fn hunk_before(v: Seq<RowV>, to: int) -> Option<int>
    decreases to,
{
    if to <= 0 || to > v.len() {
        None
    } else if v[to - 1].kind == RowKind::Hunk {
        Some(to - 1)
    } else {
        hunk_before(v, to - 1)
    }
}

/// How many hunk headers there are.
pub open spec fn hunk_count(v: Seq<RowV>) -> nat
    decreases v.len(),
{
    if v.len() == 0 {
        0
    } else {
        hunk_count(v.drop_last()) + if v.last().kind == RowKind::Hunk {
            1nat
        } else {
            0
        }
    }
}

/// The columns of the widest line.
pub open spec fn widest(v: Seq<RowV>) -> nat
    decreases v.len(),
{
    if v.len() == 0 {
        0
    } else {
        let w = widest(v.drop_last());
        if geometry::is_code(v.last().kind) && v.last().content.len() > w {
            v.last().content.len()
        } else {
            w
        }
    }
}

impl AppV {
    /// The display rows of the file on the screen, none while they are not
    /// built.
    pub open spec fn rows(&self) -> Seq<RowV> {
        if self.ui.selected < self.cache.len() {
            match self.cache[self.ui.selected as int] {
                Some(r) => r,
                None => Seq::empty(),
            }
        } else {
            Seq::empty()
        }
    }

    /// Every file has a place in the cache, and the selected file, the cursor
    /// and the viewport exist.
    pub open spec fn wf(&self) -> bool {
        &&& self.cache.len() == self.files.len()
        &&& self.ui.selected == 0 || self.ui.selected < self.files.len()
        &&& self.ui.cursor == 0 || self.ui.cursor < self.rows().len()
        &&& self.ui.scroll <= self.rows().len()
    }

    /// Whether the sidebar is showing.
    pub open spec fn sidebar_on(&self) -> bool {
        shows_sidebar(self.setup, self.files.len(), self.ui.layout)
    }

    /// The layout, with the columns that the left pane should have.
    pub open spec fn frame(&self, share: u16) -> Frame {
        frame_of(self.setup, self.files.len(), self.ui.layout, share)
    }

    /// The rows of the viewport.
    pub open spec fn vh(&self) -> int {
        self.frame(0).body_rows()
    }

    /// The last row that can be the top row.
    pub open spec fn max_scroll(&self) -> int {
        geometry::minus(self.rows().len() as int, self.vh())
    }

    /// With another cursor and top row.
    pub open spec fn placed(self, cursor: int, scroll: int) -> AppV {
        AppV { ui: Ui { cursor: cursor as usize, scroll: scroll as usize, ..self.ui }, ..self }
    }

    /// The cursor `delta` rows further, with the viewport just so that it
    /// stays in view.
    pub open spec fn moved(self, delta: int) -> AppV {
        let p = moved_place(
            self.ui.cursor as int,
            self.ui.scroll as int,
            delta,
            self.rows().len() as int,
            self.vh(),
        );
        self.placed(p.0, p.1)
    }

    /// The cursor on a row, with the viewport from the top.
    pub open spec fn sent_to(self, row: int) -> AppV {
        let p = moved_place(0, 0, row, self.rows().len() as int, self.vh());
        self.placed(p.0, p.1)
    }

    /// The cursor on a row, or on the last one, with the viewport where it
    /// is, as long as the cursor is in view.
    pub open spec fn set_on(self, row: int) -> AppV {
        let n = self.rows().len() as int;
        let p = moved_place(
            geometry::lesser(row, geometry::minus(n, 1)),
            self.ui.scroll as int,
            0,
            n,
            self.vh(),
        );
        self.placed(p.0, p.1)
    }

    /// The viewport `delta` rows further, the cursor left alone.
    pub open spec fn dragged(self, delta: int) -> AppV {
        self.placed(
            self.ui.cursor as int,
            geometry::clamped(self.ui.scroll + delta, 0, self.max_scroll()),
        )
    }

    /// The viewport `delta` rows further; the cursor stays on its row until it
    /// reaches an edge.
    pub open spec fn paged(self, delta: int) -> AppV {
        let p = paged_place(
            self.ui.cursor as int,
            self.ui.scroll as int,
            delta,
            self.rows().len() as int,
            self.vh(),
        );
        self.placed(p.0, p.1)
    }

    /// The columns that can be scrolled out to the left.
    pub open spec fn max_pan(&self, share: u16) -> int {
        geometry::minus(widest(self.rows()) as int, self.frame(share).text_w(self.ui.split))
    }

    /// The content `delta` columns further to the left.
    pub open spec fn panned(self, delta: int, share: u16) -> AppV {
        AppV {
            ui: Ui {
                pan: geometry::clamped(self.ui.pan + delta, 0, self.max_pan(share)) as usize,
                ..self.ui
            },
            ..self
        }
    }

    /// The content so that the cursor line's end is in view.
    pub open spec fn panned_to_end(self, share: u16) -> AppV {
        let len = if self.ui.cursor < self.rows().len() {
            self.rows()[self.ui.cursor as int].content.len() as int
        } else {
            0
        };
        AppV {
            ui: Ui {
                pan: geometry::minus(len, self.frame(share).text_w(self.ui.split)) as usize,
                ..self.ui
            },
            ..self
        }
    }

    /// The display rows of a file.
    pub open spec fn built(&self, idx: int) -> Seq<RowV> {
        if 0 <= idx < self.files.len() {
            rows::file_rows(
                self.files[idx],
                (self.setup.begin)(self.files[idx].path()),
                self.setup.making,
            )
        } else {
            Seq::empty()
        }
    }

    /// With the rows of the selected file built.
    pub open spec fn ensured(self) -> AppV {
        let i = self.ui.selected as int;
        if i < self.cache.len() && self.cache[i] is None {
            AppV { cache: self.cache.update(i, Some(self.built(i))), ..self }
        } else {
            self
        }
    }

    /// With another file on the screen, from its top. Nothing changes where
    /// there is no such file, or it is there already.
    pub open spec fn picked(self, idx: int) -> AppV {
        if 0 <= idx < self.files.len() && idx != self.ui.selected {
            AppV {
                ui: Ui { selected: idx as usize, scroll: 0, cursor: 0, pan: 0, ..self.ui },
                ..self
            }.ensured()
        } else {
            self
        }
    }

    /// With the file `delta` places further on the screen.
    pub open spec fn stepped(self, delta: int) -> AppV {
        if self.files.len() == 0 {
            self
        } else {
            self.picked(geometry::clamped(self.ui.selected + delta, 0, self.files.len() - 1))
        }
    }

    /// Whether the cursor is on a hunk header.
    pub open spec fn on_hunk(&self) -> bool {
        self.ui.cursor < self.rows().len() && self.rows()[self.ui.cursor as int].kind
            == RowKind::Hunk
    }

    /// The cursor on the next hunk header.
    pub open spec fn at_next_hunk(self) -> AppV {
        match hunk_from(self.rows(), self.ui.cursor + 1) {
            Some(i) => self.moved(i - self.ui.cursor),
            None => self,
        }
    }

    /// The cursor on the previous hunk header.
    pub open spec fn at_prev_hunk(self) -> AppV {
        match hunk_before(self.rows(), self.ui.cursor as int) {
            Some(i) => self.moved(i - self.ui.cursor),
            None => self,
        }
    }
}

/// What the layout takes over from the state.
pub proof fn lemma_frame(a: AppV, share: u16)
    ensures
        a.frame(share).width == a.ui.layout.width,
        a.frame(share).height == a.ui.layout.height,
        a.frame(share).sidebar == a.sidebar_on(),
        a.frame(share).share == share,
        a.frame(share).body_rows() == a.vh(),
        a.frame(share).body_w() == a.frame(0).body_w(),
{
}

/// `n` moved by `delta` and then into `[0, hi]`.
pub fn shifted(n: usize, delta: isize, hi: usize) -> (r: usize)
    ensures
        r == geometry::clamped(n + delta, 0, hi as int),
{
    let m: usize = if delta >= 0 {
        n.saturating_add(delta as usize)
    } else if delta == isize::MIN {
        n.saturating_sub(isize::MAX as usize).saturating_sub(1)
    } else {
        n.saturating_sub((-delta) as usize)
    };
    if m > hi {
        hi
    } else {
        m
    }
}

/// Move the cursor by `delta` rows and keep it in view.
fn move_place(cursor: usize, scroll: usize, delta: isize, n: usize, vh: usize) -> (r: (usize, usize))
    ensures
        (r.0 as int, r.1 as int) == moved_place(
            cursor as int,
            scroll as int,
            delta as int,
            n as int,
            vh as int,
        ),
{
    if n == 0 {
        return (cursor, scroll);
    }
    let c = shifted(cursor, delta, n - 1);
    let max = n.saturating_sub(vh);
    let want: usize = if c < scroll {
        c
    } else if c - scroll >= vh {
        c + 1 - vh
    } else {
        scroll
    };
    (
        c,
        if want < max {
            want
        } else {
            max
        },
    )
}

/// Put the cursor on a row, or on the last one, and keep it in view.
fn set_place(row: usize, scroll: usize, n: usize, vh: usize) -> (r: (usize, usize))
    ensures
        (r.0 as int, r.1 as int) == moved_place(
            geometry::lesser(row as int, geometry::minus(n as int, 1)),
            scroll as int,
            0,
            n as int,
            vh as int,
        ),
        scroll == 0 ==> (r.0 as int, r.1 as int) == moved_place(0, 0, row as int, n as int, vh as int),
{
    let last = n.saturating_sub(1);
    let at: usize = if row < last {
        row
    } else {
        last
    };
    move_place(at, scroll, 0, n, vh)
}

/// Move the viewport by `delta` rows and keep the cursor in it.
fn page_place(cursor: usize, scroll: usize, delta: isize, n: usize, vh: usize) -> (r: (usize, usize))
    ensures
        (r.0 as int, r.1 as int) == paged_place(
            cursor as int,
            scroll as int,
            delta as int,
            n as int,
            vh as int,
        ),
{
    if n == 0 || vh == 0 {
        return (cursor, scroll);
    }
    let s = shifted(scroll, delta, n.saturating_sub(vh));
    let last: usize = if vh < n - s {
        s + vh - 1
    } else {
        n - 1
    };
    let c: usize = if cursor < s {
        s
    } else if cursor > last {
        last
    } else {
        cursor
    };
    (c, s)
}

impl App {
    /// What is shown.
    pub fn ui(&self) -> (r: Ui)
        ensures
            r == self@.ui,
    {
        self.ui
    }

    /// Whether the diff was piped in.
    pub fn is_piped(&self) -> (r: bool)
        ensures
            r == self@.setup.piped,
    {
        self.setup.source.is_stdin()
    }

    /// How many files the diff has.
    pub fn file_count(&self) -> (r: usize)
        ensures
            r == self@.files.len(),
    {
        assert(diff::file_views(self.files@).len() == self.files@.len());
        self.files.len()
    }

    /// Change what is shown.
    pub fn set_ui(&mut self, ui: Ui)
        ensures
            final(self)@ == (AppV { ui, ..old(self)@ }),
            final(self).setup == old(self).setup,
    {
        self.ui = ui;
    }

    /// The display rows for the selected file, if they are built.
    pub fn rows(&self) -> (r: Option<&Vec<Row>>)
        ensures
            match r {
                Some(v) => self@.rows() == rows::row_views(v@),
                None => self@.rows() == Seq::<RowV>::empty(),
            },
    {
        let i = self.ui().selected;
        assert(self@.cache.len() == self.row_cache@.len());
        if i < self.row_cache.len() {
            match &self.row_cache[i] {
                Some(v) => Some(v),
                None => None,
            }
        } else {
            None
        }
    }

    /// How many display rows there are.
    pub fn row_count(&self) -> (r: usize)
        ensures
            r == self@.rows().len(),
    {
        match self.rows() {
            Some(v) => {
                assert(rows::row_views(v@).len() == v@.len());
                v.len()
            },
            None => 0,
        }
    }

    /// The kind of a display row.
    pub fn kind_at(&self, i: usize) -> (r: RowKind)
        requires
            i < self@.rows().len(),
        ensures
            r == self@.rows()[i as int].kind,
    {
        match self.rows() {
            Some(v) => v[i].kind,
            None => RowKind::Note,
        }
    }

    /// How many cells a display row has.
    pub fn cells_at(&self, i: usize) -> (r: usize)
        requires
            i < self@.rows().len(),
        ensures
            r == self@.rows()[i as int].content.len(),
    {
        match self.rows() {
            Some(v) => {
                assert(rows::row_views(v@)[i as int] == v@[i as int]@);
                v[i].content.len()
            },
            None => 0,
        }
    }

    /// Whether the file-list sidebar is showing: the user's toggle wins,
    /// otherwise the `sidebar` config mode decides ("always", "never", or
    /// "auto" = open on screens at least 150 cells wide).
    pub fn sidebar_visible(&self) -> (r: bool)
        ensures
            r == self@.sidebar_on(),
    {
        assert(self@.files.len() == self.files@.len());
        if self.files.len() == 0 {
            return false;
        }
        match self.ui().layout.sidebar {
            Some(b) => b,
            None => {
                let mode = self.setup.config.sidebar.as_str();
                if text::same(mode, "always") || text::same(mode, "on") || text::same(
                    mode,
                    "open",
                ) {
                    true
                } else if text::same(mode, "never") || text::same(mode, "off") || text::same(
                    mode,
                    "closed",
                ) {
                    false
                } else {
                    self.ui().layout.width >= 150
                }
            },
        }
    }

    /// The layout, with the columns that the left pane should have.
    pub fn frame(&self, share: u16) -> (r: Frame)
        ensures
            r == self@.frame(share),
            r.help_rows <= 24,
    {
        let help_rows: usize = if self.ui().layout.help_open {
            help::help_grid(self.ui().layout.width, self.ui().layout.metrics).1
        } else {
            0
        };
        Frame {
            width: self.ui().layout.width,
            height: self.ui().layout.height,
            line_numbers: self.setup.config.line_numbers,
            sidebar: self.sidebar_visible(),
            sidebar_left: !text::same(self.setup.config.sidebar_side.as_str(), "right"),
            sidebar_want: match self.ui().layout.sidebar_width {
                Some(w) => w,
                None => self.setup.config.sidebar_width,
            },
            help_rows,
            share,
        }
    }

    /// The rows of the viewport.
    pub fn viewport_rows(&self) -> (r: usize)
        ensures
            r == self@.vh(),
            r <= 0xffff,
    {
        self.frame(0).viewport_rows()
    }

    /// The last row that can be the top row.
    pub fn max_scroll(&self) -> (r: usize)
        ensures
            r == self@.max_scroll(),
    {
        self.row_count().saturating_sub(self.viewport_rows())
    }

    /// Scroll the viewport by `delta` rows without moving the cursor, clamped
    /// to the content. Used by drag-select to auto-scroll past the visible
    /// edge.
    pub fn scroll_by(&mut self, delta: isize)
        ensures
            final(self)@ == old(self)@.dragged(delta as int),
            final(self).setup == old(self).setup,
    {
        let u = self.dragged_by(delta);
        self.set_ui(u);
    }

    /// What is shown after the viewport alone has moved by `delta` rows.
    pub fn dragged_by(&self, delta: isize) -> (r: Ui)
        ensures
            (AppV { ui: r, ..self@ }) == self@.dragged(delta as int),
    {
        let scroll = shifted(self.ui().scroll, delta, self.max_scroll());
        Ui { scroll, ..self.ui() }
    }

    /// What is shown after the page has moved by `delta` rows.
    pub fn paged_by(&self, delta: isize) -> (r: Ui)
        ensures
            (AppV { ui: r, ..self@ }) == self@.paged(delta as int),
    {
        let u = self.ui();
        let (c, s) = page_place(u.cursor, u.scroll, delta, self.row_count(), self.viewport_rows());
        Ui { cursor: c, scroll: s, ..u }
    }

    /// What is shown after the cursor has moved by `delta` rows.
    pub fn moved_by(&self, delta: isize) -> (r: Ui)
        ensures
            (AppV { ui: r, ..self@ }) == self@.moved(delta as int),
    {
        let u = self.ui();
        let (c, s) = move_place(u.cursor, u.scroll, delta, self.row_count(), self.viewport_rows());
        Ui { cursor: c, scroll: s, ..u }
    }

    /// Move the cursor line by `delta`, then scroll the viewport just enough
    /// to keep the cursor visible.
    pub fn move_cursor(&mut self, delta: isize)
        ensures
            final(self)@ == old(self)@.moved(delta as int),
            final(self).setup == old(self).setup,
    {
        let u = self.moved_by(delta);
        self.set_ui(u);
    }

    /// What is shown after the cursor has moved to a row by way of the top.
    pub fn sent_to_row(&self, idx: usize) -> (r: Ui)
        ensures
            (AppV { ui: r, ..self@ }) == self@.sent_to(idx as int),
    {
        let (c, s) = set_place(idx, 0, self.row_count(), self.viewport_rows());
        Ui { cursor: c, scroll: s, ..self.ui() }
    }

    /// Move the cursor to a row by way of the top.
    pub fn cursor_to(&mut self, idx: usize)
        ensures
            final(self)@ == old(self)@.sent_to(idx as int),
            final(self).setup == old(self).setup,
    {
        let u = self.sent_to_row(idx);
        self.set_ui(u);
    }

    /// What is shown after the cursor has moved to a row, the viewport left
    /// where it is.
    pub fn set_on_row(&self, idx: usize) -> (r: Ui)
        ensures
            (AppV { ui: r, ..self@ }) == self@.set_on(idx as int),
    {
        let u = self.ui();
        let (c, s) = set_place(idx, u.scroll, self.row_count(), self.viewport_rows());
        Ui { cursor: c, scroll: s, ..u }
    }

    /// Move the cursor to an absolute row without resetting the viewport.
    pub fn set_cursor(&mut self, idx: usize)
        ensures
            final(self)@ == old(self)@.set_on(idx as int),
            final(self).setup == old(self).setup,
    {
        let u = self.set_on_row(idx);
        self.set_ui(u);
    }

    /// Flatten a file into styled display rows (syntax + intra-line spans).
    pub fn build_rows(&self, idx: usize) -> (r: Vec<Row>)
        ensures
            rows::row_views(r@) == self@.built(idx as int),
    {
        assert(self@.files.len() == self.files@.len());
        if idx < self.files.len() {
            assert(self@.files[idx as int] == self.files@[idx as int]@);
            rows::build_file_rows(
                &self.files[idx],
                &self.setup.highlighter,
                self.setup.config.intraline_enabled(),
                self.setup.config.tab_width,
            )
        } else {
            let v: Vec<Row> = Vec::new();
            assert(rows::row_views(v@) =~= Seq::<RowV>::empty());
            v
        }
    }

    /// Build the selected file's rows if they aren't cached yet.
    pub fn ensure_rows(&mut self)
        ensures
            final(self)@ == old(self)@.ensured(),
            final(self).setup == old(self).setup,
    {
        let i = self.ui().selected;
        assert(self@.cache.len() == self.row_cache@.len());
        if i < self.row_cache.len() && self.row_cache[i].is_none() {
            let v = self.build_rows(i);
            self.row_cache.set(i, Some(v));
            assert(self@.cache =~= old(self)@.ensured().cache);
        }
    }

    /// Select a file by absolute index.
    pub fn select_file_at(&mut self, idx: usize)
        ensures
            final(self)@ == old(self)@.picked(idx as int),
            final(self).setup == old(self).setup,
    {
        if idx < self.file_count() && idx != self.ui().selected {
            self.set_ui(Ui { selected: idx, scroll: 0, cursor: 0, pan: 0, ..self.ui() });
            self.ensure_rows();
        }
    }

    /// Select the file `delta` places further.
    pub fn select_file(&mut self, delta: isize)
        ensures
            final(self)@ == old(self)@.stepped(delta as int),
            final(self).setup == old(self).setup,
    {
        if self.file_count() == 0 {
            return;
        }
        let new = shifted(self.ui().selected, delta, self.file_count() - 1);
        self.select_file_at(new);
    }

    /// Whether the cursor is currently on a hunk header row.
    pub fn on_hunk(&self) -> (r: bool)
        ensures
            r == self@.on_hunk(),
    {
        self.ui().cursor < self.row_count() && self.kind_at(self.ui().cursor) == RowKind::Hunk
    }

    /// The next (`ahead`) or previous hunk header row.
    fn hunk_beside(&self, ahead: bool) -> (r: Option<usize>)
        ensures
            r is Some ==> r->0 < self@.rows().len(),
            crate::search::as_int(r) == if ahead {
                hunk_from(self@.rows(), self@.ui.cursor + 1)
            } else {
                hunk_before(self@.rows(), self@.ui.cursor as int)
            },
    {
        match self.rows() {
            Some(v) => find_hunk(v, self.ui().cursor, ahead),
            None => None,
        }
    }

    /// What is shown after the cursor has moved to the next (`ahead`) or
    /// previous hunk header row.
    pub fn hunk_jumped(&self, ahead: bool) -> (r: Ui)
        ensures
            (AppV { ui: r, ..self@ }) == if ahead {
                self@.at_next_hunk()
            } else {
                self@.at_prev_hunk()
            },
    {
        match self.hunk_beside(ahead) {
            Some(i) => self.moved_to(i),
            None => self.ui(),
        }
    }

    /// Move the cursor to the next (`ahead`) or previous hunk header row.
    pub fn jump_hunk(&mut self, ahead: bool)
        ensures
            final(self)@ == if ahead {
                old(self)@.at_next_hunk()
            } else {
                old(self)@.at_prev_hunk()
            },
            final(self).setup == old(self).setup,
    {
        let u = self.hunk_jumped(ahead);
        self.set_ui(u);
    }

    /// The columns of the widest line.
    fn widest_row(&self) -> (r: usize)
        ensures
            r == widest(self@.rows()),
    {
        match self.rows() {
            Some(v) => widest_of(v),
            None => 0,
        }
    }

    /// What is shown after the content has moved `delta` columns to the left,
    /// as far as there are lines wider than the view.
    pub fn panned_by(&self, delta: isize, share: u16) -> (r: Ui)
        ensures
            (AppV { ui: r, ..self@ }) == self@.panned(delta as int, share),
    {
        let u = self.ui();
        let width = self.frame(share).text_width(u.split) as usize;
        let max = self.widest_row().saturating_sub(width);
        Ui { pan: shifted(u.pan, delta, max), ..u }
    }

    /// What is shown after the end of the cursor line has come into view.
    pub fn panned_to_line_end(&self, share: u16) -> (r: Ui)
        ensures
            (AppV { ui: r, ..self@ }) == self@.panned_to_end(share),
    {
        let u = self.ui();
        let width = self.frame(share).text_width(u.split) as usize;
        let len: usize = if u.cursor < self.row_count() {
            self.cells_at(u.cursor)
        } else {
            0
        };
        Ui { pan: len.saturating_sub(width), ..u }
    }

    /// What is shown after the cursor has moved to a row that exists.
    pub fn moved_to(&self, row: usize) -> (r: Ui)
        requires
            row < self@.rows().len(),
        ensures
            (AppV { ui: r, ..self@ }) == self@.moved(row - self@.ui.cursor),
    {
        let u = self.ui();
        let (c, s) = move_place(row, u.scroll, 0, self.row_count(), self.viewport_rows());
        Ui { cursor: c, scroll: s, ..u }
    }
}

/// The hunk header next to a row, ahead of it or before it.
fn find_hunk(v: &Vec<Row>, cur: usize, ahead: bool) -> (r: Option<usize>)
    ensures
        r is Some ==> r->0 < v@.len(),
        crate::search::as_int(r) == if ahead {
            hunk_from(rows::row_views(v@), cur + 1)
        } else {
            hunk_before(rows::row_views(v@), cur as int)
        },
{
    let ghost rv = rows::row_views(v@);
    let n = v.len();
    if ahead {
        if cur >= n {
            return None;
        }
        let mut i: usize = cur + 1;
        while i < n
            invariant
                ahead,
                n == v@.len(),
                rv == rows::row_views(v@),
                hunk_from(rv, cur + 1) == hunk_from(rv, i as int),
            decreases n - i,
        {
            assert(rv[i as int] == v@[i as int]@);
            if v[i].kind == RowKind::Hunk {
                return Some(i);
            }
            i = i + 1;
        }
        None
    } else {
        if cur > n {
            return None;
        }
        let mut i: usize = cur;
        while i > 0
            invariant
                !ahead,
                i <= n,
                n == v@.len(),
                rv == rows::row_views(v@),
                hunk_before(rv, cur as int) == hunk_before(rv, i as int),
            decreases i,
        {
            assert(rv[i - 1] == v@[i - 1]@);
            if v[i - 1].kind == RowKind::Hunk {
                return Some(i - 1);
            }
            i = i - 1;
        }
        None
    }
}

fn widest_of(v: &Vec<Row>) -> (r: usize)
    ensures
        r == widest(rows::row_views(v@)),
{
    let ghost rv = rows::row_views(v@);
    let mut w: usize = 0;
    for i in 0..v.len()
        invariant
            rv == rows::row_views(v@),
            w == widest(rv.take(i as int)),
    {
        assert(rv.take(i as int + 1).drop_last() =~= rv.take(i as int));
        assert(rv[i as int] == v@[i as int]@);
        assert(rv[i as int].content.len() == v@[i as int].content@.len());
        if geometry::code(v[i].kind) && v[i].content.len() > w {
            w = v[i].content.len();
        }
    }
    assert(rv.take(rv.len() as int) =~= rv);
    w
}

} // verus!
