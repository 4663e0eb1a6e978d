//! Loading diffs into the viewer, and what the viewer asks of the world
//! around it.
use crate::cells::Metrics;
use crate::config::Config;
use crate::diff;
use crate::geometry;
use crate::git;
use crate::git::{Opts, Source};
use crate::highlight;
use crate::highlight::Highlighter;
use crate::laws;
use crate::palette;
use crate::palette::Shades;
use crate::paths;
use crate::rows;
use crate::rows::{Row, RowKind, RowV};
use crate::text;
use crate::tui;
use crate::tui::{App, AppV, Layout, Page, Setup, Ui};
use std::sync::Arc;
use vstd::prelude::*;

verus! {

/// How long a transient footer note stays, in milliseconds.
pub const FLASH: u64 = 2000;

/// A cache without any rows.
pub open spec fn no_rows(n: nat) -> Seq<Option<Seq<RowV>>> {
    Seq::new(n, |i: int| None)
}

fn empty_cache(n: usize) -> (r: Vec<Option<Vec<Row>>>)
    ensures
        tui::cache_views(r@) == no_rows(n as nat),
{
    let mut v: Vec<Option<Vec<Row>>> = Vec::new();
    for i in 0..n
        invariant
            v@.len() == i,
            forall|j: int| 0 <= j < i ==> (#[trigger] v@[j]) is None,
    {
        v.push(None);
    }
    assert(tui::cache_views(v@) =~= no_rows(n as nat));
    v
}

/// The places and rows of files.
pub open spec fn batch_views(v: Seq<(usize, Vec<Row>)>) -> Seq<(int, Seq<RowV>)> {
    v.map_values(|p: (usize, Vec<Row>)| (p.0 as int, rows::row_views(p.1@)))
}

/// The row of hunk header number `ord`, counted from row `from` on.
pub open spec fn nth_hunk(v: Seq<RowV>, from: int, ord: nat) -> Option<int>
    decreases v.len() - from,
{
    if from < 0 || from >= v.len() {
        None
    } else if v[from].kind == RowKind::Hunk {
        if ord == 0 {
            Some(from)
        } else {
            nth_hunk(v, from + 1, (ord - 1) as nat)
        }
    } else {
        nth_hunk(v, from + 1, ord)
    }
}

/// The number of the hunk that a row is in, counted from 0.
pub open spec fn hunk_number(v: Seq<RowV>, row: int) -> nat {
    geometry::minus(
        tui::hunk_count(v.take(geometry::lesser(row + 1, v.len() as int))) as int,
        1,
    ) as nat
}

proof fn lemma_count_split(v: Seq<RowV>, from: int, ord: nat)
    requires
        0 <= from <= v.len(),
    ensures
        nth_hunk(v, from, ord) is Some ==> {
            let i = nth_hunk(v, from, ord)->0;
            from <= i < v.len() && v[i].kind == RowKind::Hunk && tui::hunk_count(v.take(i))
                == tui::hunk_count(v.take(from)) + ord
        },
        nth_hunk(v, from, ord) is None ==> tui::hunk_count(v) <= tui::hunk_count(v.take(from))
            + ord,
    decreases v.len() - from,
{
    if from < v.len() {
        assert(v.take(from + 1).drop_last() =~= v.take(from));
        if v[from].kind == RowKind::Hunk {
            if ord > 0 {
                lemma_count_split(v, from + 1, (ord - 1) as nat);
            }
        } else {
            lemma_count_split(v, from + 1, ord);
        }
    } else {
        assert(v.take(from) =~= v);
    }
}

/// Numbers and rows of hunk headers belong together: the header found for a
/// number has that number, and there is one for every number up to their
/// count.
pub proof fn law_hunk_numbers(v: Seq<RowV>, ord: nat)
    ensures
        nth_hunk(v, 0, ord) is Some <==> ord < tui::hunk_count(v),
        nth_hunk(v, 0, ord) is Some ==> {
            let i = nth_hunk(v, 0, ord)->0;
            0 <= i < v.len() && v[i].kind == RowKind::Hunk && hunk_number(v, i) == ord
        },
{
    lemma_count_split(v, 0, ord);
    assert(v.take(0) =~= Seq::<RowV>::empty());
    match nth_hunk(v, 0, ord) {
        Some(i) => {
            assert(v.take(i + 1).drop_last() =~= v.take(i));
            lemma_count_grows(v, i + 1);
        },
        None => {},
    }
}

proof fn lemma_count_grows(v: Seq<RowV>, i: int)
    requires
        0 <= i <= v.len(),
    ensures
        tui::hunk_count(v.take(i)) <= tui::hunk_count(v),
    decreases v.len() - i,
{
    if i < v.len() {
        assert(v.take(i + 1).drop_last() =~= v.take(i));
        lemma_count_grows(v, i + 1);
    } else {
        assert(v.take(i) =~= v);
    }
}

/// The line number of a row, the new side's if it has one.
pub open spec fn line_no(r: RowV) -> Option<usize> {
    match r.new_no {
        Some(n) => Some(n),
        None => r.old_no,
    }
}

/// The line number of the first row from `from` on that has one.
pub open spec fn line_from(v: Seq<RowV>, from: int) -> Option<usize>
    decreases v.len() - from,
{
    if from < 0 || from >= v.len() {
        None
    } else if line_no(v[from]) is Some {
        line_no(v[from])
    } else {
        line_from(v, from + 1)
    }
}

/// The line to edit: that of the cursor's row or of the next row that has
/// one, else the first of the file, else 1.
pub open spec fn edit_line(v: Seq<RowV>, cursor: int) -> usize {
    match line_from(v, cursor) {
        Some(n) => n,
        None => match line_from(v, 0) {
            Some(n) => n,
            None => 1,
        },
    }
}

/// The wait for the next event, in milliseconds: short while rows are being
/// built, else idle, but not past the end of a footer note, nor past the next
/// poll of the working tree.
pub open spec fn wait_for(prefetching: bool, flash_age: Option<int>, poll: Option<int>) -> int {
    let idle = if prefetching {
        16int
    } else {
        200
    };
    let noted = match flash_age {
        Some(age) => geometry::lesser(idle, geometry::clamped(FLASH - age, 1, FLASH as int)),
        None => idle,
    };
    match poll {
        Some(p) => geometry::lesser(
            noted,
            if p < 1 {
                1
            } else {
                p
            },
        ),
        None => noted,
    }
}

impl AppV {
    /// With another diff, no rows built.
    pub open spec fn loaded(self, s: Seq<char>) -> AppV {
        AppV {
            files: diff::parsed(s),
            raw_files: diff::raw_files(s),
            cache: no_rows(diff::parsed(s).len()),
            last_diff: s,
            ..self
        }
    }

    /// With another diff, from the top of its first file.
    pub open spec fn opened(self, s: Seq<char>) -> AppV {
        AppV { ui: Ui { selected: 0, cursor: 0, scroll: 0, ..self.ui }, ..self }.loaded(s)
    }

    /// With another diff, the file and the row kept as far as they exist.
    pub open spec fn rebuilt(self, s: Seq<char>) -> AppV {
        let a = self.loaded(s);
        let sel = geometry::lesser(
            self.ui.selected as int,
            geometry::minus(a.files.len() as int, 1),
        );
        let b = AppV { ui: Ui { selected: sel as usize, scroll: 0, ..a.ui }, ..a }.ensured();
        b.set_on(self.ui.cursor as int)
    }

    /// With hunk header number `ord` under the cursor, `off` rows below the
    /// top of the viewport. Nothing changes where there is no such header.
    pub open spec fn pinned(self, ord: nat, off: int) -> AppV {
        match nth_hunk(self.rows(), 0, ord) {
            Some(i) => {
                let p = tui::moved_place(
                    i,
                    geometry::minus(i, off),
                    0,
                    self.rows().len() as int,
                    self.vh(),
                );
                self.placed(p.0, p.1)
            },
            None => self,
        }
    }

    /// With the rows of a file that another thread has built. Rows that are
    /// there already stay.
    pub open spec fn stored(self, idx: int, v: Seq<RowV>) -> AppV {
        if 0 <= idx < self.cache.len() && self.cache[idx] is None {
            AppV { cache: self.cache.update(idx, Some(v)), ..self }
        } else {
            self
        }
    }

    /// With the rows of files that another thread has built, in order.
    pub open spec fn stored_all(self, v: Seq<(int, Seq<RowV>)>) -> AppV
        decreases v.len(),
    {
        if v.len() == 0 {
            self
        } else {
            self.stored_all(v.drop_last()).stored(v.last().0, v.last().1)
        }
    }

    /// Whether the rows of the selected file are among those taken in.
    pub open spec fn landed(self, v: Seq<(int, Seq<RowV>)>) -> bool
        decreases v.len(),
    {
        if v.len() == 0 {
            false
        } else {
            let i = v.last().0;
            let a = self.stored_all(v.drop_last());
            self.landed(v.drop_last()) || (i == a.ui.selected && 0 <= i < a.cache.len()
                && a.cache[i] is None)
        }
    }

    /// With the rows of files that another thread has built; where those of
    /// the selected file have landed, the cursor comes into view.
    pub open spec fn drained(self, v: Seq<(int, Seq<RowV>)>) -> AppV {
        if self.landed(v) {
            self.stored_all(v).moved(0)
        } else {
            self.stored_all(v)
        }
    }

    /// The options of the next diff: the base options, with the extra context
    /// of expanded folds.
    pub open spec fn knobs(&self) -> git::Knobs {
        let o = self.setup.opts;
        if self.ui.expand > 0 {
            let base: usize = match o.context {
                Some(n) => n,
                None => 3,
            };
            git::Knobs { context: Some(diff::saturated((base + self.ui.expand) as nat)), ..o }
        } else {
            o
        }
    }

    /// The window title.
    pub open spec fn wanted_title(&self) -> Seq<char> {
        if self.ui.selected < self.files.len() {
            self.files[self.ui.selected as int].path() + " · diffv"@
        } else {
            "diffv"@
        }
    }

    /// The path of the selected file below the root of the working tree.
    pub open spec fn edit_path(&self) -> Seq<char> {
        let rel = self.files[self.ui.selected as int].path();
        match self.setup.toplevel {
            Some(top) => paths::joined_path(top, rel),
            None => rel,
        }
    }

    /// The editor's command: its words, the line and the path. None without a
    /// file, or without an editor.
    pub open spec fn edit_words(&self) -> Option<Seq<Seq<char>>> {
        let w = text::word_texts(self.setup.editor);
        if self.ui.selected < self.files.len() && w.len() > 0 {
            Some(
                w.push(
                    "+"@ + text::dec(edit_line(self.rows(), self.ui.cursor as int) as nat),
                ).push(self.edit_path()),
            )
        } else {
            None
        }
    }
}

impl App {
    /// A viewer of a diff. `text` is the diff, `None` where it could not be
    /// had; `visual` and `editor` are what the environment names as editors.
    pub fn new(
        config: Config,
        source: Source,
        opts: Opts,
        toplevel: Option<String>,
        visual: Option<&str>,
        editor: Option<&str>,
        text: Option<String>,
        screen: (u16, u16),
        metrics: Metrics,
        watch: bool,
    ) -> (r: App)
        ensures
            r.setup.config == config,
            r.setup.source == source,
            r.setup.opts == opts,
            r.setup.toplevel == toplevel,
            r.setup.theme == palette::theme_of(config@),
            r.setup.highlighter.theme() == highlight::theme_named(config@.theme),
            r.setup.highlighter.enabled() == (config@.syntax && config@.theme != "ansi"@),
            r.setup.editor@ == crate::config::editor_of(config@, visual, editor),
            r@ == (AppV {
                setup: tui::setup_of(r.setup),
                files: Seq::empty(),
                raw_files: Seq::empty(),
                cache: Seq::empty(),
                ui: Ui::initial(screen.0, screen.1, metrics, watch),
                title: Seq::empty(),
                flash: None,
                last_diff: Seq::empty(),
                typing: None,
                query: None,
            }).opened(
                match text {
                    Some(t) => t@,
                    None => Seq::empty(),
                },
            ),
            r@.wf(),
    {
        let highlighter = Arc::new(
            Highlighter::new(config.theme.as_str(), config.syntax_enabled()),
        );
        let theme = Shades::from_config(&config);
        let command = config.editor_cmd(visual, editor);
        let layout = Layout {
            width: screen.0,
            height: screen.1,
            metrics,
            sidebar: None,
            sidebar_width: None,
            help_open: false,
        };
        let ui = Ui {
            layout,
            selected: 0,
            scroll: 0,
            cursor: 0,
            pan: 0,
            page: Page::Diff,
            resizing: false,
            resizing_split: false,
            last_click: None,
            split: false,
            help_badge_x: 0,
            modal_hit: None,
            modal_pos: None,
            modal_drag: None,
            watch,
            expand: 0,
            sel: None,
        };
        let setup = Setup { config, theme, highlighter, source, opts, toplevel, editor: command };
        let mut app = App {
            setup,
            files: Vec::new(),
            raw_files: Vec::new(),
            row_cache: Vec::new(),
            ui,
            title: String::new(),
            flash: None,
            last_diff: String::new(),
            typing: None,
            query: None,
        };
        let ghost base = AppV {
            setup: tui::setup_of(app.setup),
            files: Seq::empty(),
            raw_files: Seq::empty(),
            cache: Seq::empty(),
            ui: Ui::initial(screen.0, screen.1, metrics, watch),
            title: Seq::empty(),
            flash: None,
            last_diff: Seq::empty(),
            typing: None,
            query: None,
        };
        assert(app@ == base) by {
            assert(diff::file_views(app.files@) =~= base.files);
            assert(text::texts(app.raw_files@) =~= base.raw_files);
            assert(tui::cache_views(app.row_cache@) =~= base.cache);
            assert(app.title@ =~= base.title);
            assert(app.last_diff@ =~= base.last_diff);
        }
        app.start(text);
        app
    }

    /// Put a diff in place of the old one, with no rows built.
    fn load(&mut self, text: String)
        ensures
            final(self)@ == old(self)@.loaded(text@),
            final(self).setup == old(self).setup,
    {
        self.files = diff::parse(text.as_str());
        self.raw_files = diff::split_files(text.as_str());
        assert(diff::file_views(self.files@).len() == self.files@.len());
        self.row_cache = empty_cache(self.files.len());
        self.last_diff = text;
    }

    /// Initial load: take in the diff and leave the row building to whoever
    /// calls, so that the first frame does not wait for it. `None` is a diff
    /// that could not be had.
    pub fn start(&mut self, text: Option<String>)
        ensures
            final(self)@ == old(self)@.opened(
                match text {
                    Some(t) => t@,
                    None => Seq::empty(),
                },
            ),
            final(self)@.wf(),
            final(self).setup == old(self).setup,
    {
        let t = match text {
            Some(t) => t,
            None => String::new(),
        };
        self.set_ui(Ui { selected: 0, cursor: 0, scroll: 0, ..self.ui() });
        self.load(t);
    }

    /// The order in which another thread builds the rows of all files: the
    /// selected one first, so it shows soonest.
    pub fn prefetch_order(&self) -> (r: Vec<usize>)
        ensures
            r@.len() == if self@.ui.selected < self@.files.len() {
                self@.files.len()
            } else {
                0
            },
            r@.len() > 0 ==> r@[0] == self@.ui.selected,
            forall|i: int|
                0 < i < r@.len() ==> #[trigger] r@[i] == if i <= self@.ui.selected {
                    i - 1
                } else {
                    i
                },
    {
        assert(self@.files.len() == self.files@.len());
        let n = self.files.len();
        let sel = self.ui().selected;
        let mut out: Vec<usize> = Vec::new();
        if sel >= n {
            return out;
        }
        out.push(sel);
        for i in 0..n
            invariant
                sel < n,
                out@.len() == if i <= sel {
                    i + 1
                } else {
                    i as int
                },
                out@[0] == sel,
                forall|k: int|
                    0 < k < out@.len() ==> #[trigger] out@[k] == if k <= sel {
                        k - 1
                    } else {
                        k
                    },
        {
            if i != sel {
                out.push(i);
            }
        }
        out
    }

    /// Take in the rows of a file that another thread has built. Returns
    /// whether the selected file's rows just landed.
    pub fn store_rows(&mut self, idx: usize, v: Vec<Row>) -> (r: bool)
        ensures
            final(self)@ == old(self)@.stored(idx as int, rows::row_views(v@)),
            r == (idx == old(self)@.ui.selected && idx < old(self)@.cache.len()
                && old(self)@.cache[idx as int] is None),
            old(self)@.wf() ==> final(self)@.wf(),
            final(self).setup == old(self).setup,
    {
        assert(self@.cache.len() == self.row_cache@.len());
        if idx < self.row_cache.len() && self.row_cache[idx].is_none() {
            self.row_cache.set(idx, Some(v));
            assert(self@.cache =~= old(self)@.stored(idx as int, rows::row_views(v@)).cache);
            idx == self.ui().selected
        } else {
            false
        }
    }

    /// Move any rows that another thread has finished into the cache.
    #[verifier::rlimit(60)]
    pub fn drain_prefetch(&mut self, batch: Vec<(usize, Vec<Row>)>)
        ensures
            final(self)@ == old(self)@.drained(batch_views(batch@)),
            old(self)@.wf() ==> final(self)@.wf(),
            final(self).setup == old(self).setup,
    {
        let ghost b = batch_views(batch@);
        let mut batch = batch;
        let mut ready = false;
        let mut n: usize = 0;
        let len = batch.len();
        while n < len
            invariant
                n <= len,
                len == b.len(),
                batch@.len() == len - n,
                batch_views(batch@) == b.skip(n as int),
                self@ == old(self)@.stored_all(b.take(n as int)),
                ready == old(self)@.landed(b.take(n as int)),
                old(self)@.wf() ==> self@.wf(),
                self.setup == old(self).setup,
            decreases len - n,
        {
            let ghost rest = batch@;
            let (idx, rows) = batch.remove(0);
            proof {
                assert(b[n as int] == b.skip(n as int)[0]);
                assert(batch_views(rest)[0] == (idx as int, rows::row_views(rows@)));
                assert(b.take(n as int + 1).drop_last() =~= b.take(n as int));
                assert forall|j: int| 0 <= j < batch@.len() implies #[trigger] batch_views(batch@)[j]
                    == b.skip(n as int + 1)[j] by {
                    assert(batch@[j] == rest[j + 1]);
                    assert(batch_views(rest)[j + 1] == b.skip(n as int)[j + 1]);
                }
                assert(batch_views(batch@) =~= b.skip(n as int + 1));
            }
            let now = self.store_rows(idx, rows);
            ready = ready || now;
            n = n + 1;
        }
        assert(b.take(len as int) =~= b);
        if ready {
            proof {
                if self@.wf() {
                    laws::law_moves_keep_wf(self@, 0, 0);
                }
            }
            self.move_cursor(0);
        }
    }

    /// The base diff options plus any extra context from expanded folds.
    pub fn effective_opts(&self) -> (r: Opts)
        ensures
            r@ == self@.knobs(),
    {
        let mut o = self.setup.opts.copy();
        if self.ui().expand > 0 {
            let base: usize = match self.setup.opts.context {
                Some(n) => n,
                None => 3,
            };
            o.context = Some(base.saturating_add(self.ui().expand));
        }
        o
    }

    /// Rebuild the view from already-fetched diff text, preserving the cursor
    /// position.
    #[verifier::rlimit(60)]
    pub fn rebuild_from(&mut self, text: String)
        ensures
            final(self)@ == old(self)@.rebuilt(text@),
            old(self)@.wf() ==> final(self)@.wf(),
            final(self).setup == old(self).setup,
    {
        proof {
            if self@.wf() {
                laws::law_loading_keeps_wf(self@, text@, 0, 0);
            }
        }
        let (sel, cur) = (self.ui().selected, self.ui().cursor);
        self.load(text);
        let last = self.file_count().saturating_sub(1);
        let selected: usize = if sel < last {
            sel
        } else {
            last
        };
        self.set_ui(Ui { selected, scroll: 0, ..self.ui() });
        self.ensure_rows();
        self.set_cursor(cur);
    }

    /// Put hunk header number `ord` under the cursor, `off` rows below the top
    /// of the viewport, so that expanding its context doesn't scroll the view.
    pub fn pin_hunk(&mut self, ord: usize, off: usize)
        ensures
            final(self)@ == old(self)@.pinned(ord as nat, off as int),
            old(self)@.wf() ==> final(self)@.wf(),
            final(self).setup == old(self).setup,
    {
        proof {
            if self@.wf() {
                laws::law_loading_keeps_wf(self@, Seq::empty(), ord as nat, off as int);
            }
        }
        match self.nth_hunk_row(ord) {
            Some(i) => {
                self.set_ui(Ui { cursor: i, scroll: i.saturating_sub(off), ..self.ui() });
                self.move_cursor(0);
            },
            None => {},
        }
    }

    /// Row index of the nth (0-based) hunk header.
    pub fn nth_hunk_row(&self, ord: usize) -> (r: Option<usize>)
        ensures
            crate::search::as_int(r) == nth_hunk(self@.rows(), 0, ord as nat),
    {
        match self.rows() {
            Some(v) => find_hunk(v, ord),
            None => None,
        }
    }

    /// 0-based index of the hunk the cursor sits on (or the most recent
    /// above).
    pub fn hunk_ordinal(&self) -> (r: usize)
        ensures
            r == hunk_number(self@.rows(), self@.ui.cursor as int),
    {
        match self.rows() {
            Some(v) => {
                assert(rows::row_views(v@).len() == v@.len());
                let n: usize = if self.ui().cursor < v.len() {
                    self.ui().cursor + 1
                } else {
                    v.len()
                };
                count_hunks(v, n).saturating_sub(1)
            },
            None => 0,
        }
    }

    /// Take in how the screen measures text.
    pub fn set_metrics(&mut self, metrics: Metrics)
        ensures
            final(self)@ == old(self)@.laid_out(Layout { metrics, ..old(self)@.ui.layout }),
            final(self).setup == old(self).setup,
    {
        let u = self.ui();
        let layout = Layout { metrics, ..u.layout };
        self.set_ui(Ui { layout, ..u });
    }

    /// Whether the working tree is polled for edits that touch neither the
    /// index nor refs: in watch mode, where the source shows such edits.
    pub fn wants_poll(&self) -> (r: bool)
        ensures
            r == (self@.ui.watch && self@.setup.worktree),
    {
        self.ui().watch && self.setup.source.reads_worktree()
    }

    /// Take in a polled diff: rebuild only when the text actually changed.
    pub fn apply_poll(&mut self, text: String)
        ensures
            final(self)@ == if text@ == old(self)@.last_diff {
                old(self)@
            } else {
                old(self)@.rebuilt(text@)
            },
            old(self)@.wf() ==> final(self)@.wf(),
            final(self).setup == old(self).setup,
    {
        if !text::same(text.as_str(), self.last_diff.as_str()) {
            self.rebuild_from(text);
        }
    }

    /// Expire a transient footer note after its lifetime.
    pub fn expire_flash(&mut self, now: u64)
        ensures
            final(self)@ == (AppV {
                flash: match old(self)@.flash {
                    Some((_, at)) => if now - at >= FLASH {
                        None
                    } else {
                        old(self)@.flash
                    },
                    None => None,
                },
                ..old(self)@
            }),
            old(self)@.flash matches Some((t, at)) ==> final(self)@.flash == if now - at >= 2000 {
                None
            } else {
                Some((t, at))
            },
            final(self).setup == old(self).setup,
    {
        let over = match &self.flash {
            Some((_, at)) => now.saturating_sub(*at) >= FLASH,
            None => false,
        };
        if over {
            self.flash = None;
        }
    }

    /// How long to wait for the next event, in milliseconds.
    pub fn wait_time(&self, prefetching: bool, now: u64, poll: u64) -> (r: u64)
        ensures
            r == wait_for(
                prefetching,
                match self@.flash {
                    Some((_, at)) => Some(geometry::minus(now as int, at as int)),
                    None => None,
                },
                if self@.ui.watch && self@.setup.worktree {
                    Some(poll as int)
                } else {
                    None
                },
            ),
            1 <= r <= 200,
    {
        let mut wait: u64 = if prefetching {
            16
        } else {
            200
        };
        match &self.flash {
            Some((_, at)) => {
                let left = FLASH.saturating_sub(now.saturating_sub(*at));
                let left: u64 = if left < 1 {
                    1
                } else {
                    left
                };
                if left < wait {
                    wait = left;
                }
            },
            None => {},
        }
        if self.wants_poll() {
            let p: u64 = if poll < 1 {
                1
            } else {
                poll
            };
            if p < wait {
                wait = p;
            }
        }
        wait
    }

    /// The window title, if it changed since it was last asked for.
    pub fn update_title(&mut self) -> (r: Option<String>)
        ensures
            final(self)@ == (AppV { title: old(self)@.wanted_title(), ..old(self)@ }),
            r is None <==> old(self)@.title == old(self)@.wanted_title(),
            r is Some ==> r->0@ == old(self)@.wanted_title(),
            final(self).setup == old(self).setup,
    {
        assert(self@.files.len() == self.files@.len());
        let want = if self.ui().selected < self.files.len() {
            assert(self@.files[self@.ui.selected as int] == self.files@[self@.ui.selected as int]@);
            let mut t = self.files[self.ui().selected].path().to_owned();
            t.push_str(" · diffv");
            t
        } else {
            "diffv".to_owned()
        };
        if text::same(want.as_str(), self.title.as_str()) {
            None
        } else {
            self.title = want.clone();
            Some(want)
        }
    }

    /// The command that opens the selected file at the cursor line in the
    /// editor.
    pub fn editor_command(&self) -> (r: Option<Vec<String>>)
        ensures
            match r {
                Some(w) => self@.edit_words() == Some(text::texts(w@)),
                None => self@.edit_words() is None,
            },
    {
        assert(self@.files.len() == self.files@.len());
        let sel = self.ui().selected;
        if sel >= self.files.len() {
            return None;
        }
        assert(self@.files[sel as int] == self.files@[sel as int]@);
        let mut words = text::words(self.setup.editor.as_str());
        assert(text::texts(words@).len() == words@.len());
        if words.len() == 0 {
            return None;
        }
        let line: usize = match self.rows() {
            Some(v) => match find_line(v, self.ui().cursor) {
                Some(n) => n,
                None => match find_line(v, 0) {
                    Some(n) => n,
                    None => 1,
                },
            },
            None => 1,
        };
        let mut at = "+".to_owned();
        at.push_str(text::decimal(line).as_str());
        let rel = self.files[sel].path();
        let path = match &self.setup.toplevel {
            Some(top) => paths::join_path(top.as_str(), rel),
            None => rel.to_owned(),
        };
        proof {
            text::lemma_texts_push(words@, at);
            text::lemma_texts_push(words@.push(at), path);
        }
        words.push(at);
        words.push(path);
        Some(words)
    }
}

fn find_hunk(v: &Vec<Row>, ord: usize) -> (r: Option<usize>)
    ensures
        crate::search::as_int(r) == nth_hunk(rows::row_views(v@), 0, ord as nat),
{
    let ghost rv = rows::row_views(v@);
    let mut left: usize = ord;
    for i in 0..v.len()
        invariant
            rv == rows::row_views(v@),
            nth_hunk(rv, 0, ord as nat) == nth_hunk(rv, i as int, left as nat),
    {
        assert(rv[i as int] == v@[i as int]@);
        if v[i].kind == RowKind::Hunk {
            if left == 0 {
                return Some(i);
            }
            left = left - 1;
        }
    }
    None
}

/// How many of the first `n` rows are hunk headers.
fn count_hunks(v: &Vec<Row>, n: usize) -> (r: usize)
    requires
        n <= v@.len(),
    ensures
        r == tui::hunk_count(rows::row_views(v@).take(n as int)),
{
    let ghost rv = rows::row_views(v@);
    let mut c: usize = 0;
    for i in 0..n
        invariant
            rv == rows::row_views(v@),
            n <= v@.len(),
            c == tui::hunk_count(rv.take(i as int)),
            c <= i,
    {
        assert(rv.take(i as int + 1).drop_last() =~= rv.take(i as int));
        assert(rv[i as int] == v@[i as int]@);
        if v[i].kind == RowKind::Hunk {
            c = c + 1;
        }
    }
    c
}

/// The line number of the first row from `from` on that has one.
fn find_line(v: &Vec<Row>, from: usize) -> (r: Option<usize>)
    ensures
        r == line_from(rows::row_views(v@), from as int),
{
    let ghost rv = rows::row_views(v@);
    let mut i: usize = from;
    while i < v.len()
        invariant
            rv == rows::row_views(v@),
            from <= i,
            line_from(rv, from as int) == line_from(rv, i as int),
        decreases v@.len() - i,
    {
        assert(rv[i as int] == v@[i as int]@);
        if v[i].new_no.is_some() {
            return v[i].new_no;
        }
        if v[i].old_no.is_some() {
            return v[i].old_no;
        }
        i = i + 1;
    }
    None
}

/// Of the rows that other threads have built for a file, the first ones count,
/// unless the file had rows before. Other files are not touched.
pub proof fn law_first_rows_count(a: AppV, v: Seq<(int, Seq<RowV>)>, idx: int, k: int)
    requires
        0 <= idx < a.cache.len(),
    ensures
        a.stored_all(v).cache.len() == a.cache.len(),
        a.cache[idx] is Some ==> a.stored_all(v).cache[idx] == a.cache[idx],
        a.cache[idx] is None && 0 <= k < v.len() && v[k].0 == idx && (forall|j: int|
            0 <= j < k ==> (#[trigger] v[j]).0 != idx) ==> a.stored_all(v).cache[idx] == Some(
            v[k].1,
        ),
        a.cache[idx] is None && (forall|j: int| 0 <= j < v.len() ==> (#[trigger] v[j]).0 != idx)
            ==> a.stored_all(v).cache[idx] is None,
        a.stored_all(v).ui == a.ui,
    decreases v.len(),
{
    if v.len() > 0 {
        let w = v.drop_last();
        law_first_rows_count(a, w, idx, k);
        assert forall|j: int| 0 <= j < w.len() implies w[j] == v[j] by {}
        if 0 <= k < v.len() && k == v.len() - 1 {
            if forall|j: int| 0 <= j < k ==> (#[trigger] v[j]).0 != idx {
                assert forall|j: int| 0 <= j < w.len() implies (#[trigger] w[j]).0 != idx by {
                    assert(v[j].0 != idx);
                }
            }
        } else if 0 <= k < w.len() {
            if forall|j: int| 0 <= j < k ==> (#[trigger] v[j]).0 != idx {
                assert forall|j: int| 0 <= j < k implies (#[trigger] w[j]).0 != idx by {
                    assert(v[j].0 != idx);
                }
            }
        }
        if forall|j: int| 0 <= j < v.len() ==> (#[trigger] v[j]).0 != idx {
            assert forall|j: int| 0 <= j < w.len() implies (#[trigger] w[j]).0 != idx by {
                assert(v[j].0 != idx);
            }
            assert(v[v.len() - 1].0 != idx);
        }
    }
}

} // verus!
