//! What events do to the viewer.
use crate::diff;
use crate::geometry;
use crate::geometry::Pane;
use crate::keys;
use crate::keys::{Action, Key, KeyV, Typing};
use crate::laws;
use crate::rows;
use crate::search;
use crate::select;
use crate::session;
use crate::text;
use crate::tui;
use crate::tui::{App, AppV, LastClick, Layout, ModalHit, Page, Sel, Ui};
use vstd::prelude::*;

verus! {

/// How many columns a horizontal scroll moves.
pub const PAN: isize = 4;

/// How many rows the wheel moves.
pub const WHEEL: isize = 3;

/// Two clicks within this time, in milliseconds, are a double click.
pub const DOUBLE: u64 = 400;

/// A mouse button.
#[derive(Debug, Clone, Copy, PartialEq, Eq, Structural)]
pub enum Button {
    Left,
    WheelUp,
    WheelDown,
    WheelLeft,
    WheelRight,
    Other,
}

/// A mouse event.
#[derive(Debug, Clone, Copy, PartialEq, Eq, Structural)]
pub struct Mouse {
    pub x: u16,
    pub y: u16,
    pub button: Button,
}

/// An event of the terminal.
#[derive(Debug, Clone)]
pub enum Input {
    Press(Key),
    Wheel(Mouse),
    Click(Mouse),
    Motion(Mouse),
    Release(Mouse),
    /// The screen has a new width and height.
    Resize(u16, u16),
    Other,
}

/// The contents of an event.
pub enum InputV {
    Press(KeyV),
    Wheel(Mouse),
    Click(Mouse),
    Motion(Mouse),
    Release(Mouse),
    Resize(u16, u16),
    Other,
}

impl View for Input {
    type V = InputV;

    open spec fn view(&self) -> InputV {
        match self {
            Input::Press(k) => InputV::Press(k@),
            Input::Wheel(m) => InputV::Wheel(*m),
            Input::Click(m) => InputV::Click(*m),
            Input::Motion(m) => InputV::Motion(*m),
            Input::Release(m) => InputV::Release(*m),
            Input::Resize(w, h) => InputV::Resize(*w, *h),
            Input::Other => InputV::Other,
        }
    }
}

/// What is to be done outside of the viewer after an event.
#[derive(Debug, Clone)]
pub enum Effect {
    Nothing,
    /// Leave the program.
    Quit,
    /// Copy a text to the clipboard.
    Copy(String),
    /// Run a command, the editor.
    Edit(Vec<String>),
    /// Run the diff again. With an anchor, then pin the hunk header of that
    /// number to that row of the viewport.
    Reload(Option<(usize, usize)>),
    /// The left pane takes that many columns out of those of both panes.
    Split(u16, u16),
}

/// The contents of an effect.
pub enum EffectV {
    Nothing,
    Quit,
    Copy(Seq<char>),
    Edit(Seq<Seq<char>>),
    Reload(Option<(usize, usize)>),
    Split(u16, u16),
}

impl View for Effect {
    type V = EffectV;

    open spec fn view(&self) -> EffectV {
        match self {
            Effect::Nothing => EffectV::Nothing,
            Effect::Quit => EffectV::Quit,
            Effect::Copy(s) => EffectV::Copy(s@),
            Effect::Edit(w) => EffectV::Edit(text::texts(w@)),
            Effect::Reload(a) => EffectV::Reload(*a),
            Effect::Split(a, b) => EffectV::Split(*a, *b),
        }
    }
}

/// A viewer and what is to be done outside of it.
pub type Outcome = (AppV, EffectV);

/// Whether a key that does `action` in the diff view keeps a selection.
pub open spec fn keeps_selection(action: Action, help_open: bool) -> bool {
    match action {
        Action::Quit | Action::Escape | Action::Copy | Action::CopyFile => true,
        Action::Help => help_open,
        _ => false,
    }
}

impl AppV {
    /// With another layout.
    pub open spec fn laid_out(self, l: Layout) -> AppV {
        AppV { ui: Ui { layout: l, ..self.ui }, ..self }
    }

    /// On another page.
    pub open spec fn on_page(self, page: Page) -> AppV {
        AppV { ui: Ui { page, ..self.ui }, ..self }
    }

    /// The help footer toggled.
    pub open spec fn help_toggled(self) -> AppV {
        self.laid_out(Layout { help_open: !self.ui.layout.help_open, ..self.ui.layout })
    }

    /// The sidebar toggled.
    pub open spec fn sidebar_toggled(self) -> AppV {
        self.laid_out(Layout { sidebar: Some(!self.sidebar_on()), ..self.ui.layout })
    }

    /// Folded context grown around the cursor's hunk.
    pub open spec fn expanding(self) -> Outcome {
        (
            AppV {
                ui: Ui { expand: diff::saturated((self.ui.expand + 10) as nat), ..self.ui },
                ..self
            },
            EffectV::Reload(
                Some(
                    (
                        session::hunk_number(self.rows(), self.ui.cursor as int) as usize,
                        geometry::minus(self.ui.cursor as int, self.ui.scroll as int) as usize,
                    ),
                ),
            ),
        )
    }

    /// The selected file opened in the editor.
    pub open spec fn editing(self) -> Outcome {
        (
            self,
            match self.edit_words() {
                Some(w) => EffectV::Edit(w),
                None => EffectV::Nothing,
            },
        )
    }

    /// After the enter key: folded context grows on a hunk header, elsewhere
    /// the file opens. A piped diff has nothing folded.
    pub open spec fn entered(self) -> Outcome {
        if !self.on_hunk() {
            self.editing()
        } else if self.setup.piped {
            (self, EffectV::Nothing)
        } else {
            self.expanding()
        }
    }

    /// After a copy.
    pub open spec fn copying(self, now: u64) -> Outcome {
        let t = self.copy_text();
        if t.len() == 0 {
            (self.unselected(), EffectV::Nothing)
        } else {
            (
                self.unselected().noted(select::copied_note(t), now),
                EffectV::Copy(t),
            )
        }
    }

    /// After a copy of the whole file.
    pub open spec fn copying_file(self, now: u64) -> Outcome {
        let t = self.patch();
        if t.len() == 0 {
            (self, EffectV::Nothing)
        } else {
            (self.noted("copied file diff"@, now), EffectV::Copy(t))
        }
    }

    /// With the cursor on row `i`, or with a note where there is none.
    pub open spec fn sought(self, i: Option<int>, now: u64) -> AppV {
        match i {
            Some(i) => self.moved(i - self.ui.cursor),
            None => self.noted("no match"@, now),
        }
    }

    /// With the cursor on the next match at or behind `from`.
    pub open spec fn at_match_from(self, from: int, now: u64) -> AppV {
        match self.query {
            Some(q) => match search::found(self.rows(), q) {
                Some(m) => self.sought(search::next_match(m, from), now),
                None => self.noted("bad pattern"@, now),
            },
            None => self,
        }
    }

    /// With the cursor on the match before it.
    pub open spec fn at_match_before(self, now: u64) -> AppV {
        match self.query {
            Some(q) => match search::found(self.rows(), q) {
                Some(m) => self.sought(
                    search::prev_match(
                        m,
                        geometry::lesser(self.ui.cursor as int, m.len() as int),
                    ),
                    now,
                ),
                None => self.noted("bad pattern"@, now),
            },
            None => self,
        }
    }

    /// After a key while a search pattern is typed.
    #[verifier::opaque]
    pub open spec fn typed(self, t: Seq<char>, k: KeyV, now: u64) -> AppV {
        match keys::typing_of(k) {
            Typing::Cancel => AppV { typing: None, ..self },
            Typing::Erase => AppV {
                typing: Some(
                    if t.len() > 0 {
                        t.drop_last()
                    } else {
                        t
                    },
                ),
                ..self
            },
            Typing::Commit => if t.len() > 0 {
                AppV { typing: None, query: Some(t), ..self }.at_match_from(
                    self.ui.cursor as int,
                    now,
                )
            } else {
                AppV { typing: None, ..self }
            },
            Typing::Insert => match k.text {
                Some(s) => AppV { typing: Some(t + s), ..self },
                None => self,
            },
        }
    }

    /// The rows of the first, middle and last visible row.
    pub open spec fn screen_row(&self, at: int) -> int {
        let n = self.rows().len() as int;
        let seen = geometry::lesser(self.vh(), geometry::minus(n, self.ui.scroll as int));
        self.ui.scroll + if at == 0 {
            0
        } else if at == 1 {
            geometry::minus(seen, 1) / 2
        } else {
            geometry::minus(seen, 1)
        }
    }

    /// What is shown after an action that moves through the diff.
    #[verifier::opaque]
    pub open spec fn navigated_ui(self, action: Action, share: u16) -> Ui {
        match action {
            Action::Down => self.moved(1).ui,
            Action::Up => self.moved(-1).ui,
            Action::Left => self.panned(-PAN, share).ui,
            Action::Right => self.panned(PAN as int, share).ui,
            Action::LineStart => Ui { pan: 0, ..self.ui },
            Action::LineEnd => self.panned_to_end(share).ui,
            Action::HalfDown => self.moved(self.vh() / 2).ui,
            Action::HalfUp => self.moved(-(self.vh() / 2)).ui,
            Action::PageDown => self.moved(self.vh()).ui,
            Action::PageUp => self.moved(-self.vh()).ui,
            Action::ScrollDown => self.paged(1).ui,
            Action::ScrollUp => self.paged(-1).ui,
            Action::Top => self.sent_to(0).ui,
            Action::Bottom => self.sent_to(geometry::minus(self.rows().len() as int, 1)).ui,
            Action::ScreenTop => self.set_on(self.screen_row(0)).ui,
            Action::ScreenMiddle => self.set_on(self.screen_row(1)).ui,
            Action::ScreenBottom => self.set_on(self.screen_row(2)).ui,
            Action::NextHunk => self.at_next_hunk().ui,
            Action::PrevHunk => self.at_prev_hunk().ui,
            _ => self.ui,
        }
    }

    /// What is shown after an action that changes how the diff is shown.
    #[verifier::opaque]
    pub open spec fn toggled_ui(self, action: Action) -> Ui {
        match action {
            Action::Escape => if self.ui.sel is Some {
                self.unselected().ui
            } else {
                self.on_page(Page::Diff).ui
            },
            Action::Split => Ui { split: !self.ui.split, ..self.ui },
            Action::Files => self.on_page(Page::Stat).ui,
            Action::CloseFiles => self.on_page(Page::Diff).ui,
            Action::Sidebar => self.sidebar_toggled().ui,
            Action::Watch => Ui { watch: !self.ui.watch, ..self.ui },
            Action::Help => self.help_toggled().ui,
            _ => self.ui,
        }
    }

    /// After an action that moves the cursor or the viewport, or changes what
    /// is shown, and asks for nothing outside.
    #[verifier::opaque]
    pub open spec fn shown(self, action: Action, now: u64, share: u16) -> AppV {
        if navigates(action) {
            AppV { ui: self.navigated_ui(action, share), ..self }
        } else if toggles(action) {
            AppV { ui: self.toggled_ui(action), ..self }
        } else {
            match action {
                Action::NextFile => self.stepped(1),
                Action::PrevFile => self.stepped(-1),
                Action::FirstFile => self.picked(0),
                Action::LastFile => self.picked(geometry::minus(self.files.len() as int, 1)),
                Action::Search => AppV { typing: Some(Seq::empty()), ..self },
                Action::NextMatch => self.at_match_from(self.ui.cursor + 1, now),
                Action::PrevMatch => self.at_match_before(now),
                Action::OpenFile => self.on_page(Page::Diff).ensured().sent_to(0),
                _ => self,
            }
        }
    }

    /// After an action.
    #[verifier::opaque]
    pub open spec fn performed(self, action: Action, now: u64, share: u16) -> Outcome {
        let a = if self.ui.page == Page::Diff && !keeps_selection(
            action,
            self.ui.layout.help_open,
        ) {
            self.unselected()
        } else {
            self
        };
        match action {
            Action::Quit => (a, EffectV::Quit),
            Action::Copy => a.copying(now),
            Action::CopyFile => a.copying_file(now),
            Action::Refresh => (a, EffectV::Reload(None)),
            Action::Edit => a.editing(),
            Action::Enter => a.entered(),
            _ => (a.shown(action, now, share), EffectV::Nothing),
        }
    }

    /// After a key. In the diff view a key without a meaning still drops the
    /// selection.
    #[verifier::opaque]
    pub open spec fn pressed(self, k: KeyV, now: u64, share: u16) -> Outcome {
        match self.typing {
            Some(t) => (self.typed(t, k, now), EffectV::Nothing),
            None => {
                let b = match self.ui.page {
                    Page::Diff => keys::diff_bindings(),
                    Page::Stat => keys::stat_bindings(),
                };
                match keys::bound(b, k) {
                    Some(action) => self.performed(action, now, share),
                    None => if self.ui.page == Page::Diff {
                        (self.unselected(), EffectV::Nothing)
                    } else {
                        (self, EffectV::Nothing)
                    },
                }
            },
        }
    }

    /// After the wheel turned: the page moves, and no selection is left.
    #[verifier::opaque]
    pub open spec fn wheeled(self, b: Button, share: u16) -> AppV {
        let a = self.unselected();
        match b {
            Button::WheelUp => a.paged(-WHEEL),
            Button::WheelDown => a.paged(WHEEL as int),
            Button::WheelLeft => a.panned(-PAN, share),
            Button::WheelRight => a.panned(PAN as int, share),
            _ => a,
        }
    }

    /// The first file in a list of `h` rows, so that the selected one shows.
    pub open spec fn window(&self, h: int) -> int {
        geometry::minus(self.ui.selected as int, geometry::minus(h, 1))
    }

    /// After a click on the file list: on a file selects it, elsewhere in the
    /// box starts to drag the box, outside closes the list.
    #[verifier::opaque]
    pub open spec fn clicked_list(self, m: Mouse) -> AppV {
        match self.ui.modal_hit {
            Some(h) => if in_box(h, m) {
                if on_list(h, m) {
                    self.picked(h.start + (m.y - h.list_y))
                } else {
                    AppV {
                        ui: Ui {
                            modal_drag: Some(((m.x - h.x0) as u16, (m.y - h.y0) as u16)),
                            ..self.ui
                        },
                        ..self
                    }
                }
            } else {
                self.on_page(Page::Diff)
            },
            None => self.on_page(Page::Diff),
        }
    }

    /// Whether a click follows the last one closely enough for a double click.
    pub open spec fn is_double(&self, m: Mouse, now: u64) -> bool {
        match self.ui.last_click {
            Some(c) => c.y == m.y && -1 <= c.x - m.x <= 1 && geometry::minus(
                now as int,
                c.at as int,
            ) < DOUBLE,
            None => false,
        }
    }

    /// After a click on the diff: the cursor goes there, and a selection may
    /// start there. A double click on a hunk header expands its context.
    #[verifier::opaque]
    pub open spec fn clicked_body(self, m: Mouse, now: u64, share: u16) -> Outcome {
        let a = self.set_on(self.ui.scroll + m.y);
        if self.is_double(m, now) && a.on_hunk() && !self.setup.piped {
            AppV { ui: Ui { sel: None, last_click: None, ..a.ui }, ..a }.expanding()
        } else {
            let pane = if self.ui.split {
                self.frame(share).pane_of(m.x as int)
            } else {
                None
            };
            let (r, c) = a.point(m.x, m.y, pane, share);
            let sel = Sel {
                a_row: r as usize,
                a_col: c as usize,
                c_row: r as usize,
                c_col: c as usize,
                dragging: true,
                pane,
            };
            (
                AppV {
                    ui: Ui {
                        sel: Some(sel),
                        last_click: Some(LastClick { at: now, x: m.x, y: m.y }),
                        ..a.ui
                    },
                    ..a
                },
                EffectV::Nothing,
            )
        }
    }

    /// After a click.
    #[verifier::opaque]
    pub open spec fn clicked(self, m: Mouse, now: u64, share: u16) -> Outcome {
        let f = self.frame(share);
        if m.button != Button::Left {
            (self, EffectV::Nothing)
        } else if m.y == self.vh() && m.x >= self.ui.help_badge_x {
            (self.help_toggled(), EffectV::Nothing)
        } else if self.ui.page == Page::Stat {
            (self.clicked_list(m), EffectV::Nothing)
        } else if self.ui.layout.help_open || m.y >= self.vh() {
            (self, EffectV::Nothing)
        } else if f.sidebar && m.x == f.side_edge() {
            (AppV { ui: Ui { resizing: true, ..self.ui }, ..self }, EffectV::Nothing)
        } else if self.ui.split && m.x == f.split_edge() {
            (AppV { ui: Ui { resizing_split: true, ..self.ui }, ..self }, EffectV::Nothing)
        } else if f.beside_body(m.x as int) {
            (self.picked(self.window(self.vh()) + m.y), EffectV::Nothing)
        } else {
            self.clicked_body(m, now, share)
        }
    }

    /// The content scrolled by a row where the pointer is at the edge of the
    /// viewport.
    pub open spec fn edge_scrolled(self, y: u16) -> AppV {
        if y == 0 {
            self.dragged(-1)
        } else if y + 1 >= self.vh() {
            self.dragged(1)
        } else {
            self
        }
    }

    /// After the pointer moved during a text selection: the selection ends at
    /// the pointer. At the edge of the viewport the content scrolls.
    #[verifier::opaque]
    pub open spec fn drag_selected(self, s: Sel, m: Mouse, share: u16) -> AppV {
        let a = self.edge_scrolled(m.y);
        let y = geometry::lesser(m.y as int, geometry::minus(self.vh(), 1)) as u16;
        let (r, c) = a.point(m.x, y, s.pane, share);
        AppV {
            ui: Ui { sel: Some(Sel { c_row: r as usize, c_col: c as usize, ..s }), ..a.ui },
            ..a
        }
    }

    /// After the pointer moved with a button held.
    #[verifier::opaque]
    pub open spec fn pointed(self, m: Mouse, share: u16) -> Outcome {
        let f = self.frame(share);
        match self.ui.modal_drag {
            Some((gx, gy)) => (
                AppV {
                    ui: Ui {
                        modal_pos: Some(
                            (
                                geometry::minus(m.x as int, gx as int) as u16,
                                geometry::minus(m.y as int, gy as int) as u16,
                            ),
                        ),
                        ..self.ui
                    },
                    ..self
                },
                EffectV::Nothing,
            ),
            None => if self.ui.resizing {
                (
                    self.laid_out(
                        Layout {
                            sidebar_width: Some(f.dragged_to(m.x) as usize),
                            ..self.ui.layout
                        },
                    ),
                    EffectV::Nothing,
                )
            } else if self.ui.resizing_split {
                (
                    self,
                    if f.body_w() >= 5 {
                        EffectV::Split(
                            geometry::clamped(
                                geometry::minus(m.x as int, f.body_at()),
                                2,
                                f.body_w() - 3,
                            ) as u16,
                            (f.body_w() - 1) as u16,
                        )
                    } else {
                        EffectV::Nothing
                    },
                )
            } else {
                match self.ui.sel {
                    Some(s) => if s.dragging {
                        (self.drag_selected(s, m, share), EffectV::Nothing)
                    } else {
                        (self, EffectV::Nothing)
                    },
                    None => (self, EffectV::Nothing),
                }
            },
        }
    }

    /// After a button was let go: nothing is dragged any more. A selection
    /// that was being dragged stays, and its text is copied if there is any;
    /// one that covers nothing is gone.
    pub open spec fn released(self, b: Button, now: u64) -> Outcome {
        let ui = Ui { resizing: false, resizing_split: false, modal_drag: None, ..self.ui };
        if b != Button::Left {
            (self, EffectV::Nothing)
        } else {
            match self.ui.sel {
                Some(s) => if (s.a_row, s.a_col) == (s.c_row, s.c_col) {
                    (AppV { ui: Ui { sel: None, ..ui }, ..self }, EffectV::Nothing)
                } else if s.dragging {
                    let t = select::chosen_text(self.rows(), s);
                    let a = AppV {
                        ui: Ui { sel: Some(Sel { dragging: false, ..s }), ..ui },
                        ..self
                    };
                    if t.len() == 0 {
                        (a, EffectV::Nothing)
                    } else {
                        (a.noted(select::copied_note(t), now), EffectV::Copy(t))
                    }
                } else {
                    (AppV { ui, ..self }, EffectV::Nothing)
                },
                None => (AppV { ui, ..self }, EffectV::Nothing),
            }
        }
    }

    /// After the screen changed its size.
    pub open spec fn resized(self, width: u16, height: u16) -> AppV {
        self.unselected().laid_out(Layout { width, height, ..self.ui.layout }).moved(0)
    }

    /// After an event.
    pub open spec fn handled(self, ev: InputV, now: u64, share: u16) -> Outcome {
        match ev {
            InputV::Press(k) => self.pressed(k, now, share),
            InputV::Wheel(m) => (self.wheeled(m.button, share), EffectV::Nothing),
            InputV::Click(m) => self.clicked(m, now, share),
            InputV::Motion(m) => self.pointed(m, share),
            InputV::Release(m) => self.released(m.button, now),
            InputV::Resize(w, h) => (self.resized(w, h), EffectV::Nothing),
            InputV::Other => (self, EffectV::Nothing),
        }
    }

    /// Whether a click lands on the diff, the sidebar or a divider.
    pub open spec fn hits_body(&self, m: Mouse) -> bool {
        m.button == Button::Left && self.ui.page == Page::Diff && !self.ui.layout.help_open && m.y
            < self.vh()
    }

    /// Whether the screen has room for what a mouse event touches: two panes
    /// need 5 columns.
    pub open spec fn has_room(&self, ev: InputV) -> bool {
        let w = self.frame(0).body_w();
        match ev {
            InputV::Click(m) => self.hits_body(m) && self.ui.split ==> w >= 5,
            InputV::Motion(m) => match self.ui.sel {
                Some(s) => s.dragging && s.pane == Some(Pane::Right) && self.ui.modal_drag is None
                    && !self.ui.resizing && !self.ui.resizing_split ==> w >= 5,
                None => true,
            },
            _ => true,
        }
    }
}

/// Whether a mouse event is in the box of the file list.
pub open spec fn in_box(h: ModalHit, m: Mouse) -> bool {
    h.x0 <= m.x < h.x1 && h.y0 <= m.y < h.y1
}

/// Whether a mouse event is in the rows of the file list.
pub open spec fn on_list(h: ModalHit, m: Mouse) -> bool {
    h.list_y <= m.y < h.list_y + h.list_h
}

impl App {
    /// Grow the folded context around the current hunk.
    pub fn expand_here(&mut self) -> (r: Effect)
        ensures
            (final(self)@, r@) == old(self)@.expanding(),
            final(self).setup == old(self).setup,
    {
        let off = self.ui().cursor.saturating_sub(self.ui().scroll);
        let ord = self.hunk_ordinal();
        self.set_ui(Ui { expand: self.ui().expand.saturating_add(10), ..self.ui() });
        Effect::Reload(Some((ord, off)))
    }

    /// Open the selected file in the editor.
    fn open_editor(&self) -> (r: Effect)
        ensures
            (self@, r@) == self@.editing(),
    {
        match self.editor_command() {
            Some(w) => Effect::Edit(w),
            None => Effect::Nothing,
        }
    }

    /// Expand folded context on a hunk header, elsewhere open the file.
    fn enter(&mut self) -> (r: Effect)
        ensures
            (final(self)@, r@) == old(self)@.entered(),
            final(self).setup == old(self).setup,
    {
        if !self.on_hunk() {
            self.open_editor()
        } else if self.is_piped() {
            Effect::Nothing
        } else {
            self.expand_here()
        }
    }

    fn copy(&mut self, now: u64) -> (r: Effect)
        ensures
            (final(self)@, r@) == old(self)@.copying(now),
            final(self).setup == old(self).setup,
    {
        match self.yank(now) {
            Some(t) => Effect::Copy(t),
            None => Effect::Nothing,
        }
    }

    fn copy_file(&mut self, now: u64) -> (r: Effect)
        ensures
            (final(self)@, r@) == old(self)@.copying_file(now),
            final(self).setup == old(self).setup,
    {
        match self.yank_file(now) {
            Some(t) => Effect::Copy(t),
            None => Effect::Nothing,
        }
    }

    /// Move the cursor to a match.
    fn seek(&mut self, i: Option<usize>, now: u64)
        requires
            i is Some ==> i->0 < old(self)@.rows().len(),
        ensures
            final(self)@ == old(self)@.sought(search::as_int(i), now),
            final(self).setup == old(self).setup,
    {
        match i {
            Some(i) => {
                let u = self.moved_to(i);
                self.set_ui(u);
            },
            None => self.set_flash("no match".to_owned(), now),
        }
    }

    /// The matches of the last search among the rows.
    fn matches(&self) -> (r: Option<Option<Vec<bool>>>)
        ensures
            match (r, self@.query) {
                (Some(Some(m)), Some(q)) => search::found(self@.rows(), q) == Some(m@),
                (Some(None), Some(q)) => search::found(self@.rows(), q) is None,
                (None, None) => true,
                _ => false,
            },
    {
        match &self.query {
            Some(q) => match self.rows() {
                Some(v) => Some(search::find_rows(v, q.as_str())),
                None => {
                    let v: Vec<rows::Row> = Vec::new();
                    assert(rows::row_views(v@) =~= Seq::<rows::RowV>::empty());
                    Some(search::find_rows(&v, q.as_str()))
                },
            },
            None => None,
        }
    }

    /// Move the cursor to the next match at or behind row `from`.
    fn next_match_from(&mut self, from: usize, now: u64)
        ensures
            final(self)@ == old(self)@.at_match_from(from as int, now),
            final(self).setup == old(self).setup,
    {
        match self.matches() {
            Some(Some(m)) => {
                let i = search::find_next(&m, from);
                proof {
                    search::lemma_next_in_range(m@, from as int);
                }
                self.seek(i, now);
            },
            Some(None) => self.set_flash("bad pattern".to_owned(), now),
            None => {},
        }
    }

    /// Move the cursor to the match before it.
    fn prev_match(&mut self, now: u64)
        ensures
            final(self)@ == old(self)@.at_match_before(now),
            final(self).setup == old(self).setup,
    {
        match self.matches() {
            Some(Some(m)) => {
                let to: usize = if self.ui().cursor < m.len() {
                    self.ui().cursor
                } else {
                    m.len()
                };
                let i = search::find_prev(&m, to);
                proof {
                    search::lemma_prev_in_range(m@, to as int);
                }
                self.seek(i, now);
            },
            Some(None) => self.set_flash("bad pattern".to_owned(), now),
            None => {},
        }
    }

    fn set_typing(&mut self, t: Option<String>)
        ensures
            final(self)@ == (AppV { typing: tui::text_of(t), ..old(self)@ }),
            final(self).setup == old(self).setup,
    {
        self.typing = t;
    }

    fn set_query(&mut self, q: String)
        ensures
            final(self)@ == (AppV { query: Some(q@), ..old(self)@ }),
            final(self).setup == old(self).setup,
    {
        self.query = Some(q);
    }

    /// Take in a key while a search pattern is typed; `t` is the pattern so
    /// far.
    #[verifier::rlimit(40)]
    fn type_key(&mut self, t: &str, k: &Key, now: u64)
        ensures
            final(self)@ == old(self)@.typed(t@, k@, now),
            final(self).setup == old(self).setup,
    {
        reveal(AppV::typed);
        let v = text::to_chars(t);
        match keys::typing(k) {
            Typing::Cancel => self.set_typing(None),
            Typing::Erase => {
                let n: usize = if v.len() > 0 {
                    v.len() - 1
                } else {
                    0
                };
                let s = text::slice_chars(&v, 0, n);
                assert(s@ =~= if t@.len() > 0 {
                    t@.drop_last()
                } else {
                    t@
                });
                self.set_typing(Some(s));
            },
            Typing::Commit => {
                self.set_typing(None);
                if v.len() > 0 {
                    self.set_query(t.to_owned());
                    let from = self.ui().cursor;
                    self.next_match_from(from, now);
                }
            },
            Typing::Insert => {
                if let Some(s) = &k.text {
                    let mut n = t.to_owned();
                    n.push_str(s.as_str());
                    self.set_typing(Some(n));
                }
            },
        }
    }

    /// The first, middle or last visible row.
    fn visible_row(&self, at: u8) -> (r: usize)
        requires
            self@.wf(),
        ensures
            r == self@.screen_row(at as int),
    {
        let left = self.row_count().saturating_sub(self.ui().scroll);
        let vh = self.viewport_rows();
        let seen: usize = if vh < left {
            vh
        } else {
            left
        };
        let last = seen.saturating_sub(1);
        self.ui().scroll + if at == 0 {
            0
        } else if at == 1 {
            last / 2
        } else {
            last
        }
    }

    /// Show another page.
    fn show_page(&mut self, page: Page)
        ensures
            final(self)@ == old(self)@.on_page(page),
            final(self).setup == old(self).setup,
    {
        self.set_ui(Ui { page, ..self.ui() });
    }

    /// What is shown after an action that moves through the diff.
    #[verifier::rlimit(40)]
    fn navigated(&self, action: Action, share: u16) -> (r: Ui)
        requires
            self@.wf(),
        ensures
            r == self@.navigated_ui(action, share),
    {
        reveal(AppV::navigated_ui);
        let page = self.viewport_rows() as isize;
        match action {
            Action::Down => self.moved_by(1),
            Action::Up => self.moved_by(-1),
            Action::Left => self.panned_by(-PAN, share),
            Action::Right => self.panned_by(PAN, share),
            Action::LineStart => Ui { pan: 0, ..self.ui() },
            Action::LineEnd => self.panned_to_line_end(share),
            Action::HalfDown => self.moved_by(page / 2),
            Action::HalfUp => self.moved_by(-(page / 2)),
            Action::PageDown => self.moved_by(page),
            Action::PageUp => self.moved_by(-page),
            Action::ScrollDown => self.paged_by(1),
            Action::ScrollUp => self.paged_by(-1),
            Action::Top => self.sent_to_row(0),
            Action::Bottom => self.sent_to_row(self.row_count().saturating_sub(1)),
            Action::ScreenTop => self.set_on_row(self.visible_row(0)),
            Action::ScreenMiddle => self.set_on_row(self.visible_row(1)),
            Action::ScreenBottom => self.set_on_row(self.visible_row(2)),
            Action::NextHunk => self.hunk_jumped(true),
            Action::PrevHunk => self.hunk_jumped(false),
            _ => self.ui(),
        }
    }

    /// The file that an action leads to.
    fn file_after(&self, action: Action) -> (r: Option<usize>)
        ensures
            match r {
                Some(i) => self@.picked(i as int),
                None => self@,
            } == match action {
                Action::NextFile => self@.stepped(1),
                Action::PrevFile => self@.stepped(-1),
                Action::FirstFile => self@.picked(0),
                Action::LastFile => self@.picked(geometry::minus(self@.files.len() as int, 1)),
                _ => self@,
            },
    {
        let n = self.file_count();
        if n == 0 {
            return None;
        }
        match action {
            Action::NextFile => Some(tui::shifted(self.ui().selected, 1, n - 1)),
            Action::PrevFile => Some(tui::shifted(self.ui().selected, -1, n - 1)),
            Action::FirstFile => Some(0),
            Action::LastFile => Some(n - 1),
            _ => None,
        }
    }

    /// Close the file list and show the selected file from its start.
    fn open_file(&mut self)
        ensures
            final(self)@ == old(self)@.on_page(Page::Diff).ensured().sent_to(0),
            final(self).setup == old(self).setup,
    {
        self.show_page(Page::Diff);
        self.ensure_rows();
        self.cursor_to(0);
    }

    /// What is shown after an action that changes how the diff is shown.
    #[verifier::rlimit(40)]
    fn toggled(&self, action: Action) -> (r: Ui)
        ensures
            r == self@.toggled_ui(action),
    {
        reveal(AppV::toggled_ui);
        let u = self.ui();
        match action {
            Action::Escape => if u.sel.is_some() {
                Ui { sel: None, ..u }
            } else {
                Ui { page: Page::Diff, ..u }
            },
            Action::Split => Ui { split: !u.split, ..u },
            Action::Files => Ui { page: Page::Stat, ..u },
            Action::CloseFiles => Ui { page: Page::Diff, ..u },
            Action::Sidebar => {
                let layout = Layout { sidebar: Some(!self.sidebar_visible()), ..u.layout };
                Ui { layout, ..u }
            },
            Action::Watch => Ui { watch: !u.watch, ..u },
            Action::Help => {
                let layout = Layout { help_open: !u.layout.help_open, ..u.layout };
                Ui { layout, ..u }
            },
            _ => u,
        }
    }

    /// Start to type a search pattern.
    fn start_typing(&mut self)
        ensures
            final(self)@ == (AppV { typing: Some(Seq::empty()), ..old(self)@ }),
            final(self).setup == old(self).setup,
    {
        let s = String::new();
        assert(s@ =~= Seq::<char>::empty());
        self.set_typing(Some(s));
    }

    /// Move the cursor to the next match behind it.
    fn next_match(&mut self, now: u64)
        requires
            old(self)@.wf(),
        ensures
            final(self)@ == old(self)@.at_match_from(old(self)@.ui.cursor + 1, now),
            final(self).setup == old(self).setup,
    {
        let n = self.row_count();
        assert(self@.ui.cursor == 0 || self@.ui.cursor < n);
        let from: usize = self.ui().cursor + 1;
        self.next_match_from(from, now);
    }

    /// Move, search, or change what is shown.
    #[verifier::rlimit(40)]
    fn show(&mut self, action: Action, now: u64, share: u16)
        requires
            old(self)@.wf(),
        ensures
            final(self)@ == old(self)@.shown(action, now, share),
            final(self).setup == old(self).setup,
    {
        reveal(AppV::shown);
        if is_navigation(action) {
            let u = self.navigated(action, share);
            self.set_ui(u);
            return;
        }
        if is_toggle(action) {
            let u = self.toggled(action);
            self.set_ui(u);
            return;
        }
        match action {
            Action::OpenFile => {
                self.open_file();
                return;
            },
            Action::Search => {
                self.start_typing();
                return;
            },
            Action::NextMatch => {
                self.next_match(now);
                return;
            },
            Action::PrevMatch => {
                self.prev_match(now);
                return;
            },
            _ => {},
        }
        match self.file_after(action) {
            Some(i) => {
                self.select_file_at(i);
                return;
            },
            None => {
                return;
            },
        }
    }

    /// Do what a key stands for.
    #[verifier::rlimit(40)]
    pub fn perform(&mut self, action: Action, now: u64, share: u16) -> (r: Effect)
        requires
            old(self)@.wf(),
        ensures
            (final(self)@, r@) == old(self)@.performed(action, now, share),
            final(self)@.wf(),
            final(self).setup == old(self).setup,
    {
        proof {
            laws::law_actions_keep_wf(self@, action, now, share);
        }
        reveal(AppV::performed);
        let keeps = match action {
            Action::Quit | Action::Escape | Action::Copy | Action::CopyFile => true,
            Action::Help => self.ui().layout.help_open,
            _ => false,
        };
        if self.ui().page == Page::Diff && !keeps {
            self.set_ui(Ui { sel: None, ..self.ui() });
        }
        match action {
            Action::Quit => Effect::Quit,
            Action::Copy => self.copy(now),
            Action::CopyFile => self.copy_file(now),
            Action::Refresh => Effect::Reload(None),
            Action::Edit => self.open_editor(),
            Action::Enter => self.enter(),
            _ => {
                self.show(action, now, share);
                Effect::Nothing
            },
        }
    }

    /// Take in a key.
    #[verifier::rlimit(40)]
    fn press(&mut self, k: &Key, now: u64, share: u16) -> (r: Effect)
        requires
            old(self)@.wf(),
        ensures
            (final(self)@, r@) == old(self)@.pressed(k@, now, share),
            final(self).setup == old(self).setup,
    {
        reveal(AppV::pressed);
        match self.typed_so_far() {
            Some(t) => {
                self.type_key(t.as_str(), k, now);
                return Effect::Nothing;
            },
            None => {},
        }
        let page = self.ui().page;
        let table = match page {
            Page::Diff => keys::diff_keys(),
            Page::Stat => keys::stat_keys(),
        };
        match keys::find_action(&table, k) {
            Some(action) => self.perform(action, now, share),
            None => {
                if page == Page::Diff {
                    self.set_ui(Ui { sel: None, ..self.ui() });
                }
                Effect::Nothing
            },
        }
    }

    /// The search pattern as far as it is typed.
    fn typed_so_far(&self) -> (r: Option<String>)
        ensures
            tui::text_of(r) == self@.typing,
    {
        match &self.typing {
            Some(t) => Some(t.clone()),
            None => None,
        }
    }

    /// What is shown after the wheel turned.
    fn wheel(&mut self, b: Button, share: u16)
        ensures
            final(self)@ == old(self)@.wheeled(b, share),
            final(self).setup == old(self).setup,
    {
        reveal(AppV::wheeled);
        self.set_ui(Ui { sel: None, ..self.ui() });
        let u = match b {
            Button::WheelUp => self.paged_by(-WHEEL),
            Button::WheelDown => self.paged_by(WHEEL),
            Button::WheelLeft => self.panned_by(-PAN, share),
            Button::WheelRight => self.panned_by(PAN, share),
            _ => self.ui(),
        };
        self.set_ui(u);
    }

    /// Scroll offset of a file list `list_h` rows tall, keeping the selected
    /// file visible.
    pub fn file_window(&self, list_h: usize) -> (r: usize)
        ensures
            r == self@.window(list_h as int),
    {
        self.ui().selected.saturating_sub(list_h.saturating_sub(1))
    }

    /// Take in a click on the file list.
    fn click_list(&mut self, m: Mouse)
        ensures
            final(self)@ == old(self)@.clicked_list(m),
            final(self).setup == old(self).setup,
    {
        reveal(AppV::clicked_list);
        let u = self.ui();
        if let Some(h) = u.modal_hit {
            if m.x >= h.x0 && m.x < h.x1 && m.y >= h.y0 && m.y < h.y1 {
                if m.y >= h.list_y && ((m.y - h.list_y) as usize) < h.list_h {
                    let idx = h.start.saturating_add((m.y - h.list_y) as usize);
                    let n = self.file_count();
                    if idx < n {
                        self.select_file_at(idx);
                    }
                } else {
                    self.set_ui(Ui { modal_drag: Some((m.x - h.x0, m.y - h.y0)), ..u });
                }
                return;
            }
        }
        self.set_ui(Ui { page: Page::Diff, ..u });
    }

    fn double_clicked(&self, m: Mouse, now: u64) -> (r: bool)
        ensures
            r == self@.is_double(m, now),
    {
        match self.ui().last_click {
            Some(c) => c.y == m.y && c.x.saturating_sub(m.x) <= 1 && m.x.saturating_sub(c.x) <= 1
                && now.saturating_sub(c.at) < DOUBLE,
            None => false,
        }
    }

    /// Take in a click on the diff.
    #[verifier::rlimit(40)]
    fn click_body(&mut self, m: Mouse, now: u64, share: u16) -> (r: Effect)
        requires
            old(self)@.ui.split ==> old(self)@.frame(share).body_w() >= 5,
        ensures
            (final(self)@, r@) == old(self)@.clicked_body(m, now, share),
            final(self).setup == old(self).setup,
    {
        reveal(AppV::clicked_body);
        let u = self.ui();
        let double = self.double_clicked(m, now);
        let pane = if u.split {
            self.frame(share).pane_at(m.x)
        } else {
            None
        };
        let row = u.scroll.saturating_add(m.y as usize);
        let v = self.set_on_row(row);
        let n = self.row_count();
        proof {
            assert(self@.rows().len() == n);
            assert(self@.set_on(row as int) == self@.set_on(u.scroll + m.y));
        }
        self.set_ui(v);
        if double && self.on_hunk() && !self.is_piped() {
            self.set_ui(Ui { sel: None, last_click: None, ..v });
            return self.expand_here();
        }
        let (r, c) = self.point_to_content(m.x, m.y, pane, share);
        let sel = Sel { a_row: r, a_col: c, c_row: r, c_col: c, dragging: true, pane };
        let last_click = Some(LastClick { at: now, x: m.x, y: m.y });
        self.set_ui(Ui { sel: Some(sel), last_click, ..v });
        Effect::Nothing
    }

    /// Take in a click.
    #[verifier::rlimit(40)]
    fn click(&mut self, m: Mouse, now: u64, share: u16) -> (r: Effect)
        requires
            old(self)@.has_room(InputV::Click(m)),
        ensures
            (final(self)@, r@) == old(self)@.clicked(m, now, share),
            final(self).setup == old(self).setup,
    {
        reveal(AppV::clicked);
        let u = self.ui();
        if m.button != Button::Left {
            return Effect::Nothing;
        }
        let vh = self.viewport_rows();
        if m.y as usize == vh && m.x >= u.help_badge_x {
            let layout = Layout { help_open: !u.layout.help_open, ..u.layout };
            self.set_ui(Ui { layout, ..u });
            return Effect::Nothing;
        }
        if u.page == Page::Stat {
            self.click_list(m);
            return Effect::Nothing;
        }
        if u.layout.help_open || m.y as usize >= vh {
            return Effect::Nothing;
        }
        let f = self.frame(share);
        proof {
            tui::lemma_frame(self@, share);
        }
        if f.sidebar && m.x == f.divider_x() {
            self.set_ui(Ui { resizing: true, ..u });
            return Effect::Nothing;
        }
        if u.split && m.x == f.split_div_x() {
            self.set_ui(Ui { resizing_split: true, ..u });
            return Effect::Nothing;
        }
        if f.in_sidebar(m.x) {
            let idx = self.file_window(vh).saturating_add(m.y as usize);
            let n = self.file_count();
            if idx < n {
                self.select_file_at(idx);
            }
            return Effect::Nothing;
        }
        self.click_body(m, now, share)
    }

    /// What is shown after the pointer has reached a row while dragging.
    fn after_edge(&self, y: u16) -> (r: Ui)
        ensures
            (AppV { ui: r, ..self@ }) == self@.edge_scrolled(y),
            r.layout == self@.ui.layout,
    {
        let vh = self.viewport_rows();
        if y == 0 {
            self.dragged_by(-1)
        } else if y as usize + 1 >= vh {
            self.dragged_by(1)
        } else {
            self.ui()
        }
    }

    /// Extend a selection to the pointer.
    fn drag_selection(&mut self, s: Sel, m: Mouse, share: u16)
        requires
            s.pane == Some(Pane::Right) ==> old(self)@.frame(share).body_w() >= 5,
        ensures
            final(self)@ == old(self)@.drag_selected(s, m, share),
            final(self).setup == old(self).setup,
    {
        reveal(AppV::drag_selected);
        let last = self.viewport_rows().saturating_sub(1);
        let y: u16 = if (m.y as usize) < last {
            m.y
        } else {
            last as u16
        };
        let u = self.after_edge(m.y);
        self.set_ui(u);
        let (r, c) = self.point_to_content(m.x, y, s.pane, share);
        self.set_ui(Ui { sel: Some(Sel { c_row: r, c_col: c, ..s }), ..u });
    }

    /// Take in a move of the pointer with a button held.
    #[verifier::rlimit(40)]
    fn motion(&mut self, m: Mouse, share: u16) -> (r: Effect)
        requires
            old(self)@.has_room(InputV::Motion(m)),
        ensures
            (final(self)@, r@) == old(self)@.pointed(m, share),
            final(self).setup == old(self).setup,
    {
        reveal(AppV::pointed);
        proof {
            tui::lemma_frame(self@, share);
        }
        let u = self.ui();
        if let Some((gx, gy)) = u.modal_drag {
            let pos = (m.x.saturating_sub(gx), m.y.saturating_sub(gy));
            self.set_ui(Ui { modal_pos: Some(pos), ..u });
            return Effect::Nothing;
        }
        if u.resizing {
            let w = self.frame(share).resized_sidebar(m.x);
            let layout = Layout { sidebar_width: Some(w), ..u.layout };
            self.set_ui(Ui { layout, ..u });
            return Effect::Nothing;
        }
        if u.resizing_split {
            return match self.frame(share).resized_split(m.x) {
                Some((left, inner)) => Effect::Split(left, inner),
                None => Effect::Nothing,
            };
        }
        if let Some(s) = u.sel {
            if s.dragging {
                self.drag_selection(s, m, share);
            }
        }
        Effect::Nothing
    }

    /// Take in that a button was let go.
    fn release(&mut self, b: Button, now: u64) -> (r: Effect)
        ensures
            (final(self)@, r@) == old(self)@.released(b, now),
            final(self).setup == old(self).setup,
    {
        if b != Button::Left {
            return Effect::Nothing;
        }
        let u = self.ui();
        let ui = Ui { resizing: false, resizing_split: false, modal_drag: None, ..u };
        if let Some(s) = u.sel {
            if s.is_empty() {
                self.set_ui(Ui { sel: None, ..ui });
                return Effect::Nothing;
            }
            if s.dragging {
                let t = self.selection_text(s);
                self.set_ui(Ui { sel: Some(Sel { dragging: false, ..s }), ..ui });
                if text::to_chars(t.as_str()).len() == 0 {
                    return Effect::Nothing;
                }
                self.set_flash(select::note_for(t.as_str()), now);
                return Effect::Copy(t);
            }
        }
        self.set_ui(ui);
        Effect::Nothing
    }

    /// Take in a new size of the screen.
    pub fn resize(&mut self, width: u16, height: u16)
        ensures
            final(self)@ == old(self)@.resized(width, height),
            final(self).setup == old(self).setup,
    {
        let u = self.ui();
        let layout = Layout { width, height, ..u.layout };
        self.set_ui(Ui { layout, sel: None, ..u });
        self.move_cursor(0);
    }

    /// Whether the screen has room for what an event may touch.
    pub fn has_room(&self, ev: &Input) -> (r: bool)
        ensures
            r == self@.has_room(ev@),
    {
        let u = self.ui();
        let w = self.frame(0).body_width();
        match ev {
            Input::Click(m) => {
                let body = m.button == Button::Left && u.page == Page::Diff && !u.layout.help_open
                    && (m.y as usize) < self.viewport_rows();
                !body || !u.split || w >= 5
            },
            Input::Motion(_) => match u.sel {
                Some(s) => !s.dragging || u.modal_drag.is_some() || u.resizing || u.resizing_split
                    || w >= 5 || match s.pane {
                    Some(Pane::Right) => false,
                    _ => true,
                },
                None => true,
            },
            _ => true,
        }
    }

    /// Handle one event at a time in milliseconds, with the columns that the
    /// left pane should have. Returns what is to be done outside.
    #[verifier::rlimit(40)]
    pub fn handle(&mut self, ev: &Input, now: u64, share: u16) -> (r: Effect)
        requires
            old(self)@.wf(),
            old(self)@.has_room(ev@),
        ensures
            (final(self)@, r@) == old(self)@.handled(ev@, now, share),
            final(self)@.wf(),
            final(self).setup == old(self).setup,
    {
        proof {
            laws::law_events_keep_wf(self@, ev@, now, share);
        }
        match ev {
            Input::Press(k) => {
                return self.press(k, now, share);
            },
            Input::Wheel(m) => {
                self.wheel(m.button, share);
                return Effect::Nothing;
            },
            Input::Click(m) => {
                return self.click(*m, now, share);
            },
            Input::Motion(m) => {
                return self.motion(*m, share);
            },
            Input::Release(m) => {
                return self.release(m.button, now);
            },
            Input::Resize(w, h) => {
                self.resize(*w, *h);
                return Effect::Nothing;
            },
            Input::Other => {
                return Effect::Nothing;
            },
        }
    }
}

/// Whether an action changes how the diff is shown.
pub open spec fn toggles(action: Action) -> bool {
    match action {
        Action::Escape | Action::Split | Action::Files | Action::CloseFiles | Action::Sidebar
        | Action::Watch | Action::Help => true,
        _ => false,
    }
}

/// Whether an action moves through the diff.
pub open spec fn navigates(action: Action) -> bool {
    match action {
        Action::Down | Action::Up | Action::Left | Action::Right | Action::LineStart
        | Action::LineEnd | Action::HalfDown | Action::HalfUp | Action::PageDown | Action::PageUp
        | Action::ScrollDown | Action::ScrollUp | Action::Top | Action::Bottom | Action::ScreenTop
        | Action::ScreenMiddle | Action::ScreenBottom | Action::NextHunk | Action::PrevHunk => true,
        _ => false,
    }
}

fn is_navigation(action: Action) -> (r: bool)
    ensures
        r == navigates(action),
{
    match action {
        Action::Down | Action::Up | Action::Left | Action::Right | Action::LineStart
        | Action::LineEnd | Action::HalfDown | Action::HalfUp | Action::PageDown | Action::PageUp
        | Action::ScrollDown | Action::ScrollUp | Action::Top | Action::Bottom | Action::ScreenTop
        | Action::ScreenMiddle | Action::ScreenBottom | Action::NextHunk | Action::PrevHunk => true,
        _ => false,
    }
}

fn is_toggle(action: Action) -> (r: bool)
    ensures
        r == toggles(action),
{
    match action {
        Action::Escape | Action::Split | Action::Files | Action::CloseFiles | Action::Sidebar
        | Action::Watch | Action::Help => true,
        _ => false,
    }
}

} // verus!
