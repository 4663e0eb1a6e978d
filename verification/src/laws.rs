//! What holds of the viewer whatever happens to it.
use crate::diff;
use crate::events;
use crate::events::{Button, EffectV, InputV, Mouse};
use crate::geometry;
use crate::keys;
use crate::keys::{Action, KeyV};
use crate::rows::{RowKind, RowV};
use crate::search;
use crate::select;
use crate::session;
use crate::tui;
use crate::tui::{AppV, Page, Sel, Ui};
use vstd::prelude::*;

verus! {

/// Moving keeps the viewer valid.
#[verifier::rlimit(40)]
pub proof fn law_moves_keep_wf(a: AppV, n: int, share: u16)
    requires
        a.wf(),
    ensures
        a.moved(n).wf(),
        a.paged(n).wf(),
        a.dragged(n).wf(),
        0 <= n ==> a.sent_to(n).wf(),
        0 <= n ==> a.set_on(n).wf(),
        a.panned(n, share).wf(),
        a.panned_to_end(share).wf(),
        a.at_next_hunk().wf(),
        a.at_prev_hunk().wf(),
{
    lemma_vh(a);
    assert(a.moved(n).wf());
    assert(a.paged(n).wf());
    assert(a.dragged(n).wf());
}

proof fn lemma_vh(a: AppV)
    ensures
        0 <= a.vh() <= 0xffff,
        0 <= a.max_scroll(),
        a.max_scroll() <= a.rows().len(),
{
    tui::lemma_frame(a, 0);
}

/// Changing the file keeps the viewer valid.
#[verifier::rlimit(40)]
pub proof fn law_files_keep_wf(a: AppV, n: int)
    requires
        a.wf(),
    ensures
        a.ensured().wf(),
        a.picked(n).wf(),
        a.stepped(n).wf(),
{
}

#[verifier::rlimit(40)]
proof fn lemma_match_wf(a: AppV, from: int, now: u64)
    requires
        a.wf(),
    ensures
        a.at_match_from(from, now).wf(),
        a.at_match_before(now).wf(),
{
    match a.query {
        Some(q) => match search::found(a.rows(), q) {
            Some(m) => {
                match search::next_match(m, from) {
                    Some(i) => law_moves_keep_wf(a, i - a.ui.cursor, 0),
                    None => {},
                }
                match search::prev_match(
                    m,
                    geometry::lesser(a.ui.cursor as int, m.len() as int),
                ) {
                    Some(i) => law_moves_keep_wf(a, i - a.ui.cursor, 0),
                    None => {},
                }
            },
            None => {},
        },
        None => {},
    }
}

proof fn lemma_screen_row(a: AppV, at: int)
    ensures
        a.screen_row(at) >= 0,
{
    lemma_vh(a);
}

#[verifier::rlimit(40)]
proof fn lemma_navigated_wf(a: AppV, action: Action, now: u64, share: u16)
    requires
        a.wf(),
        events::navigates(action),
    ensures
        a.shown(action, now, share).wf(),
{
    let d: int = match action {
        Action::Down | Action::ScrollDown => 1,
        Action::Up | Action::ScrollUp => -1,
        Action::Left => -events::PAN,
        Action::Right => events::PAN as int,
        Action::HalfDown => a.vh() / 2,
        Action::HalfUp => -(a.vh() / 2),
        Action::PageDown => a.vh(),
        Action::PageUp => -a.vh(),
        Action::Bottom => geometry::minus(a.rows().len() as int, 1),
        Action::ScreenTop => a.screen_row(0),
        Action::ScreenMiddle => a.screen_row(1),
        Action::ScreenBottom => a.screen_row(2),
        _ => 0,
    };
    lemma_screen_row(a, 0);
    lemma_screen_row(a, 1);
    lemma_screen_row(a, 2);
    law_moves_keep_wf(a, d, share);
    reveal(AppV::navigated_ui);
    reveal(AppV::shown);
}

#[verifier::rlimit(40)]
proof fn lemma_rest_wf(a: AppV, action: Action, now: u64, share: u16)
    requires
        a.wf(),
        !events::navigates(action),
        !events::toggles(action),
    ensures
        a.shown(action, now, share).wf(),
{
    law_files_keep_wf(a, 1);
    law_files_keep_wf(a, -1);
    law_files_keep_wf(a, 0);
    law_files_keep_wf(a, geometry::minus(a.files.len() as int, 1));
    lemma_match_wf(a, a.ui.cursor + 1, now);
    let b = a.on_page(Page::Diff);
    assert(b.rows() == a.rows());
    law_files_keep_wf(b, 0);
    law_moves_keep_wf(b.ensured(), 0, share);
    reveal(AppV::shown);
}

#[verifier::rlimit(40)]
proof fn lemma_toggled_wf(a: AppV, action: Action, now: u64, share: u16)
    requires
        a.wf(),
        events::toggles(action),
    ensures
        a.shown(action, now, share).wf(),
{
    reveal(AppV::toggled_ui);
    reveal(AppV::shown);
}

proof fn lemma_shown_wf(a: AppV, action: Action, now: u64, share: u16)
    requires
        a.wf(),
    ensures
        a.shown(action, now, share).wf(),
{
    if events::navigates(action) {
        lemma_navigated_wf(a, action, now, share);
    } else if events::toggles(action) {
        lemma_toggled_wf(a, action, now, share);
    } else {
        lemma_rest_wf(a, action, now, share);
    }
}

/// Actions keep the viewer valid.
#[verifier::rlimit(40)]
pub proof fn law_actions_keep_wf(a: AppV, action: Action, now: u64, share: u16)
    requires
        a.wf(),
    ensures
        a.performed(action, now, share).0.wf(),
{
    reveal(AppV::performed);
    let b = a.unselected();
    assert(b.rows() == a.rows());
    lemma_shown_wf(a, action, now, share);
    lemma_shown_wf(b, action, now, share);
}

proof fn lemma_typed_wf(a: AppV, t: Seq<char>, k: KeyV, now: u64)
    requires
        a.wf(),
    ensures
        a.typed(t, k, now).wf(),
{
    reveal(AppV::typed);
    let b = AppV { typing: None, query: Some(t), ..a };
    assert(b.rows() == a.rows());
    lemma_match_wf(b, a.ui.cursor as int, now);
}

#[verifier::rlimit(40)]
proof fn lemma_pressed_wf(a: AppV, k: KeyV, now: u64, share: u16)
    requires
        a.wf(),
    ensures
        a.pressed(k, now, share).0.wf(),
{
    reveal(AppV::pressed);
    let b = match a.ui.page {
        Page::Diff => keys::diff_bindings(),
        Page::Stat => keys::stat_bindings(),
    };
    match a.typing {
        Some(t) => lemma_typed_wf(a, t, k, now),
        None => match keys::bound(b, k) {
            Some(action) => law_actions_keep_wf(a, action, now, share),
            None => {},
        },
    }
}

proof fn lemma_clicked_list_wf(a: AppV, m: Mouse)
    requires
        a.wf(),
    ensures
        a.clicked_list(m).wf(),
{
    reveal(AppV::clicked_list);
    match a.ui.modal_hit {
        Some(h) => law_files_keep_wf(a, h.start + (m.y - h.list_y)),
        None => {},
    }
}

#[verifier::rlimit(40)]
proof fn lemma_clicked_body_wf(a: AppV, m: Mouse, now: u64, share: u16)
    requires
        a.wf(),
    ensures
        a.clicked_body(m, now, share).0.wf(),
{
    reveal(AppV::clicked_body);
    law_moves_keep_wf(a, a.ui.scroll + m.y, share);
    let b = a.set_on(a.ui.scroll + m.y);
    assert(AppV { ui: Ui { sel: None, last_click: None, ..b.ui }, ..b }.rows() == b.rows());
}

#[verifier::rlimit(40)]
proof fn lemma_clicked_wf(a: AppV, m: Mouse, now: u64, share: u16)
    requires
        a.wf(),
    ensures
        a.clicked(m, now, share).0.wf(),
{
    lemma_clicked_list_wf(a, m);
    lemma_clicked_body_wf(a, m, now, share);
    law_files_keep_wf(a, a.window(a.vh()) + m.y);
    reveal(AppV::clicked);
}

#[verifier::rlimit(40)]
proof fn lemma_pointed_wf(a: AppV, m: Mouse, share: u16)
    requires
        a.wf(),
    ensures
        a.pointed(m, share).0.wf(),
{
    reveal(AppV::pointed);
    reveal(AppV::drag_selected);
    law_moves_keep_wf(a, -1, share);
    law_moves_keep_wf(a, 1, share);
    let b = a.edge_scrolled(m.y);
    assert(b.wf());
}

proof fn lemma_wheeled_wf(a: AppV, b: Button, share: u16)
    requires
        a.wf(),
    ensures
        a.wheeled(b, share).wf(),
{
    reveal(AppV::wheeled);
    let c = a.unselected();
    assert(c.rows() == a.rows());
    law_moves_keep_wf(c, -events::WHEEL, share);
    law_moves_keep_wf(c, events::WHEEL as int, share);
    law_moves_keep_wf(c, -events::PAN, share);
    law_moves_keep_wf(c, events::PAN as int, share);
}

/// Whatever event comes, the viewer stays valid: the selected file, the
/// cursor row and the viewport exist.
#[verifier::rlimit(40)]
pub proof fn law_events_keep_wf(a: AppV, ev: InputV, now: u64, share: u16)
    requires
        a.wf(),
    ensures
        a.handled(ev, now, share).0.wf(),
{
    match ev {
        InputV::Press(k) => lemma_pressed_wf(a, k, now, share),
        InputV::Wheel(m) => lemma_wheeled_wf(a, m.button, share),
        InputV::Click(m) => lemma_clicked_wf(a, m, now, share),
        InputV::Motion(m) => lemma_pointed_wf(a, m, share),
        InputV::Resize(w, h) => {
            let b = a.unselected().laid_out(tui::Layout { width: w, height: h, ..a.ui.layout });
            assert(b.rows() == a.rows());
            law_moves_keep_wf(b, 0, share);
        },
        _ => {},
    }
}

/// Loading a diff, pinning a hunk and taking in rows keep the viewer valid.
pub proof fn law_loading_keeps_wf(a: AppV, s: Seq<char>, ord: nat, off: int)
    requires
        a.wf(),
    ensures
        a.opened(s).wf(),
        a.rebuilt(s).wf(),
        a.pinned(ord, off).wf(),
{
    lemma_vh(a);
    session::law_hunk_numbers(a.rows(), ord);
    let b = a.loaded(s);
    let sel = geometry::lesser(a.ui.selected as int, geometry::minus(b.files.len() as int, 1));
    let c = AppV { ui: Ui { selected: sel as usize, scroll: 0, ..b.ui }, ..b }.ensured();
    lemma_vh(c);
}

/// The rows that another thread has built keep the viewer valid.
pub proof fn law_rows_keep_wf(a: AppV, idx: int, v: Seq<RowV>)
    requires
        a.wf(),
    ensures
        a.stored(idx, v).wf(),
{
}

/// Whether the cursor is in the viewport.
pub open spec fn in_view(a: AppV) -> bool {
    a.ui.scroll <= a.ui.cursor < a.ui.scroll + a.vh()
}

/// After every move of the cursor the cursor is in view, as far as there are
/// rows and a viewport.
pub proof fn law_cursor_in_view(a: AppV, n: int)
    requires
        a.wf(),
        a.rows().len() > 0,
        a.rows().len() <= usize::MAX,
        a.vh() > 0,
    ensures
        in_view(a.moved(n)),
        in_view(a.paged(n)),
        n >= 0 ==> in_view(a.sent_to(n)) && in_view(a.set_on(n)),
{
    lemma_vh(a);
}

/// Scrolling leaves the cursor on its row as long as that row stays in view.
pub proof fn law_scrolling_keeps_cursor(a: AppV, delta: int)
    requires
        a.wf(),
        a.rows().len() <= usize::MAX,
        a.paged(delta).ui.scroll <= a.ui.cursor < a.paged(delta).ui.scroll + a.vh(),
    ensures
        a.paged(delta).ui.cursor == a.ui.cursor,
{
    lemma_vh(a);
}

/// A move down and up again, or up and down again, comes back to the row
/// where it started, unless the first or last row stopped it.
pub proof fn law_moves_undo(a: AppV, n: int)
    requires
        a.wf(),
        a.rows().len() <= usize::MAX,
        0 <= a.ui.cursor + n < a.rows().len(),
    ensures
        a.moved(n).moved(-n).ui.cursor == a.ui.cursor,
{
    assert(a.moved(n).rows() == a.rows());
}

/// A jump to a hunk ends on a hunk header, and on the nearest one.
pub proof fn law_hunk_jumps(a: AppV)
    requires
        a.wf(),
        a.rows().len() <= usize::MAX,
    ensures
        a.at_next_hunk() != a ==> a.at_next_hunk().on_hunk() && a.at_next_hunk().ui.cursor
            > a.ui.cursor && no_hunk(a.rows(), a.ui.cursor + 1, a.at_next_hunk().ui.cursor as int),
        a.at_prev_hunk() != a ==> a.at_prev_hunk().on_hunk() && a.at_prev_hunk().ui.cursor
            < a.ui.cursor && no_hunk(a.rows(), a.at_prev_hunk().ui.cursor + 1, a.ui.cursor as int),
{
    lemma_hunk_from(a.rows(), a.ui.cursor + 1);
    lemma_hunk_before(a.rows(), a.ui.cursor as int);
    assert(a.at_next_hunk().rows() == a.rows());
    assert(a.at_prev_hunk().rows() == a.rows());
}

/// Whether there is no hunk header among the rows `[from, to)`.
pub open spec fn no_hunk(v: Seq<RowV>, from: int, to: int) -> bool {
    forall|i: int| from <= i < to ==> (#[trigger] v[i]).kind != RowKind::Hunk
}

proof fn lemma_hunk_from(v: Seq<RowV>, from: int)
    requires
        0 <= from,
    ensures
        tui::hunk_from(v, from) is Some ==> {
            let i = tui::hunk_from(v, from)->0;
            from <= i < v.len() && v[i].kind == RowKind::Hunk && no_hunk(v, from, i)
        },
    decreases v.len() - from,
{
    if from < v.len() && v[from].kind != RowKind::Hunk {
        lemma_hunk_from(v, from + 1);
    }
}

proof fn lemma_hunk_before(v: Seq<RowV>, to: int)
    ensures
        tui::hunk_before(v, to) is Some ==> {
            let i = tui::hunk_before(v, to)->0;
            0 <= i < to && v[i].kind == RowKind::Hunk && no_hunk(v, i + 1, to)
        },
    decreases to,
{
    if 0 < to <= v.len() && v[to - 1].kind != RowKind::Hunk {
        lemma_hunk_before(v, to - 1);
    }
}

/// A hunk that is pinned stays on its row of the screen, as far as the
/// content allows it.
pub proof fn law_pin_keeps_screen_row(a: AppV, ord: nat, off: int)
    requires
        a.wf(),
        a.rows().len() <= usize::MAX,
        ord < tui::hunk_count(a.rows()),
        0 <= off < a.vh(),
        off <= session::nth_hunk(a.rows(), 0, ord)->0,
        session::nth_hunk(a.rows(), 0, ord)->0 - off <= a.max_scroll(),
    ensures
        a.pinned(ord, off).on_hunk(),
        session::hunk_number(a.rows(), a.pinned(ord, off).ui.cursor as int) == ord,
        a.pinned(ord, off).ui.cursor - a.pinned(ord, off).ui.scroll == off,
{
    session::law_hunk_numbers(a.rows(), ord);
    assert(a.pinned(ord, off).rows() == a.rows());
}

/// Nothing but the quit action quits, and escape never does.
#[verifier::rlimit(40)]
pub proof fn law_only_quit_quits(a: AppV, action: Action, now: u64, share: u16)
    ensures
        a.performed(action, now, share).1 == EffectV::Quit <==> action == Action::Quit,
{
    reveal(AppV::performed);
}

/// Toggling the split view, the help footer or watch mode twice leaves things
/// as they were; toggling the sidebar twice shows or hides it as before.
pub proof fn law_toggles_undo(a: AppV, now: u64, share: u16)
    ensures
        a.shown(Action::Split, now, share).shown(Action::Split, now, share) == a,
        a.shown(Action::Help, now, share).shown(Action::Help, now, share) == a,
        a.shown(Action::Watch, now, share).shown(Action::Watch, now, share) == a,
        a.shown(Action::Sidebar, now, share).shown(Action::Sidebar, now, share).sidebar_on()
            == a.sidebar_on(),
{
    lemma_toggle(a, now, share);
    lemma_toggle(a.shown(Action::Split, now, share), now, share);
    lemma_toggle(a.shown(Action::Help, now, share), now, share);
    lemma_toggle(a.shown(Action::Watch, now, share), now, share);
    lemma_toggle(a.shown(Action::Sidebar, now, share), now, share);
}

#[verifier::rlimit(40)]
proof fn lemma_toggle(a: AppV, now: u64, share: u16)
    ensures
        a.shown(Action::Split, now, share) == (AppV {
            ui: Ui { split: !a.ui.split, ..a.ui },
            ..a
        }),
        a.shown(Action::Help, now, share) == a.help_toggled(),
        a.shown(Action::Watch, now, share) == (AppV {
            ui: Ui { watch: !a.ui.watch, ..a.ui },
            ..a
        }),
        a.shown(Action::Sidebar, now, share) == a.sidebar_toggled(),
{
    reveal(AppV::toggled_ui);
    reveal(AppV::shown);
}

/// A click with no drag selects nothing and copies nothing.
pub proof fn law_click_selects_nothing(a: AppV, m: Mouse, now: u64, later: u64, share: u16)
    ensures
        ({
            let (b, e) = a.clicked_body(m, now, share).0.released(Button::Left, later);
            b.ui.sel is None && e == EffectV::Nothing
        }),
{
    reveal(AppV::clicked_body);
}

/// Text that was selected by a drag is on the clipboard when the button is let
/// go, and it is still selected, so that copying it once more copies the same.
/// Where there is no text, the clipboard is left alone.
pub proof fn law_drag_copies(a: AppV, m: Mouse, now: u64, later: u64, share: u16)
    requires
        a.ui.modal_drag is None,
        !a.ui.resizing,
        !a.ui.resizing_split,
        a.ui.sel is Some,
        a.ui.sel->0.dragging,
    ensures
        ({
            let b = a.pointed(m, share).0;
            let (c, e) = b.released(Button::Left, now);
            b.ui.sel is Some && if (b.ui.sel->0.a_row, b.ui.sel->0.a_col) == (
                b.ui.sel->0.c_row,
                b.ui.sel->0.c_col,
            ) {
                c.ui.sel is None && e == EffectV::Nothing
            } else {
                &&& e == if b.copy_text().len() > 0 {
                    EffectV::Copy(b.copy_text())
                } else {
                    EffectV::Nothing
                }
                &&& c.copy_text() == b.copy_text()
                &&& c.copying(later).1 == e
            }
        }),
{
    reveal(AppV::pointed);
    reveal(AppV::drag_selected);
    let b = a.pointed(m, share).0;
    let c = b.released(Button::Left, now).0;
    assert(c.rows() == b.rows());
    if c.ui.sel is Some && b.rows().len() > 0 {
        let s = b.ui.sel->0;
        select::lemma_parts_direction(
            b.rows(),
            s,
            c.ui.sel->0,
            select::last_row(s, b.rows().len()) + 1,
        );
    }
}

/// Nothing that is done to the viewer puts an empty text on the clipboard.
#[verifier::rlimit(60)]
pub proof fn law_no_empty_copy(a: AppV, ev: InputV, now: u64, share: u16)
    ensures
        a.handled(ev, now, share).1 != EffectV::Copy(Seq::empty()),
{
    reveal(AppV::pressed);
    reveal(AppV::performed);
    reveal(AppV::clicked);
    reveal(AppV::clicked_body);
    reveal(AppV::pointed);
}

/// A drag keeps its start and its pane, so a selection stays within the pane
/// where it began.
pub proof fn law_drag_keeps_anchor(a: AppV, s: Sel, m: Mouse, share: u16)
    ensures
        ({
            let t = a.drag_selected(s, m, share).ui.sel;
            t is Some && t->0.a_row == s.a_row && t->0.a_col == s.a_col && t->0.pane == s.pane
        }),
{
    reveal(AppV::drag_selected);
}

/// Copying takes no other text than the selection or the cursor line, and
/// leaves cursor, viewport and file as they were.
pub proof fn law_copy_moves_nothing(a: AppV, now: u64)
    ensures
        ({
            let (b, e) = a.copying(now);
            &&& b.rows() == a.rows()
            &&& b.ui == (Ui { sel: None, ..a.ui })
            &&& e == EffectV::Nothing || e == EffectV::Copy(a.copy_text())
        }),
{
}

/// Running an unchanged diff again changes neither the file nor the row.
pub proof fn law_refresh_keeps_place(a: AppV)
    requires
        a.wf(),
        a.rows().len() <= usize::MAX,
        a.files == diff::parsed(a.last_diff),
        a.ui.selected < a.cache.len() ==> a.cache[a.ui.selected as int] == Some(
            a.built(a.ui.selected as int),
        ),
    ensures
        a.rebuilt(a.last_diff).ui.selected == a.ui.selected,
        a.rebuilt(a.last_diff).ui.cursor == a.ui.cursor,
        a.rebuilt(a.last_diff).rows() == a.rows(),
{
    let b = a.loaded(a.last_diff);
    let c = AppV { ui: Ui { selected: a.ui.selected, scroll: 0, ..b.ui }, ..b };
    assert(c.built(a.ui.selected as int) == a.built(a.ui.selected as int));
    assert(c.ensured().rows() =~= a.rows());
    lemma_vh(c.ensured());
}

/// Expanding folded context asks for ten more lines around each change, as far
/// as a number can hold them.
pub proof fn law_expanding_grows_context(a: AppV)
    requires
        a.ui.expand + 10 <= usize::MAX,
        a.setup.opts.context is Some ==> a.setup.opts.context->0 + a.ui.expand + 10 <= usize::MAX,
        a.setup.opts.context is None ==> 3 + a.ui.expand + 10 <= usize::MAX,
    ensures
        a.expanding().0.knobs().context == Some(
            (match a.setup.opts.context {
                Some(n) => n,
                None => 3,
            } + a.ui.expand + 10) as usize,
        ),
        a.expanding().0.rows() == a.rows(),
{
}

/// A click in the box of the file list keeps the list open; a click outside
/// closes it. The enter key closes it too, and shows the selected file.
pub proof fn law_list_stays_until_click_outside(a: AppV, m: Mouse, now: u64, share: u16)
    requires
        a.ui.page == Page::Stat,
    ensures
        a.clicked_list(m).ui.page == Page::Stat <==> a.ui.modal_hit is Some && events::in_box(
            a.ui.modal_hit->0,
            m,
        ),
        a.shown(Action::OpenFile, now, share).ui.page == Page::Diff,
        a.shown(Action::OpenFile, now, share).ui.selected == a.ui.selected,
{
    reveal(AppV::clicked_list);
    assert(a.shown(Action::OpenFile, now, share) == a.on_page(Page::Diff).ensured().sent_to(0)) by {
        reveal(AppV::shown);
    }
}

/// A click on a file of the list selects it.
pub proof fn law_list_click_selects(a: AppV, m: Mouse)
    requires
        a.wf(),
        a.ui.modal_hit is Some,
        events::in_box(a.ui.modal_hit->0, m),
        events::on_list(a.ui.modal_hit->0, m),
        a.ui.modal_hit->0.start + (m.y - a.ui.modal_hit->0.list_y) < a.files.len(),
        a.files.len() <= usize::MAX,
    ensures
        a.clicked_list(m).ui.selected == a.ui.modal_hit->0.start + (m.y - a.ui.modal_hit->0.list_y),
{
    reveal(AppV::clicked_list);
}

/// Rows that another thread has built are the rows that would be built when
/// they are first needed.
pub proof fn law_prefetch_changes_nothing(a: AppV)
    requires
        a.wf(),
    ensures
        a.stored(a.ui.selected as int, a.built(a.ui.selected as int)) == a.ensured(),
{
}

/// A pointer at the place where a cell of a row is drawn means that cell, in
/// every pane and however far the content is scrolled.
pub proof fn law_pointer_means_the_cell(
    a: AppV,
    x: u16,
    y: u16,
    col: int,
    pane: Option<geometry::Pane>,
    share: u16,
)
    requires
        a.ui.scroll + y < a.rows().len(),
        a.hidden(a.rows()[a.ui.scroll + y].kind) <= col <= a.rows()[a.ui.scroll + y].content.len(),
        x == a.frame(share).text_at(a.rows()[a.ui.scroll + y].kind, pane) + col - a.hidden(
            a.rows()[a.ui.scroll + y].kind,
        ),
    ensures
        a.point(x, y, pane, share) == (a.ui.scroll + y, col),
{
}

/// Scrolled to the line end, the end of the cursor line is in view; scrolled
/// to the line start, its start is. No scrolling goes beyond the widest line.
pub proof fn law_line_ends_come_into_view(a: AppV, delta: int, share: u16)
    requires
        a.ui.cursor < a.rows().len(),
        a.rows()[a.ui.cursor as int].content.len() <= usize::MAX,
        tui::widest(a.rows()) <= usize::MAX,
    ensures
        ({
            let len = a.rows()[a.ui.cursor as int].content.len();
            let w = a.frame(share).text_w(a.ui.split);
            let pan = a.panned_to_end(share).ui.pan;
            pan <= len && len - pan <= w || pan == 0
        }),
        a.panned(delta, share).ui.pan <= a.max_pan(share),
        tui::widest(a.rows()) <= a.frame(share).text_w(a.ui.split) ==> a.panned(
            delta,
            share,
        ).ui.pan == 0,
{
}

/// A search that ends on a row ends on a match, and it ends on one whenever
/// there is one.
pub proof fn law_search_ends_on_match(a: AppV, q: Seq<char>, from: int, now: u64, i: int)
    requires
        a.wf(),
        a.query == Some(q),
        search::found(a.rows(), q) is Some,
        a.rows().len() <= usize::MAX,
        0 <= from,
        0 <= i < a.rows().len(),
        search::found(a.rows(), q)->0[i],
    ensures
        search::found(a.rows(), q)->0[a.at_match_from(from, now).ui.cursor as int],
        a.at_match_from(from, now).flash == a.flash,
{
    let m = search::found(a.rows(), q)->0;
    search::law_next_match_is_nearest(m, from, i);
}

/// While a search pattern is typed, no key quits, moves or copies: only the
/// pattern changes, until it is searched for.
pub proof fn law_typing_is_modal(a: AppV, k: KeyV, now: u64, share: u16)
    requires
        a.typing is Some,
    ensures
        a.pressed(k, now, share).1 == EffectV::Nothing,
        keys::typing_of(k) != keys::Typing::Commit ==> a.pressed(k, now, share).0.ui == a.ui,
{
    reveal(AppV::pressed);
    reveal(AppV::typed);
}

/// A key that means nothing only drops the selection.
pub proof fn law_unbound_keys_do_nothing(a: AppV, k: KeyV, now: u64, share: u16)
    requires
        a.typing is None,
        a.ui.page == Page::Diff,
        keys::bound(keys::diff_bindings(), k) is None,
    ensures
        a.pressed(k, now, share) == (a.unselected(), EffectV::Nothing),
{
    reveal(AppV::pressed);
}

/// Whether two viewers show the same diff under the same setup.
pub open spec fn same_diff(a: AppV, b: AppV) -> bool {
    &&& a.setup == b.setup
    &&& a.files == b.files
    &&& a.raw_files == b.raw_files
    &&& a.last_diff == b.last_diff
    &&& a.title == b.title
    &&& a.cache.len() == b.cache.len()
}

proof fn lemma_files_same_diff(a: AppV, n: int)
    ensures
        same_diff(a, a.ensured()),
        same_diff(a, a.picked(n)),
        same_diff(a, a.stepped(n)),
{
}

proof fn lemma_match_same_diff(a: AppV, from: int, now: u64)
    ensures
        same_diff(a, a.at_match_from(from, now)),
        same_diff(a, a.at_match_before(now)),
{
}

proof fn lemma_ui_same_diff(a: AppV, action: Action, now: u64, share: u16)
    requires
        events::navigates(action) || events::toggles(action),
    ensures
        same_diff(a, a.shown(action, now, share)),
{
    reveal(AppV::shown);
}

proof fn lemma_shown_same_diff(a: AppV, action: Action, now: u64, share: u16)
    ensures
        same_diff(a, a.shown(action, now, share)),
{
    if events::navigates(action) || events::toggles(action) {
        lemma_ui_same_diff(a, action, now, share);
    } else {
        let last = geometry::minus(a.files.len() as int, 1);
        let b = a.on_page(Page::Diff).ensured();
        lemma_files_same_diff(a, 1);
        lemma_files_same_diff(a, -1);
        lemma_files_same_diff(a, 0);
        lemma_files_same_diff(a, last);
        lemma_files_same_diff(a.on_page(Page::Diff), 0);
        lemma_match_same_diff(a, a.ui.cursor + 1, now);
        assert(same_diff(b, b.sent_to(0)));
        assert(a.shown(action, now, share) == match action {
            Action::NextFile => a.stepped(1),
            Action::PrevFile => a.stepped(-1),
            Action::FirstFile => a.picked(0),
            Action::LastFile => a.picked(last),
            Action::Search => AppV { typing: Some(Seq::empty()), ..a },
            Action::NextMatch => a.at_match_from(a.ui.cursor + 1, now),
            Action::PrevMatch => a.at_match_before(now),
            Action::OpenFile => b.sent_to(0),
            _ => a,
        }) by {
            reveal(AppV::shown);
        }
    }
}

#[verifier::rlimit(60)]
proof fn lemma_performed_same_diff(a: AppV, action: Action, now: u64, share: u16)
    ensures
        same_diff(a, a.performed(action, now, share).0),
{
    reveal(AppV::performed);
    lemma_shown_same_diff(a, action, now, share);
    lemma_shown_same_diff(a.unselected(), action, now, share);
}

#[verifier::rlimit(60)]
proof fn lemma_pressed_same_diff(a: AppV, k: KeyV, now: u64, share: u16)
    ensures
        same_diff(a, a.pressed(k, now, share).0),
{
    reveal(AppV::pressed);
    reveal(AppV::typed);
    let b = match a.ui.page {
        Page::Diff => keys::diff_bindings(),
        Page::Stat => keys::stat_bindings(),
    };
    match keys::bound(b, k) {
        Some(action) => lemma_performed_same_diff(a, action, now, share),
        None => {},
    }
}

/// No event changes the diff that is shown, its raw texts or the setup: only
/// loading a diff does.
#[verifier::rlimit(60)]
pub proof fn law_events_keep_the_diff(a: AppV, ev: InputV, now: u64, share: u16)
    ensures
        same_diff(a, a.handled(ev, now, share).0),
{
    match ev {
        InputV::Press(k) => lemma_pressed_same_diff(a, k, now, share),
        InputV::Wheel(m) => {
            reveal(AppV::wheeled);
        },
        InputV::Click(m) => {
            reveal(AppV::clicked_list);
            reveal(AppV::clicked_body);
            reveal(AppV::clicked);
        },
        InputV::Motion(m) => {
            reveal(AppV::drag_selected);
            reveal(AppV::pointed);
        },
        _ => {},
    }
}

/// An event with its time and the columns that the left pane should have.
pub type Moment = (InputV, u64, u16);

/// After some events.
pub open spec fn after_events(a: AppV, v: Seq<Moment>) -> AppV
    decreases v.len(),
{
    if v.len() == 0 {
        a
    } else {
        let m = v.last();
        after_events(a, v.drop_last()).handled(m.0, m.1, m.2).0
    }
}

/// However many events come, the viewer stays valid and shows the same diff.
pub proof fn law_any_events(a: AppV, v: Seq<Moment>)
    requires
        a.wf(),
    ensures
        after_events(a, v).wf(),
        same_diff(a, after_events(a, v)),
    decreases v.len(),
{
    if v.len() > 0 {
        law_any_events(a, v.drop_last());
        let b = after_events(a, v.drop_last());
        let m = v.last();
        law_events_keep_wf(b, m.0, m.1, m.2);
        law_events_keep_the_diff(b, m.0, m.1, m.2);
    }
}

} // verus!
