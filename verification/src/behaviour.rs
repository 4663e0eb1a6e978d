//! What each key, each click and each reload does, stated on what is seen.
use crate::cells;
use crate::diff;
use crate::events;
use crate::events::{Button, EffectV, Mouse};
use crate::geometry;
use crate::geometry::Pane;
use crate::keys;
use crate::keys::{Action, KeyV, Typing};
use crate::paths;
use crate::rows::{RowKind, RowV};
use crate::search;
use crate::select;
use crate::session;
use crate::text;
use crate::tui;
use crate::tui::{AppV, Page, Sel, Ui};
use vstd::prelude::*;

verus! {

// Moving.

/// A move of the cursor goes so many rows, but not beyond the first and the
/// last. The viewport stays if the cursor is in it, else it moves just so far
/// that the cursor is at its edge, and it never shows more than the end of
/// the file. Nothing else changes.
pub proof fn law_move_goes_its_rows(a: AppV, d: int)
    requires
        a.wf(),
        0 < a.rows().len() <= usize::MAX,
    ensures
        ({
            let b = a.moved(d);
            let n = a.rows().len() as int;
            let to = a.ui.cursor + d;
            let vh = a.vh();
            let end = if n > vh {
                n - vh
            } else {
                0
            };
            &&& 0 <= to < n ==> b.ui.cursor == to
            &&& to < 0 ==> b.ui.cursor == 0
            &&& n <= to ==> b.ui.cursor == n - 1
            &&& b.ui.scroll <= end
            &&& a.ui.scroll <= end && a.ui.scroll <= b.ui.cursor < a.ui.scroll + vh
                ==> b.ui.scroll == a.ui.scroll
            &&& b.ui.cursor < a.ui.scroll && b.ui.cursor <= end ==> b.ui.scroll == b.ui.cursor
            &&& 0 < vh && a.ui.scroll + vh <= b.ui.cursor ==> b.ui.scroll == b.ui.cursor + 1 - vh
            &&& b == AppV {
                ui: Ui { cursor: b.ui.cursor, scroll: b.ui.scroll, ..a.ui },
                ..a
            }
        }),
{
    tui::lemma_frame(a, 0);
}

/// A scroll moves the viewport so many rows, but not beyond the ends of the
/// file. The cursor stays on its row as long as that is in view, else it is
/// at the edge that it left by.
pub proof fn law_scroll_goes_its_rows(a: AppV, d: int)
    requires
        a.wf(),
        0 < a.rows().len() <= usize::MAX,
        a.vh() > 0,
    ensures
        ({
            let b = a.paged(d);
            let n = a.rows().len() as int;
            let vh = a.vh();
            let end = if n > vh {
                n - vh
            } else {
                0
            };
            let to = a.ui.scroll + d;
            &&& 0 <= to <= end ==> b.ui.scroll == to
            &&& to < 0 ==> b.ui.scroll == 0
            &&& end < to ==> b.ui.scroll == end
            &&& b.ui.scroll <= a.ui.cursor < b.ui.scroll + vh ==> b.ui.cursor == a.ui.cursor
            &&& a.ui.cursor < b.ui.scroll ==> b.ui.cursor == b.ui.scroll
            &&& b.ui.scroll + vh <= a.ui.cursor && b.ui.scroll + vh <= n ==> b.ui.cursor
                == b.ui.scroll + vh - 1
            &&& b == AppV {
                ui: Ui { cursor: b.ui.cursor, scroll: b.ui.scroll, ..a.ui },
                ..a
            }
        }),
{
    tui::lemma_frame(a, 0);
}

/// The keys that move the cursor: by a line, half a page or a page of the
/// viewport, to the ends of the file, or by scrolling.
#[verifier::rlimit(60)]
pub proof fn law_move_keys(a: AppV, now: u64, share: u16)
    requires
        a.wf(),
    ensures
        a.shown(Action::Down, now, share) == a.moved(1),
        a.shown(Action::Up, now, share) == a.moved(-1),
        a.shown(Action::HalfDown, now, share) == a.moved(a.vh() / 2),
        a.shown(Action::HalfUp, now, share) == a.moved(-(a.vh() / 2)),
        a.shown(Action::PageDown, now, share) == a.moved(a.vh()),
        a.shown(Action::PageUp, now, share) == a.moved(-a.vh()),
        a.shown(Action::ScrollDown, now, share) == a.paged(1),
        a.shown(Action::ScrollUp, now, share) == a.paged(-1),
{
    reveal(AppV::shown);
    reveal(AppV::navigated_ui);
}

/// The top and bottom keys go to the first and the last row.
#[verifier::rlimit(40)]
pub proof fn law_end_keys(a: AppV, now: u64, share: u16)
    requires
        a.wf(),
        0 < a.rows().len() <= usize::MAX,
    ensures
        a.shown(Action::Top, now, share).ui.cursor == 0,
        a.vh() > 0 ==> a.shown(Action::Top, now, share).ui.scroll == 0,
        a.shown(Action::Bottom, now, share).ui.cursor == a.rows().len() - 1,
{
    reveal(AppV::shown);
    reveal(AppV::navigated_ui);
    tui::lemma_frame(a, 0);
}

/// The keys for the screen go to the first, the middle and the last row that
/// is seen, and the viewport stays.
#[verifier::rlimit(40)]
pub proof fn law_screen_keys(a: AppV, now: u64, share: u16)
    requires
        a.wf(),
        0 < a.rows().len() <= usize::MAX,
        0 < a.vh(),
        a.ui.scroll <= a.max_scroll(),
    ensures
        ({
            let left = a.rows().len() - a.ui.scroll;
            let seen = if a.vh() < left {
                a.vh()
            } else {
                left
            };
            &&& a.shown(Action::ScreenTop, now, share).ui.cursor == a.ui.scroll
            &&& a.shown(Action::ScreenMiddle, now, share).ui.cursor == a.ui.scroll + (seen - 1) / 2
            &&& a.shown(Action::ScreenBottom, now, share).ui.cursor == a.ui.scroll + seen - 1
            &&& a.shown(Action::ScreenTop, now, share).ui.scroll == a.ui.scroll
            &&& a.shown(Action::ScreenMiddle, now, share).ui.scroll == a.ui.scroll
            &&& a.shown(Action::ScreenBottom, now, share).ui.scroll == a.ui.scroll
        }),
{
    reveal(AppV::shown);
    reveal(AppV::navigated_ui);
    tui::lemma_frame(a, 0);
}

/// The keys that scroll sideways move the content by four columns, not beyond
/// the line start nor the widest line; the others go to the start and to the
/// end of the cursor line. No row changes.
#[verifier::rlimit(40)]
pub proof fn law_sideways_keys(a: AppV, now: u64, share: u16)
    requires
        tui::widest(a.rows()) <= usize::MAX,
        a.ui.pan <= a.max_pan(share),
    ensures
        a.shown(Action::Left, now, share).ui == (Ui {
            pan: if a.ui.pan >= 4 {
                (a.ui.pan - 4) as usize
            } else {
                0
            },
            ..a.ui
        }),
        a.ui.pan + 4 <= a.max_pan(share) ==> a.shown(Action::Right, now, share).ui == (Ui {
            pan: (a.ui.pan + 4) as usize,
            ..a.ui
        }),
        a.ui.pan + 4 > a.max_pan(share) ==> a.shown(Action::Right, now, share).ui == (Ui {
            pan: a.max_pan(share) as usize,
            ..a.ui
        }),
        a.shown(Action::LineStart, now, share).ui == (Ui { pan: 0, ..a.ui }),
        a.shown(Action::LineEnd, now, share).ui == a.panned_to_end(share).ui,
{
    reveal(AppV::shown);
    reveal(AppV::navigated_ui);
}

proof fn lemma_widest(v: Seq<RowV>, i: int)
    requires
        0 <= i < v.len(),
    ensures
        geometry::is_code(v[i].kind) ==> v[i].content.len() <= tui::widest(v),
    decreases v.len(),
{
    if i < v.len() - 1 {
        lemma_widest(v.drop_last(), i);
    }
}

/// Scrolled to the right as far as it goes, no line of code has more columns
/// left than are seen.
pub proof fn law_scrolling_right_shows_all(a: AppV, share: u16, i: int)
    requires
        0 <= i < a.rows().len(),
        a.rows()[i].kind == RowKind::Add || a.rows()[i].kind == RowKind::Remove
            || a.rows()[i].kind == RowKind::Context,
    ensures
        a.rows()[i].content.len() <= a.max_pan(share) + a.frame(share).text_w(a.ui.split),
{
    lemma_widest(a.rows(), i);
}

// Files and hunks.

/// The file keys show the next, the previous, the first and the last file
/// from its top, and change nothing where there is no other file that way.
#[verifier::rlimit(60)]
pub proof fn law_file_keys(a: AppV, now: u64, share: u16)
    requires
        a.wf(),
        0 < a.files.len() <= usize::MAX,
    ensures
        ({
            let n = a.files.len() as int;
            let s = a.ui.selected as int;
            let next = a.shown(Action::NextFile, now, share).ui;
            let prev = a.shown(Action::PrevFile, now, share).ui;
            let first = a.shown(Action::FirstFile, now, share).ui;
            let last = a.shown(Action::LastFile, now, share).ui;
            &&& s + 1 < n ==> next.selected == s + 1 && next.cursor == 0 && next.scroll == 0
                && next.pan == 0
            &&& s + 1 == n ==> next == a.ui
            &&& s > 0 ==> prev.selected == s - 1 && prev.cursor == 0 && prev.scroll == 0
                && prev.pan == 0
            &&& s == 0 ==> prev == a.ui
            &&& first.selected == 0
            &&& last.selected == n - 1
        }),
{
    reveal(AppV::shown);
}

/// A file that is shown has its rows: they are those of the file, unless they
/// were there before.
#[verifier::rlimit(40)]
pub proof fn law_picked_file_has_its_rows(a: AppV, idx: int)
    requires
        a.wf(),
        0 <= idx < a.files.len(),
        a.files.len() <= usize::MAX,
        idx != a.ui.selected,
    ensures
        a.picked(idx).ui.selected == idx,
        a.picked(idx).rows() == match a.cache[idx] {
            Some(v) => v,
            None => a.built(idx),
        },
        forall|i: int| 0 <= i < a.cache.len() && i != idx ==> a.picked(idx).cache[i] == a.cache[i],
{
}

proof fn lemma_hunk_ahead(v: Seq<RowV>, from: int, i: int)
    requires
        0 <= from <= i < v.len(),
        v[i].kind == RowKind::Hunk,
    ensures
        tui::hunk_from(v, from) is Some,
        from <= tui::hunk_from(v, from)->0 <= i,
        v[tui::hunk_from(v, from)->0].kind == RowKind::Hunk,
    decreases i - from,
{
    if v[from].kind != RowKind::Hunk {
        lemma_hunk_ahead(v, from + 1, i);
    }
}

proof fn lemma_hunk_back(v: Seq<RowV>, to: int, i: int)
    requires
        0 <= i < to <= v.len(),
        v[i].kind == RowKind::Hunk,
    ensures
        tui::hunk_before(v, to) is Some,
        i <= tui::hunk_before(v, to)->0 < to,
        v[tui::hunk_before(v, to)->0].kind == RowKind::Hunk,
    decreases to - i,
{
    if v[to - 1].kind != RowKind::Hunk {
        lemma_hunk_back(v, to - 1, i);
    }
}

/// The hunk keys go to the nearest hunk header below and above, whenever there
/// is one.
#[verifier::rlimit(60)]
pub proof fn law_hunk_keys(a: AppV, now: u64, share: u16, i: int)
    requires
        a.wf(),
        a.rows().len() <= usize::MAX,
        0 <= i < a.rows().len(),
        a.rows()[i].kind == RowKind::Hunk,
    ensures
        i > a.ui.cursor ==> {
            let c = a.shown(Action::NextHunk, now, share).ui.cursor;
            a.ui.cursor < c <= i && a.rows()[c as int].kind == RowKind::Hunk
        },
        i < a.ui.cursor ==> {
            let c = a.shown(Action::PrevHunk, now, share).ui.cursor;
            i <= c < a.ui.cursor && a.rows()[c as int].kind == RowKind::Hunk
        },
{
    reveal(AppV::shown);
    reveal(AppV::navigated_ui);
    if i > a.ui.cursor {
        lemma_hunk_ahead(a.rows(), a.ui.cursor + 1, i);
    }
    if i < a.ui.cursor {
        lemma_hunk_back(a.rows(), a.ui.cursor as int, i);
    }
}

// Searching.

/// The key for the next match goes to the nearest matching row below the
/// cursor, and to the first one of all where none is below.
#[verifier::rlimit(40)]
pub proof fn law_next_match_key(a: AppV, q: Seq<char>, now: u64, share: u16, i: int)
    requires
        a.wf(),
        a.query == Some(q),
        search::found(a.rows(), q) is Some,
        a.rows().len() <= usize::MAX,
        0 <= i < a.rows().len(),
        search::found(a.rows(), q)->0[i],
    ensures
        ({
            let m = search::found(a.rows(), q)->0;
            let c = a.shown(Action::NextMatch, now, share).ui.cursor;
            &&& m[c as int]
            &&& i > a.ui.cursor ==> a.ui.cursor < c <= i
            &&& (forall|k: int| a.ui.cursor < k < m.len() ==> !m[k]) ==> c <= i
        }),
{
    reveal(AppV::shown);
    let m = search::found(a.rows(), q)->0;
    search::law_next_match_is_nearest(m, a.ui.cursor + 1, i);
    if forall|k: int| a.ui.cursor < k < m.len() ==> !m[k] {
        search::law_next_match_wraps(m, a.ui.cursor + 1, i);
    }
}

/// The key for the previous match goes to the nearest matching row above the
/// cursor, and to the last one of all where none is above.
#[verifier::rlimit(40)]
pub proof fn law_previous_match_key(a: AppV, q: Seq<char>, now: u64, share: u16, i: int)
    requires
        a.wf(),
        a.query == Some(q),
        search::found(a.rows(), q) is Some,
        a.rows().len() <= usize::MAX,
        0 <= i < a.rows().len(),
        search::found(a.rows(), q)->0[i],
    ensures
        ({
            let m = search::found(a.rows(), q)->0;
            let c = a.shown(Action::PrevMatch, now, share).ui.cursor;
            &&& m[c as int]
            &&& i < a.ui.cursor ==> i <= c < a.ui.cursor
            &&& (forall|k: int| 0 <= k < a.ui.cursor ==> !m[k]) ==> i <= c
        }),
{
    reveal(AppV::shown);
    let m = search::found(a.rows(), q)->0;
    search::law_prev_match_is_nearest(m, a.ui.cursor as int, i);
}

/// Without a match the cursor stays, and the footer says so.
#[verifier::rlimit(40)]
pub proof fn law_no_match_is_said(a: AppV, q: Seq<char>, now: u64, share: u16)
    requires
        a.wf(),
        a.query == Some(q),
        search::found(a.rows(), q) is Some,
        forall|k: int| 0 <= k < a.rows().len() ==> !search::found(a.rows(), q)->0[k],
    ensures
        a.shown(Action::NextMatch, now, share) == a.noted("no match"@, now),
        a.shown(Action::PrevMatch, now, share) == a.noted("no match"@, now),
{
    reveal(AppV::shown);
    let m = search::found(a.rows(), q)->0;
    let at = geometry::lesser(a.ui.cursor as int, m.len() as int);
    search::law_no_match_is_found_nowhere(m, at);
    assert(search::match_from(m, a.ui.cursor + 1) is None) by {
        lemma_nothing_from(m, a.ui.cursor + 1);
    }
    assert(search::match_from(m, 0) is None) by {
        lemma_nothing_from(m, 0);
    }
}

proof fn lemma_nothing_from(m: Seq<bool>, from: int)
    requires
        0 <= from,
        forall|k: int| 0 <= k < m.len() ==> !m[k],
    ensures
        search::match_from(m, from) is None,
    decreases m.len() - from,
{
    if from < m.len() {
        lemma_nothing_from(m, from + 1);
    }
}

/// While a pattern is typed, a key adds its text to it, takes the last
/// character back, or ends the typing. The enter key searches for what was
/// typed, from the cursor's row on.
#[verifier::rlimit(40)]
pub proof fn law_pattern_is_typed(a: AppV, t: Seq<char>, k: KeyV, now: u64, share: u16)
    requires
        a.typing == Some(t),
    ensures
        ({
            let b = a.pressed(k, now, share).0;
            let what = keys::typing_of(k);
            &&& what == Typing::Insert && k.text is Some ==> b.typing == Some(t + k.text->0)
            &&& what == Typing::Insert && k.text is None ==> b.typing == Some(t)
            &&& what == Typing::Erase && t.len() > 0 ==> b.typing == Some(t.drop_last())
            &&& what == Typing::Erase && t.len() == 0 ==> b.typing == Some(t)
            &&& what == Typing::Cancel ==> b.typing is None && b.query == a.query
            &&& what == Typing::Commit ==> b.typing is None
            &&& what == Typing::Commit && t.len() > 0 ==> b.query == Some(t)
            &&& what == Typing::Commit && t.len() == 0 ==> b.query == a.query
            &&& what != Typing::Commit ==> b.ui == a.ui && b.query == a.query
        }),
{
    reveal(AppV::pressed);
    reveal(AppV::typed);
}

/// A search that was typed ends on the first match at or below the cursor.
#[verifier::rlimit(40)]
pub proof fn law_typed_search_finds(a: AppV, t: Seq<char>, k: KeyV, now: u64, share: u16, i: int)
    requires
        a.wf(),
        a.typing == Some(t),
        t.len() > 0,
        keys::typing_of(k) == Typing::Commit,
        search::found(a.rows(), t) is Some,
        a.rows().len() <= usize::MAX,
        a.ui.cursor <= i < a.rows().len(),
        search::found(a.rows(), t)->0[i],
    ensures
        ({
            let c = a.pressed(k, now, share).0.ui.cursor;
            a.ui.cursor <= c <= i && search::found(a.rows(), t)->0[c as int]
        }),
{
    reveal(AppV::pressed);
    reveal(AppV::typed);
    let b = AppV { typing: None, query: Some(t), ..a };
    assert(b.rows() == a.rows());
    search::law_next_match_is_nearest(search::found(a.rows(), t)->0, a.ui.cursor as int, i);
}

// Copying and editing.

/// The copy key copies the selection, or the whole line under the cursor where
/// nothing is selected, and says how many lines that are. It copies nothing
/// where there is no text.
#[verifier::rlimit(40)]
pub proof fn law_copy_key(a: AppV, now: u64, share: u16)
    ensures
        ({
            let t = match a.ui.sel {
                Some(s) => select::chosen_text(a.rows(), s),
                None => if a.ui.cursor < a.rows().len() {
                    cells::cells_text(
                        a.rows()[a.ui.cursor as int].content,
                        0,
                        usize::MAX as nat,
                    )
                } else {
                    Seq::empty()
                },
            };
            let (b, e) = a.performed(Action::Copy, now, share);
            &&& t.len() > 0 ==> e == EffectV::Copy(t) && b.flash == Some(
                (select::copied_note(t), now),
            )
            &&& t.len() == 0 ==> e == EffectV::Nothing && b.flash == a.flash
            &&& b.ui == (Ui { sel: None, ..a.ui })
        }),
{
    reveal(AppV::performed);
}

/// The key for the whole file copies the raw diff of the selected file.
#[verifier::rlimit(40)]
pub proof fn law_copy_file_key(a: AppV, now: u64, share: u16)
    requires
        a.ui.selected < a.raw_files.len(),
        a.raw_files[a.ui.selected as int].len() > 0,
    ensures
        a.performed(Action::CopyFile, now, share).1 == EffectV::Copy(
            a.raw_files[a.ui.selected as int],
        ),
        a.performed(Action::CopyFile, now, share).0.ui == a.ui,
{
    reveal(AppV::performed);
}

/// Whether a row belongs to no line.
pub open spec fn is_unnumbered(r: RowV) -> bool {
    r.new_no is None && r.old_no is None
}

proof fn lemma_line_from(v: Seq<RowV>, from: int, i: int)
    requires
        0 <= from <= i < v.len(),
        forall|k: int| from <= k < i ==> is_unnumbered(#[trigger] v[k]),
        !is_unnumbered(v[i]),
    ensures
        session::line_from(v, from) == match v[i].new_no {
            Some(n) => Some(n),
            None => v[i].old_no,
        },
    decreases i - from,
{
    if from < i {
        assert(is_unnumbered(v[from]));
        lemma_line_from(v, from + 1, i);
    }
}

/// The editor opens the selected file at the line under the cursor: at its
/// new number, or at the old one of a removed line. On a row without a number
/// it is the next row that has one. The command is the editor's, then the
/// line, then the path, which starts at the root of the working tree.
pub proof fn law_editor_opens_at_the_line(a: AppV, i: int)
    requires
        a.ui.selected < a.files.len(),
        text::word_texts(a.setup.editor).len() > 0,
        a.ui.cursor <= i < a.rows().len(),
        forall|k: int| a.ui.cursor <= k < i ==> is_unnumbered(#[trigger] a.rows()[k]),
        !is_unnumbered(a.rows()[i]),
    ensures
        ({
            let n = match a.rows()[i].new_no {
                Some(n) => n,
                None => a.rows()[i].old_no->0,
            };
            let f = a.files[a.ui.selected as int];
            let rel = if f.new_path == "/dev/null"@ {
                f.old_path
            } else {
                f.new_path
            };
            let path = match a.setup.toplevel {
                Some(top) => paths::joined_path(top, rel),
                None => rel,
            };
            a.editing() == (
                a,
                EffectV::Edit(
                    text::word_texts(a.setup.editor).push("+"@ + text::dec(n as nat)).push(path),
                ),
            )
        }),
{
    lemma_line_from(a.rows(), a.ui.cursor as int, i);
}

/// The edit keys open the editor; so does the enter key, but on a hunk header
/// it grows the folded context instead, unless the diff was piped in.
#[verifier::rlimit(40)]
pub proof fn law_enter_key(a: AppV, now: u64, share: u16)
    requires
        a.ui.page == Page::Diff,
    ensures
        ({
            let b = a.unselected();
            let (c, e) = a.performed(Action::Enter, now, share);
            let hunk = a.ui.cursor < a.rows().len() && a.rows()[a.ui.cursor as int].kind
                == RowKind::Hunk;
            &&& a.performed(Action::Edit, now, share) == b.editing()
            &&& !hunk ==> (c, e) == b.editing()
            &&& hunk && a.setup.piped ==> (c, e) == (b, EffectV::Nothing)
            &&& hunk && !a.setup.piped && a.ui.expand + 10 <= usize::MAX ==> c.ui.expand
                == a.ui.expand + 10 && e is Reload && e->Reload_0 is Some
        }),
{
    reveal(AppV::performed);
    assert(a.unselected().rows() == a.rows());
}

/// What is asked for after context has grown is the hunk that the cursor is
/// in: pinning it again leaves the cursor in that hunk, on the same row of the
/// screen.
pub proof fn law_expanding_remembers_the_place(a: AppV)
    requires
        a.wf(),
        a.on_hunk(),
        a.rows().len() <= usize::MAX,
        a.ui.scroll <= a.ui.cursor < a.ui.scroll + a.vh(),
        a.ui.scroll <= a.max_scroll(),
        tui::hunk_count(a.rows()) <= usize::MAX,
    ensures
        ({
            let e = a.expanding().1;
            e matches EffectV::Reload(Some((ord, off))) && a.pinned(ord as nat, off as int).ui
                == a.ui
        }),
{
    let v = a.rows();
    let c = a.ui.cursor as int;
    let ord = session::hunk_number(v, c);
    lemma_number_finds(v, c);
    lemma_count_le(v.take(c + 1));
    tui::lemma_frame(a, 0);
}

proof fn lemma_count_le(v: Seq<RowV>)
    ensures
        tui::hunk_count(v) <= v.len(),
    decreases v.len(),
{
    if v.len() > 0 {
        lemma_count_le(v.drop_last());
    }
}

proof fn lemma_number_finds(v: Seq<RowV>, c: int)
    requires
        0 <= c < v.len(),
        v[c].kind == RowKind::Hunk,
    ensures
        session::nth_hunk(v, 0, session::hunk_number(v, c)) == Some(c),
{
    assert(v.take(c + 1).drop_last() =~= v.take(c));
    assert(v.take(0) =~= Seq::<RowV>::empty());
    let n = tui::hunk_count(v.take(c));
    assert(session::hunk_number(v, c) == n);
    lemma_nth_from(v, 0, c);
}

proof fn lemma_nth_from(v: Seq<RowV>, from: int, c: int)
    requires
        0 <= from <= c < v.len(),
        v[c].kind == RowKind::Hunk,
        tui::hunk_count(v.take(from)) <= tui::hunk_count(v.take(c)),
    ensures
        session::nth_hunk(
            v,
            from,
            (tui::hunk_count(v.take(c)) - tui::hunk_count(v.take(from))) as nat,
        ) == Some(c),
    decreases c - from,
{
    if from < c {
        assert(v.take(from + 1).drop_last() =~= v.take(from));
        lemma_count_mono(v, from + 1, c);
        lemma_nth_from(v, from + 1, c);
    }
}

proof fn lemma_count_mono(v: Seq<RowV>, i: int, j: int)
    requires
        0 <= i <= j <= v.len(),
    ensures
        tui::hunk_count(v.take(i)) <= tui::hunk_count(v.take(j)),
    decreases j - i,
{
    if i < j {
        assert(v.take(j).drop_last() =~= v.take(j - 1));
        lemma_count_mono(v, i, j - 1);
    }
}

// Keys and the selection.

/// In the diff view a key drops the selection, but for those that quit, copy
/// or close something. In the file list no key does.
#[verifier::rlimit(60)]
pub proof fn law_keys_drop_the_selection(a: AppV, action: Action, now: u64, share: u16)
    requires
        action != Action::Quit,
        action != Action::Escape,
        action != Action::Copy,
        action != Action::CopyFile,
        !(action == Action::Help && a.ui.layout.help_open),
    ensures
        a.ui.page == Page::Diff ==> a.performed(action, now, share) == a.unselected().performed(
            action,
            now,
            share,
        ),
        a.ui.page == Page::Stat && action != Action::Edit && action != Action::Enter && action
            != Action::Refresh ==> a.performed(action, now, share) == (
            a.shown(action, now, share),
            EffectV::Nothing,
        ),
{
    reveal(AppV::performed);
}

/// Quitting, and copying the file, keep the selection.
#[verifier::rlimit(40)]
pub proof fn law_quit_key(a: AppV, now: u64, share: u16)
    ensures
        a.performed(Action::Quit, now, share) == (a, EffectV::Quit),
        a.performed(Action::Refresh, now, share).1 == EffectV::Reload(None),
{
    reveal(AppV::performed);
}

/// The escape key closes the selection first, and then the file list.
#[verifier::rlimit(40)]
pub proof fn law_escape_key(a: AppV, now: u64, share: u16)
    ensures
        a.ui.sel is Some ==> a.shown(Action::Escape, now, share).ui == (Ui { sel: None, ..a.ui }),
        a.ui.sel is None ==> a.shown(Action::Escape, now, share).ui == (Ui {
            page: Page::Diff,
            ..a.ui
        }),
        a.shown(Action::Files, now, share).ui == (Ui { page: Page::Stat, ..a.ui }),
        a.shown(Action::CloseFiles, now, share).ui == (Ui { page: Page::Diff, ..a.ui }),
        a.shown(Action::Search, now, share).typing == Some(Seq::<char>::empty()),
{
    reveal(AppV::shown);
    reveal(AppV::toggled_ui);
}

// The mouse.

/// The wheel scrolls three rows, or four columns, and drops the selection.
pub proof fn law_wheel(a: AppV, share: u16)
    ensures
        a.wheeled(Button::WheelDown, share) == a.unselected().paged(3),
        a.wheeled(Button::WheelUp, share) == a.unselected().paged(-3),
        a.wheeled(Button::WheelRight, share) == a.unselected().panned(4, share),
        a.wheeled(Button::WheelLeft, share) == a.unselected().panned(-4, share),
{
    reveal(AppV::wheeled);
}

/// A click on the diff puts the cursor on the row under the pointer, or on the
/// last one, and starts a selection at the cell under the pointer, in the pane
/// under it. The viewport stays.
#[verifier::rlimit(40)]
pub proof fn law_click_on_the_diff(a: AppV, m: Mouse, now: u64, share: u16)
    requires
        a.wf(),
        0 < a.rows().len() <= usize::MAX,
        a.ui.scroll <= a.max_scroll(),
        m.y < a.vh(),
        !a.is_double(m, now),
    ensures
        ({
            let (b, e) = a.clicked_body(m, now, share);
            let row = if a.ui.scroll + m.y < a.rows().len() {
                a.ui.scroll + m.y
            } else {
                a.rows().len() - 1
            };
            let pane = if a.ui.split {
                a.frame(share).pane_of(m.x as int)
            } else {
                None
            };
            &&& e == EffectV::Nothing
            &&& b.ui.cursor == row
            &&& b.ui.scroll == a.ui.scroll
            &&& b.ui.sel matches Some(s) && s.dragging && s.pane == pane && (s.a_row, s.a_col)
                == (s.c_row, s.c_col) && s.a_row == row
            &&& b.ui.last_click == Some(tui::LastClick { at: now, x: m.x, y: m.y })
        }),
{
    reveal(AppV::clicked_body);
    tui::lemma_frame(a, 0);
    let b = a.set_on(a.ui.scroll + m.y);
    assert(b.rows() == a.rows());
}

/// A second click on the same place within the time of a double click grows
/// the context, if it is on a hunk header of a diff that was not piped in.
#[verifier::rlimit(40)]
pub proof fn law_double_click_expands(a: AppV, m: Mouse, now: u64, share: u16)
    requires
        a.wf(),
        a.rows().len() <= usize::MAX,
        a.ui.scroll + m.y < a.rows().len(),
        a.rows()[a.ui.scroll + m.y].kind == RowKind::Hunk,
        !a.setup.piped,
        a.ui.last_click matches Some(c) && c.x == m.x && c.y == m.y && c.at <= now && now - c.at
            < 400,
        a.ui.expand + 10 <= usize::MAX,
    ensures
        ({
            let (b, e) = a.clicked_body(m, now, share);
            &&& b.ui.expand == a.ui.expand + 10
            &&& b.ui.sel is None
            &&& b.ui.cursor == a.ui.scroll + m.y
            &&& e is Reload
        }),
{
    reveal(AppV::clicked_body);
    tui::lemma_frame(a, 0);
    assert(a.set_on(a.ui.scroll + m.y).rows() == a.rows());
}

/// Clicks that are far apart in time or place are no double click.
pub proof fn law_slow_clicks_are_single(a: AppV, m: Mouse, now: u64)
    ensures
        a.ui.last_click is None ==> !a.is_double(m, now),
        a.ui.last_click matches Some(c) ==> (c.y != m.y || now - c.at >= 400 || c.x > m.x + 1
            || m.x > c.x + 1 ==> !a.is_double(m, now)),
{
}

/// A click beside the body selects the file that the sidebar shows on that
/// row. The sidebar shows the files from the top, or just so many further
/// down that the selected one is on the last row.
#[verifier::rlimit(40)]
pub proof fn law_click_on_the_sidebar(a: AppV, m: Mouse, now: u64, share: u16)
    requires
        a.wf(),
        a.files.len() <= usize::MAX,
        m.button == Button::Left,
        a.ui.page == Page::Diff,
        !a.ui.layout.help_open,
        m.y < a.vh(),
        a.ui.split ==> m.x != a.frame(share).split_edge(),
        a.frame(share).sidebar,
        a.frame(share).beside_body(m.x as int),
        m.x != a.frame(share).side_edge(),
    ensures
        ({
            let start = if a.ui.selected >= a.vh() {
                a.ui.selected - a.vh() + 1
            } else {
                0
            };
            let b = a.clicked(m, now, share).0;
            &&& start + m.y < a.files.len() ==> b.ui.selected == start + m.y
            &&& start + m.y >= a.files.len() ==> b == a
        }),
{
    reveal(AppV::clicked);
}

/// The sidebar and the file list always show the selected file.
pub proof fn law_lists_show_the_selected_file(a: AppV, h: int)
    requires
        h > 0,
    ensures
        0 <= a.window(h) <= a.ui.selected < a.window(h) + h,
        a.ui.selected < h ==> a.window(h) == 0,
{
}

/// A press on a divider starts to drag it; another button does nothing.
#[verifier::rlimit(40)]
pub proof fn law_dividers_can_be_dragged(a: AppV, m: Mouse, now: u64, share: u16)
    ensures
        m.button != Button::Left ==> a.clicked(m, now, share) == (a, EffectV::Nothing),
        m.button == Button::Left && m.y < a.vh() && a.ui.page == Page::Diff
            && !a.ui.layout.help_open && a.frame(share).sidebar && m.x == a.frame(share).side_edge()
            ==> a.clicked(m, now, share).0.ui == (Ui { resizing: true, ..a.ui }),
        m.button == Button::Left && m.y == a.vh() && m.x >= a.ui.help_badge_x ==> a.clicked(
            m,
            now,
            share,
        ).0.ui.layout.help_open == !a.ui.layout.help_open,
{
    reveal(AppV::clicked);
}

/// A drag ends the selection at the cell under the pointer. At the first and
/// at the last row of the viewport the content scrolls by one row that way.
#[verifier::rlimit(40)]
pub proof fn law_drag_follows_the_pointer(a: AppV, s: Sel, m: Mouse, share: u16)
    requires
        a.wf(),
        0 < a.rows().len() <= usize::MAX,
        0 < m.y,
        m.y + 1 < a.vh(),
        forall|i: int| 0 <= i < a.rows().len() ==> (#[trigger] a.rows()[i]).content.len()
            <= usize::MAX,
        0 <= a.point(m.x, m.y, s.pane, share).1,
    ensures
        ({
            let b = a.drag_selected(s, m, share);
            let (r, c) = a.point(m.x, m.y, s.pane, share);
            &&& b.ui.sel matches Some(t) && t.c_row == r && t.c_col == c && t.dragging
                == s.dragging
            &&& b.ui.scroll == a.ui.scroll
            &&& b.ui.cursor == a.ui.cursor
        }),
{
    reveal(AppV::drag_selected);
    tui::lemma_frame(a, 0);
    let (r, c) = a.point(m.x, m.y, s.pane, share);
    assert(0 <= r < a.rows().len());
    assert(a.rows()[r].content.len() <= usize::MAX);
}

/// A pointer on the row `y` of the screen means the row of the file that is so
/// many rows below the top one, or the last; a pointer left of the content
/// means its first visible cell, and one behind it its end.
pub proof fn law_pointer_stays_in_the_row(
    a: AppV,
    x: u16,
    y: u16,
    pane: Option<Pane>,
    share: u16,
)
    requires
        0 < a.rows().len(),
    ensures
        ({
            let (r, c) = a.point(x, y, pane, share);
            let len = a.rows()[r].content.len();
            let at = a.frame(share).text_at(a.rows()[r].kind, pane);
            let hidden = if a.rows()[r].kind == RowKind::Hunk || a.rows()[r].kind == RowKind::Note {
                0
            } else {
                a.ui.pan as int
            };
            &&& a.ui.scroll + y < a.rows().len() ==> r == a.ui.scroll + y
            &&& a.ui.scroll + y >= a.rows().len() ==> r == a.rows().len() - 1
            &&& x <= at && hidden <= len ==> c == hidden
            &&& at <= x && x - at + hidden <= len ==> c == x - at + hidden
            &&& at <= x && x - at + hidden > len ==> c == len
        }),
{
}

/// Dragging the file list moves its corner with the pointer, as far from it as
/// where it was taken hold of.
#[verifier::rlimit(40)]
pub proof fn law_list_follows_the_pointer(a: AppV, m: Mouse, gx: u16, gy: u16, share: u16)
    requires
        a.ui.modal_drag == Some((gx, gy)),
        gx <= m.x,
        gy <= m.y,
    ensures
        a.pointed(m, share).0.ui == (Ui {
            modal_pos: Some(((m.x - gx) as u16, (m.y - gy) as u16)),
            ..a.ui
        }),
{
    reveal(AppV::pointed);
}

/// Dragging the sidebar's divider changes the sidebar's width alone; dragging
/// the divider of the panes changes nothing inside but asks for another
/// share.
#[verifier::rlimit(40)]
pub proof fn law_divider_drags(a: AppV, m: Mouse, share: u16)
    requires
        a.ui.modal_drag is None,
    ensures
        a.ui.resizing ==> a.pointed(m, share).0.ui.layout == (tui::Layout {
            sidebar_width: Some(a.frame(share).dragged_to(m.x) as usize),
            ..a.ui.layout
        }),
        !a.ui.resizing && a.ui.resizing_split && a.frame(share).body_w() >= 5 ==> {
            let (b, e) = a.pointed(m, share);
            &&& b == a
            &&& e matches EffectV::Split(left, inner) && inner == a.frame(share).body_w() - 1
                && 2 <= left <= inner - 2 && (a.frame(share).body_at() + 2 <= m.x <= a.frame(
                share,
            ).body_at() + a.frame(share).body_w() - 3 ==> left == m.x - a.frame(share).body_at())
        },
        !a.ui.resizing && !a.ui.resizing_split && a.ui.sel is None ==> a.pointed(m, share) == (
            a,
            EffectV::Nothing,
        ),
{
    reveal(AppV::pointed);
    geometry::law_sidebar_at_most_half(a.frame(share));
}

/// A screen of another size drops the selection and keeps the cursor's row in
/// the file.
#[verifier::rlimit(40)]
pub proof fn law_resize(a: AppV, w: u16, h: u16)
    requires
        a.wf(),
        a.rows().len() <= usize::MAX,
    ensures
        a.resized(w, h).ui.layout == (tui::Layout { width: w, height: h, ..a.ui.layout }),
        a.resized(w, h).ui.sel is None,
        a.resized(w, h).ui.cursor == a.ui.cursor,
        a.resized(w, h).ui.selected == a.ui.selected,
{
    let b = a.unselected().laid_out(tui::Layout { width: w, height: h, ..a.ui.layout });
    assert(b.rows() == a.rows());
}

// Loading.

/// Another diff keeps the file and the row, as far as they exist in it.
pub proof fn law_reload_keeps_place_if_it_can(a: AppV, s: Seq<char>)
    requires
        a.wf(),
        diff::parsed(s).len() <= usize::MAX,
        a.rebuilt(s).rows().len() <= usize::MAX,
    ensures
        ({
            let b = a.rebuilt(s);
            let n = diff::parsed(s).len() as int;
            let m = b.rows().len() as int;
            &&& b.files == diff::parsed(s)
            &&& b.raw_files == diff::raw_files(s)
            &&& b.last_diff == s
            &&& a.ui.selected < n ==> b.ui.selected == a.ui.selected
            &&& n > 0 && a.ui.selected >= n ==> b.ui.selected == n - 1
            &&& n > 0 ==> b.rows() == b.built(b.ui.selected as int)
            &&& a.ui.cursor < m ==> b.ui.cursor == a.ui.cursor
            &&& m > 0 && a.ui.cursor >= m ==> b.ui.cursor == m - 1
        }),
{
    let x = a.loaded(s);
    let sel = geometry::lesser(a.ui.selected as int, geometry::minus(x.files.len() as int, 1));
    let b = AppV { ui: Ui { selected: sel as usize, scroll: 0, ..x.ui }, ..x };
    let c = b.ensured();
    assert(c.set_on(a.ui.cursor as int).rows() == c.rows());
    if x.files.len() > 0 {
        assert(c.cache[sel] == Some(b.built(sel)));
        assert(c.built(sel) == b.built(sel));
    }
    tui::lemma_frame(c, 0);
}

/// A viewer starts at the top of the first file.
pub proof fn law_start_is_at_the_top(a: AppV, s: Seq<char>)
    ensures
        a.opened(s).files == diff::parsed(s),
        a.opened(s).raw_files == diff::raw_files(s),
        a.opened(s).ui.selected == 0,
        a.opened(s).ui.cursor == 0,
        a.opened(s).ui.scroll == 0,
        forall|i: int| 0 <= i < a.opened(s).cache.len() ==> a.opened(s).cache[i] is None,
{
}

/// The next diff is asked for with the options of the command line, as long as
/// no context was expanded.
pub proof fn law_options_are_kept(a: AppV)
    ensures
        a.ui.expand == 0 ==> a.knobs() == a.setup.opts,
        a.knobs().pathspec == a.setup.opts.pathspec,
        a.knobs().algorithm == a.setup.opts.algorithm,
        a.knobs().ignore_whitespace == a.setup.opts.ignore_whitespace,
        a.knobs().all == a.setup.opts.all,
{
}

/// The title names the selected file.
pub proof fn law_title_names_the_file(a: AppV)
    ensures
        a.ui.selected < a.files.len() ==> a.wanted_title() == a.files[a.ui.selected as int].path()
            + " · diffv"@,
        a.ui.selected >= a.files.len() ==> a.wanted_title() == "diffv"@,
{
}

/// A file goes by its new path, or by its old one where it is gone.
pub proof fn law_file_goes_by_its_path(f: diff::FileV)
    ensures
        f.new_path == "/dev/null"@ ==> f.path() == f.old_path,
        f.new_path != "/dev/null"@ ==> f.path() == f.new_path,
{
}

/// The viewer wakes in time: before a note is over, before the next poll is
/// due, and soon while rows are being built. With nothing to do it waits.
pub proof fn law_wait_is_in_time(prefetching: bool, age: Option<int>, poll: Option<int>)
    ensures
        ({
            let w = session::wait_for(prefetching, age, poll);
            &&& 1 <= w <= 200
            &&& prefetching ==> w <= 16
            &&& age is Some && 0 <= age->0 < 2000 ==> w <= 2000 - age->0
            &&& poll is Some && poll->0 >= 1 ==> w <= poll->0
            &&& age is None && poll is None ==> w == if prefetching {
                16int
            } else {
                200
            }
        }),
{
}

/// When the sidebar is showing: the user's toggle decides, else the mode, and
/// without files there is none.
pub proof fn law_sidebar_rule(c: tui::SetupV, n: nat, l: tui::Layout)
    ensures
        n == 0 ==> !tui::shows_sidebar(c, n, l),
        n > 0 && l.sidebar is Some ==> tui::shows_sidebar(c, n, l) == l.sidebar->0,
        n > 0 && l.sidebar is None && c.sidebar == "always"@ ==> tui::shows_sidebar(c, n, l),
        n > 0 && l.sidebar is None && c.sidebar == "never"@ ==> !tui::shows_sidebar(c, n, l),
        n > 0 && l.sidebar is None && c.sidebar == "auto"@ ==> (tui::shows_sidebar(c, n, l)
            <==> l.width >= 150),
{
    reveal_strlit("auto");
    reveal_strlit("always");
    reveal_strlit("never");
    reveal_strlit("on");
    reveal_strlit("open");
    reveal_strlit("off");
    reveal_strlit("closed");
    assert("always"@.len() == 6 && "never"@.len() == 5 && "auto"@.len() == 4);
    assert("open"@[0] == 'o' && "auto"@[0] == 'a');
}

/// Where the sidebar stands, and how wide it should be.
pub proof fn law_sidebar_place(c: tui::SetupV, n: nat, l: tui::Layout, share: u16)
    ensures
        ({
            let f = tui::frame_of(c, n, l, share);
            &&& f.sidebar_left <==> c.sidebar_side != "right"@
            &&& l.sidebar_width is Some ==> f.sidebar_want == l.sidebar_width->0
            &&& l.sidebar_width is None ==> f.sidebar_want == c.sidebar_width
            &&& !l.help_open ==> f.help_rows == 0
            &&& f.line_numbers == c.line_numbers
        }),
{
}

/// The keys that toggle something turn it on or off, and nothing else changes.
#[verifier::rlimit(40)]
pub proof fn law_toggle_keys(a: AppV, now: u64, share: u16)
    ensures
        a.shown(Action::Split, now, share).ui == (Ui { split: !a.ui.split, ..a.ui }),
        a.shown(Action::Watch, now, share).ui == (Ui { watch: !a.ui.watch, ..a.ui }),
        a.shown(Action::Help, now, share).ui.layout.help_open == !a.ui.layout.help_open,
        a.shown(Action::Sidebar, now, share).ui.layout.sidebar == Some(!a.sidebar_on()),
        a.shown(Action::Sidebar, now, share).sidebar_on() == (a.files.len() > 0
            && !a.sidebar_on()),
{
    reveal(AppV::shown);
    reveal(AppV::toggled_ui);
}

/// The enter key of the file list shows the selected file from its start.
#[verifier::rlimit(40)]
pub proof fn law_open_file_key(a: AppV, now: u64, share: u16)
    requires
        a.wf(),
    ensures
        ({
            let b = a.shown(Action::OpenFile, now, share);
            &&& b.ui.page == Page::Diff
            &&& b.ui.selected == a.ui.selected
            &&& b.rows().len() > 0 ==> b.ui.cursor == 0
            &&& a.ui.selected < a.cache.len() ==> b.cache[a.ui.selected as int] is Some
        }),
{
    reveal(AppV::shown);
    let b = a.on_page(Page::Diff).ensured();
    assert(b.sent_to(0).rows() == b.rows());
}

/// A drag at the first or the last row of the viewport scrolls the content by
/// one row that way, as far as there is content.
#[verifier::rlimit(40)]
pub proof fn law_drag_scrolls_at_the_edge(a: AppV, s: Sel, m: Mouse, share: u16)
    requires
        a.wf(),
        a.rows().len() <= usize::MAX,
    ensures
        m.y == 0 && 0 < a.ui.scroll <= a.max_scroll() ==> a.drag_selected(s, m, share).ui.scroll
            == a.ui.scroll - 1,
        0 < m.y && m.y + 1 >= a.vh() && a.ui.scroll < a.max_scroll() ==> a.drag_selected(
            s,
            m,
            share,
        ).ui.scroll == a.ui.scroll + 1,
{
    reveal(AppV::drag_selected);
    tui::lemma_frame(a, 0);
}

/// A press in the box of the file list, beside its rows, takes hold of the box
/// where the pointer is.
#[verifier::rlimit(40)]
pub proof fn law_list_can_be_taken_hold_of(a: AppV, m: Mouse, h: tui::ModalHit)
    requires
        a.ui.modal_hit == Some(h),
        h.x0 <= m.x < h.x1,
        h.y0 <= m.y < h.y1,
        m.y < h.list_y || m.y >= h.list_y + h.list_h,
    ensures
        a.clicked_list(m).ui == (Ui {
            modal_drag: Some(((m.x - h.x0) as u16, (m.y - h.y0) as u16)),
            ..a.ui
        }),
{
    reveal(AppV::clicked_list);
}

/// Two clicks on about the same cell within the time are a double click.
pub proof fn law_quick_clicks_are_double(a: AppV, m: Mouse, now: u64, c: tui::LastClick)
    requires
        a.ui.last_click == Some(c),
        c.y == m.y,
        c.x <= m.x + 1,
        m.x <= c.x + 1,
        c.at <= now,
        now - c.at < 400,
    ensures
        a.is_double(m, now),
{
}

/// Letting go of the button ends every drag.
pub proof fn law_release_ends_drags(a: AppV, now: u64)
    ensures
        ({
            let b = a.released(Button::Left, now).0;
            &&& !b.ui.resizing && !b.ui.resizing_split && b.ui.modal_drag is None
            &&& b.ui.sel is Some ==> !b.ui.sel->0.dragging
            &&& b.ui.cursor == a.ui.cursor && b.ui.scroll == a.ui.scroll
        }),
{
}

/// What is copied when a drag ends is what was selected.
pub proof fn law_release_copies_the_selection(a: AppV, s: Sel, now: u64)
    requires
        a.ui.sel == Some(s),
        s.dragging,
        (s.a_row, s.a_col) != (s.c_row, s.c_col),
        select::chosen_text(a.rows(), s).len() > 0,
    ensures
        ({
            let (b, e) = a.released(Button::Left, now);
            &&& e == EffectV::Copy(select::chosen_text(a.rows(), s))
            &&& b.flash == Some((select::copied_note(select::chosen_text(a.rows(), s)), now))
            &&& b.ui.sel == Some(Sel { dragging: false, ..s })
        }),
{
}

/// Without a search there is nothing to go to; a query that is no regular
/// expression is said to be none, and the cursor stays.
#[verifier::rlimit(40)]
pub proof fn law_search_without_matches(a: AppV, now: u64, share: u16)
    ensures
        a.query is None ==> a.shown(Action::NextMatch, now, share) == a && a.shown(
            Action::PrevMatch,
            now,
            share,
        ) == a,
        a.query is Some && search::found(a.rows(), a.query->0) is None ==> a.shown(
            Action::NextMatch,
            now,
            share,
        ) == a.noted("bad pattern"@, now) && a.shown(Action::PrevMatch, now, share) == a.noted(
            "bad pattern"@,
            now,
        ),
{
    reveal(AppV::shown);
}

/// A key that is bound does what it is bound to, in the diff view and in the
/// file list each by its own table.
#[verifier::rlimit(40)]
pub proof fn law_bound_keys(a: AppV, k: KeyV, action: Action, now: u64, share: u16)
    requires
        a.typing is None,
    ensures
        a.ui.page == Page::Diff && keys::bound(keys::diff_bindings(), k) == Some(action)
            ==> a.pressed(k, now, share) == a.performed(action, now, share),
        a.ui.page == Page::Stat && keys::bound(keys::stat_bindings(), k) == Some(action)
            ==> a.pressed(k, now, share) == a.performed(action, now, share),
        a.ui.page == Page::Stat && keys::bound(keys::stat_bindings(), k) is None ==> a.pressed(
            k,
            now,
            share,
        ) == (a, EffectV::Nothing),
{
    reveal(AppV::pressed);
}

/// Each event goes to what handles it.
pub proof fn law_events_are_handled(a: AppV, k: KeyV, m: Mouse, w: u16, h: u16, now: u64, share: u16)
    ensures
        a.handled(events::InputV::Press(k), now, share) == a.pressed(k, now, share),
        a.handled(events::InputV::Wheel(m), now, share).0 == a.wheeled(m.button, share),
        a.handled(events::InputV::Click(m), now, share) == a.clicked(m, now, share),
        a.handled(events::InputV::Motion(m), now, share) == a.pointed(m, share),
        a.handled(events::InputV::Release(m), now, share) == a.released(m.button, now),
        a.handled(events::InputV::Resize(w, h), now, share).0 == a.resized(w, h),
        a.handled(events::InputV::Other, now, share) == (a, EffectV::Nothing),
{
}

/// While the file list is open a click goes to it; else a click beside
/// dividers and sidebar goes to the diff, unless the help is open.
#[verifier::rlimit(40)]
pub proof fn law_clicks_go_where_they_meet(a: AppV, m: Mouse, now: u64, share: u16)
    requires
        m.button == Button::Left,
        m.y < a.vh(),
    ensures
        a.ui.page == Page::Stat ==> a.clicked(m, now, share) == (
            a.clicked_list(m),
            EffectV::Nothing,
        ),
        a.ui.page == Page::Diff && a.ui.layout.help_open ==> a.clicked(m, now, share) == (
            a,
            EffectV::Nothing,
        ),
        a.ui.page == Page::Diff && !a.ui.layout.help_open && !a.frame(share).beside_body(m.x as int)
            && !(a.frame(share).sidebar && m.x == a.frame(share).side_edge()) && !(a.ui.split
            && m.x == a.frame(share).split_edge()) ==> a.clicked(m, now, share) == a.clicked_body(
            m,
            now,
            share,
        ),
        a.ui.page == Page::Diff && !a.ui.layout.help_open && a.ui.split && m.x == a.frame(
            share,
        ).split_edge() && !(a.frame(share).sidebar && m.x == a.frame(share).side_edge())
            ==> a.clicked(m, now, share).0.ui == (Ui { resizing_split: true, ..a.ui }),
{
    reveal(AppV::clicked);
}

proof fn lemma_no_line(v: Seq<RowV>, from: int)
    requires
        0 <= from,
        forall|k: int| from <= k < v.len() ==> is_unnumbered(#[trigger] v[k]),
    ensures
        session::line_from(v, from) is None,
    decreases v.len() - from,
{
    if from < v.len() {
        assert(is_unnumbered(v[from]));
        lemma_no_line(v, from + 1);
    }
}

/// Below the last line of a file the editor opens at the first one, and at
/// line 1 where no row has a number.
pub proof fn law_editor_falls_back(v: Seq<RowV>, cursor: int, i: int)
    requires
        0 <= cursor,
        forall|k: int| cursor <= k < v.len() ==> is_unnumbered(#[trigger] v[k]),
    ensures
        0 <= i < v.len() && !is_unnumbered(v[i]) && (forall|k: int|
            0 <= k < i ==> is_unnumbered(#[trigger] v[k])) ==> session::edit_line(v, cursor)
            == match v[i].new_no {
            Some(n) => n,
            None => v[i].old_no->0,
        },
        (forall|k: int| 0 <= k < v.len() ==> is_unnumbered(#[trigger] v[k]))
            ==> session::edit_line(v, cursor) == 1,
{
    lemma_no_line(v, cursor);
    if forall|k: int| 0 <= k < v.len() ==> is_unnumbered(#[trigger] v[k]) {
        lemma_no_line(v, 0);
    }
    if 0 <= i < v.len() && !is_unnumbered(v[i]) && (forall|k: int|
        0 <= k < i ==> is_unnumbered(#[trigger] v[k])) {
        lemma_line_from(v, 0, i);
    }
}

/// How rows are made follows the settings: the tab width, and whether words
/// are marked, which the `ansi` theme leaves alone.
pub proof fn law_rows_follow_the_settings(s: tui::Setup)
    ensures
        ({
            let v = tui::setup_of(s);
            &&& v.making.tab == s.config@.tab_width
            &&& v.making.intraline <==> s.config@.intraline && s.config@.theme != "ansi"@
            &&& v.line_numbers == s.config@.line_numbers
            &&& v.sidebar == s.config@.sidebar && v.sidebar_width == s.config@.sidebar_width
            &&& v.sidebar_side == s.config@.sidebar_side
            &&& v.piped <==> s.source is Stdin
            &&& v.worktree <==> s.source is Worktree
            &&& v.opts == s.opts@
            &&& v.editor == s.editor@
        }),
{
}

} // verus!
