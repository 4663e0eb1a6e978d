//! Selecting text with the mouse and copying it.
use crate::cells;
use crate::diff;
use crate::geometry;
use crate::geometry::Pane;
use crate::rows;
use crate::rows::{Row, RowKind, RowV};
use crate::text;
use crate::tui::{App, AppV, Sel, Ui};
use vstd::prelude::*;

verus! {

/// Whether a row has content in a selection pane. The left pane holds context
/// and removals, the right holds context and additions; headers belong to
/// both. In the unified view every row qualifies.
pub open spec fn in_pane(kind: RowKind, pane: Option<Pane>) -> bool {
    match pane {
        None => true,
        Some(Pane::Left) => kind != RowKind::Add,
        Some(Pane::Right) => kind != RowKind::Remove,
    }
}

/// The last row of a selection among `n` rows.
pub open spec fn last_row(s: Sel, n: nat) -> int {
    geometry::lesser(s.span().2 as int, n - 1)
}

/// The part of row `r` that a selection covers.
pub open spec fn row_part(v: Seq<RowV>, s: Sel, r: int) -> Seq<char> {
    let (sr, sc, er, ec) = s.span();
    cells::cells_text(
        v[r].content,
        if r == sr {
            sc as nat
        } else {
            0
        },
        if r == last_row(s, v.len()) {
            ec as nat
        } else {
            usize::MAX as nat
        },
    )
}

/// The parts of the rows before row `end` that a selection covers; only rows
/// of its pane contribute.
pub open spec fn parts(v: Seq<RowV>, s: Sel, end: int) -> Seq<Seq<char>>
    decreases end,
{
    if end <= s.span().0 {
        Seq::empty()
    } else {
        let before = parts(v, s, end - 1);
        if in_pane(v[end - 1].kind, s.pane) {
            before.push(row_part(v, s, end - 1))
        } else {
            before
        }
    }
}

/// The text of a selection: one line for each row of its pane.
pub open spec fn chosen_text(v: Seq<RowV>, s: Sel) -> Seq<char> {
    if v.len() == 0 {
        Seq::empty()
    } else {
        text::joined(parts(v, s, last_row(s, v.len()) + 1), "\n"@)
    }
}

proof fn lemma_parts_confined(v: Seq<RowV>, w: Seq<RowV>, s: Sel, end: int)
    requires
        v.len() == w.len(),
        end <= v.len(),
        forall|i: int|
            0 <= i < v.len() ==> (#[trigger] v[i]).kind == w[i].kind && (in_pane(
                v[i].kind,
                s.pane,
            ) ==> v[i].content == w[i].content),
    ensures
        parts(v, s, end) == parts(w, s, end),
    decreases end,
{
    if end > s.span().0 {
        lemma_parts_confined(v, w, s, end - 1);
        assert(v[end - 1].kind == w[end - 1].kind);
    }
}

/// A selection in a pane copies one side: it does not depend on what the
/// other side holds.
pub proof fn law_selection_is_confined(v: Seq<RowV>, w: Seq<RowV>, s: Sel)
    requires
        v.len() == w.len(),
        forall|i: int|
            0 <= i < v.len() ==> (#[trigger] v[i]).kind == w[i].kind && (in_pane(
                v[i].kind,
                s.pane,
            ) ==> v[i].content == w[i].content),
    ensures
        chosen_text(v, s) == chosen_text(w, s),
{
    if v.len() > 0 {
        lemma_parts_confined(v, w, s, last_row(s, v.len()) + 1);
    }
}

/// A selection dragged the other way round copies the same text.
pub proof fn law_copy_ignores_direction(v: Seq<RowV>, s: Sel)
    ensures
        chosen_text(v, s) == chosen_text(
            v,
            Sel { a_row: s.c_row, a_col: s.c_col, c_row: s.a_row, c_col: s.a_col, ..s },
        ),
{
    let t = Sel { a_row: s.c_row, a_col: s.c_col, c_row: s.a_row, c_col: s.a_col, ..s };
    if v.len() > 0 {
        lemma_parts_direction(v, s, t, last_row(s, v.len()) + 1);
    }
}

pub(crate) proof fn lemma_parts_direction(v: Seq<RowV>, s: Sel, t: Sel, end: int)
    requires
        s.span() == t.span(),
        s.pane == t.pane,
    ensures
        parts(v, s, end) == parts(v, t, end),
    decreases end,
{
    if end > s.span().0 {
        lemma_parts_direction(v, s, t, end - 1);
    }
}

/// The text of a selection.
fn take_text(v: &Vec<Row>, s: Sel) -> (r: String)
    ensures
        r@ == chosen_text(rows::row_views(v@), s),
{
    let ghost rv = rows::row_views(v@);
    if v.len() == 0 {
        return String::new();
    }
    let (sr, sc, er, ec) = s.ordered();
    let last: usize = if er < v.len() - 1 {
        er
    } else {
        v.len() - 1
    };
    let mut lines: Vec<String> = Vec::new();
    assert(text::texts(lines@) =~= Seq::<Seq<char>>::empty());
    if sr > last {
        let r = text::join(&lines, "\n");
        return r;
    }
    let mut r: usize = sr;
    let n = v.len();
    while r <= last
        invariant
            n == v@.len(),
            rv == rows::row_views(v@),
            (sr, sc, er, ec) == s.span(),
            sr <= r <= last + 1,
            last < n,
            last == last_row(s, rv.len()),
            text::texts(lines@) == parts(rv, s, r as int),
        decreases last + 1 - r,
    {
        assert(rv[r as int] == v@[r as int]@);
        if App::row_in_pane(v[r].kind, s.pane) {
            let start: usize = if r == sr {
                sc
            } else {
                0
            };
            let end: usize = if r == last {
                ec
            } else {
                usize::MAX
            };
            let part = cells::slice_cells(&v[r].content, start, end);
            proof {
                text::lemma_texts_push(lines@, part);
            }
            lines.push(part);
        }
        r = r + 1;
    }
    text::join(&lines, "\n")
}

/// How many line feeds a text holds.
pub open spec fn feeds(s: Seq<char>) -> nat
    decreases s.len(),
{
    if s.len() == 0 {
        0
    } else {
        feeds(s.drop_last()) + if s.last() == '\n' {
            1nat
        } else {
            0
        }
    }
}

/// The footer note for a copied text.
pub open spec fn copied_note(s: Seq<char>) -> Seq<char> {
    let n = diff::saturated(feeds(s) + 1);
    "copied "@ + text::dec(n as nat) + " line"@ + if n == 1 {
        ""@
    } else {
        "s"@
    }
}

/// The footer note for a copied text.
pub(crate) fn note_for(s: &str) -> (r: String)
    ensures
        r@ == copied_note(s@),
{
    let v = text::to_chars(s);
    let mut n: usize = 0;
    for i in 0..v.len()
        invariant
            v@ == s@,
            n == feeds(v@.take(i as int)),
            n <= i,
    {
        assert(v@.take(i as int + 1).drop_last() =~= v@.take(i as int));
        if v[i] == '\n' {
            n = n + 1;
        }
    }
    assert(v@.take(v@.len() as int) =~= v@);
    let lines = n.saturating_add(1);
    let mut out = "copied ".to_owned();
    out.push_str(text::decimal(lines).as_str());
    out.push_str(" line");
    if lines == 1 {
        out.push_str("");
    } else {
        out.push_str("s");
    }
    out
}

impl AppV {
    /// What is copied: the selection, or the whole line under the cursor.
    pub open spec fn copy_text(&self) -> Seq<char> {
        match self.ui.sel {
            Some(s) => chosen_text(self.rows(), s),
            None => if self.ui.cursor < self.rows().len() {
                cells::cells_text(
                    self.rows()[self.ui.cursor as int].content,
                    0,
                    usize::MAX as nat,
                )
            } else {
                Seq::empty()
            },
        }
    }

    /// Without a selection.
    pub open spec fn unselected(self) -> AppV {
        AppV { ui: Ui { sel: None, ..self.ui }, ..self }
    }

    /// With a footer note.
    pub open spec fn noted(self, note: Seq<char>, now: u64) -> AppV {
        AppV { flash: Some((note, now)), ..self }
    }

    /// The raw text of the selected file.
    pub open spec fn patch(&self) -> Seq<char> {
        if self.ui.selected < self.raw_files.len() {
            self.raw_files[self.ui.selected as int]
        } else {
            Seq::empty()
        }
    }

    /// The position in the content that a pointer is at.
    pub open spec fn point(&self, x: u16, y: u16, pane: Option<Pane>, share: u16) -> (int, int) {
        let v = self.rows();
        if v.len() == 0 {
            (0, 0)
        } else {
            let row = geometry::lesser(self.ui.scroll + y, v.len() - 1);
            let at = self.frame(share).text_at(v[row].kind, pane);
            let col = geometry::minus(x as int, at) + self.hidden(v[row].kind);
            (row, geometry::lesser(col, v[row].content.len() as int))
        }
    }

    /// How many columns of a row are scrolled out to the left; headers and
    /// notes stay.
    pub open spec fn hidden(&self, kind: RowKind) -> int {
        if geometry::is_code(kind) {
            self.ui.pan as int
        } else {
            0
        }
    }
}

impl App {
    /// Whether a row of `kind` has content in the selection `pane`.
    pub fn row_in_pane(kind: RowKind, pane: Option<Pane>) -> (r: bool)
        ensures
            r == in_pane(kind, pane),
    {
        match pane {
            None => true,
            Some(Pane::Left) => match kind {
                RowKind::Context | RowKind::Remove | RowKind::Hunk | RowKind::Note => true,
                RowKind::Add => false,
            },
            Some(Pane::Right) => match kind {
                RowKind::Context | RowKind::Add | RowKind::Hunk | RowKind::Note => true,
                RowKind::Remove => false,
            },
        }
    }

    /// The text of a selection.
    pub fn selection_text(&self, sel: Sel) -> (r: String)
        ensures
            r@ == chosen_text(self@.rows(), sel),
    {
        match self.rows() {
            Some(v) => take_text(v, sel),
            None => String::new(),
        }
    }

    /// What is copied: the selection, or the whole line under the cursor.
    fn text_to_copy(&self) -> (r: String)
        ensures
            r@ == self@.copy_text(),
    {
        match self.ui().sel {
            Some(s) => self.selection_text(s),
            None => match self.rows() {
                Some(v) => if self.ui().cursor < v.len() {
                    assert(rows::row_views(v@)[self@.ui.cursor as int]
                        == v@[self@.ui.cursor as int]@);
                    cells::slice_cells(&v[self.ui().cursor].content, 0, usize::MAX)
                } else {
                    String::new()
                },
                None => String::new(),
            },
        }
    }

    /// Set a transient footer note stamped with the current time.
    pub fn set_flash(&mut self, msg: String, now: u64)
        ensures
            final(self)@ == old(self)@.noted(msg@, now),
            final(self).setup == old(self).setup,
    {
        self.flash = Some((msg, now));
    }

    /// Copy the selection, or the whole line under the cursor when nothing is
    /// selected. The text comes from the row model, not the screen, so a
    /// selection taller than the viewport still copies in full, without the
    /// line-number gutter or the signs. The selection is gone afterwards.
    pub fn yank(&mut self, now: u64) -> (r: Option<String>)
        ensures
            match r {
                Some(t) => t@ == old(self)@.copy_text() && t@.len() > 0 && final(self)@ == old(
                    self,
                )@.unselected().noted(copied_note(t@), now),
                None => old(self)@.copy_text().len() == 0 && final(self)@ == old(
                    self,
                )@.unselected(),
            },
            final(self).setup == old(self).setup,
    {
        let t = self.text_to_copy();
        self.set_ui(Ui { sel: None, ..self.ui() });
        let n = text::to_chars(t.as_str()).len();
        if n == 0 {
            return None;
        }
        let note = note_for(t.as_str());
        self.set_flash(note, now);
        Some(t)
    }

    /// Copy the selected file's raw unified diff (exactly as git produced it).
    pub fn yank_file(&mut self, now: u64) -> (r: Option<String>)
        ensures
            match r {
                Some(t) => t@ == old(self)@.patch() && t@.len() > 0 && final(self)@ == old(
                    self,
                )@.noted("copied file diff"@, now),
                None => old(self)@.patch().len() == 0 && final(self)@ == old(self)@,
            },
            final(self).setup == old(self).setup,
    {
        assert(self@.raw_files.len() == self.raw_files@.len());
        let sel = self.ui().selected;
        if sel >= self.raw_files.len() {
            return None;
        }
        assert(self@.raw_files[sel as int] == self.raw_files@[sel as int]@);
        let t = self.raw_files[sel].clone();
        if text::to_chars(t.as_str()).len() == 0 {
            return None;
        }
        self.set_flash("copied file diff".to_owned(), now);
        Some(t)
    }

    /// Map a pointer at screen (x, y) to a (row, content-column) position.
    /// `pane` selects the split half; in unified view pass `None`. The column
    /// is a cell index into the row's content.
    pub fn point_to_content(&self, x: u16, y: u16, pane: Option<Pane>, share: u16) -> (r: (
        usize,
        usize,
    ))
        requires
            self@.rows().len() > 0 && pane == Some(Pane::Right) ==> self@.frame(share).body_w()
                >= 5,
        ensures
            (r.0 as int, r.1 as int) == self@.point(x, y, pane, share),
    {
        let n = self.row_count();
        if n == 0 {
            return (0, 0);
        }
        let sum = self.ui().scroll.saturating_add(y as usize);
        let row: usize = if sum < n - 1 {
            sum
        } else {
            n - 1
        };
        let kind = self.kind_at(row);
        let at = self.frame(share).pane_geom(kind, pane);
        let len = self.cells_at(row);
        let hidden: usize = if geometry::code(kind) {
            self.ui().pan
        } else {
            0
        };
        let col = (x as usize).saturating_sub(at).saturating_add(hidden);
        (
            row,
            if col < len {
                col
            } else {
                len
            },
        )
    }
}

proof fn lemma_parts_end_col(v: Seq<RowV>, s: Sel, t: Sel, end: int)
    requires
        s.pane == t.pane,
        s.span().0 == t.span().0,
        s.span().1 == t.span().1,
        end <= v.len(),
        end <= last_row(s, v.len()),
        end <= last_row(t, v.len()),
    ensures
        parts(v, s, end) == parts(v, t, end),
    decreases end,
{
    if end > s.span().0 {
        lemma_parts_end_col(v, s, t, end - 1);
    }
}

proof fn lemma_parts_whole(v: Seq<RowV>, s: Sel, end: int)
    requires
        s.pane is None,
        s.span().0 <= end <= last_row(s, v.len()) + 1,
        0 <= last_row(s, v.len()) < v.len(),
    ensures
        parts(v, s, end) == Seq::new(
            (end - s.span().0) as nat,
            |k: int|
                cells::cells_text(
                    v[s.span().0 + k].content,
                    if k == 0 {
                        s.span().1 as nat
                    } else {
                        0
                    },
                    if s.span().0 + k == last_row(s, v.len()) {
                        s.span().3 as nat
                    } else {
                        usize::MAX as nat
                    },
                ),
        ),
    decreases end,
{
    let (r0, c0, r1, c1) = s.span();
    let last = last_row(s, v.len());
    let f = |k: int|
        cells::cells_text(
            v[r0 + k].content,
            if k == 0 {
                c0 as nat
            } else {
                0
            },
            if r0 + k == last {
                c1 as nat
            } else {
                usize::MAX as nat
            },
        );
    if end > r0 {
        lemma_parts_whole(v, s, end - 1);
    }
    assert(parts(v, s, end) =~= Seq::new((end - r0) as nat, f));
}

/// A selection from (`r0`, `c0`) to (`r1`, `c1`) in the unified view copies a
/// line for each of its rows. The first row loses its first `c0` columns, the
/// last what lies behind column `c1`, and every row between them is whole.
pub proof fn law_rows_between_are_whole(v: Seq<RowV>, s: Sel)
    requires
        s.pane is None,
        s.span().0 < s.span().2 < v.len(),
    ensures
        ({
            let (r0, c0, r1, c1) = s.span();
            chosen_text(v, s) == text::joined(
                Seq::new(
                    (r1 - r0 + 1) as nat,
                    |k: int|
                        if k == 0 {
                            cells::cells_text(v[r0 as int].content, c0 as nat, usize::MAX as nat)
                        } else if k < r1 - r0 {
                            cells::cells_text(v[r0 + k].content, 0, usize::MAX as nat)
                        } else {
                            cells::cells_text(v[r1 as int].content, 0, c1 as nat)
                        },
                ),
                "\n"@,
            )
        }),
{
    let (r0, c0, r1, c1) = s.span();
    lemma_parts_whole(v, s, r1 + 1);
    assert(parts(v, s, r1 + 1) =~= Seq::new(
        (r1 - r0 + 1) as nat,
        |k: int|
            if k == 0 {
                cells::cells_text(v[r0 as int].content, c0 as nat, usize::MAX as nat)
            } else if k < r1 - r0 {
                cells::cells_text(v[r0 + k].content, 0, usize::MAX as nat)
            } else {
                cells::cells_text(v[r1 as int].content, 0, c1 as nat)
            },
    ));
}

/// A selection within one row copies its columns, if the row is in its pane.
pub proof fn law_selection_within_a_row(v: Seq<RowV>, s: Sel)
    requires
        s.span().0 == s.span().2,
        s.span().0 < v.len(),
    ensures
        chosen_text(v, s) == if in_pane(v[s.span().0 as int].kind, s.pane) {
            cells::cells_text(
                v[s.span().0 as int].content,
                s.span().1 as nat,
                s.span().3 as nat,
            )
        } else {
            Seq::empty()
        },
{
    reveal_with_fuel(parts, 2);
}

/// A selection that reaches one row further down copies one line more: what it
/// copied before, with its last row now whole, and the new row up to its end
/// column. A row that is not in the pane adds nothing.
pub proof fn law_selection_grows_by_rows(v: Seq<RowV>, s: Sel, t: Sel)
    requires
        s.pane == t.pane,
        s.span().0 == t.span().0,
        s.span().1 == t.span().1,
        s.span().3 == usize::MAX,
        s.span().2 + 1 == t.span().2,
        t.span().2 < v.len(),
    ensures
        !in_pane(v[t.span().2 as int].kind, t.pane) ==> chosen_text(v, t) == chosen_text(v, s),
        in_pane(v[t.span().2 as int].kind, t.pane) && (exists|r: int|
            s.span().0 <= r <= s.span().2 && in_pane((#[trigger] v[r]).kind, s.pane))
            ==> chosen_text(v, t) == chosen_text(v, s) + "\n"@ + cells::cells_text(
            v[t.span().2 as int].content,
            0,
            t.span().3 as nat,
        ),
        in_pane(v[t.span().2 as int].kind, t.pane) && !(exists|r: int|
            s.span().0 <= r <= s.span().2 && in_pane((#[trigger] v[r]).kind, s.pane))
            ==> chosen_text(v, t) == cells::cells_text(
            v[t.span().2 as int].content,
            0,
            t.span().3 as nat,
        ),
{
    let n = s.span().2 as int;
    lemma_parts_end_col(v, s, t, n);
    let a = parts(v, s, n + 1);
    assert(parts(v, t, n + 1) =~= a);
    lemma_parts_some(v, s, n + 1);
    let part = cells::cells_text(v[n + 1].content, 0, t.span().3 as nat);
    assert(row_part(v, t, n + 1) == part);
    assert(a.push(part).drop_last() =~= a);
    if a.len() == 0 {
        assert(a.push(part) =~= seq![part]);
    }
}

proof fn lemma_parts_some(v: Seq<RowV>, s: Sel, end: int)
    ensures
        parts(v, s, end).len() > 0 <==> exists|r: int|
            s.span().0 <= r < end && in_pane((#[trigger] v[r]).kind, s.pane),
    decreases end,
{
    if end > s.span().0 {
        lemma_parts_some(v, s, end - 1);
        if in_pane(v[end - 1].kind, s.pane) {
            assert(in_pane(v[end - 1].kind, s.pane));
        } else if exists|r: int| s.span().0 <= r < end && in_pane((#[trigger] v[r]).kind, s.pane) {
            let r = choose|r: int|
                s.span().0 <= r < end && in_pane((#[trigger] v[r]).kind, s.pane);
            assert(r < end - 1);
        }
    }
}

/// A selection in the left pane copies no added line, and one in the right
/// pane no removed line; every other row belongs to both.
pub proof fn law_panes_hold_their_side(kind: RowKind)
    ensures
        in_pane(kind, Some(Pane::Left)) <==> kind != RowKind::Add,
        in_pane(kind, Some(Pane::Right)) <==> kind != RowKind::Remove,
        in_pane(kind, None),
{
}

/// A selection that ends behind the last row ends in the last row.
pub proof fn law_selection_stops_at_last_row(v: Seq<RowV>, s: Sel, t: Sel)
    requires
        v.len() > 0,
        s.pane == t.pane,
        s.span().0 == t.span().0,
        s.span().1 == t.span().1,
        s.span().3 == t.span().3,
        s.span().2 >= v.len(),
        t.span().2 == v.len() - 1,
    ensures
        chosen_text(v, s) == chosen_text(v, t),
{
    let n = v.len() - 1;
    lemma_parts_end_col(v, s, t, n);
    assert(parts(v, s, n + 1) =~= parts(v, t, n + 1));
}

proof fn lemma_feeds_add(a: Seq<char>, b: Seq<char>)
    ensures
        feeds(a + b) == feeds(a) + feeds(b),
    decreases b.len(),
{
    if b.len() == 0 {
        assert(a + b =~= a);
    } else {
        assert((a + b).drop_last() =~= a + b.drop_last());
        lemma_feeds_add(a, b.drop_last());
    }
}

/// The note counts the copied lines: as many as were joined, where none of
/// them holds a line feed itself.
pub proof fn law_note_counts_lines(v: Seq<Seq<char>>)
    requires
        v.len() > 0,
        forall|i: int| 0 <= i < v.len() ==> !(#[trigger] v[i]).contains('\n'),
    ensures
        feeds(text::joined(v, "\n"@)) + 1 == v.len(),
    decreases v.len(),
{
    assert(!v[v.len() - 1].contains('\n'));
    lemma_no_feeds(v.last());
    if v.len() > 1 {
        reveal_strlit("\n");
        assert forall|i: int| 0 <= i < v.len() - 1 implies !(#[trigger] v.drop_last()[i]).contains(
            '\n',
        ) by {
            assert(!v[i].contains('\n'));
        }
        law_note_counts_lines(v.drop_last());
        let before = text::joined(v.drop_last(), "\n"@);
        lemma_feeds_add(before + "\n"@, v.last());
        assert((before + "\n"@).drop_last() =~= before);
    }
}

proof fn lemma_no_feeds(s: Seq<char>)
    requires
        !s.contains('\n'),
    ensures
        feeds(s) == 0,
    decreases s.len(),
{
    if s.len() > 0 {
        assert(s[s.len() - 1] != '\n');
        assert forall|i: int| 0 <= i < s.len() - 1 implies s.drop_last()[i] != '\n' by {
            assert(s[i] != '\n');
        }
        lemma_no_feeds(s.drop_last());
    }
}

/// The note of a copy says how many lines were copied.
pub proof fn law_copied_note(s: Seq<char>)
    requires
        feeds(s) < usize::MAX,
    ensures
        feeds(s) == 0 ==> copied_note(s) == "copied "@ + text::dec(1) + " line"@,
        feeds(s) > 0 ==> copied_note(s) == "copied "@ + text::dec(feeds(s) + 1) + " lines"@,
{
    reveal_strlit("");
    reveal_strlit("s");
    reveal_strlit(" line");
    reveal_strlit(" lines");
    let head = "copied "@ + text::dec(feeds(s) + 1);
    assert(""@ =~= Seq::<char>::empty());
    assert(head + " line"@ + ""@ =~= head + " line"@);
    assert(head + " line"@ + "s"@ =~= head + " lines"@);
}

/// The ends of a selection are its anchor and the pointer's place, the one
/// that comes first in reading order first.
pub proof fn law_ends_are_in_reading_order(s: Sel)
    ensures
        ({
            let (r0, c0, r1, c1) = s.span();
            &&& r0 < r1 || r0 == r1 && c0 <= c1
            &&& (r0, c0) == (s.a_row, s.a_col) && (r1, c1) == (s.c_row, s.c_col) || (r0, c0) == (
                s.c_row,
                s.c_col,
            ) && (r1, c1) == (s.a_row, s.a_col)
        }),
{
}

} // verus!
