//! Where things stand on the screen: the diff body, the sidebar beside it,
//! the panes of the split view and the footer below.
use crate::rows::RowKind;
use vstd::prelude::*;

verus! {

/// Which line-number gutter a row draws: both columns (unified), or just the
/// old or new side (each pane of the split view).
#[derive(Debug, Clone, Copy, PartialEq, Eq, Structural)]
pub enum Gut {
    Both,
    Old,
    New,
}

/// Which split pane a selection lives in. Selection is confined to one pane at
/// a time since the two sides have independent reading orders.
#[derive(Debug, Clone, Copy, PartialEq, Eq, Structural)]
pub enum Pane {
    Left,
    Right,
}

/// The smaller of two numbers.
pub open spec fn lesser(a: int, b: int) -> int {
    if a <= b {
        a
    } else {
        b
    }
}

/// `n`, moved into `[lo, hi]`.
pub open spec fn clamped(n: int, lo: int, hi: int) -> int {
    if n < lo {
        lo
    } else if n > hi {
        hi
    } else {
        n
    }
}

/// `a - b`, but not below 0.
pub open spec fn minus(a: int, b: int) -> int {
    if a >= b {
        a - b
    } else {
        0
    }
}

/// `n` moved into `[lo, hi]`.
pub fn clamp(n: u16, lo: u16, hi: u16) -> (r: u16)
    ensures
        r == clamped(n as int, lo as int, hi as int),
{
    if n < lo {
        lo
    } else if n > hi {
        hi
    } else {
        n
    }
}

/// Everything that the layout depends on.
#[derive(Debug, Clone, Copy, PartialEq, Eq, Structural)]
pub struct Frame {
    /// The columns of the screen.
    pub width: u16,
    /// The rows of the screen.
    pub height: u16,
    /// Whether line numbers are shown.
    pub line_numbers: bool,
    /// Whether the sidebar is showing.
    pub sidebar: bool,
    /// Whether the sidebar is on the left.
    pub sidebar_left: bool,
    /// The columns that the sidebar should have.
    pub sidebar_want: usize,
    /// The rows of the help grid, 0 when it is closed.
    pub help_rows: usize,
    /// The columns that the left pane should have in the split view.
    pub share: u16,
}

/// Half the screen, the most that a sidebar takes.
pub open spec fn half(width: u16) -> int {
    width as int / 2
}

/// The least that a sidebar takes: 8 columns, or half of a narrow screen.
pub open spec fn least_side(width: u16) -> int {
    lesser(8, half(width))
}

/// The columns of the left pane of a split body: `share`, with at least 2
/// columns on each side of the divider.
pub open spec fn left_share(width: int, share: int) -> int {
    clamped(share, 2, width - 3)
}

impl Frame {
    /// The rows above the footer.
    pub open spec fn body_rows(&self) -> int {
        minus(self.height as int, 1 + self.help_rows)
    }

    /// The columns of the sidebar with its divider, 0 when it is hidden.
    pub open spec fn side_w(&self) -> int {
        if self.sidebar {
            clamped(
                (self.sidebar_want as u16) as int,
                least_side(self.width),
                half(self.width),
            )
        } else {
            0
        }
    }

    /// The columns of the diff body.
    pub open spec fn body_w(&self) -> int {
        minus(self.width as int, self.side_w())
    }

    /// The first column of the diff body.
    pub open spec fn body_at(&self) -> int {
        if self.sidebar_left {
            self.side_w()
        } else {
            0
        }
    }

    /// The column of the sidebar's divider, on the edge that faces the body.
    pub open spec fn side_edge(&self) -> int {
        if self.sidebar_left {
            minus(self.side_w(), 1)
        } else {
            minus(self.width as int, self.side_w())
        }
    }

    /// The columns that the sidebar should have when its divider follows
    /// column `x`: at least 8, but never more than half the screen.
    pub open spec fn dragged_to(&self, x: u16) -> int {
        clamped(
            if self.sidebar_left {
                x + 1
            } else {
                minus(self.width as int, x as int)
            },
            least_side(self.width),
            half(self.width),
        )
    }

    /// Whether a column lies in the sidebar.
    pub open spec fn beside_body(&self, x: int) -> bool {
        self.side_w() > 0 && if self.sidebar_left {
            x < self.side_w()
        } else {
            x >= self.width - self.side_w()
        }
    }

    /// The column of the divider between the panes.
    pub open spec fn split_edge(&self) -> int {
        self.body_at() + left_share(self.body_w(), self.share as int)
    }

    /// The columns of the line-number gutter.
    pub open spec fn gutter(&self, gut: Gut) -> int {
        if !self.line_numbers {
            0
        } else {
            match gut {
                Gut::Both => 9,
                _ => 5,
            }
        }
    }

    /// Where a row's content begins, behind the gutter and the sign.
    pub open spec fn content_at(&self, kind: RowKind, gut: Gut) -> int {
        self.gutter(gut) + if is_code(kind) {
            1int
        } else {
            0
        }
    }

    /// The pane that a column lies in; the divider is in neither.
    pub open spec fn pane_of(&self, x: int) -> Option<Pane> {
        if x < self.split_edge() {
            Some(Pane::Left)
        } else if x > self.split_edge() {
            Some(Pane::Right)
        } else {
            None
        }
    }

    /// The column where the content of a row begins, as a selection in `pane`
    /// sees it. Headers and notes span the body, so they begin at its edge.
    pub open spec fn text_at(&self, kind: RowKind, pane: Option<Pane>) -> int {
        if pane is None || !is_code(kind) {
            self.body_at() + self.content_at(kind, Gut::Both)
        } else if pane == Some(Pane::Left) {
            self.body_at() + self.content_at(kind, Gut::Old)
        } else {
            self.split_edge() + 1 + self.content_at(kind, Gut::New)
        }
    }

    /// The columns that are left for content: of the body, or of the narrower
    /// pane in the split view. None where there is no room at all.
    pub open spec fn text_w(&self, split: bool) -> int {
        if split && self.body_w() < 5 {
            0
        } else if split {
            let left = left_share(self.body_w(), self.share as int);
            minus(lesser(left, self.body_w() - left - 1), self.content_at(RowKind::Context, Gut::Old))
        } else {
            minus(self.body_w(), self.content_at(RowKind::Context, Gut::Both))
        }
    }

    /// The rows above the footer.
    pub fn viewport_rows(&self) -> (r: usize)
        ensures
            r == self.body_rows(),
            r <= self.height,
            self.height > 0 ==> r < self.height,
    {
        (self.height as usize).saturating_sub(self.chrome_h())
    }

    /// The rows reserved at the bottom: the footer bar, plus the help grid
    /// when it is open.
    pub fn chrome_h(&self) -> (r: usize)
        ensures
            r == lesser(1 + self.help_rows, usize::MAX as int),
    {
        self.help_rows.saturating_add(1)
    }

    /// Sidebar width in cells (including its 1-cell divider), 0 when hidden.
    /// It never takes more than half the screen.
    pub fn sidebar_w(&self) -> (r: u16)
        ensures
            r == self.side_w(),
            r <= self.width / 2,
            self.width >= 4 ==> (r == 0 <==> !self.sidebar),
    {
        if !self.sidebar {
            return 0;
        }
        let max: u16 = self.width / 2;
        let min: u16 = if 8 < max {
            8
        } else {
            max
        };
        clamp(
            #[verifier::truncate]
            (self.sidebar_want as u16),
            min,
            max,
        )
    }

    /// The columns of the diff body.
    pub fn body_width(&self) -> (r: u16)
        ensures
            r == self.body_w(),
            r <= self.width,
            r >= self.width / 2,
    {
        self.width.saturating_sub(self.sidebar_w())
    }

    /// Screen column of the sidebar's resize divider (the edge facing the
    /// body).
    pub fn divider_x(&self) -> (r: u16)
        ensures
            r == self.side_edge(),
    {
        let sw = self.sidebar_w();
        if self.sidebar_left {
            sw.saturating_sub(1)
        } else {
            self.width.saturating_sub(sw)
        }
    }

    /// The sidebar width that brings its divider to screen column `x`.
    pub fn resized_sidebar(&self, x: u16) -> (r: usize)
        ensures
            r == self.dragged_to(x),
    {
        let want: usize = if self.sidebar_left {
            x as usize + 1
        } else {
            (self.width as usize).saturating_sub(x as usize)
        };
        let max: usize = (self.width / 2) as usize;
        let min: usize = if 8 < max {
            8
        } else {
            max
        };
        if want < min {
            min
        } else if want > max {
            max
        } else {
            want
        }
    }

    /// Left pane width (cells) of a split body of total `width`, with at least
    /// 2 cells on each side of the divider.
    pub fn split_left_w(&self, width: u16) -> (r: u16)
        requires
            width >= 5,
        ensures
            r == left_share(width as int, self.share as int),
            2 <= r <= width - 3,
    {
        clamp(self.share, 2, width - 3)
    }

    /// Screen column of the split divider.
    pub fn split_div_x(&self) -> (r: u16)
        requires
            self.body_w() >= 5,
        ensures
            r == self.split_edge(),
            r + 3 <= self.width,
    {
        let bw = self.body_width();
        self.body_x() + self.split_left_w(bw)
    }

    /// The columns of the left pane, and of both panes, when the split divider
    /// follows screen column `x`. `None` where the body is too narrow.
    pub fn resized_split(&self, x: u16) -> (r: Option<(u16, u16)>)
        ensures
            match r {
                Some((left, inner)) => self.body_w() >= 5 && inner == self.body_w() - 1 && left
                    == clamped(minus(x as int, self.body_at()), 2, self.body_w() - 3),
                None => self.body_w() < 5,
            },
    {
        let inner = self.body_width().saturating_sub(1);
        if inner < 4 {
            return None;
        }
        let left = clamp(x.saturating_sub(self.body_x()), 2, inner - 2);
        Some((left, inner))
    }

    /// Screen x where the diff body begins (right of a left sidebar).
    pub fn body_x(&self) -> (r: u16)
        ensures
            r == self.body_at(),
            r + self.body_w() <= self.width,
    {
        if self.sidebar_left {
            self.sidebar_w()
        } else {
            0
        }
    }

    /// True when screen column `x` falls inside the sidebar (either side).
    pub fn in_sidebar(&self, x: u16) -> (r: bool)
        ensures
            r == self.beside_body(x as int),
    {
        let sw = self.sidebar_w();
        if sw == 0 {
            return false;
        }
        if self.sidebar_left {
            x < sw
        } else {
            x >= self.width - sw
        }
    }

    /// Width of the line-number gutter for a pane.
    pub fn gutter_w(&self, gut: Gut) -> (r: u16)
        ensures
            r == self.gutter(gut),
            r <= 9,
    {
        if !self.line_numbers {
            0
        } else {
            match gut {
                Gut::Both => 9,
                Gut::Old | Gut::New => 5,
            }
        }
    }

    /// Screen column, within a pane, where a row's content begins: after the
    /// gutter and the one-column sign (hunk and note rows have no sign).
    pub fn content_start(&self, kind: RowKind, gut: Gut) -> (r: u16)
        ensures
            r == self.content_at(kind, gut),
            r <= 10,
    {
        self.gutter_w(gut) + if code(kind) {
            1
        } else {
            0
        }
    }

    /// Which split pane screen column `x` falls in (left/right of the
    /// divider). The divider column itself belongs to neither.
    pub fn pane_at(&self, x: u16) -> (r: Option<Pane>)
        requires
            self.body_w() >= 5,
        ensures
            r == self.pane_of(x as int),
    {
        let div = self.split_div_x();
        if x < div {
            Some(Pane::Left)
        } else if x > div {
            Some(Pane::Right)
        } else {
            None
        }
    }

    /// The column where the content of a row begins under a selection pane.
    pub fn pane_geom(&self, kind: RowKind, pane: Option<Pane>) -> (r: usize)
        requires
            pane == Some(Pane::Right) ==> self.body_w() >= 5,
        ensures
            r == self.text_at(kind, pane),
            r <= self.width + 10,
    {
        let bx = self.body_x() as usize;
        if !code(kind) {
            return bx + self.content_start(kind, Gut::Both) as usize;
        }
        match pane {
            None => bx + self.content_start(kind, Gut::Both) as usize,
            Some(Pane::Left) => bx + self.content_start(kind, Gut::Old) as usize,
            Some(Pane::Right) => self.split_div_x() as usize + 1 + self.content_start(
                kind,
                Gut::New,
            ) as usize,
        }
    }

    /// The columns that are left for content.
    pub fn text_width(&self, split: bool) -> (r: u16)
        ensures
            r == self.text_w(split),
    {
        let bw = self.body_width();
        if split && bw < 5 {
            0
        } else if split {
            let left = self.split_left_w(bw);
            let right: u16 = bw - left - 1;
            let w = if left <= right {
                left
            } else {
                right
            };
            w.saturating_sub(self.content_start(RowKind::Context, Gut::Old))
        } else {
            bw.saturating_sub(self.content_start(RowKind::Context, Gut::Both))
        }
    }
}

/// Whether a row shows a line of the file, behind a sign.
pub open spec fn is_code(kind: RowKind) -> bool {
    kind == RowKind::Add || kind == RowKind::Remove || kind == RowKind::Context
}

/// Whether a row shows a line of the file, behind a sign.
pub fn code(kind: RowKind) -> (r: bool)
    ensures
        r == is_code(kind),
{
    match kind {
        RowKind::Add | RowKind::Remove | RowKind::Context => true,
        RowKind::Hunk | RowKind::Note => false,
    }
}

/// Sidebar and body share the screen: no column lies in both, and together
/// they are as wide as the screen.
pub proof fn law_sidebar_beside_body(f: Frame, x: int)
    requires
        0 <= x < f.width,
    ensures
        f.side_w() + f.body_w() == f.width,
        f.beside_body(x) <==> !(f.body_at() <= x < f.body_at() + f.body_w()),
        f.sidebar && f.width >= 2 ==> f.beside_body(f.side_edge()),
{
}

/// The sidebar never takes more than half the screen, however narrow that is,
/// and it is to be seen on every screen that has room for it and its divider.
pub proof fn law_sidebar_at_most_half(f: Frame)
    ensures
        0 <= f.side_w() <= half(f.width),
        f.body_w() >= half(f.width),
        f.sidebar && f.width >= 4 ==> f.side_w() >= 2,
        !f.sidebar ==> f.side_w() == 0,
{
}

/// The divider and the two panes share the body, and each pane has at least 2
/// columns.
pub proof fn law_panes_share_body(f: Frame, x: int)
    requires
        f.body_w() >= 5,
        f.body_at() <= x < f.body_at() + f.body_w(),
    ensures
        f.body_at() + 2 <= f.split_edge() <= f.body_at() + f.body_w() - 3,
        f.pane_of(x) is None <==> x == f.split_edge(),
{
}

/// A sidebar that is resized to a column has its divider there, as long as
/// it keeps its least columns and at most half of the screen.
pub proof fn law_sidebar_follows_pointer(f: Frame, x: u16, want: usize)
    requires
        f.sidebar,
        want == f.dragged_to(x),
        f.sidebar_left ==> least_side(f.width) <= x + 1 <= half(f.width),
        !f.sidebar_left ==> least_side(f.width) <= f.width - x <= half(f.width),
    ensures
        (Frame { sidebar_want: want, ..f }).side_edge() == x,
{
    assert(want <= 0xffff);
    assert(want as u16 == want);
}

/// A split that is resized to a column has its divider there, as long as each
/// pane keeps 2 columns.
pub proof fn law_split_follows_pointer(f: Frame, x: u16, left: u16)
    requires
        f.body_w() >= 5,
        left == clamped(minus(x as int, f.body_at()), 2, f.body_w() - 3),
        f.body_at() + 2 <= x <= f.body_at() + f.body_w() - 3,
    ensures
        (Frame { share: left, ..f }).split_edge() == x,
{
}

} // verus!
