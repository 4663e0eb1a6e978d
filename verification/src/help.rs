//! The quick-help grid below the footer.
use crate::cells;
use crate::cells::Metrics;
use vstd::prelude::*;

verus! {

/// The keys and what they do, as the help grid shows them.
#[verifier::opaque]
pub open spec fn help_texts() -> Seq<(Seq<char>, Seq<char>)> {
    seq![
        ("j/k ↑/↓"@, "move"@),
        ("h/l ←/→"@, "scroll sideways"@),
        ("0/$"@, "line start/end"@),
        ("d/u ^d/^u"@, "half page"@),
        ("space/b ^f/^b"@, "full page"@),
        ("^e/^y"@, "scroll line"@),
        ("g/G"@, "top/bottom"@),
        ("H/M/L"@, "screen top/mid/bottom"@),
        ("{ }"@, "prev/next hunk"@),
        ("[ ]"@, "prev/next file"@),
        ("tab"@, "cycle files"@),
        ("/"@, "search"@),
        ("n/N"@, "next/prev match"@),
        ("s"@, "split view"@),
        ("F"@, "files"@),
        ("B"@, "sidebar"@),
        ("w"@, "watch on/off"@),
        ("enter"@, "expand/open file"@),
        ("v"@, "edit in $EDITOR"@),
        ("y"@, "copy line/selection"@),
        ("Y"@, "copy file diff"@),
        ("r"@, "refresh"@),
        ("?"@, "toggle help"@),
        ("q"@, "quit"@),
    ]
}

/// The keys and descriptions of entries.
pub open spec fn entry_views(v: Seq<(&'static str, &'static str)>) -> Seq<(Seq<char>, Seq<char>)> {
    v.map_values(|e: (&'static str, &'static str)| (e.0@, e.1@))
}

fn entry(v: &mut Vec<(&'static str, &'static str)>, key: &'static str, what: &'static str)
    ensures
        entry_views(final(v)@) == entry_views(old(v)@).push((key@, what@)),
{
    v.push((key, what));
    assert(entry_views(v@) =~= entry_views(old(v)@).push((key@, what@)));
}

/// The quick-help entries shown in the expandable footer grid.
pub fn help_entries() -> (r: Vec<(&'static str, &'static str)>)
    ensures
        entry_views(r@) == help_texts(),
        r@.len() == 24,
{
    reveal(help_texts);
    let mut v: Vec<(&'static str, &'static str)> = Vec::new();
    assert(entry_views(v@) =~= Seq::<(Seq<char>, Seq<char>)>::empty());
    entry(&mut v, "j/k ↑/↓", "move");
    entry(&mut v, "h/l ←/→", "scroll sideways");
    entry(&mut v, "0/$", "line start/end");
    entry(&mut v, "d/u ^d/^u", "half page");
    entry(&mut v, "space/b ^f/^b", "full page");
    entry(&mut v, "^e/^y", "scroll line");
    entry(&mut v, "g/G", "top/bottom");
    entry(&mut v, "H/M/L", "screen top/mid/bottom");
    entry(&mut v, "{ }", "prev/next hunk");
    entry(&mut v, "[ ]", "prev/next file");
    entry(&mut v, "tab", "cycle files");
    entry(&mut v, "/", "search");
    entry(&mut v, "n/N", "next/prev match");
    entry(&mut v, "s", "split view");
    entry(&mut v, "F", "files");
    entry(&mut v, "B", "sidebar");
    entry(&mut v, "w", "watch on/off");
    entry(&mut v, "enter", "expand/open file");
    entry(&mut v, "v", "edit in $EDITOR");
    entry(&mut v, "y", "copy line/selection");
    entry(&mut v, "Y", "copy file diff");
    entry(&mut v, "r", "refresh");
    entry(&mut v, "?", "toggle help");
    entry(&mut v, "q", "quit");
    v
}

/// The columns of an entry: its key, two blanks, its description.
pub open spec fn entry_w(e: (Seq<char>, Seq<char>), m: Metrics) -> nat {
    cells::text_width(e.0, m) + 2 + cells::text_width(e.1, m)
}

/// The columns of the widest entry.
pub open spec fn widest_entry(v: Seq<(Seq<char>, Seq<char>)>, m: Metrics) -> nat
    decreases v.len(),
{
    if v.len() == 0 {
        0
    } else {
        let w = widest_entry(v.drop_last(), m);
        if entry_w(v.last(), m) > w {
            entry_w(v.last(), m)
        } else {
            w
        }
    }
}

/// The columns of the widest key.
pub open spec fn widest_key(v: Seq<(Seq<char>, Seq<char>)>, m: Metrics) -> nat
    decreases v.len(),
{
    if v.len() == 0 {
        0
    } else {
        let w = widest_key(v.drop_last(), m);
        if cells::text_width(v.last().0, m) > w {
            cells::text_width(v.last().0, m)
        } else {
            w
        }
    }
}

/// `n` entries in columns of `cell` cells on `width` columns of screen: how
/// many columns and rows of entries, and the cells of a column.
pub open spec fn packed(n: int, cell: int, width: int) -> (int, int, int) {
    let fit = (if width > 0 {
        width - 1
    } else {
        0
    }) / cell;
    let cols = if fit < 1 {
        1
    } else if fit > n {
        n
    } else {
        fit
    };
    (cols, (n + cols - 1) / cols, cell)
}

/// The help grid on a screen: its columns, its rows and the cells of a
/// column.
pub open spec fn grid_of(width: u16, m: Metrics) -> (int, int, int) {
    packed(help_texts().len() as int, (widest_entry(help_texts(), m) + 3) as int, width as int)
}

/// The columns of the widest entry.
fn measure_entries(v: &Vec<(&'static str, &'static str)>, m: Metrics) -> (r: usize)
    ensures
        r == widest_entry(entry_views(v@), m),
        r <= 0x20000,
{
    let ghost e = entry_views(v@);
    let mut w: usize = 0;
    for i in 0..v.len()
        invariant
            e == entry_views(v@),
            w == widest_entry(e.take(i as int), m),
            w <= 0x20000,
    {
        assert(e.take(i as int + 1).drop_last() =~= e.take(i as int));
        assert(e[i as int] == (v@[i as int].0@, v@[i as int].1@));
        let n: usize = cells::str_width(v[i].0, m) as usize + 2 + cells::str_width(v[i].1, m) as usize;
        if n > w {
            w = n;
        }
    }
    assert(e.take(e.len() as int) =~= e);
    w
}

/// The columns of the widest key.
pub fn measure_keys(v: &Vec<(&'static str, &'static str)>, m: Metrics) -> (r: u16)
    ensures
        r == widest_key(entry_views(v@), m),
{
    let ghost e = entry_views(v@);
    let mut w: u16 = 0;
    for i in 0..v.len()
        invariant
            e == entry_views(v@),
            w == widest_key(e.take(i as int), m),
    {
        assert(e.take(i as int + 1).drop_last() =~= e.take(i as int));
        assert(e[i as int] == (v@[i as int].0@, v@[i as int].1@));
        let n = cells::str_width(v[i].0, m);
        if n > w {
            w = n;
        }
    }
    assert(e.take(e.len() as int) =~= e);
    w
}

/// Pack entries into as many columns as fit the screen.
pub fn pack(n: usize, cell: usize, width: u16) -> (r: (usize, usize, usize))
    requires
        0 < n <= 0xffff,
        cell > 0,
    ensures
        (r.0 as int, r.1 as int, r.2 as int) == packed(n as int, cell as int, width as int),
        1 <= r.0 <= n,
        1 <= r.1 <= n,
{
    let fit: usize = (width as usize).saturating_sub(1) / cell;
    let cols: usize = if fit < 1 {
        1
    } else if fit > n {
        n
    } else {
        fit
    };
    let rows: usize = (n + cols - 1) / cols;
    proof {
        vstd::arithmetic::div_mod::lemma_fundamental_div_mod((n + cols - 1) as int, cols as int);
        assert(1 <= rows <= n) by (nonlinear_arith)
            requires
                rows == (n + cols - 1) / (cols as int),
                1 <= cols <= n,
        ;
    }
    (cols, rows, cell)
}

/// Grid geometry for the help footer: (columns, rows, cell width). Packs
/// entries into as many columns as fit the screen's width.
pub fn help_grid(width: u16, m: Metrics) -> (r: (usize, usize, usize))
    ensures
        (r.0 as int, r.1 as int, r.2 as int) == grid_of(width, m),
        1 <= r.1 <= 24,
        r.2 <= 0x20003,
{
    let v = help_entries();
    assert(entry_views(v@).len() == v@.len());
    pack(v.len(), measure_entries(&v, m) + 3, width)
}

/// The grid has a place for every entry, and its last column is not empty.
pub proof fn law_grid_holds_all(n: int, cell: int, width: int)
    requires
        0 < n,
        cell > 0,
    ensures
        ({
            let (cols, rows, _) = packed(n, cell, width);
            1 <= cols <= n && cols * rows >= n && cols * (rows - 1) < n
        }),
{
    let (cols, rows, _) = packed(n, cell, width);
    vstd::arithmetic::div_mod::lemma_fundamental_div_mod(n + cols - 1, cols);
    let rest = (n + cols - 1) % cols;
    assert(0 <= rest < cols) by {
        vstd::arithmetic::div_mod::lemma_mod_bound(n + cols - 1, cols);
    }
    assert(cols * (rows - 1) == cols * rows - cols) by (nonlinear_arith);
}

/// The grid has as many columns as fit the screen: one more would not fit,
/// unless every entry has its own.
pub proof fn law_grid_fills_the_screen(n: int, cell: int, width: int)
    requires
        0 < n,
        cell > 0,
        width > 0,
    ensures
        ({
            let (cols, _, c) = packed(n, cell, width);
            &&& c == cell
            &&& cols == 1 || cols * cell <= width - 1
            &&& cols == n || (cols + 1) * cell > width - 1
        }),
{
    let fit = (width - 1) / cell;
    let (cols, _, _) = packed(n, cell, width);
    vstd::arithmetic::div_mod::lemma_fundamental_div_mod(width - 1, cell);
    vstd::arithmetic::div_mod::lemma_mod_bound(width - 1, cell);
    assert(cell * fit == fit * cell) by (nonlinear_arith);
    assert((fit + 1) * cell == fit * cell + cell) by (nonlinear_arith);
    if cols < fit {
        assert(cols == n);
        assert(cols * cell <= fit * cell) by (nonlinear_arith)
            requires
                cols < fit,
                cell > 0,
        ;
    }
    if fit < 1 {
        assert(cols == 1);
        assert((cols + 1) * cell >= cell) by (nonlinear_arith)
            requires
                cols == 1,
                cell > 0,
        ;
        assert(fit * cell <= 0) by (nonlinear_arith)
            requires
                fit < 1,
                cell > 0,
        ;
    }
}

proof fn lemma_widest(v: Seq<(Seq<char>, Seq<char>)>, m: Metrics, i: int)
    requires
        0 <= i < v.len(),
    ensures
        cells::text_width(v[i].0, m) <= widest_key(v, m),
        entry_w(v[i], m) <= widest_entry(v, m),
    decreases v.len(),
{
    if i < v.len() - 1 {
        lemma_widest(v.drop_last(), m, i);
    }
}

/// A column is as wide as every key.
pub proof fn law_keys_fit_their_column(v: Seq<(Seq<char>, Seq<char>)>, m: Metrics, i: int)
    requires
        0 <= i < v.len(),
    ensures
        cells::text_width(v[i].0, m) <= widest_key(v, m),
        cells::text_width(v[i].0, m) + 2 + cells::text_width(v[i].1, m) <= widest_entry(v, m),
{
    lemma_widest(v, m, i);
}

/// The help tells what the keys do.
pub proof fn law_help_tells_the_keys()
    ensures
        help_texts().len() == 24,
        help_texts().contains(("j/k ↑/↓"@, "move"@)),
        help_texts().contains(("d/u ^d/^u"@, "half page"@)),
        help_texts().contains(("g/G"@, "top/bottom"@)),
        help_texts().contains(("{ }"@, "prev/next hunk"@)),
        help_texts().contains(("[ ]"@, "prev/next file"@)),
        help_texts().contains(("/"@, "search"@)),
        help_texts().contains(("n/N"@, "next/prev match"@)),
        help_texts().contains(("s"@, "split view"@)),
        help_texts().contains(("y"@, "copy line/selection"@)),
        help_texts().contains(("Y"@, "copy file diff"@)),
        help_texts().contains(("?"@, "toggle help"@)),
        help_texts().contains(("q"@, "quit"@)),
{
    reveal(help_texts);
    let v = help_texts();
    assert(v[0] == ("j/k ↑/↓"@, "move"@));
    assert(v[3] == ("d/u ^d/^u"@, "half page"@));
    assert(v[6] == ("g/G"@, "top/bottom"@));
    assert(v[8] == ("{ }"@, "prev/next hunk"@));
    assert(v[9] == ("[ ]"@, "prev/next file"@));
    assert(v[11] == ("/"@, "search"@));
    assert(v[12] == ("n/N"@, "next/prev match"@));
    assert(v[13] == ("s"@, "split view"@));
    assert(v[19] == ("y"@, "copy line/selection"@));
    assert(v[20] == ("Y"@, "copy file diff"@));
    assert(v[22] == ("?"@, "toggle help"@));
    assert(v[23] == ("q"@, "quit"@));
}

} // verus!
