//! Display cells: how a string is laid out in terminal columns, and how much
//! of it fits into a given number of them.
use vstd::prelude::*;

verus! {

/// How a grapheme cluster is measured.
#[derive(Debug, Clone, Copy, PartialEq, Eq, Structural)]
pub enum WidthMode {
    /// The sum of the widths of its code points.
    Wc,
    /// The width of the cluster as one displayed unit.
    Grapheme,
}

/// The measuring policy of a screen.
#[derive(Debug, Clone, Copy, PartialEq, Eq, Structural)]
pub struct Metrics {
    pub mode: WidthMode,
    /// Whether East Asian ambiguous characters take two columns.
    pub eaw_wide: bool,
}

/// The policy under which the content of a row is cut into cells.
pub open spec fn content_metrics() -> Metrics {
    Metrics { mode: WidthMode::Grapheme, eaw_wide: false }
}

/// The grapheme clusters of a text with their widths in columns, as
/// `uncurses::text::grapheme_cells` yields them.
pub uninterp spec fn graphemes(s: Seq<char>, m: Metrics) -> Seq<(Seq<char>, u8)>;

/// The texts and widths of a list of measured clusters.
pub open spec fn pairs(v: Seq<(String, u8)>) -> Seq<(Seq<char>, u8)> {
    v.map_values(|p: (String, u8)| (p.0@, p.1))
}

/// The texts of some clusters, one behind the other.
pub open spec fn cluster_text(c: Seq<(Seq<char>, u8)>) -> Seq<char>
    decreases c.len(),
{
    if c.len() == 0 {
        Seq::empty()
    } else {
        cluster_text(c.drop_last()) + c.last().0
    }
}

/// The columns that some clusters take.
pub open spec fn cluster_width(c: Seq<(Seq<char>, u8)>) -> nat
    decreases c.len(),
{
    if c.len() == 0 {
        0
    } else {
        cluster_width(c.drop_last()) + c.last().1 as nat
    }
}

/// Cut a text into grapheme clusters with their widths.
///
/// Calls `uncurses::text::grapheme_cells`. Believed of it: the result is a
/// function of the text and the policy, and the clusters are the text, one
/// behind the other.
#[verifier::external_body]
pub(crate) fn grapheme_cells(s: &str, m: Metrics) -> (r: Vec<(String, u8)>)
    ensures
        pairs(r@) == graphemes(s@, m),
        cluster_text(pairs(r@)) == s@,
{
    let mode = match m.mode {
        WidthMode::Wc => uncurses::text::WidthMode::Wc,
        WidthMode::Grapheme => uncurses::text::WidthMode::Grapheme,
    };
    uncurses::text::grapheme_cells(s, mode, m.eaw_wide).map(|(g, w)| (g.to_string(), w)).collect()
}

/// One column of a row's content: a grapheme cluster in the first column it
/// takes, and nothing in the further ones.
#[derive(Debug, Clone)]
pub struct Cell {
    pub content: String,
    /// The columns that the cluster takes; 0 in a further column.
    pub width: u8,
}

impl View for Cell {
    type V = (Seq<char>, u8);

    open spec fn view(&self) -> (Seq<char>, u8) {
        (self.content@, self.width)
    }
}

/// The contents and widths of a list of cells.
pub open spec fn cell_views(v: Seq<Cell>) -> Seq<(Seq<char>, u8)> {
    v.map_values(|c: Cell| c@)
}

/// The cells of one cluster: itself, then an empty cell for each further
/// column. A cluster without width has none.
pub open spec fn one_cluster(g: (Seq<char>, u8)) -> Seq<(Seq<char>, u8)> {
    if g.1 == 0 {
        Seq::empty()
    } else {
        seq![g] + Seq::new((g.1 - 1) as nat, |i: int| (Seq::<char>::empty(), 0u8))
    }
}

/// The cells of some clusters.
pub open spec fn laid_out(c: Seq<(Seq<char>, u8)>) -> Seq<(Seq<char>, u8)>
    decreases c.len(),
{
    if c.len() == 0 {
        Seq::empty()
    } else {
        laid_out(c.drop_last()) + one_cluster(c.last())
    }
}

/// The cells of a row's content.
pub open spec fn content_cells(s: Seq<char>) -> Seq<(Seq<char>, u8)> {
    laid_out(graphemes(s, content_metrics()))
}

/// The cells of some clusters are as many as the columns they take, so the
/// index of a cell is its column.
pub proof fn law_cells_are_columns(c: Seq<(Seq<char>, u8)>)
    ensures
        laid_out(c).len() == cluster_width(c),
    decreases c.len(),
{
    if c.len() > 0 {
        law_cells_are_columns(c.drop_last());
    }
}

/// Whether every cluster takes a column.
pub open spec fn all_wide(c: Seq<(Seq<char>, u8)>) -> bool {
    forall|i: int| 0 <= i < c.len() ==> (#[trigger] c[i]).1 > 0
}

proof fn lemma_cluster_text_add(a: Seq<(Seq<char>, u8)>, b: Seq<(Seq<char>, u8)>)
    ensures
        cluster_text(a + b) == cluster_text(a) + cluster_text(b),
    decreases b.len(),
{
    if b.len() == 0 {
        assert(a + b =~= a);
        assert(cluster_text(a) + cluster_text(b) =~= cluster_text(a));
    } else {
        assert((a + b).drop_last() =~= a + b.drop_last());
        lemma_cluster_text_add(a, b.drop_last());
        assert(cluster_text(a + b) =~= cluster_text(a) + cluster_text(b));
    }
}

proof fn lemma_blank_text(n: nat)
    ensures
        cluster_text(Seq::new(n, |i: int| (Seq::<char>::empty(), 0u8))) == Seq::<char>::empty(),
    decreases n,
{
    let v = Seq::new(n, |i: int| (Seq::<char>::empty(), 0u8));
    if n > 0 {
        lemma_blank_text((n - 1) as nat);
        assert(v.drop_last() =~= Seq::new((n - 1) as nat, |i: int| (Seq::<char>::empty(), 0u8)));
        assert(cluster_text(v) =~= Seq::<char>::empty());
    }
}

/// The cells of some clusters hold their text, as far as each cluster takes a
/// column: a wide one stands in its cells once.
pub proof fn law_cells_hold_text(c: Seq<(Seq<char>, u8)>)
    requires
        all_wide(c),
    ensures
        cluster_text(laid_out(c)) == cluster_text(c),
    decreases c.len(),
{
    if c.len() > 0 {
        let d = c.drop_last();
        assert(all_wide(d)) by {
            assert forall|i: int| 0 <= i < d.len() implies (#[trigger] d[i]).1 > 0 by {
                assert(c[i].1 > 0);
            }
        }
        law_cells_hold_text(d);
        let g = c.last();
        assert(c[c.len() - 1].1 > 0);
        let blanks = Seq::new((g.1 - 1) as nat, |i: int| (Seq::<char>::empty(), 0u8));
        lemma_blank_text((g.1 - 1) as nat);
        lemma_cluster_text_add(seq![g], blanks);
        lemma_cluster_text_add(laid_out(d), one_cluster(g));
        assert(seq![g].drop_last() =~= Seq::empty());
        assert(cluster_text(seq![g]) =~= g.0) by {
            reveal_with_fuel(cluster_text, 2);
        }
        assert(cluster_text(laid_out(c)) =~= cluster_text(c));
    }
}

/// Copying all cells of a text gives the text, less the blanks at its end.
pub proof fn law_copy_gives_text(c: Seq<(Seq<char>, u8)>)
    requires
        all_wide(c),
    ensures
        cells_text(laid_out(c), 0, laid_out(c).len()) == trim_blanks(cluster_text(c)),
{
    law_cells_hold_text(c);
    let l = laid_out(c);
    assert(l.subrange(0, l.len() as int) =~= l);
}

fn push_cell(v: &mut Vec<Cell>, content: String, width: u8)
    ensures
        cell_views(final(v)@) == cell_views(old(v)@).push((content@, width)),
{
    v.push(Cell { content, width });
    assert(cell_views(v@) =~= cell_views(old(v)@).push((content@, width)));
}

/// Lay out some measured clusters in cells.
pub fn lay_out(clusters: &Vec<(String, u8)>) -> (r: Vec<Cell>)
    ensures
        cell_views(r@) == laid_out(pairs(clusters@)),
{
    let mut out: Vec<Cell> = Vec::new();
    let ghost p = pairs(clusters@);
    for i in 0..clusters.len()
        invariant
            p == pairs(clusters@),
            cell_views(out@) == laid_out(p.take(i as int)),
    {
        let w: u8 = clusters[i].1;
        assert(p.take(i as int + 1).drop_last() =~= p.take(i as int));
        assert(p[i as int] == (clusters@[i as int].0@, w));
        let ghost before = cell_views(out@);
        if w > 0 {
            push_cell(&mut out, clusters[i].0.clone(), w);
            let ghost g = p[i as int];
            let ghost blank = (Seq::<char>::empty(), 0u8);
            assert(cell_views(out@) =~= before + seq![g] + Seq::new(0, |j: int| blank));
            for k in 1..w
                invariant
                    blank == (Seq::<char>::empty(), 0u8),
                    cell_views(out@) == before + seq![g] + Seq::new((k - 1) as nat, |j: int| blank),
            {
                push_cell(&mut out, String::new(), 0);
                assert(cell_views(out@) =~= before + seq![g] + Seq::new(k as nat, |j: int| blank));
            }
            assert(cell_views(out@) =~= before + one_cluster(g));
        } else {
            assert(before + one_cluster(p[i as int]) =~= before);
        }
    }
    assert(p.take(p.len() as int) =~= p);
    out
}

/// Parse a string into display cells, with an empty cell for each further
/// column of a wide cluster, so that a cell index is a screen column.
pub fn text_cells(s: &str) -> (r: Vec<Cell>)
    ensures
        cell_views(r@) == content_cells(s@),
        r@.len() == cluster_width(graphemes(s@, content_metrics())),
        all_wide(graphemes(s@, content_metrics())) ==> cluster_text(cell_views(r@)) == s@,
{
    let clusters = grapheme_cells(s, Metrics { mode: WidthMode::Grapheme, eaw_wide: false });
    let r = lay_out(&clusters);
    proof {
        law_cells_are_columns(pairs(clusters@));
        if all_wide(pairs(clusters@)) {
            law_cells_hold_text(pairs(clusters@));
        }
        assert(cell_views(r@).len() == r@.len());
    }
    r
}

/// `s` without the spaces at its end.
pub open spec fn trim_blanks(s: Seq<char>) -> Seq<char>
    decreases s.len(),
{
    if s.len() > 0 && s.last() == ' ' {
        trim_blanks(s.drop_last())
    } else {
        s
    }
}

/// The smaller of two numbers.
pub open spec fn least(a: int, b: int) -> int {
    if a <= b {
        a
    } else {
        b
    }
}

/// The text of the cells `[start, end)`, as far as there are such cells,
/// without the blanks at its end.
pub open spec fn cells_text(c: Seq<(Seq<char>, u8)>, start: nat, end: nat) -> Seq<char> {
    let s = least(start as int, c.len() as int);
    let e = least(end as int, c.len() as int);
    if s <= e {
        trim_blanks(cluster_text(c.subrange(s, e)))
    } else {
        Seq::empty()
    }
}

/// Join the cells `[start, end)` into a string, without the blanks at its
/// end. Bounds past the last cell stop there.
pub fn slice_cells(cells: &Vec<Cell>, start: usize, end: usize) -> (r: String)
    ensures
        r@ == cells_text(cell_views(cells@), start as nat, end as nat),
{
    let n = cells.len();
    let s: usize = if start < n {
        start
    } else {
        n
    };
    let e: usize = if end < n {
        end
    } else {
        n
    };
    let ghost c = cell_views(cells@);
    if e < s {
        return String::new();
    }
    let mut line = String::new();
    for i in s..e
        invariant
            s <= e <= cells@.len(),
            c == cell_views(cells@),
            line@ == cluster_text(c.subrange(s as int, i as int)),
    {
        assert(c.subrange(s as int, i as int + 1).drop_last() =~= c.subrange(s as int, i as int));
        assert(c[i as int] == cells@[i as int]@);
        line.push_str(cells[i].content.as_str());
    }
    let v = crate::text::to_chars(line.as_str());
    let mut k = v.len();
    assert(v@.take(k as int) =~= v@);
    while k > 0 && v[k - 1] == ' '
        invariant
            k <= v@.len(),
            trim_blanks(v@) == trim_blanks(v@.take(k as int)),
        decreases k,
    {
        assert(v@.take(k as int).drop_last() =~= v@.take(k as int - 1));
        k = k - 1;
    }
    let r = crate::text::slice_chars(&v, 0, k);
    assert(r@ =~= v@.take(k as int));
    r
}

/// How many clusters from the start fit into `width` columns.
pub open spec fn fit_count(c: Seq<(Seq<char>, u8)>, width: nat) -> nat
    decreases c.len(),
{
    if cluster_width(c) <= width {
        c.len()
    } else {
        fit_count(c.drop_last(), width)
    }
}

/// The clusters that fit are the longest start of the list within the width.
pub proof fn law_fit_is_longest(c: Seq<(Seq<char>, u8)>, width: nat, n: nat)
    requires
        n <= c.len(),
    ensures
        fit_count(c, width) <= c.len(),
        n <= fit_count(c, width) <==> cluster_width(c.take(n as int)) <= width,
    decreases c.len(),
{
    if cluster_width(c) <= width {
        lemma_width_grows(c, n as int);
        assert(c.take(c.len() as int) =~= c);
    } else {
        assert(c.len() > 0);
        if n < c.len() {
            law_fit_is_longest(c.drop_last(), width, n);
            assert(c.drop_last().take(n as int) =~= c.take(n as int));
        } else {
            law_fit_is_longest(c.drop_last(), width, 0);
            assert(c.take(n as int) =~= c);
        }
    }
}

proof fn lemma_width_grows(c: Seq<(Seq<char>, u8)>, n: int)
    requires
        0 <= n <= c.len(),
    ensures
        cluster_width(c.take(n)) <= cluster_width(c),
    decreases c.len() - n,
{
    if n < c.len() {
        assert(c.take(n + 1).drop_last() =~= c.take(n));
        lemma_width_grows(c, n + 1);
    } else {
        assert(c.take(n) =~= c);
    }
}

/// The text that fits into `width` columns.
pub open spec fn fit_text(c: Seq<(Seq<char>, u8)>, width: nat) -> Seq<char> {
    cluster_text(c.take(fit_count(c, width) as int))
}

/// The columns of the text that fits into `width` columns.
pub open spec fn fit_width(c: Seq<(Seq<char>, u8)>, width: nat) -> nat {
    cluster_width(c.take(fit_count(c, width) as int))
}

/// What fits never takes more columns than there are.
pub proof fn law_fit_within(c: Seq<(Seq<char>, u8)>, width: nat)
    ensures
        fit_width(c, width) <= width,
{
    law_fit_is_longest(c, width, 0);
    let n = fit_count(c, width);
    law_fit_is_longest(c, width, n);
}

/// Fit clusters into at most `width` columns without splitting a wide one.
/// Returns the fitted string and the columns it takes.
pub fn fit(cells: &Vec<(String, u8)>, width: u16) -> (r: (String, u16))
    ensures
        r.0@ == fit_text(pairs(cells@), width as nat),
        r.1 == fit_width(pairs(cells@), width as nat),
        r.1 <= width,
{
    let mut out = String::new();
    let mut w: u16 = 0;
    let mut i: usize = 0;
    let ghost c = pairs(cells@);
    while i < cells.len() && w as u32 + cells[i].1 as u32 <= width as u32
        invariant
            c == pairs(cells@),
            i <= cells@.len(),
            out@ == cluster_text(c.take(i as int)),
            w == cluster_width(c.take(i as int)),
            w <= width,
        decreases cells@.len() - i,
    {
        assert(c[i as int] == (cells@[i as int].0@, cells@[i as int].1));
        assert(c.take(i as int + 1).drop_last() =~= c.take(i as int));
        out.push_str(cells[i].0.as_str());
        w = w + cells[i].1 as u16;
        i = i + 1;
    }
    proof {
        law_fit_is_longest(c, width as nat, i as nat);
        if i < cells@.len() {
            assert(c.take(i as int + 1).drop_last() =~= c.take(i as int));
            assert(c[i as int] == (cells@[i as int].0@, cells@[i as int].1));
            law_fit_is_longest(c, width as nat, (i + 1) as nat);
        }
    }
    (out, w)
}

/// Where the clusters begin that fit into `budget` columns, counted from the
/// end.
pub open spec fn tail_start(c: Seq<(Seq<char>, u8)>, budget: nat) -> int
    decreases c.len(),
{
    if cluster_width(c) <= budget || c.len() == 0 {
        0
    } else {
        1 + tail_start(c.drop_first(), budget)
    }
}

/// The text at the end that fits into `budget` columns.
pub open spec fn fit_tail_text(c: Seq<(Seq<char>, u8)>, budget: nat) -> Seq<char> {
    cluster_text(c.skip(tail_start(c, budget)))
}

proof fn lemma_width_split(c: Seq<(Seq<char>, u8)>, n: int)
    requires
        0 <= n <= c.len(),
    ensures
        cluster_width(c) == cluster_width(c.take(n)) + cluster_width(c.skip(n)),
    decreases c.len(),
{
    if n == c.len() {
        assert(c.take(n) =~= c);
        assert(c.skip(n).len() == 0);
    } else {
        lemma_width_split(c.drop_last(), n);
        assert(c.drop_last().take(n) =~= c.take(n));
        assert(c.drop_last().skip(n) =~= c.skip(n).drop_last());
    }
}

/// The tail that fits is the longest end of the list within the budget.
pub proof fn law_tail_is_longest(c: Seq<(Seq<char>, u8)>, budget: nat, n: nat)
    requires
        n <= c.len(),
    ensures
        0 <= tail_start(c, budget) <= c.len(),
        tail_start(c, budget) <= n <==> cluster_width(c.skip(n as int)) <= budget,
    decreases c.len(),
{
    assert(c.skip(0) =~= c);
    if cluster_width(c) <= budget || c.len() == 0 {
        lemma_width_split(c, n as int);
        assert(c.len() == 0 ==> cluster_width(c) == 0);
    } else if n > 0 {
        law_tail_is_longest(c.drop_first(), budget, (n - 1) as nat);
        assert(c.drop_first().skip(n - 1) =~= c.skip(n as int));
    } else {
        law_tail_is_longest(c.drop_first(), budget, 0);
    }
}

/// Take clusters from the end of `cells` that fit in `budget` columns, without
/// splitting a wide one.
pub fn fit_tail(cells: &Vec<(String, u8)>, budget: u16) -> (r: String)
    ensures
        r@ == fit_tail_text(pairs(cells@), budget as nat),
{
    let n = cells.len();
    let mut w: u16 = 0;
    let mut start: usize = n;
    let ghost c = pairs(cells@);
    assert(c.skip(n as int) =~= Seq::empty());
    while start > 0 && w as u32 + cells[start - 1].1 as u32 <= budget as u32
        invariant
            c == pairs(cells@),
            n == cells@.len(),
            start <= n,
            w == cluster_width(c.skip(start as int)),
            w <= budget,
        decreases start,
    {
        proof {
            lemma_width_split(c.skip(start as int - 1), 1);
            let t = c.skip(start as int - 1);
            assert(t.skip(1) =~= c.skip(start as int));
            assert(t.take(1).drop_last() =~= Seq::empty());
            assert(t.take(1).last() == c[start as int - 1]);
            assert(cluster_width(t.take(1).drop_last()) == 0);
            assert(c[start as int - 1] == (
                cells@[start as int - 1].0@,
                cells@[start as int - 1].1,
            ));
        }
        w = w + cells[start - 1].1 as u16;
        start = start - 1;
    }
    proof {
        law_tail_is_longest(c, budget as nat, start as nat);
        if start > 0 {
            lemma_width_split(c.skip(start as int - 1), 1);
            let t = c.skip(start as int - 1);
            assert(t.skip(1) =~= c.skip(start as int));
            assert(t.take(1).drop_last() =~= Seq::empty());
            assert(t.take(1).last() == c[start as int - 1]);
            assert(cluster_width(t.take(1).drop_last()) == 0);
            assert(c[start as int - 1] == (
                cells@[start as int - 1].0@,
                cells@[start as int - 1].1,
            ));
            law_tail_is_longest(c, budget as nat, (start - 1) as nat);
        }
    }
    let mut out = String::new();
    for i in start..n
        invariant
            c == pairs(cells@),
            n == cells@.len(),
            start <= n,
            out@ == cluster_text(c.subrange(start as int, i as int)),
    {
        assert(c.subrange(start as int, i as int + 1).drop_last() =~= c.subrange(
            start as int,
            i as int,
        ));
        assert(c[i as int] == (cells@[i as int].0@, cells@[i as int].1));
        out.push_str(cells[i].0.as_str());
    }
    assert(c.subrange(start as int, n as int) =~= c.skip(start as int));
    out
}

/// The columns of a text, at most `u16::MAX`.
pub open spec fn text_width(s: Seq<char>, m: Metrics) -> nat {
    least(cluster_width(graphemes(s, m)) as int, 0xffff) as nat
}

/// Display width in terminal columns, at most `u16::MAX`.
pub fn str_width(s: &str, m: Metrics) -> (r: u16)
    ensures
        r == text_width(s@, m),
{
    let cells = grapheme_cells(s, m);
    measure(&cells)
}

/// The columns of some clusters, at most `u16::MAX`.
pub fn measure(cells: &Vec<(String, u8)>) -> (r: u16)
    ensures
        r == least(cluster_width(pairs(cells@)) as int, 0xffff),
{
    let ghost c = pairs(cells@);
    let mut w: u16 = 0;
    for i in 0..cells.len()
        invariant
            c == pairs(cells@),
            w == least(cluster_width(c.take(i as int)) as int, 0xffff),
    {
        assert(c.take(i as int + 1).drop_last() =~= c.take(i as int));
        assert(c[i as int] == (cells@[i as int].0@, cells@[i as int].1));
        w = w.saturating_add(cells[i].1 as u16);
    }
    assert(c.take(c.len() as int) =~= c);
    w
}

/// Truncate `s` to at most `width` columns. Returns the text kept and the
/// columns it takes.
pub fn clip(s: &str, width: u16, m: Metrics) -> (r: (String, u16))
    ensures
        r.0@ == fit_text(graphemes(s@, m), width as nat),
        r.1 == fit_width(graphemes(s@, m), width as nat),
        r.1 <= width,
{
    let cells = grapheme_cells(s, m);
    fit(&cells, width)
}

/// A text shortened to `width` columns: itself if it fits, else an ellipsis
/// of `ell` columns and the tail that fits behind it.
pub open spec fn shortened(s: Seq<char>, c: Seq<(Seq<char>, u8)>, ell: nat, width: nat) -> Seq<
    char,
> {
    if least(cluster_width(c) as int, 0xffff) <= width {
        s
    } else {
        "…"@ + fit_tail_text(
            c,
            if width >= ell {
                (width - ell) as nat
            } else {
                0
            },
        )
    }
}

/// Shorten a text that has been cut into clusters; `ell` is the width of the
/// ellipsis.
pub fn shorten_cells(s: &str, cells: &Vec<(String, u8)>, ell: u16, width: u16) -> (r: String)
    ensures
        r@ == shortened(s@, pairs(cells@), ell as nat, width as nat),
{
    if measure(cells) <= width {
        return s.to_owned();
    }
    let mut out = "…".to_owned();
    let tail = fit_tail(cells, width.saturating_sub(ell));
    out.push_str(tail.as_str());
    out
}

/// Shorten `s` to at most `width` columns, keeping its tail visible behind an
/// ellipsis.
pub fn shorten(s: &str, width: u16, m: Metrics) -> (r: String)
    ensures
        r@ == shortened(
            s@,
            graphemes(s@, m),
            text_width("…"@, m),
            width as nat,
        ),
{
    let cells = grapheme_cells(s, m);
    let ell = str_width("…", m);
    shorten_cells(s, &cells, ell, width)
}

/// A copied range is the text of its cells less the blanks at its end: only
/// blanks are missing, and none is left at the end.
pub proof fn law_copied_range_is_its_cells(c: Seq<(Seq<char>, u8)>, start: nat, end: nat)
    requires
        start <= end <= c.len(),
    ensures
        exists|n: nat|
            cluster_text(c.subrange(start as int, end as int)) == cells_text(c, start, end)
                + #[trigger] crate::text::copies(' ', n),
        cells_text(c, start, end).len() > 0 ==> cells_text(c, start, end).last() != ' ',
{
    lemma_trim_blanks(cluster_text(c.subrange(start as int, end as int)));
}

proof fn lemma_trim_blanks(s: Seq<char>)
    ensures
        exists|n: nat| s == trim_blanks(s) + #[trigger] crate::text::copies(' ', n),
        trim_blanks(s).len() > 0 ==> trim_blanks(s).last() != ' ',
    decreases s.len(),
{
    if s.len() > 0 && s.last() == ' ' {
        lemma_trim_blanks(s.drop_last());
        let n = choose|n: nat|
            s.drop_last() == trim_blanks(s.drop_last()) + #[trigger] crate::text::copies(' ', n);
        assert(crate::text::copies(' ', n + 1) =~= crate::text::copies(' ', n).push(' '));
        assert(s =~= s.drop_last().push(' '));
        assert(s =~= trim_blanks(s) + crate::text::copies(' ', n + 1));
    } else {
        assert(s =~= trim_blanks(s) + crate::text::copies(' ', 0));
    }
}

/// Bounds past the last cell stop there.
pub proof fn law_copied_range_stops_at_the_end(c: Seq<(Seq<char>, u8)>, start: nat, end: nat)
    requires
        end >= c.len(),
    ensures
        cells_text(c, start, end) == cells_text(c, start, c.len()),
        start >= c.len() ==> cells_text(c, start, end) == Seq::<char>::empty(),
{
    if start >= c.len() {
        assert(c.subrange(c.len() as int, c.len() as int) =~= Seq::empty());
    }
}

/// A text that is too wide is shortened from its start: an ellipsis, and then
/// the longest end of the text that fits behind it. A text that fits stays.
pub proof fn law_shortened_keeps_the_tail(
    s: Seq<char>,
    c: Seq<(Seq<char>, u8)>,
    ell: nat,
    width: nat,
) -> (k: int)
    requires
        width < 0xffff,
    ensures
        cluster_width(c) <= width ==> shortened(s, c, ell, width) == s,
        cluster_width(c) > width ==> {
            &&& 0 <= k <= c.len()
            &&& shortened(s, c, ell, width) == "…"@ + cluster_text(c.skip(k))
            &&& ell <= width ==> ell + cluster_width(c.skip(k)) <= width
            &&& ell <= width && k > 0 ==> ell + cluster_width(c.skip(k - 1)) > width
        },
{
    let budget = if width >= ell {
        (width - ell) as nat
    } else {
        0
    };
    let k = tail_start(c, budget);
    law_tail_is_longest(c, budget, 0);
    law_tail_is_longest(c, budget, k as nat);
    if k > 0 {
        law_tail_is_longest(c, budget, (k - 1) as nat);
    }
    k
}

/// A text is clipped at its end: what is kept is its start, as much as fits.
pub proof fn law_clipped_keeps_the_start(c: Seq<(Seq<char>, u8)>, width: nat) -> (k: int)
    ensures
        0 <= k <= c.len(),
        fit_text(c, width) == cluster_text(c.take(k)),
        fit_width(c, width) == cluster_width(c.take(k)),
        cluster_width(c.take(k)) <= width,
        k < c.len() ==> cluster_width(c.take(k + 1)) > width,
        cluster_width(c) <= width ==> k == c.len(),
{
    let k = fit_count(c, width);
    law_fit_is_longest(c, width, 0);
    law_fit_is_longest(c, width, k);
    if k < c.len() {
        law_fit_is_longest(c, width, k + 1);
    }
    assert(c.take(c.len() as int) =~= c);
    law_fit_is_longest(c, width, c.len());
    k as int
}

} // verus!
