//! The model of a diff: files, hunks and lines.
use crate::rows;
use crate::text;
use vstd::prelude::*;

verus! {

/// What a line of a hunk does.
#[derive(Debug, Clone, Copy, PartialEq, Eq, Structural)]
pub enum LineKind {
    Context,
    Add,
    Remove,
}

/// A run of a line's text, and whether it differs from the paired line.
#[derive(Debug, Clone)]
pub struct Segment {
    pub text: String,
    pub changed: bool,
}

/// A run of a line's text, and whether it differs from the paired line.
pub type SegmentV = (Seq<char>, bool);

impl View for Segment {
    type V = SegmentV;

    open spec fn view(&self) -> SegmentV {
        (self.text@, self.changed)
    }
}

/// The texts and marks of segments.
pub open spec fn segment_views(v: Seq<Segment>) -> Seq<SegmentV> {
    v.map_values(|s: Segment| s@)
}

/// One line of a hunk.
#[derive(Debug, Clone)]
pub struct DiffLine {
    pub kind: LineKind,
    /// The text without its sign.
    pub content: String,
    /// The line's number on the old side.
    pub old_no: Option<usize>,
    /// The line's number on the new side.
    pub new_no: Option<usize>,
    /// The runs that a word-level comparison found; empty where the line has
    /// no pair.
    pub segments: Vec<Segment>,
}

/// The contents of a line.
#[verifier::ext_equal]
pub struct LineV {
    pub kind: LineKind,
    pub content: Seq<char>,
    pub old_no: Option<usize>,
    pub new_no: Option<usize>,
    pub segments: Seq<SegmentV>,
}

impl View for DiffLine {
    type V = LineV;

    open spec fn view(&self) -> LineV {
        LineV {
            kind: self.kind,
            content: self.content@,
            old_no: self.old_no,
            new_no: self.new_no,
            segments: segment_views(self.segments@),
        }
    }
}

/// The contents of lines.
pub open spec fn line_views(v: Seq<DiffLine>) -> Seq<LineV> {
    v.map_values(|l: DiffLine| l@)
}

/// A run of changed lines and the context around them.
#[derive(Debug, Clone)]
pub struct Hunk {
    /// The header line, starting with `@@`.
    pub header: String,
    pub lines: Vec<DiffLine>,
}

/// The contents of a hunk.
#[verifier::ext_equal]
pub struct HunkV {
    pub header: Seq<char>,
    pub lines: Seq<LineV>,
}

impl View for Hunk {
    type V = HunkV;

    open spec fn view(&self) -> HunkV {
        HunkV { header: self.header@, lines: line_views(self.lines@) }
    }
}

/// The contents of hunks.
pub open spec fn hunk_views(v: Seq<Hunk>) -> Seq<HunkV> {
    v.map_values(|h: Hunk| h@)
}

/// The changes of one file.
#[derive(Debug, Clone)]
pub struct FileDiff {
    pub old_path: String,
    pub new_path: String,
    /// What happened to the file besides its lines, such as a rename.
    pub notes: Vec<String>,
    pub is_binary: bool,
    pub hunks: Vec<Hunk>,
}

/// The contents of a file's changes.
#[verifier::ext_equal]
pub struct FileV {
    pub old_path: Seq<char>,
    pub new_path: Seq<char>,
    pub notes: Seq<Seq<char>>,
    pub is_binary: bool,
    pub hunks: Seq<HunkV>,
}

impl View for FileDiff {
    type V = FileV;

    open spec fn view(&self) -> FileV {
        FileV {
            old_path: self.old_path@,
            new_path: self.new_path@,
            notes: text::texts(self.notes@),
            is_binary: self.is_binary,
            hunks: hunk_views(self.hunks@),
        }
    }
}

/// The contents of the files of a diff.
pub open spec fn file_views(v: Seq<FileDiff>) -> Seq<FileV> {
    v.map_values(|f: FileDiff| f@)
}

/// How many lines are of a kind.
pub open spec fn kind_count(v: Seq<LineV>, kind: LineKind) -> nat
    decreases v.len(),
{
    if v.len() == 0 {
        0
    } else {
        kind_count(v.drop_last(), kind) + if v.last().kind == kind {
            1nat
        } else {
            0
        }
    }
}

/// How many lines of some hunks are of a kind.
pub open spec fn hunks_count(v: Seq<HunkV>, kind: LineKind) -> nat
    decreases v.len(),
{
    if v.len() == 0 {
        0
    } else {
        hunks_count(v.drop_last(), kind) + kind_count(v.last().lines, kind)
    }
}

/// How many lines of some files are of a kind.
pub open spec fn files_count(v: Seq<FileV>, kind: LineKind) -> nat
    decreases v.len(),
{
    if v.len() == 0 {
        0
    } else {
        files_count(v.drop_last(), kind) + hunks_count(v.last().hunks, kind)
    }
}

/// `n`, or the largest number that a `usize` holds.
pub open spec fn saturated(n: nat) -> usize {
    if n <= usize::MAX {
        n as usize
    } else {
        usize::MAX
    }
}

impl FileV {
    /// The path that names the file: the new one, or the old one where the
    /// file is gone.
    pub open spec fn path(&self) -> Seq<char> {
        if self.new_path == "/dev/null"@ {
            self.old_path
        } else {
            self.new_path
        }
    }

    /// How many lines were added and removed.
    pub open spec fn stats(&self) -> (usize, usize) {
        (
            saturated(hunks_count(self.hunks, LineKind::Add)),
            saturated(hunks_count(self.hunks, LineKind::Remove)),
        )
    }
}

fn count_lines(v: &Vec<DiffLine>, kind: LineKind) -> (r: usize)
    ensures
        r == kind_count(line_views(v@), kind),
        r <= v@.len(),
{
    let ghost lv = line_views(v@);
    let mut n: usize = 0;
    for i in 0..v.len()
        invariant
            lv == line_views(v@),
            n == kind_count(lv.take(i as int), kind),
            n <= i,
    {
        assert(lv.take(i as int + 1).drop_last() =~= lv.take(i as int));
        assert(lv[i as int] == v@[i as int]@);
        if v[i].kind == kind {
            n = n + 1;
        }
    }
    assert(lv.take(lv.len() as int) =~= lv);
    n
}

/// The number of lines of a kind, stopping at the largest `usize`.
fn count_hunks(v: &Vec<Hunk>, kind: LineKind) -> (r: usize)
    ensures
        r == saturated(hunks_count(hunk_views(v@), kind)),
{
    let ghost hv = hunk_views(v@);
    let mut n: usize = 0;
    for i in 0..v.len()
        invariant
            hv == hunk_views(v@),
            n == saturated(hunks_count(hv.take(i as int), kind)),
    {
        assert(hv.take(i as int + 1).drop_last() =~= hv.take(i as int));
        assert(hv[i as int] == v@[i as int]@);
        n = n.saturating_add(count_lines(&v[i].lines, kind));
    }
    assert(hv.take(hv.len() as int) =~= hv);
    n
}

impl FileDiff {
    /// The path that names the file.
    pub fn path(&self) -> (r: &str)
        ensures
            r@ == self@.path(),
    {
        if text::same(self.new_path.as_str(), "/dev/null") {
            self.old_path.as_str()
        } else {
            self.new_path.as_str()
        }
    }

    /// How many lines were added and removed.
    pub fn stats(&self) -> (r: (usize, usize))
        ensures
            r == self@.stats(),
    {
        (count_hunks(&self.hunks, LineKind::Add), count_hunks(&self.hunks, LineKind::Remove))
    }
}

/// How many files there are, and how many lines they add and remove.
pub open spec fn totals_of(v: Seq<FileV>) -> (nat, usize, usize) {
    (
        v.len(),
        saturated(files_count(v, LineKind::Add)),
        saturated(files_count(v, LineKind::Remove)),
    )
}

/// How many files there are, and how many lines they add and remove.
pub fn totals(files: &Vec<FileDiff>) -> (r: (usize, usize, usize))
    ensures
        (r.0 as nat, r.1, r.2) == totals_of(file_views(files@)),
{
    let ghost fv = file_views(files@);
    let mut add: usize = 0;
    let mut del: usize = 0;
    for i in 0..files.len()
        invariant
            fv == file_views(files@),
            add == saturated(files_count(fv.take(i as int), LineKind::Add)),
            del == saturated(files_count(fv.take(i as int), LineKind::Remove)),
    {
        assert(fv.take(i as int + 1).drop_last() =~= fv.take(i as int));
        assert(fv[i as int] == files@[i as int]@);
        let (a, d) = files[i].stats();
        add = add.saturating_add(a);
        del = del.saturating_add(d);
    }
    assert(fv.take(fv.len() as int) =~= fv);
    (files.len(), add, del)
}

/// The lines of a text with their line feeds.
pub open spec fn whole_lines(s: Seq<char>) -> Seq<Seq<char>>
    decreases s.len(),
{
    if s.len() == 0 {
        Seq::empty()
    } else {
        let before = whole_lines(s.drop_last());
        if before.len() > 0 && before.last().last() != '\n' {
            before.drop_last().push(before.last().push(s.last()))
        } else {
            before.push(seq![s.last()])
        }
    }
}

/// A line without its line feed, and without the carriage return before it.
pub open spec fn bare(raw: Seq<char>) -> Seq<char> {
    if raw.len() > 0 && raw.last() == '\n' {
        text::strip_cr(raw.drop_last())
    } else {
        raw
    }
}

/// The lines of a text with their line feeds.
fn cut_lines(s: &str) -> (r: Vec<String>)
    ensures
        text::texts(r@) == whole_lines(s@),
{
    let v = text::to_chars(s);
    let mut out: Vec<String> = Vec::new();
    let mut start: usize = 0;
    let n = v.len();
    assert(v@.take(0) =~= Seq::empty());
    assert(text::texts(out@) =~= Seq::<Seq<char>>::empty());
    for i in 0..n
        invariant
            n == v@.len(),
            v@ == s@,
            start <= i,
            start < i ==> v@[i - 1] != '\n',
            start == i && i > 0 ==> v@[i - 1] == '\n',
            whole_lines(v@.take(i as int)) == if start < i {
                text::texts(out@).push(v@.subrange(start as int, i as int))
            } else {
                text::texts(out@)
            },
            start == i ==> (out@.len() > 0 ==> text::texts(out@).last().last() == '\n'),
            start < i && out@.len() > 0 ==> text::texts(out@).last().last() == '\n',
    {
        let ghost now = v@.take(i as int + 1);
        assert(now.drop_last() =~= v@.take(i as int));
        assert(v@.subrange(start as int, i as int + 1) =~= v@.subrange(start as int, i as int).push(
            v@[i as int],
        ));
        let ghost before = whole_lines(v@.take(i as int));
        proof {
            if start < i {
                assert(before.last() == v@.subrange(start as int, i as int));
                assert(before.drop_last() =~= text::texts(out@));
            } else {
                assert(v@.subrange(start as int, i as int + 1) =~= seq![v@[i as int]]);
            }
        }
        assert(whole_lines(now) =~= text::texts(out@).push(v@.subrange(start as int, i as int + 1)));
        if v[i] == '\n' {
            let line = text::slice_chars(&v, start, i + 1);
            proof {
                text::lemma_texts_push(out@, line);
            }
            out.push(line);
            start = i + 1;
        }
    }
    assert(v@.take(n as int) =~= v@);
    if start < n {
        let line = text::slice_chars(&v, start, n);
        proof {
            text::lemma_texts_push(out@, line);
        }
        out.push(line);
    }
    out
}

fn strip_line_end(raw: &str) -> (r: String)
    ensures
        r@ == bare(raw@),
{
    let v = text::to_chars(raw);
    let n = v.len();
    if n > 0 && v[n - 1] == '\n' {
        if n > 1 && v[n - 2] == '\r' {
            let r = text::slice_chars(&v, 0, n - 2);
            assert(r@ =~= bare(raw@));
            r
        } else {
            let r = text::slice_chars(&v, 0, n - 1);
            assert(r@ =~= bare(raw@));
            r
        }
    } else {
        let r = text::slice_chars(&v, 0, n);
        assert(r@ =~= bare(raw@));
        r
    }
}

/// The start and the length that one side of a hunk header gives: `a,b`, or
/// `a` for one line.
pub open spec fn range_of(s: Seq<char>) -> Option<(usize, usize)> {
    let p = text::split_at(s, ',');
    if p.len() == 1 {
        match text::parsed_uint(p[0], usize::MAX as nat) {
            Some(a) => Some((a as usize, 1)),
            None => None,
        }
    } else if p.len() == 2 {
        match (
            text::parsed_uint(p[0], usize::MAX as nat),
            text::parsed_uint(p[1], usize::MAX as nat),
        ) {
            (Some(a), Some(b)) => Some((a as usize, b as usize)),
            _ => None,
        }
    } else {
        None
    }
}

fn parse_range(s: &str) -> (r: Option<(usize, usize)>)
    ensures
        r == range_of(s@),
{
    let p = text::split_on(s, ',');
    let ghost t = text::texts(p@);
    assert(t.len() == p@.len());
    if p.len() == 1 {
        assert(t[0] == p@[0]@);
        match text::parse_uint(p[0].as_str(), usize::MAX) {
            Some(a) => Some((a, 1)),
            None => None,
        }
    } else if p.len() == 2 {
        assert(t[0] == p@[0]@);
        assert(t[1] == p@[1]@);
        match (
            text::parse_uint(p[0].as_str(), usize::MAX),
            text::parse_uint(p[1].as_str(), usize::MAX),
        ) {
            (Some(a), Some(b)) => Some((a, b)),
            _ => None,
        }
    } else {
        None
    }
}

/// The sides of a hunk header `@@ -a,b +c,d @@`, as far as the line is one:
/// the old side's start and length, then the new side's.
pub open spec fn hunk_ranges(l: Seq<char>) -> Option<((usize, usize), (usize, usize))> {
    let w = text::word_texts(l);
    if w.len() >= 4 && w[0] == "@@"@ && text::has_prefix(w[1], "-"@) && text::has_prefix(
        w[2],
        "+"@,
    ) {
        match (range_of(w[1].skip(1)), range_of(w[2].skip(1))) {
            (Some(a), Some(b)) => Some((a, b)),
            _ => None,
        }
    } else {
        None
    }
}

fn parse_hunk_header(l: &str) -> (r: Option<((usize, usize), (usize, usize))>)
    ensures
        r == hunk_ranges(l@),
{
    let w = text::words(l);
    let ghost t = text::texts(w@);
    assert(t.len() == w@.len());
    if w.len() < 4 {
        return None;
    }
    assert(t[0] == w@[0]@ && t[1] == w@[1]@ && t[2] == w@[2]@);
    if !text::same(w[0].as_str(), "@@") {
        return None;
    }
    proof {
        reveal_strlit("-");
        reveal_strlit("+");
    }
    match (text::strip_prefix(w[1].as_str(), "-"), text::strip_prefix(w[2].as_str(), "+")) {
        (Some(a), Some(b)) => match (parse_range(a.as_str()), parse_range(b.as_str())) {
            (Some(x), Some(y)) => Some((x, y)),
            _ => None,
        },
        _ => None,
    }
}

/// A path of a header line: what stands before the first tab, without the
/// prefix of its side.
pub open spec fn side_path(s: Seq<char>, side: Seq<char>) -> Seq<char> {
    let p = text::split_at(s, '\t')[0];
    if text::has_prefix(p, side) {
        p.skip(side.len() as int)
    } else {
        p
    }
}

fn strip_side(s: &str, side: &str) -> (r: String)
    ensures
        r@ == side_path(s@, side@),
{
    let p = text::split_on(s, '\t');
    proof {
        text::lemma_split_some(s@, text::is_char('\t'));
        assert(text::texts(p@).len() == p@.len());
        assert(text::texts(p@)[0] == p@[0]@);
    }
    match text::strip_prefix(p[0].as_str(), side) {
        Some(r) => r,
        None => p[0].clone(),
    }
}

/// The path that `a/P b/P` names twice. Where the two differ, the whole text.
pub open spec fn twin_path(s: Seq<char>) -> Seq<char> {
    let n = ((s.len() - 5) / 2) as int;
    if s.len() >= 5 && s.len() == 2 * n + 5 && s.subrange(0, 2) == "a/"@ && s.subrange(
        n + 2,
        n + 5,
    ) == " b/"@ && s.subrange(2, n + 2) == s.subrange(n + 5, 2 * n + 5) {
        s.subrange(2, n + 2)
    } else {
        s
    }
}

fn parse_twin(s: &str) -> (r: String)
    ensures
        r@ == twin_path(s@),
{
    let v = text::to_chars(s);
    let len = v.len();
    if len < 5 || (len - 5) % 2 != 0 {
        return s.to_owned();
    }
    let n: usize = (len - 5) / 2;
    let first = text::slice_chars(&v, 2, n + 2);
    if text::same(text::slice_chars(&v, 0, 2).as_str(), "a/") && text::same(
        text::slice_chars(&v, n + 2, n + 5).as_str(),
        " b/",
    ) && text::same(first.as_str(), text::slice_chars(&v, n + 5, len).as_str()) {
        first
    } else {
        s.to_owned()
    }
}

/// What has been read of a diff.
struct Parser {
    files: Vec<FileDiff>,
    raw: Vec<String>,
    old_no: usize,
    new_no: usize,
    old_left: usize,
    new_left: usize,
}

/// What has been read of a diff: the files so far with their raw texts, the
/// numbers of the next lines, and how many lines the open hunk still has on
/// each side.
#[verifier::ext_equal]
pub struct ParserV {
    pub files: Seq<FileV>,
    pub raw: Seq<Seq<char>>,
    pub old_no: usize,
    pub new_no: usize,
    pub old_left: usize,
    pub new_left: usize,
}

impl View for Parser {
    type V = ParserV;

    closed spec fn view(&self) -> ParserV {
        ParserV {
            files: file_views(self.files@),
            raw: text::texts(self.raw@),
            old_no: self.old_no,
            new_no: self.new_no,
            old_left: self.old_left,
            new_left: self.new_left,
        }
    }
}

/// A file without hunks.
pub open spec fn bare_file(old_path: Seq<char>, new_path: Seq<char>) -> FileV {
    FileV { old_path, new_path, notes: Seq::empty(), is_binary: false, hunks: Seq::empty() }
}

/// One less, but not below 0.
pub open spec fn less_one(n: usize) -> usize {
    if n > 0 {
        (n - 1) as usize
    } else {
        0
    }
}

/// One more, up to the largest `usize`.
pub open spec fn one_more(n: usize) -> usize {
    saturated((n + 1) as nat)
}

impl ParserV {
    /// Nothing read yet.
    pub open spec fn empty() -> ParserV {
        ParserV {
            files: Seq::empty(),
            raw: Seq::empty(),
            old_no: 0,
            new_no: 0,
            old_left: 0,
            new_left: 0,
        }
    }

    /// Whether the open hunk still has lines.
    pub open spec fn in_hunk(&self) -> bool {
        self.old_left > 0 || self.new_left > 0
    }

    /// An open hunk has a place for its lines, and every file has a raw text.
    pub open spec fn wf(&self) -> bool {
        &&& self.raw.len() == self.files.len()
        &&& self.in_hunk() ==> self.files.len() > 0 && self.files.last().hunks.len() > 0
    }

    /// With `f` in place of the last file.
    pub open spec fn with_file(self, f: FileV) -> ParserV {
        ParserV { files: self.files.drop_last().push(f), ..self }
    }

    /// With one more file.
    pub open spec fn begun(self, f: FileV) -> ParserV {
        ParserV { files: self.files.push(f), raw: self.raw.push(Seq::empty()), ..self }
    }

    /// With one more line in the open hunk.
    pub open spec fn with_line(self, l: LineV) -> ParserV {
        let f = self.files.last();
        let h = f.hunks.last();
        self.with_file(
            FileV {
                hunks: f.hunks.drop_last().push(HunkV { lines: h.lines.push(l), ..h }),
                ..f
            },
        )
    }

    /// After a line of the open hunk.
    pub open spec fn after_body(self, l: Seq<char>) -> ParserV {
        let plain = LineV {
            kind: LineKind::Context,
            content: if l.len() > 0 {
                l.skip(1)
            } else {
                l
            },
            old_no: None,
            new_no: None,
            segments: Seq::empty(),
        };
        if l.len() > 0 && l[0] == '\\' {
            self
        } else if l.len() > 0 && l[0] == '+' {
            ParserV {
                new_no: one_more(self.new_no),
                new_left: less_one(self.new_left),
                ..self.with_line(LineV { kind: LineKind::Add, new_no: Some(self.new_no), ..plain })
            }
        } else if l.len() > 0 && l[0] == '-' {
            ParserV {
                old_no: one_more(self.old_no),
                old_left: less_one(self.old_left),
                ..self.with_line(LineV { kind: LineKind::Remove, old_no: Some(self.old_no), ..plain })
            }
        } else {
            ParserV {
                old_no: one_more(self.old_no),
                old_left: less_one(self.old_left),
                new_no: one_more(self.new_no),
                new_left: less_one(self.new_left),
                ..self.with_line(
                    LineV { old_no: Some(self.old_no), new_no: Some(self.new_no), ..plain },
                )
            }
        }
    }

    /// After a line outside of any hunk.
    pub open spec fn after_header(self, l: Seq<char>) -> ParserV {
        if text::has_prefix(l, "diff --git "@) {
            let p = twin_path(l.skip("diff --git "@.len() as int));
            self.begun(bare_file(p, p))
        } else if text::has_prefix(l, "diff --cc "@) {
            let p = l.skip("diff --cc "@.len() as int);
            self.begun(bare_file(p, p))
        } else if text::has_prefix(l, "--- "@) && (self.files.len() == 0
            || self.files.last().hunks.len() > 0) {
            let p = side_path(l.skip(4), "a/"@);
            self.begun(bare_file(p, p))
        } else if self.files.len() == 0 {
            self
        } else {
            match hunk_ranges(l) {
                Some((a, b)) => ParserV {
                    old_no: a.0,
                    old_left: a.1,
                    new_no: b.0,
                    new_left: b.1,
                    ..self.with_file(
                        FileV {
                            hunks: self.files.last().hunks.push(
                                HunkV { header: l, lines: Seq::empty() },
                            ),
                            ..self.files.last()
                        },
                    )
                },
                None => self.with_file(described(self.files.last(), l)),
            }
        }
    }

    /// After one line, `raw` with its line feed.
    pub open spec fn after(self, raw: Seq<char>) -> ParserV {
        let l = bare(raw);
        let s = if self.in_hunk() && is_body(l) {
            self.after_body(l)
        } else {
            ParserV { old_left: 0, new_left: 0, ..self }.after_header(l)
        };
        if s.raw.len() > 0 {
            ParserV { raw: s.raw.drop_last().push(s.raw.last() + raw), ..s }
        } else {
            s
        }
    }

    /// After some lines.
    pub open spec fn after_all(self, lines: Seq<Seq<char>>) -> ParserV
        decreases lines.len(),
    {
        if lines.len() == 0 {
            self
        } else {
            self.after_all(lines.drop_last()).after(lines.last())
        }
    }
}

/// Whether a line can stand in a hunk.
pub open spec fn is_body(l: Seq<char>) -> bool {
    l.len() == 0 || l[0] == '+' || l[0] == '-' || l[0] == ' ' || l[0] == '\\'
}

/// A file after one of its extended header lines.
pub open spec fn described(f: FileV, l: Seq<char>) -> FileV {
    if text::has_prefix(l, "--- "@) {
        FileV { old_path: side_path(l.skip(4), "a/"@), ..f }
    } else if text::has_prefix(l, "+++ "@) {
        FileV { new_path: side_path(l.skip(4), "b/"@), ..f }
    } else if text::has_prefix(l, "rename from "@) {
        FileV { old_path: l.skip(12), ..f }
    } else if text::has_prefix(l, "rename to "@) {
        FileV { new_path: l.skip(10), notes: f.notes.push("renamed"@), ..f }
    } else if text::has_prefix(l, "copy from "@) {
        FileV { old_path: l.skip(10), ..f }
    } else if text::has_prefix(l, "copy to "@) {
        FileV { new_path: l.skip(8), notes: f.notes.push("copied"@), ..f }
    } else if text::has_prefix(l, "new file mode "@) {
        FileV { notes: f.notes.push("new file"@), ..f }
    } else if text::has_prefix(l, "deleted file mode "@) {
        FileV { notes: f.notes.push("deleted"@), ..f }
    } else if text::has_prefix(l, "new mode "@) {
        FileV { notes: f.notes.push("mode changed"@), ..f }
    } else if text::has_prefix(l, "Binary files "@) || text::has_prefix(l, "GIT binary patch"@) {
        FileV { is_binary: true, ..f }
    } else {
        f
    }
}

fn add_note(f: FileDiff, note: &'static str) -> (r: FileDiff)
    ensures
        r@ == (FileV { notes: f@.notes.push(note@), ..f@ }),
{
    let mut f = f;
    let ghost before = f.notes@;
    let s = note.to_owned();
    proof {
        text::lemma_texts_push(before, s);
    }
    f.notes.push(s);
    f
}

/// Take in one extended header line of a file.
fn describe(f: FileDiff, l: &str) -> (r: FileDiff)
    ensures
        r@ == described(f@, l@),
{
    proof {
        reveal_strlit("--- ");
        reveal_strlit("+++ ");
        reveal_strlit("rename from ");
        reveal_strlit("rename to ");
        reveal_strlit("copy from ");
        reveal_strlit("copy to ");
    }
    let mut f = f;
    if let Some(p) = text::strip_prefix(l, "--- ") {
        f.old_path = strip_side(p.as_str(), "a/");
        return f;
    }
    if let Some(p) = text::strip_prefix(l, "+++ ") {
        f.new_path = strip_side(p.as_str(), "b/");
        return f;
    }
    if let Some(p) = text::strip_prefix(l, "rename from ") {
        f.old_path = p;
        return f;
    }
    if let Some(p) = text::strip_prefix(l, "rename to ") {
        f.new_path = p;
        return add_note(f, "renamed");
    }
    if let Some(p) = text::strip_prefix(l, "copy from ") {
        f.old_path = p;
        return f;
    }
    if let Some(p) = text::strip_prefix(l, "copy to ") {
        f.new_path = p;
        return add_note(f, "copied");
    }
    if text::strip_prefix(l, "new file mode ").is_some() {
        return add_note(f, "new file");
    }
    if text::strip_prefix(l, "deleted file mode ").is_some() {
        return add_note(f, "deleted");
    }
    if text::strip_prefix(l, "new mode ").is_some() {
        return add_note(f, "mode changed");
    }
    if text::strip_prefix(l, "Binary files ").is_some() || text::strip_prefix(
        l,
        "GIT binary patch",
    ).is_some() {
        f.is_binary = true;
    }
    f
}

proof fn lemma_files_push(v: Seq<FileDiff>, f: FileDiff)
    ensures
        file_views(v.push(f)) == file_views(v).push(f@),
{
    assert(file_views(v.push(f)) =~= file_views(v).push(f@));
}

impl Parser {
    /// Start a file.
    fn begin(&mut self, old_path: String, new_path: String)
        ensures
            final(self)@ == old(self)@.begun(bare_file(old_path@, new_path@)),
    {
        let f = FileDiff {
            old_path,
            new_path,
            notes: Vec::new(),
            is_binary: false,
            hunks: Vec::new(),
        };
        let r = String::new();
        proof {
            assert(text::texts(f.notes@) =~= Seq::<Seq<char>>::empty());
            assert(hunk_views(f.hunks@) =~= Seq::<HunkV>::empty());
            lemma_files_push(self.files@, f);
            text::lemma_texts_push(self.raw@, r);
        }
        self.files.push(f);
        self.raw.push(r);
    }

    /// Take the last file out.
    fn take_file(&mut self) -> (r: FileDiff)
        requires
            old(self)@.files.len() > 0,
        ensures
            r@ == old(self)@.files.last(),
            final(self)@ == (ParserV { files: old(self)@.files.drop_last(), ..old(self)@ }),
    {
        assert(file_views(self.files@).len() == self.files@.len());
        let f = self.files.pop().unwrap();
        assert(file_views(self.files@) =~= file_views(old(self).files@).drop_last());
        f
    }

    fn put_file(&mut self, f: FileDiff)
        ensures
            final(self)@ == (ParserV { files: old(self)@.files.push(f@), ..old(self)@ }),
    {
        proof {
            lemma_files_push(self.files@, f);
        }
        self.files.push(f);
    }

    /// Add a line to the open hunk.
    fn add_line(&mut self, l: DiffLine)
        requires
            old(self)@.files.len() > 0,
            old(self)@.files.last().hunks.len() > 0,
        ensures
            final(self)@ == old(self)@.with_line(l@),
    {
        let mut f = self.take_file();
        assert(hunk_views(f.hunks@).len() == f.hunks@.len());
        let ghost hunks = f.hunks@;
        let mut h = f.hunks.pop().unwrap();
        let ghost lines = h.lines@;
        h.lines.push(l);
        assert(line_views(h.lines@) =~= line_views(lines).push(l@));
        f.hunks.push(h);
        assert(hunk_views(f.hunks@) =~= hunk_views(hunks).drop_last().push(h@));
        self.put_file(f);
    }

    /// Take in a line of the open hunk.
    fn body(&mut self, l: &str)
        requires
            old(self)@.files.len() > 0,
            old(self)@.files.last().hunks.len() > 0,
        ensures
            final(self)@ == old(self)@.after_body(l@),
    {
        let v = text::to_chars(l);
        let first = if v.len() > 0 {
            v[0]
        } else {
            ' '
        };
        if first == '\\' {
            return;
        }
        let content = if v.len() > 0 {
            text::slice_chars(&v, 1, v.len())
        } else {
            String::new()
        };
        assert(content@ =~= if l@.len() > 0 {
            l@.skip(1)
        } else {
            l@
        });
        let kind = if first == '+' {
            LineKind::Add
        } else if first == '-' {
            LineKind::Remove
        } else {
            LineKind::Context
        };
        let old_no = if kind == LineKind::Add {
            None
        } else {
            Some(self.old_no)
        };
        let new_no = if kind == LineKind::Remove {
            None
        } else {
            Some(self.new_no)
        };
        let segments: Vec<Segment> = Vec::new();
        assert(segment_views(segments@) =~= Seq::<SegmentV>::empty());
        self.add_line(DiffLine { kind, content, old_no, new_no, segments });
        if kind != LineKind::Add {
            self.old_no = self.old_no.saturating_add(1);
            self.old_left = self.old_left.saturating_sub(1);
        }
        if kind != LineKind::Remove {
            self.new_no = self.new_no.saturating_add(1);
            self.new_left = self.new_left.saturating_sub(1);
        }
    }

    /// Take in a line outside of any hunk.
    fn header(&mut self, l: &str)
        ensures
            final(self)@ == old(self)@.after_header(l@),
    {
        assert(file_views(self.files@).len() == self.files@.len());
        if let Some(rest) = text::strip_prefix(l, "diff --git ") {
            let p = parse_twin(rest.as_str());
            self.begin(p.clone(), p);
            return;
        }
        if let Some(p) = text::strip_prefix(l, "diff --cc ") {
            self.begin(p.clone(), p);
            return;
        }
        let n = self.files.len();
        proof {
            reveal_strlit("--- ");
            if n > 0 {
                assert(file_views(self.files@).last() == self.files@.last()@);
                assert(hunk_views(self.files@.last().hunks@).len() == self.files@.last().hunks@.len());
            }
        }
        if let Some(rest) = text::strip_prefix(l, "--- ") {
            if n == 0 || self.files[n - 1].hunks.len() > 0 {
                let p = strip_side(rest.as_str(), "a/");
                self.begin(p.clone(), p);
                return;
            }
        }
        if n == 0 {
            return;
        }
        let mut f = self.take_file();
        match parse_hunk_header(l) {
            Some((a, b)) => {
                let lines: Vec<DiffLine> = Vec::new();
                assert(line_views(lines@) =~= Seq::<LineV>::empty());
                let h = Hunk { header: l.to_owned(), lines };
                let ghost hunks = f.hunks@;
                f.hunks.push(h);
                assert(hunk_views(f.hunks@) =~= hunk_views(hunks).push(h@));
                self.put_file(f);
                self.old_no = a.0;
                self.old_left = a.1;
                self.new_no = b.0;
                self.new_left = b.1;
            },
            None => {
                let f = describe(f, l);
                self.put_file(f);
            },
        }
    }

    /// Take in one line with its line feed.
    fn line(&mut self, raw: &str)
        requires
            old(self)@.wf(),
        ensures
            final(self)@ == old(self)@.after(raw@),
            final(self)@.wf(),
    {
        let l = strip_line_end(raw);
        let v = text::to_chars(l.as_str());
        let is_body = v.len() == 0 || v[0] == '+' || v[0] == '-' || v[0] == ' ' || v[0] == '\\';
        if (self.old_left > 0 || self.new_left > 0) && is_body {
            self.body(l.as_str());
        } else {
            self.old_left = 0;
            self.new_left = 0;
            self.header(l.as_str());
        }
        let ghost raws = self.raw@;
        assert(text::texts(raws).len() == raws.len());
        if self.raw.len() > 0 {
            let mut r = self.raw.pop().unwrap();
            r.push_str(raw);
            self.raw.push(r);
            assert(text::texts(self.raw@) =~= text::texts(raws).drop_last().push(
                text::texts(raws).last() + raw@,
            ));
        }
    }
}

fn read_all(s: &str) -> (r: Parser)
    ensures
        r@ == ParserV::empty().after_all(whole_lines(s@)),
        r@.wf(),
{
    let lines = cut_lines(s);
    let ghost t = text::texts(lines@);
    let mut p = Parser {
        files: Vec::new(),
        raw: Vec::new(),
        old_no: 0,
        new_no: 0,
        old_left: 0,
        new_left: 0,
    };
    assert(file_views(p.files@) =~= Seq::<FileV>::empty());
    assert(text::texts(p.raw@) =~= Seq::<Seq<char>>::empty());
    assert(t.take(0) =~= Seq::<Seq<char>>::empty());
    for i in 0..lines.len()
        invariant
            t == text::texts(lines@),
            p@ == ParserV::empty().after_all(t.take(i as int)),
            p@.wf(),
    {
        assert(t.take(i as int + 1).drop_last() =~= t.take(i as int));
        assert(t[i as int] == lines@[i as int]@);
        p.line(lines[i].as_str());
    }
    assert(t.take(t.len() as int) =~= t);
    p
}

/// The raw text of each file of a diff: its lines from where it starts to
/// where the next file does.
pub open spec fn raw_files(s: Seq<char>) -> Seq<Seq<char>> {
    ParserV::empty().after_all(whole_lines(s)).raw
}

/// Cut a diff into the raw texts of its files.
pub fn split_files(s: &str) -> (r: Vec<String>)
    ensures
        text::texts(r@) == raw_files(s@),
{
    read_all(s).raw
}

/// Whether a character is part of a word.
pub open spec fn is_word(c: char) -> bool {
    ||| 'a' <= c <= 'z'
    ||| 'A' <= c <= 'Z'
    ||| '0' <= c <= '9'
    ||| c == '_'
    ||| c as u32 >= 0x80
}

/// Whether no word runs across position `k`.
pub open spec fn is_boundary(s: Seq<char>, k: int) -> bool {
    k <= 0 || k >= s.len() || !(is_word(s[k - 1]) && is_word(s[k]))
}

/// Whether two texts share whole words at their start, up to position `k`.
pub open spec fn shares_start(s: Seq<char>, t: Seq<char>, k: int) -> bool {
    &&& 0 <= k <= s.len()
    &&& k <= t.len()
    &&& s.take(k) == t.take(k)
    &&& is_boundary(s, k)
    &&& is_boundary(t, k)
}

/// The last such position up to `k`.
pub open spec fn common_start(s: Seq<char>, t: Seq<char>, k: nat) -> nat
    decreases k,
{
    if k == 0 || shares_start(s, t, k as int) {
        k
    } else {
        common_start(s, t, (k - 1) as nat)
    }
}

/// Whether two texts share whole words at their end, of `k` characters.
pub open spec fn shares_end(s: Seq<char>, t: Seq<char>, k: int) -> bool {
    &&& 0 <= k <= s.len()
    &&& k <= t.len()
    &&& s.skip(s.len() - k) == t.skip(t.len() - k)
    &&& is_boundary(s, s.len() - k)
    &&& is_boundary(t, t.len() - k)
}

/// The largest such length up to `k`.
pub open spec fn common_end(s: Seq<char>, t: Seq<char>, k: nat) -> nat
    decreases k,
{
    if k == 0 || shares_end(s, t, k as int) {
        k
    } else {
        common_end(s, t, (k - 1) as nat)
    }
}

/// The segment of a text, unless the text is empty.
pub open spec fn segment(s: Seq<char>, changed: bool) -> Seq<SegmentV> {
    if s.len() > 0 {
        seq![(s, changed)]
    } else {
        Seq::empty()
    }
}

/// The smaller of two lengths.
pub open spec fn shorter(a: nat, b: nat) -> nat {
    if a <= b {
        a
    } else {
        b
    }
}

/// The segments of `s` beside `t`: the words that both start with, what
/// differs, and the words that both end with.
pub open spec fn word_segments(s: Seq<char>, t: Seq<char>) -> Seq<SegmentV> {
    let n = s.len();
    let p = common_start(s, t, shorter(n, t.len()));
    let q = common_end(s, t, shorter((n - p) as nat, (t.len() - p) as nat));
    segment(s.take(p as int), false) + segment(s.subrange(p as int, n - q), true) + segment(
        s.skip(n - q),
        false,
    )
}

/// The text of segments, one behind the other.
pub open spec fn segments_text(v: Seq<SegmentV>) -> Seq<char>
    decreases v.len(),
{
    if v.len() == 0 {
        Seq::empty()
    } else {
        segments_text(v.drop_last()) + v.last().0
    }
}

proof fn lemma_common_bounds(s: Seq<char>, t: Seq<char>, k: nat)
    ensures
        common_start(s, t, k) <= k,
        common_end(s, t, k) <= k,
    decreases k,
{
    if k > 0 {
        lemma_common_bounds(s, t, (k - 1) as nat);
    }
}

proof fn lemma_segments_add(a: Seq<SegmentV>, s: Seq<char>, changed: bool)
    ensures
        segments_text(a + segment(s, changed)) == segments_text(a) + s,
{
    if s.len() > 0 {
        assert((a + segment(s, changed)).drop_last() =~= a);
    } else {
        assert(a + segment(s, changed) =~= a);
        assert(segments_text(a) + s =~= segments_text(a));
    }
}

/// The segments of a line make up its text.
pub proof fn law_segments_make_the_line(s: Seq<char>, t: Seq<char>)
    ensures
        segments_text(word_segments(s, t)) == s,
{
    let n = s.len();
    let p = common_start(s, t, shorter(n, t.len()));
    lemma_common_bounds(s, t, shorter(n, t.len()));
    let q = common_end(s, t, shorter((n - p) as nat, (t.len() - p) as nat));
    lemma_common_bounds(s, t, shorter((n - p) as nat, (t.len() - p) as nat));
    let a = segment(s.take(p as int), false);
    let b = segment(s.subrange(p as int, n - q), true);
    assert(Seq::<SegmentV>::empty() + a =~= a);
    lemma_segments_add(Seq::empty(), s.take(p as int), false);
    lemma_segments_add(a, s.subrange(p as int, n - q), true);
    lemma_segments_add(a + b, s.skip(n - q), false);
    assert(s.take(p as int) + s.subrange(p as int, n - q) + s.skip(n - q) =~= s);
    assert(segments_text(Seq::<SegmentV>::empty()) + s.take(p as int) =~= s.take(p as int));
}

/// Equal lines have nothing changed in them.
pub proof fn law_equal_lines_are_unchanged(s: Seq<char>)
    ensures
        word_segments(s, s) == segment(s, false),
{
    assert(shares_start(s, s, s.len() as int));
    lemma_common_bounds(s, s, 0);
    assert(s.take(s.len() as int) =~= s);
    assert(word_segments(s, s) =~= segment(s, false));
}

fn word(c: char) -> (r: bool)
    ensures
        r == is_word(c),
{
    ('a' <= c && c <= 'z') || ('A' <= c && c <= 'Z') || ('0' <= c && c <= '9') || c == '_'
        || c as u32 >= 0x80
}

fn boundary(v: &Vec<char>, k: usize) -> (r: bool)
    ensures
        r == is_boundary(v@, k as int),
{
    k == 0 || k >= v.len() || !(word(v[k - 1]) && word(v[k]))
}

/// How many characters two texts share at their start, whole words only.
fn count_start(s: &Vec<char>, t: &Vec<char>) -> (r: usize)
    ensures
        r == common_start(s@, t@, shorter(s@.len(), t@.len())),
        r <= s@.len(),
        r <= t@.len(),
{
    let n: usize = if s.len() <= t.len() {
        s.len()
    } else {
        t.len()
    };
    let mut k: usize = 0;
    while k < n && s[k] == t[k]
        invariant
            k <= n <= s@.len(),
            n <= t@.len(),
            s@.take(k as int) == t@.take(k as int),
        decreases n - k,
    {
        assert(s@.take(k as int + 1) =~= s@.take(k as int).push(s@[k as int]));
        assert(t@.take(k as int + 1) =~= t@.take(k as int).push(t@[k as int]));
        k = k + 1;
    }
    proof {
        lemma_start_at(s@, t@, k as nat, n as nat);
    }
    while k > 0 && !(boundary(s, k) && boundary(t, k))
        invariant
            k <= n <= s@.len(),
            n <= t@.len(),
            s@.take(k as int) == t@.take(k as int),
            common_start(s@, t@, n as nat) == common_start(s@, t@, k as nat),
        decreases k,
    {
        assert(s@.take(k as int).take(k - 1) =~= s@.take(k - 1));
        assert(t@.take(k as int).take(k - 1) =~= t@.take(k - 1));
        k = k - 1;
    }
    k
}

/// Beyond the first difference nothing is shared.
proof fn lemma_start_at(s: Seq<char>, t: Seq<char>, k: nat, n: nat)
    requires
        k <= n <= s.len(),
        n <= t.len(),
        k < n ==> s[k as int] != t[k as int],
    ensures
        common_start(s, t, n) == common_start(s, t, k),
    decreases n,
{
    if k < n {
        assert(s.take(n as int)[k as int] != t.take(n as int)[k as int]);
        lemma_start_at(s, t, k, (n - 1) as nat);
    }
}

/// How many characters two texts share at their end, whole words only, at
/// most `n`.
fn count_end(s: &Vec<char>, t: &Vec<char>, n: usize) -> (r: usize)
    requires
        n <= s@.len(),
        n <= t@.len(),
    ensures
        r == common_end(s@, t@, n as nat),
        r <= n,
{
    let mut k: usize = 0;
    assert(s@.skip(s@.len() as int) =~= t@.skip(t@.len() as int));
    while k < n && s[s.len() - k - 1] == t[t.len() - k - 1]
        invariant
            k <= n <= s@.len(),
            n <= t@.len(),
            s@.skip(s@.len() - k) == t@.skip(t@.len() - k),
        decreases n - k,
    {
        assert(s@.skip(s@.len() - k - 1) =~= seq![s@[s@.len() - k - 1]] + s@.skip(s@.len() - k));
        assert(t@.skip(t@.len() - k - 1) =~= seq![t@[t@.len() - k - 1]] + t@.skip(t@.len() - k));
        k = k + 1;
    }
    proof {
        lemma_end_at(s@, t@, k as nat, n as nat);
    }
    while k > 0 && !(boundary(s, s.len() - k) && boundary(t, t.len() - k))
        invariant
            k <= n <= s@.len(),
            n <= t@.len(),
            s@.skip(s@.len() - k) == t@.skip(t@.len() - k),
            common_end(s@, t@, n as nat) == common_end(s@, t@, k as nat),
        decreases k,
    {
        assert(s@.skip(s@.len() - k).skip(1) =~= s@.skip(s@.len() - k + 1));
        assert(t@.skip(t@.len() - k).skip(1) =~= t@.skip(t@.len() - k + 1));
        k = k - 1;
    }
    k
}

/// Before the last difference nothing is shared.
proof fn lemma_end_at(s: Seq<char>, t: Seq<char>, k: nat, n: nat)
    requires
        k <= n <= s.len(),
        n <= t.len(),
        k < n ==> s[s.len() - k - 1] != t[t.len() - k - 1],
    ensures
        common_end(s, t, n) == common_end(s, t, k),
    decreases n,
{
    if k < n {
        assert(s.skip(s.len() - n)[n - k - 1] != t.skip(t.len() - n)[n - k - 1]);
        lemma_end_at(s, t, k, (n - 1) as nat);
    }
}

fn push_segment(v: &mut Vec<Segment>, text: String, changed: bool)
    ensures
        segment_views(final(v)@) == segment_views(old(v)@) + segment(text@, changed),
{
    let n = text::to_chars(text.as_str()).len();
    if n > 0 {
        v.push(Segment { text, changed });
    }
    assert(segment_views(v@) =~= segment_views(old(v)@) + segment(text@, changed));
}

/// Compare a line with its pair, word by word.
pub fn compare_words(s: &str, t: &str) -> (r: Vec<Segment>)
    ensures
        segment_views(r@) == word_segments(s@, t@),
{
    let a = text::to_chars(s);
    let b = text::to_chars(t);
    let p = count_start(&a, &b);
    let rest: usize = if a.len() <= b.len() {
        a.len() - p
    } else {
        b.len() - p
    };
    let q = count_end(&a, &b, rest);
    let mut out: Vec<Segment> = Vec::new();
    let ghost none = segment_views(out@);
    assert(none =~= Seq::<SegmentV>::empty());
    push_segment(&mut out, text::slice_chars(&a, 0, p), false);
    push_segment(&mut out, text::slice_chars(&a, p, a.len() - q), true);
    push_segment(&mut out, text::slice_chars(&a, a.len() - q, a.len()), false);
    assert(a@.subrange(0, p as int) =~= s@.take(p as int));
    assert(a@.subrange(a@.len() - q, a@.len() as int) =~= s@.skip(s@.len() - q));
    assert(segment_views(out@) =~= word_segments(s@, t@));
    out
}

/// Where the run of lines of a kind that starts at `i` ends.
pub open spec fn run_end(v: Seq<LineV>, i: int, kind: LineKind) -> int
    decreases v.len() - i,
{
    if 0 <= i < v.len() && v[i].kind == kind {
        run_end(v, i + 1, kind)
    } else {
        i
    }
}

/// A line with the segments that set it apart from `other`.
pub open spec fn beside(l: LineV, other: LineV) -> LineV {
    LineV { segments: word_segments(l.content, other.content), ..l }
}

/// Removed lines `[a, b)` and added lines `[b, c)`, paired in order.
pub open spec fn paired_block(v: Seq<LineV>, a: int, b: int, c: int) -> Seq<LineV> {
    Seq::new(
        (c - a) as nat,
        |k: int|
            if k < b - a {
                if b + k < c {
                    beside(v[a + k], v[b + k])
                } else {
                    v[a + k]
                }
            } else if k - (b - a) < b - a {
                beside(v[a + k], v[a + k - (b - a)])
            } else {
                v[a + k]
            },
    )
}

/// The lines from `i` on: each run of removed lines is paired in order with
/// the run of added lines behind it.
pub open spec fn paired(v: Seq<LineV>, i: int) -> Seq<LineV>
    decreases v.len() - i via paired_decreases
{
    if i < 0 || i >= v.len() {
        Seq::empty()
    } else if v[i].kind == LineKind::Remove {
        let b = run_end(v, i, LineKind::Remove);
        let c = run_end(v, b, LineKind::Add);
        paired_block(v, i, b, c) + paired(v, c)
    } else {
        seq![v[i]] + paired(v, i + 1)
    }
}

#[via_fn]
proof fn paired_decreases(v: Seq<LineV>, i: int) {
    if 0 <= i < v.len() && v[i].kind == LineKind::Remove {
        let b = run_end(v, i, LineKind::Remove);
        lemma_run_end(v, i, LineKind::Remove);
        lemma_run_end(v, b, LineKind::Add);
        lemma_run_end(v, i + 1, LineKind::Remove);
    }
}

proof fn lemma_run_end(v: Seq<LineV>, i: int, kind: LineKind)
    requires
        0 <= i <= v.len(),
    ensures
        i <= run_end(v, i, kind) <= v.len(),
    decreases v.len() - i,
{
    if i < v.len() && v[i].kind == kind {
        lemma_run_end(v, i + 1, kind);
    }
}

fn find_run_end(v: &Vec<DiffLine>, i: usize, kind: LineKind) -> (r: usize)
    requires
        i <= v@.len(),
    ensures
        r == run_end(line_views(v@), i as int, kind),
        i <= r <= v@.len(),
{
    let mut j: usize = i;
    while j < v.len() && v[j].kind == kind
        invariant
            i <= j <= v@.len(),
            run_end(line_views(v@), i as int, kind) == run_end(line_views(v@), j as int, kind),
        decreases v@.len() - j,
    {
        assert(line_views(v@)[j as int] == v@[j as int]@);
        j = j + 1;
    }
    proof {
        if j < v@.len() {
            assert(line_views(v@)[j as int] == v@[j as int]@);
        }
    }
    j
}

/// Give line `i` the segments that set it apart from line `j`.
fn set_beside(lines: &mut Vec<DiffLine>, i: usize, j: usize)
    requires
        i < old(lines)@.len(),
        j < old(lines)@.len(),
    ensures
        final(lines)@.len() == old(lines)@.len(),
        line_views(final(lines)@) == line_views(old(lines)@).update(
            i as int,
            beside(line_views(old(lines)@)[i as int], line_views(old(lines)@)[j as int]),
        ),
{
    let segments = compare_words(lines[i].content.as_str(), lines[j].content.as_str());
    let l = DiffLine {
        kind: lines[i].kind,
        content: lines[i].content.clone(),
        old_no: lines[i].old_no,
        new_no: lines[i].new_no,
        segments,
    };
    lines.set(i, l);
    assert(line_views(lines@) =~= line_views(old(lines)@).update(
        i as int,
        beside(line_views(old(lines)@)[i as int], line_views(old(lines)@)[j as int]),
    ));
}

/// Pair the removed lines `[a, b)` with the added lines `[b, c)`.
fn pair_block(lines: &mut Vec<DiffLine>, a: usize, b: usize, c: usize)
    requires
        a <= b <= c <= old(lines)@.len(),
    ensures
        final(lines)@.len() == old(lines)@.len(),
        line_views(final(lines)@) == line_views(old(lines)@).take(a as int) + paired_block(
            line_views(old(lines)@),
            a as int,
            b as int,
            c as int,
        ) + line_views(old(lines)@).skip(c as int),
{
    let ghost v = line_views(lines@);
    let ghost block = paired_block(v, a as int, b as int, c as int);
    let mut k: usize = 0;
    while k < b - a && k < c - b
        invariant
            a <= b <= c <= v.len(),
            lines@.len() == v.len(),
            k <= b - a,
            k <= c - b,
            block == paired_block(v, a as int, b as int, c as int),
            forall|x: int|
                0 <= x < v.len() ==> #[trigger] line_views(lines@)[x] == if a <= x < a + k || b <= x
                    < b + k {
                    block[x - a]
                } else {
                    v[x]
                },
        decreases b - a - k,
    {
        let ghost now = line_views(lines@);
        assert(now[a + k] == v[a + k]);
        assert(now[b + k] == v[b + k]);
        set_beside(lines, a + k, b + k);
        let ghost mid = line_views(lines@);
        assert(mid[a + k] == block[k as int]);
        assert(mid[a + k].content == v[a + k].content);
        assert(mid[b + k] == v[b + k]);
        set_beside(lines, b + k, a + k);
        assert(line_views(lines@)[b + k] == block[b + k - a]);
        k = k + 1;
    }
    let ghost whole = v.take(a as int) + block + v.skip(c as int);
    assert forall|x: int| 0 <= x < v.len() implies #[trigger] line_views(lines@)[x] == whole[x] by {
        if a <= x < c {
            assert(whole[x] == block[x - a]);
        }
    }
    assert(line_views(lines@) =~= whole);
}

/// Mark the changed words of all paired lines of a hunk.
fn mark_words(lines: &mut Vec<DiffLine>)
    ensures
        line_views(final(lines)@) == paired(line_views(old(lines)@), 0),
{
    let ghost v = line_views(lines@);
    let n = lines.len();
    let mut i: usize = 0;
    assert(Seq::<LineV>::empty() + paired(v, 0) =~= paired(v, 0));
    assert(v.take(0) + v.skip(0) =~= v);
    let ghost mut done: Seq<LineV> = Seq::empty();
    while i < n
        invariant
            n == v.len(),
            lines@.len() == n,
            i <= n,
            done.len() == i,
            line_views(lines@) == done + v.skip(i as int),
            done + paired(v, i as int) == paired(v, 0),
        decreases n - i,
    {
        let ghost now = line_views(lines@);
        assert(now[i as int] == v[i as int]);
        if lines[i].kind == LineKind::Remove {
            let b = find_run_end(lines, i, LineKind::Remove);
            let c = find_run_end(lines, b, LineKind::Add);
            proof {
                lemma_same_run(now, v, i as int, i as int, LineKind::Remove);
                lemma_same_run(now, v, i as int, b as int, LineKind::Add);
                lemma_run_end(v, i as int + 1, LineKind::Remove);
            }
            pair_block(lines, i, b, c);
            proof {
                let block = paired_block(v, i as int, b as int, c as int);
                assert(paired_block(now, i as int, b as int, c as int) =~= block);
                assert(now.take(i as int) =~= done);
                assert(now.skip(c as int) =~= v.skip(c as int));
                assert(done + (block + paired(v, c as int)) =~= (done + block) + paired(
                    v,
                    c as int,
                ));
                done = done + block;
            }
            i = c;
        } else {
            proof {
                assert(done + (seq![v[i as int]] + paired(v, i as int + 1)) =~= done.push(
                    v[i as int],
                ) + paired(v, i as int + 1));
                assert(done.push(v[i as int]) + v.skip(i as int + 1) =~= done + v.skip(i as int));
                done = done.push(v[i as int]);
            }
            i = i + 1;
        }
    }
    assert(done + v.skip(n as int) =~= done);
    assert(done + paired(v, n as int) =~= done);
}

/// Runs depend only on the lines from their start on.
proof fn lemma_same_run(a: Seq<LineV>, b: Seq<LineV>, from: int, i: int, kind: LineKind)
    requires
        a.len() == b.len(),
        0 <= from <= i <= a.len(),
        forall|x: int| from <= x < a.len() ==> a[x] == b[x],
    ensures
        run_end(a, i, kind) == run_end(b, i, kind),
    decreases a.len() - i,
{
    if i < a.len() && a[i].kind == kind {
        lemma_same_run(a, b, from, i + 1, kind);
    }
}

/// A hunk with its changed words marked.
pub open spec fn marked_hunk(h: HunkV) -> HunkV {
    HunkV { lines: paired(h.lines, 0), ..h }
}

/// A file with its changed words marked.
pub open spec fn marked_file(f: FileV) -> FileV {
    FileV { hunks: f.hunks.map_values(|h: HunkV| marked_hunk(h)), ..f }
}

/// The files of a diff.
pub open spec fn parsed(s: Seq<char>) -> Seq<FileV> {
    ParserV::empty().after_all(whole_lines(s)).files.map_values(|f: FileV| marked_file(f))
}

fn mark_hunks(hunks: Vec<Hunk>) -> (r: Vec<Hunk>)
    ensures
        hunk_views(r@) == hunk_views(hunks@).map_values(|h: HunkV| marked_hunk(h)),
{
    let mut hunks = hunks;
    let ghost hv = hunk_views(hunks@);
    let mut out: Vec<Hunk> = Vec::new();
    while hunks.len() > 0
        invariant
            hunks@.len() + out@.len() == hv.len(),
            forall|i: int| 0 <= i < hunks@.len() ==> (#[trigger] hunks@[i])@ == hv[i],
            forall|i: int|
                0 <= i < out@.len() ==> (#[trigger] out@[i])@ == marked_hunk(
                    hv[hv.len() - 1 - i],
                ),
        decreases hunks@.len(),
    {
        let mut h = hunks.pop().unwrap();
        mark_words(&mut h.lines);
        out.push(h);
    }
    let mut r: Vec<Hunk> = Vec::new();
    while out.len() > 0
        invariant
            out@.len() + r@.len() == hv.len(),
            forall|i: int|
                0 <= i < out@.len() ==> (#[trigger] out@[i])@ == marked_hunk(
                    hv[hv.len() - 1 - i],
                ),
            forall|i: int| 0 <= i < r@.len() ==> (#[trigger] r@[i])@ == marked_hunk(hv[i]),
        decreases out@.len(),
    {
        let h = out.pop().unwrap();
        r.push(h);
    }
    assert(hunk_views(r@) =~= hv.map_values(|h: HunkV| marked_hunk(h)));
    r
}

/// Parse a unified diff into files. Text outside of any file is skipped.
pub fn parse(s: &str) -> (r: Vec<FileDiff>)
    ensures
        file_views(r@) == parsed(s@),
{
    let mut files = read_all(s).files;
    let ghost fv = file_views(files@);
    let mut out: Vec<FileDiff> = Vec::new();
    while files.len() > 0
        invariant
            files@.len() + out@.len() == fv.len(),
            forall|i: int| 0 <= i < files@.len() ==> (#[trigger] files@[i])@ == fv[i],
            forall|i: int|
                0 <= i < out@.len() ==> (#[trigger] out@[i])@ == marked_file(
                    fv[fv.len() - 1 - i],
                ),
        decreases files@.len(),
    {
        let f = files.pop().unwrap();
        let FileDiff { old_path, new_path, notes, is_binary, hunks } = f;
        let hunks = mark_hunks(hunks);
        out.push(FileDiff { old_path, new_path, notes, is_binary, hunks });
    }
    let mut r: Vec<FileDiff> = Vec::new();
    while out.len() > 0
        invariant
            out@.len() + r@.len() == fv.len(),
            forall|i: int|
                0 <= i < out@.len() ==> (#[trigger] out@[i])@ == marked_file(
                    fv[fv.len() - 1 - i],
                ),
            forall|i: int| 0 <= i < r@.len() ==> (#[trigger] r@[i])@ == marked_file(fv[i]),
        decreases out@.len(),
    {
        let f = out.pop().unwrap();
        r.push(f);
    }
    assert(file_views(r@) =~= fv.map_values(|f: FileV| marked_file(f)));
    r
}

pub(crate) proof fn lemma_parser_wf(lines: Seq<Seq<char>>)
    ensures
        ParserV::empty().after_all(lines).wf(),
    decreases lines.len(),
{
    if lines.len() > 0 {
        lemma_parser_wf(lines.drop_last());
    }
}

/// Every file of a diff has its raw text, in the same order.
pub proof fn law_raw_files_match(s: Seq<char>)
    ensures
        raw_files(s).len() == parsed(s).len(),
{
    lemma_parser_wf(whole_lines(s));
}

/// Texts, one behind the other.
pub open spec fn glued(v: Seq<Seq<char>>) -> Seq<char>
    decreases v.len(),
{
    if v.len() == 0 {
        Seq::empty()
    } else {
        glued(v.drop_last()) + v.last()
    }
}

proof fn lemma_glued_push(v: Seq<Seq<char>>, s: Seq<char>)
    ensures
        glued(v.push(s)) == glued(v) + s,
{
    assert(v.push(s).drop_last() =~= v);
}

proof fn lemma_whole_lines_glue(s: Seq<char>)
    ensures
        glued(whole_lines(s)) == s,
        forall|i: int| 0 <= i < whole_lines(s).len() ==> (#[trigger] whole_lines(s)[i]).len() > 0,
    decreases s.len(),
{
    if s.len() > 0 {
        let before = whole_lines(s.drop_last());
        lemma_whole_lines_glue(s.drop_last());
        if before.len() > 0 && before.last().last() != '\n' {
            lemma_glued_push(before.drop_last(), before.last().push(s.last()));
            assert(glued(whole_lines(s)) =~= glued(before).push(s.last()));
        } else {
            lemma_glued_push(before, seq![s.last()]);
            assert(glued(whole_lines(s)) =~= glued(before).push(s.last()));
        }
        assert(s.drop_last().push(s.last()) =~= s);
    }
}

/// What stands before the first file, and that nothing is lost behind it.
proof fn lemma_raw_glue(lines: Seq<Seq<char>>) -> (skipped: Seq<char>)
    ensures
        skipped + glued(ParserV::empty().after_all(lines).raw) == glued(lines),
    decreases lines.len(),
{
    let now = ParserV::empty().after_all(lines);
    if lines.len() == 0 {
        assert(Seq::<char>::empty() + glued(now.raw) =~= glued(lines));
        Seq::empty()
    } else {
        let before = ParserV::empty().after_all(lines.drop_last());
        let skipped = lemma_raw_glue(lines.drop_last());
        let l = lines.last();
        if now.raw.len() == 0 {
            assert(before.raw.len() == 0);
            assert(skipped + l + glued(now.raw) =~= glued(lines));
            skipped + l
        } else {
            lemma_glued_push(now.raw.drop_last(), now.raw.last());
            assert(now.raw.drop_last().push(now.raw.last()) =~= now.raw);
            if now.raw.len() == before.raw.len() {
                lemma_glued_push(before.raw.drop_last(), before.raw.last());
                assert(now.raw.drop_last() =~= before.raw.drop_last());
                assert(glued(now.raw) =~= glued(before.raw) + l);
            } else {
                assert(now.raw.drop_last() =~= before.raw);
                assert(now.raw.last() =~= l);
                assert(glued(now.raw) =~= glued(before.raw) + l);
            }
            assert(skipped + glued(now.raw) =~= glued(lines));
            skipped
        }
    }
}

/// The raw texts of the files are, one behind the other, the end of the
/// diff: nothing behind the start of the first file is lost.
pub proof fn law_raw_files_cover(s: Seq<char>)
    ensures
        exists|skipped: Seq<char>| #[trigger] (skipped + glued(raw_files(s))) == s,
{
    let skipped = lemma_raw_glue(whole_lines(s));
    lemma_whole_lines_glue(s);
    assert(skipped + glued(raw_files(s)) == s);
}

proof fn lemma_common_start(s: Seq<char>, t: Seq<char>, k: nat)
    requires
        k <= s.len(),
        k <= t.len(),
    ensures
        common_start(s, t, k) <= k,
        shares_start(s, t, common_start(s, t, k) as int),
        forall|j: int| common_start(s, t, k) < j <= k ==> !#[trigger] shares_start(s, t, j),
        common_start(t, s, k) == common_start(s, t, k),
    decreases k,
{
    if k == 0 {
        assert(s.take(0) =~= t.take(0));
    } else {
        lemma_common_start(s, t, (k - 1) as nat);
        assert(shares_start(s, t, k as int) <==> shares_start(t, s, k as int));
    }
}

proof fn lemma_common_end(s: Seq<char>, t: Seq<char>, k: nat)
    requires
        k <= s.len(),
        k <= t.len(),
    ensures
        common_end(s, t, k) <= k,
        shares_end(s, t, common_end(s, t, k) as int),
        forall|j: int| common_end(s, t, k) < j <= k ==> !#[trigger] shares_end(s, t, j),
        common_end(t, s, k) == common_end(s, t, k),
    decreases k,
{
    if k == 0 {
        assert(s.skip(s.len() as int) =~= t.skip(t.len() as int));
    } else {
        lemma_common_end(s, t, (k - 1) as nat);
        assert(shares_end(s, t, k as int) <==> shares_end(t, s, k as int));
    }
}

proof fn lemma_mask_add(a: Seq<SegmentV>, s: Seq<char>, changed: bool)
    ensures
        rows::change_mask(a + segment(s, changed)) == rows::change_mask(a) + Seq::new(
            s.len(),
            |i: int| changed,
        ),
{
    let tail = Seq::new(s.len(), |i: int| changed);
    if s.len() > 0 {
        assert((a + segment(s, changed)).drop_last() =~= a);
        assert(rows::change_mask(a + segment(s, changed)) =~= rows::change_mask(a) + tail);
    } else {
        assert(a + segment(s, changed) =~= a);
        assert(rows::change_mask(a) + tail =~= rows::change_mask(a));
    }
}

/// What is left unmarked is common to both lines. A line and its pair are both
/// made of a common start of `p` characters, a middle of their own and a
/// common end of `q` characters. The characters of the middle, and only they,
/// are marked as changed. So a word that only one line has is always marked,
/// however long the lines are.
pub proof fn law_unmarked_text_is_common(s: Seq<char>, t: Seq<char>) -> (r: (int, int))
    ensures
        0 <= r.0,
        0 <= r.1,
        r.0 + r.1 <= s.len(),
        r.0 + r.1 <= t.len(),
        s.take(r.0) == t.take(r.0),
        s.skip(s.len() - r.1) == t.skip(t.len() - r.1),
        rows::change_mask(word_segments(s, t)).len() == s.len(),
        forall|i: int|
            0 <= i < s.len() ==> #[trigger] rows::change_mask(word_segments(s, t))[i] == (r.0 <= i
                < s.len() - r.1),
        rows::change_mask(word_segments(t, s)).len() == t.len(),
        forall|i: int|
            0 <= i < t.len() ==> #[trigger] rows::change_mask(word_segments(t, s))[i] == (r.0 <= i
                < t.len() - r.1),
        is_boundary(s, r.0) && is_boundary(s, s.len() - r.1),
        is_boundary(t, r.0) && is_boundary(t, t.len() - r.1),
        forall|j: int| r.0 < j ==> !#[trigger] shares_start(s, t, j),
        forall|j: int|
            r.1 < j && r.0 + j <= s.len() && r.0 + j <= t.len() ==> !#[trigger] shares_end(s, t, j),
{
    let k = shorter(s.len(), t.len());
    lemma_common_start(s, t, k);
    let p = common_start(s, t, k);
    let rest = (k - p) as nat;
    assert(rest == shorter((s.len() - p) as nat, (t.len() - p) as nat));
    lemma_common_end(s, t, rest);
    let q = common_end(s, t, rest);
    lemma_mask_of(s, t, p as int, q as int);
    lemma_mask_of(t, s, p as int, q as int);
    (p as int, q as int)
}

proof fn lemma_mask_of(s: Seq<char>, t: Seq<char>, p: int, q: int)
    requires
        p == common_start(s, t, shorter(s.len(), t.len())),
        q == common_end(s, t, shorter((s.len() - p) as nat, (t.len() - p) as nat)),
        0 <= p,
        0 <= q,
        p + q <= s.len(),
    ensures
        rows::change_mask(word_segments(s, t)).len() == s.len(),
        forall|i: int|
            0 <= i < s.len() ==> #[trigger] rows::change_mask(word_segments(s, t))[i] == (p <= i
                < s.len() - q),
{
    let n = s.len();
    let a = segment(s.take(p), false);
    let b = segment(s.subrange(p, n - q), true);
    assert(Seq::<SegmentV>::empty() + a =~= a);
    lemma_mask_add(Seq::empty(), s.take(p), false);
    lemma_mask_add(a, s.subrange(p, n - q), true);
    lemma_mask_add(a + b, s.skip(n - q), false);
    assert(rows::change_mask(Seq::<SegmentV>::empty()) =~= Seq::<bool>::empty());
}

/// Emphasis starts and ends at words: no mark changes between two letters,
/// digits or underscores.
pub proof fn law_emphasis_keeps_words_whole(s: Seq<char>, t: Seq<char>, i: int)
    requires
        0 < i < s.len(),
        forall|k: int|
            i - 1 <= k <= i ==> {
                let c = #[trigger] s[k];
                'a' <= c <= 'z' || 'A' <= c <= 'Z' || '0' <= c <= '9' || c == '_'
            },
    ensures
        rows::change_mask(word_segments(s, t))[i - 1] == rows::change_mask(word_segments(s, t))[i],
{
    let (p, q) = law_unmarked_text_is_common(s, t);
    let m = rows::change_mask(word_segments(s, t));
    assert(m[i - 1] == (p <= i - 1 < s.len() - q));
    assert(m[i] == (p <= i < s.len() - q));
    assert(is_word(s[i - 1]) && is_word(s[i]));
}

/// The longer of two lines that differ is marked somewhere.
pub proof fn law_different_lines_are_marked(s: Seq<char>, t: Seq<char>)
    requires
        s != t,
        s.len() >= t.len(),
    ensures
        exists|i: int|
            0 <= i < s.len() && #[trigger] rows::change_mask(word_segments(s, t))[i],
{
    let (p, q) = law_unmarked_text_is_common(s, t);
    if p + q < s.len() {
        assert(rows::change_mask(word_segments(s, t))[p]);
    } else {
        assert(s =~= s.take(p) + s.skip(s.len() - q));
        assert(t =~= t.take(p) + t.skip(t.len() - q));
    }
}

pub(crate) proof fn lemma_paired_len(v: Seq<LineV>, i: int)
    requires
        0 <= i <= v.len(),
    ensures
        paired(v, i).len() == v.len() - i,
    decreases v.len() - i,
{
    if i < v.len() {
        if v[i].kind == LineKind::Remove {
            let b = run_end(v, i, LineKind::Remove);
            let c = run_end(v, b, LineKind::Add);
            lemma_run_end(v, i + 1, LineKind::Remove);
            lemma_run_end(v, i, LineKind::Remove);
            lemma_run_end(v, b, LineKind::Add);
            lemma_paired_len(v, c);
        } else {
            lemma_paired_len(v, i + 1);
        }
    }
}

proof fn lemma_run_is(v: Seq<LineV>, i: int, e: int, kind: LineKind)
    requires
        0 <= i <= e <= v.len(),
        forall|x: int| i <= x < e ==> (#[trigger] v[x]).kind == kind,
        e < v.len() ==> v[e].kind != kind,
    ensures
        run_end(v, i, kind) == e,
    decreases e - i,
{
    if i < e {
        lemma_run_is(v, i + 1, e, kind);
    }
}

/// Pairing goes on at the start of a run of removed lines, and at context.
proof fn lemma_paired_from(v: Seq<LineV>, i: int, x: int)
    requires
        0 <= i <= x <= v.len(),
        x == v.len() || x == 0 || v[x].kind != LineKind::Add && (v[x].kind != LineKind::Remove
            || v[x - 1].kind != LineKind::Remove),
    ensures
        paired(v, i) == paired(v, i).take(x - i) + paired(v, x),
    decreases x - i,
{
    lemma_paired_len(v, i);
    if i == x {
        assert(paired(v, i).take(0) + paired(v, x) =~= paired(v, x));
    } else if v[i].kind == LineKind::Remove {
        let b = run_end(v, i, LineKind::Remove);
        let c = run_end(v, b, LineKind::Add);
        lemma_run_end(v, i + 1, LineKind::Remove);
        lemma_run_end(v, i, LineKind::Remove);
        lemma_run_end(v, b, LineKind::Add);
        lemma_run_kinds(v, i, LineKind::Remove);
        lemma_run_kinds(v, b, LineKind::Add);
        assert(c <= x) by {
            if x < c {
                if x < b {
                    assert(v[x].kind == LineKind::Remove);
                    assert(v[x - 1].kind == LineKind::Remove);
                } else {
                    assert(v[x].kind == LineKind::Add);
                }
            }
        }
        lemma_paired_from(v, c, x);
        let block = paired_block(v, i, b, c);
        lemma_paired_len(v, c);
        assert((block + paired(v, c)).take(x - i) =~= block + paired(v, c).take(x - c));
        assert(paired(v, i) =~= paired(v, i).take(x - i) + paired(v, x));
    } else {
        lemma_paired_from(v, i + 1, x);
        lemma_paired_len(v, i + 1);
        assert((seq![v[i]] + paired(v, i + 1)).take(x - i) =~= seq![v[i]] + paired(v, i + 1).take(
            x - i - 1,
        ));
        assert(paired(v, i) =~= paired(v, i).take(x - i) + paired(v, x));
    }
}

proof fn lemma_run_kinds(v: Seq<LineV>, i: int, kind: LineKind)
    requires
        0 <= i <= v.len(),
    ensures
        forall|x: int| i <= x < run_end(v, i, kind) ==> (#[trigger] v[x]).kind == kind,
        i <= run_end(v, i, kind) <= v.len(),
    decreases v.len() - i,
{
    if i < v.len() && v[i].kind == kind {
        lemma_run_kinds(v, i + 1, kind);
    }
}

/// In a run of `m` removed lines that `n` added ones follow, the removed and
/// the added line of each number are compared with each other, as far as
/// there are both. The others are compared with nothing.
#[verifier::rlimit(40)]
pub proof fn law_lines_are_compared_in_order(v: Seq<LineV>, i: int, m: int, n: int, k: int)
    requires
        0 <= i,
        0 < m,
        0 <= n,
        i + m + n <= v.len(),
        i > 0 ==> v[i - 1].kind != LineKind::Remove,
        forall|x: int| i <= x < i + m ==> (#[trigger] v[x]).kind == LineKind::Remove,
        forall|x: int| i + m <= x < i + m + n ==> (#[trigger] v[x]).kind == LineKind::Add,
        i + m + n < v.len() ==> v[i + m + n].kind != LineKind::Add && (n == 0 ==> v[i + m].kind
            != LineKind::Remove),
        0 <= k,
    ensures
        k < m && k < n ==> paired(v, 0)[i + k].segments == word_segments(
            v[i + k].content,
            v[i + m + k].content,
        ),
        k < m && k < n ==> paired(v, 0)[i + m + k].segments == word_segments(
            v[i + m + k].content,
            v[i + k].content,
        ),
        n <= k < m ==> paired(v, 0)[i + k] == v[i + k],
        m <= k < n ==> paired(v, 0)[i + m + k] == v[i + m + k],
{
    let block = paired_block(v, i, i + m, i + m + n);
    assert(v[i].kind == LineKind::Remove);
    assert(i + m < v.len() ==> v[i + m].kind != LineKind::Remove) by {
        if i + m < v.len() && n > 0 {
            assert(v[i + m].kind == LineKind::Add);
        }
    }
    lemma_run_is(v, i, i + m, LineKind::Remove);
    lemma_run_is(v, i + m, i + m + n, LineKind::Add);
    lemma_block_stands(v, i, i + m, i + m + n);
    if k < m {
        assert(paired(v, 0)[i + k] == block[k]);
    }
    if k < n {
        assert(paired(v, 0)[i + m + k] == block[m + k]);
    }
}

/// Comparing lines changes nothing of them but their segments, and nothing at
/// all of context lines.
pub proof fn law_comparing_keeps_lines(v: Seq<LineV>, i: int)
    requires
        0 <= i < v.len(),
    ensures
        paired(v, 0).len() == v.len(),
        paired(v, 0)[i].kind == v[i].kind,
        paired(v, 0)[i].content == v[i].content,
        paired(v, 0)[i].old_no == v[i].old_no,
        paired(v, 0)[i].new_no == v[i].new_no,
        v[i].kind == LineKind::Context ==> paired(v, 0)[i] == v[i],
{
    lemma_paired_keeps(v, 0, i);
}

proof fn lemma_paired_keeps(v: Seq<LineV>, from: int, i: int)
    requires
        0 <= from <= i < v.len(),
    ensures
        paired(v, from).len() == v.len() - from,
        paired(v, from)[i - from].kind == v[i].kind,
        paired(v, from)[i - from].content == v[i].content,
        paired(v, from)[i - from].old_no == v[i].old_no,
        paired(v, from)[i - from].new_no == v[i].new_no,
        v[i].kind == LineKind::Context ==> paired(v, from)[i - from] == v[i],
    decreases v.len() - from,
{
    lemma_paired_len(v, from);
    if v[from].kind == LineKind::Remove {
        let b = run_end(v, from, LineKind::Remove);
        let c = run_end(v, b, LineKind::Add);
        lemma_run_end(v, from + 1, LineKind::Remove);
        lemma_run_kinds(v, from, LineKind::Remove);
        lemma_run_kinds(v, b, LineKind::Add);
        if i >= c {
            lemma_paired_keeps(v, c, i);
            assert(paired(v, from)[i - from] == paired(v, c)[i - c]);
        } else {
            assert(paired(v, from)[i - from] == paired_block(v, from, b, c)[i - from]);
            assert(v[i].kind != LineKind::Context);
        }
    } else if i > from {
        lemma_paired_keeps(v, from + 1, i);
        assert(paired(v, from)[i - from] == paired(v, from + 1)[i - from - 1]);
    }
}

/// The lines of a kind are counted one by one.
pub proof fn law_lines_are_counted(v: Seq<LineV>, kind: LineKind)
    ensures
        kind_count(v, kind) == v.filter(|l: LineV| l.kind == kind).len(),
    decreases v.len(),
{
    reveal(Seq::filter);
    if v.len() > 0 {
        law_lines_are_counted(v.drop_last(), kind);
    }
}

/// The counts of a file add up over its hunks, and those of a diff over its
/// files.
pub proof fn law_counts_add_up(h: Seq<HunkV>, g: Seq<HunkV>, v: Seq<FileV>, w: Seq<FileV>, k: LineKind)
    ensures
        hunks_count(h + g, k) == hunks_count(h, k) + hunks_count(g, k),
        files_count(v + w, k) == files_count(v, k) + files_count(w, k),
    decreases g.len() + w.len(),
{
    if g.len() > 0 {
        law_counts_add_up(h, g.drop_last(), v, w, k);
        assert((h + g).drop_last() =~= h + g.drop_last());
    } else {
        assert(h + g =~= h);
        if w.len() > 0 {
            law_counts_add_up(h, g, v, w.drop_last(), k);
            assert((v + w).drop_last() =~= v + w.drop_last());
        } else {
            assert(v + w =~= v);
        }
    }
    if w.len() == 0 {
        assert(v + w =~= v);
    }
}

/// A file of one hunk adds and removes the lines of that hunk, and a diff of
/// one file those of that file.
pub proof fn law_counts_of_one(f: FileV, h: HunkV)
    requires
        f.hunks == seq![h],
        h.lines.len() <= usize::MAX,
    ensures
        f.stats().0 == h.lines.filter(|l: LineV| l.kind == LineKind::Add).len(),
        f.stats().1 == h.lines.filter(|l: LineV| l.kind == LineKind::Remove).len(),
        totals_of(seq![f]) == (1nat, f.stats().0, f.stats().1),
{
    law_lines_are_counted(h.lines, LineKind::Add);
    law_lines_are_counted(h.lines, LineKind::Remove);
    h.lines.lemma_filter_len(|l: LineV| l.kind == LineKind::Add);
    h.lines.lemma_filter_len(|l: LineV| l.kind == LineKind::Remove);
    reveal_with_fuel(hunks_count, 2);
    reveal_with_fuel(files_count, 2);
    assert(seq![h].drop_last() =~= Seq::<HunkV>::empty());
    assert(seq![f].drop_last() =~= Seq::<FileV>::empty());
}

/// Added lines that follow no removed ones are compared with nothing.
pub proof fn law_added_lines_alone(v: Seq<LineV>, i: int, j: int)
    requires
        0 <= i <= j < v.len(),
        i > 0 ==> v[i - 1].kind == LineKind::Context,
        forall|x: int| i <= x <= j ==> (#[trigger] v[x]).kind == LineKind::Add,
    ensures
        paired(v, 0)[j] == v[j],
{
    lemma_alone(v, 0, i, j);
}

proof fn lemma_alone(v: Seq<LineV>, from: int, i: int, j: int)
    requires
        0 <= from <= i <= j < v.len(),
        i > 0 ==> v[i - 1].kind == LineKind::Context,
        forall|x: int| i <= x <= j ==> (#[trigger] v[x]).kind == LineKind::Add,
    ensures
        paired(v, from)[j - from] == v[j],
        paired(v, from).len() == v.len() - from,
    decreases v.len() - from,
{
    lemma_paired_len(v, from);
    if from == i {
        lemma_alone_from(v, i, j);
    } else if v[from].kind == LineKind::Remove {
        let b = run_end(v, from, LineKind::Remove);
        let c = run_end(v, b, LineKind::Add);
        lemma_run_end(v, from + 1, LineKind::Remove);
        lemma_run_kinds(v, from, LineKind::Remove);
        lemma_run_kinds(v, b, LineKind::Add);
        assert(c <= i - 1) by {
            if c > i - 1 {
                if b > i - 1 {
                    assert(v[i - 1].kind == LineKind::Remove);
                } else {
                    assert(v[i - 1].kind == LineKind::Add);
                }
            }
        }
        lemma_alone(v, c, i, j);
        assert(paired(v, from)[j - from] == paired(v, c)[j - c]);
    } else {
        lemma_alone(v, from + 1, i, j);
        assert(paired(v, from)[j - from] == paired(v, from + 1)[j - from - 1]);
    }
}

proof fn lemma_alone_from(v: Seq<LineV>, i: int, j: int)
    requires
        0 <= i <= j < v.len(),
        forall|x: int| i <= x <= j ==> (#[trigger] v[x]).kind == LineKind::Add,
    ensures
        paired(v, i)[j - i] == v[j],
        paired(v, i).len() == v.len() - i,
    decreases j - i,
{
    lemma_paired_len(v, i);
    assert(v[i].kind == LineKind::Add);
    if i < j {
        lemma_alone_from(v, i + 1, j);
        assert(paired(v, i)[j - i] == paired(v, i + 1)[j - i - 1]);
    }
}

/// Whether a character separates words: an ASCII character that is neither a
/// letter nor a digit nor an underscore.
pub open spec fn separates(c: char) -> bool {
    c as u32 <= 0x7f && !('a' <= c <= 'z') && !('A' <= c <= 'Z') && !('0' <= c <= '9') && c != '_'
}

/// What two lines have in common up to a separator at their start is never
/// marked.
pub proof fn law_common_words_are_not_marked(s: Seq<char>, t: Seq<char>, k: int, i: int)
    requires
        0 < k <= s.len(),
        k <= t.len(),
        s.take(k) == t.take(k),
        separates(s[k - 1]),
        0 <= i < k,
    ensures
        !rows::change_mask(word_segments(s, t))[i],
{
    let (p, q) = law_unmarked_text_is_common(s, t);
    let (a, b) = (s.take(k), t.take(k));
    assert(a[k - 1] == s[k - 1]);
    assert(b[k - 1] == t[k - 1]);
    assert(!is_word(s[k - 1]));
    assert(shares_start(s, t, k));
    assert(rows::change_mask(word_segments(s, t))[i] == (p <= i < s.len() - q));
}

/// A line that only lost or gained words at its end is marked there alone.
pub proof fn law_words_put_behind(s: Seq<char>, x: Seq<char>)
    requires
        s.len() > 0,
        x.len() > 0,
        separates(s.last()) || separates(x.first()),
    ensures
        forall|i: int|
            0 <= i < s.len() ==> !#[trigger] rows::change_mask(word_segments(s + x, s))[i],
        rows::change_mask(word_segments(s + x, s)).len() == s.len() + x.len(),
        forall|i: int|
            s.len() <= i < s.len() + x.len() ==> #[trigger] rows::change_mask(
                word_segments(s + x, s),
            )[i],
{
    let l = s + x;
    let n = s.len() as int;
    let (p, q) = law_unmarked_text_is_common(l, s);
    assert(l.take(n) =~= s.take(n));
    assert(l[n - 1] == s.last());
    assert(l[n] == x.first());
    assert(shares_start(l, s, n));
    assert(p >= n);
    assert(p + q <= n);
}

/// The lines of a paired block stand in the whole where they stood before.
proof fn lemma_block_stands(v: Seq<LineV>, i: int, b: int, c: int)
    requires
        0 <= i < b <= c <= v.len(),
        v[i].kind == LineKind::Remove,
        i > 0 ==> v[i - 1].kind != LineKind::Remove,
        run_end(v, i, LineKind::Remove) == b,
        run_end(v, b, LineKind::Add) == c,
    ensures
        forall|x: int|
            i <= x < c ==> #[trigger] paired(v, 0)[x] == paired_block(v, i, b, c)[x - i],
{
    lemma_paired_from(v, 0, i);
    lemma_paired_len(v, 0);
    lemma_paired_len(v, i);
    let block = paired_block(v, i, b, c);
    let all = paired(v, 0);
    let here = paired(v, i);
    assert(here == block + paired(v, c));
    assert forall|x: int| i <= x < c implies #[trigger] all[x] == block[x - i] by {
        assert(all[x] == here[x - i]);
        assert(here[x - i] == block[x - i]);
    }
}

} // verus!
