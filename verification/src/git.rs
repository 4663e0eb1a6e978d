//! Git integration: the commands that produce a diff, what their output
//! means, and the repository layout in normal repos, linked worktrees, and
//! bare repos.
use crate::paths;
use crate::text;
use vstd::prelude::*;

verus! {

/// What to diff.
#[derive(Debug, Clone)]
pub enum Source {
    /// Read a diff straight from stdin (pager mode).
    Stdin,
    /// Working tree vs index (`git diff`).
    Worktree,
    /// Index vs HEAD (`git diff --staged`).
    Staged,
    /// A single commit (`git show`), or a revision range `a..b`.
    Rev(String),
}

/// Viewer-safe knobs for how git renders the diff. These only tune the unified
/// patch (never switch to a non-viewable format), plus an optional pathspec.
#[derive(Debug, Clone)]
pub struct Opts {
    pub ignore_whitespace: bool,
    pub context: Option<usize>,
    pub algorithm: Option<String>,
    pub pathspec: Vec<String>,
    /// Also show untracked (non-ignored) files, each diffed against an empty
    /// blob. Only meaningful for the worktree source.
    pub all: bool,
}

/// What some diff options hold.
#[verifier::ext_equal]
pub struct Knobs {
    pub ignore_whitespace: bool,
    pub context: Option<usize>,
    pub algorithm: Option<Seq<char>>,
    pub pathspec: Seq<Seq<char>>,
    pub all: bool,
}

impl View for Opts {
    type V = Knobs;

    open spec fn view(&self) -> Knobs {
        Knobs {
            ignore_whitespace: self.ignore_whitespace,
            context: self.context,
            algorithm: match self.algorithm {
                Some(a) => Some(a@),
                None => None,
            },
            pathspec: text::texts(self.pathspec@),
            all: self.all,
        }
    }
}

impl Default for Opts {
    fn default() -> (r: Opts)
        ensures
            r@ =~= (Knobs {
                ignore_whitespace: false,
                context: None,
                algorithm: None,
                pathspec: Seq::empty(),
                all: false,
            }),
    {
        let r = Opts {
            ignore_whitespace: false,
            context: None,
            algorithm: None,
            pathspec: Vec::new(),
            all: false,
        };
        assert(text::texts(r.pathspec@) =~= Seq::empty());
        r
    }
}

/// One text, if `b` holds.
pub open spec fn only_if(b: bool, s: Seq<char>) -> Seq<Seq<char>> {
    if b {
        seq![s]
    } else {
        Seq::empty()
    }
}

/// The git flags of some options.
pub open spec fn flag_texts(o: Knobs) -> Seq<Seq<char>> {
    only_if(o.ignore_whitespace, "-w"@) + only_if(
        o.context is Some,
        "-U"@ + text::dec(o.context->0 as nat),
    ) + only_if(o.algorithm is Some, "--diff-algorithm="@ + o.algorithm->0)
}

/// The pathspec at the end of a command line.
pub open spec fn pathspec_texts(o: Knobs) -> Seq<Seq<char>> {
    if o.pathspec.len() > 0 {
        seq!["--"@] + o.pathspec
    } else {
        Seq::empty()
    }
}

impl Opts {
    /// The git flags of these options.
    pub fn flags(&self) -> (r: Vec<String>)
        ensures
            text::texts(r@) == flag_texts(self@),
    {
        let mut v: Vec<String> = Vec::new();
        if self.ignore_whitespace {
            text::add_text(&mut v, "-w");
        }
        assert(text::texts(v@) =~= only_if(self.ignore_whitespace, "-w"@));
        if let Some(n) = self.context {
            let mut s = "-U".to_owned();
            s.push_str(text::decimal(n).as_str());
            text::add_text(&mut v, s.as_str());
        }
        assert(text::texts(v@) =~= only_if(self.ignore_whitespace, "-w"@) + only_if(
            self@.context is Some,
            "-U"@ + text::dec(self@.context->0 as nat),
        ));
        if let Some(a) = &self.algorithm {
            let mut s = "--diff-algorithm=".to_owned();
            s.push_str(a.as_str());
            text::add_text(&mut v, s.as_str());
        }
        assert(text::texts(v@) =~= flag_texts(self@));
        v
    }

    fn add_pathspec(&self, a: &mut Vec<String>)
        ensures
            text::texts(final(a)@) == text::texts(old(a)@) + pathspec_texts(self@),
    {
        assert(text::texts(self.pathspec@).len() == self.pathspec@.len());
        if !self.pathspec.is_empty() {
            text::add_text(a, "--");
            text::extend(a, &self.pathspec);
        }
        assert(text::texts(a@) =~= text::texts(old(a)@) + pathspec_texts(self@));
    }

    /// A copy of the options.
    pub fn copy(&self) -> (r: Opts)
        ensures
            r@ == self@,
    {
        let mut paths: Vec<String> = Vec::new();
        assert(text::texts(paths@) =~= Seq::empty());
        text::extend(&mut paths, &self.pathspec);
        let algorithm = match &self.algorithm {
            Some(a) => Some(a.clone()),
            None => None,
        };
        let r = Opts {
            ignore_whitespace: self.ignore_whitespace,
            context: self.context,
            algorithm,
            pathspec: paths,
            all: self.all,
        };
        assert(r@ =~= self@);
        r
    }
}

/// Resolved repository paths used for watching.
#[derive(Debug, Clone)]
pub struct Repo {
    /// Per-worktree git dir (holds index, HEAD). Absolute.
    pub git_dir: String,
    /// Shared common dir (holds refs, packed-refs, logs). Absolute.
    pub common_dir: String,
    pub is_bare: bool,
}

/// The arguments of the git command whose output [`discover`] reads.
pub fn discover_args() -> (r: Vec<String>)
    ensures
        text::texts(r@) == seq![
            "rev-parse"@,
            "--path-format=absolute"@,
            "--git-dir"@,
            "--git-common-dir"@,
            "--is-bare-repository"@,
        ],
{
    let mut v: Vec<String> = Vec::new();
    text::add_text(&mut v, "rev-parse");
    text::add_text(&mut v, "--path-format=absolute");
    text::add_text(&mut v, "--git-dir");
    text::add_text(&mut v, "--git-common-dir");
    text::add_text(&mut v, "--is-bare-repository");
    assert(text::texts(v@) =~= seq![
        "rev-parse"@,
        "--path-format=absolute"@,
        "--git-dir"@,
        "--git-common-dir"@,
        "--is-bare-repository"@,
    ]);
    v
}

/// Resolve the repository layout from what `git rev-parse` printed: the git
/// dir, the common dir and whether the repo is bare, one per line. `None` when
/// the command failed or printed nothing. An absent common dir is the git dir.
pub fn discover(out: Option<&str>) -> (r: Option<Repo>)
    ensures
        r is Some <==> out is Some && text::line_texts(out->0@).len() > 0,
        r matches Some(repo) ==> {
            let l = text::line_texts(out->0@);
            let common = if l.len() > 1 {
                text::trimmed(l[1])
            } else {
                Seq::empty()
            };
            &&& repo.git_dir@ == text::trimmed(l[0])
            &&& repo.common_dir@ == (if common.len() == 0 {
                text::trimmed(l[0])
            } else {
                common
            })
            &&& repo.is_bare == (l.len() > 2 && text::trimmed(l[2]) == "true"@)
        },
{
    let t = match out {
        Some(t) => t,
        None => return None,
    };
    let l = text::lines(t);
    let ghost lt = text::texts(l@);
    assert(lt.len() == l@.len());
    assert(forall|i: int| 0 <= i < l@.len() ==> lt[i] == (#[trigger] l@[i])@);
    if l.len() == 0 {
        return None;
    }
    let git_dir = text::trim(l[0].as_str());
    let mut common_dir = if l.len() > 1 {
        text::trim(l[1].as_str())
    } else {
        String::new()
    };
    let is_bare = if l.len() > 2 {
        let b = text::trim(l[2].as_str());
        text::same(b.as_str(), "true")
    } else {
        false
    };
    if common_dir.as_str().is_empty() {
        common_dir = git_dir.clone();
    }
    Some(Repo { git_dir, common_dir, is_bare })
}

/// Absolute path to the working-tree root, from what
/// `git rev-parse --show-toplevel` printed; `None` when it failed or printed
/// nothing, as in a bare repo.
pub fn toplevel(out: Option<&str>) -> (r: Option<String>)
    ensures
        r is Some <==> out is Some && text::trimmed(out->0@).len() > 0,
        r is Some ==> r->0@ == text::trimmed(out->0@),
{
    match out {
        Some(t) => {
            let s = text::trim(t);
            if s.as_str().is_empty() {
                None
            } else {
                Some(s)
            }
        },
        None => None,
    }
}

/// A text without its ANSI escape sequences, as `uncurses::ansi::strip::strip`
/// gives it.
pub uninterp spec fn stripped(s: Seq<char>) -> Seq<char>;

/// Remove ANSI escape sequences.
///
/// Calls `uncurses::ansi::strip::strip`. Believed of it: the result is a
/// function of the text; it holds no escape character; and a text that holds
/// none is returned as it is.
#[verifier::external_body]
fn strip(s: &str) -> (r: String)
    ensures
        r@ == stripped(s@),
        !r@.contains('\u{1b}'),
        !s@.contains('\u{1b}') ==> r@ == s@,
{
    uncurses::ansi::strip::strip(s)
}

/// The diff text of a pipe. Git colorizes the diff it pipes to a pager; the
/// color is stripped so that plain text is left.
pub fn piped_diff(raw: &str) -> (r: String)
    ensures
        r@ == stripped(raw@),
        !r@.contains('\u{1b}'),
        !raw@.contains('\u{1b}') ==> r@ == raw@,
{
    strip(raw)
}

/// What a command printed, and whether it succeeded.
#[derive(Debug, Clone)]
pub struct Output {
    pub success: bool,
    pub stdout: String,
    pub stderr: String,
}

/// The options that force a stable, parseable format whatever the user's git
/// config says, with plain `a/` and `b/` path prefixes.
pub open spec fn stable_texts() -> Seq<Seq<char>> {
    seq![
        "-c"@,
        "core.pager=cat"@,
        "-c"@,
        "color.diff=never"@,
        "-c"@,
        "diff.mnemonicPrefix=false"@,
    ]
}

/// The git subcommand of a source and the flags that go with it.
pub open spec fn verb_texts(s: Source) -> Seq<Seq<char>> {
    match s {
        Source::Staged => seq!["diff"@, "--no-color"@, "--no-ext-diff"@, "--staged"@],
        Source::Rev(rev) => if text::occurs(rev@, seq!['.', '.']) {
            seq!["diff"@, "--no-color"@, "--no-ext-diff"@]
        } else {
            seq!["show"@, "--no-color"@, "--no-ext-diff"@, "--format=fuller"@]
        },
        _ => seq!["diff"@, "--no-color"@, "--no-ext-diff"@],
    }
}

/// The revision of a source.
pub open spec fn rev_texts(s: Source) -> Seq<Seq<char>> {
    match s {
        Source::Rev(rev) => seq![rev@],
        _ => Seq::empty(),
    }
}

/// The arguments of the git command that produces the diff of a source.
pub open spec fn diff_texts(s: Source, o: Knobs) -> Seq<Seq<char>> {
    stable_texts() + verb_texts(s) + flag_texts(o) + rev_texts(s) + pathspec_texts(o)
}

/// The arguments of the git command that lists the untracked files.
pub open spec fn list_texts(o: Knobs) -> Seq<Seq<char>> {
    seq!["ls-files"@, "--others"@, "--exclude-standard"@, "-z"@] + pathspec_texts(o)
}

/// The arguments of the git command that diffs an untracked file against an
/// empty one.
pub open spec fn fresh_texts(o: Knobs, file: Seq<char>) -> Seq<Seq<char>> {
    seq![
        "-c"@,
        "diff.mnemonicPrefix=false"@,
        "diff"@,
        "--no-color"@,
        "--no-ext-diff"@,
        "--no-index"@,
    ] + flag_texts(o) + seq!["/dev/null"@, file]
}

/// The texts of `v`, one behind the other.
pub open spec fn concat_texts(v: Seq<Seq<char>>) -> Seq<char>
    decreases v.len(),
{
    if v.len() == 0 {
        Seq::empty()
    } else {
        concat_texts(v.drop_last()) + v.last()
    }
}

impl Source {
    /// The arguments of the git command that produces this source's diff,
    /// tuned by `opts`. A pipe has none.
    pub fn diff_args(&self, opts: &Opts) -> (r: Vec<String>)
        requires
            !(self is Stdin),
        ensures
            text::texts(r@) == diff_texts(*self, opts@),
    {
        let mut a: Vec<String> = Vec::new();
        text::add_text(&mut a, "-c");
        text::add_text(&mut a, "core.pager=cat");
        text::add_text(&mut a, "-c");
        text::add_text(&mut a, "color.diff=never");
        text::add_text(&mut a, "-c");
        text::add_text(&mut a, "diff.mnemonicPrefix=false");
        assert(text::texts(a@) =~= stable_texts());
        let range = match self {
            Source::Rev(rev) => text::contains_pair(rev.as_str(), '.', '.'),
            _ => true,
        };
        if range {
            text::add_text(&mut a, "diff");
        } else {
            text::add_text(&mut a, "show");
        }
        text::add_text(&mut a, "--no-color");
        text::add_text(&mut a, "--no-ext-diff");
        match self {
            Source::Staged => text::add_text(&mut a, "--staged"),
            Source::Rev(_) => {
                if !range {
                    text::add_text(&mut a, "--format=fuller");
                }
            },
            _ => {},
        }
        assert(text::texts(a@) =~= stable_texts() + verb_texts(*self));
        let flags = opts.flags();
        text::extend(&mut a, &flags);
        if let Source::Rev(rev) = self {
            text::add_text(&mut a, rev.as_str());
        }
        assert(text::texts(a@) =~= stable_texts() + verb_texts(*self) + flag_texts(opts@)
            + rev_texts(*self));
        opts.add_pathspec(&mut a);
        a
    }

    /// The unified diff text of this source: what its git command printed,
    /// then the diffs of the untracked files where `opts` asks for them. An
    /// error says why git failed. A pipe has no git command: its text is what
    /// was read from it, without colors.
    pub fn diff(&self, opts: &Opts, out: &Output, untracked: &Vec<String>) -> (r: Result<
        String,
        String,
    >)
        ensures
            r is Ok <==> self is Stdin || out.success,
            r matches Ok(t) ==> t@ == if self is Stdin {
                stripped(out.stdout@)
            } else if opts@.all && self is Worktree {
                out.stdout@ + concat_texts(text::texts(untracked@))
            } else {
                out.stdout@
            },
            r matches Err(e) ==> e@ == "git failed: "@ + text::trimmed(out.stderr@),
    {
        if self.is_stdin() {
            return Ok(piped_diff(out.stdout.as_str()));
        }
        if !out.success {
            let mut e = "git failed: ".to_owned();
            e.push_str(text::trim(out.stderr.as_str()).as_str());
            return Err(e);
        }
        let mut t = out.stdout.clone();
        assert(t@ =~= out.stdout@ + Seq::empty());
        if self.shows_untracked(opts) {
            let ghost u = text::texts(untracked@);
            for i in 0..untracked.len()
                invariant
                    u == text::texts(untracked@),
                    t@ == out.stdout@ + concat_texts(u.take(i as int)),
            {
                assert(u.take(i as int + 1).drop_last() =~= u.take(i as int));
                assert(u[i as int] == untracked@[i as int]@);
                t.push_str(untracked[i].as_str());
                assert(t@ =~= out.stdout@ + concat_texts(u.take(i as int + 1)));
            }
            assert(u.take(u.len() as int) =~= u);
        }
        Ok(t)
    }

    /// Whether the diff of this source also shows untracked files.
    pub fn shows_untracked(&self, opts: &Opts) -> (r: bool)
        ensures
            r == (opts@.all && self is Worktree),
    {
        opts.all && self.reads_worktree()
    }

    /// Whether this source reflects unstaged working-tree edits, which touch
    /// neither the index nor refs and so escape the git-internals watcher.
    /// Only these need the polling fallback in watch mode.
    pub fn reads_worktree(&self) -> (r: bool)
        ensures
            r == (self is Worktree),
    {
        match self {
            Source::Worktree => true,
            _ => false,
        }
    }

    /// Whether this source is a pipe.
    pub fn is_stdin(&self) -> (r: bool)
        ensures
            r == (self is Stdin),
    {
        match self {
            Source::Stdin => true,
            _ => false,
        }
    }

    /// The source that the command line asks for: a diff piped on stdin where
    /// nothing else is selected, else the staged changes, a revision, or the
    /// working tree.
    pub fn select(piped: bool, staged: bool, revision: Option<String>) -> (r: Source)
        ensures
            r is Stdin <==> piped && !staged && revision is None,
            r is Staged <==> staged,
            r is Rev <==> !staged && revision is Some,
            r is Worktree <==> !piped && !staged && revision is None,
            r matches Source::Rev(s) ==> Some(s) == revision,
    {
        if staged {
            Source::Staged
        } else {
            match revision {
                Some(rev) => Source::Rev(rev),
                None => if piped {
                    Source::Stdin
                } else {
                    Source::Worktree
                },
            }
        }
    }

    /// The source as the repository allows it. Everything but a pipe needs a
    /// repository; a bare one has no working tree, so that HEAD is shown
    /// instead of the working tree or the index.
    pub fn in_repo(self, repo: Option<&Repo>) -> (r: Result<Source, String>)
        ensures
            r is Err <==> repo is None && !(self is Stdin),
            r matches Err(e) ==> e@ == "not a git repository"@,
            r matches Ok(s) ==> if repo is Some && repo->0.is_bare && (self is Worktree
                || self is Staged) {
                s matches Source::Rev(h) && h@ == "HEAD"@
            } else {
                s == self
            },
    {
        match repo {
            None => if self.is_stdin() {
                Ok(self)
            } else {
                Err("not a git repository".to_owned())
            },
            Some(p) => if p.is_bare {
                match self {
                    Source::Worktree => Ok(Source::Rev("HEAD".to_owned())),
                    Source::Staged => Ok(Source::Rev("HEAD".to_owned())),
                    other => Ok(other),
                }
            } else {
                Ok(self)
            },
        }
    }
}

/// The arguments of the git command that lists the untracked, non-ignored
/// files, under the same pathspec as the main diff.
pub fn untracked_list_args(opts: &Opts) -> (r: Vec<String>)
    ensures
        text::texts(r@) == list_texts(opts@),
{
    let mut ls: Vec<String> = Vec::new();
    text::add_text(&mut ls, "ls-files");
    text::add_text(&mut ls, "--others");
    text::add_text(&mut ls, "--exclude-standard");
    text::add_text(&mut ls, "-z");
    assert(text::texts(ls@) =~= seq!["ls-files"@, "--others"@, "--exclude-standard"@, "-z"@]);
    opts.add_pathspec(&mut ls);
    ls
}

/// The files that a listing names: the non-empty texts between null
/// characters.
pub open spec fn listed_texts(out: Seq<char>) -> Seq<Seq<char>> {
    text::split_at(out, '\0').filter(|f: Seq<char>| f.len() > 0)
}

/// The untracked files that git listed; none when the listing failed.
pub fn untracked_files(listed: &Output) -> (r: Vec<String>)
    ensures
        text::texts(r@) == (if listed.success {
            listed_texts(listed.stdout@)
        } else {
            Seq::empty()
        }),
{
    let mut out: Vec<String> = Vec::new();
    assert(text::texts(out@) =~= Seq::empty());
    if !listed.success {
        return out;
    }
    let p = text::split_on(listed.stdout.as_str(), '\0');
    let ghost t = text::texts(p@);
    let ghost keep = |f: Seq<char>| f.len() > 0;
    reveal(Seq::filter);
    assert(t.take(0).filter(keep) =~= Seq::empty());
    for i in 0..p.len()
        invariant
            t == text::texts(p@),
            keep == (|f: Seq<char>| f.len() > 0),
            text::texts(out@) == t.take(i as int).filter(keep),
    {
        assert(t.take(i as int + 1).drop_last() =~= t.take(i as int));
        assert(t[i as int] == p@[i as int]@);
        reveal(Seq::filter);
        if !p[i].as_str().is_empty() {
            text::add_text(&mut out, p[i].as_str());
        }
    }
    assert(t.take(t.len() as int) =~= t);
    out
}

/// The arguments of the git command that diffs one untracked file against an
/// empty input, under the same render flags as the main diff.
pub fn untracked_diff_args(opts: &Opts, file: &str) -> (r: Vec<String>)
    ensures
        text::texts(r@) == fresh_texts(opts@, file@),
{
    let mut a: Vec<String> = Vec::new();
    text::add_text(&mut a, "-c");
    text::add_text(&mut a, "diff.mnemonicPrefix=false");
    text::add_text(&mut a, "diff");
    text::add_text(&mut a, "--no-color");
    text::add_text(&mut a, "--no-ext-diff");
    text::add_text(&mut a, "--no-index");
    assert(text::texts(a@) =~= seq![
        "-c"@,
        "diff.mnemonicPrefix=false"@,
        "diff"@,
        "--no-color"@,
        "--no-ext-diff"@,
        "--no-index"@,
    ]);
    let flags = opts.flags();
    text::extend(&mut a, &flags);
    text::add_text(&mut a, "/dev/null");
    text::add_text(&mut a, file);
    assert(text::texts(a@) =~= fresh_texts(opts@, file@));
    a
}

/// A path to watch, and whether with everything below it.
#[derive(Debug, Clone)]
pub struct Target {
    pub path: String,
    pub recursive: bool,
}

/// The paths and depths of some targets.
pub open spec fn target_views(v: Seq<Target>) -> Seq<(Seq<char>, bool)> {
    v.map_values(|t: Target| (t.path@, t.recursive))
}

/// What to watch in a repository: the git dir, which holds the index and
/// HEAD; the refs and logs of the common dir with all below them, as far as
/// they exist; and the common dir itself where it is another.
pub open spec fn watched(
    git_dir: Seq<char>,
    common: Seq<char>,
    refs: bool,
    logs: bool,
) -> Seq<(Seq<char>, bool)> {
    let a = seq![(git_dir, false)];
    let b = if refs {
        a.push((paths::joined_path(common, "refs"@), true))
    } else {
        a
    };
    let c = if logs {
        b.push((paths::joined_path(common, "logs"@), true))
    } else {
        b
    };
    if common != git_dir {
        c.push((common, false))
    } else {
        c
    }
}

fn add_target(v: &mut Vec<Target>, path: String, recursive: bool)
    ensures
        target_views(final(v)@) == target_views(old(v)@).push((path@, recursive)),
{
    v.push(Target { path, recursive });
    assert(target_views(v@) =~= target_views(old(v)@).push((path@, recursive)));
}

/// What to watch in a repository, given whether its `refs` and `logs`
/// directories exist.
pub fn watch_targets(repo: &Repo, refs: bool, logs: bool) -> (r: Vec<Target>)
    ensures
        target_views(r@) == watched(repo.git_dir@, repo.common_dir@, refs, logs),
{
    let mut v: Vec<Target> = Vec::new();
    add_target(&mut v, repo.git_dir.clone(), false);
    assert(target_views(v@) =~= seq![(repo.git_dir@, false)]);
    if refs {
        add_target(&mut v, paths::join_path(repo.common_dir.as_str(), "refs"), true);
    }
    if logs {
        add_target(&mut v, paths::join_path(repo.common_dir.as_str(), "logs"), true);
    }
    if !text::same(repo.common_dir.as_str(), repo.git_dir.as_str()) {
        add_target(&mut v, repo.common_dir.clone(), false);
    }
    v
}

} // verus!
