//! What settings, names and command lines mean.
use crate::config;
use crate::config::{Settings, Tone};
use crate::geometry;
use crate::geometry::{Frame, Gut, Pane};
use crate::git;
use crate::git::{Knobs, Source};
use crate::keys;
use crate::keys::Action;
use crate::palette;
use crate::palette::Color;
use crate::paths;
use crate::reading;
use crate::rows::RowKind;
use crate::text;
use crate::themes;
use vstd::prelude::*;

verus! {

// Git.

/// The flags of a command line: each option asks git for what it says, and
/// nothing is asked for that is not set.
pub proof fn law_flags_say_the_options(o: Knobs)
    ensures
        ({
            let f = git::flag_texts(o);
            &&& f.contains("-w"@) || !o.ignore_whitespace
            &&& o.context is Some ==> f.contains("-U"@ + text::dec(o.context->0 as nat))
            &&& o.algorithm is Some ==> f.contains("--diff-algorithm="@ + o.algorithm->0)
            &&& !o.ignore_whitespace && o.context is None && o.algorithm is None ==> f.len() == 0
            &&& f.len() == (if o.ignore_whitespace {
                1int
            } else {
                0
            }) + (if o.context is Some {
                1int
            } else {
                0
            }) + (if o.algorithm is Some {
                1int
            } else {
                0
            })
        }),
{
    let f = git::flag_texts(o);
    let a = git::only_if(o.ignore_whitespace, "-w"@);
    let b = git::only_if(o.context is Some, "-U"@ + text::dec(o.context->0 as nat));
    let c = git::only_if(o.algorithm is Some, "--diff-algorithm="@ + o.algorithm->0);
    if o.ignore_whitespace {
        assert(f[0] == "-w"@);
    }
    if o.context is Some {
        assert(f[a.len() as int] == b[0]);
    }
    if o.algorithm is Some {
        assert(f[(a.len() + b.len()) as int] == c[0]);
    }
}

/// The command of each source: the working tree against the index, the index
/// against the last commit, a range of revisions, or one commit. All of them
/// ask for a plain format, and the pathspec comes last.
pub proof fn law_git_commands(rev: String, o: Knobs)
    ensures
        ({
            let plain = seq![
                "-c"@,
                "core.pager=cat"@,
                "-c"@,
                "color.diff=never"@,
                "-c"@,
                "diff.mnemonicPrefix=false"@,
            ];
            let flags = git::flag_texts(o);
            let paths = if o.pathspec.len() > 0 {
                seq!["--"@] + o.pathspec
            } else {
                Seq::empty()
            };
            &&& git::diff_texts(Source::Worktree, o) == plain + seq![
                "diff"@,
                "--no-color"@,
                "--no-ext-diff"@,
            ] + flags + paths
            &&& git::diff_texts(Source::Staged, o) == plain + seq![
                "diff"@,
                "--no-color"@,
                "--no-ext-diff"@,
                "--staged"@,
            ] + flags + paths
            &&& text::occurs(rev@, seq!['.', '.']) ==> git::diff_texts(Source::Rev(rev), o) == plain
                + seq!["diff"@, "--no-color"@, "--no-ext-diff"@] + flags + seq![rev@] + paths
            &&& !text::occurs(rev@, seq!['.', '.']) ==> git::diff_texts(Source::Rev(rev), o)
                == plain + seq!["show"@, "--no-color"@, "--no-ext-diff"@, "--format=fuller"@]
                + flags + seq![rev@] + paths
        }),
{
    let plain = git::stable_texts();
    let flags = git::flag_texts(o);
    let paths = git::pathspec_texts(o);
    let w = seq!["diff"@, "--no-color"@, "--no-ext-diff"@];
    let s = seq!["diff"@, "--no-color"@, "--no-ext-diff"@, "--staged"@];
    assert(git::diff_texts(Source::Worktree, o) =~= plain + w + flags + paths);
    assert(git::diff_texts(Source::Staged, o) =~= plain + s + flags + paths);
}

/// A text with two dots in it is a range of revisions, and one without a dot
/// is not.
pub proof fn law_ranges_have_two_dots(a: Seq<char>, b: Seq<char>)
    ensures
        text::occurs(a + seq!['.', '.'] + b, seq!['.', '.']),
        !a.contains('.') ==> !text::occurs(a, seq!['.', '.']),
{
    let p = seq!['.', '.'];
    let s = a + p + b;
    let n = a.len() as int;
    assert(s.skip(n).take(2) =~= p);
    assert(text::has_prefix(s.skip(n), p));
    if !a.contains('.') && text::occurs(a, p) {
        let i = choose|i: int| 0 <= i <= a.len() && text::has_prefix(#[trigger] a.skip(i), p);
        assert(a.skip(i).take(2)[0] == '.');
        assert(a[i] == '.');
    }
}

/// An untracked file is diffed against an empty one, under the flags of the
/// main diff; the listing keeps to the pathspec.
pub proof fn law_untracked_commands(o: Knobs, file: Seq<char>)
    ensures
        ({
            let f = git::fresh_texts(o, file);
            let n = f.len() as int;
            let k = git::flag_texts(o).len() as int;
            &&& f[n - 1] == file
            &&& f[n - 2] == "/dev/null"@
            &&& f[n - 3 - k] == "--no-index"@
            &&& f.subrange(n - 2 - k, n - 2) == git::flag_texts(o)
            &&& o.pathspec.len() == 0 ==> git::list_texts(o) == seq![
                "ls-files"@,
                "--others"@,
                "--exclude-standard"@,
                "-z"@,
            ]
            &&& o.pathspec.len() > 0 ==> git::list_texts(o) == seq![
                "ls-files"@,
                "--others"@,
                "--exclude-standard"@,
                "-z"@,
                "--"@,
            ] + o.pathspec
        }),
{
    let f = git::fresh_texts(o, file);
    let n = f.len() as int;
    let k = git::flag_texts(o).len() as int;
    assert(f.subrange(n - 2 - k, n - 2) =~= git::flag_texts(o));
    let head = seq!["ls-files"@, "--others"@, "--exclude-standard"@, "-z"@];
    if o.pathspec.len() > 0 {
        assert(git::list_texts(o) =~= seq![
            "ls-files"@,
            "--others"@,
            "--exclude-standard"@,
            "-z"@,
            "--"@,
        ] + o.pathspec);
    } else {
        assert(git::list_texts(o) =~= head);
    }
}

/// Names, each with the null character behind it.
pub open spec fn listing(v: Seq<Seq<char>>) -> Seq<char>
    decreases v.len(),
{
    if v.len() == 0 {
        Seq::empty()
    } else {
        v.first().push('\0') + listing(v.drop_first())
    }
}

/// A listing of files reads back as these files.
pub proof fn law_listing_reads_back(v: Seq<Seq<char>>)
    requires
        forall|i: int| 0 <= i < v.len() ==> (#[trigger] v[i]).len() > 0 && !v[i].contains('\0'),
    ensures
        git::listed_texts(listing(v)) == v,
    decreases v.len(),
{
    let f = text::is_char('\0');
    let keep = |x: Seq<char>| x.len() > 0;
    reveal(Seq::filter);
    if v.len() == 0 {
        let e = seq![Seq::<char>::empty()];
        assert(text::split_at(listing(v), '\0') =~= e);
        assert(e.drop_last() =~= Seq::empty());
        assert(e.drop_last().filter(keep) =~= Seq::empty());
        assert(git::listed_texts(listing(v)) =~= v);
    } else {
        let a = v.first();
        let d = v.drop_first();
        assert forall|i: int| 0 <= i < d.len() implies (#[trigger] d[i]).len() > 0
            && !d[i].contains('\0') by {
            assert(d[i] == v[i + 1]);
        }
        law_listing_reads_back(d);
        assert(v[0].len() > 0 && !v[0].contains('\0'));
        assert forall|i: int| 0 <= i < a.len() implies !f(#[trigger] a[i]) by {}
        reading::lemma_split_join(a, '\0', listing(d), f);
        reading::lemma_split_none(a, f);
        let rest = text::split_at(listing(d), '\0');
        Seq::<Seq<char>>::filter_distributes_over_add(seq![a], rest, keep);
        assert(seq![a].drop_last() =~= Seq::empty());
        assert(seq![a].drop_last().filter(keep) =~= Seq::empty());
        assert(seq![a].filter(keep) =~= seq![a]);
        assert(git::listed_texts(listing(v)) =~= v);
    }
}

/// What is watched: the git directory, where it is another the common one, and
/// the refs and logs of the common one with all below them, where they exist.
pub proof fn law_watched_paths(d: Seq<char>, c: Seq<char>, refs: bool, logs: bool)
    ensures
        ({
            let w = git::watched(d, c, refs, logs);
            &&& w.contains((d, false))
            &&& refs ==> w.contains((paths::joined_path(c, "refs"@), true))
            &&& logs ==> w.contains((paths::joined_path(c, "logs"@), true))
            &&& c != d ==> w.contains((c, false))
            &&& !refs && !logs && c == d ==> w == seq![(d, false)]
        }),
{
    let w = git::watched(d, c, refs, logs);
    assert(w[0] == (d, false));
    if refs {
        assert(w[1] == (paths::joined_path(c, "refs"@), true));
    }
    if logs {
        let k: int = if refs {
            2
        } else {
            1
        };
        assert(w[k] == (paths::joined_path(c, "logs"@), true));
    }
    if c != d {
        assert(w[w.len() - 1] == (c, false));
    }
}

// Paths.

/// A path is joined to a directory by one slash; an absolute path stands
/// alone.
pub proof fn law_paths_are_joined(base: Seq<char>, rel: Seq<char>)
    ensures
        rel.len() > 0 && rel[0] == '/' ==> paths::joined_path(base, rel) == rel,
        (rel.len() == 0 || rel[0] != '/') && base.len() > 0 && base.last() != '/'
            ==> paths::joined_path(base, rel) == base + seq!['/'] + rel,
        (rel.len() == 0 || rel[0] != '/') && base.len() > 0 && base.last() == '/'
            ==> paths::joined_path(base, rel) == base + rel,
{
    assert(base.push('/') + rel =~= base + seq!['/'] + rel);
}

/// The name of a file is what stands behind the last slash of its path.
pub proof fn law_file_name(dir: Seq<char>, name: Seq<char>)
    requires
        name.len() > 0,
        !name.contains('/'),
        name != seq!['.'],
        name != seq!['.', '.'],
    ensures
        paths::file_name_of(dir.push('/') + name) == Some(name),
        paths::file_name_of(name) == Some(name),
{
    let f = text::is_char('/');
    assert forall|i: int| 0 <= i < name.len() implies !f(#[trigger] name[i]) by {}
    reading::lemma_split_none(name, f);
    reading::lemma_split_join(dir, '/', name, f);
    let p = text::split_at(dir.push('/') + name, '/');
    assert(p.last() == name);
    assert(text::split_at(name, '/').last() == name);
}

proof fn lemma_last_dot(a: Seq<char>, b: Seq<char>)
    requires
        !b.contains('.'),
    ensures
        paths::last_dot(a.push('.') + b) == a.len(),
    decreases b.len(),
{
    let s = a.push('.') + b;
    if b.len() == 0 {
        assert(s =~= a.push('.'));
    } else {
        let d = b.drop_last();
        assert(!d.contains('.')) by {
            assert forall|i: int| 0 <= i < d.len() implies d[i] != '.' by {
                assert(b[i] != '.');
            }
        }
        lemma_last_dot(a, d);
        assert(b[b.len() - 1] != '.');
        assert(s.drop_last() =~= a.push('.') + d);
    }
}

proof fn lemma_no_dot(a: Seq<char>)
    requires
        !a.contains('.'),
    ensures
        paths::last_dot(a) == -1,
    decreases a.len(),
{
    if a.len() > 0 {
        assert(a[a.len() - 1] != '.');
        assert forall|i: int| 0 <= i < a.len() - 1 implies a.drop_last()[i] != '.' by {
            assert(a[i] != '.');
        }
        lemma_no_dot(a.drop_last());
    }
}

/// The extension of a file is what stands behind the last dot of its name. A
/// name without a dot has none.
pub proof fn law_extension(dir: Seq<char>, stem: Seq<char>, ext: Seq<char>)
    requires
        stem.len() > 0,
        ext.len() > 0,
        !stem.contains('/'),
        !ext.contains('/'),
        !ext.contains('.'),
    ensures
        paths::extension_of(dir.push('/') + (stem.push('.') + ext)) == Some(ext),
        !stem.contains('.') ==> paths::extension_of(dir.push('/') + stem) is None,
{
    let name = stem.push('.') + ext;
    assert(!name.contains('/')) by {
        assert forall|i: int| 0 <= i < name.len() implies name[i] != '/' by {
            if i < stem.len() {
                assert(stem[i] != '/');
            } else if i > stem.len() {
                assert(ext[i - stem.len() - 1] != '/');
            }
        }
    }
    assert(name.len() >= 3);
    assert(name != seq!['.']);
    assert(name != seq!['.', '.']);
    law_file_name(dir, name);
    lemma_last_dot(stem, ext);
    assert(name.skip(stem.len() as int + 1) =~= ext);
    if !stem.contains('.') {
        assert(stem[0] != '.');
        law_file_name(dir, stem);
        lemma_no_dot(stem);
    }
}

// Settings.

/// The name of a tone, its words joined by dashes.
pub open spec fn tone_name(t: Tone) -> Seq<char> {
    match t {
        Tone::Add => "add"@,
        Tone::Remove => "remove"@,
        Tone::Context => "context"@,
        Tone::Header => "header"@,
        Tone::LineNumber => "line-number"@,
        Tone::Primary => "primary"@,
        Tone::Secondary => "secondary"@,
        Tone::Foreground => "foreground"@,
        Tone::Background => "background"@,
        Tone::Muted => "muted"@,
        Tone::Surface => "surface"@,
        Tone::Cursor => "cursor"@,
        Tone::AddLine => "add-line"@,
        Tone::RemoveLine => "remove-line"@,
        Tone::AddEmph => "add-emph"@,
        Tone::RemoveEmph => "remove-emph"@,
    }
}

/// The names of the fields, letter by letter.
proof fn lemma_tone_literals()
    ensures
        "add"@ == seq!['a', 'd', 'd'],
        "remove"@ == seq!['r', 'e', 'm', 'o', 'v', 'e'],
        "context"@ == seq!['c', 'o', 'n', 't', 'e', 'x', 't'],
        "header"@ == seq!['h', 'e', 'a', 'd', 'e', 'r'],
        "line_number"@ == seq!['l', 'i', 'n', 'e', '_', 'n', 'u', 'm', 'b', 'e', 'r'],
        "primary"@ == seq!['p', 'r', 'i', 'm', 'a', 'r', 'y'],
        "secondary"@ == seq!['s', 'e', 'c', 'o', 'n', 'd', 'a', 'r', 'y'],
        "foreground"@ == seq!['f', 'o', 'r', 'e', 'g', 'r', 'o', 'u', 'n', 'd'],
        "background"@ == seq!['b', 'a', 'c', 'k', 'g', 'r', 'o', 'u', 'n', 'd'],
        "muted"@ == seq!['m', 'u', 't', 'e', 'd'],
        "surface"@ == seq!['s', 'u', 'r', 'f', 'a', 'c', 'e'],
        "cursor"@ == seq!['c', 'u', 'r', 's', 'o', 'r'],
        "add_line"@ == seq!['a', 'd', 'd', '_', 'l', 'i', 'n', 'e'],
        "remove_line"@ == seq!['r', 'e', 'm', 'o', 'v', 'e', '_', 'l', 'i', 'n', 'e'],
        "add_emph"@ == seq!['a', 'd', 'd', '_', 'e', 'm', 'p', 'h'],
        "remove_emph"@ == seq!['r', 'e', 'm', 'o', 'v', 'e', '_', 'e', 'm', 'p', 'h'],
{
    reveal_strlit("add");
    reveal_strlit("remove");
    reveal_strlit("context");
    reveal_strlit("header");
    reveal_strlit("line_number");
    reveal_strlit("primary");
    reveal_strlit("secondary");
    reveal_strlit("foreground");
    reveal_strlit("background");
    reveal_strlit("muted");
    reveal_strlit("surface");
    reveal_strlit("cursor");
    reveal_strlit("add_line");
    reveal_strlit("remove_line");
    reveal_strlit("add_emph");
    reveal_strlit("remove_emph");
    assert("add"@ =~= seq!['a', 'd', 'd']);
    assert("remove"@ =~= seq!['r', 'e', 'm', 'o', 'v', 'e']);
    assert("context"@ =~= seq!['c', 'o', 'n', 't', 'e', 'x', 't']);
    assert("header"@ =~= seq!['h', 'e', 'a', 'd', 'e', 'r']);
    assert("line_number"@ =~= seq!['l', 'i', 'n', 'e', '_', 'n', 'u', 'm', 'b', 'e', 'r']);
    assert("primary"@ =~= seq!['p', 'r', 'i', 'm', 'a', 'r', 'y']);
    assert("secondary"@ =~= seq!['s', 'e', 'c', 'o', 'n', 'd', 'a', 'r', 'y']);
    assert("foreground"@ =~= seq!['f', 'o', 'r', 'e', 'g', 'r', 'o', 'u', 'n', 'd']);
    assert("background"@ =~= seq!['b', 'a', 'c', 'k', 'g', 'r', 'o', 'u', 'n', 'd']);
    assert("muted"@ =~= seq!['m', 'u', 't', 'e', 'd']);
    assert("surface"@ =~= seq!['s', 'u', 'r', 'f', 'a', 'c', 'e']);
    assert("cursor"@ =~= seq!['c', 'u', 'r', 's', 'o', 'r']);
    assert("add_line"@ =~= seq!['a', 'd', 'd', '_', 'l', 'i', 'n', 'e']);
    assert("remove_line"@ =~= seq!['r', 'e', 'm', 'o', 'v', 'e', '_', 'l', 'i', 'n', 'e']);
    assert("add_emph"@ =~= seq!['a', 'd', 'd', '_', 'e', 'm', 'p', 'h']);
    assert("remove_emph"@ =~= seq!['r', 'e', 'm', 'o', 'v', 'e', '_', 'e', 'm', 'p', 'h']);
}

/// Whether a text starts with two characters, and its length.
pub open spec fn looks(s: Seq<char>, n: nat, a: char, b: char) -> bool {
    s.len() == n && n >= 2 && s[0] == a && s[n - 2] == b
}

proof fn lemma_tone_looks()
    ensures
        looks("add"@, 3, 'a', 'd'),
        looks("remove"@, 6, 'r', 'v'),
        looks("context"@, 7, 'c', 'x'),
        looks("header"@, 6, 'h', 'e'),
        looks("line_number"@, 11, 'l', 'e'),
        looks("primary"@, 7, 'p', 'r'),
        looks("secondary"@, 9, 's', 'r'),
        looks("foreground"@, 10, 'f', 'n'),
        looks("background"@, 10, 'b', 'n'),
        looks("muted"@, 5, 'm', 'e'),
        looks("surface"@, 7, 's', 'c'),
        looks("cursor"@, 6, 'c', 'o'),
        looks("add_line"@, 8, 'a', 'n'),
        looks("remove_line"@, 11, 'r', 'n'),
        looks("add_emph"@, 8, 'a', 'p'),
        looks("remove_emph"@, 11, 'r', 'p'),
{
    lemma_tone_literals();
}

/// Every tone is found by its name, whether the words of the name are joined
/// by dashes or by underscores.
#[verifier::rlimit(60)]
pub proof fn law_tones_have_names(t: Tone)
    ensures
        config::tone_named(tone_name(t)) == Some(t),
        config::tone_field(config::underscored(tone_name(t))) == Some(t),
{
    lemma_dashes();
    lemma_tone_looks();
    match t {
        Tone::Add => {},
        Tone::Remove => {},
        Tone::Context => {},
        Tone::Header => {},
        Tone::LineNumber => {},
        Tone::Primary => {},
        Tone::Secondary => {},
        Tone::Foreground => {},
        Tone::Background => {},
        Tone::Muted => {},
        Tone::Surface => {},
        Tone::Cursor => {},
        Tone::AddLine => {},
        Tone::RemoveLine => {},
        Tone::AddEmph => {},
        Tone::RemoveEmph => {},
    }
}

proof fn lemma_dashes()
    ensures
        config::underscored("add"@) == "add"@,
        config::underscored("remove"@) == "remove"@,
        config::underscored("context"@) == "context"@,
        config::underscored("header"@) == "header"@,
        config::underscored("line-number"@) == "line_number"@,
        config::underscored("primary"@) == "primary"@,
        config::underscored("secondary"@) == "secondary"@,
        config::underscored("foreground"@) == "foreground"@,
        config::underscored("background"@) == "background"@,
        config::underscored("muted"@) == "muted"@,
        config::underscored("surface"@) == "surface"@,
        config::underscored("cursor"@) == "cursor"@,
        config::underscored("add-line"@) == "add_line"@,
        config::underscored("remove-line"@) == "remove_line"@,
        config::underscored("add-emph"@) == "add_emph"@,
        config::underscored("remove-emph"@) == "remove_emph"@,
{
    lemma_tone_literals();
    reveal_strlit("line-number");
    reveal_strlit("line_number");
    reveal_strlit("add-line");
    reveal_strlit("remove-line");
    reveal_strlit("add-emph");
    reveal_strlit("remove-emph");
    assert(config::underscored("add"@) =~= "add"@);
    assert(config::underscored("remove"@) =~= "remove"@);
    assert(config::underscored("context"@) =~= "context"@);
    assert(config::underscored("header"@) =~= "header"@);
    assert(config::underscored("line-number"@) =~= "line_number"@);
    assert(config::underscored("primary"@) =~= "primary"@);
    assert(config::underscored("secondary"@) =~= "secondary"@);
    assert(config::underscored("foreground"@) =~= "foreground"@);
    assert(config::underscored("background"@) =~= "background"@);
    assert(config::underscored("muted"@) =~= "muted"@);
    assert(config::underscored("surface"@) =~= "surface"@);
    assert(config::underscored("cursor"@) =~= "cursor"@);
    assert(config::underscored("add-line"@) =~= "add_line"@);
    assert(config::underscored("remove-line"@) =~= "remove_line"@);
    assert(config::underscored("add-emph"@) =~= "add_emph"@);
    assert(config::underscored("remove-emph"@) =~= "remove_emph"@);
}

/// The keys of the settings, by their length and two letters.
proof fn lemma_key_looks()
    ensures
        looks("theme"@, 5, 't', 'm'),
        looks("syntax"@, 6, 's', 'a'),
        looks("intraline"@, 9, 'i', 'n'),
        looks("line-numbers"@, 12, 'l', 'r'),
        looks("linenumbers"@, 11, 'l', 'r'),
        looks("tab-width"@, 9, 't', 't'),
        looks("tabwidth"@, 8, 't', 't'),
        looks("editor"@, 6, 'e', 'o'),
        looks("sidebar"@, 7, 's', 'a'),
        looks("sidebar-width"@, 13, 's', 't'),
        looks("sidebar-side"@, 12, 's', 'd'),
{
    reveal_strlit("theme");
    reveal_strlit("syntax");
    reveal_strlit("intraline");
    reveal_strlit("line-numbers");
    reveal_strlit("linenumbers");
    reveal_strlit("tab-width");
    reveal_strlit("tabwidth");
    reveal_strlit("editor");
    reveal_strlit("sidebar");
    reveal_strlit("sidebar-width");
    reveal_strlit("sidebar-side");
}

/// Each key of the git config sets its own setting and no other.
#[verifier::rlimit(60)]
pub proof fn law_keys_set_their_settings(c: Settings, v: Seq<char>)
    ensures
        config::with_value(c, "theme"@, v) == (Settings { theme: v, ..c }),
        config::with_value(c, "syntax"@, v) == (Settings {
            syntax: config::bool_of(v, c.syntax),
            ..c
        }),
        config::with_value(c, "intraline"@, v) == (Settings {
            intraline: config::bool_of(v, c.intraline),
            ..c
        }),
        config::with_value(c, "line-numbers"@, v) == (Settings {
            line_numbers: config::bool_of(v, c.line_numbers),
            ..c
        }),
        config::with_value(c, "linenumbers"@, v) == config::with_value(c, "line-numbers"@, v),
        config::with_value(c, "tab-width"@, v) == (Settings {
            tab_width: config::size_of_text(v, c.tab_width),
            ..c
        }),
        config::with_value(c, "tabwidth"@, v) == config::with_value(c, "tab-width"@, v),
        config::with_value(c, "editor"@, v) == (Settings { editor: v, ..c }),
        config::with_value(c, "sidebar"@, v) == (Settings { sidebar: v, ..c }),
        config::with_value(c, "sidebar-width"@, v) == (Settings {
            sidebar_width: config::size_of_text(v, c.sidebar_width),
            ..c
        }),
        config::with_value(c, "sidebar-side"@, v) == (Settings { sidebar_side: v, ..c }),
{
    lemma_key_looks();
}

/// A key `colors.<tone>` sets that tone and no other.
#[verifier::rlimit(40)]
pub proof fn law_color_keys_set_their_tone(c: Settings, t: Tone, u: Tone, v: Seq<char>)
    ensures
        ({
            let d = config::with_value(c, "colors."@ + tone_name(t), v);
            &&& (d.colors)(t) == v
            &&& u != t ==> (d.colors)(u) == (c.colors)(u)
            &&& d == (Settings { colors: d.colors, ..c })
        }),
{
    let key = "colors."@ + tone_name(t);
    reveal_strlit("colors.");
    reading::lemma_prefix("colors."@, tone_name(t));
    law_tones_have_names(t);
    lemma_key_looks();
    assert(key[0] == 'c');
    assert(config::color_key(key) == Some(t));
}

/// A key `styles.<component>` sets the style of that component and no other.
#[verifier::rlimit(40)]
pub proof fn law_style_keys_set_their_component(
    c: Settings,
    name: Seq<char>,
    other: Seq<char>,
    v: Seq<char>,
)
    requires
        name.len() > 0,
        name != other,
    ensures
        ({
            let d = config::with_value(c, "styles."@ + name, v);
            &&& d.styles.contains_key(name)
            &&& d.styles[name] == v
            &&& d.styles.contains_key(other) <==> c.styles.contains_key(other)
            &&& c.styles.contains_key(other) ==> d.styles[other] == c.styles[other]
        }),
{
    let key = "styles."@ + name;
    reveal_strlit("styles.");
    reveal_strlit("colors.");
    reveal_strlit("color");
    reveal_strlit("syntax");
    reveal_strlit("sidebar");
    reveal_strlit("sidebar-width");
    reveal_strlit("sidebar-side");
    reading::lemma_prefix("styles."@, name);
    lemma_key_looks();
    assert(key[0] == 's' && key[1] == 't');
    reading::lemma_not_prefix_at(key, "colors."@, 0);
    reading::lemma_not_prefix_at(key, "color"@, 0);
    assert("syntax"@[1] == 'y' && "sidebar"@[1] == 'i' && "sidebar-width"@[1] == 'i'
        && "sidebar-side"@[1] == 'i');
}

proof fn lemma_first_space(a: Seq<char>, b: Seq<char>)
    requires
        reading::is_solid(a),
    ensures
        text::first_space(a.push(' ') + b) == a.len(),
    decreases a.len(),
{
    let s = a.push(' ') + b;
    if a.len() > 0 {
        let d = a.drop_first();
        assert(reading::is_solid(d)) by {
            assert forall|i: int| 0 <= i < d.len() implies !text::is_space(#[trigger] d[i]) by {
                assert(!text::is_space(a[i + 1]));
            }
        }
        lemma_first_space(d, b);
        assert(!text::is_space(a[0]));
        assert(s.drop_first() =~= d.push(' ') + b);
    } else {
        assert(s[0] == ' ');
    }
}

/// A line of the git config names a setting behind `diffv.` and gives its
/// value behind a blank.
pub proof fn law_git_config_lines(c: Settings, key: Seq<char>, val: Seq<char>)
    requires
        key.len() > 0,
        reading::is_solid(key),
        forall|i: int| 0 <= i < key.len() ==> !('A' <= #[trigger] key[i] <= 'Z'),
        key[0] != 'd',
        val.len() > 0,
        !text::is_space(val.first()),
        !text::is_space(val.last()),
    ensures
        config::with_line(c, "diffv."@ + key + " "@ + val) == config::with_value(c, key, val),
{
    reveal_strlit("diffv.");
    reveal_strlit(" ");
    let k = "diffv."@ + key;
    let line = "diffv."@ + key + " "@ + val;
    assert(reading::is_solid(k)) by {
        assert forall|i: int| 0 <= i < k.len() implies !text::is_space(#[trigger] k[i]) by {
            if i >= 6 {
                assert(!text::is_space(key[i - 6]));
            }
        }
    }
    assert(line =~= k.push(' ') + val);
    lemma_first_space(k, val);
    assert(line.take(k.len() as int) =~= k);
    assert(line.skip(k.len() + 1int) =~= val);
    reading::lemma_prefix("diffv."@, key);
    reading::lemma_not_prefix_at(key, "diffv."@, 0);
    assert(config::without_prefix(k, "diffv."@) == config::without_prefix(key, "diffv."@));
    assert(config::without_prefix(key, "diffv."@) == key);
    assert(text::lowered(key) =~= key);
    assert(text::trimmed(val) == val);
}

/// The lines of the git config count in order.
pub proof fn law_git_config_in_order(c: Settings, a: Seq<Seq<char>>, b: Seq<Seq<char>>)
    ensures
        config::with_lines(c, a + b) == config::with_lines(config::with_lines(c, a), b),
    decreases b.len(),
{
    if b.len() == 0 {
        assert(a + b =~= a);
    } else {
        assert((a + b).drop_last() =~= a + b.drop_last());
        law_git_config_in_order(c, a, b.drop_last());
    }
}

/// Truth values in any case; what is none leaves the default.
pub proof fn law_truth_values(d: bool)
    ensures
        config::bool_word("true"@) == Some(true),
        config::bool_word("yes"@) == Some(true),
        config::bool_word("on"@) == Some(true),
        config::bool_word("1"@) == Some(true),
        config::bool_word("false"@) == Some(false),
        config::bool_word("no"@) == Some(false),
        config::bool_word("off"@) == Some(false),
        config::bool_word("0"@) == Some(false),
        config::bool_of(Seq::empty(), d) == d,
{
    reveal_strlit("true");
    reveal_strlit("yes");
    reveal_strlit("on");
    reveal_strlit("1");
    reveal_strlit("false");
    reveal_strlit("no");
    reveal_strlit("off");
    reveal_strlit("0");
    assert("on"@[1] == 'n' && "no"@[1] == 'o');
    assert("yes"@[0] == 'y' && "off"@[0] == 'o');
    assert("1"@[0] == '1' && "0"@[0] == '0');
    assert("true"@.len() == 4 && "false"@.len() == 5);
    assert("on"@.len() == 2 && "no"@.len() == 2 && "off"@.len() == 3 && "yes"@.len() == 3);
    assert("1"@.len() == 1 && "0"@.len() == 1);
    assert(text::lowered(Seq::empty()) =~= Seq::<char>::empty());
}

/// A number that is written out is read, and what is no number leaves the
/// default.
pub proof fn law_sizes_are_read(n: usize, d: usize)
    ensures
        config::size_of_text(text::dec(n as nat), d) == n,
        config::size_of_text(Seq::empty(), d) == d,
{
    reading::lemma_reads(n as nat, usize::MAX as nat);
    assert(text::unsigned_part(Seq::<char>::empty()) =~= Seq::<char>::empty());
}

/// An unset tone takes the color that stands for it in the palette: additions
/// are green, removals red, and so on.
pub proof fn law_tones_take_their_hues(b: config::Builtin)
    ensures
        config::hue_of(b, Tone::Add) == b.green@,
        config::hue_of(b, Tone::Remove) == b.red@,
        config::hue_of(b, Tone::Context) == b.fg@,
        config::hue_of(b, Tone::Foreground) == b.fg@,
        config::hue_of(b, Tone::Background) == b.bg@,
        config::hue_of(b, Tone::Header) == b.blue@,
        config::hue_of(b, Tone::LineNumber) == b.grey@,
        config::hue_of(b, Tone::AddLine) == b.add_line@,
        config::hue_of(b, Tone::RemoveLine) == b.remove_line@,
        config::hue_of(b, Tone::AddEmph) == b.add_emph@,
        config::hue_of(b, Tone::RemoveEmph) == b.remove_emph@,
        config::hue_of(b, Tone::Cursor) == b.cursor@,
{
}

/// The theme: what is configured, else the one for the background.
pub proof fn law_theme_follows_the_background(c: Settings)
    ensures
        c.theme.len() > 0 ==> config::resolved(c, true).theme == c.theme && config::resolved(
            c,
            false,
        ).theme == c.theme,
        c.theme.len() == 0 ==> config::resolved(c, true).theme == "onedark"@ && config::resolved(
            c,
            false,
        ).theme == "onelight"@,
{
}

/// The background that the terminal hints at is the last number: the dark ones
/// are those up to 6, and 8. Without a hint it is dark.
pub proof fn law_background_hint(a: Seq<char>, n: nat)
    requires
        n <= 255,
    ensures
        config::dark_hint(Some(a.push(';') + text::dec(n))) <==> n <= 6 || n == 8,
        config::dark_hint(None),
{
    let f = text::is_char(';');
    let d = text::dec(n);
    reading::lemma_digits(n);
    reading::lemma_reads(n, 255);
    assert forall|i: int| 0 <= i < d.len() implies !f(#[trigger] d[i]) by {
        assert(text::is_digit(d[i]));
    }
    reading::lemma_split_join(a, ';', d, f);
    reading::lemma_split_none(d, f);
    assert(text::split_at(a.push(';') + d, ';').last() == d);
    assert(text::is_digit(d[0]) && text::is_digit(d[d.len() - 1]));
    assert(text::trimmed(d) == d);
}

// Colors and styles.

/// A palette index is read.
pub proof fn law_indexes_read_back(n: u8)
    ensures
        palette::color_of(text::dec(n as nat)) == Some(Color::Indexed(n)),
{
    let d = text::dec(n as nat);
    reading::lemma_digits(n as nat);
    reading::lemma_reads(n as nat, 255);
    assert(text::is_digit(d[0]) && text::is_digit(d[d.len() - 1]));
    assert(text::trimmed(d) == d);
    reveal_strlit("default");
    reveal_strlit("none");
    assert(text::lowered(d)[0] == d[0]);
    assert("default"@[0] == 'd' && "none"@[0] == 'n');
}

/// Whether a word is the name of an attribute.
pub open spec fn is_attribute(word: Seq<char>) -> bool {
    let w = text::lowered(word);
    w == "bold"@ || w == "faint"@ || w == "dim"@ || w == "italic"@ || w == "underline"@ || w
        == "strikethrough"@ || w == "blink"@ || w == "reverse"@ || w == "conceal"@ || w
        == "hidden"@
}

/// How many of some words are colors.
pub open spec fn color_words(v: Seq<Seq<char>>) -> nat
    decreases v.len(),
{
    if v.len() == 0 {
        0
    } else {
        color_words(v.drop_last()) + if is_attribute(v.last()) {
            0nat
        } else {
            1
        }
    }
}

/// The first color of a style is its foreground and the second its background.
/// Further colors, and attributes, change neither.
pub proof fn law_first_two_colors_count(
    v: Seq<Seq<char>>,
    p: spec_fn(Tone) -> Option<Color>,
    i: int,
    j: int,
)
    requires
        0 <= i < j < v.len(),
        !is_attribute(v[i]),
        !is_attribute(v[j]),
        forall|k: int| 0 <= k < j && k != i ==> is_attribute(#[trigger] v[k]),
    ensures
        palette::with_words(v, p).style.fg == palette::token_color(p, v[i]),
        palette::with_words(v, p).style.bg == palette::token_color(p, v[j]),
    decreases v.len(),
{
    let w = v.drop_last();
    if j < v.len() - 1 {
        assert forall|k: int| 0 <= k < j && k != i implies is_attribute(#[trigger] w[k]) by {
            assert(is_attribute(v[k]));
        }
        law_first_two_colors_count(w, p, i, j);
        lemma_has_color(w.take(j), i);
        lemma_slots(w, p, j);
    } else {
        assert forall|k: int| 0 <= k < w.len() && k != i implies is_attribute(#[trigger] w[k]) by {
            assert(is_attribute(v[k]));
        }
        lemma_one_color(w, p, i);
    }
}

proof fn lemma_has_color(v: Seq<Seq<char>>, i: int)
    requires
        0 <= i < v.len(),
        !is_attribute(v[i]),
    ensures
        color_words(v) >= 1,
    decreases v.len(),
{
    if i < v.len() - 1 {
        lemma_has_color(v.drop_last(), i);
    }
}

proof fn lemma_no_color(v: Seq<Seq<char>>, p: spec_fn(Tone) -> Option<Color>)
    requires
        forall|k: int| 0 <= k < v.len() ==> is_attribute(#[trigger] v[k]),
    ensures
        palette::with_words(v, p).slots == 0,
        palette::with_words(v, p).style.fg is None,
        palette::with_words(v, p).style.bg is None,
    decreases v.len(),
{
    if v.len() > 0 {
        let w = v.drop_last();
        assert forall|k: int| 0 <= k < w.len() implies is_attribute(#[trigger] w[k]) by {
            assert(is_attribute(v[k]));
        }
        lemma_no_color(w, p);
        assert(is_attribute(v[v.len() - 1]));
    }
}

proof fn lemma_one_color(v: Seq<Seq<char>>, p: spec_fn(Tone) -> Option<Color>, i: int)
    requires
        0 <= i < v.len(),
        !is_attribute(v[i]),
        forall|k: int| 0 <= k < v.len() && k != i ==> is_attribute(#[trigger] v[k]),
    ensures
        palette::with_words(v, p).slots == 1,
        palette::with_words(v, p).style.fg == palette::token_color(p, v[i]),
        palette::with_words(v, p).style.bg is None,
    decreases v.len(),
{
    let w = v.drop_last();
    if i == v.len() - 1 {
        assert forall|k: int| 0 <= k < w.len() implies is_attribute(#[trigger] w[k]) by {
            assert(is_attribute(v[k]));
        }
        lemma_no_color(w, p);
    } else {
        assert forall|k: int| 0 <= k < w.len() && k != i implies is_attribute(#[trigger] w[k]) by {
            assert(is_attribute(v[k]));
        }
        lemma_one_color(w, p, i);
        assert(is_attribute(v[v.len() - 1]));
    }
}

/// Behind the second color both slots are taken.
proof fn lemma_slots(v: Seq<Seq<char>>, p: spec_fn(Tone) -> Option<Color>, j: int)
    requires
        0 <= j < v.len(),
        color_words(v.take(j)) >= 1,
        !is_attribute(v[j]),
    ensures
        palette::with_words(v, p).slots >= 2,
    decreases v.len(),
{
    let w = v.drop_last();
    if j == v.len() - 1 {
        assert(v.take(j) =~= w);
        lemma_slots_one(w, p);
    } else {
        assert(w.take(j) =~= v.take(j));
        lemma_slots(w, p, j);
    }
}

proof fn lemma_slots_one(v: Seq<Seq<char>>, p: spec_fn(Tone) -> Option<Color>)
    requires
        color_words(v) >= 1,
    ensures
        palette::with_words(v, p).slots >= 1,
    decreases v.len(),
{
    let w = v.drop_last();
    if is_attribute(v.last()) {
        lemma_slots_one(w, p);
    }
}

/// A style of one color has no background, and one without colors has none.
pub proof fn law_few_colors(v: Seq<Seq<char>>, p: spec_fn(Tone) -> Option<Color>, i: int)
    requires
        0 <= i < v.len(),
        !is_attribute(v[i]),
        forall|k: int| 0 <= k < v.len() && k != i ==> is_attribute(#[trigger] v[k]),
    ensures
        palette::with_words(v, p).style.fg == palette::token_color(p, v[i]),
        palette::with_words(v, p).style.bg is None,
{
    lemma_one_color(v, p, i);
}

/// Whether a word is among some, in any case.
pub open spec fn named(v: Seq<Seq<char>>, w: Seq<char>) -> bool {
    exists|i: int| 0 <= i < v.len() && text::lowered(#[trigger] v[i]) == w
}

proof fn lemma_named(v: Seq<Seq<char>>, w: Seq<char>)
    requires
        v.len() > 0,
    ensures
        named(v, w) <==> named(v.drop_last(), w) || text::lowered(v.last()) == w,
{
    let d = v.drop_last();
    if named(v, w) {
        let i = choose|i: int| 0 <= i < v.len() && text::lowered(#[trigger] v[i]) == w;
        if i < d.len() {
            assert(d[i] == v[i]);
        }
    }
    if named(d, w) {
        let i = choose|i: int| 0 <= i < d.len() && text::lowered(#[trigger] d[i]) == w;
        assert(v[i] == d[i]);
    }
    if text::lowered(v.last()) == w {
        assert(text::lowered(v[v.len() - 1]) == w);
    }
}

proof fn lemma_attribute_looks()
    ensures
        looks("bold"@, 4, 'b', 'l'),
        looks("faint"@, 5, 'f', 'n'),
        looks("dim"@, 3, 'd', 'i'),
        looks("italic"@, 6, 'i', 'i'),
        looks("underline"@, 9, 'u', 'n'),
        looks("strikethrough"@, 13, 's', 'g'),
        looks("blink"@, 5, 'b', 'n'),
        looks("reverse"@, 7, 'r', 's'),
        looks("conceal"@, 7, 'c', 'a'),
        looks("hidden"@, 6, 'h', 'e'),
{
    reveal_strlit("bold");
    reveal_strlit("faint");
    reveal_strlit("dim");
    reveal_strlit("italic");
    reveal_strlit("underline");
    reveal_strlit("strikethrough");
    reveal_strlit("blink");
    reveal_strlit("reverse");
    reveal_strlit("conceal");
    reveal_strlit("hidden");
}

/// An attribute is on exactly where a word names it.
#[verifier::rlimit(60)]
pub proof fn law_attributes_are_named(v: Seq<Seq<char>>, p: spec_fn(Tone) -> Option<Color>)
    ensures
        ({
            let st = palette::with_words(v, p).style;
            &&& st.attrs.bold <==> named(v, "bold"@)
            &&& st.attrs.faint <==> named(v, "faint"@) || named(v, "dim"@)
            &&& st.attrs.italic <==> named(v, "italic"@)
            &&& st.underline <==> named(v, "underline"@)
            &&& st.attrs.strikethrough <==> named(v, "strikethrough"@)
            &&& st.attrs.blink <==> named(v, "blink"@)
            &&& st.attrs.reverse <==> named(v, "reverse"@)
            &&& st.attrs.conceal <==> named(v, "conceal"@) || named(v, "hidden"@)
        }),
    decreases v.len(),
{
    if v.len() > 0 {
        law_attributes_are_named(v.drop_last(), p);
        lemma_named(v, "bold"@);
        lemma_named(v, "faint"@);
        lemma_named(v, "dim"@);
        lemma_named(v, "italic"@);
        lemma_named(v, "underline"@);
        lemma_named(v, "strikethrough"@);
        lemma_named(v, "blink"@);
        lemma_named(v, "reverse"@);
        lemma_named(v, "conceal"@);
        lemma_named(v, "hidden"@);
        lemma_attribute_looks();
    }
}

/// A tone name in a style means the color of that tone, and a dash none.
pub proof fn law_tone_names_in_styles(p: spec_fn(Tone) -> Option<Color>, t: Tone)
    ensures
        palette::token_color(p, tone_name(t)) == p(t),
        palette::token_color(p, "-"@) is None,
{
    law_tones_have_names(t);
    reveal_strlit("-");
    lemma_tone_lengths(t);
}

proof fn lemma_tone_lengths(t: Tone)
    ensures
        tone_name(t).len() > 1,
{
    lemma_tone_looks();
    reveal_strlit("line-number");
    reveal_strlit("add-line");
    reveal_strlit("remove-line");
    reveal_strlit("add-emph");
    reveal_strlit("remove-emph");
}

/// The colors of the tones that are used as backgrounds.
proof fn lemma_background_tokens(p: spec_fn(Tone) -> Option<Color>)
    ensures
        palette::token_color(p, "add-emph"@) == p(Tone::AddEmph),
        palette::token_color(p, "remove-emph"@) == p(Tone::RemoveEmph),
        palette::token_color(p, "add-line"@) == p(Tone::AddLine),
        palette::token_color(p, "remove-line"@) == p(Tone::RemoveLine),
        palette::token_color(p, "background"@) == p(Tone::Background),
        palette::token_color(p, "cursor"@) == p(Tone::Cursor),
{
    law_tone_names_in_styles(p, Tone::AddEmph);
    law_tone_names_in_styles(p, Tone::RemoveEmph);
    law_tone_names_in_styles(p, Tone::AddLine);
    law_tone_names_in_styles(p, Tone::RemoveLine);
    law_tone_names_in_styles(p, Tone::Background);
    law_tone_names_in_styles(p, Tone::Cursor);
}

/// The backgrounds of changed lines and words, of the cursor and of the screen
/// are those of the tones named after them.
#[verifier::rlimit(60)]
pub proof fn law_backgrounds_are_their_tones(c: Settings)
    ensures
        palette::theme_of(c).add_emph_bg == palette::palette_of(c.colors)(Tone::AddEmph),
        palette::theme_of(c).remove_emph_bg == palette::palette_of(c.colors)(Tone::RemoveEmph),
        palette::theme_of(c).add_line_bg == palette::palette_of(c.colors)(Tone::AddLine),
        palette::theme_of(c).remove_line_bg == palette::palette_of(c.colors)(Tone::RemoveLine),
        palette::theme_of(c).background == palette::palette_of(c.colors)(Tone::Background),
        palette::palette_of(c.colors)(Tone::Cursor) is Some ==> palette::theme_of(c).cursor_bg
            == palette::palette_of(c.colors)(Tone::Cursor)->0,
{
    lemma_background_tokens(palette::palette_of(c.colors));
}

/// The style of one solid word.
proof fn lemma_one_word(w: Seq<char>)
    requires
        w.len() > 0,
        reading::is_solid(w),
    ensures
        text::word_texts(w) == seq![w],
{
    let f = |c: char| text::is_space(c);
    let keep = |x: Seq<char>| x.len() > 0;
    reading::lemma_split_none(w, f);
    reveal(Seq::filter);
    assert(seq![w].drop_last() =~= Seq::empty());
    assert(seq![w].drop_last().filter(keep) =~= Seq::empty());
    assert(seq![w].filter(keep) =~= seq![w]);
}

/// A style that names one tone has the color of that tone, and no more.
proof fn lemma_tone_style(c: Settings, name: Seq<char>, t: Tone)
    requires
        !c.styles.contains_key(name),
        reading::is_solid(tone_name(t)),
        !is_attribute(tone_name(t)),
    ensures
        palette::component(c, name, tone_name(t)).fg == palette::palette_of(c.colors)(t),
        palette::component(c, name, tone_name(t)).bg is None,
{
    let p = palette::palette_of(c.colors);
    let w = tone_name(t);
    lemma_tone_lengths(t);
    lemma_one_word(w);
    lemma_one_color(seq![w], p, 0);
    law_tone_names_in_styles(p, t);
}

proof fn lemma_plain_tones()
    ensures
        reading::is_solid("add"@) && !is_attribute("add"@),
        reading::is_solid("remove"@) && !is_attribute("remove"@),
        reading::is_solid("context"@) && !is_attribute("context"@),
        reading::is_solid("line-number"@) && !is_attribute("line-number"@),
{
    reveal_strlit("add");
    reveal_strlit("remove");
    reveal_strlit("context");
    reveal_strlit("line-number");
    lemma_attribute_looks();
    text::law_lowering("add"@, 0);
    text::law_lowering("remove"@, 0);
    text::law_lowering("context"@, 0);
    text::law_lowering("context"@, 5);
    text::law_lowering("line-number"@, 0);
    text::law_lowering("remove"@, 4);
}

/// Without styles of their own, added lines, removed lines, context and line
/// numbers have the colors of their tones.
pub proof fn law_lines_have_their_colors(c: Settings)
    requires
        !c.styles.contains_key("add"@),
        !c.styles.contains_key("remove"@),
        !c.styles.contains_key("context"@),
        !c.styles.contains_key("line-number"@),
    ensures
        ({
            let s = palette::theme_of(c);
            let p = palette::palette_of(c.colors);
            &&& s.add.fg == p(Tone::Add) && s.add.bg is None
            &&& s.remove.fg == p(Tone::Remove) && s.remove.bg is None
            &&& s.context.fg == p(Tone::Context) && s.context.bg is None
            &&& s.line_number.fg == p(Tone::LineNumber) && s.line_number.bg is None
        }),
{
    lemma_plain_tones();
    lemma_tone_style(c, "add"@, Tone::Add);
    lemma_tone_style(c, "remove"@, Tone::Remove);
    lemma_tone_style(c, "context"@, Tone::Context);
    lemma_tone_style(c, "line-number"@, Tone::LineNumber);
}

/// A component that has a style of its own has that style.
pub proof fn law_configured_styles_win(c: Settings, name: Seq<char>, d: Seq<char>, e: Seq<char>)
    requires
        c.styles.contains_key(name),
    ensures
        palette::component(c, name, d) == palette::component(c, name, e),
        palette::component(c, name, d) == palette::style_of(
            c.styles[name],
            palette::palette_of(c.colors),
        ),
{
}

// Keys.

/// A key does what the first pattern that it answers to stands for.
pub proof fn law_first_pattern_counts(b: keys::Bindings, k: keys::KeyV, i: int)
    ensures
        0 <= i < b.len() && keys::key_is(k.name, k.text, b[i].0) && (forall|j: int|
            0 <= j < i ==> !keys::key_is(k.name, k.text, (#[trigger] b[j]).0)) ==> keys::bound(b, k)
            == Some(b[i].1),
        (forall|j: int| 0 <= j < b.len() ==> !keys::key_is(k.name, k.text, (#[trigger] b[j]).0))
            ==> keys::bound(b, k) is None,
    decreases b.len(),
{
    if b.len() > 0 {
        let d = b.drop_first();
        law_first_pattern_counts(d, k, i - 1);
        assert forall|j: int| 0 <= j < d.len() implies d[j] == b[j + 1] by {}
        if i > 0 {
            assert(b[0] == b.first());
        }
    }
}

/// The keys of the diff view, as they are documented.
#[verifier::rlimit(60)]
pub proof fn law_documented_keys()
    ensures
        ({
            let b = keys::diff_bindings();
            &&& b.contains(("q"@, Action::Quit)) && b.contains(("ctrl+c"@, Action::Quit))
            &&& b.contains(("j"@, Action::Down)) && b.contains(("k"@, Action::Up))
            &&& b.contains(("h"@, Action::Left)) && b.contains(("l"@, Action::Right))
            &&& b.contains(("0"@, Action::LineStart)) && b.contains(("$"@, Action::LineEnd))
            &&& b.contains(("d"@, Action::HalfDown)) && b.contains(("u"@, Action::HalfUp))
            &&& b.contains(("space"@, Action::PageDown)) && b.contains(("b"@, Action::PageUp))
            &&& b.contains(("ctrl+e"@, Action::ScrollDown))
            &&& b.contains(("ctrl+y"@, Action::ScrollUp))
            &&& b.contains(("g"@, Action::Top)) && b.contains(("G"@, Action::Bottom))
            &&& b.contains(("H"@, Action::ScreenTop)) && b.contains(("M"@, Action::ScreenMiddle))
            &&& b.contains(("L"@, Action::ScreenBottom))
            &&& b.contains(("}"@, Action::NextHunk)) && b.contains(("{"@, Action::PrevHunk))
            &&& b.contains(("]"@, Action::NextFile)) && b.contains(("["@, Action::PrevFile))
            &&& b.contains(("tab"@, Action::NextFile))
            &&& b.contains(("/"@, Action::Search)) && b.contains(("n"@, Action::NextMatch))
            &&& b.contains(("N"@, Action::PrevMatch))
            &&& b.contains(("s"@, Action::Split)) && b.contains(("F"@, Action::Files))
            &&& b.contains(("B"@, Action::Sidebar)) && b.contains(("w"@, Action::Watch))
            &&& b.contains(("?"@, Action::Help)) && b.contains(("v"@, Action::Edit))
            &&& b.contains(("enter"@, Action::Enter)) && b.contains(("r"@, Action::Refresh))
            &&& b.contains(("y"@, Action::Copy)) && b.contains(("Y"@, Action::CopyFile))
            &&& b.contains(("escape"@, Action::Escape))
        }),
{
    let b = keys::diff_bindings();
    assert(b[0] == ("escape"@, Action::Escape));
    assert(b[1] == ("q"@, Action::Quit));
    assert(b[2] == ("ctrl+c"@, Action::Quit));
    assert(b[3] == ("y"@, Action::Copy));
    assert(b[4] == ("Y"@, Action::CopyFile));
    assert(b[5] == ("j"@, Action::Down));
    assert(b[7] == ("k"@, Action::Up));
    assert(b[9] == ("h"@, Action::Left));
    assert(b[11] == ("l"@, Action::Right));
    assert(b[13] == ("0"@, Action::LineStart));
    assert(b[14] == ("$"@, Action::LineEnd));
    assert(b[15] == ("d"@, Action::HalfDown));
    assert(b[18] == ("u"@, Action::HalfUp));
    assert(b[21] == ("space"@, Action::PageDown));
    assert(b[24] == ("b"@, Action::PageUp));
    assert(b[26] == ("ctrl+e"@, Action::ScrollDown));
    assert(b[27] == ("ctrl+y"@, Action::ScrollUp));
    assert(b[28] == ("g"@, Action::Top));
    assert(b[30] == ("G"@, Action::Bottom));
    assert(b[32] == ("H"@, Action::ScreenTop));
    assert(b[33] == ("M"@, Action::ScreenMiddle));
    assert(b[34] == ("L"@, Action::ScreenBottom));
    assert(b[35] == ("}"@, Action::NextHunk));
    assert(b[37] == ("{"@, Action::PrevHunk));
    assert(b[39] == ("tab"@, Action::NextFile));
    assert(b[40] == ("]"@, Action::NextFile));
    assert(b[43] == ("["@, Action::PrevFile));
    assert(b[44] == ("/"@, Action::Search));
    assert(b[45] == ("n"@, Action::NextMatch));
    assert(b[46] == ("N"@, Action::PrevMatch));
    assert(b[47] == ("s"@, Action::Split));
    assert(b[48] == ("F"@, Action::Files));
    assert(b[49] == ("B"@, Action::Sidebar));
    assert(b[50] == ("w"@, Action::Watch));
    assert(b[51] == ("?"@, Action::Help));
    assert(b[52] == ("v"@, Action::Edit));
    assert(b[54] == ("enter"@, Action::Enter));
    assert(b[55] == ("r"@, Action::Refresh));
}

// Places.

/// Where a row's content begins for the pointer is where it is drawn: behind
/// nine columns of numbers in the unified view, five in a pane, and the sign.
pub proof fn law_pointer_and_drawing_agree(f: Frame, kind: RowKind)
    requires
        kind == RowKind::Add || kind == RowKind::Remove || kind == RowKind::Context,
    ensures
        ({
            let wide: int = if f.line_numbers {
                10
            } else {
                1
            };
            let slim: int = if f.line_numbers {
                6
            } else {
                1
            };
            let left_w = geometry::left_share(f.body_w(), f.share as int);
            &&& f.text_at(kind, None) == f.body_at() + wide
            &&& f.text_at(kind, Some(Pane::Left)) == f.body_at() + slim
            &&& f.text_at(kind, Some(Pane::Right)) == f.body_at() + left_w + 1 + slim
            &&& f.content_at(kind, Gut::Both) == wide
            &&& f.content_at(kind, Gut::Old) == slim
            &&& f.content_at(kind, Gut::New) == slim
        }),
{
}

/// The columns left of the split divider are the left pane, those right of it
/// the right one.
pub proof fn law_panes_lie_beside_the_divider(f: Frame, x: int)
    ensures
        ({
            let at = f.body_at() + geometry::left_share(f.body_w(), f.share as int);
            &&& x < at ==> f.pane_of(x) == Some(Pane::Left)
            &&& x > at ==> f.pane_of(x) == Some(Pane::Right)
            &&& x == at ==> f.pane_of(x) is None
        }),
        f.body_w() >= 5 && 2 <= f.share <= f.body_w() - 3 ==> geometry::left_share(
            f.body_w(),
            f.share as int,
        ) == f.share,
{
}

/// The viewport is what the footer and the help grid leave of the screen.
pub proof fn law_viewport_rows(f: Frame)
    ensures
        1 + f.help_rows <= f.height ==> f.body_rows() == f.height - 1 - f.help_rows,
        1 + f.help_rows > f.height ==> f.body_rows() == 0,
{
}

/// A sidebar has the columns it should have, as far as they are between eight
/// and half the screen.
pub proof fn law_sidebar_has_its_width(f: Frame)
    requires
        f.sidebar,
        8 <= f.sidebar_want <= f.width / 2,
    ensures
        f.side_w() == f.sidebar_want,
        f.sidebar_left ==> f.body_at() == f.sidebar_want && f.side_edge() == f.sidebar_want - 1,
        !f.sidebar_left ==> f.body_at() == 0 && f.side_edge() == f.width - f.sidebar_want,
        f.body_w() == f.width - f.sidebar_want,
{
    assert(f.sidebar_want as u16 == f.sidebar_want);
}

/// The columns that are left for content end where the body ends, or at the
/// end of the narrower pane.
pub proof fn law_text_fills_its_box(f: Frame)
    ensures
        ({
            let wide: int = if f.line_numbers {
                10
            } else {
                1
            };
            let slim: int = if f.line_numbers {
                6
            } else {
                1
            };
            let left = geometry::left_share(f.body_w(), f.share as int);
            let right = f.body_w() - left - 1;
            &&& wide <= f.body_w() ==> f.text_at(RowKind::Add, None) + f.text_w(false)
                == f.body_at() + f.body_w()
            &&& f.body_w() >= 5 && slim <= left <= right ==> f.text_w(true) == left - slim
            &&& f.body_w() >= 5 && slim <= right <= left ==> f.text_w(true) == right - slim
        }),
{
}

/// The names of the sixteen colors.
pub open spec fn color_name(c: Color) -> Seq<char> {
    match c {
        Color::Black => "black"@,
        Color::Red => "red"@,
        Color::Green => "green"@,
        Color::Yellow => "yellow"@,
        Color::Blue => "blue"@,
        Color::Magenta => "magenta"@,
        Color::Cyan => "cyan"@,
        Color::White => "white"@,
        Color::BrightBlack => "brightblack"@,
        Color::BrightRed => "brightred"@,
        Color::BrightGreen => "brightgreen"@,
        Color::BrightYellow => "brightyellow"@,
        Color::BrightBlue => "brightblue"@,
        Color::BrightMagenta => "brightmagenta"@,
        Color::BrightCyan => "brightcyan"@,
        _ => "brightwhite"@,
    }
}

/// Every named color is found by its name.
#[verifier::rlimit(60)]
pub proof fn law_colors_have_names(c: Color)
    requires
        !(c is Indexed),
        !(c is Rgb),
    ensures
        palette::named_color(color_name(c)) == Some(c),
{
    reveal_strlit("black");
    reveal_strlit("red");
    reveal_strlit("green");
    reveal_strlit("yellow");
    reveal_strlit("blue");
    reveal_strlit("magenta");
    reveal_strlit("cyan");
    reveal_strlit("white");
    reveal_strlit("gray");
    reveal_strlit("grey");
    reveal_strlit("brightblack");
    reveal_strlit("brightred");
    reveal_strlit("brightgreen");
    reveal_strlit("brightyellow");
    reveal_strlit("brightblue");
    reveal_strlit("brightmagenta");
    reveal_strlit("brightcyan");
    reveal_strlit("brightwhite");
    assert(looks("black"@, 5, 'b', 'c'));
    assert(looks("red"@, 3, 'r', 'e'));
    assert(looks("green"@, 5, 'g', 'e'));
    assert(looks("yellow"@, 6, 'y', 'o'));
    assert(looks("blue"@, 4, 'b', 'u'));
    assert(looks("magenta"@, 7, 'm', 't'));
    assert(looks("cyan"@, 4, 'c', 'a'));
    assert(looks("white"@, 5, 'w', 't'));
    assert(looks("gray"@, 4, 'g', 'a'));
    assert(looks("grey"@, 4, 'g', 'e'));
    assert(looks("brightblack"@, 11, 'b', 'c'));
    assert(looks("brightred"@, 9, 'b', 'e'));
    assert(looks("brightgreen"@, 11, 'b', 'e'));
    assert(looks("brightyellow"@, 12, 'b', 'o'));
    assert(looks("brightblue"@, 10, 'b', 'u'));
    assert(looks("brightmagenta"@, 13, 'b', 't'));
    assert(looks("brightcyan"@, 10, 'b', 'a'));
    assert(looks("brightwhite"@, 11, 'b', 't'));
}

/// Capital digits of a color mean the same as small ones.
pub proof fn law_hex_digits_in_any_case(k: u8)
    requires
        k < 6,
    ensures
        palette::hex_digit((65 + k) as u8 as char) == Some((10 + k) as u8),
        palette::hex_digit((97 + k) as u8 as char) == Some((10 + k) as u8),
        palette::hex_digit('g') is None,
{
    let a = (65 + k) as u8;
    let b = (97 + k) as u8;
    assert((a as char) as u8 == a);
    assert((b as char) as u8 == b);
}

/// The editor is the configured one, else the first that the environment
/// names.
pub proof fn law_editor_in_order(c: Settings, visual: &str, editor: &str)
    ensures
        c.editor.len() > 0 ==> config::editor_of(c, Some(visual), Some(editor)) == c.editor,
        c.editor.len() == 0 ==> config::editor_of(c, Some(visual), Some(editor)) == visual@,
        c.editor.len() == 0 ==> config::editor_of(c, None, Some(editor)) == editor@,
        c.editor.len() == 0 ==> config::editor_of(c, None, None) == "vi"@,
{
}

/// A config file is looked for in the directory of the desktop first, and then
/// in the home directory; in each, TOML comes first.
pub proof fn law_config_places(xdg: Seq<char>, home: Seq<char>)
    ensures
        ({
            let v = config::candidates(Some(xdg), Some(home));
            let w = config::candidates(None, Some(home));
            let d = paths::joined_path(xdg, "diffv"@);
            let e = paths::joined_path(home, ".config/diffv"@);
            &&& v.len() == 9 && w.len() == 5
            &&& v[0] == paths::joined_path(d, "config.toml"@)
            &&& v[1] == paths::joined_path(d, "config.yaml"@)
            &&& v[2] == paths::joined_path(d, "config.yml"@)
            &&& v[3] == paths::joined_path(d, "config.json"@)
            &&& w[0] == paths::joined_path(e, "config.toml"@)
            &&& w[4] == paths::joined_path(home, ".diffv.toml"@)
            &&& v.skip(4) == w
            &&& config::candidates(None, None).len() == 0
        }),
{
    let v = config::candidates(Some(xdg), Some(home));
    let w = config::candidates(None, Some(home));
    assert(v.skip(4) =~= w);
}

/// The keys of the file list, as they are documented.
#[verifier::rlimit(40)]
pub proof fn law_documented_list_keys()
    ensures
        ({
            let b = keys::stat_bindings();
            &&& b.contains(("q"@, Action::Quit)) && b.contains(("escape"@, Action::Escape))
            &&& b.contains(("j"@, Action::NextFile)) && b.contains(("k"@, Action::PrevFile))
            &&& b.contains(("down"@, Action::NextFile)) && b.contains(("up"@, Action::PrevFile))
            &&& b.contains(("g"@, Action::FirstFile)) && b.contains(("G"@, Action::LastFile))
            &&& b.contains(("F"@, Action::CloseFiles)) && b.contains(("enter"@, Action::OpenFile))
            &&& b.contains(("r"@, Action::Refresh)) && b.contains(("?"@, Action::Help))
        }),
{
    let b = keys::stat_bindings();
    assert(b[0] == ("escape"@, Action::Escape));
    assert(b[1] == ("q"@, Action::Quit));
    assert(b[3] == ("j"@, Action::NextFile));
    assert(b[4] == ("down"@, Action::NextFile));
    assert(b[6] == ("k"@, Action::PrevFile));
    assert(b[7] == ("up"@, Action::PrevFile));
    assert(b[9] == ("g"@, Action::FirstFile));
    assert(b[11] == ("G"@, Action::LastFile));
    assert(b[13] == ("F"@, Action::CloseFiles));
    assert(b[16] == ("?"@, Action::Help));
    assert(b[17] == ("enter"@, Action::OpenFile));
    assert(b[19] == ("r"@, Action::Refresh));
}

/// The style of a component whose default names two tones.
proof fn lemma_two_tones(c: Settings, name: Seq<char>, spec: Seq<char>, t: Tone, u: Tone)
    requires
        !c.styles.contains_key(name),
        spec == tone_name(t).push(' ') + tone_name(u),
        reading::is_solid(tone_name(t)) && !is_attribute(tone_name(t)),
        reading::is_solid(tone_name(u)) && !is_attribute(tone_name(u)),
    ensures
        palette::component(c, name, spec).fg == palette::palette_of(c.colors)(t),
        palette::component(c, name, spec).bg == palette::palette_of(c.colors)(u),
{
    let p = palette::palette_of(c.colors);
    let a = tone_name(t);
    let b = tone_name(u);
    lemma_tone_lengths(t);
    lemma_tone_lengths(u);
    reading::lemma_first_word(a, b);
    lemma_one_word(b);
    let v = seq![a] + seq![b];
    assert(text::word_texts(spec) =~= v);
    law_first_two_colors_count(v, p, 0, 1);
    law_tone_names_in_styles(p, t);
    law_tone_names_in_styles(p, u);
}

proof fn lemma_ground_tones()
    ensures
        reading::is_solid("foreground"@) && !is_attribute("foreground"@),
        reading::is_solid("background"@) && !is_attribute("background"@),
        reading::is_solid("surface"@) && !is_attribute("surface"@),
{
    reveal_strlit("foreground");
    reveal_strlit("background");
    reveal_strlit("surface");
    lemma_attribute_looks();
    text::law_lowering("foreground"@, 0);
    text::law_lowering("background"@, 0);
    text::law_lowering("surface"@, 0);
}

/// Without styles of their own, the counts of the footer have the colors of
/// added and removed lines, on the surface; the dialogs have the colors of
/// the screen.
#[verifier::rlimit(60)]
pub proof fn law_footer_has_its_colors(c: Settings)
    requires
        !c.styles.contains_key("statusbar"@),
        !c.styles.contains_key("statusbar-add"@),
        !c.styles.contains_key("statusbar-remove"@),
        !c.styles.contains_key("dialog"@),
    ensures
        palette::theme_of(c).statusbar_add.fg == palette::palette_of(c.colors)(Tone::Add),
        palette::theme_of(c).statusbar_add.bg == palette::palette_of(c.colors)(Tone::Surface),
        palette::theme_of(c).statusbar_remove.fg == palette::palette_of(c.colors)(Tone::Remove),
        palette::theme_of(c).statusbar_remove.bg == palette::palette_of(c.colors)(Tone::Surface),
        palette::theme_of(c).statusbar.fg == palette::palette_of(c.colors)(Tone::Foreground),
        palette::theme_of(c).statusbar.bg == palette::palette_of(c.colors)(Tone::Surface),
        palette::theme_of(c).dialog.fg == palette::palette_of(c.colors)(Tone::Foreground),
        palette::theme_of(c).dialog.bg == palette::palette_of(c.colors)(Tone::Background),
{
    lemma_plain_tones();
    lemma_ground_tones();
    lemma_two_word_literals();
    lemma_two_tones(c, "statusbar-add"@, "add surface"@, Tone::Add, Tone::Surface);
    lemma_two_tones(c, "statusbar-remove"@, "remove surface"@, Tone::Remove, Tone::Surface);
    lemma_two_tones(c, "statusbar"@, "foreground surface"@, Tone::Foreground, Tone::Surface);
    lemma_two_tones(c, "dialog"@, "foreground background"@, Tone::Foreground, Tone::Background);
}

proof fn lemma_two_word_literals()
    ensures
        "add surface"@ == "add"@.push(' ') + "surface"@,
        "remove surface"@ == "remove"@.push(' ') + "surface"@,
        "foreground surface"@ == "foreground"@.push(' ') + "surface"@,
        "foreground background"@ == "foreground"@.push(' ') + "background"@,
{
    reveal_strlit("add");
    reveal_strlit("remove");
    reveal_strlit("surface");
    reveal_strlit("foreground");
    reveal_strlit("background");
    reveal_strlit("add surface");
    reveal_strlit("remove surface");
    reveal_strlit("foreground surface");
    reveal_strlit("foreground background");
    assert("add surface"@ =~= "add"@.push(' ') + "surface"@);
    assert("remove surface"@ =~= "remove"@.push(' ') + "surface"@);
    assert("foreground surface"@ =~= "foreground"@.push(' ') + "surface"@);
    assert("foreground background"@ =~= "foreground"@.push(' ') + "background"@);
}

/// Blanks around a color mean nothing.
pub proof fn law_colors_are_trimmed(s: Seq<char>)
    ensures
        palette::color_of(s) == palette::color_of(text::trimmed(s)),
{
    let (a, b) = text::law_trim_takes_the_ends_off(s);
    let t = text::trimmed(s);
    if t.len() > 0 {
        assert(text::trim_start(t) == t);
        assert(text::trim_end(t) == t);
    } else {
        assert(t =~= Seq::<char>::empty());
        assert(text::trimmed(t) =~= t);
    }
}

/// The name of a tone with its words run together.
pub open spec fn flat_name(t: Tone) -> Seq<char> {
    match t {
        Tone::LineNumber => "linenumber"@,
        Tone::AddLine => "addline"@,
        Tone::RemoveLine => "removeline"@,
        Tone::AddEmph => "addemph"@,
        Tone::RemoveEmph => "removeemph"@,
        _ => tone_name(t),
    }
}

/// A key `color<tone>`, its words run together, means that tone.
#[verifier::rlimit(60)]
pub proof fn law_flat_color_keys(t: Tone)
    ensures
        config::tone_flat(flat_name(t)) == Some(t),
{
    lemma_tone_looks();
    reveal_strlit("linenumber");
    reveal_strlit("addline");
    reveal_strlit("removeline");
    reveal_strlit("addemph");
    reveal_strlit("removeemph");
    assert(looks("linenumber"@, 10, 'l', 'e'));
    assert(looks("addline"@, 7, 'a', 'n'));
    assert(looks("removeline"@, 10, 'r', 'n'));
    assert(looks("addemph"@, 7, 'a', 'p'));
    assert(looks("removeemph"@, 10, 'r', 'p'));
}

/// Every built-in theme has the palette of its name.
#[verifier::rlimit(60)]
pub proof fn law_themes_have_their_palettes()
    ensures
        themes::theme_hues("onedark"@) == Some(config::builtin_hues(true)),
        themes::theme_hues("onelight"@) == Some(config::builtin_hues(false)),
        themes::theme_hues("ansi"@) == Some(config::ansi_hues()),
        themes::theme_hues("dracula"@) == Some(themes::dracula_hues()),
        themes::theme_hues("gruvbox-dark"@) == Some(themes::gruvbox_dark_hues()),
        themes::theme_hues("gruvbox-light"@) == Some(themes::gruvbox_light_hues()),
        themes::theme_hues("nord"@) == Some(themes::nord_hues()),
        themes::theme_hues("solarized-dark"@) == Some(themes::solarized_dark_hues()),
        themes::theme_hues("solarized-light"@) == Some(themes::solarized_light_hues()),
        themes::theme_hues("catppuccin-mocha"@) == Some(themes::catppuccin_mocha_hues()),
        themes::theme_hues("catppuccin-latte"@) == Some(themes::catppuccin_latte_hues()),
        themes::theme_hues("tokyonight"@) == Some(themes::tokyonight_hues()),
        themes::theme_hues("monokai"@) == Some(themes::monokai_hues()),
{
    reveal_strlit("onedark");
    reveal_strlit("onelight");
    reveal_strlit("ansi");
    reveal_strlit("dracula");
    reveal_strlit("gruvbox-dark");
    reveal_strlit("gruvbox-light");
    reveal_strlit("nord");
    reveal_strlit("solarized-dark");
    reveal_strlit("solarized-light");
    reveal_strlit("catppuccin-mocha");
    reveal_strlit("catppuccin-latte");
    reveal_strlit("tokyonight");
    reveal_strlit("monokai");
    assert(looks("onedark"@, 7, 'o', 'r'));
    assert(looks("onelight"@, 8, 'o', 'h'));
    assert(looks("ansi"@, 4, 'a', 's'));
    assert(looks("dracula"@, 7, 'd', 'l'));
    assert(looks("gruvbox-dark"@, 12, 'g', 'r'));
    assert(looks("gruvbox-light"@, 13, 'g', 'h'));
    assert(looks("nord"@, 4, 'n', 'r'));
    assert(looks("solarized-dark"@, 14, 's', 'r'));
    assert(looks("solarized-light"@, 15, 's', 'h'));
    assert(looks("catppuccin-mocha"@, 16, 'c', 'h'));
    assert(looks("catppuccin-latte"@, 16, 'c', 't'));
    assert(looks("tokyonight"@, 10, 't', 'h'));
    assert(looks("monokai"@, 7, 'm', 'a'));
}

/// A built-in theme brings its palette whatever the background is; any other
/// takes that of the background.
pub proof fn law_palette_of_a_theme(theme: Seq<char>, dark: bool)
    ensures
        themes::theme_hues(theme) is Some ==> config::palette_for(theme, dark)
            == themes::theme_hues(theme)->0,
        themes::theme_hues(theme) is None && dark ==> config::palette_for(theme, dark)
            == config::builtin_hues(true),
        themes::theme_hues(theme) is None && !dark ==> config::palette_for(theme, dark)
            == config::builtin_hues(false),
{
}

proof fn lemma_solid_has_no_space(a: Seq<char>)
    requires
        reading::is_solid(a),
    ensures
        text::first_space(a) == a.len(),
    decreases a.len(),
{
    if a.len() > 0 {
        let d = a.drop_first();
        assert(!text::is_space(a[0]));
        assert(reading::is_solid(d)) by {
            assert forall|i: int| 0 <= i < d.len() implies !text::is_space(#[trigger] d[i]) by {
                assert(!text::is_space(a[i + 1]));
            }
        }
        lemma_solid_has_no_space(d);
    }
}

/// A line of the git config without a value changes nothing, and neither does
/// a key that is not known.
#[verifier::rlimit(40)]
pub proof fn law_unknown_keys_change_nothing(c: Settings, line: Seq<char>, key: Seq<char>, v: Seq<char>)
    requires
        reading::is_solid(line),
        key.len() > 0,
        key[0] != 't',
        key[0] != 's',
        key[0] != 'i',
        key[0] != 'l',
        key[0] != 'e',
        key[0] != 'c',
    ensures
        config::with_line(c, line) == c,
        config::with_value(c, key, v) == c,
{
    lemma_solid_has_no_space(line);
    lemma_key_looks();
    reveal_strlit("colors.");
    reveal_strlit("color");
    reveal_strlit("styles.");
    reveal_strlit("style");
    reading::lemma_not_prefix_at(key, "colors."@, 0);
    reading::lemma_not_prefix_at(key, "color"@, 0);
    reading::lemma_not_prefix_at(key, "styles."@, 0);
    reading::lemma_not_prefix_at(key, "style"@, 0);
}

/// A name that begins with its only dot has no extension.
pub proof fn law_hidden_files_have_no_extension(dir: Seq<char>, name: Seq<char>)
    requires
        name.len() > 0,
        !name.contains('/'),
        !name.contains('.'),
    ensures
        paths::extension_of(dir.push('/') + seq!['.'] + name) is None,
        paths::file_name_of(dir.push('/') + seq!['.'] + name) == Some(seq!['.'] + name),
{
    let n = seq!['.'] + name;
    let none = Seq::<char>::empty();
    assert(n =~= none.push('.') + name);
    assert(!n.contains('/')) by {
        assert forall|i: int| 0 <= i < n.len() implies n[i] != '/' by {
            if i > 0 {
                assert(name[i - 1] != '/');
            }
        }
    }
    assert(name[0] != '.');
    assert(n != seq!['.']);
    assert(n != seq!['.', '.']) by {
        assert(n[1] == name[0]);
    }
    assert(dir.push('/') + seq!['.'] + name =~= dir.push('/') + n);
    law_file_name(dir, n);
    lemma_last_dot(none, name);
}

/// A config file is written in the language of its extension, TOML unless it
/// says otherwise.
pub proof fn law_config_languages(path: Seq<char>)
    ensures
        paths::extension_of(path) == Some("json"@) ==> config::format_of(path)
            == config::Format::Json,
        paths::extension_of(path) == Some("yaml"@) ==> config::format_of(path)
            == config::Format::Yaml,
        paths::extension_of(path) == Some("yml"@) ==> config::format_of(path)
            == config::Format::Yaml,
        paths::extension_of(path) == Some("toml"@) ==> config::format_of(path)
            == config::Format::Toml,
        paths::extension_of(path) is None ==> config::format_of(path) == config::Format::Toml,
{
    reveal_strlit("json");
    reveal_strlit("yaml");
    reveal_strlit("yml");
    reveal_strlit("toml");
    assert(looks("json"@, 4, 'j', 'o'));
    assert(looks("yaml"@, 4, 'y', 'm'));
    assert(looks("yml"@, 3, 'y', 'm'));
    assert(looks("toml"@, 4, 't', 'm'));
}

/// While a pattern is typed, escape and the interrupt key end it, enter
/// searches and backspace takes a character back; every other key is text.
pub proof fn law_typing_keys(k: keys::KeyV)
    ensures
        ({
            let hit = |p: Seq<char>| keys::key_is(k.name, k.text, p);
            let what = keys::typing_of(k);
            &&& hit("escape"@) ==> what == keys::Typing::Cancel
            &&& hit("ctrl+c"@) ==> what == keys::Typing::Cancel
            &&& !hit("escape"@) && !hit("ctrl+c"@) && hit("enter"@) ==> what == keys::Typing::Commit
            &&& !hit("escape"@) && !hit("ctrl+c"@) && !hit("enter"@) && hit("backspace"@) ==> what
                == keys::Typing::Erase
            &&& !hit("escape"@) && !hit("ctrl+c"@) && !hit("enter"@) && !hit("backspace"@) ==> what
                == keys::Typing::Insert
        }),
{
}

/// The words of a text are those on both sides of a blank.
pub proof fn law_words_split_at_blanks(a: Seq<char>, b: Seq<char>)
    ensures
        text::word_texts(a.push(' ') + b) == text::word_texts(a) + text::word_texts(b),
        a.len() > 0 && reading::is_solid(a) ==> text::word_texts(a) == seq![a],
        text::word_texts(Seq::empty()) == Seq::<Seq<char>>::empty(),
{
    let f = |c: char| text::is_space(c);
    let keep = |x: Seq<char>| x.len() > 0;
    assert(f(' '));
    reading::lemma_split_join(a, ' ', b, f);
    Seq::<Seq<char>>::filter_distributes_over_add(text::split_if(a, f), text::split_if(b, f), keep);
    if a.len() > 0 && reading::is_solid(a) {
        lemma_one_word(a);
    }
    reveal(Seq::filter);
    let e = seq![Seq::<char>::empty()];
    assert(text::split_if(Seq::empty(), f) =~= e);
    assert(e.drop_last() =~= Seq::empty());
    assert(e.drop_last().filter(keep) =~= Seq::empty());
    assert(e.filter(keep) =~= Seq::<Seq<char>>::empty());
}

/// What is read as a number is made of digits, with at most a plus sign before
/// them.
pub proof fn law_numbers_are_digits(s: Seq<char>, max: nat, i: int)
    requires
        text::parsed_uint(s, max) is Some,
        0 <= i < s.len(),
    ensures
        '0' <= s[i] <= '9' || i == 0 && s[0] == '+' && s.len() > 1,
        text::parsed_uint(s, max)->0 <= max,
{
    let d = text::unsigned_part(s);
    if s[0] == '+' {
        assert(d.len() == s.len() - 1);
        if i > 0 {
            assert(d[i - 1] == s[i]);
            assert(text::is_digit(d[i - 1]));
        }
    } else {
        assert(text::is_digit(d[i]));
    }
}

} // verus!
