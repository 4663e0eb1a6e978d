use diffv::git::{
    discover, discover_args, piped_diff, toplevel, untracked_diff_args, untracked_files,
    untracked_list_args, watch_targets, Opts, Output, Repo, Source,
};

fn ok(stdout: &str) -> Output {
    Output { success: true, stdout: stdout.into(), stderr: String::new() }
}

#[test]
fn untracked_diffs_follow_the_tracked_ones() {
    let opts = Opts { all: true, ..Opts::default() };
    let text = Source::Worktree
        .diff(&opts, &ok("diff tracked\n"), &vec!["diff fresh\n".to_string()])
        .unwrap();
    assert_eq!(text, "diff tracked\ndiff fresh\n");
}

#[test]
fn a_failed_diff_gives_gits_words() {
    let out = Output { success: false, stdout: "x".into(), stderr: "fatal: bad\n".into() };
    let e = Source::Staged.diff(&Opts::default(), &out, &vec![]).unwrap_err();
    assert!(e.contains("fatal: bad"));
}

#[test]
fn commands_name_what_to_diff() {
    let o = Opts::default();
    let work = Source::Worktree.diff_args(&o);
    let staged = Source::Staged.diff_args(&o);
    let one = Source::Rev("HEAD~3".into()).diff_args(&o);
    let range = Source::Rev("main..feature".into()).diff_args(&o);
    assert!(work.contains(&"diff".to_string()));
    assert!(!work.contains(&"--staged".to_string()));
    assert!(staged.contains(&"--staged".to_string()));
    assert!(one.contains(&"show".to_string()) && one.contains(&"HEAD~3".to_string()));
    assert!(range.contains(&"diff".to_string()) && range.contains(&"main..feature".to_string()));
}

#[test]
fn options_become_flags() {
    let o = Opts {
        ignore_whitespace: true,
        context: Some(7),
        algorithm: Some("patience".into()),
        pathspec: vec!["src/".into()],
        all: false,
    };
    let a = Source::Worktree.diff_args(&o);
    assert!(a.contains(&"-w".to_string()));
    assert!(a.contains(&"-U7".to_string()));
    assert!(a.contains(&"--diff-algorithm=patience".to_string()));
    let n = a.len();
    assert_eq!(&a[n - 2..], &["--".to_string(), "src/".to_string()]);
}

#[test]
fn sources_are_selected_by_flags() {
    assert!(matches!(Source::select(true, false, None), Source::Stdin));
    assert!(matches!(Source::select(true, true, None), Source::Staged));
    assert!(matches!(Source::select(false, false, None), Source::Worktree));
    assert!(matches!(Source::select(true, false, Some("x".into())), Source::Rev(_)));
    assert!(Source::Worktree.reads_worktree());
    assert!(!Source::Staged.reads_worktree());
    assert!(Source::Stdin.is_stdin());
}

#[test]
fn bare_repositories_show_head() {
    let bare = Repo { git_dir: "/r".into(), common_dir: "/r".into(), is_bare: true };
    match Source::Worktree.in_repo(Some(&bare)) {
        Ok(Source::Rev(r)) => assert_eq!(r, "HEAD"),
        _ => panic!("no HEAD"),
    }
    assert!(matches!(Source::Staged.in_repo(None), Err(e) if e == "not a git repository"));
    assert!(matches!(Source::Stdin.in_repo(None), Ok(Source::Stdin)));
}

#[test]
fn repositories_are_discovered() {
    assert!(discover_args().contains(&"rev-parse".to_string()));
    let r = discover(Some("/w/.git\n/w/.git\nfalse\n")).unwrap();
    assert_eq!(r.git_dir, "/w/.git");
    assert!(!r.is_bare);
    assert!(discover(None).is_none());
    assert!(discover(Some("")).is_none());
    assert_eq!(discover(Some("/w/.git\n")).unwrap().common_dir, "/w/.git");
    assert_eq!(toplevel(Some("/w\n")), Some("/w".to_string()));
    assert_eq!(toplevel(Some("\n")), None);
    assert_eq!(toplevel(None), None);
}

#[test]
fn piped_diffs_lose_their_colors() {
    assert_eq!(piped_diff("\u{1b}[32m+x\u{1b}[0m\n"), "+x\n");
    assert_eq!(piped_diff("+plain\n"), "+plain\n");
    let read = ok("\u{1b}[31m-x\u{1b}[0m\n");
    let all = Opts { all: true, ..Opts::default() };
    let fresh = vec!["diff fresh\n".to_string()];
    assert_eq!(Source::Stdin.diff(&all, &read, &fresh).unwrap(), "-x\n");
}

#[test]
fn untracked_files_are_listed() {
    let o = Opts { all: true, ..Opts::default() };
    assert!(untracked_list_args(&o).contains(&"ls-files".to_string()));
    assert_eq!(
        untracked_files(&ok("a.txt\u{0}b c.txt\u{0}")),
        vec!["a.txt".to_string(), "b c.txt".to_string()]
    );
    let failed = Output { success: false, stdout: "a\u{0}".into(), stderr: String::new() };
    assert!(untracked_files(&failed).is_empty());
    let d = untracked_diff_args(&o, "fresh.txt");
    assert!(d.contains(&"--no-index".to_string()));
    assert_eq!(d[d.len() - 1], "fresh.txt");
    assert!(d.contains(&"/dev/null".to_string()));
}

#[test]
fn index_and_refs_are_watched() {
    let repo = Repo { git_dir: "/w/.git".into(), common_dir: "/w/.git".into(), is_bare: false };
    let all = watch_targets(&repo, true, true);
    assert!(all.len() >= 2);
    assert_eq!(all[0].path, "/w/.git");
    let fewer = watch_targets(&repo, false, false);
    assert!(fewer.len() < all.len());
}
