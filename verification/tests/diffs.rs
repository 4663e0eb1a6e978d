use diffv::diff::{compare_words, parse, split_files, totals, FileDiff, LineKind};

const TWO_FILES: &str = "\
diff --git a/src/a.rs b/src/a.rs
index 111..222 100644
--- a/src/a.rs
+++ b/src/a.rs
@@ -1,3 +1,4 @@ fn main
 keep
-let x = 1;
+let y = 1;
+more
 end
diff --git a/old.txt b/new.txt
similarity index 90%
rename from old.txt
rename to new.txt
@@ -5 +5 @@
-a
\\ No newline at end of file
+b
";

#[test]
fn files_hunks_and_lines() {
    let files = parse(TWO_FILES);
    assert_eq!(files.len(), 2);
    assert_eq!(files[0].path(), "src/a.rs");
    assert_eq!(files[0].stats(), (2, 1));
    assert_eq!(files[0].hunks.len(), 1);
    assert_eq!(files[0].hunks[0].header, "@@ -1,3 +1,4 @@ fn main");
    let lines = &files[0].hunks[0].lines;
    assert_eq!(lines.len(), 5);
    assert_eq!(lines[0].kind, LineKind::Context);
    assert_eq!((lines[0].old_no, lines[0].new_no), (Some(1), Some(1)));
    assert_eq!(lines[1].kind, LineKind::Remove);
    assert_eq!(lines[1].content, "let x = 1;");
    assert_eq!((lines[1].old_no, lines[1].new_no), (Some(2), None));
    assert_eq!((lines[2].old_no, lines[2].new_no), (None, Some(2)));
    assert_eq!((lines[4].old_no, lines[4].new_no), (Some(3), Some(4)));
    assert_eq!(files[1].path(), "new.txt");
    assert_eq!(files[1].old_path, "old.txt");
    assert_eq!(files[1].notes, vec!["renamed".to_string()]);
    assert_eq!(files[1].stats(), (1, 1));
    assert_eq!(totals(&files), (2, 3, 2));
}

#[test]
fn raw_texts_make_up_the_diff() {
    let raw = split_files(TWO_FILES);
    assert_eq!(raw.len(), 2);
    assert!(raw[0].starts_with("diff --git a/src/a.rs"));
    assert!(raw[1].starts_with("diff --git a/old.txt"));
    assert_eq!(raw.concat(), TWO_FILES);
}

#[test]
fn text_before_the_first_file_is_skipped() {
    let text = format!("commit abc\nAuthor: x\n\n{TWO_FILES}");
    assert_eq!(parse(&text).len(), 2);
    assert_eq!(split_files(&text).concat(), TWO_FILES);
    assert_eq!(parse("").len(), 0);
    assert_eq!(parse("nothing\nhere\n").len(), 0);
}

#[test]
fn deleted_new_and_binary_files() {
    let text = "\
diff --git a/gone b/gone
deleted file mode 100644
--- a/gone
+++ /dev/null
@@ -1 +0,0 @@
-x
diff --git a/fresh b/fresh
new file mode 100644
--- /dev/null
+++ b/fresh
@@ -0,0 +1 @@
+y
diff --git a/pic.png b/pic.png
Binary files a/pic.png and b/pic.png differ
";
    let files = parse(text);
    assert_eq!(files.len(), 3);
    assert_eq!(files[0].path(), "gone");
    assert_eq!(files[0].notes, vec!["deleted".to_string()]);
    assert_eq!(files[1].path(), "fresh");
    assert_eq!(files[1].notes, vec!["new file".to_string()]);
    assert!(files[2].is_binary);
    assert!(!files[1].is_binary);
}

#[test]
fn plain_unified_diffs_start_files_too() {
    let text = "--- a/x\n+++ b/x\n@@ -1 +1 @@\n-1\n+2\n--- a/y\n+++ b/y\n@@ -1 +1 @@\n-1\n+2\n";
    let files: Vec<FileDiff> = parse(text);
    assert_eq!(files.len(), 2);
    assert_eq!(files[1].path(), "y");
}

#[test]
fn a_line_of_dashes_in_a_hunk_is_content() {
    let text = "diff --git a/x b/x\n--- a/x\n+++ b/x\n@@ -1,2 +1 @@\n--- note\n keep\n";
    let files = parse(text);
    assert_eq!(files.len(), 1);
    assert_eq!(files[0].hunks[0].lines[0].kind, LineKind::Remove);
    assert_eq!(files[0].hunks[0].lines[0].content, "-- note");
}

fn segments(s: &str, t: &str) -> Vec<(String, bool)> {
    compare_words(s, t).into_iter().map(|s| (s.text, s.changed)).collect()
}

#[test]
fn changed_words_are_whole_words() {
    assert_eq!(
        segments("let x = 1;", "let y = 1;"),
        vec![("let ".to_string(), false), ("x".to_string(), true), (" = 1;".to_string(), false)]
    );
    // `counter` and `counted` share letters, but are different words.
    assert_eq!(
        segments("a counter b", "a counted b"),
        vec![
            ("a ".to_string(), false),
            ("counter".to_string(), true),
            (" b".to_string(), false)
        ]
    );
    assert_eq!(segments("same", "same"), vec![("same".to_string(), false)]);
    assert_eq!(segments("one", "two"), vec![("one".to_string(), true)]);
    assert_eq!(segments("", "two"), vec![]);
}

#[test]
fn paired_lines_carry_segments() {
    let files = parse(TWO_FILES);
    let lines = &files[0].hunks[0].lines;
    assert_eq!(lines[0].segments.len(), 0);
    assert_eq!(lines[1].segments.len(), 3);
    assert_eq!(lines[1].segments[1].text, "x");
    assert!(lines[1].segments[1].changed);
    assert_eq!(lines[2].segments[1].text, "y");
    // The second added line has no pair.
    assert_eq!(lines[3].segments.len(), 0);
    let text: String = lines[2].segments.iter().map(|s| s.text.as_str()).collect();
    assert_eq!(text, lines[2].content);
}
