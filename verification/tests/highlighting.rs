use diffv::diff::parse;
use diffv::highlight::{builtin_theme, colored, hexc, theme_by_name, Highlighter, Rgb};
use diffv::palette::Color;
use diffv::rows::{build_file_rows, RowKind};

fn colors(theme: &str, path: &str, line: &str) -> Vec<Option<Color>> {
    let h = Highlighter::new(theme, true);
    let mut f = h.file(path);
    f.line(line).into_iter().map(|p| p.0).collect()
}

#[test]
fn hex_colors_read_bytes() {
    assert_eq!(hexc("#98c379"), Rgb { r: 0x98, g: 0xc3, b: 0x79 });
    assert_eq!(hexc("zz10ff"), Rgb { r: 0, g: 0x10, b: 0xff });
}

#[test]
fn builtin_themes_map_scopes_to_hues() {
    let t = builtin_theme(true);
    assert_eq!(t.name, "onedark");
    assert_eq!(t.rules.len(), 12);
    assert_eq!(t.rules[0].scope, "comment");
    assert!(t.rules[0].italic);
    assert_eq!(t.rules[1].color, hexc("#98c379"));
    assert_eq!(builtin_theme(false).name, "onelight");
}

#[test]
fn every_builtin_name_has_its_own_colors() {
    let names = [
        "onedark",
        "onelight",
        "dracula",
        "gruvbox-dark",
        "gruvbox-light",
        "nord",
        "solarized-dark",
        "solarized-light",
        "catppuccin-mocha",
        "catppuccin-latte",
        "tokyonight",
        "monokai",
    ];
    let mut seen = Vec::new();
    for name in names {
        let t = theme_by_name(name).unwrap();
        assert_eq!(t.name, name);
        assert_eq!(t.rules.len(), 12);
        let c = t.rules[1].color;
        let got = colors(name, "a.rs", "let s = \"text\";");
        assert!(got.contains(&Some(Color::Rgb(c.r, c.g, c.b))), "{}", name);
        assert!(!seen.contains(&got), "{}", name);
        seen.push(got);
    }
    assert_eq!(theme_by_name("nord").unwrap().background, hexc("#2e3440"));
    assert_eq!(theme_by_name("dracula").unwrap().rules[1].color, hexc("#50fa7b"));
    assert!(theme_by_name("ansi").unwrap().rules.is_empty());
    assert!(theme_by_name("InspiredGitHub").is_none());
}

#[test]
fn strings_and_comments_take_theme_colors() {
    let t = builtin_theme(true);
    let c = t.rules[0].color;
    let got = colors("onedark", "a.rs", "// note");
    assert!(got.contains(&Some(Color::Rgb(c.r, c.g, c.b))));
    let s = t.rules[1].color;
    let got = colors("onedark", "a.rs", "let s = \"text\";");
    assert!(got.contains(&Some(Color::Rgb(s.r, s.g, s.b))));
}

#[test]
fn pieces_make_up_the_line() {
    let h = Highlighter::new("base16-ocean.dark", true);
    let mut f = h.file("main.rs");
    let text: String = f.line("fn main() {}").into_iter().map(|p| p.1).collect();
    assert_eq!(text, "fn main() {}");
}

#[test]
fn every_shipped_theme_is_known() {
    let plain = colors("onedark", "a.rs", "let x = 1;");
    for name in [
        "base16-ocean.dark",
        "base16-eighties.dark",
        "base16-mocha.dark",
        "base16-ocean.light",
        "InspiredGitHub",
        "Solarized (dark)",
        "Solarized (light)",
    ] {
        assert_ne!(colors(name, "a.rs", "let x = 1;"), plain, "{}", name);
    }
    // Any other name falls back to the dark built-in theme.
    assert_eq!(colors("no such theme", "a.rs", "let x = 1;"), plain);
}

#[test]
fn whole_file_names_choose_a_syntax() {
    // `Makefile` has no extension, but a syntax lists its name.
    let rule = colors("onedark", "src/Makefile", "all: build # note");
    let plain = colors("onedark", "src/unknown", "all: build # note");
    assert_ne!(rule, plain);
    assert_eq!(plain.len(), 1);
}

#[test]
fn extensions_match_in_any_case() {
    let line = "let s = \"text\"; // note";
    assert_eq!(colors("onedark", "A.RS", line), colors("onedark", "a.rs", line));
    assert!(colors("onedark", "a.rs", line).len() > 1);
}

#[test]
fn state_runs_over_lines() {
    let h = Highlighter::new("onedark", true);
    let mut f = h.file("a.rs");
    f.line("/* open\n");
    let inside: Vec<Option<Color>> = f.line("still\n").into_iter().map(|p| p.0).collect();
    let fresh = colors("onedark", "a.rs", "still\n");
    assert_ne!(inside, fresh);
}

#[test]
fn highlighting_can_be_off() {
    let h = Highlighter::new("onedark", false);
    let mut f = h.file("a.rs");
    let v = f.line("let x = 1;");
    assert_eq!(v.len(), 1);
    assert_eq!(v[0], (None, "let x = 1;".to_string()));
}

#[test]
fn failed_highlighting_keeps_the_line() {
    assert_eq!(colored(None, "x"), vec![(None, "x".to_string())]);
    assert_eq!(
        colored(Some(vec![((1, 2, 3), "x".to_string())]), "x"),
        vec![(Some(Color::Rgb(1, 2, 3)), "x".to_string())]
    );
    // Pieces that stop early would lose text.
    let part = Some(vec![((1, 2, 3), "x".to_string())]);
    assert_eq!(colored(part, "xy"), vec![(None, "xy".to_string())]);
    assert_eq!(colored(Some(vec![]), ""), vec![]);
}

#[test]
fn rows_hold_their_lines_with_and_without_colors() {
    let text = "diff --git a/a.rs b/a.rs\n@@ -1,2 +1,2 @@\n \tkeep(1)\tx\n-let x = 1;\n+let y = \"2\";\n";
    let files = parse(text);
    for name in ["onedark", "InspiredGitHub"] {
        for (enabled, intraline) in [(true, true), (true, false), (false, true), (false, false)] {
            let h = Highlighter::new(name, enabled);
            let rows = build_file_rows(&files[0], &h, intraline, 4);
            let texts: Vec<String> = rows
                .iter()
                .map(|r| r.spans.iter().map(|s| s.text.as_str()).collect())
                .collect();
            assert_eq!(texts[1..], ["    keep(1) x", "let x = 1;", "let y = \"2\";"]);
        }
    }
}

#[test]
fn rows_follow_the_hunks() {
    let text = "diff --git a/a.rs b/a.rs\n@@ -1,2 +1,2 @@\n \tkeep\n-let x = 1;\n+let y = 1;\n";
    let files = parse(text);
    let h = Highlighter::new("onedark", true);
    let rows = build_file_rows(&files[0], &h, true, 4);
    let kinds: Vec<RowKind> = rows.iter().map(|r| r.kind).collect();
    assert_eq!(kinds, vec![RowKind::Hunk, RowKind::Context, RowKind::Remove, RowKind::Add]);
    let t: String = rows[1].spans.iter().map(|s| s.text.as_str()).collect();
    assert_eq!(t, "    keep");
    let changed: String =
        rows[2].spans.iter().filter(|s| s.changed).map(|s| s.text.as_str()).collect();
    assert_eq!(changed, "x");
    assert_eq!(rows[3].new_no, Some(2));
    assert_eq!(rows[2].content.len(), 10);
}

#[test]
fn binary_files_have_one_note() {
    let files = parse("diff --git a/p b/p\nBinary files a/p and b/p differ\n");
    let h = Highlighter::new("onedark", false);
    let rows = build_file_rows(&files[0], &h, true, 4);
    assert_eq!(rows.len(), 1);
    assert_eq!(rows[0].kind, RowKind::Note);
    assert_eq!(rows[0].spans[0].text, "Binary file — no textual diff");
}
