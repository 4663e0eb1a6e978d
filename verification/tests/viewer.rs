use diffv::cells::{Metrics, WidthMode};
use diffv::config::Config;
use diffv::events::{Button, Effect, Input, Mouse};
use diffv::git::{Opts, Source};
use diffv::keys::{diff_keys, find_action, Action, Key};
use diffv::search::{find_next, find_prev, pattern_for};
use diffv::tui::{App, Page};
use uncurses::event::{KeyCode, KeyModifiers};

fn diff_text(lines: usize) -> String {
    let mut s = String::from("diff --git a/one.txt b/one.txt\n--- a/one.txt\n+++ b/one.txt\n");
    for h in 0..2 {
        s.push_str(&format!("@@ -{0},1 +{0},{1} @@\n", 1 + h * 100, lines + 1));
        s.push_str(" context line\n");
        for i in 0..lines {
            s.push_str(&format!("+added {}\n", i));
        }
    }
    s.push_str("diff --git a/two.txt b/two.txt\n--- a/two.txt\n+++ b/two.txt\n");
    s.push_str("@@ -1 +1 @@\n-old words here\n+new words here\n");
    s
}

fn viewer_of(text: &str, source: Source, width: u16, height: u16) -> App {
    let mut c = Config::load(None, None, true);
    c.syntax = false;
    let mut app = App::new(
        c,
        source,
        Opts::default(),
        Some("/work".to_string()),
        None,
        Some("ed -s"),
        Some(text.to_string()),
        (width, height),
        Metrics { mode: WidthMode::Grapheme, eaw_wide: false },
        false,
    );
    app.ensure_rows();
    app
}

fn viewer() -> App {
    // 2 * (1 + 1 + 10) = 24 rows in the first file, 10 of them in view.
    viewer_of(&diff_text(10), Source::Worktree, 80, 11)
}

fn press(app: &mut App, name: &str) -> Effect {
    let text = if name.chars().count() == 1 { Some(name.to_string()) } else { None };
    let key = Key { name: name.to_string(), text };
    app.handle(&Input::Press(key), 1000, 39)
}

fn mouse(x: u16, y: u16, button: Button) -> Mouse {
    Mouse { x, y, button }
}

#[test]
fn cursor_moves_and_the_view_follows() {
    let mut app = viewer();
    assert_eq!(app.row_count(), 24);
    assert_eq!(app.viewport_rows(), 10);
    press(&mut app, "j");
    assert_eq!((app.ui.cursor, app.ui.scroll), (1, 0));
    press(&mut app, "k");
    press(&mut app, "up");
    assert_eq!((app.ui.cursor, app.ui.scroll), (0, 0));
    press(&mut app, "G");
    assert_eq!((app.ui.cursor, app.ui.scroll), (23, 14));
    press(&mut app, "g");
    assert_eq!((app.ui.cursor, app.ui.scroll), (0, 0));
    press(&mut app, "d");
    assert_eq!(app.ui.cursor, 5);
    press(&mut app, "ctrl+d");
    assert_eq!((app.ui.cursor, app.ui.scroll), (10, 1));
    press(&mut app, "space");
    assert_eq!((app.ui.cursor, app.ui.scroll), (20, 11));
    press(&mut app, "b");
    assert_eq!((app.ui.cursor, app.ui.scroll), (10, 10));
    press(&mut app, "u");
    assert_eq!((app.ui.cursor, app.ui.scroll), (5, 5));
}

#[test]
fn terminal_keys_keep_their_meaning() {
    let terminal = |code: KeyCode, mods: KeyModifiers| {
        let k = uncurses::event::Key::new(code, mods).normalized();
        Key { name: k.to_string(), text: k.text }
    };
    let none = KeyModifiers::empty();
    let mut app = viewer();
    let mut send = |k: Key| {
        let e = app.handle(&Input::Press(k), 0, 39);
        (app.ui.cursor, matches!(e, Effect::Quit))
    };
    assert_eq!(send(terminal(KeyCode::Char('G'), none)), (23, false));
    assert_eq!(send(terminal(KeyCode::Char('g'), none)), (0, false));
    assert_eq!(send(terminal(KeyCode::Down, none)), (1, false));
    assert_eq!(send(terminal(KeyCode::Char('}'), KeyModifiers::SHIFT)), (12, false));
    assert_eq!(send(terminal(KeyCode::Char('{'), none)), (0, false));
    assert_eq!(send(terminal(KeyCode::Space, none)), (10, false));
    assert_eq!(send(terminal(KeyCode::Char('u'), KeyModifiers::CTRL)), (5, false));
    assert_eq!(send(terminal(KeyCode::Escape, none)), (5, false));
    assert_eq!(send(terminal(KeyCode::F(5), none)), (5, false));
    assert_eq!(send(terminal(KeyCode::Char('c'), KeyModifiers::CTRL)), (5, true));
}

#[test]
fn screen_rows_take_the_cursor() {
    let mut app = viewer();
    press(&mut app, "L");
    assert_eq!(app.ui.cursor, 9);
    press(&mut app, "M");
    assert_eq!(app.ui.cursor, 4);
    press(&mut app, "H");
    assert_eq!(app.ui.cursor, 0);
}

#[test]
fn wheel_moves_the_page_not_the_cursor() {
    let mut app = viewer();
    press(&mut app, "L");
    app.handle(&Input::Wheel(mouse(0, 0, Button::WheelDown)), 0, 39);
    assert_eq!((app.ui.cursor, app.ui.scroll), (9, 3));
    app.handle(&Input::Wheel(mouse(0, 0, Button::WheelUp)), 0, 39);
    assert_eq!((app.ui.cursor, app.ui.scroll), (9, 0));
    press(&mut app, "H");
    app.handle(&Input::Wheel(mouse(0, 0, Button::WheelDown)), 0, 39);
    assert_eq!((app.ui.cursor, app.ui.scroll), (3, 3));
    press(&mut app, "ctrl+y");
    assert_eq!((app.ui.cursor, app.ui.scroll), (3, 2));
    press(&mut app, "ctrl+e");
    assert_eq!((app.ui.cursor, app.ui.scroll), (3, 3));
}

#[test]
fn hunks_are_jumped_to() {
    let mut app = viewer();
    press(&mut app, "}");
    assert_eq!(app.ui.cursor, 12);
    assert!(app.on_hunk());
    press(&mut app, "}");
    assert_eq!(app.ui.cursor, 12);
    press(&mut app, "{");
    assert_eq!(app.ui.cursor, 0);
    assert_eq!(app.nth_hunk_row(1), Some(12));
    assert_eq!(app.nth_hunk_row(2), None);
}

#[test]
fn files_are_stepped_through() {
    let mut app = viewer();
    press(&mut app, "G");
    press(&mut app, "]");
    assert_eq!(app.ui.selected, 1);
    assert_eq!((app.ui.cursor, app.ui.scroll), (0, 0));
    assert_eq!(app.row_count(), 3);
    press(&mut app, "tab");
    assert_eq!(app.ui.selected, 1);
    press(&mut app, "shift+tab");
    assert_eq!(app.ui.selected, 0);
    press(&mut app, "[");
    assert_eq!(app.ui.selected, 0);
}

#[test]
fn the_file_list_selects_and_closes() {
    let mut app = viewer();
    press(&mut app, "F");
    assert_eq!(app.ui.page, Page::Stat);
    press(&mut app, "j");
    assert_eq!(app.ui.selected, 1);
    press(&mut app, "g");
    assert_eq!(app.ui.selected, 0);
    press(&mut app, "G");
    assert_eq!(app.ui.selected, 1);
    press(&mut app, "enter");
    assert_eq!(app.ui.page, Page::Diff);
    press(&mut app, "F");
    press(&mut app, "escape");
    assert_eq!(app.ui.page, Page::Diff);
}

#[test]
fn only_q_and_ctrl_c_quit() {
    let mut app = viewer();
    assert!(matches!(press(&mut app, "q"), Effect::Quit));
    assert!(matches!(press(&mut app, "ctrl+c"), Effect::Quit));
    assert!(matches!(press(&mut app, "escape"), Effect::Nothing));
    assert!(matches!(press(&mut app, "x"), Effect::Nothing));
}

#[test]
fn toggles_toggle() {
    let mut app = viewer();
    press(&mut app, "s");
    assert!(app.ui.split);
    press(&mut app, "s");
    assert!(!app.ui.split);
    press(&mut app, "w");
    assert!(app.ui.watch);
    assert!(!app.sidebar_visible());
    press(&mut app, "B");
    assert!(app.sidebar_visible());
    press(&mut app, "B");
    assert!(!app.sidebar_visible());
    press(&mut app, "?");
    assert!(app.ui.layout.help_open);
    assert!(app.viewport_rows() < 10);
    press(&mut app, "?");
    assert_eq!(app.viewport_rows(), 10);
}

#[test]
fn copying_takes_the_line_or_the_selection() {
    let mut app = viewer();
    press(&mut app, "j");
    match press(&mut app, "y") {
        Effect::Copy(t) => assert_eq!(t, "context line"),
        _ => panic!("nothing copied"),
    }
    assert_eq!(app.flash.as_ref().unwrap().0, "copied 1 line");
    // Drag from row 2 to row 3: the gutter takes 9 columns, the sign 1.
    app.handle(&Input::Click(mouse(10 + 2, 2, Button::Left)), 0, 39);
    app.handle(&Input::Motion(mouse(10 + 5, 3, Button::Left)), 0, 39);
    app.handle(&Input::Release(mouse(10 + 5, 3, Button::Left)), 0, 39);
    match press(&mut app, "y") {
        Effect::Copy(t) => assert_eq!(t, "ded 0\nadded"),
        _ => panic!("nothing copied"),
    }
    assert_eq!(app.flash.as_ref().unwrap().0, "copied 2 lines");
    assert!(app.ui.sel.is_none());
    match press(&mut app, "Y") {
        Effect::Copy(t) => assert!(t.starts_with("diff --git a/one.txt")),
        _ => panic!("nothing copied"),
    }
    assert_eq!(app.flash.as_ref().unwrap().0, "copied file diff");
}

#[test]
fn a_drag_copies_when_the_button_is_let_go() {
    let mut app = viewer();
    app.handle(&Input::Click(mouse(10 + 2, 2, Button::Left)), 0, 39);
    app.handle(&Input::Motion(mouse(10 + 5, 3, Button::Left)), 0, 39);
    let release = Input::Release(mouse(10 + 5, 3, Button::Left));
    match app.handle(&release, 7, 39) {
        Effect::Copy(t) => assert_eq!(t, "ded 0\nadded"),
        _ => panic!("nothing copied"),
    }
    assert_eq!(app.flash, Some(("copied 2 lines".to_string(), 7)));
    let s = app.ui.sel.unwrap();
    assert!(!s.dragging);
    // The selection stays, but nothing is dragged any more.
    assert!(matches!(app.handle(&release, 8, 39), Effect::Nothing));
    assert_eq!(app.ui.sel, Some(s));
    match press(&mut app, "y") {
        Effect::Copy(t) => assert_eq!(t, "ded 0\nadded"),
        _ => panic!("nothing copied"),
    }
}

#[test]
fn a_drag_over_no_text_copies_nothing() {
    let text = "diff --git a/a.txt b/a.txt\n@@ -1,3 +1,1 @@\n keep\n-one\n-two\n";
    let mut app = viewer_of(text, Source::Worktree, 80, 11);
    press(&mut app, "s");
    // The right pane has nothing beside removed lines.
    app.handle(&Input::Click(mouse(50, 2, Button::Left)), 0, 39);
    app.handle(&Input::Motion(mouse(50, 3, Button::Left)), 0, 39);
    let s = app.ui.sel.unwrap();
    assert_eq!((s.a_row, s.c_row), (2, 3));
    assert_eq!(app.selection_text(s), "");
    let e = app.handle(&Input::Release(mouse(50, 3, Button::Left)), 0, 39);
    assert!(matches!(e, Effect::Nothing));
    assert!(app.flash.is_none());
    assert!(!app.ui.sel.unwrap().dragging);
}

#[test]
fn typed_text_reaches_its_binding() {
    // Whatever the key is called, the text that it types decides.
    let typed = |t: &str| Key { name: "f5".into(), text: Some(t.into()) };
    assert_eq!(find_action(&diff_keys(), &typed("q")), Some(Action::Quit));
    assert_eq!(find_action(&diff_keys(), &typed("G")), Some(Action::Bottom));
    assert_eq!(find_action(&diff_keys(), &typed("z")), None);
}

#[test]
fn a_click_without_a_drag_selects_nothing() {
    let mut app = viewer();
    app.handle(&Input::Click(mouse(20, 4, Button::Left)), 0, 39);
    assert_eq!(app.ui.cursor, 4);
    assert!(app.ui.sel.is_some());
    let e = app.handle(&Input::Release(mouse(20, 4, Button::Left)), 0, 39);
    assert!(matches!(e, Effect::Nothing));
    assert!(app.ui.sel.is_none());
    // Another button does nothing.
    app.handle(&Input::Click(mouse(20, 6, Button::Other)), 0, 39);
    assert_eq!(app.ui.cursor, 4);
}

#[test]
fn dragging_past_the_edge_scrolls() {
    let mut app = viewer();
    app.handle(&Input::Click(mouse(20, 5, Button::Left)), 0, 39);
    app.handle(&Input::Motion(mouse(20, 9, Button::Left)), 0, 39);
    assert_eq!(app.ui.scroll, 1);
    app.handle(&Input::Motion(mouse(20, 0, Button::Left)), 0, 39);
    assert_eq!(app.ui.scroll, 0);
    app.handle(&Input::Motion(mouse(20, 0, Button::Left)), 0, 39);
    assert_eq!(app.ui.scroll, 0);
    let s = app.ui.sel.unwrap();
    assert_eq!((s.a_row, s.c_row), (5, 0));
}

#[test]
fn split_selections_copy_one_side() {
    let mut app = viewer();
    press(&mut app, "]");
    press(&mut app, "s");
    // The left pane is 39 columns wide; the divider is column 39.
    app.handle(&Input::Click(mouse(6, 1, Button::Left)), 0, 39);
    app.handle(&Input::Motion(mouse(30, 2, Button::Left)), 0, 39);
    match press(&mut app, "y") {
        Effect::Copy(t) => assert_eq!(t, "old words here"),
        _ => panic!("nothing copied"),
    }
    app.handle(&Input::Click(mouse(46, 1, Button::Left)), 0, 39);
    app.handle(&Input::Motion(mouse(79, 2, Button::Left)), 0, 39);
    match press(&mut app, "y") {
        Effect::Copy(t) => assert_eq!(t, "new words here"),
        _ => panic!("nothing copied"),
    }
}

#[test]
fn dividers_are_dragged() {
    let mut app = viewer_of(&diff_text(10), Source::Worktree, 160, 11);
    assert!(app.sidebar_visible());
    assert_eq!(app.frame(0).sidebar_w(), 30);
    app.handle(&Input::Click(mouse(29, 3, Button::Left)), 0, 39);
    assert!(app.ui.resizing);
    app.handle(&Input::Motion(mouse(49, 3, Button::Left)), 0, 39);
    assert_eq!(app.frame(0).sidebar_w(), 50);
    assert_eq!(app.frame(0).divider_x(), 49);
    app.handle(&Input::Motion(mouse(150, 3, Button::Left)), 0, 39);
    assert_eq!(app.frame(0).sidebar_w(), 80);
    app.handle(&Input::Release(mouse(150, 3, Button::Left)), 0, 39);
    assert!(!app.ui.resizing);
    // A click in the sidebar selects a file.
    app.handle(&Input::Click(mouse(5, 1, Button::Left)), 0, 39);
    assert_eq!(app.ui.selected, 1);
    // The split divider: 80 columns of body, 79 of them for the panes.
    press(&mut app, "s");
    app.handle(&Input::Click(mouse(80 + 39, 3, Button::Left)), 0, 39);
    assert!(app.ui.resizing_split);
    match app.handle(&Input::Motion(mouse(80 + 20, 3, Button::Left)), 0, 39) {
        Effect::Split(left, inner) => assert_eq!((left, inner), (20, 79)),
        _ => panic!("no resize"),
    }
}

#[test]
fn expanding_asks_for_more_context() {
    let mut app = viewer();
    press(&mut app, "}");
    match press(&mut app, "enter") {
        Effect::Reload(Some((ord, off))) => assert_eq!((ord, off), (1, 9)),
        _ => panic!("no reload"),
    }
    assert_eq!(app.effective_opts().context, Some(13));
    app.rebuild_from(diff_text(12));
    app.pin_hunk(1, 9);
    assert_eq!((app.ui.cursor, app.ui.scroll), (14, 5));
    // A piped diff has nothing to expand.
    let mut app = viewer_of(&diff_text(10), Source::Stdin, 80, 11);
    assert!(matches!(press(&mut app, "enter"), Effect::Nothing));
}

#[test]
fn a_double_click_expands() {
    let mut app = viewer();
    app.handle(&Input::Click(mouse(20, 0, Button::Left)), 1000, 39);
    assert!(matches!(
        app.handle(&Input::Click(mouse(21, 0, Button::Left)), 1399, 39),
        Effect::Reload(Some((0, 0)))
    ));
    let mut app = viewer();
    app.handle(&Input::Click(mouse(20, 0, Button::Left)), 1000, 39);
    assert!(matches!(
        app.handle(&Input::Click(mouse(20, 0, Button::Left)), 1400, 39),
        Effect::Nothing
    ));
}

#[test]
fn the_editor_opens_at_the_cursor() {
    let mut app = viewer();
    press(&mut app, "j");
    let want = vec!["ed", "-s", "+1", "/work/one.txt"];
    match press(&mut app, "v") {
        Effect::Edit(w) => assert_eq!(w, want),
        _ => panic!("no editor"),
    }
    match press(&mut app, "enter") {
        Effect::Edit(w) => assert_eq!(w, want),
        _ => panic!("no editor"),
    }
    press(&mut app, "G");
    match press(&mut app, "v") {
        Effect::Edit(w) => assert_eq!(w[2], "+111"),
        _ => panic!("no editor"),
    }
    let mut empty = viewer_of("", Source::Worktree, 80, 11);
    assert!(matches!(press(&mut empty, "v"), Effect::Nothing));
}

#[test]
fn refreshing_keeps_the_place() {
    let mut app = viewer();
    press(&mut app, "]");
    press(&mut app, "j");
    assert!(matches!(press(&mut app, "r"), Effect::Reload(None)));
    let same = app.last_diff.clone();
    app.rebuild_from(same.clone());
    assert_eq!((app.ui.selected, app.ui.cursor), (1, 1));
    app.apply_poll(same);
    assert_eq!((app.ui.selected, app.ui.cursor), (1, 1));
    // A shorter diff keeps what exists.
    app.apply_poll(String::new());
    assert_eq!((app.ui.selected, app.ui.cursor), (0, 0));
    assert_eq!(app.row_count(), 0);
    press(&mut app, "j");
    assert_eq!(app.ui.cursor, 0);
}

#[test]
fn wide_lines_scroll_sideways() {
    let long = "x".repeat(100);
    let text = format!("diff --git a/l b/l\n@@ -1 +1,2 @@\n short\n+{}\n", long);
    let mut app = viewer_of(&text, Source::Worktree, 80, 11);
    press(&mut app, "l");
    assert_eq!(app.ui.pan, 4);
    press(&mut app, "h");
    press(&mut app, "left");
    assert_eq!(app.ui.pan, 0);
    // 70 columns are left for content, so 30 can be scrolled out.
    press(&mut app, "G");
    press(&mut app, "$");
    assert_eq!(app.ui.pan, 30);
    press(&mut app, "right");
    assert_eq!(app.ui.pan, 30);
    press(&mut app, "0");
    assert_eq!(app.ui.pan, 0);
    app.handle(&Input::Wheel(mouse(0, 0, Button::WheelRight)), 0, 39);
    assert_eq!(app.ui.pan, 4);
}

#[test]
fn searching_finds_rows() {
    let mut app = viewer();
    press(&mut app, "/");
    assert_eq!(app.typing.as_deref(), Some(""));
    for k in ["A", "D", "x"] {
        press(&mut app, k);
    }
    press(&mut app, "backspace");
    press(&mut app, "backspace");
    press(&mut app, "backspace");
    for k in ["d", "e", "d", "space", "[", "3", "4", "]"] {
        let text = if k == "space" { " " } else { k };
        let key = Key { name: k.to_string(), text: Some(text.to_string()) };
        app.handle(&Input::Press(key), 0, 39);
    }
    assert_eq!(app.typing.as_deref(), Some("ded [34]"));
    press(&mut app, "enter");
    assert_eq!(app.query.as_deref(), Some("ded [34]"));
    assert_eq!(app.ui.cursor, 5);
    press(&mut app, "n");
    assert_eq!(app.ui.cursor, 6);
    press(&mut app, "n");
    assert_eq!(app.ui.cursor, 17);
    press(&mut app, "n");
    press(&mut app, "n");
    assert_eq!(app.ui.cursor, 5);
    press(&mut app, "N");
    assert_eq!(app.ui.cursor, 18);
}

#[test]
fn search_ignores_case_unless_asked() {
    let mut app = viewer();
    app.query = Some("ADDED 2".to_string());
    press(&mut app, "n");
    assert_eq!(app.ui.cursor, 0);
    assert_eq!(app.flash.as_ref().unwrap().0, "no match");
    app.query = Some("CONTEXT".to_lowercase());
    press(&mut app, "n");
    assert_eq!(app.ui.cursor, 1);
    app.query = Some("([".to_string());
    press(&mut app, "n");
    assert_eq!(app.flash.as_ref().unwrap().0, "bad pattern");
    assert_eq!(app.ui.cursor, 1);
}

#[test]
fn smart_case_depends_on_capitals() {
    assert_eq!(pattern_for("abc"), "(?i)abc");
    assert_eq!(pattern_for("aBc"), "aBc");
    assert_eq!(pattern_for("über"), "(?i)über");
    assert_eq!(pattern_for("Über"), "Über");
    let m = vec![false, true, false, true];
    assert_eq!(find_next(&m, 2), Some(3));
    assert_eq!(find_next(&m, 4), Some(1));
    assert_eq!(find_prev(&m, 1), Some(3));
    assert_eq!(find_prev(&m, 3), Some(1));
    assert_eq!(find_next(&vec![false], 0), None);
}

#[test]
fn typing_can_be_cancelled() {
    let mut app = viewer();
    press(&mut app, "/");
    press(&mut app, "q");
    assert_eq!(app.typing.as_deref(), Some("q"));
    press(&mut app, "escape");
    assert!(app.typing.is_none());
    assert!(app.query.is_none());
}

#[test]
fn notes_expire() {
    let mut app = viewer();
    app.set_flash("hi".to_string(), 1000);
    assert_eq!(app.wait_time(false, 1000, 1000), 200);
    assert_eq!(app.wait_time(true, 1000, 1000), 16);
    assert_eq!(app.wait_time(false, 2900, 1000), 100);
    assert_eq!(app.wait_time(false, 9000, 1000), 1);
    app.expire_flash(2999);
    assert!(app.flash.is_some());
    app.expire_flash(3000);
    assert!(app.flash.is_none());
    assert!(!app.wants_poll());
    press(&mut app, "w");
    assert!(app.wants_poll());
    assert_eq!(app.wait_time(false, 0, 50), 50);
}

#[test]
fn titles_name_the_file() {
    let mut app = viewer();
    assert_eq!(app.update_title(), Some("one.txt · diffv".to_string()));
    assert_eq!(app.update_title(), None);
    let mut empty = viewer_of("", Source::Worktree, 80, 11);
    assert_eq!(empty.update_title(), Some("diffv".to_string()));
}

#[test]
fn rows_come_from_elsewhere_too() {
    let mut app = viewer_of(&diff_text(10), Source::Worktree, 80, 11);
    assert_eq!(app.prefetch_order(), vec![0, 1]);
    let rows = app.build_rows(1);
    assert!(!app.store_rows(1, rows));
    assert!(app.row_cache[1].is_some());
    let rows = app.build_rows(0);
    assert!(!app.store_rows(0, rows));
    press(&mut app, "]");
    assert_eq!(app.prefetch_order(), vec![1, 0]);
    assert_eq!(app.row_count(), 3);
}

#[test]
fn finished_rows_are_drained() {
    let mut app = App::new(
        Config::load(None, None, true),
        Source::Worktree,
        Opts::default(),
        None,
        None,
        None,
        Some(diff_text(3)),
        (80, 11),
        Metrics { mode: WidthMode::Grapheme, eaw_wide: false },
        false,
    );
    assert_eq!(app.row_count(), 0);
    let (one, two) = (app.build_rows(0), app.build_rows(1));
    app.drain_prefetch(vec![(1, two)]);
    assert_eq!(app.row_count(), 0);
    // The first rows for a file stay; later ones are dropped.
    app.drain_prefetch(vec![(0, one), (0, Vec::new()), (9, Vec::new())]);
    assert_eq!(app.row_count(), 10);
    app.drain_prefetch(Vec::new());
    assert_eq!(app.row_count(), 10);
}

#[test]
fn resizing_keeps_the_cursor_in_view() {
    let mut app = viewer();
    press(&mut app, "L");
    app.handle(&Input::Resize(80, 6), 0, 39);
    assert_eq!(app.viewport_rows(), 5);
    assert_eq!((app.ui.cursor, app.ui.scroll), (9, 5));
}

#[test]
fn narrow_screens_have_no_room_for_the_mouse() {
    let mut app = viewer_of(&diff_text(2), Source::Worktree, 8, 11);
    let click = Input::Click(mouse(5, 1, Button::Left));
    assert!(app.has_room(&click));
    app.perform(Action::Sidebar, 0, 0);
    assert!(app.has_room(&click));
    app.perform(Action::Split, 0, 0);
    // The sidebar leaves 4 columns, too few for two panes.
    assert!(!app.has_room(&click));
    app.perform(Action::Sidebar, 0, 0);
    assert!(app.has_room(&click));
}

#[test]
fn narrow_sidebars_take_half_the_screen() {
    let mut app = viewer_of(&diff_text(2), Source::Worktree, 10, 11);
    assert_eq!(app.frame(0).sidebar_w(), 0);
    app.perform(Action::Sidebar, 0, 0);
    for (w, side) in [(4u16, 2u16), (5, 2), (10, 5), (15, 7), (16, 8), (40, 20), (80, 30)] {
        app.handle(&Input::Resize(w, 11), 0, 0);
        assert_eq!(app.frame(0).sidebar_w(), side);
    }
    // Its divider still follows the pointer, and a click still selects.
    app.handle(&Input::Resize(10, 11), 0, 0);
    app.handle(&Input::Click(mouse(4, 1, Button::Left)), 0, 0);
    assert!(app.ui.resizing);
    app.handle(&Input::Motion(mouse(9, 1, Button::Left)), 0, 0);
    app.handle(&Input::Release(mouse(9, 1, Button::Left)), 0, 0);
    assert_eq!(app.frame(0).sidebar_w(), 5);
    app.handle(&Input::Click(mouse(0, 1, Button::Left)), 0, 0);
    assert_eq!(app.ui.selected, 1);
}
