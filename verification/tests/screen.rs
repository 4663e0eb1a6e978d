use diffv::cells::{Metrics, WidthMode};
use diffv::config::Config;
use diffv::events::{Button, Input, Mouse};
use diffv::geometry::{Frame, Gut, Pane};
use diffv::git::{Opts, Source};
use diffv::help::{help_entries, help_grid, pack};
use diffv::keys::Action;
use diffv::list::{draw_box, Frill};
use diffv::palette::Shades;
use diffv::render::Picture;
use diffv::rows::RowKind;
use diffv::tui::{App, Page};

const TEXT: &str = "\
diff --git a/one.txt b/one.txt
new file mode 100644
--- /dev/null
+++ b/one.txt
@@ -1,2 +1,2 @@ head
 same
-old text
+new text
diff --git a/two.txt b/two.txt
@@ -1 +1,3 @@
 x
+1
+2
";

fn metrics() -> Metrics {
    Metrics { mode: WidthMode::Grapheme, eaw_wide: false }
}

fn shown(width: u16, height: u16) -> App {
    let mut c = Config::load(None, None, true);
    c.syntax = false;
    let mut app = App::new(
        c,
        Source::Worktree,
        Opts::default(),
        None,
        None,
        None,
        Some(TEXT.to_string()),
        (width, height),
        metrics(),
        false,
    );
    app.ensure_rows();
    app
}

/// The characters on the screen after painting.
fn paint(p: &Picture, width: usize, height: usize) -> Vec<String> {
    let mut grid = vec![vec![' '; width]; height];
    for put in &p.puts {
        for (i, c) in put.text.chars().enumerate() {
            let (x, y) = (put.x as usize + i, put.y as usize);
            if x < width && y < height {
                grid[y][x] = c;
            }
        }
    }
    grid.into_iter().map(|r| r.into_iter().collect::<String>().trim_end().to_string()).collect()
}

#[test]
fn unified_rows_show_numbers_signs_and_text() {
    let mut app = shown(80, 12);
    let s = paint(&app.render(39), 80, 12);
    assert_eq!(s[0], "         @@ -1,2 +1,2 @@ head");
    assert_eq!(s[1], "   1    1 same");
    assert_eq!(s[2], "   2     -old text");
    assert_eq!(s[3], "        2+new text");
    assert_eq!(s[4], "");
}

#[test]
fn the_footer_tells_the_file_and_the_totals() {
    let mut app = shown(80, 12);
    let s = paint(&app.render(39), 80, 12);
    assert!(s[11].starts_with(" diffv  one.txt +1 -1 (new file)"));
    assert!(s[11].ends_with(" 2 files +3 -1  ? help"));
    assert_eq!(app.ui.help_badge_x, 72);
    app.perform(Action::Watch, 0, 0);
    let s = paint(&app.render(39), 80, 12);
    assert!(s[11].ends_with(" 2 files +3 -1  W  ? help"));
    app.set_flash("copied 1 line".to_string(), 0);
    let s = paint(&app.render(39), 80, 12);
    assert!(s[11].contains("(new file)  copied 1 line "));
}

#[test]
fn split_rows_stand_side_by_side() {
    let mut app = shown(41, 12);
    app.perform(Action::Split, 0, 20);
    let s = paint(&app.render(20), 41, 12);
    assert_eq!(s[0], "         @@ -1,2 +1,2 @@ head");
    assert_eq!(s[1], "   1  same          │   1  same");
    assert_eq!(s[2], "   2 -old text      │╱╱╱╱╱╱╱╱╱╱╱╱╱╱╱╱╱╱╱╱");
    assert_eq!(s[3], "╱╱╱╱╱╱╱╱╱╱╱╱╱╱╱╱╱╱╱╱│   2 +new text");
}

#[test]
fn the_sidebar_lists_files() {
    let mut app = shown(80, 12);
    app.perform(Action::Sidebar, 0, 0);
    let s = paint(&app.render(39), 80, 12);
    assert!(s[0].starts_with("▸ one.txt              +1 -1 │"), "{:?}", s[0]);
    assert!(s[1].starts_with("  two.txt              +2 -0 │"), "{:?}", s[1]);
    assert!(s[0].contains("@@ -1,2"));
}

#[test]
fn the_file_list_floats() {
    let mut app = shown(80, 12);
    app.perform(Action::Files, 0, 0);
    let p = app.render(39);
    let s = paint(&p, 80, 12);
    let h = app.ui.modal_hit.unwrap();
    assert_eq!((h.list_h, h.start), (2, 0));
    assert!(s[h.y0 as usize].contains('╭'));
    assert!(s[h.list_y as usize].contains("▸ one.txt"));
    // Two changes are the most, so the bar of two is whole.
    assert!(s[h.list_y as usize + 1].contains("++++++++++++++++++++++++"));
    assert!(s[h.list_y as usize].contains("++++++++++++------------"));
    assert!(s[h.list_y as usize + 3].contains("2 files changed, 3 insertion(s)(+), 1 deletion(s)(-)"));
    // A click on the second file selects it; one outside closes the list.
    let inside = Mouse { x: h.x0 + 3, y: h.list_y + 1, button: Button::Left };
    app.handle(&Input::Click(inside), 0, 39);
    assert_eq!(app.ui.selected, 1);
    assert_eq!(app.ui.page, Page::Stat);
    // The border drags the list.
    app.handle(&Input::Click(Mouse { x: h.x0, y: h.y0, button: Button::Left }), 0, 39);
    app.handle(&Input::Motion(Mouse { x: 3, y: 2, button: Button::Left }), 0, 39);
    assert_eq!(app.ui.modal_pos, Some((3, 2)));
    app.handle(&Input::Release(Mouse { x: 3, y: 2, button: Button::Left }), 0, 39);
    app.render(39);
    assert_eq!(app.ui.modal_hit.unwrap().x0, 3);
    let outside = Mouse { x: 79, y: 0, button: Button::Left };
    app.handle(&Input::Click(outside), 0, 39);
    assert_eq!(app.ui.page, Page::Diff);
}

#[test]
fn tall_screens_are_drawn() {
    let mut app = shown(80, 65535);
    app.perform(Action::Files, 0, 39);
    assert!(app.is_drawable());
    app.render(39);
    let h = app.ui.modal_hit.unwrap();
    assert_eq!(h.y1 - h.y0, 6);
    app.perform(Action::Help, 0, 39);
    app.render(39);
}

#[test]
fn small_screens_say_so() {
    let mut app = shown(19, 12);
    let p = app.render(5);
    assert_eq!(p.puts.len(), 1);
    assert_eq!(p.puts[0].text, "terminal too small");
}

#[test]
fn selections_are_marked_on_the_screen() {
    let mut app = shown(80, 12);
    app.handle(&Input::Click(Mouse { x: 12, y: 2, button: Button::Left }), 0, 39);
    app.handle(&Input::Motion(Mouse { x: 13, y: 3, button: Button::Left }), 0, 39);
    let p = app.render(39);
    assert_eq!(p.marks, vec![(2, 12, 18), (3, 10, 13)]);
}

#[test]
fn scrolled_content_starts_later() {
    let mut app = shown(80, 12);
    app.ui.pan = 2;
    let s = paint(&app.render(39), 80, 12);
    assert_eq!(s[0], "         @@ -1,2 +1,2 @@ head");
    assert_eq!(s[2], "   2     -d text");
}

#[test]
fn the_help_badge_toggles_help() {
    let mut app = shown(80, 30);
    app.render(39);
    app.handle(&Input::Click(Mouse { x: 75, y: 29, button: Button::Left }), 0, 39);
    assert!(app.ui.layout.help_open);
    let s = paint(&app.render(39), 80, 30);
    assert!(s.iter().any(|l| l.contains("toggle help")));
    assert_eq!(app.viewport_rows(), 29 - help_grid(80, metrics()).1);
}

#[test]
fn help_is_packed_into_columns() {
    let n = help_entries().len();
    assert_eq!(pack(n, 30, 80), (2, 12, 30));
    assert_eq!(pack(n, 30, 10), (1, 24, 30));
    assert_eq!(pack(5, 10, 200), (5, 1, 10));
}

#[test]
fn boxes_stay_on_the_screen() {
    let s = Shades::from_config(&Config::load(None, None, true));
    let mut out = Vec::new();
    assert_eq!(draw_box(&mut out, 10, 3, 40, 20, None, &s), Frill { x: 14, y: 7, w: 12, h: 5 });
    assert_eq!(out[0].text, "╭──────────╮");
    assert_eq!(
        draw_box(&mut out, 10, 3, 40, 20, Some((39, 19)), &s),
        Frill { x: 28, y: 15, w: 12, h: 5 }
    );
    assert_eq!(draw_box(&mut out, 90, 90, 40, 20, None, &s), Frill { x: 0, y: 0, w: 40, h: 20 });
}

#[test]
fn frames_place_body_and_panes() {
    let f = Frame {
        width: 100,
        height: 20,
        line_numbers: true,
        sidebar: true,
        sidebar_left: false,
        sidebar_want: 30,
        help_rows: 0,
        share: 34,
    };
    assert_eq!((f.sidebar_w(), f.body_x(), f.body_width()), (30, 0, 70));
    assert_eq!(f.divider_x(), 70);
    assert!(f.in_sidebar(70) && !f.in_sidebar(69));
    assert_eq!(f.split_div_x(), 34);
    assert_eq!(f.pane_at(33), Some(Pane::Left));
    assert_eq!(f.pane_at(34), None);
    assert_eq!(f.pane_at(35), Some(Pane::Right));
    assert_eq!(f.content_start(RowKind::Add, Gut::Both), 10);
    assert_eq!(f.content_start(RowKind::Hunk, Gut::Both), 9);
    assert_eq!(f.pane_geom(RowKind::Add, Some(Pane::Right)), 41);
    assert_eq!(f.resized_sidebar(60), 40);
    assert_eq!(f.resized_sidebar(99), 8);
    assert_eq!(f.resized_split(1), Some((2, 69)));
    assert_eq!(f.viewport_rows(), 19);
}
