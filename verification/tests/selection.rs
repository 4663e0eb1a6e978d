use diffv::cells::{clip, fit_tail, shorten, slice_cells, str_width, text_cells, Metrics, WidthMode};
use diffv::geometry::Pane;
use diffv::rows::{expand_tabs, merge, RowKind, Span};
use diffv::diff::Segment;
use diffv::palette::Color;
use diffv::tui::{App, Sel};

fn screen() -> Metrics {
    Metrics { mode: WidthMode::Grapheme, eaw_wide: false }
}

fn clipped(s: &str, width: u16) -> (String, u16) {
    clip(s, width, screen())
}

fn sel(a_row: usize, a_col: usize, c_row: usize, c_col: usize) -> Sel {
    Sel { a_row, a_col, c_row, c_col, dragging: false, pane: None }
}

#[test]
fn split_selection_is_confined_to_its_pane() {
    // Left pane holds context, removals, and headers, not additions.
    assert!(App::row_in_pane(RowKind::Remove, Some(Pane::Left)));
    assert!(App::row_in_pane(RowKind::Context, Some(Pane::Left)));
    assert!(App::row_in_pane(RowKind::Hunk, Some(Pane::Left)));
    assert!(!App::row_in_pane(RowKind::Add, Some(Pane::Left)));
    // Right pane holds context, additions, and headers, not removals.
    assert!(App::row_in_pane(RowKind::Add, Some(Pane::Right)));
    assert!(App::row_in_pane(RowKind::Context, Some(Pane::Right)));
    assert!(!App::row_in_pane(RowKind::Remove, Some(Pane::Right)));
    // Unified view (None) selects every row kind.
    assert!(App::row_in_pane(RowKind::Add, None));
    assert!(App::row_in_pane(RowKind::Remove, None));
}

fn span(text: &str) -> Span {
    Span { fg: None, changed: false, text: text.into() }
}

#[test]
fn expand_tabs_aligns_to_stops_across_spans() {
    // Leading tab expands to a full stop; a tab mid-column fills to the
    // next multiple of the tab width, counting columns across span breaks.
    let mut spans = vec![span("\tif"), span(" x\t{")];
    expand_tabs(&mut spans, 4);
    let joined: String = spans.iter().map(|s| s.text.as_str()).collect();
    assert_eq!(joined, "    if x    {");
    // tab=0 disables expansion (tabs left untouched).
    let mut spans = vec![span("\tx")];
    expand_tabs(&mut spans, 0);
    assert_eq!(spans[0].text, "\tx");
}

#[test]
fn tabs_at_a_stop_fill_a_whole_width() {
    let mut spans = vec![span("abcd"), span("\t|")];
    expand_tabs(&mut spans, 4);
    assert_eq!(spans[1].text, "    |");
    let mut spans = vec![span("abc\t\tx")];
    expand_tabs(&mut spans, 4);
    assert_eq!(spans[0].text, "abc     x");
}

#[test]
fn selection_orders_reading_wise() {
    // Dragging up/backward still yields start-before-end.
    let s = sel(5, 8, 1, 2);
    assert_eq!(s.ordered(), (1, 2, 5, 8));
    let s = sel(1, 2, 5, 8);
    assert_eq!(s.ordered(), (1, 2, 5, 8));
}

#[test]
fn selection_within_a_row_orders_by_column() {
    assert_eq!(sel(3, 9, 3, 4).ordered(), (3, 4, 3, 9));
    assert_eq!(sel(3, 4, 3, 9).ordered(), (3, 4, 3, 9));
}

#[test]
fn empty_selection_detected() {
    assert!(sel(3, 4, 3, 4).is_empty());
    assert!(!sel(3, 4, 3, 5).is_empty());
}

#[test]
fn slice_cells_clamps_and_trims() {
    // Whole line via an oversized end index, trailing blanks trimmed.
    let c = text_cells("    return 1   ");
    assert_eq!(slice_cells(&c, 0, usize::MAX), "    return 1");
    // A mid-line span.
    let c = text_cells("def foo():");
    assert_eq!(slice_cells(&c, 4, 7), "foo");
    // Start past the end yields empty.
    let c = text_cells("abc");
    assert_eq!(slice_cells(&c, 9, 9), "");
}

#[test]
fn wide_chars_occupy_two_cells() {
    // A wide grapheme takes two cells (glyph + continuation), so a cell
    // index maps 1:1 to a screen column. The continuation contributes "".
    let c = text_cells("a世b");
    assert_eq!(c.len(), 4);
    assert_eq!(slice_cells(&c, 0, 4), "a世b");
    // Selecting only the wide cell (not its continuation) still yields it.
    assert_eq!(slice_cells(&c, 1, 2), "世");
}

#[test]
fn clip_counts_display_columns() {
    // ASCII: one column per char.
    assert_eq!(clipped("hello", 3), ("hel".into(), 3));
    assert_eq!(clipped("hi", 10), ("hi".into(), 2));
    // Wide chars cost two columns; a budget of 3 fits one wide + nothing
    // more (the next wide would overflow), not two chars.
    assert_eq!(clipped("世界", 3), ("世".into(), 2));
    assert_eq!(clipped("世界", 4), ("世界".into(), 4));
    // A wide char never gets split across the boundary.
    assert_eq!(clipped("a世", 2), ("a".into(), 1));
}

#[test]
fn fit_tail_keeps_end_width_aware() {
    let cells: Vec<(String, u8)> =
        uncurses::text::grapheme_cells("src/世界.rs", uncurses::text::WidthMode::Grapheme, false)
            .map(|(g, w)| (g.to_string(), w))
            .collect();
    // Budget keeps the tail; a wide cluster is never split at the boundary.
    assert_eq!(fit_tail(&cells, 5), "界.rs");
    assert_eq!(fit_tail(&cells, 6), "界.rs");
    assert_eq!(fit_tail(&cells, 7), "世界.rs");
    // Zero budget keeps nothing.
    assert_eq!(fit_tail(&cells, 0), "");
}

#[test]
fn clusters_make_one_cell_group() {
    // A combining accent shares the cell of its letter.
    let c = text_cells("e\u{301}x");
    assert_eq!(c.len(), 2);
    assert_eq!(c[0].content, "e\u{301}");
    assert_eq!(str_width("e\u{301}x", screen()), 2);
}

#[test]
fn shorten_keeps_the_tail() {
    assert_eq!(shorten("src/main.rs", 20, screen()), "src/main.rs");
    assert_eq!(shorten("src/main.rs", 8, screen()), "…main.rs");
    assert_eq!(shorten("src/main.rs", 0, screen()), "…");
}

#[test]
fn merge_cuts_pieces_where_the_mark_changes() {
    let pieces = vec![(Some(Color::Red), "let x".to_string()), (None, " = 1;".to_string())];
    let segments = vec![
        Segment { text: "let ".into(), changed: false },
        Segment { text: "x =".into(), changed: true },
    ];
    let spans = merge(pieces, &segments, true);
    let got: Vec<(Option<Color>, bool, &str)> =
        spans.iter().map(|s| (s.fg, s.changed, s.text.as_str())).collect();
    assert_eq!(
        got,
        vec![
            (Some(Color::Red), false, "let "),
            (Some(Color::Red), true, "x"),
            (None, true, " ="),
            (None, false, " 1;"),
        ]
    );
}

#[test]
fn merge_without_segments_keeps_pieces() {
    let pieces = vec![(Some(Color::Red), "a".to_string()), (None, "".to_string())];
    let spans = merge(pieces, &vec![], true);
    assert_eq!(spans.len(), 2);
    assert!(!spans[0].changed);
    let pieces = vec![(None, "ab".to_string())];
    let segments = vec![Segment { text: "ab".into(), changed: true }];
    let spans = merge(pieces, &segments, false);
    assert_eq!(spans.len(), 1);
    assert!(!spans[0].changed);
}
