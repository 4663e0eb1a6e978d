use diffv::config::{
    builtin, config_candidates, file_format, find_config_file, parse_bool, prefer_dark, Colors,
    Config, Format,
};
use diffv::palette::{parse_color, parse_style, Color, Palette, Shades};

#[test]
fn colors_parse() {
    assert!(matches!(parse_color("#ff8800"), Some(Color::Rgb(255, 136, 0))));
    assert!(matches!(parse_color("52"), Some(Color::Indexed(52))));
    assert!(matches!(parse_color("green"), Some(Color::Green)));
    assert!(parse_color("default").is_none());
}

#[test]
fn colors_without_a_meaning_are_none() {
    assert!(parse_color("none").is_none());
    assert!(parse_color("-").is_none());
    assert!(parse_color("256").is_none());
    assert!(parse_color("#ff88").is_none());
    assert!(parse_color("#gg8800").is_none());
    assert!(parse_color("#+f+f+f").is_none());
    assert!(parse_color("nocolor").is_none());
}

#[test]
fn style_spec_parses() {
    let cols = Colors {
        foreground: "white".into(),
        surface: "brightblack".into(),
        primary: "cyan".into(),
        ..Colors::default()
    };
    let pal = Palette::new(&cols);
    let s = parse_style("foreground surface bold", &pal);
    assert_eq!(s.fg, Some(Color::White));
    assert_eq!(s.bg, Some(Color::BrightBlack));
    assert!(!s.attrs.is_empty()); // bold set
    // `-` skips the fg slot; bg still applies.
    let s2 = parse_style("- primary", &pal);
    assert_eq!(s2.fg, None);
    assert_eq!(s2.bg, Some(Color::Cyan));
}

#[test]
fn only_the_first_two_colors_count() {
    let pal = Palette::new(&Colors::default());
    let s = parse_style("red green blue bold", &pal);
    assert_eq!(s.fg, Some(Color::Red));
    assert_eq!(s.bg, Some(Color::Green));
    assert!(s.attrs.bold);
}

#[test]
fn git_config_overrides_the_file() {
    let mut file = Config::default();
    file.theme = "onelight".into();
    file.line_numbers = true;
    let out = "diffv.theme nord\ndiffv.line-numbers false\ndiffv.tab-width 8\n\
diffv.colors.add #00ff00\ndiffv.colors.add-emph #003300\n\
diffv.styles.statusbar foreground surface bold\n";
    let c = Config::load(Some(file), Some(out), true);
    assert_eq!(c.theme, "nord");
    assert!(!c.line_numbers);
    assert_eq!(c.tab_width, 8);
    assert_eq!(c.colors.add, "#00ff00");
    assert_eq!(c.colors.add_emph, "#003300");
    assert_eq!(c.style_spec("statusbar", "x"), "foreground surface bold");
    assert_eq!(c.style_spec("dialog", "x"), "x");
}

#[test]
fn defaults_follow_the_terminal_background() {
    let dark = Config::load(None, None, true);
    let light = Config::load(None, None, false);
    assert_eq!(dark.theme, "onedark");
    assert_eq!(light.theme, "onelight");
    assert_eq!(dark.colors.add, builtin(true).green);
    assert_eq!(light.colors.add, builtin(false).green);
    assert!(dark.syntax);
    assert_eq!(dark.tab_width, 4);
    assert_eq!(dark.sidebar, "auto");
    assert_eq!(dark.sidebar_width, 30);
    assert_eq!(dark.sidebar_side, "left");
}

#[test]
fn set_colors_survive_theme_defaults() {
    let mut file = Config::default();
    file.colors.add = "blue".into();
    let c = Config::load(Some(file), None, true);
    assert_eq!(c.colors.add, "blue");
    assert_eq!(c.colors.remove, builtin(true).red);
}

#[test]
fn ansi_theme_leaves_code_alone() {
    let mut c = Config::default();
    assert!(c.syntax_enabled() && c.intraline_enabled());
    c.theme = "ansi".into();
    assert!(!c.syntax_enabled() && !c.intraline_enabled());
}

#[test]
fn themes_repaint_the_chrome() {
    // A built-in theme brings its palette, whatever the background is.
    let mut file = Config::default();
    file.theme = "onelight".into();
    let c = Config::load(Some(file), None, true);
    assert_eq!(c.colors.add, builtin(false).green);
    // `ansi` borrows the terminal's own colors.
    let mut file = Config::default();
    file.theme = "ansi".into();
    let c = Config::load(Some(file), None, true);
    let s = Shades::from_config(&c);
    assert_eq!(s.add.fg, Some(Color::Green));
    assert_eq!(s.background, None);
    assert_eq!(s.add_emph_bg, None);
    // Each built-in theme has a palette of its own.
    let mut file = Config::default();
    file.theme = "nord".into();
    let c = Config::load(Some(file), None, false);
    assert_eq!(c.colors.background, "#2e3440");
    assert_eq!(c.colors.add, "#a3be8c");
    let mut file = Config::default();
    file.theme = "solarized-light".into();
    let c = Config::load(Some(file), None, true);
    assert_eq!(c.colors.background, "#fdf6e3");
    // Any other name leaves the chrome to the background.
    let mut file = Config::default();
    file.theme = "base16-ocean.dark".into();
    let c = Config::load(Some(file), None, false);
    assert_eq!(c.colors.add, builtin(false).green);
}

#[test]
fn background_hint_decides() {
    assert!(prefer_dark(Some("15;0")));
    assert!(!prefer_dark(Some("0;15")));
    assert!(prefer_dark(None));
}

#[test]
fn editor_falls_back() {
    let mut c = Config::default();
    assert_eq!(c.editor_cmd(Some("emacs"), Some("nano")), "emacs");
    assert_eq!(c.editor_cmd(None, Some("nano")), "nano");
    assert_eq!(c.editor_cmd(None, None), "vi");
    c.editor = "hx".into();
    assert_eq!(c.editor_cmd(Some("emacs"), None), "hx");
}

#[test]
fn config_files_are_searched_in_order() {
    let v = config_candidates(Some("/x"), Some("/home/u"));
    assert_eq!(v[0], "/x/diffv/config.toml");
    assert_eq!(v[1], "/x/diffv/config.yaml");
    assert_eq!(v[4], "/home/u/.config/diffv/config.toml");
    assert_eq!(v[v.len() - 1], "/home/u/.diffv.toml");
    let mut there = vec![false; v.len()];
    assert_eq!(find_config_file(&v, &there), None);
    there[4] = true;
    there[1] = true;
    assert_eq!(find_config_file(&v, &there), Some(1));
    assert!(matches!(file_format("a.yml"), Format::Yaml));
    assert!(matches!(file_format("a.json"), Format::Json));
    assert!(matches!(file_format("a.toml"), Format::Toml));
}

#[test]
fn the_later_value_counts() {
    let out = "diffv.theme nord\ndiffv.theme ansi\ndiffv.syntax no\ndiffv.syntax maybe\n\
diffv.tab-width 2\ndiffv.tab-width wide\ndiffv.colors.add red\ndiffv.colors.add blue\n\
diffv.styles.dialog red\ndiffv.styles.dialog green\n";
    let c = Config::load(None, Some(out), true);
    assert_eq!(c.theme, "ansi");
    // A value that cannot be read leaves the setting as it was.
    assert!(!c.syntax);
    assert_eq!(c.tab_width, 2);
    assert_eq!(c.colors.add, "blue");
    assert_eq!(c.style_spec("dialog", "x"), "green");
}

#[test]
fn hex_colors_read_back() {
    for (r, g, b) in [(0u8, 0u8, 0u8), (255, 255, 255), (1, 160, 254), (16, 15, 171)] {
        let text = format!("#{:02x}{:02x}{:02x}", r, g, b);
        assert_eq!(parse_color(&text), Some(Color::Rgb(r, g, b)));
    }
}

#[test]
fn booleans_have_many_spellings() {
    assert!(parse_bool("yes", false));
    assert!(parse_bool("on", false));
    assert!(!parse_bool("0", true));
    assert!(parse_bool("what", true));
}

#[test]
fn shades_follow_config() {
    let mut c = Config::load(None, None, true);
    c.styles.push(("statusbar".to_string(), "red blue".to_string()));
    let s = Shades::from_config(&c);
    assert_eq!(s.statusbar.fg, Some(Color::Red));
    assert_eq!(s.statusbar.bg, Some(Color::Blue));
    assert!(s.header.attrs.bold);
    assert_eq!(s.add.fg, Some(Color::Rgb(0x98, 0xc3, 0x79)));
}
