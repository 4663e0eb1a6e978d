//! Colors and styles: the values, and the small languages that name them in a
//! configuration.
use crate::config;
use crate::config::{Colors, Config, Settings, Tone};
use crate::text;
use vstd::prelude::*;

verus! {

/// A terminal color: one of the sixteen named ones, an index into the
/// 256-color palette, or red, green and blue bytes.
#[derive(Debug, Clone, Copy, PartialEq, Eq, Structural)]
pub enum Color {
    Black,
    Red,
    Green,
    Yellow,
    Blue,
    Magenta,
    Cyan,
    White,
    BrightBlack,
    BrightRed,
    BrightGreen,
    BrightYellow,
    BrightBlue,
    BrightMagenta,
    BrightCyan,
    BrightWhite,
    Indexed(u8),
    Rgb(u8, u8, u8),
}

/// The attributes of a text that are on or off.
#[derive(Debug, Clone, Copy, PartialEq, Eq, Structural)]
pub struct Attrs {
    pub bold: bool,
    pub faint: bool,
    pub italic: bool,
    pub blink: bool,
    pub reverse: bool,
    pub conceal: bool,
    pub strikethrough: bool,
}

impl Attrs {
    /// No attribute.
    pub open spec fn none() -> Attrs {
        Attrs {
            bold: false,
            faint: false,
            italic: false,
            blink: false,
            reverse: false,
            conceal: false,
            strikethrough: false,
        }
    }

    /// Whether no attribute is on.
    pub fn is_empty(&self) -> (r: bool)
        ensures
            r == (*self == Attrs::none()),
    {
        !(self.bold || self.faint || self.italic || self.blink || self.reverse || self.conceal
            || self.strikethrough)
    }
}

/// How a text is drawn. A color that is absent is the terminal's own.
#[derive(Debug, Clone, Copy, PartialEq, Eq)]
pub struct Style {
    pub fg: Option<Color>,
    pub bg: Option<Color>,
    pub underline: bool,
    pub attrs: Attrs,
}

impl Style {
    /// The style that sets nothing.
    pub open spec fn plain() -> Style {
        Style { fg: None, bg: None, underline: false, attrs: Attrs::none() }
    }

    pub open spec fn with_fg(self, c: Option<Color>) -> Style {
        Style { fg: c, ..self }
    }

    pub open spec fn with_bg(self, c: Option<Color>) -> Style {
        Style { bg: c, ..self }
    }

    pub open spec fn with_bold(self) -> Style {
        Style { attrs: Attrs { bold: true, ..self.attrs }, ..self }
    }

    pub open spec fn with_faint(self) -> Style {
        Style { attrs: Attrs { faint: true, ..self.attrs }, ..self }
    }

    /// A style that sets nothing.
    pub fn new() -> (r: Style)
        ensures
            r == Style::plain(),
    {
        Style {
            fg: None,
            bg: None,
            underline: false,
            attrs: Attrs {
                bold: false,
                faint: false,
                italic: false,
                blink: false,
                reverse: false,
                conceal: false,
                strikethrough: false,
            },
        }
    }

    /// The style with another foreground.
    pub fn fg(self, c: Option<Color>) -> (r: Style)
        ensures
            r == self.with_fg(c),
    {
        Style { fg: c, ..self }
    }

    /// The style with another background.
    pub fn bg(self, c: Option<Color>) -> (r: Style)
        ensures
            r == self.with_bg(c),
    {
        Style { bg: c, ..self }
    }

    /// The style in bold.
    pub fn bold(self) -> (r: Style)
        ensures
            r == self.with_bold(),
    {
        Style { attrs: Attrs { bold: true, ..self.attrs }, ..self }
    }

    /// The style in faint.
    pub fn faint(self) -> (r: Style)
        ensures
            r == self.with_faint(),
    {
        Style { attrs: Attrs { faint: true, ..self.attrs }, ..self }
    }
}

/// The value of an ASCII hexadecimal digit.
pub open spec fn hex_digit(c: char) -> Option<u8> {
    if '0' <= c <= '9' {
        Some((c as u8 - '0' as u8) as u8)
    } else if 'a' <= c <= 'f' {
        Some((c as u8 - 'a' as u8 + 10) as u8)
    } else if 'A' <= c <= 'F' {
        Some((c as u8 - 'A' as u8 + 10) as u8)
    } else {
        None
    }
}

/// The byte that two hexadecimal digits write.
pub open spec fn hex_byte(hi: char, lo: char) -> Option<u8> {
    match (hex_digit(hi), hex_digit(lo)) {
        (Some(h), Some(l)) => Some((h * 16 + l) as u8),
        _ => None,
    }
}

/// The color that `rrggbb` writes.
pub open spec fn hex_color(s: Seq<char>) -> Option<Color> {
    if s.len() != 6 {
        None
    } else {
        match (hex_byte(s[0], s[1]), hex_byte(s[2], s[3]), hex_byte(s[4], s[5])) {
            (Some(r), Some(g), Some(b)) => Some(Color::Rgb(r, g, b)),
            _ => None,
        }
    }
}

/// The color that a small-letter name means.
pub open spec fn named_color(s: Seq<char>) -> Option<Color> {
    if s == "black"@ {
        Some(Color::Black)
    } else if s == "red"@ {
        Some(Color::Red)
    } else if s == "green"@ {
        Some(Color::Green)
    } else if s == "yellow"@ {
        Some(Color::Yellow)
    } else if s == "blue"@ {
        Some(Color::Blue)
    } else if s == "magenta"@ {
        Some(Color::Magenta)
    } else if s == "cyan"@ {
        Some(Color::Cyan)
    } else if s == "white"@ {
        Some(Color::White)
    } else if s == "brightblack"@ || s == "gray"@ || s == "grey"@ {
        Some(Color::BrightBlack)
    } else if s == "brightred"@ {
        Some(Color::BrightRed)
    } else if s == "brightgreen"@ {
        Some(Color::BrightGreen)
    } else if s == "brightyellow"@ {
        Some(Color::BrightYellow)
    } else if s == "brightblue"@ {
        Some(Color::BrightBlue)
    } else if s == "brightmagenta"@ {
        Some(Color::BrightMagenta)
    } else if s == "brightcyan"@ {
        Some(Color::BrightCyan)
    } else if s == "brightwhite"@ {
        Some(Color::BrightWhite)
    } else {
        None
    }
}

/// The color that a text names: `#rrggbb`, a palette index, or an ANSI name
/// in any case. Nothing, `default`, `none` and anything else name no color.
pub open spec fn color_of(t: Seq<char>) -> Option<Color> {
    let s = text::trimmed(t);
    if s.len() == 0 || text::lowered(s) == "default"@ || text::lowered(s) == "none"@ {
        None
    } else if s.first() == '#' {
        hex_color(s.drop_first())
    } else {
        match text::parsed_uint(s, 255) {
            Some(n) => Some(Color::Indexed(n as u8)),
            None => named_color(text::lowered(s)),
        }
    }
}

/// The hexadecimal digit for `n`.
pub open spec fn hex_char(n: u8) -> char {
    if n < 10 {
        (n + 48) as u8 as char
    } else {
        (n + 87) as u8 as char
    }
}

/// A color written `#rrggbb`.
pub open spec fn hex_text(r: u8, g: u8, b: u8) -> Seq<char> {
    seq![
        '#',
        hex_char(r / 16),
        hex_char(r % 16),
        hex_char(g / 16),
        hex_char(g % 16),
        hex_char(b / 16),
        hex_char(b % 16),
    ]
}

pub(crate) proof fn lemma_hex_digit(n: u8)
    requires
        n < 16,
    ensures
        hex_digit(hex_char(n)) == Some(n),
        !text::is_space(hex_char(n)),
{
    if n < 10 {
        let v = (n + 48) as u8;
        assert((v as char) as u8 == v);
        assert(48 <= v <= 57);
    } else {
        let v = (n + 87) as u8;
        assert((v as char) as u8 == v);
        assert(97 <= v <= 102);
    }
}

/// Every color written `#rrggbb` reads back.
pub proof fn law_hex_reads_back(r: u8, g: u8, b: u8)
    ensures
        color_of(hex_text(r, g, b)) == Some(Color::Rgb(r, g, b)),
{
    let s = hex_text(r, g, b);
    lemma_hex_digit(r / 16);
    lemma_hex_digit(r % 16);
    lemma_hex_digit(g / 16);
    lemma_hex_digit(g % 16);
    lemma_hex_digit(b / 16);
    lemma_hex_digit(b % 16);
    assert(text::trimmed(s) == s);
    reveal_strlit("default");
    reveal_strlit("none");
    assert(text::lowered(s)[0] == '#');
    assert("default"@[0] == 'd');
    assert("none"@[0] == 'n');
    assert(s.drop_first() =~= s.skip(1));
}

fn hex_value(c: char) -> (r: Option<u8>)
    ensures
        r == hex_digit(c),
{
    if '0' <= c && c <= '9' {
        Some(c as u8 - 48)
    } else if 'a' <= c && c <= 'f' {
        Some(c as u8 - 97 + 10)
    } else if 'A' <= c && c <= 'F' {
        Some(c as u8 - 65 + 10)
    } else {
        None
    }
}

/// The byte that two characters write in hexadecimal.
pub fn parse_hex_byte(hi: char, lo: char) -> (r: Option<u8>)
    ensures
        r == hex_byte(hi, lo),
{
    match (hex_value(hi), hex_value(lo)) {
        (Some(h), Some(l)) => Some(h * 16 + l),
        _ => None,
    }
}

fn name_to_color(s: &str) -> (r: Option<Color>)
    ensures
        r == named_color(s@),
{
    if text::same(s, "black") {
        Some(Color::Black)
    } else if text::same(s, "red") {
        Some(Color::Red)
    } else if text::same(s, "green") {
        Some(Color::Green)
    } else if text::same(s, "yellow") {
        Some(Color::Yellow)
    } else if text::same(s, "blue") {
        Some(Color::Blue)
    } else if text::same(s, "magenta") {
        Some(Color::Magenta)
    } else if text::same(s, "cyan") {
        Some(Color::Cyan)
    } else if text::same(s, "white") {
        Some(Color::White)
    } else if text::same(s, "brightblack") || text::same(s, "gray") || text::same(s, "grey") {
        Some(Color::BrightBlack)
    } else if text::same(s, "brightred") {
        Some(Color::BrightRed)
    } else if text::same(s, "brightgreen") {
        Some(Color::BrightGreen)
    } else if text::same(s, "brightyellow") {
        Some(Color::BrightYellow)
    } else if text::same(s, "brightblue") {
        Some(Color::BrightBlue)
    } else if text::same(s, "brightmagenta") {
        Some(Color::BrightMagenta)
    } else if text::same(s, "brightcyan") {
        Some(Color::BrightCyan)
    } else if text::same(s, "brightwhite") {
        Some(Color::BrightWhite)
    } else {
        None
    }
}

/// Parse a color name, `#rrggbb` hex, or 0-255 palette index. Returns `None`
/// for `default`, `none` and what is not recognized.
pub fn parse_color(t: &str) -> (r: Option<Color>)
    ensures
        r == color_of(t@),
{
    let s = text::trim(t);
    let low = text::lower(s.as_str());
    let v = text::to_chars(s.as_str());
    if v.len() == 0 || text::same(low.as_str(), "default") || text::same(low.as_str(), "none") {
        return None;
    }
    if v[0] == '#' {
        assert(s@.drop_first().len() == v@.len() - 1);
        if v.len() != 7 {
            return None;
        }
        assert(forall|i: int| 0 <= i < 6 ==> s@.drop_first()[i] == v@[i + 1]);
        let rr = parse_hex_byte(v[1], v[2]);
        let gg = parse_hex_byte(v[3], v[4]);
        let bb = parse_hex_byte(v[5], v[6]);
        return match (rr, gg, bb) {
            (Some(r), Some(g), Some(b)) => Some(Color::Rgb(r, g, b)),
            _ => None,
        };
    }
    match text::parse_uint(s.as_str(), 255) {
        Some(n) => Some(Color::Indexed(n as u8)),
        None => name_to_color(low.as_str()),
    }
}

/// Resolved color palette: the named tones that style specs and the renderer
/// reference by name.
#[derive(Debug, Clone, Copy)]
pub struct Palette {
    add: Option<Color>,
    remove: Option<Color>,
    context: Option<Color>,
    header: Option<Color>,
    line_number: Option<Color>,
    primary: Option<Color>,
    secondary: Option<Color>,
    foreground: Option<Color>,
    background: Option<Color>,
    muted: Option<Color>,
    surface: Option<Color>,
    cursor: Option<Color>,
    add_line: Option<Color>,
    remove_line: Option<Color>,
    add_emph: Option<Color>,
    remove_emph: Option<Color>,
}

impl View for Palette {
    type V = spec_fn(Tone) -> Option<Color>;

    closed spec fn view(&self) -> spec_fn(Tone) -> Option<Color> {
        |t: Tone|
            match t {
                Tone::Add => self.add,
                Tone::Remove => self.remove,
                Tone::Context => self.context,
                Tone::Header => self.header,
                Tone::LineNumber => self.line_number,
                Tone::Primary => self.primary,
                Tone::Secondary => self.secondary,
                Tone::Foreground => self.foreground,
                Tone::Background => self.background,
                Tone::Muted => self.muted,
                Tone::Surface => self.surface,
                Tone::Cursor => self.cursor,
                Tone::AddLine => self.add_line,
                Tone::RemoveLine => self.remove_line,
                Tone::AddEmph => self.add_emph,
                Tone::RemoveEmph => self.remove_emph,
            }
    }
}

/// The palette of some colors: each tone resolved by itself.
pub open spec fn palette_of(c: spec_fn(Tone) -> Seq<char>) -> spec_fn(Tone) -> Option<Color> {
    |t: Tone| color_of(c(t))
}

/// The color that a token names: a tone of the palette, else a literal color.
/// A dash names no color.
pub open spec fn token_color(p: spec_fn(Tone) -> Option<Color>, token: Seq<char>) -> Option<Color> {
    if token == "-"@ {
        None
    } else {
        match config::tone_named(token) {
            Some(t) => p(t),
            None => color_of(token),
        }
    }
}

impl Palette {
    /// Resolve every tone.
    pub fn new(c: &Colors) -> (r: Palette)
        ensures
            r@ =~= palette_of(c@),
    {
        let r = Palette {
            add: parse_color(c.add.as_str()),
            remove: parse_color(c.remove.as_str()),
            context: parse_color(c.context.as_str()),
            header: parse_color(c.header.as_str()),
            line_number: parse_color(c.line_number.as_str()),
            primary: parse_color(c.primary.as_str()),
            secondary: parse_color(c.secondary.as_str()),
            foreground: parse_color(c.foreground.as_str()),
            background: parse_color(c.background.as_str()),
            muted: parse_color(c.muted.as_str()),
            surface: parse_color(c.surface.as_str()),
            cursor: parse_color(c.cursor.as_str()),
            add_line: parse_color(c.add_line.as_str()),
            remove_line: parse_color(c.remove_line.as_str()),
            add_emph: parse_color(c.add_emph.as_str()),
            remove_emph: parse_color(c.remove_emph.as_str()),
        };
        assert forall|t: Tone| #[trigger] (r@)(t) == palette_of(c@)(t) by {
            assert(c@(t) == c.tone(t));
        }
        r
    }

    fn get(&self, t: Tone) -> (r: Option<Color>)
        ensures
            r == self@(t),
    {
        match t {
            Tone::Add => self.add,
            Tone::Remove => self.remove,
            Tone::Context => self.context,
            Tone::Header => self.header,
            Tone::LineNumber => self.line_number,
            Tone::Primary => self.primary,
            Tone::Secondary => self.secondary,
            Tone::Foreground => self.foreground,
            Tone::Background => self.background,
            Tone::Muted => self.muted,
            Tone::Surface => self.surface,
            Tone::Cursor => self.cursor,
            Tone::AddLine => self.add_line,
            Tone::RemoveLine => self.remove_line,
            Tone::AddEmph => self.add_emph,
            Tone::RemoveEmph => self.remove_emph,
        }
    }

    /// Resolve a token to a color: a palette name, else a literal color value
    /// (hex, index, or ANSI name). `none`, `default` and `-` mean no color.
    pub fn color(&self, token: &str) -> (r: Option<Color>)
        ensures
            r == token_color(self@, token@),
    {
        if text::same(token, "-") {
            return None;
        }
        match config::tone_by_name(token) {
            Some(t) => self.get(t),
            None => parse_color(token),
        }
    }
}

/// A style being read, and how many of its two color slots are taken.
pub struct Draft {
    pub style: Style,
    pub slots: u8,
}

/// The style after one more word: an attribute, or a color for the
/// foreground slot and then for the background. Further colors change nothing.
pub open spec fn with_word(d: Draft, word: Seq<char>, p: spec_fn(Tone) -> Option<Color>) -> Draft {
    let w = text::lowered(word);
    let a = d.style.attrs;
    if w == "bold"@ {
        Draft { style: Style { attrs: Attrs { bold: true, ..a }, ..d.style }, ..d }
    } else if w == "faint"@ || w == "dim"@ {
        Draft { style: Style { attrs: Attrs { faint: true, ..a }, ..d.style }, ..d }
    } else if w == "italic"@ {
        Draft { style: Style { attrs: Attrs { italic: true, ..a }, ..d.style }, ..d }
    } else if w == "underline"@ {
        Draft { style: Style { underline: true, ..d.style }, ..d }
    } else if w == "strikethrough"@ {
        Draft { style: Style { attrs: Attrs { strikethrough: true, ..a }, ..d.style }, ..d }
    } else if w == "blink"@ {
        Draft { style: Style { attrs: Attrs { blink: true, ..a }, ..d.style }, ..d }
    } else if w == "reverse"@ {
        Draft { style: Style { attrs: Attrs { reverse: true, ..a }, ..d.style }, ..d }
    } else if w == "conceal"@ || w == "hidden"@ {
        Draft { style: Style { attrs: Attrs { conceal: true, ..a }, ..d.style }, ..d }
    } else if d.slots == 0 {
        Draft { style: d.style.with_fg(token_color(p, word)), slots: 1 }
    } else if d.slots == 1 {
        Draft { style: d.style.with_bg(token_color(p, word)), slots: 2 }
    } else {
        d
    }
}

/// The style after some words.
pub open spec fn with_words(words: Seq<Seq<char>>, p: spec_fn(Tone) -> Option<Color>) -> Draft
    decreases words.len(),
{
    if words.len() == 0 {
        Draft { style: Style::plain(), slots: 0 }
    } else {
        with_word(with_words(words.drop_last(), p), words.last(), p)
    }
}

/// The style that a spec means.
pub open spec fn style_of(spec: Seq<char>, p: spec_fn(Tone) -> Option<Color>) -> Style {
    with_words(text::word_texts(spec), p).style
}

/// Parse a `fg bg attr...` style spec against the palette. The first two
/// color tokens are foreground then background; remaining known keywords set
/// attributes (`bold`, `faint`, `italic`, `underline`, `strikethrough`,
/// `blink`, `reverse`, `conceal`). Use `-`/`none`/`default` to skip a color
/// slot.
pub fn parse_style(spec: &str, palette: &Palette) -> (r: Style)
    ensures
        r == style_of(spec@, palette@),
{
    let words = text::words(spec);
    let ghost t = text::texts(words@);
    let mut style = Style::new();
    let mut slots: u8 = 0;
    for i in 0..words.len()
        invariant
            t == text::texts(words@),
            (Draft { style, slots }) == with_words(t.take(i as int), palette@),
    {
        assert(t.take(i as int + 1).drop_last() =~= t.take(i as int));
        assert(t[i as int] == words@[i as int]@);
        let low = text::lower(words[i].as_str());
        let w = low.as_str();
        if text::same(w, "bold") {
            style.attrs.bold = true;
        } else if text::same(w, "faint") || text::same(w, "dim") {
            style.attrs.faint = true;
        } else if text::same(w, "italic") {
            style.attrs.italic = true;
        } else if text::same(w, "underline") {
            style.underline = true;
        } else if text::same(w, "strikethrough") {
            style.attrs.strikethrough = true;
        } else if text::same(w, "blink") {
            style.attrs.blink = true;
        } else if text::same(w, "reverse") {
            style.attrs.reverse = true;
        } else if text::same(w, "conceal") || text::same(w, "hidden") {
            style.attrs.conceal = true;
        } else if slots == 0 {
            style.fg = palette.color(words[i].as_str());
            slots = 1;
        } else if slots == 1 {
            style.bg = palette.color(words[i].as_str());
            slots = 2;
        }
    }
    assert(t.take(t.len() as int) =~= t);
    style
}

/// A resolved styling palette built once from config: diff-body styles plus
/// component-named chrome styles.
#[derive(Debug, Clone, Copy)]
pub struct Shades {
    pub add: Style,
    pub remove: Style,
    pub context: Style,
    pub header: Style,
    pub line_number: Style,
    pub add_emph_bg: Option<Color>,
    pub remove_emph_bg: Option<Color>,
    pub add_line_bg: Option<Color>,
    pub remove_line_bg: Option<Color>,
    /// The background band behind a hunk header.
    pub header_bg: Option<Color>,
    pub cursor_bg: Color,
    /// The terminal's default background; absent, the terminal keeps its own.
    pub background: Option<Color>,
    pub statusbar: Style,
    pub statusbar_logo: Style,
    pub statusbar_filename: Style,
    pub statusbar_add: Style,
    pub statusbar_remove: Style,
    pub statusbar_flags: Style,
    pub statusbar_stats: Style,
    pub statusbar_watch: Style,
    pub statusbar_help: Style,
    pub help_key: Style,
    pub help_desc: Style,
    pub dialog: Style,
    pub dialog_border: Style,
    pub sidebar_border: Style,
}

/// The style of a component: its configured spec, else its default one.
pub open spec fn component(c: Settings, name: Seq<char>, default: Seq<char>) -> Style {
    style_of(
        if c.styles.contains_key(name) {
            c.styles[name]
        } else {
            default
        },
        palette_of(c.colors),
    )
}

/// The theme of a configuration.
pub open spec fn theme_of(c: Settings) -> Shades {
    let p = palette_of(c.colors);
    Shades {
        add: component(c, "add"@, "add"@),
        remove: component(c, "remove"@, "remove"@),
        context: component(c, "context"@, "context"@),
        header: component(c, "header"@, "header bold"@),
        line_number: component(c, "line-number"@, "line-number"@),
        statusbar: component(c, "statusbar"@, "foreground surface"@),
        statusbar_logo: component(c, "statusbar-logo"@, "background primary bold"@),
        statusbar_filename: component(c, "statusbar-filename"@, "foreground surface bold"@),
        statusbar_add: component(c, "statusbar-add"@, "add surface"@),
        statusbar_remove: component(c, "statusbar-remove"@, "remove surface"@),
        statusbar_flags: component(c, "statusbar-flags"@, "muted surface"@),
        statusbar_stats: component(c, "statusbar-stats"@, "foreground surface"@),
        statusbar_watch: component(c, "statusbar-watch"@, "background add bold"@),
        statusbar_help: component(c, "statusbar-help"@, "background secondary bold"@),
        help_key: component(c, "help-key"@, "muted bold"@),
        help_desc: component(c, "help-desc"@, "muted faint"@),
        dialog: component(c, "dialog"@, "foreground background"@),
        dialog_border: component(c, "dialog-border"@, "surface"@),
        sidebar_border: component(c, "sidebar-border"@, "surface"@),
        add_emph_bg: token_color(p, "add-emph"@),
        remove_emph_bg: token_color(p, "remove-emph"@),
        add_line_bg: token_color(p, "add-line"@),
        remove_line_bg: token_color(p, "remove-line"@),
        header_bg: token_color(p, "header-line"@),
        cursor_bg: match token_color(p, "cursor"@) {
            Some(x) => x,
            None => Color::Indexed(237),
        },
        background: token_color(p, "background"@),
    }
}

impl Shades {
    fn component(c: &Config, p: &Palette, name: &str, default: &'static str) -> (r: Style)
        requires
            p@ =~= palette_of(c@.colors),
        ensures
            r == component(c@, name@, default@),
    {
        parse_style(c.style_spec(name, default), p)
    }

    /// Resolve every style and color of the configuration.
    pub fn from_config(c: &Config) -> (r: Shades)
        ensures
            r == theme_of(c@),
    {
        let pal = Palette::new(&c.colors);
        Shades {
            add: Shades::component(c, &pal, "add", "add"),
            remove: Shades::component(c, &pal, "remove", "remove"),
            context: Shades::component(c, &pal, "context", "context"),
            header: Shades::component(c, &pal, "header", "header bold"),
            line_number: Shades::component(c, &pal, "line-number", "line-number"),
            statusbar: Shades::component(c, &pal, "statusbar", "foreground surface"),
            statusbar_logo: Shades::component(c, &pal, "statusbar-logo", "background primary bold"),
            statusbar_filename: Shades::component(c, &pal, "statusbar-filename", "foreground surface bold"),
            statusbar_add: Shades::component(c, &pal, "statusbar-add", "add surface"),
            statusbar_remove: Shades::component(c, &pal, "statusbar-remove", "remove surface"),
            statusbar_flags: Shades::component(c, &pal, "statusbar-flags", "muted surface"),
            statusbar_stats: Shades::component(c, &pal, "statusbar-stats", "foreground surface"),
            statusbar_watch: Shades::component(c, &pal, "statusbar-watch", "background add bold"),
            statusbar_help: Shades::component(c, &pal, "statusbar-help", "background secondary bold"),
            help_key: Shades::component(c, &pal, "help-key", "muted bold"),
            help_desc: Shades::component(c, &pal, "help-desc", "muted faint"),
            dialog: Shades::component(c, &pal, "dialog", "foreground background"),
            dialog_border: Shades::component(c, &pal, "dialog-border", "surface"),
            sidebar_border: Shades::component(c, &pal, "sidebar-border", "surface"),
            add_emph_bg: pal.color("add-emph"),
            remove_emph_bg: pal.color("remove-emph"),
            add_line_bg: pal.color("add-line"),
            remove_line_bg: pal.color("remove-line"),
            header_bg: pal.color("header-line"),
            cursor_bg: match pal.color("cursor") {
                Some(x) => x,
                None => Color::Indexed(237),
            },
            background: pal.color("background"),
        }
    }
}

} // verus!
