//! Configuration: theme, colors, and settings read from a file and overlaid
//! with the `diffv` values of git config.
use crate::paths;
use crate::text;
use crate::themes;
use vstd::prelude::*;

verus! {

/// The named tones of the color palette.
#[derive(Debug, Clone, Copy, PartialEq, Eq, Structural)]
pub enum Tone {
    Add,
    Remove,
    Context,
    Header,
    LineNumber,
    Primary,
    Secondary,
    Foreground,
    Background,
    Muted,
    Surface,
    Cursor,
    AddLine,
    RemoveLine,
    AddEmph,
    RemoveEmph,
}

/// The color of each tone, as text. An empty text is unset.
#[derive(Debug, Clone)]
pub struct Colors {
    pub add: String,
    pub remove: String,
    pub context: String,
    pub header: String,
    pub line_number: String,
    /// Primary accent: the "diffv" badge background in the footer.
    pub primary: String,
    /// Secondary accent: file name text, the "? help" badge, and dialog
    /// backgrounds.
    pub secondary: String,
    /// Bright body text.
    pub foreground: String,
    /// Text drawn on top of accent badges and dialog surfaces.
    pub background: String,
    /// Muted tone: flags, help descriptions.
    pub muted: String,
    /// Status bar and chip background surface.
    pub surface: String,
    /// Current-line highlight background.
    pub cursor: String,
    /// Subtle whole-line background for added lines.
    pub add_line: String,
    /// Subtle whole-line background for removed lines.
    pub remove_line: String,
    /// Background emphasis for changed segments of added lines.
    pub add_emph: String,
    /// Background emphasis for changed segments of removed lines.
    pub remove_emph: String,
}

impl View for Colors {
    type V = spec_fn(Tone) -> Seq<char>;

    open spec fn view(&self) -> spec_fn(Tone) -> Seq<char> {
        |t: Tone| self.tone(t)
    }
}

/// Every tone unset.
pub open spec fn no_colors() -> spec_fn(Tone) -> Seq<char> {
    |t: Tone| Seq::<char>::empty()
}

/// The colors `c`, with the tone `t` set to `s`.
pub open spec fn with_tone(c: spec_fn(Tone) -> Seq<char>, t: Tone, s: Seq<char>) -> spec_fn(
    Tone,
) -> Seq<char> {
    |u: Tone|
        if u == t {
            s
        } else {
            c(u)
        }
}

impl Colors {
    /// The text of one tone.
    pub open spec fn tone(&self, t: Tone) -> Seq<char> {
        match t {
            Tone::Add => self.add@,
            Tone::Remove => self.remove@,
            Tone::Context => self.context@,
            Tone::Header => self.header@,
            Tone::LineNumber => self.line_number@,
            Tone::Primary => self.primary@,
            Tone::Secondary => self.secondary@,
            Tone::Foreground => self.foreground@,
            Tone::Background => self.background@,
            Tone::Muted => self.muted@,
            Tone::Surface => self.surface@,
            Tone::Cursor => self.cursor@,
            Tone::AddLine => self.add_line@,
            Tone::RemoveLine => self.remove_line@,
            Tone::AddEmph => self.add_emph@,
            Tone::RemoveEmph => self.remove_emph@,
        }
    }

    /// The text of one tone.
    pub fn get(&self, t: Tone) -> (r: &String)
        ensures
            r@ == self@(t),
    {
        match t {
            Tone::Add => &self.add,
            Tone::Remove => &self.remove,
            Tone::Context => &self.context,
            Tone::Header => &self.header,
            Tone::LineNumber => &self.line_number,
            Tone::Primary => &self.primary,
            Tone::Secondary => &self.secondary,
            Tone::Foreground => &self.foreground,
            Tone::Background => &self.background,
            Tone::Muted => &self.muted,
            Tone::Surface => &self.surface,
            Tone::Cursor => &self.cursor,
            Tone::AddLine => &self.add_line,
            Tone::RemoveLine => &self.remove_line,
            Tone::AddEmph => &self.add_emph,
            Tone::RemoveEmph => &self.remove_emph,
        }
    }

    /// Set the text of one tone.
    pub fn set(&mut self, t: Tone, s: String)
        ensures
            final(self)@ =~= with_tone(old(self)@, t, s@),
    {
        match t {
            Tone::Add => self.add = s,
            Tone::Remove => self.remove = s,
            Tone::Context => self.context = s,
            Tone::Header => self.header = s,
            Tone::LineNumber => self.line_number = s,
            Tone::Primary => self.primary = s,
            Tone::Secondary => self.secondary = s,
            Tone::Foreground => self.foreground = s,
            Tone::Background => self.background = s,
            Tone::Muted => self.muted = s,
            Tone::Surface => self.surface = s,
            Tone::Cursor => self.cursor = s,
            Tone::AddLine => self.add_line = s,
            Tone::RemoveLine => self.remove_line = s,
            Tone::AddEmph => self.add_emph = s,
            Tone::RemoveEmph => self.remove_emph = s,
        }
        assert(self@ =~= with_tone(old(self)@, t, s@));
    }
}

impl Default for Colors {
    fn default() -> (r: Colors)
        ensures
            r@ =~= no_colors(),
    {
        let r = Colors {
            add: String::new(),
            remove: String::new(),
            context: String::new(),
            header: String::new(),
            line_number: String::new(),
            primary: String::new(),
            secondary: String::new(),
            foreground: String::new(),
            background: String::new(),
            muted: String::new(),
            surface: String::new(),
            cursor: String::new(),
            add_line: String::new(),
            remove_line: String::new(),
            add_emph: String::new(),
            remove_emph: String::new(),
        };
        assert(r@ =~= no_colors());
        r
    }
}

/// `s` with every dash made an underscore.
pub open spec fn underscored(s: Seq<char>) -> Seq<char> {
    s.map_values(
        |c: char|
            if c == '-' {
                '_'
            } else {
                c
            },
    )
}

/// The tone that a field name means.
pub open spec fn tone_field(s: Seq<char>) -> Option<Tone> {
    if s == "add"@ {
        Some(Tone::Add)
    } else if s == "remove"@ {
        Some(Tone::Remove)
    } else if s == "context"@ {
        Some(Tone::Context)
    } else if s == "header"@ {
        Some(Tone::Header)
    } else if s == "line_number"@ {
        Some(Tone::LineNumber)
    } else if s == "primary"@ {
        Some(Tone::Primary)
    } else if s == "secondary"@ {
        Some(Tone::Secondary)
    } else if s == "foreground"@ {
        Some(Tone::Foreground)
    } else if s == "background"@ {
        Some(Tone::Background)
    } else if s == "muted"@ {
        Some(Tone::Muted)
    } else if s == "surface"@ {
        Some(Tone::Surface)
    } else if s == "cursor"@ {
        Some(Tone::Cursor)
    } else if s == "add_line"@ {
        Some(Tone::AddLine)
    } else if s == "remove_line"@ {
        Some(Tone::RemoveLine)
    } else if s == "add_emph"@ {
        Some(Tone::AddEmph)
    } else if s == "remove_emph"@ {
        Some(Tone::RemoveEmph)
    } else {
        None
    }
}

/// The tone that a name means, whether its words are joined by underscores or
/// by dashes.
pub open spec fn tone_named(s: Seq<char>) -> Option<Tone> {
    tone_field(underscored(s))
}

/// The tone that a name means whose words are run together.
pub open spec fn tone_flat(s: Seq<char>) -> Option<Tone> {
    if s == "add"@ {
        Some(Tone::Add)
    } else if s == "remove"@ {
        Some(Tone::Remove)
    } else if s == "context"@ {
        Some(Tone::Context)
    } else if s == "header"@ {
        Some(Tone::Header)
    } else if s == "linenumber"@ {
        Some(Tone::LineNumber)
    } else if s == "primary"@ {
        Some(Tone::Primary)
    } else if s == "secondary"@ {
        Some(Tone::Secondary)
    } else if s == "foreground"@ {
        Some(Tone::Foreground)
    } else if s == "background"@ {
        Some(Tone::Background)
    } else if s == "muted"@ {
        Some(Tone::Muted)
    } else if s == "surface"@ {
        Some(Tone::Surface)
    } else if s == "cursor"@ {
        Some(Tone::Cursor)
    } else if s == "addline"@ {
        Some(Tone::AddLine)
    } else if s == "removeline"@ {
        Some(Tone::RemoveLine)
    } else if s == "addemph"@ {
        Some(Tone::AddEmph)
    } else if s == "removeemph"@ {
        Some(Tone::RemoveEmph)
    } else {
        None
    }
}

fn underscore(s: &str) -> (r: String)
    ensures
        r@ == underscored(s@),
{
    let v = text::to_chars(s);
    let mut out = String::new();
    for i in 0..v.len()
        invariant
            v@ == s@,
            out@ == underscored(v@.take(i as int)),
    {
        let c = v[i];
        let d: char = if c == '-' {
            '_'
        } else {
            c
        };
        assert(underscored(v@.take(i as int + 1)) =~= underscored(v@.take(i as int)).push(d));
        out.push(d);
    }
    assert(v@.take(v@.len() as int) =~= s@);
    out
}

fn field_tone(s: &str) -> (r: Option<Tone>)
    ensures
        r == tone_field(s@),
{
    if text::same(s, "add") {
        Some(Tone::Add)
    } else if text::same(s, "remove") {
        Some(Tone::Remove)
    } else if text::same(s, "context") {
        Some(Tone::Context)
    } else if text::same(s, "header") {
        Some(Tone::Header)
    } else if text::same(s, "line_number") {
        Some(Tone::LineNumber)
    } else if text::same(s, "primary") {
        Some(Tone::Primary)
    } else if text::same(s, "secondary") {
        Some(Tone::Secondary)
    } else if text::same(s, "foreground") {
        Some(Tone::Foreground)
    } else if text::same(s, "background") {
        Some(Tone::Background)
    } else if text::same(s, "muted") {
        Some(Tone::Muted)
    } else if text::same(s, "surface") {
        Some(Tone::Surface)
    } else if text::same(s, "cursor") {
        Some(Tone::Cursor)
    } else if text::same(s, "add_line") {
        Some(Tone::AddLine)
    } else if text::same(s, "remove_line") {
        Some(Tone::RemoveLine)
    } else if text::same(s, "add_emph") {
        Some(Tone::AddEmph)
    } else if text::same(s, "remove_emph") {
        Some(Tone::RemoveEmph)
    } else {
        None
    }
}

fn flat_tone(s: &str) -> (r: Option<Tone>)
    ensures
        r == tone_flat(s@),
{
    if text::same(s, "add") {
        Some(Tone::Add)
    } else if text::same(s, "remove") {
        Some(Tone::Remove)
    } else if text::same(s, "context") {
        Some(Tone::Context)
    } else if text::same(s, "header") {
        Some(Tone::Header)
    } else if text::same(s, "linenumber") {
        Some(Tone::LineNumber)
    } else if text::same(s, "primary") {
        Some(Tone::Primary)
    } else if text::same(s, "secondary") {
        Some(Tone::Secondary)
    } else if text::same(s, "foreground") {
        Some(Tone::Foreground)
    } else if text::same(s, "background") {
        Some(Tone::Background)
    } else if text::same(s, "muted") {
        Some(Tone::Muted)
    } else if text::same(s, "surface") {
        Some(Tone::Surface)
    } else if text::same(s, "cursor") {
        Some(Tone::Cursor)
    } else if text::same(s, "addline") {
        Some(Tone::AddLine)
    } else if text::same(s, "removeline") {
        Some(Tone::RemoveLine)
    } else if text::same(s, "addemph") {
        Some(Tone::AddEmph)
    } else if text::same(s, "removeemph") {
        Some(Tone::RemoveEmph)
    } else {
        None
    }
}

/// The tone that a name means.
pub fn tone_by_name(s: &str) -> (r: Option<Tone>)
    ensures
        r == tone_named(s@),
{
    let u = underscore(s);
    field_tone(u.as_str())
}

/// A built-in color palette: the named hues both the UI palette and the
/// syntax theme are derived from.
pub struct Builtin {
    pub bg: &'static str,
    pub fg: &'static str,
    pub red: &'static str,
    pub green: &'static str,
    pub yellow: &'static str,
    pub orange: &'static str,
    pub blue: &'static str,
    pub purple: &'static str,
    pub cyan: &'static str,
    pub grey: &'static str,
    pub surface: &'static str,
    pub cursor: &'static str,
    pub add_line: &'static str,
    pub remove_line: &'static str,
    pub add_emph: &'static str,
    pub remove_emph: &'static str,
}

/// The hues of the onedark (dark) or onelight (light) palette.
pub open spec fn builtin_hues(dark: bool) -> Builtin {
    if dark {
        Builtin {
            bg: "#282c34",
            fg: "#abb2bf",
            red: "#e06c75",
            green: "#98c379",
            yellow: "#e5c07b",
            orange: "#d19a66",
            blue: "#61afef",
            purple: "#c678dd",
            cyan: "#56b6c2",
            grey: "#5c6370",
            surface: "#3b4048",
            cursor: "#3e4451",
            add_line: "#2b3a2e",
            remove_line: "#3f2d30",
            add_emph: "#3d5943",
            remove_emph: "#6d3b40",
        }
    } else {
        Builtin {
            bg: "#fafafa",
            fg: "#383a42",
            red: "#e45649",
            green: "#50a14f",
            yellow: "#c18401",
            orange: "#986801",
            blue: "#4078f2",
            purple: "#a626a4",
            cyan: "#0184bc",
            grey: "#a0a1a7",
            surface: "#eaeaeb",
            cursor: "#cdd1d8",
            add_line: "#e6f3e6",
            remove_line: "#fbe9e8",
            add_emph: "#cdead0",
            remove_emph: "#f7d3d0",
        }
    }
}

/// The onedark (dark) or onelight (light) palette.
pub fn builtin(dark: bool) -> (r: Builtin)
    ensures
        r == builtin_hues(dark),
{
    if dark {
        Builtin {
            bg: "#282c34",
            fg: "#abb2bf",
            red: "#e06c75",
            green: "#98c379",
            yellow: "#e5c07b",
            orange: "#d19a66",
            blue: "#61afef",
            purple: "#c678dd",
            cyan: "#56b6c2",
            grey: "#5c6370",
            surface: "#3b4048",
            cursor: "#3e4451",
            add_line: "#2b3a2e",
            remove_line: "#3f2d30",
            add_emph: "#3d5943",
            remove_emph: "#6d3b40",
        }
    } else {
        Builtin {
            bg: "#fafafa",
            fg: "#383a42",
            red: "#e45649",
            green: "#50a14f",
            yellow: "#c18401",
            orange: "#986801",
            blue: "#4078f2",
            purple: "#a626a4",
            cyan: "#0184bc",
            grey: "#a0a1a7",
            surface: "#eaeaeb",
            cursor: "#cdd1d8",
            add_line: "#e6f3e6",
            remove_line: "#fbe9e8",
            add_emph: "#cdead0",
            remove_emph: "#f7d3d0",
        }
    }
}

/// The hues of the `ansi` palette: the terminal's own colors. Lines and words
/// keep the terminal's background.
pub open spec fn ansi_hues() -> Builtin {
    Builtin {
        bg: "default",
        fg: "default",
        red: "red",
        green: "green",
        yellow: "yellow",
        orange: "yellow",
        blue: "blue",
        purple: "magenta",
        cyan: "cyan",
        grey: "brightblack",
        surface: "brightblack",
        cursor: "brightblack",
        add_line: "default",
        remove_line: "default",
        add_emph: "default",
        remove_emph: "default",
    }
}

/// The `ansi` palette.
pub fn ansi() -> (r: Builtin)
    ensures
        r == ansi_hues(),
{
    Builtin {
        bg: "default",
        fg: "default",
        red: "red",
        green: "green",
        yellow: "yellow",
        orange: "yellow",
        blue: "blue",
        purple: "magenta",
        cyan: "cyan",
        grey: "brightblack",
        surface: "brightblack",
        cursor: "brightblack",
        add_line: "default",
        remove_line: "default",
        add_emph: "default",
        remove_emph: "default",
    }
}

/// The palette of a theme: a built-in one brings its own, any other takes
/// that of the terminal's background.
pub open spec fn palette_for(theme: Seq<char>, dark: bool) -> Builtin {
    match themes::theme_hues(theme) {
        Some(b) => b,
        None => builtin_hues(dark),
    }
}

/// The palette of a theme.
pub fn theme_palette(theme: &str, dark: bool) -> (r: Builtin)
    ensures
        r == palette_for(theme@, dark),
{
    match themes::find(theme) {
        Some(b) => b,
        None => builtin(dark),
    }
}

/// The hue that a tone takes from a built-in palette when it is unset.
pub open spec fn hue_of(b: Builtin, t: Tone) -> Seq<char> {
    match t {
        Tone::Add => b.green@,
        Tone::Remove => b.red@,
        Tone::Context => b.fg@,
        Tone::Header => b.blue@,
        Tone::LineNumber => b.grey@,
        Tone::Primary => b.purple@,
        Tone::Secondary => b.blue@,
        Tone::Foreground => b.fg@,
        Tone::Background => b.bg@,
        Tone::Muted => b.grey@,
        Tone::Surface => b.surface@,
        Tone::Cursor => b.cursor@,
        Tone::AddLine => b.add_line@,
        Tone::RemoveLine => b.remove_line@,
        Tone::AddEmph => b.add_emph@,
        Tone::RemoveEmph => b.remove_emph@,
    }
}

fn hue(b: &Builtin, t: Tone) -> (r: &'static str)
    ensures
        r@ == hue_of(*b, t),
{
    match t {
        Tone::Add => b.green,
        Tone::Remove => b.red,
        Tone::Context => b.fg,
        Tone::Header => b.blue,
        Tone::LineNumber => b.grey,
        Tone::Primary => b.purple,
        Tone::Secondary => b.blue,
        Tone::Foreground => b.fg,
        Tone::Background => b.bg,
        Tone::Muted => b.grey,
        Tone::Surface => b.surface,
        Tone::Cursor => b.cursor,
        Tone::AddLine => b.add_line,
        Tone::RemoveLine => b.remove_line,
        Tone::AddEmph => b.add_emph,
        Tone::RemoveEmph => b.remove_emph,
    }
}

/// Every tone.
pub open spec fn all_tones() -> Seq<Tone> {
    seq![
        Tone::Add,
        Tone::Remove,
        Tone::Context,
        Tone::Header,
        Tone::LineNumber,
        Tone::Primary,
        Tone::Secondary,
        Tone::Foreground,
        Tone::Background,
        Tone::Muted,
        Tone::Surface,
        Tone::Cursor,
        Tone::AddLine,
        Tone::RemoveLine,
        Tone::AddEmph,
        Tone::RemoveEmph,
    ]
}

proof fn lemma_tones_complete(u: Tone)
    ensures
        exists|j: int| 0 <= j < all_tones().len() && all_tones()[j] == u,
{
    let a = all_tones();
    match u {
        Tone::Add => {
            assert(a[0] == u);
        },
        Tone::Remove => {
            assert(a[1] == u);
        },
        Tone::Context => {
            assert(a[2] == u);
        },
        Tone::Header => {
            assert(a[3] == u);
        },
        Tone::LineNumber => {
            assert(a[4] == u);
        },
        Tone::Primary => {
            assert(a[5] == u);
        },
        Tone::Secondary => {
            assert(a[6] == u);
        },
        Tone::Foreground => {
            assert(a[7] == u);
        },
        Tone::Background => {
            assert(a[8] == u);
        },
        Tone::Muted => {
            assert(a[9] == u);
        },
        Tone::Surface => {
            assert(a[10] == u);
        },
        Tone::Cursor => {
            assert(a[11] == u);
        },
        Tone::AddLine => {
            assert(a[12] == u);
        },
        Tone::RemoveLine => {
            assert(a[13] == u);
        },
        Tone::AddEmph => {
            assert(a[14] == u);
        },
        Tone::RemoveEmph => {
            assert(a[15] == u);
        },
    }
}

fn tones() -> (r: Vec<Tone>)
    ensures
        r@ == all_tones(),
{
    vec![
        Tone::Add,
        Tone::Remove,
        Tone::Context,
        Tone::Header,
        Tone::LineNumber,
        Tone::Primary,
        Tone::Secondary,
        Tone::Foreground,
        Tone::Background,
        Tone::Muted,
        Tone::Surface,
        Tone::Cursor,
        Tone::AddLine,
        Tone::RemoveLine,
        Tone::AddEmph,
        Tone::RemoveEmph,
    ]
}

/// The settings of the viewer.
#[derive(Debug, Clone)]
pub struct Config {
    /// Theme name, e.g. "onedark" or "base16-ocean.dark".
    pub theme: String,
    /// Enable syntax highlighting of diff content.
    pub syntax: bool,
    /// Enable intra-line (word-level) change highlighting.
    pub intraline: bool,
    /// Show old/new line numbers in the gutter.
    pub line_numbers: bool,
    /// Spaces per tab when rendering.
    pub tab_width: usize,
    /// Editor command; falls back to $VISUAL, then $EDITOR, when empty.
    pub editor: String,
    /// When the file sidebar shows: "auto", "always" or "never".
    pub sidebar: String,
    /// Sidebar columns.
    pub sidebar_width: usize,
    /// The side of the sidebar: "left" or "right".
    pub sidebar_side: String,
    pub colors: Colors,
    /// Component styles, each a `fg bg attrs...` spec resolved against the
    /// color palette. Of two with one name the later counts.
    pub styles: Vec<(String, String)>,
}

/// What a configuration holds.
#[verifier::ext_equal]
pub struct Settings {
    pub theme: Seq<char>,
    pub syntax: bool,
    pub intraline: bool,
    pub line_numbers: bool,
    pub tab_width: usize,
    pub editor: Seq<char>,
    pub sidebar: Seq<char>,
    pub sidebar_width: usize,
    pub sidebar_side: Seq<char>,
    pub colors: spec_fn(Tone) -> Seq<char>,
    pub styles: Map<Seq<char>, Seq<char>>,
}

/// The style specs by component name.
pub open spec fn style_map(v: Seq<(String, String)>) -> Map<Seq<char>, Seq<char>>
    decreases v.len(),
{
    if v.len() == 0 {
        Map::empty()
    } else {
        style_map(v.drop_last()).insert(v.last().0@, v.last().1@)
    }
}

impl View for Config {
    type V = Settings;

    open spec fn view(&self) -> Settings {
        Settings {
            theme: self.theme@,
            syntax: self.syntax,
            intraline: self.intraline,
            line_numbers: self.line_numbers,
            tab_width: self.tab_width,
            editor: self.editor@,
            sidebar: self.sidebar@,
            sidebar_width: self.sidebar_width,
            sidebar_side: self.sidebar_side@,
            colors: self.colors@,
            styles: style_map(self.styles@),
        }
    }
}

/// The settings when nothing is configured.
pub open spec fn default_settings() -> Settings {
    Settings {
        theme: Seq::empty(),
        syntax: true,
        intraline: true,
        line_numbers: true,
        tab_width: 4,
        editor: Seq::empty(),
        sidebar: "auto"@,
        sidebar_width: 30,
        sidebar_side: "left"@,
        colors: no_colors(),
        styles: Map::empty(),
    }
}

impl Default for Config {
    fn default() -> (r: Config)
        ensures
            r@ =~= default_settings(),
    {
        Config {
            theme: String::new(),
            syntax: true,
            intraline: true,
            line_numbers: true,
            tab_width: 4,
            editor: String::new(),
            sidebar: "auto".to_owned(),
            sidebar_width: 30,
            sidebar_side: "left".to_owned(),
            colors: Colors::default(),
            styles: Vec::new(),
        }
    }
}

/// The truth value that a word means, if it means one.
pub open spec fn bool_word(s: Seq<char>) -> Option<bool> {
    if s == "true"@ || s == "yes"@ || s == "on"@ || s == "1"@ {
        Some(true)
    } else if s == "false"@ || s == "no"@ || s == "off"@ || s == "0"@ {
        Some(false)
    } else {
        None
    }
}

/// The truth value of a text in any case, else `default`.
pub open spec fn bool_of(v: Seq<char>, default: bool) -> bool {
    match bool_word(text::lowered(v)) {
        Some(b) => b,
        None => default,
    }
}

/// Read a truth value: `true`, `yes`, `on`, `1` or `false`, `no`, `off`, `0`.
pub fn parse_bool(v: &str, default: bool) -> (r: bool)
    ensures
        r == bool_of(v@, default),
{
    let l = text::lower(v);
    let s = l.as_str();
    if text::same(s, "true") || text::same(s, "yes") || text::same(s, "on") || text::same(s, "1") {
        true
    } else if text::same(s, "false") || text::same(s, "no") || text::same(s, "off") || text::same(
        s,
        "0",
    ) {
        false
    } else {
        default
    }
}

/// The number of a text, else `default`.
pub open spec fn size_of_text(v: Seq<char>, default: usize) -> usize {
    match text::parsed_uint(v, usize::MAX as nat) {
        Some(n) => n as usize,
        None => default,
    }
}

fn parse_size(v: &str, default: usize) -> (r: usize)
    ensures
        r == size_of_text(v@, default),
{
    match text::parse_uint(v, usize::MAX) {
        Some(n) => n,
        None => default,
    }
}

/// `s` with `p` taken off its start as often as it stands there.
pub open spec fn without_prefix(s: Seq<char>, p: Seq<char>) -> Seq<char>
    decreases s.len(),
{
    if p.len() > 0 && text::has_prefix(s, p) {
        without_prefix(s.skip(p.len() as int), p)
    } else {
        s
    }
}

fn strip_all(s: &str, p: &str) -> (r: String)
    requires
        p@.len() > 0,
    ensures
        r@ == without_prefix(s@, p@),
{
    let mut cur = s.to_owned();
    loop
        invariant
            p@.len() > 0,
            without_prefix(s@, p@) == without_prefix(cur@, p@),
        ensures
            cur@ == without_prefix(s@, p@),
        decreases cur@.len(),
    {
        match text::strip_prefix(cur.as_str(), p) {
            Some(rest) => {
                cur = rest;
            },
            None => {
                break;
            },
        }
    }
    cur
}

/// The component that a git config key styles: `styles.<name>`, or
/// `style<name>`.
pub open spec fn style_name(key: Seq<char>) -> Option<Seq<char>> {
    if text::has_prefix(key, "styles."@) {
        if key.len() > "styles."@.len() {
            Some(key.skip("styles."@.len() as int))
        } else {
            None
        }
    } else if text::has_prefix(key, "style"@) && key.len() > "style"@.len() {
        Some(key.skip("style"@.len() as int))
    } else {
        None
    }
}

/// The tone that a git config key colors: `colors.<name>`, or `color<name>`
/// with its words run together.
pub open spec fn color_key(key: Seq<char>) -> Option<Tone> {
    if text::has_prefix(key, "colors."@) {
        tone_named(key.skip("colors."@.len() as int))
    } else if text::has_prefix(key, "color"@) {
        tone_flat(key.skip("color"@.len() as int))
    } else {
        None
    }
}

/// The settings after one git config value. The key has lost its `diffv.` and
/// its capitals. A key that is not known changes nothing.
pub open spec fn with_value(c: Settings, key: Seq<char>, val: Seq<char>) -> Settings {
    if key == "theme"@ {
        Settings { theme: val, ..c }
    } else if key == "syntax"@ {
        Settings { syntax: bool_of(val, c.syntax), ..c }
    } else if key == "intraline"@ {
        Settings { intraline: bool_of(val, c.intraline), ..c }
    } else if key == "line-numbers"@ || key == "linenumbers"@ {
        Settings { line_numbers: bool_of(val, c.line_numbers), ..c }
    } else if key == "tab-width"@ || key == "tabwidth"@ {
        Settings { tab_width: size_of_text(val, c.tab_width), ..c }
    } else if key == "editor"@ {
        Settings { editor: val, ..c }
    } else if key == "sidebar"@ {
        Settings { sidebar: val, ..c }
    } else if key == "sidebar-width"@ {
        Settings { sidebar_width: size_of_text(val, c.sidebar_width), ..c }
    } else if key == "sidebar-side"@ {
        Settings { sidebar_side: val, ..c }
    } else if color_key(key) is Some {
        Settings { colors: with_tone(c.colors, color_key(key)->0, val), ..c }
    } else {
        match style_name(key) {
            Some(name) => Settings { styles: c.styles.insert(name, val), ..c },
            None => c,
        }
    }
}

/// The settings after one line of `git config --get-regexp`: a key, white
/// space and a value. A line without a value changes nothing.
pub open spec fn with_line(c: Settings, line: Seq<char>) -> Settings {
    let k = text::first_space(line);
    if k < line.len() {
        with_value(
            c,
            text::lowered(without_prefix(line.take(k), "diffv."@)),
            text::trimmed(line.skip(k + 1)),
        )
    } else {
        c
    }
}

/// The settings after some lines of `git config --get-regexp`, in order.
pub open spec fn with_lines(c: Settings, lines: Seq<Seq<char>>) -> Settings
    decreases lines.len(),
{
    if lines.len() == 0 {
        c
    } else {
        with_line(with_lines(c, lines.drop_last()), lines.last())
    }
}

/// The settings after the output of `git config --get-regexp`.
pub open spec fn with_gitconfig(c: Settings, out: Seq<char>) -> Settings {
    with_lines(c, text::line_texts(out))
}

/// The theme: the configured one, else the built-in one for the terminal's
/// background.
pub open spec fn theme_or_default(theme: Seq<char>, dark: bool) -> Seq<char> {
    if theme.len() == 0 {
        if dark {
            "onedark"@
        } else {
            "onelight"@
        }
    } else {
        theme
    }
}

/// The settings with an unset theme taken from the terminal's background, and
/// every unset color from the theme's palette.
pub open spec fn resolved(c: Settings, dark: bool) -> Settings {
    let theme = theme_or_default(c.theme, dark);
    Settings {
        theme,
        colors: |t: Tone|
            if (c.colors)(t).len() == 0 {
                hue_of(palette_for(theme, dark), t)
            } else {
                (c.colors)(t)
            },
        ..c
    }
}

/// What is configured wins over the theme: only an unset theme and unset
/// colors take the built-in values, and nothing else changes.
pub proof fn law_defaults_fill_only_unset(c: Settings, dark: bool, t: Tone)
    ensures
        (c.colors)(t).len() > 0 ==> (resolved(c, dark).colors)(t) == (c.colors)(t),
        (c.colors)(t).len() == 0 ==> (resolved(c, dark).colors)(t) == hue_of(
            palette_for(theme_or_default(c.theme, dark), dark),
            t,
        ),
        c.theme.len() > 0 ==> resolved(c, dark).theme == c.theme,
        resolved(c, dark) == (Settings {
            theme: resolved(c, dark).theme,
            colors: resolved(c, dark).colors,
            ..c
        }),
{
}

/// Whether a git config value can be read for its key: a truth value, a
/// number, or any text.
pub open spec fn readable(key: Seq<char>, val: Seq<char>) -> bool {
    if key == "syntax"@ || key == "intraline"@ || key == "line-numbers"@ || key
        == "linenumbers"@ {
        bool_word(text::lowered(val)) is Some
    } else if key == "tab-width"@ || key == "tabwidth"@ || key == "sidebar-width"@ {
        text::parsed_uint(val, usize::MAX as nat) is Some
    } else {
        true
    }
}

/// Of two values for one key the later one counts, as far as it can be read.
pub proof fn law_later_value_wins(c: Settings, key: Seq<char>, v: Seq<char>, w: Seq<char>)
    requires
        readable(key, w),
    ensures
        with_value(with_value(c, key, v), key, w) =~= with_value(c, key, w),
{
    match color_key(key) {
        Some(t) => {
            assert(with_tone(with_tone(c.colors, t, v), t, w) =~= with_tone(c.colors, t, w));
        },
        None => {},
    }
    match style_name(key) {
        Some(n) => {
            assert(c.styles.insert(n, v).insert(n, w) =~= c.styles.insert(n, w));
        },
        None => {},
    }
}

/// A value that cannot be read leaves its setting as it was.
pub proof fn law_unreadable_value_is_ignored(c: Settings, key: Seq<char>, v: Seq<char>)
    requires
        !readable(key, v),
    ensures
        with_value(c, key, v) =~= c,
{
    reveal_strlit("syntax");
    reveal_strlit("theme");
    reveal_strlit("intraline");
    reveal_strlit("line-numbers");
    reveal_strlit("linenumbers");
    reveal_strlit("tab-width");
    reveal_strlit("tabwidth");
    reveal_strlit("sidebar-width");
    reveal_strlit("editor");
    reveal_strlit("sidebar");
}

fn color_tone(key: &str) -> (r: Option<Tone>)
    ensures
        r == color_key(key@),
{
    match text::strip_prefix(key, "colors.") {
        Some(name) => tone_by_name(name.as_str()),
        None => match text::strip_prefix(key, "color") {
            Some(name) => flat_tone(name.as_str()),
            None => None,
        },
    }
}

fn style_component(key: &str) -> (r: Option<String>)
    ensures
        r is Some <==> style_name(key@) is Some,
        r is Some ==> Some(r->0@) == style_name(key@),
{
    let name = match text::strip_prefix(key, "styles.") {
        Some(name) => name,
        None => match text::strip_prefix(key, "style") {
            Some(name) => name,
            None => return None,
        },
    };
    if name.as_str().is_empty() {
        None
    } else {
        Some(name)
    }
}

impl Config {
    /// Load config: the defaults or what a config file gave, then the git
    /// config overrides, then the built-in palette for what is left unset.
    /// `gitconfig` is what `git config --get-regexp ^diffv\.` printed, if it
    /// succeeded.
    pub fn load(parsed: Option<Config>, gitconfig: Option<&str>, dark: bool) -> (r: Config)
        ensures
            r@ =~= resolved(
                match gitconfig {
                    Some(out) => with_gitconfig(
                        match parsed {
                            Some(c) => c@,
                            None => default_settings(),
                        },
                        out@,
                    ),
                    None => match parsed {
                        Some(c) => c@,
                        None => default_settings(),
                    },
                },
                dark,
            ),
    {
        let mut cfg = match parsed {
            Some(c) => c,
            None => Config::default(),
        };
        if let Some(out) = gitconfig {
            cfg.apply_gitconfig(out);
        }
        cfg.resolve_theme_defaults(dark);
        cfg
    }

    /// Fill any unset theme/color with the built-in onedark or onelight
    /// palette.
    pub fn resolve_theme_defaults(&mut self, dark: bool)
        ensures
            final(self)@ =~= resolved(old(self)@, dark),
    {
        if self.theme.as_str().is_empty() {
            self.theme = if dark {
                "onedark".to_owned()
            } else {
                "onelight".to_owned()
            };
        }
        let b = theme_palette(self.theme.as_str(), dark);
        let ghost start = self@.colors;
        let ghost end = resolved(old(self)@, dark).colors;
        let ghost rest = self@;
        let all = tones();
        for i in 0..all.len()
            invariant
                all@ == all_tones(),
                b == palette_for(rest.theme, dark),
                forall|u: Tone|
                    #![trigger end(u)]
                    end(u) == (if start(u).len() == 0 {
                        hue_of(b, u)
                    } else {
                        start(u)
                    }),
                forall|u: Tone|
                    #![trigger (self@.colors)(u)]
                    (self@.colors)(u) == (if exists|j: int| 0 <= j < i && all@[j] == u {
                        end(u)
                    } else {
                        start(u)
                    }),
                self@ =~= (Settings { colors: self@.colors, ..rest }),
        {
            let ghost prev = self@.colors;
            let t = all[i];
            self.fill(&b, t);
            assert forall|u: Tone| #![trigger (self@.colors)(u)] (self@.colors)(u) == (if exists|
                j: int,
            | 0 <= j < i + 1 && all@[j] == u {
                end(u)
            } else {
                start(u)
            }) by {
                let before = exists|j: int| 0 <= j < i && all@[j] == u;
                assert(prev(u) == (if before {
                    end(u)
                } else {
                    start(u)
                }));
                if u == t {
                    assert(all@[i as int] == u);
                    assert(end(u) == (if start(u).len() == 0 {
                        hue_of(b, u)
                    } else {
                        start(u)
                    }));
                } else {
                    assert((self@.colors)(u) == prev(u));
                }
            }
        }
        proof {
            assert forall|u: Tone| #[trigger] (self@.colors)(u) == end(u) by {
                lemma_tones_complete(u);
            }
        }
        assert(self.colors@ =~= resolved(old(self)@, dark).colors);
    }

    fn fill(&mut self, b: &Builtin, t: Tone)
        ensures
            final(self)@ =~= (Settings {
                colors: with_tone(
                    old(self)@.colors,
                    t,
                    if (old(self)@.colors)(t).len() == 0 {
                        hue_of(*b, t)
                    } else {
                        (old(self)@.colors)(t)
                    },
                ),
                ..old(self)@
            }),
    {
        if self.colors.get(t).as_str().is_empty() {
            self.colors.set(t, hue(b, t).to_owned());
        }
    }

    /// Overlay the values that `git config --get-regexp` printed.
    pub fn apply_gitconfig(&mut self, out: &str)
        ensures
            final(self)@ =~= with_gitconfig(old(self)@, out@),
    {
        let lines = text::lines(out);
        let ghost t = text::texts(lines@);
        let ghost start = self@;
        for i in 0..lines.len()
            invariant
                t == text::texts(lines@),
                self@ == with_lines(start, t.take(i as int)),
        {
            assert(t.take(i as int + 1).drop_last() =~= t.take(i as int));
            assert(t[i as int] == lines@[i as int]@);
            self.apply_line(lines[i].as_str());
        }
        assert(t.take(t.len() as int) =~= t);
    }

    fn apply_line(&mut self, line: &str)
        ensures
            final(self)@ =~= with_line(old(self)@, line@),
    {
        if let Some((k, v)) = text::split_once_space(line) {
            proof {
                reveal_strlit("diffv.");
            }
            let bare = strip_all(k.as_str(), "diffv.");
            let key = text::lower(bare.as_str());
            let val = text::trim(v.as_str());
            self.apply_value(key.as_str(), val);
        }
    }

    /// Set one value by its git config key.
    pub fn apply_value(&mut self, key: &str, val: String)
        ensures
            final(self)@ =~= with_value(old(self)@, key@, val@),
    {
        if text::same(key, "theme") {
            self.theme = val;
        } else if text::same(key, "syntax") {
            self.syntax = parse_bool(val.as_str(), self.syntax);
        } else if text::same(key, "intraline") {
            self.intraline = parse_bool(val.as_str(), self.intraline);
        } else if text::same(key, "line-numbers") || text::same(key, "linenumbers") {
            self.line_numbers = parse_bool(val.as_str(), self.line_numbers);
        } else if text::same(key, "tab-width") || text::same(key, "tabwidth") {
            self.tab_width = parse_size(val.as_str(), self.tab_width);
        } else if text::same(key, "editor") {
            self.editor = val;
        } else if text::same(key, "sidebar") {
            self.sidebar = val;
        } else if text::same(key, "sidebar-width") {
            self.sidebar_width = parse_size(val.as_str(), self.sidebar_width);
        } else if text::same(key, "sidebar-side") {
            self.sidebar_side = val;
        } else if let Some(t) = color_tone(key) {
            self.colors.set(t, val);
        } else if let Some(name) = style_component(key) {
            let ghost before = self.styles@;
            self.styles.push((name, val));
            assert(self.styles@.drop_last() =~= before);
        }
    }

    /// Resolve the editor command: config, then $VISUAL, $EDITOR, then vi.
    pub fn editor_cmd(&self, visual: Option<&str>, editor: Option<&str>) -> (r: String)
        ensures
            r@ == editor_of(self@, visual, editor),
    {
        if !self.editor.as_str().is_empty() {
            return self.editor.clone();
        }
        match visual {
            Some(v) => v.to_owned(),
            None => match editor {
                Some(e) => e.to_owned(),
                None => "vi".to_owned(),
            },
        }
    }

    /// The style spec of a component, else `default`.
    pub fn style_spec(&self, name: &str, default: &'static str) -> (r: &str)
        ensures
            r@ == (if self@.styles.contains_key(name@) {
                self@.styles[name@]
            } else {
                default@
            }),
    {
        let mut k = self.styles.len();
        let ghost all = self.styles@;
        assert(all.take(k as int) =~= all);
        while k > 0
            invariant
                k <= self.styles@.len(),
                all == self.styles@,
                style_map(all).contains_key(name@) == style_map(all.take(k as int)).contains_key(
                    name@,
                ),
                style_map(all).contains_key(name@) ==> style_map(all)[name@] == style_map(
                    all.take(k as int),
                )[name@],
            decreases k,
        {
            assert(all.take(k as int).drop_last() =~= all.take(k as int - 1));
            if text::same(self.styles[k - 1].0.as_str(), name) {
                return self.styles[k - 1].1.as_str();
            }
            k = k - 1;
        }
        default
    }

    /// Whether code is highlighted: the `ansi` theme leaves code text alone.
    pub fn syntax_enabled(&self) -> (r: bool)
        ensures
            r == (self@.syntax && self@.theme != "ansi"@),
    {
        self.syntax && !text::same(self.theme.as_str(), "ansi")
    }

    /// Whether changed words are emphasized: the `ansi` theme leaves them
    /// alone.
    pub fn intraline_enabled(&self) -> (r: bool)
        ensures
            r == (self@.intraline && self@.theme != "ansi"@),
    {
        self.intraline && !text::same(self.theme.as_str(), "ansi")
    }
}

/// The editor command: the configured one, else `visual`, else `editor`, else
/// `vi`.
pub open spec fn editor_of(c: Settings, visual: Option<&str>, editor: Option<&str>) -> Seq<char> {
    if c.editor.len() > 0 {
        c.editor
    } else if visual is Some {
        visual->0@
    } else if editor is Some {
        editor->0@
    } else {
        "vi"@
    }
}

/// Whether the dark palette is preferred under a `COLORFGBG` hint: the
/// background index is its last field.
pub open spec fn dark_hint(hint: Option<Seq<char>>) -> bool {
    match hint {
        Some(v) => match text::parsed_uint(
            text::trimmed(text::split_at(v, ';').last()),
            255,
        ) {
            Some(n) => n <= 6 || n == 8,
            None => true,
        },
        None => true,
    }
}

/// Whether to prefer the dark palette. Uses the `COLORFGBG` hint; dark when
/// unknown.
pub fn prefer_dark(hint: Option<&str>) -> (r: bool)
    ensures
        r == dark_hint(
            match hint {
                Some(v) => Some(v@),
                None => None,
            },
        ),
{
    match hint {
        Some(v) => {
            let p = text::split_on(v, ';');
            proof {
                text::lemma_split_some(v@, text::is_char(';'));
                assert(text::texts(p@).len() == p@.len());
                assert(text::texts(p@).last() == p@.last()@);
            }
            let bg = text::trim(p[p.len() - 1].as_str());
            match text::parse_uint(bg.as_str(), 255) {
                Some(n) => n <= 6 || n == 8,
                None => true,
            }
        },
        None => true,
    }
}

/// The config files of one directory, in order.
pub open spec fn files_in(dir: Seq<char>) -> Seq<Seq<char>> {
    seq![
        paths::joined_path(dir, "config.toml"@),
        paths::joined_path(dir, "config.yaml"@),
        paths::joined_path(dir, "config.yml"@),
        paths::joined_path(dir, "config.json"@),
    ]
}

/// Where a config file is looked for, in order: the XDG directory, the
/// `.config` directory, then the home directory.
pub open spec fn candidates(xdg: Option<Seq<char>>, home: Option<Seq<char>>) -> Seq<Seq<char>> {
    let a = match xdg {
        Some(x) => files_in(paths::joined_path(x, "diffv"@)),
        None => Seq::empty(),
    };
    match home {
        Some(h) => (a + files_in(paths::joined_path(h, ".config/diffv"@))).push(
            paths::joined_path(h, ".diffv.toml"@),
        ),
        None => a,
    }
}

fn add_files(out: &mut Vec<String>, dir: &str)
    ensures
        text::texts(final(out)@) == text::texts(old(out)@) + files_in(dir@),
{
    text::add_text(out, paths::join_path(dir, "config.toml").as_str());
    text::add_text(out, paths::join_path(dir, "config.yaml").as_str());
    text::add_text(out, paths::join_path(dir, "config.yml").as_str());
    text::add_text(out, paths::join_path(dir, "config.json").as_str());
    assert(text::texts(out@) =~= text::texts(old(out)@) + files_in(dir@));
}

/// The paths at which a config file is looked for, in order, given
/// `$XDG_CONFIG_HOME` and `$HOME`.
pub fn config_candidates(xdg: Option<&str>, home: Option<&str>) -> (r: Vec<String>)
    ensures
        text::texts(r@) == candidates(
            match xdg {
                Some(x) => Some(x@),
                None => None,
            },
            match home {
                Some(h) => Some(h@),
                None => None,
            },
        ),
{
    let mut out: Vec<String> = Vec::new();
    assert(text::texts(out@) =~= Seq::empty());
    if let Some(x) = xdg {
        add_files(&mut out, paths::join_path(x, "diffv").as_str());
        assert(text::texts(out@) =~= files_in(paths::joined_path(x@, "diffv"@)));
    }
    if let Some(h) = home {
        add_files(&mut out, paths::join_path(h, ".config/diffv").as_str());
        text::add_text(&mut out, paths::join_path(h, ".diffv.toml").as_str());
    }
    out
}

/// The first candidate that is a file, given which of them are.
pub fn find_config_file(candidates: &Vec<String>, is_file: &Vec<bool>) -> (r: Option<usize>)
    requires
        candidates@.len() == is_file@.len(),
    ensures
        match r {
            Some(i) => i < candidates@.len() && is_file@[i as int] && forall|j: int|
                0 <= j < i ==> !is_file@[j],
            None => forall|j: int| 0 <= j < is_file@.len() ==> !is_file@[j],
        },
{
    for i in 0..is_file.len()
        invariant
            candidates@.len() == is_file@.len(),
            forall|j: int| 0 <= j < i ==> !is_file@[j],
    {
        if is_file[i] {
            return Some(i);
        }
    }
    None
}

/// The language of a config file.
#[derive(Debug, Clone, Copy, PartialEq, Eq, Structural)]
pub enum Format {
    Toml,
    Yaml,
    Json,
}

/// The language of the config file at a path, by its extension.
pub open spec fn format_of(path: Seq<char>) -> Format {
    let ext = paths::extension_of(path);
    if ext == Some("json"@) {
        Format::Json
    } else if ext == Some("yaml"@) || ext == Some("yml"@) {
        Format::Yaml
    } else {
        Format::Toml
    }
}

/// The language of a config file: JSON and YAML by extension, else TOML.
pub fn file_format(path: &str) -> (r: Format)
    ensures
        r == format_of(path@),
{
    match paths::extension(path) {
        Some(e) => {
            if text::same(e.as_str(), "json") {
                Format::Json
            } else if text::same(e.as_str(), "yaml") || text::same(e.as_str(), "yml") {
                Format::Yaml
            } else {
                Format::Toml
            }
        },
        None => Format::Toml,
    }
}

} // verus!
