//! Syntax highlighting of diff content lines.
use crate::config;
use crate::palette;
use crate::palette::Color;
use crate::paths;
use crate::text;
use crate::themes;
use syntect::highlighting::{
    Color as Ink, FontStyle, StyleModifier, Theme, ThemeItem, ThemeSet, ThemeSettings,
};
use vstd::prelude::*;

verus! {

#[verifier::external_type_specification]
#[verifier::external_body]
pub struct ExSyntaxSet(syntect::parsing::SyntaxSet);

#[verifier::external_type_specification]
#[verifier::external_body]
pub struct ExSyntaxReference(syntect::parsing::SyntaxReference);

#[verifier::external_type_specification]
#[verifier::external_body]
pub struct ExTheme(syntect::highlighting::Theme);

#[verifier::external_type_specification]
#[verifier::external_body]
pub struct ExHighlightLines<'a>(syntect::easy::HighlightLines<'a>);

/// A color by its bytes.
#[derive(Debug, Clone, Copy, PartialEq, Eq, Structural)]
pub struct Rgb {
    pub r: u8,
    pub g: u8,
    pub b: u8,
}

/// How the text of a scope is drawn.
#[derive(Debug, Clone)]
pub struct ScopeRule {
    /// The scopes, separated by commas.
    pub scope: String,
    pub color: Rgb,
    pub italic: bool,
}

/// A syntax theme by its colors and rules.
#[derive(Debug, Clone)]
pub struct BuiltTheme {
    pub name: String,
    pub background: Rgb,
    pub foreground: Rgb,
    pub rules: Vec<ScopeRule>,
}

/// A syntax theme: one that the highlighter ships, or one that is built from
/// colors and rules.
#[verifier::ext_equal]
pub enum ThemeModel {
    Shipped { name: Seq<char> },
    Built { name: Seq<char>, background: Rgb, foreground: Rgb, rules: Seq<(Seq<char>, Rgb, bool)> },
}

/// The scopes, colors and slants of some rules.
pub open spec fn rule_views(v: Seq<ScopeRule>) -> Seq<(Seq<char>, Rgb, bool)> {
    v.map_values(|r: ScopeRule| (r.scope@, r.color, r.italic))
}

impl View for BuiltTheme {
    type V = ThemeModel;

    open spec fn view(&self) -> ThemeModel {
        ThemeModel::Built {
            name: self.name@,
            background: self.background,
            foreground: self.foreground,
            rules: rule_views(self.rules@),
        }
    }
}

/// `s` without the number signs at its start.
pub open spec fn without_hashes(s: Seq<char>) -> Seq<char>
    decreases s.len(),
{
    if s.len() > 0 && s.first() == '#' {
        without_hashes(s.drop_first())
    } else {
        s
    }
}

/// The byte that the characters at `i` and `i + 1` write in hexadecimal, else
/// 0.
pub open spec fn hex_at(s: Seq<char>, i: int) -> u8 {
    if i + 1 < s.len() {
        match palette::hex_byte(s[i], s[i + 1]) {
            Some(b) => b,
            None => 0,
        }
    } else {
        0
    }
}

/// The color that `#rrggbb` writes.
pub open spec fn rgb_of(s: Seq<char>) -> Rgb {
    let h = without_hashes(s);
    Rgb { r: hex_at(h, 0), g: hex_at(h, 2), b: hex_at(h, 4) }
}

fn byte_at(v: &Vec<char>, i: usize) -> (r: u8)
    requires
        i < usize::MAX,
    ensures
        r == hex_at(v@, i as int),
{
    if i < v.len() && i + 1 < v.len() {
        match palette::parse_hex_byte(v[i], v[i + 1]) {
            Some(b) => b,
            None => 0,
        }
    } else {
        0
    }
}

/// Parse `#rrggbb`.
pub fn hexc(h: &str) -> (r: Rgb)
    ensures
        r == rgb_of(h@),
{
    let v = text::to_chars(h);
    let mut k: usize = 0;
    assert(v@.skip(0) =~= v@);
    while k < v.len() && v[k] == '#'
        invariant
            k <= v@.len(),
            without_hashes(v@) == without_hashes(v@.skip(k as int)),
        decreases v@.len() - k,
    {
        assert(v@.skip(k as int).drop_first() =~= v@.skip(k as int + 1));
        k = k + 1;
    }
    let s = text::slice_chars(&v, k, v.len());
    let d = text::to_chars(s.as_str());
    assert(d@ =~= v@.skip(k as int));
    Rgb { r: byte_at(&d, 0), g: byte_at(&d, 2), b: byte_at(&d, 4) }
}

/// The rules of the syntax theme of a palette: the common scopes in its hues.
pub open spec fn builtin_rules(b: config::Builtin) -> Seq<(Seq<char>, Rgb, bool)> {
    seq![
        ("comment"@, rgb_of(b.grey@), true),
        ("string"@, rgb_of(b.green@), false),
        ("constant.numeric"@, rgb_of(b.orange@), false),
        ("constant.language, constant.character, constant.other"@, rgb_of(b.orange@), false),
        ("support.constant"@, rgb_of(b.cyan@), false),
        ("keyword, storage, keyword.control"@, rgb_of(b.purple@), false),
        ("keyword.operator"@, rgb_of(b.cyan@), false),
        ("entity.name.function, support.function, meta.function-call"@, rgb_of(b.blue@), false),
        (
            "entity.name.type, entity.name.class, support.type, support.class, storage.type"@,
            rgb_of(b.yellow@),
            false,
        ),
        ("variable.parameter"@, rgb_of(b.red@), false),
        ("entity.name.tag"@, rgb_of(b.red@), false),
        ("entity.other.attribute-name"@, rgb_of(b.orange@), false),
    ]
}

/// The syntax theme of a palette.
pub open spec fn palette_model(name: Seq<char>, b: config::Builtin) -> ThemeModel {
    ThemeModel::Built {
        name,
        background: rgb_of(b.bg@),
        foreground: rgb_of(b.fg@),
        rules: builtin_rules(b),
    }
}

/// The onedark or onelight syntax theme.
pub open spec fn builtin_model(dark: bool) -> ThemeModel {
    palette_model(
        if dark {
            "onedark"@
        } else {
            "onelight"@
        },
        config::builtin_hues(dark),
    )
}

/// The syntax theme of the `ansi` palette: all code in one plain color.
pub open spec fn ansi_model() -> ThemeModel {
    ThemeModel::Built {
        name: "ansi"@,
        background: rgb_of("#000000"@),
        foreground: rgb_of("#c0c0c0"@),
        rules: seq![],
    }
}

fn rule(v: &mut Vec<ScopeRule>, scope: &'static str, hex: &str, italic: bool)
    ensures
        rule_views(final(v)@) == rule_views(old(v)@).push((scope@, rgb_of(hex@), italic)),
{
    let color = hexc(hex);
    v.push(ScopeRule { scope: scope.to_owned(), color, italic });
    assert(rule_views(v@) =~= rule_views(old(v)@).push((scope@, rgb_of(hex@), italic)));
}

/// Build the syntax theme of a palette, mapping the common scopes to its hues
/// so highlighting matches the UI colors.
fn palette_theme(name: &str, b: config::Builtin) -> (r: BuiltTheme)
    ensures
        r@ == palette_model(name@, b),
{
    let mut v: Vec<ScopeRule> = Vec::new();
    rule(&mut v, "comment", b.grey, true);
    rule(&mut v, "string", b.green, false);
    rule(&mut v, "constant.numeric", b.orange, false);
    rule(&mut v, "constant.language, constant.character, constant.other", b.orange, false);
    rule(&mut v, "support.constant", b.cyan, false);
    rule(&mut v, "keyword, storage, keyword.control", b.purple, false);
    rule(&mut v, "keyword.operator", b.cyan, false);
    rule(&mut v, "entity.name.function, support.function, meta.function-call", b.blue, false);
    rule(
        &mut v,
        "entity.name.type, entity.name.class, support.type, support.class, storage.type",
        b.yellow,
        false,
    );
    rule(&mut v, "variable.parameter", b.red, false);
    rule(&mut v, "entity.name.tag", b.red, false);
    rule(&mut v, "entity.other.attribute-name", b.orange, false);
    assert(rule_views(v@) =~= builtin_rules(b));
    BuiltTheme {
        name: name.to_owned(),
        background: hexc(b.bg),
        foreground: hexc(b.fg),
        rules: v,
    }
}

/// Build the onedark or onelight syntax theme.
pub fn builtin_theme(dark: bool) -> (r: BuiltTheme)
    ensures
        r@ == builtin_model(dark),
{
    if dark {
        palette_theme("onedark", config::builtin(true))
    } else {
        palette_theme("onelight", config::builtin(false))
    }
}

/// Build the syntax theme of a built-in name.
pub fn theme_by_name(name: &str) -> (r: Option<BuiltTheme>)
    ensures
        match r {
            Some(t) => built_model(name@) == Some(t@),
            None => built_model(name@) is None,
        },
{
    if text::same(name, "ansi") {
        let v: Vec<ScopeRule> = Vec::new();
        assert(rule_views(v@) =~= seq![]);
        return Some(
            BuiltTheme {
                name: name.to_owned(),
                background: hexc("#000000"),
                foreground: hexc("#c0c0c0"),
                rules: v,
            },
        );
    }
    match themes::find(name) {
        Some(b) => Some(palette_theme(name, b)),
        None => None,
    }
}

/// The syntax definitions that the highlighter ships.
struct Syntaxes {
    set: syntect::parsing::SyntaxSet,
}

/// The file extensions that the syntaxes of a set list.
pub uninterp spec fn extensions_in(set: syntect::parsing::SyntaxSet) -> Set<Seq<char>>;

/// The names of the syntaxes of a set.
pub uninterp spec fn names_in(set: syntect::parsing::SyntaxSet) -> Set<Seq<char>>;

/// Whether the shipped syntaxes list a token among their file extensions, in
/// any ASCII case.
pub uninterp spec fn known_extension(token: Seq<char>) -> bool;

/// Whether some file extensions hold a token, in any ASCII case.
pub open spec fn lists(extensions: Set<Seq<char>>, token: Seq<char>) -> bool {
    exists|e: Seq<char>| #[trigger]
        extensions.contains(e) && text::lowered(e) == text::lowered(token)
}

/// `SyntaxSet::load_defaults_newlines` loads the shipped syntax definitions.
/// Believed of it: the set is always the same, so that whether it lists a
/// token is a function of the token, and it has a syntax of plain text.
pub assume_specification[ syntect::parsing::SyntaxSet::load_defaults_newlines ]() -> (r:
    syntect::parsing::SyntaxSet)
    ensures
        forall|t: Seq<char>| #[trigger] lists(extensions_in(r), t) <==> known_extension(t),
        names_in(r).contains("Plain Text"@),
;

/// A shipped syntax, with the file extension that found it; plain text is
/// found by none.
struct Syntax<'a> {
    syntax: &'a syntect::parsing::SyntaxReference,
    token: Ghost<Option<Seq<char>>>,
}

impl Syntaxes {
    /// The set lists what the shipped syntaxes list, and has a syntax of plain
    /// text.
    #[verifier::type_invariant]
    spec fn shipped(self) -> bool {
        &&& forall|t: Seq<char>| #[trigger] lists(extensions_in(self.set), t) <==> known_extension(t)
        &&& names_in(self.set).contains("Plain Text"@)
    }

    /// Load the shipped definitions, the only ones that a `Syntaxes` holds.
    fn load() -> (r: Syntaxes)
        ensures
            forall|t: Seq<char>| #[trigger] lists(extensions_in(r.set), t) <==> known_extension(t),
            names_in(r.set).contains("Plain Text"@),
    {
        Syntaxes { set: syntect::parsing::SyntaxSet::load_defaults_newlines() }
    }

    /// The syntax that lists `token` among its file extensions.
    ///
    /// Calls `SyntaxSet::find_syntax_by_extension`. Believed of it: it finds a
    /// syntax exactly where one lists the token, in any ASCII case; which one
    /// is a function of the set and the token.
    #[verifier::external_body]
    fn by_extension(&self, token: &str) -> (r: Option<Syntax<'_>>)
        ensures
            r is Some <==> lists(extensions_in(self.set), token@),
            r is Some ==> r->0.token@ == Some(token@),
    {
        let syntax = self.set.find_syntax_by_extension(token)?;
        Some(Syntax { syntax, token: Ghost(Some(token@)) })
    }

    /// The syntax of plain text.
    ///
    /// Calls `SyntaxSet::find_syntax_plain_text`, which finds the syntax of
    /// that name and panics on a set without it.
    #[verifier::external_body]
    fn plain_text(&self) -> (r: Syntax<'_>)
        requires
            names_in(self.set).contains("Plain Text"@),
        ensures
            r.token@ is None,
    {
        Syntax { syntax: self.set.find_syntax_plain_text(), token: Ghost(None) }
    }
}

/// A syntax theme as the highlighter takes it, with its model.
struct SyntaxTheme {
    theme: syntect::highlighting::Theme,
    model: Ghost<ThemeModel>,
}

impl View for SyntaxTheme {
    type V = ThemeModel;

    closed spec fn view(&self) -> ThemeModel {
        self.model@
    }
}

/// The themes that the highlighter ships.
pub open spec fn is_shipped(name: Seq<char>) -> bool {
    ||| name == "base16-ocean.dark"@
    ||| name == "base16-eighties.dark"@
    ||| name == "base16-mocha.dark"@
    ||| name == "base16-ocean.light"@
    ||| name == "InspiredGitHub"@
    ||| name == "Solarized (dark)"@
    ||| name == "Solarized (light)"@
}

/// The shipped theme of a name.
///
/// Calls `ThemeSet::load_defaults` and looks the name up. Believed of it: it
/// holds the themes that its documentation lists, and no other.
#[verifier::external_body]
fn shipped_theme(name: &str) -> (r: Option<SyntaxTheme>)
    ensures
        r is Some <==> is_shipped(name@),
        r is Some ==> r->0@ == (ThemeModel::Shipped { name: name@ }),
{
    let theme = ThemeSet::load_defaults().themes.get(name).cloned()?;
    Some(SyntaxTheme { theme, model: Ghost(ThemeModel::Shipped { name: name@ }) })
}

/// A theme made of colors and rules.
///
/// Fills in a `syntect::highlighting::Theme`. Believed of it: it holds these
/// values, with default settings beside them. A scope that does not parse
/// matches nothing.
#[verifier::external_body]
fn made_theme(t: &BuiltTheme) -> (r: SyntaxTheme)
    ensures
        r@ == t@,
{
    let ink = |c: Rgb| Some(Ink { r: c.r, g: c.g, b: c.b, a: 255 });
    let item = |r: &ScopeRule| ThemeItem {
        scope: r.scope.parse().unwrap_or_default(),
        style: StyleModifier {
            foreground: ink(r.color),
            background: None,
            font_style: r.italic.then_some(FontStyle::ITALIC),
        },
    };
    let (background, foreground) = (ink(t.background), ink(t.foreground));
    let settings = ThemeSettings { background, foreground, ..ThemeSettings::default() };
    let (name, scopes) = (Some(t.name.clone()), t.rules.iter().map(item).collect());
    let theme = Theme { name, author: None, settings, scopes };
    SyntaxTheme { theme, model: Ghost(t@) }
}

/// The syntax theme of a built-in name: it wears the colors of the palette of
/// that name.
pub open spec fn built_model(name: Seq<char>) -> Option<ThemeModel> {
    if name == "ansi"@ {
        Some(ansi_model())
    } else {
        match themes::theme_hues(name) {
            Some(b) => Some(palette_model(name, b)),
            None => None,
        }
    }
}

/// The theme that a name chooses: a built-in one, one that the highlighter
/// ships, else the built-in dark one.
pub open spec fn theme_named(name: Seq<char>) -> ThemeModel {
    match built_model(name) {
        Some(t) => t,
        None => if is_shipped(name) {
            ThemeModel::Shipped { name }
        } else {
            builtin_model(true)
        },
    }
}

/// A built-in name gives the theme of that name, and none but `onedark` gives
/// the theme that an unknown name falls back to.
pub proof fn law_builtin_names_are_kept(name: Seq<char>)
    requires
        themes::theme_hues(name) is Some,
    ensures
        theme_named(name) is Built,
        theme_named(name)->Built_name == name,
        theme_named(name) == builtin_model(true) <==> name == "onedark"@,
{
    reveal_strlit("onedark");
    reveal_strlit("ansi");
    assert("onedark"@.len() != "ansi"@.len());
    let m = theme_named(name);
    if name != "ansi"@ {
        assert(m == palette_model(name, themes::theme_hues(name)->0));
    }
    if m == builtin_model(true) {
        assert(m->Built_name == "onedark"@);
    }
}

/// The file extension by which the syntax of a file is found: that of its
/// path, or its whole name, if a syntax lists it. `None` is plain text.
pub open spec fn syntax_token(path: Seq<char>) -> Option<Seq<char>> {
    let ext = match paths::extension_of(path) {
        Some(e) => e,
        None => Seq::empty(),
    };
    if known_extension(ext) {
        Some(ext)
    } else {
        match paths::file_name_of(path) {
            Some(n) => if known_extension(n) {
                Some(n)
            } else {
                None
            },
            None => None,
        }
    }
}

/// How far a file has been highlighted: its theme, the extension that finds
/// its syntax, and the lines fed so far.
#[verifier::ext_equal]
pub struct Progress {
    pub theme: ThemeModel,
    pub token: Option<Seq<char>>,
    pub fed: Seq<Seq<char>>,
}

/// The colored pieces of a line, as `HighlightLines::highlight_line` gives them
/// for a theme, the syntax that a file extension finds (`None` is plain text)
/// and the lines fed before. `None` where it fails.
pub uninterp spec fn highlighted(
    theme: ThemeModel,
    token: Option<Seq<char>>,
    fed: Seq<Seq<char>>,
    line: Seq<char>,
) -> Option<Seq<((u8, u8, u8), Seq<char>)>>;

/// The bytes and texts of colored pieces.
pub open spec fn piece_views(v: Seq<((u8, u8, u8), String)>) -> Seq<((u8, u8, u8), Seq<char>)> {
    v.map_values(|p: ((u8, u8, u8), String)| (p.0, p.1@))
}

/// The text of colored pieces, one behind the other.
pub open spec fn run_text(v: Seq<((u8, u8, u8), Seq<char>)>) -> Seq<char>
    decreases v.len(),
{
    if v.len() == 0 {
        Seq::empty()
    } else {
        run_text(v.drop_last()) + v.last().1
    }
}

/// The running state of one file's highlighting, with its model.
struct Lines<'a> {
    lines: syntect::easy::HighlightLines<'a>,
    progress: Ghost<Progress>,
}

impl<'a> Lines<'a> {
    /// Start at the first line of a file.
    ///
    /// Calls `HighlightLines::new`. Believed of it: it starts with this syntax
    /// and this theme, and no line has been fed.
    #[verifier::external_body]
    fn start(syntax: Syntax<'_>, theme: &'a SyntaxTheme) -> (r: Lines<'a>)
        ensures
            r.progress@ == (Progress {
                theme: theme@,
                token: syntax.token@,
                fed: Seq::empty(),
            }),
    {
        let lines = syntect::easy::HighlightLines::new(syntax.syntax, &theme.theme);
        let token = syntax.token;
        Lines { lines, progress: Ghost(Progress { theme: theme@, token: token@, fed: Seq::empty() }) }
    }

    /// Highlight the next line.
    ///
    /// Calls `HighlightLines::highlight_line`. Believed of it: the pieces are a
    /// function of the theme, the syntax, the lines fed before and the line,
    /// and the line counts as fed, also where the call fails. That the pieces
    /// make up the line is not claimed, since they stop early where a scope
    /// operation fails: `colored` tests it.
    #[verifier::external_body]
    fn next(&mut self, syntaxes: &Syntaxes, line: &str) -> (r: Option<Vec<((u8, u8, u8), String)>>)
        ensures
            match r {
                Some(v) => highlighted(
                    old(self).progress@.theme,
                    old(self).progress@.token,
                    old(self).progress@.fed,
                    line@,
                ) == Some(piece_views(v@)),
                None => highlighted(
                    old(self).progress@.theme,
                    old(self).progress@.token,
                    old(self).progress@.fed,
                    line@,
                ) is None,
            },
            final(self).progress@ == (Progress {
                fed: old(self).progress@.fed.push(line@),
                ..old(self).progress@
            }),
    {
        let ranges = self.lines.highlight_line(line, &syntaxes.set).ok()?;
        let bytes = |c: Ink| (c.r, c.g, c.b);
        Some(ranges.into_iter().map(|(s, t)| (bytes(s.foreground), t.to_string())).collect())
    }
}

/// Colors the lines of files.
pub struct Highlighter {
    syntaxes: Syntaxes,
    theme: SyntaxTheme,
    enabled: bool,
}

impl Highlighter {
    /// The theme in use.
    pub closed spec fn theme(&self) -> ThemeModel {
        self.theme@
    }

    /// Whether lines are colored at all.
    pub closed spec fn enabled(&self) -> bool {
        self.enabled
    }

    /// A highlighter with the theme of a name.
    pub fn new(theme_name: &str, enabled: bool) -> (r: Highlighter)
        ensures
            r.theme() == theme_named(theme_name@),
            r.enabled() == enabled,
    {
        let theme = match theme_by_name(theme_name) {
            Some(t) => made_theme(&t),
            None => match shipped_theme(theme_name) {
                Some(t) => t,
                None => made_theme(&builtin_theme(true)),
            },
        };
        Highlighter { syntaxes: Syntaxes::load(), theme, enabled }
    }

    /// The state at the start of a file.
    pub open spec fn begin(&self, path: Seq<char>) -> Option<Progress> {
        if self.enabled() {
            Some(
                Progress {
                    theme: self.theme(),
                    token: syntax_token(path),
                    fed: Seq::empty(),
                },
            )
        } else {
            None
        }
    }

    /// Start a per-file highlighter keyed off the file path's extension.
    /// Lines must be fed in file order so multi-line constructs track state.
    pub fn file<'a>(&'a self, path: &str) -> (r: FileHighlighter<'a>)
        ensures
            r@ == self.begin(path@),
    {
        let inner = if self.enabled {
            Some(Lines::start(syntax_for(&self.syntaxes, path), &self.theme))
        } else {
            None
        };
        FileHighlighter { inner, syntaxes: &self.syntaxes }
    }
}

/// The syntax of a file.
fn syntax_for<'a>(ss: &'a Syntaxes, path: &str) -> (r: Syntax<'a>)
    ensures
        r.token@ == syntax_token(path@),
{
    proof {
        use_type_invariant(ss);
    }
    let ext = match paths::extension(path) {
        Some(e) => e,
        None => String::new(),
    };
    assert(paths::extension_of(path@) is None ==> ext@ =~= Seq::<char>::empty());
    match ss.by_extension(ext.as_str()) {
        Some(s) => s,
        None => match paths::file_name(path) {
            Some(n) => match ss.by_extension(n.as_str()) {
                Some(s) => s,
                None => ss.plain_text(),
            },
            None => ss.plain_text(),
        },
    }
}

/// A piece of a line, and its color.
pub type Piece = (Option<Color>, String);

/// A piece of a line, and its color.
pub type PieceV = (Option<Color>, Seq<char>);

/// The colors and texts of pieces.
pub open spec fn line_views(v: Seq<Piece>) -> Seq<PieceV> {
    v.map_values(|p: Piece| (p.0, p.1@))
}

/// The color of bytes.
pub open spec fn conv_of(c: (u8, u8, u8)) -> Color {
    Color::Rgb(c.0, c.1, c.2)
}

/// The text of pieces, one behind the other.
pub open spec fn pieces_text(v: Seq<PieceV>) -> Seq<char>
    decreases v.len(),
{
    if v.len() == 0 {
        Seq::empty()
    } else {
        pieces_text(v.drop_last()) + v.last().1
    }
}

/// The pieces of a line with their colors. Without pieces, or with pieces that
/// do not make up the line, one uncolored piece covers the line.
pub open spec fn colored_pieces(
    pieces: Option<Seq<((u8, u8, u8), Seq<char>)>>,
    line: Seq<char>,
) -> Seq<PieceV> {
    let plain = seq![(None, line)];
    match pieces {
        Some(v) => if run_text(v) == line {
            v.map_values(|t: ((u8, u8, u8), Seq<char>)| (Some(conv_of(t.0)), t.1))
        } else {
            plain
        },
        None => plain,
    }
}

/// The pieces of the line after `at`: colored where highlighting is on and
/// succeeds, else one uncolored piece that covers the line.
pub open spec fn line_pieces(at: Option<Progress>, line: Seq<char>) -> Seq<PieceV> {
    colored_pieces(
        match at {
            Some(p) => highlighted(p.theme, p.token, p.fed, line),
            None => None,
        },
        line,
    )
}

proof fn lemma_colors_keep_text(v: Seq<((u8, u8, u8), Seq<char>)>)
    ensures
        pieces_text(v.map_values(|t: ((u8, u8, u8), Seq<char>)| (Some(conv_of(t.0)), t.1)))
            == run_text(v),
    decreases v.len(),
{
    let m = v.map_values(|t: ((u8, u8, u8), Seq<char>)| (Some(conv_of(t.0)), t.1));
    if v.len() > 0 {
        lemma_colors_keep_text(v.drop_last());
        assert(m.drop_last() =~= v.drop_last().map_values(
            |t: ((u8, u8, u8), Seq<char>)| (Some(conv_of(t.0)), t.1),
        ));
    }
}

/// The pieces of a line make up the line, whatever highlighting gave for it.
/// They are all colored, or there is one uncolored piece.
pub proof fn law_pieces_make_up_the_line(
    pieces: Option<Seq<((u8, u8, u8), Seq<char>)>>,
    line: Seq<char>,
)
    ensures
        pieces_text(colored_pieces(pieces, line)) == line,
        colored_pieces(pieces, line) == seq![(None::<Color>, line)] || forall|i: int|
            0 <= i < colored_pieces(pieces, line).len() ==> (#[trigger] colored_pieces(
                pieces,
                line,
            )[i]).0 is Some,
{
    match pieces {
        Some(v) => lemma_colors_keep_text(v),
        None => {},
    }
    let plain = seq![(None::<Color>, line)];
    assert(plain.drop_last() =~= Seq::empty());
    assert(pieces_text(plain) =~= line) by {
        assert(pieces_text(plain.drop_last()) =~= Seq::<char>::empty());
    }
}

/// The state after one more line.
pub open spec fn after_line(at: Option<Progress>, line: Seq<char>) -> Option<Progress> {
    match at {
        Some(p) => Some(Progress { fed: p.fed.push(line), ..p }),
        None => None,
    }
}

/// Colors the lines of one file, in file order.
pub struct FileHighlighter<'a> {
    inner: Option<Lines<'a>>,
    syntaxes: &'a Syntaxes,
}

impl<'a> View for FileHighlighter<'a> {
    type V = Option<Progress>;

    closed spec fn view(&self) -> Option<Progress> {
        match self.inner {
            Some(l) => Some(l.progress@),
            None => None,
        }
    }
}

/// The contents of pieces that may be missing.
pub open spec fn given_pieces(v: Option<Vec<((u8, u8, u8), String)>>) -> Option<
    Seq<((u8, u8, u8), Seq<char>)>,
> {
    match v {
        Some(v) => Some(piece_views(v@)),
        None => None,
    }
}

/// Whether pieces make up a line.
fn make_up(v: &Vec<((u8, u8, u8), String)>, line: &str) -> (r: bool)
    ensures
        r == (run_text(piece_views(v@)) == line@),
{
    let ghost pv = piece_views(v@);
    let mut s = String::new();
    for i in 0..v.len()
        invariant
            pv == piece_views(v@),
            s@ == run_text(pv.take(i as int)),
    {
        assert(pv.take(i as int + 1).drop_last() =~= pv.take(i as int));
        assert(pv[i as int].1 == v@[i as int].1@);
        s.push_str(v[i].1.as_str());
    }
    assert(pv.take(pv.len() as int) =~= pv);
    text::same(s.as_str(), line)
}

/// Color the pieces of a line. Without pieces, or with pieces that do not make
/// up the line, one uncolored piece covers the line.
pub fn colored(pieces: Option<Vec<((u8, u8, u8), String)>>, line: &str) -> (r: Vec<Piece>)
    ensures
        line_views(r@) == colored_pieces(given_pieces(pieces), line@),
        pieces_text(line_views(r@)) == line@,
{
    proof {
        law_pieces_make_up_the_line(given_pieces(pieces), line@);
    }
    let mut out: Vec<Piece> = Vec::new();
    if let Some(v) = pieces {
        if make_up(&v, line) {
            for i in 0..v.len()
                invariant
                    out@.len() == i,
                    forall|j: int|
                        0 <= j < i ==> (#[trigger] out@[j]).0 == Some(conv_of(v@[j].0)) && out@[j].1@
                            == v@[j].1@,
            {
                let c = v[i].0;
                out.push((Some(Color::Rgb(c.0, c.1, c.2)), v[i].1.clone()));
            }
            assert(line_views(out@) =~= colored_pieces(given_pieces(pieces), line@));
            return out;
        }
    }
    out.push((None, line.to_owned()));
    assert(line_views(out@) =~= seq![(None::<Color>, line@)]);
    out
}

impl<'a> FileHighlighter<'a> {
    /// Highlight one line, returning colored pieces. When highlighting is off
    /// or fails, returns a single uncolored piece covering the whole line.
    pub fn line(&mut self, text: &str) -> (r: Vec<Piece>)
        ensures
            line_views(r@) == line_pieces(old(self)@, text@),
            pieces_text(line_views(r@)) == text@,
            final(self)@ == after_line(old(self)@, text@),
    {
        let pieces = match &mut self.inner {
            Some(h) => h.next(self.syntaxes, text),
            None => None,
        };
        colored(pieces, text)
    }
}

/// A color of a theme is read from its three bytes.
pub proof fn law_theme_colors_read_back(r: u8, g: u8, b: u8)
    ensures
        rgb_of(palette::hex_text(r, g, b)) == (Rgb { r, g, b }),
{
    let s = palette::hex_text(r, g, b);
    let h = s.drop_first();
    palette::lemma_hex_digit(r / 16);
    palette::lemma_hex_digit(r % 16);
    palette::lemma_hex_digit(g / 16);
    palette::lemma_hex_digit(g % 16);
    palette::lemma_hex_digit(b / 16);
    palette::lemma_hex_digit(b % 16);
    assert(palette::hex_digit('#') is None);
    assert(h[0] != '#');
    reveal_with_fuel(without_hashes, 2);
    assert(without_hashes(s) == h);
}

/// Code wears the hues of its theme: comments are grey and slanted, strings
/// green, numbers orange, keywords purple, functions blue and types yellow.
pub proof fn law_code_wears_the_hues(b: config::Builtin)
    ensures
        builtin_rules(b).contains(("comment"@, rgb_of(b.grey@), true)),
        builtin_rules(b).contains(("string"@, rgb_of(b.green@), false)),
        builtin_rules(b).contains(("constant.numeric"@, rgb_of(b.orange@), false)),
        builtin_rules(b).contains(
            ("keyword, storage, keyword.control"@, rgb_of(b.purple@), false),
        ),
        builtin_rules(b).contains(
            (
                "entity.name.function, support.function, meta.function-call"@,
                rgb_of(b.blue@),
                false,
            ),
        ),
        builtin_rules(b).contains(
            (
                "entity.name.type, entity.name.class, support.type, support.class, storage.type"@,
                rgb_of(b.yellow@),
                false,
            ),
        ),
{
    let v = builtin_rules(b);
    assert(v[0] == ("comment"@, rgb_of(b.grey@), true));
    assert(v[1] == ("string"@, rgb_of(b.green@), false));
    assert(v[2] == ("constant.numeric"@, rgb_of(b.orange@), false));
    assert(v[5] == ("keyword, storage, keyword.control"@, rgb_of(b.purple@), false));
    assert(v[7] == (
        "entity.name.function, support.function, meta.function-call"@,
        rgb_of(b.blue@),
        false,
    ));
    assert(v[8] == (
        "entity.name.type, entity.name.class, support.type, support.class, storage.type"@,
        rgb_of(b.yellow@),
        false,
    ));
}

/// A theme that the highlighter ships goes by its name; an unknown name falls
/// back to the built-in dark theme.
pub proof fn law_other_names(name: Seq<char>)
    requires
        themes::theme_hues(name) is None,
        name != "ansi"@,
    ensures
        is_shipped(name) ==> theme_named(name) == (ThemeModel::Shipped { name }),
        !is_shipped(name) ==> theme_named(name) == builtin_model(true),
{
}

/// The syntax of a file goes by the extension of its path if a syntax lists
/// it, else by its whole name if one lists that, else it is plain text.
pub proof fn law_syntax_of_a_file(path: Seq<char>, name: Seq<char>, ext: Seq<char>)
    requires
        paths::file_name_of(path) == Some(name),
        paths::extension_of(path) == Some(ext),
    ensures
        known_extension(ext) ==> syntax_token(path) == Some(ext),
        !known_extension(ext) && known_extension(name) ==> syntax_token(path) == Some(name),
        !known_extension(ext) && !known_extension(name) ==> syntax_token(path) is None,
{
}

} // verus!
