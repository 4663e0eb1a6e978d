//! Keys and what they do.
use vstd::prelude::*;

verus! {

/// A key press: the key's name, such as `ctrl+c`, and the text it produced.
#[derive(Debug, Clone)]
pub struct Key {
    pub name: String,
    pub text: Option<String>,
}

/// The contents of a key press.
#[verifier::ext_equal]
pub struct KeyV {
    pub name: Seq<char>,
    pub text: Option<Seq<char>>,
}

impl View for Key {
    type V = KeyV;

    open spec fn view(&self) -> KeyV {
        KeyV {
            name: self.name@,
            text: match self.text {
                Some(t) => Some(t@),
                None => None,
            },
        }
    }
}

/// Whether a key with a name and a text answers to a pattern, as
/// `uncurses::event::Key::matches` decides it.
pub uninterp spec fn key_is(name: Seq<char>, text: Option<Seq<char>>, pattern: Seq<char>) -> bool;

impl Key {
    /// Whether the key answers to a pattern.
    ///
    /// Calls `uncurses::event::Key::matches` on the key that the name spells,
    /// with the text; a name that spells no key leaves the text alone to
    /// match. Believed of it: the answer is a function of name, text and
    /// pattern, and a key whose text is the pattern answers to it.
    #[verifier::external_body]
    fn matches(&self, pattern: &str) -> (r: bool)
        ensures
            r == key_is(self@.name, self@.text, pattern@),
            self@.text == Some(pattern@) ==> r,
    {
        let none = uncurses::event::KeyModifiers::empty();
        let parsed = self.name.parse::<uncurses::event::Key>();
        let no_key = |_| uncurses::event::Key::new(uncurses::event::KeyCode::F(0), none);
        let mut key = parsed.unwrap_or_else(no_key);
        key.text = self.text.clone();
        key.matches(pattern)
    }
}

/// What a key does in the diff view or in the file list.
#[derive(Debug, Clone, Copy, PartialEq, Eq, Structural)]
pub enum Action {
    /// Leave the program.
    Quit,
    /// Close the selection, or else the file list.
    Escape,
    /// Copy the selection, or the cursor line.
    Copy,
    /// Copy the whole current file.
    CopyFile,
    /// Move the cursor one line down.
    Down,
    /// Move the cursor one line up.
    Up,
    /// Scroll to the left.
    Left,
    /// Scroll to the right.
    Right,
    /// Scroll to the line start.
    LineStart,
    /// Scroll to the line end.
    LineEnd,
    /// Half a page down.
    HalfDown,
    /// Half a page up.
    HalfUp,
    /// A full page down.
    PageDown,
    /// A full page up.
    PageUp,
    /// Scroll one line down.
    ScrollDown,
    /// Scroll one line up.
    ScrollUp,
    /// To the first row.
    Top,
    /// To the last row.
    Bottom,
    /// Cursor to the first row on the screen.
    ScreenTop,
    /// Cursor to the middle row on the screen.
    ScreenMiddle,
    /// Cursor to the last row on the screen.
    ScreenBottom,
    /// To the next hunk.
    NextHunk,
    /// To the previous hunk.
    PrevHunk,
    /// To the next file.
    NextFile,
    /// To the previous file.
    PrevFile,
    /// To the first file.
    FirstFile,
    /// To the last file.
    LastFile,
    /// Start to type a search pattern.
    Search,
    /// To the next match.
    NextMatch,
    /// To the previous match.
    PrevMatch,
    /// Toggle the split view.
    Split,
    /// Show the file list.
    Files,
    /// Close the file list.
    CloseFiles,
    /// Close the file list and show the selected file from its start.
    OpenFile,
    /// Toggle the sidebar.
    Sidebar,
    /// Toggle watch mode.
    Watch,
    /// Toggle the help footer.
    Help,
    /// Open the current file in the editor.
    Edit,
    /// Expand folded context on a hunk header, else open the file.
    Enter,
    /// Run the diff again.
    Refresh,
}

/// A list of key patterns and what they do.
pub type Bindings = Seq<(Seq<char>, Action)>;

/// The patterns and actions of a list.
pub open spec fn binding_views(v: Seq<(&'static str, Action)>) -> Bindings {
    v.map_values(|b: (&'static str, Action)| (b.0@, b.1))
}

/// What a key does: what the first pattern that it answers to stands for.
pub open spec fn bound(b: Bindings, k: KeyV) -> Option<Action>
    decreases b.len(),
{
    if b.len() == 0 {
        None
    } else if key_is(k.name, k.text, b.first().0) {
        Some(b.first().1)
    } else {
        bound(b.drop_first(), k)
    }
}

/// The keys of the diff view.
pub open spec fn diff_bindings() -> Bindings {
    seq![
        ("escape"@, Action::Escape),
        ("q"@, Action::Quit),
        ("ctrl+c"@, Action::Quit),
        ("y"@, Action::Copy),
        ("Y"@, Action::CopyFile),
        ("j"@, Action::Down),
        ("down"@, Action::Down),
        ("k"@, Action::Up),
        ("up"@, Action::Up),
        ("h"@, Action::Left),
        ("left"@, Action::Left),
        ("l"@, Action::Right),
        ("right"@, Action::Right),
        ("0"@, Action::LineStart),
        ("$"@, Action::LineEnd),
        ("d"@, Action::HalfDown),
        ("ctrl+d"@, Action::HalfDown),
        ("pagedown"@, Action::HalfDown),
        ("u"@, Action::HalfUp),
        ("ctrl+u"@, Action::HalfUp),
        ("pageup"@, Action::HalfUp),
        ("space"@, Action::PageDown),
        ("f"@, Action::PageDown),
        ("ctrl+f"@, Action::PageDown),
        ("b"@, Action::PageUp),
        ("ctrl+b"@, Action::PageUp),
        ("ctrl+e"@, Action::ScrollDown),
        ("ctrl+y"@, Action::ScrollUp),
        ("g"@, Action::Top),
        ("home"@, Action::Top),
        ("G"@, Action::Bottom),
        ("end"@, Action::Bottom),
        ("H"@, Action::ScreenTop),
        ("M"@, Action::ScreenMiddle),
        ("L"@, Action::ScreenBottom),
        ("}"@, Action::NextHunk),
        (")"@, Action::NextHunk),
        ("{"@, Action::PrevHunk),
        ("("@, Action::PrevHunk),
        ("tab"@, Action::NextFile),
        ("]"@, Action::NextFile),
        ("p"@, Action::PrevFile),
        ("shift+tab"@, Action::PrevFile),
        ("["@, Action::PrevFile),
        ("/"@, Action::Search),
        ("n"@, Action::NextMatch),
        ("N"@, Action::PrevMatch),
        ("s"@, Action::Split),
        ("F"@, Action::Files),
        ("B"@, Action::Sidebar),
        ("w"@, Action::Watch),
        ("?"@, Action::Help),
        ("v"@, Action::Edit),
        ("e"@, Action::Edit),
        ("enter"@, Action::Enter),
        ("r"@, Action::Refresh),
    ]
}

/// The keys of the file list.
pub open spec fn stat_bindings() -> Bindings {
    seq![
        ("escape"@, Action::Escape),
        ("q"@, Action::Quit),
        ("ctrl+c"@, Action::Quit),
        ("j"@, Action::NextFile),
        ("down"@, Action::NextFile),
        ("right"@, Action::NextFile),
        ("k"@, Action::PrevFile),
        ("up"@, Action::PrevFile),
        ("left"@, Action::PrevFile),
        ("g"@, Action::FirstFile),
        ("home"@, Action::FirstFile),
        ("G"@, Action::LastFile),
        ("end"@, Action::LastFile),
        ("F"@, Action::CloseFiles),
        ("f"@, Action::CloseFiles),
        ("tab"@, Action::CloseFiles),
        ("?"@, Action::Help),
        ("enter"@, Action::OpenFile),
        ("e"@, Action::OpenFile),
        ("r"@, Action::Refresh),
        ("Y"@, Action::CopyFile),
    ]
}

fn bind(v: &mut Vec<(&'static str, Action)>, pattern: &'static str, action: Action)
    ensures
        binding_views(final(v)@) == binding_views(old(v)@).push((pattern@, action)),
{
    v.push((pattern, action));
    assert(binding_views(v@) =~= binding_views(old(v)@).push((pattern@, action)));
}

fn no_keys() -> (r: Vec<(&'static str, Action)>)
    ensures
        binding_views(r@) == Bindings::empty(),
{
    let v: Vec<(&'static str, Action)> = Vec::new();
    assert(binding_views(v@) =~= Bindings::empty());
    v
}

/// The keys of the diff view.
#[verifier::rlimit(60)]
pub fn diff_keys() -> (r: Vec<(&'static str, Action)>)
    ensures
        binding_views(r@) == diff_bindings(),
{
    let mut v = no_keys();
    bind(&mut v, "escape", Action::Escape);
    bind(&mut v, "q", Action::Quit);
    bind(&mut v, "ctrl+c", Action::Quit);
    bind(&mut v, "y", Action::Copy);
    bind(&mut v, "Y", Action::CopyFile);
    bind(&mut v, "j", Action::Down);
    bind(&mut v, "down", Action::Down);
    bind(&mut v, "k", Action::Up);
    bind(&mut v, "up", Action::Up);
    bind(&mut v, "h", Action::Left);
    bind(&mut v, "left", Action::Left);
    bind(&mut v, "l", Action::Right);
    bind(&mut v, "right", Action::Right);
    bind(&mut v, "0", Action::LineStart);
    bind(&mut v, "$", Action::LineEnd);
    bind(&mut v, "d", Action::HalfDown);
    bind(&mut v, "ctrl+d", Action::HalfDown);
    bind(&mut v, "pagedown", Action::HalfDown);
    bind(&mut v, "u", Action::HalfUp);
    bind(&mut v, "ctrl+u", Action::HalfUp);
    bind(&mut v, "pageup", Action::HalfUp);
    bind(&mut v, "space", Action::PageDown);
    bind(&mut v, "f", Action::PageDown);
    bind(&mut v, "ctrl+f", Action::PageDown);
    bind(&mut v, "b", Action::PageUp);
    bind(&mut v, "ctrl+b", Action::PageUp);
    bind(&mut v, "ctrl+e", Action::ScrollDown);
    bind(&mut v, "ctrl+y", Action::ScrollUp);
    bind(&mut v, "g", Action::Top);
    bind(&mut v, "home", Action::Top);
    bind(&mut v, "G", Action::Bottom);
    bind(&mut v, "end", Action::Bottom);
    bind(&mut v, "H", Action::ScreenTop);
    bind(&mut v, "M", Action::ScreenMiddle);
    bind(&mut v, "L", Action::ScreenBottom);
    bind(&mut v, "}", Action::NextHunk);
    bind(&mut v, ")", Action::NextHunk);
    bind(&mut v, "{", Action::PrevHunk);
    bind(&mut v, "(", Action::PrevHunk);
    bind(&mut v, "tab", Action::NextFile);
    bind(&mut v, "]", Action::NextFile);
    bind(&mut v, "p", Action::PrevFile);
    bind(&mut v, "shift+tab", Action::PrevFile);
    bind(&mut v, "[", Action::PrevFile);
    bind(&mut v, "/", Action::Search);
    bind(&mut v, "n", Action::NextMatch);
    bind(&mut v, "N", Action::PrevMatch);
    bind(&mut v, "s", Action::Split);
    bind(&mut v, "F", Action::Files);
    bind(&mut v, "B", Action::Sidebar);
    bind(&mut v, "w", Action::Watch);
    bind(&mut v, "?", Action::Help);
    bind(&mut v, "v", Action::Edit);
    bind(&mut v, "e", Action::Edit);
    bind(&mut v, "enter", Action::Enter);
    bind(&mut v, "r", Action::Refresh);
    v
}

/// The keys of the file list.
pub fn stat_keys() -> (r: Vec<(&'static str, Action)>)
    ensures
        binding_views(r@) == stat_bindings(),
{
    let mut v = no_keys();
    bind(&mut v, "escape", Action::Escape);
    bind(&mut v, "q", Action::Quit);
    bind(&mut v, "ctrl+c", Action::Quit);
    bind(&mut v, "j", Action::NextFile);
    bind(&mut v, "down", Action::NextFile);
    bind(&mut v, "right", Action::NextFile);
    bind(&mut v, "k", Action::PrevFile);
    bind(&mut v, "up", Action::PrevFile);
    bind(&mut v, "left", Action::PrevFile);
    bind(&mut v, "g", Action::FirstFile);
    bind(&mut v, "home", Action::FirstFile);
    bind(&mut v, "G", Action::LastFile);
    bind(&mut v, "end", Action::LastFile);
    bind(&mut v, "F", Action::CloseFiles);
    bind(&mut v, "f", Action::CloseFiles);
    bind(&mut v, "tab", Action::CloseFiles);
    bind(&mut v, "?", Action::Help);
    bind(&mut v, "enter", Action::OpenFile);
    bind(&mut v, "e", Action::OpenFile);
    bind(&mut v, "r", Action::Refresh);
    bind(&mut v, "Y", Action::CopyFile);
    v
}

/// What a key does. A key that types a pattern of the table does something: what
/// that pattern stands for, unless it answers to one before it.
pub fn find_action(table: &Vec<(&'static str, Action)>, k: &Key) -> (r: Option<Action>)
    ensures
        r == bound(binding_views(table@), k@),
        forall|i: int|
            0 <= i < table@.len() && k@.text == Some((#[trigger] table@[i]).0@) ==> r is Some && (r
                == Some(table@[i].1) || exists|j: int|
                0 <= j < i && key_is(k@.name, k@.text, (#[trigger] table@[j]).0@)),
{
    let ghost b = binding_views(table@);
    assert(b.skip(0) =~= b);
    for i in 0..table.len()
        invariant
            b == binding_views(table@),
            bound(b, k@) == bound(b.skip(i as int), k@),
            forall|j: int| 0 <= j < i ==> k@.text != Some((#[trigger] table@[j]).0@),
    {
        assert(b.skip(i as int).first() == (table@[i as int].0@, table@[i as int].1));
        assert(b.skip(i as int).drop_first() =~= b.skip(i as int + 1));
        if k.matches(table[i].0) {
            return Some(table[i].1);
        }
    }
    None
}

/// What a key does while a search pattern is typed.
#[derive(Debug, Clone, Copy, PartialEq, Eq, Structural)]
pub enum Typing {
    /// Stop, and search nothing.
    Cancel,
    /// Search.
    Commit,
    /// Take the last character back.
    Erase,
    /// Add the key's text.
    Insert,
}

/// What a key does while a search pattern is typed.
pub open spec fn typing_of(k: KeyV) -> Typing {
    if key_is(k.name, k.text, "escape"@) || key_is(k.name, k.text, "ctrl+c"@) {
        Typing::Cancel
    } else if key_is(k.name, k.text, "enter"@) {
        Typing::Commit
    } else if key_is(k.name, k.text, "backspace"@) {
        Typing::Erase
    } else {
        Typing::Insert
    }
}

/// What a key does while a search pattern is typed.
pub fn typing(k: &Key) -> (r: Typing)
    ensures
        r == typing_of(k@),
{
    if k.matches("escape") || k.matches("ctrl+c") {
        Typing::Cancel
    } else if k.matches("enter") {
        Typing::Commit
    } else if k.matches("backspace") {
        Typing::Erase
    } else {
        Typing::Insert
    }
}

} // verus!
