//! The palettes of the built-in themes.
use crate::config;
use crate::config::Builtin;
use crate::text;
use vstd::prelude::*;

verus! {

/// The hues of the dracula palette.
pub open spec fn dracula_hues() -> Builtin {
    Builtin {
        bg: "#282a36",
        fg: "#f8f8f2",
        red: "#ff5555",
        green: "#50fa7b",
        yellow: "#f1fa8c",
        orange: "#ffb86c",
        blue: "#bd93f9",
        purple: "#ff79c6",
        cyan: "#8be9fd",
        grey: "#6272a4",
        surface: "#343746",
        cursor: "#44475a",
        add_line: "#2d433e",
        remove_line: "#46303a",
        add_emph: "#34684b",
        remove_emph: "#713941",
    }
}

fn dracula() -> (r: Builtin)
    ensures
        r == dracula_hues(),
{
    Builtin {
        bg: "#282a36",
        fg: "#f8f8f2",
        red: "#ff5555",
        green: "#50fa7b",
        yellow: "#f1fa8c",
        orange: "#ffb86c",
        blue: "#bd93f9",
        purple: "#ff79c6",
        cyan: "#8be9fd",
        grey: "#6272a4",
        surface: "#343746",
        cursor: "#44475a",
        add_line: "#2d433e",
        remove_line: "#46303a",
        add_emph: "#34684b",
        remove_emph: "#713941",
    }
}

/// The hues of the gruvbox-dark palette.
pub open spec fn gruvbox_dark_hues() -> Builtin {
    Builtin {
        bg: "#282828",
        fg: "#ebdbb2",
        red: "#fb4934",
        green: "#b8bb26",
        yellow: "#fabd2f",
        orange: "#fe8019",
        blue: "#83a598",
        purple: "#d3869b",
        cyan: "#8ec07c",
        grey: "#928374",
        surface: "#3c3836",
        cursor: "#504945",
        add_line: "#393a28",
        remove_line: "#462d2a",
        add_emph: "#535427",
        remove_emph: "#70332c",
    }
}

fn gruvbox_dark() -> (r: Builtin)
    ensures
        r == gruvbox_dark_hues(),
{
    Builtin {
        bg: "#282828",
        fg: "#ebdbb2",
        red: "#fb4934",
        green: "#b8bb26",
        yellow: "#fabd2f",
        orange: "#fe8019",
        blue: "#83a598",
        purple: "#d3869b",
        cyan: "#8ec07c",
        grey: "#928374",
        surface: "#3c3836",
        cursor: "#504945",
        add_line: "#393a28",
        remove_line: "#462d2a",
        add_emph: "#535427",
        remove_emph: "#70332c",
    }
}

/// The hues of the gruvbox-light palette.
pub open spec fn gruvbox_light_hues() -> Builtin {
    Builtin {
        bg: "#fbf1c7",
        fg: "#3c3836",
        red: "#9d0006",
        green: "#79740e",
        yellow: "#b57614",
        orange: "#af3a03",
        blue: "#076678",
        purple: "#8f3f71",
        cyan: "#427b58",
        grey: "#928374",
        surface: "#ebdbb2",
        cursor: "#d5c4a1",
        add_line: "#ebe2b1",
        remove_line: "#eecfac",
        add_emph: "#d4cc90",
        remove_emph: "#db9f85",
    }
}

fn gruvbox_light() -> (r: Builtin)
    ensures
        r == gruvbox_light_hues(),
{
    Builtin {
        bg: "#fbf1c7",
        fg: "#3c3836",
        red: "#9d0006",
        green: "#79740e",
        yellow: "#b57614",
        orange: "#af3a03",
        blue: "#076678",
        purple: "#8f3f71",
        cyan: "#427b58",
        grey: "#928374",
        surface: "#ebdbb2",
        cursor: "#d5c4a1",
        add_line: "#ebe2b1",
        remove_line: "#eecfac",
        add_emph: "#d4cc90",
        remove_emph: "#db9f85",
    }
}

/// The hues of the nord palette.
pub open spec fn nord_hues() -> Builtin {
    Builtin {
        bg: "#2e3440",
        fg: "#d8dee9",
        red: "#bf616a",
        green: "#a3be8c",
        yellow: "#ebcb8b",
        orange: "#d08770",
        blue: "#81a1c1",
        purple: "#b48ead",
        cyan: "#88c0d0",
        grey: "#4c566a",
        surface: "#3b4252",
        cursor: "#434c5e",
        add_line: "#3c4549",
        remove_line: "#423a46",
        add_emph: "#515d57",
        remove_emph: "#5f434e",
    }
}

fn nord() -> (r: Builtin)
    ensures
        r == nord_hues(),
{
    Builtin {
        bg: "#2e3440",
        fg: "#d8dee9",
        red: "#bf616a",
        green: "#a3be8c",
        yellow: "#ebcb8b",
        orange: "#d08770",
        blue: "#81a1c1",
        purple: "#b48ead",
        cyan: "#88c0d0",
        grey: "#4c566a",
        surface: "#3b4252",
        cursor: "#434c5e",
        add_line: "#3c4549",
        remove_line: "#423a46",
        add_emph: "#515d57",
        remove_emph: "#5f434e",
    }
}

/// The hues of the solarized-dark palette.
pub open spec fn solarized_dark_hues() -> Builtin {
    Builtin {
        bg: "#002b36",
        fg: "#839496",
        red: "#dc322f",
        green: "#859900",
        yellow: "#b58900",
        orange: "#cb4b16",
        blue: "#268bd2",
        purple: "#6c71c4",
        cyan: "#2aa198",
        grey: "#586e75",
        surface: "#073642",
        cursor: "#0a4250",
        add_line: "#103830",
        remove_line: "#1f2c35",
        add_emph: "#284c26",
        remove_emph: "#4b2d34",
    }
}

fn solarized_dark() -> (r: Builtin)
    ensures
        r == solarized_dark_hues(),
{
    Builtin {
        bg: "#002b36",
        fg: "#839496",
        red: "#dc322f",
        green: "#859900",
        yellow: "#b58900",
        orange: "#cb4b16",
        blue: "#268bd2",
        purple: "#6c71c4",
        cyan: "#2aa198",
        grey: "#586e75",
        surface: "#073642",
        cursor: "#0a4250",
        add_line: "#103830",
        remove_line: "#1f2c35",
        add_emph: "#284c26",
        remove_emph: "#4b2d34",
    }
}

/// The hues of the solarized-light palette.
pub open spec fn solarized_light_hues() -> Builtin {
    Builtin {
        bg: "#fdf6e3",
        fg: "#657b83",
        red: "#dc322f",
        green: "#859900",
        yellow: "#b58900",
        orange: "#cb4b16",
        blue: "#268bd2",
        purple: "#6c71c4",
        cyan: "#2aa198",
        grey: "#93a1a1",
        surface: "#eee8d5",
        cursor: "#e4ddc8",
        add_line: "#efebc8",
        remove_line: "#f8dbca",
        add_emph: "#d9da9f",
        remove_emph: "#f2b3a6",
    }
}

fn solarized_light() -> (r: Builtin)
    ensures
        r == solarized_light_hues(),
{
    Builtin {
        bg: "#fdf6e3",
        fg: "#657b83",
        red: "#dc322f",
        green: "#859900",
        yellow: "#b58900",
        orange: "#cb4b16",
        blue: "#268bd2",
        purple: "#6c71c4",
        cyan: "#2aa198",
        grey: "#93a1a1",
        surface: "#eee8d5",
        cursor: "#e4ddc8",
        add_line: "#efebc8",
        remove_line: "#f8dbca",
        add_emph: "#d9da9f",
        remove_emph: "#f2b3a6",
    }
}

/// The hues of the catppuccin-mocha palette.
pub open spec fn catppuccin_mocha_hues() -> Builtin {
    Builtin {
        bg: "#1e1e2e",
        fg: "#cdd6f4",
        red: "#f38ba8",
        green: "#a6e3a1",
        yellow: "#f9e2af",
        orange: "#fab387",
        blue: "#89b4fa",
        purple: "#cba6f7",
        cyan: "#94e2d5",
        grey: "#6c7086",
        surface: "#313244",
        cursor: "#45475a",
        add_line: "#2e363c",
        remove_line: "#3c2d3f",
        add_emph: "#475950",
        remove_emph: "#664357",
    }
}

fn catppuccin_mocha() -> (r: Builtin)
    ensures
        r == catppuccin_mocha_hues(),
{
    Builtin {
        bg: "#1e1e2e",
        fg: "#cdd6f4",
        red: "#f38ba8",
        green: "#a6e3a1",
        yellow: "#f9e2af",
        orange: "#fab387",
        blue: "#89b4fa",
        purple: "#cba6f7",
        cyan: "#94e2d5",
        grey: "#6c7086",
        surface: "#313244",
        cursor: "#45475a",
        add_line: "#2e363c",
        remove_line: "#3c2d3f",
        add_emph: "#475950",
        remove_emph: "#664357",
    }
}

/// The hues of the catppuccin-latte palette.
pub open spec fn catppuccin_latte_hues() -> Builtin {
    Builtin {
        bg: "#eff1f5",
        fg: "#4c4f69",
        red: "#d20f39",
        green: "#40a02b",
        yellow: "#df8e1d",
        orange: "#fe640b",
        blue: "#1e66f5",
        purple: "#8839ef",
        cyan: "#179299",
        grey: "#9ca0b0",
        surface: "#ccd0da",
        cursor: "#bcc0cc",
        add_line: "#dae7dd",
        remove_line: "#ebd1db",
        add_emph: "#bad9b8",
        remove_emph: "#e5a4b5",
    }
}

fn catppuccin_latte() -> (r: Builtin)
    ensures
        r == catppuccin_latte_hues(),
{
    Builtin {
        bg: "#eff1f5",
        fg: "#4c4f69",
        red: "#d20f39",
        green: "#40a02b",
        yellow: "#df8e1d",
        orange: "#fe640b",
        blue: "#1e66f5",
        purple: "#8839ef",
        cyan: "#179299",
        grey: "#9ca0b0",
        surface: "#ccd0da",
        cursor: "#bcc0cc",
        add_line: "#dae7dd",
        remove_line: "#ebd1db",
        add_emph: "#bad9b8",
        remove_emph: "#e5a4b5",
    }
}

/// The hues of the tokyonight palette.
pub open spec fn tokyonight_hues() -> Builtin {
    Builtin {
        bg: "#1a1b26",
        fg: "#c0caf5",
        red: "#f7768e",
        green: "#9ece6a",
        yellow: "#e0af68",
        orange: "#ff9e64",
        blue: "#7aa2f7",
        purple: "#bb9af7",
        cyan: "#7dcfff",
        grey: "#565f89",
        surface: "#292e42",
        cursor: "#3b4261",
        add_line: "#2a302e",
        remove_line: "#392835",
        add_emph: "#42513a",
        remove_emph: "#653a49",
    }
}

fn tokyonight() -> (r: Builtin)
    ensures
        r == tokyonight_hues(),
{
    Builtin {
        bg: "#1a1b26",
        fg: "#c0caf5",
        red: "#f7768e",
        green: "#9ece6a",
        yellow: "#e0af68",
        orange: "#ff9e64",
        blue: "#7aa2f7",
        purple: "#bb9af7",
        cyan: "#7dcfff",
        grey: "#565f89",
        surface: "#292e42",
        cursor: "#3b4261",
        add_line: "#2a302e",
        remove_line: "#392835",
        add_emph: "#42513a",
        remove_emph: "#653a49",
    }
}

/// The hues of the monokai palette.
pub open spec fn monokai_hues() -> Builtin {
    Builtin {
        bg: "#272822",
        fg: "#f8f8f2",
        red: "#f92672",
        green: "#a6e22e",
        yellow: "#e6db74",
        orange: "#fd971f",
        blue: "#66d9ef",
        purple: "#ae81ff",
        cyan: "#a1efe4",
        grey: "#75715e",
        surface: "#3e3d32",
        cursor: "#49483e",
        add_line: "#363e23",
        remove_line: "#44282d",
        add_emph: "#4d6026",
        remove_emph: "#6e273d",
    }
}

fn monokai() -> (r: Builtin)
    ensures
        r == monokai_hues(),
{
    Builtin {
        bg: "#272822",
        fg: "#f8f8f2",
        red: "#f92672",
        green: "#a6e22e",
        yellow: "#e6db74",
        orange: "#fd971f",
        blue: "#66d9ef",
        purple: "#ae81ff",
        cyan: "#a1efe4",
        grey: "#75715e",
        surface: "#3e3d32",
        cursor: "#49483e",
        add_line: "#363e23",
        remove_line: "#44282d",
        add_emph: "#4d6026",
        remove_emph: "#6e273d",
    }
}

/// The palette of a built-in theme.
pub open spec fn theme_hues(theme: Seq<char>) -> Option<Builtin> {
    if theme == "onedark"@ {
        Some(config::builtin_hues(true))
    } else if theme == "onelight"@ {
        Some(config::builtin_hues(false))
    } else if theme == "ansi"@ {
        Some(config::ansi_hues())
    } else if theme == "dracula"@ {
        Some(dracula_hues())
    } else if theme == "gruvbox-dark"@ {
        Some(gruvbox_dark_hues())
    } else if theme == "gruvbox-light"@ {
        Some(gruvbox_light_hues())
    } else if theme == "nord"@ {
        Some(nord_hues())
    } else if theme == "solarized-dark"@ {
        Some(solarized_dark_hues())
    } else if theme == "solarized-light"@ {
        Some(solarized_light_hues())
    } else if theme == "catppuccin-mocha"@ {
        Some(catppuccin_mocha_hues())
    } else if theme == "catppuccin-latte"@ {
        Some(catppuccin_latte_hues())
    } else if theme == "tokyonight"@ {
        Some(tokyonight_hues())
    } else if theme == "monokai"@ {
        Some(monokai_hues())
    } else {
        None
    }
}

/// The palette of a built-in theme.
pub fn find(theme: &str) -> (r: Option<Builtin>)
    ensures
        r == theme_hues(theme@),
{
    if text::same(theme, "onedark") {
        Some(config::builtin(true))
    } else if text::same(theme, "onelight") {
        Some(config::builtin(false))
    } else if text::same(theme, "ansi") {
        Some(config::ansi())
    } else if text::same(theme, "dracula") {
        Some(dracula())
    } else if text::same(theme, "gruvbox-dark") {
        Some(gruvbox_dark())
    } else if text::same(theme, "gruvbox-light") {
        Some(gruvbox_light())
    } else if text::same(theme, "nord") {
        Some(nord())
    } else if text::same(theme, "solarized-dark") {
        Some(solarized_dark())
    } else if text::same(theme, "solarized-light") {
        Some(solarized_light())
    } else if text::same(theme, "catppuccin-mocha") {
        Some(catppuccin_mocha())
    } else if text::same(theme, "catppuccin-latte") {
        Some(catppuccin_latte())
    } else if text::same(theme, "tokyonight") {
        Some(tokyonight())
    } else if text::same(theme, "monokai") {
        Some(monokai())
    } else {
        None
    }
}

} // verus!
