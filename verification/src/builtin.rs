//! The built-in themes: their palettes and the styles of the components.

use vstd::prelude::*;

use crate::text::same;

verus! {

/// A built-in color palette: the named hues both the UI palette and the
/// syntax theme are derived from.
#[derive(Clone, Copy)]
pub struct Builtin {
    pub bg: &'static str,
    pub fg: &'static str,
    pub red: &'static str,
    pub green: &'static str,
    pub yellow: &'static str,
    pub orange: &'static str,
    pub blue: &'static str,
    pub purple: &'static str,
    pub cyan: &'static str,
    pub grey: &'static str,
    pub surface: &'static str,
    pub cursor: &'static str,
    pub add_line: &'static str,
    pub remove_line: &'static str,
    pub header_line: &'static str,
    pub add_emph: &'static str,
    pub remove_emph: &'static str,
}

/// A built-in palette written as one row: background, foreground, the eight
/// hues from red to grey, then surface, cursor, the three line washes and the
/// two emphasis colors.
pub open spec fn hues(
    bg: &'static str,
    fg: &'static str,
    red: &'static str,
    green: &'static str,
    yellow: &'static str,
    orange: &'static str,
    blue: &'static str,
    purple: &'static str,
    cyan: &'static str,
    grey: &'static str,
    surface: &'static str,
    cursor: &'static str,
    add_line: &'static str,
    remove_line: &'static str,
    header_line: &'static str,
    add_emph: &'static str,
    remove_emph: &'static str,
) -> Option<Builtin> {
    Some(
        Builtin {
            bg,
            fg,
            red,
            green,
            yellow,
            orange,
            blue,
            purple,
            cyan,
            grey,
            surface,
            cursor,
            add_line,
            remove_line,
            header_line,
            add_emph,
            remove_emph,
        },
    )
}

/// The built-in palette that a theme name stands for.
pub open spec fn palette_named(name: Seq<char>) -> Option<Builtin> {
    if name == "onedark"@ {
        hues(
            "#282c34", "#abb2bf",
            "#e06c75", "#98c379", "#e5c07b", "#d19a66", "#61afef", "#c678dd", "#56b6c2", "#5c6370",
            "#3b4048", "#3e4451",
            "#2b3a2e", "#3f2d30", "#2c3543",
            "#3d5943", "#6d3b40",
        )
    } else if name == "onelight"@ {
        hues(
            "#fafafa", "#383a42",
            "#e45649", "#50a14f", "#c18401", "#986801", "#4078f2", "#a626a4", "#0184bc", "#a0a1a7",
            "#eaeaeb", "#cdd1d8",
            "#e6f3e6", "#fbe9e8", "#e3ebfb",
            "#cdead0", "#f7d3d0",
        )
    } else if name == "ansi"@ {
        hues(
            "default", "default",
            "red", "green", "yellow", "brightred", "blue", "magenta", "cyan", "brightblack",
            "brightblack", "brightblack",
            "default", "default", "brightblack",
            "green", "red",
        )
    } else if name == "dracula"@ {
        hues(
            "#282a36", "#f8f8f2",
            "#ff5555", "#50fa7b", "#f1fa8c", "#ffb86c", "#8be9fd", "#bd93f9", "#8be9fd", "#6272a4",
            "#44475a", "#4d5066",
            "#2e4b41", "#4a313b", "#2f3a4c",
            "#36714d", "#713941",
        )
    } else if name == "gruvbox-dark"@ {
        hues(
            "#282828", "#ebdbb2",
            "#fb4934", "#b8bb26", "#fabd2f", "#fe8019", "#83a598", "#d3869b", "#8ec07c", "#928374",
            "#3c3836", "#504945",
            "#3f4028", "#4a2d2a", "#2f3a3a",
            "#595a27", "#70332c",
        )
    } else if name == "gruvbox-light"@ {
        hues(
            "#fbf1c7", "#3c3836",
            "#9d0006", "#79740e", "#b57614", "#af3a03", "#076678", "#8f3f71", "#427b58", "#928374",
            "#ebdbb2", "#d5c4a1",
            "#ded69e", "#e6bc9d", "#d3e0dc",
            "#c4bc79", "#d48c76",
        )
    } else if name == "nord"@ {
        hues(
            "#2e3440", "#d8dee9",
            "#bf616a", "#a3be8c", "#ebcb8b", "#d08770", "#81a1c1", "#b48ead", "#88c0d0", "#4c566a",
            "#3b4252", "#434c5e",
            "#414a4c", "#453b47", "#333f50",
            "#56635a", "#5f434e",
        )
    } else if name == "solarized-dark"@ {
        hues(
            "#002b36", "#839496",
            "#dc322f", "#859900", "#b58900", "#cb4b16", "#268bd2", "#6c71c4", "#2aa198", "#586e75",
            "#073642", "#094e5e",
            "#153d2d", "#3d2229", "#0a3a4a",
            "#2d5024", "#4b2d34",
        )
    } else if name == "solarized-light"@ {
        hues(
            "#fdf6e3", "#657b83",
            "#dc322f", "#859900", "#b58900", "#cb4b16", "#268bd2", "#6c71c4", "#2aa198", "#93a1a1",
            "#eee8d5", "#ddd6c1",
            "#e3e2b1", "#f6cbbb", "#dae6ec",
            "#cbcf84", "#efa497",
        )
    } else if name == "catppuccin-mocha"@ {
        hues(
            "#1e1e2e", "#cdd6f4",
            "#f38ba8", "#a6e3a1", "#f9e2af", "#fab387", "#89b4fa", "#cba6f7", "#94e2d5", "#6c7086",
            "#313244", "#45475a",
            "#343e40", "#402f42", "#2a3048",
            "#4c6155", "#664357",
        )
    } else if name == "catppuccin-latte"@ {
        hues(
            "#eff1f5", "#4c4f69",
            "#d20f39", "#40a02b", "#df8e1d", "#fe640b", "#1e66f5", "#8839ef", "#179299", "#9ca0b0",
            "#ccd0da", "#bcc0cc",
            "#c8dfc9", "#e9bfcc", "#d5def6",
            "#a6cfa0", "#e392a6",
        )
    } else if name == "tokyonight"@ {
        hues(
            "#1a1b26", "#c0caf5",
            "#f7768e", "#9ece6a", "#e0af68", "#ff9e64", "#7aa2f7", "#bb9af7", "#7dcfff", "#565f89",
            "#24283b", "#292e42",
            "#2f3831", "#3d2a37", "#222c48",
            "#47583d", "#653a49",
        )
    } else if name == "monokai"@ {
        hues(
            "#272822", "#f8f8f2",
            "#f92672", "#a6e22e", "#e6db74", "#fd971f", "#66d9ef", "#ae81ff", "#66d9ef", "#75715e",
            "#3e3d32", "#49483e",
            "#3b4624", "#49282f", "#2c3b40",
            "#526726", "#6e273d",
        )
    } else {
        None
    }
}

/// Look up a named built-in palette. Returns None for unknown names (a syntect
/// theme name, say), in which case callers fall back to the `ansi` palette.
/// `ansi` maps to the terminal's own 16 colors so it inherits whatever palette
/// the user's terminal defines.
pub fn builtin_named(name: &str) -> (r: Option<Builtin>)
    ensures
        r == palette_named(name@),
{
    if same(name, "onedark") {
        Some(
            Builtin {
                bg: "#282c34",
                fg: "#abb2bf",
                red: "#e06c75",
                green: "#98c379",
                yellow: "#e5c07b",
                orange: "#d19a66",
                blue: "#61afef",
                purple: "#c678dd",
                cyan: "#56b6c2",
                grey: "#5c6370",
                surface: "#3b4048",
                cursor: "#3e4451",
                add_line: "#2b3a2e",
                remove_line: "#3f2d30",
                header_line: "#2c3543",
                add_emph: "#3d5943",
                remove_emph: "#6d3b40",
            },
        )
    } else if same(name, "onelight") {
        Some(
            Builtin {
                bg: "#fafafa",
                fg: "#383a42",
                red: "#e45649",
                green: "#50a14f",
                yellow: "#c18401",
                orange: "#986801",
                blue: "#4078f2",
                purple: "#a626a4",
                cyan: "#0184bc",
                grey: "#a0a1a7",
                surface: "#eaeaeb",
                cursor: "#cdd1d8",
                add_line: "#e6f3e6",
                remove_line: "#fbe9e8",
                header_line: "#e3ebfb",
                add_emph: "#cdead0",
                remove_emph: "#f7d3d0",
            },
        )
    } else if same(name, "ansi") {
        Some(
            Builtin {
                bg: "default",
                fg: "default",
                red: "red",
                green: "green",
                yellow: "yellow",
                orange: "brightred",
                blue: "blue",
                purple: "magenta",
                cyan: "cyan",
                grey: "brightblack",
                surface: "brightblack",
                cursor: "brightblack",
                add_line: "default",
                remove_line: "default",
                header_line: "brightblack",
                add_emph: "green",
                remove_emph: "red",
            },
        )
    } else if same(name, "dracula") {
        Some(
            Builtin {
                bg: "#282a36",
                fg: "#f8f8f2",
                red: "#ff5555",
                green: "#50fa7b",
                yellow: "#f1fa8c",
                orange: "#ffb86c",
                blue: "#8be9fd",
                purple: "#bd93f9",
                cyan: "#8be9fd",
                grey: "#6272a4",
                surface: "#44475a",
                cursor: "#4d5066",
                add_line: "#2e4b41",
                remove_line: "#4a313b",
                header_line: "#2f3a4c",
                add_emph: "#36714d",
                remove_emph: "#713941",
            },
        )
    } else if same(name, "gruvbox-dark") {
        Some(
            Builtin {
                bg: "#282828",
                fg: "#ebdbb2",
                red: "#fb4934",
                green: "#b8bb26",
                yellow: "#fabd2f",
                orange: "#fe8019",
                blue: "#83a598",
                purple: "#d3869b",
                cyan: "#8ec07c",
                grey: "#928374",
                surface: "#3c3836",
                cursor: "#504945",
                add_line: "#3f4028",
                remove_line: "#4a2d2a",
                header_line: "#2f3a3a",
                add_emph: "#595a27",
                remove_emph: "#70332c",
            },
        )
    } else if same(name, "gruvbox-light") {
        Some(
            Builtin {
                bg: "#fbf1c7",
                fg: "#3c3836",
                red: "#9d0006",
                green: "#79740e",
                yellow: "#b57614",
                orange: "#af3a03",
                blue: "#076678",
                purple: "#8f3f71",
                cyan: "#427b58",
                grey: "#928374",
                surface: "#ebdbb2",
                cursor: "#d5c4a1",
                add_line: "#ded69e",
                remove_line: "#e6bc9d",
                header_line: "#d3e0dc",
                add_emph: "#c4bc79",
                remove_emph: "#d48c76",
            },
        )
    } else if same(name, "nord") {
        Some(
            Builtin {
                bg: "#2e3440",
                fg: "#d8dee9",
                red: "#bf616a",
                green: "#a3be8c",
                yellow: "#ebcb8b",
                orange: "#d08770",
                blue: "#81a1c1",
                purple: "#b48ead",
                cyan: "#88c0d0",
                grey: "#4c566a",
                surface: "#3b4252",
                cursor: "#434c5e",
                add_line: "#414a4c",
                remove_line: "#453b47",
                header_line: "#333f50",
                add_emph: "#56635a",
                remove_emph: "#5f434e",
            },
        )
    } else if same(name, "solarized-dark") {
        Some(
            Builtin {
                bg: "#002b36",
                fg: "#839496",
                red: "#dc322f",
                green: "#859900",
                yellow: "#b58900",
                orange: "#cb4b16",
                blue: "#268bd2",
                purple: "#6c71c4",
                cyan: "#2aa198",
                grey: "#586e75",
                surface: "#073642",
                cursor: "#094e5e",
                add_line: "#153d2d",
                remove_line: "#3d2229",
                header_line: "#0a3a4a",
                add_emph: "#2d5024",
                remove_emph: "#4b2d34",
            },
        )
    } else if same(name, "solarized-light") {
        Some(
            Builtin {
                bg: "#fdf6e3",
                fg: "#657b83",
                red: "#dc322f",
                green: "#859900",
                yellow: "#b58900",
                orange: "#cb4b16",
                blue: "#268bd2",
                purple: "#6c71c4",
                cyan: "#2aa198",
                grey: "#93a1a1",
                surface: "#eee8d5",
                cursor: "#ddd6c1",
                add_line: "#e3e2b1",
                remove_line: "#f6cbbb",
                header_line: "#dae6ec",
                add_emph: "#cbcf84",
                remove_emph: "#efa497",
            },
        )
    } else if same(name, "catppuccin-mocha") {
        Some(
            Builtin {
                bg: "#1e1e2e",
                fg: "#cdd6f4",
                red: "#f38ba8",
                green: "#a6e3a1",
                yellow: "#f9e2af",
                orange: "#fab387",
                blue: "#89b4fa",
                purple: "#cba6f7",
                cyan: "#94e2d5",
                grey: "#6c7086",
                surface: "#313244",
                cursor: "#45475a",
                add_line: "#343e40",
                remove_line: "#402f42",
                header_line: "#2a3048",
                add_emph: "#4c6155",
                remove_emph: "#664357",
            },
        )
    } else if same(name, "catppuccin-latte") {
        Some(
            Builtin {
                bg: "#eff1f5",
                fg: "#4c4f69",
                red: "#d20f39",
                green: "#40a02b",
                yellow: "#df8e1d",
                orange: "#fe640b",
                blue: "#1e66f5",
                purple: "#8839ef",
                cyan: "#179299",
                grey: "#9ca0b0",
                surface: "#ccd0da",
                cursor: "#bcc0cc",
                add_line: "#c8dfc9",
                remove_line: "#e9bfcc",
                header_line: "#d5def6",
                add_emph: "#a6cfa0",
                remove_emph: "#e392a6",
            },
        )
    } else if same(name, "tokyonight") {
        Some(
            Builtin {
                bg: "#1a1b26",
                fg: "#c0caf5",
                red: "#f7768e",
                green: "#9ece6a",
                yellow: "#e0af68",
                orange: "#ff9e64",
                blue: "#7aa2f7",
                purple: "#bb9af7",
                cyan: "#7dcfff",
                grey: "#565f89",
                surface: "#24283b",
                cursor: "#292e42",
                add_line: "#2f3831",
                remove_line: "#3d2a37",
                header_line: "#222c48",
                add_emph: "#47583d",
                remove_emph: "#653a49",
            },
        )
    } else if same(name, "monokai") {
        Some(
            Builtin {
                bg: "#272822",
                fg: "#f8f8f2",
                red: "#f92672",
                green: "#a6e22e",
                yellow: "#e6db74",
                orange: "#fd971f",
                blue: "#66d9ef",
                purple: "#ae81ff",
                cyan: "#66d9ef",
                grey: "#75715e",
                surface: "#3e3d32",
                cursor: "#49483e",
                add_line: "#3b4624",
                remove_line: "#49282f",
                header_line: "#2c3b40",
                add_emph: "#526726",
                remove_emph: "#6e273d",
            },
        )
    } else {
        None
    }
}

/// The default style of a component under a theme.
pub open spec fn default_style(theme: Seq<char>, component: Seq<char>) -> Seq<char> {
    if theme == "ansi"@ && component == "help-desc"@ {
        "default"@
    } else if component == "add"@ {
        "add"@
    } else if component == "remove"@ {
        "remove"@
    } else if component == "context"@ {
        "context"@
    } else if component == "header"@ {
        "header bold"@
    } else if component == "line-number"@ {
        "line-number"@
    } else if component == "statusbar"@ {
        "foreground surface"@
    } else if component == "statusbar-logo"@ {
        "background primary bold"@
    } else if component == "statusbar-filename"@ {
        "foreground surface bold"@
    } else if component == "statusbar-add"@ {
        "add surface"@
    } else if component == "statusbar-remove"@ {
        "remove surface"@
    } else if component == "statusbar-flags"@ {
        "muted surface"@
    } else if component == "statusbar-stats"@ {
        "foreground surface"@
    } else if component == "statusbar-search"@ {
        "secondary surface"@
    } else if component == "statusbar-watch"@ {
        "background add bold"@
    } else if component == "statusbar-help"@ {
        "background secondary bold"@
    } else if component == "help-key"@ {
        "muted bold"@
    } else if component == "help-desc"@ {
        "muted faint"@
    } else if component == "dialog"@ {
        "foreground background"@
    } else if component == "dialog-border"@ {
        "surface"@
    } else if component == "sidebar-border"@ {
        "surface"@
    } else if component == "search-match"@ {
        "background secondary bold"@
    } else if component == "search-current"@ {
        "background primary bold"@
    } else {
        ""@
    }
}

/// Default component styles, the built-in counterpart to [`builtin_named`]'s
/// colors. Each spec is `fg bg attrs...` resolved against the theme's palette,
/// so the specs are shared across themes and adapt through the palette: a
/// theme only appears here when it needs a genuinely different treatment.
///
/// `ansi` rides the terminal's own colors, and its `muted` (brightblack) is too
/// dim for the help-grid descriptions, so it uses the plain terminal foreground
/// there instead.
pub fn builtin_style(theme: &str, component: &str) -> (r: &'static str)
    ensures
        r@ == default_style(theme@, component@),
{
    if same(theme, "ansi") && same(component, "help-desc") {
        "default"
    } else if same(component, "add") {
        "add"
    } else if same(component, "remove") {
        "remove"
    } else if same(component, "context") {
        "context"
    } else if same(component, "header") {
        "header bold"
    } else if same(component, "line-number") {
        "line-number"
    } else if same(component, "statusbar") {
        "foreground surface"
    } else if same(component, "statusbar-logo") {
        "background primary bold"
    } else if same(component, "statusbar-filename") {
        "foreground surface bold"
    } else if same(component, "statusbar-add") {
        "add surface"
    } else if same(component, "statusbar-remove") {
        "remove surface"
    } else if same(component, "statusbar-flags") {
        "muted surface"
    } else if same(component, "statusbar-stats") {
        "foreground surface"
    } else if same(component, "statusbar-search") {
        "secondary surface"
    } else if same(component, "statusbar-watch") {
        "background add bold"
    } else if same(component, "statusbar-help") {
        "background secondary bold"
    } else if same(component, "help-key") {
        "muted bold"
    } else if same(component, "help-desc") {
        "muted faint"
    } else if same(component, "dialog") {
        "foreground background"
    } else if same(component, "dialog-border") {
        "surface"
    } else if same(component, "sidebar-border") {
        "surface"
    } else if same(component, "search-match") {
        "background secondary bold"
    } else if same(component, "search-current") {
        "background primary bold"
    } else {
        ""
    }
}

} // verus!
