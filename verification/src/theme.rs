//! The styles of the viewer, resolved once from the configuration.

use vstd::prelude::*;

use crate::builtin::builtin_style;
#[allow(unused_imports)]
use crate::builtin::default_style;
use crate::color::{parse_style, Color, Palette, Style};
#[allow(unused_imports)]
use crate::color::{palette_of, style_of};
use crate::config::Config;

verus! {

/// A resolved styling palette built once from config. Diff-body styles plus
/// component-named chrome styles (`statusbar_*`, `help_*`, `dialog_*`), all
/// derived from the configurable color palette and style specs.
#[derive(Debug, Clone, Copy, PartialEq, Eq, Structural)]
pub struct Theme {
    pub add: Style,
    pub remove: Style,
    pub context: Style,
    pub header: Style,
    pub line_number: Style,
    pub add_emph_bg: Option<Color>,
    pub remove_emph_bg: Option<Color>,
    pub add_line_bg: Option<Color>,
    pub remove_line_bg: Option<Color>,
    /// Spanning background band behind a hunk header, so it reads as a section
    /// separator; a subtle blue-tinted tone distinct from added/removed washes.
    pub header_bg: Option<Color>,
    pub cursor_bg: Color,
    /// Terminal default background; `None` rides the terminal's own.
    pub background: Option<Color>,
    pub statusbar: Style,
    pub statusbar_logo: Style,
    pub statusbar_filename: Style,
    pub statusbar_add: Style,
    pub statusbar_remove: Style,
    pub statusbar_flags: Style,
    pub statusbar_stats: Style,
    pub statusbar_search: Style,
    pub statusbar_watch: Style,
    pub statusbar_help: Style,
    pub help_key: Style,
    pub help_desc: Style,
    pub dialog: Style,
    pub dialog_border: Style,
    pub sidebar_border: Style,
    pub search_match: Style,
    pub search_current: Style,
    /// Idle-mascot colours: filled body and antenna/reaction accent. The face
    /// glyphs (eyes) are always black, drawn on top of the body.
    pub mascot_body: Color,
    pub mascot_accent: Color,
}

/// The style spec of a component: the user's, else the built-in one.
pub open spec fn component_spec(c: Config, name: Seq<char>) -> Seq<char> {
    if c.styles@.dom().contains(name) {
        c.styles@[name]
    } else {
        default_style(c.theme@, name)
    }
}

/// The style of a component.
pub open spec fn component_style(c: Config, name: Seq<char>) -> Style {
    style_of(component_spec(c, name), palette_of(c.colors, c.theme@))
}

/// A color, or the one to use where there is none.
pub open spec fn color_or(c: Option<Color>, other: Color) -> Color {
    match c {
        Some(c) => c,
        None => other,
    }
}

/// The styles that a configuration stands for.
pub open spec fn theme_of(c: Config) -> Theme {
    let pal = palette_of(c.colors, c.theme@);
    Theme {
        add: component_style(c, "add"@),
        remove: component_style(c, "remove"@),
        context: component_style(c, "context"@),
        header: component_style(c, "header"@),
        line_number: component_style(c, "line-number"@),
        add_emph_bg: pal.add_emph,
        remove_emph_bg: pal.remove_emph,
        add_line_bg: pal.add_line,
        remove_line_bg: pal.remove_line,
        header_bg: pal.header_line,
        cursor_bg: color_or(pal.cursor, Color::Indexed(237)),
        background: pal.background,
        statusbar: component_style(c, "statusbar"@),
        statusbar_logo: component_style(c, "statusbar-logo"@),
        statusbar_filename: component_style(c, "statusbar-filename"@),
        statusbar_add: component_style(c, "statusbar-add"@),
        statusbar_remove: component_style(c, "statusbar-remove"@),
        statusbar_flags: component_style(c, "statusbar-flags"@),
        statusbar_stats: component_style(c, "statusbar-stats"@),
        statusbar_search: component_style(c, "statusbar-search"@),
        statusbar_watch: component_style(c, "statusbar-watch"@),
        statusbar_help: component_style(c, "statusbar-help"@),
        help_key: component_style(c, "help-key"@),
        help_desc: component_style(c, "help-desc"@),
        dialog: component_style(c, "dialog"@),
        dialog_border: component_style(c, "dialog-border"@),
        sidebar_border: component_style(c, "sidebar-border"@),
        search_match: component_style(c, "search-match"@),
        search_current: component_style(c, "search-current"@),
        mascot_body: color_or(pal.primary, Color::Indexed(99)),
        mascot_accent: color_or(pal.secondary, Color::Indexed(75)),
    }
}

/// The style of a component.
fn resolve(c: &Config, pal: &Palette, name: &str) -> (r: Style)
    requires
        c.styles.wf(),
        *pal == palette_of(c.colors, c.theme@),
    ensures
        r == component_style(*c, name@),
{
    match c.styles.get(name) {
        Some(spec) => parse_style(spec, pal),
        None => parse_style(builtin_style(&c.theme, name), pal),
    }
}

fn or(c: Option<Color>, other: Color) -> (r: Color)
    ensures
        r == color_or(c, other),
{
    match c {
        Some(c) => c,
        None => other,
    }
}

impl Theme {
    /// Resolves the styles of a configuration.
    pub fn from_config(c: &Config) -> (r: Theme)
        requires
            c.styles.wf(),
        ensures
            r == theme_of(*c),
    {
        let pal = Palette::new(&c.colors, &c.theme);
        Theme {
            add: resolve(c, &pal, "add"),
            remove: resolve(c, &pal, "remove"),
            context: resolve(c, &pal, "context"),
            header: resolve(c, &pal, "header"),
            line_number: resolve(c, &pal, "line-number"),
            add_emph_bg: pal.add_emph,
            remove_emph_bg: pal.remove_emph,
            add_line_bg: pal.add_line,
            remove_line_bg: pal.remove_line,
            header_bg: pal.header_line,
            cursor_bg: or(pal.cursor, Color::Indexed(237)),
            background: pal.background,
            statusbar: resolve(c, &pal, "statusbar"),
            statusbar_logo: resolve(c, &pal, "statusbar-logo"),
            statusbar_filename: resolve(c, &pal, "statusbar-filename"),
            statusbar_add: resolve(c, &pal, "statusbar-add"),
            statusbar_remove: resolve(c, &pal, "statusbar-remove"),
            statusbar_flags: resolve(c, &pal, "statusbar-flags"),
            statusbar_stats: resolve(c, &pal, "statusbar-stats"),
            statusbar_search: resolve(c, &pal, "statusbar-search"),
            statusbar_watch: resolve(c, &pal, "statusbar-watch"),
            statusbar_help: resolve(c, &pal, "statusbar-help"),
            help_key: resolve(c, &pal, "help-key"),
            help_desc: resolve(c, &pal, "help-desc"),
            dialog: resolve(c, &pal, "dialog"),
            dialog_border: resolve(c, &pal, "dialog-border"),
            sidebar_border: resolve(c, &pal, "sidebar-border"),
            search_match: resolve(c, &pal, "search-match"),
            search_current: resolve(c, &pal, "search-current"),
            mascot_body: or(pal.primary, Color::Indexed(99)),
            mascot_accent: or(pal.secondary, Color::Indexed(75)),
        }
    }
}

/// A style that the user gives a component wins over the built-in one.
pub proof fn law_user_styles_win(c: Config, name: Seq<char>)
    ensures
        c.styles@.dom().contains(name) ==> component_style(c, name) == style_of(
            c.styles@[name],
            palette_of(c.colors, c.theme@),
        ),
        !c.styles@.dom().contains(name) ==> component_style(c, name) == style_of(
            default_style(c.theme@, name),
            palette_of(c.colors, c.theme@),
        ),
{
}

/// Each part of the viewer has the style of the component of its name, and the
/// backgrounds of lines and of emphasis are those of the palette.
pub proof fn law_parts_have_their_styles(c: Config)
    ensures
        ({
            let t = theme_of(c);
            let p = palette_of(c.colors, c.theme@);
            &&& t.add == component_style(c, "add"@)
            &&& t.remove == component_style(c, "remove"@)
            &&& t.context == component_style(c, "context"@)
            &&& t.header == component_style(c, "header"@)
            &&& t.line_number == component_style(c, "line-number"@)
            &&& t.statusbar == component_style(c, "statusbar"@)
            &&& t.statusbar_logo == component_style(c, "statusbar-logo"@)
            &&& t.statusbar_filename == component_style(c, "statusbar-filename"@)
            &&& t.statusbar_add == component_style(c, "statusbar-add"@)
            &&& t.statusbar_remove == component_style(c, "statusbar-remove"@)
            &&& t.statusbar_flags == component_style(c, "statusbar-flags"@)
            &&& t.statusbar_stats == component_style(c, "statusbar-stats"@)
            &&& t.statusbar_search == component_style(c, "statusbar-search"@)
            &&& t.statusbar_watch == component_style(c, "statusbar-watch"@)
            &&& t.statusbar_help == component_style(c, "statusbar-help"@)
            &&& t.help_key == component_style(c, "help-key"@)
            &&& t.help_desc == component_style(c, "help-desc"@)
            &&& t.dialog == component_style(c, "dialog"@)
            &&& t.dialog_border == component_style(c, "dialog-border"@)
            &&& t.sidebar_border == component_style(c, "sidebar-border"@)
            &&& t.search_match == component_style(c, "search-match"@)
            &&& t.search_current == component_style(c, "search-current"@)
            &&& t.add_emph_bg == p.add_emph
            &&& t.remove_emph_bg == p.remove_emph
            &&& t.add_line_bg == p.add_line
            &&& t.remove_line_bg == p.remove_line
            &&& t.header_bg == p.header_line
            &&& t.background == p.background
            &&& p.cursor is Some ==> Some(t.cursor_bg) == p.cursor
            &&& p.primary is Some ==> Some(t.mascot_body) == p.primary
            &&& p.secondary is Some ==> Some(t.mascot_accent) == p.secondary
        }),
{
}

} // verus!
