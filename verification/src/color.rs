//! Colors, styles and the palette that style specs are resolved against.

use vstd::prelude::*;
use vstd::slice::slice_subrange;

use crate::builtin::{builtin_named, Builtin};
#[allow(unused_imports)]
use crate::builtin::palette_named;
use crate::config::Colors;
use crate::text::{
    chars_of, is_text, lowered, parse_number, same, split_whitespace, string_of, trimmed,
};
#[allow(unused_imports)]
use crate::text::{
    decimal, digit, digits_value, is_space, law_digits, law_numbers_read_back,
    law_trimming_takes_off_white_space, lower, lower_char, number, texts, trim, words,
};

verus! {

/// A terminal color.
#[derive(Debug, Clone, Copy, PartialEq, Eq, Structural)]
pub enum Color {
    Black,
    Red,
    Green,
    Yellow,
    Blue,
    Magenta,
    Cyan,
    White,
    BrightBlack,
    BrightRed,
    BrightGreen,
    BrightYellow,
    BrightBlue,
    BrightMagenta,
    BrightCyan,
    BrightWhite,
    Indexed(u8),
    Rgb(u8, u8, u8),
}

/// The attributes of a style, but for its underline.
#[derive(Debug, Clone, Copy, PartialEq, Eq, Structural)]
pub struct Attrs {
    pub bold: bool,
    pub faint: bool,
    pub italic: bool,
    pub strikethrough: bool,
    pub blink: bool,
    pub reverse: bool,
    pub conceal: bool,
}

impl Attrs {
    /// No attribute.
    pub open spec fn none() -> Attrs {
        Attrs {
            bold: false,
            faint: false,
            italic: false,
            strikethrough: false,
            blink: false,
            reverse: false,
            conceal: false,
        }
    }

    /// Whether no attribute is set.
    pub fn is_empty(&self) -> (r: bool)
        ensures
            r == (*self == Attrs::none()),
    {
        !self.bold && !self.faint && !self.italic && !self.strikethrough && !self.blink
            && !self.reverse && !self.conceal
    }
}

/// How a cell is drawn.
#[derive(Debug, Clone, Copy, PartialEq, Eq, Structural)]
pub struct Style {
    pub fg: Option<Color>,
    pub bg: Option<Color>,
    pub underline: bool,
    pub attrs: Attrs,
}

impl Style {
    /// The terminal's own style.
    pub open spec fn plain() -> Style {
        Style { fg: None, bg: None, underline: false, attrs: Attrs::none() }
    }
}

impl Default for Style {
    /// The terminal's own style.
    fn default() -> (r: Style)
        ensures
            r == Style::plain(),
    {
        Style {
            fg: None,
            bg: None,
            underline: false,
            attrs: Attrs {
                bold: false,
                faint: false,
                italic: false,
                strikethrough: false,
                blink: false,
                reverse: false,
                conceal: false,
            },
        }
    }
}

/// The color that six hexadecimal digits write, two for each part.
pub open spec fn rgb(hex: Seq<char>) -> Option<Color> {
    if hex.len() != 6 {
        None
    } else {
        match (
            number(hex.take(2), 16, 255),
            number(hex.subrange(2, 4), 16, 255),
            number(hex.skip(4), 16, 255),
        ) {
            (Some(r), Some(g), Some(b)) => Some(Color::Rgb(r as u8, g as u8, b as u8)),
            _ => None,
        }
    }
}

/// The color of an ANSI name.
pub open spec fn ansi_color(name: Seq<char>) -> Option<Color> {
    if name == "black"@ {
        Some(Color::Black)
    } else if name == "red"@ {
        Some(Color::Red)
    } else if name == "green"@ {
        Some(Color::Green)
    } else if name == "yellow"@ {
        Some(Color::Yellow)
    } else if name == "blue"@ {
        Some(Color::Blue)
    } else if name == "magenta"@ {
        Some(Color::Magenta)
    } else if name == "cyan"@ {
        Some(Color::Cyan)
    } else if name == "white"@ {
        Some(Color::White)
    } else if name == "brightblack"@ || name == "gray"@ || name == "grey"@ {
        Some(Color::BrightBlack)
    } else if name == "brightred"@ {
        Some(Color::BrightRed)
    } else if name == "brightgreen"@ {
        Some(Color::BrightGreen)
    } else if name == "brightyellow"@ {
        Some(Color::BrightYellow)
    } else if name == "brightblue"@ {
        Some(Color::BrightBlue)
    } else if name == "brightmagenta"@ {
        Some(Color::BrightMagenta)
    } else if name == "brightcyan"@ {
        Some(Color::BrightCyan)
    } else if name == "brightwhite"@ {
        Some(Color::BrightWhite)
    } else {
        None
    }
}

/// The color that a text stands for: `#rrggbb`, an index, or an ANSI name.
pub open spec fn color_of(s: Seq<char>) -> Option<Color> {
    let t = trim(s);
    if t.len() == 0 || lower(t) == "default"@ || lower(t) == "none"@ {
        None
    } else if t[0] == '#' {
        rgb(t.skip(1))
    } else if number(t, 10, 255) is Some {
        Some(Color::Indexed(number(t, 10, 255)->0 as u8))
    } else {
        ansi_color(lower(t))
    }
}

/// Reads the digits of a hexadecimal color.
fn parse_hex(hex: &[char]) -> (r: Option<Color>)
    ensures
        r == rgb(hex@),
{
    if hex.len() != 6 {
        return None;
    }
    let a = slice_subrange(hex, 0, 2);
    assert(a@ =~= hex@.take(2));
    let red = match parse_number(a, 16, 255) {
        Some(v) => v as u8,
        None => {
            return None;
        },
    };
    let b = slice_subrange(hex, 2, 4);
    let green = match parse_number(b, 16, 255) {
        Some(v) => v as u8,
        None => {
            return None;
        },
    };
    let c = slice_subrange(hex, 4, 6);
    assert(c@ =~= hex@.skip(4));
    let blue = match parse_number(c, 16, 255) {
        Some(v) => v as u8,
        None => {
            return None;
        },
    };
    Some(Color::Rgb(red, green, blue))
}

/// The color of an ANSI name in lower case.
fn parse_ansi(name: &[char]) -> (r: Option<Color>)
    ensures
        r == ansi_color(name@),
{
    if is_text(name, "black") {
        Some(Color::Black)
    } else if is_text(name, "red") {
        Some(Color::Red)
    } else if is_text(name, "green") {
        Some(Color::Green)
    } else if is_text(name, "yellow") {
        Some(Color::Yellow)
    } else if is_text(name, "blue") {
        Some(Color::Blue)
    } else if is_text(name, "magenta") {
        Some(Color::Magenta)
    } else if is_text(name, "cyan") {
        Some(Color::Cyan)
    } else if is_text(name, "white") {
        Some(Color::White)
    } else if is_text(name, "brightblack") || is_text(name, "gray") || is_text(name, "grey") {
        Some(Color::BrightBlack)
    } else if is_text(name, "brightred") {
        Some(Color::BrightRed)
    } else if is_text(name, "brightgreen") {
        Some(Color::BrightGreen)
    } else if is_text(name, "brightyellow") {
        Some(Color::BrightYellow)
    } else if is_text(name, "brightblue") {
        Some(Color::BrightBlue)
    } else if is_text(name, "brightmagenta") {
        Some(Color::BrightMagenta)
    } else if is_text(name, "brightcyan") {
        Some(Color::BrightCyan)
    } else if is_text(name, "brightwhite") {
        Some(Color::BrightWhite)
    } else {
        None
    }
}

/// Reads a color. Returns None for "default"/"none"/unrecognized.
pub fn parse_color(s: &str) -> (r: Option<Color>)
    ensures
        r == color_of(s@),
{
    let cs = chars_of(s);
    let t = trimmed(&cs);
    let low = lowered(t);
    if t.len() == 0 || is_text(&low, "default") || is_text(&low, "none") {
        return None;
    }
    if t[0] == '#' {
        let hex = slice_subrange(t, 1, t.len());
        assert(hex@ =~= t@.skip(1));
        return parse_hex(hex);
    }
    if let Some(idx) = parse_number(t, 10, 255) {
        return Some(Color::Indexed(idx as u8));
    }
    parse_ansi(&low)
}

/// Resolved color palette: named tones from `[colors]` that style specs and
/// the renderer reference by name (e.g. `foreground`, `surface`, `add`).
#[derive(Debug, Clone, Copy, PartialEq, Eq, Structural)]
pub struct Palette {
    pub add: Option<Color>,
    pub remove: Option<Color>,
    pub context: Option<Color>,
    pub header: Option<Color>,
    pub line_number: Option<Color>,
    pub primary: Option<Color>,
    pub secondary: Option<Color>,
    pub foreground: Option<Color>,
    pub background: Option<Color>,
    pub muted: Option<Color>,
    pub surface: Option<Color>,
    pub cursor: Option<Color>,
    pub add_line: Option<Color>,
    pub remove_line: Option<Color>,
    pub header_line: Option<Color>,
    pub add_emph: Option<Color>,
    pub remove_emph: Option<Color>,
}

/// The color text that counts: the user's where it is set, else the theme's.
pub open spec fn picked(user: Seq<char>, theirs: &'static str) -> Seq<char> {
    if user.len() == 0 {
        theirs@
    } else {
        user
    }
}

/// The palette that a theme's hues come from: its own, or that of `ansi` for a
/// name that has none.
pub open spec fn theme_hues(theme: Seq<char>) -> Builtin {
    match palette_named(theme) {
        Some(b) => b,
        None => palette_named("ansi"@)->0,
    }
}

/// The palette of the colors `c` under a theme: each tone is the user's color
/// when set, otherwise the theme's.
pub open spec fn palette_of(c: Colors, theme: Seq<char>) -> Palette {
    let b = theme_hues(theme);
    Palette {
        add: color_of(picked(c.add@, b.green)),
        remove: color_of(picked(c.remove@, b.red)),
        context: color_of(picked(c.context@, b.fg)),
        header: color_of(picked(c.header@, b.blue)),
        line_number: color_of(picked(c.line_number@, b.grey)),
        primary: color_of(picked(c.primary@, b.purple)),
        secondary: color_of(picked(c.secondary@, b.blue)),
        foreground: color_of(picked(c.foreground@, b.fg)),
        background: color_of(picked(c.background@, b.bg)),
        muted: color_of(picked(c.muted@, b.grey)),
        surface: color_of(picked(c.surface@, b.surface)),
        cursor: color_of(picked(c.cursor@, b.cursor)),
        add_line: color_of(picked(c.add_line@, b.add_line)),
        remove_line: color_of(picked(c.remove_line@, b.remove_line)),
        header_line: color_of(picked(c.header_line@, b.header_line)),
        add_emph: color_of(picked(c.add_emph@, b.add_emph)),
        remove_emph: color_of(picked(c.remove_emph@, b.remove_emph)),
    }
}

impl Palette {
    /// The tone that a palette name stands for.
    pub open spec fn tone(self, name: Seq<char>) -> Option<Option<Color>> {
        if name == "add"@ {
            Some(self.add)
        } else if name == "remove"@ {
            Some(self.remove)
        } else if name == "context"@ {
            Some(self.context)
        } else if name == "header"@ {
            Some(self.header)
        } else if name == "line-number"@ {
            Some(self.line_number)
        } else if name == "primary"@ {
            Some(self.primary)
        } else if name == "secondary"@ {
            Some(self.secondary)
        } else if name == "foreground"@ {
            Some(self.foreground)
        } else if name == "background"@ {
            Some(self.background)
        } else if name == "muted"@ {
            Some(self.muted)
        } else if name == "surface"@ {
            Some(self.surface)
        } else if name == "cursor"@ {
            Some(self.cursor)
        } else if name == "add-line"@ {
            Some(self.add_line)
        } else if name == "remove-line"@ {
            Some(self.remove_line)
        } else if name == "header-line"@ {
            Some(self.header_line)
        } else if name == "add-emph"@ {
            Some(self.add_emph)
        } else if name == "remove-emph"@ {
            Some(self.remove_emph)
        } else {
            None
        }
    }

    /// What a token of a style spec resolves to.
    pub open spec fn resolved(self, token: Seq<char>) -> Option<Color> {
        if token == "-"@ || token == "none"@ || token == "default"@ {
            None
        } else {
            match self.tone(token) {
                Some(c) => c,
                None => color_of(token),
            }
        }
    }

    /// Build the palette for `theme`: each token is the user's color when set,
    /// otherwise the theme's built-in default (falling back to the `ansi`
    /// palette for unknown/syntect theme names, which don't repaint the chrome).
    pub fn new(c: &Colors, theme: &str) -> (r: Palette)
        ensures
            r == palette_of(*c, theme@),
    {
        let b = match builtin_named(theme) {
            Some(b) => b,
            None => builtin_named("ansi").unwrap(),
        };
        Palette {
            add: pick(&c.add, b.green),
            remove: pick(&c.remove, b.red),
            context: pick(&c.context, b.fg),
            header: pick(&c.header, b.blue),
            line_number: pick(&c.line_number, b.grey),
            primary: pick(&c.primary, b.purple),
            secondary: pick(&c.secondary, b.blue),
            foreground: pick(&c.foreground, b.fg),
            background: pick(&c.background, b.bg),
            muted: pick(&c.muted, b.grey),
            surface: pick(&c.surface, b.surface),
            cursor: pick(&c.cursor, b.cursor),
            add_line: pick(&c.add_line, b.add_line),
            remove_line: pick(&c.remove_line, b.remove_line),
            header_line: pick(&c.header_line, b.header_line),
            add_emph: pick(&c.add_emph, b.add_emph),
            remove_emph: pick(&c.remove_emph, b.remove_emph),
        }
    }

    /// The tone that a palette name stands for.
    fn lookup(&self, name: &str) -> (r: Option<Option<Color>>)
        ensures
            r == self.tone(name@),
    {
        if same(name, "add") {
            Some(self.add)
        } else if same(name, "remove") {
            Some(self.remove)
        } else if same(name, "context") {
            Some(self.context)
        } else if same(name, "header") {
            Some(self.header)
        } else if same(name, "line-number") {
            Some(self.line_number)
        } else if same(name, "primary") {
            Some(self.primary)
        } else if same(name, "secondary") {
            Some(self.secondary)
        } else if same(name, "foreground") {
            Some(self.foreground)
        } else if same(name, "background") {
            Some(self.background)
        } else if same(name, "muted") {
            Some(self.muted)
        } else if same(name, "surface") {
            Some(self.surface)
        } else if same(name, "cursor") {
            Some(self.cursor)
        } else if same(name, "add-line") {
            Some(self.add_line)
        } else if same(name, "remove-line") {
            Some(self.remove_line)
        } else if same(name, "header-line") {
            Some(self.header_line)
        } else if same(name, "add-emph") {
            Some(self.add_emph)
        } else if same(name, "remove-emph") {
            Some(self.remove_emph)
        } else {
            None
        }
    }

    /// Resolve a token to a color: a palette name, else a literal color value
    /// (hex, index, or ANSI name). `default`/`none`/`-` all mean "no color",
    /// i.e. the terminal's own default fg/bg.
    pub fn color(&self, token: &str) -> (r: Option<Color>)
        ensures
            r == self.resolved(token@),
    {
        if same(token, "-") || same(token, "none") || same(token, "default") {
            return None;
        }
        match self.lookup(token) {
            Some(c) => c,
            None => parse_color(token),
        }
    }
}

/// Reads the user's color if set, else the theme's.
fn pick(user: &str, theirs: &'static str) -> (r: Option<Color>)
    ensures
        r == color_of(picked(user@, theirs)),
{
    if user.unicode_len() == 0 {
        parse_color(theirs)
    } else {
        parse_color(user)
    }
}

/// A style with the attribute that a keyword names; none where the word is no
/// such keyword.
pub open spec fn with_attr(s: Style, word: Seq<char>) -> Option<Style> {
    if word == "bold"@ {
        Some(Style { attrs: Attrs { bold: true, ..s.attrs }, ..s })
    } else if word == "faint"@ || word == "dim"@ {
        Some(Style { attrs: Attrs { faint: true, ..s.attrs }, ..s })
    } else if word == "italic"@ {
        Some(Style { attrs: Attrs { italic: true, ..s.attrs }, ..s })
    } else if word == "underline"@ {
        Some(Style { underline: true, ..s })
    } else if word == "strikethrough"@ {
        Some(Style { attrs: Attrs { strikethrough: true, ..s.attrs }, ..s })
    } else if word == "blink"@ {
        Some(Style { attrs: Attrs { blink: true, ..s.attrs }, ..s })
    } else if word == "reverse"@ {
        Some(Style { attrs: Attrs { reverse: true, ..s.attrs }, ..s })
    } else if word == "conceal"@ || word == "hidden"@ {
        Some(Style { attrs: Attrs { conceal: true, ..s.attrs }, ..s })
    } else {
        None
    }
}

/// The style that the words of a spec add up to, and how many of them were
/// colors. The first is the foreground, the second the background; a further
/// one has no place.
pub open spec fn style_words(ws: Seq<Seq<char>>, palette: Palette) -> (Style, nat)
    decreases ws.len(),
{
    if ws.len() == 0 {
        (Style::plain(), 0)
    } else {
        let (s, n) = style_words(ws.drop_last(), palette);
        match with_attr(s, lower(ws.last())) {
            Some(t) => (t, n),
            None => {
                let c = palette.resolved(ws.last());
                if n == 0 {
                    (Style { fg: c, ..s }, 1)
                } else if n == 1 {
                    (Style { bg: c, ..s }, 2)
                } else {
                    (s, n + 1)
                }
            },
        }
    }
}

/// The style that a spec stands for.
pub open spec fn style_of(spec: Seq<char>, palette: Palette) -> Style {
    style_words(words(spec), palette).0
}

/// Adds the attribute that a keyword names.
fn add_attr(s: Style, word: &[char]) -> (r: Option<Style>)
    ensures
        r == with_attr(s, word@),
{
    let mut t = s;
    if is_text(word, "bold") {
        t.attrs.bold = true;
    } else if is_text(word, "faint") || is_text(word, "dim") {
        t.attrs.faint = true;
    } else if is_text(word, "italic") {
        t.attrs.italic = true;
    } else if is_text(word, "underline") {
        t.underline = true;
    } else if is_text(word, "strikethrough") {
        t.attrs.strikethrough = true;
    } else if is_text(word, "blink") {
        t.attrs.blink = true;
    } else if is_text(word, "reverse") {
        t.attrs.reverse = true;
    } else if is_text(word, "conceal") || is_text(word, "hidden") {
        t.attrs.conceal = true;
    } else {
        return None;
    }
    Some(t)
}

/// Parse a `fg bg attr...` style spec against the palette. The first two
/// color tokens are foreground then background; remaining known keywords set
/// attributes (`bold`, `faint`, `italic`, `underline`, `strikethrough`,
/// `blink`, `reverse`, `conceal`). Use `-`/`none`/`default` to skip a color
/// slot.
pub fn parse_style(spec: &str, palette: &Palette) -> (r: Style)
    ensures
        r == style_of(spec@, *palette),
{
    let ws = split_whitespace(&chars_of(spec));
    let ghost all = words(spec@);
    let mut style = Style::default();
    let mut slot: usize = 0;
    let mut i: usize = 0;
    while i < ws.len()
        invariant
            i <= ws.len(),
            all == texts(ws@),
            all == words(spec@),
            style_words(all.take(i as int), *palette).0 == style,
            slot == style_words(all.take(i as int), *palette).1,
            slot <= i,
        decreases ws.len() - i,
    {
        proof {
            assert(all.take(i + 1).drop_last() =~= all.take(i as int));
            assert(ws@[i as int]@ == all[i as int]);
        }
        match add_attr(style, &lowered(&ws[i])) {
            Some(t) => {
                style = t;
            },
            None => {
                let c = palette.color(&string_of(&ws[i]));
                if slot == 0 {
                    style.fg = c;
                } else if slot == 1 {
                    style.bg = c;
                }
                slot += 1;
            },
        }
        i += 1;
    }
    assert(all.take(all.len() as int) =~= all);
    style
}

/// A theme without a palette of its own takes every tone from `ansi`.
pub proof fn law_unknown_theme_falls_back_to_ansi(c: Colors, theme: Seq<char>)
    requires
        palette_named(theme) is None,
    ensures
        palette_of(c, theme) == palette_of(c, "ansi"@),
{
}

/// A color that the user set counts under every theme.
pub proof fn law_user_colors_win(c: Colors, theme: Seq<char>)
    ensures
        c.add@.len() > 0 ==> palette_of(c, theme).add == color_of(c.add@),
        c.remove@.len() > 0 ==> palette_of(c, theme).remove == color_of(c.remove@),
        c.context@.len() > 0 ==> palette_of(c, theme).context == color_of(c.context@),
        c.header@.len() > 0 ==> palette_of(c, theme).header == color_of(c.header@),
        c.line_number@.len() > 0 ==> palette_of(c, theme).line_number == color_of(c.line_number@),
        c.primary@.len() > 0 ==> palette_of(c, theme).primary == color_of(c.primary@),
        c.secondary@.len() > 0 ==> palette_of(c, theme).secondary == color_of(c.secondary@),
        c.foreground@.len() > 0 ==> palette_of(c, theme).foreground == color_of(c.foreground@),
        c.background@.len() > 0 ==> palette_of(c, theme).background == color_of(c.background@),
        c.muted@.len() > 0 ==> palette_of(c, theme).muted == color_of(c.muted@),
        c.surface@.len() > 0 ==> palette_of(c, theme).surface == color_of(c.surface@),
        c.cursor@.len() > 0 ==> palette_of(c, theme).cursor == color_of(c.cursor@),
        c.add_line@.len() > 0 ==> palette_of(c, theme).add_line == color_of(c.add_line@),
        c.remove_line@.len() > 0 ==> palette_of(c, theme).remove_line == color_of(c.remove_line@),
        c.header_line@.len() > 0 ==> palette_of(c, theme).header_line == color_of(c.header_line@),
        c.add_emph@.len() > 0 ==> palette_of(c, theme).add_emph == color_of(c.add_emph@),
        c.remove_emph@.len() > 0 ==> palette_of(c, theme).remove_emph == color_of(c.remove_emph@),
{
}

/// `-`, `none` and `default` mean the terminal's own color, whatever the
/// palette holds.
pub proof fn law_no_color_tokens(palette: Palette)
    ensures
        palette.resolved("-"@) is None,
        palette.resolved("none"@) is None,
        palette.resolved("default"@) is None,
{
}

/// A palette name resolves to its tone, even where it is also the name of a
/// color.
pub proof fn law_tones_come_first(palette: Palette, name: Seq<char>)
    requires
        palette.tone(name) is Some,
        name != "-"@,
        name != "none"@,
        name != "default"@,
    ensures
        palette.resolved(name) == palette.tone(name)->0,
{
}

/// Six hexadecimal digits behind `#` are red, green and blue, two digits each.
pub proof fn law_hex_colors(h: Seq<char>)
    requires
        h.len() == 6,
        forall|i: int| 0 <= i < 6 ==> digit(#[trigger] h[i]) is Some,
    ensures
        color_of(seq!['#'] + h) == Some(
            Color::Rgb(
                (16 * digit(h[0])->0 + digit(h[1])->0) as u8,
                (16 * digit(h[2])->0 + digit(h[3])->0) as u8,
                (16 * digit(h[4])->0 + digit(h[5])->0) as u8,
            ),
        ),
{
    let s = seq!['#'] + h;
    assert(!is_space(h[5]) && !is_space('#'));
    assert(s.last() == h[5]);
    law_trimming_takes_off_white_space(seq![], s, seq![]);
    assert(seq![] + s + seq![] =~= s);
    assert(s.skip(1) =~= h);
    reveal_strlit("default");
    reveal_strlit("none");
    assert(lower(s)[0] == '#');
    lemma_two_digits(h.take(2));
    lemma_two_digits(h.subrange(2, 4));
    lemma_two_digits(h.skip(4));
}

proof fn lemma_two_digits(p: Seq<char>)
    requires
        p.len() == 2,
        digit(p[0]) is Some,
        digit(p[1]) is Some,
    ensures
        number(p, 16, 255) == Some(16 * digit(p[0])->0 + digit(p[1])->0),
{
    law_digits(p[0]);
    law_digits(p[1]);
    assert(p.drop_last().drop_last() =~= seq![]);
    assert(digits_value(p.drop_last().drop_last(), 16) == Some(0nat));
    assert(p.drop_last().last() == p[0]);
    assert(digits_value(p.drop_last(), 16) == Some(digit(p[0])->0));
}

/// A number up to 255 is the color of that index.
pub proof fn law_indexed_colors(n: u8)
    ensures
        color_of(decimal(n as nat)) == Some(Color::Indexed(n)),
{
    let s = decimal(n as nat);
    law_numbers_read_back(n as nat);
    assert(!is_space(s[0]) && !is_space(s.last()));
    law_trimming_takes_off_white_space(seq![], s, seq![]);
    assert(seq![] + s + seq![] =~= s);
    reveal_strlit("default");
    reveal_strlit("none");
    assert(lower(s)[0] == s[0]);
    assert(number(s, 10, 255) == Some(n as nat));
}

/// A text whose last character is no digit is no number.
proof fn lemma_no_number(t: Seq<char>)
    requires
        t.len() > 0,
        !('0' <= t.last() <= '9'),
    ensures
        number(t, 10, 255) is None,
{
    let d = if t[0] == '+' {
        t.skip(1)
    } else {
        t
    };
    if d.len() > 0 {
        assert(d.last() == t.last());
    }
}

/// The names of the colors, in any case and with white space around them. The
/// words for no color give none.
pub proof fn law_color_names(s: Seq<char>)
    ensures
        ({
            let n = lower(trim(s));
            &&& n == "black"@ ==> color_of(s) == Some(Color::Black)
            &&& n == "red"@ ==> color_of(s) == Some(Color::Red)
            &&& n == "green"@ ==> color_of(s) == Some(Color::Green)
            &&& n == "yellow"@ ==> color_of(s) == Some(Color::Yellow)
            &&& n == "blue"@ ==> color_of(s) == Some(Color::Blue)
            &&& n == "magenta"@ ==> color_of(s) == Some(Color::Magenta)
            &&& n == "cyan"@ ==> color_of(s) == Some(Color::Cyan)
            &&& n == "white"@ ==> color_of(s) == Some(Color::White)
            &&& n == "default"@ || n == "none"@ || n.len() == 0 ==> color_of(s) is None
        }),
{
    let t = trim(s);
    let n = lower(t);
    reveal_strlit("black");
    reveal_strlit("red");
    reveal_strlit("green");
    reveal_strlit("yellow");
    reveal_strlit("blue");
    reveal_strlit("magenta");
    reveal_strlit("cyan");
    reveal_strlit("white");
    reveal_strlit("default");
    reveal_strlit("none");
    assert("black"@.len() == 5 && "black"@[0] == 'b');
    assert("red"@.len() == 3 && "red"@[0] == 'r');
    assert("green"@.len() == 5 && "green"@[0] == 'g');
    assert("yellow"@.len() == 6 && "yellow"@[0] == 'y');
    assert("blue"@.len() == 4 && "blue"@[0] == 'b');
    assert("magenta"@.len() == 7 && "magenta"@[0] == 'm');
    assert("cyan"@.len() == 4 && "cyan"@[0] == 'c');
    assert("white"@.len() == 5 && "white"@[0] == 'w');
    assert("default"@.len() == 7 && "default"@[0] == 'd');
    assert("none"@.len() == 4 && "none"@[0] == 'n');
    if t.len() > 0 {
        assert(n[0] == lower_char(t[0]));
        assert(n.last() == lower_char(t.last()));
        if 'a' <= n.last() <= 'z' {
            lemma_no_number(t);
        }
    }
}

/// The names of the bright colors.
pub proof fn law_bright_color_names(s: Seq<char>)
    ensures
        ({
            let n = lower(trim(s));
            &&& n == "brightblack"@ || n == "gray"@ || n == "grey"@ ==> color_of(s) == Some(
                Color::BrightBlack,
            )
            &&& n == "brightred"@ ==> color_of(s) == Some(Color::BrightRed)
            &&& n == "brightgreen"@ ==> color_of(s) == Some(Color::BrightGreen)
            &&& n == "brightyellow"@ ==> color_of(s) == Some(Color::BrightYellow)
            &&& n == "brightblue"@ ==> color_of(s) == Some(Color::BrightBlue)
            &&& n == "brightmagenta"@ ==> color_of(s) == Some(Color::BrightMagenta)
            &&& n == "brightcyan"@ ==> color_of(s) == Some(Color::BrightCyan)
            &&& n == "brightwhite"@ ==> color_of(s) == Some(Color::BrightWhite)
        }),
{
    let t = trim(s);
    let n = lower(t);
    reveal_strlit("black");
    reveal_strlit("red");
    reveal_strlit("green");
    reveal_strlit("yellow");
    reveal_strlit("blue");
    reveal_strlit("magenta");
    reveal_strlit("cyan");
    reveal_strlit("white");
    reveal_strlit("default");
    reveal_strlit("none");
    reveal_strlit("gray");
    reveal_strlit("grey");
    reveal_strlit("brightblack");
    reveal_strlit("brightred");
    reveal_strlit("brightgreen");
    reveal_strlit("brightyellow");
    reveal_strlit("brightblue");
    reveal_strlit("brightmagenta");
    reveal_strlit("brightcyan");
    reveal_strlit("brightwhite");
    assert("black"@.len() == 5 && "black"@[0] == 'b');
    assert("red"@.len() == 3 && "red"@[0] == 'r');
    assert("green"@.len() == 5 && "green"@[0] == 'g');
    assert("yellow"@.len() == 6 && "yellow"@[0] == 'y');
    assert("blue"@.len() == 4 && "blue"@[0] == 'b');
    assert("magenta"@.len() == 7 && "magenta"@[0] == 'm');
    assert("cyan"@.len() == 4 && "cyan"@[0] == 'c');
    assert("white"@.len() == 5 && "white"@[0] == 'w');
    assert("default"@.len() == 7 && "default"@[0] == 'd');
    assert("none"@.len() == 4 && "none"@[0] == 'n');
    assert("gray"@.len() == 4 && "gray"@[0] == 'g');
    assert("grey"@.len() == 4 && "grey"@[0] == 'g');
    assert("brightblack"@.len() == 11 && "brightblack"@[0] == 'b');
    assert("brightred"@.len() == 9 && "brightred"@[0] == 'b');
    assert("brightgreen"@.len() == 11 && "brightgreen"@[0] == 'b');
    assert("brightyellow"@.len() == 12 && "brightyellow"@[0] == 'b');
    assert("brightblue"@.len() == 10 && "brightblue"@[0] == 'b');
    assert("brightmagenta"@.len() == 13 && "brightmagenta"@[0] == 'b');
    assert("brightcyan"@.len() == 10 && "brightcyan"@[0] == 'b');
    assert("brightwhite"@.len() == 11 && "brightwhite"@[0] == 'b');
    assert("gray"@[2] == 'a' && "grey"@[2] == 'e');
    assert("brightblack"@[6] == 'b');
    assert("brightgreen"@[6] == 'g');
    assert("brightblue"@[6] == 'b');
    assert("brightcyan"@[6] == 'c');
    assert("brightwhite"@[6] == 'w');
    if t.len() > 0 {
        assert(n[0] == lower_char(t[0]));
        assert(n.last() == lower_char(t.last()));
        if 'a' <= n.last() <= 'z' {
            lemma_no_number(t);
        }
    }
}

/// What the keywords of a style spec do, in any case: each sets its attribute
/// and leaves everything else.
pub proof fn law_style_keywords(ws: Seq<Seq<char>>, w: Seq<char>, p: Palette)
    ensures
        ({
            let (s, n) = style_words(ws, p);
            let t = style_words(ws.push(w), p);
            let l = lower(w);
            &&& l == "bold"@ ==> t == (
                Style { attrs: Attrs { bold: true, ..s.attrs }, ..s },
                n,
            )
            &&& l == "faint"@ || l == "dim"@ ==> t == (
                Style { attrs: Attrs { faint: true, ..s.attrs }, ..s },
                n,
            )
            &&& l == "italic"@ ==> t == (Style { attrs: Attrs { italic: true, ..s.attrs }, ..s }, n)
            &&& l == "underline"@ ==> t == (Style { underline: true, ..s }, n)
            &&& l == "strikethrough"@ ==> t == (
                Style { attrs: Attrs { strikethrough: true, ..s.attrs }, ..s },
                n,
            )
            &&& l == "blink"@ ==> t == (Style { attrs: Attrs { blink: true, ..s.attrs }, ..s }, n)
            &&& l == "reverse"@ ==> t == (
                Style { attrs: Attrs { reverse: true, ..s.attrs }, ..s },
                n,
            )
            &&& l == "conceal"@ || l == "hidden"@ ==> t == (
                Style { attrs: Attrs { conceal: true, ..s.attrs }, ..s },
                n,
            )
        }),
{
    assert(ws.push(w).drop_last() =~= ws);
    reveal_strlit("bold");
    reveal_strlit("faint");
    reveal_strlit("dim");
    reveal_strlit("italic");
    reveal_strlit("underline");
    reveal_strlit("strikethrough");
    reveal_strlit("blink");
    reveal_strlit("reverse");
    reveal_strlit("conceal");
    reveal_strlit("hidden");
    assert("bold"@.len() == 4 && "bold"@[0] == 'b');
    assert("faint"@.len() == 5 && "faint"@[0] == 'f');
    assert("dim"@.len() == 3 && "dim"@[0] == 'd');
    assert("italic"@.len() == 6 && "italic"@[0] == 'i');
    assert("underline"@.len() == 9 && "underline"@[0] == 'u');
    assert("strikethrough"@.len() == 13 && "strikethrough"@[0] == 's');
    assert("blink"@.len() == 5 && "blink"@[0] == 'b');
    assert("reverse"@.len() == 7 && "reverse"@[0] == 'r');
    assert("conceal"@.len() == 7 && "conceal"@[0] == 'c');
    assert("hidden"@.len() == 6 && "hidden"@[0] == 'h');
}

/// The first color of a style spec is the foreground, the second the background,
/// and a further one changes nothing; the words before and between do not
/// matter to that.
pub proof fn law_style_colors(ws: Seq<Seq<char>>, w: Seq<char>, p: Palette)
    requires
        with_attr(Style::plain(), lower(w)) is None,
    ensures
        ({
            let (s, n) = style_words(ws, p);
            let (t, m) = style_words(ws.push(w), p);
            &&& m == n + 1
            &&& n == 0 ==> t == (Style { fg: p.resolved(w), ..s })
            &&& n == 1 ==> t == (Style { bg: p.resolved(w), ..s })
            &&& n > 1 ==> t == s
            &&& style_words(Seq::empty(), p) == (Style::plain(), 0nat)
        }),
{
    assert(ws.push(w).drop_last() =~= ws);
}

/// The names of the tones.
pub proof fn law_tone_names(p: Palette)
    ensures
        p.tone("add"@) == Some(p.add),
        p.tone("remove"@) == Some(p.remove),
        p.tone("context"@) == Some(p.context),
        p.tone("header"@) == Some(p.header),
        p.tone("line-number"@) == Some(p.line_number),
        p.tone("primary"@) == Some(p.primary),
        p.tone("secondary"@) == Some(p.secondary),
        p.tone("foreground"@) == Some(p.foreground),
        p.tone("background"@) == Some(p.background),
        p.tone("muted"@) == Some(p.muted),
        p.tone("surface"@) == Some(p.surface),
        p.tone("cursor"@) == Some(p.cursor),
        p.tone("add-line"@) == Some(p.add_line),
        p.tone("remove-line"@) == Some(p.remove_line),
        p.tone("header-line"@) == Some(p.header_line),
        p.tone("add-emph"@) == Some(p.add_emph),
        p.tone("remove-emph"@) == Some(p.remove_emph),
{
    reveal_strlit("add");
    reveal_strlit("remove");
    reveal_strlit("context");
    reveal_strlit("header");
    reveal_strlit("line-number");
    reveal_strlit("primary");
    reveal_strlit("secondary");
    reveal_strlit("foreground");
    reveal_strlit("background");
    reveal_strlit("muted");
    reveal_strlit("surface");
    reveal_strlit("cursor");
    reveal_strlit("add-line");
    reveal_strlit("remove-line");
    reveal_strlit("header-line");
    reveal_strlit("add-emph");
    reveal_strlit("remove-emph");
    assert("add"@.len() == 3 && "add"@[0] == 'a');
    assert("remove"@.len() == 6 && "remove"@[0] == 'r');
    assert("context"@.len() == 7 && "context"@[0] == 'c');
    assert("header"@.len() == 6 && "header"@[0] == 'h');
    assert("line-number"@.len() == 11 && "line-number"@[0] == 'l');
    assert("primary"@.len() == 7 && "primary"@[0] == 'p');
    assert("secondary"@.len() == 9 && "secondary"@[0] == 's');
    assert("foreground"@.len() == 10 && "foreground"@[0] == 'f');
    assert("background"@.len() == 10 && "background"@[0] == 'b');
    assert("muted"@.len() == 5 && "muted"@[0] == 'm');
    assert("surface"@.len() == 7 && "surface"@[0] == 's');
    assert("cursor"@.len() == 6 && "cursor"@[0] == 'c');
    assert("add-line"@.len() == 8 && "add-line"@[0] == 'a');
    assert("remove-line"@.len() == 11 && "remove-line"@[0] == 'r');
    assert("header-line"@.len() == 11 && "header-line"@[0] == 'h');
    assert("add-emph"@.len() == 8 && "add-emph"@[0] == 'a');
    assert("remove-emph"@.len() == 11 && "remove-emph"@[0] == 'r');
    assert("add-line"@[4] == 'l' && "add-emph"@[4] == 'e');
    assert("remove-line"@[7] == 'l' && "remove-emph"@[7] == 'e');
}

/// A color that the user left unset is the hue that the theme has for it:
/// additions are green, removals red, headers blue.
pub proof fn law_unset_colors_come_from_the_theme(c: Colors, theme: Seq<char>, b: Builtin)
    requires
        palette_named(theme) == Some(b),
    ensures
        ({
            let p = palette_of(c, theme);
            &&& c.add@.len() == 0 ==> p.add == color_of(b.green@)
            &&& c.remove@.len() == 0 ==> p.remove == color_of(b.red@)
            &&& c.context@.len() == 0 ==> p.context == color_of(b.fg@)
            &&& c.header@.len() == 0 ==> p.header == color_of(b.blue@)
            &&& c.line_number@.len() == 0 ==> p.line_number == color_of(b.grey@)
            &&& c.primary@.len() == 0 ==> p.primary == color_of(b.purple@)
            &&& c.secondary@.len() == 0 ==> p.secondary == color_of(b.blue@)
            &&& c.foreground@.len() == 0 ==> p.foreground == color_of(b.fg@)
            &&& c.background@.len() == 0 ==> p.background == color_of(b.bg@)
            &&& c.muted@.len() == 0 ==> p.muted == color_of(b.grey@)
            &&& c.surface@.len() == 0 ==> p.surface == color_of(b.surface@)
            &&& c.cursor@.len() == 0 ==> p.cursor == color_of(b.cursor@)
            &&& c.add_line@.len() == 0 ==> p.add_line == color_of(b.add_line@)
            &&& c.remove_line@.len() == 0 ==> p.remove_line == color_of(b.remove_line@)
            &&& c.header_line@.len() == 0 ==> p.header_line == color_of(b.header_line@)
            &&& c.add_emph@.len() == 0 ==> p.add_emph == color_of(b.add_emph@)
            &&& c.remove_emph@.len() == 0 ==> p.remove_emph == color_of(b.remove_emph@)
        }),
{
}

} // verus!
