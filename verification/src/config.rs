//! Configuration: theme, colors, and settings of a config file, overlaid with
//! any `[drift]` values from git config.

use vstd::prelude::*;
use vstd::slice::slice_subrange;

pub use crate::builtin::{builtin_named, builtin_style, Builtin};
pub use crate::color::{parse_color, parse_style, Palette};
use crate::text::{
    begins, chars_of, is_text, lines_of, lowered, parse_number, same, space, string_of, strip,
    trimmed,
};
#[allow(unused_imports)]
use crate::text::{
    after_prefix, decimal, is_space, law_numbers_read_back, lemma_skip_word, lines, lower, number,
    skip_word, starts, texts, trim,
};

verus! {

/// Settings of the viewer.
#[derive(Debug, Clone)]
pub struct Config {
    /// Name of a built-in or syntect theme, e.g. "base16-ocean.dark".
    pub theme: String,
    /// Enable syntax highlighting of diff content.
    pub syntax: bool,
    /// Enable intra-line (word-level) change highlighting.
    pub intraline: bool,
    /// Show old/new line numbers in the gutter.
    pub line_numbers: bool,
    /// Spaces per tab when rendering.
    pub tab_width: usize,
    /// Symbol at the start of each wrapped continuation line. It is kept, but
    /// not drawn: lines scroll and do not wrap.
    pub wrap_symbol: String,
    /// Gutter symbol on the collapsed commit line. It is kept, but not drawn: a
    /// commit is not folded.
    pub expand_symbol: String,
    /// Gutter symbol on the expanded commit line. It is kept, but not drawn
    /// either.
    pub collapse_symbol: String,
    /// Gutter symbol on a hunk header (reveal more context).
    pub context_symbol: String,
    /// Sidebar visibility: "auto" (open when terminal >= 150 wide, default),
    /// "always" (open), or "never" (closed). The `B` key overrides at runtime.
    pub sidebar: String,
    /// Width in cells of the file-list sidebar (including its divider). A mouse
    /// drag on the divider overrides this at runtime.
    pub sidebar_width: usize,
    /// Which side the sidebar sits on: "left" (default) or "right".
    pub sidebar_side: String,
    /// Editor command; falls back to $EDITOR / $VISUAL when empty.
    pub editor: String,
    pub colors: Colors,
    /// Component styles, each a `fg bg attrs...` spec resolved against the
    /// color palette. Overrides the built-in defaults per named component.
    pub styles: StyleMap,
}

/// The colors of the palette. An empty text leaves a color to the theme.
#[derive(Debug, Clone)]
pub struct Colors {
    pub add: String,
    pub remove: String,
    pub context: String,
    pub header: String,
    pub line_number: String,
    /// Primary accent: the "drift" badge background in the footer.
    pub primary: String,
    /// Secondary accent: file name text, the "? help" badge, and dialog
    /// backgrounds.
    pub secondary: String,
    /// Bright body text (the "white" tone).
    pub foreground: String,
    /// Text drawn on top of accent badges and dialog surfaces (the "black"
    /// tone).
    pub background: String,
    /// Muted / dim tone: flags, help descriptions.
    pub muted: String,
    /// Status bar and chip background surface.
    pub surface: String,
    /// Current-line highlight background.
    pub cursor: String,
    /// Subtle whole-line background for added/removed lines.
    pub add_line: String,
    pub remove_line: String,
    /// Spanning background band behind a hunk header (section separator).
    pub header_line: String,
    /// Background emphasis for intra-line changed segments.
    pub add_emph: String,
    pub remove_emph: String,
}

/// Style specs by component name. No name occurs twice.
#[derive(Debug, Clone)]
pub struct StyleMap {
    pub entries: Vec<(String, String)>,
}

impl StyleMap {
    /// Whether no name occurs twice.
    pub open spec fn wf(&self) -> bool {
        forall|i: int, j: int|
            0 <= i < j < self.entries.len() ==> (#[trigger] self.entries@[i]).0@ != (
            #[trigger] self.entries@[j]).0@
    }

    /// Whether the spec of `name` stands at `i`.
    pub open spec fn names(&self, i: int, name: Seq<char>) -> bool {
        0 <= i < self.entries.len() && self.entries@[i].0@ == name
    }
}

impl View for StyleMap {
    type V = Map<Seq<char>, Seq<char>>;

    open spec fn view(&self) -> Map<Seq<char>, Seq<char>> {
        Map::new(
            |name: Seq<char>| exists|i: int| self.names(i, name),
            |name: Seq<char>| self.entries@[choose|i: int| self.names(i, name)].1@,
        )
    }
}

impl StyleMap {
    proof fn lemma_value(&self, i: int, name: Seq<char>)
        requires
            self.wf(),
            self.names(i, name),
        ensures
            self@.dom().contains(name),
            self@[name] == self.entries@[i].1@,
    {
        let k = choose|k: int| self.names(k, name);
        if k < i {
            assert(self.entries@[k].0@ != self.entries@[i].0@);
        } else if i < k {
            assert(self.entries@[i].0@ != self.entries@[k].0@);
        }
    }

    /// No styles.
    pub fn new() -> (r: StyleMap)
        ensures
            r.wf(),
            r@ == Map::<Seq<char>, Seq<char>>::empty(),
    {
        let r = StyleMap { entries: Vec::new() };
        assert(r@ =~= Map::empty());
        r
    }

    /// The place of `name`.
    fn find(&self, name: &str) -> (r: Option<usize>)
        ensures
            r matches Some(i) ==> self.names(i as int, name@),
            r is None ==> forall|i: int| !self.names(i, name@),
    {
        let mut i: usize = 0;
        while i < self.entries.len()
            invariant
                i <= self.entries.len(),
                forall|k: int| 0 <= k < i ==> !self.names(k, name@),
            decreases self.entries.len() - i,
        {
            if same(&self.entries[i].0, name) {
                return Some(i);
            }
            i += 1;
        }
        None
    }

    /// The spec of `name`.
    pub fn get(&self, name: &str) -> (r: Option<&str>)
        requires
            self.wf(),
        ensures
            r is Some == self@.dom().contains(name@),
            r matches Some(v) ==> v@ == self@[name@],
    {
        match self.find(name) {
            Some(i) => {
                proof {
                    self.lemma_value(i as int, name@);
                }
                Some(&self.entries[i].1)
            },
            None => None,
        }
    }

    /// Sets the spec of `name`.
    pub fn insert(&mut self, name: &str, spec: &str)
        requires
            old(self).wf(),
        ensures
            final(self).wf(),
            final(self)@ == old(self)@.insert(name@, spec@),
    {
        let ghost before = *self;
        match self.find(name) {
            Some(i) => {
                self.entries.set(i, (name.to_string(), spec.to_string()));
                assert(self.names(i as int, name@));
                assert forall|n: Seq<char>, k: int| self.names(k, n) == #[trigger] before.names(
                    k,
                    n,
                ) by {}
            },
            None => {
                self.entries.push((name.to_string(), spec.to_string()));
                let ghost n = before.entries.len() as int;
                assert(self.names(n, name@));
                assert forall|k: int| 0 <= k < n implies (#[trigger] self.entries@[k]).0@
                    != name@ by {
                    assert(!before.names(k, name@));
                }
                assert forall|m: Seq<char>, k: int| before.names(k, m) implies #[trigger] self.names(
                    k,
                    m,
                ) by {}
                assert forall|m: Seq<char>, k: int| k != n && #[trigger] self.names(
                    k,
                    m,
                ) implies before.names(k, m) by {}
            },
        }
        proof {
            let after = *self;
            let want = before@.insert(name@, spec@);
            assert forall|m: Seq<char>| after@.dom().contains(m) == want.dom().contains(m) by {
                if after@.dom().contains(m) && m != name@ {
                    let k = choose|k: int| after.names(k, m);
                    assert(before.names(k, m));
                }
                if before@.dom().contains(m) {
                    let k = choose|k: int| before.names(k, m);
                    assert(after.names(k, m));
                }
            }
            assert forall|m: Seq<char>| after@.dom().contains(m) implies after@[m] == want[m] by {
                let k = choose|k: int| after.names(k, m);
                after.lemma_value(k, m);
                if m != name@ {
                    before.lemma_value(k, m);
                }
            }
            assert(after@ =~= want);
        }
    }
}

/// The content of [`Colors`].
pub struct ColorsView {
    pub add: Seq<char>,
    pub remove: Seq<char>,
    pub context: Seq<char>,
    pub header: Seq<char>,
    pub line_number: Seq<char>,
    pub primary: Seq<char>,
    pub secondary: Seq<char>,
    pub foreground: Seq<char>,
    pub background: Seq<char>,
    pub muted: Seq<char>,
    pub surface: Seq<char>,
    pub cursor: Seq<char>,
    pub add_line: Seq<char>,
    pub remove_line: Seq<char>,
    pub header_line: Seq<char>,
    pub add_emph: Seq<char>,
    pub remove_emph: Seq<char>,
}

impl View for Colors {
    type V = ColorsView;

    open spec fn view(&self) -> ColorsView {
        ColorsView {
            add: self.add@,
            remove: self.remove@,
            context: self.context@,
            header: self.header@,
            line_number: self.line_number@,
            primary: self.primary@,
            secondary: self.secondary@,
            foreground: self.foreground@,
            background: self.background@,
            muted: self.muted@,
            surface: self.surface@,
            cursor: self.cursor@,
            add_line: self.add_line@,
            remove_line: self.remove_line@,
            header_line: self.header_line@,
            add_emph: self.add_emph@,
            remove_emph: self.remove_emph@,
        }
    }
}

/// The content of a [`Config`].
pub struct ConfigView {
    pub theme: Seq<char>,
    pub syntax: bool,
    pub intraline: bool,
    pub line_numbers: bool,
    pub tab_width: nat,
    pub wrap_symbol: Seq<char>,
    pub expand_symbol: Seq<char>,
    pub collapse_symbol: Seq<char>,
    pub context_symbol: Seq<char>,
    pub sidebar: Seq<char>,
    pub sidebar_width: nat,
    pub sidebar_side: Seq<char>,
    pub editor: Seq<char>,
    pub colors: ColorsView,
    pub styles: Map<Seq<char>, Seq<char>>,
}

impl View for Config {
    type V = ConfigView;

    open spec fn view(&self) -> ConfigView {
        ConfigView {
            theme: self.theme@,
            syntax: self.syntax,
            intraline: self.intraline,
            line_numbers: self.line_numbers,
            tab_width: self.tab_width as nat,
            wrap_symbol: self.wrap_symbol@,
            expand_symbol: self.expand_symbol@,
            collapse_symbol: self.collapse_symbol@,
            context_symbol: self.context_symbol@,
            sidebar: self.sidebar@,
            sidebar_width: self.sidebar_width as nat,
            sidebar_side: self.sidebar_side@,
            editor: self.editor@,
            colors: self.colors@,
            styles: self.styles@,
        }
    }
}

/// Colors that are all left to the theme.
pub open spec fn unset_colors() -> ColorsView {
    ColorsView {
        add: seq![],
        remove: seq![],
        context: seq![],
        header: seq![],
        line_number: seq![],
        primary: seq![],
        secondary: seq![],
        foreground: seq![],
        background: seq![],
        muted: seq![],
        surface: seq![],
        cursor: seq![],
        add_line: seq![],
        remove_line: seq![],
        header_line: seq![],
        add_emph: seq![],
        remove_emph: seq![],
    }
}

/// The settings where nothing sets any.
pub open spec fn default_config() -> ConfigView {
    ConfigView {
        theme: seq![],
        syntax: true,
        intraline: true,
        line_numbers: true,
        tab_width: 4,
        wrap_symbol: "↪"@,
        expand_symbol: "›"@,
        collapse_symbol: "⌄"@,
        context_symbol: "⋯"@,
        sidebar: "auto"@,
        sidebar_width: 30,
        sidebar_side: "left"@,
        editor: seq![],
        colors: unset_colors(),
        styles: Map::empty(),
    }
}

impl Default for Colors {
    /// Every color unset: resolved from the palette of the theme after
    /// loading, so explicit config and gitconfig overrides win.
    fn default() -> (r: Colors)
        ensures
            r@ == unset_colors(),
    {
        let r = Colors {
            add: String::new(),
            remove: String::new(),
            context: String::new(),
            header: String::new(),
            line_number: String::new(),
            primary: String::new(),
            secondary: String::new(),
            foreground: String::new(),
            background: String::new(),
            muted: String::new(),
            surface: String::new(),
            cursor: String::new(),
            add_line: String::new(),
            remove_line: String::new(),
            header_line: String::new(),
            add_emph: String::new(),
            remove_emph: String::new(),
        };
        assert(r.add@ =~= seq![]);
        assert(r.remove@ =~= seq![]);
        assert(r.context@ =~= seq![]);
        assert(r.header@ =~= seq![]);
        assert(r.line_number@ =~= seq![]);
        assert(r.primary@ =~= seq![]);
        assert(r.secondary@ =~= seq![]);
        assert(r.foreground@ =~= seq![]);
        assert(r.background@ =~= seq![]);
        assert(r.muted@ =~= seq![]);
        assert(r.surface@ =~= seq![]);
        assert(r.cursor@ =~= seq![]);
        assert(r.add_line@ =~= seq![]);
        assert(r.remove_line@ =~= seq![]);
        assert(r.header_line@ =~= seq![]);
        assert(r.add_emph@ =~= seq![]);
        assert(r.remove_emph@ =~= seq![]);
        r
    }
}

impl Default for Config {
    /// The settings where nothing sets any.
    fn default() -> (r: Config)
        ensures
            r@ == default_config(),
            r.styles.wf(),
    {
        let r = Config {
            theme: String::new(),
            syntax: true,
            intraline: true,
            line_numbers: true,
            tab_width: 4,
            wrap_symbol: "↪".to_string(),
            expand_symbol: "›".to_string(),
            collapse_symbol: "⌄".to_string(),
            context_symbol: "⋯".to_string(),
            sidebar: "auto".to_string(),
            sidebar_width: 30,
            sidebar_side: "left".to_string(),
            editor: String::new(),
            colors: Colors::default(),
            styles: StyleMap::new(),
        };
        assert(r.theme@ =~= seq![]);
        assert(r.editor@ =~= seq![]);
        r
    }
}

/// A key and its value, as one line of `git config --get-regexp` gives them.
pub type Entry = (Seq<char>, Seq<char>);

/// `s` without any number of `p` before it.
pub open spec fn strip_all(s: Seq<char>, p: Seq<char>) -> Seq<char>
    decreases s.len(),
{
    if p.len() > 0 && starts(s, p) {
        strip_all(s.skip(p.len() as int), p)
    } else {
        s
    }
}

/// The key before the first white space of a line, without its section and in
/// lower case, and the value behind. A line without white space has none.
pub open spec fn git_entry(line: Seq<char>) -> Option<Entry> {
    let i = skip_word(line, 0);
    if i < line.len() {
        Some((lower(strip_all(line.take(i), "drift."@)), trim(line.skip(i + 1))))
    } else {
        None
    }
}

/// The entries among the lines of git's output.
pub open spec fn git_entries(ls: Seq<Seq<char>>) -> Seq<Entry>
    decreases ls.len(),
{
    if ls.len() == 0 {
        seq![]
    } else {
        match git_entry(ls.last()) {
            Some(e) => git_entries(ls.drop_last()).push(e),
            None => git_entries(ls.drop_last()),
        }
    }
}

/// A text setting: the last value of its key.
pub open spec fn text_setting(es: Seq<Entry>, key: Seq<char>, unset: Seq<char>) -> Seq<char>
    decreases es.len(),
{
    if es.len() == 0 {
        unset
    } else if es.last().0 == key {
        es.last().1
    } else {
        text_setting(es.drop_last(), key, unset)
    }
}

/// What a text says as a switch.
pub open spec fn bool_of(v: Seq<char>) -> Option<bool> {
    let l = lower(v);
    if l == "true"@ || l == "yes"@ || l == "on"@ || l == "1"@ {
        Some(true)
    } else if l == "false"@ || l == "no"@ || l == "off"@ || l == "0"@ {
        Some(false)
    } else {
        None
    }
}

/// A switch: the last value of its key that is one.
pub open spec fn flag_setting(es: Seq<Entry>, key: Seq<char>, unset: bool) -> bool
    decreases es.len(),
{
    if es.len() == 0 {
        unset
    } else if es.last().0 == key && bool_of(es.last().1) is Some {
        bool_of(es.last().1)->0
    } else {
        flag_setting(es.drop_last(), key, unset)
    }
}

/// A size: the last value of its key that is a number.
pub open spec fn size_setting(es: Seq<Entry>, key: Seq<char>, unset: nat) -> nat
    decreases es.len(),
{
    if es.len() == 0 {
        unset
    } else if es.last().0 == key && number(es.last().1, 10, usize::MAX as nat) is Some {
        number(es.last().1, 10, usize::MAX as nat)->0
    } else {
        size_setting(es.drop_last(), key, unset)
    }
}

/// A color: the last value of its key in the `colors` subsection.
pub open spec fn color_setting(es: Seq<Entry>, field: Seq<char>, unset: Seq<char>) -> Seq<char>
    decreases es.len(),
{
    if es.len() == 0 {
        unset
    } else if after_prefix(es.last().0, "colors."@) == Some(field) {
        es.last().1
    } else {
        color_setting(es.drop_last(), field, unset)
    }
}

/// The styles: each takes the last value of its key in the `styles`
/// subsection.
pub open spec fn style_settings(
    es: Seq<Entry>,
    unset: Map<Seq<char>, Seq<char>>,
) -> Map<Seq<char>, Seq<char>>
    decreases es.len(),
{
    if es.len() == 0 {
        unset
    } else {
        let m = style_settings(es.drop_last(), unset);
        match after_prefix(es.last().0, "styles."@) {
            Some(name) => m.insert(name, es.last().1),
            None => m,
        }
    }
}

/// The colors `c` overlaid with those of git.
pub open spec fn overlaid_colors(c: ColorsView, es: Seq<Entry>) -> ColorsView {
    ColorsView {
        add: color_setting(es, "add"@, c.add),
        remove: color_setting(es, "remove"@, c.remove),
        context: color_setting(es, "context"@, c.context),
        header: color_setting(es, "header"@, c.header),
        line_number: color_setting(es, "line-number"@, c.line_number),
        primary: color_setting(es, "primary"@, c.primary),
        secondary: color_setting(es, "secondary"@, c.secondary),
        foreground: color_setting(es, "foreground"@, c.foreground),
        background: color_setting(es, "background"@, c.background),
        muted: color_setting(es, "muted"@, c.muted),
        surface: color_setting(es, "surface"@, c.surface),
        cursor: color_setting(es, "cursor"@, c.cursor),
        add_line: color_setting(es, "add-line"@, c.add_line),
        remove_line: color_setting(es, "remove-line"@, c.remove_line),
        header_line: color_setting(es, "header-line"@, c.header_line),
        add_emph: color_setting(es, "add-emph"@, c.add_emph),
        remove_emph: color_setting(es, "remove-emph"@, c.remove_emph),
    }
}

/// The settings `c` overlaid with those of git.
pub open spec fn overlaid(c: ConfigView, es: Seq<Entry>) -> ConfigView {
    ConfigView {
        theme: text_setting(es, "theme"@, c.theme),
        syntax: flag_setting(es, "syntax"@, c.syntax),
        intraline: flag_setting(es, "intraline"@, c.intraline),
        line_numbers: flag_setting(es, "line-numbers"@, c.line_numbers),
        tab_width: size_setting(es, "tab-width"@, c.tab_width),
        wrap_symbol: text_setting(es, "wrap-symbol"@, c.wrap_symbol),
        expand_symbol: text_setting(es, "expand-symbol"@, c.expand_symbol),
        collapse_symbol: text_setting(es, "collapse-symbol"@, c.collapse_symbol),
        context_symbol: text_setting(es, "context-symbol"@, c.context_symbol),
        sidebar: text_setting(es, "sidebar"@, c.sidebar),
        sidebar_width: size_setting(es, "sidebar-width"@, c.sidebar_width),
        sidebar_side: text_setting(es, "sidebar-side"@, c.sidebar_side),
        editor: text_setting(es, "editor"@, c.editor),
        colors: overlaid_colors(c.colors, es),
        styles: style_settings(es, c.styles),
    }
}

/// The colors `c` with the color named `field` set.
pub open spec fn with_color(c: ColorsView, field: Seq<char>, val: Seq<char>) -> ColorsView {
    ColorsView {
        add: if field == "add"@ {
            val
        } else {
            c.add
        },
        remove: if field == "remove"@ {
            val
        } else {
            c.remove
        },
        context: if field == "context"@ {
            val
        } else {
            c.context
        },
        header: if field == "header"@ {
            val
        } else {
            c.header
        },
        line_number: if field == "line-number"@ {
            val
        } else {
            c.line_number
        },
        primary: if field == "primary"@ {
            val
        } else {
            c.primary
        },
        secondary: if field == "secondary"@ {
            val
        } else {
            c.secondary
        },
        foreground: if field == "foreground"@ {
            val
        } else {
            c.foreground
        },
        background: if field == "background"@ {
            val
        } else {
            c.background
        },
        muted: if field == "muted"@ {
            val
        } else {
            c.muted
        },
        surface: if field == "surface"@ {
            val
        } else {
            c.surface
        },
        cursor: if field == "cursor"@ {
            val
        } else {
            c.cursor
        },
        add_line: if field == "add-line"@ {
            val
        } else {
            c.add_line
        },
        remove_line: if field == "remove-line"@ {
            val
        } else {
            c.remove_line
        },
        header_line: if field == "header-line"@ {
            val
        } else {
            c.header_line
        },
        add_emph: if field == "add-emph"@ {
            val
        } else {
            c.add_emph
        },
        remove_emph: if field == "remove-emph"@ {
            val
        } else {
            c.remove_emph
        },
    }
}

/// The settings `c` overlaid with an entry of the section itself.
spec fn with_setting(c: ConfigView, key: Seq<char>, val: Seq<char>) -> ConfigView {
    ConfigView {
        theme: if key == "theme"@ {
            val
        } else {
            c.theme
        },
        syntax: if key == "syntax"@ && bool_of(val) is Some {
            bool_of(val)->0
        } else {
            c.syntax
        },
        intraline: if key == "intraline"@ && bool_of(val) is Some {
            bool_of(val)->0
        } else {
            c.intraline
        },
        line_numbers: if key == "line-numbers"@ && bool_of(val) is Some {
            bool_of(val)->0
        } else {
            c.line_numbers
        },
        tab_width: if key == "tab-width"@ && number(val, 10, usize::MAX as nat) is Some {
            number(val, 10, usize::MAX as nat)->0
        } else {
            c.tab_width
        },
        wrap_symbol: if key == "wrap-symbol"@ {
            val
        } else {
            c.wrap_symbol
        },
        expand_symbol: if key == "expand-symbol"@ {
            val
        } else {
            c.expand_symbol
        },
        collapse_symbol: if key == "collapse-symbol"@ {
            val
        } else {
            c.collapse_symbol
        },
        context_symbol: if key == "context-symbol"@ {
            val
        } else {
            c.context_symbol
        },
        sidebar: if key == "sidebar"@ {
            val
        } else {
            c.sidebar
        },
        sidebar_width: if key == "sidebar-width"@ && number(val, 10, usize::MAX as nat) is Some {
            number(val, 10, usize::MAX as nat)->0
        } else {
            c.sidebar_width
        },
        sidebar_side: if key == "sidebar-side"@ {
            val
        } else {
            c.sidebar_side
        },
        editor: if key == "editor"@ {
            val
        } else {
            c.editor
        },
        ..c
    }
}

/// The settings `c` overlaid with one entry.
spec fn with_entry(c: ConfigView, key: Seq<char>, val: Seq<char>) -> ConfigView {
    ConfigView {
        colors: match after_prefix(key, "colors."@) {
            Some(field) => with_color(c.colors, field, val),
            None => c.colors,
        },
        styles: match after_prefix(key, "styles."@) {
            Some(name) => c.styles.insert(name, val),
            None => c.styles,
        },
        ..with_setting(c, key, val)
    }
}

proof fn lemma_overlaid(c: ConfigView, es: Seq<Entry>, key: Seq<char>, val: Seq<char>)
    ensures
        overlaid(c, es.push((key, val))) == with_entry(overlaid(c, es), key, val),
{
    let fs = es.push((key, val));
    assert(fs.drop_last() =~= es);
    lemma_overlaid_colors(c.colors, es, key, val);
    assert(overlaid(c, fs).colors == with_entry(overlaid(c, es), key, val).colors);
    lemma_overlaid_settings(c, es, key, val);
}

#[verifier::spinoff_prover]
proof fn lemma_overlaid_settings(c: ConfigView, es: Seq<Entry>, key: Seq<char>, val: Seq<char>)
    ensures
        (ConfigView { colors: c.colors, styles: c.styles, ..overlaid(c, es.push((key, val))) })
            == with_setting(
            ConfigView { colors: c.colors, styles: c.styles, ..overlaid(c, es) },
            key,
            val,
        ),
{
    assert(es.push((key, val)).drop_last() =~= es);
}

#[verifier::spinoff_prover]
proof fn lemma_overlaid_colors(c: ColorsView, es: Seq<Entry>, key: Seq<char>, val: Seq<char>)
    ensures
        overlaid_colors(c, es.push((key, val))) == match after_prefix(key, "colors."@) {
            Some(field) => with_color(overlaid_colors(c, es), field, val),
            None => overlaid_colors(c, es),
        },
{
    assert(es.push((key, val)).drop_last() =~= es);
}

/// What git's output sets over the settings `c`.
pub open spec fn with_git(c: ConfigView, git: Option<Seq<char>>) -> ConfigView {
    match git {
        Some(out) => overlaid(c, git_entries(lines(out))),
        None => c,
    }
}

/// The settings that a config file, where there is one, and git's output, where
/// there is any, add up to. The empty theme is `ansi`.
pub open spec fn loaded(file: Option<ConfigView>, git: Option<Seq<char>>) -> ConfigView {
    let base = match file {
        Some(c) => c,
        None => default_config(),
    };
    let c = with_git(base, git);
    ConfigView {
        theme: if c.theme.len() == 0 {
            "ansi"@
        } else {
            c.theme
        },
        ..c
    }
}

/// Reads a switch, or keeps the default.
pub fn parse_bool(v: &str, default: bool) -> (r: bool)
    ensures
        r == match bool_of(v@) {
            Some(b) => b,
            None => default,
        },
{
    let l = lowered(&chars_of(v));
    if is_text(&l, "true") || is_text(&l, "yes") || is_text(&l, "on") || is_text(&l, "1") {
        true
    } else if is_text(&l, "false") || is_text(&l, "no") || is_text(&l, "off") || is_text(&l, "0") {
        false
    } else {
        default
    }
}

/// Sets a text where `on`.
fn set_text(slot: &mut String, on: bool, val: &str)
    ensures
        final(slot)@ == if on {
            val@
        } else {
            old(slot)@
        },
{
    if on {
        *slot = val.to_string();
    }
}

/// Sets a switch where `on` and the value is one.
fn set_flag(slot: &mut bool, on: bool, val: &str)
    ensures
        *final(slot) == if on && bool_of(val@) is Some {
            bool_of(val@)->0
        } else {
            *old(slot)
        },
{
    if on {
        *slot = parse_bool(val, *slot);
    }
}

/// Sets a size where `on` and the value is a number.
fn set_size(slot: &mut usize, on: bool, val: &str)
    ensures
        *final(slot) as nat == if on && number(val@, 10, usize::MAX as nat) is Some {
            number(val@, 10, usize::MAX as nat)->0
        } else {
            *old(slot) as nat
        },
{
    if on {
        if let Some(n) = parse_number(&chars_of(val), 10, usize::MAX) {
            *slot = n;
        }
    }
}

/// Reads one line of git's output.
fn parse_git_entry(line: &[char]) -> (r: Option<(String, String)>)
    ensures
        r is Some == git_entry(line@) is Some,
        r matches Some(e) ==> Some((e.0@, e.1@)) == git_entry(line@),
{
    let mut i: usize = 0;
    while i < line.len() && !space(line[i])
        invariant
            i <= line.len(),
            skip_word(line@, 0) == skip_word(line@, i as int),
        decreases line.len() - i,
    {
        i += 1;
    }
    if i == line.len() {
        return None;
    }
    let mut key = slice_subrange(line, 0, i);
    assert(key@ =~= line@.take(i as int));
    let ghost all = key@;
    let rest = slice_subrange(line, i + 1, line.len());
    assert(rest@ =~= line@.skip(i + 1));
    proof {
        reveal_strlit("drift.");
    }
    while begins(key, "drift.")
        invariant
            "drift."@.len() == 6,
            strip_all(key@, "drift."@) == strip_all(all, "drift."@),
        decreases key@.len(),
    {
        let ghost before = key@;
        key = slice_subrange(key, 6, key.len());
        assert(key@ =~= before.skip(6));
    }
    Some((string_of(&lowered(key)), string_of(trimmed(rest))))
}

impl Config {
    /// Set a single palette color by field name (matching the `[colors]` keys).
    pub fn set_color(&mut self, field: &str, val: &str)
        ensures
            final(self)@ == (ConfigView {
                colors: with_color(old(self)@.colors, field@, val@),
                ..old(self)@
            }),
            final(self).styles == old(self).styles,
    {
        set_text(&mut self.colors.add, same(field, "add"), val);
        set_text(&mut self.colors.remove, same(field, "remove"), val);
        set_text(&mut self.colors.context, same(field, "context"), val);
        set_text(&mut self.colors.header, same(field, "header"), val);
        set_text(&mut self.colors.line_number, same(field, "line-number"), val);
        set_text(&mut self.colors.primary, same(field, "primary"), val);
        set_text(&mut self.colors.secondary, same(field, "secondary"), val);
        set_text(&mut self.colors.foreground, same(field, "foreground"), val);
        set_text(&mut self.colors.background, same(field, "background"), val);
        set_text(&mut self.colors.muted, same(field, "muted"), val);
        set_text(&mut self.colors.surface, same(field, "surface"), val);
        set_text(&mut self.colors.cursor, same(field, "cursor"), val);
        set_text(&mut self.colors.add_line, same(field, "add-line"), val);
        set_text(&mut self.colors.remove_line, same(field, "remove-line"), val);
        set_text(&mut self.colors.header_line, same(field, "header-line"), val);
        set_text(&mut self.colors.add_emph, same(field, "add-emph"), val);
        set_text(&mut self.colors.remove_emph, same(field, "remove-emph"), val);
    }

    /// Overlays an entry of the section itself.
    fn apply_setting(&mut self, key: &str, val: &str)
        ensures
            final(self)@ == with_setting(old(self)@, key@, val@),
            final(self).colors == old(self).colors,
            final(self).styles == old(self).styles,
    {
        set_text(&mut self.theme, same(key, "theme"), val);
        set_flag(&mut self.syntax, same(key, "syntax"), val);
        set_flag(&mut self.intraline, same(key, "intraline"), val);
        set_flag(&mut self.line_numbers, same(key, "line-numbers"), val);
        set_size(&mut self.tab_width, same(key, "tab-width"), val);
        set_text(&mut self.wrap_symbol, same(key, "wrap-symbol"), val);
        set_text(&mut self.expand_symbol, same(key, "expand-symbol"), val);
        set_text(&mut self.collapse_symbol, same(key, "collapse-symbol"), val);
        set_text(&mut self.context_symbol, same(key, "context-symbol"), val);
        set_text(&mut self.sidebar, same(key, "sidebar"), val);
        set_size(&mut self.sidebar_width, same(key, "sidebar-width"), val);
        set_text(&mut self.sidebar_side, same(key, "sidebar-side"), val);
        set_text(&mut self.editor, same(key, "editor"), val);
    }

    /// Overlays one entry of git config.
    fn apply_entry(&mut self, key: &str, val: &str)
        requires
            old(self).styles.wf(),
        ensures
            final(self).styles.wf(),
            final(self)@ == with_entry(old(self)@, key@, val@),
    {
        self.apply_setting(key, val);
        let k = chars_of(key);
        if let Some(field) = strip(&k, "colors.") {
            self.set_color(&string_of(field), val);
        }
        if let Some(name) = strip(&k, "styles.") {
            self.styles.insert(&string_of(name), val);
        }
    }

    /// Overlays what `git config --get-regexp ^drift\\.` printed. Colors and
    /// styles live in git subsections: `[drift "colors"]` and
    /// `[drift "styles"]`. Keys are kebab-case throughout (e.g. `add-emph`),
    /// matching the config-file and palette token names.
    pub fn apply_gitconfig(&mut self, out: &str)
        requires
            old(self).styles.wf(),
        ensures
            final(self).styles.wf(),
            final(self)@ == with_git(old(self)@, Some(out@)),
    {
        let ls = lines_of(&chars_of(out));
        let ghost all = texts(ls@);
        let ghost c = self@;
        let mut i: usize = 0;
        assert(all.take(0) =~= seq![]);
        assert(overlaid(c, seq![]) == c);
        while i < ls.len()
            invariant
                i <= ls.len(),
                all == texts(ls@),
                self.styles.wf(),
                self@ == overlaid(c, git_entries(all.take(i as int))),
            decreases ls.len() - i,
        {
            assert(all.take(i + 1).drop_last() =~= all.take(i as int));
            assert(all.take(i + 1).last() == ls@[i as int]@);
            if let Some((key, val)) = parse_git_entry(&ls[i]) {
                proof {
                    lemma_overlaid(c, git_entries(all.take(i as int)), key@, val@);
                }
                self.apply_entry(&key, &val);
            }
            i += 1;
        }
        assert(all.take(all.len() as int) =~= all);
    }

    /// Load config: defaults, then a config file where one was found, then git
    /// config `[drift]` overrides. Colors and styles keep their unset (empty)
    /// state: they're resolved against the theme's built-in defaults lazily.
    pub fn load(file: Option<Config>, git: Option<&str>) -> (r: Config)
        requires
            file matches Some(c) ==> c.styles.wf(),
        ensures
            r.styles.wf(),
            r@ == loaded(
                match file {
                    Some(c) => Some(c@),
                    None => None,
                },
                match git {
                    Some(out) => Some(out@),
                    None => None,
                },
            ),
    {
        let mut cfg = match file {
            Some(c) => c,
            None => Config::default(),
        };
        if let Some(out) = git {
            cfg.apply_gitconfig(out);
        }
        // The empty theme means "unset"; normalize it to the default (`ansi`)
        // so theme-name checks (syntax_enabled, built-in lookup) are simple.
        if cfg.theme.as_str().unicode_len() == 0 {
            cfg.theme = "ansi".to_string();
        }
        cfg
    }

    /// Resolve the editor command: config, then $VISUAL, $EDITOR, then vi.
    pub fn editor_cmd(&self, visual: Option<String>, editor: Option<String>) -> (r: String)
        ensures
            r@ == if self@.editor.len() > 0 {
                self@.editor
            } else if visual is Some {
                visual->0@
            } else if editor is Some {
                editor->0@
            } else {
                "vi"@
            },
    {
        if self.editor.as_str().unicode_len() > 0 {
            return self.editor.clone();
        }
        match visual {
            Some(v) => v,
            None => match editor {
                Some(e) => e,
                None => "vi".to_string(),
            },
        }
    }

    /// Whether syntax highlighting is on. The `ansi` theme stays plain: with
    /// only 16 terminal colors, layering highlight hues over the diff colors
    /// reads worse than leaving code alone.
    pub fn syntax_enabled(&self) -> (r: bool)
        ensures
            r == (self@.syntax && self@.theme != "ansi"@),
    {
        self.syntax && !same(&self.theme, "ansi")
    }

    /// Whether intra-line (word-level) emphasis is on. Off for `ansi` for the
    /// same reason as [`Self::syntax_enabled`].
    pub fn intraline_enabled(&self) -> (r: bool)
        ensures
            r == (self@.intraline && self@.theme != "ansi"@),
    {
        self.intraline && !same(&self.theme, "ansi")
    }
}

/// Where a config file may stand: a directory and a path below it.
pub open spec fn candidates(
    xdg: Option<Seq<char>>,
    home: Option<Seq<char>>,
) -> Seq<(Seq<char>, Seq<char>)> {
    (match xdg {
        Some(d) => seq![
            (d, "drift/config.toml"@),
            (d, "drift/config.yaml"@),
            (d, "drift/config.yml"@),
            (d, "drift/config.json"@),
        ],
        None => seq![],
    }) + (match home {
        Some(d) => seq![
            (d, ".config/drift/config.toml"@),
            (d, ".config/drift/config.yaml"@),
            (d, ".config/drift/config.yml"@),
            (d, ".config/drift/config.json"@),
            (d, ".drift.toml"@),
        ],
        None => seq![],
    })
}

/// An optional text without its machine type.
pub open spec fn opt_text(s: Option<&str>) -> Option<Seq<char>> {
    match s {
        Some(t) => Some(t@),
        None => None,
    }
}

/// The places of a config file, in the order in which they are tried: below
/// `$XDG_CONFIG_HOME`, below `~/.config`, then the dotfile `~/.drift.toml`.
pub fn config_candidates(xdg: Option<&str>, home: Option<&str>) -> (r: Vec<(String, &'static str)>)
    ensures
        r@.map_values(|p: (String, &'static str)| (p.0@, p.1@)) == candidates(
            opt_text(xdg),
            opt_text(home),
        ),
{
    let mut out: Vec<(String, &'static str)> = Vec::new();
    if let Some(d) = xdg {
        out.push((d.to_string(), "drift/config.toml"));
        out.push((d.to_string(), "drift/config.yaml"));
        out.push((d.to_string(), "drift/config.yml"));
        out.push((d.to_string(), "drift/config.json"));
    }
    if let Some(d) = home {
        out.push((d.to_string(), ".config/drift/config.toml"));
        out.push((d.to_string(), ".config/drift/config.yaml"));
        out.push((d.to_string(), ".config/drift/config.yml"));
        out.push((d.to_string(), ".config/drift/config.json"));
        out.push((d.to_string(), ".drift.toml"));
    }
    assert(out@.map_values(|p: (String, &'static str)| (p.0@, p.1@)) =~= candidates(
        opt_text(xdg),
        opt_text(home),
    ));
    out
}

/// The language of a config file.
#[derive(Debug, Clone, Copy, PartialEq, Eq, Structural)]
pub enum Format {
    Json,
    Yaml,
    Toml,
}

/// The language of a config file, by its extension.
pub fn config_format(ext: &str) -> (r: Format)
    ensures
        r == if ext@ == "json"@ {
            Format::Json
        } else if ext@ == "yaml"@ || ext@ == "yml"@ {
            Format::Yaml
        } else {
            Format::Toml
        },
{
    if same(ext, "json") {
        Format::Json
    } else if same(ext, "yaml") || same(ext, "yml") {
        Format::Yaml
    } else {
        Format::Toml
    }
}

/// Without a config file and without git config, the defaults hold, and the
/// theme is `ansi`.
pub proof fn law_defaults()
    ensures
        loaded(None, None) == (ConfigView { theme: "ansi"@, ..default_config() }),
{
}

/// A loaded theme has a name.
pub proof fn law_theme_is_set(file: Option<ConfigView>, git: Option<Seq<char>>)
    ensures
        loaded(file, git).theme.len() > 0,
{
    reveal_strlit("ansi");
}

/// What git config does not mention stays as it was.
pub proof fn law_unmentioned_settings_stay(
    es: Seq<Entry>,
    key: Seq<char>,
    text: Seq<char>,
    flag: bool,
    size: nat,
)
    requires
        forall|k: int| 0 <= k < es.len() ==> (#[trigger] es[k]).0 != key,
    ensures
        text_setting(es, key, text) == text,
        flag_setting(es, key, flag) == flag,
        size_setting(es, key, size) == size,
    decreases es.len(),
{
    if es.len() > 0 {
        assert(es.last() == es[es.len() - 1]);
        law_unmentioned_settings_stay(es.drop_last(), key, text, flag, size);
    }
}

/// A text that git config sets overrides whatever was there, and the last
/// value of its key counts.
pub proof fn law_git_overrides_text(es: Seq<Entry>, key: Seq<char>, unset: Seq<char>, k: int)
    requires
        0 <= k < es.len(),
        es[k].0 == key,
        forall|j: int| k < j < es.len() ==> (#[trigger] es[j]).0 != key,
    ensures
        text_setting(es, key, unset) == es[k].1,
    decreases es.len(),
{
    if k < es.len() - 1 {
        assert(es.last() == es[es.len() - 1]);
        law_git_overrides_text(es.drop_last(), key, unset, k);
    }
}

/// A color that git config sets overrides whatever was there, and the last
/// value of its key counts.
pub proof fn law_git_overrides_color(es: Seq<Entry>, field: Seq<char>, unset: Seq<char>, k: int)
    requires
        0 <= k < es.len(),
        after_prefix(es[k].0, "colors."@) == Some(field),
        forall|j: int|
            k < j < es.len() ==> after_prefix((#[trigger] es[j]).0, "colors."@) != Some(field),
    ensures
        color_setting(es, field, unset) == es[k].1,
    decreases es.len(),
{
    if k < es.len() - 1 {
        assert(es.last() == es[es.len() - 1]);
        law_git_overrides_color(es.drop_last(), field, unset, k);
    }
}

/// A style that git config sets overrides whatever was there, and the last
/// value of its key counts.
pub proof fn law_git_overrides_style(
    es: Seq<Entry>,
    name: Seq<char>,
    unset: Map<Seq<char>, Seq<char>>,
    k: int,
)
    requires
        0 <= k < es.len(),
        after_prefix(es[k].0, "styles."@) == Some(name),
        forall|j: int|
            k < j < es.len() ==> after_prefix((#[trigger] es[j]).0, "styles."@) != Some(name),
    ensures
        style_settings(es, unset).dom().contains(name),
        style_settings(es, unset)[name] == es[k].1,
    decreases es.len(),
{
    if k < es.len() - 1 {
        assert(es.last() == es[es.len() - 1]);
        law_git_overrides_style(es.drop_last(), name, unset, k);
    }
}

/// The words of a switch, in any case: `true`, `yes`, `on` and `1` turn it on,
/// `false`, `no`, `off` and `0` turn it off, and any other text is no switch.
pub proof fn law_switch_words(v: Seq<char>)
    ensures
        bool_of(v) == Some(true) <==> lower(v) == "true"@ || lower(v) == "yes"@ || lower(v) == "on"@
            || lower(v) == "1"@,
        bool_of(v) == Some(false) <==> lower(v) == "false"@ || lower(v) == "no"@ || lower(v)
            == "off"@ || lower(v) == "0"@,
{
    reveal_strlit("true");
    reveal_strlit("yes");
    reveal_strlit("on");
    reveal_strlit("1");
    reveal_strlit("false");
    reveal_strlit("no");
    reveal_strlit("off");
    reveal_strlit("0");
    let l = lower(v);
    if l == "true"@ || l == "yes"@ || l == "on"@ || l == "1"@ {
        assert(l[0] == 't' || l[0] == 'y' || l[0] == 'o' || l[0] == '1');
        assert(l.len() > 1 ==> l[1] != 'f');
    }
}

/// A switch that git config sets to one of its words last has that value,
/// whatever it was before.
pub proof fn law_git_overrides_flag(
    es: Seq<Entry>,
    key: Seq<char>,
    unset: bool,
    k: int,
    on: bool,
)
    requires
        0 <= k < es.len(),
        es[k].0 == key,
        on ==> lower(es[k].1) == "true"@ || lower(es[k].1) == "yes"@ || lower(es[k].1) == "on"@
            || lower(es[k].1) == "1"@,
        !on ==> lower(es[k].1) == "false"@ || lower(es[k].1) == "no"@ || lower(es[k].1) == "off"@
            || lower(es[k].1) == "0"@,
        forall|j: int| k < j < es.len() ==> (#[trigger] es[j]).0 != key,
    ensures
        flag_setting(es, key, unset) == on,
    decreases es.len(),
{
    if k < es.len() - 1 {
        assert(es.last() == es[es.len() - 1]);
        law_git_overrides_flag(es.drop_last(), key, unset, k, on);
    } else {
        law_switch_words(es[k].1);
    }
}

/// A size that git config sets to a number last has that value.
pub proof fn law_git_overrides_size(es: Seq<Entry>, key: Seq<char>, unset: nat, k: int, n: nat)
    requires
        0 <= k < es.len(),
        es[k] == (key, decimal(n)),
        n <= usize::MAX,
        forall|j: int| k < j < es.len() ==> (#[trigger] es[j]).0 != key,
    ensures
        size_setting(es, key, unset) == n,
    decreases es.len(),
{
    law_numbers_read_back(n);
    if k < es.len() - 1 {
        assert(es.last() == es[es.len() - 1]);
        law_git_overrides_size(es.drop_last(), key, unset, k, n);
    } else {
        assert(number(decimal(n), 10, usize::MAX as nat) == Some(n));
    }
}

/// Which key sets which setting, and that git config comes over the file.
pub proof fn law_keys_of_the_settings(c: ConfigView, out: Seq<char>)
    ensures
        ({
            let es = git_entries(lines(out));
            let r = loaded(Some(c), Some(out));
            &&& r.theme == text_setting(es, "theme"@, c.theme) || text_setting(
                es,
                "theme"@,
                c.theme,
            ).len() == 0
            &&& r.syntax == flag_setting(es, "syntax"@, c.syntax)
            &&& r.intraline == flag_setting(es, "intraline"@, c.intraline)
            &&& r.line_numbers == flag_setting(es, "line-numbers"@, c.line_numbers)
            &&& r.tab_width == size_setting(es, "tab-width"@, c.tab_width)
            &&& r.wrap_symbol == text_setting(es, "wrap-symbol"@, c.wrap_symbol)
            &&& r.expand_symbol == text_setting(es, "expand-symbol"@, c.expand_symbol)
            &&& r.collapse_symbol == text_setting(es, "collapse-symbol"@, c.collapse_symbol)
            &&& r.context_symbol == text_setting(es, "context-symbol"@, c.context_symbol)
            &&& r.sidebar == text_setting(es, "sidebar"@, c.sidebar)
            &&& r.sidebar_width == size_setting(es, "sidebar-width"@, c.sidebar_width)
            &&& r.sidebar_side == text_setting(es, "sidebar-side"@, c.sidebar_side)
            &&& r.editor == text_setting(es, "editor"@, c.editor)
            &&& r.styles == style_settings(es, c.styles)
        }),
{
}

/// Which key sets which color.
pub proof fn law_keys_of_the_colors(c: ConfigView, out: Seq<char>)
    ensures
        ({
            let es = git_entries(lines(out));
            let r = loaded(Some(c), Some(out)).colors;
            &&& r.add == color_setting(es, "add"@, c.colors.add)
            &&& r.remove == color_setting(es, "remove"@, c.colors.remove)
            &&& r.context == color_setting(es, "context"@, c.colors.context)
            &&& r.header == color_setting(es, "header"@, c.colors.header)
            &&& r.line_number == color_setting(es, "line-number"@, c.colors.line_number)
            &&& r.primary == color_setting(es, "primary"@, c.colors.primary)
            &&& r.secondary == color_setting(es, "secondary"@, c.colors.secondary)
            &&& r.foreground == color_setting(es, "foreground"@, c.colors.foreground)
            &&& r.background == color_setting(es, "background"@, c.colors.background)
            &&& r.muted == color_setting(es, "muted"@, c.colors.muted)
            &&& r.surface == color_setting(es, "surface"@, c.colors.surface)
            &&& r.cursor == color_setting(es, "cursor"@, c.colors.cursor)
            &&& r.add_line == color_setting(es, "add-line"@, c.colors.add_line)
            &&& r.remove_line == color_setting(es, "remove-line"@, c.colors.remove_line)
            &&& r.header_line == color_setting(es, "header-line"@, c.colors.header_line)
            &&& r.add_emph == color_setting(es, "add-emph"@, c.colors.add_emph)
            &&& r.remove_emph == color_setting(es, "remove-emph"@, c.colors.remove_emph)
        }),
{
}

/// A line of git's output is a key of the section and its value: the name of
/// the section goes, the key counts in any case, and white space around the
/// value does not count.
pub proof fn law_git_lines(key: Seq<char>, value: Seq<char>)
    requires
        key.len() > 0,
        forall|i: int| 0 <= i < key.len() ==> !is_space(#[trigger] key[i]),
        !starts(key, "drift."@),
    ensures
        git_entry("drift."@ + key + seq![' '] + value) == Some((lower(key), trim(value))),
        git_entry("drift."@ + key) is None,
{
    reveal_strlit("drift.");
    let p = "drift."@;
    let bare = p + key;
    let line = bare + seq![' '] + value;
    let n = bare.len() as int;
    lemma_skip_word(line, 0);
    lemma_skip_word(bare, 0);
    assert forall|i: int| 0 <= i < n implies !is_space(#[trigger] bare[i]) by {
        if i >= 6 {
            assert(bare[i] == key[i - 6]);
        }
    }
    assert forall|i: int| 0 <= i < n implies line[i] == bare[i] by {}
    assert(line[n] == ' ');
    let e = skip_word(line, 0);
    assert(e == n) by {
        if e < n {
            assert(line[e] == bare[e]);
        } else if e > n {
            assert(is_space(line[n]));
        }
    }
    assert(skip_word(bare, 0) == n);
    assert(line.take(n) =~= bare);
    assert(line.skip(n + 1) =~= value);
    assert(bare.take(6) =~= p);
    assert(bare.skip(6) =~= key);
    reveal_with_fuel(strip_all, 2);
}

/// The entries of git's output are those of its lines, in order.
pub proof fn law_git_entries_in_order(a: Seq<Seq<char>>, l: Seq<char>)
    ensures
        git_entries(Seq::empty()) == Seq::<Entry>::empty(),
        git_entry(l) is None ==> git_entries(a.push(l)) == git_entries(a),
        git_entry(l) is Some ==> git_entries(a.push(l)) == git_entries(a).push(git_entry(l)->0),
{
    assert(a.push(l).drop_last() =~= a);
}

/// The defaults that the settings are documented to have.
pub proof fn law_documented_defaults()
    ensures
        ({
            let d = loaded(None, None);
            &&& d.theme == "ansi"@
            &&& d.syntax && d.intraline && d.line_numbers
            &&& d.tab_width == 4
            &&& d.wrap_symbol == "↪"@
            &&& d.expand_symbol == "›"@
            &&& d.collapse_symbol == "⌄"@
            &&& d.context_symbol == "⋯"@
            &&& d.sidebar == "auto"@
            &&& d.sidebar_width == 30
            &&& d.sidebar_side == "left"@
            &&& d.editor.len() == 0
            &&& d.colors.add.len() == 0 && d.colors.remove.len() == 0
            &&& d.styles == Map::<Seq<char>, Seq<char>>::empty()
        }),
{
}

/// A config file is looked for below the config directory that is set before the
/// one in the home directory, and there last as the dotfile; a file in TOML comes
/// before one in YAML, and that before one in JSON.
pub proof fn law_config_files_are_tried_in_order(x: Seq<char>, h: Seq<char>)
    ensures
        ({
            let set = candidates(Some(x), None);
            let home = candidates(None, Some(h));
            &&& candidates(Some(x), Some(h)) == set + home
            &&& candidates(None, None).len() == 0
            &&& set.len() == 4 && home.len() == 5
            &&& forall|k: int| 0 <= k < 4 ==> (#[trigger] set[k]).0 == x
            &&& forall|k: int| 0 <= k < 5 ==> (#[trigger] home[k]).0 == h
            &&& set[0].1 == "drift/config.toml"@ && home[0].1 == ".config/drift/config.toml"@
            &&& set[1].1 == "drift/config.yaml"@ && home[1].1 == ".config/drift/config.yaml"@
            &&& set[2].1 == "drift/config.yml"@ && home[2].1 == ".config/drift/config.yml"@
            &&& set[3].1 == "drift/config.json"@ && home[3].1 == ".config/drift/config.json"@
            &&& home[4].1 == ".drift.toml"@
        }),
{
    assert(candidates(Some(x), Some(h)) == candidates(Some(x), None) + candidates(None, Some(h)));
}

/// A style of git config stands under the name behind `styles.`; the last one of
/// a name counts, and a key of another section sets no style.
pub proof fn law_git_sets_styles(
    es: Seq<Entry>,
    unset: Map<Seq<char>, Seq<char>>,
    name: Seq<char>,
    key: Seq<char>,
    val: Seq<char>,
)
    ensures
        style_settings(es.push(("styles."@ + name, val)), unset) == style_settings(es, unset).insert(
            name,
            val,
        ),
        !starts(key, "styles."@) ==> style_settings(es.push((key, val)), unset) == style_settings(
            es,
            unset,
        ),
        style_settings(seq![], unset) == unset,
{
    reveal_strlit("styles.");
    let k = "styles."@ + name;
    assert(k.take(7) == "styles."@);
    assert(k.skip(7) == name);
    assert(es.push((k, val)).drop_last() == es);
    assert(es.push((key, val)).drop_last() == es);
}

/// A value that a switch or a size cannot read is passed over: the setting stays
/// what it was before.
pub proof fn law_unreadable_values_are_passed_over(
    es: Seq<Entry>,
    key: Seq<char>,
    val: Seq<char>,
    on: bool,
    size: nat,
)
    ensures
        ({
            let l = lower(val);
            l != "true"@ && l != "yes"@ && l != "on"@ && l != "1"@ && l != "false"@ && l != "no"@
                && l != "off"@ && l != "0"@ ==> flag_setting(es.push((key, val)), key, on)
                == flag_setting(es, key, on)
        }),
        val.len() == 0 || !('0' <= val.last() <= '9') ==> size_setting(
            es.push((key, val)),
            key,
            size,
        ) == size_setting(es, key, size),
{
    assert(es.push((key, val)).drop_last() == es);
    if val.len() > 1 && val[0] == '+' {
        assert(val.skip(1).last() == val.last());
    }
}

/// Without a config file git config comes over the defaults.
pub proof fn law_git_comes_over_the_defaults(git: Option<Seq<char>>)
    ensures
        loaded(None, git) == loaded(Some(default_config()), git),
{
}

} // verus!
