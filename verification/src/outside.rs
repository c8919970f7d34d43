//! The calls into other crates, each with what it is relied on for.

use uncurses::event::KeyModifiers;
use vstd::prelude::*;

#[allow(unused_imports)]
use crate::keys::KeyView;
use crate::keys::{Key, KeyCode};
#[allow(unused_imports)]
use crate::text::{byte_len, strings};

verus! {

/// How a word of a word diff changed.
#[derive(Debug, Clone, Copy, PartialEq, Eq, Structural)]
pub enum ChangeTag {
    Equal,
    Delete,
    Insert,
}

/// One word of a word diff.
#[derive(Debug, Clone)]
pub struct Change {
    pub tag: ChangeTag,
    pub value: String,
}

/// The content of a list of changes.
pub open spec fn change_views(s: Seq<Change>) -> Seq<(ChangeTag, Seq<char>)> {
    s.map_values(|c: Change| (c.tag, c.value@))
}

/// The words of the old side that a word diff walks through.
pub open spec fn old_words(c: Seq<(ChangeTag, Seq<char>)>) -> Seq<Seq<char>>
    decreases c.len(),
{
    if c.len() == 0 {
        seq![]
    } else if c.last().0 == ChangeTag::Insert {
        old_words(c.drop_last())
    } else {
        old_words(c.drop_last()).push(c.last().1)
    }
}

/// The words of the new side that a word diff walks through.
pub open spec fn new_words(c: Seq<(ChangeTag, Seq<char>)>) -> Seq<Seq<char>>
    decreases c.len(),
{
    if c.len() == 0 {
        seq![]
    } else if c.last().0 == ChangeTag::Delete {
        new_words(c.drop_last())
    } else {
        new_words(c.drop_last()).push(c.last().1)
    }
}

/// What `similar` finds between two lists of words.
pub uninterp spec fn word_changes(old: Seq<Seq<char>>, new: Seq<Seq<char>>) -> Seq<
    (ChangeTag, Seq<char>),
>;

/// Calls `similar::TextDiff::from_slices` and walks `iter_all_changes`. The
/// changes depend on the two lists of words alone. Read without the inserted
/// words they are the old list, and without the deleted ones the new list.
#[verifier::external_body]
pub(crate) fn diff_words(old: &[String], new: &[String]) -> (r: Vec<Change>)
    ensures
        change_views(r@) == word_changes(strings(old@), strings(new@)),
        old_words(change_views(r@)) == strings(old@),
        new_words(change_views(r@)) == strings(new@),
{
    let o: Vec<&str> = old.iter().map(|s| s.as_str()).collect();
    let n: Vec<&str> = new.iter().map(|s| s.as_str()).collect();
    similar::TextDiff::from_slices(&o, &n)
        .iter_all_changes()
        .map(|c| Change {
            tag: match c.tag() {
                similar::ChangeTag::Equal => ChangeTag::Equal,
                similar::ChangeTag::Delete => ChangeTag::Delete,
                similar::ChangeTag::Insert => ChangeTag::Insert,
            },
            value: c.value().to_string(),
        })
        .collect()
}

/// How the columns of a grapheme cluster are counted.
#[derive(Debug, Clone, Copy, PartialEq, Eq, Structural)]
pub enum WidthMode {
    /// The sum over its code points.
    Wc,
    /// By the cluster as a whole.
    Grapheme,
}

/// How a screen measures text: its mode, and whether characters of ambiguous
/// East Asian width are wide.
#[derive(Debug, Clone, Copy, PartialEq, Eq, Structural)]
pub struct Measure {
    pub mode: WidthMode,
    pub eaw_wide: bool,
}

/// A grapheme cluster and its columns.
pub type ClusterView = (Seq<char>, u8);

/// The content of a list of clusters.
pub open spec fn cluster_views(s: Seq<(&str, u8)>) -> Seq<ClusterView> {
    s.map_values(|c: (&str, u8)| (c.0@, c.1))
}

/// The text of a list of clusters.
pub open spec fn cluster_text(cs: Seq<ClusterView>) -> Seq<char>
    decreases cs.len(),
{
    if cs.len() == 0 {
        seq![]
    } else {
        cluster_text(cs.drop_last()) + cs.last().0
    }
}

/// The extended grapheme clusters of a text and the columns of each.
pub uninterp spec fn clusters(s: Seq<char>, m: Measure) -> Seq<ClusterView>;

/// Calls `uncurses::text::grapheme_cells`. The clusters depend on the text and
/// the way of measuring alone and are, in order, the whole text. By the
/// cluster as a whole none takes more than two columns.
#[verifier::external_body]
pub(crate) fn grapheme_cells<'a>(s: &'a str, m: Measure) -> (r: Vec<(&'a str, u8)>)
    ensures
        cluster_views(r@) == clusters(s@, m),
        cluster_text(cluster_views(r@)) == s@,
        m.mode == WidthMode::Grapheme ==> forall|k: int| 0 <= k < r@.len() ==> (#[trigger] r@[k]).1
            <= 2,
{
    let mode = match m.mode {
        WidthMode::Wc => uncurses::text::WidthMode::Wc,
        WidthMode::Grapheme => uncurses::text::WidthMode::Grapheme,
    };
    uncurses::text::grapheme_cells(s, mode, m.eaw_wide).collect()
}

/// The columns of a text taken as one grapheme cluster.
pub uninterp spec fn cluster_columns(s: Seq<char>, m: Measure) -> u8;

/// Calls `uncurses::text::WidthMode::grapheme_width`, whose result depends on
/// the text and the way of measuring alone.
#[verifier::external_body]
pub(crate) fn grapheme_width(s: &str, m: Measure) -> (r: u8)
    ensures
        r == cluster_columns(s@, m),
{
    let mode = match m.mode {
        WidthMode::Wc => uncurses::text::WidthMode::Wc,
        WidthMode::Grapheme => uncurses::text::WidthMode::Grapheme,
    };
    mode.grapheme_width(s, m.eaw_wide)
}

/// A compiled regular expression.
#[verifier::external_type_specification]
#[verifier::external_body]
pub struct ExRegex(regex::Regex);

/// Why a regular expression does not compile.
#[verifier::external_type_specification]
#[verifier::external_body]
pub struct ExRegexError(regex::Error);

/// What `regex` compiles a pattern to, where it does.
pub uninterp spec fn compiled(pattern: Seq<char>, ignore_case: bool) -> Option<regex::Regex>;

/// Calls `regex::RegexBuilder::build` with the given case rule and the other
/// settings left alone. Whether a pattern compiles, and to what, depends on the
/// pattern and the case rule.
#[verifier::external_body]
pub(crate) fn build_regex(pattern: &str, ignore_case: bool) -> (r: Result<
    regex::Regex,
    regex::Error,
>)
    ensures
        match r {
            Ok(re) => compiled(pattern@, ignore_case) == Some(re),
            Err(_) => compiled(pattern@, ignore_case) is None,
        },
{
    regex::RegexBuilder::new(pattern).case_insensitive(ignore_case).build()
}

/// The byte ranges of the matches of a regular expression in a text.
pub uninterp spec fn matches_in(re: regex::Regex, hay: Seq<char>) -> Seq<(usize, usize)>;

/// Calls `regex::Regex::find_iter` and lists where each match starts and ends.
/// The matches depend on the expression and the text; each ends where it starts
/// or after, within the bytes of the text.
#[verifier::external_body]
pub(crate) fn find_matches(re: &regex::Regex, hay: &str) -> (r: Vec<(usize, usize)>)
    ensures
        r@ == matches_in(*re, hay@),
        forall|k: int|
            0 <= k < r@.len() ==> (#[trigger] r@[k]).0 <= r@[k].1 <= byte_len(hay@),
{
    re.find_iter(hay).map(|m| (m.start(), m.end())).collect()
}

/// Whether a key press matches a pattern such as `ctrl+c`.
pub uninterp spec fn key_matches(k: KeyView, pattern: Seq<char>) -> bool;

/// Calls `uncurses::event::Key::matches` on the key press with the given key,
/// modifiers and text. Whether a pattern matches depends on these and the
/// pattern alone. A key press that carries the pattern as its text matches it.
/// A name that `uncurses` does not know stands for a key that no pattern names.
#[verifier::external_body]
pub(crate) fn matches_key(k: &Key, pattern: &str) -> (r: bool)
    ensures
        r == key_matches(k@, pattern@),
        k@.text == Some(pattern@) ==> r,
{
    let code = match &k.code {
        KeyCode::Char(c) => uncurses::event::KeyCode::Char(*c),
        KeyCode::Named(name) => name.parse().unwrap_or(uncurses::event::KeyCode::F(0)),
    };
    let mut modifiers = KeyModifiers::empty();
    modifiers.set(KeyModifiers::CTRL, k.ctrl);
    modifiers.set(KeyModifiers::ALT, k.alt);
    modifiers.set(KeyModifiers::SHIFT, k.shift);
    modifiers.set(KeyModifiers::SUPER, k.super_key);
    modifiers.set(KeyModifiers::HYPER, k.hyper);
    modifiers.set(KeyModifiers::META, k.meta);
    let text = k.text.clone();
    uncurses::event::Key { text, ..uncurses::event::Key::new(code, modifiers) }.matches(pattern)
}

/// Whether a character has the Unicode Uppercase property.
pub uninterp spec fn is_upper(c: char) -> bool;

/// Calls `char::is_uppercase`, whose result depends on the character alone.
#[verifier::external_body]
pub(crate) fn uppercase(c: char) -> (r: bool)
    ensures
        r == is_upper(c),
{
    c.is_uppercase()
}

/// A text without its terminal escape sequences.
pub uninterp spec fn without_escapes(s: Seq<char>) -> Seq<char>;

/// Calls `uncurses::ansi::strip::strip`, whose result depends on the text alone.
#[verifier::external_body]
pub(crate) fn strip_escapes(s: &str) -> (r: String)
    ensures
        r@ == without_escapes(s@),
{
    uncurses::ansi::strip::strip(s)
}

} // verus!
