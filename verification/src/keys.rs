//! What key presses mean: the key bindings.

use vstd::prelude::*;

#[allow(unused_imports)]
use crate::outside::key_matches;
use crate::outside::matches_key;
use crate::text::{chars_of, control, same};
#[allow(unused_imports)]
use crate::text::is_control;

verus! {

/// Which key was pressed.
#[derive(Debug, Clone)]
pub enum KeyCode {
    /// A character key.
    Char(char),
    /// Another key, by its name: `enter`, `space`, `f1`.
    Named(String),
}

/// A key press: the key, the modifiers that were held, and the text that it
/// produces.
#[derive(Debug, Clone)]
pub struct Key {
    pub code: KeyCode,
    pub ctrl: bool,
    pub alt: bool,
    pub shift: bool,
    pub super_key: bool,
    pub hyper: bool,
    pub meta: bool,
    pub text: Option<String>,
}

/// The content of a [`KeyCode`].
pub enum CodeView {
    Char(char),
    Named(Seq<char>),
}

/// The content of a [`Key`].
pub struct KeyView {
    pub code: CodeView,
    pub ctrl: bool,
    pub alt: bool,
    pub shift: bool,
    pub super_key: bool,
    pub hyper: bool,
    pub meta: bool,
    pub text: Option<Seq<char>>,
}

impl View for KeyCode {
    type V = CodeView;

    open spec fn view(&self) -> CodeView {
        match *self {
            KeyCode::Char(c) => CodeView::Char(c),
            KeyCode::Named(name) => CodeView::Named(name@),
        }
    }
}

impl View for Key {
    type V = KeyView;

    open spec fn view(&self) -> KeyView {
        KeyView {
            code: self.code@,
            ctrl: self.ctrl,
            alt: self.alt,
            shift: self.shift,
            super_key: self.super_key,
            hyper: self.hyper,
            meta: self.meta,
            text: match self.text {
                Some(t) => Some(t@),
                None => None,
            },
        }
    }
}

/// What a key does in the diff.
#[derive(Debug, Clone, Copy, PartialEq, Eq, Structural)]
pub enum Command {
    /// Leave the viewer.
    Quit,
    /// Copy the selection or the line.
    Yank,
    /// Copy the diff of the file.
    YankFile,
    /// Start or cancel a line selection.
    Visual,
    /// Move the cursor down.
    Down,
    /// Move the cursor up.
    Up,
    /// Scroll left.
    Left,
    /// Scroll right.
    Right,
    /// Half a page down.
    HalfDown,
    /// Half a page up.
    HalfUp,
    /// A page down.
    PageDown,
    /// A page up.
    PageUp,
    /// Scroll one line down.
    LineDown,
    /// Scroll one line up.
    LineUp,
    /// To the top.
    Top,
    /// To the bottom.
    Bottom,
    /// Cursor to the top of the screen.
    High,
    /// Cursor to the middle of the screen.
    Middle,
    /// Cursor to the bottom of the screen.
    Low,
    /// Scroll to the start of the line.
    LineStart,
    /// Scroll to the end of the line.
    LineEnd,
    /// To the next hunk.
    NextHunk,
    /// To the previous hunk.
    PrevHunk,
    /// Open the search prompt.
    Search,
    /// To the next match.
    NextMatch,
    /// To the previous match.
    PrevMatch,
    /// To the next file.
    NextFile,
    /// To the previous file.
    PrevFile,
    /// Toggle the split view.
    Split,
    /// Open the file list.
    Files,
    /// Toggle the sidebar.
    Sidebar,
    /// Toggle watch mode.
    Watch,
    /// Toggle untracked files.
    Untracked,
    /// Toggle the help grid.
    Help,
    /// Open the file in the editor.
    Edit,
    /// Expand folded context, or open the file at the cursor.
    Expand,
    /// Reload the diff.
    Refresh,
    /// Anything else.
    Other,
}

/// What a key does in the file list.
#[derive(Debug, Clone, Copy, PartialEq, Eq, Structural)]
pub enum StatCommand {
    /// Leave the viewer.
    Quit,
    /// Select the next file.
    Down,
    /// Select the previous file.
    Up,
    /// Select the first file.
    Top,
    /// Select the last file.
    Bottom,
    /// Close the list.
    Close,
    /// Toggle the help grid.
    Help,
    /// Close the list at the selected file.
    Open,
    /// Reload the diff.
    Refresh,
    /// Copy the diff of the file.
    YankFile,
    /// Anything else.
    Other,
}

/// What a key does in the search prompt.
#[derive(Debug, Clone)]
pub enum PromptKey {
    /// Cancel the search.
    Escape,
    /// Confirm it.
    Enter,
    /// Take back the last character.
    Backspace,
    /// Type a text.
    Text(String),
    /// Anything else.
    Other,
}

/// The content of a [`PromptKey`].
pub enum PromptView {
    Escape,
    Enter,
    Backspace,
    Text(Seq<char>),
    Other,
}

impl View for PromptKey {
    type V = PromptView;

    open spec fn view(&self) -> PromptView {
        match *self {
            PromptKey::Escape => PromptView::Escape,
            PromptKey::Enter => PromptView::Enter,
            PromptKey::Backspace => PromptView::Backspace,
            PromptKey::Text(t) => PromptView::Text(t@),
            PromptKey::Other => PromptView::Other,
        }
    }
}

/// What a key does in the diff.
pub open spec fn command_of(k: KeyView) -> Command {
    if key_matches(k, "q"@) || key_matches(k, "ctrl+c"@) {
        Command::Quit
    } else if key_matches(k, "y"@) {
        Command::Yank
    } else if key_matches(k, "Y"@) {
        Command::YankFile
    } else if key_matches(k, "V"@) {
        Command::Visual
    } else if key_matches(k, "j"@) || key_matches(k, "down"@) {
        Command::Down
    } else if key_matches(k, "k"@) || key_matches(k, "up"@) {
        Command::Up
    } else if key_matches(k, "h"@) || key_matches(k, "left"@) {
        Command::Left
    } else if key_matches(k, "l"@) || key_matches(k, "right"@) {
        Command::Right
    } else if key_matches(k, "d"@) || key_matches(k, "ctrl+d"@) {
        Command::HalfDown
    } else if key_matches(k, "u"@) || key_matches(k, "ctrl+u"@) {
        Command::HalfUp
    } else if key_matches(k, "ctrl+f"@) || key_matches(k, "f"@) || key_matches(k, "pagedown"@)
        || key_matches(k, "space"@) {
        Command::PageDown
    } else if key_matches(k, "ctrl+b"@) || key_matches(k, "b"@) || key_matches(k, "pageup"@) {
        Command::PageUp
    } else if key_matches(k, "ctrl+e"@) {
        Command::LineDown
    } else if key_matches(k, "ctrl+y"@) {
        Command::LineUp
    } else if key_matches(k, "g"@) || key_matches(k, "home"@) {
        Command::Top
    } else if key_matches(k, "G"@) || key_matches(k, "end"@) {
        Command::Bottom
    } else if key_matches(k, "H"@) {
        Command::High
    } else if key_matches(k, "M"@) {
        Command::Middle
    } else if key_matches(k, "L"@) {
        Command::Low
    } else if key_matches(k, "0"@) || key_matches(k, "^"@) {
        Command::LineStart
    } else if key_matches(k, "$"@) {
        Command::LineEnd
    } else if key_matches(k, "}"@) || key_matches(k, ")"@) {
        Command::NextHunk
    } else if key_matches(k, "{"@) || key_matches(k, "("@) {
        Command::PrevHunk
    } else if key_matches(k, "/"@) {
        Command::Search
    } else if key_matches(k, "n"@) {
        Command::NextMatch
    } else if key_matches(k, "N"@) {
        Command::PrevMatch
    } else if key_matches(k, "tab"@) || key_matches(k, "]"@) {
        Command::NextFile
    } else if key_matches(k, "shift+tab"@) || key_matches(k, "["@) {
        Command::PrevFile
    } else if key_matches(k, "s"@) {
        Command::Split
    } else if key_matches(k, "F"@) {
        Command::Files
    } else if key_matches(k, "B"@) {
        Command::Sidebar
    } else if key_matches(k, "w"@) {
        Command::Watch
    } else if key_matches(k, "a"@) {
        Command::Untracked
    } else if key_matches(k, "?"@) {
        Command::Help
    } else if key_matches(k, "v"@) {
        Command::Edit
    } else if key_matches(k, "enter"@) {
        Command::Expand
    } else if key_matches(k, "r"@) {
        Command::Refresh
    } else {
        Command::Other
    }
}

/// What a key does in the file list.
pub open spec fn stat_command_of(k: KeyView) -> StatCommand {
    if key_matches(k, "q"@) || key_matches(k, "ctrl+c"@) {
        StatCommand::Quit
    } else if key_matches(k, "j"@) || key_matches(k, "down"@) {
        StatCommand::Down
    } else if key_matches(k, "k"@) || key_matches(k, "up"@) {
        StatCommand::Up
    } else if key_matches(k, "g"@) || key_matches(k, "home"@) {
        StatCommand::Top
    } else if key_matches(k, "G"@) || key_matches(k, "end"@) {
        StatCommand::Bottom
    } else if key_matches(k, "F"@) || key_matches(k, "tab"@) {
        StatCommand::Close
    } else if key_matches(k, "?"@) {
        StatCommand::Help
    } else if key_matches(k, "enter"@) || key_matches(k, "v"@) {
        StatCommand::Open
    } else if key_matches(k, "r"@) {
        StatCommand::Refresh
    } else if key_matches(k, "Y"@) {
        StatCommand::YankFile
    } else {
        StatCommand::Other
    }
}

/// Whether a text has a control character.
pub open spec fn has_control(s: Seq<char>) -> bool {
    exists|i: int| 0 <= i < s.len() && is_control(#[trigger] s[i])
}

/// The printable text of a key press: what it carries, else its character;
/// none for a chord.
pub open spec fn typed(
    chord: bool,
    text: Option<Seq<char>>,
    character: Option<char>,
) -> Option<Seq<char>> {
    if chord {
        None
    } else if text is Some && text->0.len() > 0 && !has_control(text->0) {
        text
    } else if character is Some && !is_control(character->0) {
        Some(seq![character->0])
    } else {
        None
    }
}

/// The character of a key.
pub open spec fn char_of(code: CodeView) -> Option<char> {
    match code {
        CodeView::Char(c) => Some(c),
        CodeView::Named(name) => if name == "space"@ {
            Some(' ')
        } else {
            None
        },
    }
}

/// The printable text of a key press.
pub open spec fn typed_of(k: KeyView) -> Option<Seq<char>> {
    typed(k.ctrl || k.alt || k.super_key, k.text, char_of(k.code))
}

/// What a key does in the search prompt.
pub open spec fn prompt_key_of(k: KeyView) -> PromptView {
    if key_matches(k, "escape"@) {
        PromptView::Escape
    } else if key_matches(k, "enter"@) {
        PromptView::Enter
    } else if key_matches(k, "backspace"@) {
        PromptView::Backspace
    } else {
        match typed_of(k) {
            Some(t) => PromptView::Text(t),
            None => PromptView::Other,
        }
    }
}

/// What a key does in the diff.
pub fn command(k: &Key) -> (r: Command)
    ensures
        r == command_of(k@),
{
    if matches_key(k, "q") || matches_key(k, "ctrl+c") {
        Command::Quit
    } else if matches_key(k, "y") {
        Command::Yank
    } else if matches_key(k, "Y") {
        Command::YankFile
    } else if matches_key(k, "V") {
        Command::Visual
    } else if matches_key(k, "j") || matches_key(k, "down") {
        Command::Down
    } else if matches_key(k, "k") || matches_key(k, "up") {
        Command::Up
    } else if matches_key(k, "h") || matches_key(k, "left") {
        Command::Left
    } else if matches_key(k, "l") || matches_key(k, "right") {
        Command::Right
    } else if matches_key(k, "d") || matches_key(k, "ctrl+d") {
        Command::HalfDown
    } else if matches_key(k, "u") || matches_key(k, "ctrl+u") {
        Command::HalfUp
    } else if matches_key(k, "ctrl+f") || matches_key(k, "f") || matches_key(k, "pagedown")
        || matches_key(k, "space") {
        Command::PageDown
    } else if matches_key(k, "ctrl+b") || matches_key(k, "b") || matches_key(k, "pageup") {
        Command::PageUp
    } else if matches_key(k, "ctrl+e") {
        Command::LineDown
    } else if matches_key(k, "ctrl+y") {
        Command::LineUp
    } else if matches_key(k, "g") || matches_key(k, "home") {
        Command::Top
    } else if matches_key(k, "G") || matches_key(k, "end") {
        Command::Bottom
    } else if matches_key(k, "H") {
        Command::High
    } else if matches_key(k, "M") {
        Command::Middle
    } else if matches_key(k, "L") {
        Command::Low
    } else if matches_key(k, "0") || matches_key(k, "^") {
        Command::LineStart
    } else if matches_key(k, "$") {
        Command::LineEnd
    } else if matches_key(k, "}") || matches_key(k, ")") {
        Command::NextHunk
    } else if matches_key(k, "{") || matches_key(k, "(") {
        Command::PrevHunk
    } else if matches_key(k, "/") {
        Command::Search
    } else if matches_key(k, "n") {
        Command::NextMatch
    } else if matches_key(k, "N") {
        Command::PrevMatch
    } else if matches_key(k, "tab") || matches_key(k, "]") {
        Command::NextFile
    } else if matches_key(k, "shift+tab") || matches_key(k, "[") {
        Command::PrevFile
    } else if matches_key(k, "s") {
        Command::Split
    } else if matches_key(k, "F") {
        Command::Files
    } else if matches_key(k, "B") {
        Command::Sidebar
    } else if matches_key(k, "w") {
        Command::Watch
    } else if matches_key(k, "a") {
        Command::Untracked
    } else if matches_key(k, "?") {
        Command::Help
    } else if matches_key(k, "v") {
        Command::Edit
    } else if matches_key(k, "enter") {
        Command::Expand
    } else if matches_key(k, "r") {
        Command::Refresh
    } else {
        Command::Other
    }
}

/// What a key does in the file list.
pub fn stat_command(k: &Key) -> (r: StatCommand)
    ensures
        r == stat_command_of(k@),
{
    if matches_key(k, "q") || matches_key(k, "ctrl+c") {
        StatCommand::Quit
    } else if matches_key(k, "j") || matches_key(k, "down") {
        StatCommand::Down
    } else if matches_key(k, "k") || matches_key(k, "up") {
        StatCommand::Up
    } else if matches_key(k, "g") || matches_key(k, "home") {
        StatCommand::Top
    } else if matches_key(k, "G") || matches_key(k, "end") {
        StatCommand::Bottom
    } else if matches_key(k, "F") || matches_key(k, "tab") {
        StatCommand::Close
    } else if matches_key(k, "?") {
        StatCommand::Help
    } else if matches_key(k, "enter") || matches_key(k, "v") {
        StatCommand::Open
    } else if matches_key(k, "r") {
        StatCommand::Refresh
    } else if matches_key(k, "Y") {
        StatCommand::YankFile
    } else {
        StatCommand::Other
    }
}

/// The printable text of a key press, given what it carries.
pub fn typed_with(chord: bool, text: Option<String>, character: Option<char>) -> (r: Option<String>)
    ensures
        match r {
            Some(t) => Some(t@),
            None => None,
        } == typed(
            chord,
            match text {
                Some(t) => Some(t@),
                None => None,
            },
            character,
        ),
{
    if chord {
        return None;
    }
    if let Some(t) = text {
        let cs = chars_of(&t);
        let mut i: usize = 0;
        while i < cs.len() && !control(cs[i])
            invariant
                i <= cs.len(),
                forall|k: int| 0 <= k < i ==> !is_control(#[trigger] cs@[k]),
            decreases cs.len() - i,
        {
            i += 1;
        }
        if cs.len() > 0 && i == cs.len() {
            return Some(t);
        }
        assert(cs@.len() > 0 ==> has_control(t@)) by {
            if cs@.len() > 0 {
                assert(is_control(t@[i as int]));
            }
        }
    }
    match character {
        Some(c) => {
            if control(c) {
                None
            } else {
                let mut s = String::new();
                s.push(c);
                assert(s@ =~= seq![c]);
                Some(s)
            }
        },
        None => None,
    }
}

/// The printable text a key produces (glyph, so uppercase and shifted symbols
/// come through), or None for control/named keys and modifier chords, for
/// feeding the search prompt.
pub fn typed_text(k: &Key) -> (r: Option<String>)
    ensures
        match r {
            Some(t) => Some(t@),
            None => None,
        } == typed_of(k@),
{
    let character = match &k.code {
        KeyCode::Char(c) => Some(*c),
        KeyCode::Named(name) => if same(name, "space") {
            Some(' ')
        } else {
            None
        },
    };
    typed_with(k.ctrl || k.alt || k.super_key, k.text.clone(), character)
}

/// What a key does in the search prompt.
pub fn prompt_key(k: &Key) -> (r: PromptKey)
    ensures
        r@ == prompt_key_of(k@),
{
    if matches_key(k, "escape") {
        PromptKey::Escape
    } else if matches_key(k, "enter") {
        PromptKey::Enter
    } else if matches_key(k, "backspace") {
        PromptKey::Backspace
    } else {
        match typed_text(k) {
            Some(t) => PromptKey::Text(t),
            None => PromptKey::Other,
        }
    }
}

/// What tells the patterns of the keys apart.
proof fn lemma_patterns_differ()
    ensures
        "q"@.len() == 1 && "q"@[0] == 'q',
        "ctrl+c"@.len() == 6 && "ctrl+c"@[0] == 'c' && "ctrl+c"@[5] == 'c',
        "y"@.len() == 1 && "y"@[0] == 'y',
        "Y"@.len() == 1 && "Y"@[0] == 'Y',
        "V"@.len() == 1 && "V"@[0] == 'V',
        "j"@.len() == 1 && "j"@[0] == 'j',
        "down"@.len() == 4 && "down"@[0] == 'd',
        "k"@.len() == 1 && "k"@[0] == 'k',
        "up"@.len() == 2 && "up"@[0] == 'u',
        "h"@.len() == 1 && "h"@[0] == 'h',
        "left"@.len() == 4 && "left"@[0] == 'l',
        "l"@.len() == 1 && "l"@[0] == 'l',
        "right"@.len() == 5 && "right"@[0] == 'r',
        "d"@.len() == 1 && "d"@[0] == 'd',
        "ctrl+d"@.len() == 6 && "ctrl+d"@[0] == 'c' && "ctrl+d"@[5] == 'd',
        "u"@.len() == 1 && "u"@[0] == 'u',
        "ctrl+u"@.len() == 6 && "ctrl+u"@[0] == 'c' && "ctrl+u"@[5] == 'u',
        "ctrl+f"@.len() == 6 && "ctrl+f"@[0] == 'c' && "ctrl+f"@[5] == 'f',
        "f"@.len() == 1 && "f"@[0] == 'f',
        "pagedown"@.len() == 8 && "pagedown"@[0] == 'p',
        "space"@.len() == 5 && "space"@[0] == 's',
        "ctrl+b"@.len() == 6 && "ctrl+b"@[0] == 'c' && "ctrl+b"@[5] == 'b',
        "b"@.len() == 1 && "b"@[0] == 'b',
        "pageup"@.len() == 6 && "pageup"@[0] == 'p',
        "ctrl+e"@.len() == 6 && "ctrl+e"@[0] == 'c' && "ctrl+e"@[5] == 'e',
        "ctrl+y"@.len() == 6 && "ctrl+y"@[0] == 'c' && "ctrl+y"@[5] == 'y',
        "g"@.len() == 1 && "g"@[0] == 'g',
        "home"@.len() == 4 && "home"@[0] == 'h',
        "G"@.len() == 1 && "G"@[0] == 'G',
        "end"@.len() == 3 && "end"@[0] == 'e',
        "H"@.len() == 1 && "H"@[0] == 'H',
        "M"@.len() == 1 && "M"@[0] == 'M',
        "L"@.len() == 1 && "L"@[0] == 'L',
        "0"@.len() == 1 && "0"@[0] == '0',
        "^"@.len() == 1 && "^"@[0] == '^',
        "$"@.len() == 1 && "$"@[0] == '$',
        "}"@.len() == 1 && "}"@[0] == '}',
        ")"@.len() == 1 && ")"@[0] == ')',
        "{"@.len() == 1 && "{"@[0] == '{',
        "("@.len() == 1 && "("@[0] == '(',
        "/"@.len() == 1 && "/"@[0] == '/',
        "n"@.len() == 1 && "n"@[0] == 'n',
        "N"@.len() == 1 && "N"@[0] == 'N',
        "tab"@.len() == 3 && "tab"@[0] == 't',
        "]"@.len() == 1 && "]"@[0] == ']',
        "shift+tab"@.len() == 9 && "shift+tab"@[0] == 's',
        "["@.len() == 1 && "["@[0] == '[',
        "s"@.len() == 1 && "s"@[0] == 's',
        "F"@.len() == 1 && "F"@[0] == 'F',
        "B"@.len() == 1 && "B"@[0] == 'B',
        "w"@.len() == 1 && "w"@[0] == 'w',
        "a"@.len() == 1 && "a"@[0] == 'a',
        "?"@.len() == 1 && "?"@[0] == '?',
        "v"@.len() == 1 && "v"@[0] == 'v',
        "enter"@.len() == 5 && "enter"@[0] == 'e',
        "r"@.len() == 1 && "r"@[0] == 'r',
{
    reveal_strlit("q");
    reveal_strlit("ctrl+c");
    reveal_strlit("y");
    reveal_strlit("Y");
    reveal_strlit("V");
    reveal_strlit("j");
    reveal_strlit("down");
    reveal_strlit("k");
    reveal_strlit("up");
    reveal_strlit("h");
    reveal_strlit("left");
    reveal_strlit("l");
    reveal_strlit("right");
    reveal_strlit("d");
    reveal_strlit("ctrl+d");
    reveal_strlit("u");
    reveal_strlit("ctrl+u");
    reveal_strlit("ctrl+f");
    reveal_strlit("f");
    reveal_strlit("pagedown");
    reveal_strlit("space");
    reveal_strlit("ctrl+b");
    reveal_strlit("b");
    reveal_strlit("pageup");
    reveal_strlit("ctrl+e");
    reveal_strlit("ctrl+y");
    reveal_strlit("g");
    reveal_strlit("home");
    reveal_strlit("G");
    reveal_strlit("end");
    reveal_strlit("H");
    reveal_strlit("M");
    reveal_strlit("L");
    reveal_strlit("0");
    reveal_strlit("^");
    reveal_strlit("$");
    reveal_strlit("}");
    reveal_strlit(")");
    reveal_strlit("{");
    reveal_strlit("(");
    reveal_strlit("/");
    reveal_strlit("n");
    reveal_strlit("N");
    reveal_strlit("tab");
    reveal_strlit("]");
    reveal_strlit("shift+tab");
    reveal_strlit("[");
    reveal_strlit("s");
    reveal_strlit("F");
    reveal_strlit("B");
    reveal_strlit("w");
    reveal_strlit("a");
    reveal_strlit("?");
    reveal_strlit("v");
    reveal_strlit("enter");
    reveal_strlit("r");
}

/// The keys of the diff: what a key does that matches one pattern alone.
#[verifier::rlimit(60)]
pub proof fn law_keys_of_the_diff(k: KeyView, p: Seq<char>)
    requires
        key_matches(k, p),
        forall|q: Seq<char>| #[trigger] key_matches(k, q) ==> q == p,
    ensures
        ({
            &&& p == "q"@ || p == "ctrl+c"@ ==> command_of(k) == Command::Quit
            &&& p == "y"@ ==> command_of(k) == Command::Yank
            &&& p == "Y"@ ==> command_of(k) == Command::YankFile
            &&& p == "V"@ ==> command_of(k) == Command::Visual
            &&& p == "j"@ || p == "down"@ ==> command_of(k) == Command::Down
            &&& p == "k"@ || p == "up"@ ==> command_of(k) == Command::Up
            &&& p == "h"@ || p == "left"@ ==> command_of(k) == Command::Left
            &&& p == "l"@ || p == "right"@ ==> command_of(k) == Command::Right
            &&& p == "d"@ || p == "ctrl+d"@ ==> command_of(k) == Command::HalfDown
            &&& p == "u"@ || p == "ctrl+u"@ ==> command_of(k) == Command::HalfUp
            &&& p == "ctrl+f"@ || p == "f"@ || p == "pagedown"@ || p == "space"@ ==> command_of(k) == Command::PageDown
            &&& p == "ctrl+b"@ || p == "b"@ || p == "pageup"@ ==> command_of(k) == Command::PageUp
            &&& p == "ctrl+e"@ ==> command_of(k) == Command::LineDown
            &&& p == "ctrl+y"@ ==> command_of(k) == Command::LineUp
            &&& p == "g"@ || p == "home"@ ==> command_of(k) == Command::Top
            &&& p == "G"@ || p == "end"@ ==> command_of(k) == Command::Bottom
            &&& p == "H"@ ==> command_of(k) == Command::High
            &&& p == "M"@ ==> command_of(k) == Command::Middle
            &&& p == "L"@ ==> command_of(k) == Command::Low
            &&& p == "0"@ || p == "^"@ ==> command_of(k) == Command::LineStart
            &&& p == "$"@ ==> command_of(k) == Command::LineEnd
            &&& p == "}"@ || p == ")"@ ==> command_of(k) == Command::NextHunk
            &&& p == "{"@ || p == "("@ ==> command_of(k) == Command::PrevHunk
            &&& p == "/"@ ==> command_of(k) == Command::Search
            &&& p == "n"@ ==> command_of(k) == Command::NextMatch
            &&& p == "N"@ ==> command_of(k) == Command::PrevMatch
            &&& p == "tab"@ || p == "]"@ ==> command_of(k) == Command::NextFile
            &&& p == "shift+tab"@ || p == "["@ ==> command_of(k) == Command::PrevFile
            &&& p == "s"@ ==> command_of(k) == Command::Split
            &&& p == "F"@ ==> command_of(k) == Command::Files
            &&& p == "B"@ ==> command_of(k) == Command::Sidebar
            &&& p == "w"@ ==> command_of(k) == Command::Watch
            &&& p == "a"@ ==> command_of(k) == Command::Untracked
            &&& p == "?"@ ==> command_of(k) == Command::Help
            &&& p == "v"@ ==> command_of(k) == Command::Edit
            &&& p == "enter"@ ==> command_of(k) == Command::Expand
            &&& p == "r"@ ==> command_of(k) == Command::Refresh
        }),
{
    lemma_patterns_differ();
}

/// The keys of the file list: what a key does that matches one pattern alone.
#[verifier::rlimit(60)]
pub proof fn law_keys_of_the_file_list(k: KeyView, p: Seq<char>)
    requires
        key_matches(k, p),
        forall|q: Seq<char>| #[trigger] key_matches(k, q) ==> q == p,
    ensures
        ({
            &&& p == "q"@ || p == "ctrl+c"@ ==> stat_command_of(k) == StatCommand::Quit
            &&& p == "j"@ || p == "down"@ ==> stat_command_of(k) == StatCommand::Down
            &&& p == "k"@ || p == "up"@ ==> stat_command_of(k) == StatCommand::Up
            &&& p == "g"@ || p == "home"@ ==> stat_command_of(k) == StatCommand::Top
            &&& p == "G"@ || p == "end"@ ==> stat_command_of(k) == StatCommand::Bottom
            &&& p == "F"@ || p == "tab"@ ==> stat_command_of(k) == StatCommand::Close
            &&& p == "?"@ ==> stat_command_of(k) == StatCommand::Help
            &&& p == "enter"@ || p == "v"@ ==> stat_command_of(k) == StatCommand::Open
            &&& p == "r"@ ==> stat_command_of(k) == StatCommand::Refresh
            &&& p == "Y"@ ==> stat_command_of(k) == StatCommand::YankFile
        }),
{
    lemma_patterns_differ();
}

/// The keys of the search prompt: what a key does that matches one pattern
/// alone. A key that matches none of the three types its text.
pub proof fn law_keys_of_the_prompt(k: KeyView, p: Seq<char>)
    requires
        forall|q: Seq<char>| #[trigger] key_matches(k, q) ==> q == p,
    ensures
        key_matches(k, "escape"@) ==> prompt_key_of(k) == PromptView::Escape,
        key_matches(k, "enter"@) ==> prompt_key_of(k) == PromptView::Enter,
        key_matches(k, "backspace"@) ==> prompt_key_of(k) == PromptView::Backspace,
        !key_matches(k, "escape"@) && !key_matches(k, "enter"@) && !key_matches(k, "backspace"@)
            && typed_of(k) is Some ==> prompt_key_of(k) == PromptView::Text(typed_of(k)->0),
        !key_matches(k, "escape"@) && !key_matches(k, "enter"@) && !key_matches(k, "backspace"@)
            && typed_of(k) is None ==> prompt_key_of(k) == PromptView::Other,
{
    reveal_strlit("escape");
    reveal_strlit("enter");
    reveal_strlit("backspace");
    assert("escape"@.len() == 6 && "enter"@.len() == 5 && "backspace"@.len() == 9);
}

/// What a key types: nothing where Ctrl, Alt or Super is held; else the text
/// that it produces, if that is printable, else its own character.
pub proof fn law_keys_type_their_text(k: KeyView)
    ensures
        k.ctrl || k.alt || k.super_key ==> typed_of(k) is None,
        !k.ctrl && !k.alt && !k.super_key && k.text is Some && k.text->0.len() > 0 && (forall|i: int|
            0 <= i < k.text->0.len() ==> !is_control(#[trigger] k.text->0[i])) ==> typed_of(k)
            == k.text,
        !k.ctrl && !k.alt && !k.super_key && k.text is None ==> match k.code {
            CodeView::Char(c) => !is_control(c) ==> typed_of(k) == Some(seq![c]),
            CodeView::Named(name) => name == "space"@ ==> typed_of(k) == Some(seq![' ']),
        },
        typed_of(k) is Some ==> typed_of(k)->0.len() > 0 && !has_control(typed_of(k)->0),
{
    if k.text is Some && k.text->0.len() > 0 && !has_control(k.text->0) {
    } else {
        match char_of(k.code) {
            Some(c) => {
                if !is_control(c) {
                    assert(!has_control(seq![c]));
                }
            },
            None => {},
        }
    }
}

} // verus!
