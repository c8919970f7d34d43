//! The search prompt.

use vstd::prelude::*;

use crate::app::{App, Nav, Search};
use crate::keys::PromptKey;
#[allow(unused_imports)]
use crate::keys::PromptView;
use crate::search::find_in_rows;
use crate::text::{chars_of, string_of};

verus! {

/// Where a search was started from: the cursor, the viewport and the query.
pub open spec fn nav_from(nav: Nav, origin: Option<(usize, usize, String)>) -> Nav {
    match origin {
        Some((cursor, scroll, _)) => Nav { cursor, scroll, ..nav },
        None => nav,
    }
}

/// A text without its last character.
pub open spec fn backspaced(s: Seq<char>) -> Seq<char> {
    if s.len() > 0 {
        s.drop_last()
    } else {
        s
    }
}

/// Takes back the last character.
fn pop_char(s: &str) -> (r: String)
    ensures
        r@ == backspaced(s@),
{
    let mut cs = chars_of(s);
    let ghost before = cs@;
    cs.pop();
    assert(cs@ =~= backspaced(before));
    string_of(&cs)
}

impl App {
    /// Cancelling a search closes the prompt and restores where it started
    /// from, with the matches of the query of then.
    #[verifier::opaque]
    pub open spec fn search_cancelled(&self, post: App) -> bool {
        match self.search.origin {
            Some((cursor, scroll, query)) => {
                &&& post == (App {
                    search: Search {
                        query,
                        input: None,
                        origin: None,
                        matches: post.search.matches,
                        current: None,
                    },
                    nav: Nav { cursor, scroll, ..self.nav },
                    ..*self
                })
                &&& post.search.matches@ == self.hits_of(query@)
            },
            None => post == (App { search: Search { input: None, ..self.search }, ..*self }),
        }
    }

    /// Confirming a search closes the prompt and stays where it led.
    #[verifier::opaque]
    pub open spec fn search_confirmed(&self) -> App {
        App { search: Search { input: None, origin: None, ..self.search }, ..*self }
    }

    /// The viewer as it looks for the text `text` of the prompt: from where the
    /// search started, with the matches of it.
    pub open spec fn searching(&self, post: App) -> App {
        App {
            search: Search {
                query: post.search.query,
                input: post.search.input,
                origin: self.search.origin,
                matches: post.search.matches,
                current: None,
            },
            nav: nav_from(self.nav, self.search.origin),
            ..*self
        }
    }

    /// Editing the prompt searches at once: the matches are those of the text,
    /// and the viewer is at the first of them, looked for from where the search
    /// started.
    #[verifier::opaque]
    pub open spec fn search_edited(&self, text: Seq<char>, post: App) -> bool {
        let at = self.searching(post);
        &&& post.search.query@ == text
        &&& post.search.input is Some
        &&& post.search.input->0@ == text
        &&& post.search.matches@ == self.hits_of(text)
        &&& post == at.at_match(at.first_hit())
    }

    /// What a key did in the open search prompt.
    pub open spec fn prompt_done(&self, key: PromptView, post: App) -> bool {
        let buf = self.search.input->0@;
        match key {
            PromptView::Escape => self.search_cancelled(post),
            PromptView::Enter => post == self.search_confirmed(),
            PromptView::Backspace => self.search_edited(backspaced(buf), post),
            PromptView::Text(t) => self.search_edited(buf + t, post),
            PromptView::Other => post == *self,
        }
    }

    /// Whether a key in the open search prompt lays out the content: an edit does
    /// that leads to a match.
    pub open spec fn prompt_lays_out(&self, key: PromptView) -> bool {
        let buf = self.search.input->0@;
        match key {
            PromptView::Backspace => self.hits_of(backspaced(buf)).len() > 0,
            PromptView::Text(t) => self.hits_of(buf + t).len() > 0,
            _ => false,
        }
    }

    /// The text that a key makes of that in the prompt, if it edits it.
    fn edited(&self, key: &PromptKey) -> (r: Option<String>)
        requires
            self.search.input is Some,
        ensures
            match key@ {
                PromptView::Backspace => r is Some && r->0@ == backspaced(self.search.input->0@),
                PromptView::Text(t) => r is Some && r->0@ == self.search.input->0@ + t,
                _ => r is None,
            },
    {
        let buf = match &self.search.input {
            Some(buf) => buf,
            None => {
                return None;
            },
        };
        match key {
            PromptKey::Backspace => Some(pop_char(buf)),
            PromptKey::Text(t) => {
                let mut text = buf.clone();
                text.append(t);
                Some(text)
            },
            _ => None,
        }
    }

    /// Whether a key in the open search prompt lays out the content.
    pub(crate) fn prompt_needs_room(&self, key: &PromptKey) -> (r: bool)
        requires
            self.search.input is Some,
        ensures
            r == self.prompt_lays_out(key@),
    {
        match self.edited(key) {
            Some(text) => text.as_str().unicode_len() > 0 && find_in_rows(
                &self.doc.rows,
                &text,
            ).len() > 0,
            None => false,
        }
    }

    /// Cancels the search.
    fn cancel_search(&mut self)
        ensures
            old(self).search_cancelled(*final(self)),
    {
        proof {
            reveal(App::search_cancelled);
        }
        self.search.input = None;
        if let Some((cursor, scroll, query)) = self.search.origin.take() {
            self.search.query = query;
            self.nav.cursor = cursor;
            self.nav.scroll = scroll;
            self.refresh_search();
        }
    }

    /// Confirms the search.
    fn confirm_search(&mut self)
        ensures
            *final(self) == old(self).search_confirmed(),
    {
        proof {
            reveal(App::search_confirmed);
        }
        self.search.input = None;
        self.search.origin = None;
    }

    /// Searches for the text of the prompt.
    fn edit_search(&mut self, text: String)
        requires
            old(self).hits_of(text@).len() > 0 ==> old(self).fits(),
        ensures
            old(self).search_edited(text@, *final(self)),
    {
        proof {
            reveal(App::search_edited);
        }
        let buf = text.clone();
        self.search.input = Some(buf);
        self.search.query = text;
        if let Some((cursor, scroll, _)) = self.search.origin {
            self.nav.cursor = cursor;
            self.nav.scroll = scroll;
        }
        self.refresh_search();
        let ghost at = old(self).searching(*self);
        assert(*self == at);
        assert(self.fits() == old(self).fits());
        self.search_to_first();
        assert(self.search.query == at.search.query && self.search.input == at.search.input
            && self.search.matches == at.search.matches);
        assert(old(self).searching(*self) == at);
    }

    /// Handle a key of the open search prompt: printable keys extend the query,
    /// Enter confirms and stays, Esc cancels, Backspace edits. Every edit
    /// searches at once, from where the search started.
    pub fn on_prompt(&mut self, key: PromptKey)
        requires
            old(self).search.input is Some,
            old(self).prompt_lays_out(key@) ==> old(self).fits(),
        ensures
            old(self).prompt_done(key@, *final(self)),
    {
        match key {
            PromptKey::Escape => self.cancel_search(),
            PromptKey::Enter => self.confirm_search(),
            _ => {
                if let Some(text) = self.edited(&key) {
                    self.edit_search(text);
                }
            },
        }
    }
}

/// Backspace takes back the character that was typed last, and nothing from an
/// empty prompt.
pub proof fn law_backspace_takes_back_the_last_character(s: Seq<char>, c: char)
    ensures
        backspaced(s.push(c)) == s,
        backspaced(Seq::<char>::empty()) == Seq::<char>::empty(),
{
    assert(s.push(c).drop_last() == s);
}

/// What is typed is added to the prompt and searched for, from where the search
/// began; Enter keeps the query, the matches and the place; Escape goes back to
/// where the search began.
pub proof fn law_prompt_keys(a: App, text: Seq<char>, post: App)
    requires
        a.search.input is Some,
    ensures
        a.prompt_done(PromptView::Text(text), post) ==> post.search.input is Some
            && post.search.input->0@ == a.search.input->0@ + text && post.search.query@
            == a.search.input->0@ + text && post.search.matches@ == a.hits_of(
            a.search.input->0@ + text,
        ),
        a.prompt_done(PromptView::Backspace, post) && a.search.input->0@.len() > 0
            ==> post.search.input is Some && post.search.input->0@ == a.search.input->0@.subrange(
            0,
            a.search.input->0@.len() - 1,
        ) && post.search.query@ == post.search.input->0@,
        a.prompt_done(PromptView::Enter, post) ==> post.search.input is None
            && post.search.origin is None && post.search.query == a.search.query
            && post.search.matches == a.search.matches && post.search.current == a.search.current
            && post.nav == a.nav,
        a.prompt_done(PromptView::Escape, post) ==> (a.search.origin matches Some(
            (cursor, scroll, query),
        ) ==> post.search.input is None && post.nav.cursor == cursor && post.nav.scroll == scroll
            && post.search.query == query),
        a.prompt_done(PromptView::Other, post) ==> post == a,
{
    reveal(App::search_edited);
    reveal(App::search_confirmed);
    reveal(App::search_cancelled);
}

/// An edit of the prompt that matches nothing leaves the viewer where the search
/// began.
pub proof fn law_edits_without_matches_go_back(a: App, text: Seq<char>, post: App)
    requires
        a.search_edited(text, post),
        a.hits_of(text).len() == 0,
    ensures
        a.search.origin matches Some((cursor, scroll, _)) ==> post.nav.cursor == cursor
            && post.nav.scroll == scroll,
        post.search.current is None,
{
    reveal(App::search_edited);
}

} // verus!
