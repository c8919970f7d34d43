//! Events as they come from the terminal, and what each of them does.

use vstd::prelude::*;

#[allow(unused_imports)]
use crate::app::less;
use crate::app::{App, Mode, Search, Ui};
use crate::handle::{Action, Wheel};
use crate::keys::{command, prompt_key, stat_command, Key};
#[allow(unused_imports)]
use crate::keys::{command_of, prompt_key_of, stat_command_of};
use crate::outside::matches_key;
#[allow(unused_imports)]
use crate::outside::key_matches;

verus! {

/// An event of the terminal.
#[derive(Debug)]
pub enum Event {
    KeyPress(Key),
    MouseWheel(Wheel),
    /// A button went down at a column and a row; whether it is the left one.
    MouseClick(u16, u16, bool),
    /// The mouse moved with a button held.
    MouseMove(u16, u16),
    /// A button was let go; whether it is the left one.
    MouseRelease(bool),
    /// The screen has so many columns and rows.
    Resize(u16, u16),
    Other,
}

/// Whether a tap at `now` follows the last one within 600 milliseconds.
pub open spec fn taps_on(taps: (u8, Option<u64>), now: u64) -> bool {
    taps.1 is Some && less(now as nat, taps.1->0 as nat) < 600
}

/// Whether the tap at `now` is the third of a quick succession.
pub open spec fn third_tap(taps: (u8, Option<u64>), now: u64) -> bool {
    taps_on(taps, now) && taps.0 + 1 >= 3
}

impl App {
    /// The third quick tap of Escape toggles the mascot.
    #[verifier::opaque]
    pub open spec fn mascot_toggled(&self) -> App {
        App {
            ui: Ui { mascot_pinned: !self.ui.mascot_pinned, esc_taps: (0, None), ..self.ui },
            ..*self
        }
    }

    /// A tap of Escape is counted.
    #[verifier::opaque]
    pub open spec fn tapped(&self, now: u64) -> App {
        App {
            ui: Ui {
                esc_taps: (
                    if taps_on(self.ui.esc_taps, now) {
                        (self.ui.esc_taps.0 + 1) as u8
                    } else {
                        1
                    },
                    Some(now),
                ),
                ..self.ui
            },
            ..*self
        }
    }

    /// The selection is dropped.
    #[verifier::opaque]
    pub open spec fn sel_dropped(&self) -> App {
        App { ui: Ui { sel: None, visual: None, ..self.ui }, ..*self }
    }

    /// The search is dropped: no query, no matches.
    #[verifier::opaque]
    pub open spec fn search_dropped(&self, post: App) -> bool {
        &&& post == (App {
            search: Search {
                query: post.search.query,
                matches: post.search.matches,
                current: None,
                ..self.search
            },
            ..*self
        })
        &&& post.search.query@.len() == 0
        &&& post.search.matches@.len() == 0
    }

    /// Transient UI is closed in priority order: a selection, then a search,
    /// then the file list.
    pub open spec fn closed(&self, post: App) -> bool {
        if self.ui.sel is Some {
            post == self.sel_dropped()
        } else if self.search.query@.len() > 0 {
            self.search_dropped(post)
        } else if self.ui.mode == Mode::Stat {
            post == self.showing(Mode::Diff)
        } else {
            post == *self
        }
    }

    /// What Escape did outside the search prompt.
    pub open spec fn escape_done(&self, now: u64, post: App) -> bool {
        if third_tap(self.ui.esc_taps, now) {
            post == self.mascot_toggled()
        } else {
            self.tapped(now).closed(post)
        }
    }

    /// Toggles the mascot.
    fn toggle_mascot(&mut self)
        ensures
            *final(self) == old(self).mascot_toggled(),
    {
        proof {
            reveal(App::mascot_toggled);
        }
        self.ui.mascot_pinned = !self.ui.mascot_pinned;
        self.ui.esc_taps = (0, None);
    }

    /// Counts a tap of Escape.
    fn tap(&mut self, now: u64)
        requires
            !third_tap(old(self).ui.esc_taps, now),
        ensures
            *final(self) == old(self).tapped(now),
    {
        proof {
            reveal(App::tapped);
        }
        let recent = match self.ui.esc_taps.1 {
            Some(t) => now.saturating_sub(t) < 600,
            None => false,
        };
        let count: u8 = if recent {
            self.ui.esc_taps.0 + 1
        } else {
            1
        };
        self.ui.esc_taps = (count, Some(now));
    }

    /// Drops the selection.
    fn drop_sel(&mut self)
        ensures
            *final(self) == old(self).sel_dropped(),
    {
        proof {
            reveal(App::sel_dropped);
        }
        self.clear_sel();
    }

    /// Drops the search.
    fn drop_search(&mut self)
        ensures
            old(self).search_dropped(*final(self)),
    {
        proof {
            reveal(App::search_dropped);
        }
        self.search.query = String::new();
        self.clear_matches();
    }

    /// Closes transient UI.
    fn close_transient(&mut self)
        ensures
            old(self).closed(*final(self)),
    {
        if self.ui.sel.is_some() {
            self.drop_sel();
        } else if self.search.query.as_str().unicode_len() > 0 {
            self.drop_search();
        } else if self.ui.mode == Mode::Stat {
            self.show(Mode::Diff);
        }
    }

    /// Handle Escape outside the search prompt. Three taps in quick succession
    /// (<600ms apart) toggle the mascot on over any view; otherwise it closes
    /// transient UI. It never quits and never touches help.
    pub fn on_escape(&mut self, now: u64)
        ensures
            old(self).escape_done(now, *final(self)),
    {
        let third = match self.ui.esc_taps.1 {
            Some(t) => now.saturating_sub(t) < 600 && self.ui.esc_taps.0 >= 2,
            None => false,
        };
        if third {
            self.toggle_mascot();
        } else {
            self.tap(now);
            self.close_transient();
        }
    }

    /// Whether a key lays out the content in the current state.
    pub open spec fn key_lays_out(&self, k: Key) -> bool {
        if self.search.input is Some {
            self.prompt_lays_out(prompt_key_of(k@))
        } else {
            self.ui.mode == Mode::Diff && self.command_lays_out(command_of(k@))
        }
    }

    /// What a key press did.
    pub open spec fn key_done(
        &self,
        k: Key,
        now: u64,
        job_control: bool,
        post: App,
        r: Action,
    ) -> bool {
        if job_control && key_matches(k@, "ctrl+z"@) {
            post == *self && r == Action::Suspend
        } else if self.search.input is Some {
            self.prompt_done(prompt_key_of(k@), post) && r == Action::Idle
        } else if key_matches(k@, "escape"@) {
            self.escape_done(now, post) && r == Action::Idle
        } else if self.ui.help_open && (key_matches(k@, "q"@) || key_matches(k@, "ctrl+c"@)) {
            post == *self && r == Action::Quit
        } else if self.ui.help_open && key_matches(k@, "?"@) {
            post == self.help_toggled() && r == Action::Idle
        } else if self.ui.mode == Mode::Stat {
            self.stat_done(stat_command_of(k@), now, post, r)
        } else {
            self.command_done(command_of(k@), now, post, r)
        }
    }

    /// Handle a key press. `job_control` says whether the shell can take over
    /// on Ctrl+Z.
    pub fn on_key(&mut self, k: &Key, now: u64, job_control: bool) -> (r: Action)
        requires
            old(self).key_lays_out(*k) ==> old(self).fits(),
        ensures
            old(self).key_done(*k, now, job_control, *final(self), r),
    {
        if job_control && matches_key(k, "ctrl+z") {
            return Action::Suspend;
        }
        // The search prompt captures the keyboard while typing.
        if self.search.input.is_some() {
            let key = prompt_key(k);
            self.on_prompt(key);
            return Action::Idle;
        }
        if matches_key(k, "escape") {
            self.on_escape(now);
            return Action::Idle;
        }
        // The help grid is an inline footer, not a blocking overlay: `?` toggles
        // it off, every other key still works normally.
        if self.ui.help_open {
            if matches_key(k, "q") || matches_key(k, "ctrl+c") {
                return Action::Quit;
            }
            if matches_key(k, "?") {
                self.toggle_help();
                return Action::Idle;
            }
        }
        if self.ui.mode == Mode::Stat {
            return self.on_stat(stat_command(k), now);
        }
        self.on_command(command(k), now)
    }

    /// Whether there is room for what an event lays out.
    pub open spec fn event_fits(&self, ev: Event) -> bool {
        match ev {
            Event::KeyPress(k) => self.key_lays_out(k) ==> self.fits(),
            Event::MouseWheel(w) => w == Wheel::Left || w == Wheel::Right ==> self.fits(),
            Event::MouseClick(x, y, left) => self.click_lays_out(x, y, left) ==> self.fits(),
            Event::MouseMove(_, _) => self.drag_fits(),
            _ => true,
        }
    }

    /// What an event did, and what it leaves to do.
    pub open spec fn event_done(
        &self,
        ev: Event,
        now: u64,
        job_control: bool,
        post: App,
        r: Action,
    ) -> bool {
        match ev {
            Event::KeyPress(k) => self.key_done(k, now, job_control, post, r),
            Event::MouseWheel(w) => post == self.wheeled(w) && r == Action::Idle,
            Event::MouseClick(x, y, left) => self.click_done(x, y, left, now, post, r),
            Event::MouseMove(x, y) => self.drag_done(x, y, post, r),
            Event::MouseRelease(left) => self.release_done(left, post, r),
            Event::Resize(w, h) => post == self.resized(w, h) && r == Action::Settle,
            Event::Other => post == *self && r == Action::Idle,
        }
    }

    /// Whether there is room for what an event lays out.
    pub fn can_handle(&self, ev: &Event) -> (r: bool)
        ensures
            r == self.event_fits(*ev),
    {
        match ev {
            Event::KeyPress(k) => {
                if self.has_room() {
                    true
                } else if self.search.input.is_some() {
                    !self.prompt_needs_room(&prompt_key(k))
                } else {
                    self.ui.mode != Mode::Diff || !self.needs_room(command(k))
                }
            },
            Event::MouseWheel(w) => (*w != Wheel::Left && *w != Wheel::Right) || self.has_room(),
            Event::MouseClick(x, y, left) => !self.click_needs_room(*x, *y, *left)
                || self.has_room(),
            Event::MouseMove(_, _) => self.drag_has_room(),
            _ => true,
        }
    }

    /// Handle an event at `now` milliseconds. `job_control` says whether the
    /// shell can take over on Ctrl+Z.
    pub fn handle(&mut self, ev: &Event, now: u64, job_control: bool) -> (r: Action)
        requires
            old(self).event_fits(*ev),
        ensures
            old(self).event_done(*ev, now, job_control, *final(self), r),
    {
        match ev {
            Event::KeyPress(k) => self.on_key(k, now, job_control),
            Event::MouseWheel(w) => {
                self.on_wheel(*w);
                Action::Idle
            },
            Event::MouseClick(x, y, left) => self.on_click(*x, *y, *left, now),
            Event::MouseMove(x, y) => self.on_drag(*x, *y),
            Event::MouseRelease(left) => self.on_release(*left),
            Event::Resize(w, h) => {
                self.on_resize(*w, *h);
                Action::Settle
            },
            Event::Other => Action::Idle,
        }
    }

    /// Handle an event where there is room for what it lays out, and nothing
    /// where there is none.
    pub fn try_handle(&mut self, ev: &Event, now: u64, job_control: bool) -> (r: Option<Action>)
        ensures
            match r {
                Some(action) => old(self).event_fits(*ev) && old(self).event_done(
                    *ev,
                    now,
                    job_control,
                    *final(self),
                    action,
                ),
                None => !old(self).event_fits(*ev) && *final(self) == *old(self),
            },
    {
        if self.can_handle(ev) {
            Some(self.handle(ev, now, job_control))
        } else {
            None
        }
    }
}

/// Taps of Escape count together while each follows the last within 600
/// milliseconds; the third one in a row toggles the mascot and starts over.
pub proof fn law_third_quick_tap(a: App, t: u64, now: u64)
    ensures
        third_tap((2, Some(t)), now) <==> now < t + 600,
        !third_tap((1, Some(t)), now),
        !third_tap((0, Some(t)), now),
        !third_tap((a.ui.esc_taps.0, None), now),
        a.mascot_toggled().ui.mascot_pinned != a.ui.mascot_pinned,
        a.mascot_toggled().ui.esc_taps.0 == 0,
        a.tapped(now).ui.esc_taps.1 == Some(now),
        a.ui.esc_taps.1 == Some(t) && now < t + 600 && a.ui.esc_taps.0 < 255 ==> a.tapped(
            now,
        ).ui.esc_taps.0 == a.ui.esc_taps.0 + 1,
        a.ui.esc_taps.1 == Some(t) && now >= t + 600 ==> a.tapped(now).ui.esc_taps.0 == 1,
        a.ui.esc_taps.1 is None ==> a.tapped(now).ui.esc_taps.0 == 1,
{
    reveal(App::mascot_toggled);
    reveal(App::tapped);
}

/// Escape closes one thing at a time: the selection first, then the search, then
/// the file list.
pub proof fn law_escape_closes_one_thing_at_a_time(a: App, post: App)
    requires
        a.closed(post),
    ensures
        a.ui.sel is Some ==> post.ui.sel is None && post.ui.visual is None && post.search
            == a.search && post.ui.mode == a.ui.mode,
        a.ui.sel is None && a.search.query@.len() > 0 ==> post.search.query@.len() == 0
            && post.search.matches@.len() == 0 && post.search.current is None && post.ui == a.ui,
        a.ui.sel is None && a.search.query@.len() == 0 && a.ui.mode == Mode::Stat ==> post.ui.mode
            == Mode::Diff && post.search == a.search,
        a.ui.sel is None && a.search.query@.len() == 0 && a.ui.mode == Mode::Diff ==> post == a,
        post.nav == a.nav,
{
    reveal(App::sel_dropped);
    reveal(App::search_dropped);
    reveal(App::showing);
}

/// With job control `ctrl+z` suspends the viewer before anything else. With the
/// help grid open `q` and `ctrl+c` still quit, and `?` closes it.
pub proof fn law_keys_before_all_others(
    a: App,
    k: Key,
    now: u64,
    job_control: bool,
    post: App,
    r: Action,
)
    requires
        a.key_done(k, now, job_control, post, r),
    ensures
        job_control && key_matches(k@, "ctrl+z"@) ==> post == a && r == Action::Suspend,
        !(job_control && key_matches(k@, "ctrl+z"@)) && a.search.input is None && !key_matches(
            k@,
            "escape"@,
        ) && a.ui.help_open ==> {
            let quits = key_matches(k@, "q"@) || key_matches(k@, "ctrl+c"@);
            &&& quits ==> post == a && r == Action::Quit
            &&& !quits && key_matches(k@, "?"@) ==> !post.ui.help_open && post.nav == a.nav && r
                == Action::Idle
        },
{
    if a.ui.help_open {
        reveal(App::help_toggled);
    }
}

/// A new size of the screen is settled; letting the left button go with the
/// mascot in hand drops it; what the viewer does not know changes nothing.
pub proof fn law_events_ask_for_what_they_need(
    a: App,
    ev: Event,
    now: u64,
    job_control: bool,
    post: App,
    r: Action,
)
    requires
        a.event_done(ev, now, job_control, post, r),
    ensures
        ev matches Event::Resize(w, h) ==> r == Action::Settle && post.screen.width == w
            && post.screen.height == h,
        ev == Event::MouseRelease(true) ==> (r == Action::DropMascot <==> a.ui.mascot_grab is Some
            && a.ui.mascot is Some),
        ev == Event::MouseRelease(false) ==> post == a && r == Action::Idle,
        ev == Event::Other ==> post == a && r == Action::Idle,
        ev is MouseWheel ==> r == Action::Idle,
{
    match ev {
        Event::Resize(_, _) => {
            reveal(App::resized);
        },
        _ => {},
    }
}

} // verus!
