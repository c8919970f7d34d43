//! A session of the viewer: how it starts, what it waits for, and what it asks
//! of the terminal and of the editor.

use vstd::prelude::*;

#[allow(unused_imports)]
use crate::app::less;
use crate::app::{App, Doc, Mode, Nav, Screen, Search, Source, Ui};
use crate::config::Config;
#[allow(unused_imports)]
use crate::diff::display_path;
use crate::handle::Action;
use crate::paint::{join, write_number};
use crate::rows::Row;
use crate::text::{chars_of, same, split_whitespace, string_of};
#[allow(unused_imports)]
use crate::text::{decimal, strings, texts, words};
use crate::theme::Theme;
#[allow(unused_imports)]
use crate::theme::theme_of;

verus! {

/// How long a transient footer note stays, in milliseconds.
pub const FLASH_MS: u64 = 2000;

/// A call of the editor.
#[derive(Debug, Clone)]
pub struct EditorCall {
    pub program: String,
    /// The words of the command after the program, and the line to go to.
    pub args: Vec<String>,
    /// The file, from the top of the repository.
    pub path: String,
}

/// The line number of a row: its new one, else its old one.
pub open spec fn row_number(r: Row) -> Option<usize> {
    if r.new_no is Some {
        r.new_no
    } else {
        r.old_no
    }
}

/// The first line number of the rows from `i` on.
pub open spec fn number_from(rows: Seq<Row>, i: int) -> Option<usize>
    decreases rows.len() - i,
{
    if i < 0 || i >= rows.len() {
        None
    } else if row_number(rows[i]) is Some {
        row_number(rows[i])
    } else {
        number_from(rows, i + 1)
    }
}

/// The first line number of the rows from one on.
fn first_number(rows: &[Row], from: usize) -> (r: Option<usize>)
    ensures
        r == number_from(rows@, from as int),
{
    let mut i = from;
    while i < rows.len()
        invariant
            number_from(rows@, from as int) == number_from(rows@, i as int),
        decreases rows.len() - i,
    {
        if rows[i].new_no.is_some() {
            return rows[i].new_no;
        }
        if rows[i].old_no.is_some() {
            return rows[i].old_no;
        }
        i += 1;
    }
    None
}

impl Ui {
    /// The interface at the start: the diff, and nothing else open.
    pub open spec fn initial() -> Ui {
        Ui {
            mode: Mode::Diff,
            sidebar: None,
            sidebar_width: None,
            resizing: false,
            resizing_split: false,
            last_click: None,
            split: false,
            help_open: false,
            help_badge_x: 0,
            modal_hit: None,
            modal_pos: None,
            modal_drag: None,
            watch: false,
            loading: false,
            sel: None,
            visual: None,
            mascot: None,
            mascot_grab: None,
            mascot_pinned: false,
            esc_taps: (0, None),
        }
    }
}

impl App {
    /// The viewer at the start, with nothing to show yet.
    pub fn new(config: Config, source: Source, screen: Screen) -> (r: App)
        requires
            config.styles.wf(),
        ensures
            r.config == config,
            r.theme == theme_of(config),
            r.source == (Source { expand: 0, ..source }),
            r.screen == screen,
            r.doc.wf(),
            r.doc.files@.len() == 0,
            r.doc.raw@.len() == 0,
            r.doc.rows@.len() == 0,
            r.doc.starts@.len() == 0,
            r.search.query@.len() == 0,
            r.search.input is None,
            r.search.origin is None,
            r.search.matches@.len() == 0,
            r.search.current is None,
            r.nav == (Nav { selected: 0, scroll: 0, cursor: 0, hscroll: 0 }),
            r.ui == Ui::initial(),
            r.flash is None,
            r.title@.len() == 0,
            r.last_diff@.len() == 0,
    {
        let theme = Theme::from_config(&config);
        App {
            config,
            theme,
            screen,
            source: Source { expand: 0, ..source },
            doc: Doc::empty(),
            search: Search {
                query: String::new(),
                input: None,
                origin: None,
                matches: Vec::new(),
                current: None,
            },
            nav: Nav { selected: 0, scroll: 0, cursor: 0, hscroll: 0 },
            ui: Ui {
                mode: Mode::Diff,
                sidebar: None,
                sidebar_width: None,
                resizing: false,
                resizing_split: false,
                last_click: None,
                split: false,
                help_open: false,
                help_badge_x: 0,
                modal_hit: None,
                modal_pos: None,
                modal_drag: None,
                watch: false,
                loading: false,
                sel: None,
                visual: None,
                mascot: None,
                mascot_grab: None,
                mascot_pinned: false,
                esc_taps: (0, None),
            },
            flash: None,
            title: String::new(),
            last_diff: String::new(),
        }
    }

    /// The line that the editor goes to: the first one from the cursor on, else
    /// the first one of the document, else the first of the file.
    pub open spec fn edit_line(&self) -> usize {
        match number_from(self.doc.rows@, self.nav.cursor as int) {
            Some(n) => n,
            None => match number_from(self.doc.rows@, 0) {
                Some(n) => n,
                None => 1,
            },
        }
    }

    /// How to open the selected file in an editor that a command names; nothing
    /// where there is no file, or the command has no words.
    pub fn open_editor(&self, command: &str) -> (r: Option<EditorCall>)
        ensures
            r is Some == (self.nav.selected < self.doc.files@.len() && words(command@).len() > 0),
            r matches Some(c) ==> c.program@ == words(command@)[0] && strings(c.args@) == words(
                command@,
            ).skip(1).push("+"@ + decimal(self.edit_line() as nat)) && c.path@ == display_path(
                self.doc.files@[self.nav.selected as int]@,
            ),
    {
        if self.nav.selected >= self.doc.files.len() {
            return None;
        }
        // Prefer the cursor row's line; fall back to the next content row.
        let line = match first_number(&self.doc.rows, self.nav.cursor) {
            Some(n) => n,
            None => match first_number(&self.doc.rows, 0) {
                Some(n) => n,
                None => 1,
            },
        };
        let parts = split_whitespace(&chars_of(command));
        let ghost all = words(command@);
        assert(texts(parts@).len() == parts@.len());
        if parts.len() == 0 {
            return None;
        }
        assert(parts@[0]@ == all[0]);
        let program = string_of(&parts[0]);
        let mut args: Vec<String> = Vec::new();
        let mut i: usize = 1;
        while i < parts.len()
            invariant
                1 <= i <= parts.len(),
                all == texts(parts@),
                strings(args@) == all.subrange(1, i as int),
            decreases parts.len() - i,
        {
            let ghost before = strings(args@);
            args.push(string_of(&parts[i]));
            assert(parts@[i as int]@ == all[i as int]);
            assert(strings(args@) =~= before.push(all[i as int]));
            assert(all.subrange(1, i + 1) =~= all.subrange(1, i as int).push(all[i as int]));
            i += 1;
        }
        assert(all.subrange(1, all.len() as int) =~= all.skip(1));
        let ghost before = strings(args@);
        args.push(join("+", &write_number(line)));
        assert(strings(args@) =~= before.push("+"@ + decimal(line as nat)));
        let path = self.doc.files[self.nav.selected].path().to_string();
        Some(EditorCall { program, args, path })
    }

    /// The window title: the path of the selected file, and the name of the
    /// viewer.
    pub open spec fn wanted_title(&self) -> Seq<char> {
        if self.nav.selected < self.doc.files@.len() {
            display_path(self.doc.files@[self.nav.selected as int]@) + " · drift"@
        } else {
            "drift"@
        }
    }

    /// The window title, where it changed.
    pub fn update_title(&mut self) -> (r: Option<String>)
        ensures
            *final(self) == (App { title: final(self).title, ..*old(self) }),
            final(self).title@ == old(self).wanted_title(),
            r is Some == (old(self).title@ != old(self).wanted_title()),
            r matches Some(t) ==> t@ == old(self).wanted_title(),
    {
        let want = if self.nav.selected < self.doc.files.len() {
            join(self.doc.files[self.nav.selected].path(), " · drift")
        } else {
            "drift".to_string()
        };
        if same(&want, &self.title) {
            return None;
        }
        self.title = want.clone();
        Some(want)
    }

    /// Starts watching, where that is asked for. It is meaningless for a piped
    /// diff: the input is a one-shot static stream with no repo to watch.
    pub fn begin_watch(&mut self, watch: bool)
        ensures
            *final(self) == (App {
                ui: Ui { watch: watch && !old(self).source.piped, ..old(self).ui },
                ..*old(self)
            }),
    {
        self.ui = Ui { watch: watch && !self.source.piped, ..self.ui };
    }

    /// Drops a transient footer note that has had its time.
    pub fn expire_flash(&mut self, now: u64)
        ensures
            *final(self) == (App {
                flash: if old(self).flash is Some && less(
                    now as nat,
                    old(self).flash->0.at as nat,
                ) >= FLASH_MS {
                    None
                } else {
                    old(self).flash
                },
                ..*old(self)
            }),
    {
        let done = match &self.flash {
            Some(f) => now.saturating_sub(f.at) >= FLASH_MS,
            None => false,
        };
        if done {
            self.flash = None;
        }
    }

    /// How long to wait for an event, in milliseconds: briefly while work is on
    /// its way, no longer than the note stays, than the next poll is off, or
    /// than the mascot stands still; but at least one for these.
    pub open spec fn patience(&self, busy: bool, now: u64, poll: u64) -> nat {
        let base: nat = if busy {
            16
        } else {
            200
        };
        let noted = match self.flash {
            Some(f) => at_most(
                base,
                at_least(less(FLASH_MS as nat, less(now as nat, f.at as nat)), 1),
            ),
            None => base,
        };
        let polled = if self.ui.watch && self.source.worktree {
            at_most(noted, at_least(poll as nat, 1))
        } else {
            noted
        };
        if self.doc.files@.len() == 0 || self.ui.mascot_pinned {
            at_most(polled, 80)
        } else {
            polled
        }
    }

    /// How long to wait for an event, in milliseconds.
    pub fn timeout(&self, busy: bool, now: u64, poll: u64) -> (r: u64)
        ensures
            r == self.patience(busy, now, poll),
    {
        // Poll faster while the prefetch is still streaming so freshly parsed
        // files appear promptly; idle once it's done.
        let mut t: u64 = if busy {
            16
        } else {
            200
        };
        // While a note is showing, wake around its expiry so it clears on time
        // rather than on the next idle tick.
        if let Some(f) = &self.flash {
            let left = FLASH_MS.saturating_sub(now.saturating_sub(f.at));
            let left = if left < 1 {
                1
            } else {
                left
            };
            if left < t {
                t = left;
            }
        }
        // Don't oversleep past the next worktree poll when watching.
        if self.ui.watch && self.source.worktree {
            let next = if poll < 1 {
                1
            } else {
                poll
            };
            if next < t {
                t = next;
            }
        }
        // Keep the mascot animating smoothly whenever it's on screen.
        if (self.doc.files.len() == 0 || self.ui.mascot_pinned) && t > 80 {
            t = 80;
        }
        t
    }

    /// Whether to look for unstaged edits in the working tree now: the last look
    /// is long enough ago, watch mode is on, and none is under way.
    pub fn wants_poll(&self, last: u64, now: u64, poll: u64, polling: bool) -> (r: bool)
        ensures
            r == (less(now as nat, last as nat) >= poll && self.ui.watch && self.source.worktree
                && !polling),
    {
        now.saturating_sub(last) >= poll && self.ui.watch && self.source.worktree && !polling
    }

    /// What a change of the repository leads to: the diff is run again in watch
    /// mode.
    pub fn on_refresh(&self) -> (r: Action)
        ensures
            r == if self.ui.watch {
                self.reloaded()
            } else {
                Action::Idle
            },
    {
        if self.ui.watch && !self.source.piped {
            Action::Reload
        } else {
            Action::Idle
        }
    }

    /// A rebuild from a diff begins: a poll that finds the same text asks for no
    /// other one.
    pub fn begin_rebuild(&mut self, text: String)
        ensures
            *final(self) == (App { last_diff: text, ..*old(self) }),
    {
        self.last_diff = text;
    }

    /// Files of a piped diff begin to arrive.
    pub fn begin_stream(&mut self)
        ensures
            *final(self) == (App { ui: Ui { loading: true, ..old(self).ui }, ..*old(self) }),
    {
        self.ui = Ui { loading: true, ..self.ui };
    }

    /// Some files were taken in: the cursor is brought back in view, and an
    /// active search goes on to them. Once the pipe is closed nothing is loading
    /// any more.
    pub fn arrived(&mut self, got: bool, closed: bool)
        ensures
            *final(self) == (App {
                nav: if got {
                    old(self).moved(old(self).nav, 0)
                } else {
                    old(self).nav
                },
                ui: Ui { loading: old(self).ui.loading && !closed, ..old(self).ui },
                search: final(self).search,
                ..*old(self)
            }),
            !got ==> final(self).search == old(self).search,
            got ==> final(self).search == (Search {
                matches: final(self).search.matches,
                current: None,
                ..old(self).search
            }),
            got ==> final(self).search.matches@ == old(self).hits_of(old(self).search.query@),
    {
        if got {
            self.move_cursor(0);
            self.refresh_search();
        }
        self.ui = Ui { loading: self.ui.loading && !closed, ..self.ui };
    }
}

/// The lesser of two numbers.
pub open spec fn at_most(a: nat, b: nat) -> nat {
    if b < a {
        b
    } else {
        a
    }
}

/// The greater of two numbers.
pub open spec fn at_least(a: nat, b: nat) -> nat {
    if a < b {
        b
    } else {
        a
    }
}

proof fn lemma_number_from(rows: Seq<Row>, i: int, k: int)
    requires
        0 <= i <= k < rows.len(),
        forall|j: int| i <= j < k ==> row_number(#[trigger] rows[j]) is None,
        row_number(rows[k]) is Some,
    ensures
        number_from(rows, i) == row_number(rows[k]),
    decreases k - i,
{
    if i < k {
        assert(row_number(rows[i]) is None);
        lemma_number_from(rows, i + 1, k);
    }
}

/// The editor goes to the number of the first row from the cursor on that has
/// one: its number in the new file, else its number in the old one.
pub proof fn law_editor_goes_to_the_line_under_the_cursor(app: App, k: int)
    requires
        app.nav.cursor <= k < app.doc.rows@.len(),
        forall|j: int|
            app.nav.cursor <= j < k ==> (#[trigger] app.doc.rows@[j]).new_no is None
                && app.doc.rows@[j].old_no is None,
    ensures
        app.doc.rows@[k].new_no matches Some(n) ==> app.edit_line() == n,
        app.doc.rows@[k].new_no is None ==> (app.doc.rows@[k].old_no matches Some(n)
            ==> app.edit_line() == n),
{
    let rows = app.doc.rows@;
    if row_number(rows[k]) is Some {
        assert forall|j: int| app.nav.cursor <= j < k implies row_number(
            #[trigger] rows[j],
        ) is None by {
            assert(rows[j].new_no is None);
        }
        lemma_number_from(rows, app.nav.cursor as int, k);
    }
}

proof fn lemma_no_number(rows: Seq<Row>, i: int)
    requires
        0 <= i,
        forall|j: int| i <= j < rows.len() ==> row_number(#[trigger] rows[j]) is None,
    ensures
        number_from(rows, i) is None,
    decreases rows.len() - i,
{
    if i < rows.len() {
        assert(row_number(rows[i]) is None);
        lemma_no_number(rows, i + 1);
    }
}

/// In a document without line numbers the editor goes to the first line.
pub proof fn law_editor_starts_at_the_first_line(app: App)
    requires
        forall|j: int|
            0 <= j < app.doc.rows@.len() ==> (#[trigger] app.doc.rows@[j]).new_no is None
                && app.doc.rows@[j].old_no is None,
    ensures
        app.edit_line() == 1,
{
    let rows = app.doc.rows@;
    assert forall|j: int| 0 <= j < rows.len() implies row_number(#[trigger] rows[j]) is None by {
        assert(rows[j].new_no is None);
    }
    lemma_no_number(rows, 0);
    lemma_no_number(rows, app.nav.cursor as int);
}

/// The viewer waits for events at most a fifth of a second, and at most sixteen
/// milliseconds while work is on its way; at most eighty while the mascot is
/// shown, no longer than the note stays and no longer than the next poll is off.
pub proof fn law_waits_are_bounded(app: App, busy: bool, now: u64, poll: u64)
    ensures
        ({
            let w = app.patience(busy, now, poll);
            let calm = app.flash is None && !(app.ui.watch && app.source.worktree)
                && app.doc.files@.len() > 0 && !app.ui.mascot_pinned;
            &&& calm && !busy ==> w == 200
            &&& calm && busy ==> w == 16
            &&& 1 <= w <= 200
            &&& busy ==> w <= 16
            &&& (app.doc.files@.len() == 0 || app.ui.mascot_pinned) ==> w <= 80
            &&& (app.doc.files@.len() == 0 || app.ui.mascot_pinned) && app.flash is None && !busy
                && !(app.ui.watch && app.source.worktree) ==> w == 80
            &&& app.ui.watch && app.source.worktree && poll >= 1 ==> w <= poll
            &&& app.ui.watch && app.source.worktree && 1 <= poll <= 16 && app.flash is None ==> w
                == poll
            &&& app.flash matches Some(f) ==> (f.at <= now < f.at + 2000 ==> w <= f.at + 2000 - now)
        }),
{
    reveal(App::patience);
}

/// The title of the window is the path of the selected file and the name of the
/// viewer, or the name alone where there is none.
pub proof fn law_titles_name_the_file(app: App)
    ensures
        app.nav.selected < app.doc.files@.len() ==> app.wanted_title() == display_path(
            app.doc.files@[app.nav.selected as int]@,
        ) + " · drift"@,
        app.nav.selected >= app.doc.files@.len() ==> app.wanted_title() == "drift"@,
{
}

/// A session starts with the diff, unified and with nothing open, selected or
/// dragged.
pub proof fn law_sessions_start_plain()
    ensures
        ({
            let ui = Ui::initial();
            &&& ui.mode == Mode::Diff
            &&& !ui.split && !ui.help_open && !ui.watch
            &&& ui.sidebar is None && ui.sidebar_width is None
            &&& ui.sel is None && ui.visual is None
            &&& !ui.resizing && !ui.resizing_split && ui.modal_drag is None
            &&& !ui.mascot_pinned && ui.mascot is None
        }),
{
}

} // verus!
