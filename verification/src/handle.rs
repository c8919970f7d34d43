//! How the viewer carries out commands, in the diff and in the file list.

use vstd::prelude::*;

#[allow(unused_imports)]
use crate::actions::{copied_note, dropped, following, lemma_dropped};
use crate::app::{App, Mode, Nav, Search, Source, Ui};
#[allow(unused_imports)]
use crate::app::{held, less};
use crate::keys::{Command, StatCommand};
use crate::select::Sel;

verus! {

/// What is left to do outside once an event was handled.
#[derive(Debug)]
pub enum Action {
    /// Nothing.
    Idle,
    /// Leave the viewer.
    Quit,
    /// Suspend to the shell.
    Suspend,
    /// Run the diff again and rebuild the document from it.
    Reload,
    /// Open the selected file in the editor.
    Edit,
    /// Put a text on the system clipboard.
    Copy(String),
    /// The screen has a new size: share the split out again, then settle.
    Settle,
    /// The left pane takes so many of the columns that the panes share.
    SplitTo(u16, u16),
    /// The mascot was poked and grabbed.
    Poke,
    /// The mascot is dragged to a place in a body of so many cells.
    DragMascot(u16, u16, u16, usize),
    /// The mascot was let go.
    DropMascot,
}

/// Which way the wheel turned.
#[derive(Debug, Clone, Copy, PartialEq, Eq, Structural)]
pub enum Wheel {
    Up,
    Down,
    Left,
    Right,
    Other,
}

impl App {
    /// Nothing to reload for a piped diff: stdin is already consumed.
    pub open spec fn reloaded(&self) -> Action {
        if self.source.piped {
            Action::Idle
        } else {
            Action::Reload
        }
    }

    /// Whether the cursor is on a hunk header whose context can be expanded.
    pub open spec fn expands(&self) -> bool {
        self.nav.cursor < self.doc.rows@.len() && self.doc.rows@[self.nav.cursor as int].kind
            == crate::rows::RowKind::Hunk && !self.source.piped
    }

    /// The viewer with ten more lines of context.
    pub open spec fn expanded(&self) -> App {
        App {
            source: Source {
                expand: if self.source.expand + 10 <= usize::MAX {
                    (self.source.expand + 10) as usize
                } else {
                    usize::MAX
                },
                ..self.source
            },
            ..*self
        }
    }

    /// The content scrolled by `delta` columns.
    pub open spec fn panned(&self, delta: int) -> App {
        App {
            nav: Nav {
                hscroll: held(self.nav.hscroll + delta, 0, self.hbound() as int) as usize,
                ..self.nav
            },
            ..*self
        }
    }

    /// The cursor at a row, the last one at most.
    pub open spec fn placed(&self, row: int) -> App {
        App {
            nav: self.moved(
                Nav {
                    cursor: held(row, 0, less(self.doc.rows@.len(), 1) as int) as usize,
                    ..self.nav
                },
                0,
            ),
            ..*self
        }
    }

    /// At the match `i`, where there is one.
    pub open spec fn at_match(&self, i: int) -> App {
        if self.search.matches@.len() > 0 {
            App {
                search: Search { current: Some(i as usize), ..self.search },
                nav: self.nav_to(self.search.matches@[i]),
                ..*self
            }
        } else {
            *self
        }
    }

    /// A mouse selection is dropped; one of visual mode stays.
    pub open spec fn unselected(&self) -> App {
        App { ui: dropped(self.ui), ..*self }
    }

    /// The selection of visual mode follows the cursor.
    pub open spec fn followed(&self) -> App {
        App { ui: following(self.ui, self.nav.cursor), ..*self }
    }

    /// The cursor moves.
    #[verifier::opaque]
    pub open spec fn move_step(&self, cmd: Command) -> App {
        let page = self.viewport_at(self.nav.scroll as nat) as int;
        match cmd {
            Command::Down => App { nav: self.moved(self.nav, 1), ..*self },
            Command::Up => App { nav: self.moved(self.nav, -1), ..*self },
            Command::Top => App {
                nav: self.moved(Nav { cursor: 0, scroll: 0, ..self.nav }, 0),
                ..*self
            },
            Command::Bottom => App {
                nav: self.moved(
                    Nav { cursor: 0, scroll: 0, ..self.nav },
                    less(self.doc.rows@.len(), 1) as int,
                ),
                ..*self
            },
            Command::High => self.placed(self.nav.scroll as int),
            Command::Middle => self.placed(self.nav.scroll + page / 2),
            Command::Low => self.placed(self.nav.scroll + less(page as nat, 1)),
            Command::NextHunk => App {
                nav: self.nav_on(
                    crate::actions::hunk_after(self.doc.rows@, self.nav.cursor + 1),
                ),
                ..*self
            },
            Command::PrevHunk => App {
                nav: self.nav_on(
                    crate::actions::hunk_before(
                        self.doc.rows@,
                        held(self.nav.cursor as int, 0, self.doc.rows@.len() as int),
                    ),
                ),
                ..*self
            },
            _ => *self,
        }
    }

    /// The viewport scrolls.
    #[verifier::opaque]
    pub open spec fn page_step(&self, cmd: Command) -> App {
        let page = self.viewport_at(self.nav.scroll as nat) as int;
        match cmd {
            Command::HalfDown => App { nav: self.paged(self.nav, page / 2), ..*self },
            Command::HalfUp => App { nav: self.paged(self.nav, -(page / 2)), ..*self },
            Command::PageDown => App { nav: self.paged(self.nav, page), ..*self },
            Command::PageUp => App { nav: self.paged(self.nav, -page), ..*self },
            Command::LineDown => App { nav: self.paged(self.nav, 1), ..*self },
            Command::LineUp => App { nav: self.paged(self.nav, -1), ..*self },
            _ => *self,
        }
    }

    /// The content scrolls.
    #[verifier::opaque]
    pub open spec fn pan_step(&self, cmd: Command) -> App {
        match cmd {
            Command::Left => self.panned(-4),
            Command::Right => self.panned(4),
            Command::LineStart => App { nav: Nav { hscroll: 0, ..self.nav }, ..*self },
            Command::LineEnd => App {
                nav: Nav { hscroll: self.hbound() as usize, ..self.nav },
                ..*self
            },
            _ => *self,
        }
    }

    /// To a match or a file.
    #[verifier::opaque]
    pub open spec fn go_step(&self, cmd: Command) -> App {
        match cmd {
            Command::NextMatch => self.at_match(self.stepped(1)),
            Command::PrevMatch => self.at_match(self.stepped(-1)),
            Command::NextFile => self.off_file(1),
            Command::PrevFile => self.off_file(-1),
            _ => *self,
        }
    }

    /// What is shown changes.
    #[verifier::opaque]
    pub open spec fn toggle_step(&self, cmd: Command) -> App {
        match cmd {
            Command::Split => App { ui: Ui { split: !self.ui.split, ..self.ui }, ..*self },
            Command::Files => App { ui: Ui { mode: Mode::Stat, ..self.ui }, ..*self },
            Command::Sidebar => App {
                ui: Ui { sidebar: Some(!self.shows_sidebar()), ..self.ui },
                ..*self
            },
            Command::Help => App { ui: Ui { help_open: !self.ui.help_open, ..self.ui }, ..*self },
            _ => *self,
        }
    }

    /// What the diff is made of changes.
    #[verifier::opaque]
    pub open spec fn source_step(&self, cmd: Command) -> App {
        match cmd {
            Command::Watch => if self.source.piped {
                *self
            } else {
                App { ui: Ui { watch: !self.ui.watch, ..self.ui }, ..*self }
            },
            Command::Untracked => if self.source.worktree {
                App { source: Source { all: !self.source.all, ..self.source }, ..*self }
            } else {
                *self
            },
            Command::Expand => if self.expands() {
                self.expanded()
            } else {
                *self
            },
            _ => *self,
        }
    }

    /// What a motion or a toggle in the diff does, but for the selection.
    pub open spec fn commanded(&self, cmd: Command) -> App {
        match cmd {
            Command::Down
            | Command::Up
            | Command::Top
            | Command::Bottom
            | Command::High
            | Command::Middle
            | Command::Low
            | Command::NextHunk
            | Command::PrevHunk => self.move_step(cmd),
            Command::HalfDown
            | Command::HalfUp
            | Command::PageDown
            | Command::PageUp
            | Command::LineDown
            | Command::LineUp => self.page_step(cmd),
            Command::Left
            | Command::Right
            | Command::LineStart
            | Command::LineEnd => self.pan_step(cmd),
            Command::NextMatch
            | Command::PrevMatch
            | Command::NextFile
            | Command::PrevFile => self.go_step(cmd),
            Command::Split
            | Command::Files
            | Command::Sidebar
            | Command::Help => self.toggle_step(cmd),
            Command::Watch
            | Command::Untracked
            | Command::Expand => self.source_step(cmd),
            _ => *self,
        }
    }

    /// The start of the file `delta` files on.
    pub open spec fn off_file(&self, delta: int) -> App {
        if self.doc.starts@.len() == 0 {
            *self
        } else {
            App { nav: self.nav_at_file(self.file_off(delta)), ..*self }
        }
    }

    /// What a command in the diff leaves to do.
    pub open spec fn command_action(&self, cmd: Command) -> Action {
        match cmd {
            Command::Quit => Action::Quit,
            Command::Watch => if !self.source.piped && !self.ui.watch {
                Action::Reload
            } else {
                Action::Idle
            },
            Command::Untracked => if self.source.worktree {
                self.reloaded()
            } else {
                Action::Idle
            },
            Command::Edit => Action::Edit,
            Command::Expand => if self.expands() {
                Action::Reload
            } else if !self.source.piped {
                Action::Edit
            } else {
                Action::Idle
            },
            Command::Refresh => self.reloaded(),
            _ => Action::Idle,
        }
    }

    /// Whether a command in the diff lays out the content: scrolling it does, and
    /// going to a match where there is one.
    pub open spec fn command_lays_out(&self, cmd: Command) -> bool {
        match cmd {
            Command::Left | Command::Right | Command::LineEnd => true,
            Command::NextMatch | Command::PrevMatch => self.search.matches@.len() > 0,
            _ => false,
        }
    }

    /// Whether a command in the diff lays out the content.
    pub(crate) fn needs_room(&self, cmd: Command) -> (r: bool)
        ensures
            r == self.command_lays_out(cmd),
    {
        match cmd {
            Command::Left | Command::Right | Command::LineEnd => true,
            Command::NextMatch | Command::PrevMatch => self.search.matches.len() > 0,
            _ => false,
        }
    }

    /// Nothing to reload for a piped diff.
    fn reload(&self) -> (r: Action)
        ensures
            r == self.reloaded(),
    {
        if self.source.piped {
            Action::Idle
        } else {
            Action::Reload
        }
    }

    /// Grow the folded context around the current hunk.
    pub fn expand_here(&mut self)
        ensures
            *final(self) == old(self).expanded(),
    {
        self.source.expand = self.source.expand.saturating_add(10);
    }

    /// Moves the cursor.
    fn move_by(&mut self, cmd: Command)
        requires
            cmd == Command::Down
                || cmd == Command::Up
                || cmd == Command::Top
                || cmd == Command::Bottom
                || cmd == Command::High
                || cmd == Command::Middle
                || cmd == Command::Low
                || cmd == Command::NextHunk
                || cmd == Command::PrevHunk,
        ensures
            *final(self) == old(self).move_step(cmd),
    {
        proof {
            reveal(App::move_step);
        }
        match cmd {
            Command::Down => self.move_cursor(1),
            Command::Up => self.move_cursor(-1),
            Command::Top => self.cursor_to(0),
            Command::Bottom => {
                let last = self.doc.rows.len().saturating_sub(1);
                self.cursor_to(last);
            },
            Command::High => {
                let row = self.nav.scroll;
                self.set_cursor(row);
            },
            Command::Middle => {
                let n = self.doc.rows.len();
                let row = self.nav.scroll.saturating_add(self.viewport_rows() / 2);
                assert(less(n as nat, 1) <= usize::MAX);
                self.set_cursor(row);
            },
            Command::Low => {
                let n = self.doc.rows.len();
                let row = self.nav.scroll.saturating_add(self.viewport_rows().saturating_sub(1));
                assert(less(n as nat, 1) <= usize::MAX);
                self.set_cursor(row);
            },
            Command::NextHunk => self.jump_hunk(true),
            Command::PrevHunk => self.jump_hunk(false),
            _ => {},
        }
    }

    /// Scrolls the viewport.
    fn page_by(&mut self, cmd: Command)
        requires
            cmd == Command::HalfDown
                || cmd == Command::HalfUp
                || cmd == Command::PageDown
                || cmd == Command::PageUp
                || cmd == Command::LineDown
                || cmd == Command::LineUp,
        ensures
            *final(self) == old(self).page_step(cmd),
    {
        proof {
            reveal(App::page_step);
        }
        let page = self.viewport_rows() as isize;
        match cmd {
            Command::HalfDown => self.scroll_page(page / 2),
            Command::HalfUp => self.scroll_page(-(page / 2)),
            Command::PageDown => self.scroll_page(page),
            Command::PageUp => self.scroll_page(-page),
            Command::LineDown => self.scroll_page(1),
            Command::LineUp => self.scroll_page(-1),
            _ => {},
        }
    }

    /// Scrolls the content.
    fn pan_by(&mut self, cmd: Command)
        requires
            old(self).command_lays_out(cmd) ==> old(self).fits(),
            cmd == Command::Left
                || cmd == Command::Right
                || cmd == Command::LineStart
                || cmd == Command::LineEnd,
        ensures
            *final(self) == old(self).pan_step(cmd),
    {
        proof {
            reveal(App::pan_step);
        }
        match cmd {
            Command::Left => self.scroll_h(-4),
            Command::Right => self.scroll_h(4),
            Command::LineStart => {
                self.nav.hscroll = 0;
            },
            Command::LineEnd => {
                self.nav.hscroll = self.max_hscroll();
            },
            _ => {},
        }
    }

    /// Goes to a match or a file.
    fn go_by(&mut self, cmd: Command)
        requires
            old(self).command_lays_out(cmd) ==> old(self).fits(),
            cmd == Command::NextMatch
                || cmd == Command::PrevMatch
                || cmd == Command::NextFile
                || cmd == Command::PrevFile,
        ensures
            *final(self) == old(self).go_step(cmd),
    {
        proof {
            reveal(App::go_step);
        }
        match cmd {
            Command::NextMatch => self.step_match(1),
            Command::PrevMatch => self.step_match(-1),
            Command::NextFile => self.select_file(1),
            Command::PrevFile => self.select_file(-1),
            _ => {},
        }
    }

    /// Changes what is shown.
    fn toggle_by(&mut self, cmd: Command)
        requires
            cmd == Command::Split
                || cmd == Command::Files
                || cmd == Command::Sidebar
                || cmd == Command::Help,
        ensures
            *final(self) == old(self).toggle_step(cmd),
    {
        proof {
            reveal(App::toggle_step);
        }
        match cmd {
            Command::Split => {
                self.ui.split = !self.ui.split;
            },
            Command::Files => {
                self.ui.mode = Mode::Stat;
            },
            Command::Sidebar => {
                self.ui.sidebar = Some(!self.sidebar_visible());
            },
            Command::Help => {
                self.ui.help_open = !self.ui.help_open;
            },
            _ => {},
        }
    }

    /// Changes what the diff is made of, or leaves something to do.
    fn source_by(&mut self, cmd: Command) -> (r: Action)
        requires
            cmd == Command::Watch
                || cmd == Command::Untracked
                || cmd == Command::Edit
                || cmd == Command::Expand
                || cmd == Command::Refresh,
        ensures
            *final(self) == old(self).source_step(cmd),
            r == old(self).command_action(cmd),
    {
        proof {
            reveal(App::source_step);
        }
        let mut action = Action::Idle;
        match cmd {
            Command::Watch => {
                // Watch needs a live repo; a piped diff (pager mode) is static,
                // so leave it a no-op there. Turning watch on catches up on
                // anything that changed while it was off.
                if !self.source.piped {
                    self.ui.watch = !self.ui.watch;
                    if self.ui.watch {
                        action = Action::Reload;
                    }
                }
            },
            Command::Untracked => {
                // Toggle untracked files in the worktree view; a no-op for
                // other sources, which never surface untracked.
                if self.source.worktree {
                    self.source.all = !self.source.all;
                    action = self.reload();
                }
            },
            Command::Edit => {
                action = Action::Edit;
            },
            Command::Expand => {
                // Enter expands folded context on a hunk header, and opens the
                // file elsewhere; a piped diff has neither.
                if !self.source.piped {
                    if self.on_hunk() {
                        self.expand_here();
                        action = Action::Reload;
                    } else {
                        action = Action::Edit;
                    }
                }
            },
            Command::Refresh => {
                action = self.reload();
            },
            _ => {},
        }
        action
    }

    /// Performs a motion or a toggle in the diff, but for the selection.
    fn perform(&mut self, cmd: Command) -> (r: Action)
        requires
            old(self).command_lays_out(cmd) ==> old(self).fits(),
            cmd != Command::Quit,
            cmd != Command::Search,
            cmd != Command::Yank,
            cmd != Command::YankFile,
            cmd != Command::Visual,
        ensures
            *final(self) == old(self).commanded(cmd),
            r == old(self).command_action(cmd),
    {
        match cmd {
            Command::Down
            | Command::Up
            | Command::Top
            | Command::Bottom
            | Command::High
            | Command::Middle
            | Command::Low
            | Command::NextHunk
            | Command::PrevHunk => self.move_by(cmd),
            Command::HalfDown
            | Command::HalfUp
            | Command::PageDown
            | Command::PageUp
            | Command::LineDown
            | Command::LineUp => self.page_by(cmd),
            Command::Left
            | Command::Right
            | Command::LineStart
            | Command::LineEnd => self.pan_by(cmd),
            Command::NextMatch
            | Command::PrevMatch
            | Command::NextFile
            | Command::PrevFile => self.go_by(cmd),
            Command::Split
            | Command::Files
            | Command::Sidebar
            | Command::Help => self.toggle_by(cmd),
            Command::Watch
            | Command::Untracked
            | Command::Edit
            | Command::Expand
            | Command::Refresh => {
                proof {
                    reveal(App::source_step);
                }
                return self.source_by(cmd);
            },
            _ => {},
        }
        Action::Idle
    }

    /// Opens the search prompt.
    fn open_prompt(&mut self)
        ensures
            *final(self) == (App { search: final(self).search, ..*old(self) }),
            final(self).search == (Search {
                input: final(self).search.input,
                origin: Some((old(self).nav.cursor, old(self).nav.scroll, old(self).search.query)),
                ..old(self).search
            }),
            final(self).search.input is Some,
            final(self).search.input->0@ == Seq::<char>::empty(),
    {
        let query = self.search.query.clone();
        self.search.origin = Some((self.nav.cursor, self.nav.scroll, query));
        let s = String::new();
        assert(s@ =~= Seq::<char>::empty());
        self.search.input = Some(s);
    }

    /// What a command in the diff did: `post` is the viewer after it, `r` what
    /// is left to do.
    pub open spec fn command_done(&self, cmd: Command, now: u64, post: App, r: Action) -> bool {
        match cmd {
            Command::Quit => post == *self && r == Action::Quit,
            Command::Yank => self.yank_done(now, post, r),
            Command::YankFile => self.yank_file_done(now, post, r),
            Command::Visual => r == Action::Idle && post == self.visual_toggled(),
            Command::Search => r == Action::Idle && self.prompt_opened(post),
            _ => self.navigated(cmd, post, r),
        }
    }

    /// The viewer with a line selection started or cancelled.
    #[verifier::opaque]
    pub open spec fn visual_toggled(&self) -> App {
        App {
            ui: if self.ui.visual is Some {
                Ui { visual: None, sel: None, ..self.ui }
            } else {
                Ui {
                    visual: Some(self.nav.cursor),
                    sel: Some(Sel::whole_lines(self.nav.cursor, self.nav.cursor)),
                    ..self.ui
                }
            },
            ..*self
        }
    }

    /// The search prompt is open and empty, and knows where the search started.
    #[verifier::opaque]
    pub open spec fn prompt_opened(&self, post: App) -> bool {
        &&& post == (App {
            search: Search {
                input: post.search.input,
                origin: Some((self.nav.cursor, self.nav.scroll, self.search.query)),
                ..self.search
            },
            ..self.unselected().followed()
        })
        &&& post.search.input is Some
        &&& post.search.input->0@ == Seq::<char>::empty()
    }

    /// What a motion or a toggle did: a mouse selection is dropped, one of
    /// visual mode follows the cursor.
    #[verifier::opaque]
    pub open spec fn navigated(&self, cmd: Command, post: App, r: Action) -> bool {
        &&& post == self.unselected().commanded(cmd).followed()
        &&& r == self.unselected().command_action(cmd)
    }

    /// What copying did.
    #[verifier::opaque]
    pub open spec fn yank_done(&self, now: u64, post: App, r: Action) -> bool {
        let text = self.yanked();
        &&& post == (App {
            flash: post.flash,
            ui: if self.ui.sel is Some {
                Ui { sel: None, visual: None, ..self.ui }
            } else {
                self.ui
            },
            ..*self
        })
        &&& if text.len() > 0 {
            &&& r is Copy
            &&& r->Copy_0@ == text
            &&& post.flash is Some
            &&& post.flash->0.text@ == copied_note(
                crate::diff::capped(crate::actions::feeds(text) + 1),
            )
            &&& post.flash->0.at == now
        } else {
            r == Action::Idle && post.flash == self.flash
        }
    }

    /// What copying the file did.
    #[verifier::opaque]
    pub open spec fn yank_file_done(&self, now: u64, post: App, r: Action) -> bool {
        &&& post == (App { flash: post.flash, ..*self })
        &&& if self.nav.selected < self.doc.raw@.len()
            && self.doc.raw@[self.nav.selected as int]@.len() > 0 {
            &&& r is Copy
            &&& r->Copy_0@ == self.doc.raw@[self.nav.selected as int]@
            &&& post.flash is Some
            &&& post.flash->0.text@ == "copied file diff"@
            &&& post.flash->0.at == now
        } else {
            r == Action::Idle && post.flash == self.flash
        }
    }

    /// Copies the selection or the line.
    fn do_yank(&mut self, now: u64) -> (r: Action)
        ensures
            old(self).yank_done(now, *final(self), r),
    {
        proof {
            reveal(App::yank_done);
        }
        match self.yank(now) {
            Some(t) => Action::Copy(t),
            None => Action::Idle,
        }
    }

    /// Copies the file.
    fn do_yank_file(&mut self, now: u64) -> (r: Action)
        ensures
            old(self).yank_file_done(now, *final(self), r),
    {
        proof {
            reveal(App::yank_file_done);
        }
        match self.yank_file(now) {
            Some(t) => Action::Copy(t),
            None => Action::Idle,
        }
    }

    /// Starts or cancels a line selection.
    fn do_visual(&mut self)
        ensures
            *final(self) == old(self).visual_toggled(),
    {
        proof {
            reveal(App::visual_toggled);
        }
        self.toggle_visual();
    }

    /// Opens the search prompt.
    fn do_search(&mut self)
        ensures
            old(self).prompt_opened(*final(self)),
    {
        proof {
            reveal(App::prompt_opened);
        }
        self.drop_mouse_sel();
        self.open_prompt();
        self.sync_visual();
    }

    /// Performs a motion or a toggle.
    fn navigate(&mut self, cmd: Command) -> (r: Action)
        requires
            old(self).command_lays_out(cmd) ==> old(self).fits(),
            cmd != Command::Quit,
            cmd != Command::Search,
            cmd != Command::Yank,
            cmd != Command::YankFile,
            cmd != Command::Visual,
        ensures
            old(self).navigated(cmd, *final(self), r),
    {
        proof {
            reveal(App::navigated);
        }
        self.drop_mouse_sel();
        proof {
            lemma_dropped(old(self).ui);
            assert(self.fits() == old(self).fits());
            assert(self.command_lays_out(cmd) == old(self).command_lays_out(cmd));
        }
        let action = self.perform(cmd);
        self.sync_visual();
        action
    }

    /// Carry out a command in the diff. Any navigation key cancels a mouse
    /// selection, but extends a visual-mode one.
    pub fn on_command(&mut self, cmd: Command, now: u64) -> (r: Action)
        requires
            old(self).command_lays_out(cmd) ==> old(self).fits(),
        ensures
            old(self).command_done(cmd, now, *final(self), r),
    {
        match cmd {
            Command::Quit => Action::Quit,
            Command::Yank => self.do_yank(now),
            Command::YankFile => self.do_yank_file(now),
            Command::Visual => {
                self.do_visual();
                Action::Idle
            },
            Command::Search => {
                self.do_search();
                Action::Idle
            },
            _ => self.navigate(cmd),
        }
    }

    /// Another file is selected in the file list.
    #[verifier::opaque]
    pub open spec fn select_step(&self, cmd: StatCommand) -> App {
        match cmd {
            StatCommand::Down => self.off_file(1),
            StatCommand::Up => self.off_file(-1),
            StatCommand::Top => App { nav: self.nav_at_file(0), ..*self },
            StatCommand::Bottom => App {
                nav: self.nav_at_file(less(self.doc.files@.len(), 1) as int),
                ..*self
            },
            _ => *self,
        }
    }

    /// Selects another file in the file list.
    fn select_by(&mut self, cmd: StatCommand)
        ensures
            *final(self) == old(self).select_step(cmd),
    {
        proof {
            reveal(App::select_step);
        }
        match cmd {
            StatCommand::Down => self.select_file(1),
            StatCommand::Up => self.select_file(-1),
            StatCommand::Top => self.select_file_at(0),
            StatCommand::Bottom => {
                let last = self.doc.files.len().saturating_sub(1);
                self.select_file_at(last);
            },
            _ => {},
        }
    }

    /// The viewer showing a view.
    #[verifier::opaque]
    pub open spec fn showing(&self, mode: Mode) -> App {
        App { ui: Ui { mode, ..self.ui }, ..*self }
    }

    /// The viewer with the help grid opened or closed.
    #[verifier::opaque]
    pub open spec fn help_toggled(&self) -> App {
        App { ui: Ui { help_open: !self.ui.help_open, ..self.ui }, ..*self }
    }

    /// What a command in the file list did.
    pub open spec fn stat_done(&self, cmd: StatCommand, now: u64, post: App, r: Action) -> bool {
        match cmd {
            StatCommand::Quit => post == *self && r == Action::Quit,
            StatCommand::Down
            | StatCommand::Up
            | StatCommand::Top
            | StatCommand::Bottom => post == self.select_step(cmd) && r == Action::Idle,
            StatCommand::Close | StatCommand::Open => post == self.showing(Mode::Diff) && r
                == Action::Idle,
            StatCommand::Help => post == self.help_toggled() && r == Action::Idle,
            StatCommand::Refresh => post == *self && r == self.reloaded(),
            StatCommand::YankFile => self.yank_file_done(now, post, r),
            StatCommand::Other => post == *self && r == Action::Idle,
        }
    }

    /// Shows a view.
    pub(crate) fn show(&mut self, mode: Mode)
        ensures
            *final(self) == old(self).showing(mode),
    {
        proof {
            reveal(App::showing);
        }
        self.ui.mode = mode;
    }

    /// Opens or closes the help grid.
    pub(crate) fn toggle_help(&mut self)
        ensures
            *final(self) == old(self).help_toggled(),
    {
        proof {
            reveal(App::help_toggled);
        }
        self.ui.help_open = !self.ui.help_open;
    }

    /// Carry out a command in the file list.
    pub fn on_stat(&mut self, cmd: StatCommand, now: u64) -> (r: Action)
        ensures
            old(self).stat_done(cmd, now, *final(self), r),
    {
        match cmd {
            StatCommand::Quit => Action::Quit,
            StatCommand::Down
            | StatCommand::Up
            | StatCommand::Top
            | StatCommand::Bottom => {
                self.select_by(cmd);
                Action::Idle
            },
            StatCommand::Close | StatCommand::Open => {
                self.show(Mode::Diff);
                Action::Idle
            },
            StatCommand::Help => {
                self.toggle_help();
                Action::Idle
            },
            StatCommand::Refresh => self.reload(),
            StatCommand::YankFile => self.do_yank_file(now),
            StatCommand::Other => Action::Idle,
        }
    }
}

/// Copying puts the selection or the line under the cursor on the clipboard,
/// drops the selection, and says how many lines there were; copying nothing does
/// nothing.
pub proof fn law_copying_hands_the_text_out(a: App, now: u64, post: App, r: Action)
    requires
        a.yank_done(now, post, r),
    ensures
        a.yanked().len() > 0 ==> r is Copy && r->Copy_0@ == a.yanked() && post.flash is Some
            && post.flash->0.at == now,
        0 < a.yanked().len() && crate::actions::feeds(a.yanked()) == 0 ==> post.flash->0.text@
            == copied_note(1),
        0 < a.yanked().len() && crate::actions::feeds(a.yanked()) + 1 <= usize::MAX
            ==> post.flash->0.text@ == copied_note(crate::actions::feeds(a.yanked()) + 1),
        a.yanked().len() == 0 ==> r == Action::Idle && post.flash == a.flash,
        post.ui.sel is None,
        a.ui.sel is Some ==> post.ui.visual is None,
        post.nav == a.nav,
        post.doc == a.doc,
{
    reveal(App::yank_done);
}

/// Copying the file puts the diff of the selected file on the clipboard.
pub proof fn law_copying_the_file_hands_its_diff_out(a: App, now: u64, post: App, r: Action)
    requires
        a.yank_file_done(now, post, r),
        a.nav.selected < a.doc.raw@.len(),
    ensures
        a.doc.raw@[a.nav.selected as int]@.len() > 0 ==> r is Copy && r->Copy_0@
            == a.doc.raw@[a.nav.selected as int]@ && post.flash is Some && post.flash->0.text@
            == "copied file diff"@,
        a.doc.raw@[a.nav.selected as int]@.len() == 0 ==> r == Action::Idle && post.flash
            == a.flash,
        post.nav == a.nav,
        post.ui == a.ui,
{
    reveal(App::yank_file_done);
}

/// Visual mode begins with the line under the cursor selected, and ends with
/// nothing selected.
pub proof fn law_visual_mode_selects_lines(a: App)
    ensures
        a.ui.visual is None ==> a.visual_toggled().ui.visual == Some(a.nav.cursor)
            && a.visual_toggled().ui.sel == Some(Sel::whole_lines(a.nav.cursor, a.nav.cursor)),
        a.ui.visual is Some ==> a.visual_toggled().ui.visual is None
            && a.visual_toggled().ui.sel is None,
        a.visual_toggled().nav == a.nav,
{
    reveal(App::visual_toggled);
}

/// The search prompt opens empty, and keeps where the viewer was and what was
/// searched for.
pub proof fn law_prompt_opens_empty(a: App, post: App)
    requires
        a.prompt_opened(post),
    ensures
        post.search.input is Some,
        post.search.input->0@.len() == 0,
        post.search.origin == Some((a.nav.cursor, a.nav.scroll, a.search.query)),
        post.search.query == a.search.query,
        post.nav == a.nav,
{
    reveal(App::prompt_opened);
}

/// In the file list, closing it and opening the file both lead back to the diff;
/// the other keys do what they do in the diff.
pub proof fn law_file_list_keys(a: App, cmd: StatCommand, now: u64, post: App, r: Action)
    requires
        a.stat_done(cmd, now, post, r),
    ensures
        cmd == StatCommand::Quit ==> post == a && r == Action::Quit,
        cmd == StatCommand::Close || cmd == StatCommand::Open ==> post.ui.mode == Mode::Diff
            && post.nav == a.nav && r == Action::Idle,
        cmd == StatCommand::Help ==> post.ui.help_open != a.ui.help_open && r == Action::Idle,
        cmd == StatCommand::Refresh ==> post == a && r == if a.source.piped {
            Action::Idle
        } else {
            Action::Reload
        },
        cmd == StatCommand::Other ==> post == a && r == Action::Idle,
{
    match cmd {
        StatCommand::Close | StatCommand::Open => {
            reveal(App::showing);
        },
        StatCommand::Help => {
            reveal(App::help_toggled);
        },
        _ => {},
    }
}

} // verus!
