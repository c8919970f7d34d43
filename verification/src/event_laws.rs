//! What holds of every event.

use vstd::prelude::*;

#[allow(unused_imports)]
use crate::actions::{
    dropped, following, hunk_after, hunk_before, law_files_are_entered_at_their_header,
    law_files_follow_one_another, law_hunk_headers_are_the_nearest,
};
use crate::app::{App, Doc, Mode, Nav};
#[allow(unused_imports)]
use crate::app::{
    held, law_moved_cursor_is_in_view, law_moving_goes_row_for_row, law_paging_goes_row_for_row,
    less, moved_in, paged_in, Source, Ui,
};
use crate::events::Event;
use crate::handle::{Action, Wheel};
#[allow(unused_imports)]
use crate::keys::{command_of, prompt_key_of, stat_command_of, Key, PromptView};
use crate::keys::{Command, StatCommand};
#[allow(unused_imports)]
use crate::layout::law_sidebar_shows_as_asked;
#[allow(unused_imports)]
use crate::outside::key_matches;
#[allow(unused_imports)]
use crate::rows::RowKind;
#[allow(unused_imports)]
use crate::scroll::law_no_scroll_past_the_end;
use crate::select::Sel;

verus! {

/// Whether two states of the viewer show the same document in the same way.
pub open spec fn same_document(a: App, b: App) -> bool {
    &&& b.doc == a.doc
    &&& b.config == a.config
    &&& b.theme == a.theme
    &&& b.title == a.title
    &&& b.last_diff == a.last_diff
}

/// Whether a row is in the document, where it has any.
pub open spec fn in_document(doc: Doc, row: usize) -> bool {
    doc.rows@.len() == 0 || row < doc.rows@.len()
}

/// Whether the cursor is in the document, and was where a search started.
pub open spec fn anchored(a: App) -> bool {
    &&& in_document(a.doc, a.nav.cursor)
    &&& match a.search.origin {
        Some((cursor, _, _)) => in_document(a.doc, cursor),
        None => true,
    }
}

/// Whether the matches are those of the query in the document.
pub open spec fn searched(a: App) -> bool {
    a.search.matches@ == a.hits_of(a.search.query@)
}

/// Whether a step keeps the document, the cursor in it, and the matches those of
/// the query.
spec fn sound(a: App, b: App) -> bool {
    same_document(a, b) && (anchored(a) ==> anchored(b)) && (searched(a) ==> searched(b))
}

proof fn lemma_moved(doc: Doc, body: nat, nav: Nav, delta: int)
    ensures
        doc.rows@.len() > 0 ==> moved_in(doc, body, nav, delta).cursor < doc.rows@.len(),
{
    reveal(moved_in);
    let n = doc.rows.len();
}

proof fn lemma_paged(doc: Doc, body: nat, nav: Nav, delta: int)
    requires
        in_document(doc, nav.cursor),
    ensures
        doc.rows@.len() > 0 ==> paged_in(doc, body, nav, delta).cursor < doc.rows@.len(),
{
    reveal(paged_in);
    let n = doc.rows.len();
    if n > 0 {
        law_no_scroll_past_the_end(doc.kinds(), doc.starts@, body);
    }
}

proof fn lemma_placed(a: App, row: int)
    ensures
        sound(a, a.placed(row)),
        a.placed(row).search == a.search,
{
    let nav = Nav {
        cursor: held(
            row,
            0,
            less(a.doc.rows@.len(), 1) as int,
        ) as usize,
        ..a.nav
    };
    lemma_moved(a.doc, a.body(), nav, 0);
}

proof fn lemma_at_match(a: App, i: int)
    ensures
        sound(a, a.at_match(i)),
{
    if a.search.matches@.len() > 0 {
        let nav = Nav {
            cursor: held(
                a.search.matches@[i].0 as int,
                0,
                less(a.doc.rows@.len(), 1) as int,
            ) as usize,
            ..a.nav
        };
        lemma_moved(a.doc, a.body(), nav, 0);
    }
}

proof fn lemma_at_file(a: App, idx: int)
    ensures
        sound(a, App { nav: a.nav_at_file(idx), ..a }),
{
    if 0 <= idx < a.doc.starts@.len() {
        let start = a.doc.starts@[idx];
        lemma_moved(
            a.doc,
            a.body(),
            Nav { cursor: start, scroll: held(start as int, 0, a.bound() as int) as usize, ..a.nav },
            0,
        );
    }
}

proof fn lemma_nav_on(a: App, target: Option<int>)
    ensures
        sound(a, App { nav: a.nav_on(target), ..a }),
{
    if let Some(i) = target {
        lemma_moved(a.doc, a.body(), Nav { cursor: i as usize, ..a.nav }, 0);
    }
}

proof fn lemma_move_step(a: App, cmd: Command)
    ensures
        sound(a, a.move_step(cmd)),
{
    reveal(App::move_step);
    let page = a.viewport_at(a.nav.scroll as nat) as int;
    let top = Nav { cursor: 0, scroll: 0, ..a.nav };
    match cmd {
        Command::Down => lemma_moved(a.doc, a.body(), a.nav, 1),
        Command::Up => lemma_moved(a.doc, a.body(), a.nav, -1),
        Command::Top => lemma_moved(a.doc, a.body(), top, 0),
        Command::Bottom => lemma_moved(
            a.doc,
            a.body(),
            top,
            less(a.doc.rows@.len(), 1) as int,
        ),
        Command::High => lemma_placed(a, a.nav.scroll as int),
        Command::Middle => lemma_placed(a, a.nav.scroll + page / 2),
        Command::Low => lemma_placed(a, a.nav.scroll + less(page as nat, 1)),
        Command::NextHunk => lemma_nav_on(
            a,
            crate::actions::hunk_after(a.doc.rows@, a.nav.cursor + 1),
        ),
        Command::PrevHunk => lemma_nav_on(
            a,
            crate::actions::hunk_before(
                a.doc.rows@,
                held(a.nav.cursor as int, 0, a.doc.rows@.len() as int),
            ),
        ),
        _ => {},
    }
}

proof fn lemma_page_step(a: App, cmd: Command)
    ensures
        sound(a, a.page_step(cmd)),
{
    reveal(App::page_step);
    let page = a.viewport_at(a.nav.scroll as nat) as int;
    if in_document(a.doc, a.nav.cursor) {
        lemma_paged(a.doc, a.body(), a.nav, page / 2);
        lemma_paged(a.doc, a.body(), a.nav, -(page / 2));
        lemma_paged(a.doc, a.body(), a.nav, page);
        lemma_paged(a.doc, a.body(), a.nav, -page);
        lemma_paged(a.doc, a.body(), a.nav, 1);
        lemma_paged(a.doc, a.body(), a.nav, -1);
    }
}

proof fn lemma_pan_step(a: App, cmd: Command)
    ensures
        sound(a, a.pan_step(cmd)),
{
    reveal(App::pan_step);
}

proof fn lemma_toggle_step(a: App, cmd: Command)
    ensures
        sound(a, a.toggle_step(cmd)),
{
    reveal(App::toggle_step);
}

proof fn lemma_source_step(a: App, cmd: Command)
    ensures
        sound(a, a.source_step(cmd)),
{
    reveal(App::source_step);
}

proof fn lemma_go_step(a: App, cmd: Command)
    ensures
        sound(a, a.go_step(cmd)),
{
    reveal(App::go_step);
    match cmd {
        Command::NextMatch => lemma_at_match(a, a.stepped(1)),
        Command::PrevMatch => lemma_at_match(a, a.stepped(-1)),
        Command::NextFile => lemma_at_file(a, a.file_off(1)),
        Command::PrevFile => lemma_at_file(a, a.file_off(-1)),
        _ => {},
    }
}

proof fn lemma_commanded(a: App, cmd: Command)
    ensures
        sound(a, a.commanded(cmd)),
{
    match cmd {
        Command::Down
        | Command::Up
        | Command::Top
        | Command::Bottom
        | Command::High
        | Command::Middle
        | Command::Low
        | Command::NextHunk
        | Command::PrevHunk => lemma_move_step(a, cmd),
        Command::HalfDown
        | Command::HalfUp
        | Command::PageDown
        | Command::PageUp
        | Command::LineDown
        | Command::LineUp => lemma_page_step(a, cmd),
        Command::Left
        | Command::Right
        | Command::LineStart
        | Command::LineEnd => lemma_pan_step(a, cmd),
        Command::NextMatch
        | Command::PrevMatch
        | Command::NextFile
        | Command::PrevFile => lemma_go_step(a, cmd),
        Command::Split
        | Command::Files
        | Command::Sidebar
        | Command::Help => lemma_toggle_step(a, cmd),
        Command::Watch
        | Command::Untracked
        | Command::Expand => lemma_source_step(a, cmd),
        _ => {},
    }
}

proof fn lemma_command(a: App, cmd: Command, now: u64, post: App, r: Action)
    requires
        a.command_done(cmd, now, post, r),
    ensures
        sound(a, post),
{
    match cmd {
        Command::Quit => {},
        Command::Yank => reveal(App::yank_done),
        Command::YankFile => reveal(App::yank_file_done),
        Command::Visual => reveal(App::visual_toggled),
        Command::Search => reveal(App::prompt_opened),
        _ => {
            reveal(App::navigated);
            lemma_commanded(a.unselected(), cmd);
        },
    }
}

proof fn lemma_stat(a: App, cmd: StatCommand, now: u64, post: App, r: Action)
    requires
        a.stat_done(cmd, now, post, r),
    ensures
        sound(a, post),
{
    reveal(App::showing);
    reveal(App::help_toggled);
    reveal(App::yank_file_done);
    assert(sound(a, a.select_step(cmd))) by {
        reveal(App::select_step);
        lemma_at_file(a, a.file_off(1));
        lemma_at_file(a, a.file_off(-1));
        lemma_at_file(a, 0);
        lemma_at_file(a, less(a.doc.files@.len(), 1) as int);
    }
}

proof fn lemma_prompt(a: App, key: PromptView, post: App)
    requires
        a.prompt_done(key, post),
    ensures
        sound(a, post),
        post.ui == a.ui,
        post.source == a.source,
        post.screen == a.screen,
        post.flash == a.flash,
{
    reveal(App::search_cancelled);
    reveal(App::search_confirmed);
    reveal(App::search_edited);
    let at = a.searching(post);
    lemma_at_match(at, at.first_hit());
}

proof fn lemma_escape(a: App, now: u64, post: App)
    requires
        a.escape_done(now, post),
    ensures
        sound(a, post),
        post.ui.help_open == a.ui.help_open,
        post.nav == a.nav,
        post.source == a.source,
{
    reveal(App::mascot_toggled);
    reveal(App::tapped);
    reveal(App::sel_dropped);
    reveal(App::search_dropped);
    reveal(App::showing);
    if post.search.query@.len() == 0 && post.search.matches@.len() == 0 {
        assert(post.search.matches@ =~= post.hits_of(post.search.query@));
    }
}

proof fn lemma_key(a: App, k: Key, now: u64, job_control: bool, post: App, r: Action)
    requires
        a.key_done(k, now, job_control, post, r),
    ensures
        sound(a, post),
{
    if job_control && key_matches(k@, "ctrl+z"@) {
    } else if a.search.input is Some {
        lemma_prompt(a, prompt_key_of(k@), post);
    } else if key_matches(k@, "escape"@) {
        lemma_escape(a, now, post);
    } else if a.ui.help_open && (key_matches(k@, "q"@) || key_matches(k@, "ctrl+c"@)) {
    } else if a.ui.help_open && key_matches(k@, "?"@) {
        reveal(App::help_toggled);
    } else if a.ui.mode == Mode::Stat {
        lemma_stat(a, stat_command_of(k@), now, post, r);
    } else {
        lemma_command(a, command_of(k@), now, post, r);
    }
}

proof fn lemma_modal_click(a: App, x: u16, y: u16)
    ensures
        sound(a, a.modal_clicked(x, y)),
{
    reveal(App::modal_clicked);
    reveal(App::showing);
    if let Some(h) = a.ui.modal_hit {
        lemma_at_file(a, h.start + (y - h.list_y));
    }
}

proof fn lemma_click_expanded(a: App)
    ensures
        sound(a, a.click_expanded()),
{
    reveal(App::click_expanded);
}

proof fn lemma_click_selected(a: App, x: u16, y: u16, now: u64)
    ensures
        sound(a, a.click_selected(x, y, now)),
{
    reveal(App::click_selected);
}

proof fn lemma_text_click(a: App, x: u16, y: u16, now: u64, post: App, r: Action)
    requires
        a.text_click_done(x, y, now, post, r),
    ensures
        sound(a, post),
{
    let at = a.placed(a.row_at(y as nat));
    lemma_placed(a, a.row_at(y as nat));
    lemma_click_expanded(at);
    lemma_click_selected(at, x, y, now);
}

proof fn lemma_grabs(a: App, at: (u16, u16))
    ensures
        sound(a, a.mascot_grabbed(at)),
        sound(a, a.sidebar_grabbed()),
        sound(a, a.split_grabbed()),
        sound(a, a.help_toggled()),
        sound(a, a.pin_toggled()),
{
    reveal(App::mascot_grabbed);
    reveal(App::sidebar_grabbed);
    reveal(App::split_grabbed);
    reveal(App::help_toggled);
    reveal(App::pin_toggled);
}

proof fn lemma_body_click(a: App, x: u16, y: u16, now: u64, post: App, r: Action)
    requires
        a.body_click_done(x, y, now, post, r),
    ensures
        sound(a, post),
{
    if let Some(at) = a.grip(x, y) {
        lemma_grabs(a, at);
    } else if a.doc.files@.len() == 0 || y >= a.body() {
    } else if a.sidebar_cols() > 0 && x == a.divider_col() {
        lemma_grabs(a, (0, 0));
    } else if a.ui.split && x == a.split_col() {
        lemma_grabs(a, (0, 0));
    } else if a.sidebar_has(x) {
        lemma_at_file(a, a.sidebar_file(y));
    } else {
        lemma_text_click(a, x, y, now, post, r);
    }
}

proof fn lemma_click(a: App, x: u16, y: u16, left: bool, now: u64, post: App, r: Action)
    requires
        a.click_done(x, y, left, now, post, r),
    ensures
        sound(a, post),
{
    lemma_grabs(a, (0, 0));
    if a.ui.mode == Mode::Stat {
        lemma_modal_click(a, x, y);
    }
    if a.body_click_done(x, y, now, post, r) {
        lemma_body_click(a, x, y, now, post, r);
    }
}

proof fn lemma_wheel(a: App, wheel: Wheel)
    ensures
        sound(a, a.wheeled(wheel)),
{
    reveal(App::wheeled);
    let b = a.unselected();
    if in_document(a.doc, a.nav.cursor) {
        lemma_paged(b.doc, b.body(), b.nav, -3);
        lemma_paged(b.doc, b.body(), b.nav, 3);
    }
}

proof fn lemma_drag(a: App, x: u16, y: u16, post: App, r: Action)
    requires
        a.drag_done(x, y, post, r),
    ensures
        sound(a, post),
{
    reveal(App::modal_dragged);
    reveal(App::sidebar_dragged);
    if let Some(sel) = a.ui.sel {
        reveal(App::sel_dragged);
    }
}

proof fn lemma_event(a: App, ev: Event, now: u64, job_control: bool, post: App, r: Action)
    requires
        a.event_done(ev, now, job_control, post, r),
    ensures
        sound(a, post),
{
    match ev {
        Event::KeyPress(k) => lemma_key(a, k, now, job_control, post, r),
        Event::MouseWheel(w) => lemma_wheel(a, w),
        Event::MouseClick(x, y, left) => lemma_click(a, x, y, left, now, post, r),
        Event::MouseMove(x, y) => lemma_drag(a, x, y, post, r),
        Event::MouseRelease(left) => reveal(App::released),
        Event::Resize(w, h) => reveal(App::resized),
        Event::Other => {},
    }
}

/// No event changes the document, nor how it is shown.
pub proof fn law_events_keep_the_document(
    a: App,
    ev: Event,
    now: u64,
    job_control: bool,
    post: App,
    r: Action,
)
    requires
        a.event_done(ev, now, job_control, post, r),
    ensures
        same_document(a, post),
{
    lemma_event(a, ev, now, job_control, post, r);
}

/// Every event leaves the cursor in the document.
pub proof fn law_events_keep_the_cursor_in_the_document(
    a: App,
    ev: Event,
    now: u64,
    job_control: bool,
    post: App,
    r: Action,
)
    requires
        anchored(a),
        a.event_done(ev, now, job_control, post, r),
    ensures
        anchored(post),
{
    lemma_event(a, ev, now, job_control, post, r);
}

/// Every event leaves the matches those of the query in the document.
pub proof fn law_events_keep_the_matches_of_the_query(
    a: App,
    ev: Event,
    now: u64,
    job_control: bool,
    post: App,
    r: Action,
)
    requires
        searched(a),
        a.event_done(ev, now, job_control, post, r),
    ensures
        searched(post),
{
    lemma_event(a, ev, now, job_control, post, r);
}

/// Escape never quits, never moves, and never touches help, which is a
/// toggle-only inline footer.
pub proof fn law_escape_only_closes(
    a: App,
    k: Key,
    now: u64,
    job_control: bool,
    post: App,
    r: Action,
)
    requires
        key_matches(k@, "escape"@),
        !(job_control && key_matches(k@, "ctrl+z"@)),
        a.search.input is None,
        a.key_done(k, now, job_control, post, r),
    ensures
        r == Action::Idle,
        post.ui.help_open == a.ui.help_open,
        post.nav == a.nav,
        post.source == a.source,
{
    lemma_escape(a, now, post);
}

/// While the search prompt is open it captures the keyboard: a key changes
/// nothing but the search and where the viewer is.
pub proof fn law_prompt_captures_the_keyboard(
    a: App,
    k: Key,
    now: u64,
    job_control: bool,
    post: App,
    r: Action,
)
    requires
        a.search.input is Some,
        !(job_control && key_matches(k@, "ctrl+z"@)),
        a.key_done(k, now, job_control, post, r),
    ensures
        r == Action::Idle,
        post == (App { search: post.search, nav: post.nav, ..a }),
{
    lemma_prompt(a, prompt_key_of(k@), post);
}

/// Typing in the search prompt does not forget where the search started.
pub proof fn law_typing_keeps_the_origin(a: App, text: Seq<char>, post: App)
    requires
        a.search_edited(text, post),
    ensures
        post.search.origin == a.search.origin,
        post.search.input is Some,
{
    reveal(App::search_edited);
}

/// Cancelling a search restores the cursor, the viewport, the query and the
/// matches of when the prompt was opened, whatever was typed in between.
pub proof fn law_cancelling_restores_the_view(a: App, opened: App, typed: App, post: App)
    requires
        a.prompt_opened(opened),
        typed.search.origin == opened.search.origin,
        typed.doc == a.doc,
        typed.search_cancelled(post),
    ensures
        post.nav.cursor == a.nav.cursor,
        post.nav.scroll == a.nav.scroll,
        post.search.query == a.search.query,
        post.search.matches@ == a.hits_of(a.search.query@),
        post.search.input is None,
{
    reveal(App::prompt_opened);
    reveal(App::search_cancelled);
}

/// Toggling the help grid, the pinned mascot, or a line selection twice changes
/// nothing but the selection.
pub proof fn law_toggles_undo_themselves(a: App)
    ensures
        a.help_toggled().help_toggled() == a,
        a.pin_toggled().pin_toggled() == a,
        a.ui.visual is None ==> a.visual_toggled().visual_toggled() == (App {
            ui: crate::app::Ui { sel: None, ..a.ui },
            ..a
        }),
{
    reveal(App::help_toggled);
    reveal(App::pin_toggled);
    reveal(App::visual_toggled);
}

/// A click inside the box of the file list keeps it open; only one outside
/// closes it.
pub proof fn law_file_list_closes_on_a_click_outside(app: App, x: u16, y: u16)
    requires
        app.ui.mode == Mode::Stat,
    ensures
        (app.modal_clicked(x, y).ui.mode == Mode::Stat) == match app.ui.modal_hit {
            Some(h) => h.x0 <= x < h.x1 && h.y0 <= y < h.y1,
            None => false,
        },
{
    reveal(App::modal_clicked);
    reveal(App::showing);
}

/// Once the left button is let go nothing is dragged, and letting go again
/// changes nothing.
pub proof fn law_release_ends_every_drag(a: App)
    ensures
        a.released().released() == a.released(),
        a.released().ui.sel matches Some(s) ==> !s.dragging,
        !a.released().ui.resizing,
        !a.released().ui.resizing_split,
        a.released().ui.modal_drag is None,
        a.released().ui.mascot_grab is None,
{
    reveal(App::released);
}

/// Before a motion or a toggle is carried out a selection of the mouse is
/// dropped, and nothing else changes.
pub proof fn law_motions_drop_the_mouse_selection(a: App)
    ensures
        a.unselected() == (App { ui: a.unselected().ui, ..a }),
        a.unselected().ui == (Ui { sel: a.unselected().ui.sel, ..a.ui }),
        a.unselected().ui.sel == if a.ui.visual is None {
            None
        } else {
            a.ui.sel
        },
{
    reveal(dropped);
}

/// Once it is carried out, the selection of visual mode runs from where it began
/// to the cursor, and nothing else changes.
pub proof fn law_visual_selection_follows_the_cursor(a: App)
    ensures
        a.followed() == (App { ui: a.followed().ui, ..a }),
        a.followed().ui == (Ui { sel: a.followed().ui.sel, ..a.ui }),
        a.followed().ui.sel == match a.ui.visual {
            Some(anchor) => Some(Sel::whole_lines(anchor, a.nav.cursor)),
            None => a.ui.sel,
        },
{
    reveal(following);
}

/// A motion or a toggle leaves the viewer where it leads to from there, and asks
/// for what it asks for.
pub proof fn law_motions_are_carried_out(a: App, cmd: Command, now: u64, post: App, r: Action)
    requires
        a.command_done(cmd, now, post, r),
        cmd != Command::Quit,
        cmd != Command::Yank,
        cmd != Command::YankFile,
        cmd != Command::Visual,
        cmd != Command::Search,
    ensures
        post.nav == a.unselected().commanded(cmd).nav,
        post.search == a.unselected().commanded(cmd).search,
        post.source == a.unselected().commanded(cmd).source,
        post.ui == (Ui { sel: post.ui.sel, ..a.unselected().commanded(cmd).ui }),
        r == a.unselected().command_action(cmd),
{
    reveal(App::navigated);
    law_visual_selection_follows_the_cursor(a.unselected().commanded(cmd));
}

proof fn lemma_moves(a: App)
    ensures
        a.commanded(Command::Down).nav == moved_in(a.doc, a.body(), a.nav, 1),
        a.commanded(Command::Up).nav == moved_in(a.doc, a.body(), a.nav, -1),
        a.commanded(Command::Top).nav == moved_in(
            a.doc,
            a.body(),
            Nav { cursor: 0, scroll: 0, ..a.nav },
            0,
        ),
        a.commanded(Command::Bottom).nav == moved_in(
            a.doc,
            a.body(),
            Nav { cursor: 0, scroll: 0, ..a.nav },
            less(a.doc.rows@.len(), 1) as int,
        ),
{
    reveal(App::move_step);
}

/// Going down and up takes the cursor to the next row and the previous one, and
/// no further than the last and the first; the top and the bottom are the first
/// row and the last.
pub proof fn law_lines_are_walked_one_by_one(a: App)
    requires
        a.nav.cursor < a.doc.rows@.len(),
    ensures
        ({
            let last = a.doc.rows@.len() - 1;
            let c = a.nav.cursor;
            &&& c < last ==> a.commanded(Command::Down).nav.cursor == c + 1
            &&& c == last ==> a.commanded(Command::Down).nav.cursor == c
            &&& c > 0 ==> a.commanded(Command::Up).nav.cursor == c - 1
            &&& c == 0 ==> a.commanded(Command::Up).nav.cursor == 0
            &&& a.commanded(Command::Top).nav.cursor == 0
            &&& a.body() > 0 ==> a.commanded(Command::Top).nav.scroll == 0
            &&& a.commanded(Command::Bottom).nav.cursor == last
        }),
{
    lemma_moves(a);
    let top = Nav { cursor: 0, scroll: 0, ..a.nav };
    law_moving_goes_row_for_row(a.doc, a.body(), a.nav, 1);
    law_moving_goes_row_for_row(a.doc, a.body(), a.nav, -1);
    law_moving_goes_row_for_row(a.doc, a.body(), top, 0);
    law_moving_goes_row_for_row(a.doc, a.body(), top, less(a.doc.rows@.len(), 1) as int);
    if a.body() > 0 {
        law_moved_cursor_is_in_view(a.doc, a.body(), top, 0);
    }
}

proof fn lemma_places(a: App, row: int)
    requires
        0 <= row,
        a.doc.rows@.len() > 0,
    ensures
        row < a.doc.rows@.len() ==> a.placed(row).nav.cursor == row,
        row >= a.doc.rows@.len() ==> a.placed(row).nav.cursor == a.doc.rows@.len() - 1,
{
    assert(a.doc.rows@.len() == a.doc.rows.len());
    let at = Nav {
        cursor: held(row, 0, less(a.doc.rows@.len(), 1) as int) as usize,
        ..a.nav
    };
    law_moving_goes_row_for_row(a.doc, a.body(), at, 0);
}

/// The high, the middle and the low row of the window are its first row, the one
/// half its height on, and its last one, as far as the document has rows.
pub proof fn law_window_rows(a: App)
    requires
        a.nav.scroll < a.doc.rows@.len(),
    ensures
        ({
            let top = a.nav.scroll;
            let vh = a.viewport_at(top as nat);
            let n = a.doc.rows@.len();
            &&& a.commanded(Command::High).nav.cursor == top
            &&& top + vh / 2 < n ==> a.commanded(Command::Middle).nav.cursor == top + vh / 2
            &&& vh > 0 && top + vh <= n ==> a.commanded(Command::Low).nav.cursor == top + vh - 1
            &&& top + vh > n ==> a.commanded(Command::Low).nav.cursor == n - 1
        }),
{
    reveal(App::move_step);
    let vh = a.viewport_at(a.nav.scroll as nat);
    lemma_places(a, a.nav.scroll as int);
    lemma_places(a, a.nav.scroll + vh / 2);
    lemma_places(a, a.nav.scroll + less(vh, 1));
    assert(a.commanded(Command::High) == a.placed(a.nav.scroll as int));
    assert(a.commanded(Command::Middle) == a.placed(a.nav.scroll + vh / 2));
    assert(a.commanded(Command::Low) == a.placed(a.nav.scroll + less(vh, 1)));
}

proof fn lemma_jumps(a: App)
    requires
        a.nav.cursor < a.doc.rows@.len(),
    ensures
        a.commanded(Command::NextHunk).nav == a.nav_on(
            hunk_after(a.doc.rows@, a.nav.cursor + 1),
        ),
        a.commanded(Command::PrevHunk).nav == a.nav_on(
            hunk_before(a.doc.rows@, a.nav.cursor as int),
        ),
{
    reveal(App::move_step);
}

proof fn lemma_lands(a: App, t: int)
    requires
        0 <= t < a.doc.rows@.len(),
    ensures
        a.nav_on(Some(t)).cursor == t,
{
    assert(a.doc.rows@.len() == a.doc.rows.len());
    law_moving_goes_row_for_row(a.doc, a.body(), Nav { cursor: t as usize, ..a.nav }, 0);
}

/// Going to the next hunk leads to the nearest hunk header behind the cursor,
/// going to the previous one to the nearest before it; where there is none the
/// viewer stays where it is.
pub proof fn law_hunks_are_walked_one_by_one(a: App, h: int)
    requires
        a.nav.cursor < a.doc.rows@.len(),
    ensures
        ({
            let rows = a.doc.rows@;
            let c = a.nav.cursor;
            let next = a.commanded(Command::NextHunk).nav;
            let prev = a.commanded(Command::PrevHunk).nav;
            &&& c < h < rows.len() && rows[h].kind == RowKind::Hunk && (forall|k: int|
                c < k < h ==> (#[trigger] rows[k]).kind != RowKind::Hunk) ==> next.cursor == h
            &&& (forall|k: int|
                c < k < rows.len() ==> (#[trigger] rows[k]).kind != RowKind::Hunk) ==> next == a.nav
            &&& 0 <= h < c && rows[h].kind == RowKind::Hunk && (forall|k: int|
                h < k < c ==> (#[trigger] rows[k]).kind != RowKind::Hunk) ==> prev.cursor == h
            &&& (forall|k: int| 0 <= k < c ==> (#[trigger] rows[k]).kind != RowKind::Hunk) ==> prev
                == a.nav
        }),
{
    let rows = a.doc.rows@;
    lemma_jumps(a);
    law_hunk_headers_are_the_nearest(rows, a.nav.cursor + 1);
    law_hunk_headers_are_the_nearest(rows, a.nav.cursor as int);
    if let Some(t) = hunk_after(rows, a.nav.cursor + 1) {
        lemma_lands(a, t);
        assert(rows[t].kind == RowKind::Hunk);
    }
    if let Some(t) = hunk_before(rows, a.nav.cursor as int) {
        lemma_lands(a, t);
        assert(rows[t].kind == RowKind::Hunk);
    }
}

proof fn lemma_pages(a: App)
    ensures
        ({
            let page = a.viewport_at(a.nav.scroll as nat) as int;
            &&& a.commanded(Command::HalfDown).nav == paged_in(a.doc, a.body(), a.nav, page / 2)
            &&& a.commanded(Command::HalfUp).nav == paged_in(a.doc, a.body(), a.nav, -(page / 2))
            &&& a.commanded(Command::PageDown).nav == paged_in(a.doc, a.body(), a.nav, page)
            &&& a.commanded(Command::PageUp).nav == paged_in(a.doc, a.body(), a.nav, -page)
            &&& a.commanded(Command::LineDown).nav == paged_in(a.doc, a.body(), a.nav, 1)
            &&& a.commanded(Command::LineUp).nav == paged_in(a.doc, a.body(), a.nav, -1)
        }),
{
    reveal(App::page_step);
}

/// A page is as many rows as the window shows below the pinned ones. The
/// commands that scroll move the viewport by a page, by half of one or by a
/// single row, as far as the document scrolls.
pub proof fn law_viewport_scrolls_by_pages(a: App)
    requires
        a.doc.rows@.len() > 0,
        a.pinned_at(a.nav.scroll as nat).len() <= a.body(),
    ensures
        ({
            let page = a.body() - a.pinned_at(a.nav.scroll as nat).len();
            let s = a.nav.scroll;
            let max = a.bound();
            &&& s + page <= max ==> a.commanded(Command::PageDown).nav.scroll == s + page
            &&& s + page > max ==> a.commanded(Command::PageDown).nav.scroll == max
            &&& page <= s <= max + page ==> a.commanded(Command::PageUp).nav.scroll == s - page
            &&& s < page ==> a.commanded(Command::PageUp).nav.scroll == 0
            &&& s + page / 2 <= max ==> a.commanded(Command::HalfDown).nav.scroll == s + page / 2
            &&& page / 2 <= s <= max + page / 2 ==> a.commanded(Command::HalfUp).nav.scroll == s
                - page / 2
            &&& s + 1 <= max ==> a.commanded(Command::LineDown).nav.scroll == s + 1
            &&& 1 <= s <= max + 1 ==> a.commanded(Command::LineUp).nav.scroll == s - 1
            &&& s == 0 ==> a.commanded(Command::LineUp).nav.scroll == 0
        }),
{
    lemma_pages(a);
    let page = a.viewport_at(a.nav.scroll as nat) as int;
    law_paging_goes_row_for_row(a.doc, a.body(), a.nav, page / 2);
    law_paging_goes_row_for_row(a.doc, a.body(), a.nav, -(page / 2));
    law_paging_goes_row_for_row(a.doc, a.body(), a.nav, page);
    law_paging_goes_row_for_row(a.doc, a.body(), a.nav, -page);
    law_paging_goes_row_for_row(a.doc, a.body(), a.nav, 1);
    law_paging_goes_row_for_row(a.doc, a.body(), a.nav, -1);
}

/// The content scrolls four columns to the left or to the right at a time, as
/// far as it goes, back to its start, and to the end of the widest line on
/// screen.
pub proof fn law_content_scrolls_by_four(a: App)
    requires
        a.hbound() <= usize::MAX,
    ensures
        ({
            let h = a.nav.hscroll;
            let max = a.hbound();
            &&& h + 4 <= max ==> a.commanded(Command::Right).nav.hscroll == h + 4
            &&& h + 4 > max ==> a.commanded(Command::Right).nav.hscroll == max
            &&& 4 <= h <= max + 4 ==> a.commanded(Command::Left).nav.hscroll == h - 4
            &&& h < 4 ==> a.commanded(Command::Left).nav.hscroll == 0
            &&& a.commanded(Command::LineStart).nav.hscroll == 0
            &&& a.commanded(Command::LineEnd).nav.hscroll == max
        }),
{
    lemma_pans(a);
    let max = a.hbound();
    assert(held(a.nav.hscroll + 4, 0, max as int) <= max);
}

proof fn lemma_pans(a: App)
    ensures
        a.commanded(Command::Right).nav.hscroll == held(a.nav.hscroll + 4, 0, a.hbound() as int)
            as usize,
        a.commanded(Command::Left).nav.hscroll == held(a.nav.hscroll - 4, 0, a.hbound() as int)
            as usize,
        a.commanded(Command::LineStart).nav.hscroll == 0,
        a.commanded(Command::LineEnd).nav.hscroll == a.hbound() as usize,
{
    reveal(App::pan_step);
}

proof fn lemma_goes_to_files(a: App)
    requires
        a.doc.starts@.len() > 0,
    ensures
        a.commanded(Command::NextFile).nav == a.nav_at_file(a.file_off(1)),
        a.commanded(Command::PrevFile).nav == a.nav_at_file(a.file_off(-1)),
        a.select_step(StatCommand::Down).nav == a.nav_at_file(a.file_off(1)),
        a.select_step(StatCommand::Up).nav == a.nav_at_file(a.file_off(-1)),
        a.select_step(StatCommand::Top).nav == a.nav_at_file(0),
        a.select_step(StatCommand::Bottom).nav == a.nav_at_file(
            less(a.doc.files@.len(), 1) as int,
        ),
{
    reveal(App::go_step);
    reveal(App::select_step);
}

/// Going to the next file or the previous one puts the cursor on the header of
/// the file behind the one under the cursor or before it; the last and the first
/// are entered again. Going down and up in the file list does the same, and its
/// top and bottom are the first file and the last.
pub proof fn law_files_are_walked_one_by_one(a: App, i: int)
    requires
        a.doc.wf(),
        0 <= i < a.doc.starts@.len(),
        a.doc.starts@[i] <= a.nav.cursor,
        i + 1 < a.doc.starts@.len() ==> a.nav.cursor < a.doc.starts@[i + 1],
    ensures
        ({
            let starts = a.doc.starts@;
            let last = starts.len() - 1;
            let next = a.commanded(Command::NextFile).nav;
            let prev = a.commanded(Command::PrevFile).nav;
            &&& i < last ==> next.cursor == starts[i + 1] && next.selected == i + 1
            &&& i == last ==> next.cursor == starts[i]
            &&& i > 0 ==> prev.cursor == starts[i - 1] && prev.selected == i - 1
            &&& i == 0 ==> prev.cursor == starts[0]
            &&& a.select_step(StatCommand::Down).nav == next
            &&& a.select_step(StatCommand::Up).nav == prev
            &&& a.select_step(StatCommand::Top).nav.cursor == starts[0]
            &&& a.doc.files@.len() == starts.len() ==> a.select_step(
                StatCommand::Bottom,
            ).nav.cursor == starts[last]
        }),
{
    lemma_goes_to_files(a);
    assert(a.doc.starts@[0] < a.doc.rows@.len());
    law_files_follow_one_another(a, i);
    law_files_are_entered_at_their_header(a, a.file_off(1));
    law_files_are_entered_at_their_header(a, a.file_off(-1));
    law_files_are_entered_at_their_header(a, 0);
    law_files_are_entered_at_their_header(a, less(a.doc.files@.len(), 1) as int);
}

/// The toggles of the diff change what they name: the two panes, the help grid,
/// the sidebar, and the file list, which they open.
pub proof fn law_toggles_change_what_they_name(a: App)
    ensures
        a.commanded(Command::Split).ui == (Ui { split: !a.ui.split, ..a.ui }),
        a.commanded(Command::Help).ui == (Ui { help_open: !a.ui.help_open, ..a.ui }),
        a.commanded(Command::Files).ui == (Ui { mode: Mode::Stat, ..a.ui }),
        a.doc.files@.len() > 0 ==> a.commanded(Command::Sidebar).shows_sidebar()
            != a.shows_sidebar(),
{
    reveal(App::toggle_step);
    assert(a.commanded(Command::Sidebar).ui.sidebar == Some(!a.shows_sidebar()));
    assert(a.commanded(Command::Sidebar).doc == a.doc);
    if a.doc.files@.len() > 0 {
        law_sidebar_shows_as_asked(a.commanded(Command::Sidebar));
    }
}

/// Watching is switched on and off unless the diff is piped, and the diff is
/// read again when it is switched on; untracked files come and go in a diff of
/// the working tree, which is read again.
pub proof fn law_sources_change_as_asked(a: App)
    ensures
        !a.source.piped ==> a.commanded(Command::Watch).ui.watch != a.ui.watch,
        a.source.piped ==> a.commanded(Command::Watch).ui.watch == a.ui.watch,
        a.command_action(Command::Watch) == if !a.ui.watch && a.commanded(
            Command::Watch,
        ).ui.watch {
            Action::Reload
        } else {
            Action::Idle
        },
        a.source.worktree ==> a.commanded(Command::Untracked).source == (Source {
            all: !a.source.all,
            ..a.source
        }),
        a.source.worktree && !a.source.piped ==> a.command_action(Command::Untracked)
            == Action::Reload,
        !a.source.worktree ==> a.commanded(Command::Untracked) == a && a.command_action(
            Command::Untracked,
        ) == Action::Idle,
        a.command_action(Command::Refresh) == if a.source.piped {
            Action::Idle
        } else {
            Action::Reload
        },
        a.command_action(Command::Quit) == Action::Quit,
        a.command_action(Command::Edit) == Action::Edit,
        a.commanded(Command::Refresh) == a && a.commanded(Command::Edit) == a,
{
    reveal(App::source_step);
}

/// Enter on a hunk header reads the diff again with ten more lines of context;
/// elsewhere it opens the file. In a piped diff it does neither.
pub proof fn law_enter_expands_or_opens(a: App)
    ensures
        ({
            let c = a.nav.cursor as int;
            let header = c < a.doc.rows@.len() && a.doc.rows@[c].kind == RowKind::Hunk;
            let r = a.command_action(Command::Expand);
            let source = a.commanded(Command::Expand).source;
            &&& header && !a.source.piped ==> r == Action::Reload && (a.source.expand + 10
                <= usize::MAX ==> source == (Source {
                expand: (a.source.expand + 10) as usize,
                ..a.source
            }))
            &&& !header && !a.source.piped ==> r == Action::Edit && source == a.source
            &&& a.source.piped ==> r == Action::Idle && source == a.source
            &&& a.commanded(Command::Expand).nav == a.nav
        }),
{
    reveal(App::source_step);
}

} // verus!
