//! What the mouse does.

use vstd::prelude::*;

#[allow(unused_imports)]
use crate::actions::{law_files_are_entered_at_their_header, lemma_dropped};
use crate::app::{App, Mode, Nav, Screen, Ui};
#[allow(unused_imports)]
use crate::app::{
    held, law_moved_cursor_is_in_view, law_moving_goes_row_for_row, law_paging_goes_row_for_row,
    less, paged_in, ModalHit,
};
use crate::cells::width;
#[allow(unused_imports)]
use crate::cells::text_width;
use crate::handle::{Action, Wheel};
use crate::mascot::{MASCOT_H, MASCOT_W};
#[allow(unused_imports)]
use crate::scroll::law_no_scroll_past_the_end;
use crate::select::{Pane, Sel};

verus! {

/// Whether a click at `now` is the second one on the same spot within 400
/// milliseconds.
pub open spec fn doubles(last: Option<(u64, u16, u16)>, now: u64, x: u16, y: u16) -> bool {
    match last {
        Some((t, lx, ly)) => ly == y && lx - x <= 1 && x - lx <= 1 && less(now as nat, t as nat)
            < 400,
        None => false,
    }
}

/// Whether a click is the second one on the same spot.
fn is_double(last: Option<(u64, u16, u16)>, now: u64, x: u16, y: u16) -> (r: bool)
    ensures
        r == doubles(last, now, x, y),
{
    match last {
        Some((t, lx, ly)) => {
            let near = if lx > x {
                lx - x <= 1
            } else {
                x - lx <= 1
            };
            ly == y && near && now.saturating_sub(t) < 400
        },
        None => false,
    }
}

/// A coordinate less an offset, at least zero.
fn behind(x: u16, off: usize) -> (r: u16)
    ensures
        r == less(x as nat, off as nat),
        r == less(x as nat, off as nat) as u16,
{
    if (x as usize) > off {
        x - off as u16
    } else {
        0
    }
}

/// A selection once the button was let go: none where nothing is selected.
pub open spec fn let_go(sel: Option<Sel>) -> Option<Sel> {
    match sel {
        Some(s) => if s.a_row == s.c_row && s.a_col == s.c_col {
            None
        } else {
            Some(Sel { dragging: false, ..s })
        },
        None => None,
    }
}

impl App {
    /// The mascot is shown over the diff, or no longer.
    #[verifier::opaque]
    pub open spec fn pin_toggled(&self) -> App {
        App { ui: Ui { mascot_pinned: !self.ui.mascot_pinned, ..self.ui }, ..*self }
    }

    /// A click with the file list open: in its box it selects the file under
    /// the pointer, or grabs the box to drag it; elsewhere it closes the list.
    #[verifier::opaque]
    pub open spec fn modal_clicked(&self, x: u16, y: u16) -> App {
        match self.ui.modal_hit {
            Some(h) => if h.x0 <= x < h.x1 && h.y0 <= y < h.y1 {
                if h.list_y <= y < h.list_y + h.list_h {
                    let idx = h.start + (y - h.list_y);
                    if idx < self.doc.files@.len() {
                        App { nav: self.nav_at_file(idx), ..*self }
                    } else {
                        *self
                    }
                } else {
                    App {
                        ui: Ui {
                            modal_drag: Some(((x - h.x0) as usize, (y - h.y0) as usize)),
                            ..self.ui
                        },
                        ..*self
                    }
                }
            } else {
                self.showing(Mode::Diff)
            },
            None => self.showing(Mode::Diff),
        }
    }

    /// Where a point of the screen is on the mascot, from its top left.
    pub open spec fn grip(&self, x: u16, y: u16) -> Option<(u16, u16)> {
        match self.ui.mascot {
            Some((mx, my)) => {
                let cx = less(x as nat, self.body_left());
                if y < self.body() && mx <= cx < mx + MASCOT_W && my <= y < my + MASCOT_H {
                    Some(((cx - mx) as u16, (y - my) as u16))
                } else {
                    None
                }
            },
            None => None,
        }
    }

    /// The mascot is grabbed.
    #[verifier::opaque]
    pub open spec fn mascot_grabbed(&self, at: (u16, u16)) -> App {
        App { ui: Ui { mascot_grab: Some(at), ..self.ui }, ..*self }
    }

    /// The sidebar's divider is grabbed.
    #[verifier::opaque]
    pub open spec fn sidebar_grabbed(&self) -> App {
        App { ui: Ui { resizing: true, ..self.ui }, ..*self }
    }

    /// The divider between the panes is grabbed.
    #[verifier::opaque]
    pub open spec fn split_grabbed(&self) -> App {
        App { ui: Ui { resizing_split: true, ..self.ui }, ..*self }
    }

    /// The file under a row of the sidebar.
    pub open spec fn sidebar_file(&self, y: u16) -> int {
        less(self.nav.selected as nat, less(self.body(), 1)) + y
    }

    /// A second click on a hunk header expands its context.
    #[verifier::opaque]
    pub open spec fn click_expanded(&self) -> App {
        (App {
            ui: Ui { sel: None, visual: None, last_click: None, ..self.ui },
            ..*self
        }).expanded()
    }

    /// A click starts a fresh mouse selection, confined to one pane in split
    /// view.
    #[verifier::opaque]
    pub open spec fn click_selected(&self, x: u16, y: u16, now: u64) -> App {
        let pane = if self.ui.split {
            self.pane_of(x as nat)
        } else {
            None
        };
        let (row, col) = self.content_at(x as nat, y as nat, pane);
        App {
            ui: Ui {
                last_click: Some((now, x, y)),
                visual: None,
                sel: Some(
                    Sel {
                        a_row: row,
                        a_col: col,
                        c_row: row,
                        c_col: col,
                        dragging: true,
                        pane,
                    },
                ),
                ..self.ui
            },
            ..*self
        }
    }

    /// What a click on the text of the diff did: the cursor is on the row under
    /// the pointer.
    pub open spec fn text_click_done(
        &self,
        x: u16,
        y: u16,
        now: u64,
        post: App,
        r: Action,
    ) -> bool {
        let at = self.placed(self.row_at(y as nat));
        if doubles(self.ui.last_click, now, x, y) && at.expands() {
            post == at.click_expanded() && r == Action::Reload
        } else {
            post == at.click_selected(x, y, now) && r == Action::Idle
        }
    }

    /// What a click on the body did.
    pub open spec fn body_click_done(
        &self,
        x: u16,
        y: u16,
        now: u64,
        post: App,
        r: Action,
    ) -> bool {
        if let Some(at) = self.grip(x, y) {
            post == self.mascot_grabbed(at) && r == Action::Poke
        } else if self.doc.files@.len() == 0 || y >= self.body() {
            post == *self && r == Action::Idle
        } else if self.sidebar_cols() > 0 && x == self.divider_col() {
            post == self.sidebar_grabbed() && r == Action::Idle
        } else if self.ui.split && x == self.split_col() {
            post == self.split_grabbed() && r == Action::Idle
        } else if self.sidebar_has(x) {
            post == (App { nav: self.nav_at_file(self.sidebar_file(y)), ..*self }) && r
                == Action::Idle
        } else {
            self.text_click_done(x, y, now, post, r)
        }
    }

    /// What a click did.
    pub open spec fn click_done(
        &self,
        x: u16,
        y: u16,
        left: bool,
        now: u64,
        post: App,
        r: Action,
    ) -> bool {
        if !left {
            post == *self && r == Action::Idle
        } else if y == self.body() && x >= self.ui.help_badge_x {
            post == self.help_toggled() && r == Action::Idle
        } else if y == self.body() && x < text_width(" drift "@, self.screen.measure) {
            post == self.pin_toggled() && r == Action::Idle
        } else if self.ui.mode == Mode::Stat {
            post == self.modal_clicked(x, y) && r == Action::Idle
        } else if self.ui.help_open {
            post == *self && r == Action::Idle
        } else {
            self.body_click_done(x, y, now, post, r)
        }
    }

    /// Whether a click lays out the content: one of the left button on the diff
    /// does, but for the badges of the status bar.
    pub open spec fn click_lays_out(&self, x: u16, y: u16, left: bool) -> bool {
        &&& left
        &&& !(y == self.body() && (x >= self.ui.help_badge_x || x < text_width(
            " drift "@,
            self.screen.measure,
        )))
        &&& self.ui.mode == Mode::Diff
        &&& !self.ui.help_open
    }

    /// Whether a click lays out the content.
    pub(crate) fn click_needs_room(&self, x: u16, y: u16, left: bool) -> (r: bool)
        ensures
            r == self.click_lays_out(x, y, left),
    {
        let badge = y as usize == self.body_h_screen() && (x as usize >= self.ui.help_badge_x || x
            < width(" drift ", self.screen.measure));
        left && !badge && self.ui.mode == Mode::Diff && !self.ui.help_open
    }

    /// Shows the mascot over the diff, or no longer.
    fn toggle_pin(&mut self)
        ensures
            *final(self) == old(self).pin_toggled(),
    {
        proof {
            reveal(App::pin_toggled);
        }
        self.ui.mascot_pinned = !self.ui.mascot_pinned;
    }

    /// A click with the file list open.
    fn click_modal(&mut self, x: u16, y: u16)
        ensures
            *final(self) == old(self).modal_clicked(x, y),
    {
        proof {
            reveal(App::modal_clicked);
        }
        let px = x as usize;
        let py = y as usize;
        match self.ui.modal_hit {
            Some(h) => {
                if h.x0 <= px && px < h.x1 && h.y0 <= py && py < h.y1 {
                    if h.list_y <= py && py - h.list_y < h.list_h {
                        let n = self.doc.files.len();
                        match h.start.checked_add(py - h.list_y) {
                            Some(idx) => {
                                if idx < n {
                                    self.select_file_at(idx);
                                }
                            },
                            None => {},
                        }
                    } else {
                        self.ui.modal_drag = Some((px - h.x0, py - h.y0));
                    }
                } else {
                    self.show(Mode::Diff);
                }
            },
            None => {
                self.show(Mode::Diff);
            },
        }
    }

    /// Where a point of the screen is on the mascot.
    fn mascot_grip(&self, x: u16, y: u16) -> (r: Option<(u16, u16)>)
        requires
            self.on_left() ==> self.sidebar_fits(),
        ensures
            r == self.grip(x, y),
    {
        if (y as usize) >= self.body_h_screen() {
            return None;
        }
        let bx = self.body_x();
        match self.ui.mascot {
            Some((mx, my)) => {
                let cx = x.saturating_sub(bx);
                if cx >= mx && cx - mx < MASCOT_W && y >= my && y - my < MASCOT_H {
                    Some((cx - mx, y - my))
                } else {
                    None
                }
            },
            None => None,
        }
    }

    /// Grabs the mascot.
    fn grab_mascot(&mut self, at: (u16, u16))
        ensures
            *final(self) == old(self).mascot_grabbed(at),
    {
        proof {
            reveal(App::mascot_grabbed);
        }
        self.ui.mascot_grab = Some(at);
    }

    /// Grabs the sidebar's divider.
    fn grab_sidebar(&mut self)
        ensures
            *final(self) == old(self).sidebar_grabbed(),
    {
        proof {
            reveal(App::sidebar_grabbed);
        }
        self.ui.resizing = true;
    }

    /// Grabs the divider between the panes.
    fn grab_split(&mut self)
        ensures
            *final(self) == old(self).split_grabbed(),
    {
        proof {
            reveal(App::split_grabbed);
        }
        self.ui.resizing_split = true;
    }

    /// Expands the context of the hunk that was clicked twice.
    fn expand_clicked(&mut self)
        ensures
            *final(self) == old(self).click_expanded(),
    {
        proof {
            reveal(App::click_expanded);
        }
        self.clear_sel();
        self.ui.last_click = None;
        self.expand_here();
    }

    /// Starts a mouse selection.
    fn select_clicked(&mut self, x: u16, y: u16, now: u64)
        requires
            old(self).fits(),
        ensures
            *final(self) == old(self).click_selected(x, y, now),
    {
        proof {
            reveal(App::click_selected);
        }
        let pane = if self.ui.split {
            self.pane_at(x)
        } else {
            None
        };
        let (row, col) = self.point_to_content(x, y, pane);
        self.ui = Ui {
            last_click: Some((now, x, y)),
            visual: None,
            sel: Some(
                Sel { a_row: row, a_col: col, c_row: row, c_col: col, dragging: true, pane },
            ),
            ..self.ui
        };
    }

    /// A click on the text of the diff.
    fn click_text(&mut self, x: u16, y: u16, now: u64) -> (r: Action)
        requires
            old(self).fits(),
        ensures
            old(self).text_click_done(x, y, now, *final(self), r),
    {
        let double = is_double(self.ui.last_click, now, x, y);
        let row = self.screen_y_to_doc(y as usize);
        self.set_cursor(row);
        if double && self.on_hunk() && !self.source.piped {
            self.expand_clicked();
            Action::Reload
        } else {
            self.select_clicked(x, y, now);
            Action::Idle
        }
    }

    /// A click on the body.
    fn click_body(&mut self, x: u16, y: u16, now: u64) -> (r: Action)
        requires
            old(self).fits(),
        ensures
            old(self).body_click_done(x, y, now, *final(self), r),
    {
        // The mascot is clickable whenever it's on screen (idle screen, or
        // pinned over a diff): a hit pokes it and starts a drag.
        if let Some(at) = self.mascot_grip(x, y) {
            self.grab_mascot(at);
            return Action::Poke;
        }
        let body = self.body_h_screen();
        if self.doc.files.len() == 0 || (y as usize) >= body {
            return Action::Idle;
        }
        if self.sidebar_w() > 0 && x == self.divider_x() {
            self.grab_sidebar();
            return Action::Idle;
        }
        if self.ui.split && x == self.split_div_x() {
            self.grab_split();
            return Action::Idle;
        }
        if self.in_sidebar(x) {
            let top = self.file_window(body);
            if let Some(idx) = top.checked_add(y as usize) {
                self.select_file_at(idx);
            }
            return Action::Idle;
        }
        self.click_text(x, y, now)
    }

    /// A click of the mouse.
    pub fn on_click(&mut self, x: u16, y: u16, left: bool, now: u64) -> (r: Action)
        requires
            old(self).click_lays_out(x, y, left) ==> old(self).fits(),
        ensures
            old(self).click_done(x, y, left, now, *final(self), r),
    {
        if !left {
            return Action::Idle;
        }
        let footer = self.body_h_screen();
        // The "? help" badge toggles the help grid from any view.
        if y as usize == footer && x as usize >= self.ui.help_badge_x {
            self.toggle_help();
            return Action::Idle;
        }
        // The "drift" logo badge toggles the mascot from any view (same as
        // tapping Esc three times).
        if y as usize == footer && x < width(" drift ", self.screen.measure) {
            self.toggle_pin();
            return Action::Idle;
        }
        if self.ui.mode == Mode::Stat {
            self.click_modal(x, y);
            return Action::Idle;
        }
        if self.ui.help_open {
            return Action::Idle;
        }
        self.click_body(x, y, now)
    }

    /// What a turn of the wheel does: scrolling moves content under a mouse
    /// selection, so it is dropped; one of visual mode follows the cursor.
    #[verifier::opaque]
    pub open spec fn wheeled(&self, wheel: Wheel) -> App {
        let a = self.unselected();
        (match wheel {
            Wheel::Up => App { nav: a.paged(a.nav, -3), ..a },
            Wheel::Down => App { nav: a.paged(a.nav, 3), ..a },
            Wheel::Left => a.panned(-3),
            Wheel::Right => a.panned(3),
            Wheel::Other => a,
        }).followed()
    }

    /// A turn of the wheel.
    pub fn on_wheel(&mut self, wheel: Wheel)
        requires
            wheel == Wheel::Left || wheel == Wheel::Right ==> old(self).fits(),
        ensures
            *final(self) == old(self).wheeled(wheel),
    {
        proof {
            reveal(App::wheeled);
            lemma_dropped(self.ui);
        }
        self.drop_mouse_sel();
        match wheel {
            Wheel::Up => self.scroll_page(-3),
            Wheel::Down => self.scroll_page(3),
            Wheel::Left => self.scroll_h(-3),
            Wheel::Right => self.scroll_h(3),
            Wheel::Other => {},
        }
        self.sync_visual();
    }

    /// The stat modal is dragged.
    #[verifier::opaque]
    pub open spec fn modal_dragged(&self, x: u16, y: u16, grab: (usize, usize)) -> App {
        App {
            ui: Ui {
                modal_pos: Some(
                    (
                        less(x as nat, grab.0 as nat) as u16,
                        less(y as nat, grab.1 as nat) as u16,
                    ),
                ),
                ..self.ui
            },
            ..*self
        }
    }

    /// The sidebar's divider is dragged.
    #[verifier::opaque]
    pub open spec fn sidebar_dragged(&self, x: u16) -> App {
        App {
            ui: Ui {
                sidebar_width: Some(self.sidebar_width_at(x as nat) as usize),
                ..self.ui
            },
            ..*self
        }
    }

    /// The viewer scrolled by a row where a drag is past the edge of the body.
    pub open spec fn edge_scrolled(&self, y: u16) -> App {
        if y == 0 {
            App {
                nav: Nav {
                    scroll: held(self.nav.scroll - 1, 0, self.bound() as int) as usize,
                    ..self.nav
                },
                ..*self
            }
        } else if y + 1 >= self.body() {
            App {
                nav: Nav {
                    scroll: held(self.nav.scroll + 1, 0, self.bound() as int) as usize,
                    ..self.nav
                },
                ..*self
            }
        } else {
            *self
        }
    }

    /// A drag extends the selection; past the top or bottom edge it scrolls, so
    /// that a selection can grow beyond the visible rows.
    #[verifier::opaque]
    pub open spec fn sel_dragged(&self, x: u16, y: u16, sel: Sel) -> App {
        let a = self.edge_scrolled(y);
        let last = less(self.body(), 1);
        let at = if y < last {
            y as nat
        } else {
            last
        };
        let (row, col) = a.content_at(x as nat, at, sel.pane);
        App { ui: Ui { sel: Some(Sel { c_row: row, c_col: col, ..sel }), ..a.ui }, ..a }
    }

    /// Whether a drag has room for what it lays out.
    pub open spec fn drag_fits(&self) -> bool {
        if self.ui.mascot_grab is Some {
            self.sidebar_fits()
        } else if self.ui.modal_drag is Some {
            true
        } else if self.ui.resizing {
            self.screen.width >= 16
        } else if self.ui.resizing_split {
            self.sidebar_fits()
        } else {
            match self.ui.sel {
                Some(s) => s.dragging ==> self.sidebar_fits() && (s.pane == Some(Pane::Right)
                    ==> self.split_fits()),
                None => true,
            }
        }
    }

    /// Whether a drag has room for what it lays out.
    pub fn drag_has_room(&self) -> (r: bool)
        ensures
            r == self.drag_fits(),
    {
        let sidebar_ok = !self.sidebar_visible() || self.screen.width >= 16;
        if self.ui.mascot_grab.is_some() {
            return sidebar_ok;
        }
        if self.ui.modal_drag.is_some() {
            return true;
        }
        if self.ui.resizing {
            return self.screen.width >= 16;
        }
        if self.ui.resizing_split {
            return sidebar_ok;
        }
        match self.ui.sel {
            Some(s) => !s.dragging || (sidebar_ok && (s.pane != Some(Pane::Right) || self.body_w()
                >= 5)),
            None => true,
        }
    }

    /// What a drag of the mouse did.
    pub open spec fn drag_done(&self, x: u16, y: u16, post: App, r: Action) -> bool {
        if let Some(grab) = self.ui.mascot_grab {
            post == *self && r == if self.ui.mascot is Some {
                Action::DragMascot(
                    less(less(x as nat, self.body_left()), grab.0 as nat) as u16,
                    less(y as nat, grab.1 as nat) as u16,
                    self.body_cols() as u16,
                    self.body() as usize,
                )
            } else {
                Action::Idle
            }
        } else if let Some(grab) = self.ui.modal_drag {
            post == self.modal_dragged(x, y, grab) && r == Action::Idle
        } else if self.ui.resizing {
            post == self.sidebar_dragged(x) && r == Action::Idle
        } else if self.ui.resizing_split {
            post == *self && r == if self.split_fits() {
                Action::SplitTo(
                    held(less(x as nat, self.body_left()) as int, 2, self.body_cols() - 3) as u16,
                    (self.body_cols() - 1) as u16,
                )
            } else {
                Action::Idle
            }
        } else {
            r == Action::Idle && match self.ui.sel {
                Some(s) => if s.dragging {
                    post == self.sel_dragged(x, y, s)
                } else {
                    post == *self
                },
                None => post == *self,
            }
        }
    }

    /// Drags the stat modal.
    fn drag_modal(&mut self, x: u16, y: u16, grab: (usize, usize))
        ensures
            *final(self) == old(self).modal_dragged(x, y, grab),
    {
        proof {
            reveal(App::modal_dragged);
        }
        let mx = behind(x, grab.0);
        let my = behind(y, grab.1);
        self.ui = Ui { modal_pos: Some((mx, my)), ..self.ui };
    }

    /// Drags the sidebar's divider.
    fn drag_sidebar(&mut self, x: u16)
        requires
            old(self).screen.width >= 16,
        ensures
            *final(self) == old(self).sidebar_dragged(x),
    {
        proof {
            reveal(App::sidebar_dragged);
        }
        self.resize_sidebar_to(x);
    }

    /// Scrolls by a row where a drag is past the edge of the body.
    fn scroll_at_edge(&mut self, y: u16)
        ensures
            *final(self) == old(self).edge_scrolled(y),
    {
        let body = self.body_h_screen();
        if y == 0 {
            self.scroll_by(-1);
        } else if y as usize + 1 >= body {
            self.scroll_by(1);
        }
    }

    /// Extends the selection to the pointer.
    fn drag_sel(&mut self, x: u16, y: u16, sel: Sel)
        requires
            old(self).sidebar_fits(),
            sel.pane == Some(Pane::Right) ==> old(self).split_fits(),
        ensures
            *final(self) == old(self).sel_dragged(x, y, sel),
    {
        proof {
            reveal(App::sel_dragged);
        }
        let ghost before = *self;
        let last = self.body_h_screen().saturating_sub(1);
        self.scroll_at_edge(y);
        assert(self.ui == before.ui && self.screen == before.screen && self.doc == before.doc
            && self.config == before.config && self.source == before.source);
        let at = if (y as usize) < last {
            y
        } else {
            last as u16
        };
        assert(*self == before.edge_scrolled(y));
        let (row, col) = self.point_to_content(x, at, sel.pane);
        self.ui = Ui { sel: Some(Sel { c_row: row, c_col: col, ..sel }), ..self.ui };
    }

    /// A move of the mouse with a button held.
    pub fn on_drag(&mut self, x: u16, y: u16) -> (r: Action)
        requires
            old(self).drag_fits(),
        ensures
            old(self).drag_done(x, y, *final(self), r),
    {
        if let Some((gx, gy)) = self.ui.mascot_grab {
            // Dragging the mascot: follow the pointer, keeping the grab offset.
            if self.ui.mascot.is_none() {
                return Action::Idle;
            }
            let bx = self.body_x();
            let tx = x.saturating_sub(bx).saturating_sub(gx);
            let ty = y.saturating_sub(gy);
            return Action::DragMascot(tx, ty, self.body_w(), self.body_h_screen());
        }
        if let Some(grab) = self.ui.modal_drag {
            self.drag_modal(x, y, grab);
            return Action::Idle;
        }
        if self.ui.resizing {
            self.drag_sidebar(x);
            return Action::Idle;
        }
        if self.ui.resizing_split {
            return match self.resize_split_to(x) {
                Some((left, inner)) => Action::SplitTo(left, inner),
                None => Action::Idle,
            };
        }
        if let Some(sel) = self.ui.sel {
            if sel.dragging {
                self.drag_sel(x, y, sel);
            }
        }
        Action::Idle
    }

    /// The left button was let go: nothing is dragged any more.
    #[verifier::opaque]
    pub open spec fn released(&self) -> App {
        App {
            ui: Ui {
                resizing: false,
                resizing_split: false,
                modal_drag: None,
                mascot_grab: None,
                sel: let_go(self.ui.sel),
                ..self.ui
            },
            ..*self
        }
    }

    /// What letting a button go did.
    pub open spec fn release_done(&self, left: bool, post: App, r: Action) -> bool {
        if left {
            post == self.released() && r == if self.ui.mascot_grab is Some && self.ui.mascot is Some {
                Action::DropMascot
            } else {
                Action::Idle
            }
        } else {
            post == *self && r == Action::Idle
        }
    }

    /// Let go of a button of the mouse.
    pub fn on_release(&mut self, left: bool) -> (r: Action)
        ensures
            old(self).release_done(left, *final(self), r),
    {
        proof {
            reveal(App::released);
        }
        if !left {
            return Action::Idle;
        }
        let held = self.ui.mascot_grab.is_some() && self.ui.mascot.is_some();
        // A click with no drag selects nothing.
        let sel = match self.ui.sel {
            Some(s) => if s.is_empty() {
                None
            } else {
                Some(Sel { dragging: false, ..s })
            },
            None => None,
        };
        self.ui = Ui {
            resizing: false,
            resizing_split: false,
            modal_drag: None,
            mascot_grab: None,
            sel,
            ..self.ui
        };
        if held {
            Action::DropMascot
        } else {
            Action::Idle
        }
    }

    /// The screen has a new size; nothing is selected.
    #[verifier::opaque]
    pub open spec fn resized(&self, width: u16, height: u16) -> App {
        App {
            ui: Ui { sel: None, visual: None, ..self.ui },
            screen: Screen { width, height, ..self.screen },
            ..*self
        }
    }

    /// The screen has a new size.
    pub fn on_resize(&mut self, width: u16, height: u16)
        ensures
            *final(self) == old(self).resized(width, height),
    {
        proof {
            reveal(App::resized);
        }
        self.clear_sel();
        self.screen.width = width;
        self.screen.height = height;
    }

    /// The cursor in view, and the content scrolled no further than it goes.
    #[verifier::opaque]
    pub open spec fn settled(&self) -> App {
        (App { nav: self.moved(self.nav, 0), ..*self }).panned(0)
    }

    /// Brings the cursor back into view, and holds the content to what it
    /// scrolls, once the screen has a new size.
    pub fn settle(&mut self)
        requires
            old(self).fits(),
        ensures
            *final(self) == old(self).settled(),
    {
        proof {
            reveal(App::settled);
        }
        self.move_cursor(0);
        self.scroll_h(0);
    }
}

/// Two clicks make a double click where they are on the same row, at most a
/// column apart, and less than 400 milliseconds.
pub proof fn law_double_clicks(t: u64, lx: u16, ly: u16, now: u64, x: u16, y: u16)
    ensures
        doubles(Some((t, lx, ly)), now, x, y) <==> y == ly && (x == lx || x == lx + 1 || x + 1
            == lx) && now < t + 400,
        !doubles(None, now, x, y),
{
}

/// Letting the button go ends a drag: what is selected stays selected, and a
/// click without a drag selects nothing.
pub proof fn law_a_click_alone_selects_nothing(s: Sel)
    ensures
        (s.a_row, s.a_col) == (s.c_row, s.c_col) ==> let_go(Some(s)) is None,
        (s.a_row, s.a_col) != (s.c_row, s.c_col) ==> let_go(Some(s)) == Some(
            Sel { dragging: false, ..s },
        ),
        let_go(None) is None,
{
}

proof fn lemma_wheeled(a: App)
    ensures
        a.wheeled(Wheel::Down).nav == paged_in(a.doc, a.body(), a.nav, 3),
        a.wheeled(Wheel::Up).nav == paged_in(a.doc, a.body(), a.nav, -3),
        a.wheeled(Wheel::Other).nav == a.nav,
{
    reveal(App::wheeled);
    lemma_dropped(a.ui);
    assert(a.unselected().body() == a.body());
}

/// The wheel scrolls three rows at a time, as far as the document scrolls.
pub proof fn law_wheel_scrolls_by_three(a: App)
    requires
        a.doc.rows@.len() > 0,
    ensures
        ({
            let s = a.nav.scroll;
            let max = a.bound();
            &&& s + 3 <= max ==> a.wheeled(Wheel::Down).nav.scroll == s + 3
            &&& s + 3 > max ==> a.wheeled(Wheel::Down).nav.scroll == max
            &&& 3 <= s <= max + 3 ==> a.wheeled(Wheel::Up).nav.scroll == s - 3
            &&& s < 3 ==> a.wheeled(Wheel::Up).nav.scroll == 0
            &&& a.wheeled(Wheel::Other).nav == a.nav
        }),
{
    lemma_wheeled(a);
    law_paging_goes_row_for_row(a.doc, a.body(), a.nav, 3);
    law_paging_goes_row_for_row(a.doc, a.body(), a.nav, -3);
}

/// Turned sideways, the wheel scrolls the content three columns at a time, as
/// far as it goes.
pub proof fn law_wheel_scrolls_sideways_by_three(a: App)
    requires
        a.hbound() <= usize::MAX,
    ensures
        ({
            let h = a.nav.hscroll;
            let max = a.hbound();
            &&& h + 3 <= max ==> a.wheeled(Wheel::Right).nav.hscroll == h + 3
            &&& h + 3 > max ==> a.wheeled(Wheel::Right).nav.hscroll == max
            &&& 3 <= h <= max + 3 ==> a.wheeled(Wheel::Left).nav.hscroll == h - 3
            &&& h < 3 ==> a.wheeled(Wheel::Left).nav.hscroll == 0
        }),
{
    reveal(App::wheeled);
    lemma_dropped(a.ui);
    assert(a.unselected().hbound() == a.hbound());
    assert(held(a.nav.hscroll + 3, 0, a.hbound() as int) <= a.hbound());
}

/// A click on the text begins a selection at the cell under the pointer, in the
/// pane under it; nothing is selected until it is dragged.
pub proof fn law_clicks_begin_a_selection(a: App, x: u16, y: u16, now: u64)
    ensures
        ({
            let post = a.click_selected(x, y, now);
            let pane = if a.ui.split {
                a.pane_of(x as nat)
            } else {
                None
            };
            let (row, col) = a.content_at(x as nat, y as nat, pane);
            &&& post.ui.sel is Some
            &&& (post.ui.sel->0.a_row, post.ui.sel->0.a_col) == (row, col)
            &&& (post.ui.sel->0.c_row, post.ui.sel->0.c_col) == (row, col)
            &&& post.ui.sel->0.dragging
            &&& post.ui.sel->0.pane == pane
            &&& post.ui.visual is None
            &&& post.ui.last_click == Some((now, x, y))
        }),
{
    reveal(App::click_selected);
}

/// A drag leaves where the selection began and takes its other end to the cell
/// under the pointer; at the first row of the body and at the last one it
/// scrolls a row on, as far as the document scrolls.
pub proof fn law_drags_move_the_other_end(a: App, x: u16, y: u16, s: Sel)
    requires
        a.body() > 0,
        a.doc.rows@.len() > 0,
    ensures
        ({
            let post = a.sel_dragged(x, y, s);
            let top = a.nav.scroll;
            &&& post.ui.sel is Some
            &&& post.ui.sel->0 == (Sel {
                c_row: post.ui.sel->0.c_row,
                c_col: post.ui.sel->0.c_col,
                ..s
            })
            &&& y < a.body() ==> (post.ui.sel->0.c_row, post.ui.sel->0.c_col)
                == a.edge_scrolled(y).content_at(x as nat, y as nat, s.pane)
            &&& 0 < y && y + 1 < a.body() ==> post.nav == a.nav
            &&& y == 0 && 1 <= top <= a.bound() + 1 ==> post.nav.scroll == top - 1
            &&& y > 0 && y + 1 >= a.body() && top + 1 <= a.bound() ==> post.nav.scroll == top + 1
            &&& post.nav.cursor == a.nav.cursor
        }),
{
    reveal(App::sel_dragged);
    assert(a.doc.rows@.len() == a.doc.rows.len());
    law_no_scroll_past_the_end(a.doc.kinds(), a.doc.starts@, a.body());
}

/// A box that is dragged stays under the pointer where it was grabbed.
pub proof fn law_boxes_stay_under_the_pointer(a: App, x: u16, y: u16, grab: (usize, usize))
    requires
        grab.0 <= x,
        grab.1 <= y,
    ensures
        a.modal_dragged(x, y, grab).ui.modal_pos matches Some((px, py)) && px + grab.0 == x && py
            + grab.1 == y,
{
    reveal(App::modal_dragged);
}

/// The file list selects the file on the row under the pointer, and is grabbed
/// by its frame.
pub proof fn law_file_list_selects_under_the_pointer(a: App, x: u16, y: u16, h: ModalHit)
    requires
        a.ui.modal_hit == Some(h),
        h.x0 <= x < h.x1,
        h.y0 <= y < h.y1,
        a.doc.wf(),
    ensures
        ({
            let idx = h.start + (y - h.list_y);
            let post = a.modal_clicked(x, y);
            &&& h.list_y <= y < h.list_y + h.list_h && idx < a.doc.starts@.len()
                ==> post.nav.cursor == a.doc.starts@[idx] && post.nav.selected == idx
            &&& !(h.list_y <= y < h.list_y + h.list_h) ==> post.nav == a.nav
                && post.ui.modal_drag == Some(((x - h.x0) as usize, (y - h.y0) as usize))
        }),
{
    reveal(App::modal_clicked);
    law_files_are_entered_at_their_header(a, h.start + (y - h.list_y));
}

/// The mascot is gripped where the pointer is on it, at the place from its top
/// left corner.
pub proof fn law_mascot_is_gripped_where_it_stands(a: App, x: u16, y: u16, dx: u16, dy: u16)
    ensures
        a.grip(x, y) == Some((dx, dy)) ==> (a.ui.mascot matches Some((mx, my)) && (x
            >= a.body_left() ==> x == a.body_left() + mx + dx) && y == my + dy && dx < MASCOT_W
            && dy < MASCOT_H && y < a.body()),
        a.ui.mascot is None ==> a.grip(x, y) is None,
        a.ui.mascot matches Some((mx, my)) && x == a.body_left() + mx + dx && y == my + dy && y
            < a.body() && dx < MASCOT_W && dy < MASCOT_H ==> a.grip(x, y) == Some((dx, dy)),
{
}

/// A new size of the screen is taken over, and nothing is selected any more.
pub proof fn law_new_sizes_are_taken_over(a: App, width: u16, height: u16)
    ensures
        a.resized(width, height).screen.width == width,
        a.resized(width, height).screen.height == height,
        a.resized(width, height).ui.sel is None,
        a.resized(width, height).ui.visual is None,
        a.resized(width, height).nav == a.nav,
        a.resized(width, height).doc == a.doc,
{
    reveal(App::resized);
}

/// What grabs a divider drags that divider, until it is let go.
pub proof fn law_dividers_are_grabbed_and_let_go(a: App)
    ensures
        a.sidebar_grabbed().ui.resizing,
        a.split_grabbed().ui.resizing_split,
        a.sidebar_grabbed().ui.resizing_split == a.ui.resizing_split,
        a.split_grabbed().ui.resizing == a.ui.resizing,
        !a.sidebar_grabbed().released().ui.resizing,
        !a.split_grabbed().released().ui.resizing_split,
{
    reveal(App::sidebar_grabbed);
    reveal(App::split_grabbed);
    reveal(App::released);
}

/// A click with another button does nothing; one on the help badge toggles the
/// help grid, and one on the name of the viewer pins or unpins the mascot.
pub proof fn law_badges_are_clicked(
    a: App,
    x: u16,
    y: u16,
    left: bool,
    now: u64,
    post: App,
    r: Action,
)
    requires
        a.click_done(x, y, left, now, post, r),
    ensures
        !left ==> post == a && r == Action::Idle,
        left && y == a.body() && x >= a.ui.help_badge_x ==> post.ui.help_open != a.ui.help_open
            && post.nav == a.nav,
        left && y == a.body() && x < a.ui.help_badge_x && x < text_width(
            " drift "@,
            a.screen.measure,
        ) ==> post.ui.mascot_pinned != a.ui.mascot_pinned && post.nav == a.nav,
{
    if left && y == a.body() {
        reveal(App::help_toggled);
        reveal(App::pin_toggled);
    }
}

/// A click on the text puts the cursor on the row under the pointer; a second one
/// on a hunk header reads the diff again with ten more lines of context.
pub proof fn law_text_clicks_move_the_cursor(
    a: App,
    x: u16,
    y: u16,
    now: u64,
    post: App,
    r: Action,
)
    requires
        a.text_click_done(x, y, now, post, r),
        0 <= a.row_at(y as nat) < a.doc.rows@.len(),
    ensures
        post.nav.cursor == a.row_at(y as nat),
        ({
            let header = a.doc.rows@[a.row_at(y as nat)].kind == crate::rows::RowKind::Hunk
                && !a.source.piped;
            let again = doubles(a.ui.last_click, now, x, y);
            &&& header && again ==> r == Action::Reload && (a.source.expand + 10 <= usize::MAX
                ==> post.source.expand == a.source.expand + 10)
            &&& !(header && again) ==> r == Action::Idle && post.source == a.source
        }),
{
    reveal(App::click_expanded);
    reveal(App::click_selected);
    let row = a.row_at(y as nat);
    assert(a.doc.rows@.len() == a.doc.rows.len());
    let at = Nav {
        cursor: held(row, 0, less(a.doc.rows@.len(), 1) as int) as usize,
        ..a.nav
    };
    law_moving_goes_row_for_row(a.doc, a.body(), at, 0);
    assert(a.placed(row).nav.cursor == row);
    assert(a.placed(row).doc == a.doc);
    assert(a.placed(row).source == a.source);
}

/// A click on the body of the diff takes what is under the pointer: the mascot,
/// the divider of the sidebar, the divider between the panes, a file of the
/// sidebar.
pub proof fn law_body_clicks_take_what_is_there(
    a: App,
    x: u16,
    y: u16,
    now: u64,
    post: App,
    r: Action,
)
    requires
        a.body_click_done(x, y, now, post, r),
    ensures
        a.grip(x, y) is Some ==> r == Action::Poke && post.ui.mascot_grab == a.grip(x, y),
        a.grip(x, y) is None && (a.doc.files@.len() == 0 || y >= a.body()) ==> post == a && r
            == Action::Idle,
        a.grip(x, y) is None && a.doc.files@.len() > 0 && y < a.body() ==> {
            let side = a.sidebar_cols() > 0 && x == a.divider_col();
            let split = !side && a.ui.split && x == a.split_col();
            &&& side ==> post.ui.resizing && post.nav == a.nav
            &&& split ==> post.ui.resizing_split && post.nav == a.nav
            &&& !side && !split && a.sidebar_has(x) ==> post.nav == a.nav_at_file(a.sidebar_file(y))
        },
{
    reveal(App::mascot_grabbed);
    reveal(App::sidebar_grabbed);
    reveal(App::split_grabbed);
}

/// A drag takes along what was grabbed: the mascot by its grip, the dialog, the
/// divider of the sidebar, or the divider between the panes, which stays two
/// columns from the edges of the body.
pub proof fn law_drags_take_along_what_was_grabbed(a: App, x: u16, y: u16, post: App, r: Action)
    requires
        a.drag_done(x, y, post, r),
    ensures
        a.ui.mascot_grab matches Some(grab) ==> (a.ui.mascot is Some && x >= a.body_left() + grab.0
            && y >= grab.1 && a.body_cols() <= 0xffff ==> (r matches Action::DragMascot(
            mx,
            my,
            _,
            _,
        ) && mx + a.body_left() + grab.0 == x && my + grab.1 == y)),
        a.ui.mascot_grab is None && a.ui.modal_drag is None && !a.ui.resizing
            && a.ui.resizing_split && a.split_fits() && a.body_left() + 2 <= x <= a.body_left()
            + a.body_cols() - 3 ==> (r matches Action::SplitTo(l, all) && a.body_left() + l == x
            && all + 1 == a.body_cols()),
{
}

/// Once the screen has a new size the cursor is in view.
pub proof fn law_settling_brings_the_cursor_into_view(a: App)
    requires
        a.doc.rows@.len() > 0,
        a.body() > 0,
        a.nav.cursor < a.doc.rows@.len(),
    ensures
        a.settled().nav.cursor == a.nav.cursor,
        a.settled().nav.scroll <= a.nav.cursor < a.settled().nav.scroll + a.viewport_at(
            a.settled().nav.scroll as nat,
        ),
{
    reveal(App::settled);
    law_moving_goes_row_for_row(a.doc, a.body(), a.nav, 0);
    law_moved_cursor_is_in_view(a.doc, a.body(), a.nav, 0);
}

} // verus!
