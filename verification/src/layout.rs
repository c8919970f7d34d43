//! Where things stand on the screen: the sidebar, the panes of the split view,
//! the gutter, and the content of a row.

use vstd::prelude::*;

#[allow(unused_imports)]
use crate::app::{held, less};
use crate::app::{shifted, App, Gut, Nav};
use crate::rows::{Row, RowKind};
use crate::select::Pane;
use crate::text::same;

verus! {

/// The low sixteen bits of a number, as a cell count holds them.
pub fn low16(x: usize) -> (r: u16)
    ensures
        r == x % 0x10000,
{
    let y = x % 0x10000;
    y as u16
}

/// The widest content of the rows from `lo` up to `hi`.
pub open spec fn widest(rows: Seq<Row>, lo: int, hi: int) -> nat
    decreases hi - lo,
{
    if hi <= lo {
        0
    } else {
        let v = widest(rows, lo, hi - 1);
        let w = rows[hi - 1].content@.len();
        if w > v {
            w
        } else {
            v
        }
    }
}

/// The widest content of up to `count` rows from `scroll` on.
#[verifier::opaque]
pub open spec fn widest_from(rows: Seq<Row>, scroll: nat, count: nat) -> nat {
    let n = rows.len() as int;
    let lo = if scroll < n {
        scroll as int
    } else {
        n
    };
    let end = lo + count;
    widest(
        rows,
        lo,
        if end < n {
            end
        } else {
            n
        },
    )
}

/// Whether the sidebar is showing: there are files, and the user's toggle, else
/// the configured mode, else the width of the screen says so.
#[verifier::opaque]
pub open spec fn sidebar_shown(
    files: bool,
    toggle: Option<bool>,
    mode: Seq<char>,
    screen_w: u16,
) -> bool {
    files && match toggle {
        Some(on) => on,
        None => {
            if mode == "always"@ || mode == "on"@ || mode == "open"@ {
                true
            } else if mode == "never"@ || mode == "off"@ || mode == "closed"@ {
                false
            } else {
                screen_w >= 150
            }
        },
    }
}

/// The columns of a sidebar that wants `want`: at least eight, at most half the
/// screen.
#[verifier::opaque]
pub open spec fn sidebar_columns(want: usize, screen_w: u16) -> nat {
    held(
        want as int % 0x10000,
        8,
        if screen_w / 2 > 2 {
            screen_w as int / 2
        } else {
            2
        },
    ) as nat
}

impl App {
    /// Whether the file-list sidebar is showing.
    pub open spec fn shows_sidebar(&self) -> bool {
        sidebar_shown(
            self.doc.files@.len() > 0,
            self.ui.sidebar,
            self.config.sidebar@,
            self.screen.width,
        )
    }

    /// Whether the sidebar, if it shows, has room: eight of half the columns.
    pub open spec fn sidebar_fits(&self) -> bool {
        self.shows_sidebar() ==> self.screen.width >= 16
    }

    /// The most columns that the sidebar may take.
    pub open spec fn sidebar_max(&self) -> int {
        if self.screen.width / 2 > 2 {
            self.screen.width as int / 2
        } else {
            2
        }
    }

    /// Columns of the sidebar with its divider, none when it is hidden.
    pub open spec fn sidebar_cols(&self) -> nat {
        if self.shows_sidebar() {
            sidebar_columns(
                match self.ui.sidebar_width {
                    Some(w) => w,
                    None => self.config.sidebar_width,
                },
                self.screen.width,
            )
        } else {
            0
        }
    }

    /// Whether the sidebar is on the left.
    pub open spec fn on_left(&self) -> bool {
        self.config.sidebar_side@ != "right"@
    }

    /// Columns of the diff body.
    pub open spec fn body_cols(&self) -> nat {
        less(self.screen.width as nat, self.sidebar_cols())
    }

    /// The column where the diff body begins.
    pub open spec fn body_left(&self) -> nat {
        if self.on_left() {
            self.sidebar_cols()
        } else {
            0
        }
    }

    /// The column of the sidebar's divider.
    pub open spec fn divider_col(&self) -> nat {
        if self.on_left() {
            less(self.sidebar_cols(), 1)
        } else {
            less(self.screen.width as nat, self.sidebar_cols())
        }
    }

    /// Whether a column is in the sidebar.
    pub open spec fn sidebar_has(&self, x: u16) -> bool {
        self.sidebar_cols() > 0 && if self.on_left() {
            x < self.sidebar_cols()
        } else {
            x >= less(self.screen.width as nat, self.sidebar_cols())
        }
    }

    /// Whether the body has room for two panes: two cells on each side of the
    /// divider.
    pub open spec fn split_fits(&self) -> bool {
        self.body_cols() >= 5
    }

    /// Columns of the left pane.
    pub open spec fn left_cols(&self) -> nat {
        held(self.screen.split_left as int, 2, self.body_cols() - 3) as nat
    }

    /// The column of the divider between the panes.
    pub open spec fn split_col(&self) -> nat {
        self.body_left() + self.left_cols()
    }

    /// Whether everything that shows has room.
    pub open spec fn fits(&self) -> bool {
        self.sidebar_fits() && (self.ui.split ==> self.split_fits())
    }

    /// Columns of the line-number gutter.
    pub open spec fn gutter_cols(&self, gut: Gut) -> nat {
        if !self.config.line_numbers {
            0
        } else if gut == Gut::Both {
            9
        } else {
            5
        }
    }

    /// The column, within a pane, where the content of a row begins: after the
    /// gutter and the sign, which headers and notes lack.
    pub open spec fn content_col(&self, kind: RowKind, gut: Gut) -> nat {
        self.gutter_cols(gut) + if kind == RowKind::Add || kind == RowKind::Remove || kind
            == RowKind::Context {
            1nat
        } else {
            0nat
        }
    }

    /// Columns available for line content.
    pub open spec fn content_cols(&self) -> nat {
        if self.ui.split {
            let left = self.left_cols();
            let right = less(self.body_cols(), left + 1);
            less(
                if left < right {
                    left
                } else {
                    right
                },
                self.content_col(RowKind::Context, Gut::Old),
            )
        } else {
            less(self.body_cols(), self.content_col(RowKind::Context, Gut::Both))
        }
    }

    /// The widest content among the rows on screen.
    pub open spec fn widest_shown(&self) -> nat {
        widest_from(
            self.doc.rows@,
            self.nav.scroll as nat,
            self.viewport_at(self.nav.scroll as nat),
        )
    }

    /// The furthest the content can scroll left.
    pub open spec fn hbound(&self) -> nat {
        less(self.widest_shown(), self.content_cols())
    }

    /// Whether the file-list sidebar is showing: the user's runtime toggle
    /// wins, otherwise the `sidebar` config mode decides ("always", "never", or
    /// "auto" = open on terminals at least 150 cells wide, roomy enough to keep
    /// the diff body comfortable next to a 30-cell sidebar).
    pub fn sidebar_visible(&self) -> (r: bool)
        ensures
            r == self.shows_sidebar(),
    {
        proof {
            reveal(sidebar_shown);
        }
        if self.doc.files.len() == 0 {
            return false;
        }
        match self.ui.sidebar {
            Some(on) => on,
            None => {
                let mode = self.config.sidebar.as_str();
                if same(mode, "always") || same(mode, "on") || same(mode, "open") {
                    true
                } else if same(mode, "never") || same(mode, "off") || same(mode, "closed") {
                    false
                } else {
                    self.screen.width >= 150
                }
            },
        }
    }

    /// Whether everything that shows has room.
    pub fn has_room(&self) -> (r: bool)
        ensures
            r == self.fits(),
    {
        if self.sidebar_visible() && self.screen.width < 16 {
            return false;
        }
        !self.ui.split || self.body_w() >= 5
    }

    /// Sidebar width in cells (including its 1-cell divider), 0 when hidden.
    /// Clamped so it never eats more than half the terminal.
    pub fn sidebar_w(&self) -> (r: u16)
        requires
            self.sidebar_fits(),
        ensures
            r == self.sidebar_cols(),
            r <= self.screen.width,
    {
        proof {
            reveal(sidebar_columns);
        }
        if !self.sidebar_visible() {
            return 0;
        }
        let max = self.screen.width / 2;
        let want = match self.ui.sidebar_width {
            Some(w) => w,
            None => self.config.sidebar_width,
        };
        let w = low16(want);
        if w < 8 {
            8
        } else if w > max {
            max
        } else {
            w
        }
    }

    /// True when the sidebar sits on the left (default), false for the right.
    pub fn sidebar_left(&self) -> (r: bool)
        ensures
            r == self.on_left(),
    {
        !same(&self.config.sidebar_side, "right")
    }

    /// Columns of the diff body.
    pub fn body_w(&self) -> (r: u16)
        requires
            self.sidebar_fits(),
        ensures
            r == self.body_cols(),
    {
        self.screen.width - self.sidebar_w()
    }

    /// Screen x where the diff body begins (right of a left sidebar).
    pub fn body_x(&self) -> (r: u16)
        requires
            self.on_left() ==> self.sidebar_fits(),
        ensures
            r == self.body_left(),
            r <= self.screen.width,
    {
        if self.sidebar_left() {
            self.sidebar_w()
        } else {
            0
        }
    }

    /// Screen column of the sidebar's resize divider (the edge facing the body).
    pub fn divider_x(&self) -> (r: u16)
        requires
            self.sidebar_fits(),
        ensures
            r == self.divider_col(),
    {
        let sw = self.sidebar_w();
        if self.sidebar_left() {
            sw.saturating_sub(1)
        } else {
            self.screen.width.saturating_sub(sw)
        }
    }

    /// The sidebar width that puts its divider at column `x`.
    pub open spec fn sidebar_width_at(&self, x: nat) -> nat {
        held(
            if self.on_left() {
                x as int + 1
            } else {
                less(self.screen.width as nat, x) as int
            },
            8,
            self.sidebar_max(),
        ) as nat
    }

    /// Resize the sidebar so its divider follows screen column `x`.
    pub fn resize_sidebar_to(&mut self, x: u16)
        requires
            old(self).screen.width >= 16,
        ensures
            *final(self) == (App {
                ui: crate::app::Ui {
                    sidebar_width: Some(old(self).sidebar_width_at(x as nat) as usize),
                    ..old(self).ui
                },
                ..*old(self)
            }),
    {
        let w = self.screen.width;
        let width: usize = if self.sidebar_left() {
            x as usize + 1
        } else {
            w.saturating_sub(x) as usize
        };
        let max = (w / 2) as usize;
        let cols = if width < 8 {
            8
        } else if width > max {
            max
        } else {
            width
        };
        assert(cols == self.sidebar_width_at(x as nat));
        self.ui.sidebar_width = Some(cols);
    }

    /// True when screen column `x` falls inside the sidebar (either side).
    pub fn in_sidebar(&self, x: u16) -> (r: bool)
        requires
            self.sidebar_fits(),
        ensures
            r == self.sidebar_has(x),
    {
        let sw = self.sidebar_w();
        if sw == 0 {
            return false;
        }
        if self.sidebar_left() {
            x < sw
        } else {
            x >= self.screen.width.saturating_sub(sw)
        }
    }

    /// The columns that the panes share, but for the divider.
    pub fn split_inner(&self) -> (r: u16)
        requires
            self.sidebar_fits(),
        ensures
            r == less(self.body_cols(), 1),
    {
        self.body_w().saturating_sub(1)
    }

    /// Left pane width (cells) of the split body, leaving at least 2 cells on
    /// each side of the divider.
    pub fn split_left_w(&self) -> (r: u16)
        requires
            self.sidebar_fits(),
            self.split_fits(),
        ensures
            r == self.left_cols(),
    {
        let inner = self.split_inner();
        let want = self.screen.split_left;
        if want < 2 {
            2
        } else if want > inner - 2 {
            inner - 2
        } else {
            want
        }
    }

    /// Screen column of the split divider, for click-to-drag hit testing.
    pub fn split_div_x(&self) -> (r: u16)
        requires
            self.sidebar_fits(),
            self.split_fits(),
        ensures
            r == self.split_col(),
    {
        self.body_x() + self.split_left_w()
    }

    /// The columns of the left pane, and those that the panes share, that put
    /// the divider at column `x`; none where there is no room for two panes.
    pub fn resize_split_to(&self, x: u16) -> (r: Option<(u16, u16)>)
        requires
            self.sidebar_fits(),
        ensures
            r == if self.split_fits() {
                Some(
                    (
                        held(
                            less(x as nat, self.body_left()) as int,
                            2,
                            self.body_cols() - 3,
                        ) as u16,
                        (self.body_cols() - 1) as u16,
                    ),
                )
            } else {
                None::<(u16, u16)>
            },
    {
        let bx = self.body_x();
        let inner = self.split_inner();
        if inner < 4 {
            return None;
        }
        let at = x.saturating_sub(bx);
        let left = if at < 2 {
            2
        } else if at > inner - 2 {
            inner - 2
        } else {
            at
        };
        Some((left, inner))
    }

    /// Width of the line-number gutter for a pane.
    pub fn gutter_w(&self, gut: Gut) -> (r: u16)
        ensures
            r == self.gutter_cols(gut),
            r <= 9,
    {
        if !self.config.line_numbers {
            0
        } else {
            match gut {
                Gut::Both => 9,
                Gut::Old | Gut::New => 5,
            }
        }
    }

    /// Screen column, within a pane, where a row's content begins: after the
    /// gutter and the one-column +/- sign (hunk/note rows have no sign).
    pub fn content_start(&self, kind: RowKind, gut: Gut) -> (r: u16)
        ensures
            r == self.content_col(kind, gut),
            r <= 10,
    {
        let sign: u16 = if kind == RowKind::Add || kind == RowKind::Remove || kind
            == RowKind::Context {
            1
        } else {
            0
        };
        self.gutter_w(gut) + sign
    }

    /// Columns available for line content: the terminal width minus the
    /// sidebar, the line-number gutter, and the +/- sign. In split view a line
    /// lives inside one half-width pane (with the narrower per-side gutter), so
    /// use the smaller pane's content width: that's what a line must scroll
    /// within, and it lets the widest line reveal fully in either pane.
    pub fn content_view_w(&self) -> (r: u16)
        requires
            self.fits(),
        ensures
            r == self.content_cols(),
    {
        let body = self.body_w();
        if self.ui.split {
            let left = self.split_left_w();
            let right = body - left - 1;
            let least = if left < right {
                left
            } else {
                right
            };
            least.saturating_sub(self.content_start(RowKind::Context, Gut::Old))
        } else {
            body.saturating_sub(self.content_start(RowKind::Context, Gut::Both))
        }
    }

    /// Furthest the content can scroll left: the widest content among the rows
    /// currently on screen, minus the visible content width.
    pub fn max_hscroll(&self) -> (r: usize)
        requires
            self.fits(),
        ensures
            r == self.hbound(),
    {
        proof {
            reveal(widest_from);
        }
        let vh = self.viewport_rows();
        let n = self.doc.rows.len();
        let lo = if self.nav.scroll < n {
            self.nav.scroll
        } else {
            n
        };
        let hi = if vh < n - lo {
            lo + vh
        } else {
            n
        };
        let mut most: usize = 0;
        let mut i: usize = lo;
        while i < hi
            invariant
                lo <= i <= hi <= self.doc.rows.len(),
                most == widest(self.doc.rows@, lo as int, i as int),
            decreases hi - i,
        {
            let w = self.doc.rows[i].content.len();
            if w > most {
                most = w;
            }
            i += 1;
        }
        most.saturating_sub(self.content_view_w() as usize)
    }

    /// Scroll the line content horizontally by `delta` columns, clamped so it
    /// never scrolls past the widest visible line or before column 0.
    pub fn scroll_h(&mut self, delta: isize)
        requires
            old(self).fits(),
        ensures
            *final(self) == (App {
                nav: Nav {
                    hscroll: held(
                        old(self).nav.hscroll + delta,
                        0,
                        old(self).hbound() as int,
                    ) as usize,
                    ..old(self).nav
                },
                ..*old(self)
            }),
    {
        let max = self.max_hscroll();
        self.nav.hscroll = shifted(self.nav.hscroll, delta, max);
    }

    /// Scroll offset of a file list `list_h` rows tall, keeping `selected`
    /// visible (matches the modal's window so click mapping lines up).
    pub fn file_window(&self, list_h: usize) -> (r: usize)
        ensures
            r == less(self.nav.selected as nat, less(list_h as nat, 1)),
    {
        self.nav.selected.saturating_sub(list_h.saturating_sub(1))
    }

    /// Which split pane screen column `x` falls in (left/right of the divider).
    /// The divider column itself belongs to neither (it's a resize grab).
    pub fn pane_at(&self, x: u16) -> (r: Option<Pane>)
        requires
            self.sidebar_fits(),
            self.split_fits(),
        ensures
            r == self.pane_of(x as nat),
    {
        let div = self.split_div_x();
        if x < div {
            Some(Pane::Left)
        } else if x > div {
            Some(Pane::Right)
        } else {
            None
        }
    }

    /// The pane that a column falls in.
    pub open spec fn pane_of(&self, x: nat) -> Option<Pane> {
        if x < self.split_col() {
            Some(Pane::Left)
        } else if x > self.split_col() {
            Some(Pane::Right)
        } else {
            None
        }
    }

    /// The column of the screen where a pane's rows of a kind begin, and where
    /// their content does within the pane. Headers and notes span the body.
    pub open spec fn pane_place(&self, kind: RowKind, pane: Option<Pane>) -> (nat, nat) {
        let header = kind == RowKind::Hunk || kind == RowKind::Note || kind == RowKind::File;
        match pane {
            None => (self.body_left(), self.content_col(kind, Gut::Both)),
            Some(p) => if header {
                (self.body_left(), self.content_col(kind, Gut::Both))
            } else if p == Pane::Left {
                (self.body_left(), self.content_col(kind, Gut::Old))
            } else {
                (self.split_col() + 1, self.content_col(kind, Gut::New))
            },
        }
    }

    /// (screen origin x, content_start) for a row of `kind` under a selection
    /// pane. Hunk/Note headers span the full body, so they always anchor at the
    /// body origin regardless of pane.
    pub fn pane_geom(&self, kind: RowKind, pane: Option<Pane>) -> (r: (u16, u16))
        requires
            self.sidebar_fits(),
            pane == Some(Pane::Right) ==> self.split_fits(),
        ensures
            r.0 == self.pane_place(kind, pane).0,
            r.1 == self.pane_place(kind, pane).1,
            r.0 <= self.screen.width,
            r.1 <= 10,
    {
        let bx = self.body_x();
        match pane {
            None => (bx, self.content_start(kind, Gut::Both)),
            Some(p) => {
                if kind == RowKind::Hunk || kind == RowKind::Note || kind == RowKind::File {
                    (bx, self.content_start(kind, Gut::Both))
                } else if p == Pane::Left {
                    (bx, self.content_start(kind, Gut::Old))
                } else {
                    (bx + self.split_left_w() + 1, self.content_start(kind, Gut::New))
                }
            },
        }
    }

    /// The row and the content column under a point of the screen.
    pub open spec fn content_at(&self, x: nat, y: nat, pane: Option<Pane>) -> (usize, usize) {
        if self.doc.rows@.len() == 0 {
            (0, 0)
        } else {
            let row = self.row_at(y);
            let (origin, start) = self.pane_place(self.doc.rows@[row].kind, pane);
            let col = less(x, origin + start) + self.nav.hscroll;
            let len = self.doc.rows@[row].content@.len();
            (
                row as usize,
                if col < len {
                    col as usize
                } else {
                    len as usize
                },
            )
        }
    }

    /// Map a pointer at screen (x, y) to a (row, content-column) position.
    /// `pane` selects the split half (its gutter side and screen origin); in
    /// unified view pass `None`. Column is a cell index into the row's content.
    pub fn point_to_content(&self, x: u16, y: u16, pane: Option<Pane>) -> (r: (usize, usize))
        requires
            self.sidebar_fits(),
            pane == Some(Pane::Right) ==> self.split_fits(),
        ensures
            r == self.content_at(x as nat, y as nat, pane),
    {
        if self.doc.rows.len() == 0 {
            return (0, 0);
        }
        let row = self.screen_y_to_doc(y as usize);
        let (origin, cs) = self.pane_geom(self.doc.rows[row].kind, pane);
        let len = self.doc.rows[row].content.len();
        let at = (x as usize).saturating_sub(origin as usize + cs as usize);
        if at < len && self.nav.hscroll < len - at {
            (row, at + self.nav.hscroll)
        } else {
            (row, len)
        }
    }
}

/// A sidebar that has room takes at least eight columns, and never more than
/// half the screen; the body has the rest.
pub proof fn law_sidebar_takes_at_most_half(app: App)
    requires
        app.sidebar_fits(),
    ensures
        2 * app.sidebar_cols() <= app.screen.width,
        app.shows_sidebar() ==> app.sidebar_cols() >= 8,
        app.body_cols() + app.sidebar_cols() == app.screen.width,
{
    reveal(sidebar_columns);
}

/// The sidebar and the body share the columns of the screen: each column is in
/// the sidebar, or not before the body nor behind it.
pub proof fn law_sidebar_and_body_share_the_screen(app: App, x: u16)
    requires
        app.sidebar_fits(),
        x < app.screen.width,
    ensures
        app.sidebar_has(x) != (app.body_left() <= x < app.body_left() + app.body_cols()),
        app.sidebar_cols() > 0 && x == app.divider_col() ==> app.sidebar_has(x),
{
    reveal(sidebar_columns);
}

/// The panes keep at least two columns on each side of the divider.
pub proof fn law_split_leaves_room_on_both_sides(app: App)
    requires
        app.split_fits(),
    ensures
        app.left_cols() >= 2,
        app.body_cols() - app.left_cols() - 1 >= 2,
        app.body_left() < app.split_col() < app.body_left() + app.body_cols(),
{
}

/// Scrolled as far as it goes, the content shows the end of the widest line on
/// screen.
pub proof fn law_widest_line_reveals_fully(app: App)
    ensures
        app.hbound() + app.content_cols() >= app.widest_shown(),
        app.hbound() > 0 ==> app.hbound() + app.content_cols() == app.widest_shown(),
{
}

/// A toggled sidebar shows as it was toggled, wherever there are files. Else the
/// setting decides: `always`, `on` or `open` shows it, `never`, `off` or
/// `closed` does not, and anything else shows it on screens of 150 columns or
/// more.
pub proof fn law_sidebar_shows_as_asked(app: App)
    requires
        app.doc.files@.len() > 0,
    ensures
        app.ui.sidebar == Some(true) ==> app.shows_sidebar(),
        app.ui.sidebar == Some(false) ==> !app.shows_sidebar(),
        app.ui.sidebar is None ==> {
            let mode = app.config.sidebar@;
            let open = mode == "always"@ || mode == "on"@ || mode == "open"@;
            let closed = mode == "never"@ || mode == "off"@ || mode == "closed"@;
            &&& open ==> app.shows_sidebar()
            &&& closed ==> !app.shows_sidebar()
            &&& !open && !closed ==> (app.shows_sidebar() <==> app.screen.width >= 150)
        },
{
    reveal(sidebar_shown);
    reveal_strlit("always");
    reveal_strlit("on");
    reveal_strlit("open");
    reveal_strlit("never");
    reveal_strlit("off");
    reveal_strlit("closed");
    assert("always"@[0] == 'a' && "on"@[1] == 'n' && "open"@[1] == 'p');
    assert("never"@[0] == 'n' && "off"@[1] == 'f' && "closed"@[0] == 'c');
}

/// Without files there is no sidebar, and a sidebar that does not show takes no
/// columns.
pub proof fn law_no_sidebar_without_files(app: App)
    ensures
        app.doc.files@.len() == 0 ==> !app.shows_sidebar(),
        !app.shows_sidebar() ==> app.sidebar_cols() == 0 && app.body_cols() == app.screen.width
            && app.body_left() == 0,
{
    reveal(sidebar_shown);
}

/// The sidebar is as wide as it was dragged, else as the setting says, held
/// between eight columns and half the screen.
pub proof fn law_sidebar_is_as_wide_as_asked(app: App)
    requires
        app.shows_sidebar(),
        app.screen.width >= 16,
    ensures
        ({
            let want = match app.ui.sidebar_width {
                Some(w) => w,
                None => app.config.sidebar_width,
            };
            &&& 8 <= want && 2 * want <= app.screen.width ==> app.sidebar_cols() == want
            &&& want < 8 ==> app.sidebar_cols() == 8
            &&& want <= 0xffff && 2 * want > app.screen.width ==> app.sidebar_cols()
                == app.screen.width / 2
        }),
{
    reveal(sidebar_columns);
}

/// The sidebar is on the left unless the setting says `right`. On the left its
/// divider is its last column and the body begins behind it; on the right the
/// divider is its first column and the body begins at the edge.
pub proof fn law_sidebar_is_on_its_side(app: App)
    requires
        app.shows_sidebar(),
        app.screen.width >= 16,
    ensures
        app.config.sidebar_side@ != "right"@ ==> app.body_left() == app.sidebar_cols()
            && app.divider_col() + 1 == app.body_left(),
        app.config.sidebar_side@ == "right"@ ==> app.body_left() == 0 && app.divider_col()
            == app.body_cols(),
{
    reveal(sidebar_columns);
}

/// Dragging the divider of the sidebar puts it under the pointer, as far as the
/// width of the sidebar goes.
pub proof fn law_dragging_puts_the_divider_under_the_pointer(app: App, x: u16)
    requires
        app.shows_sidebar(),
        app.screen.width >= 16,
        x < app.screen.width,
        ({
            let w = if app.config.sidebar_side@ != "right"@ {
                x + 1
            } else {
                app.screen.width - x
            };
            8 <= w && 2 * w <= app.screen.width
        }),
    ensures
        (App {
            ui: crate::app::Ui {
                sidebar_width: Some(app.sidebar_width_at(x as nat) as usize),
                ..app.ui
            },
            ..app
        }).divider_col() == x,
{
    reveal(sidebar_columns);
    reveal(sidebar_shown);
}

/// Content begins behind the line numbers, which take nine columns in the
/// unified view and five in a pane, none where they are switched off, and behind
/// the sign, which takes one; headers and notes have no sign.
pub proof fn law_content_begins_behind_the_gutter(app: App, kind: RowKind)
    ensures
        app.config.line_numbers ==> app.gutter_cols(Gut::Both) == 9 && app.gutter_cols(Gut::Old)
            == 5 && app.gutter_cols(Gut::New) == 5,
        !app.config.line_numbers ==> app.gutter_cols(Gut::Both) == 0 && app.gutter_cols(Gut::Old)
            == 0 && app.gutter_cols(Gut::New) == 0,
        forall|gut: Gut| #[trigger]
            app.content_col(kind, gut) == app.gutter_cols(gut) + if kind == RowKind::Hunk || kind
                == RowKind::File || kind == RowKind::Note {
                0int
            } else {
                1int
            },
{
}

/// Content has the columns of the body that the gutter and the sign leave; in
/// split view, those of the narrower pane.
pub proof fn law_content_has_what_the_gutter_leaves(app: App)
    ensures
        !app.ui.split ==> app.content_cols() == less(
            app.body_cols(),
            if app.config.line_numbers {
                10
            } else {
                1
            },
        ),
        app.ui.split && app.split_fits() ==> ({
            let taken: int = if app.config.line_numbers {
                6
            } else {
                1
            };
            let left = app.left_cols();
            let right = app.body_cols() - 1 - left;
            &&& left <= right ==> app.content_cols() == if left > taken {
                left - taken
            } else {
                0
            }
            &&& right <= left ==> app.content_cols() == if right > taken {
                right - taken
            } else {
                0
            }
        }),
{
}

/// The left pane has the share asked for, as far as two columns are left on each
/// side of the divider. Columns before the divider are in the left pane, those
/// behind it in the right one.
pub proof fn law_panes_share_the_body(app: App, x: nat)
    requires
        app.split_fits(),
    ensures
        2 <= app.screen.split_left <= app.body_cols() - 3 ==> app.left_cols()
            == app.screen.split_left,
        app.screen.split_left < 2 ==> app.left_cols() == 2,
        app.screen.split_left > app.body_cols() - 3 ==> app.left_cols() + 3 == app.body_cols(),
        app.split_col() == app.body_left() + app.left_cols(),
        x < app.split_col() ==> app.pane_of(x) == Some(Pane::Left),
        x == app.split_col() ==> app.pane_of(x) == None::<Pane>,
        x > app.split_col() ==> app.pane_of(x) == Some(Pane::Right),
{
}

/// The widest line on screen is as wide as the widest of the rows that show: no
/// row is wider, and one is as wide.
pub proof fn law_widest_is_a_row_on_screen(app: App, i: int) -> (k: int)
    ensures
        ({
            let top = app.nav.scroll;
            let shown = app.viewport_at(top as nat);
            let rows = app.doc.rows@;
            &&& top <= i < top + shown && i < rows.len() ==> rows[i].content@.len()
                <= app.widest_shown()
            &&& app.widest_shown() > 0 ==> top <= k < top + shown && k < rows.len()
                && rows[k].content@.len() == app.widest_shown()
        }),
{
    reveal(widest_from);
    let rows = app.doc.rows@;
    let n = rows.len() as int;
    let top = app.nav.scroll as int;
    let shown = app.viewport_at(top as nat) as int;
    let lo = if top < n {
        top
    } else {
        n
    };
    let hi = if lo + shown < n {
        lo + shown
    } else {
        n
    };
    lemma_widest_of(rows, lo, hi, i)
}

proof fn lemma_widest_of(rows: Seq<Row>, lo: int, hi: int, i: int) -> (k: int)
    requires
        0 <= lo <= hi <= rows.len(),
    ensures
        lo <= i < hi ==> rows[i].content@.len() <= widest(rows, lo, hi),
        widest(rows, lo, hi) > 0 ==> lo <= k < hi && rows[k].content@.len() == widest(rows, lo, hi),
    decreases hi - lo,
{
    if hi <= lo {
        0
    } else {
        let k = lemma_widest_of(rows, lo, hi - 1, i);
        if rows[hi - 1].content@.len() > widest(rows, lo, hi - 1) {
            hi - 1
        } else {
            k
        }
    }
}

/// The left pane begins where the body does, the right one behind the divider;
/// headers and notes, and all rows of the unified view, begin where the body does.
pub proof fn law_panes_begin_at_their_edge(app: App, kind: RowKind)
    ensures
        app.pane_place(kind, None).0 == app.body_left(),
        app.pane_place(kind, Some(Pane::Left)).0 == app.body_left(),
        kind == RowKind::Add || kind == RowKind::Remove || kind == RowKind::Context
            ==> app.pane_place(kind, Some(Pane::Right)).0 == app.split_col() + 1,
        kind == RowKind::Hunk || kind == RowKind::Note || kind == RowKind::File ==> app.pane_place(
            kind,
            Some(Pane::Right),
        ) == app.pane_place(kind, None),
        app.config.line_numbers && (kind == RowKind::Add || kind == RowKind::Remove || kind
            == RowKind::Context) ==> app.pane_place(kind, None).1 == 10 && app.pane_place(
            kind,
            Some(Pane::Left),
        ).1 == 6 && app.pane_place(kind, Some(Pane::Right)).1 == 6,
        !app.config.line_numbers && (kind == RowKind::Add || kind == RowKind::Remove || kind
            == RowKind::Context) ==> app.pane_place(kind, None).1 == 1 && app.pane_place(
            kind,
            Some(Pane::Left),
        ).1 == 1 && app.pane_place(kind, Some(Pane::Right)).1 == 1,
{
}

} // verus!
