//! The state of the viewer: the document, the cursor, the search, and the
//! transient state of its interface.

use vstd::prelude::*;

use crate::config::Config;
use crate::diff::FileDiff;
use crate::help::help_grid;
#[allow(unused_imports)]
use crate::help::help_rows;
use crate::outside::Measure;
use crate::rows::{Row, RowKind};
use crate::scroll::{file_of_row, max_scroll_for, sticky_at};
#[allow(unused_imports)]
use crate::scroll::{
    ascending, law_last_row_is_visible, law_no_scroll_past_the_end,
    law_no_scroll_when_everything_fits, law_owner, law_pinned_rows_are_above, owner, pinned,
    scroll_bound,
};
use crate::select::Sel;
use crate::theme::Theme;

verus! {

/// Which top-level view is showing.
#[derive(Debug, Clone, Copy, PartialEq, Eq, Structural)]
pub enum Mode {
    Diff,
    Stat,
}

/// Which line-number gutter a row draws: both columns (unified), or just the
/// old/new side (each pane of the split view).
#[derive(Debug, Clone, Copy, PartialEq, Eq, Structural)]
pub enum Gut {
    Both,
    Old,
    New,
}

/// The screen that the viewer draws on.
#[derive(Debug, Clone, Copy, PartialEq, Eq, Structural)]
pub struct Screen {
    pub width: u16,
    pub height: u16,
    /// How it measures text.
    pub measure: Measure,
    /// The left pane's share of the split body, in cells and rounded, before
    /// it is held to the room on both sides.
    pub split_left: u16,
}

/// Where the viewer is in the document.
#[derive(Debug, Clone, Copy, PartialEq, Eq, Structural)]
pub struct Nav {
    /// The file under the cursor.
    pub selected: usize,
    /// Top visible row (viewport offset).
    pub scroll: usize,
    /// Selected/highlighted row within the diff (tig-style cursor line).
    pub cursor: usize,
    /// Horizontal scroll offset in display columns; the gutter and +/- sign
    /// stay pinned while the line content shifts left by this many columns.
    pub hscroll: usize,
}

/// Where the diff comes from, and the options that it is made with.
#[derive(Debug, Clone, Copy, PartialEq, Eq, Structural)]
pub struct Source {
    /// A piped diff (pager mode): a one-shot static stream.
    pub piped: bool,
    /// Whether it reads the working tree.
    pub worktree: bool,
    /// Whether untracked files are shown.
    pub all: bool,
    /// Lines of context around each change, where set.
    pub context: Option<usize>,
    /// Extra lines of context added on top of the base setting, grown by
    /// expanding folded regions.
    pub expand: usize,
}

/// The whole diff as one continuous document: every file's rows concatenated,
/// each preceded by a header row. `starts[i]` is the row of file `i`'s header.
/// The rows of the last files may still be on their way.
#[derive(Debug, Clone)]
pub struct Doc {
    pub files: Vec<FileDiff>,
    /// The raw unified-diff text for each file, in the same order as `files`.
    pub raw: Vec<String>,
    pub rows: Vec<Row>,
    pub starts: Vec<usize>,
}

/// Search state (whole-document).
#[derive(Debug, Clone)]
pub struct Search {
    /// The last confirmed pattern ("" = no active search).
    pub query: String,
    /// The prompt while it is open.
    pub input: Option<String>,
    /// (cursor, scroll, query) when the prompt opened, so Esc restores the
    /// pre-search view.
    pub origin: Option<(usize, usize, String)>,
    /// (row, cell_start, cell_end) hits across all files.
    pub matches: Vec<(usize, usize, usize)>,
    /// The current hit.
    pub current: Option<usize>,
}

/// The clickable geometry of the stat modal.
#[derive(Debug, Clone, Copy, PartialEq, Eq, Structural)]
pub struct ModalHit {
    pub x0: usize,
    pub y0: usize,
    pub x1: usize,
    pub y1: usize,
    pub list_y: usize,
    pub list_h: usize,
    pub start: usize,
}

/// The transient state of the interface.
#[derive(Debug, Clone, Copy)]
pub struct Ui {
    pub mode: Mode,
    /// File-list sidebar override: `None` follows the configured rule,
    /// `Some(_)` is the user's toggle.
    pub sidebar: Option<bool>,
    /// Runtime sidebar width override (cells) from a mouse-drag resize.
    pub sidebar_width: Option<usize>,
    /// True while dragging the sidebar divider to resize it.
    pub resizing: bool,
    /// True while dragging the split-view divider to resize the two panes.
    pub resizing_split: bool,
    /// Last body left-click (time, x, y) for double-click detection.
    pub last_click: Option<(u64, u16, u16)>,
    /// Side-by-side (split) diff rendering.
    pub split: bool,
    pub help_open: bool,
    /// Screen x where the "? help" footer badge starts, for click-to-toggle.
    pub help_badge_x: usize,
    pub modal_hit: Option<ModalHit>,
    /// Top-left of the stat modal, once dragged; `None` = auto-centered.
    pub modal_pos: Option<(u16, u16)>,
    /// While dragging the modal: the grab offset into the box `(dx, dy)`.
    pub modal_drag: Option<(usize, usize)>,
    /// Whether watch mode reacts to git changes.
    pub watch: bool,
    /// Whether a piped diff is still delivering files.
    pub loading: bool,
    /// Active text selection, drawn reversed.
    pub sel: Option<Sel>,
    /// Anchor row of a keyboard visual-line selection, or `None` when visual
    /// mode is off. While set, cursor movement extends `sel` instead of
    /// clearing it.
    pub visual: Option<usize>,
    /// Top-left of the mascot in body cells, while it is on screen.
    pub mascot: Option<(u16, u16)>,
    /// Grab offset into the mascot's bounding box while it's being dragged.
    pub mascot_grab: Option<(u16, u16)>,
    /// Force the mascot to appear over the diff.
    pub mascot_pinned: bool,
    /// Recent Esc taps: how many, and when the last one was.
    pub esc_taps: (u8, Option<u64>),
}

/// A transient footer note, with the time it was set.
#[derive(Debug, Clone)]
pub struct Flash {
    pub text: String,
    pub at: u64,
}

/// The viewer.
#[derive(Debug, Clone)]
pub struct App {
    pub config: Config,
    pub theme: Theme,
    pub screen: Screen,
    pub source: Source,
    pub doc: Doc,
    pub search: Search,
    pub nav: Nav,
    pub ui: Ui,
    /// Transient footer note.
    pub flash: Option<Flash>,
    /// Last window title pushed to the terminal, to avoid redundant writes.
    pub title: String,
    /// Raw diff text last applied, so a poll only rebuilds when it changed.
    pub last_diff: String,
}

impl Doc {
    /// Files start at rows of the document that go up from the first one, and
    /// no file has rows before the ones that come before it have.
    pub open spec fn wf(&self) -> bool {
        &&& ascending(self.starts@)
        &&& self.starts@.len() <= self.files@.len()
        &&& forall|k: int|
            0 <= k < self.starts@.len() ==> (#[trigger] self.starts@[k]) < self.rows@.len()
        &&& self.rows@.len() > 0 ==> self.starts@.len() > 0 && self.starts@[0] == 0
    }

    /// The kinds of the rows.
    pub open spec fn kinds(&self) -> Seq<RowKind> {
        self.rows@.map_values(|r: Row| r.kind)
    }

    /// The kinds of the rows.
    pub fn row_kinds(&self) -> (r: Vec<RowKind>)
        ensures
            r@ == self.kinds(),
    {
        let mut out: Vec<RowKind> = Vec::new();
        let mut i: usize = 0;
        while i < self.rows.len()
            invariant
                i <= self.rows.len(),
                out@ == self.kinds().take(i as int),
            decreases self.rows.len() - i,
        {
            out.push(self.rows[i].kind);
            i += 1;
            assert(out@ =~= self.kinds().take(i as int));
        }
        assert(self.kinds().take(self.rows@.len() as int) =~= self.kinds());
        out
    }
}

/// `x` held between `lo` and `hi`.
pub open spec fn held(x: int, lo: int, hi: int) -> int {
    if x < lo {
        lo
    } else if x > hi {
        hi
    } else {
        x
    }
}

/// `a` less `b`, at least zero.
pub open spec fn less(a: nat, b: nat) -> nat {
    if a > b {
        (a - b) as nat
    } else {
        0
    }
}

/// `base` moved by `delta`, held between zero and `max`.
pub fn shifted(base: usize, delta: isize, max: usize) -> (r: usize)
    ensures
        r == held(base + delta, 0, max as int),
{
    let x: i128 = base as i128 + delta as i128;
    if x < 0 {
        0
    } else if x > max as i128 {
        max
    } else {
        x as usize
    }
}

/// The content rows of a body of `body` rows that fit below the pinned ones.
pub open spec fn rows_below(doc: Doc, body: nat, scroll: nat) -> nat {
    less(body, pinned(doc.kinds(), doc.starts@, scroll, body).len())
}

/// The least offset from `scroll` on at which the cursor shows below the pinned
/// rows.
pub open spec fn brought_up(doc: Doc, body: nat, scroll: nat, cursor: nat) -> nat
    decreases cursor + 1 - scroll,
{
    if scroll > cursor || cursor < scroll + rows_below(doc, body, scroll) {
        scroll
    } else {
        brought_up(doc, body, scroll + 1, cursor)
    }
}

proof fn lemma_brought_up(doc: Doc, body: nat, scroll: nat, cursor: nat)
    requires
        scroll <= cursor,
    ensures
        scroll <= brought_up(doc, body, scroll, cursor) <= cursor + 1,
        body > 0 ==> cursor < brought_up(doc, body, scroll, cursor) + rows_below(
            doc,
            body,
            brought_up(doc, body, scroll, cursor),
        ),
        body > 0 ==> brought_up(doc, body, scroll, cursor) <= cursor,
    decreases cursor + 1 - scroll,
{
    let n = doc.rows.len();
    law_pinned_rows_are_above(doc.kinds(), doc.starts@, scroll, body);
    if cursor >= scroll + rows_below(doc, body, scroll) {
        if scroll < cursor {
            lemma_brought_up(doc, body, scroll + 1, cursor);
        }
    }
}

/// No offset shows the cursor that is more than a body above it.
proof fn lemma_brought_up_from(doc: Doc, body: nat, a: nat, b: nat, cursor: nat)
    requires
        a <= b,
        b + body <= cursor + 1,
    ensures
        brought_up(doc, body, a, cursor) == brought_up(doc, body, b, cursor),
    decreases b - a,
{
    if a < b {
        lemma_brought_up_from(doc, body, a + 1, b, cursor);
    }
}

/// Where `nav` is once the cursor moved by `delta` in a body of `body` rows: the
/// cursor stays in the document, the viewport follows just enough to keep it
/// visible, and the selected file is the one that the cursor is in.
#[verifier::opaque]
pub open spec fn moved_in(doc: Doc, body: nat, nav: Nav, delta: int) -> Nav {
    let n = doc.rows@.len();
    if n == 0 {
        nav
    } else {
        let cursor = held(nav.cursor + delta, 0, n - 1);
        let scroll = if cursor < nav.scroll {
            cursor
        } else {
            brought_up(doc, body, nav.scroll as nat, cursor as nat) as int
        };
        let bound = scroll_bound(doc.kinds(), doc.starts@, body);
        Nav {
            selected: owner(doc.starts@, cursor as nat) as usize,
            scroll: held(scroll, 0, bound as int) as usize,
            cursor: cursor as usize,
            hscroll: nav.hscroll,
        }
    }
}

/// Once the cursor moved it is in view: among the content rows below the pinned
/// ones.
pub proof fn law_moved_cursor_is_in_view(doc: Doc, body: nat, nav: Nav, delta: int)
    requires
        doc.rows@.len() > 0,
        body > 0,
    ensures
        ({
            let m = moved_in(doc, body, nav, delta);
            m.scroll <= m.cursor < m.scroll + rows_below(doc, body, m.scroll as nat)
        }),
{
    reveal(moved_in);
    let n = doc.rows.len();
    let cursor = held(nav.cursor + delta, 0, n - 1) as nat;
    let bound = scroll_bound(doc.kinds(), doc.starts@, body);
    law_pinned_rows_are_above(doc.kinds(), doc.starts@, cursor, body);
    law_no_scroll_past_the_end(doc.kinds(), doc.starts@, body);
    law_pinned_rows_are_above(doc.kinds(), doc.starts@, bound, body);
    if body < n {
        law_last_row_is_visible(doc.kinds(), doc.starts@, body);
    } else {
        law_no_scroll_when_everything_fits(doc.kinds(), doc.starts@, body);
        reveal(pinned);
    }
    if cursor >= nav.scroll {
        lemma_brought_up(doc, body, nav.scroll as nat, cursor);
    }
}

/// Where `nav` is once the viewport scrolled by `delta` in a body of `body`
/// rows, the cursor dragged along only where it would leave the window.
#[verifier::opaque]
pub open spec fn paged_in(doc: Doc, body: nat, nav: Nav, delta: int) -> Nav {
    let n = doc.rows@.len();
    if n == 0 {
        nav
    } else {
        let scroll = held(
            nav.scroll + delta,
            0,
            scroll_bound(doc.kinds(), doc.starts@, body) as int,
        );
        let end = less((scroll + rows_below(doc, body, scroll as nat)) as nat, 1);
        let bottom = if end < n {
            end as int
        } else {
            n - 1
        };
        let cursor = held(nav.cursor as int, scroll, bottom);
        Nav {
            selected: owner(doc.starts@, cursor as nat) as usize,
            scroll: scroll as usize,
            cursor: cursor as usize,
            hscroll: nav.hscroll,
        }
    }
}

/// Scrolling by pages leaves the cursor where it is as long as it stays in the
/// window; else it is at the edge that it clipped at. Either way it is in view.
pub proof fn law_paged_cursor_stays_put(doc: Doc, body: nat, nav: Nav, delta: int)
    requires
        doc.rows@.len() > 0,
        body > 0,
        nav.cursor < doc.rows@.len(),
    ensures
        ({
            let m = paged_in(doc, body, nav, delta);
            let vh = rows_below(doc, body, m.scroll as nat);
            &&& m.scroll <= m.cursor < m.scroll + vh
            &&& m.scroll <= nav.cursor < m.scroll + vh ==> m.cursor == nav.cursor
        }),
{
    reveal(paged_in);
    let n = doc.rows.len();
    law_no_scroll_past_the_end(doc.kinds(), doc.starts@, body);
    law_pinned_rows_are_above(
        doc.kinds(),
        doc.starts@,
        held(
            nav.scroll + delta,
            0,
            scroll_bound(doc.kinds(), doc.starts@, body) as int,
        ) as nat,
        body,
    );
}

/// Moving the cursor takes it as many rows on as asked for, to the first row or
/// the last where there are fewer; the file that the row belongs to is selected.
/// The viewport stays where it is as long as the cursor is in view there.
pub proof fn law_moving_goes_row_for_row(doc: Doc, body: nat, nav: Nav, delta: int)
    requires
        doc.rows@.len() > 0,
    ensures
        ({
            let m = moved_in(doc, body, nav, delta);
            let n = doc.rows@.len();
            &&& 0 <= nav.cursor + delta < n ==> m.cursor == nav.cursor + delta
            &&& nav.cursor + delta < 0 ==> m.cursor == 0
            &&& nav.cursor + delta >= n ==> m.cursor == n - 1
            &&& doc.wf() ==> m.selected < doc.starts@.len() && doc.starts@[m.selected as int]
                <= m.cursor && (m.selected + 1 < doc.starts@.len() ==> m.cursor
                < doc.starts@[m.selected + 1])
            &&& nav.scroll <= m.cursor < nav.scroll + rows_below(doc, body, nav.scroll as nat)
                && nav.scroll <= scroll_bound(doc.kinds(), doc.starts@, body) ==> m.scroll
                == nav.scroll
            &&& m.cursor < nav.scroll <= scroll_bound(doc.kinds(), doc.starts@, body) ==> m.scroll
                == m.cursor
            &&& m.hscroll == nav.hscroll
        }),
{
    reveal(moved_in);
    assert(doc.rows@.len() == doc.rows.len());
    let cursor = held(nav.cursor + delta, 0, doc.rows@.len() - 1);
    if doc.wf() {
        law_owner(doc.starts@, cursor as nat);
        assert(doc.starts@.len() == doc.starts.len());
    }
}

/// Scrolling takes the viewport as many rows on as asked for, as far as the
/// document scrolls; the file under the cursor is selected.
pub proof fn law_paging_goes_row_for_row(doc: Doc, body: nat, nav: Nav, delta: int)
    requires
        doc.rows@.len() > 0,
    ensures
        ({
            let m = paged_in(doc, body, nav, delta);
            let bound = scroll_bound(doc.kinds(), doc.starts@, body);
            &&& 0 <= nav.scroll + delta <= bound ==> m.scroll == nav.scroll + delta
            &&& nav.scroll + delta < 0 ==> m.scroll == 0
            &&& nav.scroll + delta > bound ==> m.scroll == bound
            &&& nav.cursor < m.scroll ==> m.cursor == m.scroll
            &&& nav.cursor >= m.scroll + rows_below(doc, body, m.scroll as nat) && m.scroll
                + rows_below(doc, body, m.scroll as nat) <= doc.rows@.len() && rows_below(
                doc,
                body,
                m.scroll as nat,
            ) > 0 ==> m.cursor == m.scroll + rows_below(doc, body, m.scroll as nat) - 1
            &&& doc.wf() ==> m.selected < doc.starts@.len() && doc.starts@[m.selected as int]
                <= m.cursor && (m.selected + 1 < doc.starts@.len() ==> m.cursor
                < doc.starts@[m.selected + 1])
            &&& m.hscroll == nav.hscroll
        }),
{
    reveal(paged_in);
    assert(doc.rows@.len() == doc.rows.len());
    let bound = scroll_bound(doc.kinds(), doc.starts@, body);
    law_no_scroll_past_the_end(doc.kinds(), doc.starts@, body);
    let m = paged_in(doc, body, nav, delta);
    if doc.wf() {
        law_owner(doc.starts@, m.cursor as nat);
        assert(doc.starts@.len() == doc.starts.len());
    }
}

/// The body has the rows of the screen but for the status bar, and for the help
/// grid where it is open.
pub proof fn law_body_leaves_the_status_bar(app: App)
    ensures
        !app.ui.help_open && app.screen.height > 0 ==> app.body() + 1 == app.screen.height,
        app.ui.help_open && app.body() > 0 ==> app.body() + 1 + help_rows(
            app.source.piped,
            app.screen.width as nat,
            app.screen.measure,
        ) == app.screen.height,
        app.screen.height == 0 ==> app.body() == 0,
{
}

/// The pinned rows are at the top of the body; from there on the document shows
/// row for row.
pub proof fn law_rows_follow_the_pinned_ones(app: App, y: nat)
    ensures
        ({
            let p = app.pinned_at(app.nav.scroll as nat);
            &&& y < p.len() ==> app.row_at(y) == p[y as int]
            &&& y >= p.len() && app.nav.scroll + y - p.len() < app.doc.rows@.len() ==> app.row_at(y)
                == app.nav.scroll + y - p.len()
            &&& y >= p.len() && app.nav.scroll + y - p.len() >= app.doc.rows@.len() > 0
                ==> app.row_at(y) == app.doc.rows@.len() - 1
        }),
{
}

impl App {
    /// Rows reserved at the bottom: the footer bar, plus the help grid when it
    /// is open.
    pub open spec fn chrome(&self) -> nat {
        1 + if self.ui.help_open {
            help_rows(self.source.piped, self.screen.width as nat, self.screen.measure)
        } else {
            0
        }
    }

    /// Rows of the body.
    pub open spec fn body(&self) -> nat {
        less(self.screen.height as nat, self.chrome())
    }

    /// The rows that are pinned when `scroll` is the top one.
    pub open spec fn pinned_at(&self, scroll: nat) -> Seq<usize> {
        pinned(self.doc.kinds(), self.doc.starts@, scroll, self.body())
    }

    /// The content rows that fit below the pinned ones.
    pub open spec fn viewport_at(&self, scroll: nat) -> nat {
        less(self.body(), self.pinned_at(scroll).len())
    }

    /// The furthest the document can scroll.
    pub open spec fn bound(&self) -> nat {
        scroll_bound(self.doc.kinds(), self.doc.starts@, self.body())
    }

    /// Where `nav` is once the cursor moved by `delta`.
    pub open spec fn moved(&self, nav: Nav, delta: int) -> Nav {
        moved_in(self.doc, self.body(), nav, delta)
    }

    /// Where `nav` is once the viewport scrolled by `delta`.
    pub open spec fn paged(&self, nav: Nav, delta: int) -> Nav {
        paged_in(self.doc, self.body(), nav, delta)
    }

    /// Rows reserved at the bottom: the footer bar, plus the expanded help
    /// grid when it's open.
    pub fn chrome_h(&self) -> (r: usize)
        ensures
            r == self.chrome(),
    {
        if self.ui.help_open {
            1 + help_grid(self.source.piped, self.screen.width, self.screen.measure).rows
        } else {
            1
        }
    }

    /// Physical rows of the body region (everything above the footer/help
    /// chrome), including the sticky-header band.
    pub fn body_h_screen(&self) -> (r: usize)
        ensures
            r == self.body(),
    {
        (self.screen.height as usize).saturating_sub(self.chrome_h())
    }

    /// Document rows pinned at the top of the body for the current scroll: the
    /// enclosing file header and the current hunk header, but only once they've
    /// scrolled above the top visible content line (so a header still naturally
    /// on screen isn't duplicated). Capped to leave at least one content row.
    pub fn sticky_rows(&self) -> (r: Vec<usize>)
        ensures
            r@ == self.pinned_at(self.nav.scroll as nat),
    {
        sticky_at(&self.doc.row_kinds(), &self.doc.starts, self.nav.scroll, self.body_h_screen())
    }

    /// How many rows are pinned.
    pub fn sticky_h(&self) -> (r: usize)
        ensures
            r == self.pinned_at(self.nav.scroll as nat).len(),
    {
        self.sticky_rows().len()
    }

    /// Content rows that fit below the sticky-header band: the physical body
    /// height minus however many headers are currently pinned at the top.
    pub fn viewport_rows(&self) -> (r: usize)
        ensures
            r == self.viewport_at(self.nav.scroll as nat),
            r <= 0xffff,
    {
        self.body_h_screen().saturating_sub(self.sticky_h())
    }

    /// The furthest the document can scroll.
    pub fn max_scroll(&self) -> (r: usize)
        ensures
            r == self.bound(),
    {
        max_scroll_for(&self.doc.row_kinds(), &self.doc.starts, self.body_h_screen())
    }

    /// The file index whose rows contain document row `row`.
    pub fn file_at(&self, row: usize) -> (r: usize)
        ensures
            r == owner(self.doc.starts@, row as nat),
    {
        file_of_row(&self.doc.starts, row)
    }

    /// Whether the cursor is currently on a hunk header row.
    pub fn on_hunk(&self) -> (r: bool)
        ensures
            r == (self.nav.cursor < self.doc.rows@.len() && self.doc.rows@[self.nav.cursor as int].kind
                == RowKind::Hunk),
    {
        self.nav.cursor < self.doc.rows.len() && self.doc.rows[self.nav.cursor].kind
            == RowKind::Hunk
    }

    /// The document row drawn at a row of the body: the pinned ones first, then
    /// those from `scroll` on, the last one below them.
    pub open spec fn row_at(&self, y: nat) -> int {
        let p = self.pinned_at(self.nav.scroll as nat);
        if y < p.len() {
            p[y as int] as int
        } else {
            let row = self.nav.scroll + (y - p.len());
            let last = less(self.doc.rows@.len(), 1);
            if row < last {
                row
            } else {
                last as int
            }
        }
    }

    /// Map a screen body-row `y` to the document row drawn there: the sticky
    /// band up top, then linear from `scroll` below it.
    pub fn screen_y_to_doc(&self, y: usize) -> (r: usize)
        ensures
            r == self.row_at(y as nat),
            self.doc.rows@.len() > 0 ==> r < self.doc.rows@.len(),
    {
        let sticky = self.sticky_rows();
        let k = sticky.len();
        let last = self.doc.rows.len().saturating_sub(1);
        if y < k {
            proof {
                reveal(pinned);
                law_pinned_rows_are_above(
                    self.doc.kinds(),
                    self.doc.starts@,
                    self.nav.scroll as nat,
                    self.body(),
                );
            }
            sticky[y]
        } else if y - k < last && self.nav.scroll < last - (y - k) {
            self.nav.scroll + (y - k)
        } else {
            last
        }
    }

    /// The least offset from the current one on that shows a row below the pinned
    /// ones.
    fn bring_up(&self, cursor: usize) -> (r: usize)
        requires
            self.nav.scroll <= cursor < self.doc.rows@.len(),
        ensures
            r == brought_up(self.doc, self.body(), self.nav.scroll as nat, cursor as nat),
    {
        let body = self.body_h_screen();
        let kinds = self.doc.row_kinds();
        let n = self.doc.rows.len();
        let mut s = self.nav.scroll;
        if body <= cursor && s < cursor + 1 - body {
            s = cursor + 1 - body;
        } else if body == 0 {
            s = cursor + 1;
        }
        proof {
            if s > self.nav.scroll {
                lemma_brought_up_from(
                    self.doc,
                    body as nat,
                    self.nav.scroll as nat,
                    s as nat,
                    cursor as nat,
                );
            }
        }
        while s <= cursor
            invariant
                s <= cursor + 1,
                cursor < n,
                kinds@ == self.doc.kinds(),
                body == self.body(),
                brought_up(self.doc, self.body(), self.nav.scroll as nat, cursor as nat)
                    == brought_up(self.doc, self.body(), s as nat, cursor as nat),
            decreases cursor + 1 - s,
        {
            let vh = body.saturating_sub(sticky_at(&kinds, &self.doc.starts, s, body).len());
            if cursor - s < vh {
                return s;
            }
            s += 1;
        }
        s
    }

    /// Move the cursor line by `delta`, then scroll the viewport just enough to
    /// keep the cursor visible (tig-style).
    pub fn move_cursor(&mut self, delta: isize)
        ensures
            *final(self) == (App { nav: old(self).moved(old(self).nav, delta as int), ..*old(self) }),
    {
        proof {
            reveal(moved_in);
        }
        let n = self.doc.rows.len();
        if n == 0 {
            return;
        }
        let cursor = shifted(self.nav.cursor, delta, n - 1);
        let max = self.max_scroll();
        let scroll = if cursor < self.nav.scroll {
            cursor
        } else {
            self.bring_up(cursor)
        };
        let selected = self.file_at(cursor);
        self.nav = Nav {
            selected,
            scroll: if scroll < max {
                scroll
            } else {
                max
            },
            cursor,
            hscroll: self.nav.hscroll,
        };
    }

    /// Scroll the viewport by `delta` rows without moving the cursor, clamped to
    /// the content. Used by drag-select to auto-scroll past the visible edge.
    pub fn scroll_by(&mut self, delta: isize)
        ensures
            *final(self) == (App {
                nav: Nav {
                    scroll: held(
                        old(self).nav.scroll + delta,
                        0,
                        old(self).bound() as int,
                    ) as usize,
                    ..old(self).nav
                },
                ..*old(self)
            }),
    {
        let max = self.max_scroll();
        self.nav.scroll = shifted(self.nav.scroll, delta, max);
    }

    /// Scroll the viewport by `delta` rows and drag the cursor along only when
    /// an edge would push past it, so the cursor stays pinned in the document
    /// until it clips at the top/bottom of the window (mouse-wheel paging).
    pub fn scroll_page(&mut self, delta: isize)
        ensures
            *final(self) == (App { nav: old(self).paged(old(self).nav, delta as int), ..*old(self) }),
    {
        proof {
            reveal(paged_in);
        }
        let n = self.doc.rows.len();
        if n == 0 {
            return;
        }
        proof {
            law_no_scroll_past_the_end(self.doc.kinds(), self.doc.starts@, self.body());
        }
        let ghost before = *self;
        self.scroll_by(delta);
        let ghost now = *self;
        assert(now.doc == before.doc && now.screen == before.screen && now.ui == before.ui
            && now.source == before.source);
        assert(now.body() == before.body());
        let vh = self.viewport_rows();
        let scroll = self.nav.scroll;
        let end = scroll.saturating_add(vh).saturating_sub(1);
        let bottom = if end < n {
            end
        } else {
            n - 1
        };
        let cursor = if self.nav.cursor < scroll {
            scroll
        } else if self.nav.cursor > bottom {
            bottom
        } else {
            self.nav.cursor
        };
        self.nav.cursor = cursor;
        self.nav.selected = self.file_at(cursor);
    }

    /// Move the cursor to a row from the top of the document.
    pub fn cursor_to(&mut self, idx: usize)
        ensures
            *final(self) == (App {
                nav: old(self).moved(
                    Nav { cursor: 0, scroll: 0, ..old(self).nav },
                    idx as int,
                ),
                ..*old(self)
            }),
    {
        proof {
            reveal(moved_in);
        }
        let n = self.doc.rows.len();
        self.nav.cursor = 0;
        self.nav.scroll = 0;
        if n == 0 {
            return;
        }
        let cursor = if idx < n {
            idx
        } else {
            n - 1
        };
        self.nav.cursor = cursor;
        self.move_cursor(0);
    }

    /// Move the cursor to an absolute row without resetting the viewport.
    pub fn set_cursor(&mut self, idx: usize)
        ensures
            *final(self) == (App {
                nav: old(self).moved(
                    Nav {
                        cursor: held(
                            idx as int,
                            0,
                            less(old(self).doc.rows@.len(), 1) as int,
                        ) as usize,
                        ..old(self).nav
                    },
                    0,
                ),
                ..*old(self)
            }),
    {
        let last = self.doc.rows.len().saturating_sub(1);
        self.nav.cursor = if idx < last {
            idx
        } else {
            last
        };
        self.move_cursor(0);
    }
}

proof fn lemma_brought_up_late(doc: Doc, body: nat, scroll: nat, cursor: nat, k: nat)
    requires
        scroll <= k < brought_up(doc, body, scroll, cursor),
    ensures
        cursor >= k + rows_below(doc, body, k),
    decreases cursor + 1 - scroll,
{
    if scroll < k && !(scroll > cursor || cursor < scroll + rows_below(doc, body, scroll)) {
        lemma_brought_up_late(doc, body, scroll + 1, cursor, k);
    }
}

/// Moving the cursor scrolls no further than it takes: at every offset before
/// the one that the viewport scrolls down to, the cursor would be below it.
pub proof fn law_moving_scrolls_no_further_than_it_takes(
    doc: Doc,
    body: nat,
    nav: Nav,
    delta: int,
    k: nat,
)
    requires
        doc.rows@.len() > 0,
        nav.scroll <= k < moved_in(doc, body, nav, delta).scroll,
    ensures
        moved_in(doc, body, nav, delta).cursor >= k + rows_below(doc, body, k),
{
    reveal(moved_in);
    assert(doc.rows@.len() == doc.rows.len());
    law_no_scroll_past_the_end(doc.kinds(), doc.starts@, body);
    let cursor = held(nav.cursor + delta, 0, doc.rows@.len() - 1) as nat;
    if cursor >= nav.scroll {
        lemma_brought_up_late(doc, body, nav.scroll as nat, cursor, k);
    }
}

} // verus!
