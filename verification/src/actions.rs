//! What the viewer does: moving between hunks and files, selecting, and copying.

use vstd::prelude::*;

use crate::app::{App, Flash, Nav, Ui};
#[allow(unused_imports)]
use crate::app::{held, law_moving_goes_row_for_row};
use crate::cells::slice_cells;
#[allow(unused_imports)]
use crate::cells::{cell_views, slice_text};
#[allow(unused_imports)]
use crate::diff::capped;
use crate::rows::{Row, RowKind};
#[allow(unused_imports)]
use crate::scroll::{law_owner, owner};
use crate::select::{selection_text, Sel};
#[allow(unused_imports)]
use crate::select::selected_text;
use crate::text::{chars_of, decimal_of, string_of};
#[allow(unused_imports)]
use crate::text::decimal;

verus! {

/// The first hunk header at or after row `i`.
pub open spec fn hunk_after(rows: Seq<Row>, i: int) -> Option<int>
    decreases rows.len() - i,
{
    if i < 0 || i >= rows.len() {
        None
    } else if rows[i].kind == RowKind::Hunk {
        Some(i)
    } else {
        hunk_after(rows, i + 1)
    }
}

/// The last hunk header before row `i`.
pub open spec fn hunk_before(rows: Seq<Row>, i: int) -> Option<int>
    decreases i,
{
    if i <= 0 || i > rows.len() {
        None
    } else if rows[i - 1].kind == RowKind::Hunk {
        Some(i - 1)
    } else {
        hunk_before(rows, i - 1)
    }
}

/// How many hunk headers there are among the rows from `lo` up to `hi`.
pub open spec fn hunk_count(rows: Seq<Row>, lo: int, hi: int) -> nat
    decreases hi - lo,
{
    if hi <= lo {
        0
    } else {
        hunk_count(rows, lo, hi - 1) + if rows[hi - 1].kind == RowKind::Hunk {
            1nat
        } else {
            0nat
        }
    }
}

/// How many line feeds a text holds.
pub open spec fn feeds(s: Seq<char>) -> nat
    decreases s.len(),
{
    if s.len() == 0 {
        0
    } else {
        feeds(s.drop_last()) + if s.last() == '\n' {
            1nat
        } else {
            0nat
        }
    }
}

/// The note about `n` copied lines.
pub open spec fn copied_note(n: nat) -> Seq<char> {
    "copied "@ + decimal(n) + " line"@ + if n == 1 {
        ""@
    } else {
        "s"@
    }
}

/// Counts line feeds.
fn count_feeds(s: &str) -> (r: usize)
    ensures
        r == feeds(s@),
        r <= s@.len(),
{
    let cs = chars_of(s);
    let mut n: usize = 0;
    let mut i: usize = 0;
    while i < cs.len()
        invariant
            i <= cs.len(),
            n == feeds(cs@.take(i as int)),
            n <= i,
        decreases cs.len() - i,
    {
        assert(cs@.take(i + 1).drop_last() =~= cs@.take(i as int));
        if cs[i] == '\n' {
            n += 1;
        }
        i += 1;
    }
    assert(cs@.take(cs@.len() as int) =~= cs@);
    n
}

/// Writes the note about `n` copied lines.
fn write_copied_note(n: usize) -> (r: String)
    ensures
        r@ == copied_note(n as nat),
{
    let mut s = "copied ".to_string();
    s.append(&string_of(&decimal_of(n)));
    s.append(" line");
    if n == 1 {
        s.append("");
    } else {
        s.append("s");
    }
    s
}

/// The interface once the selection of visual mode follows the cursor.
#[verifier::opaque]
pub open spec fn following(ui: Ui, cursor: usize) -> Ui {
    match ui.visual {
        Some(anchor) => Ui { sel: Some(Sel::whole_lines(anchor, cursor)), ..ui },
        None => ui,
    }
}

/// The interface once a mouse selection is dropped; one of visual mode stays.
#[verifier::opaque]
pub open spec fn dropped(ui: Ui) -> Ui {
    Ui {
        sel: if ui.visual is None {
            None
        } else {
            ui.sel
        },
        ..ui
    }
}

/// Dropping a mouse selection leaves the rest of the interface alone.
pub proof fn lemma_dropped(ui: Ui)
    ensures
        dropped(ui) == (Ui { sel: dropped(ui).sel, ..ui }),
{
    reveal(dropped);
}

impl App {
    /// Where a jump to the hunk header `target` leads.
    pub open spec fn nav_on(&self, target: Option<int>) -> Nav {
        match target {
            Some(i) => self.moved(Nav { cursor: i as usize, ..self.nav }, 0),
            None => self.nav,
        }
    }

    /// Move the cursor to the next/previous hunk header row.
    pub fn jump_hunk(&mut self, forward: bool)
        ensures
            *final(self) == (App {
                nav: old(self).nav_on(
                    if forward {
                        hunk_after(old(self).doc.rows@, old(self).nav.cursor + 1)
                    } else {
                        hunk_before(
                            old(self).doc.rows@,
                            held(old(self).nav.cursor as int, 0, old(self).doc.rows@.len() as int),
                        )
                    },
                ),
                ..*old(self)
            }),
    {
        let n = self.doc.rows.len();
        let cur = self.nav.cursor;
        if forward {
            if cur >= n {
                return;
            }
            let mut i: usize = cur + 1;
            while i < n && self.doc.rows[i].kind != RowKind::Hunk
                invariant
                    i <= n,
                    n == self.doc.rows@.len(),
                    hunk_after(self.doc.rows@, cur + 1) == hunk_after(self.doc.rows@, i as int),
                decreases n - i,
            {
                i += 1;
            }
            if i < n {
                self.nav.cursor = i;
                self.move_cursor(0);
            }
        } else {
            let mut i: usize = if cur < n {
                cur
            } else {
                n
            };
            let ghost end = i as int;
            while i > 0 && self.doc.rows[i - 1].kind != RowKind::Hunk
                invariant
                    i <= n,
                    n == self.doc.rows@.len(),
                    hunk_before(self.doc.rows@, end) == hunk_before(self.doc.rows@, i as int),
                decreases i,
            {
                i -= 1;
            }
            if i > 0 {
                self.nav.cursor = i - 1;
                self.move_cursor(0);
            }
        }
    }

    /// Where going to the start of file `idx` leads: its header at the top of
    /// the viewport, as far as the document scrolls.
    pub open spec fn nav_at_file(&self, idx: int) -> Nav {
        if 0 <= idx < self.doc.starts@.len() {
            let start = self.doc.starts@[idx];
            self.moved(
                Nav {
                    cursor: start,
                    scroll: held(start as int, 0, self.bound() as int) as usize,
                    ..self.nav
                },
                0,
            )
        } else {
            self.nav
        }
    }

    /// Scroll the document to the start of file `idx`, pinning its header row to
    /// the top of the viewport.
    pub fn select_file_at(&mut self, idx: usize)
        ensures
            *final(self) == (App { nav: old(self).nav_at_file(idx as int), ..*old(self) }),
    {
        if idx < self.doc.starts.len() {
            let start = self.doc.starts[idx];
            let max = self.max_scroll();
            self.nav.cursor = start;
            self.nav.scroll = if start < max {
                start
            } else {
                max
            };
            self.move_cursor(0);
        }
    }

    /// The file that is `delta` files from the one that the cursor is in.
    pub open spec fn file_off(&self, delta: int) -> int {
        held(
            owner(self.doc.starts@, self.nav.cursor as nat) + delta,
            0,
            self.doc.starts@.len() - 1,
        )
    }

    /// Go to the start of the file `delta` files on.
    pub fn select_file(&mut self, delta: isize)
        ensures
            *final(self) == if old(self).doc.starts@.len() == 0 {
                *old(self)
            } else {
                App {
                    nav: old(self).nav_at_file(old(self).file_off(delta as int)),
                    ..*old(self)
                }
            },
    {
        let n = self.doc.starts.len();
        if n == 0 {
            return;
        }
        let cur = self.file_at(self.nav.cursor);
        let new = crate::app::shifted(cur, delta, n - 1);
        self.select_file_at(new);
    }

    /// Set a transient footer note stamped with the time.
    pub fn set_flash(&mut self, msg: String, now: u64)
        ensures
            *final(self) == (App { flash: Some(Flash { text: msg, at: now }), ..*old(self) }),
    {
        self.flash = Some(Flash { text: msg, at: now });
    }

    /// Drop any selection, including visual mode.
    pub fn clear_sel(&mut self)
        ensures
            *final(self) == (App {
                ui: Ui { sel: None, visual: None, ..old(self).ui },
                ..*old(self)
            }),
    {
        self.ui.sel = None;
        self.ui.visual = None;
    }

    /// Re-derive `sel` from the visual anchor and the cursor, so any motion key
    /// extends the selection without each one knowing about visual mode.
    pub fn sync_visual(&mut self)
        ensures
            *final(self) == (App { ui: following(old(self).ui, old(self).nav.cursor), ..*old(self) }),
    {
        proof {
            reveal(following);
        }
        if let Some(anchor) = self.ui.visual {
            self.ui.sel = Some(Sel::lines(anchor, self.nav.cursor));
        }
    }

    /// Drop a mouse selection; one of visual mode stays.
    pub fn drop_mouse_sel(&mut self)
        ensures
            *final(self) == (App { ui: dropped(old(self).ui), ..*old(self) }),
    {
        proof {
            reveal(dropped);
        }
        if self.ui.visual.is_none() {
            self.ui.sel = None;
        }
    }

    /// Start, extend, or cancel a keyboard visual-line selection.
    ///
    /// Line-wise (not character-wise) because a diff row is only ever copied as
    /// a whole line: the gutter, +/- sign, and split panes make a character
    /// anchor ambiguous, and `y` already yanks whole rows.
    pub fn toggle_visual(&mut self)
        ensures
            *final(self) == (App {
                ui: if old(self).ui.visual is Some {
                    Ui { visual: None, sel: None, ..old(self).ui }
                } else {
                    Ui {
                        visual: Some(old(self).nav.cursor),
                        sel: Some(
                            Sel::whole_lines(old(self).nav.cursor, old(self).nav.cursor),
                        ),
                        ..old(self).ui
                    }
                },
                ..*old(self)
            }),
    {
        if self.ui.visual.is_some() {
            self.ui.visual = None;
            self.ui.sel = None;
        } else {
            self.ui.visual = Some(self.nav.cursor);
            self.ui.sel = Some(Sel::lines(self.nav.cursor, self.nav.cursor));
        }
    }

    /// What copying takes: the selection, or else the line under the cursor.
    pub open spec fn yanked(&self) -> Seq<char> {
        match self.ui.sel {
            Some(sel) => selected_text(self.doc.rows@, sel),
            None => if self.nav.cursor < self.doc.rows@.len() {
                slice_text(
                    cell_views(self.doc.rows@[self.nav.cursor as int].content@),
                    0,
                    usize::MAX as nat,
                )
            } else {
                seq![]
            },
        }
    }

    /// Copy: with a selection active that, with none the whole line under the
    /// cursor. The text comes from the row model, not the screen, so a selection
    /// taller than the viewport still copies in full, without the line-number
    /// gutter or the +/- signs. Returns what is to be put on the clipboard, if
    /// anything; the note about it is set, and the selection is dropped.
    pub fn yank(&mut self, now: u64) -> (r: Option<String>)
        ensures
            r is Some == (old(self).yanked().len() > 0),
            r matches Some(t) ==> t@ == old(self).yanked(),
            *final(self) == (App {
                flash: final(self).flash,
                ui: if old(self).ui.sel is Some {
                    Ui { sel: None, visual: None, ..old(self).ui }
                } else {
                    old(self).ui
                },
                ..*old(self)
            }),
            r is None ==> final(self).flash == old(self).flash,
            r is Some ==> final(self).flash is Some && final(self).flash->0.text@ == copied_note(
                capped(feeds(old(self).yanked()) + 1),
            ) && final(self).flash->0.at == now,
    {
        let text = match self.ui.sel {
            Some(sel) => {
                self.clear_sel();
                selection_text(&self.doc.rows, sel)
            },
            None => {
                if self.nav.cursor < self.doc.rows.len() {
                    slice_cells(&self.doc.rows[self.nav.cursor].content, 0, usize::MAX)
                } else {
                    return None;
                }
            },
        };
        if text.as_str().unicode_len() == 0 {
            return None;
        }
        let lines = count_feeds(&text).saturating_add(1);
        self.set_flash(write_copied_note(lines), now);
        Some(text)
    }

    /// Copy the selected file's raw unified diff (exactly as git produced it).
    /// Returns what is to be put on the clipboard, if anything, with the note
    /// about it set.
    pub fn yank_file(&mut self, now: u64) -> (r: Option<String>)
        ensures
            r is Some == (old(self).nav.selected < old(self).doc.raw@.len() && old(self).doc.raw@[old(
                self,
            ).nav.selected as int]@.len() > 0),
            r matches Some(t) ==> t@ == old(self).doc.raw@[old(self).nav.selected as int]@,
            *final(self) == (App { flash: final(self).flash, ..*old(self) }),
            r is None ==> final(self).flash == old(self).flash,
            r is Some ==> final(self).flash is Some && final(self).flash->0.text@
                == "copied file diff"@ && final(self).flash->0.at == now,
    {
        if self.nav.selected >= self.doc.raw.len() {
            return None;
        }
        let patch = self.doc.raw[self.nav.selected].clone();
        if patch.as_str().unicode_len() == 0 {
            return None;
        }
        self.set_flash("copied file diff".to_string(), now);
        Some(patch)
    }

    /// The number of lines of context to ask for: what is set plus what was
    /// expanded.
    pub fn effective_context(&self) -> (r: Option<usize>)
        requires
            self.source.expand > 0 ==> match self.source.context {
                Some(c) => c + self.source.expand <= usize::MAX,
                None => 3 + self.source.expand <= usize::MAX,
            },
        ensures
            r == if self.source.expand > 0 {
                Some(
                    match self.source.context {
                        Some(c) => (c + self.source.expand) as usize,
                        None => (3 + self.source.expand) as usize,
                    },
                )
            } else {
                self.source.context
            },
    {
        if self.source.expand > 0 {
            let base: usize = match self.source.context {
                Some(c) => c,
                None => 3,
            };
            Some(base + self.source.expand)
        } else {
            self.source.context
        }
    }
}

/// The next hunk header is the nearest one behind a row, the previous one the
/// nearest before it: there is none in between.
pub proof fn law_hunk_headers_are_the_nearest(rows: Seq<Row>, i: int)
    requires
        0 <= i <= rows.len(),
    ensures
        match hunk_after(rows, i) {
            Some(h) => i <= h < rows.len() && rows[h].kind == RowKind::Hunk && forall|k: int|
                i <= k < h ==> (#[trigger] rows[k]).kind != RowKind::Hunk,
            None => forall|k: int| i <= k < rows.len() ==> (#[trigger] rows[k]).kind != RowKind::Hunk,
        },
        match hunk_before(rows, i) {
            Some(h) => 0 <= h < i && rows[h].kind == RowKind::Hunk && forall|k: int|
                h < k < i ==> (#[trigger] rows[k]).kind != RowKind::Hunk,
            None => forall|k: int| 0 <= k < i ==> (#[trigger] rows[k]).kind != RowKind::Hunk,
        },
{
    lemma_nearest_after(rows, i);
    lemma_nearest_before(rows, i);
}

proof fn lemma_nearest_after(rows: Seq<Row>, i: int)
    requires
        0 <= i <= rows.len(),
    ensures
        match hunk_after(rows, i) {
            Some(h) => i <= h < rows.len() && rows[h].kind == RowKind::Hunk && forall|k: int|
                i <= k < h ==> (#[trigger] rows[k]).kind != RowKind::Hunk,
            None => forall|k: int| i <= k < rows.len() ==> (#[trigger] rows[k]).kind != RowKind::Hunk,
        },
    decreases rows.len() - i,
{
    if i < rows.len() && rows[i].kind != RowKind::Hunk {
        lemma_nearest_after(rows, i + 1);
    }
}

proof fn lemma_nearest_before(rows: Seq<Row>, i: int)
    requires
        0 <= i <= rows.len(),
    ensures
        match hunk_before(rows, i) {
            Some(h) => 0 <= h < i && rows[h].kind == RowKind::Hunk && forall|k: int|
                h < k < i ==> (#[trigger] rows[k]).kind != RowKind::Hunk,
            None => forall|k: int| 0 <= k < i ==> (#[trigger] rows[k]).kind != RowKind::Hunk,
        },
    decreases i,
{
    if i > 0 && rows[i - 1].kind != RowKind::Hunk {
        lemma_nearest_before(rows, i - 1);
    }
}

/// Going to a file puts the cursor on its header.
pub proof fn law_files_are_entered_at_their_header(app: App, idx: int)
    requires
        app.doc.wf(),
    ensures
        0 <= idx < app.doc.starts@.len() ==> app.nav_at_file(idx).cursor == app.doc.starts@[idx]
            && app.nav_at_file(idx).selected == idx,
        !(0 <= idx < app.doc.starts@.len()) ==> app.nav_at_file(idx) == app.nav,
{
    if 0 <= idx < app.doc.starts@.len() {
        let starts = app.doc.starts@;
        assert(starts.len() == app.doc.starts.len());
        assert(starts[idx] < app.doc.rows@.len());
        let nav = Nav {
            cursor: starts[idx],
            scroll: held(starts[idx] as int, 0, app.bound() as int) as usize,
            ..app.nav
        };
        law_moving_goes_row_for_row(app.doc, app.body(), nav, 0);
        let m = app.nav_at_file(idx);
        assert(m == app.moved(nav, 0));
        if m.selected < idx {
            assert(starts[m.selected + 1] <= starts[idx]) by {
                if m.selected + 1 < idx {
                    assert(starts[m.selected + 1] < starts[idx]);
                }
            }
        }
        if m.selected > idx {
            assert(starts[idx] < starts[m.selected as int]);
        }
    }
}

/// The file next to the one under the cursor is the one behind it or before it,
/// and the last or the first has none beyond.
pub proof fn law_files_follow_one_another(app: App, i: int)
    requires
        app.doc.wf(),
        0 <= i < app.doc.starts@.len(),
        app.doc.starts@[i] <= app.nav.cursor,
        i + 1 < app.doc.starts@.len() ==> app.nav.cursor < app.doc.starts@[i + 1],
        app.doc.rows@.len() > 0,
    ensures
        app.file_off(0) == i,
        i + 1 < app.doc.starts@.len() ==> app.file_off(1) == i + 1,
        i + 1 == app.doc.starts@.len() ==> app.file_off(1) == i,
        i > 0 ==> app.file_off(-1) == i - 1,
        i == 0 ==> app.file_off(-1) == 0,
{
    let starts = app.doc.starts@;
    law_owner(starts, app.nav.cursor as nat);
    let o = owner(starts, app.nav.cursor as nat) as int;
    if o > i {
        assert(starts[i + 1] <= starts[o]) by {
            if i + 1 < o {
                assert(starts[i + 1] < starts[o]);
            }
        }
    }
    if o < i {
        assert(app.nav.cursor < starts[i]);
    }
}

/// Line feeds add up: a text has those of its parts, and a line feed is one.
pub proof fn law_line_feeds_add_up(a: Seq<char>, b: Seq<char>, c: char)
    ensures
        feeds(a + b) == feeds(a) + feeds(b),
        feeds(seq![c]) == if c == '\n' {
            1nat
        } else {
            0nat
        },
        feeds(Seq::<char>::empty()) == 0,
    decreases b.len(),
{
    reveal_with_fuel(feeds, 2);
    let one = seq![c];
    assert(one.drop_last() == Seq::<char>::empty());
    assert(one.last() == c);
    if b.len() == 0 {
        assert(a + b == a);
    } else {
        law_line_feeds_add_up(a, b.drop_last(), c);
        assert((a + b).drop_last() == a + b.drop_last());
        assert((a + b).last() == b.last());
    }
}

/// The note about copied lines gives their number, and speaks of one line in
/// the singular.
pub proof fn law_copied_lines_are_counted(n: nat)
    ensures
        copied_note(1) == "copied "@ + decimal(1) + " line"@,
        n != 1 ==> copied_note(n) == "copied "@ + decimal(n) + " lines"@,
{
    reveal(copied_note);
    reveal_strlit("");
    reveal_strlit("s");
    reveal_strlit(" line");
    reveal_strlit(" lines");
    assert(""@ == Seq::<char>::empty());
    assert("copied "@ + decimal(1) + " line"@ + ""@ == "copied "@ + decimal(1) + " line"@);
    assert(" line"@ + "s"@ == " lines"@);
    assert("copied "@ + decimal(n) + " line"@ + "s"@ == "copied "@ + decimal(n) + (" line"@
        + "s"@));
}

/// A selection of visual mode runs from its anchor to the cursor and stays when
/// the cursor moves; one of the mouse goes.
pub proof fn law_selections_follow_or_go(ui: Ui, cursor: usize)
    ensures
        ui.visual is None ==> dropped(ui).sel is None && following(ui, cursor) == ui,
        ui.visual is Some ==> dropped(ui).sel == ui.sel && following(ui, cursor).sel == Some(
            Sel::whole_lines(ui.visual->0, cursor),
        ),
        following(ui, cursor).visual == ui.visual,
        dropped(ui).visual == ui.visual,
{
    reveal(dropped);
    reveal(following);
}

/// What is copied is the selection where there is one, else the whole line under
/// the cursor.
pub proof fn law_copying_takes_the_selection_or_the_line(app: App)
    ensures
        app.ui.sel matches Some(sel) ==> app.yanked() == selected_text(app.doc.rows@, sel),
        app.ui.sel is None && app.nav.cursor < app.doc.rows@.len() ==> app.yanked() == slice_text(
            cell_views(app.doc.rows@[app.nav.cursor as int].content@),
            0,
            app.doc.rows@[app.nav.cursor as int].content@.len(),
        ),
        app.ui.sel is None && app.nav.cursor >= app.doc.rows@.len() ==> app.yanked().len() == 0,
{
    if app.ui.sel is None && app.nav.cursor < app.doc.rows@.len() {
        let cells = app.doc.rows@[app.nav.cursor as int].content;
        assert(cells@.len() == cells.len());
    }
}

/// Hunk headers are counted one by one: one more row counts where it is one.
pub proof fn law_hunk_headers_are_counted(rows: Seq<Row>, lo: int, hi: int)
    requires
        0 <= lo <= hi < rows.len(),
    ensures
        hunk_count(rows, lo, lo) == 0,
        rows[hi].kind == RowKind::Hunk ==> hunk_count(rows, lo, hi + 1) == hunk_count(rows, lo, hi)
            + 1,
        rows[hi].kind != RowKind::Hunk ==> hunk_count(rows, lo, hi + 1) == hunk_count(rows, lo, hi),
{
}

} // verus!
