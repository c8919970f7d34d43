//! What is painted over a finished frame: the matches of a search, and the
//! selection.

use vstd::prelude::*;

#[allow(unused_imports)]
use crate::app::less;
use crate::app::App;
use crate::layout::low16;
use crate::paint::{Canvas, Op};
#[allow(unused_imports)]
use crate::paint::OpView;
use crate::rows::RowKind;
#[allow(unused_imports)]
use crate::scroll::law_pinned_rows_are_above;
#[allow(unused_imports)]
use crate::select::in_pane;
use crate::select::{row_in_pane, Pane, Sel};

verus! {

/// The first place of `row` among the first `n` pinned rows.
pub open spec fn pinned_place(p: Seq<usize>, row: usize, n: int) -> Option<int>
    decreases n,
{
    if n <= 0 {
        None
    } else {
        match pinned_place(p, row, n - 1) {
            Some(i) => Some(i),
            None => if p[n - 1] == row {
                Some(n - 1)
            } else {
                None
            },
        }
    }
}

/// The first place of a row among the pinned ones.
fn place_of(p: &[usize], row: usize) -> (r: Option<usize>)
    ensures
        match r {
            Some(i) => pinned_place(p@, row, p@.len() as int) == Some(i as int),
            None => pinned_place(p@, row, p@.len() as int) is None,
        },
{
    let mut found: Option<usize> = None;
    let mut i: usize = 0;
    while i < p.len()
        invariant
            i <= p.len(),
            match found {
                Some(k) => pinned_place(p@, row, i as int) == Some(k as int),
                None => pinned_place(p@, row, i as int) is None,
            },
        decreases p.len() - i,
    {
        if found.is_none() && p[i] == row {
            found = Some(i);
        }
        i += 1;
    }
    found
}

/// The column of the screen of a content column, in content that begins at
/// `base`, has `len` columns, is scrolled by `skip`, and ends at `right`.
pub open spec fn screen_col(base: nat, col: nat, len: nat, skip: nat, right: nat) -> nat {
    let c = if col < len {
        col
    } else {
        len
    };
    let x = base + less(c, skip);
    if x < right {
        x
    } else {
        right
    }
}

/// The column of the screen of a content column.
fn to_screen(base: usize, col: u16, len: u16, skip: u16, right: u16) -> (r: usize)
    requires
        base <= 0x1ffff,
    ensures
        r == screen_col(base as nat, col as nat, len as nat, skip as nat, right as nat),
{
    let c = if col < len {
        col
    } else {
        len
    };
    let x = base + c.saturating_sub(skip) as usize;
    if x < right as usize {
        x
    } else {
        right as usize
    }
}

impl App {
    /// The row of the body where a row of the document shows: pinned, or in the
    /// scrolled content.
    pub open spec fn row_y(&self, row: usize) -> Option<nat> {
        let p = self.pinned_at(self.nav.scroll as nat);
        match pinned_place(p, row, p.len() as int) {
            Some(i) => Some(i as nat),
            None => if self.nav.scroll <= row < self.nav.scroll + self.viewport_at(
                self.nav.scroll as nat,
            ) {
                Some((p.len() + row - self.nav.scroll) as nat)
            } else {
                None
            },
        }
    }

    /// The column where the diff body ends.
    pub open spec fn body_right(&self) -> nat {
        if self.on_left() {
            self.screen.width as nat
        } else {
            less(self.screen.width as nat, self.sidebar_cols())
        }
    }

    /// The column where the content of a pane ends: the left one stops at the
    /// divider.
    pub open spec fn pane_right(&self, pane: Option<Pane>) -> nat {
        if pane == Some(Pane::Left) && self.split_col() < self.body_right() {
            self.split_col()
        } else {
            self.body_right()
        }
    }

    /// The columns of the screen that show the content of a row from one column
    /// up to another.
    pub open spec fn cols_of(&self, row: usize, pane: Option<Pane>, from: nat, to: nat) -> (
        nat,
        nat,
    ) {
        let r = self.doc.rows@[row as int];
        let (origin, start) = self.pane_place(r.kind, pane);
        let len = (r.content@.len() % 0x10000) as nat;
        let skip = (self.nav.hscroll % 0x10000) as nat;
        (
            screen_col(origin + start, from, len, skip, self.pane_right(pane)),
            screen_col(origin + start, to, len, skip, self.pane_right(pane)),
        )
    }

    /// Reverses what of a row is selected.
    #[verifier::opaque]
    pub open spec fn selected_ops(&self, sel: Sel, row: usize, last: usize) -> Seq<OpView> {
        let (sr, sc, er, ec) = sel.extent();
        let r = self.doc.rows@[row as int];
        let from = if row == sr {
            (sc % 0x10000) as nat
        } else {
            0
        };
        let to = if row == last {
            (ec % 0x10000) as nat
        } else {
            (r.content@.len() % 0x10000) as nat
        };
        let (x0, x1) = self.cols_of(row, sel.pane, from, to);
        match self.row_y(row) {
            Some(y) => if in_pane(r.kind, sel.pane) && x0 < x1 {
                seq![OpView::Reverse { y, x0, x1 }]
            } else {
                seq![]
            },
            None => seq![],
        }
    }

    /// Reverses what is selected, from row `row` up to `last`.
    pub open spec fn selection_ops(&self, sel: Sel, row: int, last: usize) -> Seq<OpView>
        decreases row,
    {
        let sr = sel.extent().0;
        if row <= sr {
            seq![]
        } else {
            self.selection_ops(sel, row - 1, last) + self.selected_ops(
                sel,
                (row - 1) as usize,
                last,
            )
        }
    }

    /// Reverses the selected content of the visible rows.
    pub open spec fn sel_ops(&self, sel: Sel) -> Seq<OpView> {
        let n = self.doc.rows@.len();
        if n == 0 {
            seq![]
        } else {
            let er = sel.extent().2;
            let last = if er < n {
                er as int
            } else {
                n - 1
            };
            self.selection_ops(sel, last + 1, last as usize)
        }
    }

    /// Where a row of the document shows.
    fn find_row_y(&self, sticky: &[usize], vh: usize, row: usize) -> (r: Option<usize>)
        requires
            sticky@ == self.pinned_at(self.nav.scroll as nat),
            vh == self.viewport_at(self.nav.scroll as nat),
            sticky@.len() + vh <= usize::MAX,
        ensures
            match r {
                Some(y) => self.row_y(row) == Some(y as nat),
                None => self.row_y(row) is None,
            },
    {
        match place_of(sticky, row) {
            Some(i) => Some(i),
            None => {
                if row >= self.nav.scroll && row - self.nav.scroll < vh {
                    Some(sticky.len() + (row - self.nav.scroll))
                } else {
                    None
                }
            },
        }
    }

    /// The column where the content of a pane ends.
    fn right_of_pane(&self, pane: Option<Pane>) -> (r: u16)
        requires
            self.sidebar_fits(),
            pane == Some(Pane::Left) ==> self.split_fits(),
        ensures
            r == self.pane_right(pane),
    {
        // Clamp highlights to the diff body so they never spill into a sidebar;
        // in split view a left-pane highlight also stops at the divider.
        let body = if self.sidebar_left() {
            self.screen.width
        } else {
            self.screen.width - self.sidebar_w()
        };
        match pane {
            Some(Pane::Left) => {
                let div = self.split_div_x();
                if div < body {
                    div
                } else {
                    body
                }
            },
            _ => body,
        }
    }

    /// The columns of the screen that show content of a row.
    fn find_cols(&self, row: usize, pane: Option<Pane>, from: u16, to: u16) -> (r: (usize, usize))
        requires
            row < self.doc.rows@.len(),
            self.sidebar_fits(),
            pane is Some ==> self.split_fits(),
        ensures
            r.0 == self.cols_of(row, pane, from as nat, to as nat).0,
            r.1 == self.cols_of(row, pane, from as nat, to as nat).1,
    {
        let (origin, start) = self.pane_geom(self.doc.rows[row].kind, pane);
        let base = origin as usize + start as usize;
        let len = low16(self.doc.rows[row].content.len());
        let skip = low16(self.nav.hscroll);
        let right = self.right_of_pane(pane);
        (to_screen(base, from, len, skip, right), to_screen(base, to, len, skip, right))
    }

    /// Reverse-video the selected content cells of the visible rows in the
    /// freshly drawn frame.
    pub fn paint_selection(&self, sel: Sel) -> (r: Canvas)
        requires
            self.sidebar_fits(),
            sel.pane is Some ==> self.split_fits(),
        ensures
            r@ == self.sel_ops(sel),
    {
        let mut out = Canvas::new();
        let n = self.doc.rows.len();
        if n == 0 {
            return out;
        }
        let sticky = self.sticky_rows();
        let vh = self.viewport_rows();
        proof {
            law_pinned_rows_are_above(
                self.doc.kinds(),
                self.doc.starts@,
                self.nav.scroll as nat,
                self.body(),
            );
        }
        let (sr, sc, er, ec) = sel.ordered();
        let last = if er < n {
            er
        } else {
            n - 1
        };
        let mut row = sr;
        while row <= last
            invariant
                sr <= row,
                row <= last + 1 || row == sr,
                last < n == self.doc.rows@.len(),
                last == (if er < n {
                    er as int
                } else {
                    n - 1
                }),
                (sr, sc, er, ec) == sel.extent(),
                self.sidebar_fits(),
                sel.pane is Some ==> self.split_fits(),
                sticky@ == self.pinned_at(self.nav.scroll as nat),
                vh == self.viewport_at(self.nav.scroll as nat),
                sticky@.len() + vh <= usize::MAX,
                out@ == self.selection_ops(sel, row as int, last),
            decreases last + 1 - row,
        {
            let ghost before = out@;
            proof {
                reveal(App::selected_ops);
            }
            if let Some(y) = self.find_row_y(&sticky, vh, row) {
                if row_in_pane(self.doc.rows[row].kind, sel.pane) {
                    let from = if row == sr {
                        low16(sc)
                    } else {
                        0
                    };
                    let to = if row == last {
                        low16(ec)
                    } else {
                        low16(self.doc.rows[row].content.len())
                    };
                    let (x0, x1) = self.find_cols(row, sel.pane, from, to);
                    if x0 < x1 {
                        out.push(Op::Reverse { y, x0, x1 });
                    }
                }
            }
            assert(out@ =~= before + self.selected_ops(sel, row, last));
            row += 1;
        }
        out
    }

    /// The panes that show a match in a row of a kind: in split view those that
    /// the row is in, but for hunk headers and notes.
    pub open spec fn match_panes(&self, kind: RowKind) -> Seq<Option<Pane>> {
        if !self.ui.split || kind == RowKind::Hunk || kind == RowKind::Note {
            seq![None]
        } else if kind == RowKind::Add {
            seq![Some(Pane::Right)]
        } else if kind == RowKind::Remove {
            seq![Some(Pane::Left)]
        } else {
            seq![Some(Pane::Left), Some(Pane::Right)]
        }
    }

    /// Highlights match `i` in a pane.
    pub open spec fn pane_match_ops(&self, i: int, y: nat, pane: Option<Pane>) -> Seq<OpView> {
        let (row, from, to) = self.search.matches@[i];
        let (x0, x1) = self.cols_of(
            row,
            pane,
            (from % 0x10000) as nat,
            (to % 0x10000) as nat,
        );
        let style = if self.search.current == Some(i as usize) {
            self.theme.search_current
        } else {
            self.theme.search_match
        };
        if x0 < x1 {
            seq![OpView::Restyle { y, x0, x1, style }]
        } else {
            seq![]
        }
    }

    /// Highlights match `i` where its row shows.
    #[verifier::opaque]
    pub open spec fn match_ops(&self, i: int) -> Seq<OpView> {
        let row = self.search.matches@[i].0;
        if row < self.doc.rows@.len() {
            match self.row_y(row) {
                Some(y) => {
                    let panes = self.match_panes(self.doc.rows@[row as int].kind);
                    if panes.len() == 1 {
                        self.pane_match_ops(i, y, panes[0])
                    } else {
                        self.pane_match_ops(i, y, panes[0]) + self.pane_match_ops(
                            i,
                            y,
                            panes[1],
                        )
                    }
                },
                None => seq![],
            }
        } else {
            seq![]
        }
    }

    /// Highlights the first `n` matches.
    pub open spec fn matches_ops(&self, n: int) -> Seq<OpView>
        decreases n,
    {
        if n <= 0 {
            seq![]
        } else {
            self.matches_ops(n - 1) + self.match_ops(n - 1)
        }
    }

    /// Highlights the visible matches of a search.
    pub open spec fn search_ops(&self) -> Seq<OpView> {
        if self.search.query@.len() == 0 {
            seq![]
        } else {
            self.matches_ops(self.search.matches@.len() as int)
        }
    }

    /// Highlights a match in a pane.
    fn paint_in_pane(&self, i: usize, y: usize, pane: Option<Pane>) -> (r: Canvas)
        requires
            i < self.search.matches@.len(),
            self.search.matches@[i as int].0 < self.doc.rows@.len(),
            self.sidebar_fits(),
            pane is Some ==> self.split_fits(),
        ensures
            r@ == self.pane_match_ops(i as int, y as nat, pane),
    {
        let (row, from, to) = self.search.matches[i];
        let (x0, x1) = self.find_cols(row, pane, low16(from), low16(to));
        let style = if self.search.current == Some(i) {
            self.theme.search_current
        } else {
            self.theme.search_match
        };
        let mut out = Canvas::new();
        if x0 < x1 {
            out.push(Op::Restyle { y, x0, x1, style });
        }
        assert(out@ =~= self.pane_match_ops(i as int, y as nat, pane));
        out
    }

    /// Highlights a match in each pane that its row shows.
    fn paint_match(&self, i: usize, y: usize) -> (r: Canvas)
        requires
            i < self.search.matches@.len(),
            self.search.matches@[i as int].0 < self.doc.rows@.len(),
            self.row_y(self.search.matches@[i as int].0) == Some(y as nat),
            self.fits(),
        ensures
            r@ == self.match_ops(i as int),
    {
        proof {
            reveal(App::match_ops);
        }
        let kind = self.doc.rows[self.search.matches[i].0].kind;
        if !self.ui.split || kind == RowKind::Hunk || kind == RowKind::Note {
            return self.paint_in_pane(i, y, None);
        }
        match kind {
            RowKind::Add => self.paint_in_pane(i, y, Some(Pane::Right)),
            RowKind::Remove => self.paint_in_pane(i, y, Some(Pane::Left)),
            _ => {
                let mut out = self.paint_in_pane(i, y, Some(Pane::Left));
                out.extend(self.paint_in_pane(i, y, Some(Pane::Right)));
                out
            },
        }
    }

    /// Overlay search-match highlights on the finished frame: every visible hit
    /// gets `search_match`, the current hit `search_current`. In split view a
    /// hit is painted in each pane its row shows (both sides for context, one
    /// side for add/remove), clamped to that pane like the selection.
    pub fn paint_matches(&self) -> (r: Canvas)
        requires
            self.fits(),
        ensures
            r@ == self.search_ops(),
    {
        let mut out = Canvas::new();
        if self.search.query.as_str().unicode_len() == 0 {
            return out;
        }
        let n = self.doc.rows.len();
        let sticky = self.sticky_rows();
        let vh = self.viewport_rows();
        proof {
            law_pinned_rows_are_above(
                self.doc.kinds(),
                self.doc.starts@,
                self.nav.scroll as nat,
                self.body(),
            );
        }
        let mut i: usize = 0;
        while i < self.search.matches.len()
            invariant
                i <= self.search.matches.len(),
                n == self.doc.rows@.len(),
                self.fits(),
                sticky@ == self.pinned_at(self.nav.scroll as nat),
                vh == self.viewport_at(self.nav.scroll as nat),
                sticky@.len() + vh <= usize::MAX,
                out@ == self.matches_ops(i as int),
            decreases self.search.matches.len() - i,
        {
            let ghost before = out@;
            let row = self.search.matches[i].0;
            let place = if row < n {
                self.find_row_y(&sticky, vh, row)
            } else {
                None
            };
            match place {
                Some(y) => {
                    out.extend(self.paint_match(i, y));
                },
                None => {
                    proof {
                        reveal(App::match_ops);
                    }
                    assert(before + self.match_ops(i as int) =~= before);
                },
            }
            i += 1;
        }
        out
    }
}

/// A selection is reversed on each visible row that has content in its pane:
/// from where it begins on its first row, up to where it ends on its last one,
/// and the whole content of the rows between them.
pub proof fn law_selected_cells_are_reversed(app: App, sel: Sel, row: usize, last: usize)
    requires
        row < app.doc.rows@.len(),
        app.row_y(row) is Some,
        in_pane(app.doc.rows@[row as int].kind, sel.pane),
        app.doc.rows@[row as int].content@.len() <= 0xffff,
        sel.extent().1 <= 0xffff,
        sel.extent().3 <= 0xffff,
    ensures
        ({
            let (first, from, _, to) = sel.extent();
            let len = app.doc.rows@[row as int].content@.len();
            let (x0, x1) = app.cols_of(
                row,
                sel.pane,
                if row == first {
                    from as nat
                } else {
                    0
                },
                if row == last {
                    to as nat
                } else {
                    len
                },
            );
            &&& x0 < x1 ==> app.selected_ops(sel, row, last) == seq![
                OpView::Reverse { y: app.row_y(row)->0, x0, x1 },
            ]
            &&& x0 >= x1 ==> app.selected_ops(sel, row, last).len() == 0
        }),
{
    reveal(App::selected_ops);
}

/// Rows that do not show, and rows of the other pane, are not reversed.
pub proof fn law_other_rows_are_not_reversed(app: App, sel: Sel, row: usize, last: usize)
    requires
        app.row_y(row) is None || !in_pane(app.doc.rows@[row as int].kind, sel.pane),
    ensures
        app.selected_ops(sel, row, last).len() == 0,
{
    reveal(App::selected_ops);
}

/// A column of the content shows as far behind the start of the content as it is
/// columns on, less those that are scrolled out, up to the edge of the pane.
pub proof fn law_columns_shift_with_the_scroll(
    base: nat,
    col: nat,
    len: nat,
    skip: nat,
    right: nat,
)
    requires
        col <= len,
    ensures
        skip <= col && base + col - skip <= right ==> screen_col(base, col, len, skip, right) == base
            + col - skip,
        col < skip && base <= right ==> screen_col(base, col, len, skip, right) == base,
        screen_col(base, col, len, skip, right) <= right,
        screen_col(base, len, len, skip, right) == screen_col(base, len + 1, len, skip, right),
{
}

/// In split view a match shows in the panes that its row is in: an added line's
/// on the right, a removed line's on the left, any other line's in both; a match
/// in a hunk header or a note, and one in the unified view, shows once.
pub proof fn law_matches_show_in_their_panes(app: App)
    ensures
        !app.ui.split ==> forall|kind: RowKind| #[trigger]
            app.match_panes(kind) == seq![None::<Pane>],
        app.ui.split ==> app.match_panes(RowKind::Add) == seq![Some(Pane::Right)]
            && app.match_panes(RowKind::Remove) == seq![Some(Pane::Left)] && app.match_panes(
            RowKind::Context,
        ) == seq![Some(Pane::Left), Some(Pane::Right)] && app.match_panes(RowKind::Hunk) == seq![
            None::<Pane>,
        ] && app.match_panes(RowKind::Note) == seq![None::<Pane>],
{
}

/// The current match stands out: it has the style for it, and every other match
/// the style for matches.
pub proof fn law_current_match_stands_out(app: App, i: int, y: nat, pane: Option<Pane>, k: int)
    requires
        0 <= i < app.search.matches@.len(),
        0 <= k < app.pane_match_ops(i, y, pane).len(),
    ensures
        app.pane_match_ops(i, y, pane)[k] matches OpView::Restyle { y: at, style, .. } && at == y
            && (app.search.current == Some(i as usize) ==> style == app.theme.search_current) && (
        app.search.current != Some(i as usize) ==> style == app.theme.search_match),
{
}

proof fn lemma_matches_ops(app: App, n: int, i: int) -> (k: int)
    requires
        0 <= i < n,
    ensures
        ({
            let part = app.match_ops(i);
            let ops = app.matches_ops(n);
            0 <= k && k + part.len() <= ops.len() && ops.subrange(k, k + part.len()) == part
        }),
    decreases n,
{
    let part = app.match_ops(i);
    let rest = app.matches_ops(n - 1);
    let ops = app.matches_ops(n);
    if i == n - 1 {
        assert(ops.subrange(rest.len() as int, (rest.len() + part.len()) as int) == part);
        rest.len() as int
    } else {
        let k = lemma_matches_ops(app, n - 1, i);
        assert(ops.subrange(k, k + part.len()) == rest.subrange(k, k + part.len()));
        k
    }
}

/// While a query is set every match of it is highlighted; without one none is.
pub proof fn law_every_match_is_highlighted(app: App, i: int) -> (k: int)
    requires
        0 <= i < app.search.matches@.len(),
    ensures
        app.search.query@.len() > 0 ==> 0 <= k && k + app.match_ops(i).len()
            <= app.search_ops().len() && app.search_ops().subrange(k, k + app.match_ops(i).len())
            == app.match_ops(i),
        app.search.query@.len() == 0 ==> app.search_ops().len() == 0,
{
    lemma_matches_ops(app, app.search.matches@.len() as int, i)
}

} // verus!
