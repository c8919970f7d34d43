//! Text selections over the rows of the document.

use vstd::prelude::*;

use crate::cells::slice_cells;
#[allow(unused_imports)]
use crate::cells::{cell_views, slice_text, without_blanks};
#[allow(unused_imports)]
use crate::outside::cluster_text;
use crate::rows::{Row, RowKind};
#[allow(unused_imports)]
use crate::text::strings;

verus! {

/// Which split pane a selection lives in. Selection is confined to one pane at
/// a time since the two sides have independent reading orders.
#[derive(Debug, Clone, Copy, PartialEq, Eq, Structural)]
pub enum Pane {
    Left,
    Right,
}

/// A mouse text selection anchored to the content model (not the screen), so
/// it survives scrolling and can span more rows than fit on screen. `a_*` is
/// where the drag began, `c_*` follows the pointer. `col` is a **cell** index
/// into the row's content cells (span text only: no gutter, no +/- sign).
#[derive(Debug, Clone, Copy, PartialEq, Eq, Structural)]
pub struct Sel {
    pub a_row: usize,
    pub a_col: usize,
    pub c_row: usize,
    pub c_col: usize,
    pub dragging: bool,
    /// Which split pane the selection is confined to; `None` in unified view.
    pub pane: Option<Pane>,
}

impl Sel {
    /// Whether the anchor comes before the pointer, or where it is.
    pub open spec fn forward(self) -> bool {
        self.a_row < self.c_row || self.a_row == self.c_row && self.a_col <= self.c_col
    }

    /// (start_row, start_col, end_row, end_col) in reading order.
    pub open spec fn extent(self) -> (usize, usize, usize, usize) {
        if self.forward() {
            (self.a_row, self.a_col, self.c_row, self.c_col)
        } else {
            (self.c_row, self.c_col, self.a_row, self.a_col)
        }
    }

    /// A whole-line selection.
    pub open spec fn whole_lines(anchor: usize, cursor: usize) -> Sel {
        Sel {
            a_row: anchor,
            a_col: if anchor <= cursor {
                0
            } else {
                usize::MAX
            },
            c_row: cursor,
            c_col: if anchor <= cursor {
                usize::MAX
            } else {
                0
            },
            dragging: false,
            pane: None,
        }
    }

    /// (start_row, start_col, end_row, end_col) in reading order.
    pub fn ordered(&self) -> (r: (usize, usize, usize, usize))
        ensures
            r == self.extent(),
    {
        if self.a_row < self.c_row || self.a_row == self.c_row && self.a_col <= self.c_col {
            (self.a_row, self.a_col, self.c_row, self.c_col)
        } else {
            (self.c_row, self.c_col, self.a_row, self.a_col)
        }
    }

    /// Whether nothing is selected.
    pub fn is_empty(&self) -> (r: bool)
        ensures
            r == (self.a_row == self.c_row && self.a_col == self.c_col),
    {
        self.a_row == self.c_row && self.a_col == self.c_col
    }

    /// A whole-line selection from `anchor` to `cursor`. Columns run full-width
    /// in reading order so [`Sel::ordered`] covers both rows entirely, whichever
    /// direction the selection grew. `pane` is `None`: the cursor is a document
    /// row, which in split view names no side.
    pub fn lines(anchor: usize, cursor: usize) -> (r: Sel)
        ensures
            r == Sel::whole_lines(anchor, cursor),
    {
        let down = anchor <= cursor;
        Sel {
            a_row: anchor,
            a_col: if down {
                0
            } else {
                usize::MAX
            },
            c_row: cursor,
            c_col: if down {
                usize::MAX
            } else {
                0
            },
            dragging: false,
            pane: None,
        }
    }
}

/// A whole-line selection covers the rows between its ends and both ends
/// entirely, whichever comes first, and is never empty.
pub proof fn law_whole_lines_cover_both_ends(anchor: usize, cursor: usize)
    ensures
        Sel::whole_lines(anchor, cursor).extent() == (
            if anchor <= cursor {
                anchor
            } else {
                cursor
            },
            0usize,
            if anchor <= cursor {
                cursor
            } else {
                anchor
            },
            usize::MAX,
        ),
        Sel::whole_lines(anchor, cursor).a_col != Sel::whole_lines(anchor, cursor).c_col,
{
}

/// A selection reads the same from either end.
pub proof fn law_extent_is_symmetric(s: Sel)
    ensures
        s.extent() == (Sel {
            a_row: s.c_row,
            a_col: s.c_col,
            c_row: s.a_row,
            c_col: s.a_col,
            ..s
        }).extent(),
{
}

/// Whether a row of `kind` has content in a pane: the left one holds context
/// and removals, the right one context and additions, both hold headers.
pub open spec fn in_pane(kind: RowKind, pane: Option<Pane>) -> bool {
    match pane {
        None => true,
        Some(Pane::Left) => kind != RowKind::Add,
        Some(Pane::Right) => kind != RowKind::Remove,
    }
}

/// Whether a row of `kind` has content in the selection `pane`. The left
/// pane holds context + removals, the right holds context + additions;
/// headers belong to both. In unified view every row qualifies.
pub fn row_in_pane(kind: RowKind, pane: Option<Pane>) -> (r: bool)
    ensures
        r == in_pane(kind, pane),
{
    match pane {
        None => true,
        Some(Pane::Left) => kind != RowKind::Add,
        Some(Pane::Right) => kind != RowKind::Remove,
    }
}

/// The lines that the rows from `sr` up to `r` add to a selection that ends in
/// row `er`: whole ones but for its first and last row.
pub open spec fn selected_lines(
    rows: Seq<Row>,
    pane: Option<Pane>,
    sr: int,
    sc: usize,
    er: int,
    ec: usize,
    r: int,
) -> Seq<Seq<char>>
    decreases r - sr,
{
    if r <= sr {
        seq![]
    } else {
        let v = selected_lines(rows, pane, sr, sc, er, ec, r - 1);
        if in_pane(rows[r - 1].kind, pane) {
            v.push(
                slice_text(
                    cell_views(rows[r - 1].content@),
                    if r - 1 == sr {
                        sc as nat
                    } else {
                        0
                    },
                    if r - 1 == er {
                        ec as nat
                    } else {
                        usize::MAX as nat
                    },
                ),
            )
        } else {
            v
        }
    }
}

/// Lines put together with line feeds between them.
pub open spec fn joined_lines(ls: Seq<Seq<char>>) -> Seq<char>
    decreases ls.len(),
{
    if ls.len() == 0 {
        seq![]
    } else if ls.len() == 1 {
        ls[0]
    } else {
        joined_lines(ls.drop_last()).push('\n') + ls.last()
    }
}

/// The text of a selection.
pub open spec fn selected_text(rows: Seq<Row>, sel: Sel) -> Seq<char> {
    let (sr, sc, er, ec) = sel.extent();
    let last = if er < rows.len() {
        er as int
    } else {
        rows.len() - 1
    };
    joined_lines(selected_lines(rows, sel.pane, sr as int, sc, last, ec, last + 1))
}

/// Whether two documents show the same in a pane.
pub open spec fn same_in_pane(a: Seq<Row>, b: Seq<Row>, pane: Option<Pane>) -> bool {
    &&& a.len() == b.len()
    &&& forall|i: int|
        #![trigger a[i]]
        #![trigger b[i]]
        0 <= i < a.len() ==> in_pane(a[i].kind, pane) == in_pane(b[i].kind, pane) && (in_pane(
            a[i].kind,
            pane,
        ) ==> cell_views(a[i].content@) == cell_views(b[i].content@))
}

proof fn lemma_same_lines(
    a: Seq<Row>,
    b: Seq<Row>,
    pane: Option<Pane>,
    sr: int,
    sc: usize,
    er: int,
    ec: usize,
    r: int,
)
    requires
        same_in_pane(a, b, pane),
        0 <= sr,
        r <= a.len(),
    ensures
        selected_lines(a, pane, sr, sc, er, ec, r) == selected_lines(b, pane, sr, sc, er, ec, r),
    decreases r - sr,
{
    if r > sr {
        lemma_same_lines(a, b, pane, sr, sc, er, ec, r - 1);
        assert(in_pane(a[r - 1].kind, pane) == in_pane(b[r - 1].kind, pane));
    }
}

/// A selection in a pane is confined to it: its text does not depend on rows
/// that only the other pane shows.
pub proof fn law_selection_is_confined_to_its_pane(a: Seq<Row>, b: Seq<Row>, sel: Sel)
    requires
        same_in_pane(a, b, sel.pane),
    ensures
        selected_text(a, sel) == selected_text(b, sel),
{
    let (sr, sc, er, ec) = sel.extent();
    let last = if er < a.len() {
        er as int
    } else {
        a.len() - 1
    };
    lemma_same_lines(a, b, sel.pane, sr as int, sc, last, ec, last + 1);
}

/// Puts lines together with line feeds between them.
pub fn join_with_feeds(ls: &[String]) -> (r: String)
    ensures
        r@ == joined_lines(strings(ls@)),
{
    let ghost all = strings(ls@);
    let mut out = String::new();
    let mut i: usize = 0;
    assert(out@ =~= seq![]);
    while i < ls.len()
        invariant
            i <= ls.len(),
            all == strings(ls@),
            out@ == joined_lines(all.take(i as int)),
        decreases ls.len() - i,
    {
        let ghost before = out@;
        assert(all.take(i + 1).drop_last() =~= all.take(i as int));
        if i > 0 {
            out.push('\n');
        }
        out.append(&ls[i]);
        assert(out@ =~= joined_lines(all.take(i + 1)));
        i += 1;
    }
    assert(all.take(all.len() as int) =~= all);
    out
}

/// The selected text. In split view only the pane's own rows contribute, so
/// the copied text is one clean side (old or new), not an interleave.
pub fn selection_text(rows: &[Row], sel: Sel) -> (r: String)
    ensures
        r@ == selected_text(rows@, sel),
{
    let n = rows.len();
    let (sr, sc, er, ec) = sel.ordered();
    let mut lines: Vec<String> = Vec::new();
    assert(strings(lines@) =~= seq![]);
    if n == 0 || sr >= n {
        proof {
            let last: int = if er < n {
                er as int
            } else {
                n - 1
            };
            assert(selected_lines(rows@, sel.pane, sr as int, sc, last, ec, last + 1) =~= seq![]);
        }
        return join_with_feeds(&lines);
    }
    let last = if er < n {
        er
    } else {
        n - 1
    };
    let mut r: usize = sr;
    while r <= last
        invariant
            n == rows.len(),
            last < n,
            sr <= r <= n,
            r <= last + 1,
            strings(lines@) == selected_lines(
                rows@,
                sel.pane,
                sr as int,
                sc,
                last as int,
                ec,
                r as int,
            ),
        decreases last + 1 - r,
    {
        let ghost before = strings(lines@);
        if row_in_pane(rows[r].kind, sel.pane) {
            let start = if r == sr {
                sc
            } else {
                0
            };
            let end = if r == last {
                ec
            } else {
                usize::MAX
            };
            lines.push(slice_cells(&rows[r].content, start, end));
            assert(strings(lines@) =~= before.push(lines@.last()@));
        }
        r += 1;
    }
    join_with_feeds(&lines)
}

/// Which rows a pane holds: the left one context and removals, the right one
/// context and additions, both the headers and notes, and one column all rows.
pub proof fn law_panes_hold_their_side(kind: RowKind)
    ensures
        in_pane(kind, None),
        in_pane(kind, Some(Pane::Left)) <==> kind != RowKind::Add,
        in_pane(kind, Some(Pane::Right)) <==> kind != RowKind::Remove,
        in_pane(kind, Some(Pane::Left)) || in_pane(kind, Some(Pane::Right)),
{
}

/// How many rows from `sr` up to `r` a pane holds.
pub open spec fn held_rows(rows: Seq<Row>, pane: Option<Pane>, sr: int, r: int) -> nat
    decreases r - sr,
{
    if r <= sr {
        0
    } else {
        held_rows(rows, pane, sr, r - 1) + if in_pane(rows[r - 1].kind, pane) {
            1nat
        } else {
            0nat
        }
    }
}

/// Each row of a selection that its pane holds adds one line, in order: a row
/// between the first and the last its whole text, the first row its text from
/// the start column on, the last one its text up to the end column, and a
/// selection within one row what is between; trailing blanks are dropped.
pub proof fn law_selected_rows_add_their_lines(
    rows: Seq<Row>,
    pane: Option<Pane>,
    sr: int,
    sc: usize,
    er: int,
    ec: usize,
    row: int,
)
    requires
        0 <= sr <= row <= er < rows.len(),
        in_pane(rows[row].kind, pane),
    ensures
        ({
            let ls = selected_lines(rows, pane, sr, sc, er, ec, er + 1);
            let cells = cell_views(rows[row].content@);
            let n = cells.len() as int;
            let k = held_rows(rows, pane, sr, row) as int;
            let a = if sc < n {
                sc as int
            } else {
                n
            };
            let e = if ec < n {
                ec as int
            } else {
                n
            };
            &&& ls.len() == held_rows(rows, pane, sr, er + 1)
            &&& 0 <= k < ls.len()
            &&& sr < row < er ==> ls[k] == without_blanks(cluster_text(cells))
            &&& row == sr && sr < er ==> ls[k] == without_blanks(cluster_text(cells.skip(a)))
            &&& row == er && sr < er ==> ls[k] == without_blanks(cluster_text(cells.take(e)))
            &&& sr == er && a <= e ==> ls[k] == without_blanks(cluster_text(cells.subrange(a, e)))
        }),
{
    lemma_line_of_row(rows, pane, sr, sc, er, ec, row, er + 1);
    let cells = cell_views(rows[row].content@);
    let n = cells.len() as int;
    assert(n == rows[row].content.len());
    assert(cells.subrange(0, n) =~= cells);
    let a = if sc < n {
        sc as int
    } else {
        n
    };
    let e = if ec < n {
        ec as int
    } else {
        n
    };
    assert(cells.subrange(a, n) =~= cells.skip(a));
    assert(cells.subrange(0, e) =~= cells.take(e));
}

proof fn lemma_line_of_row(
    rows: Seq<Row>,
    pane: Option<Pane>,
    sr: int,
    sc: usize,
    er: int,
    ec: usize,
    row: int,
    r: int,
)
    requires
        0 <= sr <= row < r <= er + 1,
        in_pane(rows[row].kind, pane),
    ensures
        ({
            let ls = selected_lines(rows, pane, sr, sc, er, ec, r);
            let k = held_rows(rows, pane, sr, row) as int;
            &&& ls.len() == held_rows(rows, pane, sr, r)
            &&& 0 <= k < ls.len()
            &&& ls[k] == slice_text(
                cell_views(rows[row].content@),
                if row == sr {
                    sc as nat
                } else {
                    0
                },
                if row == er {
                    ec as nat
                } else {
                    usize::MAX as nat
                },
            )
        }),
    decreases r,
{
    lemma_lines_count(rows, pane, sr, sc, er, ec, r - 1);
    if row < r - 1 {
        lemma_line_of_row(rows, pane, sr, sc, er, ec, row, r - 1);
    }
}

proof fn lemma_lines_count(
    rows: Seq<Row>,
    pane: Option<Pane>,
    sr: int,
    sc: usize,
    er: int,
    ec: usize,
    r: int,
)
    ensures
        selected_lines(rows, pane, sr, sc, er, ec, r).len() == held_rows(rows, pane, sr, r),
    decreases r - sr,
{
    if r > sr {
        lemma_lines_count(rows, pane, sr, sc, er, ec, r - 1);
    }
}

/// Lines are put together with one line feed between any two neighbours, and
/// with nothing before the first or behind the last.
pub proof fn law_lines_join_with_feeds(a: Seq<Seq<char>>, b: Seq<Seq<char>>, l: Seq<char>)
    ensures
        joined_lines(seq![l]) == l,
        joined_lines(Seq::empty()) == Seq::<char>::empty(),
        a.len() > 0 && b.len() > 0 ==> joined_lines(a + b) == joined_lines(a) + seq!['\n']
            + joined_lines(b),
    decreases b.len(),
{
    if a.len() > 0 && b.len() > 0 {
        assert((a + b).drop_last() =~= a + b.drop_last());
        if b.len() == 1 {
            assert(a + b.drop_last() =~= a);
            assert(joined_lines(a + b) =~= joined_lines(a) + seq!['\n'] + joined_lines(b));
        } else {
            law_lines_join_with_feeds(a, b.drop_last(), l);
            assert(joined_lines(a + b) =~= joined_lines(a) + seq!['\n'] + joined_lines(b));
        }
    }
}

/// The text of a selection is that of its lines from its first row to its last,
/// or to the end of the document.
pub proof fn law_selection_reads_from_end_to_end(rows: Seq<Row>, sel: Sel)
    requires
        rows.len() > 0,
    ensures
        ({
            let down = sel.a_row < sel.c_row || sel.a_row == sel.c_row && sel.a_col <= sel.c_col;
            let first = if down {
                (sel.a_row, sel.a_col)
            } else {
                (sel.c_row, sel.c_col)
            };
            let last = if down {
                (sel.c_row, sel.c_col)
            } else {
                (sel.a_row, sel.a_col)
            };
            let er = if last.0 < rows.len() {
                last.0 as int
            } else {
                rows.len() - 1
            };
            &&& first.0 <= last.0
            &&& first.0 == last.0 ==> first.1 <= last.1
            &&& selected_text(rows, sel) == joined_lines(
                selected_lines(rows, sel.pane, first.0 as int, first.1, er, last.1, er + 1),
            )
        }),
{
}

/// Where there are no rows nothing is selected.
pub proof fn law_nothing_to_select(sel: Sel)
    ensures
        selected_text(Seq::<Row>::empty(), sel) == Seq::<char>::empty(),
{
}

} // verus!
