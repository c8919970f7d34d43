//! What holds of every frame, and of the pointer over it.

use vstd::prelude::*;

#[allow(unused_imports)]
use crate::app::less;
use crate::app::{App, Gut};
#[allow(unused_imports)]
use crate::cells::{columns, law_fit_is_maximal, law_slice_fits, sliced};
use crate::draw::Pen;
#[allow(unused_imports)]
use crate::help::{help_columns, help_of, help_rows, lemma_help_is_not_empty};
#[allow(unused_imports)]
use crate::outside::clusters;
#[allow(unused_imports)]
use crate::overlay::pinned_place;
use crate::rows::Row;
#[allow(unused_imports)]
use crate::scroll::law_pinned_rows_are_above;
use crate::select::Pane;

verus! {

/// No span of a line is drawn past the end of its box: it begins before it, and
/// what shows of it takes no more columns than are left.
pub proof fn law_content_stays_in_its_box(pen: Pen, row: Row, i: int, x0: nat, end: nat)
    requires
        0 <= i < row.spans@.len(),
        pen.span_shown(row.spans@, i, x0, end).len() > 0,
    ensures
        x0 <= pen.span_x(row.spans@, i, x0) < end,
        pen.span_x(row.spans@, i, x0) + columns(
            sliced(
                clusters(row.spans@[i].text@, pen.measure),
                less(pen.skip as nat, crate::draw::span_start(row.spans@, i, pen.measure)),
                (end - pen.span_x(row.spans@, i, x0)) as nat,
            ),
        ) <= end,
{
    law_slice_fits(
        clusters(row.spans@[i].text@, pen.measure),
        less(pen.skip as nat, crate::draw::span_start(row.spans@, i, pen.measure)),
        (end - pen.span_x(row.spans@, i, x0)) as nat,
    );
}

/// The symbol of a hunk header stays in the gutter, and a column stays blank
/// between it and the text.
pub proof fn law_symbol_stays_in_the_gutter(pen: Pen, x: nat, gut: Gut)
    requires
        pen.gutter(gut) > 0,
    ensures
        x <= pen.mark_x(x, gut),
        pen.mark_x(x, gut) + columns(pen.mark(gut)) + 1 == x + pen.gutter(gut),
{
    law_fit_is_maximal(clusters(pen.symbol@, pen.measure), (pen.gutter(gut) - 1) as nat);
}

/// A highlight never spills out of the diff body, into a sidebar or off the
/// screen, nor, in the left pane, over the divider.
pub proof fn law_highlights_stay_in_their_pane(
    app: App,
    row: usize,
    pane: Option<Pane>,
    from: nat,
    to: nat,
)
    ensures
        app.cols_of(row, pane, from, to).0 <= app.pane_right(pane),
        app.cols_of(row, pane, from, to).1 <= app.pane_right(pane),
        app.pane_right(pane) <= app.body_right() <= app.screen.width,
        pane == Some(Pane::Left) ==> app.pane_right(pane) <= app.split_col(),
{
}

proof fn lemma_pinned_place(p: Seq<usize>, row: usize, n: int)
    requires
        0 <= n <= p.len(),
    ensures
        pinned_place(p, row, n) is None ==> forall|k: int| 0 <= k < n ==> (#[trigger] p[k]) != row,
        pinned_place(p, row, n) matches Some(i) ==> 0 <= i < n && p[i] == row && forall|k: int|
            0 <= k < i ==> (#[trigger] p[k]) != row,
    decreases n,
{
    if n > 0 {
        lemma_pinned_place(p, row, n - 1);
    }
}

/// A row is highlighted where it is drawn: the row that shows at `y` has `y` as
/// its place.
pub proof fn law_rows_are_highlighted_where_they_are_drawn(app: App, y: nat)
    requires
        y < app.body(),
        app.shown_at(y) < app.doc.rows@.len(),
    ensures
        app.row_y(app.shown_at(y) as usize) == Some(y),
{
    let n = app.doc.rows.len();
    let p = app.pinned_at(app.nav.scroll as nat);
    law_pinned_rows_are_above(
        app.doc.kinds(),
        app.doc.starts@,
        app.nav.scroll as nat,
        app.body(),
    );
    lemma_pinned_place(p, app.shown_at(y) as usize, p.len() as int);
}

/// A click hits the row that is drawn under the pointer.
pub proof fn law_pointer_hits_the_row_drawn_there(app: App, y: nat)
    requires
        app.shown_at(y) < app.doc.rows@.len(),
    ensures
        app.row_at(y) == app.shown_at(y),
{
}

/// A click reads the column of the content that is drawn under the pointer:
/// mapping a column of a visible row to the screen and back leads to it again.
pub proof fn law_pointer_reads_the_column_drawn_there(
    app: App,
    y: nat,
    pane: Option<Pane>,
    col: nat,
)
    requires
        app.shown_at(y) < app.doc.rows@.len(),
        app.nav.hscroll <= col < app.doc.rows@[app.shown_at(y) as int].content@.len() <= 0xffff,
        app.cols_of(app.shown_at(y) as usize, pane, col, col).0 < app.pane_right(pane),
    ensures
        app.content_at(app.cols_of(app.shown_at(y) as usize, pane, col, col).0, y, pane) == (
            app.shown_at(y) as usize,
            col as usize,
        ),
{
    let n = app.doc.rows.len();
    law_pointer_hits_the_row_drawn_there(app, y);
}

/// The help grid has room for all its entries, unless it takes all of the
/// screen: every one of them is drawn above the bottom edge.
pub proof fn law_help_grid_shows_every_entry(app: App, i: int)
    requires
        app.ui.help_open,
        app.body() > 0,
        0 <= i < help_of(app.source.piped).len(),
    ensures
        app.body() + 1 + i % (help_rows(
            app.source.piped,
            app.screen.width as nat,
            app.screen.measure,
        ) as int) < app.screen.height,
{
    lemma_help_is_not_empty(app.source.piped);
    let n = help_of(app.source.piped).len() as int;
    let c = help_columns(app.source.piped, app.screen.width as nat, app.screen.measure) as int;
    reveal(help_columns);
    reveal(help_rows);
    assert(1 <= c);
    assert((n + c - 1) / c >= 1) by (nonlinear_arith)
        requires
            1 <= c,
            1 <= n,
    ;
}

} // verus!
