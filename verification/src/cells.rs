//! Text as display columns: fitting it into a budget, laying it out in cells,
//! and finding matches in cells.

use regex::Regex;
use vstd::prelude::*;

use crate::outside::{find_matches, grapheme_cells, grapheme_width, Measure, WidthMode};
#[allow(unused_imports)]
use crate::outside::{
    cluster_columns, cluster_text, cluster_views, clusters, matches_in, ClusterView,
};
use crate::text::{char_bytes, chars_of, string_of};
#[allow(unused_imports)]
use crate::text::byte_len;

verus! {

/// The columns of a list of clusters.
pub open spec fn columns(cs: Seq<ClusterView>) -> nat
    decreases cs.len(),
{
    if cs.len() == 0 {
        0
    } else {
        columns(cs.drop_last()) + cs.last().1 as nat
    }
}

/// The end of the clusters from `i` on that fit into `width` columns.
pub open spec fn fit_end(cs: Seq<ClusterView>, i: int, width: int) -> int
    decreases cs.len() - i,
{
    if 0 <= i < cs.len() && cs[i].1 <= width {
        fit_end(cs, i + 1, width - cs[i].1)
    } else {
        i
    }
}

/// The first cluster from `i` on that starts after `skip` columns.
pub open spec fn skip_end(cs: Seq<ClusterView>, i: int, skip: int) -> int
    decreases cs.len() - i,
{
    if 0 <= i < cs.len() && skip > 0 {
        skip_end(cs, i + 1, skip - cs[i].1)
    } else {
        i
    }
}

/// The start of the clusters before `n` that fit into `budget` columns.
pub open spec fn tail_start(cs: Seq<ClusterView>, n: int, budget: int) -> int
    decreases n,
{
    if 0 < n <= cs.len() && cs[n - 1].1 <= budget {
        tail_start(cs, n - 1, budget - cs[n - 1].1)
    } else {
        n
    }
}

/// What fits of a list of clusters into `width` columns after `skip` columns.
pub open spec fn sliced(cs: Seq<ClusterView>, skip: nat, width: nat) -> Seq<ClusterView> {
    let s = skip_end(cs, 0, skip as int);
    cs.subrange(s, fit_end(cs, s, width as int))
}

/// What fits of a list of clusters into `width` columns.
pub open spec fn fitted(cs: Seq<ClusterView>, width: nat) -> Seq<ClusterView> {
    cs.take(fit_end(cs, 0, width as int))
}

proof fn lemma_fit_end(cs: Seq<ClusterView>, i: int, width: int)
    requires
        0 <= i <= cs.len(),
        0 <= width,
    ensures
        i <= fit_end(cs, i, width) <= cs.len(),
        columns(cs.subrange(i, fit_end(cs, i, width))) <= width,
        fit_end(cs, i, width) < cs.len() ==> columns(cs.subrange(i, fit_end(cs, i, width) + 1))
            > width,
    decreases cs.len() - i,
{
    if i < cs.len() && cs[i].1 <= width {
        lemma_fit_end(cs, i + 1, width - cs[i].1);
        let e = fit_end(cs, i, width);
        lemma_columns_front(cs, i, e);
        if e < cs.len() {
            lemma_columns_front(cs, i, e + 1);
        }
    } else {
        assert(cs.subrange(i, i) =~= seq![]);
        if i < cs.len() {
            assert(columns(cs.subrange(i, i + 1).drop_last()) == 0);
            assert(columns(cs.subrange(i, i + 1)) == cs[i].1);
        }
    }
}

/// Columns counted from the front.
proof fn lemma_columns_front(cs: Seq<ClusterView>, i: int, e: int)
    requires
        0 <= i < e <= cs.len(),
    ensures
        columns(cs.subrange(i, e)) == cs[i].1 + columns(cs.subrange(i + 1, e)),
    decreases e - i,
{
    let s = cs.subrange(i, e);
    if e == i + 1 {
        assert(s.drop_last() =~= seq![]);
        assert(cs.subrange(i + 1, e) =~= seq![]);
    } else {
        lemma_columns_front(cs, i, e - 1);
        assert(s.drop_last() =~= cs.subrange(i, e - 1));
        assert(cs.subrange(i + 1, e).drop_last() =~= cs.subrange(i + 1, e - 1));
    }
}

proof fn lemma_skip_end(cs: Seq<ClusterView>, i: int, skip: int)
    requires
        0 <= i <= cs.len(),
    ensures
        i <= skip_end(cs, i, skip) <= cs.len(),
    decreases cs.len() - i,
{
    if i < cs.len() && skip > 0 {
        lemma_skip_end(cs, i + 1, skip - cs[i].1);
    }
}

/// What fits takes no more columns than there are, and the next cluster would
/// not fit.
pub proof fn law_fit_is_maximal(cs: Seq<ClusterView>, width: nat)
    ensures
        columns(fitted(cs, width)) <= width,
        fitted(cs, width).len() <= cs.len(),
        fitted(cs, width) == cs.take(fitted(cs, width).len() as int),
        fitted(cs, width).len() < cs.len() ==> columns(cs.take((fitted(cs, width).len() + 1) as int))
            > width,
{
    lemma_fit_end(cs, 0, width as int);
    let e = fit_end(cs, 0, width as int);
    assert(cs.subrange(0, e) =~= cs.take(e));
    if e < cs.len() {
        assert(cs.subrange(0, e + 1) =~= cs.take(e + 1));
    }
}

/// Slicing without skipping is fitting.
pub proof fn law_slice_at_zero_is_fit(cs: Seq<ClusterView>, width: nat)
    ensures
        sliced(cs, 0, width) == fitted(cs, width),
{
    lemma_fit_end(cs, 0, width as int);
    assert(sliced(cs, 0, width) =~= fitted(cs, width));
}

/// A slice takes no more columns than there are.
pub proof fn law_slice_fits(cs: Seq<ClusterView>, skip: nat, width: nat)
    ensures
        columns(sliced(cs, skip, width)) <= width,
{
    lemma_skip_end(cs, 0, skip as int);
    lemma_fit_end(cs, skip_end(cs, 0, skip as int), width as int);
}

/// Appends the text of the clusters `[from, to)`.
fn append_clusters(out: &mut String, cells: &[(&str, u8)], from: usize, to: usize)
    requires
        from <= to <= cells.len(),
    ensures
        final(out)@ == old(out)@ + cluster_text(cluster_views(cells@).subrange(from as int, to as int)),
{
    let ghost all = cluster_views(cells@);
    let ghost before = out@;
    let mut i: usize = from;
    assert(all.subrange(from as int, from as int) =~= seq![]);
    assert(before + seq![] =~= before);
    while i < to
        invariant
            from <= i <= to <= cells.len(),
            all == cluster_views(cells@),
            out@ == before + cluster_text(all.subrange(from as int, i as int)),
        decreases to - i,
    {
        let ghost now = out@;
        out.append(cells[i].0);
        let ghost t = all.subrange(from as int, i + 1);
        assert(t.drop_last() =~= all.subrange(from as int, i as int));
        assert(out@ =~= before + cluster_text(t));
        i += 1;
    }
}

/// Fit `(cluster, width)` pairs into at most `width` columns without splitting a
/// wide cluster. Returns the fitted string and the columns it occupies.
pub fn fit(cells: &[(&str, u8)], width: u16) -> (r: (String, u16))
    ensures
        r.0@ == cluster_text(fitted(cluster_views(cells@), width as nat)),
        r.1 == columns(fitted(cluster_views(cells@), width as nat)),
{
    proof {
        law_slice_at_zero_is_fit(cluster_views(cells@), width as nat);
    }
    slice_fit(cells, 0, width)
}

/// Fit `(cluster, width)` pairs into at most `width` columns after skipping
/// `skip` leading columns, without splitting a wide cluster. A cluster that
/// straddles the `skip` boundary is dropped whole. Returns the fitted string
/// and the columns it occupies. At `skip == 0` this equals [`fit`].
pub fn slice_fit(cells: &[(&str, u8)], skip: u16, width: u16) -> (r: (String, u16))
    ensures
        r.0@ == cluster_text(sliced(cluster_views(cells@), skip as nat, width as nat)),
        r.1 == columns(sliced(cluster_views(cells@), skip as nat, width as nat)),
{
    let ghost all = cluster_views(cells@);
    let mut left: u16 = skip;
    let mut s: usize = 0;
    while s < cells.len() && left > 0
        invariant
            s <= cells.len(),
            all == cluster_views(cells@),
            skip_end(all, 0, skip as int) == skip_end(all, s as int, left as int),
        decreases cells.len() - s,
    {
        let gw = cells[s].1 as u16;
        if gw > left {
            assert(skip_end(all, s + 1, left - gw) == s + 1);
            left = 0;
        } else {
            left = left - gw;
        }
        s += 1;
    }
    assert(s == skip_end(all, 0, skip as int));
    let mut w: u16 = 0;
    let mut e: usize = s;
    assert(all.subrange(s as int, s as int) =~= seq![]);
    while e < cells.len() && cells[e].1 as u16 <= width - w
        invariant
            s <= e <= cells.len(),
            all == cluster_views(cells@),
            w <= width,
            w == columns(all.subrange(s as int, e as int)),
            fit_end(all, s as int, width as int) == fit_end(all, e as int, width - w),
        decreases cells.len() - e,
    {
        assert(all.subrange(s as int, e + 1).drop_last() =~= all.subrange(s as int, e as int));
        w = w + cells[e].1 as u16;
        e += 1;
    }
    let mut out = String::new();
    append_clusters(&mut out, cells, s, e);
    assert(out@ =~= cluster_text(all.subrange(s as int, e as int)));
    (out, w)
}

/// Take clusters from the end of `cells` that fit in `budget` columns, keeping
/// the tail intact without splitting a wide cluster.
pub fn fit_tail(cells: &[(&str, u8)], budget: u16) -> (r: String)
    ensures
        r@ == cluster_text(
            cluster_views(cells@).skip(
                tail_start(cluster_views(cells@), cells@.len() as int, budget as int),
            ),
        ),
{
    let ghost all = cluster_views(cells@);
    let mut left: u16 = budget;
    let mut start: usize = cells.len();
    while start > 0 && cells[start - 1].1 as u16 <= left
        invariant
            start <= cells.len(),
            all == cluster_views(cells@),
            tail_start(all, cells@.len() as int, budget as int) == tail_start(
                all,
                start as int,
                left as int,
            ),
        decreases start,
    {
        left = left - cells[start - 1].1 as u16;
        start -= 1;
    }
    let n = cells.len();
    let mut out = String::new();
    append_clusters(&mut out, cells, start, n);
    assert(all.subrange(start as int, n as int) =~= all.skip(start as int));
    assert(out@ =~= cluster_text(all.skip(start as int)));
    out
}

/// A count of columns, at most the largest that the machine holds.
pub open spec fn capped16(n: nat) -> nat {
    if n <= u16::MAX {
        n
    } else {
        u16::MAX as nat
    }
}

/// The display width of a text.
pub open spec fn text_width(s: Seq<char>, m: Measure) -> nat {
    capped16(columns(clusters(s, m)))
}

/// Display width of `s` in terminal columns.
pub fn width(s: &str, m: Measure) -> (r: u16)
    ensures
        r == text_width(s@, m),
{
    let cells = grapheme_cells(s, m);
    let ghost all = cluster_views(cells@);
    let mut w: u16 = 0;
    let mut i: usize = 0;
    while i < cells.len()
        invariant
            i <= cells.len(),
            all == cluster_views(cells@),
            w == capped16(columns(all.take(i as int))),
        decreases cells.len() - i,
    {
        assert(all.take(i + 1).drop_last() =~= all.take(i as int));
        w = w.saturating_add(cells[i].1 as u16);
        i += 1;
    }
    assert(all.take(all.len() as int) =~= all);
    w
}

/// Truncate `s` to at most `budget` display columns, respecting grapheme
/// clusters and wide characters.
pub fn clip(s: &str, budget: u16, m: Measure) -> (r: (String, u16))
    ensures
        r.0@ == cluster_text(fitted(clusters(s@, m), budget as nat)),
        r.1 == columns(fitted(clusters(s@, m), budget as nat)),
{
    fit(&grapheme_cells(s, m), budget)
}

/// Like [`clip`] but first drops `skip` leading display columns, so a line can
/// be scrolled horizontally. A wide cluster straddling the left edge is dropped
/// whole (never split). Returns the slice and its width; at `skip == 0` it is
/// identical to `clip`.
pub fn slice_h(s: &str, skip: u16, budget: u16, m: Measure) -> (r: (String, u16))
    ensures
        r.0@ == cluster_text(sliced(clusters(s@, m), skip as nat, budget as nat)),
        r.1 == columns(sliced(clusters(s@, m), skip as nat, budget as nat)),
{
    slice_fit(&grapheme_cells(s, m), skip, budget)
}

/// `s` in at most `budget` columns: as it is, or its tail behind an ellipsis.
pub open spec fn shortened(s: Seq<char>, budget: nat, m: Measure) -> Seq<char> {
    if text_width(s, m) <= budget {
        s
    } else {
        let ell = cluster_columns("…"@, m);
        let left = if budget >= ell {
            budget - ell
        } else {
            0
        };
        let cs = clusters(s, m);
        "…"@ + cluster_text(cs.skip(tail_start(cs, cs.len() as int, left)))
    }
}

/// Shorten `s` to at most `budget` display columns, keeping the tail (e.g. a
/// filename) visible behind a leading ellipsis. Width-aware so wide/non-ASCII
/// paths never overflow or split a cluster.
pub fn shorten(s: &str, budget: u16, m: Measure) -> (r: String)
    ensures
        r@ == shortened(s@, budget as nat, m),
{
    if width(s, m) <= budget {
        return s.to_string();
    }
    let ell = grapheme_width("…", m) as u16;
    let cells = grapheme_cells(s, m);
    let mut out = "…".to_string();
    out.append(&fit_tail(&cells, budget.saturating_sub(ell)));
    out
}

/// One column of a row: a cluster and its columns, or, with none, the rest of
/// the wide cluster before it.
#[derive(Debug, Clone)]
pub struct Cell {
    pub content: String,
    pub width: u8,
}

/// The content of a list of cells.
pub open spec fn cell_views(s: Seq<Cell>) -> Seq<ClusterView> {
    s.map_values(|c: Cell| (c.content@, c.width))
}

/// `n` cells that continue a wide cluster.
pub open spec fn continuations(n: nat) -> Seq<ClusterView> {
    Seq::new(n, |i: int| (seq![], 0u8))
}

/// The cells that clusters are laid out in. Those without columns have none.
pub open spec fn laid_out(cs: Seq<ClusterView>) -> Seq<ClusterView>
    decreases cs.len(),
{
    if cs.len() == 0 {
        seq![]
    } else {
        let v = laid_out(cs.drop_last());
        let c = cs.last();
        if c.1 == 0 {
            v
        } else {
            v.push(c) + continuations((c.1 - 1) as nat)
        }
    }
}

/// How rows are measured: by the cluster as a whole, with ambiguous characters
/// narrow.
pub open spec fn row_measure() -> Measure {
    Measure { mode: WidthMode::Grapheme, eaw_wide: false }
}

/// The cells of a text.
pub open spec fn cells_of(s: Seq<char>) -> Seq<ClusterView> {
    laid_out(clusters(s, row_measure()))
}

/// A text takes as many cells as columns, so a cell index is a screen column.
pub proof fn law_cells_are_columns(cs: Seq<ClusterView>)
    ensures
        laid_out(cs).len() == columns(cs),
    decreases cs.len(),
{
    if cs.len() > 0 {
        law_cells_are_columns(cs.drop_last());
    }
}

/// Parse a string into display cells, inserting a continuation cell after each
/// wide grapheme so `cells.len()` equals the string's width in terminal columns.
/// That makes a cell index equal to a screen column, matching how the renderer
/// lays the same text out. Selection reads these instead of the screen buffer,
/// so it works even when the selection is taller than the viewport.
pub fn text_cells(s: &str) -> (r: Vec<Cell>)
    ensures
        cell_views(r@) == cells_of(s@),
{
    let gs = grapheme_cells(s, Measure { mode: WidthMode::Grapheme, eaw_wide: false });
    cluster_cells(&gs)
}

/// Lays clusters out in cells.
pub fn cluster_cells(gs: &[(&str, u8)]) -> (r: Vec<Cell>)
    ensures
        cell_views(r@) == laid_out(cluster_views(gs@)),
{
    let ghost all = cluster_views(gs@);
    let mut cells: Vec<Cell> = Vec::new();
    let mut i: usize = 0;
    assert(cell_views(cells@) =~= seq![]);
    while i < gs.len()
        invariant
            i <= gs.len(),
            all == cluster_views(gs@),
            cell_views(cells@) == laid_out(all.take(i as int)),
        decreases gs.len() - i,
    {
        let g = gs[i].0;
        let w = gs[i].1;
        let ghost before = cell_views(cells@);
        assert(all.take(i + 1).drop_last() =~= all.take(i as int));
        if w > 0 {
            cells.push(Cell { content: g.to_string(), width: w });
            let ghost head = before.push((g@, w));
            assert(cell_views(cells@) =~= head + continuations(0));
            let mut k: u8 = 1;
            while k < w
                invariant
                    1 <= k <= w,
                    cell_views(cells@) == head + continuations((k - 1) as nat),
                decreases w - k,
            {
                let ghost now = cell_views(cells@);
                cells.push(Cell { content: String::new(), width: 0 });
                assert(cells@.last().content@ =~= seq![]);
                assert(cell_views(cells@) =~= now.push((seq![], 0u8)));
                assert(continuations(k as nat) =~= continuations((k - 1) as nat).push(
                    (seq![], 0u8),
                ));
                assert(cell_views(cells@) =~= head + continuations(k as nat));
                k += 1;
            }
        }
        i += 1;
    }
    assert(all.take(all.len() as int) =~= all);
    cells
}

/// A text without the blanks at its end.
pub open spec fn without_blanks(s: Seq<char>) -> Seq<char>
    decreases s.len(),
{
    if s.len() > 0 && s.last() == ' ' {
        without_blanks(s.drop_last())
    } else {
        s
    }
}

/// The cells from column `start` up to `end`, as far as there are any.
pub open spec fn cell_range(cells: Seq<ClusterView>, start: nat, end: nat) -> Seq<ClusterView> {
    let n = cells.len();
    let s = if start < n {
        start
    } else {
        n
    };
    let e = if end < n {
        end
    } else {
        n
    };
    cells.subrange(
        s as int,
        if e < s {
            s as int
        } else {
            e as int
        },
    )
}

/// The text of the cells from column `start` up to `end`.
pub open spec fn slice_text(cells: Seq<ClusterView>, start: nat, end: nat) -> Seq<char> {
    without_blanks(cluster_text(cell_range(cells, start, end)))
}

/// Join cells `[start, end)` into a string, trimming trailing blanks the way a
/// terminal copy does. Continuation cells contribute "" so a wide char appears
/// exactly once. Indices are clamped to the cell slice.
pub fn slice_cells(cells: &[Cell], start: usize, end: usize) -> (r: String)
    ensures
        r@ == slice_text(cell_views(cells@), start as nat, end as nat),
{
    let n = cells.len();
    let s = if start < n {
        start
    } else {
        n
    };
    let m = if end < n {
        end
    } else {
        n
    };
    let e = if m < s {
        s
    } else {
        m
    };
    let ghost all = cell_views(cells@);
    let mut line: Vec<char> = Vec::new();
    let mut i: usize = s;
    assert(all.subrange(s as int, s as int) =~= seq![]);
    while i < e
        invariant
            s <= i <= e <= cells.len(),
            all == cell_views(cells@),
            line@ == cluster_text(all.subrange(s as int, i as int)),
        decreases e - i,
    {
        let mut t = chars_of(&cells[i].content);
        line.append(&mut t);
        assert(all.subrange(s as int, i + 1).drop_last() =~= all.subrange(s as int, i as int));
        i += 1;
    }
    let ghost whole = line@;
    while line.len() > 0 && line[line.len() - 1] == ' '
        invariant
            without_blanks(whole) == without_blanks(line@),
        decreases line.len(),
    {
        let ghost before = line@;
        line.pop();
        assert(line@ =~= before.drop_last());
    }
    string_of(&line)
}

/// The text that is searched in a row: that of its cells, where those that
/// continue a cluster have none.
pub open spec fn haystack(cells: Seq<ClusterView>) -> Seq<char>
    decreases cells.len(),
{
    if cells.len() == 0 {
        seq![]
    } else if cells.last().1 == 0 {
        haystack(cells.drop_last())
    } else {
        haystack(cells.drop_last()) + cells.last().0
    }
}

/// The column of each byte of the text that is searched in a row.
pub open spec fn byte_columns(cells: Seq<ClusterView>) -> Seq<usize>
    decreases cells.len(),
{
    if cells.len() == 0 {
        seq![]
    } else {
        let v = byte_columns(cells.drop_last());
        if cells.last().1 == 0 {
            v
        } else {
            v + Seq::new(
                byte_len(cells.last().0),
                |i: int| (cells.len() - 1) as usize,
            )
        }
    }
}

/// The columns of a match of the bytes from `a` up to `b`: they end behind the
/// last cluster that it touches.
pub open spec fn hit(cells: Seq<ClusterView>, a: int, b: int) -> (usize, usize) {
    let cols = byte_columns(cells);
    let last = cols[b - 1];
    let w = if cells[last as int].1 > 0 {
        cells[last as int].1
    } else {
        1u8
    };
    (
        cols[a],
        if last + w <= usize::MAX {
            (last + w) as usize
        } else {
            usize::MAX
        },
    )
}

/// The columns of all matches that are not empty.
pub open spec fn hits(cells: Seq<ClusterView>, ranges: Seq<(usize, usize)>) -> Seq<(usize, usize)>
    decreases ranges.len(),
{
    if ranges.len() == 0 {
        seq![]
    } else {
        let v = hits(cells, ranges.drop_last());
        let (a, b) = ranges.last();
        if a == b {
            v
        } else {
            v.push(hit(cells, a as int, b as int))
        }
    }
}

/// Each byte that is searched has a column.
pub proof fn lemma_byte_columns(cells: Seq<ClusterView>)
    requires
        cells.len() <= usize::MAX,
    ensures
        byte_columns(cells).len() == byte_len(haystack(cells)),
        forall|k: int|
            0 <= k < byte_columns(cells).len() ==> (#[trigger] byte_columns(cells)[k]) < cells.len(),
    decreases cells.len(),
{
    if cells.len() > 0 {
        let d = cells.drop_last();
        lemma_byte_columns(d);
        if cells.last().1 != 0 {
            lemma_byte_len_concat(haystack(d), cells.last().0);
        }
        assert forall|k: int| 0 <= k < byte_columns(cells).len() implies (
        #[trigger] byte_columns(cells)[k]) < cells.len() by {
            if k < byte_columns(d).len() {
                assert(byte_columns(cells)[k] == byte_columns(d)[k]);
            }
        }
    }
}

proof fn lemma_byte_len_concat(a: Seq<char>, b: Seq<char>)
    ensures
        byte_len(a + b) == byte_len(a) + byte_len(b),
    decreases b.len(),
{
    if b.len() == 0 {
        assert(a + b =~= a);
    } else {
        assert((a + b).drop_last() =~= a + b.drop_last());
        lemma_byte_len_concat(a, b.drop_last());
    }
}

/// The text that is searched in a row, and the column of each of its bytes.
fn search_text(cells: &[Cell]) -> (r: (String, Vec<usize>))
    ensures
        r.0@ == haystack(cell_views(cells@)),
        r.1@ == byte_columns(cell_views(cells@)),
{
    let ghost all = cell_views(cells@);
    let mut hay = String::new();
    let mut cols: Vec<usize> = Vec::new();
    let mut col: usize = 0;
    assert(hay@ =~= seq![]);
    while col < cells.len()
        invariant
            col <= cells.len(),
            all == cell_views(cells@),
            hay@ == haystack(all.take(col as int)),
            cols@ == byte_columns(all.take(col as int)),
        decreases cells.len() - col,
    {
        assert(all.take(col + 1).drop_last() =~= all.take(col as int));
        assert(all.take(col + 1).last() == all[col as int]);
        if cells[col].width != 0 {
            let cs = chars_of(&cells[col].content);
            let ghost before = cols@;
            let mut i: usize = 0;
            assert(cols@ =~= before + Seq::new(0, |k: int| col));
            while i < cs.len()
                invariant
                    i <= cs.len(),
                    cols@ == before + Seq::new(byte_len(cs@.take(i as int)), |k: int| col),
                decreases cs.len() - i,
            {
                let b = char_bytes(cs[i]);
                let ghost n = byte_len(cs@.take(i as int));
                assert(cs@.take(i + 1).drop_last() =~= cs@.take(i as int));
                let mut k: usize = 0;
                while k < b
                    invariant
                        k <= b,
                        cols@ == before + Seq::new(n + k as nat, |j: int| col),
                    decreases b - k,
                {
                    cols.push(col);
                    k += 1;
                    assert(cols@ =~= before + Seq::new(n + k as nat, |j: int| col));
                }
                i += 1;
            }
            assert(cs@.take(cs@.len() as int) =~= cs@);
            assert(cols@ =~= byte_columns(all.take(col + 1)));
            hay.append(&cells[col].content);
        }
        col += 1;
    }
    assert(all.take(all.len() as int) =~= all);
    (hay, cols)
}

/// Turns the byte ranges of matches in a row's text into columns.
pub fn hit_columns(cells: &[Cell], ranges: &[(usize, usize)]) -> (r: Vec<(usize, usize)>)
    requires
        forall|k: int|
            0 <= k < ranges@.len() ==> (#[trigger] ranges@[k]).0 <= ranges@[k].1 <= byte_len(
                haystack(cell_views(cells@)),
            ),
    ensures
        r@ == hits(cell_views(cells@), ranges@),
{
    let n = cells.len();
    let (_, cols) = search_text(cells);
    let ghost all = cell_views(cells@);
    proof {
        lemma_byte_columns(all);
    }
    let mut out: Vec<(usize, usize)> = Vec::new();
    let mut i: usize = 0;
    while i < ranges.len()
        invariant
            i <= ranges.len(),
            n == cells.len(),
            all == cell_views(cells@),
            cols@ == byte_columns(all),
            cols@.len() == byte_len(haystack(all)),
            forall|k: int| 0 <= k < cols@.len() ==> (#[trigger] cols@[k]) < all.len(),
            forall|k: int|
                0 <= k < ranges@.len() ==> (#[trigger] ranges@[k]).0 <= ranges@[k].1 <= byte_len(
                    haystack(all),
                ),
            out@ == hits(all, ranges@.take(i as int)),
        decreases ranges.len() - i,
    {
        let (a, b) = ranges[i];
        assert(ranges@.take(i + 1).drop_last() =~= ranges@.take(i as int));
        assert(ranges@[i as int].0 <= ranges@[i as int].1);
        if a != b {
            let last = cols[b - 1];
            let w: usize = if cells[last].width > 0 {
                cells[last].width as usize
            } else {
                1
            };
            out.push((cols[a], last.saturating_add(w)));
        }
        i += 1;
    }
    assert(ranges@.take(ranges@.len() as int) =~= ranges@);
    out
}

/// Find every regex match in a row's display cells, returning (start_col,
/// end_col) column ranges. Continuation cells (wide-char tails) carry no text;
/// a hit's end column extends over the last matched grapheme's full width.
/// Zero-width matches are skipped.
pub fn match_cells(cells: &[Cell], re: &Regex) -> (r: Vec<(usize, usize)>)
    ensures
        r@ == hits(cell_views(cells@), matches_in(*re, haystack(cell_views(cells@)))),
{
    let (hay, _) = search_text(cells);
    let ranges = find_matches(re, &hay);
    hit_columns(cells, &ranges)
}

/// A slice begins with the first cluster that starts at or behind the columns
/// skipped, and ends where the next one would not fit.
pub proof fn law_slice_begins_behind_the_skip(cs: Seq<ClusterView>, skip: nat, width: nat) -> (s: int)
    ensures
        ({
            let v = sliced(cs, skip, width);
            &&& 0 <= s <= cs.len()
            &&& s + v.len() <= cs.len()
            &&& v == cs.subrange(s, s + v.len())
            &&& s < cs.len() ==> columns(cs.take(s)) >= skip
            &&& s > 0 ==> columns(cs.take(s - 1)) < skip
            &&& columns(v) <= width
            &&& s + v.len() < cs.len() ==> columns(v) + cs[s + v.len()].1 > width
        }),
{
    let s = skip_end(cs, 0, skip as int);
    let v = sliced(cs, skip, width);
    lemma_skip_end(cs, 0, skip as int);
    lemma_skipped(cs, 0, skip as int);
    lemma_fit_end(cs, s, width as int);
    assert(cs.take(0) =~= seq![]);
    law_slice_fits(cs, skip, width);
    let e = fit_end(cs, s, width as int);
    lemma_fit_stops(cs, s, width as int);
    s
}

proof fn lemma_skipped(cs: Seq<ClusterView>, i: int, skip: int)
    requires
        0 <= i <= cs.len(),
    ensures
        ({
            let s = skip_end(cs, i, skip);
            &&& i <= s <= cs.len()
            &&& s < cs.len() ==> columns(cs.take(s)) - columns(cs.take(i)) >= skip
            &&& s > i ==> columns(cs.take(s - 1)) - columns(cs.take(i)) < skip
        }),
    decreases cs.len() - i,
{
    if i < cs.len() && skip > 0 {
        lemma_skipped(cs, i + 1, skip - cs[i].1);
        assert(cs.take(i + 1).drop_last() =~= cs.take(i));
        let s = skip_end(cs, i, skip);
        if s == i + 1 {
            assert(cs.take(s - 1) =~= cs.take(i));
        }
    }
}

proof fn lemma_fit_stops(cs: Seq<ClusterView>, i: int, width: int)
    requires
        0 <= i <= cs.len(),
        0 <= width,
    ensures
        ({
            let e = fit_end(cs, i, width);
            &&& i <= e <= cs.len()
            &&& e < cs.len() ==> columns(cs.subrange(i, e)) + cs[e].1 > width
        }),
    decreases cs.len() - i,
{
    if i < cs.len() && cs[i].1 <= width {
        lemma_fit_stops(cs, i + 1, width - cs[i].1);
        let e = fit_end(cs, i, width);
        lemma_columns_split(cs, i, i + 1, e);
        assert(cs.subrange(i, i + 1).drop_last() =~= seq![]);
        assert(columns(cs.subrange(i, i + 1).drop_last()) == 0);
        assert(cs.subrange(i, i + 1).last() == cs[i]);
    } else {
        assert(cs.subrange(i, i) =~= seq![]);
    }
}

proof fn lemma_columns_split(cs: Seq<ClusterView>, a: int, b: int, c: int)
    requires
        0 <= a <= b <= c <= cs.len(),
    ensures
        columns(cs.subrange(a, c)) == columns(cs.subrange(a, b)) + columns(cs.subrange(b, c)),
    decreases c - b,
{
    if b == c {
        assert(cs.subrange(b, c) =~= seq![]);
    } else {
        lemma_columns_split(cs, a, b, c - 1);
        assert(cs.subrange(a, c).drop_last() =~= cs.subrange(a, c - 1));
        assert(cs.subrange(b, c).drop_last() =~= cs.subrange(b, c - 1));
    }
}

/// A text that fits stays as it is; one that does not is an ellipsis and as much
/// of its end as fits behind that.
pub proof fn law_long_texts_keep_their_end(s: Seq<char>, budget: nat, m: Measure) -> (k: int)
    ensures
        ({
            let cs = clusters(s, m);
            let ell = cluster_columns("…"@, m) as int;
            &&& 0 <= k <= cs.len()
            &&& text_width(s, m) <= budget ==> shortened(s, budget, m) == s
            &&& text_width(s, m) > budget ==> shortened(s, budget, m) == "…"@ + cluster_text(
                cs.skip(k),
            )
            &&& ell <= budget ==> ell + columns(cs.skip(k)) <= budget
            &&& k > 0 ==> ell + columns(cs.skip(k)) + cs[k - 1].1 > budget
        }),
{
    let cs = clusters(s, m);
    let ell = cluster_columns("…"@, m);
    let left = if budget >= ell {
        budget - ell
    } else {
        0
    };
    let k = tail_start(cs, cs.len() as int, left);
    lemma_tail(cs, cs.len() as int, left);
    assert(cs.subrange(k, cs.len() as int) =~= cs.skip(k));
    k
}

proof fn lemma_tail(cs: Seq<ClusterView>, n: int, budget: int)
    requires
        0 <= n <= cs.len(),
        0 <= budget,
    ensures
        ({
            let k = tail_start(cs, n, budget);
            &&& 0 <= k <= n
            &&& columns(cs.subrange(k, n)) <= budget
            &&& k > 0 ==> columns(cs.subrange(k, n)) + cs[k - 1].1 > budget
        }),
    decreases n,
{
    if 0 < n && cs[n - 1].1 <= budget {
        lemma_tail(cs, n - 1, budget - cs[n - 1].1);
        let k = tail_start(cs, n, budget);
        assert(cs.subrange(k, n).drop_last() =~= cs.subrange(k, n - 1));
    } else {
        assert(cs.subrange(n, n) =~= seq![]);
    }
}

/// A cluster stands in the cell of the column where it begins, and the further
/// columns that it takes hold nothing of their own.
pub proof fn law_clusters_stand_at_their_columns(cs: Seq<ClusterView>, k: int, j: int)
    requires
        0 <= k < cs.len(),
        0 < j < cs[k].1,
    ensures
        ({
            let v = laid_out(cs);
            let c = columns(cs.take(k)) as int;
            &&& c + cs[k].1 <= v.len()
            &&& v[c] == cs[k]
            &&& v[c + j] == (Seq::<char>::empty(), 0u8)
        }),
{
    lemma_laid(cs, k, j);
}

/// A narrow cluster stands in the cell of its column.
pub proof fn law_narrow_clusters_stand_at_their_columns(cs: Seq<ClusterView>, k: int)
    requires
        0 <= k < cs.len(),
        cs[k].1 == 1,
    ensures
        columns(cs.take(k)) < laid_out(cs).len(),
        laid_out(cs)[columns(cs.take(k)) as int] == cs[k],
{
    lemma_laid(cs, k, 0);
}

proof fn lemma_laid(cs: Seq<ClusterView>, k: int, j: int)
    requires
        0 <= k < cs.len(),
        0 <= j < cs[k].1,
    ensures
        ({
            let v = laid_out(cs);
            let c = columns(cs.take(k)) as int;
            &&& v.len() == columns(cs)
            &&& c + cs[k].1 <= v.len()
            &&& v[c] == cs[k]
            &&& j > 0 ==> v[c + j] == (Seq::<char>::empty(), 0u8)
        }),
    decreases cs.len(),
{
    let d = cs.drop_last();
    law_cells_are_columns(d);
    law_cells_are_columns(cs);
    if k < cs.len() - 1 {
        lemma_laid(d, k, j);
        assert(d.take(k) =~= cs.take(k));
    } else {
        assert(cs.take(k) =~= d);
    }
}

/// A hit covers what it matches: its first column is that of the cluster that
/// holds the first byte of the match, and its last cluster holds the last byte
/// and is covered in full.
pub proof fn law_hits_cover_their_match(cells: Seq<ClusterView>, a: int, b: int) -> (last: int)
    requires
        0 <= a < b <= byte_len(haystack(cells)),
        cells.len() <= usize::MAX - 255,
    ensures
        ({
            let h = hit(cells, a, b);
            &&& 0 <= h.0 <= last < cells.len()
            &&& cells[h.0 as int].1 > 0 && cells[last].1 > 0
            &&& byte_len(haystack(cells.take(h.0 as int))) <= a < byte_len(
                haystack(cells.take(h.0 + 1)),
            )
            &&& byte_len(haystack(cells.take(last))) < b <= byte_len(haystack(cells.take(last + 1)))
            &&& h.1 == last + cells[last].1
        }),
{
    lemma_byte_columns(cells);
    lemma_byte_column(cells, a);
    lemma_byte_column(cells, b - 1);
    let first = byte_columns(cells)[a] as int;
    let last = byte_columns(cells)[b - 1] as int;
    if last < first {
        lemma_haystack_grows(cells, last + 1, first);
    }
    last
}

proof fn lemma_haystack_grows(cells: Seq<ClusterView>, i: int, j: int)
    requires
        0 <= i <= j <= cells.len(),
    ensures
        byte_len(haystack(cells.take(i))) <= byte_len(haystack(cells.take(j))),
    decreases j - i,
{
    if i < j {
        lemma_haystack_grows(cells, i, j - 1);
        assert(cells.take(j).drop_last() =~= cells.take(j - 1));
        if cells[j - 1].1 != 0 {
            lemma_byte_len_concat(haystack(cells.take(j - 1)), cells[j - 1].0);
        }
    }
}

proof fn lemma_byte_column(cells: Seq<ClusterView>, k: int)
    requires
        0 <= k < byte_len(haystack(cells)),
        cells.len() <= usize::MAX,
    ensures
        ({
            let c = byte_columns(cells)[k] as int;
            &&& k < byte_columns(cells).len()
            &&& 0 <= c < cells.len()
            &&& cells[c].1 > 0
            &&& byte_len(haystack(cells.take(c))) <= k < byte_len(haystack(cells.take(c + 1)))
        }),
    decreases cells.len(),
{
    if cells.len() > 0 {
        let d = cells.drop_last();
        lemma_byte_columns(d);
        lemma_byte_columns(cells);
        if k < byte_len(haystack(d)) {
            lemma_byte_column(d, k);
            let c = byte_columns(d)[k] as int;
            assert(d.take(c) =~= cells.take(c));
            assert(d.take(c + 1) =~= cells.take(c + 1));
        } else {
            assert(cells.last().1 != 0);
            let c = byte_columns(cells)[k] as int;
            assert(c == cells.len() - 1);
            assert(cells.take(c) =~= d);
            assert(cells.take(c + 1) =~= cells);
        }
    }
}

/// The text that is searched in a row is the text that it shows.
pub proof fn law_what_shows_is_searched(cs: Seq<ClusterView>)
    requires
        forall|k: int| 0 <= k < cs.len() ==> (#[trigger] cs[k]).1 > 0,
    ensures
        haystack(laid_out(cs)) == cluster_text(cs),
        cluster_text(laid_out(cs)) == cluster_text(cs),
    decreases cs.len(),
{
    if cs.len() > 0 {
        let d = cs.drop_last();
        let c = cs.last();
        assert(c == cs[cs.len() - 1]);
        assert forall|k: int| 0 <= k < d.len() implies (#[trigger] d[k]).1 > 0 by {
            assert(d[k] == cs[k]);
        }
        law_what_shows_is_searched(d);
        let v = laid_out(d).push(c);
        assert(v.drop_last() =~= laid_out(d));
        lemma_nothing_continues(v, (c.1 - 1) as nat);
    }
}

proof fn lemma_nothing_continues(v: Seq<ClusterView>, n: nat)
    ensures
        haystack(v + continuations(n)) == haystack(v),
        cluster_text(v + continuations(n)) == cluster_text(v),
    decreases n,
{
    if n == 0 {
        assert(v + continuations(0) =~= v);
    } else {
        let w = v + continuations(n);
        assert(w.drop_last() =~= v + continuations((n - 1) as nat));
        lemma_nothing_continues(v, (n - 1) as nat);
        assert(w.last() == (Seq::<char>::empty(), 0u8));
        assert(cluster_text(w) =~= cluster_text(w.drop_last()));
    }
}

/// Blanks at the end go, and nothing else.
pub proof fn law_trailing_blanks_go(s: Seq<char>)
    ensures
        ({
            let t = without_blanks(s);
            &&& t.len() <= s.len()
            &&& t == s.take(t.len() as int)
            &&& t.len() > 0 ==> t.last() != ' '
            &&& forall|k: int| t.len() <= k < s.len() ==> #[trigger] s[k] == ' '
        }),
    decreases s.len(),
{
    if s.len() > 0 && s.last() == ' ' {
        law_trailing_blanks_go(s.drop_last());
        let t = without_blanks(s);
        assert(t =~= s.take(t.len() as int));
        assert forall|k: int| t.len() <= k < s.len() implies #[trigger] s[k] == ' ' by {
            if k < s.len() - 1 {
                assert(s.drop_last()[k] == s[k]);
            }
        }
    } else {
        assert(s.take(s.len() as int) =~= s);
    }
}

/// A text that is no wider than the room for it is shown whole.
pub proof fn law_short_texts_show_whole(cs: Seq<ClusterView>, width: nat)
    requires
        columns(cs) <= width,
    ensures
        fitted(cs, width) == cs,
{
    law_fit_is_maximal(cs, width);
    let n = fitted(cs, width).len() as int;
    if n < cs.len() {
        lemma_columns_split(cs, 0, n + 1, cs.len() as int);
        assert(cs.subrange(0, cs.len() as int) == cs);
        assert(cs.subrange(0, n + 1) == cs.take(n + 1));
    } else {
        assert(cs.take(n) == cs);
    }
}

} // verus!
