//! Where the document can scroll to, which headers stay pinned, and how a place
//! in it is found again after a rebuild.

use vstd::prelude::*;

use crate::diff::FileDiff;
#[allow(unused_imports)]
use crate::diff::display_path;
use crate::rows::{Row, RowKind};
use crate::text::same;

verus! {

/// How many of the starts from `i` on are at or before `row`, up to the first
/// that is not.
pub open spec fn starts_before(starts: Seq<usize>, row: nat, i: int) -> int
    decreases starts.len() - i,
{
    if 0 <= i < starts.len() && starts[i] <= row {
        starts_before(starts, row, i + 1)
    } else {
        i
    }
}

/// The file that owns a row: the last one that starts at or before it.
pub open spec fn owner(starts: Seq<usize>, row: nat) -> nat {
    let n = starts_before(starts, row, 0);
    if n > 0 {
        (n - 1) as nat
    } else {
        0
    }
}

/// Whether starts go up.
pub open spec fn ascending(starts: Seq<usize>) -> bool {
    forall|i: int, j: int| 0 <= i < j < starts.len() ==> starts[i] < starts[j]
}

proof fn lemma_starts_before(starts: Seq<usize>, row: nat, i: int)
    requires
        0 <= i <= starts.len(),
    ensures
        i <= starts_before(starts, row, i) <= starts.len(),
        forall|k: int| i <= k < starts_before(starts, row, i) ==> (#[trigger] starts[k]) <= row,
        starts_before(starts, row, i) < starts.len() ==> starts[starts_before(starts, row, i)]
            > row,
    decreases starts.len() - i,
{
    if i < starts.len() && starts[i] <= row {
        lemma_starts_before(starts, row, i + 1);
    }
}

/// With starts that go up from row zero, a row lies between the start of its
/// file and the start of the next one.
pub proof fn law_owner(starts: Seq<usize>, row: nat)
    requires
        ascending(starts),
        starts.len() > 0,
        starts[0] == 0,
    ensures
        owner(starts, row) < starts.len(),
        starts[owner(starts, row) as int] <= row,
        forall|k: int| owner(starts, row) < k < starts.len() ==> row < #[trigger] starts[k],
{
    lemma_starts_before(starts, row, 0);
    let n = starts_before(starts, row, 0);
    assert(n > 0);
    assert forall|k: int| owner(starts, row) < k < starts.len() implies row < #[trigger] starts[k] by {
        if k > n {
            assert(starts[n] < starts[k]);
        }
    }
}

/// The file index owning document row `row`, given each file's start offset.
/// Rows before the first start map to file 0.
pub fn file_of_row(starts: &[usize], row: usize) -> (r: usize)
    ensures
        r == owner(starts@, row as nat),
        starts@.len() > 0 ==> r < starts@.len(),
{
    let mut n: usize = 0;
    while n < starts.len() && starts[n] <= row
        invariant
            n <= starts.len(),
            starts_before(starts@, row as nat, 0) == starts_before(starts@, row as nat, n as int),
        decreases starts.len() - n,
    {
        n += 1;
    }
    if n > 0 {
        n - 1
    } else {
        0
    }
}

/// The last hunk header among the rows from `lo` to `i`.
pub open spec fn last_hunk(kinds: Seq<RowKind>, lo: int, i: int) -> Option<int>
    decreases i - lo + 1,
{
    if i < lo || i < 0 {
        None
    } else if kinds[i] == RowKind::Hunk {
        Some(i)
    } else {
        last_hunk(kinds, lo, i - 1)
    }
}

/// The header row of the file that owns row `row`; the first row where there
/// is no file.
pub open spec fn file_start(starts: Seq<usize>, row: nat) -> nat {
    if starts.len() > 0 {
        starts[owner(starts, row) as int] as nat
    } else {
        0
    }
}

/// The headers that a scroll offset puts out of sight: that of the file of the
/// top line, and that of its hunk.
pub open spec fn headers_above(kinds: Seq<RowKind>, starts: Seq<usize>, scroll: nat) -> Seq<usize> {
    let f = file_start(starts, scroll);
    let first = if f < scroll {
        seq![f as usize]
    } else {
        seq![]
    };
    match last_hunk(kinds, f as int + 1, scroll as int) {
        Some(h) => if h < scroll {
            first.push(h as usize)
        } else {
            first
        },
        None => first,
    }
}

/// The rows that are pinned above the top line, at most as many as leave one
/// row of the body.
#[verifier::opaque]
pub open spec fn pinned(
    kinds: Seq<RowKind>,
    starts: Seq<usize>,
    scroll: nat,
    body_h: nat,
) -> Seq<usize> {
    if scroll == 0 || scroll >= kinds.len() {
        seq![]
    } else {
        let v = headers_above(kinds, starts, scroll);
        let room = if body_h > 0 {
            (body_h - 1) as nat
        } else {
            0
        };
        if v.len() > room {
            v.take(room as int)
        } else {
            v
        }
    }
}

proof fn lemma_last_hunk(kinds: Seq<RowKind>, lo: int, i: int)
    requires
        i < kinds.len(),
        0 <= lo,
    ensures
        last_hunk(kinds, lo, i) matches Some(h) ==> lo <= h <= i && kinds[h] == RowKind::Hunk,
        last_hunk(kinds, lo, i) matches Some(h) ==> forall|k: int|
            h < k <= i ==> (#[trigger] kinds[k]) != RowKind::Hunk,
        last_hunk(kinds, lo, i) is None ==> forall|k: int|
            lo <= k <= i ==> (#[trigger] kinds[k]) != RowKind::Hunk,
    decreases i - lo + 1,
{
    if lo <= i && kinds[i] != RowKind::Hunk {
        lemma_last_hunk(kinds, lo, i - 1);
    }
}

/// Pinned rows are strictly above the top line, the file's before the hunk's,
/// and leave a row of the body.
pub proof fn law_pinned_rows_are_above(
    kinds: Seq<RowKind>,
    starts: Seq<usize>,
    scroll: nat,
    body_h: nat,
)
    requires
        kinds.len() <= usize::MAX,
    ensures
        pinned(kinds, starts, scroll, body_h).len() <= 2,
        body_h > 0 ==> pinned(kinds, starts, scroll, body_h).len() < body_h,
        body_h == 0 ==> pinned(kinds, starts, scroll, body_h).len() == 0,
        forall|k: int|
            0 <= k < pinned(kinds, starts, scroll, body_h).len() ==> (#[trigger] pinned(
                kinds,
                starts,
                scroll,
                body_h,
            )[k]) < scroll,
        pinned(kinds, starts, scroll, body_h).len() == 2 ==> pinned(kinds, starts, scroll, body_h)[0]
            < pinned(kinds, starts, scroll, body_h)[1] && kinds[pinned(
            kinds,
            starts,
            scroll,
            body_h,
        )[1] as int] == RowKind::Hunk,
{
    reveal(pinned);
    if scroll != 0 && scroll < kinds.len() {
        lemma_last_hunk(kinds, file_start(starts, scroll) as int + 1, scroll as int);
    }
}

/// Document rows to pin at the top of the body for a given `scroll`: the
/// enclosing file header and the current hunk header, but only once they've
/// scrolled strictly above the top content line (so a header still naturally on
/// screen isn't duplicated). Capped so at least one content row remains.
pub fn sticky_at(
    kinds: &[RowKind],
    file_starts: &[usize],
    scroll: usize,
    body_h: usize,
) -> (r: Vec<usize>)
    ensures
        r@ == pinned(kinds@, file_starts@, scroll as nat, body_h as nat),
{
    proof {
        reveal(pinned);
    }
    let mut out: Vec<usize> = Vec::new();
    if scroll == 0 || scroll >= kinds.len() {
        assert(out@ =~= seq![]);
        return out;
    }
    let fi = if file_starts.len() > 0 {
        file_starts[file_of_row(file_starts, scroll)]
    } else {
        0
    };
    if fi < scroll {
        out.push(fi);
    }
    let ghost first = out@;
    assert(first =~= if fi < scroll {
        seq![fi]
    } else {
        seq![]
    });
    // The hunk to pin is the one whose body contains the top line. If the top
    // line *is* a hunk header it's already visible, so nothing to pin.
    if fi < scroll {
        let mut i: usize = scroll;
        while i > fi && kinds[i] != RowKind::Hunk
            invariant
                fi <= i <= scroll,
                scroll < kinds.len(),
                last_hunk(kinds@, fi + 1, scroll as int) == last_hunk(kinds@, fi + 1, i as int),
            decreases i,
        {
            i -= 1;
        }
        if i > fi && i < scroll {
            out.push(i);
        }
    }
    let room = body_h.saturating_sub(1);
    if out.len() > room {
        out.truncate(room);
    }
    assert(out@ =~= pinned(kinds@, file_starts@, scroll as nat, body_h as nat));
    out
}

/// How many rows are pinned at an offset.
pub open spec fn band(
    kinds: Seq<RowKind>,
    starts: Seq<usize>,
    scroll: nat,
    body_h: nat,
) -> nat {
    pinned(kinds, starts, scroll, body_h).len()
}

/// The higher of the two bands that decide how far a document scrolls: the one
/// at the offset that shows the last row without a band, and the one at the
/// offset that shows it below the first band.
pub open spec fn bottom_band(kinds: Seq<RowKind>, starts: Seq<usize>, body_h: nat) -> nat {
    let base = (kinds.len() - body_h) as nat;
    let k1 = band(kinds, starts, base, body_h);
    let k2 = band(kinds, starts, base + k1, body_h);
    if k1 > k2 {
        k1
    } else {
        k2
    }
}

/// The furthest the document can scroll.
#[verifier::opaque]
pub open spec fn scroll_bound(kinds: Seq<RowKind>, starts: Seq<usize>, body_h: nat) -> nat {
    if kinds.len() <= body_h || body_h == 0 {
        0
    } else {
        (kinds.len() - body_h + bottom_band(kinds, starts, body_h)) as nat
    }
}

/// The furthest the document can scroll: an offset that keeps the last row
/// visible at the bottom of the body. It is **scroll-independent**: a pure
/// function of the content and body height, never of the live scroll, which is
/// what stops the viewport jittering.
///
/// Sticky headers pinned at the top eat body rows, so the bottom offset must
/// reach past `n - body_h` to reveal the final lines. The band height depends
/// on the offset it produces, and the instant a hunk header lands on the top
/// line the band loses a row, so at that boundary **no offset is
/// self-consistent**. We pick the stable, safe side: evaluate the band at a
/// fixed reference and reserve the larger of the two candidate heights.
pub fn max_scroll_for(kinds: &[RowKind], file_starts: &[usize], body_h: usize) -> (r: usize)
    ensures
        r == scroll_bound(kinds@, file_starts@, body_h as nat),
{
    proof {
        reveal(scroll_bound);
    }
    let n = kinds.len();
    if n <= body_h || body_h == 0 {
        return 0;
    }
    let base = n - body_h;
    proof {
        law_pinned_rows_are_above(kinds@, file_starts@, base as nat, body_h as nat);
    }
    let k1 = sticky_at(kinds, file_starts, base, body_h).len();
    let cand = base + k1;
    proof {
        law_pinned_rows_are_above(kinds@, file_starts@, cand as nat, body_h as nat);
    }
    let k2 = sticky_at(kinds, file_starts, cand, body_h).len();
    base + if k1 > k2 {
        k1
    } else {
        k2
    }
}

/// At the bound the last row is visible: the rows that fit below the band reach
/// it.
pub proof fn law_last_row_is_visible(kinds: Seq<RowKind>, starts: Seq<usize>, body_h: nat)
    requires
        body_h < kinds.len() <= usize::MAX,
        body_h > 0,
    ensures
        ({
            let m = scroll_bound(kinds, starts, body_h);
            &&& m < kinds.len()
            &&& m + (body_h - band(kinds, starts, m, body_h)) >= kinds.len()
        }),
{
    reveal(scroll_bound);
    let base = (kinds.len() - body_h) as nat;
    let k1 = band(kinds, starts, base, body_h);
    law_pinned_rows_are_above(kinds, starts, base, body_h);
    law_pinned_rows_are_above(kinds, starts, base + k1, body_h);
    law_pinned_rows_are_above(kinds, starts, scroll_bound(kinds, starts, body_h), body_h);
}

/// At the bound there is at most one blank row below the last one, unless two
/// rows were reserved and a file starts at the very top line, where none is
/// pinned.
pub proof fn law_at_most_one_blank_row(kinds: Seq<RowKind>, starts: Seq<usize>, body_h: nat)
    requires
        body_h < kinds.len() <= usize::MAX,
        body_h > 0,
        bottom_band(kinds, starts, body_h) <= 1 || file_start(
            starts,
            scroll_bound(kinds, starts, body_h),
        ) < scroll_bound(kinds, starts, body_h),
    ensures
        ({
            let m = scroll_bound(kinds, starts, body_h);
            m + (body_h - band(kinds, starts, m, body_h)) <= kinds.len() + 1
        }),
{
    reveal(scroll_bound);
    reveal(pinned);
    let base = (kinds.len() - body_h) as nat;
    let k1 = band(kinds, starts, base, body_h);
    law_pinned_rows_are_above(kinds, starts, base, body_h);
    law_pinned_rows_are_above(kinds, starts, base + k1, body_h);
    law_last_row_is_visible(kinds, starts, body_h);
}

/// The document never scrolls past its last row.
pub proof fn law_no_scroll_past_the_end(kinds: Seq<RowKind>, starts: Seq<usize>, body_h: nat)
    requires
        0 < kinds.len() <= usize::MAX,
    ensures
        scroll_bound(kinds, starts, body_h) < kinds.len(),
{
    reveal(scroll_bound);
    if body_h < kinds.len() && body_h > 0 {
        law_last_row_is_visible(kinds, starts, body_h);
    }
}

/// A document that fits the body does not scroll.
pub proof fn law_no_scroll_when_everything_fits(
    kinds: Seq<RowKind>,
    starts: Seq<usize>,
    body_h: nat,
)
    requires
        kinds.len() <= body_h,
    ensures
        scroll_bound(kinds, starts, body_h) == 0,
{
    reveal(scroll_bound);
}

/// What to home in on within a file.
#[derive(Debug, Clone, Copy, PartialEq, Eq, Structural)]
pub enum AnchorTarget {
    /// A content line, matched by new-side then old-side line number.
    Line(Option<usize>, Option<usize>),
    /// The nth (0-based) hunk header within the file.
    Hunk(usize),
    /// The file header (fallback when no line/hunk applies).
    Start,
}

/// A semantic bookmark of the cursor position, resilient to a document being
/// rebuilt: the file (by path), what to home in on within it, and how far down
/// the screen the cursor was.
#[derive(Debug, Clone)]
pub struct Anchor {
    pub path: String,
    pub target: AnchorTarget,
    pub screen_off: usize,
}

/// The first file from `i` on that is shown under `path`.
pub open spec fn file_named(files: Seq<FileDiff>, path: Seq<char>, i: int) -> Option<int>
    decreases files.len() - i,
{
    if i < 0 || i >= files.len() {
        None
    } else if display_path(files[i]@) == path {
        Some(i)
    } else {
        file_named(files, path, i + 1)
    }
}

/// The first row from `i` up to `end` with the given number in the new file.
pub open spec fn row_with_new(doc: Seq<Row>, no: usize, i: int, end: int) -> Option<int>
    decreases end - i,
{
    if i >= end {
        None
    } else if doc[i].new_no == Some(no) {
        Some(i)
    } else {
        row_with_new(doc, no, i + 1, end)
    }
}

/// The first row from `i` up to `end` with the given number in the old file.
pub open spec fn row_with_old(doc: Seq<Row>, no: usize, i: int, end: int) -> Option<int>
    decreases end - i,
{
    if i >= end {
        None
    } else if doc[i].old_no == Some(no) {
        Some(i)
    } else {
        row_with_old(doc, no, i + 1, end)
    }
}

/// The hunk header from `i` up to `end` that has `ord` others before it.
pub open spec fn nth_hunk(doc: Seq<Row>, ord: nat, i: int, end: int) -> Option<int>
    decreases end - i,
{
    if i >= end {
        None
    } else if doc[i].kind != RowKind::Hunk {
        nth_hunk(doc, ord, i + 1, end)
    } else if ord == 0 {
        Some(i)
    } else {
        nth_hunk(doc, (ord - 1) as nat, i + 1, end)
    }
}

/// The end of the rows of file `fi`.
pub open spec fn file_end(starts: Seq<usize>, fi: int, rows: nat) -> nat {
    if fi + 1 < starts.len() {
        starts[fi + 1] as nat
    } else {
        rows
    }
}

/// The row that a target in file `fi` stands for; the file's header where it
/// cannot be found.
pub open spec fn target_row(
    starts: Seq<usize>,
    doc: Seq<Row>,
    fi: int,
    target: AnchorTarget,
) -> int {
    let start = starts[fi] as int;
    let end = file_end(starts, fi, doc.len()) as int;
    match target {
        AnchorTarget::Start => start,
        AnchorTarget::Line(old_no, new_no) => {
            let by_new = match new_no {
                Some(n) => row_with_new(doc, n, start, end),
                None => None,
            };
            let by_old = match old_no {
                Some(o) => row_with_old(doc, o, start, end),
                None => None,
            };
            match (by_new, by_old) {
                (Some(r), _) => r,
                (None, Some(r)) => r,
                (None, None) => start,
            }
        },
        AnchorTarget::Hunk(ord) => match nth_hunk(doc, ord as nat, start, end) {
            Some(r) => r,
            None => start,
        },
    }
}

/// The row that an anchor stands for; the top where its file is gone.
pub open spec fn anchor_row(
    files: Seq<FileDiff>,
    starts: Seq<usize>,
    doc: Seq<Row>,
    path: Seq<char>,
    target: AnchorTarget,
) -> int {
    match file_named(files, path, 0) {
        Some(fi) => target_row(starts, doc, fi, target),
        None => 0,
    }
}

/// Whether the rows of the file that an anchor names lie in the document.
pub open spec fn anchor_fits(
    files: Seq<FileDiff>,
    starts: Seq<usize>,
    doc: Seq<Row>,
    path: Seq<char>,
) -> bool {
    file_named(files, path, 0) matches Some(fi) ==> fi < starts.len() && starts[fi] <= file_end(
        starts,
        fi,
        doc.len(),
    ) <= doc.len()
}

/// Whether every file has rows of its own in the document.
pub open spec fn covers_files(files: Seq<FileDiff>, starts: Seq<usize>, doc: Seq<Row>) -> bool {
    &&& starts.len() == files.len()
    &&& ascending(starts)
    &&& forall|k: int| 0 <= k < starts.len() ==> (#[trigger] starts[k]) < doc.len()
}

pub proof fn lemma_file_named(files: Seq<FileDiff>, path: Seq<char>, i: int)
    requires
        0 <= i,
    ensures
        file_named(files, path, i) matches Some(k) ==> i <= k < files.len() && display_path(
            files[k]@,
        ) == path,
    decreases files.len() - i,
{
    if i < files.len() && display_path(files[i]@) != path {
        lemma_file_named(files, path, i + 1);
    }
}

proof fn lemma_row_with(doc: Seq<Row>, no: usize, i: int, end: int)
    requires
        i <= end,
    ensures
        row_with_new(doc, no, i, end) matches Some(r) ==> i <= r < end && doc[r].new_no == Some(no),
        row_with_old(doc, no, i, end) matches Some(r) ==> i <= r < end && doc[r].old_no == Some(no),
    decreases end - i,
{
    if i < end {
        lemma_row_with(doc, no, i + 1, end);
    }
}

proof fn lemma_nth_hunk(doc: Seq<Row>, ord: nat, i: int, end: int)
    requires
        i <= end,
    ensures
        nth_hunk(doc, ord, i, end) matches Some(r) ==> i <= r < end && doc[r].kind == RowKind::Hunk,
    decreases end - i,
{
    if i < end {
        if doc[i].kind != RowKind::Hunk {
            lemma_nth_hunk(doc, ord, i + 1, end);
        } else if ord > 0 {
            lemma_nth_hunk(doc, (ord - 1) as nat, i + 1, end);
        }
    }
}

/// An anchor whose file is still there resolves to a row of that file.
pub proof fn law_anchor_stays_in_its_file(
    files: Seq<FileDiff>,
    starts: Seq<usize>,
    doc: Seq<Row>,
    path: Seq<char>,
    target: AnchorTarget,
)
    requires
        covers_files(files, starts, doc),
    ensures
        file_named(files, path, 0) matches Some(fi) ==> starts[fi] <= anchor_row(
            files,
            starts,
            doc,
            path,
            target,
        ) < file_end(starts, fi, doc.len()) && display_path(files[fi]@) == path,
        doc.len() > 0 ==> 0 <= anchor_row(files, starts, doc, path, target) < doc.len(),
{
    lemma_file_named(files, path, 0);
    if let Some(fi) = file_named(files, path, 0) {
        let start = starts[fi] as int;
        let end = file_end(starts, fi, doc.len()) as int;
        assert(start < end <= doc.len());
        match target {
            AnchorTarget::Line(old_no, new_no) => {
                if let Some(n) = new_no {
                    lemma_row_with(doc, n, start, end);
                }
                if let Some(o) = old_no {
                    lemma_row_with(doc, o, start, end);
                }
            },
            AnchorTarget::Hunk(ord) => {
                lemma_nth_hunk(doc, ord as nat, start, end);
            },
            AnchorTarget::Start => {},
        }
    }
}

/// The first row with the given number in the new file.
fn find_new(doc: &[Row], no: usize, start: usize, end: usize) -> (r: Option<usize>)
    requires
        start <= end <= doc.len(),
    ensures
        r is Some == row_with_new(doc@, no, start as int, end as int) is Some,
        r matches Some(k) ==> Some(k as int) == row_with_new(doc@, no, start as int, end as int),
{
    let mut i: usize = start;
    while i < end
        invariant
            start <= i <= end <= doc.len(),
            row_with_new(doc@, no, start as int, end as int) == row_with_new(
                doc@,
                no,
                i as int,
                end as int,
            ),
        decreases end - i,
    {
        if let Some(n) = doc[i].new_no {
            if n == no {
                return Some(i);
            }
        }
        i += 1;
    }
    None
}

/// The first row with the given number in the old file.
fn find_old(doc: &[Row], no: usize, start: usize, end: usize) -> (r: Option<usize>)
    requires
        start <= end <= doc.len(),
    ensures
        r is Some == row_with_old(doc@, no, start as int, end as int) is Some,
        r matches Some(k) ==> Some(k as int) == row_with_old(doc@, no, start as int, end as int),
{
    let mut i: usize = start;
    while i < end
        invariant
            start <= i <= end <= doc.len(),
            row_with_old(doc@, no, start as int, end as int) == row_with_old(
                doc@,
                no,
                i as int,
                end as int,
            ),
        decreases end - i,
    {
        if let Some(n) = doc[i].old_no {
            if n == no {
                return Some(i);
            }
        }
        i += 1;
    }
    None
}

/// The hunk header that has `ord` others before it.
fn find_nth_hunk(doc: &[Row], ord: usize, start: usize, end: usize) -> (r: Option<usize>)
    requires
        start <= end <= doc.len(),
    ensures
        r is Some == nth_hunk(doc@, ord as nat, start as int, end as int) is Some,
        r matches Some(k) ==> Some(k as int) == nth_hunk(
            doc@,
            ord as nat,
            start as int,
            end as int,
        ),
{
    let mut i: usize = start;
    let mut left: usize = ord;
    while i < end
        invariant
            start <= i <= end <= doc.len(),
            nth_hunk(doc@, ord as nat, start as int, end as int) == nth_hunk(
                doc@,
                left as nat,
                i as int,
                end as int,
            ),
        decreases end - i,
    {
        if doc[i].kind == RowKind::Hunk {
            if left == 0 {
                return Some(i);
            }
            left -= 1;
        }
        i += 1;
    }
    None
}

/// Resolve a captured anchor to a row in a document. Falls back to the file's
/// header row (or row 0, if the file is gone) when the exact line or hunk can't
/// be found.
pub fn resolve_anchor_row(
    files: &[FileDiff],
    starts: &[usize],
    doc: &[Row],
    a: &Anchor,
) -> (r: usize)
    requires
        anchor_fits(files@, starts@, doc@, a.path@),
    ensures
        r == anchor_row(files@, starts@, doc@, a.path@, a.target),
{
    let mut fi: usize = 0;
    while fi < files.len() && !same(files[fi].path(), &a.path)
        invariant
            fi <= files.len(),
            file_named(files@, a.path@, 0) == file_named(files@, a.path@, fi as int),
        decreases files.len() - fi,
    {
        fi += 1;
    }
    if fi == files.len() {
        return 0;
    }
    let n = doc.len();
    let start = starts[fi];
    let end = if fi + 1 < starts.len() {
        starts[fi + 1]
    } else {
        n
    };
    match a.target {
        AnchorTarget::Start => start,
        AnchorTarget::Line(old_no, new_no) => {
            let by_new = match new_no {
                Some(no) => find_new(doc, no, start, end),
                None => None,
            };
            let by_old = match old_no {
                Some(no) => find_old(doc, no, start, end),
                None => None,
            };
            match by_new {
                Some(row) => row,
                None => match by_old {
                    Some(row) => row,
                    None => start,
                },
            }
        },
        AnchorTarget::Hunk(ord) => match find_nth_hunk(doc, ord, start, end) {
            Some(row) => row,
            None => start,
        },
    }
}

/// New horizontal scroll that brings the column range `[cs, ce)` into a view
/// `vw` columns wide: scroll left if the hit starts before the view, right if
/// it runs past it (favouring the start when the hit is wider than the view).
/// Returns the current offset unchanged when the hit already fits on screen.
pub fn reveal_hit(hscroll: usize, cs: usize, ce: usize, vw: usize) -> (r: usize)
    ensures
        r == revealed(hscroll as nat, cs as nat, ce as nat, vw as nat),
{
    if cs < hscroll {
        cs
    } else if ce > hscroll && ce - hscroll > vw {
        if ce - vw < cs {
            ce - vw
        } else {
            cs
        }
    } else {
        hscroll
    }
}

/// The horizontal scroll that brings the columns from `cs` up to `ce` into a
/// view of `vw` columns.
pub open spec fn revealed(hscroll: nat, cs: nat, ce: nat, vw: nat) -> nat {
    if cs < hscroll {
        cs
    } else if ce > hscroll + vw {
        if ce - vw < cs {
            (ce - vw) as nat
        } else {
            cs
        }
    } else {
        hscroll
    }
}

/// What is revealed is in view: its start always, its end too where it is no
/// wider than the view.
pub proof fn law_revealed_is_in_view(hscroll: nat, cs: nat, ce: nat, vw: nat)
    requires
        cs < ce,
        vw > 0,
    ensures
        ({
            let h = revealed(hscroll, cs, ce, vw);
            &&& h <= cs < h + vw
            &&& ce - cs <= vw ==> ce <= h + vw
        }),
{
}

/// In a body with room for both, the header of the file of the top line is
/// pinned where it is above that line, and so is the header of its hunk: the
/// last hunk header of the file up to the line.
pub proof fn law_headers_of_the_top_line_are_pinned(
    kinds: Seq<RowKind>,
    starts: Seq<usize>,
    scroll: nat,
    body_h: nat,
    f: int,
    h: int,
)
    requires
        0 < scroll < kinds.len() <= usize::MAX,
        body_h >= 3,
        ascending(starts),
        0 <= f < starts.len(),
        starts[0] == 0,
        starts[f] <= scroll,
        f + 1 < starts.len() ==> scroll < starts[f + 1],
        starts[f] <= h <= scroll,
        forall|k: int| h < k <= scroll ==> (#[trigger] kinds[k]) != RowKind::Hunk,
    ensures
        starts[f] == scroll ==> pinned(kinds, starts, scroll, body_h) == Seq::<usize>::empty(),
        starts[f] < h < scroll && kinds[h] == RowKind::Hunk ==> pinned(
            kinds,
            starts,
            scroll,
            body_h,
        ) == seq![starts[f], h as usize],
        starts[f] < h == scroll && kinds[h] == RowKind::Hunk ==> pinned(
            kinds,
            starts,
            scroll,
            body_h,
        ) == seq![starts[f]],
        starts[f] == h < scroll ==> pinned(kinds, starts, scroll, body_h) == seq![starts[f]],
{
    reveal(pinned);
    law_owner(starts, scroll);
    let o = owner(starts, scroll) as int;
    if o < f {
        assert(scroll < starts[f]);
    }
    if o > f {
        assert(starts[f + 1] <= starts[o]) by {
            if f + 1 < o {
                assert(starts[f + 1] < starts[o]);
            }
        }
    }
    assert(o == f);
    lemma_last_of_the_hunks(kinds, starts[f] + 1, scroll as int, h);
    assert(headers_above(kinds, starts, scroll).len() <= 2);
}

proof fn lemma_last_of_the_hunks(kinds: Seq<RowKind>, lo: int, i: int, h: int)
    requires
        0 < lo,
        lo - 1 <= h <= i < kinds.len(),
        forall|k: int| h < k <= i ==> (#[trigger] kinds[k]) != RowKind::Hunk,
    ensures
        h >= lo && kinds[h] == RowKind::Hunk ==> last_hunk(kinds, lo, i) == Some(h),
        h < lo ==> last_hunk(kinds, lo, i) == None::<int>,
    decreases i - h,
{
    if h < i {
        lemma_last_of_the_hunks(kinds, lo, i - 1, h);
    }
}

/// A body of a single row pins nothing, and one of two rows only the header of
/// the file where it is above the top line.
pub proof fn law_small_bodies_pin_less(
    kinds: Seq<RowKind>,
    starts: Seq<usize>,
    scroll: nat,
    tall: nat,
)
    requires
        0 < scroll < kinds.len() <= usize::MAX,
        tall >= 3,
    ensures
        pinned(kinds, starts, scroll, 1) == Seq::<usize>::empty(),
        ({
            let p = pinned(kinds, starts, scroll, tall);
            pinned(kinds, starts, scroll, 2) == if p.len() > 0 {
                seq![p[0]]
            } else {
                seq![]
            }
        }),
        pinned(kinds, starts, 0, tall) == Seq::<usize>::empty(),
{
    reveal(pinned);
    let v = headers_above(kinds, starts, scroll);
    assert(v.len() <= 2);
    assert(v.take(0) == Seq::<usize>::empty());
    if v.len() == 2 {
        assert(v.take(1) == seq![v[0]]);
    } else if v.len() == 1 {
        assert(v == seq![v[0]]);
    } else {
        assert(v == Seq::<usize>::empty());
    }
}

proof fn lemma_row_with_number(doc: Seq<Row>, no: usize, i: int, end: int, k: int)
    requires
        0 <= i <= k < end <= doc.len(),
    ensures
        doc[k].new_no == Some(no) ==> (row_with_new(doc, no, i, end) matches Some(r) && i <= r <= k
            && doc[r].new_no == Some(no)),
        doc[k].old_no == Some(no) ==> (row_with_old(doc, no, i, end) matches Some(r) && i <= r <= k
            && doc[r].old_no == Some(no)),
    decreases k - i,
{
    if i < k {
        lemma_row_with_number(doc, no, i + 1, end, k);
    }
}

/// A bookmarked line is found by its number in the new file wherever the file
/// has a row of that number, else by its number in the old file; the first row
/// with the number is taken.
pub proof fn law_lines_are_found_by_number(
    starts: Seq<usize>,
    doc: Seq<Row>,
    fi: int,
    old_no: Option<usize>,
    no: usize,
    k: int,
)
    requires
        0 <= fi < starts.len(),
        starts[fi] <= k < file_end(starts, fi, doc.len()) <= doc.len(),
    ensures
        doc[k].new_no == Some(no) ==> ({
            let r = target_row(starts, doc, fi, AnchorTarget::Line(old_no, Some(no)));
            starts[fi] <= r <= k && doc[r].new_no == Some(no)
        }),
        doc[k].old_no == Some(no) ==> ({
            let r = target_row(starts, doc, fi, AnchorTarget::Line(Some(no), None));
            starts[fi] <= r <= k && doc[r].old_no == Some(no)
        }),
{
    lemma_row_with_number(
        doc,
        no,
        starts[fi] as int,
        file_end(starts, fi, doc.len()) as int,
        k,
    );
}

/// A bookmarked hunk is found by its place: the header with as many hunk headers
/// of the file before it. The file's own header stands for one that is gone.
pub proof fn law_hunks_are_found_by_place(
    starts: Seq<usize>,
    doc: Seq<Row>,
    fi: int,
    a: int,
    b: int,
)
    requires
        0 <= fi < starts.len(),
        starts[fi] <= a < b < file_end(starts, fi, doc.len()) <= doc.len(),
        doc[a].kind == RowKind::Hunk,
        doc[b].kind == RowKind::Hunk,
        forall|k: int| starts[fi] <= k < a ==> (#[trigger] doc[k]).kind != RowKind::Hunk,
        forall|k: int| a < k < b ==> (#[trigger] doc[k]).kind != RowKind::Hunk,
    ensures
        target_row(starts, doc, fi, AnchorTarget::Hunk(0)) == a,
        target_row(starts, doc, fi, AnchorTarget::Hunk(1)) == b,
        target_row(starts, doc, fi, AnchorTarget::Start) == starts[fi],
{
    let end = file_end(starts, fi, doc.len()) as int;
    lemma_next_hunk(doc, 0, starts[fi] as int, a, end);
    lemma_next_hunk(doc, 1, starts[fi] as int, a, end);
    lemma_next_hunk(doc, 0, a + 1, b, end);
}

proof fn lemma_next_hunk(doc: Seq<Row>, ord: nat, i: int, a: int, end: int)
    requires
        0 <= i <= a < end <= doc.len(),
        doc[a].kind == RowKind::Hunk,
        forall|k: int| i <= k < a ==> (#[trigger] doc[k]).kind != RowKind::Hunk,
    ensures
        ord == 0 ==> nth_hunk(doc, ord, i, end) == Some(a),
        ord > 0 ==> nth_hunk(doc, ord, i, end) == nth_hunk(doc, (ord - 1) as nat, a + 1, end),
    decreases a - i,
{
    if i < a {
        lemma_next_hunk(doc, ord, i + 1, a, end);
    }
}

proof fn lemma_one_hunk_on(doc: Seq<Row>, ord: nat, i: int, end: int)
    requires
        0 <= i <= end <= doc.len(),
    ensures
        nth_hunk(doc, ord, i, end) matches Some(a) ==> i <= a < end && doc[a].kind == RowKind::Hunk
            && nth_hunk(doc, ord + 1, i, end) == nth_hunk(doc, 0, a + 1, end),
    decreases end - i,
{
    if i < end {
        if doc[i].kind != RowKind::Hunk {
            lemma_one_hunk_on(doc, ord, i + 1, end);
        } else if ord > 0 {
            lemma_one_hunk_on(doc, (ord - 1) as nat, i + 1, end);
        }
    }
}

/// The place of a bookmarked hunk counts up hunk for hunk: one place on is the
/// next hunk header of the file.
pub proof fn law_hunks_count_up(
    starts: Seq<usize>,
    doc: Seq<Row>,
    fi: int,
    ord: usize,
    a: int,
    b: int,
)
    requires
        0 <= fi < starts.len(),
        ord < usize::MAX,
        a == target_row(starts, doc, fi, AnchorTarget::Hunk(ord)),
        starts[fi] < a < b < file_end(starts, fi, doc.len()) <= doc.len(),
        doc[b].kind == RowKind::Hunk,
        forall|k: int| a < k < b ==> (#[trigger] doc[k]).kind != RowKind::Hunk,
    ensures
        doc[a].kind == RowKind::Hunk,
        target_row(starts, doc, fi, AnchorTarget::Hunk((ord + 1) as usize)) == b,
{
    let end = file_end(starts, fi, doc.len()) as int;
    lemma_one_hunk_on(doc, ord as nat, starts[fi] as int, end);
    lemma_next_hunk(doc, 0, a + 1, b, end);
}

/// The view scrolls no further than it takes to reveal: not at all where the
/// columns are in view, and to their start or their end where they are not.
pub proof fn law_revealing_moves_as_little_as_it_can(hscroll: nat, cs: nat, ce: nat, vw: nat)
    requires
        cs < ce,
        ce - cs <= vw,
    ensures
        hscroll <= cs && ce <= hscroll + vw ==> revealed(hscroll, cs, ce, vw) == hscroll,
        cs < hscroll ==> revealed(hscroll, cs, ce, vw) == cs,
        hscroll <= cs && ce > hscroll + vw ==> revealed(hscroll, cs, ce, vw) + vw == ce,
{
}

} // verus!
