//! Taking in documents: at the start, file by file, and after a rebuild with
//! the cursor put back where it was.

use vstd::prelude::*;

use crate::actions::hunk_count;
use crate::app::{App, Doc, Nav, Search};
#[allow(unused_imports)]
use crate::app::{law_moving_goes_row_for_row, less, rows_below};
use crate::diff::{parse, split_files, FileDiff};
#[allow(unused_imports)]
use crate::diff::{display_path, file_views, files_of, numbers_fit, sections_of, FileView};
use crate::rows::{assemble_document, file_header_row, Colored, Row, RowKind};
#[allow(unused_imports)]
use crate::rows::{
    all_drawable, document_rows, document_syntax, header_row, highlighted, row_views, ColoredView,
};
use crate::scroll::{resolve_anchor_row, Anchor, AnchorTarget};
#[allow(unused_imports)]
use crate::scroll::{
    anchor_fits, anchor_row, covers_files, law_anchor_stays_in_its_file, law_owner, owner,
    scroll_bound,
};
use crate::text::same;
#[allow(unused_imports)]
use crate::text::strings;

verus! {

impl Doc {
    /// No document.
    pub fn empty() -> (r: Doc)
        ensures
            r.wf(),
            r.files@.len() == 0,
            r.raw@.len() == 0,
            r.rows@.len() == 0,
            r.starts@.len() == 0,
    {
        Doc { files: Vec::new(), raw: Vec::new(), rows: Vec::new(), starts: Vec::new() }
    }

    /// Appends the rows of a file behind a header for it.
    fn push_rows(&mut self, header: Row, body: Vec<Row>)
        requires
            old(self).wf(),
            old(self).starts@.len() < old(self).files@.len(),
        ensures
            final(self).wf(),
            final(self).files == old(self).files,
            final(self).raw == old(self).raw,
            final(self).starts@ == old(self).starts@.push(old(self).rows@.len() as usize),
            final(self).rows@ == old(self).rows@.push(header) + body@,
    {
        let ghost before = *self;
        let mut rest = body;
        self.starts.push(self.rows.len());
        self.rows.push(header);
        self.rows.append(&mut rest);
        proof {
            let s = self.starts@;
            let n = before.starts@.len() as int;
            assert forall|i: int, j: int| 0 <= i < j < s.len() implies s[i] < s[j] by {
                if j < n {
                    assert(before.starts@[i] < before.starts@[j]);
                }
            }
        }
    }

    /// The whole document of files whose lines are colored.
    pub fn assembled(
        files: Vec<FileDiff>,
        raw: Vec<String>,
        syntax: &[Vec<Vec<Colored>>],
        intraline: bool,
        tab: usize,
    ) -> (r: Doc)
        requires
            syntax@.len() == files@.len(),
            forall|k: int|
                0 <= k < files@.len() ==> highlighted((#[trigger] files@[k])@, syntax@[k]@),
        ensures
            r.wf(),
            covers_files(r.files@, r.starts@, r.rows@),
            all_drawable(r.rows@),
            r.files == files,
            r.raw == raw,
            row_views(r.rows@) == document_rows(
                file_views(files@),
                document_syntax(syntax@),
                intraline,
                tab as nat,
                files@.len() as int,
            ),
            r.starts@.len() == files@.len(),
            forall|k: int|
                0 <= k < files@.len() ==> (#[trigger] r.starts@[k]) == document_rows(
                    file_views(files@),
                    document_syntax(syntax@),
                    intraline,
                    tab as nat,
                    k,
                ).len(),
            forall|k: int|
                0 <= k < files@.len() ==> r.rows@[(#[trigger] r.starts@[k]) as int]@ == header_row(
                    files@[k]@,
                ),
    {
        let (rows, starts) = assemble_document(&files, syntax, intraline, tab);
        proof {
            let fs = file_views(files@);
            let syn = document_syntax(syntax@);
            let n = files@.len() as int;
            assert(rows@.len() == row_views(rows@).len());
            assert forall|i: int, j: int| 0 <= i < j < starts@.len() implies starts@[i]
                < starts@[j] by {
                lemma_documents_grow(fs, syn, intraline, tab as nat, i, j);
            }
            assert forall|k: int| 0 <= k < starts@.len() implies (#[trigger] starts@[k])
                < rows@.len() by {
                lemma_documents_grow(fs, syn, intraline, tab as nat, k, n);
            }
            assert forall|k: int| 0 <= k < files@.len() implies rows@[(
            #[trigger] starts@[k]) as int]@ == header_row(files@[k]@) by {
                law_files_start_at_their_headers(fs, syn, intraline, tab as nat, k, n);
                assert(row_views(rows@)[starts@[k] as int] == rows@[starts@[k] as int]@);
            }
        }
        Doc { files, raw, rows, starts }
    }

    /// Append the body of a file that the document has no rows of yet.
    pub fn push_body(&mut self, idx: usize, body: Vec<Row>) -> (r: bool)
        requires
            old(self).wf(),
            idx == old(self).starts@.len(),
        ensures
            final(self).wf(),
            r == (idx < old(self).files@.len()),
            final(self).files == old(self).files,
            final(self).raw == old(self).raw,
            !r ==> *final(self) == *old(self),
            r ==> final(self).starts@ == old(self).starts@.push(old(self).rows@.len() as usize),
            r ==> row_views(final(self).rows@) == row_views(old(self).rows@).push(
                header_row(old(self).files@[idx as int]@),
            ) + row_views(body@),
            all_drawable(old(self).rows@) && all_drawable(body@) ==> all_drawable(
                final(self).rows@,
            ),
    {
        if idx >= self.files.len() {
            return false;
        }
        let header = file_header_row(&self.files[idx]);
        let ghost before = row_views(self.rows@);
        let ghost h = header@;
        self.push_rows(header, body);
        assert(row_views(self.rows@) =~= before.push(h) + row_views(body@));
        true
    }

    /// Append a file that arrived with its raw patch and its rows.
    pub fn push_file(&mut self, file: FileDiff, raw: String, body: Vec<Row>)
        requires
            old(self).wf(),
            old(self).starts@.len() == old(self).files@.len(),
        ensures
            final(self).wf(),
            final(self).starts@.len() == final(self).files@.len(),
            final(self).files@ == old(self).files@.push(file),
            final(self).raw@ == old(self).raw@.push(raw),
            final(self).starts@ == old(self).starts@.push(old(self).rows@.len() as usize),
            row_views(final(self).rows@) == row_views(old(self).rows@).push(header_row(file@))
                + row_views(body@),
            all_drawable(old(self).rows@) && all_drawable(body@) ==> all_drawable(
                final(self).rows@,
            ),
    {
        let header = file_header_row(&file);
        let ghost before = row_views(self.rows@);
        let ghost h = header@;
        self.files.push(file);
        self.raw.push(raw);
        self.push_rows(header, body);
        assert(row_views(self.rows@) =~= before.push(h) + row_views(body@));
    }
}

impl App {
    /// The file under the cursor.
    pub open spec fn cursor_file(&self) -> int {
        owner(self.doc.starts@, self.nav.cursor as nat) as int
    }

    /// The path of the file under the cursor.
    pub open spec fn cursor_path(&self) -> Seq<char> {
        if self.cursor_file() < self.doc.files@.len() {
            display_path(self.doc.files@[self.cursor_file()]@)
        } else {
            seq![]
        }
    }

    /// What the cursor is on, in terms that outlive the document: a line by its
    /// numbers, a hunk by its place in the file, else the file.
    pub open spec fn cursor_target(&self) -> AnchorTarget {
        let c = self.nav.cursor as int;
        if c >= self.doc.rows@.len() {
            AnchorTarget::Start
        } else {
            let row = self.doc.rows@[c];
            match row.kind {
                RowKind::Add | RowKind::Remove | RowKind::Context => AnchorTarget::Line(
                    row.old_no,
                    row.new_no,
                ),
                RowKind::Hunk => AnchorTarget::Hunk(
                    less(
                        hunk_count(
                            self.doc.rows@,
                            self.doc.starts@[self.cursor_file()] as int,
                            c + 1,
                        ),
                        1,
                    ) as usize,
                ),
                _ => AnchorTarget::Start,
            }
        }
    }

    /// 0-based index of the hunk `cursor` sits on, counted within its own file.
    pub fn hunk_ord_in_file(&self, file: usize, cursor: usize) -> (r: usize)
        requires
            cursor < self.doc.rows@.len(),
            file < self.doc.starts@.len(),
            self.doc.starts@[file as int] <= cursor,
        ensures
            r == less(
                hunk_count(self.doc.rows@, self.doc.starts@[file as int] as int, cursor + 1),
                1,
            ),
    {
        let len = self.doc.rows.len();
        let start = self.doc.starts[file];
        let mut n: usize = 0;
        let mut i: usize = start;
        while i <= cursor
            invariant
                start <= i <= cursor + 1,
                cursor < len,
                len == self.doc.rows@.len(),
                n == hunk_count(self.doc.rows@, start as int, i as int),
                n <= i - start,
            decreases cursor + 1 - i,
        {
            if self.doc.rows[i].kind == RowKind::Hunk {
                n += 1;
            }
            i += 1;
        }
        n.saturating_sub(1)
    }

    /// Capture where the cursor sits, semantically, so it can be found again in
    /// a rebuilt document: which file (by path), which line (or hunk), and how
    /// far down the screen it was.
    pub fn capture_anchor(&self) -> (r: Anchor)
        requires
            self.doc.wf(),
        ensures
            r.path@ == self.cursor_path(),
            r.target == self.cursor_target(),
            r.screen_off == less(self.nav.cursor as nat, self.nav.scroll as nat),
    {
        let screen_off = self.nav.cursor.saturating_sub(self.nav.scroll);
        let file = self.file_at(self.nav.cursor);
        let path = if file < self.doc.files.len() {
            self.doc.files[file].path().to_string()
        } else {
            String::new()
        };
        assert(path@ =~= self.cursor_path());
        let target = if self.nav.cursor < self.doc.rows.len() {
            let row = &self.doc.rows[self.nav.cursor];
            match row.kind {
                RowKind::Add | RowKind::Remove | RowKind::Context => AnchorTarget::Line(
                    row.old_no,
                    row.new_no,
                ),
                RowKind::Hunk => {
                    proof {
                        law_owner(self.doc.starts@, self.nav.cursor as nat);
                    }
                    AnchorTarget::Hunk(self.hunk_ord_in_file(file, self.nav.cursor))
                },
                _ => AnchorTarget::Start,
            }
        } else {
            AnchorTarget::Start
        };
        Anchor { path, target, screen_off }
    }

    /// Resolve a captured anchor to a row in the current document. Falls back to
    /// the file's header (or the top, if the file is gone) when the exact line
    /// or hunk can't be found.
    pub fn resolve_anchor(&self, a: &Anchor) -> (r: usize)
        requires
            anchor_fits(self.doc.files@, self.doc.starts@, self.doc.rows@, a.path@),
        ensures
            r == anchor_row(self.doc.files@, self.doc.starts@, self.doc.rows@, a.path@, a.target),
    {
        resolve_anchor_row(&self.doc.files, &self.doc.starts, &self.doc.rows, a)
    }

    /// Where the cursor is put in a rebuilt document: on what it was on, as far
    /// down the screen as it was.
    pub open spec fn nav_in(&self, doc: Doc) -> Nav {
        let row = anchor_row(
            doc.files@,
            doc.starts@,
            doc.rows@,
            self.cursor_path(),
            self.cursor_target(),
        );
        let off = less(self.nav.cursor as nat, self.nav.scroll as nat);
        (App { doc, ..*self }).moved(
            Nav {
                cursor: row as usize,
                scroll: less(row as nat, off) as usize,
                ..self.nav
            },
            0,
        )
    }

    /// Swap in a rebuilt document, restoring the cursor to the same place in
    /// it. The anchor is captured against the current document at swap time, so
    /// navigation during the build is honoured.
    pub fn take_document(&mut self, doc: Doc)
        requires
            old(self).doc.wf(),
            doc.wf(),
            covers_files(doc.files@, doc.starts@, doc.rows@),
        ensures
            *final(self) == (App {
                doc,
                nav: old(self).nav_in(doc),
                search: final(self).search,
                ..*old(self)
            }),
            final(self).search == (Search {
                matches: final(self).search.matches,
                current: None,
                ..old(self).search
            }),
            final(self).search.matches@ == (App { doc, ..*old(self) }).hits_of(
                old(self).search.query@,
            ),
            final(self).doc.wf(),
    {
        let anchor = self.capture_anchor();
        self.doc = doc;
        proof {
            law_anchor_stays_in_its_file(
                doc.files@,
                doc.starts@,
                doc.rows@,
                anchor.path@,
                anchor.target,
            );
            assert(anchor_fits(doc.files@, doc.starts@, doc.rows@, anchor.path@)) by {
                lemma_covered(doc.files@, doc.starts@, doc.rows@, anchor.path@);
            }
        }
        let row = self.resolve_anchor(&anchor);
        self.nav.cursor = row;
        self.nav.scroll = row.saturating_sub(anchor.screen_off);
        self.move_cursor(0);
        self.refresh_search();
    }

    /// Take in a file that a piped diff delivered.
    pub fn take_file(&mut self, file: FileDiff, raw: String, body: Vec<Row>)
        requires
            old(self).doc.wf(),
            old(self).doc.starts@.len() == old(self).doc.files@.len(),
        ensures
            *final(self) == (App { doc: final(self).doc, ..*old(self) }),
            final(self).doc.wf(),
            final(self).doc.starts@.len() == final(self).doc.files@.len(),
            final(self).doc.files@ == old(self).doc.files@.push(file),
            final(self).doc.raw@ == old(self).doc.raw@.push(raw),
            final(self).doc.starts@ == old(self).doc.starts@.push(
                old(self).doc.rows@.len() as usize,
            ),
            row_views(final(self).doc.rows@) == row_views(old(self).doc.rows@).push(
                header_row(file@),
            ) + row_views(body@),
            all_drawable(old(self).doc.rows@) && all_drawable(body@) ==> all_drawable(
                final(self).doc.rows@,
            ),
    {
        self.doc.push_file(file, raw, body);
    }

    /// Take in the rows of a file whose diff is already here. Returns whether
    /// there is such a file.
    pub fn take_body(&mut self, idx: usize, body: Vec<Row>) -> (r: bool)
        requires
            old(self).doc.wf(),
            idx == old(self).doc.starts@.len(),
        ensures
            *final(self) == (App { doc: final(self).doc, ..*old(self) }),
            final(self).doc.wf(),
            r == (idx < old(self).doc.files@.len()),
            !r ==> final(self).doc == old(self).doc,
            final(self).doc.files == old(self).doc.files,
            final(self).doc.raw == old(self).doc.raw,
            r ==> final(self).doc.starts@ == old(self).doc.starts@.push(
                old(self).doc.rows@.len() as usize,
            ),
            r ==> row_views(final(self).doc.rows@) == row_views(old(self).doc.rows@).push(
                header_row(old(self).doc.files@[idx as int]@),
            ) + row_views(body@),
            all_drawable(old(self).doc.rows@) && all_drawable(body@) ==> all_drawable(
                final(self).doc.rows@,
            ),
    {
        self.doc.push_body(idx, body)
    }

    /// Initial load: at the top of a document that has the files of the diff
    /// but no rows yet. Without a diff there are no files.
    pub fn start(&mut self, text: Option<String>)
        requires
            text matches Some(t) ==> numbers_fit(t@),
        ensures
            *final(self) == (App {
                doc: final(self).doc,
                nav: Nav { selected: 0, cursor: 0, scroll: 0, ..old(self).nav },
                last_diff: final(self).last_diff,
                ..*old(self)
            }),
            final(self).doc.wf(),
            final(self).doc.rows@.len() == 0,
            final(self).doc.starts@.len() == 0,
            match text {
                Some(t) => {
                    &&& file_views(final(self).doc.files@) == files_of(t@)
                    &&& strings(final(self).doc.raw@) == sections_of(t@)
                    &&& final(self).last_diff@ == t@
                },
                None => {
                    &&& final(self).doc.files@.len() == 0
                    &&& final(self).doc.raw@.len() == 0
                    &&& final(self).last_diff@.len() == 0
                },
            },
    {
        self.nav.selected = 0;
        self.nav.cursor = 0;
        self.nav.scroll = 0;
        let mut doc = Doc::empty();
        match text {
            Some(t) => {
                doc.files = parse(&t);
                doc.raw = split_files(&t);
                self.last_diff = t;
            },
            None => {
                self.last_diff = String::new();
            },
        }
        self.doc = doc;
    }

    /// Whether a poll's diff differs from the one that is shown.
    pub fn poll_changed(&self, text: &str) -> (r: bool)
        ensures
            r == (text@ != self.last_diff@),
    {
        !same(text, &self.last_diff)
    }
}

/// Whether the cursor's row can be told by its numbers from those before it in
/// its file: no such row has its number in the new file or, without one, its
/// number in the old file.
pub open spec fn told_apart(rows: Seq<Row>, start: int, c: int) -> bool {
    match rows[c].kind {
        RowKind::Add | RowKind::Remove | RowKind::Context => if rows[c].new_no is Some {
            forall|k: int| start <= k < c ==> (#[trigger] rows[k]).new_no != rows[c].new_no
        } else {
            rows[c].old_no is Some && forall|k: int|
                start <= k < c ==> (#[trigger] rows[k]).old_no != rows[c].old_no
        },
        RowKind::Hunk => true,
        RowKind::File => c == start,
        RowKind::Note => false,
    }
}

proof fn lemma_first_named(files: Seq<FileDiff>, path: Seq<char>, i: int, fi: int)
    requires
        0 <= i <= fi < files.len(),
        display_path(files[fi]@) == path,
        forall|j: int| i <= j < fi ==> display_path((#[trigger] files[j])@) != path,
    ensures
        crate::scroll::file_named(files, path, i) == Some(fi),
    decreases fi - i,
{
    if i < fi {
        lemma_first_named(files, path, i + 1, fi);
    }
}

proof fn lemma_first_new(rows: Seq<Row>, no: usize, i: int, c: int, end: int)
    requires
        i <= c < end,
        rows[c].new_no == Some(no),
        forall|k: int| i <= k < c ==> (#[trigger] rows[k]).new_no != Some(no),
    ensures
        crate::scroll::row_with_new(rows, no, i, end) == Some(c),
    decreases c - i,
{
    if i < c {
        lemma_first_new(rows, no, i + 1, c, end);
    }
}

proof fn lemma_first_old(rows: Seq<Row>, no: usize, i: int, c: int, end: int)
    requires
        i <= c < end,
        rows[c].old_no == Some(no),
        forall|k: int| i <= k < c ==> (#[trigger] rows[k]).old_no != Some(no),
    ensures
        crate::scroll::row_with_old(rows, no, i, end) == Some(c),
    decreases c - i,
{
    if i < c {
        lemma_first_old(rows, no, i + 1, c, end);
    }
}

/// Hunk headers counted from the front.
proof fn lemma_count_front(rows: Seq<Row>, lo: int, hi: int)
    requires
        lo < hi,
    ensures
        hunk_count(rows, lo, hi) == hunk_count(rows, lo + 1, hi) + if rows[lo].kind
            == RowKind::Hunk {
            1nat
        } else {
            0nat
        },
    decreases hi - lo,
{
    if lo + 1 < hi {
        lemma_count_front(rows, lo, hi - 1);
    } else {
        assert(hunk_count(rows, lo, lo) == 0);
        assert(hunk_count(rows, lo + 1, hi) == 0);
    }
}

proof fn lemma_nth_is_counted(rows: Seq<Row>, i: int, c: int, end: int)
    requires
        i <= c < end,
        rows[c].kind == RowKind::Hunk,
    ensures
        hunk_count(rows, i, c + 1) >= 1,
        crate::scroll::nth_hunk(rows, (hunk_count(rows, i, c + 1) - 1) as nat, i, end) == Some(c),
    decreases c - i,
{
    lemma_count_front(rows, i, c + 1);
    if i < c {
        lemma_nth_is_counted(rows, i + 1, c, end);
    } else {
        assert(hunk_count(rows, i + 1, c + 1) == 0);
    }
}

/// A rebuild that changes nothing keeps the cursor where it is: on a file or
/// hunk header, and on a line that its file numbers once.
pub proof fn law_rebuilding_the_same_document_keeps_the_cursor(app: App)
    requires
        app.doc.wf(),
        covers_files(app.doc.files@, app.doc.starts@, app.doc.rows@),
        app.nav.cursor < app.doc.rows@.len(),
        forall|j: int|
            0 <= j < app.cursor_file() ==> display_path((#[trigger] app.doc.files@[j])@)
                != app.cursor_path(),
        told_apart(
            app.doc.rows@,
            app.doc.starts@[app.cursor_file()] as int,
            app.nav.cursor as int,
        ),
    ensures
        app.nav_in(app.doc).cursor == app.nav.cursor,
{
    let rows = app.doc.rows@;
    let starts = app.doc.starts@;
    let c = app.nav.cursor as int;
    let n = app.doc.rows.len();
    law_owner(starts, app.nav.cursor as nat);
    let fi = app.cursor_file();
    let start = starts[fi] as int;
    let end = crate::scroll::file_end(starts, fi, rows.len()) as int;
    assert(start <= c < end);
    lemma_first_named(app.doc.files@, app.cursor_path(), 0, fi);
    match rows[c].kind {
        RowKind::Add | RowKind::Remove | RowKind::Context => {
            if let Some(no) = rows[c].new_no {
                lemma_first_new(rows, no, start, c, end);
            } else if let Some(no) = rows[c].old_no {
                lemma_first_old(rows, no, start, c, end);
            }
        },
        RowKind::Hunk => {
            lemma_nth_is_counted(rows, start, c, end);
            lemma_count_bound(rows, start, c + 1);
        },
        _ => {},
    }
    let row = anchor_row(
        app.doc.files@,
        starts,
        rows,
        app.cursor_path(),
        app.cursor_target(),
    );
    assert(row == c);
    reveal(crate::app::moved_in);
}

proof fn lemma_count_bound(rows: Seq<Row>, lo: int, hi: int)
    ensures
        hi >= lo ==> hunk_count(rows, lo, hi) <= hi - lo,
    decreases hi - lo,
{
    if hi > lo {
        lemma_count_bound(rows, lo, hi - 1);
    }
}

/// Every file adds rows to the document.
proof fn lemma_documents_grow(
    fs: Seq<FileView>,
    syntax: Seq<Seq<Seq<Seq<ColoredView>>>>,
    intraline: bool,
    tab: nat,
    i: int,
    j: int,
)
    requires
        0 <= i < j,
    ensures
        document_rows(fs, syntax, intraline, tab, i).len() < document_rows(
            fs,
            syntax,
            intraline,
            tab,
            j,
        ).len(),
    decreases j,
{
    if i < j - 1 {
        lemma_documents_grow(fs, syntax, intraline, tab, i, j - 1);
    }
}

/// A file starts at its header: behind the rows of the files before it stands
/// the row that introduces it.
pub proof fn law_files_start_at_their_headers(
    fs: Seq<FileView>,
    syntax: Seq<Seq<Seq<Seq<ColoredView>>>>,
    intraline: bool,
    tab: nat,
    k: int,
    n: int,
)
    requires
        0 <= k < n,
    ensures
        document_rows(fs, syntax, intraline, tab, k).len() < document_rows(
            fs,
            syntax,
            intraline,
            tab,
            n,
        ).len(),
        document_rows(fs, syntax, intraline, tab, n)[document_rows(
            fs,
            syntax,
            intraline,
            tab,
            k,
        ).len() as int] == header_row(fs[k]),
    decreases n,
{
    if k < n - 1 {
        law_files_start_at_their_headers(fs, syntax, intraline, tab, k, n - 1);
    }
}

proof fn lemma_covered(files: Seq<FileDiff>, starts: Seq<usize>, doc: Seq<Row>, path: Seq<char>)
    requires
        covers_files(files, starts, doc),
    ensures
        anchor_fits(files, starts, doc, path),
{
    law_anchor_stays_in_its_file(files, starts, doc, path, AnchorTarget::Start);
    if let Some(fi) = crate::scroll::file_named(files, path, 0) {
        crate::scroll::lemma_file_named(files, path, 0);
    }
}

/// What the cursor is on is kept as what it is: a line by its two numbers, and
/// anything but a line or a hunk header as its file.
pub proof fn law_bookmarks_name_what_the_cursor_is_on(app: App)
    requires
        app.nav.cursor < app.doc.rows@.len(),
    ensures
        ({
            let row = app.doc.rows@[app.nav.cursor as int];
            &&& row.kind == RowKind::Add || row.kind == RowKind::Remove || row.kind
                == RowKind::Context ==> app.cursor_target() == AnchorTarget::Line(
                row.old_no,
                row.new_no,
            )
            &&& row.kind == RowKind::Hunk ==> app.cursor_target() is Hunk
            &&& row.kind == RowKind::File || row.kind == RowKind::Note ==> app.cursor_target()
                == AnchorTarget::Start
        }),
{
}

/// In a rebuilt document the cursor is where its bookmark leads, and as far down
/// the screen as before where the document scrolls that far.
pub proof fn law_rebuilt_documents_keep_the_place(app: App, doc: Doc)
    requires
        0 <= anchor_row(
            doc.files@,
            doc.starts@,
            doc.rows@,
            app.cursor_path(),
            app.cursor_target(),
        ) < doc.rows@.len(),
    ensures
        ({
            let row = anchor_row(
                doc.files@,
                doc.starts@,
                doc.rows@,
                app.cursor_path(),
                app.cursor_target(),
            );
            let down = app.nav.cursor - app.nav.scroll;
            let top = row - down;
            let nav = app.nav_in(doc);
            &&& nav.cursor == row
            &&& 0 <= top && 0 <= down < rows_below(doc, app.body(), top as nat) && top
                <= scroll_bound(doc.kinds(), doc.starts@, app.body()) ==> nav.scroll == top
            &&& nav.hscroll == app.nav.hscroll
        }),
{
    let row = anchor_row(
        doc.files@,
        doc.starts@,
        doc.rows@,
        app.cursor_path(),
        app.cursor_target(),
    );
    assert(doc.rows@.len() == doc.rows.len());
    let off = less(app.nav.cursor as nat, app.nav.scroll as nat);
    let nav = Nav {
        cursor: row as usize,
        scroll: less(row as nat, off) as usize,
        ..app.nav
    };
    assert((App { doc, ..app }).body() == app.body());
    law_moving_goes_row_for_row(doc, app.body(), nav, 0);
}

} // verus!
