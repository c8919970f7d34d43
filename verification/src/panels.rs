//! The file list: in the sidebar, and in the dialog with its diffstat.

use vstd::prelude::*;

#[allow(unused_imports)]
use crate::app::{held, less};
use crate::app::{App, ModalHit};
use crate::cells::{clip, shorten, width};
#[allow(unused_imports)]
use crate::cells::{columns, fitted, law_short_texts_show_whole, shortened, text_width};
use crate::color::Style;
#[allow(unused_imports)]
use crate::diff::{
    capped, display_path, file_views, files_count, hunks_count, FileView, LineKind,
};
use crate::diff::{totals, FileDiff};
use crate::outside::Measure;
#[allow(unused_imports)]
use crate::outside::{cluster_text, clusters};
#[allow(unused_imports)]
use crate::paint::{aligned_number, bold, put, repeated, OpView};
use crate::paint::{align_number, in_bold, join, repeat, write_number, Canvas};
#[allow(unused_imports)]
use crate::rows::blanks;
#[allow(unused_imports)]
use crate::text::decimal;

verus! {

/// The added lines of a file.
pub open spec fn added(f: FileView) -> nat {
    capped(hunks_count(f.hunks, LineKind::Add))
}

/// The removed lines of a file.
pub open spec fn removed(f: FileView) -> nat {
    capped(hunks_count(f.hunks, LineKind::Remove))
}

/// What stands before a file in a list.
pub open spec fn marker(selected: bool) -> Seq<char> {
    if selected {
        "▸ "@
    } else {
        "  "@
    }
}

/// The counts of a file in the sidebar.
pub open spec fn counts_text(f: FileView) -> Seq<char> {
    " +"@ + decimal(added(f)) + " -"@ + decimal(removed(f)) + " "@
}

/// Writes the counts of a file in the sidebar.
fn write_counts(add: usize, del: usize) -> (r: String)
    ensures
        r@ == " +"@ + decimal(add as nat) + " -"@ + decimal(del as nat) + " "@,
{
    let mut out = " +".to_string();
    out.append(&write_number(add));
    out.append(" -");
    out.append(&write_number(del));
    out.append(" ");
    out
}

fn mark(selected: bool) -> (r: &'static str)
    ensures
        r@ == marker(selected),
{
    if selected {
        "▸ "
    } else {
        "  "
    }
}

fn blank_text(n: usize) -> (r: String)
    ensures
        r@ == blanks(n as nat),
{
    assert(repeated(' ', n as nat) =~= blanks(n as nat));
    repeat(' ', n)
}

impl App {
    /// Draws an entry of the sidebar in the columns from `x` on: its marker, its
    /// name, and its counts at the right edge.
    #[verifier::opaque]
    pub open spec fn entry_ops(&self, x: nat, y: nat, w: nat, idx: nat) -> Seq<OpView> {
        let m = self.screen.measure;
        let surface = self.theme.dialog;
        let ground = seq![put(x, y, blanks(w), surface)];
        if idx < self.doc.files@.len() {
            let f = self.doc.files@[idx as int]@;
            let selected = idx == self.nav.selected;
            let full = text_width(counts_text(f), m);
            let cols = if full < w {
                full
            } else {
                w
            };
            let name = shortened(display_path(f), less(w, 2 + cols), m);
            ground + seq![
                put(
                    x,
                    y,
                    marker(selected) + name,
                    if selected {
                        bold(surface)
                    } else {
                        surface
                    },
                ),
                put(
                    (x + w - cols) as nat,
                    y,
                    cluster_text(fitted(clusters(counts_text(f), m), cols)),
                    Style { fg: self.theme.header.fg, ..surface },
                ),
            ]
        } else {
            ground
        }
    }

    /// Draws the first `n` rows of the sidebar: a scrolled list of files, and a
    /// divider on the edge facing the body.
    pub open spec fn sidebar_ops(&self, n: int, sx: nat, sw: nat, height: nat) -> Seq<OpView>
        decreases n,
    {
        if n <= 0 || sw < 2 {
            seq![]
        } else {
            let y = (n - 1) as nat;
            let (div, list) = if self.on_left() {
                ((sx + sw - 1) as nat, sx)
            } else {
                (sx, sx + 1)
            };
            let top = less(self.nav.selected as nat, less(height, 1));
            (self.sidebar_ops(n - 1, sx, sw, height) + self.entry_ops(
                list,
                y,
                (sw - 1) as nat,
                top + y,
            )).push(put(div, y, "│"@, self.theme.sidebar_border))
        }
    }

    /// Draw one file entry (marker, name, right-aligned +/- counts) filling the
    /// row `[x, x+w)` on the sidebar surface.
    pub fn draw_file_entry(&self, x: usize, y: usize, w: u16, idx: usize) -> (r: Canvas)
        requires
            x <= 0xffff,
        ensures
            r@ == self.entry_ops(x as nat, y as nat, w as nat, idx as nat),
    {
        proof {
            reveal(App::entry_ops);
        }
        let m = self.screen.measure;
        let surface = self.theme.dialog;
        let mut out = Canvas::new();
        out.put(x, y, blank_text(w as usize), surface);
        if idx < self.doc.files.len() {
            let f = &self.doc.files[idx];
            let (add, del) = f.stats();
            let selected = idx == self.nav.selected;
            let counts = write_counts(add, del);
            let full = width(&counts, m);
            let cols = if full < w {
                full
            } else {
                w
            };
            let room = if w >= 2 && cols <= w - 2 {
                w - 2 - cols
            } else {
                0
            };
            let name = shorten(f.path(), room, m);
            let style = if selected {
                in_bold(surface)
            } else {
                surface
            };
            out.put(x, y, join(mark(selected), &name), style);
            let (text, _) = clip(&counts, cols, m);
            let at = x + w as usize - cols as usize;
            out.put(at, y, text, Style { fg: self.theme.header.fg, ..surface });
        }
        assert(out@ =~= self.entry_ops(x as nat, y as nat, w as nat, idx as nat));
        out
    }

    /// Draw the file-list sidebar in `[sx, sx+sw)` for rows `[0, height)`: a
    /// scrollable list of file names with +/- counts, plus a divider column on
    /// the edge facing the diff body.
    pub fn render_sidebar(&self, sx: usize, sw: u16, height: usize) -> (r: Canvas)
        requires
            sx < 0xffff,
        ensures
            r@ == self.sidebar_ops(height as int, sx as nat, sw as nat, height as nat),
    {
        let mut out = Canvas::new();
        if sw < 2 {
            return out;
        }
        // Divider hugs the body: right edge for a left sidebar, left edge for a
        // right one. The list fills the remaining columns.
        let (div, list) = if self.sidebar_left() {
            (sx + sw as usize - 1, sx)
        } else {
            (sx, sx + 1)
        };
        let top = self.file_window(height);
        let mut y: usize = 0;
        while y < height
            invariant
                y <= height,
                2 <= sw,
                sx < 0xffff,
                list == (if self.on_left() {
                    sx as int
                } else {
                    sx + 1
                }),
                div == (if self.on_left() {
                    sx + sw - 1
                } else {
                    sx as int
                }),
                top == less(self.nav.selected as nat, less(height as nat, 1)),
                out@ == self.sidebar_ops(y as int, sx as nat, sw as nat, height as nat),
            decreases height - y,
        {
            assert(top + y <= usize::MAX);
            out.extend(self.draw_file_entry(list, y, sw - 1, top + y));
            out.put(div, y, "│".to_string(), self.theme.sidebar_border);
            y += 1;
        }
        out
    }
}

/// Where a dialog stands, borders included.
#[derive(Debug, Clone, Copy, PartialEq, Eq, Structural)]
pub struct Frame {
    pub x: usize,
    pub y: usize,
    pub w: usize,
    pub h: usize,
}

/// A text between two others of one character.
pub open spec fn edge(left: char, n: nat, right: char) -> Seq<char> {
    seq![left] + repeated('─', n) + seq![right]
}

fn write_edge(left: char, n: usize, right: char) -> (r: String)
    ensures
        r@ == edge(left, n as nat, right),
{
    let mut out = String::new();
    out.push(left);
    out.append(&repeat('─', n));
    out.push(right);
    assert(out@ =~= edge(left, n as nat, right));
    out
}

/// The widest path of the files.
pub open spec fn widest_path(fs: Seq<FileDiff>, n: int, m: Measure) -> nat
    decreases n,
{
    if n <= 0 {
        0
    } else {
        let v = widest_path(fs, n - 1, m);
        let w = text_width(display_path(fs[n - 1]@), m);
        if w > v {
            w
        } else {
            v
        }
    }
}

/// The changed lines of a file.
pub open spec fn changes(f: FileView) -> nat {
    capped(added(f) + removed(f))
}

/// The most changed lines of a file, at least one.
pub open spec fn most_changes(fs: Seq<FileDiff>, n: int) -> nat
    decreases n,
{
    if n <= 0 {
        1
    } else {
        let v = most_changes(fs, n - 1);
        let c = changes(fs[n - 1]@);
        if c > v {
            c
        } else {
            v
        }
    }
}

proof fn lemma_most_changes(fs: Seq<FileDiff>, n: int, i: int)
    requires
        0 <= i < n,
    ensures
        added(fs[i]@) <= most_changes(fs, n),
        removed(fs[i]@) <= most_changes(fs, n),
        changes(fs[i]@) <= most_changes(fs, n),
    decreases n,
{
    if i < n - 1 {
        lemma_most_changes(fs, n - 1, i);
    }
}

/// The length of a bar for `n` of `most` changes, where one of all has `full`
/// cells: at least one, unless there are none.
pub open spec fn bar_len(n: nat, full: nat, most: nat) -> nat {
    if n == 0 {
        0
    } else if n * full / most > 1 {
        n * full / most
    } else {
        1
    }
}

/// The length of a bar.
fn scale(n: usize, full: usize, most: usize) -> (r: usize)
    requires
        n <= most,
        full <= 24,
        most >= 1,
    ensures
        r == bar_len(n as nat, full as nat, most as nat),
        r <= full || r == 1,
{
    if n == 0 {
        return 0;
    }
    assert(n * full <= usize::MAX * 24 && n * full / (most as int) <= full && 0 <= n * full / (
    most as int)) by (nonlinear_arith)
        requires
            n <= most,
            0 <= n <= usize::MAX,
            0 <= full <= 24,
            most >= 1,
    ;
    let cells = (n as u128 * full as u128 / most as u128) as usize;
    if cells > 1 {
        cells
    } else {
        1
    }
}

/// The last line of the dialog.
pub open spec fn summary_text(files: nat, add: nat, del: nat) -> Seq<char> {
    decimal(files) + " files changed, "@ + decimal(add) + " insertion(s)(+), "@ + decimal(del)
        + " deletion(s)(-)"@
}

fn write_summary(files: usize, add: usize, del: usize) -> (r: String)
    ensures
        r@ == summary_text(files as nat, add as nat, del as nat),
{
    let mut out = write_number(files);
    out.append(" files changed, ");
    out.append(&write_number(add));
    out.append(" insertion(s)(+), ");
    out.append(&write_number(del));
    out.append(" deletion(s)(-)");
    out
}

/// The measures of the dialog: the columns of the names and of a full bar, and
/// the columns and the files that it has room for.
#[derive(Debug, Clone, Copy, PartialEq, Eq, Structural)]
pub struct Sheet {
    pub names: usize,
    pub bar: usize,
    pub cols: usize,
    pub rows: usize,
    /// The first file that shows.
    pub start: usize,
    /// The most changed lines of a file.
    pub most: usize,
}

impl App {
    /// The last line of the dialog.
    #[verifier::opaque]
    pub open spec fn summary(&self) -> Seq<char> {
        let fs = file_views(self.doc.files@);
        summary_text(
            fs.len(),
            capped(files_count(fs, LineKind::Add)),
            capped(files_count(fs, LineKind::Remove)),
        )
    }

    /// A dialog with room for so many cells: where it was dragged to, as far as
    /// it stays on the screen, else in the middle.
    pub open spec fn box_at(&self, cols: nat, rows: nat) -> Frame {
        let sw = self.screen.width as nat;
        let sh = self.screen.height as nat;
        let w = if cols + 2 < sw {
            cols + 2
        } else {
            sw
        };
        let h = if rows + 2 < sh {
            rows + 2
        } else {
            sh
        };
        let (x, y) = match self.ui.modal_pos {
            Some(p) => (held(p.0 as int, 0, sw - w), held(p.1 as int, 0, sh - h)),
            None => ((sw - w) / 2, (sh - h) / 2),
        };
        Frame { x: x as usize, y: y as usize, w: w as usize, h: h as usize }
    }

    /// Draws the sides and the inside of the first `n` rows of a dialog.
    pub open spec fn side_ops(&self, b: Frame, n: int) -> Seq<OpView>
        decreases n,
    {
        if n <= 1 {
            seq![]
        } else {
            let y = (b.y + n - 1) as nat;
            let border = self.theme.dialog_border;
            self.side_ops(b, n - 1) + seq![
                put(b.x as nat, y, "│"@, border),
                put(b.x as nat + 1, y, blanks((b.w - 2) as nat), self.theme.dialog),
                put((b.x + b.w - 1) as nat, y, "│"@, border),
            ]
        }
    }

    /// Draws a dialog with rounded borders, its inside filled.
    #[verifier::opaque]
    pub open spec fn box_ops(&self, b: Frame) -> Seq<OpView> {
        let border = self.theme.dialog_border;
        seq![
            put(b.x as nat, b.y as nat, edge('╭', (b.w - 2) as nat, '╮'), border),
            put(
                b.x as nat,
                (b.y + b.h - 1) as nat,
                edge('╰', (b.w - 2) as nat, '╯'),
                border,
            ),
        ] + self.side_ops(b, b.h - 1)
    }

    /// The measures of the dialog.
    #[verifier::opaque]
    pub open spec fn sheet(&self) -> Sheet {
        let m = self.screen.measure;
        let fs = self.doc.files@;
        let n = fs.len() as int;
        let sw = self.screen.width as nat;
        let names = held(widest_path(fs, n, m) as int, 10, less(sw, 24) as int) as nat;
        let free = less(sw, names + 13);
        let bar = if free < 24 {
            free
        } else {
            24
        };
        let list = names + bar + 10;
        let summary = text_width(self.summary(), m);
        let want = if summary > list {
            summary
        } else {
            list
        };
        let most_rows = if self.screen.height > 7 {
            (self.screen.height - 6) as nat
        } else {
            1
        };
        let rows = if fs.len() < most_rows {
            fs.len()
        } else {
            most_rows
        };
        Sheet {
            names: names as usize,
            bar: bar as usize,
            cols: held(want as int, 0, less(sw, 2) as int) as usize,
            rows: rows as usize,
            start: less(self.nav.selected as nat, less(rows, 1)) as usize,
            most: most_changes(fs, n) as usize,
        }
    }

    /// Draws the entry of file `idx` at the inner edge `x`: its marker and name,
    /// its changed lines, and a bar of added and removed ones at the right edge.
    #[verifier::opaque]
    pub open spec fn bar_ops(&self, s: Sheet, x: nat, y: nat, idx: nat) -> Seq<OpView> {
        let m = self.screen.measure;
        let t = self.theme;
        let f = self.doc.files@[idx as int]@;
        let selected = idx == self.nav.selected;
        let name = shortened(display_path(f), s.names as nat, m);
        let plus = bar_len(added(f), s.bar as nat, s.most as nat);
        let minus = {
            let want = bar_len(removed(f), s.bar as nat, s.most as nat);
            let left = less(s.bar as nat, plus);
            if want < left {
                want
            } else {
                left
            }
        };
        let start = (x + s.cols - (plus + minus)) as nat;
        seq![
            put(
                x,
                y,
                marker(selected) + name + blanks(
                    less(s.names as nat, text_width(name, m)),
                ),
                if selected {
                    bold(t.dialog)
                } else {
                    t.dialog
                },
            ),
            put(
                (x + s.cols - s.bar - 6) as nat,
                y,
                aligned_number(Some(changes(f) as usize), 5),
                t.dialog,
            ),
            put(start, y, repeated('+', plus), Style { fg: t.add.fg, ..t.dialog }),
            put(start + plus, y, repeated('-', minus), Style { fg: t.remove.fg, ..t.dialog }),
        ]
    }

    /// Draws the first `n` entries of the dialog.
    pub open spec fn bars_ops(&self, s: Sheet, x: nat, y: nat, n: int) -> Seq<OpView>
        decreases n,
    {
        if n <= 0 {
            seq![]
        } else {
            let idx = s.start + n - 1;
            self.bars_ops(s, x, y, n - 1) + if idx < self.doc.files@.len() {
                self.bar_ops(s, x, (y + n - 1) as nat, idx as nat)
            } else {
                seq![]
            }
        }
    }

    /// The dialog with the diffstat: a line for each file, like
    /// `git diff --stat`, an empty one, and the summary.
    pub open spec fn modal_ops(&self) -> Seq<OpView> {
        let m = self.screen.measure;
        if self.doc.files@.len() == 0 {
            let b = self.box_at(24, 1);
            self.box_ops(b).push(
                put(b.x as nat + 1, b.y as nat + 1, "no changes"@, self.theme.dialog),
            )
        } else {
            let s = self.sheet();
            let b = self.box_at(s.cols as nat, (s.rows + 2) as nat);
            let x = b.x as nat + 1;
            let y = b.y as nat + 1;
            (self.box_ops(b) + self.bars_ops(s, x, y, s.rows as int)).push(
                put(
                    x,
                    y + s.rows as nat + 1,
                    cluster_text(
                        fitted(clusters(self.summary(), m), s.cols as nat),
                    ),
                    bold(self.theme.dialog),
                ),
            )
        }
    }

    /// What of the dialog can be clicked.
    pub open spec fn modal_place(&self) -> Option<ModalHit> {
        if self.doc.files@.len() == 0 {
            None
        } else {
            let s = self.sheet();
            let b = self.box_at(s.cols as nat, (s.rows + 2) as nat);
            Some(
                ModalHit {
                    x0: b.x,
                    y0: b.y,
                    x1: (b.x + s.cols + 2) as usize,
                    y1: (b.y + s.rows + 4) as usize,
                    list_y: (b.y + 1) as usize,
                    list_h: s.rows,
                    start: s.start,
                },
            )
        }
    }

    /// Whether there is room for the dialog: ten columns for the names.
    pub open spec fn modal_fits(&self) -> bool {
        &&& self.screen.width >= 2
        &&& self.screen.height >= 2
        &&& self.doc.files@.len() > 0 ==> self.screen.width >= 34
    }

    /// Where a dialog with room for so many cells stands.
    fn place_box(&self, cols: usize, rows: usize) -> (r: Frame)
        requires
            cols <= 0xffff,
            rows <= 0x10001,
        ensures
            r == self.box_at(cols as nat, rows as nat),
            r.x <= 0xffff,
            r.y <= 0xffff,
            r.x + r.w <= self.screen.width,
            r.y + r.h <= self.screen.height,
            self.screen.width >= 2 ==> r.w >= 2,
            self.screen.height >= 2 ==> r.h >= 2,
            cols + 2 <= self.screen.width ==> r.w == cols + 2,
    {
        let sw = self.screen.width as usize;
        let sh = self.screen.height as usize;
        let w = if cols + 2 < sw {
            cols + 2
        } else {
            sw
        };
        let h = if rows + 2 < sh {
            rows + 2
        } else {
            sh
        };
        // Follow the dragged position (clamped on-screen), else center.
        match self.ui.modal_pos {
            Some((px, py)) => {
                let x = if (px as usize) < sw - w {
                    px as usize
                } else {
                    sw - w
                };
                let y = if (py as usize) < sh - h {
                    py as usize
                } else {
                    sh - h
                };
                Frame { x, y, w, h }
            },
            None => Frame { x: (sw - w) / 2, y: (sh - h) / 2, w, h },
        }
    }

    /// Draw a dialog with rounded borders. Fills the interior so content
    /// underneath is hidden.
    pub fn draw_box(&self, b: Frame) -> (r: Canvas)
        requires
            b.x + b.w <= 0xffff,
            b.y + b.h <= 0xffff,
            2 <= b.w,
            2 <= b.h,
        ensures
            r@ == self.box_ops(b),
    {
        proof {
            reveal(App::box_ops);
        }
        let border = self.theme.dialog_border;
        let mut out = Canvas::new();
        out.put(b.x, b.y, write_edge('╭', b.w - 2, '╮'), border);
        out.put(b.x, b.y + b.h - 1, write_edge('╰', b.w - 2, '╯'), border);
        let ghost top = out@;
        let mut row: usize = 1;
        while row < b.h - 1
            invariant
                1 <= row <= b.h - 1,
                b.x + b.w <= 0xffff,
                b.y + b.h <= 0xffff,
                2 <= b.w,
                2 <= b.h,
                border == self.theme.dialog_border,
                out@ == top + self.side_ops(b, row as int),
            decreases b.h - row,
        {
            let y = b.y + row;
            out.put(b.x, y, "│".to_string(), border);
            out.put(b.x + 1, y, blank_text(b.w - 2), self.theme.dialog);
            out.put(b.x + b.w - 1, y, "│".to_string(), border);
            row += 1;
            assert(out@ =~= top + self.side_ops(b, row as int));
        }
        assert(out@ =~= self.box_ops(b));
        out
    }

    /// The last line of the dialog.
    fn summary_line(&self) -> (r: String)
        ensures
            r@ == self.summary(),
    {
        proof {
            reveal(App::summary);
        }
        let (nf, add, del) = totals(&self.doc.files);
        write_summary(nf, add, del)
    }

    /// The measures of the dialog.
    fn measure_sheet(&self, summary: &str) -> (r: Sheet)
        requires
            self.screen.width >= 34,
            summary@ == self.summary(),
        ensures
            r == self.sheet(),
            r.names <= 0xffff,
            r.bar <= 24,
            r.bar + 6 <= r.cols,
            1 <= r.cols,
            r.cols + 2 <= self.screen.width,
            r.rows <= 0xffff,
            r.rows <= self.doc.files@.len(),
            r.most == most_changes(self.doc.files@, self.doc.files@.len() as int),
            r.most >= 1,
            r.start <= self.nav.selected,
    {
        proof {
            reveal(App::sheet);
        }
        let m = self.screen.measure;
        let n = self.doc.files.len();
        let mut widest: usize = 0;
        let mut most: usize = 1;
        let mut i: usize = 0;
        while i < n
            invariant
                i <= n,
                n == self.doc.files.len(),
                m == self.screen.measure,
                widest == widest_path(self.doc.files@, i as int, m),
                widest <= 0xffff,
                most == most_changes(self.doc.files@, i as int),
                most >= 1,
            decreases n - i,
        {
            let w = width(self.doc.files[i].path(), m) as usize;
            if w > widest {
                widest = w;
            }
            let (a, d) = self.doc.files[i].stats();
            let c = a.saturating_add(d);
            if c > most {
                most = c;
            }
            i += 1;
        }
        let sw = self.screen.width as usize;
        let names = if widest < 10 {
            10
        } else if widest > sw - 24 {
            sw - 24
        } else {
            widest
        };
        let free = sw.saturating_sub(names + 13);
        let bar = if free < 24 {
            free
        } else {
            24
        };
        let list = names + bar + 10;
        let summary_w = width(summary, m) as usize;
        let want = if summary_w > list {
            summary_w
        } else {
            list
        };
        let cols = if want < sw - 2 {
            want
        } else {
            sw - 2
        };
        let most_rows: usize = if self.screen.height > 7 {
            self.screen.height as usize - 6
        } else {
            1
        };
        let rows = if n < most_rows {
            n
        } else {
            most_rows
        };
        let start = self.nav.selected.saturating_sub(rows.saturating_sub(1));
        Sheet { names, bar, cols, rows, start, most }
    }

    /// Draws the entry of a file in the dialog.
    fn draw_bar(&self, s: Sheet, x: usize, y: usize, idx: usize) -> (r: Canvas)
        requires
            x <= 0xffff,
            s.names <= 0xffff,
            s.bar <= 24,
            s.bar + 6 <= s.cols <= 0xffff,
            idx < self.doc.files@.len(),
            s.most == most_changes(self.doc.files@, self.doc.files@.len() as int),
            s.most >= 1,
        ensures
            r@ == self.bar_ops(s, x as nat, y as nat, idx as nat),
    {
        proof {
            reveal(App::bar_ops);
            lemma_most_changes(self.doc.files@, self.doc.files@.len() as int, idx as int);
        }
        let m = self.screen.measure;
        let surface = self.theme.dialog;
        let f = &self.doc.files[idx];
        let (add, del) = f.stats();
        let selected = idx == self.nav.selected;
        let name = shorten(f.path(), s.names as u16, m);
        let pad = s.names.saturating_sub(width(&name, m) as usize);
        let style = if selected {
            in_bold(surface)
        } else {
            surface
        };
        let plus = scale(add, s.bar, s.most);
        let want = scale(del, s.bar, s.most);
        let left = s.bar.saturating_sub(plus);
        let minus = if want < left {
            want
        } else {
            left
        };
        let mut out = Canvas::new();
        out.put(x, y, join(&join(mark(selected), &name), &blank_text(pad)), style);
        // Right cluster: the count column then the +/- bar, both flush to the
        // box's right edge. Names stay left; the gap floats in the middle.
        let count = align_number(Some(add.saturating_add(del)), 5);
        out.put(x + s.cols - s.bar - 6, y, count, surface);
        let start = x + s.cols - (plus + minus);
        out.put(start, y, repeat('+', plus), Style { fg: self.theme.add.fg, ..surface });
        out.put(
            start + plus,
            y,
            repeat('-', minus),
            Style { fg: self.theme.remove.fg, ..surface },
        );
        assert(out@ =~= self.bar_ops(s, x as nat, y as nat, idx as nat));
        out
    }

    /// Draws the entries of the dialog.
    fn draw_bars(&self, s: Sheet, x: usize, y: usize) -> (r: Canvas)
        requires
            x <= 0xffff,
            y <= 0x10000,
            s.names <= 0xffff,
            s.bar <= 24,
            s.bar + 6 <= s.cols <= 0xffff,
            s.rows <= 0xffff,
            s.most == most_changes(self.doc.files@, self.doc.files@.len() as int),
            s.most >= 1,
        ensures
            r@ == self.bars_ops(s, x as nat, y as nat, s.rows as int),
    {
        let n = self.doc.files.len();
        let mut out = Canvas::new();
        let mut i: usize = 0;
        while i < s.rows
            invariant
                i <= s.rows,
                n == self.doc.files.len(),
                x <= 0xffff,
                y <= 0x10000,
                s.names <= 0xffff,
                s.bar <= 24,
                s.bar + 6 <= s.cols <= 0xffff,
                s.rows <= 0xffff,
                s.most == most_changes(self.doc.files@, self.doc.files@.len() as int),
                s.most >= 1,
                out@ == self.bars_ops(s, x as nat, y as nat, i as int),
            decreases s.rows - i,
        {
            if i < n && s.start < n - i {
                out.extend(self.draw_bar(s, x, y + i, s.start + i));
            }
            i += 1;
            assert(out@ =~= self.bars_ops(s, x as nat, y as nat, i as int));
        }
        out
    }

    /// Modal diffstat: file names with a scaled, colored +/- bar, like
    /// `git diff --stat`, floating over the diff on a secondary-accent surface.
    /// Returns also what of it can be clicked.
    pub fn render_stat_modal(&self) -> (r: (Canvas, Option<ModalHit>))
        requires
            self.modal_fits(),
        ensures
            r.0@ == self.modal_ops(),
            r.1 == self.modal_place(),
    {
        if self.doc.files.len() == 0 {
            let b = self.place_box(24, 1);
            let mut out = self.draw_box(b);
            out.put(b.x + 1, b.y + 1, "no changes".to_string(), self.theme.dialog);
            return (out, None);
        }
        let summary = self.summary_line();
        let s = self.measure_sheet(&summary);
        let b = self.place_box(s.cols, s.rows + 2);
        let x = b.x + 1;
        let y = b.y + 1;
        let mut out = self.draw_box(b);
        out.extend(self.draw_bars(s, x, y));
        let (text, _) = clip(&summary, s.cols as u16, self.screen.measure);
        out.put(x, y + s.rows + 1, text, in_bold(self.theme.dialog));
        let hit = ModalHit {
            x0: b.x,
            y0: b.y,
            x1: b.x + s.cols + 2,
            y1: b.y + s.rows + 4,
            list_y: y,
            list_h: s.rows,
            start: s.start,
        };
        (out, Some(hit))
    }
}

/// Files are marked where they are selected, and counted by their added and
/// removed lines.
pub proof fn law_files_are_marked_and_counted(f: FileView)
    ensures
        marker(true) == "▸ "@,
        marker(false) == "  "@,
        hunks_count(f.hunks, LineKind::Add) <= usize::MAX && hunks_count(
            f.hunks,
            LineKind::Remove,
        ) <= usize::MAX ==> counts_text(f) == " +"@ + decimal(
            hunks_count(f.hunks, LineKind::Add),
        ) + " -"@ + decimal(hunks_count(f.hunks, LineKind::Remove)) + " "@,
        hunks_count(f.hunks, LineKind::Add) + hunks_count(f.hunks, LineKind::Remove) <= usize::MAX
            ==> changes(f) == hunks_count(f.hunks, LineKind::Add) + hunks_count(
            f.hunks,
            LineKind::Remove,
        ),
{
}

/// An entry of the sidebar shows the marker and the path of its file at the left
/// and its counts at the right edge; the selected one is bold.
pub proof fn law_sidebar_entries_show_their_file(app: App, x: nat, y: nat, w: nat, idx: nat)
    requires
        idx < app.doc.files@.len(),
        columns(clusters(counts_text(app.doc.files@[idx as int]@), app.screen.measure)) <= w,
        w <= 0xffff,
    ensures
        ({
            let f = app.doc.files@[idx as int]@;
            let m = app.screen.measure;
            let cols = text_width(counts_text(f), m);
            let ops = app.entry_ops(x, y, w, idx);
            &&& ops.len() == 3
            &&& ops[1] matches OpView::Put { x: nx, y: ny, text, style } && nx == x && ny == y
                && text == (if idx == app.nav.selected {
                "▸ "@
            } else {
                "  "@
            }) + shortened(display_path(f), less(w, 2 + cols), m) && style.attrs.bold == (
            app.theme.dialog.attrs.bold || idx == app.nav.selected)
            &&& ops[2] matches OpView::Put { x: cx, y: cy, text, .. } && cx + cols == x + w && cy == y
                && text == cluster_text(clusters(counts_text(f), m))
        }),
{
    reveal(App::entry_ops);
    law_short_texts_show_whole(
        clusters(counts_text(app.doc.files@[idx as int]@), app.screen.measure),
        text_width(counts_text(app.doc.files@[idx as int]@), app.screen.measure),
    );
}

/// The sidebar shows the files from the first one on, scrolled only so far that
/// the selected one is in its last row; a click on a row selects the file that
/// shows there.
pub proof fn law_sidebar_shows_the_selected_file(app: App, y: u16)
    requires
        app.body() > 0,
    ensures
        app.nav.selected < app.body() ==> app.sidebar_file(y) == y,
        app.nav.selected >= app.body() ==> app.sidebar_file((app.body() - 1) as u16)
            == app.nav.selected,
{
}

/// A row of the sidebar draws the entry of the file that a click there selects,
/// and the divider on the side of the body.
pub proof fn law_sidebar_rows_draw_their_file(app: App, y: u16, sx: nat, sw: nat)
    requires
        sw >= 2,
    ensures
        ({
            let n = y + 1;
            let ops = app.sidebar_ops(n, sx, sw, app.body());
            let before = app.sidebar_ops(n - 1, sx, sw, app.body());
            let at = if app.on_left() {
                sx
            } else {
                sx + 1
            };
            let part = app.entry_ops(
                at,
                y as nat,
                (sw - 1) as nat,
                app.sidebar_file(y) as nat,
            );
            &&& ops.len() == before.len() + part.len() + 1
            &&& ops.take(before.len() as int) == before
            &&& ops.subrange(before.len() as int, ops.len() - 1) == part
            &&& ops.last() == put(
                if app.on_left() {
                    (sx + sw - 1) as nat
                } else {
                    sx
                },
                y as nat,
                "│"@,
                app.theme.sidebar_border,
            )
        }),
{
    let n = y + 1;
    let ops = app.sidebar_ops(n, sx, sw, app.body());
    let before = app.sidebar_ops(n - 1, sx, sw, app.body());
    assert(ops.take(before.len() as int) == before);
    let at = if app.on_left() {
        sx
    } else {
        sx + 1
    };
    let part = app.entry_ops(at, y as nat, (sw - 1) as nat, app.sidebar_file(y) as nat);
    assert(ops.subrange(before.len() as int, ops.len() - 1) == part);
}

/// Bars are to scale: no file has more changes than the one with the full bar,
/// whose bar is full; a file with changes has a bar, one without has none, and
/// more changes never make a shorter bar.
pub proof fn law_bars_are_to_scale(fs: Seq<FileDiff>, k: int, a: nat, b: nat, full: nat, most: nat)
    requires
        0 <= k < fs.len(),
        most > 0,
        full > 0,
        a <= b,
    ensures
        changes(fs[k]@) <= most_changes(fs, fs.len() as int),
        bar_len(most, full, most) == full,
        bar_len(0, full, most) == 0,
        b > 0 ==> bar_len(b, full, most) >= 1,
        bar_len(a, full, most) <= bar_len(b, full, most),
        b <= most ==> bar_len(b, full, most) <= full,
{
    lemma_most_changes(fs, fs.len() as int, k);
    assert(most * full / most == full) by (nonlinear_arith)
        requires
            most > 0,
    ;
    assert(a * full / most <= b * full / most) by (nonlinear_arith)
        requires
            a <= b,
            most > 0,
    ;
    if b <= most {
        assert(b * full / most <= full) by (nonlinear_arith)
            requires
                b <= most,
                most > 0,
        ;
    }
}

/// The dialog ends with the number of its files, of the added lines and of the
/// removed ones.
pub proof fn law_dialog_sums_up(app: App)
    ensures
        ({
            let fs = file_views(app.doc.files@);
            let add = files_count(fs, LineKind::Add);
            let del = files_count(fs, LineKind::Remove);
            add <= usize::MAX && del <= usize::MAX ==> app.summary() == decimal(
                app.doc.files@.len(),
            ) + " files changed, "@ + decimal(add) + " insertion(s)(+), "@ + decimal(del)
                + " deletion(s)(-)"@
        }),
{
    reveal(App::summary);
}

/// A dialog has a border around its cells, stands in the middle of the screen
/// unless it was dragged, and where it was dragged to as far as that is on the
/// screen.
pub proof fn law_dialogs_stand_on_the_screen(app: App, cols: nat, rows: nat)
    requires
        cols + 2 <= app.screen.width,
        rows + 2 <= app.screen.height,
    ensures
        ({
            let b = app.box_at(cols, rows);
            let dx = app.screen.width - b.w - 2 * b.x;
            let dy = app.screen.height - b.h - 2 * b.y;
            &&& b.w == cols + 2 && b.h == rows + 2
            &&& b.x + b.w <= app.screen.width && b.y + b.h <= app.screen.height
            &&& app.ui.modal_pos is None ==> 0 <= dx <= 1 && 0 <= dy <= 1
            &&& app.ui.modal_pos matches Some(p) ==> (p.0 + b.w <= app.screen.width ==> b.x == p.0)
                && (p.1 + b.h <= app.screen.height ==> b.y == p.1)
        }),
{
}

/// What of the dialog can be clicked is the box that is drawn: its list begins
/// below the top border, with the first file that shows, and has the rows that
/// show.
pub proof fn law_dialog_is_clicked_where_it_is_drawn(app: App)
    requires
        app.doc.files@.len() > 0,
        app.sheet().cols + 2 <= app.screen.width,
        app.sheet().rows + 4 <= app.screen.height,
    ensures
        ({
            let s = app.sheet();
            let b = app.box_at(s.cols as nat, (s.rows + 2) as nat);
            app.modal_place() matches Some(h) && h.x0 == b.x && h.y0 == b.y && h.x1 == b.x + b.w
                && h.y1 == b.y + b.h && h.list_y == b.y + 1 && h.list_h == s.rows && h.start
                == s.start
        }),
        app.nav.selected < app.sheet().rows ==> app.sheet().start == 0,
        app.nav.selected >= app.sheet().rows > 0 ==> app.sheet().start + app.sheet().rows
            == app.nav.selected + 1,
{
    reveal(App::sheet);
}

/// A line of the dialog shows the marker and the path of its file, the number of
/// its changes, and a bar of as many pluses and minuses as the two counts have
/// of the longest bar; the bar ends at the right edge.
pub proof fn law_dialog_lines_show_their_file(app: App, s: Sheet, x: nat, y: nat, idx: nat)
    requires
        idx < app.doc.files@.len(),
        s.bar + 6 <= s.cols,
        changes(app.doc.files@[idx as int]@) <= s.most,
        s.most > 0,
        s.bar > 0,
    ensures
        ({
            let f = app.doc.files@[idx as int]@;
            let m = app.screen.measure;
            let ops = app.bar_ops(s, x, y, idx);
            &&& ops.len() == 4
            &&& ops[0] matches OpView::Put { x: nx, y: ny, text, .. } && nx == x && ny == y
                && text.len() >= 2 && text.take(2) == if idx == app.nav.selected {
                "▸ "@
            } else {
                "  "@
            }
            &&& ops[1] matches OpView::Put { y: cy, text, .. } && cy == y && text == aligned_number(
                Some(changes(f) as usize),
                5,
            )
            &&& ops[2] matches OpView::Put { x: px, y: py, text: plus, style: ps } && (
            ops[3] matches OpView::Put { x: mx, y: my, text: minus, style: ms } && py == y && my == y
                && mx == px + plus.len() && mx + minus.len() == x + s.cols && plus.len() == bar_len(
                added(f),
                s.bar as nat,
                s.most as nat,
            ) && (plus.len() + bar_len(removed(f), s.bar as nat, s.most as nat) <= s.bar
                ==> minus.len() == bar_len(removed(f), s.bar as nat, s.most as nat)) && plus.len()
                + minus.len() <= s.bar && ps.fg == app.theme.add.fg && ms.fg == app.theme.remove.fg
                && (forall|k: int| 0 <= k < plus.len() ==> plus[k] == '+') && (forall|k: int|
                0 <= k < minus.len() ==> minus[k] == '-'))
        }),
{
    reveal(App::bar_ops);
    reveal_strlit("▸ ");
    reveal_strlit("  ");
    let f = app.doc.files@[idx as int]@;
    let m = app.screen.measure;
    let full = s.bar as nat;
    let most = s.most as nat;
    let name = shortened(display_path(f), s.names as nat, m);
    let mark = marker(idx == app.nav.selected);
    let text = mark + name + blanks(less(s.names as nat, text_width(name, m)));
    assert(text.take(2) == mark);
    let a = added(f);
    assert(a <= most);
    assert(a * full / most <= full) by (nonlinear_arith)
        requires
            a <= most,
            most > 0,
    ;
}

/// The dialog lists the files that show, one in each row.
pub proof fn law_dialog_lists_the_files(app: App, s: Sheet, x: nat, y: nat, n: int, k: int) -> (
    i: int)
    requires
        0 <= k < n,
        s.start + k < app.doc.files@.len(),
    ensures
        ({
            let part = app.bar_ops(s, x, (y + k) as nat, (s.start + k) as nat);
            let ops = app.bars_ops(s, x, y, n);
            0 <= i && i + part.len() <= ops.len() && ops.subrange(i, i + part.len()) == part
        }),
    decreases n,
{
    let part = app.bar_ops(s, x, (y + k) as nat, (s.start + k) as nat);
    let rest = app.bars_ops(s, x, y, n - 1);
    let ops = app.bars_ops(s, x, y, n);
    if k == n - 1 {
        assert(ops == rest + part);
        assert(ops.subrange(rest.len() as int, (rest.len() + part.len()) as int) == part);
        rest.len() as int
    } else {
        let i = law_dialog_lists_the_files(app, s, x, y, n - 1, k);
        assert(ops.subrange(0, rest.len() as int) == rest);
        assert(ops.subrange(i, i + part.len()) == rest.subrange(i, i + part.len()));
        i
    }
}

/// The frame of a dialog is as wide as the dialog, with round corners.
pub proof fn law_dialogs_have_a_frame(app: App, b: Frame)
    requires
        b.w >= 2,
        b.h >= 2,
    ensures
        ({
            let ops = app.box_ops(b);
            &&& ops.len() >= 2
            &&& ops[0] matches OpView::Put { x, y, text, .. } && x == b.x && y == b.y && text.len()
                == b.w && text[0] == '╭' && text[b.w - 1] == '╮' && forall|k: int|
                0 < k < b.w - 1 ==> text[k] == '─'
            &&& ops[1] matches OpView::Put { x, y, text, .. } && x == b.x && y == b.y + b.h - 1
                && text.len() == b.w && text[0] == '╰' && text[b.w - 1] == '╯' && forall|k: int|
                0 < k < b.w - 1 ==> text[k] == '─'
        }),
{
    reveal(App::box_ops);
}

} // verus!
