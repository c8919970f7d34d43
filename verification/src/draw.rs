//! Drawing the rows of a diff, in one column or side by side.

use vstd::prelude::*;

#[allow(unused_imports)]
use crate::app::less;
use crate::app::{App, Gut, Mode};
use crate::cells::{clip, slice_h, width};
#[allow(unused_imports)]
use crate::cells::{columns, fitted, law_fit_is_maximal, sliced, text_width};
use crate::color::{Color, Style};
use crate::layout::low16;
use crate::outside::Measure;
#[allow(unused_imports)]
use crate::outside::{cluster_text, clusters, ClusterView};
#[allow(unused_imports)]
use crate::paint::{aligned_number, bold, faint, on, put, repeated, washed, OpView};
use crate::paint::{align_number, in_bold, in_faint, join, put_on, repeat, wash, Canvas};
use crate::rows::{Row, RowKind, Span};
#[allow(unused_imports)]
use crate::rows::{all_drawable, blanks, drawable, is_line};
use crate::theme::Theme;

verus! {

/// What drawing a row goes by.
#[derive(Debug, Clone)]
pub struct Pen {
    pub theme: Theme,
    pub measure: Measure,
    /// Whether line numbers are shown.
    pub numbers: bool,
    /// Whether code is colored by its syntax.
    pub syntax: bool,
    /// How many columns the content is scrolled.
    pub skip: u16,
    /// The symbol in the gutter of a hunk header.
    pub symbol: String,
}

/// The column of the content where a span begins.
pub open spec fn span_start(spans: Seq<Span>, i: int, m: Measure) -> nat
    decreases i,
{
    if i <= 0 {
        0
    } else {
        span_start(spans, i - 1, m) + text_width(spans[i - 1].text@, m)
    }
}

impl Pen {
    /// Columns of the gutter.
    pub open spec fn gutter(&self, gut: Gut) -> nat {
        if !self.numbers {
            0
        } else if gut == Gut::Both {
            9
        } else {
            5
        }
    }

    /// The line numbers in the gutter of a row.
    pub open spec fn gutter_text(&self, row: Row, gut: Gut) -> Seq<char> {
        match gut {
            Gut::Both => aligned_number(row.old_no, 4) + " "@ + aligned_number(row.new_no, 4),
            Gut::Old => aligned_number(row.old_no, 4) + " "@,
            Gut::New => aligned_number(row.new_no, 4) + " "@,
        }
    }

    /// The style that a kind of row starts from.
    pub open spec fn base(&self, kind: RowKind) -> Style {
        match kind {
            RowKind::Add => self.theme.add,
            RowKind::Remove => self.theme.remove,
            RowKind::Context => self.theme.context,
            RowKind::File => bold(self.theme.header),
            RowKind::Hunk => self.theme.header,
            RowKind::Note => faint(self.theme.context),
        }
    }

    /// The sign before a line.
    pub open spec fn sign(&self, kind: RowKind) -> Seq<char> {
        match kind {
            RowKind::Add => "+"@,
            RowKind::Remove => "-"@,
            _ => " "@,
        }
    }

    /// The style of the sign before a line.
    pub open spec fn sign_style(&self, kind: RowKind) -> Style {
        if kind == RowKind::Context {
            self.base(kind)
        } else {
            bold(self.base(kind))
        }
    }

    /// The background of what changed within a line.
    pub open spec fn emphasis(&self, kind: RowKind) -> Option<Color> {
        match kind {
            RowKind::Add => self.theme.add_emph_bg,
            RowKind::Remove => self.theme.remove_emph_bg,
            _ => None,
        }
    }

    /// The style of a span of a line.
    pub open spec fn span_style(&self, span: Span, kind: RowKind) -> Style {
        let s = if self.syntax {
            Style {
                fg: if span.fg is Some {
                    span.fg
                } else {
                    self.base(kind).fg
                },
                ..Style::plain()
            }
        } else {
            self.base(kind)
        };
        if span.changed && self.emphasis(kind) is Some {
            bold(on(s, self.emphasis(kind)))
        } else {
            s
        }
    }

    /// The column of the screen where a span begins, in content that begins at
    /// `x0` where it is not scrolled.
    pub open spec fn span_x(&self, spans: Seq<Span>, i: int, x0: nat) -> nat {
        x0 + less(span_start(spans, i, self.measure), self.skip as nat)
    }

    /// What of a span shows: what is not scrolled out, up to column `end`.
    pub open spec fn span_shown(&self, spans: Seq<Span>, i: int, x0: nat, end: nat) -> Seq<char> {
        let skip = less(self.skip as nat, span_start(spans, i, self.measure));
        let x = self.span_x(spans, i, x0);
        if x >= end || skip >= text_width(spans[i].text@, self.measure) {
            seq![]
        } else {
            cluster_text(sliced(clusters(spans[i].text@, self.measure), skip, (end - x) as nat))
        }
    }

    /// Draws the first `n` spans of a line.
    pub open spec fn span_ops(
        &self,
        row: Row,
        n: int,
        x0: nat,
        end: nat,
        y: nat,
        bg: Option<Color>,
    ) -> Seq<OpView>
        decreases n,
    {
        if n <= 0 {
            seq![]
        } else {
            let rest = self.span_ops(row, n - 1, x0, end, y, bg);
            let text = self.span_shown(row.spans@, n - 1, x0, end);
            if text.len() == 0 {
                rest
            } else {
                rest.push(
                    put(
                        self.span_x(row.spans@, n - 1, x0),
                        y,
                        text,
                        washed(self.span_style(row.spans@[n - 1], row.kind), bg),
                    ),
                )
            }
        }
    }

    /// What of its symbol the gutter of a hunk header has room for, before a
    /// column that stays blank.
    pub open spec fn mark(&self, gut: Gut) -> Seq<ClusterView> {
        fitted(clusters(self.symbol@, self.measure), less(self.gutter(gut), 1))
    }

    /// The column where the symbol of a hunk header begins, in a row that begins
    /// at `x`: it ends one column before the text.
    pub open spec fn mark_x(&self, x: nat, gut: Gut) -> nat {
        less(x + self.gutter(gut), 1 + columns(self.mark(gut)))
    }

    /// Draws the symbol of a hunk header, where there is a gutter for it.
    pub open spec fn mark_ops(
        &self,
        kind: RowKind,
        x: nat,
        width: nat,
        y: nat,
        bg: Option<Color>,
        gut: Gut,
    ) -> Seq<OpView> {
        let text = cluster_text(self.mark(gut));
        if kind == RowKind::Hunk && 0 < self.gutter(gut) <= width && text.len() > 0 {
            seq![put(self.mark_x(x, gut), y, text, washed(self.theme.line_number, bg))]
        } else {
            seq![]
        }
    }

    /// Draws a row in the columns from `x` on: its background, its gutter, its
    /// sign, and its content; of a header or a note, the text, and of a hunk
    /// header its symbol too.
    pub open spec fn row_ops(
        &self,
        row: Row,
        x: nat,
        width: nat,
        y: nat,
        bg: Option<Color>,
        gut: Gut,
    ) -> Seq<OpView> {
        let ground = if bg is Some {
            seq![put(x, y, blanks(width), on(Style::plain(), bg))]
        } else {
            seq![]
        };
        let numbers = if self.numbers && is_line(row.kind) {
            seq![put(x, y, self.gutter_text(row, gut), washed(self.theme.line_number, bg))]
        } else {
            seq![]
        };
        let at = x + self.gutter(gut);
        if width == 0 {
            seq![]
        } else if is_line(row.kind) {
            ground + numbers + seq![
                put(at, y, self.sign(row.kind), washed(self.sign_style(row.kind), bg)),
            ] + self.span_ops(row, row.spans@.len() as int, at + 1, x + width, y, bg)
        } else {
            ground + self.mark_ops(row.kind, x, width, y, bg, gut) + seq![
                put(
                    at,
                    y,
                    cluster_text(
                        sliced(
                            clusters(row.spans@[0].text@, self.measure),
                            self.skip as nat,
                            width,
                        ),
                    ),
                    washed(self.base(row.kind), bg),
                ),
            ]
        }
    }

    /// Hatches columns of a row with slashes.
    pub open spec fn slash_ops(
        &self,
        x: nat,
        width: nat,
        y: nat,
        bg: Option<Color>,
    ) -> Seq<OpView> {
        if width == 0 {
            seq![]
        } else {
            seq![put(x, y, repeated('╱', width), on(self.theme.line_number, bg))]
        }
    }

    /// The line numbers in the gutter of a row.
    fn write_gutter(&self, row: &Row, gut: Gut) -> (r: String)
        ensures
            r@ == self.gutter_text(*row, gut),
    {
        match gut {
            Gut::Both => {
                let left = align_number(row.old_no, 4);
                let right = align_number(row.new_no, 4);
                join(&join(&left, " "), &right)
            },
            Gut::Old => join(&align_number(row.old_no, 4), " "),
            Gut::New => join(&align_number(row.new_no, 4), " "),
        }
    }

    /// The style that a kind of row starts from.
    fn base_style(&self, kind: RowKind) -> (r: Style)
        ensures
            r == self.base(kind),
    {
        match kind {
            RowKind::Add => self.theme.add,
            RowKind::Remove => self.theme.remove,
            RowKind::Context => self.theme.context,
            RowKind::File => in_bold(self.theme.header),
            RowKind::Hunk => self.theme.header,
            RowKind::Note => in_faint(self.theme.context),
        }
    }

    /// The style of a span of a line.
    fn style_of_span(&self, span: &Span, kind: RowKind) -> (r: Style)
        ensures
            r == self.span_style(*span, kind),
    {
        let base = self.base_style(kind);
        let s = if self.syntax {
            Style {
                fg: if span.fg.is_some() {
                    span.fg
                } else {
                    base.fg
                },
                ..Style::default()
            }
        } else {
            base
        };
        let emphasis = match kind {
            RowKind::Add => self.theme.add_emph_bg,
            RowKind::Remove => self.theme.remove_emph_bg,
            _ => None,
        };
        if span.changed && emphasis.is_some() {
            in_bold(put_on(s, emphasis))
        } else {
            s
        }
    }

    /// Hatch an empty pane half with diagonal slashes (used where a split-view
    /// line exists on only one side).
    pub fn fill_slash(&self, x: usize, width: u16, y: usize, bg: Option<Color>) -> (r: Canvas)
        ensures
            r@ == self.slash_ops(x as nat, width as nat, y as nat, bg),
    {
        let mut out = Canvas::new();
        if width > 0 {
            out.put(x, y, repeat('╱', width as usize), put_on(self.theme.line_number, bg));
        }
        assert(out@ =~= self.slash_ops(x as nat, width as nat, y as nat, bg));
        out
    }

    /// Draws the content of a line.
    fn draw_spans(&self, row: &Row, x0: usize, end: usize, y: usize, bg: Option<Color>) -> (r:
        Canvas)
        requires
            x0 <= 0x10010,
            end <= 0x1fffe,
            end <= x0 + 0xffff,
        ensures
            r@ == self.span_ops(
                *row,
                row.spans@.len() as int,
                x0 as nat,
                end as nat,
                y as nat,
                bg,
            ),
    {
        let hs = self.skip as usize;
        let mut out = Canvas::new();
        // Content column where the current span begins.
        let mut col: usize = 0;
        let mut i: usize = 0;
        while i < row.spans.len()
            invariant_except_break
                out@ == self.span_ops(*row, i as int, x0 as nat, end as nat, y as nat, bg),
            invariant
                i <= row.spans.len(),
                hs == self.skip,
                x0 <= 0x10010,
                end <= 0x1fffe,
                end <= x0 + 0xffff,
                col == span_start(row.spans@, i as int, self.measure),
                col <= 0x7fffffff,
            ensures
                out@ == self.span_ops(
                    *row,
                    row.spans@.len() as int,
                    x0 as nat,
                    end as nat,
                    y as nat,
                    bg,
                ),
            decreases row.spans.len() - i,
        {
            let span = &row.spans[i];
            let w = width(&span.text, self.measure) as usize;
            let x = x0 + col.saturating_sub(hs);
            if x >= end {
                proof {
                    self.lemma_nothing_further(
                        *row,
                        i as int,
                        row.spans@.len() as int,
                        x0 as nat,
                        end as nat,
                        y as nat,
                        bg,
                    );
                }
                break;
            }
            let skip = hs.saturating_sub(col);
            if skip < w {
                let (text, _) = slice_h(&span.text, skip as u16, (end - x) as u16, self.measure);
                if text.as_str().unicode_len() > 0 {
                    out.put(x, y, text, wash(self.style_of_span(span, row.kind), bg));
                }
            }
            col += w;
            i += 1;
        }
        out
    }

    /// Once a span begins past the end, no further one shows.
    proof fn lemma_nothing_further(
        &self,
        row: Row,
        i: int,
        n: int,
        x0: nat,
        end: nat,
        y: nat,
        bg: Option<Color>,
    )
        requires
            0 <= i <= n,
            self.span_x(row.spans@, i, x0) >= end,
        ensures
            self.span_ops(row, n, x0, end, y, bg) == self.span_ops(row, i, x0, end, y, bg),
            self.span_x(row.spans@, n, x0) >= end,
        decreases n - i,
    {
        if i < n {
            self.lemma_nothing_further(row, i, n - 1, x0, end, y, bg);
        }
    }

    /// Draws the symbol of a hunk header.
    fn draw_mark(
        &self,
        kind: RowKind,
        x: usize,
        width: u16,
        y: usize,
        bg: Option<Color>,
        gut: Gut,
        gutter: u16,
    ) -> (r: Canvas)
        requires
            x <= 0xffff,
            gutter == self.gutter(gut),
        ensures
            r@ == self.mark_ops(kind, x as nat, width as nat, y as nat, bg, gut),
    {
        let ghost want = self.mark_ops(kind, x as nat, width as nat, y as nat, bg, gut);
        let mut out = Canvas::new();
        if matches!(kind, RowKind::Hunk) && 0 < gutter && gutter <= width {
            let (text, w) = clip(&self.symbol, gutter - 1, self.measure);
            proof {
                law_fit_is_maximal(clusters(self.symbol@, self.measure), (gutter - 1) as nat);
            }
            if text.as_str().unicode_len() > 0 {
                out.put(
                    x + gutter as usize - 1 - w as usize,
                    y,
                    text,
                    wash(self.theme.line_number, bg),
                );
            }
        }
        assert(out@ =~= want);
        out
    }

    /// Draw a single diff row into the box `[x, x+width)` at screen row `y`,
    /// with an optional whole-row background wash and a gutter mode.
    pub fn draw_diff_row(
        &self,
        row: &Row,
        x: usize,
        width: u16,
        y: usize,
        bg: Option<Color>,
        gut: Gut,
    ) -> (r: Canvas)
        requires
            x <= 0xffff,
            drawable(*row),
        ensures
            r@ == self.row_ops(*row, x as nat, width as nat, y as nat, bg, gut),
    {
        let ghost want = self.row_ops(*row, x as nat, width as nat, y as nat, bg, gut);
        let mut out = Canvas::new();
        if width == 0 {
            return out;
        }
        // Wash the whole row so gaps also carry the line/cursor background.
        if bg.is_some() {
            out.put(x, y, repeat(' ', width as usize), put_on(Style::default(), bg));
            assert(repeated(' ', width as nat) =~= blanks(width as nat));
        }
        let line = matches!(row.kind, RowKind::Add | RowKind::Remove | RowKind::Context);
        if self.numbers && line {
            out.put(x, y, self.write_gutter(row, gut), wash(self.theme.line_number, bg));
        }
        let gutter: u16 = if !self.numbers {
            0
        } else {
            match gut {
                Gut::Both => 9,
                Gut::Old | Gut::New => 5,
            }
        };
        let at = x + gutter as usize;
        let base = self.base_style(row.kind);
        if !line {
            out.extend(self.draw_mark(row.kind, x, width, y, bg, gut, gutter));
            let (text, _) = slice_h(&row.spans[0].text, self.skip, width, self.measure);
            out.put(at, y, text, wash(base, bg));
            assert(out@ =~= want);
            return out;
        }
        let (sign, style) = match row.kind {
            RowKind::Add => ("+", in_bold(base)),
            RowKind::Remove => ("-", in_bold(base)),
            _ => (" ", base),
        };
        out.put(at, y, sign.to_string(), wash(style, bg));
        // The gutter and sign are pinned; only the spans past them shift left.
        out.extend(self.draw_spans(row, at + 1, x + width as usize, y, bg));
        assert(out@ =~= want);
        out
    }
}

/// One background, else another.
pub open spec fn either(a: Option<Color>, b: Option<Color>) -> Option<Color> {
    if a is Some {
        a
    } else {
        b
    }
}

fn pick(a: Option<Color>, b: Option<Color>) -> (r: Option<Color>)
    ensures
        r == either(a, b),
{
    if a.is_some() {
        a
    } else {
        b
    }
}

impl Pen {
    /// The whole-line background of a row: that of the cursor wins, otherwise
    /// added and removed lines get a subtle wash, and headers a band.
    pub open spec fn ground(&self, kind: RowKind, cursor: Option<Color>) -> Option<Color> {
        either(
            cursor,
            match kind {
                RowKind::Add => self.theme.add_line_bg,
                RowKind::Remove => self.theme.remove_line_bg,
                RowKind::Hunk | RowKind::File => self.theme.header_bg,
                _ => None,
            },
        )
    }

    /// Draws a row side by side: old lines on the left, new ones on the right,
    /// context on both, with a divider between them. Where one side has no
    /// matching line that half is hatched. Headers and notes span both.
    pub open spec fn split_row_ops(
        &self,
        row: Row,
        x: nat,
        left: nat,
        right: nat,
        y: nat,
        cursor: Option<Color>,
    ) -> Seq<OpView> {
        let at = x + left + 1;
        let bg = self.ground(row.kind, cursor);
        let divider = seq![put(x + left, y, "│"@, on(self.theme.sidebar_border, cursor))];
        match row.kind {
            RowKind::File | RowKind::Hunk | RowKind::Note => self.row_ops(
                row,
                x,
                left + 1 + right,
                y,
                bg,
                Gut::Both,
            ),
            RowKind::Context => self.row_ops(row, x, left, y, bg, Gut::Old) + self.row_ops(
                row,
                at,
                right,
                y,
                bg,
                Gut::New,
            ) + divider,
            RowKind::Remove => self.row_ops(row, x, left, y, bg, Gut::Old) + self.slash_ops(
                at,
                right,
                y,
                cursor,
            ) + divider,
            RowKind::Add => self.slash_ops(x, left, y, cursor) + self.row_ops(
                row,
                at,
                right,
                y,
                bg,
                Gut::New,
            ) + divider,
        }
    }

    /// The whole-line background of a row.
    fn ground_of(&self, kind: RowKind, cursor: Option<Color>) -> (r: Option<Color>)
        ensures
            r == self.ground(kind, cursor),
    {
        pick(
            cursor,
            match kind {
                RowKind::Add => self.theme.add_line_bg,
                RowKind::Remove => self.theme.remove_line_bg,
                RowKind::Hunk | RowKind::File => self.theme.header_bg,
                _ => None,
            },
        )
    }

    /// Draws a row side by side.
    fn draw_split_row(
        &self,
        row: &Row,
        x: usize,
        left: u16,
        right: u16,
        y: usize,
        cursor: Option<Color>,
    ) -> (r: Canvas)
        requires
            x + left + 1 + right <= 0xffff,
            drawable(*row),
        ensures
            r@ == self.split_row_ops(
                *row,
                x as nat,
                left as nat,
                right as nat,
                y as nat,
                cursor,
            ),
    {
        let at = x + left as usize + 1;
        let bg = self.ground_of(row.kind, cursor);
        let mut out = match row.kind {
            RowKind::File | RowKind::Hunk | RowKind::Note => {
                return self.draw_diff_row(row, x, left + 1 + right, y, bg, Gut::Both);
            },
            RowKind::Context => {
                let mut c = self.draw_diff_row(row, x, left, y, bg, Gut::Old);
                c.extend(self.draw_diff_row(row, at, right, y, bg, Gut::New));
                c
            },
            RowKind::Remove => {
                let mut c = self.draw_diff_row(row, x, left, y, bg, Gut::Old);
                c.extend(self.fill_slash(at, right, y, cursor));
                c
            },
            RowKind::Add => {
                let mut c = self.fill_slash(x, left, y, cursor);
                c.extend(self.draw_diff_row(row, at, right, y, bg, Gut::New));
                c
            },
        };
        let ghost before = out@;
        out.put(
            x + left as usize,
            y,
            "│".to_string(),
            put_on(self.theme.sidebar_border, cursor),
        );
        assert(out@ =~= before + seq![
            put((x + left) as nat, y as nat, "│"@, on(self.theme.sidebar_border, cursor)),
        ]);
        out
    }
}

impl App {
    /// What drawing a row goes by.
    pub open spec fn pen_of(&self) -> Pen {
        Pen {
            theme: self.theme,
            measure: self.screen.measure,
            numbers: self.config.line_numbers,
            syntax: self.config@.syntax && self.config@.theme != "ansi"@,
            skip: (self.nav.hscroll % 0x10000) as u16,
            symbol: self.config.context_symbol,
        }
    }

    /// What drawing a row goes by.
    pub fn pen(&self) -> (r: Pen)
        ensures
            r == self.pen_of(),
    {
        Pen {
            theme: self.theme,
            measure: self.screen.measure,
            numbers: self.config.line_numbers,
            syntax: self.config.syntax_enabled(),
            skip: low16(self.nav.hscroll),
            symbol: self.config.context_symbol.clone(),
        }
    }

    /// The row of the document that a row of the body shows: the pinned ones
    /// first, then those from `scroll` on.
    pub open spec fn shown_at(&self, y: nat) -> nat {
        let p = self.pinned_at(self.nav.scroll as nat);
        if y < p.len() {
            p[y as int] as nat
        } else {
            (self.nav.scroll + (y - p.len())) as nat
        }
    }

    /// The background of the cursor, on the row that has it.
    pub open spec fn cursor_ground(&self, i: nat) -> Option<Color> {
        if i == self.nav.cursor && self.ui.mode == Mode::Diff {
            Some(self.theme.cursor_bg)
        } else {
            None
        }
    }

    /// Draws the first `n` rows of the body in one column.
    pub open spec fn diff_ops(&self, n: int, x: nat, width: nat) -> Seq<OpView>
        decreases n,
    {
        if n <= 0 {
            seq![]
        } else {
            let y = (n - 1) as nat;
            let i = self.shown_at(y);
            let row = self.doc.rows@[i as int];
            self.diff_ops(n - 1, x, width) + if i < self.doc.rows@.len() {
                self.pen_of().row_ops(
                    row,
                    x,
                    width,
                    y,
                    self.pen_of().ground(row.kind, self.cursor_ground(i)),
                    Gut::Both,
                )
            } else {
                seq![]
            }
        }
    }

    /// Draws the first `n` rows of the body side by side.
    pub open spec fn split_ops(&self, n: int, x: nat, left: nat, right: nat) -> Seq<OpView>
        decreases n,
    {
        if n <= 0 {
            seq![]
        } else {
            let y = (n - 1) as nat;
            let i = self.shown_at(y);
            self.split_ops(n - 1, x, left, right) + if i < self.doc.rows@.len() {
                self.pen_of().split_row_ops(
                    self.doc.rows@[i as int],
                    x,
                    left,
                    right,
                    y,
                    self.cursor_ground(i),
                )
            } else {
                seq![]
            }
        }
    }

    /// The row of the document that a row of the body shows, if any.
    fn shown_row(&self, sticky: &[usize], y: usize) -> (r: Option<usize>)
        requires
            sticky@ == self.pinned_at(self.nav.scroll as nat),
        ensures
            match r {
                Some(i) => i == self.shown_at(y as nat) && i < self.doc.rows@.len(),
                None => self.shown_at(y as nat) >= self.doc.rows@.len(),
            },
    {
        let n = self.doc.rows.len();
        if y < sticky.len() {
            let i = sticky[y];
            if i < n {
                Some(i)
            } else {
                None
            }
        } else {
            let off = y - sticky.len();
            if off < n && self.nav.scroll < n - off {
                Some(self.nav.scroll + off)
            } else {
                None
            }
        }
    }

    /// The background of the cursor, on the row that has it.
    fn ground_at_cursor(&self, i: usize) -> (r: Option<Color>)
        ensures
            r == self.cursor_ground(i as nat),
    {
        if i == self.nav.cursor && self.ui.mode == Mode::Diff {
            Some(self.theme.cursor_bg)
        } else {
            None
        }
    }

    /// Draws the diff in one column. The sticky band pins the enclosing
    /// file/hunk headers to the top; the scrolled content follows below it.
    pub fn render_diff(&self, x: u16, width: u16, body_h: usize) -> (r: Canvas)
        requires
            all_drawable(self.doc.rows@),
        ensures
            r@ == self.diff_ops(body_h as int, x as nat, width as nat),
    {
        let pen = self.pen();
        let sticky = self.sticky_rows();
        let mut out = Canvas::new();
        let mut y: usize = 0;
        while y < body_h
            invariant
                y <= body_h,
                pen == self.pen_of(),
                all_drawable(self.doc.rows@),
                sticky@ == self.pinned_at(self.nav.scroll as nat),
                out@ == self.diff_ops(y as int, x as nat, width as nat),
            decreases body_h - y,
        {
            if let Some(i) = self.shown_row(&sticky, y) {
                let row = &self.doc.rows[i];
                let bg = pen.ground_of(row.kind, self.ground_at_cursor(i));
                out.extend(pen.draw_diff_row(row, x as usize, width, y, bg, Gut::Both));
            }
            y += 1;
            assert(out@ =~= self.diff_ops(y as int, x as nat, width as nat));
        }
        out
    }

    /// Side-by-side rendering: old lines on the left pane, new on the right,
    /// context on both, with a divider column. Where one side has no matching
    /// line (a pure add or delete) that half is hatched.
    pub fn render_split(&self, x: u16, left: u16, right: u16, body_h: usize) -> (r: Canvas)
        requires
            all_drawable(self.doc.rows@),
            x + left + 1 + right <= 0xffff,
        ensures
            r@ == self.split_ops(body_h as int, x as nat, left as nat, right as nat),
    {
        let pen = self.pen();
        let sticky = self.sticky_rows();
        let mut out = Canvas::new();
        let mut y: usize = 0;
        while y < body_h
            invariant
                y <= body_h,
                pen == self.pen_of(),
                all_drawable(self.doc.rows@),
                x + left + 1 + right <= 0xffff,
                sticky@ == self.pinned_at(self.nav.scroll as nat),
                out@ == self.split_ops(y as int, x as nat, left as nat, right as nat),
            decreases body_h - y,
        {
            if let Some(i) = self.shown_row(&sticky, y) {
                let cursor = self.ground_at_cursor(i);
                out.extend(
                    pen.draw_split_row(&self.doc.rows[i], x as usize, left, right, y, cursor),
                );
            }
            y += 1;
            assert(out@ =~= self.split_ops(y as int, x as nat, left as nat, right as nat));
        }
        out
    }
}

/// An added line has a plus before it, a removed one a minus, and a line of
/// context a blank.
pub proof fn law_signs_tell_the_side(pen: Pen)
    ensures
        pen.sign(RowKind::Add) == seq!['+'],
        pen.sign(RowKind::Remove) == seq!['-'],
        pen.sign(RowKind::Context) == seq![' '],
{
    reveal_strlit("+");
    reveal_strlit("-");
    reveal_strlit(" ");
    assert("+"@ == seq!['+']);
    assert("-"@ == seq!['-']);
    assert(" "@ == seq![' ']);
}

/// The gutter has the old number in its first four columns and the new one in
/// its last four, a blank between them; the gutter of a pane has the number of
/// its own side, and a blank.
pub proof fn law_gutters_number_the_lines(pen: Pen, row: Row)
    ensures
        ({
            let old_no = aligned_number(row.old_no, 4);
            let new_no = aligned_number(row.new_no, 4);
            let both = pen.gutter_text(row, Gut::Both);
            &&& old_no.len() == 4 && new_no.len() == 4 ==> both.len() == 9 && both.subrange(0, 4)
                == old_no && both[4] == ' ' && both.subrange(5, 9) == new_no
            &&& pen.gutter_text(row, Gut::Old) == old_no + seq![' ']
            &&& pen.gutter_text(row, Gut::New) == new_no + seq![' ']
        }),
        pen.numbers ==> pen.gutter(Gut::Both) == 9 && pen.gutter(Gut::Old) == 5 && pen.gutter(
            Gut::New,
        ) == 5,
        !pen.numbers ==> pen.gutter(Gut::Both) == 0 && pen.gutter(Gut::Old) == 0 && pen.gutter(
            Gut::New,
        ) == 0,
{
    reveal_strlit(" ");
    assert(" "@ == seq![' ']);
    let old_no = aligned_number(row.old_no, 4);
    let new_no = aligned_number(row.new_no, 4);
    let both = pen.gutter_text(row, Gut::Both);
    if old_no.len() == 4 && new_no.len() == 4 {
        assert(both.subrange(0, 4) == old_no);
        assert(both.subrange(5, 9) == new_no);
    }
}

/// The row under the cursor has the background of the cursor; else an added line
/// has that of added lines, a removed one that of removed lines, a header that of
/// headers, and any other row none.
pub proof fn law_rows_have_their_background(pen: Pen, kind: RowKind, c: Color)
    ensures
        pen.ground(kind, Some(c)) == Some(c),
        pen.ground(RowKind::Add, None) == pen.theme.add_line_bg,
        pen.ground(RowKind::Remove, None) == pen.theme.remove_line_bg,
        pen.ground(RowKind::Hunk, None) == pen.theme.header_bg,
        pen.ground(RowKind::File, None) == pen.theme.header_bg,
        pen.ground(RowKind::Context, None) is None,
        pen.ground(RowKind::Note, None) is None,
{
}

/// What changed within an added or a removed line is bold, on the background for
/// it; the rest has the color of its syntax, or that of its kind of line.
pub proof fn law_spans_have_their_style(pen: Pen, span: Span, kind: RowKind)
    ensures
        ({
            let s = pen.span_style(span, kind);
            &&& span.changed && kind == RowKind::Add && pen.theme.add_emph_bg is Some ==> s.bg
                == pen.theme.add_emph_bg && s.attrs.bold
            &&& span.changed && kind == RowKind::Remove && pen.theme.remove_emph_bg is Some ==> s.bg
                == pen.theme.remove_emph_bg && s.attrs.bold
            &&& pen.syntax && span.fg is Some ==> s.fg == span.fg
            &&& !pen.syntax && kind == RowKind::Add ==> s.fg == pen.theme.add.fg
            &&& !pen.syntax && kind == RowKind::Remove ==> s.fg == pen.theme.remove.fg
            &&& !pen.syntax && kind == RowKind::Context ==> s.fg == pen.theme.context.fg
            &&& !span.changed && pen.syntax ==> s.bg is None && !s.attrs.bold
            &&& !span.changed && !pen.syntax && kind == RowKind::Add ==> s == pen.theme.add
            &&& !span.changed && !pen.syntax && kind == RowKind::Remove ==> s == pen.theme.remove
        }),
{
}

/// A line is drawn with its background first, then its numbers at the left edge
/// and its sign behind the gutter; its text follows in order.
pub proof fn law_lines_are_drawn_in_order(
    pen: Pen,
    row: Row,
    x: nat,
    width: nat,
    y: nat,
    bg: Color,
    gut: Gut,
)
    requires
        is_line(row.kind),
        width > 0,
    ensures
        ({
            let ops = pen.row_ops(row, x, width, y, Some(bg), gut);
            let at = if pen.numbers {
                2int
            } else {
                1
            };
            &&& ops.len() > at
            &&& ops[0] == put(x, y, blanks(width), Style { bg: Some(bg), ..Style::plain() })
            &&& pen.numbers ==> (ops[1] matches OpView::Put { x: gx, y: gy, text, .. } && gx == x
                && gy == y && text == pen.gutter_text(row, gut))
            &&& ops[at] matches OpView::Put { x: sx, y: sy, text, .. } && sy == y && text
                == pen.sign(row.kind) && sx == x + if !pen.numbers {
                0int
            } else if gut == Gut::Both {
                9
            } else {
                5
            }
        }),
{
}

proof fn lemma_span_ops(
    pen: Pen,
    row: Row,
    n: int,
    k: int,
    x0: nat,
    end: nat,
    y: nat,
    bg: Option<Color>,
) -> (i: int)
    requires
        0 <= k < n <= row.spans@.len(),
        pen.span_shown(row.spans@, k, x0, end).len() > 0,
    ensures
        ({
            let ops = pen.span_ops(row, n, x0, end, y, bg);
            0 <= i < ops.len() && ops[i] == put(
                pen.span_x(row.spans@, k, x0),
                y,
                pen.span_shown(row.spans@, k, x0, end),
                washed(pen.span_style(row.spans@[k], row.kind), bg),
            )
        }),
    decreases n,
{
    if k == n - 1 {
        pen.span_ops(row, n - 1, x0, end, y, bg).len() as int
    } else {
        let i = lemma_span_ops(pen, row, n - 1, k, x0, end, y, bg);
        assert(pen.span_ops(row, n, x0, end, y, bg)[i] == pen.span_ops(row, n - 1, x0, end, y, bg)[i]);
        i
    }
}

/// Every span that shows is drawn, in its row and behind the gutter and the
/// sign; a span begins where the spans before it end, less what is scrolled out.
pub proof fn law_every_span_is_drawn(
    pen: Pen,
    row: Row,
    k: int,
    x: nat,
    width: nat,
    y: nat,
    bg: Option<Color>,
    gut: Gut,
) -> (i: int)
    requires
        is_line(row.kind),
        width > 0,
        0 <= k < row.spans@.len(),
        pen.span_shown(row.spans@, k, x + pen.gutter(gut) + 1, x + width).len() > 0,
    ensures
        ({
            let ops = pen.row_ops(row, x, width, y, bg, gut);
            &&& 0 <= i < ops.len()
            &&& ops[i] matches OpView::Put { x: sx, y: sy, text, .. } && sy == y && sx
                == pen.span_x(row.spans@, k, x + pen.gutter(gut) + 1) && text == pen.span_shown(
                row.spans@,
                k,
                x + pen.gutter(gut) + 1,
                x + width,
            )
        }),
        pen.skip == 0 && k == 0 ==> pen.span_x(row.spans@, k, x) == x,
        pen.skip == 0 && k + 1 < row.spans@.len() ==> pen.span_x(row.spans@, k + 1, x)
            == pen.span_x(row.spans@, k, x) + text_width(row.spans@[k].text@, pen.measure),
{
    let x0 = x + pen.gutter(gut) + 1;
    let n = row.spans@.len() as int;
    let j = lemma_span_ops(pen, row, n, k, x0, x + width, y, bg);
    let tail = pen.span_ops(row, n, x0, x + width, y, bg);
    let ops = pen.row_ops(row, x, width, y, bg, gut);
    let lead = ops.len() - tail.len();
    assert(ops[lead + j] == tail[j]);
    lead + j
}

/// Side by side, a removed line shows on the left and an added one on the right,
/// with slashes on the other side; context shows on both, each with the number of
/// its side; the divider stands between them.
pub proof fn law_sides_show_their_lines(
    pen: Pen,
    row: Row,
    x: nat,
    left: nat,
    right: nat,
    y: nat,
    cursor: Option<Color>,
)
    requires
        left > 0,
        right > 0,
        is_line(row.kind),
    ensures
        ({
            let ops = pen.split_row_ops(row, x, left, right, y, cursor);
            let bg = pen.ground(row.kind, cursor);
            let old_side = pen.row_ops(row, x, left, y, bg, Gut::Old);
            let new_side = pen.row_ops(row, x + left + 1, right, y, bg, Gut::New);
            &&& ops.len() > 0
            &&& ops.last() matches OpView::Put { x: dx, y: dy, text, .. } && dx == x + left && dy
                == y && text == seq!['│']
            &&& row.kind == RowKind::Remove ==> ops.len() == old_side.len() + 2 && ops.take(
                old_side.len() as int,
            ) == old_side && (ops[old_side.len() as int] matches OpView::Put {
                x: hx,
                y: hy,
                text,
                ..
            } && hx == x + left + 1 && hy == y && text == Seq::new(right, |i: int| '╱'))
            &&& row.kind == RowKind::Add ==> ops.len() == new_side.len() + 2 && ops.subrange(
                1,
                ops.len() - 1,
            ) == new_side && (ops[0] matches OpView::Put { x: hx, y: hy, text, .. } && hx == x && hy
                == y && text == Seq::new(left, |i: int| '╱'))
            &&& row.kind == RowKind::Context ==> ops.take(old_side.len() as int) == old_side
                && ops.subrange(old_side.len() as int, ops.len() - 1) == new_side
        }),
{
    reveal_strlit("│");
    assert("│"@ == seq!['│']);
    let ops = pen.split_row_ops(row, x, left, right, y, cursor);
    let bg = pen.ground(row.kind, cursor);
    let old_side = pen.row_ops(row, x, left, y, bg, Gut::Old);
    let new_side = pen.row_ops(row, x + left + 1, right, y, bg, Gut::New);
    let n = old_side.len() as int;
    if row.kind == RowKind::Remove {
        assert(ops.take(n) == old_side);
        assert(repeated('╱', right) == Seq::new(right, |i: int| '╱'));
    } else if row.kind == RowKind::Add {
        assert(ops.subrange(1, ops.len() - 1) == new_side);
        assert(repeated('╱', left) == Seq::new(left, |i: int| '╱'));
    } else {
        assert(ops.take(n) == old_side);
        assert(ops.subrange(n, ops.len() - 1) == new_side);
    }
}

/// Every row of the body that shows a row of the document draws it, on the
/// background of the cursor where the cursor is on it.
pub proof fn law_body_draws_its_rows(app: App, n: int, y: nat, x: nat, width: nat) -> (i: int)
    requires
        y < n,
        app.shown_at(y) < app.doc.rows@.len(),
    ensures
        ({
            let r = app.shown_at(y) as int;
            let row = app.doc.rows@[r];
            let cursor = if r == app.nav.cursor && app.ui.mode == Mode::Diff {
                Some(app.theme.cursor_bg)
            } else {
                None
            };
            let part = app.pen_of().row_ops(
                row,
                x,
                width,
                y,
                app.pen_of().ground(row.kind, cursor),
                Gut::Both,
            );
            let ops = app.diff_ops(n, x, width);
            0 <= i && i + part.len() <= ops.len() && ops.subrange(i, i + part.len()) == part
        }),
    decreases n,
{
    let r = app.shown_at(y) as int;
    let row = app.doc.rows@[r];
    let part = app.pen_of().row_ops(
        row,
        x,
        width,
        y,
        app.pen_of().ground(row.kind, app.cursor_ground(r as nat)),
        Gut::Both,
    );
    let ops = app.diff_ops(n, x, width);
    let rest = app.diff_ops(n - 1, x, width);
    if y == n - 1 {
        assert(ops == rest + part);
        assert(ops.subrange(rest.len() as int, (rest.len() + part.len()) as int) == part);
        rest.len() as int
    } else {
        let i = law_body_draws_its_rows(app, n - 1, y, x, width);
        assert(ops.subrange(0, rest.len() as int) == rest);
        assert(ops.subrange(i, i + part.len()) == rest.subrange(i, i + part.len()));
        i
    }
}

/// Line numbers, syntax colors and scrolling are drawn as they are set; the theme
/// of the terminal's own colors has no syntax colors.
pub proof fn law_drawing_goes_by_the_settings(app: App)
    ensures
        app.pen_of().numbers == app.config.line_numbers,
        app.pen_of().syntax ==> app.config.syntax,
        app.config@.theme == "ansi"@ ==> !app.pen_of().syntax,
        app.config.syntax && app.config@.theme != "ansi"@ ==> app.pen_of().syntax,
        app.nav.hscroll <= 0xffff ==> app.pen_of().skip == app.nav.hscroll,
        app.pen_of().theme == app.theme,
        app.pen_of().symbol == app.config.context_symbol,
{
}

/// Side by side, too, every row of the body that shows a row of the document
/// draws it.
pub proof fn law_split_body_draws_its_rows(
    app: App,
    n: int,
    y: nat,
    x: nat,
    left: nat,
    right: nat,
) -> (i: int)
    requires
        y < n,
        app.shown_at(y) < app.doc.rows@.len(),
    ensures
        ({
            let r = app.shown_at(y) as int;
            let cursor = if r == app.nav.cursor && app.ui.mode == Mode::Diff {
                Some(app.theme.cursor_bg)
            } else {
                None
            };
            let part = app.pen_of().split_row_ops(
                app.doc.rows@[r],
                x,
                left,
                right,
                y,
                cursor,
            );
            let ops = app.split_ops(n, x, left, right);
            0 <= i && i + part.len() <= ops.len() && ops.subrange(i, i + part.len()) == part
        }),
    decreases n,
{
    let r = app.shown_at(y) as int;
    let part = app.pen_of().split_row_ops(
        app.doc.rows@[r],
        x,
        left,
        right,
        y,
        app.cursor_ground(r as nat),
    );
    let ops = app.split_ops(n, x, left, right);
    let rest = app.split_ops(n - 1, x, left, right);
    if y == n - 1 {
        assert(ops == rest + part);
        assert(ops.subrange(rest.len() as int, (rest.len() + part.len()) as int) == part);
        rest.len() as int
    } else {
        let i = law_split_body_draws_its_rows(app, n - 1, y, x, left, right);
        assert(ops.subrange(0, rest.len() as int) == rest);
        assert(ops.subrange(i, i + part.len()) == rest.subrange(i, i + part.len()));
        i
    }
}

/// A header spans both sides, and its text begins behind the gutter.
pub proof fn law_headers_span_both_sides(
    pen: Pen,
    row: Row,
    x: nat,
    left: nat,
    right: nat,
    y: nat,
    cursor: Option<Color>,
)
    requires
        !is_line(row.kind),
    ensures
        ({
            let ops = pen.split_row_ops(row, x, left, right, y, cursor);
            let bg = pen.ground(row.kind, cursor);
            &&& ops == pen.row_ops(row, x, left + 1 + right, y, bg, Gut::Both)
            &&& ops.len() > 0
            &&& ops.last() matches OpView::Put { x: hx, y: hy, text, style } && hx == x
                + pen.gutter(Gut::Both) && hy == y && text == cluster_text(
                sliced(
                    clusters(row.spans@[0].text@, pen.measure),
                    pen.skip as nat,
                    left + 1 + right,
                ),
            ) && (row.kind == RowKind::File ==> style.attrs.bold) && (row.kind == RowKind::Note
                ==> style.attrs.faint)
        }),
{
}

} // verus!
