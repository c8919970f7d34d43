//! The rows of the document: one continuous list of file headers, hunk headers
//! and lines.

use vstd::prelude::*;

use crate::cells::{text_cells, Cell};
#[allow(unused_imports)]
use crate::cells::{cell_views, cells_of};
use crate::color::Color;
use crate::diff::{FileDiff, Hunk, LineKind, Segment};
#[allow(unused_imports)]
use crate::diff::{
    display_path, joined, line_no, segment_views, FileView, HunkView, LineView, SegmentView,
};
#[allow(unused_imports)]
use crate::outside::ClusterView;
use crate::text::{chars_of, same, string_of};

verus! {

/// One styled run of text within a display row.
#[derive(Debug, Clone)]
pub struct Span {
    pub fg: Option<Color>,
    pub changed: bool,
    pub text: String,
}

/// The content of a [`Span`].
pub struct SpanView {
    pub fg: Option<Color>,
    pub changed: bool,
    pub text: Seq<char>,
}

impl View for Span {
    type V = SpanView;

    open spec fn view(&self) -> SpanView {
        SpanView { fg: self.fg, changed: self.changed, text: self.text@ }
    }
}

/// The content of a list of spans.
pub open spec fn span_views(s: Seq<Span>) -> Seq<SpanView> {
    s.map_values(|x: Span| x@)
}

/// What a row shows.
#[derive(Debug, Clone, Copy, PartialEq, Eq, Structural)]
pub enum RowKind {
    File,
    Hunk,
    Add,
    Remove,
    Context,
    Note,
}

/// One row of the document.
#[derive(Debug, Clone)]
pub struct Row {
    pub kind: RowKind,
    pub old_no: Option<usize>,
    pub new_no: Option<usize>,
    pub spans: Vec<Span>,
    /// The row's content parsed into display cells once, so selection can read
    /// exact column-to-text mapping (wide chars included) without touching the
    /// screen. A cell index equals a screen column offset from where the
    /// content starts.
    pub content: Vec<Cell>,
}

/// The content of a [`Row`].
pub struct RowView {
    pub kind: RowKind,
    pub old_no: Option<nat>,
    pub new_no: Option<nat>,
    pub spans: Seq<SpanView>,
    pub content: Seq<ClusterView>,
}

impl View for Row {
    type V = RowView;

    open spec fn view(&self) -> RowView {
        RowView {
            kind: self.kind,
            old_no: line_no(self.old_no),
            new_no: line_no(self.new_no),
            spans: span_views(self.spans@),
            content: cell_views(self.content@),
        }
    }
}

/// The content of a list of rows.
pub open spec fn row_views(s: Seq<Row>) -> Seq<RowView> {
    s.map_values(|x: Row| x@)
}

/// Whether a row is a line of a file, with a gutter and a sign.
pub open spec fn is_line(kind: RowKind) -> bool {
    kind == RowKind::Add || kind == RowKind::Remove || kind == RowKind::Context
}

/// Whether a row can be drawn: a header or a note has its text in a span.
pub open spec fn drawable(row: Row) -> bool {
    is_line(row.kind) || row.spans@.len() > 0
}

/// Whether every row can be drawn.
pub open spec fn all_drawable(rows: Seq<Row>) -> bool {
    forall|i: int| 0 <= i < rows.len() ==> drawable(#[trigger] rows[i])
}

/// The text of a list of spans.
pub open spec fn span_text(s: Seq<SpanView>) -> Seq<char>
    decreases s.len(),
{
    if s.len() == 0 {
        seq![]
    } else {
        span_text(s.drop_last()) + s.last().text
    }
}

/// The row of the given kind, numbers and spans.
pub open spec fn row_of(
    kind: RowKind,
    old_no: Option<nat>,
    new_no: Option<nat>,
    spans: Seq<SpanView>,
) -> RowView {
    RowView { kind, old_no, new_no, spans, content: cells_of(span_text(spans)) }
}

/// Joins the texts of spans.
fn join_spans(spans: &[Span]) -> (r: String)
    ensures
        r@ == span_text(span_views(spans@)),
{
    let ghost all = span_views(spans@);
    let mut text = String::new();
    let mut i: usize = 0;
    assert(text@ =~= seq![]);
    while i < spans.len()
        invariant
            i <= spans.len(),
            all == span_views(spans@),
            text@ == span_text(all.take(i as int)),
        decreases spans.len() - i,
    {
        assert(all.take(i + 1).drop_last() =~= all.take(i as int));
        text.append(&spans[i].text);
        i += 1;
    }
    assert(all.take(all.len() as int) =~= all);
    text
}

impl Row {
    /// A row with its content laid out in cells.
    pub fn new(
        kind: RowKind,
        old_no: Option<usize>,
        new_no: Option<usize>,
        spans: Vec<Span>,
    ) -> (r: Row)
        ensures
            r@ == row_of(kind, line_no(old_no), line_no(new_no), span_views(spans@)),
            r.kind == kind,
            r.spans == spans,
    {
        let text = join_spans(&spans);
        let content = text_cells(&text);
        Row { kind, old_no, new_no, spans, content }
    }
}

/// The flags of the characters of a list of segments.
pub open spec fn change_mask(v: Seq<SegmentView>) -> Seq<bool>
    decreases v.len(),
{
    if v.len() == 0 {
        seq![]
    } else {
        change_mask(v.drop_last()) + Seq::new(v.last().0.len(), |i: int| v.last().1)
    }
}

/// Whether character `i` of a line changed.
pub open spec fn changed_at(mask: Seq<bool>, i: int) -> bool {
    0 <= i < mask.len() && mask[i]
}

/// The spans of the characters `text`, which start at character `at` of their
/// line: one for each longest run of characters that all changed or all did
/// not.
pub open spec fn masked_spans(
    fg: Option<Color>,
    text: Seq<char>,
    mask: Seq<bool>,
    at: int,
) -> Seq<SpanView>
    decreases text.len(),
{
    if text.len() == 0 {
        seq![]
    } else {
        let v = masked_spans(fg, text.drop_last(), mask, at);
        let changed = changed_at(mask, at + text.len() - 1);
        if v.len() > 0 && v.last().changed == changed {
            v.drop_last().push(SpanView { text: v.last().text.push(text.last()), ..v.last() })
        } else {
            v.push(SpanView { fg, changed, text: seq![text.last()] })
        }
    }
}

/// A colored run of text, as a highlighter gives it.
pub type ColoredView = (Option<Color>, Seq<char>);

/// The content of a list of colored runs.
pub open spec fn colored_views(s: Seq<(Option<Color>, String)>) -> Seq<ColoredView> {
    s.map_values(|c: (Option<Color>, String)| (c.0, c.1@))
}

/// How many characters colored runs hold.
pub open spec fn colored_len(s: Seq<ColoredView>) -> nat
    decreases s.len(),
{
    if s.len() == 0 {
        0
    } else {
        colored_len(s.drop_last()) + s.last().1.len()
    }
}

/// Colored runs split where a change starts or stops.
pub open spec fn masked(s: Seq<ColoredView>, mask: Seq<bool>) -> Seq<SpanView>
    decreases s.len(),
{
    if s.len() == 0 {
        seq![]
    } else {
        masked(s.drop_last(), mask) + masked_spans(
            s.last().0,
            s.last().1,
            mask,
            colored_len(s.drop_last()) as int,
        )
    }
}

/// The spans of a line, from its colored runs and its segments.
pub open spec fn merged(
    syntax: Seq<ColoredView>,
    segments: Seq<SegmentView>,
    intraline: bool,
) -> Seq<SpanView> {
    if !intraline || segments.len() == 0 {
        syntax.map_values(|c: ColoredView| SpanView { fg: c.0, changed: false, text: c.1 })
    } else {
        masked(syntax, change_mask(segments))
    }
}

/// The flags of the characters of a list of segments.
fn build_mask(segments: &[Segment]) -> (r: Vec<bool>)
    ensures
        r@ == change_mask(segment_views(segments@)),
{
    let ghost all = segment_views(segments@);
    let mut mask: Vec<bool> = Vec::new();
    let mut i: usize = 0;
    while i < segments.len()
        invariant
            i <= segments.len(),
            all == segment_views(segments@),
            mask@ == change_mask(all.take(i as int)),
        decreases segments.len() - i,
    {
        assert(all.take(i + 1).drop_last() =~= all.take(i as int));
        let cs = chars_of(&segments[i].text);
        let n = cs.len();
        let changed = segments[i].changed;
        let ghost before = mask@;
        let mut k: usize = 0;
        assert(mask@ =~= before + Seq::new(0, |j: int| changed));
        while k < n
            invariant
                k <= n,
                mask@ == before + Seq::new(k as nat, |j: int| changed),
            decreases n - k,
        {
            mask.push(changed);
            k += 1;
            assert(mask@ =~= before + Seq::new(k as nat, |j: int| changed));
        }
        i += 1;
    }
    assert(all.take(all.len() as int) =~= all);
    mask
}

/// Appends the spans of the characters `cs`, which start at character `at` of
/// their line.
fn push_masked(out: &mut Vec<Span>, fg: Option<Color>, cs: &[char], mask: &[bool], at: usize)
    ensures
        span_views(final(out)@) == span_views(old(out)@) + masked_spans(fg, cs@, mask@, at as int),
{
    let ghost before = span_views(out@);
    let m = mask.len();
    let mut parts: Vec<Span> = Vec::new();
    let mut i: usize = 0;
    assert(cs@.take(0) =~= seq![]);
    assert(span_views(parts@) =~= seq![]);
    while i < cs.len()
        invariant
            i <= cs.len(),
            m == mask@.len(),
            span_views(parts@) == masked_spans(fg, cs@.take(i as int), mask@, at as int),
        decreases cs.len() - i,
    {
        let ghost t = cs@.take(i + 1);
        assert(t.drop_last() =~= cs@.take(i as int));
        let ghost v = span_views(parts@);
        let changed = match i.checked_add(at) {
            Some(k) => k < m && mask[k],
            None => false,
        };
        assert(changed == changed_at(mask@, at + i));
        let n = parts.len();
        if n > 0 && parts[n - 1].changed == changed {
            let mut last = parts.pop().unwrap();
            last.text.push(cs[i]);
            parts.push(last);
            assert(span_views(parts@) =~= v.drop_last().push(
                SpanView { text: v.last().text.push(cs@[i as int]), ..v.last() },
            ));
        } else {
            let mut text = String::new();
            text.push(cs[i]);
            assert(text@ =~= seq![cs@[i as int]]);
            parts.push(Span { fg, changed, text });
            assert(span_views(parts@) =~= v.push(
                SpanView { fg, changed, text: seq![cs@[i as int]] },
            ));
        }
        i += 1;
    }
    assert(cs@.take(cs@.len() as int) =~= cs@);
    let ghost v = span_views(parts@);
    out.append(&mut parts);
    assert(span_views(out@) =~= before + v);
}

/// Combine highlighter color spans with intra-line changed segments into a
/// single span list carrying both foreground color and the changed flag.
pub fn merge(
    syntax: &[(Option<Color>, String)],
    segments: &[Segment],
    intraline: bool,
) -> (r: Vec<Span>)
    ensures
        span_views(r@) == merged(colored_views(syntax@), segment_views(segments@), intraline),
{
    let ghost all = colored_views(syntax@);
    let mut out: Vec<Span> = Vec::new();
    if !intraline || segments.len() == 0 {
        let ghost plain = all.map_values(
            |c: ColoredView| SpanView { fg: c.0, changed: false, text: c.1 },
        );
        let mut i: usize = 0;
        while i < syntax.len()
            invariant
                i <= syntax.len(),
                all == colored_views(syntax@),
                plain == all.map_values(
                    |c: ColoredView| SpanView { fg: c.0, changed: false, text: c.1 },
                ),
                span_views(out@) == plain.take(i as int),
            decreases syntax.len() - i,
        {
            let ghost before = span_views(out@);
            let text = syntax[i].1.clone();
            out.push(Span { fg: syntax[i].0, changed: false, text });
            assert(span_views(out@) =~= before.push(plain[i as int]));
            assert(plain.take(i + 1) =~= before.push(plain[i as int]));
            i += 1;
        }
        assert(plain.take(plain.len() as int) =~= plain);
        return out;
    }
    let mask = build_mask(segments);
    let m = mask.len();
    let mut at: usize = 0;
    let mut i: usize = 0;
    assert(span_views(out@) =~= seq![]);
    while i < syntax.len()
        invariant
            i <= syntax.len(),
            all == colored_views(syntax@),
            m == mask@.len(),
            mask@ == change_mask(segment_views(segments@)),
            span_views(out@) == masked(all.take(i as int), mask@),
            at == colored_len(all.take(i as int)) || at == usize::MAX && colored_len(
                all.take(i as int),
            ) > usize::MAX,
        decreases syntax.len() - i,
    {
        assert(all.take(i + 1).drop_last() =~= all.take(i as int));
        let cs = chars_of(&syntax[i].1);
        let n = cs.len();
        proof {
            lemma_masked_far(
                syntax@[i as int].0,
                cs@,
                mask@,
                at as int,
                colored_len(all.take(i as int)) as int,
            );
        }
        push_masked(&mut out, syntax[i].0, &cs, &mask, at);
        at = at.saturating_add(n);
        i += 1;
    }
    assert(all.take(all.len() as int) =~= all);
    out
}

/// Behind the end of the mask nothing changed, wherever that is.
proof fn lemma_masked_far(fg: Option<Color>, text: Seq<char>, mask: Seq<bool>, a: int, b: int)
    requires
        a == b || a >= mask.len() && b >= mask.len(),
    ensures
        masked_spans(fg, text, mask, a) == masked_spans(fg, text, mask, b),
    decreases text.len(),
{
    if text.len() > 0 {
        lemma_masked_far(fg, text.drop_last(), mask, a, b);
    }
}

/// `n` blanks.
pub open spec fn blanks(n: nat) -> Seq<char> {
    Seq::new(n, |i: int| ' ')
}

/// `text`, which starts in column `col`, with blanks up to the next tab stop
/// in place of each tab.
pub open spec fn untabbed(text: Seq<char>, tab: nat, col: nat) -> Seq<char>
    decreases text.len(),
{
    if text.len() == 0 {
        seq![]
    } else {
        let v = untabbed(text.drop_last(), tab, col);
        if text.last() == '\t' {
            v + blanks((tab - (col + v.len()) % tab) as nat)
        } else {
            v.push(text.last())
        }
    }
}

/// Spans with blanks in place of tabs, columns counted across the spans.
pub open spec fn untabbed_spans(s: Seq<SpanView>, tab: nat) -> Seq<SpanView>
    decreases s.len(),
{
    if s.len() == 0 {
        seq![]
    } else {
        let v = untabbed_spans(s.drop_last(), tab);
        v.push(
            SpanView { text: untabbed(s.last().text, tab, span_text(v).len()), ..s.last() },
        )
    }
}

/// The column behind one more character, and the one behind a tab, counted
/// from the last tab stop.
proof fn lemma_tab_stop(c: int, tab: int)
    requires
        0 <= c,
        0 < tab,
    ensures
        0 <= c % tab < tab,
        (c + 1) % tab == if c % tab + 1 == tab {
            0
        } else {
            c % tab + 1
        },
        (c + (tab - c % tab)) % tab == 0,
{
    let q = c / tab;
    let r = c % tab;
    vstd::arithmetic::div_mod::lemma_fundamental_div_mod(c, tab);
    assert((q + 1) * tab == tab * q + tab) by (nonlinear_arith);
    assert(q * tab == tab * q) by (nonlinear_arith);
    if r + 1 == tab {
        vstd::arithmetic::div_mod::lemma_fundamental_div_mod_converse(c + 1, tab, q + 1, 0);
    } else {
        vstd::arithmetic::div_mod::lemma_fundamental_div_mod_converse(c + 1, tab, q, r + 1);
    }
    vstd::arithmetic::div_mod::lemma_fundamental_div_mod_converse(c + (tab - r), tab, q + 1, 0);
}

/// Expands the tabs of a text that starts `phase` columns after a tab stop.
/// Returns it with the column that it ends in, counted the same way.
fn untab(text: &str, tab: usize, phase: usize, Ghost(col): Ghost<nat>) -> (r: (String, usize))
    requires
        tab > 0,
        phase == col % (tab as nat),
    ensures
        r.0@ == untabbed(text@, tab as nat, col),
        r.1 == (col + r.0@.len()) % tab as nat,
{
    let cs = chars_of(text);
    let mut out: Vec<char> = Vec::new();
    let mut m: usize = phase;
    let mut i: usize = 0;
    assert(cs@.take(0) =~= seq![]);
    while i < cs.len()
        invariant
            i <= cs.len(),
            tab > 0,
            m == (col + out@.len()) % tab as nat,
            m < tab,
            out@ == untabbed(cs@.take(i as int), tab as nat, col),
        decreases cs.len() - i,
    {
        let c = cs[i];
        let ghost before = out@;
        proof {
            assert(cs@.take(i + 1).drop_last() =~= cs@.take(i as int));
            lemma_tab_stop((col + out@.len()) as int, tab as int);
        }
        if c == '\t' {
            let n = tab - m;
            let mut k: usize = 0;
            assert(out@ =~= before + blanks(0));
            while k < n
                invariant
                    k <= n,
                    out@ == before + blanks(k as nat),
                decreases n - k,
            {
                out.push(' ');
                k += 1;
                assert(out@ =~= before + blanks(k as nat));
            }
            m = 0;
        } else {
            out.push(c);
            m = if m + 1 == tab {
                0
            } else {
                m + 1
            };
        }
        i += 1;
    }
    assert(cs@.take(cs@.len() as int) =~= cs@);
    (string_of(&out), m)
}

/// Replace tabs with spaces to the next tab stop, tracking column across spans
/// so indentation lines up. Terminals give `\t` zero width in the grapheme
/// model, so unexpanded tabs would collapse to nothing on screen. Tab stops
/// count codepoints, not display width.
pub fn expand_tabs(spans: &mut Vec<Span>, tab: usize)
    ensures
        span_views(final(spans)@) == if tab == 0 {
            span_views(old(spans)@)
        } else {
            untabbed_spans(span_views(old(spans)@), tab as nat)
        },
{
    if tab == 0 {
        return;
    }
    let ghost all = span_views(spans@);
    let n = spans.len();
    let mut m: usize = 0;
    let mut i: usize = 0;
    assert(all.take(0) =~= seq![]);
    assert(0int % tab as int == 0) by {
        lemma_tab_stop(0, tab as int);
        vstd::arithmetic::div_mod::lemma_small_mod(0, tab as nat);
    }
    while i < n
        invariant
            i <= n,
            n == spans.len(),
            n == all.len(),
            tab > 0,
            span_views(spans@).take(i as int) == untabbed_spans(all.take(i as int), tab as nat),
            forall|k: int| i <= k < n ==> (#[trigger] spans@[k])@ == all[k],
            m == span_text(untabbed_spans(all.take(i as int), tab as nat)).len() % tab as nat,
        decreases n - i,
    {
        let ghost v = untabbed_spans(all.take(i as int), tab as nat);
        let ghost before = span_views(spans@);
        let (text, next) = untab(&spans[i].text, tab, m, Ghost(span_text(v).len()));
        assert(spans@[i as int]@ == all[i as int]);
        spans[i].text = text;
        m = next;
        proof {
            let t = all.take(i + 1);
            assert(t.drop_last() =~= all.take(i as int));
            let w = untabbed_spans(t, tab as nat);
            assert(w.drop_last() =~= v);
            assert(spans@[i as int]@ == w.last());
            assert(span_views(spans@).take(i + 1) =~= before.take(i as int).push(w.last()));
        }
        i += 1;
    }
    assert(all.take(n as int) =~= all);
    assert(span_views(spans@).take(n as int) =~= span_views(spans@));
}

/// One plain span.
pub open spec fn plain_span(text: Seq<char>) -> Seq<SpanView> {
    seq![SpanView { fg: None, changed: false, text }]
}

/// A row of one plain span and no numbers.
pub open spec fn plain_row(kind: RowKind, text: Seq<char>) -> RowView {
    row_of(kind, None, None, plain_span(text))
}

/// A row of one plain span and no numbers.
fn make_plain_row(kind: RowKind, text: String) -> (r: Row)
    ensures
        r@ == plain_row(kind, text@),
        r.kind == kind,
        drawable(r),
{
    let ghost t = text@;
    let mut spans: Vec<Span> = Vec::new();
    spans.push(Span { fg: None, changed: false, text });
    assert(span_views(spans@) =~= plain_span(t));
    Row::new(kind, None, None, spans)
}

/// The kind of row that shows a line.
pub open spec fn row_kind(kind: LineKind) -> RowKind {
    match kind {
        LineKind::Add => RowKind::Add,
        LineKind::Remove => RowKind::Remove,
        LineKind::Context => RowKind::Context,
    }
}

/// The spans that show a line.
pub open spec fn line_spans(
    l: LineView,
    syntax: Seq<ColoredView>,
    intraline: bool,
    tab: nat,
) -> Seq<SpanView> {
    let v = merged(syntax, l.segments, intraline);
    if tab == 0 {
        v
    } else {
        untabbed_spans(v, tab)
    }
}

/// The row that shows a line.
pub open spec fn line_row(
    l: LineView,
    syntax: Seq<ColoredView>,
    intraline: bool,
    tab: nat,
) -> RowView {
    row_of(row_kind(l.kind), l.old_no, l.new_no, line_spans(l, syntax, intraline, tab))
}

/// The rows that show a hunk: its header, then its lines.
pub open spec fn hunk_rows(
    h: HunkView,
    syntax: Seq<Seq<ColoredView>>,
    intraline: bool,
    tab: nat,
) -> Seq<RowView> {
    seq![plain_row(RowKind::Hunk, h.header)] + Seq::new(
        h.lines.len(),
        |k: int| line_row(h.lines[k], syntax[k], intraline, tab),
    )
}

/// The rows that show the first `n` hunks.
pub open spec fn hunks_rows(
    hs: Seq<HunkView>,
    syntax: Seq<Seq<Seq<ColoredView>>>,
    intraline: bool,
    tab: nat,
    n: int,
) -> Seq<RowView>
    decreases n,
{
    if n <= 0 {
        seq![]
    } else {
        hunks_rows(hs, syntax, intraline, tab, n - 1) + hunk_rows(
            hs[n - 1],
            syntax[n - 1],
            intraline,
            tab,
        )
    }
}

/// The rows that show a file, without its header.
pub open spec fn file_rows(
    f: FileView,
    syntax: Seq<Seq<Seq<ColoredView>>>,
    intraline: bool,
    tab: nat,
) -> Seq<RowView> {
    if f.is_binary {
        seq![plain_row(RowKind::Note, "Binary file — no textual diff"@)]
    } else {
        hunks_rows(f.hunks, syntax, intraline, tab, f.hunks.len() as int)
    }
}

/// The colored runs of a line.
pub type Colored = Vec<(Option<Color>, String)>;

/// The content of the colored runs of the lines of a hunk.
pub open spec fn hunk_syntax(s: Seq<Colored>) -> Seq<Seq<ColoredView>> {
    s.map_values(|l: Colored| colored_views(l@))
}

/// The content of the colored runs of the lines of a file.
pub open spec fn file_syntax(s: Seq<Vec<Colored>>) -> Seq<Seq<Seq<ColoredView>>> {
    s.map_values(|h: Vec<Colored>| hunk_syntax(h@))
}

/// Whether there are colored runs for every line of a file.
pub open spec fn highlighted(f: FileView, syntax: Seq<Vec<Colored>>) -> bool {
    f.is_binary || syntax.len() == f.hunks.len() && forall|k: int|
        0 <= k < f.hunks.len() ==> (#[trigger] syntax[k])@.len() == f.hunks[k].lines.len()
}

/// Appends the rows of a hunk.
fn push_hunk_rows(
    rows: &mut Vec<Row>,
    hunk: &Hunk,
    syntax: &[Colored],
    intraline: bool,
    tab: usize,
)
    requires
        syntax@.len() == hunk@.lines.len(),
    ensures
        all_drawable(old(rows)@) ==> all_drawable(final(rows)@),
        row_views(final(rows)@) == row_views(old(rows)@) + hunk_rows(
            hunk@,
            hunk_syntax(syntax@),
            intraline,
            tab as nat,
        ),
{
    let ghost before = row_views(rows@);
    let ghost all = hunk_rows(hunk@, hunk_syntax(syntax@), intraline, tab as nat);
    rows.push(make_plain_row(RowKind::Hunk, hunk.header.clone()));
    assert(row_views(rows@) =~= before + all.take(1));
    let mut i: usize = 0;
    while i < hunk.lines.len()
        invariant
            i <= hunk.lines.len(),
            syntax@.len() == hunk@.lines.len(),
            all == hunk_rows(hunk@, hunk_syntax(syntax@), intraline, tab as nat),
            row_views(rows@) == before + all.take(i + 1),
            all_drawable(old(rows)@) ==> all_drawable(rows@),
        decreases hunk.lines.len() - i,
    {
        let line = &hunk.lines[i];
        let mut spans = merge(&syntax[i], &line.segments, intraline);
        expand_tabs(&mut spans, tab);
        let kind = match line.kind {
            LineKind::Add => RowKind::Add,
            LineKind::Remove => RowKind::Remove,
            LineKind::Context => RowKind::Context,
        };
        let ghost now = row_views(rows@);
        let row = Row::new(kind, line.old_no, line.new_no, spans);
        assert(hunk@.lines[i as int] == line@);
        assert(hunk_syntax(syntax@)[i as int] == colored_views(syntax@[i as int]@));
        assert(row@ == all[i + 1]);
        rows.push(row);
        assert(row_views(rows@) =~= now.push(all[i + 1]));
        assert(all.take(i + 2) =~= all.take(i + 1).push(all[i + 1]));
        assert(row_views(rows@) =~= before + all.take(i + 2));
        i += 1;
    }
    assert(all.take(all.len() as int) =~= all);
}

/// Flatten a single file diff into styled display rows, given the colored runs
/// of each line of each hunk.
pub fn build_file_rows(
    file: &FileDiff,
    syntax: &[Vec<Colored>],
    intraline: bool,
    tab: usize,
) -> (r: Vec<Row>)
    requires
        highlighted(file@, syntax@),
    ensures
        row_views(r@) == file_rows(file@, file_syntax(syntax@), intraline, tab as nat),
        all_drawable(r@),
{
    let mut rows: Vec<Row> = Vec::new();
    if file.is_binary {
        rows.push(make_plain_row(RowKind::Note, "Binary file — no textual diff".to_string()));
        assert(row_views(rows@) =~= file_rows(
            file@,
            file_syntax(syntax@),
            intraline,
            tab as nat,
        ));
        return rows;
    }
    let mut i: usize = 0;
    assert(row_views(rows@) =~= seq![]);
    while i < file.hunks.len()
        invariant
            i <= file.hunks.len(),
            highlighted(file@, syntax@),
            !file.is_binary,
            all_drawable(rows@),
            row_views(rows@) == hunks_rows(
                file@.hunks,
                file_syntax(syntax@),
                intraline,
                tab as nat,
                i as int,
            ),
        decreases file.hunks.len() - i,
    {
        assert(file@.hunks[i as int] == file.hunks@[i as int]@);
        assert(syntax@[i as int]@.len() == file@.hunks[i as int].lines.len());
        assert(file_syntax(syntax@)[i as int] == hunk_syntax(syntax@[i as int]@));
        push_hunk_rows(&mut rows, &file.hunks[i], &syntax[i], intraline, tab);
        i += 1;
    }
    rows
}

/// The path to show on one side of a file header: its own, or the one that the
/// file is shown under where that side has none.
pub open spec fn side_path(own: Seq<char>, shown: Seq<char>) -> Seq<char> {
    if own == "/dev/null"@ || own.len() == 0 {
        shown
    } else {
        own
    }
}

/// The row that introduces a file.
pub open spec fn header_row(f: FileView) -> RowView {
    let shown = display_path(f);
    plain_row(
        RowKind::File,
        "diff --git a/"@ + side_path(f.old_path, shown) + " b/"@ + side_path(f.new_path, shown),
    )
}

/// A `git diff`-style header row that introduces a file in the continuous
/// document. Renames show both paths, as real unified-diff output does.
/// Git's `diff --git` line always carries the real filename on both sides,
/// even for creates/deletes: the /dev/null sentinel only appears on the
/// ---/+++ lines. Falls back to the display path so a new file doesn't render
/// as "a//dev/null".
pub fn file_header_row(f: &FileDiff) -> (r: Row)
    ensures
        r@ == header_row(f@),
        r.kind == RowKind::File,
        drawable(r),
{
    let shown = f.path();
    let a: &str = if same(&f.old_path, "/dev/null") || f.old_path.as_str().unicode_len() == 0 {
        shown
    } else {
        &f.old_path
    };
    let b: &str = if same(&f.new_path, "/dev/null") || f.new_path.as_str().unicode_len() == 0 {
        shown
    } else {
        &f.new_path
    };
    let mut text = "diff --git a/".to_string();
    text.append(a);
    text.append(" b/");
    text.append(b);
    make_plain_row(RowKind::File, text)
}

/// The rows of the first `n` files, each behind its header.
pub open spec fn document_rows(
    fs: Seq<FileView>,
    syntax: Seq<Seq<Seq<Seq<ColoredView>>>>,
    intraline: bool,
    tab: nat,
    n: int,
) -> Seq<RowView>
    decreases n,
{
    if n <= 0 {
        seq![]
    } else {
        document_rows(fs, syntax, intraline, tab, n - 1).push(header_row(fs[n - 1])) + file_rows(
            fs[n - 1],
            syntax[n - 1],
            intraline,
            tab,
        )
    }
}

/// The content of the colored runs of the lines of all files.
pub open spec fn document_syntax(s: Seq<Vec<Vec<Colored>>>) -> Seq<Seq<Seq<Seq<ColoredView>>>> {
    s.map_values(|f: Vec<Vec<Colored>>| file_syntax(f@))
}

/// Build the whole continuous document: each file's header row followed by its
/// body rows, recording each file's start offset.
pub fn assemble_document(
    files: &[FileDiff],
    syntax: &[Vec<Vec<Colored>>],
    intraline: bool,
    tab: usize,
) -> (r: (Vec<Row>, Vec<usize>))
    requires
        syntax@.len() == files@.len(),
        forall|k: int| 0 <= k < files@.len() ==> highlighted((#[trigger] files@[k])@, syntax@[k]@),
    ensures
        row_views(r.0@) == document_rows(
            crate::diff::file_views(files@),
            document_syntax(syntax@),
            intraline,
            tab as nat,
            files@.len() as int,
        ),
        r.1@.len() == files@.len(),
        forall|k: int|
            0 <= k < files@.len() ==> (#[trigger] r.1@[k]) == document_rows(
                crate::diff::file_views(files@),
                document_syntax(syntax@),
                intraline,
                tab as nat,
                k,
            ).len(),
        all_drawable(r.0@),
{
    let mut doc: Vec<Row> = Vec::new();
    let mut starts: Vec<usize> = Vec::new();
    let ghost fs = crate::diff::file_views(files@);
    let ghost syn = document_syntax(syntax@);
    let mut i: usize = 0;
    assert(row_views(doc@) =~= seq![]);
    while i < files.len()
        invariant
            i <= files.len(),
            fs == crate::diff::file_views(files@),
            syn == document_syntax(syntax@),
            syntax@.len() == files@.len(),
            forall|k: int|
                0 <= k < files@.len() ==> highlighted((#[trigger] files@[k])@, syntax@[k]@),
            row_views(doc@) == document_rows(fs, syn, intraline, tab as nat, i as int),
            all_drawable(doc@),
            starts@.len() == i,
            forall|k: int|
                0 <= k < i ==> (#[trigger] starts@[k]) == document_rows(
                    fs,
                    syn,
                    intraline,
                    tab as nat,
                    k,
                ).len(),
        decreases files.len() - i,
    {
        let ghost before = row_views(doc@);
        starts.push(doc.len());
        doc.push(file_header_row(&files[i]));
        assert(files@[i as int]@ == fs[i as int]);
        assert(row_views(doc@) =~= before.push(header_row(fs[i as int])));
        assert(highlighted(files@[i as int]@, syntax@[i as int]@));
        let mut body = build_file_rows(&files[i], &syntax[i], intraline, tab);
        assert(syn[i as int] == file_syntax(syntax@[i as int]@));
        let ghost now = row_views(doc@);
        let ghost added = row_views(body@);
        doc.append(&mut body);
        assert(row_views(doc@) =~= now + added);
        i += 1;
    }
    (doc, starts)
}

/// A tab reaches to the next tab stop: it becomes one to `tab` blanks, behind
/// which the column is a multiple of `tab`. Other characters stay, and no tab is
/// left.
pub proof fn law_tabs_reach_tab_stops(text: Seq<char>, c: char, tab: nat, col: nat)
    requires
        tab > 0,
    ensures
        ({
            let v = untabbed(text, tab, col);
            let w = untabbed(text.push(c), tab, col);
            &&& c != '\t' ==> w == v.push(c)
            &&& c == '\t' ==> v.len() < w.len() <= v.len() + tab && (col + w.len()) % tab == 0
                && w.take(v.len() as int) == v && forall|k: int|
                v.len() <= k < w.len() ==> #[trigger] w[k] == ' '
            &&& untabbed(Seq::empty(), tab, col) == Seq::<char>::empty()
        }),
{
    let v = untabbed(text, tab, col);
    let w = untabbed(text.push(c), tab, col);
    assert(text.push(c).drop_last() =~= text);
    let at = (col + v.len()) as int;
    if c == '\t' {
        assert(w.take(v.len() as int) =~= v);
        vstd::arithmetic::div_mod::lemma_fundamental_div_mod(at, tab as int);
        let q = at / tab as int;
        let r = at % tab as int;
        assert(tab as int * q + tab == (q + 1) * tab) by (nonlinear_arith);
        vstd::arithmetic::div_mod::lemma_fundamental_div_mod_converse(
            at + (tab - r),
            tab as int,
            q + 1,
            0,
        );
    }
}

/// Text without tabs is shown as it is.
pub proof fn law_text_without_tabs_stays(text: Seq<char>, tab: nat, col: nat)
    requires
        forall|i: int| 0 <= i < text.len() ==> #[trigger] text[i] != '\t',
    ensures
        untabbed(text, tab, col) == text,
    decreases text.len(),
{
    if text.len() > 0 {
        assert(text.last() == text[text.len() - 1]);
        law_text_without_tabs_stays(text.drop_last(), tab, col);
        assert(text.drop_last().push(text.last()) =~= text);
    }
}

/// Each character of the segments of a line is flagged as its segment is.
pub proof fn law_flags_go_by_the_segments(v: Seq<SegmentView>, s: int, j: int)
    requires
        0 <= s < v.len(),
        0 <= j < v[s].0.len(),
    ensures
        change_mask(v).len() == joined(v).len(),
        joined(v.take(s)).len() + j < change_mask(v).len(),
        change_mask(v)[joined(v.take(s)).len() + j] == v[s].1,
    decreases v.len(),
{
    let d = v.drop_last();
    lemma_mask_len(d);
    if s < v.len() - 1 {
        law_flags_go_by_the_segments(d, s, j);
        assert(d.take(s) =~= v.take(s));
    } else {
        assert(v.take(s) =~= d);
    }
}

proof fn lemma_mask_len(v: Seq<SegmentView>)
    ensures
        change_mask(v).len() == joined(v).len(),
    decreases v.len(),
{
    if v.len() > 0 {
        lemma_mask_len(v.drop_last());
    }
}

proof fn lemma_masked_spans_text(fg: Option<Color>, text: Seq<char>, mask: Seq<bool>, at: int)
    ensures
        span_text(masked_spans(fg, text, mask, at)) == text,
    decreases text.len(),
{
    if text.len() > 0 {
        let d = text.drop_last();
        lemma_masked_spans_text(fg, d, mask, at);
        let v = masked_spans(fg, d, mask, at);
        let w = masked_spans(fg, text, mask, at);
        let changed = changed_at(mask, at + text.len() - 1);
        if v.len() > 0 && v.last().changed == changed {
            assert(w.drop_last() =~= v.drop_last());
            assert(w.last().text == v.last().text.push(text.last()));
            assert(span_text(w) =~= span_text(v).push(text.last()));
        } else {
            assert(w.drop_last() =~= v);
            assert(span_text(w) =~= span_text(v).push(text.last()));
        }
        assert(d.push(text.last()) =~= text);
    }
}

/// The span of a run that shows a character of it.
proof fn lemma_masked_span_at(
    fg: Option<Color>,
    text: Seq<char>,
    mask: Seq<bool>,
    at: int,
    j: int,
) -> (i: int)
    requires
        0 <= j < text.len(),
    ensures
        ({
            let v = masked_spans(fg, text, mask, at);
            let before = span_text(v.take(i)).len();
            &&& 0 <= i < v.len()
            &&& before <= j < before + v[i].text.len()
            &&& v[i].text[j - before] == text[j]
            &&& v[i].fg == fg
            &&& v[i].changed == changed_at(mask, at + j)
        }),
    decreases text.len(),
{
    let d = text.drop_last();
    let v = masked_spans(fg, d, mask, at);
    let w = masked_spans(fg, text, mask, at);
    let changed = changed_at(mask, at + text.len() - 1);
    lemma_masked_spans_text(fg, d, mask, at);
    lemma_one_color(fg, d, mask, at);
    let joins = v.len() > 0 && v.last().changed == changed;
    if j < text.len() - 1 {
        let i = lemma_masked_span_at(fg, d, mask, at, j);
        assert(w.take(i) =~= v.take(i));
        i
    } else {
        let i = w.len() - 1;
        if joins {
            assert(w.take(i) =~= v.drop_last());
            assert(span_text(v) == span_text(v.drop_last()) + v.last().text);
        } else {
            assert(w.take(i) =~= v);
        }
        i
    }
}

proof fn lemma_one_color(fg: Option<Color>, text: Seq<char>, mask: Seq<bool>, at: int)
    ensures
        forall|i: int|
            0 <= i < masked_spans(fg, text, mask, at).len() ==> (#[trigger] masked_spans(
                fg,
                text,
                mask,
                at,
            )[i]).fg == fg,
    decreases text.len(),
{
    if text.len() > 0 {
        lemma_one_color(fg, text.drop_last(), mask, at);
        let v = masked_spans(fg, text.drop_last(), mask, at);
        if v.len() > 0 {
            assert(v[v.len() - 1].fg == fg);
        }
    }
}

proof fn lemma_span_text(a: Seq<SpanView>, b: Seq<SpanView>)
    ensures
        span_text(a + b) == span_text(a) + span_text(b),
    decreases b.len(),
{
    if b.len() == 0 {
        assert(a + b =~= a);
        assert(span_text(a) + span_text(b) =~= span_text(a));
    } else {
        assert((a + b).drop_last() =~= a + b.drop_last());
        lemma_span_text(a, b.drop_last());
        assert(span_text(a + b) =~= span_text(a) + span_text(b));
    }
}

proof fn lemma_masked_len(s: Seq<ColoredView>, mask: Seq<bool>)
    ensures
        span_text(masked(s, mask)).len() == colored_len(s),
    decreases s.len(),
{
    if s.len() > 0 {
        let d = s.drop_last();
        lemma_masked_len(d, mask);
        let at = colored_len(d) as int;
        lemma_masked_spans_text(s.last().0, s.last().1, mask, at);
        lemma_span_text(masked(d, mask), masked_spans(s.last().0, s.last().1, mask, at));
    }
}

/// Each character of a line is shown at its own place, in the color of its run
/// and as changed where it is flagged so. Returns the span that shows it.
pub proof fn law_spans_show_colors_and_changes(
    s: Seq<ColoredView>,
    mask: Seq<bool>,
    k: int,
    j: int,
) -> (i: int)
    requires
        0 <= k < s.len(),
        0 <= j < s[k].1.len(),
    ensures
        ({
            let v = masked(s, mask);
            let p = colored_len(s.take(k)) as int + j;
            let before = span_text(v.take(i)).len();
            &&& 0 <= i < v.len()
            &&& before <= p < before + v[i].text.len()
            &&& v[i].text[p - before] == s[k].1[j]
            &&& v[i].fg == s[k].0
            &&& v[i].changed <==> p < mask.len() && mask[p]
        }),
    decreases s.len(),
{
    let d = s.drop_last();
    let v = masked(d, mask);
    let at = colored_len(d) as int;
    let more = masked_spans(s.last().0, s.last().1, mask, at);
    let w = masked(s, mask);
    lemma_masked_len(d, mask);
    if k < s.len() - 1 {
        let i = law_spans_show_colors_and_changes(d, mask, k, j);
        assert(d.take(k) =~= s.take(k));
        assert(w.take(i) =~= v.take(i));
        i
    } else {
        let i = lemma_masked_span_at(s.last().0, s.last().1, mask, at, j);
        assert(s.take(k) =~= d);
        assert(w.take(v.len() + i) =~= v + more.take(i));
        lemma_span_text(v, more.take(i));
        v.len() + i
    }
}

/// A line without segments, or with word-level emphasis off, shows nothing as
/// changed.
pub proof fn law_no_emphasis_without_segments(
    syntax: Seq<ColoredView>,
    segments: Seq<SegmentView>,
    intraline: bool,
    i: int,
)
    requires
        !intraline || segments.len() == 0,
    ensures
        merged(syntax, segments, intraline).len() == syntax.len(),
        0 <= i < syntax.len() ==> merged(syntax, segments, intraline)[i] == (SpanView {
            fg: syntax[i].0,
            changed: false,
            text: syntax[i].1,
        }),
{
}

/// With word-level emphasis on, a line with segments shows what they flag.
pub proof fn law_emphasis_goes_by_the_segments(
    syntax: Seq<ColoredView>,
    segments: Seq<SegmentView>,
)
    requires
        segments.len() > 0,
    ensures
        merged(syntax, segments, true) == masked(syntax, change_mask(segments)),
{
}

/// A line is shown as a row of its own kind and numbers: added lines as added,
/// removed ones as removed, and context as context.
pub proof fn law_rows_show_their_lines(
    l: LineView,
    syntax: Seq<ColoredView>,
    intraline: bool,
    tab: nat,
)
    ensures
        ({
            let r = line_row(l, syntax, intraline, tab);
            &&& r.kind == RowKind::Add <==> l.kind == LineKind::Add
            &&& r.kind == RowKind::Remove <==> l.kind == LineKind::Remove
            &&& r.kind == RowKind::Context <==> l.kind == LineKind::Context
            &&& r.old_no == l.old_no
            &&& r.new_no == l.new_no
            &&& r.content == cells_of(span_text(r.spans))
        }),
{
}

/// Where the rows of a hunk begin among those of its file.
pub open spec fn hunk_at(hs: Seq<HunkView>, k: int) -> nat
    decreases k,
{
    if k <= 0 {
        0
    } else {
        hunk_at(hs, k - 1) + 1 + hs[k - 1].lines.len()
    }
}

/// A file is shown hunk by hunk, each as its header and then its lines in order;
/// a binary file as a note.
pub proof fn law_files_show_their_hunks(
    f: FileView,
    syntax: Seq<Seq<Seq<ColoredView>>>,
    intraline: bool,
    tab: nat,
    k: int,
    i: int,
)
    requires
        0 <= k < f.hunks.len(),
        0 <= i < f.hunks[k].lines.len(),
    ensures
        ({
            let rows = file_rows(f, syntax, intraline, tab);
            let at = hunk_at(f.hunks, k) as int;
            &&& f.is_binary ==> rows.len() == 1 && rows[0].kind == RowKind::Note
            &&& !f.is_binary ==> rows.len() == hunk_at(f.hunks, f.hunks.len() as int)
            &&& !f.is_binary ==> at + 1 + i < rows.len()
            &&& !f.is_binary ==> rows[at].kind == RowKind::Hunk && span_text(rows[at].spans)
                == f.hunks[k].header
            &&& !f.is_binary ==> rows[at + 1 + i] == line_row(
                f.hunks[k].lines[i],
                syntax[k][i],
                intraline,
                tab,
            )
        }),
{
    lemma_hunk_rows(f.hunks, syntax, intraline, tab, k, i, f.hunks.len() as int);
    let h = f.hunks[k].header;
    assert(plain_span(h).drop_last() =~= seq![]);
    assert(span_text(plain_span(h).drop_last()) =~= seq![]);
    assert(span_text(plain_span(h)) =~= h);
}

proof fn lemma_hunk_rows(
    hs: Seq<HunkView>,
    syntax: Seq<Seq<Seq<ColoredView>>>,
    intraline: bool,
    tab: nat,
    k: int,
    i: int,
    n: int,
)
    requires
        0 <= k < n <= hs.len(),
        0 <= i < hs[k].lines.len(),
    ensures
        ({
            let rows = hunks_rows(hs, syntax, intraline, tab, n);
            let at = hunk_at(hs, k) as int;
            &&& rows.len() == hunk_at(hs, n)
            &&& at + 1 + i < rows.len()
            &&& rows[at] == plain_row(RowKind::Hunk, hs[k].header)
            &&& rows[at + 1 + i] == line_row(hs[k].lines[i], syntax[k][i], intraline, tab)
        }),
    decreases n,
{
    lemma_hunks_len(hs, syntax, intraline, tab, n - 1);
    if k < n - 1 {
        lemma_hunk_rows(hs, syntax, intraline, tab, k, i, n - 1);
    }
}

proof fn lemma_hunks_len(
    hs: Seq<HunkView>,
    syntax: Seq<Seq<Seq<ColoredView>>>,
    intraline: bool,
    tab: nat,
    n: int,
)
    ensures
        hunks_rows(hs, syntax, intraline, tab, n).len() == hunk_at(hs, n),
    decreases n,
{
    if n > 0 {
        lemma_hunks_len(hs, syntax, intraline, tab, n - 1);
    }
}

/// The header of a file names its old path and its new one; where a side has
/// none, because the file is new or deleted, it names the other there.
pub proof fn law_headers_name_both_sides(f: FileView)
    ensures
        ({
            let t = span_text(header_row(f).spans);
            let has_old = f.old_path.len() > 0 && f.old_path != "/dev/null"@;
            let has_new = f.new_path.len() > 0 && f.new_path != "/dev/null"@;
            &&& header_row(f).kind == RowKind::File
            &&& has_old && has_new ==> t == "diff --git a/"@ + f.old_path + " b/"@ + f.new_path
            &&& !has_old && has_new ==> t == "diff --git a/"@ + f.new_path + " b/"@ + f.new_path
            &&& has_old && !has_new ==> t == "diff --git a/"@ + f.old_path + " b/"@ + f.old_path
        }),
{
    let shown = display_path(f);
    let t = "diff --git a/"@ + side_path(f.old_path, shown) + " b/"@ + side_path(f.new_path, shown);
    assert(plain_span(t).drop_last() =~= seq![]);
    assert(span_text(plain_span(t).drop_last()) =~= seq![]);
    assert(span_text(plain_span(t)) =~= t);
}

} // verus!
