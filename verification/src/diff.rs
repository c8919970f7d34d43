//! Unified git diff parser: splits a diff into per-file sections, hunks and
//! typed lines, and computes word-level changes within a line.

use vstd::prelude::*;
use vstd::slice::slice_subrange;

#[allow(unused_imports)]
use crate::diff_laws::law_sections_are_parts;
use crate::outside::{diff_words, Change, ChangeTag};
#[allow(unused_imports)]
use crate::outside::{change_views, new_words, old_words, word_changes};
use crate::text::{
    begins, chars_of, find, is_text, lines_of, next_at, parse_number, raw_lines_of, same, space,
    split_whitespace, string_of, strip, trimmed,
};
#[allow(unused_imports)]
use crate::text::{
    after_prefix, find_from, is_space, lines, next, number, raw_lines, starts, strings, texts, trim,
    words,
};

verus! {

/// What a diff line does to the file.
#[derive(Debug, Clone, Copy, PartialEq, Eq, Structural)]
pub enum LineKind {
    Context,
    Add,
    Remove,
}

/// A segment of a line, tagged as changed when intra-line diffing found it
/// altered relative to its counterpart.
#[derive(Debug, Clone)]
pub struct Segment {
    pub text: String,
    pub changed: bool,
}

/// One line of a hunk.
#[derive(Debug, Clone)]
pub struct DiffLine {
    pub kind: LineKind,
    pub content: String,
    /// Line number in the old file (for Context/Remove).
    pub old_no: Option<usize>,
    /// Line number in the new file (for Context/Add).
    pub new_no: Option<usize>,
    /// Word-level segments; empty means "render `content` unstyled".
    pub segments: Vec<Segment>,
}

/// One hunk: its `@@` line and the lines below it.
#[derive(Debug, Clone)]
pub struct Hunk {
    pub header: String,
    pub lines: Vec<DiffLine>,
}

/// The diff of one file.
#[derive(Debug, Clone)]
pub struct FileDiff {
    pub old_path: String,
    pub new_path: String,
    pub hunks: Vec<Hunk>,
    pub is_binary: bool,
    /// Extra header notes (new file, deleted, rename, mode change).
    pub notes: Vec<String>,
}

/// The content of a [`Segment`]: its text and whether it changed.
pub type SegmentView = (Seq<char>, bool);

/// The content of a [`DiffLine`].
pub struct LineView {
    pub kind: LineKind,
    pub content: Seq<char>,
    pub old_no: Option<nat>,
    pub new_no: Option<nat>,
    pub segments: Seq<SegmentView>,
}

/// The content of a [`Hunk`].
pub struct HunkView {
    pub header: Seq<char>,
    pub lines: Seq<LineView>,
}

/// The content of a [`FileDiff`].
pub struct FileView {
    pub old_path: Seq<char>,
    pub new_path: Seq<char>,
    pub hunks: Seq<HunkView>,
    pub is_binary: bool,
    pub notes: Seq<Seq<char>>,
}

/// The content of a list of segments.
pub open spec fn segment_views(s: Seq<Segment>) -> Seq<SegmentView> {
    s.map_values(|x: Segment| (x.text@, x.changed))
}

/// A line number without its machine type.
pub open spec fn line_no(n: Option<usize>) -> Option<nat> {
    match n {
        Some(v) => Some(v as nat),
        None => None,
    }
}

impl View for DiffLine {
    type V = LineView;

    open spec fn view(&self) -> LineView {
        LineView {
            kind: self.kind,
            content: self.content@,
            old_no: line_no(self.old_no),
            new_no: line_no(self.new_no),
            segments: segment_views(self.segments@),
        }
    }
}

/// The content of a list of lines.
pub open spec fn line_views(s: Seq<DiffLine>) -> Seq<LineView> {
    s.map_values(|x: DiffLine| x@)
}

impl View for Hunk {
    type V = HunkView;

    open spec fn view(&self) -> HunkView {
        HunkView { header: self.header@, lines: line_views(self.lines@) }
    }
}

/// The content of a list of hunks.
pub open spec fn hunk_views(s: Seq<Hunk>) -> Seq<HunkView> {
    s.map_values(|x: Hunk| x@)
}

impl View for FileDiff {
    type V = FileView;

    open spec fn view(&self) -> FileView {
        FileView {
            old_path: self.old_path@,
            new_path: self.new_path@,
            hunks: hunk_views(self.hunks@),
            is_binary: self.is_binary,
            notes: strings(self.notes@),
        }
    }
}

/// The content of a list of files.
pub open spec fn file_views(s: Seq<FileDiff>) -> Seq<FileView> {
    s.map_values(|x: FileDiff| x@)
}

/// Whether a line opens the section of a file.
pub open spec fn opens_file(l: Seq<char>) -> bool {
    starts(l, "diff --git"@)
}

/// Whether a line opens a hunk.
pub open spec fn opens_hunk(l: Seq<char>) -> bool {
    starts(l, "@@"@)
}

/// The index of the first line at or after `i` that opens a file, or the
/// number of lines.
pub open spec fn next_file(ls: Seq<Seq<char>>, i: int) -> int
    decreases ls.len() - i,
{
    if 0 <= i < ls.len() && !opens_file(ls[i]) {
        next_file(ls, i + 1)
    } else {
        i
    }
}

/// The sections of the files among the lines from `i` on, each from its
/// `diff --git` line up to the next one.
pub open spec fn blocks_from(ls: Seq<Seq<char>>, i: int) -> Seq<Seq<Seq<char>>>
    decreases ls.len() - i,
{
    let a = next_file(ls, i);
    let e = next_file(ls, a + 1);
    if 0 <= i <= a < ls.len() && a < e <= ls.len() {
        seq![ls.subrange(a, e)] + blocks_from(ls, e)
    } else {
        seq![]
    }
}

/// The sections of a whole diff. Lines before the first section are in none.
pub open spec fn blocks(ls: Seq<Seq<char>>) -> Seq<Seq<Seq<char>>> {
    blocks_from(ls, 0)
}

/// The text of a list of texts, one behind the other.
pub open spec fn concat(ts: Seq<Seq<char>>) -> Seq<char>
    decreases ts.len(),
{
    if ts.len() == 0 {
        seq![]
    } else {
        concat(ts.drop_last()) + ts.last()
    }
}

/// The sections of a diff, each as the part of the text that it is.
pub open spec fn sections_of(input: Seq<char>) -> Seq<Seq<char>> {
    blocks(raw_lines(input)).map_values(|b: Seq<Seq<char>>| concat(b))
}

/// Where the first section of a diff starts, or its end where there is none.
pub open spec fn first_file_at(input: Seq<char>) -> int {
    let ls = raw_lines(input);
    concat(ls.take(next_file(ls, 0))).len() as int
}

/// Where the section `k` of a diff starts; the last one ends where one more
/// would start.
pub open spec fn section_at(input: Seq<char>, k: int) -> int {
    first_file_at(input) + concat(sections_of(input).take(k)).len()
}

pub proof fn lemma_next_file(ls: Seq<Seq<char>>, i: int)
    requires
        0 <= i <= ls.len(),
    ensures
        i <= next_file(ls, i) <= ls.len(),
        next_file(ls, i) < ls.len() ==> opens_file(ls[next_file(ls, i)]),
        forall|k: int| i <= k < next_file(ls, i) ==> !opens_file(#[trigger] ls[k]),
    decreases ls.len() - i,
{
    if i < ls.len() && !opens_file(ls[i]) {
        lemma_next_file(ls, i + 1);
    }
}

/// The index of the first line at or after `i` that opens a file.
fn find_file(ls: &[Vec<char>], i: usize) -> (r: usize)
    requires
        i <= ls.len(),
    ensures
        r == next_file(texts(ls@), i as int),
        i <= r <= ls.len(),
{
    let mut k: usize = i;
    while k < ls.len() && !begins(&ls[k], "diff --git")
        invariant
            i <= k <= ls.len(),
            next_file(texts(ls@), i as int) == next_file(texts(ls@), k as int),
        decreases ls.len() - k,
    {
        k += 1;
    }
    k
}

/// Joins lines as they stand.
fn join_lines(ls: &[Vec<char>]) -> (r: String)
    ensures
        r@ == concat(texts(ls@)),
{
    let mut out = String::new();
    let mut i: usize = 0;
    assert(texts(ls@).take(0) =~= seq![]);
    while i < ls.len()
        invariant
            i <= ls.len(),
            out@ == concat(texts(ls@).take(i as int)),
        decreases ls.len() - i,
    {
        let line = string_of(&ls[i]);
        out.append(&line);
        i += 1;
        let ghost t = texts(ls@).take(i as int);
        assert(t.drop_last() =~= texts(ls@).take(i - 1));
        assert(out@ =~= concat(t));
    }
    assert(texts(ls@).take(ls@.len() as int) =~= texts(ls@));
    out
}

/// Split a raw unified diff into per-file sections, one string per `diff --git`
/// block, in the same order (and count) as [`parse`]. Any preamble before the
/// first block (e.g. `git show` commit headers) is dropped. Used to copy an
/// exact per-file patch without reconstructing it.
pub fn split_files(input: &str) -> (r: Vec<String>)
    ensures
        strings(r@) == sections_of(input@),
        forall|k: int|
            0 <= k < r@.len() ==> (#[trigger] r@[k])@ == input@.subrange(
                section_at(input@, k),
                section_at(input@, k + 1),
            ),
{
    let ls = raw_lines_of(&chars_of(input));
    let ghost all = texts(ls@);
    let ghost join = |b: Seq<Seq<char>>| concat(b);
    let mut sections: Vec<String> = Vec::new();
    let mut a = find_file(&ls, 0);
    proof {
        lemma_next_file(all, 0);
    }
    assert(blocks_from(all, 0) == blocks_from(all, a as int)) by {
        lemma_blocks_start(all, 0);
    }
    assert(strings(sections@) + blocks_from(all, a as int).map_values(join) =~= blocks(
        all,
    ).map_values(join));
    while a < ls.len()
        invariant
            a <= ls.len(),
            all == texts(ls@),
            a == next_file(all, a as int),
            join == (|b: Seq<Seq<char>>| concat(b)),
            strings(sections@) + blocks_from(all, a as int).map_values(join) == blocks(
                all,
            ).map_values(join),
        decreases ls.len() - a,
    {
        let e = find_file(&ls, a + 1);
        proof {
            lemma_next_file(all, a + 1);
            lemma_next_file(all, e as int);
        }
        let part = slice_subrange(ls.as_slice(), a, e);
        assert(texts(part@) =~= all.subrange(a as int, e as int));
        let ghost before = strings(sections@);
        sections.push(join_lines(part));
        assert(strings(sections@) =~= before.push(concat(all.subrange(a as int, e as int))));
        assert(strings(sections@) + blocks_from(all, e as int).map_values(join) =~= before
            + blocks_from(all, a as int).map_values(join));
        a = e;
    }
    assert(strings(sections@) =~= blocks(all).map_values(join));
    assert forall|k: int| 0 <= k < sections@.len() implies (#[trigger] sections@[k])@
        == input@.subrange(section_at(input@, k), section_at(input@, k + 1)) by {
        law_sections_are_parts(input@, k);
        assert(strings(sections@)[k] == sections@[k]@);
    }
    sections
}

/// Sections found from `i` on are those found from the first of them on.
pub proof fn lemma_blocks_start(ls: Seq<Seq<char>>, i: int)
    requires
        0 <= i <= ls.len(),
    ensures
        blocks_from(ls, i) == blocks_from(ls, next_file(ls, i)),
    decreases ls.len() - i,
{
    lemma_next_file(ls, i);
    lemma_next_file(ls, next_file(ls, i));
}

/// The first index at or after `j` where white space starts or stops.
pub open spec fn run_end(s: Seq<char>, ws: bool, j: int) -> int
    decreases s.len() - j,
{
    if 0 <= j < s.len() && is_space(s[j]) == ws {
        run_end(s, ws, j + 1)
    } else {
        j
    }
}

/// The runs of white space and of anything else of `s` from index `i` on.
pub open spec fn tokens_from(s: Seq<char>, i: int) -> Seq<Seq<char>>
    decreases s.len() - i,
{
    let e = run_end(s, is_space(s[i]), i + 1);
    if 0 <= i < s.len() && i < e <= s.len() {
        seq![s.subrange(i, e)] + tokens_from(s, e)
    } else {
        seq![]
    }
}

/// The words of `s`, with the white space between them as words of its own.
pub open spec fn tokens(s: Seq<char>) -> Seq<Seq<char>> {
    tokens_from(s, 0)
}

/// Split into words while keeping white space as its own tokens, so alignment
/// stays natural and spacing is preserved on reassembly.
pub fn split_words(s: &str) -> (r: Vec<String>)
    ensures
        strings(r@) == tokens(s@),
{
    let cs = chars_of(s);
    let mut out: Vec<String> = Vec::new();
    let mut start: usize = 0;
    assert(strings(out@) + tokens_from(s@, 0) =~= tokens(s@));
    while start < cs.len()
        invariant
            start <= cs.len(),
            cs@ == s@,
            strings(out@) + tokens_from(s@, start as int) == tokens(s@),
        decreases cs.len() - start,
    {
        let ws = space(cs[start]);
        let mut i: usize = start + 1;
        while i < cs.len() && space(cs[i]) == ws
            invariant
                start < i <= cs.len(),
                cs@ == s@,
                run_end(s@, ws, start + 1) == run_end(s@, ws, i as int),
            decreases cs.len() - i,
        {
            i += 1;
        }
        let ghost before = strings(out@);
        out.push(string_of(slice_subrange(cs.as_slice(), start, i)));
        assert(strings(out@) =~= before.push(s@.subrange(start as int, i as int)));
        assert(strings(out@) + tokens_from(s@, i as int) =~= before + tokens_from(
            s@,
            start as int,
        ));
        start = i;
    }
    assert(strings(out@) =~= tokens(s@));
    out
}

/// `v` with a piece of text behind it, joined to the last segment where both
/// are changed or both are not.
pub open spec fn with_segment(v: Seq<SegmentView>, text: Seq<char>, changed: bool) -> Seq<
    SegmentView,
> {
    if v.len() > 0 && v.last().1 == changed {
        v.drop_last().push((v.last().0 + text, changed))
    } else {
        v.push((text, changed))
    }
}

/// Appends a piece of text to a list of segments.
pub fn push_seg(v: &mut Vec<Segment>, text: &str, changed: bool)
    ensures
        segment_views(final(v)@) == with_segment(segment_views(old(v)@), text@, changed),
{
    let ghost before = segment_views(v@);
    let n = v.len();
    if n > 0 && v[n - 1].changed == changed {
        let mut last = v.pop().unwrap();
        last.text.append(text);
        v.push(last);
        assert(segment_views(v@) =~= with_segment(before, text@, changed));
        return;
    }
    v.push(Segment { text: text.to_string(), changed });
    assert(segment_views(v@) =~= with_segment(before, text@, changed));
}

/// The segments of the old side of a word diff: deleted words are changed.
pub open spec fn old_segments(c: Seq<(ChangeTag, Seq<char>)>) -> Seq<SegmentView>
    decreases c.len(),
{
    if c.len() == 0 {
        seq![]
    } else {
        let v = old_segments(c.drop_last());
        match c.last().0 {
            ChangeTag::Equal => with_segment(v, c.last().1, false),
            ChangeTag::Delete => with_segment(v, c.last().1, true),
            ChangeTag::Insert => v,
        }
    }
}

/// The segments of the new side of a word diff: inserted words are changed.
pub open spec fn new_segments(c: Seq<(ChangeTag, Seq<char>)>) -> Seq<SegmentView>
    decreases c.len(),
{
    if c.len() == 0 {
        seq![]
    } else {
        let v = new_segments(c.drop_last());
        match c.last().0 {
            ChangeTag::Equal => with_segment(v, c.last().1, false),
            ChangeTag::Delete => v,
            ChangeTag::Insert => with_segment(v, c.last().1, true),
        }
    }
}

/// The segments of both sides of a word diff.
pub fn change_segments(changes: &[Change]) -> (r: (Vec<Segment>, Vec<Segment>))
    ensures
        segment_views(r.0@) == old_segments(change_views(changes@)),
        segment_views(r.1@) == new_segments(change_views(changes@)),
{
    let mut oseg: Vec<Segment> = Vec::new();
    let mut nseg: Vec<Segment> = Vec::new();
    let mut i: usize = 0;
    let ghost all = change_views(changes@);
    assert(segment_views(oseg@) =~= seq![]);
    assert(segment_views(nseg@) =~= seq![]);
    while i < changes.len()
        invariant
            i <= changes.len(),
            all == change_views(changes@),
            segment_views(oseg@) == old_segments(all.take(i as int)),
            segment_views(nseg@) == new_segments(all.take(i as int)),
        decreases changes.len() - i,
    {
        let text = changes[i].value.as_str();
        proof {
            assert(all.take(i + 1).drop_last() =~= all.take(i as int));
        }
        match changes[i].tag {
            ChangeTag::Equal => {
                push_seg(&mut oseg, text, false);
                push_seg(&mut nseg, text, false);
            },
            ChangeTag::Delete => push_seg(&mut oseg, text, true),
            ChangeTag::Insert => push_seg(&mut nseg, text, true),
        }
        i += 1;
    }
    assert(all.take(all.len() as int) =~= all);
    (oseg, nseg)
}

/// The text of a list of segments.
pub open spec fn joined(v: Seq<SegmentView>) -> Seq<char>
    decreases v.len(),
{
    if v.len() == 0 {
        seq![]
    } else {
        joined(v.drop_last()) + v.last().0
    }
}

/// Whether segments reassemble to a text: together they are that text, none is
/// empty, and no two neighbours could be one.
pub open spec fn covers(v: Seq<SegmentView>, text: Seq<char>) -> bool {
    &&& joined(v) == text
    &&& forall|k: int| 0 <= k < v.len() ==> (#[trigger] v[k]).0.len() > 0
    &&& forall|j: int, k: int|
        0 <= j < v.len() && k == j + 1 && k < v.len() ==> (#[trigger] v[j]).1 != (
        #[trigger] v[k]).1
}

proof fn lemma_with_segment(v: Seq<SegmentView>, text: Seq<char>, changed: bool, all: Seq<char>)
    requires
        covers(v, all),
        text.len() > 0,
    ensures
        covers(with_segment(v, text, changed), all + text),
{
    let w = with_segment(v, text, changed);
    if v.len() > 0 && v.last().1 == changed {
        assert(w.drop_last() =~= v.drop_last());
        assert(joined(w) =~= all + text);
    } else {
        assert(w.drop_last() =~= v);
        assert(joined(w) =~= all + text);
    }
}

proof fn lemma_old_segments(c: Seq<(ChangeTag, Seq<char>)>)
    requires
        forall|k: int| 0 <= k < old_words(c).len() ==> (#[trigger] old_words(c)[k]).len() > 0,
    ensures
        covers(old_segments(c), concat(old_words(c))),
    decreases c.len(),
{
    if c.len() > 0 {
        let d = c.drop_last();
        if c.last().0 != ChangeTag::Insert {
            let w = old_words(c);
            assert(w.drop_last() =~= old_words(d));
            assert(w.last().len() > 0);
            assert forall|k: int| 0 <= k < old_words(d).len() implies (
            #[trigger] old_words(d)[k]).len() > 0 by {
                assert(old_words(d)[k] == w[k]);
            }
            lemma_old_segments(d);
            lemma_with_segment(
                old_segments(d),
                c.last().1,
                c.last().0 == ChangeTag::Delete,
                concat(old_words(d)),
            );
        } else {
            lemma_old_segments(d);
        }
    }
}

proof fn lemma_new_segments(c: Seq<(ChangeTag, Seq<char>)>)
    requires
        forall|k: int| 0 <= k < new_words(c).len() ==> (#[trigger] new_words(c)[k]).len() > 0,
    ensures
        covers(new_segments(c), concat(new_words(c))),
    decreases c.len(),
{
    if c.len() > 0 {
        let d = c.drop_last();
        if c.last().0 != ChangeTag::Delete {
            let w = new_words(c);
            assert(w.drop_last() =~= new_words(d));
            assert(w.last().len() > 0);
            assert forall|k: int| 0 <= k < new_words(d).len() implies (
            #[trigger] new_words(d)[k]).len() > 0 by {
                assert(new_words(d)[k] == w[k]);
            }
            lemma_new_segments(d);
            lemma_with_segment(
                new_segments(d),
                c.last().1,
                c.last().0 == ChangeTag::Insert,
                concat(new_words(d)),
            );
        } else {
            lemma_new_segments(d);
        }
    }
}

/// Texts put together in two steps.
pub proof fn lemma_concat(a: Seq<Seq<char>>, b: Seq<Seq<char>>)
    ensures
        concat(a + b) == concat(a) + concat(b),
    decreases b.len(),
{
    if b.len() == 0 {
        assert(a + b =~= a);
        assert(concat(a) + concat(b) =~= concat(a));
    } else {
        assert((a + b).drop_last() =~= a + b.drop_last());
        lemma_concat(a, b.drop_last());
        assert(concat(a + b) =~= concat(a) + concat(b));
    }
}

/// The words of a text, white space included, are the text, and none of them
/// is empty.
pub proof fn lemma_tokens(s: Seq<char>, i: int)
    requires
        0 <= i <= s.len(),
    ensures
        concat(tokens_from(s, i)) == s.skip(i),
        forall|k: int|
            0 <= k < tokens_from(s, i).len() ==> (#[trigger] tokens_from(s, i)[k]).len() > 0,
    decreases s.len() - i,
{
    if i < s.len() {
        let ws = is_space(s[i]);
        lemma_run_bounds(s, ws, i + 1);
        let e = run_end(s, ws, i + 1);
        lemma_tokens(s, e);
        let one = seq![s.subrange(i, e)];
        lemma_concat(one, tokens_from(s, e));
        assert(concat(one.drop_last()) =~= seq![]);
        assert(concat(one) =~= s.subrange(i, e));
        assert(s.subrange(i, e) + s.skip(e) =~= s.skip(i));
        let t = tokens_from(s, i);
        assert forall|k: int| 0 <= k < t.len() implies (#[trigger] t[k]).len() > 0 by {
            if k > 0 {
                assert(t[k] == tokens_from(s, e)[k - 1]);
            }
        }
    } else {
        assert(s.skip(i) =~= seq![]);
    }
}

proof fn lemma_run_bounds(s: Seq<char>, ws: bool, j: int)
    requires
        0 <= j <= s.len(),
    ensures
        j <= run_end(s, ws, j) <= s.len(),
    decreases s.len() - j,
{
    if j < s.len() && is_space(s[j]) == ws {
        lemma_run_bounds(s, ws, j + 1);
    }
}

/// Whether the segments of a line, where it has any, reassemble to its
/// content.
pub open spec fn well_segmented(l: LineView) -> bool {
    l.segments.len() == 0 || covers(l.segments, l.content)
}

/// Whether the segments of every line of a file reassemble.
pub open spec fn file_segmented(f: FileView) -> bool {
    forall|h: int, k: int|
        0 <= h < f.hunks.len() && 0 <= k < f.hunks[h].lines.len() ==> well_segmented(
            #[trigger] f.hunks[h].lines[k],
        )
}

/// What a word diff of two lines finds.
pub open spec fn line_changes(old: Seq<char>, new: Seq<char>) -> Seq<(ChangeTag, Seq<char>)> {
    word_changes(tokens(old), tokens(new))
}

/// Intra-line diff: shared words stay in the base color, inserted and deleted
/// words are highlighted. Handles reordering and scattered edits better than a
/// plain prefix/suffix match.
pub fn word_diff(old: &str, new: &str) -> (r: (Vec<Segment>, Vec<Segment>))
    ensures
        segment_views(r.0@) == old_segments(line_changes(old@, new@)),
        segment_views(r.1@) == new_segments(line_changes(old@, new@)),
        covers(segment_views(r.0@), old@),
        covers(segment_views(r.1@), new@),
{
    let o = split_words(old);
    let n = split_words(new);
    let changes = diff_words(&o, &n);
    proof {
        let c = line_changes(old@, new@);
        lemma_tokens(old@, 0);
        lemma_tokens(new@, 0);
        assert(old@.skip(0) =~= old@);
        assert(new@.skip(0) =~= new@);
        lemma_old_segments(c);
        lemma_new_segments(c);
    }
    change_segments(&changes)
}

/// The first index at or after `i` whose line is not of kind `kind`.
pub open spec fn kind_end(v: Seq<LineView>, kind: LineKind, i: int) -> int
    decreases v.len() - i,
{
    if 0 <= i < v.len() && v[i].kind == kind {
        kind_end(v, kind, i + 1)
    } else {
        i
    }
}

/// The start of the run of lines of kind `kind` that ends before `i`.
pub open spec fn kind_start(v: Seq<LineView>, kind: LineKind, i: int) -> int
    decreases i,
{
    if 0 < i <= v.len() && v[i - 1].kind == kind {
        kind_start(v, kind, i - 1)
    } else {
        i
    }
}

/// The line that a removed or an added line is compared with: where a run of
/// removed lines is followed by as many added ones, the line at the same place
/// of the other run.
pub open spec fn partner(v: Seq<LineView>, i: int) -> Option<int> {
    match v[i].kind {
        LineKind::Remove => {
            let r = kind_start(v, LineKind::Remove, i);
            let a = kind_end(v, LineKind::Remove, i);
            let k = kind_end(v, LineKind::Add, a);
            if a - r == k - a {
                Some(a + (i - r))
            } else {
                None
            }
        },
        LineKind::Add => {
            let a = kind_start(v, LineKind::Add, i);
            let r = kind_start(v, LineKind::Remove, a);
            let k = kind_end(v, LineKind::Add, i);
            if a - r == k - a {
                Some(r + (i - a))
            } else {
                None
            }
        },
        LineKind::Context => None,
    }
}

/// The segments that a line gets: those of the word diff with its partner, or
/// the ones it has.
pub open spec fn segments_at(v: Seq<LineView>, i: int) -> Seq<SegmentView> {
    match partner(v, i) {
        Some(p) => if v[i].kind == LineKind::Remove {
            old_segments(line_changes(v[i].content, v[p].content))
        } else {
            new_segments(line_changes(v[p].content, v[i].content))
        },
        None => v[i].segments,
    }
}

/// `v` with word-level segments on its paired lines.
pub open spec fn segmented(v: Seq<LineView>) -> Seq<LineView> {
    Seq::new(v.len(), |i: int| LineView { segments: segments_at(v, i), ..v[i] })
}

proof fn lemma_kind_end(v: Seq<LineView>, kind: LineKind, i: int)
    requires
        0 <= i <= v.len(),
    ensures
        i <= kind_end(v, kind, i) <= v.len(),
        kind_end(v, kind, i) < v.len() ==> v[kind_end(v, kind, i)].kind != kind,
        forall|p: int| i <= p < kind_end(v, kind, i) ==> (#[trigger] v[p]).kind == kind,
    decreases v.len() - i,
{
    if i < v.len() && v[i].kind == kind {
        lemma_kind_end(v, kind, i + 1);
    }
}

/// A run of lines of one kind is the same seen from any place in it.
proof fn lemma_run(v: Seq<LineView>, kind: LineKind, lo: int, hi: int, i: int)
    requires
        0 <= lo <= i <= hi <= v.len(),
        forall|p: int| lo <= p < hi ==> (#[trigger] v[p]).kind == kind,
        lo == 0 || v[lo - 1].kind != kind,
        hi == v.len() || v[hi].kind != kind,
    ensures
        kind_start(v, kind, i) == lo,
        kind_end(v, kind, i) == hi,
    decreases (i - lo) + (hi - i),
{
    lemma_run_start(v, kind, lo, i);
    lemma_run_end(v, kind, hi, i);
}

proof fn lemma_run_start(v: Seq<LineView>, kind: LineKind, lo: int, i: int)
    requires
        0 <= lo <= i <= v.len(),
        forall|p: int| lo <= p < i ==> (#[trigger] v[p]).kind == kind,
        lo == 0 || v[lo - 1].kind != kind,
    ensures
        kind_start(v, kind, i) == lo,
    decreases i - lo,
{
    if lo < i {
        assert(v[i - 1].kind == kind);
        lemma_run_start(v, kind, lo, i - 1);
    }
}

proof fn lemma_run_end(v: Seq<LineView>, kind: LineKind, hi: int, i: int)
    requires
        0 <= i <= hi <= v.len(),
        forall|p: int| i <= p < hi ==> (#[trigger] v[p]).kind == kind,
        hi == v.len() || v[hi].kind != kind,
    ensures
        kind_end(v, kind, i) == hi,
    decreases hi - i,
{
    if i < hi {
        assert(v[i].kind == kind);
        lemma_run_end(v, kind, hi, i + 1);
    }
}

/// The index of the first line at or after `i` that is not of kind `kind`.
fn find_kind_end(lines: &[DiffLine], kind: LineKind, i: usize) -> (r: usize)
    requires
        i <= lines.len(),
    ensures
        r == kind_end(line_views(lines@), kind, i as int),
        i <= r <= lines.len(),
{
    let mut k: usize = i;
    while k < lines.len() && lines[k].kind == kind
        invariant
            i <= k <= lines.len(),
            kind_end(line_views(lines@), kind, i as int) == kind_end(
                line_views(lines@),
                kind,
                k as int,
            ),
        decreases lines.len() - k,
    {
        assert(line_views(lines@)[k as int].kind == kind);
        k += 1;
    }
    assert(k < lines.len() ==> line_views(lines@)[k as int].kind != kind);
    k
}

/// Where equal runs of removed and added lines meet, each line of them has the
/// line at the same place of the other run as its partner; where the runs are
/// unequal, no line of them has one.
proof fn lemma_partners(v: Seq<LineView>, r: int, a: int, k: int)
    requires
        0 <= r < a <= k <= v.len(),
        r == 0 || v[r - 1].kind != LineKind::Remove,
        a == kind_end(v, LineKind::Remove, r),
        k == kind_end(v, LineKind::Add, a),
    ensures
        forall|p: int|
            r <= p < a ==> #[trigger] partner(v, p) == if a - r == k - a {
                Some(a + (p - r))
            } else {
                None
            },
        forall|p: int|
            a <= p < k ==> #[trigger] partner(v, p) == if a - r == k - a {
                Some(r + (p - a))
            } else {
                None
            },
        forall|p: int| r <= p < a ==> (#[trigger] v[p]).kind == LineKind::Remove,
        forall|p: int| a <= p < k ==> (#[trigger] v[p]).kind == LineKind::Add,
{
    lemma_kind_end(v, LineKind::Remove, r);
    lemma_kind_end(v, LineKind::Add, a);
    assert(v[a - 1].kind == LineKind::Remove);
    assert forall|p: int| r <= p < a implies #[trigger] partner(v, p) == if a - r == k - a {
        Some(a + (p - r))
    } else {
        None
    } by {
        lemma_run(v, LineKind::Remove, r, a, p);
        assert(v[p].kind == LineKind::Remove);
    }
    assert forall|p: int| a <= p < k implies #[trigger] partner(v, p) == if a - r == k - a {
        Some(r + (p - a))
    } else {
        None
    } by {
        lemma_run(v, LineKind::Add, a, k, p);
        lemma_run_start(v, LineKind::Remove, r, a);
        assert(v[p].kind == LineKind::Add);
    }
}

/// Compute word-level segments for balanced remove/add runs within a hunk.
/// Only paired lines (one removed matched to one added) get segments.
pub fn intraline(lines: &mut Vec<DiffLine>)
    ensures
        line_views(final(lines)@) == segmented(line_views(old(lines)@)),
        (forall|p: int| 0 <= p < old(lines).len() ==> well_segmented(#[trigger] old(lines)@[p]@))
            ==> (forall|p: int|
            0 <= p < final(lines).len() ==> well_segmented(#[trigger] final(lines)@[p]@)),
{
    let ghost v = line_views(lines@);
    let ghost sound = forall|p: int| 0 <= p < lines.len() ==> well_segmented(#[trigger] lines@[p]@);
    let n = lines.len();
    let mut i: usize = 0;
    while i < n
        invariant
            n == lines.len(),
            sound ==> (forall|p: int| 0 <= p < n ==> well_segmented(#[trigger] lines@[p]@)),
            n == v.len(),
            i <= n,
            forall|p: int| 0 <= p < i ==> (#[trigger] lines@[p])@ == segmented(v)[p],
            forall|p: int| i <= p < n ==> (#[trigger] lines@[p])@ == v[p],
            i < n && v[i as int].kind == LineKind::Remove ==> i == 0 || v[i - 1].kind
                != LineKind::Remove,
            i < n && v[i as int].kind == LineKind::Add ==> {
                let s = kind_start(v, LineKind::Add, i as int);
                s == 0 || v[s - 1].kind != LineKind::Remove
            },
        decreases n - i,
    {
        let kind = lines[i].kind;
        assert(kind == v[i as int].kind);
        if kind == LineKind::Remove {
            let ghost now = line_views(lines@);
            let j = find_kind_end(lines, LineKind::Remove, i);
            let k = find_kind_end(lines, LineKind::Add, j);
            proof {
                lemma_kind_end(now, LineKind::Remove, i as int);
                lemma_kind_end(now, LineKind::Add, j as int);
                assert(forall|p: int| i <= p < n ==> now[p] == v[p]);
                lemma_run_end(v, LineKind::Remove, j as int, i as int);
                assert(j > i) by {
                    assert(now[i as int].kind == LineKind::Remove);
                }
                assert forall|p: int| j <= p < k implies (#[trigger] v[p]).kind
                    == LineKind::Add by {
                    assert(now[p] == v[p]);
                }
                lemma_run_end(v, LineKind::Add, k as int, j as int);
                lemma_partners(v, i as int, j as int, k as int);
            }
            if j - i == k - j {
                let m = j - i;
                let mut p: usize = 0;
                while p < m
                    invariant
                        p <= m,
                        m == j - i,
                        m == k - j,
                        k <= n,
                        n == lines.len(),
                        n == v.len(),
                        sound ==> (forall|q: int|
                            0 <= q < n ==> well_segmented(#[trigger] lines@[q]@)),
                        forall|q: int| 0 <= q < i ==> (#[trigger] lines@[q])@ == segmented(v)[q],
                        forall|q: int| i <= q < i + p ==> (#[trigger] lines@[q])@ == segmented(v)[q],
                        forall|q: int| i + p <= q < j ==> (#[trigger] lines@[q])@ == v[q],
                        forall|q: int| j <= q < j + p ==> (#[trigger] lines@[q])@ == segmented(v)[q],
                        forall|q: int| j + p <= q < n ==> (#[trigger] lines@[q])@ == v[q],
                        forall|q: int| i <= q < j ==> #[trigger] partner(v, q) == Some(j + (q - i)),
                        forall|q: int| j <= q < k ==> #[trigger] partner(v, q) == Some(i + (q - j)),
                        forall|q: int| i <= q < j ==> (#[trigger] v[q]).kind == LineKind::Remove,
                        forall|q: int| j <= q < k ==> (#[trigger] v[q]).kind == LineKind::Add,
                    decreases m - p,
                {
                    let ghost before = lines@;
                    let (oseg, nseg) = word_diff(&lines[i + p].content, &lines[j + p].content);
                    assert(partner(v, i + p) == Some(j + p));
                    assert(partner(v, j + p) == Some(i + p));
                    assert(before[i + p]@ == v[i + p]);
                    assert(before[j + p]@ == v[j + p]);
                    lines[i + p].segments = oseg;
                    lines[j + p].segments = nseg;
                    assert(lines@[i + p]@ == segmented(v)[i + p]);
                    assert(lines@[j + p]@ == segmented(v)[j + p]);
                    p += 1;
                }
            } else {
                assert forall|q: int| i <= q < k implies (#[trigger] lines@[q])@ == segmented(
                    v,
                )[q] by {
                    assert(partner(v, q) is None);
                    assert(segmented(v)[q] == v[q]);
                }
            }
            i = k;
        } else {
            proof {
                if kind == LineKind::Add {
                    let s = kind_start(v, LineKind::Add, i as int);
                    lemma_kind_start(v, LineKind::Add, i as int);
                    lemma_kind_end(v, LineKind::Add, i + 1);
                }
                assert(partner(v, i as int) is None);
                assert(segmented(v)[i as int] == v[i as int]);
            }
            i += 1;
        }
    }
    assert(line_views(lines@) =~= segmented(v));
}

proof fn lemma_kind_start(v: Seq<LineView>, kind: LineKind, i: int)
    requires
        0 <= i <= v.len(),
    ensures
        0 <= kind_start(v, kind, i) <= i,
    decreases i,
{
    if 0 < i && v[i - 1].kind == kind {
        lemma_kind_start(v, kind, i - 1);
    }
}

/// A path without the prefix that git puts before it: `a/` and `b/` by
/// default, or `i/` (index), `w/` (worktree), `c/` (commit) and `o/` (object)
/// with `diff.mnemonicPrefix`. Other paths, `/dev/null` among them, stay.
pub open spec fn bare_path(p: Seq<char>) -> Seq<char> {
    if p.len() >= 2 && p[1] == '/' && (p[0] == 'a' || p[0] == 'b' || p[0] == 'i' || p[0] == 'w'
        || p[0] == 'c' || p[0] == 'o') {
        p.skip(2)
    } else {
        p
    }
}

/// Strips the prefix that git puts before a path.
pub fn strip_prefix(p: &[char]) -> (r: String)
    ensures
        r@ == bare_path(p@),
{
    if p.len() >= 2 && p[1] == '/' && (p[0] == 'a' || p[0] == 'b' || p[0] == 'i' || p[0] == 'w'
        || p[0] == 'c' || p[0] == 'o') {
        let rest = slice_subrange(p, 2, p.len());
        assert(rest@ =~= p@.skip(2));
        string_of(rest)
    } else {
        string_of(p)
    }
}

/// The two paths around the first separator `sep`; the separator's space is in
/// neither, the prefix behind it belongs to the second path.
pub open spec fn paths_around(rest: Seq<char>, sep: Seq<char>) -> Option<(Seq<char>, Seq<char>)> {
    match find_from(rest, sep, 0) {
        Some(i) => Some((bare_path(trim(rest.take(i))), bare_path(trim(rest.skip(i + 1))))),
        None => None,
    }
}

/// The old and the new path that a `diff --git` line names: those around the
/// prefix of the second path, else its first two words.
pub open spec fn header_paths(line: Seq<char>) -> Option<(Seq<char>, Seq<char>)> {
    match after_prefix(line, "diff --git "@) {
        None => None,
        Some(rest) => {
            if find_from(rest, " b/"@, 0) is Some {
                paths_around(rest, " b/"@)
            } else if find_from(rest, " w/"@, 0) is Some {
                paths_around(rest, " w/"@)
            } else if find_from(rest, " i/"@, 0) is Some {
                paths_around(rest, " i/"@)
            } else if find_from(rest, " c/"@, 0) is Some {
                paths_around(rest, " c/"@)
            } else if find_from(rest, " o/"@, 0) is Some {
                paths_around(rest, " o/"@)
            } else if words(rest).len() >= 2 {
                Some((bare_path(words(rest)[0]), bare_path(words(rest)[1])))
            } else {
                None
            }
        },
    }
}

/// A pair of optional texts without their machine types.
pub open spec fn text_pair(p: Option<(String, String)>) -> Option<(Seq<char>, Seq<char>)> {
    match p {
        Some((a, b)) => Some((a@, b@)),
        None => None,
    }
}

/// Splits the paths of a header at the first `sep`.
fn split_paths(rest: &[char], sep: &str) -> (r: Option<(String, String)>)
    requires
        sep@.len() > 0,
    ensures
        text_pair(r) == paths_around(rest@, sep@),
{
    match find(rest, sep) {
        Some(idx) => {
            let n = rest.len();
            let a = slice_subrange(rest, 0, idx);
            let b = slice_subrange(rest, idx + 1, n);
            assert(a@ =~= rest@.take(idx as int));
            assert(b@ =~= rest@.skip(idx + 1));
            Some((strip_prefix(trimmed(a)), strip_prefix(trimmed(b))))
        },
        None => None,
    }
}

/// The two paths of a `diff --git` line.
pub fn parse_diff_header(line: &[char]) -> (r: Option<(String, String)>)
    ensures
        text_pair(r) == header_paths(line@),
{
    proof {
        reveal_strlit(" b/");
        reveal_strlit(" w/");
        reveal_strlit(" i/");
        reveal_strlit(" c/");
        reveal_strlit(" o/");
    }
    let rest = match strip(line, "diff --git ") {
        Some(rest) => rest,
        None => {
            return None;
        },
    };
    if let Some(p) = split_paths(rest, " b/") {
        return Some(p);
    }
    if let Some(p) = split_paths(rest, " w/") {
        return Some(p);
    }
    if let Some(p) = split_paths(rest, " i/") {
        return Some(p);
    }
    if let Some(p) = split_paths(rest, " c/") {
        return Some(p);
    }
    if let Some(p) = split_paths(rest, " o/") {
        return Some(p);
    }
    let ws = split_whitespace(rest);
    if ws.len() >= 2 {
        assert(ws@[0]@ == words(rest@)[0]);
        assert(ws@[1]@ == words(rest@)[1]);
        Some((strip_prefix(&ws[0]), strip_prefix(&ws[1])))
    } else {
        None
    }
}

/// The start of a range such as `12,4`: the number before the comma, or one
/// where that is none.
pub open spec fn range_start(s: Seq<char>) -> nat {
    match number(s.take(next(s, ',', 0)), 10, usize::MAX as nat) {
        Some(v) => v,
        None => 1,
    }
}

/// The words between the marks of a hunk header: those behind a mark at its
/// start, up to the next word that starts with `@@`.
pub open spec fn between_marks(ws: Seq<Seq<char>>) -> Seq<Seq<char>> {
    let a: int = if ws.len() > 0 && opens_hunk(ws[0]) {
        1
    } else {
        0
    };
    ws.subrange(a, next_hunk(ws, a))
}

/// The old and the new start that ranges give. The last range of each side
/// counts; a side without one starts at line one.
pub open spec fn range_starts(ws: Seq<Seq<char>>) -> (nat, nat)
    decreases ws.len(),
{
    if ws.len() == 0 {
        (1, 1)
    } else {
        let (o, n) = range_starts(ws.drop_last());
        let w = ws.last();
        if w.len() > 0 && w[0] == '-' {
            (range_start(w.skip(1)), n)
        } else if w.len() > 0 && w[0] == '+' {
            (o, range_start(w.skip(1)))
        } else {
            (o, n)
        }
    }
}

/// Reads the start of a range.
fn parse_range_start(s: &[char]) -> (r: usize)
    ensures
        r == range_start(s@),
{
    let e = next_at(s, ',', 0);
    let num = slice_subrange(s, 0, e);
    assert(num@ =~= s@.take(e as int));
    match parse_number(num, 10, usize::MAX) {
        Some(v) => v,
        None => 1,
    }
}

/// The line numbers that a hunk starts at, of a header in the form
/// `@@ -old_start,old_len +new_start,new_len @@ heading`. The heading may hold
/// anything.
pub fn parse_hunk_header(line: &[char]) -> (r: (usize, usize))
    ensures
        r.0 == range_starts(between_marks(words(line@))).0,
        r.1 == range_starts(between_marks(words(line@))).1,
{
    let mut old_no: usize = 1;
    let mut new_no: usize = 1;
    let ws = split_whitespace(line);
    let a: usize = if ws.len() > 0 && begins(&ws[0], "@@") {
        1
    } else {
        0
    };
    let e = find_hunk(&ws, a);
    let ranges = slice_subrange(ws.as_slice(), a, e);
    let ghost all = between_marks(words(line@));
    assert(texts(ranges@) =~= all);
    let mut i: usize = 0;
    while i < ranges.len()
        invariant
            i <= ranges.len(),
            all == texts(ranges@),
            (old_no as nat, new_no as nat) == range_starts(all.take(i as int)),
        decreases ranges.len() - i,
    {
        let w: &[char] = &ranges[i];
        proof {
            assert(all.take(i + 1).drop_last() =~= all.take(i as int));
            assert(w@ == all[i as int]);
        }
        if w.len() > 0 && w[0] == '-' {
            let rest = slice_subrange(w, 1, w.len());
            assert(rest@ =~= w@.skip(1));
            old_no = parse_range_start(rest);
        } else if w.len() > 0 && w[0] == '+' {
            let rest = slice_subrange(w, 1, w.len());
            assert(rest@ =~= w@.skip(1));
            new_no = parse_range_start(rest);
        }
        i += 1;
    }
    assert(all.take(all.len() as int) =~= all);
    (old_no, new_no)
}

/// What a line between the `diff --git` line and the first hunk says.
pub enum HeaderLine {
    OldPath(Seq<char>),
    NewPath(Seq<char>),
    Note(Seq<char>),
    Binary,
    Other,
}

/// What a header line says.
pub open spec fn header_line(h: Seq<char>) -> HeaderLine {
    if starts(h, "--- "@) {
        HeaderLine::OldPath(bare_path(trim(h.skip("--- "@.len() as int))))
    } else if starts(h, "+++ "@) {
        HeaderLine::NewPath(bare_path(trim(h.skip("+++ "@.len() as int))))
    } else if starts(h, "new file mode"@) {
        HeaderLine::Note("new file"@)
    } else if starts(h, "deleted file mode"@) {
        HeaderLine::Note("deleted"@)
    } else if starts(h, "rename from "@) {
        HeaderLine::Note("renamed from "@ + h.skip("rename from "@.len() as int))
    } else if starts(h, "Binary files"@) || find_from(h, "GIT binary patch"@, 0) is Some {
        HeaderLine::Binary
    } else if starts(h, "old mode"@) || starts(h, "new mode"@) {
        HeaderLine::Note(trim(h))
    } else {
        HeaderLine::Other
    }
}

/// The file that the `diff --git` line `line` and the header lines `hs` below
/// it describe, without hunks. A later path replaces an earlier one.
pub open spec fn file_head(line: Seq<char>, hs: Seq<Seq<char>>) -> FileView
    decreases hs.len(),
{
    if hs.len() == 0 {
        let (a, b) = match header_paths(line) {
            Some(p) => p,
            None => (seq![], seq![]),
        };
        FileView { old_path: a, new_path: b, hunks: seq![], is_binary: false, notes: seq![] }
    } else {
        let f = file_head(line, hs.drop_last());
        match header_line(hs.last()) {
            HeaderLine::OldPath(p) => FileView { old_path: p, ..f },
            HeaderLine::NewPath(p) => FileView { new_path: p, ..f },
            HeaderLine::Note(n) => FileView { notes: f.notes.push(n), ..f },
            HeaderLine::Binary => FileView { is_binary: true, ..f },
            HeaderLine::Other => f,
        }
    }
}

/// Reads the head of a file section.
fn parse_head(line: &[char], hs: &[Vec<char>]) -> (r: FileDiff)
    ensures
        r@ == file_head(line@, texts(hs@)),
{
    let mut file = FileDiff {
        old_path: String::new(),
        new_path: String::new(),
        hunks: Vec::new(),
        is_binary: false,
        notes: Vec::new(),
    };
    if let Some((a, b)) = parse_diff_header(line) {
        file.old_path = a;
        file.new_path = b;
    }
    let ghost all = texts(hs@);
    let mut i: usize = 0;
    proof {
        assert(strings(file.notes@) =~= seq![]);
        assert(hunk_views(file.hunks@) =~= seq![]);
        assert(all.take(0) =~= seq![]);
        assert(file.old_path@ =~= file_head(line@, seq![]).old_path);
        assert(file.new_path@ =~= file_head(line@, seq![]).new_path);
    }
    while i < hs.len()
        invariant
            i <= hs.len(),
            all == texts(hs@),
            file@ == file_head(line@, all.take(i as int)),
        decreases hs.len() - i,
    {
        let h: &[char] = &hs[i];
        let ghost before = file@;
        proof {
            assert(all.take(i + 1).drop_last() =~= all.take(i as int));
            assert(h@ == all[i as int]);
        }
        if let Some(p) = strip(h, "--- ") {
            file.old_path = strip_prefix(trimmed(p));
        } else if let Some(p) = strip(h, "+++ ") {
            file.new_path = strip_prefix(trimmed(p));
        } else if begins(h, "new file mode") {
            file.notes.push("new file".to_string());
            assert(strings(file.notes@) =~= before.notes.push("new file"@));
        } else if begins(h, "deleted file mode") {
            file.notes.push("deleted".to_string());
            assert(strings(file.notes@) =~= before.notes.push("deleted"@));
        } else if let Some(rest) = strip(h, "rename from ") {
            let mut note = "renamed from ".to_string();
            note.append(&string_of(rest));
            file.notes.push(note);
            assert(strings(file.notes@) =~= before.notes.push("renamed from "@ + rest@));
        } else if begins(h, "Binary files") || find(h, "GIT binary patch").is_some() {
            file.is_binary = true;
        } else if begins(h, "old mode") || begins(h, "new mode") {
            file.notes.push(string_of(trimmed(h)));
            assert(strings(file.notes@) =~= before.notes.push(trim(h@)));
        }
        i += 1;
    }
    assert(all.take(all.len() as int) =~= all);
    file
}

/// The index of the first line at or after `i` that opens a hunk.
pub open spec fn next_hunk(ls: Seq<Seq<char>>, i: int) -> int
    decreases ls.len() - i,
{
    if 0 <= i < ls.len() && !opens_hunk(ls[i]) {
        next_hunk(ls, i + 1)
    } else {
        i
    }
}

/// How many lines of `v` stand in the old file.
pub open spec fn old_count(v: Seq<LineView>) -> nat
    decreases v.len(),
{
    if v.len() == 0 {
        0
    } else {
        old_count(v.drop_last()) + if v.last().kind == LineKind::Add {
            0nat
        } else {
            1nat
        }
    }
}

/// How many lines of `v` stand in the new file.
pub open spec fn new_count(v: Seq<LineView>) -> nat
    decreases v.len(),
{
    if v.len() == 0 {
        0
    } else {
        new_count(v.drop_last()) + if v.last().kind == LineKind::Remove {
            0nat
        } else {
            1nat
        }
    }
}

/// The kind of a line below a hunk header, by its first character.
pub open spec fn line_kind(l: Seq<char>) -> LineKind {
    if l.len() > 0 && l[0] == '+' {
        LineKind::Add
    } else if l.len() > 0 && l[0] == '-' {
        LineKind::Remove
    } else {
        LineKind::Context
    }
}

/// The content of a line below a hunk header: what follows its mark.
pub open spec fn line_content(l: Seq<char>) -> Seq<char> {
    if l.len() > 0 && (l[0] == '+' || l[0] == '-' || l[0] == ' ') {
        l.skip(1)
    } else {
        l
    }
}

/// The lines below a hunk header, without segments. Each is numbered, on the
/// sides it stands in, by the start of the hunk and the lines before it.
pub open spec fn hunk_lines(ls: Seq<Seq<char>>, old_start: nat, new_start: nat) -> Seq<LineView>
    decreases ls.len(),
{
    if ls.len() == 0 {
        seq![]
    } else {
        let v = hunk_lines(ls.drop_last(), old_start, new_start);
        let l = ls.last();
        if l == "\\ No newline at end of file"@ {
            v
        } else {
            let kind = line_kind(l);
            v.push(
                LineView {
                    kind,
                    content: line_content(l),
                    old_no: if kind == LineKind::Add {
                        None
                    } else {
                        Some(old_start + old_count(v))
                    },
                    new_no: if kind == LineKind::Remove {
                        None
                    } else {
                        Some(new_start + new_count(v))
                    },
                    segments: seq![],
                },
            )
        }
    }
}

/// The lines of the hunk whose header and lines are `h`, without segments.
pub open spec fn plain_lines(h: Seq<Seq<char>>) -> Seq<LineView> {
    let (o, n) = range_starts(between_marks(words(h[0])));
    hunk_lines(h.skip(1), o, n)
}

/// The hunk whose header and lines are `h`.
pub open spec fn hunk_of(h: Seq<Seq<char>>) -> HunkView {
    HunkView { header: h[0], lines: segmented(plain_lines(h)) }
}

/// Whether the number of the line below a hunk fits the machine, on both
/// sides.
pub open spec fn hunk_fits(h: Seq<Seq<char>>) -> bool {
    let (o, n) = range_starts(between_marks(words(h[0])));
    &&& o + old_count(plain_lines(h)) <= usize::MAX
    &&& n + new_count(plain_lines(h)) <= usize::MAX
}

/// The hunks of a file section from line `i` on, each from its header up to
/// the next one.
pub open spec fn hunks_from(b: Seq<Seq<char>>, i: int) -> Seq<Seq<Seq<char>>>
    decreases b.len() - i,
{
    let a = next_hunk(b, i);
    let e = next_hunk(b, a + 1);
    if 0 <= i <= a < b.len() && a < e <= b.len() {
        seq![b.subrange(a, e)] + hunks_from(b, e)
    } else {
        seq![]
    }
}

/// The file that a section describes.
pub open spec fn file_of(b: Seq<Seq<char>>) -> FileView {
    FileView {
        hunks: hunks_from(b, 1).map_values(|h: Seq<Seq<char>>| hunk_of(h)),
        ..file_head(b[0], b.subrange(1, next_hunk(b, 1)))
    }
}

/// Whether all line numbers of a file section fit the machine.
pub open spec fn file_fits(b: Seq<Seq<char>>) -> bool {
    forall|k: int| 0 <= k < hunks_from(b, 1).len() ==> hunk_fits(#[trigger] hunks_from(b, 1)[k])
}

/// Whether all line numbers of a diff fit the machine.
pub open spec fn numbers_fit(input: Seq<char>) -> bool {
    let bs = blocks(lines(input));
    forall|k: int| 0 <= k < bs.len() ==> file_fits(#[trigger] bs[k])
}

/// The files of a diff.
pub open spec fn files_of(input: Seq<char>) -> Seq<FileView> {
    blocks(lines(input)).map_values(|b: Seq<Seq<char>>| file_of(b))
}

proof fn lemma_next_hunk(ls: Seq<Seq<char>>, i: int)
    requires
        0 <= i <= ls.len(),
    ensures
        i <= next_hunk(ls, i) <= ls.len(),
        next_hunk(ls, i) < ls.len() ==> opens_hunk(ls[next_hunk(ls, i)]),
    decreases ls.len() - i,
{
    if i < ls.len() && !opens_hunk(ls[i]) {
        lemma_next_hunk(ls, i + 1);
    }
}

/// The index of the first line at or after `i` that opens a hunk.
fn find_hunk(ls: &[Vec<char>], i: usize) -> (r: usize)
    requires
        i <= ls.len(),
    ensures
        r == next_hunk(texts(ls@), i as int),
        i <= r <= ls.len(),
{
    let mut k: usize = i;
    while k < ls.len() && !begins(&ls[k], "@@")
        invariant
            i <= k <= ls.len(),
            next_hunk(texts(ls@), i as int) == next_hunk(texts(ls@), k as int),
        decreases ls.len() - k,
    {
        k += 1;
    }
    k
}

/// Counts only grow as lines follow.
proof fn lemma_counts(ls: Seq<Seq<char>>, k: int, o: nat, n: nat)
    requires
        0 <= k <= ls.len(),
    ensures
        old_count(hunk_lines(ls.take(k), o, n)) <= old_count(hunk_lines(ls, o, n)),
        new_count(hunk_lines(ls.take(k), o, n)) <= new_count(hunk_lines(ls, o, n)),
    decreases ls.len() - k,
{
    if k == ls.len() {
        assert(ls.take(k) =~= ls);
    } else {
        lemma_counts(ls, k + 1, o, n);
        let t = ls.take(k + 1);
        assert(t.drop_last() =~= ls.take(k));
        let v = hunk_lines(t.drop_last(), o, n);
        let w = hunk_lines(t, o, n);
        if w.len() > v.len() {
            assert(w.drop_last() =~= v);
        }
    }
}

/// Reads one hunk: its header and the lines up to the next header.
fn parse_hunk(h: &[Vec<char>]) -> (r: Option<Hunk>)
    requires
        h.len() > 0,
    ensures
        r is Some == hunk_fits(texts(h@)),
        r matches Some(hunk) ==> hunk@ == hunk_of(texts(h@)),
        r matches Some(hunk) ==> forall|k: int|
            0 <= k < hunk.lines.len() ==> well_segmented(#[trigger] hunk.lines@[k]@),
{
    let (mut old_no, mut new_no) = parse_hunk_header(&h[0]);
    let ghost o = old_no as nat;
    let ghost n = new_no as nat;
    let ghost body = texts(h@).skip(1);
    let mut lines: Vec<DiffLine> = Vec::new();
    let mut i: usize = 1;
    assert(line_views(lines@) =~= seq![]);
    assert(body.take(0) =~= seq![]);
    while i < h.len()
        invariant
            1 <= i <= h.len(),
            body == texts(h@).skip(1),
            (o, n) == range_starts(between_marks(words(texts(h@)[0]))),
            line_views(lines@) == hunk_lines(body.take(i - 1), o, n),
            forall|k: int| 0 <= k < lines.len() ==> well_segmented(#[trigger] lines@[k]@),
            old_no == o + old_count(line_views(lines@)),
            new_no == n + new_count(line_views(lines@)),
        decreases h.len() - i,
    {
        let l: &[char] = &h[i];
        let ghost before = line_views(lines@);
        proof {
            assert(body.take(i as int).drop_last() =~= body.take(i - 1));
            assert(l@ == body.take(i as int).last());
            lemma_counts(body, i as int, o, n);
        }
        if !is_text(l, "\\ No newline at end of file") {
            let marked = l.len() > 0 && (l[0] == '+' || l[0] == '-' || l[0] == ' ');
            let content = if marked {
                let rest = slice_subrange(l, 1, l.len());
                assert(rest@ =~= l@.skip(1));
                string_of(rest)
            } else {
                string_of(l)
            };
            let kind = if l.len() > 0 && l[0] == '+' {
                LineKind::Add
            } else if l.len() > 0 && l[0] == '-' {
                LineKind::Remove
            } else {
                LineKind::Context
            };
            let next_old = if kind == LineKind::Add {
                Some(old_no)
            } else {
                old_no.checked_add(1)
            };
            let next_new = if kind == LineKind::Remove {
                Some(new_no)
            } else {
                new_no.checked_add(1)
            };
            let line = DiffLine {
                kind,
                content,
                old_no: if kind == LineKind::Add {
                    None
                } else {
                    Some(old_no)
                },
                new_no: if kind == LineKind::Remove {
                    None
                } else {
                    Some(new_no)
                },
                segments: Vec::new(),
            };
            assert(segment_views(line.segments@) =~= seq![]);
            lines.push(line);
            assert(line_views(lines@) =~= before.push(line@));
            assert(line_views(lines@) =~= hunk_lines(body.take(i as int), o, n));
            assert(line_views(lines@).drop_last() =~= before);
            match (next_old, next_new) {
                (Some(a), Some(b)) => {
                    old_no = a;
                    new_no = b;
                },
                _ => {
                    return None;
                },
            }
        }
        i += 1;
    }
    assert(body.take(body.len() as int) =~= body);
    intraline(&mut lines);
    Some(Hunk { header: string_of(&h[0]), lines })
}

/// Reads one file section: its `diff --git` line and the lines up to the next.
fn parse_block(b: &[Vec<char>]) -> (r: Option<FileDiff>)
    requires
        b.len() > 0,
    ensures
        r is Some == file_fits(texts(b@)),
        r matches Some(file) ==> file@ == file_of(texts(b@)) && file_segmented(file@),
{
    let ghost all = texts(b@);
    let ghost of = |h: Seq<Seq<char>>| hunk_of(h);
    let mut a = find_hunk(b, 1);
    let hs = slice_subrange(b, 1, a);
    assert(texts(hs@) =~= all.subrange(1, a as int));
    let mut file = parse_head(&b[0], hs);
    let ghost head = file@;
    let ghost list = hunks_from(all, 1);
    let mut hunks: Vec<Hunk> = Vec::new();
    proof {
        lemma_next_hunk(all, 1);
        lemma_next_hunk(all, a as int);
        assert(hunks_from(all, 1) == hunks_from(all, a as int));
        assert(list.skip(0) =~= list);
        assert(hunk_views(hunks@) =~= list.take(0).map_values(of));
    }
    while a < b.len()
        invariant
            1 <= a <= b.len(),
            all == texts(b@),
            a == next_hunk(all, a as int),
            of == (|h: Seq<Seq<char>>| hunk_of(h)),
            list == hunks_from(all, 1),
            hunks.len() <= list.len(),
            list.skip(hunks.len() as int) == hunks_from(all, a as int),
            hunk_views(hunks@) == list.take(hunks.len() as int).map_values(of),
            forall|h: int, k: int|
                0 <= h < hunks.len() && 0 <= k < hunks@[h].lines.len() ==> well_segmented(
                    #[trigger] hunks@[h].lines@[k]@,
                ),
            forall|k: int| 0 <= k < hunks.len() ==> hunk_fits(#[trigger] list[k]),
        decreases b.len() - a,
    {
        let e = find_hunk(b, a + 1);
        proof {
            lemma_next_hunk(all, a + 1);
            lemma_next_hunk(all, e as int);
        }
        let part = slice_subrange(b, a, e);
        let ghost k = hunks.len() as int;
        assert(texts(part@) =~= all.subrange(a as int, e as int));
        assert(hunks_from(all, a as int)[0] == all.subrange(a as int, e as int));
        assert(list.skip(k).len() > 0);
        assert(list.skip(k)[0] == list[k]);
        assert(hunks_from(all, a as int).skip(1) =~= hunks_from(all, e as int));
        match parse_hunk(part) {
            Some(hunk) => {
                let ghost before = hunk_views(hunks@);
                hunks.push(hunk);
                assert(list.skip(k).skip(1) =~= list.skip(k + 1));
                assert(hunk_views(hunks@) =~= before.push(hunk@));
                assert(list.take(k + 1) =~= list.take(k).push(list[k]));
                assert(hunk_views(hunks@) =~= list.take(k + 1).map_values(of));
            },
            None => {
                assert(!hunk_fits(list[k]));
                return None;
            },
        }
        a = e;
    }
    assert(hunks.len() == list.len());
    assert(list.take(list.len() as int) =~= list);
    file.hunks = hunks;
    assert(file_segmented(file@)) by {
        assert forall|h: int, k: int|
            0 <= h < file@.hunks.len() && 0 <= k
                < file@.hunks[h].lines.len() implies well_segmented(
            #[trigger] file@.hunks[h].lines[k],
        ) by {
            assert(file@.hunks[h].lines[k] == hunks@[h].lines@[k]@);
        }
    }
    Some(file)
}

/// Parse a unified diff (as produced by `git diff` / `git show`) into files.
/// There is no result where a line number does not fit the machine.
pub fn try_parse(input: &str) -> (r: Option<Vec<FileDiff>>)
    ensures
        r is Some == numbers_fit(input@),
        r matches Some(files) ==> file_views(files@) == files_of(input@),
        r matches Some(files) ==> forall|k: int|
            0 <= k < files.len() ==> file_segmented(#[trigger] files@[k]@),
{
    let ls = lines_of(&chars_of(input));
    let ghost all = texts(ls@);
    let ghost of = |b: Seq<Seq<char>>| file_of(b);
    let ghost list = blocks(all);
    let mut files: Vec<FileDiff> = Vec::new();
    let mut a = find_file(&ls, 0);
    proof {
        lemma_next_file(all, 0);
        lemma_blocks_start(all, 0);
        assert(list.skip(0) =~= list);
        assert(file_views(files@) =~= list.take(0).map_values(of));
    }
    while a < ls.len()
        invariant
            a <= ls.len(),
            all == texts(ls@),
            all == lines(input@),
            a == next_file(all, a as int),
            of == (|b: Seq<Seq<char>>| file_of(b)),
            list == blocks(all),
            files.len() <= list.len(),
            list.skip(files.len() as int) == blocks_from(all, a as int),
            file_views(files@) == list.take(files.len() as int).map_values(of),
            forall|k: int| 0 <= k < files.len() ==> file_segmented(#[trigger] files@[k]@),
            forall|k: int| 0 <= k < files.len() ==> file_fits(#[trigger] list[k]),
        decreases ls.len() - a,
    {
        let e = find_file(&ls, a + 1);
        proof {
            lemma_next_file(all, a + 1);
            lemma_next_file(all, e as int);
        }
        let part = slice_subrange(ls.as_slice(), a, e);
        let ghost k = files.len() as int;
        assert(texts(part@) =~= all.subrange(a as int, e as int));
        assert(blocks_from(all, a as int)[0] == all.subrange(a as int, e as int));
        assert(list.skip(k).len() > 0);
        assert(list.skip(k)[0] == list[k]);
        assert(blocks_from(all, a as int).skip(1) =~= blocks_from(all, e as int));
        match parse_block(part) {
            Some(file) => {
                let ghost before = file_views(files@);
                files.push(file);
                assert(list.skip(k).skip(1) =~= list.skip(k + 1));
                assert(file_views(files@) =~= before.push(file@));
                assert(list.take(k + 1) =~= list.take(k).push(list[k]));
                assert(file_views(files@) =~= list.take(k + 1).map_values(of));
            },
            None => {
                assert(!file_fits(list[k]));
                return None;
            },
        }
        a = e;
    }
    assert(files.len() == list.len());
    assert(list.take(list.len() as int) =~= list);
    Some(files)
}

/// Parse a unified diff (as produced by `git diff` / `git show`) into files.
pub fn parse(input: &str) -> (r: Vec<FileDiff>)
    requires
        numbers_fit(input@),
    ensures
        file_views(r@) == files_of(input@),
        forall|k: int| 0 <= k < r.len() ==> file_segmented(#[trigger] r@[k]@),
{
    try_parse(input).unwrap()
}

/// How many lines of `v` are of kind `kind`.
pub open spec fn kind_count(v: Seq<LineView>, kind: LineKind) -> nat
    decreases v.len(),
{
    if v.len() == 0 {
        0
    } else {
        kind_count(v.drop_last(), kind) + if v.last().kind == kind {
            1nat
        } else {
            0nat
        }
    }
}

/// How many lines of the hunks `hs` are of kind `kind`.
pub open spec fn hunks_count(hs: Seq<HunkView>, kind: LineKind) -> nat
    decreases hs.len(),
{
    if hs.len() == 0 {
        0
    } else {
        hunks_count(hs.drop_last(), kind) + kind_count(hs.last().lines, kind)
    }
}

/// How many lines of the files `fs` are of kind `kind`.
pub open spec fn files_count(fs: Seq<FileView>, kind: LineKind) -> nat
    decreases fs.len(),
{
    if fs.len() == 0 {
        0
    } else {
        files_count(fs.drop_last(), kind) + hunks_count(fs.last().hunks, kind)
    }
}

/// How many files there are, and how many lines they add and remove.
pub open spec fn totals_of(fs: Seq<FileView>) -> (nat, nat, nat) {
    (fs.len(), files_count(fs, LineKind::Add), files_count(fs, LineKind::Remove))
}

/// A count, at most the largest that the machine holds.
pub open spec fn capped(n: nat) -> nat {
    if n <= usize::MAX {
        n
    } else {
        usize::MAX as nat
    }
}

/// The path that a file is shown under.
pub open spec fn display_path(f: FileView) -> Seq<char> {
    if f.new_path != "/dev/null"@ && f.new_path.len() > 0 {
        f.new_path
    } else {
        f.old_path
    }
}

/// Counts the lines of both changed kinds.
fn count_lines(lines: &[DiffLine]) -> (r: (usize, usize))
    ensures
        r.0 == kind_count(line_views(lines@), LineKind::Add),
        r.1 == kind_count(line_views(lines@), LineKind::Remove),
{
    let n = lines.len();
    let mut add: usize = 0;
    let mut del: usize = 0;
    let ghost all = line_views(lines@);
    let mut i: usize = 0;
    while i < n
        invariant
            i <= n,
            n == lines.len(),
            all == line_views(lines@),
            add == kind_count(all.take(i as int), LineKind::Add),
            del == kind_count(all.take(i as int), LineKind::Remove),
            add <= i,
            del <= i,
        decreases n - i,
    {
        proof {
            assert(all.take(i + 1).drop_last() =~= all.take(i as int));
            assert(all.take(i + 1).last() == lines@[i as int]@);
        }
        match lines[i].kind {
            LineKind::Add => {
                add += 1;
            },
            LineKind::Remove => {
                del += 1;
            },
            LineKind::Context => {},
        }
        i += 1;
    }
    assert(all.take(all.len() as int) =~= all);
    (add, del)
}

impl FileDiff {
    /// Display path: prefer the new path unless the file was deleted.
    pub fn path(&self) -> (r: &str)
        ensures
            r@ == display_path(self@),
    {
        if !same(&self.new_path, "/dev/null") && self.new_path.as_str().unicode_len() > 0 {
            &self.new_path
        } else {
            &self.old_path
        }
    }

    /// (additions, deletions) counted across all hunks.
    pub fn stats(&self) -> (r: (usize, usize))
        ensures
            r.0 == capped(hunks_count(self@.hunks, LineKind::Add)),
            r.1 == capped(hunks_count(self@.hunks, LineKind::Remove)),
    {
        let mut add: usize = 0;
        let mut del: usize = 0;
        let ghost all = hunk_views(self.hunks@);
        let mut i: usize = 0;
        while i < self.hunks.len()
            invariant
                i <= self.hunks.len(),
                all == hunk_views(self.hunks@),
                add == capped(hunks_count(all.take(i as int), LineKind::Add)),
                del == capped(hunks_count(all.take(i as int), LineKind::Remove)),
            decreases self.hunks.len() - i,
        {
            let (a, d) = count_lines(&self.hunks[i].lines);
            proof {
                assert(all.take(i + 1).drop_last() =~= all.take(i as int));
                assert(all.take(i + 1).last() == self.hunks@[i as int]@);
            }
            add = add.saturating_add(a);
            del = del.saturating_add(d);
            i += 1;
        }
        assert(all.take(all.len() as int) =~= all);
        (add, del)
    }
}

/// Total (files, additions, deletions) across a set of file diffs.
pub fn totals(files: &[FileDiff]) -> (r: (usize, usize, usize))
    ensures
        r.0 == totals_of(file_views(files@)).0,
        r.1 == capped(totals_of(file_views(files@)).1),
        r.2 == capped(totals_of(file_views(files@)).2),
{
    let mut add: usize = 0;
    let mut del: usize = 0;
    let ghost all = file_views(files@);
    let mut i: usize = 0;
    while i < files.len()
        invariant
            i <= files.len(),
            all == file_views(files@),
            add == capped(files_count(all.take(i as int), LineKind::Add)),
            del == capped(files_count(all.take(i as int), LineKind::Remove)),
        decreases files.len() - i,
    {
        let (a, d) = files[i].stats();
        proof {
            assert(all.take(i + 1).drop_last() =~= all.take(i as int));
            assert(all.take(i + 1).last() == files@[i as int]@);
        }
        add = add.saturating_add(a);
        del = del.saturating_add(d);
        i += 1;
    }
    assert(all.take(all.len() as int) =~= all);
    (files.len(), add, del)
}

/// Whether a line holds nothing but white space.
pub open spec fn blank(l: Seq<char>) -> bool {
    trim(l).len() == 0
}

/// Lines without the blank ones at their end.
pub open spec fn drop_blanks(ls: Seq<Seq<char>>) -> Seq<Seq<char>>
    decreases ls.len(),
{
    if ls.len() > 0 && blank(ls.last()) {
        drop_blanks(ls.drop_last())
    } else {
        ls
    }
}

/// The lines before the first file section, with one empty line in place of
/// the blank ones at their end.
pub open spec fn preamble_of(input: Seq<char>) -> Seq<Seq<char>> {
    let ls = lines(input);
    let head = drop_blanks(ls.take(next_file(ls, 0)));
    if head.len() == 0 {
        seq![]
    } else {
        head.push(seq![])
    }
}

/// Extract the commit metadata that precedes the first `diff --git` block, as
/// produced by `git show` (commit line, author/date fields, and the indented
/// message). Returns the raw lines with a single trailing blank line, so the
/// metadata is separated from the diff below it. Empty when the input has no
/// preamble (plain `git diff`, worktree/staged diffs).
pub fn preamble(input: &str) -> (r: Vec<String>)
    ensures
        strings(r@) == preamble_of(input@),
{
    let ls = lines_of(&chars_of(input));
    let ghost all = texts(ls@);
    let mut n = find_file(&ls, 0);
    let ghost head = all.take(n as int);
    while n > 0 && trimmed(&ls[n - 1]).len() == 0
        invariant
            n <= ls.len(),
            all == texts(ls@),
            drop_blanks(head) == drop_blanks(all.take(n as int)),
        decreases n,
    {
        assert(all.take(n as int).last() == ls@[n - 1]@);
        assert(all.take(n as int).drop_last() =~= all.take(n - 1));
        n -= 1;
    }
    proof {
        if n > 0 {
            assert(all.take(n as int).last() == ls@[n - 1]@);
        }
    }
    let mut out: Vec<String> = Vec::new();
    let mut i: usize = 0;
    while i < n
        invariant
            i <= n <= ls.len(),
            all == texts(ls@),
            strings(out@) == all.take(i as int),
        decreases n - i,
    {
        let ghost before = strings(out@);
        out.push(string_of(&ls[i]));
        assert(strings(out@) =~= before.push(all[i as int]));
        assert(all.take(i + 1) =~= before.push(all[i as int]));
        i += 1;
    }
    if n > 0 {
        let ghost before = strings(out@);
        out.push(String::new());
        assert(out@[n as int]@ =~= seq![]);
        assert(strings(out@) =~= before.push(seq![]));
    } else {
        assert(strings(out@) =~= seq![]);
    }
    out
}

/// Where removed lines are followed by as many added ones, the first of them is
/// compared with the first, the second with the second, and so on: both get the
/// segments of one word diff. Where there are more of one than of the other, none
/// is compared, and context never is.
pub proof fn law_lines_are_paired_in_order(v: Seq<LineView>, r: int, a: int, k: int, d: int)
    requires
        0 <= r < a <= k <= v.len(),
        r == 0 || v[r - 1].kind != LineKind::Remove,
        forall|p: int| r <= p < a ==> (#[trigger] v[p]).kind == LineKind::Remove,
        forall|p: int| a <= p < k ==> (#[trigger] v[p]).kind == LineKind::Add,
        k == v.len() || v[k].kind == LineKind::Context || a < k && v[k].kind != LineKind::Add,
        0 <= d,
    ensures
        a - r == k - a && d < k - a ==> ({
            let c = line_changes(v[r + d].content, v[a + d].content);
            &&& segmented(v)[r + d].segments == old_segments(c)
            &&& segmented(v)[a + d].segments == new_segments(c)
        }),
        a - r != k - a && r + d < k ==> segmented(v)[r + d].segments == v[r + d].segments,
        forall|p: int|
            0 <= p < v.len() && v[p].kind == LineKind::Context ==> (
            #[trigger] segmented(v)[p]).segments == v[p].segments,
{
    assert(a == v.len() || v[a].kind != LineKind::Remove) by {
        if a < k {
            assert(v[a].kind == LineKind::Add);
        }
    }
    lemma_run_end(v, LineKind::Remove, a, r);
    lemma_run_end(v, LineKind::Add, k, a);
    lemma_partners(v, r, a, k);
    if a - r == k - a && d < k - a {
        assert(partner(v, r + d) == Some(a + d));
        assert(partner(v, a + d) == Some(r + d));
        assert(v[r + d].kind == LineKind::Remove);
        assert(v[a + d].kind == LineKind::Add);
    }
    if a - r != k - a && r + d < k {
        assert(partner(v, r + d) is None);
    }
}

proof fn lemma_run_of(s: Seq<char>, ws: bool, j: int)
    requires
        0 <= j <= s.len(),
    ensures
        j <= run_end(s, ws, j) <= s.len(),
        forall|k: int| j <= k < run_end(s, ws, j) ==> is_space(#[trigger] s[k]) == ws,
        run_end(s, ws, j) < s.len() ==> is_space(s[run_end(s, ws, j)]) != ws,
    decreases s.len() - j,
{
    if j < s.len() && is_space(s[j]) == ws {
        lemma_run_of(s, ws, j + 1);
    }
}

proof fn lemma_words_are_runs(s: Seq<char>, i: int, k: int)
    requires
        0 <= i < s.len(),
        0 <= k < tokens_from(s, i).len(),
    ensures
        ({
            let ts = tokens_from(s, i);
            let t = ts[k];
            &&& t.len() > 0
            &&& forall|j: int| 0 <= j < t.len() ==> is_space(#[trigger] t[j]) == is_space(t[0])
            &&& k == 0 ==> t[0] == s[i]
            &&& k + 1 < ts.len() ==> ts[k + 1].len() > 0 && is_space(ts[k + 1][0]) != is_space(t[0])
        }),
    decreases s.len() - i,
{
    let e = run_end(s, is_space(s[i]), i + 1);
    lemma_run_of(s, is_space(s[i]), i + 1);
    let ts = tokens_from(s, i);
    let rest = tokens_from(s, e);
    assert(ts == seq![s.subrange(i, e)] + rest);
    if k == 0 {
        assert(ts[0] == s.subrange(i, e));
        if ts.len() > 1 {
            assert(ts[1] == rest[0]);
            lemma_words_are_runs(s, e, 0);
        }
    } else {
        assert(ts[k] == rest[k - 1]);
        lemma_words_are_runs(s, e, k - 1);
        if k + 1 < ts.len() {
            assert(ts[k + 1] == rest[k]);
        }
    }
}

/// The words of a line are its runs of white space and of anything else: joined
/// they are the line, each is one or the other throughout, and they take turns.
pub proof fn law_words_are_runs(s: Seq<char>, k: int)
    requires
        0 <= k < tokens(s).len(),
    ensures
        concat(tokens(s)) == s,
        ({
            let t = tokens(s)[k];
            &&& t.len() > 0
            &&& (forall|j: int| 0 <= j < t.len() ==> is_space(#[trigger] t[j])) || (forall|j: int|
                0 <= j < t.len() ==> !is_space(#[trigger] t[j]))
            &&& k + 1 < tokens(s).len() ==> tokens(s)[k + 1].len() > 0 && is_space(
                tokens(s)[k + 1][0],
            ) != is_space(t[0])
        }),
{
    lemma_tokens(s, 0);
    assert(s.skip(0) == s);
    lemma_words_are_runs(s, 0, k);
}

} // verus!
