//! What holds of parsing and splitting a diff as a whole.

use vstd::prelude::*;

#[allow(unused_imports)]
use crate::diff::{
    blank, blocks, blocks_from, capped, concat, drop_blanks, file_of, files_count, files_of,
    first_file_at, hunks_count, lemma_concat, lemma_next_file, next_file, opens_file, preamble_of,
    section_at, sections_of, totals_of, FileView, LineKind,
};
#[allow(unused_imports)]
use crate::diff::{
    bare_path, between_marks, display_path, file_head, header_paths, hunk_lines, hunk_of, hunks_from,
    joined, new_count, new_segments, next_hunk, old_count, old_segments, opens_hunk, plain_lines,
    range_start, range_starts, with_segment, HunkView, LineView, SegmentView,
};
#[allow(unused_imports)]
use crate::outside::{new_words, old_words, ChangeTag};
#[allow(unused_imports)]
use crate::text::{
    bare, bares, decimal, find_from, first_line, law_numbers_read_back, lemma_next, lines, next,
    raw_lines, starts, trim, words,
};

verus! {

/// A line opens a file with or without its end.
proof fn lemma_opens_bare(l: Seq<char>)
    ensures
        opens_file(bare(l)) == opens_file(l),
{
    reveal_strlit("diff --git");
    let p = "diff --git"@;
    let n = p.len() as int;
    let b = bare(l);
    assert(b =~= l.take(b.len() as int));
    if n <= b.len() {
        assert(b.take(n) =~= l.take(n));
    } else if starts(l, p) {
        assert(l.take(n)[b.len() as int] == l[b.len() as int]);
        assert(false);
    }
}

proof fn lemma_next_file_bare(ls: Seq<Seq<char>>, i: int)
    requires
        0 <= i <= ls.len(),
    ensures
        next_file(bares(ls), i) == next_file(ls, i),
    decreases ls.len() - i,
{
    if i < ls.len() {
        lemma_opens_bare(ls[i]);
        if !opens_file(ls[i]) {
            lemma_next_file_bare(ls, i + 1);
        }
    }
}

/// The sections among lines without their ends are those among the lines.
proof fn lemma_blocks_bare(ls: Seq<Seq<char>>, i: int)
    requires
        0 <= i <= ls.len(),
    ensures
        blocks_from(bares(ls), i) == blocks_from(ls, i).map_values(
            |b: Seq<Seq<char>>| bares(b),
        ),
    decreases ls.len() - i,
{
    let of = |b: Seq<Seq<char>>| bares(b);
    let a = next_file(ls, i);
    lemma_next_file(ls, i);
    lemma_next_file_bare(ls, i);
    if a < ls.len() {
        let e = next_file(ls, a + 1);
        lemma_next_file(ls, a + 1);
        lemma_next_file_bare(ls, a + 1);
        lemma_blocks_bare(ls, e);
        assert(bares(ls).subrange(a, e) =~= bares(ls.subrange(a, e)));
        assert(blocks_from(bares(ls), i) =~= blocks_from(ls, i).map_values(of));
    } else {
        assert(blocks_from(bares(ls), i) =~= blocks_from(ls, i).map_values(of));
    }
}

/// Sections and files line up: there are as many of one as of the other, and
/// the section of a file is the text that the file was read from.
pub proof fn law_sections_match_files(input: Seq<char>)
    ensures
        sections_of(input).len() == files_of(input).len(),
        forall|k: int|
            0 <= k < files_of(input).len() ==> (#[trigger] files_of(input)[k]) == file_of(
                bares(blocks(raw_lines(input))[k]),
            ) && sections_of(input)[k] == concat(blocks(raw_lines(input))[k]),
{
    lemma_blocks_bare(raw_lines(input), 0);
}

/// No line is lost: the lines before the first section and those of the
/// sections, in order, are the lines of the diff.
pub proof fn law_lines_are_kept(input: Seq<char>)
    ensures
        ({
            let ls = lines(input);
            ls.take(next_file(ls, 0)) + blocks(ls).flatten() == ls
        }),
{
    let ls = lines(input);
    lemma_next_file(ls, 0);
    lemma_blocks_flatten(ls, 0);
    assert(ls.take(next_file(ls, 0)) + ls.skip(next_file(ls, 0)) =~= ls);
}

proof fn lemma_blocks_flatten(ls: Seq<Seq<char>>, i: int)
    requires
        0 <= i <= ls.len(),
    ensures
        blocks_from(ls, i).flatten() == ls.skip(next_file(ls, i)),
    decreases ls.len() - i,
{
    let a = next_file(ls, i);
    lemma_next_file(ls, i);
    if a < ls.len() {
        let e = next_file(ls, a + 1);
        lemma_next_file(ls, a + 1);
        lemma_next_file(ls, e);
        lemma_blocks_flatten(ls, e);
        let rest = blocks_from(ls, e);
        let all = blocks_from(ls, i);
        assert(all =~= seq![ls.subrange(a, e)] + rest);
        assert(all.drop_first() =~= rest);
        assert(all.flatten() =~= all.first() + rest.flatten());
        assert(ls.subrange(a, e) + ls.skip(e) =~= ls.skip(a));
    } else {
        assert(blocks_from(ls, i) =~= seq![]);
        assert(blocks_from(ls, i).flatten() =~= seq![]);
        assert(ls.skip(a) =~= seq![]);
    }
}

/// A preamble is empty, or its last line is empty and the line before that is
/// not blank.
pub proof fn law_preamble_ends_with_one_blank(input: Seq<char>)
    ensures
        ({
            let p = preamble_of(input);
            p.len() == 0 || p.len() >= 2 && p.last() == Seq::<char>::empty() && !blank(
                p[p.len() - 2],
            )
        }),
{
    let ls = lines(input);
    lemma_drop_blanks(ls.take(next_file(ls, 0)));
}

proof fn lemma_drop_blanks(ls: Seq<Seq<char>>)
    ensures
        drop_blanks(ls).len() > 0 ==> !blank(drop_blanks(ls).last()),
    decreases ls.len(),
{
    if ls.len() > 0 && blank(ls.last()) {
        lemma_drop_blanks(ls.drop_last());
    }
}

/// A diff that starts with a file section has no preamble.
pub proof fn law_plain_diff_has_no_preamble(input: Seq<char>)
    requires
        lines(input).len() > 0,
        opens_file(lines(input)[0]),
    ensures
        preamble_of(input) == Seq::<Seq<char>>::empty(),
{
    assert(lines(input).take(0) =~= seq![]);
}

/// Whether lines are those of one text as they stand there: each holds a line
/// feed at its end alone, and only the last may do without.
pub open spec fn whole(ls: Seq<Seq<char>>) -> bool {
    &&& forall|k: int| 0 <= k < ls.len() ==> (#[trigger] ls[k]).len() > 0
    &&& forall|k: int, j: int|
        0 <= k < ls.len() && 0 <= j < ls[k].len() - 1 ==> #[trigger] ls[k][j] != '\n'
    &&& forall|k: int| 0 <= k < ls.len() - 1 ==> (#[trigger] ls[k]).last() == '\n'
}

/// The lines of a text as they stand there are all of it.
pub proof fn lemma_raw_lines(s: Seq<char>)
    ensures
        whole(raw_lines(s)),
        concat(raw_lines(s)) == s,
    decreases s.len(),
{
    let ls = raw_lines(s);
    if s.len() > 0 {
        lemma_next(s, '\n', 0);
        let n = first_line(s);
        let one = seq![s.take(n)];
        let rest = raw_lines(s.skip(n));
        lemma_raw_lines(s.skip(n));
        lemma_concat(one, rest);
        assert(concat(one.drop_last()) =~= seq![]);
        assert(concat(one) =~= s.take(n));
        assert(s.take(n) + s.skip(n) =~= s);
        assert forall|k: int| 0 <= k < ls.len() implies (#[trigger] ls[k]).len() > 0 by {
            if k > 0 {
                assert(ls[k] == rest[k - 1]);
            }
        }
        assert forall|k: int, j: int|
            0 <= k < ls.len() && 0 <= j < ls[k].len() - 1 implies #[trigger] ls[k][j] != '\n' by {
            if k > 0 {
                assert(ls[k] == rest[k - 1]);
                assert(rest[k - 1][j] != '\n');
            } else {
                assert(ls[0][j] == s[j]);
            }
        }
        assert forall|k: int| 0 <= k < ls.len() - 1 implies (#[trigger] ls[k]).last() == '\n' by {
            if k > 0 {
                assert(ls[k] == rest[k - 1]);
            } else {
                assert(rest.len() > 0);
                assert(n < s.len());
            }
        }
    } else {
        assert(ls =~= seq![]);
        assert(concat(ls) =~= s);
    }
}

/// The first index that holds `c` is found from any place before it.
proof fn lemma_next_is(s: Seq<char>, c: char, i: int, e: int)
    requires
        0 <= i <= e < s.len(),
        s[e] == c,
        forall|k: int| i <= k < e ==> #[trigger] s[k] != c,
    ensures
        next(s, c, i) == e,
    decreases e - i,
{
    if i < e {
        assert(s[i] != c);
        lemma_next_is(s, c, i + 1, e);
    }
}

/// What is not found up to the end is not found.
proof fn lemma_next_none(s: Seq<char>, c: char, i: int)
    requires
        0 <= i <= s.len(),
        forall|k: int| i <= k < s.len() ==> #[trigger] s[k] != c,
    ensures
        next(s, c, i) == s.len(),
    decreases s.len() - i,
{
    if i < s.len() {
        lemma_next_none(s, c, i + 1);
    }
}

/// Joined lines are read back as those lines.
pub proof fn lemma_lines_of_concat(ls: Seq<Seq<char>>)
    requires
        whole(ls),
    ensures
        raw_lines(concat(ls)) == ls,
    decreases ls.len(),
{
    let s = concat(ls);
    if ls.len() == 0 {
        assert(raw_lines(s) =~= ls);
    } else {
        let l = ls[0];
        let one = seq![l];
        let rest = ls.skip(1);
        let n = l.len() as int;
        assert(whole(rest)) by {
            assert forall|k: int, j: int|
                0 <= k < rest.len() && 0 <= j < rest[k].len() - 1 implies #[trigger] rest[k][j]
                != '\n' by {
                assert(ls[k + 1][j] != '\n');
            }
            assert forall|k: int| 0 <= k < rest.len() implies (#[trigger] rest[k]).len() > 0 by {
                assert(rest[k] == ls[k + 1]);
            }
            assert forall|k: int| 0 <= k < rest.len() - 1 implies (#[trigger] rest[k]).last()
                == '\n' by {
                assert(rest[k] == ls[k + 1]);
            }
        }
        lemma_lines_of_concat(rest);
        assert(ls =~= one + rest);
        lemma_concat(one, rest);
        assert(concat(one.drop_last()) =~= seq![]);
        assert(concat(one) =~= l);
        assert(s =~= l + concat(rest));
        assert forall|k: int| 0 <= k < n - 1 implies #[trigger] s[k] != '\n' by {
            assert(ls[0][k] != '\n');
        }
        if l.last() == '\n' {
            assert(s[n - 1] == '\n');
            lemma_next_is(s, '\n', 0, n - 1);
        } else {
            assert(rest =~= seq![]);
            assert(concat(rest) =~= seq![]);
            assert(s =~= l);
            lemma_next_none(s, '\n', 0);
        }
        assert(first_line(s) == n);
        assert(s.take(n) =~= l);
        assert(s.skip(n) =~= concat(rest));
        assert(raw_lines(s) =~= ls);
    }
}

proof fn lemma_whole_part(ls: Seq<Seq<char>>, a: int, e: int)
    requires
        whole(ls),
        0 <= a <= e <= ls.len(),
    ensures
        whole(ls.subrange(a, e)),
{
    let p = ls.subrange(a, e);
    assert forall|k: int, j: int|
        0 <= k < p.len() && 0 <= j < p[k].len() - 1 implies #[trigger] p[k][j] != '\n' by {
        assert(ls[a + k][j] != '\n');
    }
}

/// A section is a line that opens a file and lines that do not.
pub proof fn lemma_block_shape(ls: Seq<Seq<char>>, i: int, k: int)
    requires
        0 <= i <= ls.len(),
        0 <= k < blocks_from(ls, i).len(),
    ensures
        ({
            let b = blocks_from(ls, i)[k];
            &&& b.len() > 0
            &&& opens_file(b[0])
            &&& forall|j: int| 0 < j < b.len() ==> !opens_file(#[trigger] b[j])
            &&& whole(ls) ==> whole(b)
        }),
    decreases ls.len() - i,
{
    let a = next_file(ls, i);
    lemma_next_file(ls, i);
    if a < ls.len() {
        let e = next_file(ls, a + 1);
        lemma_next_file(ls, a + 1);
        if k > 0 {
            lemma_block_shape(ls, e, k - 1);
            assert(blocks_from(ls, i)[k] == blocks_from(ls, e)[k - 1]);
        } else {
            let b = blocks_from(ls, i)[0];
            assert(b =~= ls.subrange(a, e));
            assert forall|j: int| 0 < j < b.len() implies !opens_file(#[trigger] b[j]) by {
                assert(b[j] == ls[a + j]);
            }
            if whole(ls) {
                lemma_whole_part(ls, a, e);
            }
        }
    }
}

proof fn lemma_no_file(ls: Seq<Seq<char>>, i: int)
    requires
        0 <= i <= ls.len(),
        forall|j: int| i <= j < ls.len() ==> !opens_file(#[trigger] ls[j]),
    ensures
        next_file(ls, i) == ls.len(),
    decreases ls.len() - i,
{
    if i < ls.len() {
        lemma_no_file(ls, i + 1);
    }
}

/// A section holds the lines of one file: the first of them opens it, and no
/// other opens one.
pub proof fn law_a_section_is_one_file(input: Seq<char>, k: int)
    requires
        0 <= k < sections_of(input).len(),
    ensures
        raw_lines(sections_of(input)[k]) == blocks(raw_lines(input))[k],
        raw_lines(sections_of(input)[k]).len() > 0,
        opens_file(raw_lines(sections_of(input)[k])[0]),
        forall|j: int|
            0 < j < raw_lines(sections_of(input)[k]).len() ==> !opens_file(
                #[trigger] raw_lines(sections_of(input)[k])[j],
            ),
{
    lemma_raw_lines(input);
    lemma_block_shape(raw_lines(input), 0, k);
    lemma_lines_of_concat(blocks(raw_lines(input))[k]);
}

/// Reading the sections of a diff one by one yields the files that reading
/// the whole diff yields, in the same order.
pub proof fn law_sections_parse_alone(input: Seq<char>, k: int)
    requires
        0 <= k < sections_of(input).len(),
    ensures
        files_of(sections_of(input)[k]) == seq![files_of(input)[k]],
{
    let b = blocks(raw_lines(input))[k];
    law_a_section_is_one_file(input, k);
    law_sections_match_files(input);
    law_sections_match_files(sections_of(input)[k]);
    lemma_no_file(b, 1);
    assert(next_file(b, 0) == 0);
    assert(blocks_from(b, b.len() as int) =~= seq![]);
    assert(b.subrange(0, b.len() as int) =~= b);
    assert(blocks(b) =~= seq![b]);
    assert(files_of(sections_of(input)[k]) =~= seq![files_of(input)[k]]);
}

/// The texts of lists, joined, are the text of the lists joined.
proof fn lemma_concat_lists(bs: Seq<Seq<Seq<char>>>)
    ensures
        concat(bs.map_values(|b: Seq<Seq<char>>| concat(b))) == concat(bs.flatten()),
    decreases bs.len(),
{
    let of = |b: Seq<Seq<char>>| concat(b);
    if bs.len() == 0 {
        assert(bs.map_values(of) =~= seq![]);
        assert(bs.flatten() =~= seq![]);
    } else {
        let rest = bs.drop_first();
        lemma_concat_lists(rest);
        let one = seq![concat(bs[0])];
        assert(bs.map_values(of) =~= one + rest.map_values(of));
        lemma_concat(one, rest.map_values(of));
        assert(concat(one.drop_last()) =~= seq![]);
        assert(concat(one) =~= concat(bs[0]));
        assert(bs.flatten() =~= bs.first() + rest.flatten());
        lemma_concat(bs[0], rest.flatten());
    }
}

/// What lines before the first section hold does not matter to the sections.
proof fn lemma_blocks_skip(ls: Seq<Seq<char>>, p: int, i: int)
    requires
        0 <= p <= i <= ls.len(),
    ensures
        blocks_from(ls.skip(p), i - p) == blocks_from(ls, i),
    decreases ls.len() - i,
{
    let t = ls.skip(p);
    let a = next_file(ls, i);
    lemma_next_file(ls, i);
    lemma_next_file_skip(ls, p, i);
    if a < ls.len() {
        let e = next_file(ls, a + 1);
        lemma_next_file(ls, a + 1);
        lemma_next_file_skip(ls, p, a + 1);
        lemma_blocks_skip(ls, p, e);
        assert(t.subrange(a - p, e - p) =~= ls.subrange(a, e));
        assert(blocks_from(t, i - p) =~= blocks_from(ls, i));
    } else {
        assert(blocks_from(t, i - p) =~= blocks_from(ls, i));
    }
}

proof fn lemma_next_file_skip(ls: Seq<Seq<char>>, p: int, i: int)
    requires
        0 <= p <= i <= ls.len(),
    ensures
        next_file(ls.skip(p), i - p) == next_file(ls, i) - p,
    decreases ls.len() - i,
{
    if i < ls.len() && !opens_file(ls[i]) {
        lemma_next_file_skip(ls, p, i + 1);
    }
}

/// The sections joined are the diff from its first section on, and splitting
/// that again gives the same sections.
pub proof fn law_sections_join(input: Seq<char>)
    ensures
        0 <= first_file_at(input) <= input.len(),
        concat(sections_of(input)) == input.skip(first_file_at(input)),
        sections_of(concat(sections_of(input))) == sections_of(input),
{
    let ls = raw_lines(input);
    let p = next_file(ls, 0);
    lemma_raw_lines(input);
    lemma_next_file(ls, 0);
    lemma_concat_lists(blocks(ls));
    lemma_blocks_flatten(ls, 0);
    assert(ls =~= ls.take(p) + ls.skip(p));
    lemma_concat(ls.take(p), ls.skip(p));
    assert(input.skip(first_file_at(input)) =~= concat(ls.skip(p)));
    lemma_whole_part(ls, p, ls.len() as int);
    assert(ls.subrange(p, ls.len() as int) =~= ls.skip(p));
    lemma_lines_of_concat(ls.skip(p));
    lemma_next_file(ls, p);
    lemma_blocks_skip(ls, p, p);
    crate::diff::lemma_blocks_start(ls, 0);
}

/// Each section is the part of the diff between its start and that of the next.
pub proof fn law_sections_are_parts(input: Seq<char>, k: int)
    requires
        0 <= k < sections_of(input).len(),
    ensures
        0 <= section_at(input, k) <= section_at(input, k + 1) <= input.len(),
        sections_of(input)[k] == input.subrange(section_at(input, k), section_at(input, k + 1)),
{
    law_sections_join(input);
    let ts = sections_of(input);
    let all = concat(ts);
    let head = ts.take(k);
    let tail = ts.skip(k + 1);
    let f = first_file_at(input);
    assert(ts.take(k + 1).drop_last() =~= head);
    assert(concat(ts.take(k + 1)) == concat(head) + ts[k]);
    assert(ts =~= ts.take(k + 1) + tail);
    lemma_concat(ts.take(k + 1), tail);
    let a = concat(head).len() as int;
    let e = concat(ts.take(k + 1)).len() as int;
    assert(all.subrange(a, e) =~= ts[k]);
    assert(input.subrange(f + a, f + e) =~= input.skip(f).subrange(a, e));
}

/// Lines in which none opens a section hold no file.
pub proof fn law_text_without_sections_has_no_files(ls: Seq<Seq<char>>)
    requires
        whole(ls),
        next_file(ls, 0) >= ls.len(),
    ensures
        files_of(concat(ls)).len() == 0,
{
    lemma_lines_of_concat(ls);
    law_sections_match_files(concat(ls));
    assert(blocks(ls) =~= seq![]);
}

proof fn lemma_files_count(a: Seq<FileView>, b: Seq<FileView>, kind: LineKind)
    ensures
        files_count(a + b, kind) == files_count(a, kind) + files_count(b, kind),
    decreases b.len(),
{
    if b.len() == 0 {
        assert(a + b =~= a);
    } else {
        assert((a + b).drop_last() =~= a + b.drop_last());
        lemma_files_count(a, b.drop_last(), kind);
    }
}

/// The totals of files are those of some of them and those of the others added
/// up, also where the machine cannot count that far.
pub proof fn law_totals_add_up(a: Seq<FileView>, b: Seq<FileView>)
    ensures
        totals_of(a + b).0 == totals_of(a).0 + totals_of(b).0,
        totals_of(a + b).1 == totals_of(a).1 + totals_of(b).1,
        totals_of(a + b).2 == totals_of(a).2 + totals_of(b).2,
        capped(totals_of(a + b).1) == capped(capped(totals_of(a).1) + capped(totals_of(b).1)),
        capped(totals_of(a + b).2) == capped(capped(totals_of(a).2) + capped(totals_of(b).2)),
{
    lemma_files_count(a, b, LineKind::Add);
    lemma_files_count(a, b, LineKind::Remove);
}

/// No files total nothing, and one file totals its own additions and deletions.
pub proof fn law_totals_of_one_file(f: FileView)
    ensures
        totals_of(Seq::empty()) == (0nat, 0nat, 0nat),
        totals_of(seq![f]) == (
            1nat,
            hunks_count(f.hunks, LineKind::Add),
            hunks_count(f.hunks, LineKind::Remove),
        ),
{
    assert(seq![f].drop_last() =~= Seq::<FileView>::empty());
    assert(files_count(seq![f].drop_last(), LineKind::Add) == 0);
    assert(files_count(seq![f].drop_last(), LineKind::Remove) == 0);
}

/// One more piece of text leaves the segments before it where they are, and
/// stands at the end, in a segment that is changed where the piece is.
proof fn lemma_piece(v: Seq<SegmentView>, text: Seq<char>, changed: bool)
    ensures
        ({
            let w = with_segment(v, text, changed);
            &&& w.len() > 0
            &&& w.len() >= v.len()
            &&& joined(w) == joined(v) + text
            &&& forall|s: int|
                0 <= s < v.len() ==> joined(#[trigger] w.take(s)) == joined(v.take(s))
            &&& forall|s: int|
                0 <= s < v.len() ==> (#[trigger] w[s]).1 == v[s].1 && v[s].0.len() <= w[s].0.len()
                    && w[s].0.take(v[s].0.len() as int) == v[s].0
            &&& w.last().1 == changed
            &&& joined(w.drop_last()).len() <= joined(v).len()
        }),
{
    let w = with_segment(v, text, changed);
    let n = v.len() as int;
    if n > 0 && v.last().1 == changed {
        assert(w.drop_last() =~= v.drop_last());
        assert(joined(w) =~= joined(v) + text);
        assert forall|s: int| 0 <= s < n implies joined(#[trigger] w.take(s)) == joined(
            v.take(s),
        ) by {
            assert(w.take(s) =~= v.take(s));
        }
        assert forall|s: int| 0 <= s < n implies (#[trigger] w[s]).1 == v[s].1 && v[s].0.len()
            <= w[s].0.len() && w[s].0.take(v[s].0.len() as int) == v[s].0 by {
            assert(w[s].0.take(v[s].0.len() as int) =~= v[s].0);
        }
    } else {
        assert(w.drop_last() =~= v);
        assert(joined(w) =~= joined(v) + text);
        assert forall|s: int| 0 <= s < n implies joined(#[trigger] w.take(s)) == joined(
            v.take(s),
        ) by {
            assert(w.take(s) =~= v.take(s));
        }
        assert forall|s: int| 0 <= s < n implies (#[trigger] w[s]).1 == v[s].1 && v[s].0.len()
            <= w[s].0.len() && w[s].0.take(v[s].0.len() as int) == v[s].0 by {
            assert(w[s].0.take(v[s].0.len() as int) =~= v[s].0);
        }
    }
}

/// The segments of the old side join to its words.
proof fn lemma_old_joined(c: Seq<(ChangeTag, Seq<char>)>)
    ensures
        joined(old_segments(c)) == concat(old_words(c)),
    decreases c.len(),
{
    if c.len() > 0 {
        let d = c.drop_last();
        lemma_old_joined(d);
        if c.last().0 != ChangeTag::Insert {
            assert(old_words(c).drop_last() =~= old_words(d));
            lemma_piece(old_segments(d), c.last().1, false);
            lemma_piece(old_segments(d), c.last().1, true);
        }
    }
}

/// The segments of the new side join to its words.
proof fn lemma_new_joined(c: Seq<(ChangeTag, Seq<char>)>)
    ensures
        joined(new_segments(c)) == concat(new_words(c)),
    decreases c.len(),
{
    if c.len() > 0 {
        let d = c.drop_last();
        lemma_new_joined(d);
        if c.last().0 != ChangeTag::Delete {
            assert(new_words(c).drop_last() =~= new_words(d));
            lemma_piece(new_segments(d), c.last().1, false);
            lemma_piece(new_segments(d), c.last().1, true);
        }
    }
}

/// Each character of the old line stands in the segments at its own place, in a
/// changed segment where its word was deleted and in an unchanged one where the
/// word is shared. Returns that segment.
pub proof fn law_deleted_words_are_emphasised(
    c: Seq<(ChangeTag, Seq<char>)>,
    k: int,
    j: int,
) -> (s: int)
    requires
        0 <= k < c.len(),
        0 <= j < c[k].1.len(),
        c[k].0 == ChangeTag::Delete || c[k].0 == ChangeTag::Equal,
    ensures
        ({
            let v = old_segments(c);
            let before = joined(v.take(s)).len();
            let p = concat(old_words(c.take(k))).len() + j;
            &&& 0 <= s < v.len()
            &&& before <= p < before + v[s].0.len()
            &&& v[s].0[p - before] == c[k].1[j]
            &&& c[k].0 == ChangeTag::Delete ==> v[s].1
            &&& c[k].0 == ChangeTag::Equal ==> !v[s].1
        }),
    decreases c.len(),
{
    let d = c.drop_last();
    let v = old_segments(d);
    let w = old_segments(c);
    let t = c.last();
    lemma_old_joined(d);
    lemma_piece(v, t.1, t.0 == ChangeTag::Delete);
    if k < c.len() - 1 {
        let s = law_deleted_words_are_emphasised(d, k, j);
        assert(d.take(k) =~= c.take(k));
        if t.0 != ChangeTag::Insert {
            assert(joined(w.take(s)) == joined(v.take(s)));
            assert(w[s].1 == v[s].1);
            let p = concat(old_words(c.take(k))).len() + j - joined(v.take(s)).len();
            assert(w[s].0.take(v[s].0.len() as int)[p] == v[s].0[p]);
        }
        s
    } else {
        assert(c[k] == t);
        assert(w == with_segment(v, t.1, t.0 == ChangeTag::Delete));
        assert(joined(w) == joined(v) + t.1);
        assert(joined(w.drop_last()).len() <= joined(v).len());
        assert(c.take(k) =~= d);
        let s = w.len() - 1;
        assert(w.take(s) =~= w.drop_last());
        assert(joined(w) == joined(w.drop_last()) + w.last().0);
        let p = joined(v).len() + j;
        assert(joined(w) == joined(v) + t.1);
        assert((joined(v) + t.1)[p as int] == t.1[j]);
        let head = joined(w.drop_last());
        assert(joined(w).len() == joined(v).len() + t.1.len());
        assert(joined(w) == head + w.last().0);
        assert(joined(w).len() == head.len() + w.last().0.len());
        assert(head.len() <= p < head.len() + w.last().0.len());
        assert((head + w.last().0)[p as int] == w.last().0[p - head.len()]);
        s
    }
}

/// Each character of the new line stands in the segments at its own place, in a
/// changed segment where its word was inserted and in an unchanged one where
/// the word is shared. Returns that segment.
pub proof fn law_inserted_words_are_emphasised(
    c: Seq<(ChangeTag, Seq<char>)>,
    k: int,
    j: int,
) -> (s: int)
    requires
        0 <= k < c.len(),
        0 <= j < c[k].1.len(),
        c[k].0 == ChangeTag::Insert || c[k].0 == ChangeTag::Equal,
    ensures
        ({
            let v = new_segments(c);
            let before = joined(v.take(s)).len();
            let p = concat(new_words(c.take(k))).len() + j;
            &&& 0 <= s < v.len()
            &&& before <= p < before + v[s].0.len()
            &&& v[s].0[p - before] == c[k].1[j]
            &&& c[k].0 == ChangeTag::Insert ==> v[s].1
            &&& c[k].0 == ChangeTag::Equal ==> !v[s].1
        }),
    decreases c.len(),
{
    let d = c.drop_last();
    let v = new_segments(d);
    let w = new_segments(c);
    let t = c.last();
    lemma_new_joined(d);
    lemma_piece(v, t.1, t.0 == ChangeTag::Insert);
    if k < c.len() - 1 {
        let s = law_inserted_words_are_emphasised(d, k, j);
        assert(d.take(k) =~= c.take(k));
        if t.0 != ChangeTag::Delete {
            assert(joined(w.take(s)) == joined(v.take(s)));
            assert(w[s].1 == v[s].1);
            let p = concat(new_words(c.take(k))).len() + j - joined(v.take(s)).len();
            assert(w[s].0.take(v[s].0.len() as int)[p] == v[s].0[p]);
        }
        s
    } else {
        assert(c[k] == t);
        assert(w == with_segment(v, t.1, t.0 == ChangeTag::Insert));
        assert(joined(w) == joined(v) + t.1);
        assert(joined(w.drop_last()).len() <= joined(v).len());
        assert(c.take(k) =~= d);
        let s = w.len() - 1;
        assert(w.take(s) =~= w.drop_last());
        assert(joined(w) == joined(w.drop_last()) + w.last().0);
        let p = joined(v).len() + j;
        assert(joined(w) == joined(v) + t.1);
        assert((joined(v) + t.1)[p as int] == t.1[j]);
        let head = joined(w.drop_last());
        assert(joined(w).len() == joined(v).len() + t.1.len());
        assert(joined(w) == head + w.last().0);
        assert(joined(w).len() == head.len() + w.last().0.len());
        assert(head.len() <= p < head.len() + w.last().0.len());
        assert((head + w.last().0)[p as int] == w.last().0[p - head.len()]);
        s
    }
}

/// The text of the segments that are not changed.
pub open spec fn shared_text(v: Seq<SegmentView>) -> Seq<char>
    decreases v.len(),
{
    if v.len() == 0 {
        seq![]
    } else if v.last().1 {
        shared_text(v.drop_last())
    } else {
        shared_text(v.drop_last()) + v.last().0
    }
}

proof fn lemma_shared_piece(v: Seq<SegmentView>, text: Seq<char>, changed: bool)
    ensures
        shared_text(with_segment(v, text, changed)) == if changed {
            shared_text(v)
        } else {
            shared_text(v) + text
        },
{
    let w = with_segment(v, text, changed);
    if v.len() > 0 && v.last().1 == changed {
        assert(w.drop_last() =~= v.drop_last());
        if !changed {
            assert(shared_text(w) =~= shared_text(v) + text);
        }
    } else {
        assert(w.drop_last() =~= v);
    }
}

/// What is not changed is the same on both sides: the unchanged segments of the
/// old line and those of the new one join to one text. Where nothing was
/// deleted or inserted, no segment is changed.
pub proof fn law_shared_words_are_the_same(c: Seq<(ChangeTag, Seq<char>)>)
    ensures
        shared_text(old_segments(c)) == shared_text(new_segments(c)),
        (forall|k: int| 0 <= k < c.len() ==> (#[trigger] c[k]).0 == ChangeTag::Equal) ==> (forall|
            s: int,
        |
            0 <= s < old_segments(c).len() ==> !(#[trigger] old_segments(c)[s]).1) && (forall|s: int|

            0 <= s < new_segments(c).len() ==> !(#[trigger] new_segments(c)[s]).1),
    decreases c.len(),
{
    if c.len() > 0 {
        let d = c.drop_last();
        let t = c.last();
        law_shared_words_are_the_same(d);
        lemma_shared_piece(old_segments(d), t.1, t.0 == ChangeTag::Delete);
        lemma_shared_piece(new_segments(d), t.1, t.0 == ChangeTag::Insert);
        if forall|k: int| 0 <= k < c.len() ==> (#[trigger] c[k]).0 == ChangeTag::Equal {
            assert(t == c[c.len() - 1]);
            assert forall|k: int| 0 <= k < d.len() implies (#[trigger] d[k]).0
                == ChangeTag::Equal by {
                assert(d[k] == c[k]);
            }
        }
    }
}

/// The number of a line in the new file goes by the lines before it.
proof fn lemma_numbers(ls: Seq<Seq<char>>, o: nat, n: nat, i: int)
    requires
        0 <= i < hunk_lines(ls, o, n).len(),
    ensures
        ({
            let v = hunk_lines(ls, o, n);
            &&& v[i].old_no == if v[i].kind == LineKind::Add {
                None
            } else {
                Some(o + old_count(v.take(i)))
            }
            &&& v[i].new_no == if v[i].kind == LineKind::Remove {
                None
            } else {
                Some(n + new_count(v.take(i)))
            }
        }),
    decreases ls.len(),
{
    let v = hunk_lines(ls, o, n);
    let d = hunk_lines(ls.drop_last(), o, n);
    if v.len() == d.len() {
        lemma_numbers(ls.drop_last(), o, n, i);
    } else if i < d.len() {
        lemma_numbers(ls.drop_last(), o, n, i);
        assert(v.take(i) =~= d.take(i));
    } else {
        assert(v.take(i) =~= d);
    }
}

/// Counts go up by the lines that stand in a file.
proof fn lemma_count_steps(v: Seq<LineView>, i: int, j: int)
    requires
        0 <= i <= j <= v.len(),
    ensures
        old_count(v.take(i)) <= old_count(v.take(j)),
        new_count(v.take(i)) <= new_count(v.take(j)),
        (forall|k: int| i <= k < j ==> (#[trigger] v[k]).kind == LineKind::Add) ==> old_count(
            v.take(j),
        ) == old_count(v.take(i)),
        (forall|k: int| i <= k < j ==> (#[trigger] v[k]).kind == LineKind::Remove) ==> new_count(
            v.take(j),
        ) == new_count(v.take(i)),
        j > i && v[i].kind != LineKind::Add ==> old_count(v.take(j)) > old_count(v.take(i)),
        j > i && v[i].kind != LineKind::Remove ==> new_count(v.take(j)) > new_count(v.take(i)),
        j == i + 1 ==> old_count(v.take(j)) <= old_count(v.take(i)) + 1 && new_count(v.take(j))
            <= new_count(v.take(i)) + 1,
    decreases j - i,
{
    if i < j {
        lemma_count_steps(v, i, j - 1);
        assert(v.take(j).drop_last() =~= v.take(j - 1));
        assert(v.take(j).last() == v[j - 1]);
    }
}

/// The lines of a hunk that stand in the new file, those of context and the
/// added ones, are numbered one by one from the start that its header gives,
/// without gap or repeat; removed lines have no number there.
pub proof fn law_new_lines_are_numbered_in_turn(h: Seq<Seq<char>>, i: int, j: int)
    requires
        0 <= i < j < hunk_of(h).lines.len(),
    ensures
        ({
            let v = hunk_of(h).lines;
            let start = range_starts(between_marks(words(h[0]))).1;
            &&& v[i].new_no is None <==> v[i].kind == LineKind::Remove
            &&& v[j].new_no is None <==> v[j].kind == LineKind::Remove
            &&& v[i].new_no is Some && v[j].new_no is Some ==> v[i].new_no->0 < v[j].new_no->0
            &&& v[i].new_no is Some && v[j].new_no is Some && (forall|k: int|
                i < k < j ==> (#[trigger] v[k]).kind == LineKind::Remove) ==> v[j].new_no->0
                == v[i].new_no->0 + 1
            &&& v[i].new_no is Some && (forall|k: int|
                0 <= k < i ==> (#[trigger] v[k]).kind == LineKind::Remove) ==> v[i].new_no->0
                == start
            &&& v[j].new_no is Some && (forall|k: int|
                0 <= k < j ==> (#[trigger] v[k]).kind == LineKind::Remove) ==> v[j].new_no->0
                == start
        }),
{
    let w = hunk_of(h).lines;
    let v = plain_lines(h);
    let (o, n) = range_starts(between_marks(words(h[0])));
    lemma_numbers(h.skip(1), o, n, i);
    lemma_numbers(h.skip(1), o, n, j);
    lemma_count_steps(v, i, j);
    lemma_count_steps(v, i, i + 1);
    lemma_count_steps(v, i + 1, j);
    lemma_count_steps(v, 0, i);
    lemma_count_steps(v, 0, j);
    assert(v.take(0) =~= seq![]);
    assert forall|k: int| 0 <= k < v.len() implies (#[trigger] v[k]).kind == w[k].kind && v[k].new_no
        == w[k].new_no by {}
}

/// The lines of a hunk that stand in the old file, those of context and the
/// removed ones, are numbered one by one from the start that its header gives,
/// without gap or repeat; added lines have no number there.
pub proof fn law_old_lines_are_numbered_in_turn(h: Seq<Seq<char>>, i: int, j: int)
    requires
        0 <= i < j < hunk_of(h).lines.len(),
    ensures
        ({
            let v = hunk_of(h).lines;
            let start = range_starts(between_marks(words(h[0]))).0;
            &&& v[i].old_no is None <==> v[i].kind == LineKind::Add
            &&& v[j].old_no is None <==> v[j].kind == LineKind::Add
            &&& v[i].old_no is Some && v[j].old_no is Some ==> v[i].old_no->0 < v[j].old_no->0
            &&& v[i].old_no is Some && v[j].old_no is Some && (forall|k: int|
                i < k < j ==> (#[trigger] v[k]).kind == LineKind::Add) ==> v[j].old_no->0
                == v[i].old_no->0 + 1
            &&& v[i].old_no is Some && (forall|k: int|
                0 <= k < i ==> (#[trigger] v[k]).kind == LineKind::Add) ==> v[i].old_no->0 == start
            &&& v[j].old_no is Some && (forall|k: int|
                0 <= k < j ==> (#[trigger] v[k]).kind == LineKind::Add) ==> v[j].old_no->0 == start
        }),
{
    let w = hunk_of(h).lines;
    let v = plain_lines(h);
    let (o, n) = range_starts(between_marks(words(h[0])));
    lemma_numbers(h.skip(1), o, n, i);
    lemma_numbers(h.skip(1), o, n, j);
    lemma_count_steps(v, i, j);
    lemma_count_steps(v, i, i + 1);
    lemma_count_steps(v, i + 1, j);
    lemma_count_steps(v, 0, i);
    lemma_count_steps(v, 0, j);
    assert(v.take(0) =~= seq![]);
    assert forall|k: int| 0 <= k < v.len() implies (#[trigger] v[k]).kind == w[k].kind && v[k].old_no
        == w[k].old_no by {}
}

/// A hunk starts where its header says: the numbers behind the signs of the two
/// ranges, up to their commas; the heading behind the second mark does not
/// matter.
pub proof fn law_header_gives_the_starts(
    ws: Seq<Seq<char>>,
    old_start: nat,
    new_start: nat,
    old_rest: Seq<char>,
    new_rest: Seq<char>,
)
    requires
        ws.len() >= 4,
        starts(ws[0], "@@"@),
        ws[1] == seq!['-'] + decimal(old_start) + old_rest,
        ws[2] == seq!['+'] + decimal(new_start) + new_rest,
        starts(ws[3], "@@"@),
        old_rest.len() == 0 || old_rest[0] == ',',
        new_rest.len() == 0 || new_rest[0] == ',',
        old_start <= usize::MAX,
        new_start <= usize::MAX,
    ensures
        range_starts(between_marks(ws)) == (old_start, new_start),
{
    reveal_strlit("@@");
    assert(!starts(ws[1], "@@"@)) by {
        if starts(ws[1], "@@"@) {
            assert(ws[1].take(2)[0] == '-');
        }
    }
    assert(!starts(ws[2], "@@"@)) by {
        if starts(ws[2], "@@"@) {
            assert(ws[2].take(2)[0] == '+');
        }
    }
    reveal_with_fuel(next_hunk, 4);
    assert(next_hunk(ws, 1) == 3);
    let m = between_marks(ws);
    assert(m =~= seq![ws[1], ws[2]]);
    assert(m.drop_last() =~= seq![ws[1]]);
    assert(m.drop_last().drop_last() =~= seq![]);
    assert(range_starts(m.drop_last().drop_last()) == (1nat, 1nat));
    assert(ws[1].skip(1) =~= decimal(old_start) + old_rest);
    assert(ws[2].skip(1) =~= decimal(new_start) + new_rest);
    lemma_range_start(ws[1], old_start, old_rest);
    lemma_range_start(ws[2], new_start, new_rest);
    reveal_with_fuel(range_starts, 3);
}

proof fn lemma_range_start(w: Seq<char>, n: nat, rest: Seq<char>)
    requires
        w.len() > 0,
        w.skip(1) == decimal(n) + rest,
        rest.len() == 0 || rest[0] == ',',
        n <= usize::MAX,
    ensures
        range_start(w.skip(1)) == n,
{
    let s = w.skip(1);
    let d = decimal(n);
    law_numbers_read_back(n);
    assert forall|k: int| 0 <= k < d.len() implies #[trigger] s[k] != ',' by {
        assert(s[k] == d[k]);
    }
    if rest.len() == 0 {
        assert(s =~= d);
        lemma_next_none(s, ',', 0);
    } else {
        assert(s[d.len() as int] == ',');
        lemma_next_is(s, ',', 0, d.len() as int);
    }
    assert(s.take(d.len() as int) =~= d);
}

/// The lines below a hunk header are kept in order, but for the note on a
/// missing line feed at the end of the file. A line is added, removed or context
/// by its mark, and its content is what follows the mark; a line without a mark
/// is context as it is.
pub proof fn law_hunks_keep_their_lines(h: Seq<Seq<char>>)
    requires
        h.len() > 0,
    ensures
        ({
            let body = h.skip(1).filter(|l: Seq<char>| l != "\\ No newline at end of file"@);
            let v = hunk_of(h).lines;
            &&& hunk_of(h).header == h[0]
            &&& v.len() == body.len()
            &&& forall|k: int|
                0 <= k < v.len() ==> {
                    let l = body[k];
                    let r = #[trigger] v[k];
                    ||| l == seq!['+'] + r.content && r.kind == LineKind::Add
                    ||| l == seq!['-'] + r.content && r.kind == LineKind::Remove
                    ||| l == seq![' '] + r.content && r.kind == LineKind::Context
                    ||| l == r.content && r.kind == LineKind::Context && (l.len() == 0 || l[0] != '+'
                        && l[0] != '-' && l[0] != ' ')
                }
        }),
{
    let (o, n) = range_starts(between_marks(words(h[0])));
    lemma_lines_kept(h.skip(1), o, n);
    let v = plain_lines(h);
    let w = hunk_of(h).lines;
    assert forall|k: int| 0 <= k < v.len() implies (#[trigger] w[k]).kind == v[k].kind && w[k].content
        == v[k].content by {}
}

/// Whether a line below a hunk header was read as it stands there.
spec fn read_as(l: Seq<char>, r: LineView) -> bool {
    ||| l == seq!['+'] + r.content && r.kind == LineKind::Add
    ||| l == seq!['-'] + r.content && r.kind == LineKind::Remove
    ||| l == seq![' '] + r.content && r.kind == LineKind::Context
    ||| l == r.content && r.kind == LineKind::Context && (l.len() == 0 || l[0] != '+' && l[0] != '-'
        && l[0] != ' ')
}

proof fn lemma_lines_kept(ls: Seq<Seq<char>>, o: nat, n: nat)
    ensures
        ({
            let body = ls.filter(|l: Seq<char>| l != "\\ No newline at end of file"@);
            let v = hunk_lines(ls, o, n);
            &&& v.len() == body.len()
            &&& forall|k: int| 0 <= k < v.len() ==> read_as(body[k], #[trigger] v[k])
        }),
    decreases ls.len(),
{
    reveal(Seq::filter);
    let keep = |l: Seq<char>| l != "\\ No newline at end of file"@;
    let body = ls.filter(keep);
    let v = hunk_lines(ls, o, n);
    if ls.len() > 0 {
        let d = ls.drop_last();
        lemma_lines_kept(d, o, n);
        let l = ls.last();
        if keep(l) {
            assert(body == d.filter(keep).push(l));
            let r = v.last();
            if l.len() > 0 {
                assert(l =~= seq![l[0]] + l.skip(1));
            }
            assert(read_as(l, r));
            assert forall|k: int| 0 <= k < v.len() implies read_as(body[k], #[trigger] v[k]) by {
                if k < v.len() - 1 {
                    assert(v[k] == hunk_lines(d, o, n)[k]);
                    assert(body[k] == d.filter(keep)[k]);
                }
            }
        } else {
            assert(body == d.filter(keep));
        }
    }
}

/// A section is its header lines and its hunks, in order: no line is lost, each
/// hunk starts with its `@@` line and goes up to the next.
pub proof fn law_sections_keep_their_hunks(b: Seq<Seq<char>>)
    requires
        b.len() > 0,
    ensures
        ({
            let hs = hunks_from(b, 1);
            let a = next_hunk(b, 1);
            &&& 1 <= a <= b.len()
            &&& file_of(b).hunks.len() == hs.len()
            &&& forall|k: int| 1 <= k < a ==> !starts(#[trigger] b[k], "@@"@)
            &&& hs.flatten() == b.skip(a)
            &&& forall|k: int| 0 <= k < hs.len() ==> file_of(b).hunks[k] == hunk_of(#[trigger] hs[k])
            &&& forall|k: int|
                0 <= k < hs.len() ==> (#[trigger] hs[k]).len() > 0 && starts(hs[k][0], "@@"@)
            &&& forall|k: int, j: int|
                0 <= k < hs.len() && 0 < j < hs[k].len() ==> !starts(#[trigger] hs[k][j], "@@"@)
        }),
{
    lemma_next_hunk_bounds(b, 1);
    lemma_hunks_flatten(b, 1);
}

proof fn lemma_next_hunk_bounds(b: Seq<Seq<char>>, i: int)
    requires
        0 <= i <= b.len(),
    ensures
        i <= next_hunk(b, i) <= b.len(),
        next_hunk(b, i) < b.len() ==> starts(b[next_hunk(b, i)], "@@"@),
        forall|k: int| i <= k < next_hunk(b, i) ==> !starts(#[trigger] b[k], "@@"@),
    decreases b.len() - i,
{
    if i < b.len() && !opens_hunk(b[i]) {
        lemma_next_hunk_bounds(b, i + 1);
    }
}

proof fn lemma_hunks_flatten(b: Seq<Seq<char>>, i: int)
    requires
        0 <= i <= b.len(),
    ensures
        ({
            let hs = hunks_from(b, i);
            &&& hs.flatten() == b.skip(next_hunk(b, i))
            &&& forall|k: int|
                0 <= k < hs.len() ==> (#[trigger] hs[k]).len() > 0 && starts(hs[k][0], "@@"@)
            &&& forall|k: int, j: int|
                0 <= k < hs.len() && 0 < j < hs[k].len() ==> !starts(#[trigger] hs[k][j], "@@"@)
        }),
    decreases b.len() - i,
{
    let a = next_hunk(b, i);
    let hs = hunks_from(b, i);
    lemma_next_hunk_bounds(b, i);
    if a < b.len() {
        let e = next_hunk(b, a + 1);
        lemma_next_hunk_bounds(b, a + 1);
        lemma_next_hunk_bounds(b, e);
        lemma_hunks_flatten(b, e);
        let rest = hunks_from(b, e);
        let one = b.subrange(a, e);
        assert(hs =~= seq![one] + rest);
        assert(hs.drop_first() =~= rest);
        assert(hs.flatten() =~= hs.first() + rest.flatten());
        assert(one + b.skip(e) =~= b.skip(a));
        assert forall|k: int| 0 <= k < hs.len() implies (#[trigger] hs[k]).len() > 0 && starts(
            hs[k][0],
            "@@"@,
        ) by {
            if k > 0 {
                assert(hs[k] == rest[k - 1]);
            }
        }
        assert forall|k: int, j: int| 0 <= k < hs.len() && 0 < j < hs[k].len() implies !starts(
            #[trigger] hs[k][j],
            "@@"@,
        ) by {
            if k > 0 {
                assert(hs[k] == rest[k - 1]);
                assert(!starts(rest[k - 1][j], "@@"@));
            } else {
                assert(hs[0][j] == b[a + j]);
            }
        }
    } else {
        assert(hs =~= seq![]);
        assert(hs.flatten() =~= seq![]);
        assert(b.skip(a) =~= seq![]);
    }
}

/// What one more header line says of a file, and that it says no more: its
/// paths, that it is new, deleted or renamed, or that it is binary.
pub proof fn law_header_lines(line: Seq<char>, hs: Seq<Seq<char>>, h: Seq<char>)
    ensures
        ({
            let f = file_head(line, hs);
            let g = file_head(line, hs.push(h));
            &&& starts(h, "--- "@) ==> g == (FileView {
                old_path: bare_path(trim(h.skip(4))),
                ..f
            })
            &&& starts(h, "+++ "@) ==> g == (FileView {
                new_path: bare_path(trim(h.skip(4))),
                ..f
            })
            &&& starts(h, "new file mode"@) ==> g == (FileView {
                notes: f.notes.push("new file"@),
                ..f
            })
            &&& starts(h, "deleted file mode"@) ==> g == (FileView {
                notes: f.notes.push("deleted"@),
                ..f
            })
            &&& starts(h, "rename from "@) ==> g == (FileView {
                notes: f.notes.push("renamed from "@ + h.skip(12)),
                ..f
            })
            &&& starts(h, "Binary files"@) ==> g == (FileView { is_binary: true, ..f })
            &&& starts(h, "old mode"@) ==> g.notes == f.notes.push(trim(h)) || g == (FileView {
                is_binary: true,
                ..f
            })
            &&& starts(h, "index "@) ==> g == f || g == (FileView { is_binary: true, ..f })
            &&& g.hunks == Seq::<HunkView>::empty()
        }),
{
    reveal_strlit("--- ");
    reveal_strlit("+++ ");
    reveal_strlit("new file mode");
    reveal_strlit("deleted file mode");
    reveal_strlit("rename from ");
    reveal_strlit("Binary files");
    reveal_strlit("old mode");
    reveal_strlit("new mode");
    reveal_strlit("index ");
    assert(hs.push(h).drop_last() =~= hs);
    lemma_head_has_no_hunks(line, hs);
    assert(starts(h, "--- "@) ==> h[0] == h.take(4)[0] && h[0] == '-');
    assert(starts(h, "+++ "@) ==> h[0] == h.take(4)[0] && h[0] == '+');
    assert(starts(h, "new file mode"@) ==> h[0] == h.take(13)[0] && h[4] == h.take(13)[4]);
    assert(starts(h, "deleted file mode"@) ==> h[0] == h.take(17)[0] && h[0] == 'd');
    assert(starts(h, "rename from "@) ==> h[0] == h.take(12)[0] && h[0] == 'r');
    assert(starts(h, "Binary files"@) ==> h[0] == h.take(12)[0] && h[0] == 'B');
    assert(starts(h, "old mode"@) ==> h[0] == h.take(8)[0] && h[0] == 'o');
    assert(starts(h, "new mode"@) ==> h[0] == h.take(8)[0] && h[4] == h.take(8)[4]);
    assert(starts(h, "index "@) ==> h[0] == h.take(6)[0] && h[0] == 'i');
}

proof fn lemma_head_has_no_hunks(line: Seq<char>, hs: Seq<Seq<char>>)
    ensures
        file_head(line, hs).hunks == Seq::<HunkView>::empty(),
    decreases hs.len(),
{
    if hs.len() > 0 {
        lemma_head_has_no_hunks(line, hs.drop_last());
    }
}

/// The prefix that git puts before a path goes, whichever of its own it is; any
/// other path stays.
pub proof fn law_git_prefixes_go(p: Seq<char>)
    ensures
        bare_path("a/"@ + p) == p,
        bare_path("b/"@ + p) == p,
        bare_path("i/"@ + p) == p,
        bare_path("w/"@ + p) == p,
        bare_path("c/"@ + p) == p,
        bare_path("o/"@ + p) == p,
        bare_path("/"@ + p) == "/"@ + p,
        p.len() < 2 || p[1] != '/' ==> bare_path(p) == p,
{
    reveal_strlit("a/");
    reveal_strlit("b/");
    reveal_strlit("i/");
    reveal_strlit("w/");
    reveal_strlit("c/");
    reveal_strlit("o/");
    reveal_strlit("/");
    assert(("a/"@ + p).skip(2) =~= p);
    assert(("b/"@ + p).skip(2) =~= p);
    assert(("i/"@ + p).skip(2) =~= p);
    assert(("w/"@ + p).skip(2) =~= p);
    assert(("c/"@ + p).skip(2) =~= p);
    assert(("o/"@ + p).skip(2) =~= p);
}

/// A `diff --git` line names the path before ` b/` and the one behind it,
/// without their prefixes.
pub proof fn law_header_names_both_paths(p: Seq<char>, q: Seq<char>)
    requires
        trim("a/"@ + p) == "a/"@ + p,
        trim("b/"@ + q) == "b/"@ + q,
        forall|i: int|
            0 <= i <= p.len() + 1 ==> (#[trigger] ("a/"@ + p + " b/"@ + q).subrange(i, i + 3))
                != " b/"@,
    ensures
        header_paths("diff --git a/"@ + p + " b/"@ + q) == Some((p, q)),
{
    reveal_strlit("diff --git a/");
    reveal_strlit("diff --git ");
    reveal_strlit("a/");
    reveal_strlit("b/");
    reveal_strlit(" b/");
    let line = "diff --git a/"@ + p + " b/"@ + q;
    let rest = "a/"@ + p + " b/"@ + q;
    let at = p.len() as int + 2;
    assert(line.take(11) =~= "diff --git "@);
    assert(line.skip(11) =~= rest);
    assert(rest.subrange(at, at + 3) =~= " b/"@);
    lemma_found(rest, " b/"@, 0, at);
    assert(rest.take(at) =~= "a/"@ + p);
    assert(rest.skip(at + 1) =~= "b/"@ + q);
    law_git_prefixes_go(p);
    law_git_prefixes_go(q);
}

proof fn lemma_found(s: Seq<char>, p: Seq<char>, i: int, at: int)
    requires
        0 <= i <= at,
        at + p.len() <= s.len(),
        s.subrange(at, at + p.len()) == p,
        forall|k: int| i <= k < at ==> #[trigger] s.subrange(k, k + p.len()) != p,
    ensures
        find_from(s, p, i) == Some(at),
    decreases at - i,
{
    if i < at {
        assert(s.subrange(i, i + p.len()) != p);
        lemma_found(s, p, i + 1, at);
    }
}

/// A file is shown under its new path, and a deleted one under its old path.
pub proof fn law_deleted_files_show_their_old_path(f: FileView)
    ensures
        f.new_path == "/dev/null"@ ==> display_path(f) == f.old_path,
        f.new_path.len() == 0 ==> display_path(f) == f.old_path,
        f.new_path.len() > 0 && f.new_path != "/dev/null"@ ==> display_path(f) == f.new_path,
{
}

/// An added line counts as an addition, a removed one as a deletion, and a line
/// of context as neither, in its hunk, its file and the totals.
pub proof fn law_changed_lines_count(
    fs: Seq<FileView>,
    f: FileView,
    h: HunkView,
    l: LineView,
)
    ensures
        ({
            let g = FileView {
                hunks: f.hunks.push(HunkView { lines: h.lines.push(l), ..h }),
                ..f
            };
            let k = FileView { hunks: f.hunks.push(h), ..f };
            let a = totals_of(fs.push(k));
            let b = totals_of(fs.push(g));
            &&& a.0 == fs.len() + 1
            &&& b.0 == a.0
            &&& b.1 == a.1 + if l.kind == LineKind::Add {
                1nat
            } else {
                0nat
            }
            &&& b.2 == a.2 + if l.kind == LineKind::Remove {
                1nat
            } else {
                0nat
            }
            &&& hunks_count(g.hunks, LineKind::Add) == hunks_count(k.hunks, LineKind::Add) + if l.kind
                == LineKind::Add {
                1nat
            } else {
                0nat
            }
        }),
{
    let long = HunkView { lines: h.lines.push(l), ..h };
    assert(h.lines.push(l).drop_last() =~= h.lines);
    assert(f.hunks.push(long).drop_last() =~= f.hunks);
    assert(f.hunks.push(h).drop_last() =~= f.hunks);
    let g = FileView { hunks: f.hunks.push(long), ..f };
    let k = FileView { hunks: f.hunks.push(h), ..f };
    assert(fs.push(g).drop_last() =~= fs);
    assert(fs.push(k).drop_last() =~= fs);
}

/// The section of a file opens with a line that starts with `diff --git`, a hunk
/// with one that starts with `@@`.
pub proof fn law_opening_lines(rest: Seq<char>, l: Seq<char>)
    ensures
        opens_file("diff --git"@ + rest),
        opens_hunk("@@"@ + rest),
        opens_file(l) ==> l.len() >= 10 && l.take(10) == "diff --git"@,
        opens_hunk(l) ==> l.len() >= 2 && l.take(2) == "@@"@,
{
    reveal_strlit("diff --git");
    reveal_strlit("@@");
    assert(("diff --git"@ + rest).take(10) == "diff --git"@);
    assert(("@@"@ + rest).take(2) == "@@"@);
}

proof fn lemma_front_is_kept(ls: Seq<Seq<char>>)
    ensures
        drop_blanks(ls).len() <= ls.len(),
        drop_blanks(ls) == ls.take(drop_blanks(ls).len() as int),
        forall|k: int| drop_blanks(ls).len() <= k < ls.len() ==> blank(#[trigger] ls[k]),
    decreases ls.len(),
{
    if ls.len() > 0 && blank(ls.last()) {
        let d = ls.drop_last();
        lemma_front_is_kept(d);
        let n = drop_blanks(d).len() as int;
        assert(d.take(n) == ls.take(n));
        assert forall|k: int| n <= k < ls.len() implies blank(#[trigger] ls[k]) by {
            if k < d.len() {
                assert(d[k] == ls[k]);
            }
        }
    } else {
        assert(ls.take(ls.len() as int) == ls);
    }
}

/// The preamble is what stands before the first section, line for line, up to
/// the blank lines at its end.
pub proof fn law_preamble_stands_before_the_sections(input: Seq<char>, k: int)
    ensures
        ({
            let ls = lines(input);
            let p = preamble_of(input);
            let end = next_file(ls, 0);
            &&& 0 <= k < p.len() - 1 ==> k < end && p[k] == ls[k]
            &&& p.len() > 0 && p.len() - 1 <= k < end ==> blank(ls[k])
            &&& p.len() == 0 && 0 <= k < end ==> blank(ls[k])
            &&& 0 <= k < end ==> !starts(ls[k], "diff --git"@)
            &&& end < ls.len() ==> starts(ls[end], "diff --git"@)
        }),
{
    let ls = lines(input);
    lemma_next_file(ls, 0);
    let head = ls.take(next_file(ls, 0));
    lemma_front_is_kept(head);
    let n = drop_blanks(head).len() as int;
    if 0 <= k < head.len() {
        assert(head[k] == ls[k]);
        if k < n {
            assert(head.take(n)[k] == ls[k]);
        }
    }
    lemma_before_the_first(ls, 0);
}

proof fn lemma_before_the_first(ls: Seq<Seq<char>>, i: int)
    requires
        0 <= i <= ls.len(),
    ensures
        i <= next_file(ls, i) <= ls.len(),
        forall|k: int| i <= k < next_file(ls, i) ==> !opens_file(#[trigger] ls[k]),
        next_file(ls, i) < ls.len() ==> opens_file(ls[next_file(ls, i)]),
    decreases ls.len() - i,
{
    if i < ls.len() && !opens_file(ls[i]) {
        lemma_before_the_first(ls, i + 1);
    }
}

proof fn lemma_not_found(s: Seq<char>, p: Seq<char>, i: int)
    requires
        0 <= i,
        forall|k: int| i <= k <= s.len() - p.len() ==> #[trigger] s.subrange(k, k + p.len()) != p,
    ensures
        find_from(s, p, i) is None,
    decreases s.len() + 1 - i,
{
    if i + p.len() <= s.len() {
        assert(s.subrange(i, i + p.len()) != p);
        lemma_not_found(s, p, i + 1);
    }
}

/// A `diff --git` line with mnemonic prefixes, the index before the working
/// tree, names both paths without them.
pub proof fn law_header_names_index_and_worktree(p: Seq<char>, q: Seq<char>)
    requires
        trim("i/"@ + p) == "i/"@ + p,
        trim("w/"@ + q) == "w/"@ + q,
        forall|k: int|
            0 <= k <= p.len() + 1 ==> (#[trigger] ("i/"@ + p + " w/"@ + q).subrange(k, k + 3))
                != " w/"@,
        forall|k: int|
            0 <= k <= p.len() + q.len() + 2 ==> (#[trigger] ("i/"@ + p + " w/"@ + q).subrange(
                k,
                k + 3,
            )) != " b/"@,
    ensures
        header_paths("diff --git i/"@ + p + " w/"@ + q) == Some((p, q)),
{
    reveal_strlit("diff --git i/");
    reveal_strlit("diff --git ");
    reveal_strlit("i/");
    reveal_strlit("w/");
    reveal_strlit(" w/");
    reveal_strlit(" b/");
    let line = "diff --git i/"@ + p + " w/"@ + q;
    let rest = "i/"@ + p + " w/"@ + q;
    let at = p.len() as int + 2;
    assert(line.take(11) =~= "diff --git "@);
    assert(line.skip(11) =~= rest);
    assert(rest.subrange(at, at + 3) =~= " w/"@);
    lemma_not_found(rest, " b/"@, 0);
    lemma_found(rest, " w/"@, 0, at);
    assert(rest.take(at) =~= "i/"@ + p);
    assert(rest.skip(at + 1) =~= "w/"@ + q);
    law_git_prefixes_go(p);
    law_git_prefixes_go(q);
}

/// Each line of a hunk has a number in every file that it stands in and in no
/// other; the first line in a file has the number that the header gives for it.
pub proof fn law_first_lines_have_the_starts(h: Seq<Seq<char>>, i: int)
    requires
        0 <= i < hunk_of(h).lines.len(),
    ensures
        ({
            let v = hunk_of(h).lines;
            let (old_start, new_start) = range_starts(between_marks(words(h[0])));
            &&& v[i].old_no is None <==> v[i].kind == LineKind::Add
            &&& v[i].new_no is None <==> v[i].kind == LineKind::Remove
            &&& v[i].kind != LineKind::Add && (forall|k: int|
                0 <= k < i ==> (#[trigger] v[k]).kind == LineKind::Add) ==> v[i].old_no == Some(
                old_start,
            )
            &&& v[i].kind != LineKind::Remove && (forall|k: int|
                0 <= k < i ==> (#[trigger] v[k]).kind == LineKind::Remove) ==> v[i].new_no == Some(
                new_start,
            )
        }),
{
    let w = hunk_of(h).lines;
    let v = plain_lines(h);
    let (o, n) = range_starts(between_marks(words(h[0])));
    lemma_numbers(h.skip(1), o, n, i);
    lemma_count_steps(v, 0, i);
    assert(v.take(0) =~= seq![]);
    assert forall|k: int| 0 <= k < v.len() implies (#[trigger] v[k]).kind == w[k].kind by {}
    assert(w[i].old_no == v[i].old_no && w[i].new_no == v[i].new_no);
}

} // verus!
