//! Reading a piped diff line by line, so each file can be shown as soon as its
//! section is complete.

use vstd::prelude::*;
use vstd::slice::slice_subrange;

use crate::diff::{try_parse, FileDiff};
#[allow(unused_imports)]
use crate::diff::{
    blocks, blocks_from, concat, file_views, files_of, lemma_concat, lemma_next_file, next_file,
    numbers_fit, opens_file, sections_of,
};
#[allow(unused_imports)]
use crate::diff_laws::{lemma_block_shape, lemma_lines_of_concat, whole};
use crate::outside::strip_escapes;
#[allow(unused_imports)]
use crate::outside::without_escapes;
#[allow(unused_imports)]
use crate::text::bare;
use crate::text::{bare_of, begins, chars_of, string_of};

verus! {

/// The section that is being read.
#[derive(Debug)]
pub struct Stream {
    pub block: String,
}

/// The sections that are complete once the lines `ls`, each with its end, were
/// read, and the text of the one that is not.
pub open spec fn streamed(ls: Seq<Seq<char>>) -> (Seq<Seq<char>>, Seq<char>)
    decreases ls.len(),
{
    if ls.len() == 0 {
        (seq![], seq![])
    } else {
        let (done, open) = streamed(ls.drop_last());
        let l = ls.last();
        if opens_file(l) && open.len() > 0 {
            (done.push(open), l)
        } else {
            (done, open + l)
        }
    }
}

/// A line without its escape sequences. Its end stays as it is.
pub open spec fn plain(line: Seq<char>) -> Seq<char> {
    without_escapes(bare(line)) + line.skip(bare(line).len() as int)
}

impl Stream {
    /// Nothing read yet.
    pub fn new() -> (r: Stream)
        ensures
            r.block@ == streamed(seq![]).1,
    {
        let r = Stream { block: String::new() };
        assert(r.block@ =~= seq![]);
        r
    }

    /// Reads one line of plain text with its end. Returns the section that it
    /// completes, if it opens the next one.
    pub fn feed_plain(&mut self, line: &str) -> (r: Option<String>)
        ensures
            if opens_file(line@) && old(self).block@.len() > 0 {
                r is Some && r->0@ == old(self).block@ && final(self).block@ == line@
            } else {
                r is None && final(self).block@ == old(self).block@ + line@
            },
    {
        if begins(&chars_of(line), "diff --git") && self.block.as_str().unicode_len() > 0 {
            let done = self.block.clone();
            self.block = line.to_string();
            Some(done)
        } else {
            self.block.append(line);
            None
        }
    }

    /// Reads one line as it was piped, with its end. Git colorizes diffs it pipes
    /// to a pager; its codes, which never span lines, are stripped first.
    pub fn feed(&mut self, line: &str) -> (r: Option<String>)
        ensures
            if opens_file(plain(line@)) && old(self).block@.len() > 0 {
                r is Some && r->0@ == old(self).block@ && final(self).block@ == plain(line@)
            } else {
                r is None && final(self).block@ == old(self).block@ + plain(line@)
            },
    {
        let cs = chars_of(line);
        let content = bare_of(&cs);
        let end = slice_subrange(cs.as_slice(), content.len(), cs.len());
        assert(end@ =~= line@.skip(bare(line@).len() as int));
        let mut text = strip_escapes(&string_of(content));
        text.append(&string_of(end));
        self.feed_plain(&text)
    }
}

/// The file of a section: none for text before the first one. There is no
/// result where a line number does not fit the machine.
pub fn section_file(block: &str) -> (r: Option<Option<FileDiff>>)
    ensures
        r is Some == numbers_fit(block@),
        r matches Some(f) ==> match f {
            Some(file) => files_of(block@).len() > 0 && file@ == files_of(block@)[0],
            None => files_of(block@).len() == 0,
        },
{
    match try_parse(block) {
        None => None,
        Some(mut files) => {
            let ghost all = file_views(files@);
            if files.len() == 0 {
                Some(None)
            } else {
                let first = files.remove(0);
                assert(first@ == all[0]);
                Some(Some(first))
            }
        },
    }
}

/// The first section start found in lines and one more.
proof fn lemma_next_file_push(ls: Seq<Seq<char>>, l: Seq<char>, i: int)
    requires
        0 <= i <= ls.len(),
    ensures
        next_file(ls.push(l), i) == if next_file(ls, i) < ls.len() || opens_file(l) {
            next_file(ls, i)
        } else {
            ls.len() as int + 1
        },
    decreases ls.len() - i,
{
    let t = ls.push(l);
    if i < ls.len() {
        assert(t[i] == ls[i]);
        if !opens_file(ls[i]) {
            lemma_next_file_push(ls, l, i + 1);
        }
    } else {
        assert(t[i] == l);
        if !opens_file(l) {
            assert(next_file(t, i + 1) == i + 1);
        }
    }
}

/// One more line opens a section of its own, or goes to the last section if
/// there is one.
proof fn lemma_blocks_push(ls: Seq<Seq<char>>, l: Seq<char>, i: int)
    requires
        0 <= i <= ls.len(),
    ensures
        ({
            let b = blocks_from(ls, i);
            blocks_from(ls.push(l), i) == if opens_file(l) {
                b.push(seq![l])
            } else if b.len() > 0 {
                b.drop_last().push(b.last().push(l))
            } else {
                seq![]
            }
        }),
    decreases ls.len() - i,
{
    let t = ls.push(l);
    let n = ls.len() as int;
    let a = next_file(ls, i);
    lemma_next_file(ls, i);
    lemma_next_file_push(ls, l, i);
    let b = blocks_from(ls, i);
    if a < n {
        let e = next_file(ls, a + 1);
        lemma_next_file(ls, a + 1);
        lemma_next_file_push(ls, l, a + 1);
        let rest = blocks_from(ls, e);
        if e < n {
            lemma_next_file(ls, e);
            lemma_next_file(ls, e + 1);
            lemma_blocks_push(ls, l, e);
            assert(t.subrange(a, e) =~= ls.subrange(a, e));
            assert(b =~= seq![ls.subrange(a, e)] + rest);
            assert(rest.len() > 0);
            if opens_file(l) {
                assert(blocks_from(t, i) =~= b.push(seq![l]));
            } else {
                assert(blocks_from(t, i) =~= b.drop_last().push(b.last().push(l)));
            }
        } else {
            assert(rest =~= seq![]);
            assert(b =~= seq![ls.subrange(a, n)]);
            if opens_file(l) {
                assert(next_file(t, n + 1) == n + 1);
                assert(blocks_from(t, n + 1) =~= seq![]);
                assert(t.subrange(n, n + 1) =~= seq![l]);
                assert(next_file(t, n) == n);
                assert(blocks_from(t, n) =~= seq![seq![l]]);
                assert(t.subrange(a, n) =~= ls.subrange(a, n));
                assert(blocks_from(t, i) =~= b.push(seq![l]));
            } else {
                assert(blocks_from(t, n + 1) =~= seq![]);
                assert(t.subrange(a, n + 1) =~= ls.subrange(a, n).push(l));
                assert(blocks_from(t, i) =~= seq![ls.subrange(a, n).push(l)]);
            }
        }
    } else {
        assert(b =~= seq![]);
        if opens_file(l) {
            assert(next_file(t, n + 1) == n + 1);
            assert(blocks_from(t, n + 1) =~= seq![]);
            assert(t.subrange(n, n + 1) =~= seq![l]);
            assert(blocks_from(t, i) =~= seq![seq![l]]);
        } else {
            assert(blocks_from(t, i) =~= seq![]);
        }
    }
}

/// The text of each section.
pub open spec fn texts_of(bs: Seq<Seq<Seq<char>>>) -> Seq<Seq<char>> {
    bs.map_values(|b: Seq<Seq<char>>| concat(b))
}

/// Reading the lines of a diff one by one yields its sections, in order, behind
/// the text before the first one where there is any.
pub proof fn law_streaming_yields_the_sections(ls: Seq<Seq<char>>)
    requires
        whole(ls),
    ensures
        ({
            let (done, open) = streamed(ls);
            let p = next_file(ls, 0);
            let sections = sections_of(concat(ls));
            &&& p == ls.len() ==> done == Seq::<Seq<char>>::empty() && open == concat(ls)
            &&& p == 0 && ls.len() > 0 ==> done.push(open) == sections
            &&& 0 < p < ls.len() ==> done.push(open) == seq![concat(ls.take(p))] + sections
        }),
{
    lemma_lines_of_concat(ls);
    lemma_streamed(ls);
}

proof fn lemma_streamed(ls: Seq<Seq<char>>)
    requires
        forall|k: int| 0 <= k < ls.len() ==> (#[trigger] ls[k]).len() > 0,
    ensures
        ({
            let (done, open) = streamed(ls);
            let p = next_file(ls, 0);
            &&& p == ls.len() ==> done == Seq::<Seq<char>>::empty() && open == concat(ls)
            &&& p == 0 && ls.len() > 0 ==> done.push(open) == texts_of(blocks(ls))
            &&& 0 < p < ls.len() ==> done.push(open) == seq![concat(ls.take(p))] + texts_of(
                blocks(ls),
            )
        }),
    decreases ls.len(),
{
    if ls.len() > 0 {
        let d = ls.drop_last();
        let l = ls.last();
        assert forall|k: int| 0 <= k < d.len() implies (#[trigger] d[k]).len() > 0 by {
            assert(d[k] == ls[k]);
        }
        lemma_streamed(d);
        assert(ls =~= d.push(l));
        lemma_next_file(d, 0);
        lemma_next_file_push(d, l, 0);
        lemma_blocks_push(d, l, 0);
        let (done, open) = streamed(d);
        let p = next_file(d, 0);
        let (done2, open2) = streamed(ls);
        let all = texts_of(blocks(ls));
        assert(seq![l].drop_last() =~= seq![]);
        assert(concat(seq![l].drop_last()) =~= seq![]);
        assert(concat(seq![l]) =~= l);
        if p < d.len() {
            let b = blocks(d);
            lemma_blocks_start_with_file(d);
            assert(b.len() > 0);
            let head = if p == 0 {
                seq![]
            } else {
                seq![concat(d.take(p))]
            };
            assert(ls.take(p) =~= d.take(p));
            assert(done.push(open) =~= head + texts_of(b));
            assert(open == (head + texts_of(b)).last());
            assert(open == concat(b.last()));
            lemma_block_text(d);
            if opens_file(l) {
                assert(all =~= texts_of(b).push(l));
                assert(done2.push(open2) =~= head + all);
            } else {
                let last = b.last().push(l);
                assert(last.drop_last() =~= b.last());
                assert(concat(last) =~= open + l);
                assert(all =~= texts_of(b).drop_last().push(concat(last)));
                assert(done2 == done);
                assert(done =~= (head + texts_of(b)).drop_last());
                assert(done2.push(open2) =~= head + all);
            }
        } else {
            assert(blocks(d) =~= seq![]) by {
                lemma_no_blocks(d);
            }
            if opens_file(l) {
                assert(all =~= seq![l]);
                if d.len() == 0 {
                    assert(open =~= seq![]);
                    assert(done2.push(open2) =~= all);
                } else {
                    assert(open.len() > 0) by {
                        assert(concat(d) == concat(d.drop_last()) + d.last());
                    }
                    assert(ls.take(p) =~= d);
                    assert(done2.push(open2) =~= seq![concat(d)] + all);
                }
            } else {
                assert(open2 =~= concat(ls));
            }
        }
    }
}

proof fn lemma_blocks_start_with_file(ls: Seq<Seq<char>>)
    requires
        next_file(ls, 0) < ls.len(),
    ensures
        blocks(ls).len() > 0,
{
    lemma_next_file(ls, 0);
    lemma_next_file(ls, next_file(ls, 0) + 1);
}

proof fn lemma_no_blocks(ls: Seq<Seq<char>>)
    requires
        next_file(ls, 0) >= ls.len(),
    ensures
        blocks(ls) == Seq::<Seq<Seq<char>>>::empty(),
{
}

/// The text of the last section is not empty.
proof fn lemma_block_text(ls: Seq<Seq<char>>)
    requires
        blocks(ls).len() > 0,
    ensures
        concat(blocks(ls).last()).len() > 0,
{
    let k = blocks(ls).len() - 1;
    lemma_block_shape(ls, 0, k);
    let b = blocks(ls)[k];
    reveal_strlit("diff --git");
    let rest = b.skip(1);
    assert(b =~= seq![b[0]] + rest);
    lemma_concat(seq![b[0]], rest);
    assert(concat(seq![b[0]].drop_last()) =~= seq![]);
    assert(concat(seq![b[0]]) =~= b[0]);
}

/// A line that is freed of its escape sequences keeps its end: a line feed, one
/// behind a carriage return, or none.
pub proof fn law_plain_lines_keep_their_end(l: Seq<char>)
    requires
        l.len() == 0 || l.last() != '\r' && l.last() != '\n',
    ensures
        plain(l) == without_escapes(l),
        plain(l.push('\n')) == without_escapes(l).push('\n'),
        plain(l.push('\r').push('\n')) == without_escapes(l).push('\r').push('\n'),
{
    let f = l.push('\n');
    let c = l.push('\r').push('\n');
    assert(f.drop_last() == l);
    assert(c.drop_last() == l.push('\r'));
    assert(l.push('\r').drop_last() == l);
    assert(bare(l) == l && bare(f) == l && bare(c) == l);
    assert(l.skip(l.len() as int) == Seq::<char>::empty());
    assert(f.skip(l.len() as int) == seq!['\n']);
    assert(c.skip(l.len() as int) == seq!['\r', '\n']);
    assert(plain(l) == without_escapes(l));
    assert(plain(f) == without_escapes(l).push('\n'));
    assert(plain(c) == without_escapes(l).push('\r').push('\n'));
}

} // verus!
