//! Text as sequences of characters: the small vocabulary of string operations
//! that the rest of the library is specified over.

use vstd::prelude::*;
use vstd::slice::{slice_subrange, slice_to_vec};

verus! {

/// `String::push` appends one character at the end of the string.
pub assume_specification[ String::push ](s: &mut String, ch: char)
    ensures
        final(s)@ == old(s)@.push(ch),
;

/// The characters of each line of a list of lines.
pub open spec fn texts(v: Seq<Vec<char>>) -> Seq<Seq<char>> {
    Seq::new(v.len(), |i: int| v[i]@)
}

/// The characters of each string of a list of strings.
pub open spec fn strings(v: Seq<String>) -> Seq<Seq<char>> {
    Seq::new(v.len(), |i: int| v[i]@)
}

/// Collects the characters of a string.
pub fn chars_of(s: &str) -> (r: Vec<char>)
    ensures
        r@ == s@,
{
    let mut out: Vec<char> = Vec::new();
    for c in it: s.chars()
        invariant
            it.seq() == s@,
            out@ == s@.take(it.index()),
    {
        out.push(c);
    }
    out
}

/// Builds a string out of characters.
pub fn string_of(cs: &[char]) -> (r: String)
    ensures
        r@ == cs@,
{
    let mut out = String::new();
    let mut i: usize = 0;
    while i < cs.len()
        invariant
            i <= cs.len(),
            out@ == cs@.take(i as int),
        decreases cs.len() - i,
    {
        out.push(cs[i]);
        i += 1;
        assert(cs@.take(i as int) == cs@.take(i - 1).push(cs@[i - 1]));
    }
    assert(cs@.take(cs@.len() as int) == cs@);
    out
}

/// Whether two strings hold the same characters.
pub fn same(a: &str, b: &str) -> (r: bool)
    ensures
        r == (a@ == b@),
{
    let x = a.to_string();
    let y = b.to_string();
    x == y
}


/// Characters with the Unicode White_Space property.
pub open spec fn is_space(c: char) -> bool {
    let u = c as u32;
    ||| 0x09 <= u <= 0x0d
    ||| u == 0x20 || u == 0x85 || u == 0xa0 || u == 0x1680
    ||| 0x2000 <= u <= 0x200a
    ||| u == 0x2028 || u == 0x2029 || u == 0x202f || u == 0x205f || u == 0x3000
}

/// Whether `c` is white space.
pub fn space(c: char) -> (r: bool)
    ensures
        r == is_space(c),
{
    let u: u32 = c as u32;
    (0x09 <= u && u <= 0x0d) || u == 0x20 || u == 0x85 || u == 0xa0 || u == 0x1680 || (0x2000 <= u
        && u <= 0x200a) || u == 0x2028 || u == 0x2029 || u == 0x202f || u == 0x205f || u == 0x3000
}

/// Control characters: the Unicode general category Cc.
pub open spec fn is_control(c: char) -> bool {
    c as u32 <= 0x1f || 0x7f <= c as u32 <= 0x9f
}

/// Whether `c` is a control character.
pub fn control(c: char) -> (r: bool)
    ensures
        r == is_control(c),
{
    let u: u32 = c as u32;
    u <= 0x1f || (0x7f <= u && u <= 0x9f)
}

/// The first index at or after `i` that holds no white space.
pub open spec fn skip_spaces(s: Seq<char>, i: int) -> int
    decreases s.len() - i,
{
    if 0 <= i < s.len() && is_space(s[i]) {
        skip_spaces(s, i + 1)
    } else {
        i
    }
}

/// The first index at or after `i` that holds white space or ends the text.
pub open spec fn skip_word(s: Seq<char>, i: int) -> int
    decreases s.len() - i,
{
    if 0 <= i < s.len() && !is_space(s[i]) {
        skip_word(s, i + 1)
    } else {
        i
    }
}

/// The end of `s[lo..j]` once trailing white space is dropped.
pub open spec fn drop_spaces(s: Seq<char>, lo: int, j: int) -> int
    decreases j,
{
    if 0 <= lo < j <= s.len() && is_space(s[j - 1]) {
        drop_spaces(s, lo, j - 1)
    } else {
        j
    }
}

pub proof fn lemma_skip_spaces(s: Seq<char>, i: int)
    requires
        0 <= i <= s.len(),
    ensures
        i <= skip_spaces(s, i) <= s.len(),
        skip_spaces(s, i) < s.len() ==> !is_space(s[skip_spaces(s, i)]),
        forall|k: int| i <= k < skip_spaces(s, i) ==> is_space(#[trigger] s[k]),
    decreases s.len() - i,
{
    if i < s.len() && is_space(s[i]) {
        lemma_skip_spaces(s, i + 1);
    }
}

pub proof fn lemma_skip_word(s: Seq<char>, i: int)
    requires
        0 <= i <= s.len(),
    ensures
        i <= skip_word(s, i) <= s.len(),
        skip_word(s, i) < s.len() ==> is_space(s[skip_word(s, i)]),
        forall|k: int| i <= k < skip_word(s, i) ==> !is_space(#[trigger] s[k]),
    decreases s.len() - i,
{
    if i < s.len() && !is_space(s[i]) {
        lemma_skip_word(s, i + 1);
    }
}

pub proof fn lemma_drop_spaces(s: Seq<char>, lo: int, j: int)
    requires
        0 <= lo <= j <= s.len(),
    ensures
        lo <= drop_spaces(s, lo, j) <= j,
        drop_spaces(s, lo, j) > lo ==> !is_space(s[drop_spaces(s, lo, j) - 1]),
        forall|k: int| drop_spaces(s, lo, j) <= k < j ==> is_space(#[trigger] s[k]),
    decreases j,
{
    if lo < j && is_space(s[j - 1]) {
        lemma_drop_spaces(s, lo, j - 1);
    }
}

/// `s` without leading and trailing white space.
pub open spec fn trim(s: Seq<char>) -> Seq<char> {
    let a = skip_spaces(s, 0);
    s.subrange(a, drop_spaces(s, a, s.len() as int))
}

/// The maximal runs of non-white-space of `s` from index `i` on, in order.
pub open spec fn words_from(s: Seq<char>, i: int) -> Seq<Seq<char>>
    decreases s.len() - i,
{
    let a = skip_spaces(s, i);
    let e = skip_word(s, a);
    if 0 <= i <= a < e <= s.len() {
        seq![s.subrange(a, e)] + words_from(s, e)
    } else {
        seq![]
    }
}

/// The white-space separated words of `s`.
pub open spec fn words(s: Seq<char>) -> Seq<Seq<char>> {
    words_from(s, 0)
}

/// Trims white space off both ends.
pub fn trimmed(cs: &[char]) -> (r: &[char])
    ensures
        r@ == trim(cs@),
{
    let mut a: usize = 0;
    proof {
        lemma_skip_spaces(cs@, 0);
    }
    while a < cs.len() && space(cs[a])
        invariant
            a <= cs.len(),
            skip_spaces(cs@, 0) == skip_spaces(cs@, a as int),
        decreases cs.len() - a,
    {
        a += 1;
    }
    let mut b: usize = cs.len();
    while a < b && space(cs[b - 1])
        invariant
            a <= b <= cs.len(),
            drop_spaces(cs@, a as int, cs@.len() as int) == drop_spaces(cs@, a as int, b as int),
        decreases b,
    {
        b -= 1;
    }
    slice_subrange(cs, a, b)
}

/// Splits at white space.
pub fn split_whitespace(cs: &[char]) -> (r: Vec<Vec<char>>)
    ensures
        texts(r@) == words(cs@),
{
    let mut out: Vec<Vec<char>> = Vec::new();
    let mut i: usize = 0;
    let ghost all = words(cs@);
    assert(texts(out@) + words_from(cs@, 0) == all);
    loop
        invariant
            i <= cs.len(),
            texts(out@) + words_from(cs@, i as int) == all,
            all == words(cs@),
        decreases cs.len() - i,
    {
        let mut a: usize = i;
        while a < cs.len() && space(cs[a])
            invariant
                i <= a <= cs.len(),
                skip_spaces(cs@, i as int) == skip_spaces(cs@, a as int),
            decreases cs.len() - a,
        {
            a += 1;
        }
        if a == cs.len() {
            assert(words_from(cs@, i as int) =~= seq![]);
            assert(texts(out@) =~= all);
            return out;
        }
        let mut e: usize = a;
        while e < cs.len() && !space(cs[e])
            invariant
                a <= e <= cs.len(),
                skip_word(cs@, a as int) == skip_word(cs@, e as int),
            decreases cs.len() - e,
        {
            e += 1;
        }
        proof {
            lemma_skip_word(cs@, a as int + 1);
        }
        let ghost before = texts(out@);
        out.push(slice_to_vec(slice_subrange(cs, a, e)));
        assert(texts(out@) =~= before.push(cs@.subrange(a as int, e as int)));
        assert(texts(out@) + words_from(cs@, e as int) =~= before + words_from(cs@, i as int));
        i = e;
    }
}

/// Whether `s` begins with `p`.
pub open spec fn starts(s: Seq<char>, p: Seq<char>) -> bool {
    p.len() <= s.len() && s.take(p.len() as int) == p
}

/// Whether the text begins with `p`.
pub fn begins(cs: &[char], p: &str) -> (r: bool)
    ensures
        r == starts(cs@, p@),
{
    let ps = chars_of(p);
    if ps.len() > cs.len() {
        return false;
    }
    let r = matches_at(cs, &ps, 0);
    assert(cs@.subrange(0, ps@.len() as int) == cs@.take(ps@.len() as int));
    r
}

/// Whether `p` occurs at index `at`.
fn matches_at(cs: &[char], p: &[char], at: usize) -> (r: bool)
    requires
        at + p.len() <= cs.len(),
    ensures
        r == (cs@.subrange(at as int, at + p@.len()) == p@),
{
    let mut k: usize = 0;
    while k < p.len()
        invariant
            k <= p.len(),
            at + p.len() <= cs.len(),
            forall|j: int| 0 <= j < k ==> cs@[at + j] == #[trigger] p@[j],
        decreases p.len() - k,
    {
        if cs[at + k] != p[k] {
            assert(cs@.subrange(at as int, at + p@.len())[k as int] != p@[k as int]);
            return false;
        }
        k += 1;
    }
    assert(cs@.subrange(at as int, at + p@.len()) =~= p@);
    true
}

/// What follows the prefix `p`, when `s` begins with it.
pub open spec fn after_prefix(s: Seq<char>, p: Seq<char>) -> Option<Seq<char>> {
    if starts(s, p) {
        Some(s.skip(p.len() as int))
    } else {
        None
    }
}

/// What follows the prefix `p`.
pub fn strip<'a>(cs: &'a [char], p: &str) -> (r: Option<&'a [char]>)
    ensures
        r is Some == after_prefix(cs@, p@) is Some,
        r matches Some(rest) ==> Some(rest@) == after_prefix(cs@, p@),
{
    if begins(cs, p) {
        let n = chars_of(p).len();
        let rest = slice_subrange(cs, n, cs.len());
        assert(rest@ =~= cs@.skip(n as int));
        Some(rest)
    } else {
        None
    }
}

/// The first index at or after `i` where `p` occurs in `s`.
pub open spec fn find_from(s: Seq<char>, p: Seq<char>, i: int) -> Option<int>
    decreases s.len() + 1 - i,
{
    if i < 0 || i + p.len() > s.len() {
        None
    } else if s.subrange(i, i + p.len()) == p {
        Some(i)
    } else {
        find_from(s, p, i + 1)
    }
}

/// The first index where `p` occurs in `s`.
pub fn find(cs: &[char], p: &str) -> (r: Option<usize>)
    ensures
        r is Some == find_from(cs@, p@, 0) is Some,
        r matches Some(i) ==> Some(i as int) == find_from(cs@, p@, 0) && i + p@.len() <= cs@.len(),
{
    let ps = chars_of(p);
    if ps.len() > cs.len() {
        return None;
    }
    let last = cs.len() - ps.len();
    let mut i: usize = 0;
    while i <= last
        invariant
            last == cs.len() - ps.len(),
            ps@ == p@,
            i <= last + 1,
            find_from(cs@, p@, 0) == find_from(cs@, p@, i as int),
        decreases last + 1 - i,
    {
        if matches_at(cs, &ps, i) {
            return Some(i);
        }
        if i == last {
            assert(find_from(cs@, p@, i + 1) is None);
            return None;
        }
        i += 1;
    }
    None
}

/// The ASCII lower-case form of a character.
pub open spec fn lower_char(c: char) -> char {
    if 'A' <= c <= 'Z' {
        ((c as u8) + 32) as char
    } else {
        c
    }
}

/// `s` with its ASCII letters in lower case.
pub open spec fn lower(s: Seq<char>) -> Seq<char> {
    s.map_values(|c: char| lower_char(c))
}

/// Puts ASCII letters in lower case.
pub fn lowered(cs: &[char]) -> (r: Vec<char>)
    ensures
        r@ == lower(cs@),
{
    let mut out: Vec<char> = Vec::new();
    let mut i: usize = 0;
    while i < cs.len()
        invariant
            i <= cs.len(),
            out@ == lower(cs@.take(i as int)),
        decreases cs.len() - i,
    {
        let c = cs[i];
        if 'A' <= c && c <= 'Z' {
            out.push(((c as u8) + 32) as char);
        } else {
            out.push(c);
        }
        i += 1;
        assert(out@ =~= lower(cs@.take(i as int)));
    }
    assert(cs@.take(cs@.len() as int) == cs@);
    out
}

/// Whether the text holds exactly the characters of `p`.
pub fn is_text(cs: &[char], p: &str) -> (r: bool)
    ensures
        r == (cs@ == p@),
{
    let ps = chars_of(p);
    if ps.len() != cs.len() {
        return false;
    }
    let r = matches_at(cs, &ps, 0);
    assert(cs@.subrange(0, ps@.len() as int) == cs@);
    r
}

/// The first index at or after `i` that holds `c`, or the length.
pub open spec fn next(s: Seq<char>, c: char, i: int) -> int
    decreases s.len() - i,
{
    if 0 <= i < s.len() && s[i] != c {
        next(s, c, i + 1)
    } else {
        i
    }
}

pub proof fn lemma_next(s: Seq<char>, c: char, i: int)
    requires
        0 <= i <= s.len(),
    ensures
        i <= next(s, c, i) <= s.len(),
        next(s, c, i) < s.len() ==> s[next(s, c, i)] == c,
        forall|k: int| i <= k < next(s, c, i) ==> #[trigger] s[k] != c,
    decreases s.len() - i,
{
    if i < s.len() && s[i] != c {
        lemma_next(s, c, i + 1);
    }
}

/// The first index at or after `i` that holds `c`, or the length.
pub fn next_at(cs: &[char], c: char, i: usize) -> (r: usize)
    requires
        i <= cs.len(),
    ensures
        r == next(cs@, c, i as int),
        i <= r <= cs.len(),
{
    let mut k: usize = i;
    while k < cs.len() && cs[k] != c
        invariant
            i <= k <= cs.len(),
            next(cs@, c, i as int) == next(cs@, c, k as int),
        decreases cs.len() - k,
    {
        k += 1;
    }
    k
}

/// `s` without one trailing carriage return.
pub open spec fn chomp(s: Seq<char>) -> Seq<char> {
    if s.len() > 0 && s.last() == '\r' {
        s.drop_last()
    } else {
        s
    }
}

/// How long the first line of a text is, with its line feed.
pub open spec fn first_line(s: Seq<char>) -> int {
    let e = next(s, '\n', 0);
    if e < s.len() {
        e + 1
    } else {
        s.len() as int
    }
}

/// The lines of a text as they stand there. A line goes up to and with its line
/// feed, or to the end of the text when something is left there.
pub open spec fn raw_lines(s: Seq<char>) -> Seq<Seq<char>>
    decreases s.len(),
{
    let n = first_line(s);
    if 0 < n <= s.len() {
        seq![s.take(n)] + raw_lines(s.skip(n))
    } else {
        seq![]
    }
}

/// A line without its end, which is "\n" or "\r\n".
pub open spec fn bare(l: Seq<char>) -> Seq<char> {
    if l.len() > 0 && l.last() == '\n' {
        chomp(l.drop_last())
    } else {
        l
    }
}

/// Lines without their ends.
pub open spec fn bares(ls: Seq<Seq<char>>) -> Seq<Seq<char>> {
    ls.map_values(|l: Seq<char>| bare(l))
}

/// The lines of `s`, without their ends.
pub open spec fn lines(s: Seq<char>) -> Seq<Seq<char>> {
    bares(raw_lines(s))
}

/// Looking from `i` on is looking at what is left there.
pub proof fn lemma_next_skip(s: Seq<char>, c: char, i: int, k: int)
    requires
        0 <= i <= s.len(),
        0 <= k,
    ensures
        next(s.skip(i), c, k) + i == next(s, c, i + k),
    decreases s.len() - i - k,
{
    if i + k < s.len() && s[i + k] != c {
        lemma_next_skip(s, c, i, k + 1);
    }
}

/// Splits a text into its lines as they stand there.
pub fn raw_lines_of(cs: &[char]) -> (r: Vec<Vec<char>>)
    ensures
        texts(r@) == raw_lines(cs@),
{
    let mut out: Vec<Vec<char>> = Vec::new();
    let mut i: usize = 0;
    let ghost all = raw_lines(cs@);
    assert(cs@.skip(0) =~= cs@);
    assert(texts(out@) + raw_lines(cs@.skip(0)) =~= all);
    while i < cs.len()
        invariant
            i <= cs.len(),
            texts(out@) + raw_lines(cs@.skip(i as int)) == all,
            all == raw_lines(cs@),
        decreases cs.len() - i,
    {
        let e = next_at(cs, '\n', i);
        let to: usize = if e < cs.len() {
            e + 1
        } else {
            e
        };
        let line = slice_to_vec(slice_subrange(cs, i, to));
        let ghost rest = cs@.skip(i as int);
        let ghost before = texts(out@);
        proof {
            lemma_next_skip(cs@, '\n', i as int, 0);
            assert(first_line(rest) == to - i);
            assert(rest.take(to - i) =~= line@);
            assert(rest.skip(to - i) =~= cs@.skip(to as int));
        }
        out.push(line);
        assert(texts(out@) =~= before.push(line@));
        assert(texts(out@) + raw_lines(cs@.skip(to as int)) =~= before + raw_lines(rest));
        i = to;
    }
    assert(raw_lines(cs@.skip(i as int)) =~= seq![]);
    assert(texts(out@) =~= all);
    out
}

/// A line without its end.
pub fn bare_of(l: &[char]) -> (r: &[char])
    ensures
        r@ == bare(l@),
        r@.len() <= l@.len(),
{
    let mut n: usize = l.len();
    if n > 0 && l[n - 1] == '\n' {
        n -= 1;
        if n > 0 && l[n - 1] == '\r' {
            n -= 1;
        }
    }
    let r = slice_subrange(l, 0, n);
    assert(r@ =~= bare(l@));
    r
}

/// Splits a text into its lines, without their ends.
pub fn lines_of(cs: &[char]) -> (r: Vec<Vec<char>>)
    ensures
        texts(r@) == lines(cs@),
{
    let raw = raw_lines_of(cs);
    let mut out: Vec<Vec<char>> = Vec::new();
    let mut i: usize = 0;
    assert(texts(out@) =~= lines(cs@).take(0));
    while i < raw.len()
        invariant
            i <= raw.len(),
            texts(raw@) == raw_lines(cs@),
            texts(out@) == lines(cs@).take(i as int),
        decreases raw.len() - i,
    {
        let line = slice_to_vec(bare_of(&raw[i]));
        let ghost before = texts(out@);
        out.push(line);
        assert(texts(raw@)[i as int] == raw@[i as int]@);
        assert(texts(out@) =~= before.push(line@));
        assert(lines(cs@).take(i + 1) =~= before.push(line@));
        i += 1;
    }
    assert(lines(cs@).take(lines(cs@).len() as int) =~= lines(cs@));
    out
}

/// The value of a digit in bases up to sixteen.
pub open spec fn digit(c: char) -> Option<nat> {
    if '0' <= c <= '9' {
        Some((c as u32 - '0' as u32) as nat)
    } else if 'a' <= c <= 'f' {
        Some((c as u32 - 'a' as u32 + 10) as nat)
    } else if 'A' <= c <= 'F' {
        Some((c as u32 - 'A' as u32 + 10) as nat)
    } else {
        None
    }
}

/// The number that the digits of `s` write in base `radix`, where all of them
/// are digits of that base.
pub open spec fn digits_value(s: Seq<char>, radix: nat) -> Option<nat>
    decreases s.len(),
{
    if s.len() == 0 {
        Some(0)
    } else {
        match (digits_value(s.drop_last(), radix), digit(s.last())) {
            (Some(v), Some(d)) => if d < radix {
                Some(v * radix + d)
            } else {
                None
            },
            _ => None,
        }
    }
}

/// What an unsigned number of at most `max` is read as: one or more digits
/// behind an optional plus sign.
pub open spec fn number(s: Seq<char>, radix: nat, max: nat) -> Option<nat> {
    let d = if s.len() > 0 && s[0] == '+' {
        s.skip(1)
    } else {
        s
    };
    if d.len() == 0 {
        None
    } else {
        match digits_value(d, radix) {
            Some(v) => if v <= max {
                Some(v)
            } else {
                None
            },
            None => None,
        }
    }
}

/// A number only grows as digits follow.
proof fn lemma_digits_value(s: Seq<char>, k: int, radix: nat)
    requires
        0 <= k <= s.len(),
        radix >= 1,
        digits_value(s, radix) is Some,
    ensures
        digits_value(s.take(k), radix) is Some,
        digits_value(s.take(k), radix)->0 <= digits_value(s, radix)->0,
    decreases s.len() - k,
{
    if k == s.len() {
        assert(s.take(k) == s);
    } else {
        lemma_digits_value(s, k + 1, radix);
        let t = s.take(k + 1);
        assert(t.drop_last() == s.take(k));
        let v = digits_value(s.take(k), radix)->0;
        assert(v <= v * radix) by (nonlinear_arith)
            requires
                v >= 0,
                radix >= 1,
        ;
    }
}

/// Reads an unsigned number of at most `max`.
pub fn parse_number(cs: &[char], radix: u32, max: usize) -> (r: Option<usize>)
    requires
        2 <= radix <= 16,
    ensures
        r is Some == number(cs@, radix as nat, max as nat) is Some,
        r matches Some(v) ==> Some(v as nat) == number(cs@, radix as nat, max as nat),
{
    let start: usize = if cs.len() > 0 && cs[0] == '+' {
        1
    } else {
        0
    };
    let d = slice_subrange(cs, start, cs.len());
    assert(d@ == if cs@.len() > 0 && cs@[0] == '+' {
        cs@.skip(1)
    } else {
        cs@
    });
    if d.len() == 0 {
        return None;
    }
    let mut v: usize = 0;
    let mut i: usize = 0;
    while i < d.len()
        invariant
            i <= d.len(),
            2 <= radix <= 16,
            v <= max,
            digits_value(d@.take(i as int), radix as nat) == Some(v as nat),
            d.len() > 0,
            d@ == if cs@.len() > 0 && cs@[0] == '+' {
                cs@.skip(1)
            } else {
                cs@
            },
        decreases d.len() - i,
    {
        let c = d[i];
        let ghost t = d@.take(i + 1);
        assert(t.drop_last() == d@.take(i as int));
        let x: u32 = if '0' <= c && c <= '9' {
            c as u32 - '0' as u32
        } else if 'a' <= c && c <= 'f' {
            c as u32 - 'a' as u32 + 10
        } else if 'A' <= c && c <= 'F' {
            c as u32 - 'A' as u32 + 10
        } else {
            16
        };
        let bad = x >= radix;
        assert(v * radix <= v * 16) by (nonlinear_arith)
            requires
                radix <= 16,
                v >= 0,
        ;
        let sum: u128 = (v as u128) * (radix as u128) + (x as u128);
        if bad || sum > max as u128 {
            proof {
                if digits_value(d@, radix as nat) is Some {
                    lemma_digits_value(d@, i + 1, radix as nat);
                }
            }
            return None;
        }
        v = sum as usize;
        i += 1;
    }
    assert(d@.take(d@.len() as int) == d@);
    Some(v)
}

/// The digit character of a value below ten.
pub open spec fn digit_char(d: nat) -> char {
    (48 + d) as char
}

/// `n` in base ten.
pub open spec fn decimal(n: nat) -> Seq<char>
    decreases n,
{
    if n < 10 {
        seq![digit_char(n)]
    } else {
        decimal(n / 10).push(digit_char(n % 10))
    }
}

/// A number reads back as it is written: it has a digit, nothing but digits, and
/// they write it.
pub proof fn law_numbers_read_back(n: nat)
    ensures
        decimal(n).len() > 0,
        forall|k: int| 0 <= k < decimal(n).len() ==> '0' <= #[trigger] decimal(n)[k] <= '9',
        digits_value(decimal(n), 10) == Some(n),
        forall|max: nat| n <= max ==> #[trigger] number(decimal(n), 10, max) == Some(n),
    decreases n,
{
    let d = decimal(n);
    if n < 10 {
        assert(d.drop_last() =~= seq![]);
        assert(digits_value(d.drop_last(), 10) == Some(0nat));
    } else {
        law_numbers_read_back(n / 10);
        assert(d.drop_last() =~= decimal(n / 10));
        assert forall|k: int| 0 <= k < d.len() implies '0' <= #[trigger] d[k] <= '9' by {
            if k < d.len() - 1 {
                assert(d[k] == decimal(n / 10)[k]);
            }
        }
        assert(d.last() == digit_char(n % 10));
        assert(digit(d.last()) == Some(n % 10));
    }
}

/// Writes `n` in base ten.
pub fn decimal_of(n: usize) -> (r: Vec<char>)
    ensures
        r@ == decimal(n as nat),
    decreases n,
{
    let mut out: Vec<char> = Vec::new();
    if n >= 10 {
        out = decimal_of(n / 10);
    }
    let d: u8 = (n % 10) as u8;
    out.push((48 + d) as char);
    assert(out@ =~= decimal(n as nat));
    out
}

/// How many bytes a character takes in UTF-8.
pub open spec fn utf8_len(c: char) -> nat {
    if c as u32 <= 0x7f {
        1
    } else if c as u32 <= 0x7ff {
        2
    } else if c as u32 <= 0xffff {
        3
    } else {
        4
    }
}

/// How many bytes a text takes in UTF-8.
pub open spec fn byte_len(s: Seq<char>) -> nat
    decreases s.len(),
{
    if s.len() == 0 {
        0
    } else {
        byte_len(s.drop_last()) + utf8_len(s.last())
    }
}

/// How many bytes a character takes in UTF-8.
pub fn char_bytes(c: char) -> (r: usize)
    ensures
        r == utf8_len(c),
        1 <= r <= 4,
{
    let u: u32 = c as u32;
    if u <= 0x7f {
        1
    } else if u <= 0x7ff {
        2
    } else if u <= 0xffff {
        3
    } else {
        4
    }
}

/// Blanks, tabs and the ends of lines are white space; printable ASCII
/// characters are not.
pub proof fn law_white_space(c: char)
    ensures
        c == ' ' || c == '\t' || c == '\n' || c == '\r' ==> is_space(c),
        '!' <= c <= '~' ==> !is_space(c),
        c == '\t' || c == '\n' || c == '\r' || c == '\u{1b}' ==> is_control(c),
        ' ' <= c <= '~' ==> !is_control(c),
{
}

/// Trimming takes off the white space on both sides, and nothing else.
pub proof fn law_trimming_takes_off_white_space(pre: Seq<char>, core: Seq<char>, post: Seq<char>)
    requires
        forall|i: int| 0 <= i < pre.len() ==> is_space(#[trigger] pre[i]),
        forall|i: int| 0 <= i < post.len() ==> is_space(#[trigger] post[i]),
        core.len() > 0 ==> !is_space(core[0]) && !is_space(core.last()),
    ensures
        trim(pre + core + post) == core,
{
    let s = pre + core + post;
    let n = s.len() as int;
    lemma_skip_spaces(s, 0);
    let a = skip_spaces(s, 0);
    lemma_drop_spaces(s, a, n);
    let e = drop_spaces(s, a, n);
    let p = pre.len() as int;
    let q = p + core.len();
    if core.len() > 0 {
        assert(s[p] == core[0]);
        assert(s[q - 1] == core.last());
        assert(a <= p) by {
            if a > p {
                assert(is_space(s[p]));
            }
        }
        assert(a >= p) by {
            if a < p {
                assert(s[a] == pre[a]);
            }
        }
        assert(e >= q) by {
            if e < q {
                assert(is_space(s[q - 1]));
            }
        }
        assert(e <= q) by {
            if e > q {
                assert(s[e - 1] == post[e - 1 - q]);
            }
        }
        assert(s.subrange(p, q) =~= core);
    } else {
        assert(a == n) by {
            if a < n {
                assert(is_space(s[a])) by {
                    if a < p {
                        assert(s[a] == pre[a]);
                    } else {
                        assert(s[a] == post[a - p]);
                    }
                }
            }
        }
        assert(s.subrange(a, e) =~= core);
    }
}

/// A word goes up to the white space behind it, the words go on behind that, and
/// white space before a word does not count.
pub proof fn law_words_are_told_apart(w: Seq<char>, c: char, rest: Seq<char>)
    requires
        w.len() > 0,
        forall|i: int| 0 <= i < w.len() ==> !is_space(#[trigger] w[i]),
        is_space(c),
    ensures
        words(w) == seq![w],
        words(w + seq![c] + rest) == seq![w] + words(rest),
        words(seq![c] + rest) == words(rest),
        words(Seq::empty()) == Seq::<Seq<char>>::empty(),
{
    let n = w.len() as int;
    lemma_skip_word(w, 0);
    assert(skip_word(w, 0) == n);
    assert(skip_spaces(w, 0) == 0);
    assert(w.subrange(0, n) =~= w);
    assert(words_from(w, n) =~= seq![]);
    assert(words(w) =~= seq![w]);
    let s = w + seq![c] + rest;
    lemma_skip_word(s, 0);
    let e = skip_word(s, 0);
    assert(s[n] == c);
    assert(e == n) by {
        if e < n {
            assert(s[e] == w[e]);
        } else if e > n {
            assert(is_space(s[n]));
        }
    }
    assert(s[0] == w[0]);
    assert(skip_spaces(s, 0) == 0);
    assert(s.subrange(0, n) =~= w);
    assert(skip_spaces(s, n) == skip_spaces(s, n + 1));
    assert(s.skip(n + 1) =~= rest);
    lemma_words_shift(s, n + 1, rest);
    lemma_words_start(s, n);
    let t = seq![c] + rest;
    assert(t[0] == c);
    assert(skip_spaces(t, 0) == skip_spaces(t, 1));
    assert(t.skip(1) =~= rest);
    lemma_words_shift(t, 1, rest);
    lemma_words_start(t, 0);
    assert(words(s) =~= seq![w] + words(rest));
    assert(words_from(Seq::<char>::empty(), 0) =~= seq![]);
}

/// Words found from white space on are those found behind it.
proof fn lemma_words_start(s: Seq<char>, i: int)
    requires
        0 <= i < s.len(),
        is_space(s[i]),
    ensures
        words_from(s, i) == words_from(s, i + 1),
{
    lemma_skip_spaces(s, i);
    lemma_skip_spaces(s, i + 1);
    assert(skip_spaces(s, i) == skip_spaces(s, i + 1));
}

/// Words found from `i` on are those of what is left there.
proof fn lemma_words_shift(s: Seq<char>, i: int, rest: Seq<char>)
    requires
        0 <= i <= s.len(),
        s.skip(i) == rest,
    ensures
        words_from(s, i) == words(rest),
{
    lemma_words_shifted(s, i, 0);
}

proof fn lemma_words_shifted(s: Seq<char>, i: int, k: int)
    requires
        0 <= i <= s.len(),
        0 <= k <= s.len() - i,
    ensures
        words_from(s, i + k) == words_from(s.skip(i), k),
    decreases s.len() - i - k,
{
    let t = s.skip(i);
    lemma_spaces_shifted(s, i, k);
    lemma_skip_spaces(t, k);
    let a = skip_spaces(t, k);
    lemma_word_shifted(s, i, a);
    lemma_skip_word(t, a);
    let e = skip_word(t, a);
    if a < e {
        assert(s.subrange(i + a, i + e) =~= t.subrange(a, e));
        lemma_words_shifted(s, i, e);
    }
}

proof fn lemma_spaces_shifted(s: Seq<char>, i: int, k: int)
    requires
        0 <= i <= s.len(),
        0 <= k,
    ensures
        skip_spaces(s, i + k) == i + skip_spaces(s.skip(i), k),
    decreases s.len() - i - k,
{
    if i + k < s.len() && is_space(s[i + k]) {
        lemma_spaces_shifted(s, i, k + 1);
    }
}

proof fn lemma_word_shifted(s: Seq<char>, i: int, k: int)
    requires
        0 <= i <= s.len(),
        0 <= k,
    ensures
        skip_word(s, i + k) == i + skip_word(s.skip(i), k),
    decreases s.len() - i - k,
{
    if i + k < s.len() && !is_space(s[i + k]) {
        lemma_word_shifted(s, i, k + 1);
    }
}

/// Capital letters become small, and nothing else changes.
pub proof fn law_lower_case(s: Seq<char>, i: int)
    requires
        0 <= i < s.len(),
    ensures
        lower(s).len() == s.len(),
        'A' <= s[i] <= 'Z' ==> lower(s)[i] as int == s[i] as int + ('a' as int - 'A' as int),
        !('A' <= s[i] <= 'Z') ==> lower(s)[i] == s[i],
        lower(lower(s)) == lower(s),
{
    assert(lower(lower(s)) =~= lower(s));
}

/// A line is read without its line feed, and without the one carriage return
/// that may stand before that; nothing else is taken off.
pub proof fn law_line_ends(l: Seq<char>)
    ensures
        l.len() == 0 || l.last() != '\n' ==> bare(l) == l,
        l.len() == 0 || l.last() != '\r' ==> bare(l.push('\n')) == l,
        bare(l.push('\r').push('\n')) == l,
{
    assert(l.push('\n').drop_last() =~= l);
    assert(l.push('\r').push('\n').drop_last() =~= l.push('\r'));
    assert(l.push('\r').drop_last() =~= l);
}

/// Digits count from zero to nine and, in letters of either case, on to fifteen.
pub proof fn law_digits(c: char)
    ensures
        '0' <= c <= '9' ==> digit(c) == Some((c as int - '0' as int) as nat),
        'a' <= c <= 'f' ==> digit(c) == Some((c as int - 'a' as int + 10) as nat),
        'A' <= c <= 'F' ==> digit(c) == Some((c as int - 'A' as int + 10) as nat),
        digit(c) is Some ==> digit(c)->0 < 16,
        digit('0') == Some(0nat) && digit('9') == Some(9nat),
        digit('a') == Some(10nat) && digit('F') == Some(15nat),
{
}

/// One more digit multiplies by the base and adds.
pub proof fn law_digits_add_up(s: Seq<char>, c: char, radix: nat)
    ensures
        digits_value(s, radix) is Some && digit(c) is Some && digit(c)->0 < radix ==> digits_value(
            s.push(c),
            radix,
        ) == Some(digits_value(s, radix)->0 * radix + digit(c)->0),
        digit(c) is None ==> digits_value(s.push(c), radix) is None,
        digits_value(Seq::empty(), radix) == Some(0nat),
{
    assert(s.push(c).drop_last() =~= s);
}

} // verus!
