//! What is put on the screen.

use vstd::prelude::*;

use crate::color::{Attrs, Color, Style};
#[allow(unused_imports)]
use crate::rows::blanks;
use crate::text::{decimal_of, string_of};
#[allow(unused_imports)]
use crate::text::decimal;

verus! {

/// One step of painting a frame.
#[derive(Debug, Clone)]
pub enum Op {
    /// Writes a text in a row, from a column on.
    Put { x: usize, y: usize, text: String, style: Style },
    /// Gives the cells of a row from `x0` up to `x1` a style.
    Restyle { y: usize, x0: usize, x1: usize, style: Style },
    /// Reverses the cells of a row from `x0` up to `x1`.
    Reverse { y: usize, x0: usize, x1: usize },
    /// Writes a glyph in a color over the background that a cell shows.
    Over { x: usize, y: usize, glyph: char, fg: Color },
}

/// The content of an [`Op`].
pub enum OpView {
    Put { x: nat, y: nat, text: Seq<char>, style: Style },
    Restyle { y: nat, x0: nat, x1: nat, style: Style },
    Reverse { y: nat, x0: nat, x1: nat },
    Over { x: nat, y: nat, glyph: char, fg: Color },
}

impl View for Op {
    type V = OpView;

    open spec fn view(&self) -> OpView {
        match *self {
            Op::Put { x, y, text, style } => OpView::Put {
                x: x as nat,
                y: y as nat,
                text: text@,
                style,
            },
            Op::Restyle { y, x0, x1, style } => OpView::Restyle {
                y: y as nat,
                x0: x0 as nat,
                x1: x1 as nat,
                style,
            },
            Op::Reverse { y, x0, x1 } => OpView::Reverse {
                y: y as nat,
                x0: x0 as nat,
                x1: x1 as nat,
            },
            Op::Over { x, y, glyph, fg } => OpView::Over { x: x as nat, y: y as nat, glyph, fg },
        }
    }
}

/// The content of a list of steps.
pub open spec fn op_views(s: Seq<Op>) -> Seq<OpView> {
    s.map_values(|o: Op| o@)
}

/// Writing a text.
pub open spec fn put(x: nat, y: nat, text: Seq<char>, style: Style) -> OpView {
    OpView::Put { x, y, text, style }
}

/// Steps to be done, in order.
#[derive(Debug, Clone)]
pub struct Canvas {
    pub ops: Vec<Op>,
}

impl View for Canvas {
    type V = Seq<OpView>;

    open spec fn view(&self) -> Seq<OpView> {
        op_views(self.ops@)
    }
}

impl Canvas {
    /// Nothing is to be done.
    pub fn new() -> (r: Canvas)
        ensures
            r@ == Seq::<OpView>::empty(),
    {
        let r = Canvas { ops: Vec::new() };
        assert(r@ =~= Seq::<OpView>::empty());
        r
    }

    /// Adds a step.
    pub fn push(&mut self, op: Op)
        ensures
            final(self)@ == old(self)@.push(op@),
    {
        self.ops.push(op);
        assert(self@ =~= old(self)@.push(op@));
    }

    /// Writes a text.
    pub fn put(&mut self, x: usize, y: usize, text: String, style: Style)
        ensures
            final(self)@ == old(self)@.push(put(x as nat, y as nat, text@, style)),
    {
        self.push(Op::Put { x, y, text, style });
    }

    /// Adds steps.
    pub fn extend(&mut self, other: Canvas)
        ensures
            final(self)@ == old(self)@ + other@,
    {
        let mut ops = other.ops;
        self.ops.append(&mut ops);
        assert(self@ =~= old(self)@ + other@);
    }
}

/// A style in bold.
pub open spec fn bold(s: Style) -> Style {
    Style { attrs: Attrs { bold: true, ..s.attrs }, ..s }
}

/// A faint style.
pub open spec fn faint(s: Style) -> Style {
    Style { attrs: Attrs { faint: true, ..s.attrs }, ..s }
}

/// A style on a background, if any.
pub open spec fn on(s: Style, bg: Option<Color>) -> Style {
    match bg {
        Some(_) => Style { bg, ..s },
        None => s,
    }
}

/// A style on the background of its row, unless it has its own.
pub open spec fn washed(s: Style, bg: Option<Color>) -> Style {
    if s.bg is None {
        on(s, bg)
    } else {
        s
    }
}

/// A style in bold.
pub fn in_bold(s: Style) -> (r: Style)
    ensures
        r == bold(s),
{
    Style { attrs: Attrs { bold: true, ..s.attrs }, ..s }
}

/// A faint style.
pub fn in_faint(s: Style) -> (r: Style)
    ensures
        r == faint(s),
{
    Style { attrs: Attrs { faint: true, ..s.attrs }, ..s }
}

/// A style on a background, if any.
pub fn put_on(s: Style, bg: Option<Color>) -> (r: Style)
    ensures
        r == on(s, bg),
{
    match bg {
        Some(_) => Style { bg, ..s },
        None => s,
    }
}

/// A style on the background of its row, unless it has its own.
pub fn wash(s: Style, bg: Option<Color>) -> (r: Style)
    ensures
        r == washed(s, bg),
{
    if s.bg.is_none() {
        put_on(s, bg)
    } else {
        s
    }
}

/// A character over and over.
pub open spec fn repeated(c: char, n: nat) -> Seq<char> {
    Seq::new(n, |i: int| c)
}

/// A character over and over.
pub fn repeat(c: char, n: usize) -> (r: String)
    ensures
        r@ == repeated(c, n as nat),
{
    let mut out: Vec<char> = Vec::new();
    let mut i: usize = 0;
    while i < n
        invariant
            i <= n,
            out@ == repeated(c, i as nat),
        decreases n - i,
    {
        out.push(c);
        i += 1;
        assert(out@ =~= repeated(c, i as nat));
    }
    assert(out@ =~= repeated(c, n as nat));
    string_of(&out)
}

/// A text with blanks before it, to fill `n` characters.
pub open spec fn right_aligned(s: Seq<char>, n: nat) -> Seq<char> {
    if s.len() < n {
        blanks((n - s.len()) as nat) + s
    } else {
        s
    }
}

/// A number, or nothing, with blanks before it to fill `n` characters.
pub open spec fn aligned_number(no: Option<usize>, n: nat) -> Seq<char> {
    right_aligned(
        match no {
            Some(k) => decimal(k as nat),
            None => seq![],
        },
        n,
    )
}

/// Writes a number, or nothing, with blanks before it to fill `n` characters.
pub fn align_number(no: Option<usize>, n: usize) -> (r: String)
    ensures
        r@ == aligned_number(no, n as nat),
{
    let digits: Vec<char> = match no {
        Some(k) => decimal_of(k),
        None => Vec::new(),
    };
    assert(digits@ =~= match no {
        Some(k) => decimal(k as nat),
        None => seq![],
    });
    let mut out: Vec<char> = Vec::new();
    let missing = if digits.len() < n {
        n - digits.len()
    } else {
        0
    };
    let mut i: usize = 0;
    while i < missing
        invariant
            i <= missing,
            out@ == blanks(i as nat),
        decreases missing - i,
    {
        out.push(' ');
        i += 1;
        assert(out@ =~= blanks(i as nat));
    }
    let mut tail = digits;
    let ghost before = out@;
    out.append(&mut tail);
    assert(out@ =~= aligned_number(no, n as nat));
    string_of(&out)
}

/// Writes a number.
pub fn write_number(n: usize) -> (r: String)
    ensures
        r@ == decimal(n as nat),
{
    string_of(&decimal_of(n))
}

/// Joins two texts.
pub fn join(a: &str, b: &str) -> (r: String)
    ensures
        r@ == a@ + b@,
{
    let mut out = a.to_string();
    out.append(b);
    out
}

/// A number is written at the right of its columns, with blanks before it; no
/// number leaves them blank.
pub proof fn law_numbers_stand_at_the_right(k: usize, n: nat, i: int)
    ensures
        ({
            let t = aligned_number(Some(k), n);
            let d = decimal(k as nat);
            &&& d.len() <= n ==> t.len() == n && t.subrange(n - d.len(), n as int) == d
            &&& 0 <= i < n - d.len() ==> t[i] == ' '
            &&& d.len() > n ==> t == d
        }),
        aligned_number(None, n).len() == n,
        0 <= i < n ==> aligned_number(None, n)[i] == ' ',
{
    let t = aligned_number(Some(k), n);
    let d = decimal(k as nat);
    if d.len() < n {
        assert((blanks((n - d.len()) as nat) + d).subrange(n - d.len(), n as int) == d);
    } else if d.len() == n {
        assert(d.subrange(0, n as int) == d);
    }
    assert(blanks(n) + Seq::<char>::empty() == blanks(n));
}

/// Bold and faint switch on what they name, and a background goes under a style:
/// one for a whole row only where the style has none of its own.
pub proof fn law_styles_change_what_they_name(s: Style, bg: Color)
    ensures
        bold(s) == (Style { attrs: Attrs { bold: true, ..s.attrs }, ..s }),
        faint(s) == (Style { attrs: Attrs { faint: true, ..s.attrs }, ..s }),
        on(s, Some(bg)) == (Style { bg: Some(bg), ..s }),
        on(s, None) == s,
        s.bg is None ==> washed(s, Some(bg)) == (Style { bg: Some(bg), ..s }),
        s.bg is Some ==> washed(s, Some(bg)) == s,
        washed(s, None) == s,
{
}

} // verus!
