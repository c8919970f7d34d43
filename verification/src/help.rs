//! The quick-help entries and the grid that they are laid out in.

use vstd::prelude::*;

use crate::cells::width;
#[allow(unused_imports)]
use crate::cells::text_width;
use crate::outside::Measure;
use crate::text::same;

verus! {

/// A key and what it does.
pub type HelpEntry = (&'static str, &'static str);

/// All quick-help entries.
pub open spec fn all_help() -> Seq<HelpEntry> {
    seq![
        ("j/k ↑/↓", "move"),
        ("h/l ←/→", "scroll x"),
        ("0/$", "line start/end"),
        ("d/u", "half page"),
        ("f/b", "full page"),
        ("^e/^y", "scroll one line"),
        ("g/G", "top/bottom"),
        ("H/M/L", "screen top/mid/low"),
        ("{ }", "prev/next hunk"),
        ("[ ]", "prev/next file"),
        ("tab", "cycle files"),
        ("/", "search"),
        ("n/N", "next/prev match"),
        ("s", "split view"),
        ("F", "files"),
        ("B", "sidebar"),
        ("w", "watch on/off"),
        ("a", "untracked on/off"),
        ("enter", "expand context"),
        ("v", "edit in $EDITOR"),
        ("y", "copy line/selection"),
        ("V", "select lines"),
        ("Y", "copy file diff"),
        ("r", "refresh"),
        ("?", "toggle help"),
        ("q", "quit"),
    ]
}

/// Whether an entry needs a repository to act on.
pub open spec fn needs_repo(e: HelpEntry) -> bool {
    e.0@ == "w"@ || e.0@ == "a"@ || e.0@ == "enter"@ || e.0@ == "r"@
}

/// The entries `es` that apply: all of them, or, for a piped diff, those that
/// need no repository.
pub open spec fn applicable(es: Seq<HelpEntry>, piped: bool) -> Seq<HelpEntry>
    decreases es.len(),
{
    if es.len() == 0 {
        seq![]
    } else if piped && needs_repo(es.last()) {
        applicable(es.drop_last(), piped)
    } else {
        applicable(es.drop_last(), piped).push(es.last())
    }
}

/// The quick-help entries that are shown.
pub open spec fn help_of(piped: bool) -> Seq<HelpEntry> {
    applicable(all_help(), piped)
}

/// The quick-help entries shown in the expandable footer grid. In pager
/// mode (a static piped diff) the repo-driven affordances are inert, so
/// they're dropped to keep the help honest.
pub fn help_entries(piped: bool) -> (r: Vec<HelpEntry>)
    ensures
        r@ == help_of(piped),
        r@.len() > 0,
{
    let all: Vec<HelpEntry> = vec![
        ("j/k ↑/↓", "move"),
        ("h/l ←/→", "scroll x"),
        ("0/$", "line start/end"),
        ("d/u", "half page"),
        ("f/b", "full page"),
        ("^e/^y", "scroll one line"),
        ("g/G", "top/bottom"),
        ("H/M/L", "screen top/mid/low"),
        ("{ }", "prev/next hunk"),
        ("[ ]", "prev/next file"),
        ("tab", "cycle files"),
        ("/", "search"),
        ("n/N", "next/prev match"),
        ("s", "split view"),
        ("F", "files"),
        ("B", "sidebar"),
        ("w", "watch on/off"),
        ("a", "untracked on/off"),
        ("enter", "expand context"),
        ("v", "edit in $EDITOR"),
        ("y", "copy line/selection"),
        ("V", "select lines"),
        ("Y", "copy file diff"),
        ("r", "refresh"),
        ("?", "toggle help"),
        ("q", "quit"),
    ];
    assert(all@ =~= all_help());
    let mut out: Vec<HelpEntry> = Vec::new();
    let mut i: usize = 0;
    while i < all.len()
        invariant
            i <= all.len(),
            all@ == all_help(),
            out@ == applicable(all_help().take(i as int), piped),
        decreases all.len() - i,
    {
        let e = all[i];
        assert(all_help().take(i + 1).drop_last() =~= all_help().take(i as int));
        if !(piped && (same(e.0, "w") || same(e.0, "a") || same(e.0, "enter") || same(e.0, "r"))) {
            out.push(e);
        }
        i += 1;
    }
    assert(all_help().take(all_help().len() as int) =~= all_help());
    proof {
        lemma_help_is_not_empty(piped);
    }
    out
}

/// The entry for quitting always applies.
pub proof fn lemma_help_is_not_empty(piped: bool)
    ensures
        help_of(piped).len() > 0,
{
    reveal_strlit("q");
    reveal_strlit("w");
    reveal_strlit("a");
    reveal_strlit("r");
    reveal_strlit("enter");
    assert(all_help().last() == ("q", "quit"));
    assert("q"@[0] == 'q');
    assert("w"@[0] == 'w');
    assert("a"@[0] == 'a');
    assert("r"@[0] == 'r');
}

/// The widest key of the entries.
pub open spec fn key_width(es: Seq<HelpEntry>, m: Measure) -> nat
    decreases es.len(),
{
    if es.len() == 0 {
        0
    } else {
        let v = key_width(es.drop_last(), m);
        let w = text_width(es.last().0@, m);
        if w > v {
            w
        } else {
            v
        }
    }
}

/// The widest description of the entries.
pub open spec fn description_width(es: Seq<HelpEntry>, m: Measure) -> nat
    decreases es.len(),
{
    if es.len() == 0 {
        0
    } else {
        let v = description_width(es.drop_last(), m);
        let w = text_width(es.last().1@, m);
        if w > v {
            w
        } else {
            v
        }
    }
}

/// The geometry of the help grid.
#[derive(Debug, Clone, Copy, PartialEq, Eq, Structural)]
pub struct HelpGrid {
    pub cols: usize,
    pub rows: usize,
    pub cell_w: usize,
    pub key_w: usize,
}

/// The columns of one entry: the widest key, two, the widest description, and
/// three more.
#[verifier::opaque]
pub open spec fn help_cell_width(piped: bool, m: Measure) -> nat {
    key_width(help_of(piped), m) + 2 + description_width(help_of(piped), m) + 3
}

/// How many columns of entries fit the screen: at least one, at most one for
/// each entry.
#[verifier::opaque]
pub open spec fn help_columns(piped: bool, screen_w: nat, m: Measure) -> nat {
    let room = if screen_w > 0 {
        (screen_w - 1) as nat
    } else {
        0
    };
    let fit = room / help_cell_width(piped, m);
    if fit < 1 {
        1
    } else if fit > help_of(piped).len() {
        help_of(piped).len()
    } else {
        fit
    }
}

/// How many rows the entries take in that many columns.
#[verifier::opaque]
pub open spec fn help_rows(piped: bool, screen_w: nat, m: Measure) -> nat {
    let n = help_of(piped).len();
    let c = help_columns(piped, screen_w, m);
    ((n + c - 1) / c as int) as nat
}

/// The help grid on a screen.
pub open spec fn help_grid_of(piped: bool, screen_w: nat, m: Measure) -> HelpGrid {
    HelpGrid {
        cols: help_columns(piped, screen_w, m) as usize,
        rows: help_rows(piped, screen_w, m) as usize,
        cell_w: help_cell_width(piped, m) as usize,
        key_w: key_width(help_of(piped), m) as usize,
    }
}

/// Grid geometry for the help footer. Packs entries into as many columns as
/// fit the terminal width. Descriptions align to a shared key column, so the
/// cell is sized from the widest key, not each entry's own.
pub fn help_grid(piped: bool, screen_w: u16, m: Measure) -> (r: HelpGrid)
    ensures
        r == help_grid_of(piped, screen_w as nat, m),
        r.cols == help_columns(piped, screen_w as nat, m),
        r.rows == help_rows(piped, screen_w as nat, m),
        r.cell_w == help_cell_width(piped, m),
        r.key_w == key_width(help_of(piped), m),
        1 <= r.cols <= help_of(piped).len(),
        1 <= r.rows <= help_of(piped).len() <= 26,
        r.key_w <= 0xffff,
        r.cell_w <= 0x20003,
        r.rows * r.cols >= help_of(piped).len(),
{
    proof {
        reveal(help_rows);
        reveal(help_columns);
        reveal(help_cell_width);
    }
    let es = help_entries(piped);
    let ghost all = help_of(piped);
    let mut key_w: u16 = 0;
    let mut desc_w: u16 = 0;
    let mut i: usize = 0;
    while i < es.len()
        invariant
            i <= es.len(),
            all == es@,
            key_w == key_width(all.take(i as int), m),
            desc_w == description_width(all.take(i as int), m),
        decreases es.len() - i,
    {
        assert(all.take(i + 1).drop_last() =~= all.take(i as int));
        let k = width(es[i].0, m);
        let d = width(es[i].1, m);
        if k > key_w {
            key_w = k;
        }
        if d > desc_w {
            desc_w = d;
        }
        i += 1;
    }
    assert(all.take(all.len() as int) =~= all);
    proof {
        lemma_applicable_len(all_help(), piped);
    }
    let n = es.len();
    let cell_w: usize = key_w as usize + 2 + desc_w as usize + 3;
    let room: usize = if screen_w > 0 {
        screen_w as usize - 1
    } else {
        0
    };
    let fit = room / cell_w;
    let cols: usize = if fit < 1 {
        1
    } else if fit > n {
        n
    } else {
        fit
    };
    let rows = (n + cols - 1) / cols;
    proof {
        lemma_ceiling(n as int, cols as int);
    }
    HelpGrid { cols, rows, cell_w, key_w: key_w as usize }
}

proof fn lemma_ceiling(n: int, c: int)
    requires
        1 <= c <= n,
    ensures
        1 <= (n + c - 1) / c <= n,
        ((n + c - 1) / c) * c >= n,
{
    let q = (n + c - 1) / c;
    vstd::arithmetic::div_mod::lemma_fundamental_div_mod(n + c - 1, c);
    assert(c * q == q * c) by (nonlinear_arith);
    assert(q >= 1) by (nonlinear_arith)
        requires
            c * q + (n + c - 1) % c == n + c - 1,
            0 <= (n + c - 1) % c < c,
            1 <= c <= n,
    ;
    assert(q <= n) by (nonlinear_arith)
        requires
            c * q + (n + c - 1) % c == n + c - 1,
            0 <= (n + c - 1) % c < c,
            1 <= c <= n,
    ;
}

proof fn lemma_applicable_len(es: Seq<HelpEntry>, piped: bool)
    ensures
        applicable(es, piped).len() <= es.len(),
    decreases es.len(),
{
    if es.len() > 0 {
        lemma_applicable_len(es.drop_last(), piped);
    }
}

/// The help lists every key, and for a piped diff every key but those that need
/// a repository: watching, untracked files, expanding and reloading.
pub proof fn law_help_lists_the_keys(es: Seq<HelpEntry>, e: HelpEntry, piped: bool)
    ensures
        applicable(es, false) == es,
        help_of(false) == all_help(),
        piped && (e.0@ == "w"@ || e.0@ == "a"@ || e.0@ == "enter"@ || e.0@ == "r"@) ==> applicable(
            es.push(e),
            piped,
        ) == applicable(es, piped),
        !(e.0@ == "w"@ || e.0@ == "a"@ || e.0@ == "enter"@ || e.0@ == "r"@) ==> applicable(
            es.push(e),
            piped,
        ) == applicable(es, piped).push(e),
{
    assert(es.push(e).drop_last() =~= es);
    lemma_all_apply(es);
    lemma_all_apply(all_help());
}

proof fn lemma_all_apply(es: Seq<HelpEntry>)
    ensures
        applicable(es, false) == es,
    decreases es.len(),
{
    if es.len() > 0 {
        lemma_all_apply(es.drop_last());
        assert(es.drop_last().push(es.last()) =~= es);
    }
}

/// A cell of the help grid has room for each key and each description, and the
/// columns have room on the screen unless there is just one.
pub proof fn law_help_cells_have_room(piped: bool, screen_w: nat, m: Measure, i: int)
    requires
        0 <= i < help_of(piped).len(),
    ensures
        text_width(help_of(piped)[i].0@, m) <= key_width(help_of(piped), m),
        key_width(help_of(piped), m) + 2 + text_width(help_of(piped)[i].1@, m) + 3
            <= help_cell_width(piped, m),
        help_columns(piped, screen_w, m) >= 1,
        help_columns(piped, screen_w, m) > 1 ==> help_columns(piped, screen_w, m) * help_cell_width(
            piped,
            m,
        ) < screen_w,
{
    reveal(help_cell_width);
    reveal(help_columns);
    lemma_widest(help_of(piped), m, i);
    let room = if screen_w > 0 {
        (screen_w - 1) as nat
    } else {
        0
    };
    let w = help_cell_width(piped, m);
    let c = help_columns(piped, screen_w, m);
    assert(w == key_width(help_of(piped), m) + 2 + description_width(help_of(piped), m) + 3);
    vstd::arithmetic::div_mod::lemma_fundamental_div_mod(room as int, w as int);
    if c > 1 {
        assert(c * w <= (room / w) * w) by (nonlinear_arith)
            requires
                c <= room / w,
        ;
        assert((room / w) * w == w * (room / w)) by (nonlinear_arith);
    }
}

proof fn lemma_widest(es: Seq<HelpEntry>, m: Measure, i: int)
    requires
        0 <= i < es.len(),
    ensures
        text_width(es[i].0@, m) <= key_width(es, m),
        text_width(es[i].1@, m) <= description_width(es, m),
    decreases es.len(),
{
    if i < es.len() - 1 {
        lemma_widest(es.drop_last(), m, i);
    }
}

} // verus!
