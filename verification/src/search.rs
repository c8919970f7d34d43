//! Searching the document and stepping through the matches.

use regex::Regex;
use vstd::prelude::*;

use crate::app::{App, Nav, Search};
#[allow(unused_imports)]
use crate::app::{held, less, moved_in};
use crate::cells::match_cells;
#[allow(unused_imports)]
use crate::cells::{cell_views, haystack, hits};
use crate::outside::{build_regex, uppercase};
#[allow(unused_imports)]
use crate::outside::{compiled, is_upper, matches_in};
#[allow(unused_imports)]
use crate::keys::Command;
use crate::rows::Row;
use crate::scroll::reveal_hit;
#[allow(unused_imports)]
use crate::scroll::revealed;
use crate::text::chars_of;

verus! {

/// A hit in the document: its row and its columns.
pub type Hit = (usize, usize, usize);

/// Whether a pattern holds an uppercase character.
pub open spec fn has_upper(query: Seq<char>) -> bool {
    exists|i: int| 0 <= i < query.len() && is_upper(#[trigger] query[i])
}

/// The hits of an expression in one row.
pub open spec fn row_hits(row: Row, ri: int, re: Regex) -> Seq<Hit> {
    let cells = cell_views(row.content@);
    hits(cells, matches_in(re, haystack(cells))).map_values(
        |h: (usize, usize)| (ri as usize, h.0, h.1),
    )
}

/// The hits of an expression in the first `n` rows.
pub open spec fn doc_hits(rows: Seq<Row>, re: Regex, n: int) -> Seq<Hit>
    decreases n,
{
    if n <= 0 {
        seq![]
    } else {
        doc_hits(rows, re, n - 1) + row_hits(rows[n - 1], n - 1, re)
    }
}

/// The hits of a pattern in the document. An all-lowercase pattern matches
/// either case; one that does not compile matches nothing.
pub open spec fn found(rows: Seq<Row>, query: Seq<char>) -> Seq<Hit> {
    match compiled(query, !has_upper(query)) {
        Some(re) => doc_hits(rows, re, rows.len() as int),
        None => seq![],
    }
}

/// The first hit from `i` on that is at or after a row.
pub open spec fn hit_from(hs: Seq<Hit>, row: nat, i: int) -> Option<int>
    decreases hs.len() - i,
{
    if i < 0 || i >= hs.len() {
        None
    } else if hs[i].0 >= row {
        Some(i)
    } else {
        hit_from(hs, row, i + 1)
    }
}

/// Scans the rows for an expression.
fn scan_rows(rows: &[Row], re: &Regex) -> (r: Vec<Hit>)
    ensures
        r@ == doc_hits(rows@, *re, rows@.len() as int),
{
    let mut out: Vec<Hit> = Vec::new();
    let mut ri: usize = 0;
    while ri < rows.len()
        invariant
            ri <= rows.len(),
            out@ == doc_hits(rows@, *re, ri as int),
        decreases rows.len() - ri,
    {
        let hs = match_cells(&rows[ri].content, re);
        let ghost before = out@;
        let ghost all = row_hits(rows@[ri as int], ri as int, *re);
        let mut k: usize = 0;
        assert(out@ =~= before + all.take(0));
        while k < hs.len()
            invariant
                k <= hs.len(),
                all == hs@.map_values(|h: (usize, usize)| (ri, h.0, h.1)),
                out@ == before + all.take(k as int),
            decreases hs.len() - k,
        {
            out.push((ri, hs[k].0, hs[k].1));
            assert(all.take(k + 1) =~= all.take(k as int).push(all[k as int]));
            assert(out@ =~= before + all.take(k + 1));
            k += 1;
        }
        assert(all.take(all.len() as int) =~= all);
        ri += 1;
    }
    out
}

/// Whether a pattern holds an uppercase character.
fn any_upper(query: &str) -> (r: bool)
    ensures
        r == has_upper(query@),
{
    let cs = chars_of(query);
    let mut i: usize = 0;
    while i < cs.len()
        invariant
            i <= cs.len(),
            cs@ == query@,
            forall|k: int| 0 <= k < i ==> !is_upper(#[trigger] cs@[k]),
        decreases cs.len() - i,
    {
        if uppercase(cs[i]) {
            assert(is_upper(query@[i as int]));
            return true;
        }
        i += 1;
    }
    false
}

/// Scan rows for a pattern as a regex. Smart-case: an all-lowercase pattern
/// matches case-insensitively, any uppercase makes it case-sensitive. An
/// invalid pattern yields no matches.
pub fn find_in_rows(rows: &[Row], query: &str) -> (r: Vec<Hit>)
    ensures
        r@ == found(rows@, query@),
{
    let ci = !any_upper(query);
    match build_regex(query, ci) {
        Ok(re) => scan_rows(rows, &re),
        Err(_) => {
            let out: Vec<Hit> = Vec::new();
            assert(out@ =~= seq![]);
            out
        },
    }
}

impl App {
    /// Where going to a hit leads: the cursor to its row, and the content
    /// scrolled so that it is in view.
    pub open spec fn nav_to(&self, hit: Hit) -> Nav {
        let nav = self.moved(
            Nav {
                cursor: held(hit.0 as int, 0, less(self.doc.rows@.len(), 1) as int) as usize,
                ..self.nav
            },
            0,
        );
        let there = App { nav, ..*self };
        let h = revealed(
            nav.hscroll as nat,
            hit.1 as nat,
            hit.2 as nat,
            there.content_cols(),
        );
        Nav {
            hscroll: if h < there.hbound() {
                h as usize
            } else {
                there.hbound() as usize
            },
            ..nav
        }
    }

    /// Scan the whole document for the query, filling the matches with (row,
    /// cell_start, cell_end) hits.
    pub fn compute_matches(&mut self)
        ensures
            *final(self) == (App { search: final(self).search, ..*old(self) }),
            final(self).search == (Search {
                matches: final(self).search.matches,
                current: None,
                ..old(self).search
            }),
            final(self).search.matches@ == found(old(self).doc.rows@, old(self).search.query@),
    {
        self.search.matches = find_in_rows(&self.doc.rows, &self.search.query);
        self.search.current = None;
    }

    /// Drops the matches.
    pub fn clear_matches(&mut self)
        ensures
            *final(self) == (App { search: final(self).search, ..*old(self) }),
            final(self).search == (Search {
                matches: final(self).search.matches,
                current: None,
                ..old(self).search
            }),
            final(self).search.matches@ == Seq::<Hit>::empty(),
    {
        self.search.matches = Vec::new();
        self.search.current = None;
    }

    /// The hits of the query, none where there is no query.
    pub open spec fn hits_of(&self, query: Seq<char>) -> Seq<Hit> {
        if query.len() == 0 {
            seq![]
        } else {
            found(self.doc.rows@, query)
        }
    }

    /// Recompute matches if a search is active, else clear. Called after any
    /// change to the document (reload, prefetch fill).
    pub fn refresh_search(&mut self)
        ensures
            *final(self) == (App { search: final(self).search, ..*old(self) }),
            final(self).search == (Search {
                matches: final(self).search.matches,
                current: None,
                ..old(self).search
            }),
            final(self).search.matches@ == old(self).hits_of(old(self).search.query@),
    {
        if self.search.query.as_str().unicode_len() == 0 {
            self.clear_matches();
        } else {
            self.compute_matches();
        }
    }

    /// Go to a match: the cursor on its row, and panned so the hit is on screen.
    pub fn goto_match(&mut self, i: usize)
        requires
            old(self).fits(),
        ensures
            *final(self) == if i < old(self).search.matches@.len() {
                App {
                    search: Search { current: Some(i), ..old(self).search },
                    nav: old(self).nav_to(old(self).search.matches@[i as int]),
                    ..*old(self)
                }
            } else {
                *old(self)
            },
    {
        if i >= self.search.matches.len() {
            return;
        }
        let (row, cs, ce) = self.search.matches[i];
        self.search.current = Some(i);
        let ghost before = *self;
        self.set_cursor(row);
        assert(self.doc == before.doc && self.screen == before.screen && self.ui == before.ui
            && self.source == before.source && self.config == before.config);
        assert(self.fits());
        let vw = self.content_view_w() as usize;
        let h = reveal_hit(self.nav.hscroll, cs, ce, vw);
        let max = self.max_hscroll();
        assert(self.content_cols() == (App { nav: self.nav, ..*old(self) }).content_cols());
        assert(self.hbound() == (App { nav: self.nav, ..*old(self) }).hbound());
        self.nav.hscroll = if h < max {
            h
        } else {
            max
        };
    }

    /// The match that a fresh search goes to: the first at or after the cursor,
    /// else the first of all.
    pub open spec fn first_hit(&self) -> int {
        match hit_from(self.search.matches@, self.nav.cursor as nat, 0) {
            Some(i) => i,
            None => 0,
        }
    }

    /// Jump to the first match at or after the cursor (wrapping), used right
    /// after confirming a query.
    pub fn search_to_first(&mut self)
        requires
            old(self).search.matches@.len() > 0 ==> old(self).fits(),
        ensures
            *final(self) == if old(self).search.matches@.len() > 0 {
                App {
                    search: Search {
                        current: Some(old(self).first_hit() as usize),
                        ..old(self).search
                    },
                    nav: old(self).nav_to(old(self).search.matches@[old(self).first_hit()]),
                    ..*old(self)
                }
            } else {
                *old(self)
            },
    {
        let n = self.search.matches.len();
        if n == 0 {
            return;
        }
        let mut i: usize = 0;
        while i < n && self.search.matches[i].0 < self.nav.cursor
            invariant
                i <= n,
                n == self.search.matches@.len(),
                hit_from(self.search.matches@, self.nav.cursor as nat, 0) == hit_from(
                    self.search.matches@,
                    self.nav.cursor as nat,
                    i as int,
                ),
            decreases n - i,
        {
            i += 1;
        }
        if i == n {
            i = 0;
        }
        self.goto_match(i);
    }

    /// The match that is `delta` steps from the current one, around the ends.
    pub open spec fn stepped(&self, delta: int) -> int {
        let cur = match self.search.current {
            Some(i) => i as int,
            None => 0,
        };
        (cur + delta) % self.search.matches@.len() as int
    }

    /// Step to the next/prev match, wrapping around the ends.
    pub fn step_match(&mut self, delta: isize)
        requires
            old(self).search.matches@.len() > 0 ==> old(self).fits(),
        ensures
            *final(self) == if old(self).search.matches@.len() > 0 {
                App {
                    search: Search {
                        current: Some(old(self).stepped(delta as int) as usize),
                        ..old(self).search
                    },
                    nav: old(self).nav_to(old(self).search.matches@[old(self).stepped(delta as int)]),
                    ..*old(self)
                }
            } else {
                *old(self)
            },
    {
        let n = self.search.matches.len();
        if n == 0 {
            return;
        }
        let cur: usize = match self.search.current {
            Some(i) => i,
            None => 0,
        };
        let i = wrapped(cur, delta, n);
        self.goto_match(i);
    }
}

/// `cur + delta`, wrapped around `n`.
fn wrapped(cur: usize, delta: isize, n: usize) -> (r: usize)
    requires
        n > 0,
    ensures
        r == (cur + delta) % n as int,
        r < n,
{
    let s: i128 = cur as i128 + delta as i128;
    if s >= 0 {
        ((s as u128) % (n as u128)) as usize
    } else {
        let t: u128 = (-s) as u128;
        let d = (t % (n as u128)) as usize;
        proof {
            let q = t as int / n as int;
            vstd::arithmetic::div_mod::lemma_fundamental_div_mod(t as int, n as int);
            assert(-(q + 1) * n as int == -(n as int * q) - n as int) by (nonlinear_arith);
            assert(-q * n as int == -(n as int * q)) by (nonlinear_arith);
            if d == 0 {
                vstd::arithmetic::div_mod::lemma_fundamental_div_mod_converse(
                    s as int,
                    n as int,
                    -q,
                    0,
                );
            } else {
                vstd::arithmetic::div_mod::lemma_fundamental_div_mod_converse(
                    s as int,
                    n as int,
                    -(q + 1),
                    n - d,
                );
            }
        }
        if d == 0 {
            0
        } else {
            n - d
        }
    }
}

/// Stepping on and back again ends at the same match.
pub proof fn law_steps_cancel(cur: int, n: int)
    requires
        0 <= cur < n,
    ensures
        ((cur + 1) % n - 1) % n == cur,
        ((cur - 1) % n + 1) % n == cur,
{
    if cur + 1 < n {
        vstd::arithmetic::div_mod::lemma_small_mod((cur + 1) as nat, n as nat);
        vstd::arithmetic::div_mod::lemma_small_mod(cur as nat, n as nat);
    } else {
        vstd::arithmetic::div_mod::lemma_fundamental_div_mod_converse(cur + 1, n, 1, 0);
        vstd::arithmetic::div_mod::lemma_fundamental_div_mod_converse(-1, n, -1, n - 1);
    }
    if cur > 0 {
        vstd::arithmetic::div_mod::lemma_small_mod((cur - 1) as nat, n as nat);
        vstd::arithmetic::div_mod::lemma_small_mod(cur as nat, n as nat);
    } else {
        vstd::arithmetic::div_mod::lemma_fundamental_div_mod_converse(-1, n, -1, n - 1);
        vstd::arithmetic::div_mod::lemma_fundamental_div_mod_converse(n, n, 1, 0);
    }
}

/// Going to the next match leads from each to the one behind it and from the
/// last to the first; going to the previous one leads back the same way. The
/// cursor goes to the match.
pub proof fn law_matches_step_in_turn(app: App, i: usize)
    requires
        i < app.search.matches@.len(),
        app.search.current == Some(i),
    ensures
        ({
            let hs = app.search.matches@;
            let on = app.commanded(Command::NextMatch);
            &&& i + 1 < hs.len() ==> on.search.current == Some((i + 1) as usize)
            &&& i + 1 == hs.len() ==> on.search.current == Some(0usize)
            &&& on.nav == app.nav_to(hs[on.search.current->0 as int])
            &&& on.search.matches == app.search.matches
        }),
        ({
            let hs = app.search.matches@;
            let back = app.commanded(Command::PrevMatch);
            &&& i > 0 ==> back.search.current == Some((i - 1) as usize)
            &&& i == 0 ==> back.search.current == Some((hs.len() - 1) as usize)
            &&& back.nav == app.nav_to(hs[back.search.current->0 as int])
            &&& back.search.matches == app.search.matches
        }),
{
    assert(app.search.matches@.len() == app.search.matches.len());
    lemma_goes(app);
    lemma_stepped(app, i);
}

/// The next match and the previous one undo each other: from the match that one
/// of them leads to, the other leads back, wherever the viewer is by then.
pub proof fn law_next_and_previous_cancel(app: App, there: App, i: usize)
    requires
        i < app.search.matches@.len(),
        app.search.current == Some(i),
        there.search.matches == app.search.matches,
    ensures
        there.search.current == app.commanded(Command::NextMatch).search.current
            ==> there.commanded(Command::PrevMatch).search.current == Some(i),
        there.search.current == app.commanded(Command::PrevMatch).search.current
            ==> there.commanded(Command::NextMatch).search.current == Some(i),
{
    assert(app.search.matches@.len() == app.search.matches.len());
    lemma_currents(app, i);
    if there.search.current is Some && there.search.current->0 < there.search.matches@.len() {
        lemma_currents(there, there.search.current->0);
    }
}

proof fn lemma_currents(app: App, i: usize)
    requires
        i < app.search.matches@.len(),
        app.search.current == Some(i),
    ensures
        app.commanded(Command::NextMatch).search.current == Some(
            if i + 1 < app.search.matches@.len() {
                (i + 1) as usize
            } else {
                0
            },
        ),
        app.commanded(Command::PrevMatch).search.current == Some(
            if i > 0 {
                (i - 1) as usize
            } else {
                (app.search.matches@.len() - 1) as usize
            },
        ),
{
    law_matches_step_in_turn(app, i);
}

proof fn lemma_stepped(app: App, i: usize)
    requires
        i < app.search.matches@.len(),
        app.search.current == Some(i),
    ensures
        app.stepped(1) == if i + 1 < app.search.matches@.len() {
            i + 1
        } else {
            0
        },
        app.stepped(-1) == if i > 0 {
            i - 1
        } else {
            app.search.matches@.len() - 1
        },
{
    lemma_step(i as int, app.search.matches@.len() as int);
}

proof fn lemma_goes(app: App)
    ensures
        app.commanded(Command::NextMatch) == app.at_match(app.stepped(1)),
        app.commanded(Command::PrevMatch) == app.at_match(app.stepped(-1)),
{
    reveal(App::go_step);
}

/// Without a current match, the next one is the second and the previous one the
/// last, as from the first; without matches nothing changes.
pub proof fn law_steps_start_at_the_first_match(app: App)
    requires
        app.search.current is None,
    ensures
        app.search.matches@.len() == 0 ==> app.commanded(Command::NextMatch) == app
            && app.commanded(Command::PrevMatch) == app,
        app.search.matches@.len() > 1 ==> app.commanded(Command::NextMatch).search.current == Some(
            1usize,
        ),
        app.search.matches@.len() > 0 ==> app.commanded(Command::PrevMatch).search.current == Some(
            (app.search.matches@.len() - 1) as usize,
        ),
{
    reveal(App::go_step);
    if app.search.matches@.len() > 0 {
        assert(app.search.matches@.len() == app.search.matches.len());
        lemma_step(0, app.search.matches@.len() as int);
    }
}

proof fn lemma_step(i: int, n: int)
    requires
        0 <= i < n,
    ensures
        (i + 1) % n == if i + 1 < n {
            i + 1
        } else {
            0
        },
        (i - 1) % n == if i > 0 {
            i - 1
        } else {
            n - 1
        },
{
    if i + 1 < n {
        vstd::arithmetic::div_mod::lemma_small_mod((i + 1) as nat, n as nat);
    } else {
        vstd::arithmetic::div_mod::lemma_fundamental_div_mod_converse(i + 1, n, 1, 0);
    }
    if i > 0 {
        vstd::arithmetic::div_mod::lemma_small_mod((i - 1) as nat, n as nat);
    } else {
        vstd::arithmetic::div_mod::lemma_fundamental_div_mod_converse(-1, n, -1, n - 1);
    }
}

/// Smart case: a pattern with an uppercase character anywhere is looked for in
/// that case, any other in either case; a pattern that does not compile is
/// found nowhere.
pub proof fn law_capitals_make_case_matter(rows: Seq<Row>, query: Seq<char>, k: int)
    ensures
        0 <= k < query.len() && is_upper(query[k]) ==> found(rows, query) == match compiled(
            query,
            false,
        ) {
            Some(re) => doc_hits(rows, re, rows.len() as int),
            None => seq![],
        },
        (forall|i: int| 0 <= i < query.len() ==> !is_upper(#[trigger] query[i])) ==> found(
            rows,
            query,
        ) == match compiled(query, true) {
            Some(re) => doc_hits(rows, re, rows.len() as int),
            None => seq![],
        },
{
    if 0 <= k < query.len() && is_upper(query[k]) {
        assert(has_upper(query));
    }
}

/// The hits of a document are those of its rows, row by row from the top: each
/// row adds what the expression matches in its own text.
pub proof fn law_every_row_is_searched(rows: Seq<Row>, re: Regex, n: int, r: int)
    requires
        0 <= r < n <= rows.len(),
        rows.len() <= usize::MAX,
    ensures
        ({
            let cells = cell_views(rows[r].content@);
            let hs = hits(cells, matches_in(re, haystack(cells)));
            let from = doc_hits(rows, re, r).len() as int;
            let all = doc_hits(rows, re, n);
            &&& from + hs.len() == doc_hits(rows, re, r + 1).len()
            &&& from + hs.len() <= all.len()
            &&& forall|k: int|
                0 <= k < hs.len() ==> all[from + k] == (r as usize, (#[trigger] hs[k]).0, hs[k].1)
            &&& doc_hits(rows, re, 0).len() == 0
        }),
    decreases n,
{
    let cells = cell_views(rows[r].content@);
    let hs = hits(cells, matches_in(re, haystack(cells)));
    if r < n - 1 {
        law_every_row_is_searched(rows, re, n - 1, r);
    }
}

/// A fresh search goes to the first match at or after the cursor, and to the
/// first of all where there is none.
pub proof fn law_a_search_starts_at_the_cursor(app: App)
    requires
        app.search.matches@.len() > 0,
    ensures
        ({
            let i = app.first_hit();
            let hs = app.search.matches@;
            &&& 0 <= i < hs.len()
            &&& hs[i].0 >= app.nav.cursor ==> forall|k: int|
                0 <= k < i ==> (#[trigger] hs[k]).0 < app.nav.cursor
            &&& hs[i].0 < app.nav.cursor ==> i == 0 && forall|k: int|
                0 <= k < hs.len() ==> (#[trigger] hs[k]).0 < app.nav.cursor
        }),
{
    lemma_hit_from(app.search.matches@, app.nav.cursor as nat, 0);
}

proof fn lemma_hit_from(hs: Seq<Hit>, row: nat, i: int)
    requires
        0 <= i <= hs.len(),
    ensures
        match hit_from(hs, row, i) {
            Some(k) => i <= k < hs.len() && hs[k].0 >= row && forall|j: int|
                i <= j < k ==> (#[trigger] hs[j]).0 < row,
            None => forall|j: int| i <= j < hs.len() ==> (#[trigger] hs[j]).0 < row,
        },
    decreases hs.len() - i,
{
    if i < hs.len() && hs[i].0 < row {
        lemma_hit_from(hs, row, i + 1);
    }
}

/// Going to a match puts the cursor on its row.
pub proof fn law_a_match_gets_the_cursor(app: App, hit: Hit)
    requires
        hit.0 < app.doc.rows@.len(),
    ensures
        app.nav_to(hit).cursor == hit.0,
{
    reveal(moved_in);
}

/// Longer steps through the matches add up: one step after the other leads where
/// both lead at once, and no step stays at the current match.
pub proof fn law_steps_add_up(app: App, there: App, d: int, e: int)
    requires
        app.search.matches@.len() > 0,
        there.search.matches == app.search.matches,
        there.search.current == Some(app.stepped(d) as usize),
    ensures
        0 <= app.stepped(d) < app.search.matches@.len(),
        there.stepped(e) == app.stepped(d + e),
        app.search.current matches Some(i) ==> (i < app.search.matches@.len() ==> app.stepped(0)
            == i),
        app.stepped(d + app.search.matches@.len()) == app.stepped(d),
{
    let n = app.search.matches@.len() as int;
    assert(app.search.matches@.len() == app.search.matches.len());
    let cur = match app.search.current {
        Some(i) => i as int,
        None => 0,
    };
    vstd::arithmetic::div_mod::lemma_mod_bound(cur + d, n);
    vstd::arithmetic::div_mod::lemma_add_mod_noop(cur + d, e, n);
    vstd::arithmetic::div_mod::lemma_add_mod_noop((cur + d) % n, e, n);
    vstd::arithmetic::div_mod::lemma_mod_twice(cur + d, n);
    vstd::arithmetic::div_mod::lemma_mod_add_multiples_vanish(cur + d, n);
    if cur < n {
        vstd::arithmetic::div_mod::lemma_small_mod(cur as nat, n as nat);
    }
}

} // verus!
