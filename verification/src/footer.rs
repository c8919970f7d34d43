//! The footer: the bar at the bottom of the body, and the help grid below it.

use vstd::prelude::*;

#[allow(unused_imports)]
use crate::app::less;
use crate::app::App;
use crate::cells::{clip, width};
#[allow(unused_imports)]
use crate::cells::{
    columns, fitted, law_fit_is_maximal, law_short_texts_show_whole, text_width,
};
use crate::color::Style;
#[allow(unused_imports)]
use crate::diff::{capped, display_path, file_views, files_count, hunks_count, LineKind};
use crate::diff::totals;
use crate::help::{help_entries, help_grid};
#[allow(unused_imports)]
use crate::help::{help_cell_width, help_of, help_rows, key_width};
use crate::outside::Measure;
#[allow(unused_imports)]
use crate::outside::{cluster_text, clusters};
#[allow(unused_imports)]
use crate::paint::{put, repeated, OpView};
use crate::paint::{join, repeat, write_number, Canvas};
#[allow(unused_imports)]
use crate::rows::blanks;
#[allow(unused_imports)]
use crate::text::{decimal, strings};

verus! {

/// A piece of the footer.
#[derive(Debug, Clone)]
pub struct Piece {
    pub text: String,
    pub style: Style,
}

/// The content of a [`Piece`].
pub type PieceView = (Seq<char>, Style);

/// The content of a list of pieces.
pub open spec fn piece_views(s: Seq<Piece>) -> Seq<PieceView> {
    s.map_values(|p: Piece| (p.text@, p.style))
}

/// The column after the first `n` pieces, laid out from column `x` on and
/// clipped at `end`.
pub open spec fn pieces_end(ps: Seq<PieceView>, n: int, x: nat, end: nat, m: Measure) -> nat
    decreases n,
{
    if n <= 0 {
        x
    } else {
        let at = pieces_end(ps, n - 1, x, end, m);
        if at >= end {
            at
        } else {
            at + columns(fitted(clusters(ps[n - 1].0, m), (end - at) as nat))
        }
    }
}

/// Draws the first `n` pieces one after the other, clipped at `end`; none where
/// there is no column left.
pub open spec fn piece_ops(
    ps: Seq<PieceView>,
    n: int,
    x: nat,
    end: nat,
    y: nat,
    m: Measure,
) -> Seq<OpView>
    decreases n,
{
    if n <= 0 {
        seq![]
    } else {
        let rest = piece_ops(ps, n - 1, x, end, y, m);
        let at = pieces_end(ps, n - 1, x, end, m);
        if at >= end {
            rest
        } else {
            rest.push(
                put(
                    at,
                    y,
                    cluster_text(fitted(clusters(ps[n - 1].0, m), (end - at) as nat)),
                    ps[n - 1].1,
                ),
            )
        }
    }
}

/// Draws pieces one after the other.
fn place(ps: &[Piece], x: usize, end: usize, y: usize, m: Measure) -> (r: Canvas)
    requires
        x <= 0x1ffff,
        end <= 0xffff,
    ensures
        r@ == piece_ops(
            piece_views(ps@),
            ps@.len() as int,
            x as nat,
            end as nat,
            y as nat,
            m,
        ),
{
    let ghost all = piece_views(ps@);
    let mut out = Canvas::new();
    let mut at = x;
    let mut i: usize = 0;
    while i < ps.len()
        invariant
            i <= ps.len(),
            end <= 0xffff,
            at <= 0x1ffff,
            all == piece_views(ps@),
            at == pieces_end(all, i as int, x as nat, end as nat, m),
            out@ == piece_ops(all, i as int, x as nat, end as nat, y as nat, m),
        decreases ps.len() - i,
    {
        if at < end {
            proof {
                law_fit_is_maximal(clusters(all[i as int].0, m), (end - at) as nat);
            }
            let (text, w) = clip(&ps[i].text, (end - at) as u16, m);
            out.put(at, y, text, ps[i].style);
            at += w as usize;
        }
        i += 1;
    }
    out
}

/// The note of a file's flags: all of them in brackets, or nothing.
pub open spec fn flags_note(notes: Seq<Seq<char>>) -> Seq<char> {
    if notes.len() == 0 {
        seq![]
    } else {
        " ("@ + listed(notes) + ")"@
    }
}

/// Texts with commas between them.
pub open spec fn listed(notes: Seq<Seq<char>>) -> Seq<char>
    decreases notes.len(),
{
    if notes.len() == 0 {
        seq![]
    } else if notes.len() == 1 {
        notes[0]
    } else {
        listed(notes.drop_last()) + ", "@ + notes.last()
    }
}

/// Writes texts with commas between them.
fn list(notes: &[String]) -> (r: String)
    ensures
        r@ == listed(strings(notes@)),
{
    let ghost all = strings(notes@);
    let mut out = String::new();
    let mut i: usize = 0;
    assert(out@ =~= seq![]);
    while i < notes.len()
        invariant
            i <= notes.len(),
            all == strings(notes@),
            out@ == listed(all.take(i as int)),
        decreases notes.len() - i,
    {
        assert(all.take(i + 1).drop_last() =~= all.take(i as int));
        if i > 0 {
            out.append(", ");
        }
        out.append(&notes[i]);
        i += 1;
        assert(out@ =~= listed(all.take(i as int)));
    }
    assert(all.take(all.len() as int) =~= all);
    out
}

/// The note of the diff as a whole.
pub open spec fn stats_note(files: nat, add: nat, del: nat) -> Seq<char> {
    " "@ + decimal(files) + " files +"@ + decimal(add) + " -"@ + decimal(del) + " "@
}

/// Writes the note of the diff as a whole.
fn write_stats(files: usize, add: usize, del: usize) -> (r: String)
    ensures
        r@ == stats_note(files as nat, add as nat, del as nat),
{
    let mut out = " ".to_string();
    out.append(&write_number(files));
    out.append(" files +");
    out.append(&write_number(add));
    out.append(" -");
    out.append(&write_number(del));
    out.append(" ");
    out
}

impl App {
    /// The note of the diff as a whole.
    #[verifier::opaque]
    pub open spec fn footer_stats(&self) -> Seq<char> {
        let fs = file_views(self.doc.files@);
        stats_note(
            fs.len(),
            capped(files_count(fs, LineKind::Add)),
            capped(files_count(fs, LineKind::Remove)),
        )
    }

    /// The column of the help badge, at the right edge.
    pub open spec fn help_x(&self) -> nat {
        less(self.screen.width as nat, text_width(" ? help "@, self.screen.measure))
    }

    /// The column of the watch badge, left of it where watch mode is on.
    pub open spec fn watch_x(&self) -> nat {
        if self.ui.watch {
            less(self.help_x(), text_width(" W "@, self.screen.measure))
        } else {
            self.help_x()
        }
    }

    /// Whether the view includes untracked files.
    pub open spec fn shows_all(&self) -> bool {
        self.source.all && self.source.worktree
    }

    /// The column of the badge for untracked files, left of that.
    pub open spec fn all_x(&self) -> nat {
        if self.shows_all() {
            less(self.watch_x(), text_width(" A "@, self.screen.measure))
        } else {
            self.watch_x()
        }
    }

    /// The column of the note of the diff, left of that.
    pub open spec fn stats_x(&self) -> nat {
        less(self.all_x(), text_width(self.footer_stats(), self.screen.measure))
    }

    /// The column of the loading note, left of that while files still arrive.
    /// What belongs to the selected file ends there.
    pub open spec fn load_x(&self) -> nat {
        if self.ui.loading {
            less(self.stats_x(), text_width(" ⋯ loading "@, self.screen.measure))
        } else {
            self.stats_x()
        }
    }

    /// The right part of the footer, over the bar that fills it.
    #[verifier::opaque]
    pub open spec fn right_ops(&self, y: nat) -> Seq<OpView> {
        let t = self.theme;
        let none = Seq::<OpView>::empty();
        seq![
            put(0, y, blanks(self.screen.width as nat), t.statusbar),
            put(self.help_x(), y, " ? help "@, t.statusbar_help),
        ] + (if self.ui.watch {
            seq![put(self.watch_x(), y, " W "@, t.statusbar_watch)]
        } else {
            none
        }) + (if self.shows_all() {
            seq![put(self.all_x(), y, " A "@, t.statusbar_watch)]
        } else {
            none
        }) + seq![put(self.stats_x(), y, self.footer_stats(), t.statusbar_stats)] + (
        if self.ui.loading {
            seq![put(self.load_x(), y, " ⋯ loading "@, t.statusbar_flags)]
        } else {
            none
        })
    }

    /// The name of the selected file.
    pub open spec fn footer_name(&self) -> Seq<char> {
        " "@ + if self.nav.selected < self.doc.files@.len() {
            display_path(self.doc.files@[self.nav.selected as int]@)
        } else {
            "(no changes)"@
        }
    }

    /// What is said of the selected file: its added and removed lines, and its
    /// flags.
    #[verifier::opaque]
    pub open spec fn file_pieces(&self) -> Seq<PieceView> {
        let t = self.theme;
        if self.nav.selected < self.doc.files@.len() {
            let f = self.doc.files@[self.nav.selected as int]@;
            let counts = seq![
                (" +"@, t.statusbar_add),
                (decimal(capped(hunks_count(f.hunks, LineKind::Add))), t.statusbar_add),
                (" -"@, t.statusbar_remove),
                (decimal(capped(hunks_count(f.hunks, LineKind::Remove))), t.statusbar_remove),
            ];
            let flags = if f.notes.len() > 0 {
                seq![(flags_note(f.notes), t.statusbar_flags)]
            } else {
                seq![]
            };
            counts + flags + seq![(" "@, t.statusbar)]
        } else {
            seq![]
        }
    }

    /// The search badge: the prompt while it is open, else how many matches
    /// there are, and which one is the current one.
    #[verifier::opaque]
    pub open spec fn search_pieces(&self) -> Seq<PieceView> {
        let style = self.theme.statusbar_search;
        match self.search.input {
            Some(buf) => seq![(" /"@ + buf@ + " "@, style)],
            None => if self.search.query@.len() == 0 {
                seq![]
            } else if self.search.matches@.len() == 0 {
                seq![(" no matches "@, style)]
            } else {
                let n = match self.search.current {
                    Some(i) => capped((i + 1) as nat),
                    None => 0,
                };
                seq![
                    (
                        " ["@ + decimal(n) + "/"@ + decimal(self.search.matches@.len()) + "] "@,
                        style,
                    ),
                ]
            },
        }
    }

    /// The transient note.
    #[verifier::opaque]
    pub open spec fn flash_pieces(&self) -> Seq<PieceView> {
        match self.flash {
            Some(f) => seq![(" "@ + f.text@ + " "@, self.theme.statusbar_add)],
            None => seq![],
        }
    }

    /// Everything after the name of the selected file.
    pub open spec fn footer_pieces(&self) -> Seq<PieceView> {
        self.file_pieces() + self.search_pieces() + self.flash_pieces()
    }

    /// The left part of the footer.
    pub open spec fn left_ops(&self, y: nat) -> Seq<OpView> {
        let m = self.screen.measure;
        let x = text_width(" drift "@, m);
        let name = fitted(clusters(self.footer_name(), m), less(self.load_x(), x));
        seq![
            put(0, y, " drift "@, self.theme.statusbar_logo),
            put(x, y, cluster_text(name), self.theme.statusbar_filename),
        ] + piece_ops(
            self.footer_pieces(),
            self.footer_pieces().len() as int,
            x + columns(name),
            self.load_x(),
            y,
            m,
        )
    }

    /// The footer.
    pub open spec fn footer_ops(&self, y: nat) -> Seq<OpView> {
        self.right_ops(y) + self.left_ops(y)
    }

    /// The note of the diff as a whole.
    fn stats_text(&self) -> (r: String)
        ensures
            r@ == self.footer_stats(),
    {
        proof {
            reveal(App::footer_stats);
        }
        let (nf, add, del) = totals(&self.doc.files);
        write_stats(nf, add, del)
    }

    /// Lays out the right edge, right to left: the help badge, the watch badge,
    /// the badge for untracked files, then the global diffstat and the loading
    /// note. Returns the column that it leaves.
    fn render_right(&self, y: usize) -> (r: (Canvas, usize))
        ensures
            r.0@ == self.right_ops(y as nat),
            r.1 == self.load_x(),
            r.1 <= self.screen.width,
    {
        proof {
            reveal(App::right_ops);
        }
        let m = self.screen.measure;
        let w = self.screen.width;
        let mut out = Canvas::new();
        out.put(0, y, repeat(' ', w as usize), self.theme.statusbar);
        assert(repeated(' ', w as nat) =~= blanks(w as nat));
        let help_x = w.saturating_sub(width(" ? help ", m));
        out.put(help_x as usize, y, " ? help ".to_string(), self.theme.statusbar_help);
        let watch_x = if self.ui.watch {
            let x = help_x.saturating_sub(width(" W ", m));
            out.put(x as usize, y, " W ".to_string(), self.theme.statusbar_watch);
            x
        } else {
            help_x
        };
        let all_x = if self.source.all && self.source.worktree {
            let x = watch_x.saturating_sub(width(" A ", m));
            out.put(x as usize, y, " A ".to_string(), self.theme.statusbar_watch);
            x
        } else {
            watch_x
        };
        let stats = self.stats_text();
        let stats_x = all_x.saturating_sub(width(&stats, m));
        out.put(stats_x as usize, y, stats, self.theme.statusbar_stats);
        let load_x = if self.ui.loading {
            let x = stats_x.saturating_sub(width(" ⋯ loading ", m));
            out.put(x as usize, y, " ⋯ loading ".to_string(), self.theme.statusbar_flags);
            x
        } else {
            stats_x
        };
        assert(out@ =~= self.right_ops(y as nat));
        (out, load_x as usize)
    }

    /// What is said of the selected file.
    fn list_file_pieces(&self) -> (r: Vec<Piece>)
        ensures
            piece_views(r@) == self.file_pieces(),
    {
        proof {
            reveal(App::file_pieces);
        }
        let t = &self.theme;
        let mut out: Vec<Piece> = Vec::new();
        if self.nav.selected < self.doc.files.len() {
            let f = &self.doc.files[self.nav.selected];
            let (add, del) = f.stats();
            out.push(Piece { text: " +".to_string(), style: t.statusbar_add });
            out.push(Piece { text: write_number(add), style: t.statusbar_add });
            out.push(Piece { text: " -".to_string(), style: t.statusbar_remove });
            out.push(Piece { text: write_number(del), style: t.statusbar_remove });
            if f.notes.len() > 0 {
                let mut note = " (".to_string();
                note.append(&list(&f.notes));
                note.append(")");
                out.push(Piece { text: note, style: t.statusbar_flags });
            }
            out.push(Piece { text: " ".to_string(), style: t.statusbar });
        }
        assert(piece_views(out@) =~= self.file_pieces());
        out
    }

    /// The search badge.
    fn list_search_pieces(&self) -> (r: Vec<Piece>)
        ensures
            piece_views(r@) == self.search_pieces(),
    {
        proof {
            reveal(App::search_pieces);
        }
        let style = self.theme.statusbar_search;
        let mut out: Vec<Piece> = Vec::new();
        if let Some(buf) = &self.search.input {
            let mut text = " /".to_string();
            text.append(buf);
            text.append(" ");
            out.push(Piece { text, style });
        } else if self.search.query.as_str().unicode_len() > 0 {
            let total = self.search.matches.len();
            if total == 0 {
                out.push(Piece { text: " no matches ".to_string(), style });
            } else {
                let n = match self.search.current {
                    Some(i) => i.saturating_add(1),
                    None => 0,
                };
                let mut text = " [".to_string();
                text.append(&write_number(n));
                text.append("/");
                text.append(&write_number(total));
                text.append("] ");
                out.push(Piece { text, style });
            }
        }
        assert(piece_views(out@) =~= self.search_pieces());
        out
    }

    /// The transient note.
    fn list_flash_pieces(&self) -> (r: Vec<Piece>)
        ensures
            piece_views(r@) == self.flash_pieces(),
    {
        proof {
            reveal(App::flash_pieces);
        }
        let mut out: Vec<Piece> = Vec::new();
        if let Some(f) = &self.flash {
            let mut text = " ".to_string();
            text.append(&f.text);
            text.append(" ");
            out.push(Piece { text, style: self.theme.statusbar_add });
        }
        assert(piece_views(out@) =~= self.flash_pieces());
        out
    }

    /// The single bottom footer: a bold "drift" badge, the current file name,
    /// its stats and flags, the search badge and the transient note, then
    /// right-aligned global stats, a watch indicator, and a "? help" badge.
    pub fn render_footer(&self, y: usize) -> (r: Canvas)
        ensures
            r@ == self.footer_ops(y as nat),
    {
        let m = self.screen.measure;
        let (mut out, load_x) = self.render_right(y);
        let ghost right = out@;
        out.put(0, y, " drift ".to_string(), self.theme.statusbar_logo);
        let x = width(" drift ", m);
        let name = join(
            " ",
            if self.nav.selected < self.doc.files.len() {
                self.doc.files[self.nav.selected].path()
            } else {
                "(no changes)"
            },
        );
        let room = (load_x as u16).saturating_sub(x);
        let (text, name_w) = clip(&name, room, m);
        out.put(x as usize, y, text, self.theme.statusbar_filename);
        let mut pieces = self.list_file_pieces();
        let mut search = self.list_search_pieces();
        let mut flash = self.list_flash_pieces();
        pieces.append(&mut search);
        pieces.append(&mut flash);
        assert(piece_views(pieces@) =~= self.footer_pieces());
        out.extend(place(&pieces, x as usize + name_w as usize, load_x, y, m));
        assert(out@ =~= self.footer_ops(y as nat));
        out
    }

    /// Draws the first `n` entries of the help grid, column by column from row
    /// `y0` on, above row `h`. Descriptions align to a fixed column.
    pub open spec fn help_ops(&self, n: int, y0: nat, h: nat) -> Seq<OpView>
        decreases n,
    {
        if n <= 0 {
            seq![]
        } else {
            let piped = self.source.piped;
            let m = self.screen.measure;
            let rows = help_rows(piped, self.screen.width as nat, m) as int;
            let e = help_of(piped)[n - 1];
            let y = y0 + ((n - 1) % rows) as nat;
            let x = 1 + ((n - 1) / rows) as nat * help_cell_width(piped, m);
            let rest = self.help_ops(n - 1, y0, h);
            if y < h {
                rest.push(put(x, y, e.0@, self.theme.help_key)).push(
                    put(x + key_width(help_of(piped), m) + 2, y, e.1@, self.theme.help_desc),
                )
            } else {
                rest
            }
        }
    }

    /// The expandable help grid drawn below the footer, packing key/description
    /// pairs into as many columns as fit (charm-style).
    pub fn render_help_grid(&self, y0: usize, h: usize) -> (r: Canvas)
        requires
            y0 <= 0x10000,
        ensures
            r@ == self.help_ops(
                help_of(self.source.piped).len() as int,
                y0 as nat,
                h as nat,
            ),
    {
        let grid = help_grid(self.source.piped, self.screen.width, self.screen.measure);
        let entries = help_entries(self.source.piped);
        let mut out = Canvas::new();
        let mut i: usize = 0;
        while i < entries.len()
            invariant
                i <= entries.len() <= 26,
                y0 <= 0x10000,
                entries@ == help_of(self.source.piped),
                1 <= grid.rows <= 26,
                grid.rows == help_rows(
                    self.source.piped,
                    self.screen.width as nat,
                    self.screen.measure,
                ),
                grid.cell_w == help_cell_width(self.source.piped, self.screen.measure),
                grid.key_w == key_width(help_of(self.source.piped), self.screen.measure),
                grid.key_w <= 0xffff,
                grid.cell_w <= 0x20003,
                out@ == self.help_ops(i as int, y0 as nat, h as nat),
            decreases entries.len() - i,
        {
            let col = i / grid.rows;
            let row = i % grid.rows;
            assert(0 <= col <= 26 && col * grid.cell_w <= 26 * 0x20003) by (nonlinear_arith)
                requires
                    col == i / grid.rows,
                    1 <= grid.rows,
                    i <= 26,
                    grid.cell_w <= 0x20003,
            ;
            let y = y0 + row;
            if y < h {
                let x = 1 + col * grid.cell_w;
                out.put(x, y, entries[i].0.to_string(), self.theme.help_key);
                out.put(x + grid.key_w + 2, y, entries[i].1.to_string(), self.theme.help_desc);
            }
            i += 1;
        }
        out
    }
}

/// The badges stand at the right edge of the bar, one before the other: the help
/// badge, the watch badge and the badge for untracked files where they apply,
/// the note of the diff, and the loading note while files arrive.
pub proof fn law_badges_stand_side_by_side(app: App)
    requires
        text_width(" ? help "@, app.screen.measure) + text_width(" W "@, app.screen.measure)
            + text_width(" A "@, app.screen.measure) + text_width(
            app.footer_stats(),
            app.screen.measure,
        ) + text_width(" ⋯ loading "@, app.screen.measure) <= app.screen.width,
    ensures
        ({
            let m = app.screen.measure;
            &&& app.help_x() + text_width(" ? help "@, m) == app.screen.width
            &&& app.ui.watch ==> app.watch_x() + text_width(" W "@, m) == app.help_x()
            &&& !app.ui.watch ==> app.watch_x() == app.help_x()
            &&& app.source.all && app.source.worktree ==> app.all_x() + text_width(" A "@, m)
                == app.watch_x()
            &&& !(app.source.all && app.source.worktree) ==> app.all_x() == app.watch_x()
            &&& app.stats_x() + text_width(app.footer_stats(), m) == app.all_x()
            &&& app.ui.loading ==> app.load_x() + text_width(" ⋯ loading "@, m) == app.stats_x()
            &&& !app.ui.loading ==> app.load_x() == app.stats_x()
        }),
{
}

/// The note of the diff counts its files, its added lines and its removed lines.
pub proof fn law_footer_counts_the_changes(app: App)
    ensures
        ({
            let fs = file_views(app.doc.files@);
            let add = files_count(fs, LineKind::Add);
            let del = files_count(fs, LineKind::Remove);
            add <= usize::MAX && del <= usize::MAX ==> app.footer_stats() == " "@ + decimal(
                app.doc.files@.len(),
            ) + " files +"@ + decimal(add) + " -"@ + decimal(del) + " "@
        }),
{
    reveal(App::footer_stats);
}

/// The footer names the selected file, or says that nothing changed.
pub proof fn law_footer_names_the_file(app: App)
    ensures
        app.nav.selected < app.doc.files@.len() ==> app.footer_name() == " "@ + display_path(
            app.doc.files@[app.nav.selected as int]@,
        ),
        app.nav.selected >= app.doc.files@.len() ==> app.footer_name() == " "@ + "(no changes)"@
            && app.file_pieces().len() == 0,
{
    reveal(App::file_pieces);
}

/// Of the selected file the footer counts the added lines and the removed ones,
/// each in its style, and lists its notes where it has any.
pub proof fn law_footer_counts_the_file(app: App)
    requires
        app.nav.selected < app.doc.files@.len(),
    ensures
        ({
            let f = app.doc.files@[app.nav.selected as int]@;
            let ps = app.file_pieces();
            let add = hunks_count(f.hunks, LineKind::Add);
            let del = hunks_count(f.hunks, LineKind::Remove);
            &&& ps.len() == if f.notes.len() > 0 {
                6int
            } else {
                5
            }
            &&& ps[0].0 == " +"@ && ps[2].0 == " -"@
            &&& add <= usize::MAX ==> ps[1] == (decimal(add), app.theme.statusbar_add)
            &&& del <= usize::MAX ==> ps[3] == (decimal(del), app.theme.statusbar_remove)
            &&& f.notes.len() > 0 ==> ps[4] == (flags_note(f.notes), app.theme.statusbar_flags)
        }),
{
    reveal(App::file_pieces);
}

/// Notes are listed in brackets with commas between them.
pub proof fn law_notes_are_listed(a: Seq<char>, b: Seq<char>)
    ensures
        flags_note(seq![]) == Seq::<char>::empty(),
        flags_note(seq![a]) == " ("@ + a + ")"@,
        flags_note(seq![a, b]) == " ("@ + (a + ", "@ + b) + ")"@,
{
    reveal_with_fuel(listed, 3);
    assert(seq![a, b].drop_last() == seq![a]);
    assert(seq![a, b].last() == b);
}

/// The search badge shows the prompt while it is open. Then it tells which match
/// of how many is the current one, counted from one, or that there is none.
pub proof fn law_search_badge_counts_the_matches(app: App)
    ensures
        app.search.input matches Some(buf) ==> app.search_pieces() == seq![
            (" /"@ + buf@ + " "@, app.theme.statusbar_search),
        ],
        app.search.input is None && app.search.query@.len() == 0 ==> app.search_pieces().len() == 0,
        app.search.input is None && app.search.query@.len() > 0 && app.search.matches@.len() == 0
            ==> app.search_pieces() == seq![(" no matches "@, app.theme.statusbar_search)],
        app.search.input is None && app.search.query@.len() > 0 ==> (app.search.current matches Some(
            i,
        ) ==> (i < app.search.matches@.len() ==> app.search_pieces() == seq![
            (
                " ["@ + decimal((i + 1) as nat) + "/"@ + decimal(app.search.matches@.len()) + "] "@,
                app.theme.statusbar_search,
            ),
        ])),
{
    reveal(App::search_pieces);
    assert(app.search.matches@.len() == app.search.matches.len());
}

/// A note shows in the footer as long as there is one.
pub proof fn law_notes_show(app: App)
    ensures
        app.flash matches Some(f) ==> app.flash_pieces() == seq![
            (" "@ + f.text@ + " "@, app.theme.statusbar_add),
        ],
        app.flash is None ==> app.flash_pieces().len() == 0,
{
    reveal(App::flash_pieces);
}

/// Pieces follow one another: each begins where the one before it ends.
pub proof fn law_pieces_follow_one_another(
    ps: Seq<PieceView>,
    n: int,
    x: nat,
    end: nat,
    y: nat,
    m: Measure,
)
    requires
        0 < n <= ps.len(),
        pieces_end(ps, n - 1, x, end, m) + columns(clusters(ps[n - 1].0, m)) <= end,
        pieces_end(ps, n - 1, x, end, m) < end,
    ensures
        pieces_end(ps, 0, x, end, m) == x,
        pieces_end(ps, n, x, end, m) == pieces_end(ps, n - 1, x, end, m) + columns(
            clusters(ps[n - 1].0, m),
        ),
        piece_ops(ps, n, x, end, y, m).len() > 0,
        piece_ops(ps, n, x, end, y, m).last() matches OpView::Put { x: px, y: py, text, style }
            && px == pieces_end(ps, n - 1, x, end, m) && py == y && style == ps[n - 1].1 && text
            == cluster_text(clusters(ps[n - 1].0, m)),
{
    let at = pieces_end(ps, n - 1, x, end, m);
    law_short_texts_show_whole(clusters(ps[n - 1].0, m), (end - at) as nat);
}

/// The right part of the footer is drawn over the bar, and each badge where it
/// stands.
pub proof fn law_footer_draws_its_badges(app: App, y: nat)
    ensures
        ({
            let ops = app.right_ops(y);
            let t = app.theme;
            &&& ops.len() >= 3
            &&& ops[0] == put(0, y, blanks(app.screen.width as nat), t.statusbar)
            &&& ops[1] == put(app.help_x(), y, " ? help "@, t.statusbar_help)
            &&& app.ui.watch ==> ops[2] == put(app.watch_x(), y, " W "@, t.statusbar_watch)
            &&& !app.ui.watch && app.source.all && app.source.worktree ==> ops[2] == put(
                app.all_x(),
                y,
                " A "@,
                t.statusbar_watch,
            )
            &&& app.ui.loading ==> ops.last() == put(
                app.load_x(),
                y,
                " ⋯ loading "@,
                t.statusbar_flags,
            )
            &&& !app.ui.loading ==> ops.last() == put(
                app.stats_x(),
                y,
                app.footer_stats(),
                t.statusbar_stats,
            )
        }),
{
    reveal(App::right_ops);
}

/// The left part of the footer begins with the name of the viewer and that of the
/// file behind it.
pub proof fn law_footer_begins_with_the_names(app: App, y: nat)
    ensures
        ({
            let m = app.screen.measure;
            let ops = app.left_ops(y);
            let x = text_width(" drift "@, m);
            let whole = clusters(app.footer_name(), m);
            &&& ops.len() >= 2
            &&& ops[0] == put(0, y, " drift "@, app.theme.statusbar_logo)
            &&& x + columns(whole) <= app.load_x() ==> ops[1] == put(
                x,
                y,
                cluster_text(whole),
                app.theme.statusbar_filename,
            )
        }),
{
    let m = app.screen.measure;
    let whole = clusters(app.footer_name(), m);
    let x = text_width(" drift "@, m);
    if x + columns(whole) <= app.load_x() {
        law_short_texts_show_whole(whole, less(app.load_x(), x));
    }
}

/// The badge of the prompt and the note stand behind what is said of the file, in
/// this order.
pub proof fn law_badges_follow_the_file(app: App)
    ensures
        ({
            let ps = app.footer_pieces();
            let a = app.file_pieces().len() as int;
            let b = a + app.search_pieces().len();
            &&& ps.take(a) == app.file_pieces()
            &&& ps.subrange(a, b) == app.search_pieces()
            &&& ps.skip(b) == app.flash_pieces()
        }),
{
    let ps = app.footer_pieces();
    let a = app.file_pieces().len() as int;
    let b = a + app.search_pieces().len();
    assert(ps.take(a) == app.file_pieces());
    assert(ps.subrange(a, b) == app.search_pieces());
    assert(ps.skip(b) == app.flash_pieces());
}

/// The entries of the help grid go down its columns one by one: the next entry is
/// a row below, or at the top of the next column. A description stands two
/// columns behind the widest key.
pub proof fn law_help_goes_down_the_columns(app: App, n: int, y0: nat, h: nat)
    requires
        0 < n <= help_of(app.source.piped).len(),
        help_rows(app.source.piped, app.screen.width as nat, app.screen.measure) > 0,
        y0 + (n - 1) % (help_rows(
            app.source.piped,
            app.screen.width as nat,
            app.screen.measure,
        ) as int) < h,
    ensures
        ({
            let piped = app.source.piped;
            let m = app.screen.measure;
            let rows = help_rows(piped, app.screen.width as nat, m) as int;
            let ops = app.help_ops(n, y0, h);
            let e = help_of(piped)[n - 1];
            let col = (n - 1) / rows;
            let x = 1 + col * help_cell_width(piped, m);
            &&& ops.len() >= 2
            &&& ops[ops.len() - 2] matches OpView::Put { x: kx, y: ky, text, .. } && kx == x && ky
                == y0 + (n - 1) % rows && text == e.0@
            &&& ops[ops.len() - 1] matches OpView::Put { x: dx, y: dy, text, .. } && dx == x
                + key_width(help_of(piped), m) + 2 && dy == y0 + (n - 1) % rows && text == e.1@
        }),
{
    let rows = help_rows(app.source.piped, app.screen.width as nat, app.screen.measure) as int;
    let w = help_cell_width(app.source.piped, app.screen.measure) as int;
    let col = (n - 1) / rows;
    assert(col >= 0) by (nonlinear_arith)
        requires
            col == (n - 1) / rows,
            n >= 1,
            rows > 0,
    ;
    assert(col * w >= 0) by (nonlinear_arith)
        requires
            col >= 0,
            w >= 0,
    ;
}

} // verus!
