//! A whole frame, layer by layer.

use vstd::prelude::*;

#[allow(unused_imports)]
use crate::app::less;
use crate::app::{App, Mode, ModalHit, Ui};
use crate::cells::width;
#[allow(unused_imports)]
use crate::cells::text_width;
use crate::color::{Color, Style};
#[allow(unused_imports)]
use crate::help::help_of;
#[allow(unused_imports)]
use crate::layout::sidebar_columns;
use crate::mascot::{Pixel, MASCOT_H, MASCOT_W};
#[allow(unused_imports)]
use crate::paint::{faint, put, OpView};
use crate::paint::{in_faint, Canvas, Op};
#[allow(unused_imports)]
use crate::rows::all_drawable;
use crate::theme::Theme;

verus! {

/// The color of a pixel of the mascot: its body and its accent trade places
/// while it flashes, its eyes are black.
pub open spec fn material(t: Theme, flashing: bool, p: Pixel) -> Option<Color> {
    match p {
        Pixel::Clear => None,
        Pixel::Body => Some(
            if flashing {
                t.mascot_accent
            } else {
                t.mascot_body
            },
        ),
        Pixel::Accent => Some(
            if flashing {
                t.mascot_body
            } else {
                t.mascot_accent
            },
        ),
        Pixel::Eye => Some(Color::Black),
    }
}

/// Draws a cell that packs two pixels into a half-block: the upper one is its
/// foreground, the lower one its background. Where one of them is clear, the
/// background that the cell shows stays.
pub open spec fn half_block(x: nat, y: nat, top: Option<Color>, low: Option<Color>) -> Seq<OpView> {
    match (top, low) {
        (None, None) => seq![],
        (Some(c), None) => seq![OpView::Over { x, y, glyph: '▀', fg: c }],
        (None, Some(c)) => seq![OpView::Over { x, y, glyph: '▄', fg: c }],
        (Some(a), Some(b)) => if a == b {
            seq![put(x, y, " "@, Style { bg: Some(a), ..Style::plain() })]
        } else {
            seq![put(x, y, "▀"@, Style { fg: Some(a), bg: Some(b), ..Style::plain() })]
        },
    }
}

/// Draws the first `n` cells of the mascot, row by row, with its top left at
/// `(x, y)`.
pub open spec fn mascot_ops(
    t: Theme,
    flashing: bool,
    grid: Seq<Vec<Pixel>>,
    x: nat,
    y: nat,
    n: int,
) -> Seq<OpView>
    decreases n,
{
    if n <= 0 {
        seq![]
    } else {
        let row = (n - 1) / 11;
        let col = (n - 1) % 11;
        mascot_ops(t, flashing, grid, x, y, n - 1) + half_block(
            (x + col) as nat,
            (y + row) as nat,
            material(t, flashing, grid[2 * row]@[col]),
            material(t, flashing, grid[2 * row + 1]@[col]),
        )
    }
}

/// The color of a pixel of the mascot.
fn color_of_pixel(t: &Theme, flashing: bool, p: Pixel) -> (r: Option<Color>)
    ensures
        r == material(*t, flashing, p),
{
    match p {
        Pixel::Clear => None,
        Pixel::Body => Some(
            if flashing {
                t.mascot_accent
            } else {
                t.mascot_body
            },
        ),
        Pixel::Accent => Some(
            if flashing {
                t.mascot_body
            } else {
                t.mascot_accent
            },
        ),
        Pixel::Eye => Some(Color::Black),
    }
}

/// Draws a cell of the mascot.
fn draw_half_block(x: usize, y: usize, top: Option<Color>, low: Option<Color>) -> (r: Canvas)
    ensures
        r@ == half_block(x as nat, y as nat, top, low),
{
    let mut out = Canvas::new();
    match (top, low) {
        (None, None) => {},
        (Some(fg), None) => out.push(Op::Over { x, y, glyph: '▀', fg }),
        (None, Some(fg)) => out.push(Op::Over { x, y, glyph: '▄', fg }),
        (Some(a), Some(b)) => {
            if a == b {
                out.put(x, y, " ".to_string(), Style { bg: Some(a), ..Style::default() });
            } else {
                out.put(
                    x,
                    y,
                    "▀".to_string(),
                    Style { fg: Some(a), bg: Some(b), ..Style::default() },
                );
            }
        },
    }
    assert(out@ =~= half_block(x as nat, y as nat, top, low));
    out
}

/// Draws the mascot with its top left at `(x, y)`. Each rendered cell packs two
/// vertical pixels via a half-block; the whole creature is drawn this way, so
/// there are no letter glyphs.
pub fn draw_mascot(t: &Theme, flashing: bool, grid: &[Vec<Pixel>], x: usize, y: usize) -> (r:
    Canvas)
    requires
        grid@.len() == 8,
        forall|r: int| 0 <= r < 8 ==> (#[trigger] grid@[r])@.len() == 11,
        x <= 0x1fffe,
        y <= 0xffff,
    ensures
        r@ == mascot_ops(*t, flashing, grid@, x as nat, y as nat, 44),
{
    let mut out = Canvas::new();
    let mut n: usize = 0;
    while n < 44
        invariant
            n <= 44,
            grid@.len() == 8,
            forall|r: int| 0 <= r < 8 ==> (#[trigger] grid@[r])@.len() == 11,
            x <= 0x1fffe,
            y <= 0xffff,
            out@ == mascot_ops(*t, flashing, grid@, x as nat, y as nat, n as int),
        decreases 44 - n,
    {
        let row = n / 11;
        let col = n % 11;
        assert(grid@[2 * row as int]@.len() == 11);
        assert(grid@[2 * row as int + 1]@.len() == 11);
        let top = color_of_pixel(t, flashing, grid[2 * row][col]);
        let low = color_of_pixel(t, flashing, grid[2 * row + 1][col]);
        out.extend(draw_half_block(x + col, y + row, top, low));
        n += 1;
    }
    out
}

impl App {
    /// Whether there is nothing to show. A piped diff that is still delivering
    /// its first file is loading, not idle.
    pub open spec fn idle(&self) -> bool {
        self.doc.files@.len() == 0 && !self.ui.loading
    }

    /// Whether the screen is too small to draw on.
    pub open spec fn too_small(&self) -> bool {
        self.screen.width < 20 || self.screen.height < 4
    }

    /// The diff.
    pub open spec fn body_ops(&self) -> Seq<OpView> {
        if self.idle() {
            seq![]
        } else if self.ui.split {
            self.split_ops(
                self.body() as int,
                self.body_left(),
                self.left_cols(),
                less(self.body_cols(), self.left_cols() + 1),
            )
        } else {
            self.diff_ops(self.body() as int, self.body_left(), self.body_cols())
        }
    }

    /// The sidebar, where it shows.
    pub open spec fn side_panel_ops(&self) -> Seq<OpView> {
        self.sidebar_ops(
            self.body() as int,
            if self.on_left() {
                0
            } else {
                less(self.screen.width as nat, self.sidebar_cols())
            },
            self.sidebar_cols(),
            self.body(),
        )
    }

    /// The help grid, where it is open.
    pub open spec fn help_panel_ops(&self) -> Seq<OpView> {
        if self.ui.help_open {
            self.help_ops(
                help_of(self.source.piped).len() as int,
                self.body() + 1,
                self.screen.height as nat,
            )
        } else {
            seq![]
        }
    }

    /// The dialog, where it is open.
    pub open spec fn dialog_ops(&self) -> Seq<OpView> {
        if self.ui.mode == Mode::Stat {
            self.modal_ops()
        } else {
            seq![]
        }
    }

    /// The highlights over all of it.
    pub open spec fn highlight_ops(&self) -> Seq<OpView> {
        self.search_ops() + match self.ui.sel {
            Some(sel) => self.sel_ops(sel),
            None => seq![],
        }
    }

    /// A frame: the diff, the sidebar, the footer, the help grid, the dialog
    /// over them, and the highlights on top.
    pub open spec fn frame_ops(&self) -> Seq<OpView> {
        if self.too_small() {
            seq![put(0, 0, "terminal too small"@, Style::plain())]
        } else {
            self.body_ops() + self.side_panel_ops() + self.footer_ops(self.body())
                + self.help_panel_ops() + self.dialog_ops() + self.highlight_ops()
        }
    }

    /// The viewer once a frame was drawn: where the help badge and the dialog
    /// are, and no mascot where nothing shows it.
    #[verifier::opaque]
    pub open spec fn framed(&self) -> App {
        if self.too_small() {
            *self
        } else {
            App {
                ui: Ui {
                    help_badge_x: self.help_x() as usize,
                    modal_hit: if self.ui.mode == Mode::Stat {
                        self.modal_place()
                    } else {
                        self.ui.modal_hit
                    },
                    mascot: if self.idle() || self.ui.mascot_pinned {
                        self.ui.mascot
                    } else {
                        None
                    },
                    mascot_grab: if self.idle() || self.ui.mascot_pinned {
                        self.ui.mascot_grab
                    } else {
                        None
                    },
                    ..self.ui
                },
                ..*self
            }
        }
    }

    /// The note of the idle screen.
    pub open spec fn clean_ops(&self) -> Seq<OpView> {
        let cols = text_width("working tree clean"@, self.screen.measure);
        if self.doc.files@.len() == 0 && self.body_cols() >= cols && self.body() >= 1 {
            seq![
                put(
                    self.body_left() + ((self.body_cols() - cols) / 2) as nat,
                    (self.body() - 1) as nat,
                    "working tree clean"@,
                    faint(self.theme.context),
                ),
            ]
        } else {
            seq![]
        }
    }

    /// On a screen that is not too small everything has room.
    proof fn lemma_roomy(&self)
        requires
            !self.too_small(),
        ensures
            self.fits(),
            self.sidebar_fits(),
            self.split_fits(),
    {
        reveal(sidebar_columns);
    }

    /// Whether the mascot is on screen: idle, or pinned over a diff.
    pub fn shows_mascot(&self) -> (r: bool)
        ensures
            r == (self.idle() || self.ui.mascot_pinned),
    {
        (self.doc.files.len() == 0 && !self.ui.loading) || self.ui.mascot_pinned
    }

    /// Draws the diff.
    fn render_body(&self) -> (r: Canvas)
        requires
            !self.too_small(),
            all_drawable(self.doc.rows@),
        ensures
            r@ == self.body_ops(),
    {
        proof {
            self.lemma_roomy();
        }
        if self.doc.files.len() == 0 && !self.ui.loading {
            return Canvas::new();
        }
        let body = self.body_h_screen();
        let x = self.body_x();
        let w = self.body_w();
        if self.ui.split {
            let left = self.split_left_w();
            assert(x + w <= self.screen.width);
            self.render_split(x, left, w - left - 1, body)
        } else {
            self.render_diff(x, w, body)
        }
    }

    /// Draws the sidebar, where it shows.
    fn render_side_panel(&self) -> (r: Canvas)
        requires
            !self.too_small(),
        ensures
            r@ == self.side_panel_ops(),
    {
        proof {
            self.lemma_roomy();
        }
        let sw = self.sidebar_w();
        let sx = if self.sidebar_left() {
            0
        } else {
            self.screen.width - sw
        };
        if sw < 2 {
            return Canvas::new();
        }
        self.render_sidebar(sx as usize, sw, self.body_h_screen())
    }

    /// Draws the highlights.
    fn render_highlights(&self) -> (r: Canvas)
        requires
            !self.too_small(),
        ensures
            r@ == self.highlight_ops(),
    {
        proof {
            self.lemma_roomy();
        }
        // Overlay search-match highlights, then the selection on top.
        let mut out = self.paint_matches();
        if let Some(sel) = self.ui.sel {
            out.extend(self.paint_selection(sel));
        }
        assert(out@ =~= self.highlight_ops());
        out
    }

    /// Draws a frame. Returns also where the dialog can be clicked.
    fn render_layers(&self) -> (r: (Canvas, Option<ModalHit>))
        requires
            !self.too_small(),
            all_drawable(self.doc.rows@),
            self.ui.mode == Mode::Stat ==> self.modal_fits(),
        ensures
            r.0@ == self.frame_ops(),
            r.1 == (if self.ui.mode == Mode::Stat {
                self.modal_place()
            } else {
                self.ui.modal_hit
            }),
    {
        let body = self.body_h_screen();
        let mut out = self.render_body();
        out.extend(self.render_side_panel());
        out.extend(self.render_footer(body));
        if self.ui.help_open {
            out.extend(self.render_help_grid(body + 1, self.screen.height as usize));
        } else {
            assert(out@ + self.help_panel_ops() =~= out@);
        }
        let mut hit = self.ui.modal_hit;
        // The stat modal floats above the footer and help.
        if self.ui.mode == Mode::Stat {
            let (dialog, place) = self.render_stat_modal();
            out.extend(dialog);
            hit = place;
        } else {
            assert(out@ + self.dialog_ops() =~= out@);
        }
        out.extend(self.render_highlights());
        (out, hit)
    }

    /// Records what a frame showed.
    fn note_frame(&mut self, hit: Option<ModalHit>)
        requires
            !old(self).too_small(),
            hit == (if old(self).ui.mode == Mode::Stat {
                old(self).modal_place()
            } else {
                old(self).ui.modal_hit
            }),
        ensures
            *final(self) == old(self).framed(),
    {
        proof {
            reveal(App::framed);
        }
        let help_x = self.screen.width.saturating_sub(width(" ? help ", self.screen.measure));
        let (mascot, mascot_grab) = if self.shows_mascot() {
            (self.ui.mascot, self.ui.mascot_grab)
        } else {
            (None, None)
        };
        self.ui = Ui {
            help_badge_x: help_x as usize,
            modal_hit: hit,
            mascot,
            mascot_grab,
            ..self.ui
        };
    }

    /// Draws a frame, but for the mascot, which floats above everything.
    pub fn render(&mut self) -> (r: Canvas)
        requires
            all_drawable(old(self).doc.rows@),
            old(self).ui.mode == Mode::Stat && !old(self).too_small() ==> old(self).modal_fits(),
        ensures
            r@ == old(self).frame_ops(),
            *final(self) == old(self).framed(),
    {
        if self.screen.width < 20 || self.screen.height < 4 {
            proof {
                reveal(App::framed);
            }
            let mut out = Canvas::new();
            out.put(0, 0, "terminal too small".to_string(), Style::default());
            assert(out@ =~= self.frame_ops());
            return out;
        }
        let (out, hit) = self.render_layers();
        self.note_frame(hit);
        out
    }

    /// The idle screen's faint centered "clean" note, only on the real empty
    /// screen (not when the mascot is pinned over a diff).
    pub fn render_empty(&self) -> (r: Canvas)
        requires
            self.sidebar_fits(),
        ensures
            r@ == self.clean_ops(),
    {
        let mut out = Canvas::new();
        if self.doc.files.len() == 0 {
            let cols = width("working tree clean", self.screen.measure);
            let w = self.body_w();
            let body = self.body_h_screen();
            if w >= cols && body >= 1 {
                let x = self.body_x() as usize + ((w - cols) / 2) as usize;
                out.put(
                    x,
                    body - 1,
                    "working tree clean".to_string(),
                    in_faint(self.theme.context),
                );
            }
        }
        assert(out@ =~= self.clean_ops());
        out
    }

    /// Whether the body has room for the mascot.
    pub fn mascot_fits(&self) -> (r: bool)
        requires
            self.sidebar_fits(),
        ensures
            r == (self.body_cols() >= MASCOT_W && self.body() >= MASCOT_H),
    {
        self.body_w() >= MASCOT_W && self.body_h_screen() >= MASCOT_H as usize
    }
}

/// A screen of less than twenty columns or four rows is too small to draw on, and
/// says so; any other screen shows the diff.
pub proof fn law_small_screens_say_so(app: App)
    ensures
        app.screen.width < 20 || app.screen.height < 4 ==> app.frame_ops() == seq![
            put(0, 0, "terminal too small"@, Style::plain()),
        ],
        app.screen.width >= 20 && app.screen.height >= 4 ==> app.frame_ops() == app.body_ops()
            + app.side_panel_ops() + app.footer_ops(app.body()) + app.help_panel_ops()
            + app.dialog_ops() + app.highlight_ops(),
{
}

/// The dialog, the help grid and the selection show only where they are open.
pub proof fn law_panels_show_where_they_are_open(app: App)
    ensures
        app.ui.mode == Mode::Diff ==> app.dialog_ops().len() == 0,
        app.ui.mode == Mode::Stat ==> app.dialog_ops() == app.modal_ops(),
        !app.ui.help_open ==> app.help_panel_ops().len() == 0,
        app.ui.sel is None ==> app.highlight_ops() == app.search_ops(),
        app.ui.sel matches Some(sel) ==> app.highlight_ops() == app.search_ops() + app.sel_ops(sel),
{
    assert(app.search_ops() + Seq::<OpView>::empty() == app.search_ops());
}

/// Two pixels share a cell: a clear one leaves the background of the cell as it
/// is, and two of one color fill it.
pub proof fn law_cells_hold_two_pixels(x: nat, y: nat, a: Color, b: Color)
    ensures
        half_block(x, y, None, None).len() == 0,
        half_block(x, y, Some(a), None) == seq![OpView::Over { x, y, glyph: '▀', fg: a }],
        half_block(x, y, None, Some(a)) == seq![OpView::Over { x, y, glyph: '▄', fg: a }],
        half_block(x, y, Some(a), Some(a)) == seq![
            put(x, y, " "@, Style { bg: Some(a), ..Style::plain() }),
        ],
        a != b ==> half_block(x, y, Some(a), Some(b)) == seq![
            put(x, y, "▀"@, Style { fg: Some(a), bg: Some(b), ..Style::plain() }),
        ],
{
}

/// The body and the accent of the mascot trade colors while it flashes, and its
/// eyes stay black.
pub proof fn law_mascot_flashes(t: Theme)
    ensures
        material(t, true, Pixel::Body) == material(t, false, Pixel::Accent),
        material(t, true, Pixel::Accent) == material(t, false, Pixel::Body),
        material(t, false, Pixel::Body) == Some(t.mascot_body),
        material(t, false, Pixel::Accent) == Some(t.mascot_accent),
        material(t, true, Pixel::Eye) == Some(Color::Black),
        material(t, false, Pixel::Eye) == Some(Color::Black),
        material(t, true, Pixel::Clear) is None && material(t, false, Pixel::Clear) is None,
{
}

/// Once a frame was drawn, clicks find the help badge and the dialog where they
/// were drawn; nothing else changes but the mascot, which goes where neither an
/// idle screen nor a pin shows it.
pub proof fn law_frames_leave_what_can_be_clicked(app: App)
    requires
        app.screen.width >= 20,
        app.screen.height >= 4,
    ensures
        ({
            let post = app.framed();
            &&& post.ui.help_badge_x == app.help_x()
            &&& app.ui.mode == Mode::Stat ==> post.ui.modal_hit == app.modal_place()
            &&& app.ui.mode == Mode::Diff ==> post.ui.modal_hit == app.ui.modal_hit
            &&& app.ui.mascot_pinned ==> post.ui.mascot == app.ui.mascot
            &&& app.doc.files@.len() > 0 && !app.ui.mascot_pinned ==> post.ui.mascot is None
                && post.ui.mascot_grab is None
            &&& post.nav == app.nav && post.doc == app.doc && post.search == app.search
        }),
{
    reveal(App::framed);
}

/// An empty diff says that the working tree is clean, in the last row of the body
/// and in its middle.
pub proof fn law_clean_trees_say_so(app: App)
    requires
        app.doc.files@.len() == 0,
        app.body() >= 1,
        text_width("working tree clean"@, app.screen.measure) <= app.body_cols(),
    ensures
        app.clean_ops().len() == 1,
        app.clean_ops()[0] matches OpView::Put { x, y, text, style } && text
            == "working tree clean"@ && y + 1 == app.body() && ({
            let before = x - app.body_left();
            let behind = app.body_cols() - before - text_width(
                "working tree clean"@,
                app.screen.measure,
            );
            before <= behind <= before + 1
        }) && style.attrs.faint,
{
}

} // verus!
