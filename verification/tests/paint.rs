use drift::app::{App, Screen, Source};
use drift::cells::{shorten, width};
use drift::color::{Color, Style};
use drift::config::Config;
use drift::diff::FileDiff;
use drift::events::Event;
use drift::frame::draw_mascot;
use drift::handle::Action;
use drift::help::{help_entries, help_grid};
use drift::keys::{Key, KeyCode};
use drift::mascot::{frame, idle_mood, next_random, Face, Pixel};
use drift::outside::{Measure, WidthMode};
use drift::paint::{Canvas, Op};
use drift::rows::{build_file_rows, Colored};
use drift::select::Sel;
use uncurses::event::KeyModifiers;

const TEXT: &str = "diff --git a/a.txt b/a.txt\n\
--- a/a.txt\n\
+++ b/a.txt\n\
@@ -1,3 +1,3 @@\n\
 one\n\
-two old\n\
+two new\n\
 three\n\
diff --git a/b.txt b/b.txt\n\
new file mode 100644\n\
--- /dev/null\n\
+++ b/b.txt\n\
@@ -0,0 +1,2 @@\n\
+first\n\
+second\n";

const MEASURE: Measure = Measure { mode: WidthMode::Grapheme, eaw_wide: false };

fn plain(file: &FileDiff) -> Vec<Vec<Colored>> {
    file.hunks
        .iter()
        .map(|h| {
            h.lines
                .iter()
                .map(|l| vec![(None, l.content.clone())])
                .collect()
        })
        .collect()
}

fn app(w: u16, h: u16) -> App {
    let screen = Screen { width: w, height: h, measure: MEASURE, split_left: w / 2 };
    let source = Source { piped: false, worktree: true, all: false, context: None, expand: 0 };
    let mut app = App::new(Config::load(None, None), source, screen);
    app.start(Some(TEXT.to_string()));
    for i in 0..app.doc.files.len() {
        let body = build_file_rows(&app.doc.files[i], &plain(&app.doc.files[i]), false, 4);
        app.take_body(i, body);
    }
    app
}

/// The key press that a pattern such as `ctrl+c` names.
fn named(name: &str) -> Key {
    let k = name.parse::<uncurses::event::Key>().unwrap().normalized();
    Key {
        code: match k.code {
            uncurses::event::KeyCode::Char(c) => KeyCode::Char(c),
            code => KeyCode::Named(code.to_string()),
        },
        ctrl: k.modifiers.contains(KeyModifiers::CTRL),
        alt: k.modifiers.contains(KeyModifiers::ALT),
        shift: k.modifiers.contains(KeyModifiers::SHIFT),
        super_key: k.modifiers.contains(KeyModifiers::SUPER),
        hyper: k.modifiers.contains(KeyModifiers::HYPER),
        meta: k.modifiers.contains(KeyModifiers::META),
        text: k.text,
    }
}

fn press(app: &mut App, name: &str) -> Action {
    let ev = Event::KeyPress(named(name));
    assert!(app.can_handle(&ev));
    app.handle(&ev, 0, true)
}

fn puts(c: &Canvas, row: usize) -> Vec<(usize, String)> {
    c.ops
        .iter()
        .filter_map(|o| match o {
            Op::Put { x, y, text, .. } if *y == row => Some((*x, text.clone())),
            _ => None,
        })
        .collect()
}

fn put(x: usize, text: &str) -> (usize, String) {
    (x, text.to_string())
}

#[test]
fn lines_have_a_gutter_and_a_sign() {
    let mut app = app(40, 14);
    app.nav.cursor = 0;
    let c = app.render();
    let at = |y: usize| puts(&c, y);
    // No background wash but for the cursor and the headers, on the ansi theme.
    let drawn: Vec<_> = at(2).into_iter().filter(|p| !p.1.trim().is_empty() || p.0 > 0).collect();
    assert_eq!(drawn, vec![put(0, "   1    1"), put(9, " "), put(10, "one")]);
    let drawn: Vec<_> = at(3).into_iter().filter(|p| !p.1.trim().is_empty()).collect();
    assert_eq!(drawn, vec![put(0, "   2     "), put(9, "-"), put(10, "two old")]);
    let drawn: Vec<_> = at(4).into_iter().filter(|p| !p.1.trim().is_empty()).collect();
    assert_eq!(drawn, vec![put(0, "        2"), put(9, "+"), put(10, "two new")]);
    // Headers have neither, and stand behind the gutter.
    assert!(at(0).contains(&put(9, "diff --git a/a.txt b/a.txt")));
    assert!(at(1).contains(&put(9, "@@ -1,3 +1,3 @@")));
}

#[test]
fn hunk_headers_have_a_symbol_in_the_gutter() {
    let mut app = app(40, 14);
    app.nav.cursor = 0;
    let c = app.render();
    assert!(puts(&c, 1).contains(&put(7, "⋯")));
    assert!(!puts(&c, 0).iter().any(|p| p.1 == "⋯"));
    // One column stays blank before the text, and no more than fits is drawn.
    app.config.context_symbol = "more context".into();
    assert!(puts(&app.render(), 1).contains(&put(0, "more con")));
    app.config.context_symbol = String::new();
    assert!(!puts(&app.render(), 1).iter().any(|p| p.1.is_empty()));
    // Without line numbers there is no gutter.
    app.config.context_symbol = "⋯".into();
    app.config.line_numbers = false;
    assert!(!puts(&app.render(), 1).iter().any(|p| p.1 == "⋯"));
}

#[test]
fn changed_words_stand_out() {
    let mut app = app(40, 14);
    app.config.theme = "onedark".into();
    app.theme = drift::theme::Theme::from_config(&app.config);
    app.nav.cursor = 0;
    app.doc.rows[4].spans[0].changed = true;
    let c = app.render();
    let style = c.ops.iter().find_map(|o| match o {
        Op::Put { y: 4, text, style, .. } if text == "two new" => Some(*style),
        _ => None,
    });
    let style: Style = style.unwrap();
    assert_eq!(style.bg, app.theme.add_emph_bg);
    assert_eq!(style.fg, app.theme.add.fg);
    assert!(style.attrs.bold);
}

#[test]
fn content_scrolls_under_the_pinned_gutter() {
    let mut app = app(14, 14);
    app.screen.width = 20;
    app.nav.hscroll = 4;
    let c = app.render();
    assert!(puts(&c, 3).contains(&put(10, "old")));
    assert!(puts(&c, 3).contains(&put(9, "-")));
    assert!(puts(&c, 1).contains(&put(9, "1,3 +1,3 @@")));
}

#[test]
fn split_view_puts_each_side_in_its_pane() {
    let mut app = app(41, 14);
    press(&mut app, "s");
    let c = app.render();
    // Removed on the left, the right half hatched.
    assert!(puts(&c, 3).contains(&put(6, "two old")));
    assert!(puts(&c, 3).contains(&put(21, &"╱".repeat(20))));
    // Added on the right, the left half hatched.
    assert!(puts(&c, 4).contains(&put(0, &"╱".repeat(20))));
    assert!(puts(&c, 4).contains(&put(27, "two new")));
    // Context on both, with a divider between them.
    let row = puts(&c, 2);
    assert!(row.contains(&put(6, "one")));
    assert!(row.contains(&put(27, "one")));
    assert!(row.contains(&put(20, "│")));
}

#[test]
fn cursor_row_is_washed() {
    let mut app = app(40, 14);
    app.nav.cursor = 2;
    let c = app.render();
    let wash = c.ops.iter().find_map(|o| match o {
        Op::Put { x: 0, y: 2, text, style } if text.trim().is_empty() && text.len() == 40 => {
            Some(*style)
        }
        _ => None,
    });
    assert_eq!(wash.unwrap().bg, Some(app.theme.cursor_bg));
}

#[test]
fn footer_lays_out_both_ends() {
    let mut app = app(80, 14);
    app.set_flash("copied 1 line".into(), 0);
    let c = app.render();
    // 80 less 8 for " ? help ", less 17 for the note of the diff.
    let row = puts(&c, 13);
    assert_eq!(
        row,
        vec![
            put(0, &" ".repeat(80)),
            put(72, " ? help "),
            put(55, " 2 files +3 -1 "),
            put(0, " drift "),
            put(7, " a.txt"),
            put(13, " +"),
            put(15, "1"),
            put(16, " -"),
            put(18, "1"),
            put(19, " "),
            put(20, " copied 1 line "),
        ]
        .into_iter()
        .map(|(x, t)| if t.starts_with(" 2 files") { (72 - t.len(), t) } else { (x, t) })
        .collect::<Vec<_>>()
    );
    assert_eq!(app.ui.help_badge_x, 72);
}

#[test]
fn footer_shows_badges_flags_and_search() {
    let mut app = app(100, 14);
    app.begin_watch(true);
    app.source.all = true;
    app.ui.loading = true;
    press(&mut app, "G");
    press(&mut app, "/");
    press(&mut app, "s");
    let c = app.render();
    let row: Vec<String> = puts(&c, 13).into_iter().map(|p| p.1).collect();
    for text in [" W ", " A ", " ⋯ loading ", " b.txt", " (new file)", " /s "] {
        assert!(row.contains(&text.to_string()), "{text}");
    }
    press(&mut app, "enter");
    let c = app.render();
    let row: Vec<String> = puts(&c, 13).into_iter().map(|p| p.1).collect();
    assert!(row.contains(&" [2/2] ".to_string()));
    assert!(!row.contains(&" /s ".to_string()));
}

#[test]
fn clicking_the_badges_toggles_help_and_mascot() {
    let mut app = app(80, 30);
    app.render();
    app.handle(&Event::MouseClick(75, 29, true), 0, false);
    assert!(app.ui.help_open);
    app.render();
    let footer = app.body_h_screen() as u16;
    app.handle(&Event::MouseClick(3, footer, true), 0, false);
    assert!(app.ui.mascot_pinned);
}

#[test]
fn help_grid_fills_the_bottom() {
    let mut app = app(80, 30);
    press(&mut app, "?");
    let entries = help_entries(false);
    let grid = help_grid(false, 80, MEASURE);
    assert_eq!(app.chrome_h(), 1 + grid.rows);
    let c = app.render();
    let first = app.body_h_screen() + 1;
    assert!(puts(&c, first).contains(&put(1, entries[0].0)));
    assert!(puts(&c, first).contains(&put(1 + grid.key_w + 2, entries[0].1)));
    let texts: Vec<String> = (first..30).flat_map(|y| puts(&c, y)).map(|p| p.1).collect();
    assert!(entries.iter().all(|e| texts.contains(&e.0.to_string())));
    // In pager mode what needs a repository is left out.
    assert!(help_entries(true).len() < entries.len());
    assert!(help_entries(true).iter().all(|e| e.0 != "w"));
}

#[test]
fn sidebar_lists_files_with_counts() {
    let mut app = app(80, 14);
    press(&mut app, "B");
    let c = app.render();
    let row = puts(&c, 0);
    assert!(row.contains(&put(0, "▸ a.txt")));
    assert!(row.contains(&put(22, " +1 -1 ")));
    assert!(row.contains(&put(29, "│")));
    let row = puts(&c, 1);
    assert!(row.contains(&put(0, "  b.txt")));
    assert!(row.contains(&put(22, " +2 -0 ")));
}

#[test]
fn stat_dialog_scales_its_bars() {
    let mut app = app(80, 24);
    press(&mut app, "F");
    let c = app.render();
    let hit = app.ui.modal_hit.unwrap();
    assert_eq!((hit.list_h, hit.start), (2, 0));
    // Names of ten columns, bars of 24, five for the count, five around them.
    let cols = 10 + 24 + 10;
    let summary = "2 files changed, 3 insertion(s)(+), 1 deletion(s)(-)";
    let cols = if cols > summary.len() { cols } else { summary.len() };
    assert_eq!(hit.x1 - hit.x0, cols + 2);
    assert_eq!(hit.y1 - hit.y0, 2 + 2 + 2);
    let x = hit.x0 + 1;
    let row = puts(&c, hit.list_y);
    assert!(row.contains(&put(x, "▸ a.txt     ")));
    assert!(row.contains(&put(x + cols - 30, "    2")));
    assert!(row.contains(&put(x + cols - 24, &"+".repeat(12))));
    assert!(row.contains(&put(x + cols - 12, &"-".repeat(12))));
    let row = puts(&c, hit.list_y + 1);
    assert!(row.contains(&put(x + cols - 24, &"+".repeat(24))));
    assert!(puts(&c, hit.list_y + 3).contains(&put(x, summary)));
    // A click in the list selects, one on the border drags, one outside closes.
    app.handle(&Event::MouseClick(x as u16, hit.list_y as u16 + 1, true), 0, false);
    assert_eq!(app.nav.selected, 1);
    app.handle(&Event::MouseClick(hit.x0 as u16, hit.y0 as u16, true), 0, false);
    app.handle(&Event::MouseMove(0, 0), 0, false);
    app.handle(&Event::MouseRelease(true), 0, false);
    app.render();
    assert_eq!(app.ui.modal_hit.map(|h| (h.x0, h.y0)), Some((0, 0)));
    app.handle(&Event::MouseClick(79, 20, true), 0, false);
    assert_eq!(app.ui.mode, drift::app::Mode::Diff);
}

#[test]
fn stat_dialog_without_files() {
    let mut app = app(80, 24);
    app.start(None);
    press(&mut app, "F");
    let c = app.render();
    assert!(app.ui.modal_hit.is_none());
    assert!(c.ops.iter().any(|o| matches!(o, Op::Put { text, .. } if text == "no changes")));
    let top = format!("╭{}╮", "─".repeat(24));
    assert!(c.ops.iter().any(|o| matches!(o, Op::Put { text, .. } if *text == top)));
}

#[test]
fn small_terminals_say_so() {
    let mut app = app(19, 24);
    let c = app.render();
    assert_eq!(c.ops.len(), 1);
    assert_eq!(puts(&c, 0), vec![put(0, "terminal too small")]);
}

#[test]
fn matches_and_selection_are_painted_over() {
    let mut app = app(80, 24);
    press(&mut app, "/");
    press(&mut app, "t");
    press(&mut app, "w");
    press(&mut app, "enter");
    app.ui.sel = Some(Sel { a_row: 2, a_col: 1, c_row: 3, c_col: 3, dragging: false, pane: None });
    let c = app.render();
    let styled: Vec<_> = c
        .ops
        .iter()
        .filter_map(|o| match o {
            Op::Restyle { y, x0, x1, style } => Some((*y, *x0, *x1, *style)),
            _ => None,
        })
        .collect();
    assert_eq!(
        styled,
        vec![
            (3, 10, 12, app.theme.search_current),
            (4, 10, 12, app.theme.search_match),
        ]
    );
    let reversed: Vec<_> = c
        .ops
        .iter()
        .filter_map(|o| match o {
            Op::Reverse { y, x0, x1 } => Some((*y, *x0, *x1)),
            _ => None,
        })
        .collect();
    assert_eq!(reversed, vec![(2, 11, 13), (3, 10, 13)]);
}

#[test]
fn split_matches_show_in_each_pane() {
    let mut app = app(41, 24);
    press(&mut app, "s");
    press(&mut app, "/");
    press(&mut app, "o");
    press(&mut app, "n");
    press(&mut app, "e");
    let c = app.render();
    let spans: Vec<_> = c
        .ops
        .iter()
        .filter_map(|o| match o {
            Op::Restyle { y, x0, x1, .. } => Some((*y, *x0, *x1)),
            _ => None,
        })
        .collect();
    assert_eq!(spans, vec![(2, 6, 9), (2, 27, 30)]);
}

#[test]
fn idle_screen_has_a_note_and_the_mascot() {
    let mut app = app(80, 24);
    assert!(!app.shows_mascot());
    app.ui.mascot = Some((3, 3));
    app.render();
    assert!(app.ui.mascot.is_none());
    app.start(None);
    assert!(app.shows_mascot());
    assert!(app.mascot_fits());
    let c = app.render_empty();
    assert_eq!(puts(&c, 22), vec![put(31, "working tree clean")]);
}

#[test]
fn mascot_is_drawn_in_half_blocks() {
    let app = app(80, 24);
    let grid = frame(false, 0, Face::Normal, 1, 0);
    let c = draw_mascot(&app.theme, false, &grid, 5, 2);
    assert!(c.ops.iter().all(|o| match o {
        Op::Put { x, y, .. } | Op::Over { x, y, .. } => {
            (5..16).contains(x) && (2..6).contains(y)
        }
        _ => false,
    }));
    // Eyes are black, the rest takes the body's color, or the accent's.
    let calm = Op::Put {
        x: 0,
        y: 0,
        text: " ".into(),
        style: Style { bg: Some(app.theme.mascot_body), ..Style::default() },
    };
    let same = |a: &Op, b: &Op| match (a, b) {
        (Op::Put { text, style, .. }, Op::Put { text: t, style: s, .. }) => text == t && style == s,
        _ => false,
    };
    assert!(c.ops.iter().any(|o| same(o, &calm)));
    assert!(c.ops.iter().any(|o| matches!(
        o,
        Op::Put { style, .. } if style.fg == Some(Color::Black) || style.bg == Some(Color::Black)
    )));
    let flash = draw_mascot(&app.theme, true, &grid, 5, 2);
    assert!(!flash.ops.iter().any(|o| same(o, &calm)) || app.theme.mascot_body == app.theme.mascot_accent);
    // Nothing is drawn where both pixels are clear.
    assert!(c.ops.len() < 44);
    assert!(grid.iter().all(|r| r.len() == 11));
    assert!(grid.iter().any(|r| r.contains(&Pixel::Body)));
}

#[test]
fn moods_and_chance() {
    assert_eq!(idle_mood(0), Face::Normal);
    assert_eq!(idle_mood(3), Face::Happy);
    assert_eq!(idle_mood(13), Face::Happy);
    assert_ne!(next_random(1), 1);
    assert_ne!(next_random(1), 0);
}

#[test]
fn names_are_shortened_at_the_front() {
    assert_eq!(shorten("src/lib.rs", 10, MEASURE), "src/lib.rs");
    assert_eq!(shorten("src/lib.rs", 7, MEASURE), "…lib.rs");
    assert_eq!(width("世x", MEASURE), 3);
}

#[test]
fn poking_and_dragging_the_mascot() {
    let mut app = app(80, 24);
    app.ui.mascot = Some((10, 5));
    app.ui.mascot_pinned = true;
    assert!(matches!(app.handle(&Event::MouseClick(12, 6, true), 0, false), Action::Poke));
    assert_eq!(app.ui.mascot_grab, Some((2, 1)));
    assert!(matches!(
        app.handle(&Event::MouseMove(32, 11), 0, false),
        Action::DragMascot(30, 10, 80, 23)
    ));
    assert!(matches!(app.handle(&Event::MouseRelease(true), 0, false), Action::DropMascot));
    assert!(app.ui.mascot_grab.is_none());
}
