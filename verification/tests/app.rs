use drift::app::{App, Doc, Mode, Screen, Source};
use drift::config::Config;
use drift::diff::{parse, split_files, FileDiff};
use drift::events::Event;
use drift::handle::{Action, Wheel};
use drift::keys::{command, typed_text, Command, Key, KeyCode};
use drift::outside::{Measure, WidthMode};
use drift::rows::{build_file_rows, Colored, RowKind};
use drift::select::{Pane, Sel};
use uncurses::event::KeyModifiers;

const TEXT: &str = "diff --git a/a.txt b/a.txt\n\
--- a/a.txt\n\
+++ b/a.txt\n\
@@ -1,3 +1,3 @@\n\
 one\n\
-two old\n\
+two new\n\
 three\n\
@@ -10,2 +10,2 @@\n\
 ten\n\
-eleven\n\
+Eleven\n\
diff --git a/b.txt b/b.txt\n\
new file mode 100644\n\
--- /dev/null\n\
+++ b/b.txt\n\
@@ -0,0 +1,2 @@\n\
+first\n\
+a much longer line that does not fit the width of a narrow terminal window at all\n";

fn plain(file: &FileDiff) -> Vec<Vec<Colored>> {
    file.hunks
        .iter()
        .map(|h| {
            h.lines
                .iter()
                .map(|l| vec![(None, l.content.clone())])
                .collect()
        })
        .collect()
}

fn screen(width: u16, height: u16) -> Screen {
    Screen {
        width,
        height,
        measure: Measure { mode: WidthMode::Grapheme, eaw_wide: false },
        split_left: width / 2,
    }
}

fn source() -> Source {
    Source { piped: false, worktree: true, all: false, context: None, expand: 0 }
}

fn app(width: u16, height: u16) -> App {
    let mut app = App::new(Config::load(None, None), source(), screen(width, height));
    app.start(Some(TEXT.to_string()));
    for i in 0..app.doc.files.len() {
        let body = build_file_rows(&app.doc.files[i], &plain(&app.doc.files[i]), true, 4);
        assert!(app.take_body(i, body));
    }
    app.arrived(true, false);
    app
}

/// The key press that a pattern such as `ctrl+c` names.
fn named(name: &str) -> Key {
    let k = name.parse::<uncurses::event::Key>().unwrap().normalized();
    Key {
        code: match k.code {
            uncurses::event::KeyCode::Char(c) => KeyCode::Char(c),
            code => KeyCode::Named(code.to_string()),
        },
        ctrl: k.modifiers.contains(KeyModifiers::CTRL),
        alt: k.modifiers.contains(KeyModifiers::ALT),
        shift: k.modifiers.contains(KeyModifiers::SHIFT),
        super_key: k.modifiers.contains(KeyModifiers::SUPER),
        hyper: k.modifiers.contains(KeyModifiers::HYPER),
        meta: k.modifiers.contains(KeyModifiers::META),
        text: k.text,
    }
}

fn key(name: &str) -> Event {
    Event::KeyPress(named(name))
}

fn press(app: &mut App, name: &str) -> Action {
    let ev = key(name);
    assert!(app.can_handle(&ev));
    app.handle(&ev, 1000, true)
}

fn send(app: &mut App, ev: Event, now: u64) -> Action {
    assert!(app.can_handle(&ev));
    app.handle(&ev, now, true)
}

#[test]
fn starts_at_the_top_of_the_document() {
    let app = app(80, 24);
    assert_eq!(app.doc.files.len(), 2);
    assert_eq!(app.doc.raw, split_files(TEXT));
    assert_eq!(app.doc.starts, vec![0, 10]);
    assert_eq!(app.doc.rows.len(), 14);
    assert_eq!((app.nav.cursor, app.nav.scroll, app.nav.selected), (0, 0, 0));
    assert_eq!(app.last_diff, TEXT);
}

#[test]
fn start_without_a_diff_is_empty() {
    let mut app = app(80, 24);
    app.start(None);
    assert!(app.doc.files.is_empty());
    assert!(app.doc.rows.is_empty());
    assert_eq!(app.last_diff, "");
}

#[test]
fn motions_move_the_cursor() {
    let mut app = app(80, 24);
    press(&mut app, "j");
    assert_eq!(app.nav.cursor, 1);
    press(&mut app, "k");
    press(&mut app, "k");
    assert_eq!(app.nav.cursor, 0);
    press(&mut app, "G");
    assert_eq!((app.nav.cursor, app.nav.selected), (13, 1));
    press(&mut app, "g");
    assert_eq!((app.nav.cursor, app.nav.selected), (0, 0));
    // Hunk by hunk.
    press(&mut app, "}");
    assert_eq!(app.nav.cursor, 1);
    press(&mut app, "}");
    assert_eq!(app.nav.cursor, 6);
    press(&mut app, "{");
    assert_eq!(app.nav.cursor, 1);
}

#[test]
fn viewport_follows_the_cursor() {
    let mut app = app(80, 6);
    press(&mut app, "G");
    // One row up the headers of the first file would hide the last line.
    assert_eq!((app.nav.cursor, app.nav.scroll), (13, 10));
    assert!(app.sticky_rows().is_empty());
    assert_eq!(app.max_scroll(), 11);
    // On the header of the second hunk only that of the file is pinned.
    press(&mut app, "g");
    app.set_cursor(8);
    assert_eq!((app.nav.scroll, app.sticky_rows()), (6, vec![0]));
    assert_eq!(app.viewport_rows(), 4);
    press(&mut app, "g");
    assert_eq!(app.nav.scroll, 0);
    // Paging drags the cursor along only where it would leave the window.
    press(&mut app, "ctrl+e");
    assert_eq!((app.nav.scroll, app.nav.cursor), (1, 1));
}

#[test]
fn quit_and_suspend_and_reload() {
    let mut app = app(80, 24);
    assert!(matches!(press(&mut app, "q"), Action::Quit));
    assert!(matches!(press(&mut app, "ctrl+z"), Action::Suspend));
    assert!(matches!(app.handle(&key("ctrl+z"), 0, false), Action::Idle));
    assert!(matches!(press(&mut app, "r"), Action::Reload));
    app.source.piped = true;
    assert!(matches!(press(&mut app, "r"), Action::Idle));
}

#[test]
fn watch_is_off_for_a_piped_diff() {
    let mut app = app(80, 24);
    app.begin_watch(true);
    assert!(app.ui.watch);
    assert!(matches!(app.on_refresh(), Action::Reload));
    app.source.piped = true;
    app.begin_watch(true);
    assert!(!app.ui.watch);
    assert!(matches!(app.on_refresh(), Action::Idle));
}

#[test]
fn enter_expands_context_on_a_hunk_header() {
    let mut app = app(80, 24);
    // Elsewhere it opens the file at the cursor.
    assert!(matches!(press(&mut app, "enter"), Action::Edit));
    assert_eq!(app.source.expand, 0);
    press(&mut app, "j");
    assert!(matches!(press(&mut app, "enter"), Action::Reload));
    assert_eq!(app.source.expand, 10);
    assert_eq!(app.effective_context(), Some(13));
    app.source.context = Some(1);
    assert_eq!(app.effective_context(), Some(11));
    // A piped diff has neither.
    app.source.piped = true;
    assert!(matches!(press(&mut app, "enter"), Action::Idle));
    press(&mut app, "k");
    assert!(matches!(press(&mut app, "enter"), Action::Idle));
    assert_eq!(app.source.expand, 10);
}

#[test]
fn search_finds_steps_and_restores() {
    let mut app = app(80, 24);
    press(&mut app, "j");
    press(&mut app, "/");
    assert_eq!(app.search.input.as_deref(), Some(""));
    for c in ["e", "l", "e"] {
        press(&mut app, c);
    }
    // All lower case: either case matches.
    assert_eq!(app.search.query, "ele");
    assert_eq!(app.search.matches, vec![(8, 0, 3), (9, 0, 3)]);
    assert_eq!(app.nav.cursor, 8);
    // Typed while the prompt is open, so no motion.
    press(&mut app, "backspace");
    assert_eq!(app.search.query, "el");
    press(&mut app, "escape");
    assert_eq!((app.nav.cursor, app.search.query.as_str()), (1, ""));
    assert!(app.search.input.is_none());
    // An upper-case letter asks for the exact case.
    press(&mut app, "/");
    press(&mut app, "E");
    press(&mut app, "enter");
    assert_eq!(app.search.matches, vec![(9, 0, 1)]);
    assert_eq!(app.nav.cursor, 9);
    // Escape then drops the search.
    press(&mut app, "escape");
    assert_eq!(app.search.query, "");
    assert!(app.search.matches.is_empty());
}

#[test]
fn steps_through_matches_wrap_around() {
    let mut app = app(80, 24);
    press(&mut app, "/");
    press(&mut app, "t");
    press(&mut app, "w");
    press(&mut app, "enter");
    assert_eq!(app.search.matches, vec![(3, 0, 2), (4, 0, 2)]);
    assert_eq!(app.nav.cursor, 3);
    press(&mut app, "n");
    assert_eq!(app.nav.cursor, 4);
    press(&mut app, "n");
    assert_eq!(app.nav.cursor, 3);
    press(&mut app, "N");
    assert_eq!(app.nav.cursor, 4);
}

#[test]
fn a_pattern_that_does_not_compile_finds_nothing() {
    let mut app = app(80, 24);
    press(&mut app, "/");
    press(&mut app, "(");
    assert_eq!(app.search.query, "(");
    assert!(app.search.matches.is_empty());
}

#[test]
fn copies_a_line_a_selection_and_a_file() {
    let mut app = app(80, 24);
    app.set_cursor(4);
    match press(&mut app, "y") {
        Action::Copy(text) => assert_eq!(text, "two new"),
        _ => panic!("nothing copied"),
    }
    assert_eq!(app.flash.as_ref().unwrap().text, "copied 1 line");
    press(&mut app, "V");
    press(&mut app, "j");
    match press(&mut app, "y") {
        Action::Copy(text) => assert_eq!(text, "two new\nthree"),
        _ => panic!("nothing copied"),
    }
    assert_eq!(app.flash.as_ref().unwrap().text, "copied 2 lines");
    assert!(app.ui.sel.is_none());
    assert!(app.ui.visual.is_none());
    match press(&mut app, "Y") {
        Action::Copy(text) => assert_eq!(text, split_files(TEXT)[0]),
        _ => panic!("nothing copied"),
    }
    assert_eq!(app.flash.as_ref().unwrap().text, "copied file diff");
    // The note fades after two seconds.
    app.expire_flash(2999);
    assert!(app.flash.is_some());
    app.expire_flash(3000);
    assert!(app.flash.is_none());
}

#[test]
fn visual_selection_follows_the_cursor() {
    let mut app = app(80, 24);
    app.set_cursor(3);
    press(&mut app, "V");
    press(&mut app, "j");
    assert_eq!(app.ui.sel.unwrap().ordered(), (3, 0, 4, usize::MAX));
    // The wheel keeps it, Escape drops it.
    send(&mut app, Event::MouseWheel(Wheel::Down), 0);
    assert!(app.ui.sel.is_some());
    press(&mut app, "escape");
    assert!(app.ui.sel.is_none());
    assert!(app.ui.visual.is_none());
}

#[test]
fn three_quick_escapes_toggle_the_mascot() {
    let mut app = app(80, 24);
    send(&mut app, key("escape"), 0);
    send(&mut app, key("escape"), 500);
    assert!(!app.ui.mascot_pinned);
    send(&mut app, key("escape"), 1000);
    assert!(app.ui.mascot_pinned);
    // Too slow a tap starts over.
    send(&mut app, key("escape"), 2000);
    send(&mut app, key("escape"), 2600);
    send(&mut app, key("escape"), 2700);
    assert!(app.ui.mascot_pinned);
}

#[test]
fn escape_never_closes_help() {
    let mut app = app(80, 24);
    press(&mut app, "?");
    assert!(app.ui.help_open);
    press(&mut app, "escape");
    assert!(app.ui.help_open);
    press(&mut app, "?");
    assert!(!app.ui.help_open);
}

#[test]
fn typed_text_is_what_a_key_produces() {
    let typed = |name: &str| typed_text(&named(name));
    assert_eq!(typed("a"), Some("a".to_string()));
    assert_eq!(typed("A"), Some("A".to_string()));
    assert_eq!(typed("ctrl+a"), None);
    assert_eq!(typed("alt+a"), None);
    assert_eq!(typed("super+a"), None);
    assert_eq!(typed("f1"), None);
    assert_eq!(typed("space"), Some(" ".to_string()));
    // Without a text of its own, or with one that cannot be shown, a key types
    // its character.
    assert_eq!(typed_text(&Key { text: None, ..named("a") }), Some("a".to_string()));
    assert_eq!(typed_text(&Key { text: None, ..named("space") }), Some(" ".to_string()));
    assert_eq!(
        typed_text(&Key { text: Some("\u{7}".to_string()), ..named("a") }),
        Some("a".to_string())
    );
    assert_eq!(typed_text(&Key { text: None, ..named("enter") }), None);
}

#[test]
fn keys_match_by_their_text_and_by_their_name() {
    assert_eq!(command(&named("G")), Command::Bottom);
    assert_eq!(command(&named("g")), Command::Top);
    assert_eq!(command(&named("shift+tab")), Command::PrevFile);
    assert_eq!(command(&named("tab")), Command::NextFile);
    // A key with the text of another one acts as that one.
    assert_eq!(
        command(&Key { text: Some("?".to_string()), ..named("shift+7") }),
        Command::Help
    );
    assert_eq!(command(&named("alt+q")), Command::Other);
    assert_eq!(command(&named("hyper+q")), Command::Other);
    assert_eq!(command(&named("meta+q")), Command::Other);
    assert_eq!(command(&named("super+q")), Command::Other);
    let unknown = Key { code: KeyCode::Named("no such key".to_string()), ..named("f1") };
    assert_eq!(command(&unknown), Command::Other);
}

#[test]
fn events_without_room_change_nothing() {
    let mut app = app(80, 24);
    app.ui.split = true;
    app.screen.width = 2;
    assert!(!app.can_handle(&key("l")));
    assert!(app.try_handle(&key("l"), 0, false).is_none());
    assert_eq!(app.nav.hscroll, 0);
    assert!(matches!(app.try_handle(&key("q"), 0, false), Some(Action::Quit)));
}

#[test]
fn events_that_lay_out_nothing_need_no_room() {
    let mut app = app(80, 24);
    app.ui.split = true;
    app.screen.width = 2;
    // Another button, and the badges of the status bar.
    assert!(!app.can_handle(&Event::MouseClick(0, 0, true)));
    assert!(matches!(
        app.try_handle(&Event::MouseClick(0, 0, false), 0, false),
        Some(Action::Idle)
    ));
    let footer = app.body_h_screen() as u16;
    app.ui.help_badge_x = 1;
    assert!(app.try_handle(&Event::MouseClick(0, footer, true), 0, false).is_some());
    assert!(app.ui.mascot_pinned);
    assert!(app.try_handle(&Event::MouseClick(1, footer, true), 0, false).is_some());
    assert!(app.ui.help_open);
    app.ui.help_open = false;
    // Going to a match where there is none.
    assert!(app.try_handle(&key("n"), 0, false).is_some());
    assert!(app.try_handle(&key("N"), 0, false).is_some());
    // Looking for what is not there; looking for what is leads to it.
    assert!(app.try_handle(&key("/"), 0, false).is_some());
    assert!(app.try_handle(&key("~"), 0, false).is_some());
    assert!(app.try_handle(&key("backspace"), 0, false).is_some());
    assert_eq!(app.search.input.as_deref(), Some(""));
    assert!(app.try_handle(&key("o"), 0, false).is_none());
    assert_eq!(app.search.input.as_deref(), Some(""));
}

#[test]
fn content_scrolls_no_further_than_it_goes() {
    let mut app = app(40, 24);
    press(&mut app, "$");
    // 81 columns of content in the 30 that gutter and sign leave.
    assert_eq!(app.nav.hscroll, 51);
    press(&mut app, "l");
    assert_eq!(app.nav.hscroll, 51);
    press(&mut app, "h");
    assert_eq!(app.nav.hscroll, 47);
    press(&mut app, "0");
    assert_eq!(app.nav.hscroll, 0);
}

#[test]
fn click_moves_the_cursor_and_starts_a_selection() {
    let mut app = app(80, 24);
    // Column 12 is content column 2: nine of gutter, one of sign.
    send(&mut app, Event::MouseClick(12, 3, true), 0);
    assert_eq!(app.nav.cursor, 3);
    assert_eq!(app.ui.sel.map(|s| (s.a_row, s.a_col, s.dragging)), Some((3, 2, true)));
    send(&mut app, Event::MouseMove(14, 4), 10);
    assert_eq!(app.ui.sel.map(|s| (s.c_row, s.c_col)), Some((4, 4)));
    send(&mut app, Event::MouseRelease(true), 20);
    assert_eq!(app.ui.sel.map(|s| s.dragging), Some(false));
    match press(&mut app, "y") {
        Action::Copy(text) => assert_eq!(text, "o old\ntwo"),
        _ => panic!("nothing copied"),
    }
    // A click with no drag selects nothing.
    send(&mut app, Event::MouseClick(12, 3, true), 5000);
    send(&mut app, Event::MouseRelease(true), 5010);
    assert!(app.ui.sel.is_none());
    // The right button does nothing.
    send(&mut app, Event::MouseClick(12, 7, false), 6000);
    assert_eq!(app.nav.cursor, 3);
}

#[test]
fn double_click_on_a_hunk_header_expands_it() {
    let mut app = app(80, 24);
    assert!(matches!(send(&mut app, Event::MouseClick(5, 1, true), 0), Action::Idle));
    assert!(matches!(send(&mut app, Event::MouseClick(6, 1, true), 399), Action::Reload));
    assert_eq!(app.source.expand, 10);
    assert!(app.ui.last_click.is_none());
    // Too slow.
    assert!(matches!(send(&mut app, Event::MouseClick(5, 1, true), 1000), Action::Idle));
    assert!(matches!(send(&mut app, Event::MouseClick(5, 1, true), 1400), Action::Idle));
}

#[test]
fn dragging_past_the_edge_scrolls() {
    let mut app = app(80, 6);
    send(&mut app, Event::MouseClick(12, 3, true), 0);
    send(&mut app, Event::MouseMove(12, 5), 10);
    assert_eq!(app.nav.scroll, 1);
    send(&mut app, Event::MouseMove(12, 0), 20);
    assert_eq!(app.nav.scroll, 0);
}

#[test]
fn sidebar_shows_resizes_and_selects() {
    let mut app = app(80, 24);
    assert_eq!(app.sidebar_w(), 0);
    press(&mut app, "B");
    assert_eq!(app.sidebar_w(), 30);
    assert_eq!((app.body_x(), app.body_w(), app.divider_x()), (30, 50, 29));
    // The second entry is the second file.
    send(&mut app, Event::MouseClick(3, 1, true), 0);
    assert_eq!((app.nav.selected, app.nav.cursor), (1, 10));
    // Dragging the divider keeps the sidebar between eight and half the screen.
    send(&mut app, Event::MouseClick(29, 2, true), 0);
    assert!(app.ui.resizing);
    send(&mut app, Event::MouseMove(19, 2), 0);
    assert_eq!(app.sidebar_w(), 20);
    send(&mut app, Event::MouseMove(79, 2), 0);
    assert_eq!(app.sidebar_w(), 40);
    send(&mut app, Event::MouseMove(0, 2), 0);
    assert_eq!(app.sidebar_w(), 8);
    send(&mut app, Event::MouseRelease(true), 0);
    assert!(!app.ui.resizing);
}

#[test]
fn sidebar_can_be_on_the_right() {
    let mut app = app(80, 24);
    app.config.sidebar = "always".into();
    app.config.sidebar_side = "right".into();
    assert_eq!((app.body_x(), app.body_w(), app.divider_x()), (0, 50, 50));
    assert!(app.in_sidebar(50));
    assert!(!app.in_sidebar(49));
}

#[test]
fn wide_screens_open_the_sidebar() {
    let mut app = app(150, 24);
    assert!(app.sidebar_visible());
    app.config.sidebar = "never".into();
    assert!(!app.sidebar_visible());
    let narrow = super_narrow();
    assert!(!narrow.has_room());
}

fn super_narrow() -> App {
    let mut app = app(80, 24);
    app.config.sidebar = "always".into();
    app.screen.width = 15;
    app
}

#[test]
fn split_divider_follows_the_pointer() {
    let mut app = app(81, 24);
    press(&mut app, "s");
    assert!(app.ui.split);
    assert_eq!(app.split_div_x(), 40);
    assert_eq!(app.pane_at(39), Some(Pane::Left));
    assert_eq!(app.pane_at(40), None);
    assert_eq!(app.pane_at(41), Some(Pane::Right));
    send(&mut app, Event::MouseClick(40, 5, true), 0);
    assert!(app.ui.resizing_split);
    assert!(matches!(send(&mut app, Event::MouseMove(30, 5), 0), Action::SplitTo(30, 80)));
    assert!(matches!(send(&mut app, Event::MouseMove(0, 5), 0), Action::SplitTo(2, 80)));
    assert!(matches!(send(&mut app, Event::MouseMove(80, 5), 0), Action::SplitTo(78, 80)));
}

#[test]
fn split_selection_reads_one_side() {
    let mut app = app(81, 24);
    press(&mut app, "s");
    // Row 4 is an added line: on the right, behind five of gutter and the sign.
    send(&mut app, Event::MouseClick(41 + 6, 2, true), 0);
    send(&mut app, Event::MouseMove(41 + 6 + 7, 5), 0);
    send(&mut app, Event::MouseRelease(true), 0);
    match press(&mut app, "y") {
        Action::Copy(text) => assert_eq!(text, "one\ntwo new\nthree"),
        _ => panic!("nothing copied"),
    }
}

#[test]
fn resize_settles_the_view() {
    let mut app = app(40, 24);
    press(&mut app, "$");
    press(&mut app, "G");
    app.ui.sel = Some(Sel::lines(0, 1));
    assert!(matches!(send(&mut app, Event::Resize(120, 8), 0), Action::Settle));
    assert!(app.ui.sel.is_none());
    assert_eq!((app.screen.width, app.screen.height), (120, 8));
    app.settle();
    assert_eq!(app.nav.hscroll, 0);
    assert!(app.nav.cursor < app.nav.scroll + app.viewport_rows());
}

#[test]
fn file_list_selects_and_closes() {
    let mut app = app(80, 24);
    press(&mut app, "F");
    assert_eq!(app.ui.mode, Mode::Stat);
    press(&mut app, "j");
    assert_eq!(app.nav.selected, 1);
    press(&mut app, "g");
    assert_eq!(app.nav.selected, 0);
    press(&mut app, "enter");
    assert_eq!(app.ui.mode, Mode::Diff);
}

#[test]
fn rebuilt_document_keeps_the_cursor() {
    let mut app = app(80, 24);
    app.set_cursor(9); // the added "Eleven"
    let text = format!("diff --git a/0.txt b/0.txt\n--- a/0.txt\n+++ b/0.txt\n@@ -1 +1 @@\n-x\n+y\n{TEXT}");
    assert!(app.poll_changed(&text));
    app.begin_rebuild(text.clone());
    assert!(!app.poll_changed(&text));
    let files = parse(&text);
    let raw = split_files(&text);
    let syntax: Vec<Vec<Vec<Colored>>> = files.iter().map(plain).collect();
    let doc = Doc::assembled(files, raw, &syntax, true, 4);
    // Each file starts at its header.
    assert_eq!(doc.starts, vec![0, 4, 14]);
    for (k, name) in ["0.txt", "a.txt", "b.txt"].iter().enumerate() {
        let row = &doc.rows[doc.starts[k]];
        assert_eq!(row.kind, RowKind::File);
        assert_eq!(row.spans[0].text, format!("diff --git a/{name} b/{name}"));
    }
    app.take_document(doc);
    assert_eq!(app.nav.cursor, 13);
    assert_eq!(app.doc.rows[13].new_no, Some(11));
    // The same document again changes nothing.
    let same = app.doc.clone();
    app.take_document(same);
    assert_eq!(app.nav.cursor, 13);
}

#[test]
fn piped_files_arrive_one_by_one() {
    let mut app = App::new(Config::load(None, None), source(), screen(80, 24));
    app.begin_stream();
    assert!(app.ui.loading);
    let mut stream = drift::stream::Stream::new();
    let mut sections = Vec::new();
    for line in TEXT.lines() {
        // Colors are stripped on the way, line ends are not.
        sections.extend(stream.feed(&format!("\u{1b}[32m{line}\u{1b}[m\n")));
    }
    sections.push(stream.block.clone());
    assert_eq!(sections, split_files(TEXT));
    for s in sections {
        let file = drift::stream::section_file(&s).unwrap().unwrap();
        let body = build_file_rows(&file, &plain(&file), true, 4);
        app.take_file(file, s, body);
    }
    app.arrived(true, true);
    assert!(!app.ui.loading);
    assert_eq!(app.doc.starts, vec![0, 10]);
    assert_eq!(drift::stream::section_file("no diff here\n").unwrap().map(|f| f.path().to_string()), None);
}

#[test]
fn piped_lines_keep_their_ends() {
    let text = "diff --git a/f b/f\n-a\r\ndiff --git a/g b/g\n+b";
    let mut stream = drift::stream::Stream::new();
    let mut sections = Vec::new();
    for line in text.split_inclusive('\n') {
        sections.extend(stream.feed(line));
    }
    sections.push(stream.block.clone());
    assert_eq!(sections, split_files(text));
    // An escape sequence that is left open does not swallow the end of its line.
    let mut stream = drift::stream::Stream::new();
    assert_eq!(stream.feed("a\u{1b}[31\r\n"), None);
    assert!(stream.block.ends_with("\r\n"));
}

#[test]
fn a_search_goes_on_to_files_that_arrive() {
    let mut app = App::new(Config::load(None, None), source(), screen(80, 24));
    app.start(Some(TEXT.to_string()));
    for name in ["/", "f", "i", "r", "s", "t", "enter"] {
        press(&mut app, name);
    }
    assert!(app.search.matches.is_empty());
    for i in 0..app.doc.files.len() {
        let body = build_file_rows(&app.doc.files[i], &plain(&app.doc.files[i]), true, 4);
        app.take_body(i, body);
    }
    app.arrived(true, false);
    assert_eq!(app.search.matches, vec![(12, 0, 5)]);
}

#[test]
fn editor_opens_at_the_line_under_the_cursor() {
    let mut app = app(80, 24);
    app.set_cursor(9);
    let call = app.open_editor("code  --wait ").unwrap();
    assert_eq!(call.program, "code");
    assert_eq!(call.args, vec!["--wait".to_string(), "+11".to_string()]);
    assert_eq!(call.path, "a.txt");
    // A header goes by the next line.
    app.set_cursor(10);
    assert_eq!(app.open_editor("vi").unwrap().args, vec!["+1".to_string()]);
    assert!(app.open_editor("  ").is_none());
    app.start(None);
    assert!(app.open_editor("vi").is_none());
}

#[test]
fn title_names_the_file() {
    let mut app = app(80, 24);
    assert_eq!(app.update_title(), Some("a.txt · drift".to_string()));
    assert_eq!(app.update_title(), None);
    app.start(None);
    assert_eq!(app.update_title(), Some("drift".to_string()));
}

#[test]
fn waits_no_longer_than_it_may() {
    let mut app = app(80, 24);
    assert_eq!(app.timeout(true, 0, 1000), 16);
    assert_eq!(app.timeout(false, 0, 1000), 200);
    app.set_flash("note".into(), 0);
    assert_eq!(app.timeout(false, 1900, 1000), 100);
    assert_eq!(app.timeout(false, 5000, 1000), 1);
    app.flash = None;
    app.begin_watch(true);
    assert_eq!(app.timeout(false, 0, 150), 150);
    assert_eq!(app.timeout(false, 0, 0), 1);
    app.ui.mascot_pinned = true;
    assert_eq!(app.timeout(false, 0, 150), 80);
    assert!(app.wants_poll(0, 1000, 1000, false));
    assert!(!app.wants_poll(0, 999, 1000, false));
    assert!(!app.wants_poll(0, 1000, 1000, true));
}
