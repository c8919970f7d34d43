use drift::cells::{fit, fit_tail, match_cells, slice_cells, slice_fit, text_cells};
use drift::diff::FileDiff;
use drift::mascot::{face, Face};
use drift::rows::RowKind::{self, Add, Context, File, Hunk};
use drift::rows::{expand_tabs, file_header_row, Row, Span};
use drift::scroll::{
    file_of_row, max_scroll_for, resolve_anchor_row, reveal_hit, sticky_at, Anchor, AnchorTarget,
};
use drift::select::{row_in_pane, Pane, Sel};
use regex::RegexBuilder;
use uncurses::text::{grapheme_cells, WidthMode};

fn cells(s: &str) -> Vec<(&str, u8)> {
    grapheme_cells(s, WidthMode::Grapheme, false).collect()
}

fn clip(s: &str, width: u16) -> (String, u16) {
    fit(&cells(s), width)
}

fn slice_h(s: &str, skip: u16, width: u16) -> (String, u16) {
    slice_fit(&cells(s), skip, width)
}

#[test]
fn mascot_face_reacts_to_drag_and_poke() {
    assert_eq!(face(true, false, 0, Face::Normal), Face::Dizzy, "dragging looks dizzy");
    assert_eq!(face(false, true, 0, Face::Normal), Face::Surprised, "a fresh poke looks surprised");
}

#[test]
fn reveal_pans_to_show_a_match() {
    // Already visible: unchanged.
    assert_eq!(reveal_hit(0, 5, 10, 72), 0);
    assert_eq!(reveal_hit(4, 5, 10, 72), 4);
    // Hit before the view: scroll left to its start.
    assert_eq!(reveal_hit(20, 5, 10, 72), 5);
    // Hit past the right edge: scroll right just enough to show its end.
    assert_eq!(reveal_hit(0, 100, 108, 72), 108 - 72);
    // Hit wider than the view: favour showing its start.
    assert_eq!(reveal_hit(0, 100, 200, 72), 100);
}

#[test]
fn slice_h_skips_columns_and_matches_clip_at_zero() {
    // At skip 0 it must be byte-identical to clip.
    assert_eq!(slice_h("hello world", 0, 5), clip("hello world", 5));
    // Skipping drops leading columns, then fits the budget.
    assert_eq!(slice_h("hello world", 6, 5), ("world".into(), 5));
    assert_eq!(slice_h("hello world", 3, 4), ("lo w".into(), 4));
    // Skipping past the end yields nothing.
    assert_eq!(slice_h("abc", 10, 5), (String::new(), 0));
    // A wide cluster straddling the skip boundary is dropped whole, never
    // split: "世界" is two 2-col clusters, skip=1 lands mid-"世".
    assert_eq!(slice_h("世界", 1, 4), ("界".into(), 2));
}

fn sel(a_row: usize, a_col: usize, c_row: usize, c_col: usize) -> Sel {
    Sel { a_row, a_col, c_row, c_col, dragging: false, pane: None }
}

#[test]
fn visual_selection_covers_whole_lines_in_both_directions() {
    // Downward: anchor row starts at column 0, cursor row runs to the end.
    assert_eq!(Sel::lines(2, 5).ordered(), (2, 0, 5, usize::MAX));
    // Upward: the same span, so the anchor row is still fully covered.
    assert_eq!(Sel::lines(5, 2).ordered(), (2, 0, 5, usize::MAX));
    // A single row is a full line, and never counts as an empty selection.
    assert_eq!(Sel::lines(3, 3).ordered(), (3, 0, 3, usize::MAX));
    assert!(!Sel::lines(3, 3).is_empty());
}

#[test]
fn split_selection_is_confined_to_its_pane() {
    // Left pane holds context, removals, and headers, not additions.
    assert!(row_in_pane(RowKind::Remove, Some(Pane::Left)));
    assert!(row_in_pane(RowKind::Context, Some(Pane::Left)));
    assert!(row_in_pane(RowKind::Hunk, Some(Pane::Left)));
    assert!(!row_in_pane(RowKind::Add, Some(Pane::Left)));
    // Right pane holds context, additions, and headers, not removals.
    assert!(row_in_pane(RowKind::Add, Some(Pane::Right)));
    assert!(row_in_pane(RowKind::Context, Some(Pane::Right)));
    assert!(!row_in_pane(RowKind::Remove, Some(Pane::Right)));
    // Unified view (None) selects every row kind.
    assert!(row_in_pane(RowKind::Add, None));
    assert!(row_in_pane(RowKind::Remove, None));
}

#[test]
fn file_header_uses_real_name_for_new_and_deleted_files() {
    let fd = |old: &str, new: &str| FileDiff {
        old_path: old.into(),
        new_path: new.into(),
        hunks: vec![],
        is_binary: false,
        notes: vec![],
    };
    let text = |f: &FileDiff| {
        file_header_row(f).spans.iter().map(|s| s.text.clone()).collect::<String>()
    };
    // New file: old side is /dev/null, but the header must show the real name.
    assert_eq!(text(&fd("/dev/null", "new.txt")), "diff --git a/new.txt b/new.txt");
    // Deleted file: new side is /dev/null.
    assert_eq!(text(&fd("old.txt", "/dev/null")), "diff --git a/old.txt b/old.txt");
    // Rename keeps both distinct paths.
    assert_eq!(text(&fd("from.txt", "to.txt")), "diff --git a/from.txt b/to.txt");
}

#[test]
fn file_of_row_maps_document_rows_to_files() {
    // Three files whose headers sit at rows 0, 5, 12.
    let starts = [0usize, 5, 12];
    assert_eq!(file_of_row(&starts, 0), 0); // first header
    assert_eq!(file_of_row(&starts, 4), 0); // last row of file 0
    assert_eq!(file_of_row(&starts, 5), 1); // exactly the next header
    assert_eq!(file_of_row(&starts, 11), 1);
    assert_eq!(file_of_row(&starts, 12), 2); // last file's header
    assert_eq!(file_of_row(&starts, 99), 2); // past the end stays in last
}

// Contract for a layout: the bound keeps the last row visible and leaves at
// most one blank row below it. Returns the blank-row count.
fn check(kinds: &[RowKind], starts: &[usize], body_h: usize) -> isize {
    let n = kinds.len();
    let m = max_scroll_for(kinds, starts, body_h);
    assert_eq!(m, max_scroll_for(kinds, starts, body_h), "bound must be pure");
    let k = sticky_at(kinds, starts, m, body_h).len();
    let last_visible = m as isize + (body_h as isize - k as isize) - 1;
    assert!(last_visible >= n as isize - 1, "last line hidden at the bottom");
    let blank = last_visible - (n as isize - 1);
    assert!((0..=1).contains(&blank), "over-reserved by {blank} rows");
    blank
}

#[test]
fn max_scroll_keeps_last_line_visible_without_jitter() {
    let starts = [0usize];
    let body_h = 8;

    // Non-boundary: second hunk at row 10, cand lands on plain content, the
    // band stays 2, so the last line rests flush at the bottom, no blank.
    let mut a = vec![File, Hunk];
    a.extend(std::iter::repeat(Context).take(8)); // rows 2..=9
    a.push(Hunk); // row 10
    a.extend(std::iter::repeat(Context).take(6)); // rows 11..=16
    assert_eq!(check(&a, &starts, body_h), 0, "flush bottom expected");

    // Boundary: second hunk at row 11 (== cand). There the band drops to 1, so
    // the last line is still visible but one row up. That single blank row is
    // accepted because at this boundary no offset is self-consistent.
    let mut b = vec![File, Hunk];
    b.extend(std::iter::repeat(Context).take(9)); // rows 2..=10
    b.push(Hunk); // row 11
    b.extend(std::iter::repeat(Context).take(5)); // rows 12..=16
    assert_eq!(check(&b, &starts, body_h), 1, "one blank row at the boundary");

    let n = b.len();
    let consistent = (0..n).any(|s| {
        let k = sticky_at(&b, &starts, s, body_h).len();
        s as isize == n as isize + k as isize - body_h as isize
    });
    assert!(!consistent, "no self-consistent offset should exist here");
}

#[test]
fn max_scroll_zero_when_everything_fits() {
    let kinds = [File, Hunk, Context, Context];
    assert_eq!(max_scroll_for(&kinds, &[0], 10), 0); // body taller than doc
    assert_eq!(max_scroll_for(&kinds, &[0], 4), 0); // exact fit
}

#[test]
fn sticky_at_pins_file_and_hunk_headers_above_scroll() {
    // File header, hunk, some lines, second hunk, more lines.
    let kinds = [File, Hunk, Context, Add, Hunk, Context, Context, Context];
    let starts = [0usize];
    let big = 100; // roomy body: nothing gets truncated
    // At the very top nothing is pinned.
    assert_eq!(sticky_at(&kinds, &starts, 0, big), Vec::<usize>::new());
    // Scrolled just past the file header: only the file header pins (the
    // first hunk at row 1 is still the top visible line, not above it).
    assert_eq!(sticky_at(&kinds, &starts, 1, big), vec![0]);
    // Inside the first hunk: file header + that hunk header pin.
    assert_eq!(sticky_at(&kinds, &starts, 3, big), vec![0, 1]);
    // Past the second hunk header: it replaces the first as the current one.
    assert_eq!(sticky_at(&kinds, &starts, 6, big), vec![0, 4]);
    // Landing exactly on the second hunk header pins only the file header:
    // that hunk header is itself the top visible line, so it isn't pinned.
    assert_eq!(sticky_at(&kinds, &starts, 4, big), vec![0]);
    // A cramped body keeps at least one content row (cap = body_h - 1).
    assert_eq!(sticky_at(&kinds, &starts, 6, 2), vec![0]);
    assert_eq!(sticky_at(&kinds, &starts, 6, 1), Vec::<usize>::new());
}

#[test]
fn sticky_at_second_file_ignores_earlier_files_headers() {
    // Two files; the second starts at row 3.
    let kinds = [File, Hunk, Context, File, Hunk, Context, Context];
    let starts = [0usize, 3];
    // Inside the second file's hunk: pin that file's header (3) and hunk (4),
    // never the first file's rows.
    assert_eq!(sticky_at(&kinds, &starts, 6, 100), vec![3, 4]);
    // Exactly on the second file's header row: nothing pins yet.
    assert_eq!(sticky_at(&kinds, &starts, 3, 100), Vec::<usize>::new());
}

fn fd(path: &str) -> FileDiff {
    FileDiff {
        old_path: path.into(),
        new_path: path.into(),
        hunks: vec![],
        is_binary: false,
        notes: vec![],
    }
}

fn row(kind: RowKind, old: Option<usize>, new: Option<usize>) -> Row {
    Row::new(kind, old, new, vec![Span { fg: None, changed: false, text: String::new() }])
}

#[test]
fn resolve_anchor_finds_line_hunk_and_fallbacks() {
    // Two files: a.txt (rows 0..=4) and b.txt (rows 5..=9). Each has a File
    // header, a Hunk header, then three content lines.
    let files = [fd("a.txt"), fd("b.txt")];
    let starts = [0usize, 5];
    let doc = vec![
        row(RowKind::File, None, None),          // 0
        row(RowKind::Hunk, None, None),          // 1
        row(RowKind::Context, Some(1), Some(1)), // 2
        row(RowKind::Remove, Some(2), None),     // 3
        row(RowKind::Add, None, Some(2)),        // 4
        row(RowKind::File, None, None),          // 5
        row(RowKind::Hunk, None, None),          // 6
        row(RowKind::Context, Some(1), Some(1)), // 7
        row(RowKind::Hunk, None, None),          // 8
        row(RowKind::Add, None, Some(9)),        // 9
    ];
    let anchor = |path: &str, target| Anchor { path: path.into(), target, screen_off: 0 };
    let at = |a: Anchor| resolve_anchor_row(&files, &starts, &doc, &a);
    // A new-side line number resolves within its file.
    assert_eq!(at(anchor("b.txt", AnchorTarget::Line(None, Some(9)))), 9);
    // A removed line (no new_no) falls back to old_no.
    assert_eq!(at(anchor("a.txt", AnchorTarget::Line(Some(2), None))), 3);
    // The nth hunk within a file (b.txt's second hunk is doc row 8).
    assert_eq!(at(anchor("b.txt", AnchorTarget::Hunk(1))), 8);
    // Start anchors to the file's header row.
    assert_eq!(at(anchor("b.txt", AnchorTarget::Start)), 5);
    // An unmatched line falls back to the file header.
    assert_eq!(at(anchor("a.txt", AnchorTarget::Line(None, Some(999)))), 0);
    // A vanished file falls back to the top of the document.
    assert_eq!(at(anchor("gone.txt", AnchorTarget::Start)), 0);
}

#[test]
fn search_maps_matches_to_columns() {
    let re = |p: &str, ci: bool| RegexBuilder::new(p).case_insensitive(ci).build().unwrap();
    // Substring hits map to (start_col, end_col) cell ranges, one per
    // occurrence. "o" appears twice in "hello world".
    let cells = text_cells("hello world");
    assert_eq!(match_cells(&cells, &re("o", false)), vec![(4, 5), (7, 8)]);
    // Smart-case: case-insensitive matches either case.
    let cells = text_cells("Foo BAR foo");
    assert_eq!(match_cells(&cells, &re("foo", true)), vec![(0, 3), (8, 11)]);
    // Case-sensitive only hits the exact case.
    assert_eq!(match_cells(&cells, &re("foo", false)), vec![(8, 11)]);
    // Regex metacharacters work: `\w+` spans each run of word chars.
    assert_eq!(match_cells(&cells, &re(r"\w+", false)), vec![(0, 3), (4, 7), (8, 11)]);
    // Wide chars: a match after a 2-column glyph lands on the right columns
    // and its end covers the full width of a wide match.
    let cells = text_cells("世x界");
    assert_eq!(match_cells(&cells, &re("x", false)), vec![(2, 3)]);
    assert_eq!(match_cells(&cells, &re("界", false)), vec![(3, 5)]);
    // No match; zero-width matches are skipped.
    assert!(match_cells(&cells, &re("z", false)).is_empty());
    assert!(match_cells(&cells, &re("", false)).is_empty());
}

fn span(text: &str) -> Span {
    Span { fg: None, changed: false, text: text.into() }
}

#[test]
fn expand_tabs_aligns_to_stops_across_spans() {
    // Leading tab expands to a full stop; a tab mid-column fills to the
    // next multiple of the tab width, counting columns across span breaks.
    let mut spans = vec![span("\tif"), span(" x\t{")];
    expand_tabs(&mut spans, 4);
    let joined: String = spans.iter().map(|s| s.text.as_str()).collect();
    assert_eq!(joined, "    if x    {");
    // tab=0 disables expansion (tabs left untouched).
    let mut spans = vec![span("\tx")];
    expand_tabs(&mut spans, 0);
    assert_eq!(spans[0].text, "\tx");
}

#[test]
fn selection_orders_reading_wise() {
    // Dragging up/backward still yields start-before-end.
    let s = sel(5, 8, 1, 2);
    assert_eq!(s.ordered(), (1, 2, 5, 8));
    let s = sel(1, 2, 5, 8);
    assert_eq!(s.ordered(), (1, 2, 5, 8));
}

#[test]
fn empty_selection_detected() {
    assert!(sel(3, 4, 3, 4).is_empty());
    assert!(!sel(3, 4, 3, 5).is_empty());
}

#[test]
fn slice_cells_clamps_and_trims() {
    // Whole line via an oversized end index, trailing blanks trimmed.
    let c = text_cells("    return 1   ");
    assert_eq!(slice_cells(&c, 0, usize::MAX), "    return 1");
    // A mid-line span.
    let c = text_cells("def foo():");
    assert_eq!(slice_cells(&c, 4, 7), "foo");
    // Start past the end yields empty.
    let c = text_cells("abc");
    assert_eq!(slice_cells(&c, 9, 9), "");
}

#[test]
fn wide_chars_occupy_two_cells() {
    // A wide grapheme takes two cells (glyph + continuation), so a cell
    // index maps 1:1 to a screen column. The continuation contributes "".
    let c = text_cells("a世b");
    assert_eq!(c.len(), 4);
    assert_eq!(slice_cells(&c, 0, 4), "a世b");
    // Selecting only the wide cell (not its continuation) still yields it.
    assert_eq!(slice_cells(&c, 1, 2), "世");
}

#[test]
fn clip_counts_display_columns() {
    // ASCII: one column per char.
    assert_eq!(clip("hello", 3), ("hel".into(), 3));
    assert_eq!(clip("hi", 10), ("hi".into(), 2));
    // Wide chars cost two columns; a budget of 3 fits one wide + nothing
    // more (the next wide would overflow), not two chars.
    assert_eq!(clip("世界", 3), ("世".into(), 2));
    assert_eq!(clip("世界", 4), ("世界".into(), 4));
    // A wide char never gets split across the boundary.
    assert_eq!(clip("a世", 2), ("a".into(), 1));
}

#[test]
fn fit_tail_keeps_end_width_aware() {
    let cells = cells("src/世界.rs");
    // Budget keeps the tail; a wide cluster is never split at the boundary.
    assert_eq!(fit_tail(&cells, 5), "界.rs");
    assert_eq!(fit_tail(&cells, 6), "界.rs");
    assert_eq!(fit_tail(&cells, 7), "世界.rs");
    // Zero budget keeps nothing.
    assert_eq!(fit_tail(&cells, 0), "");
}
