use drift::diff::{
    parse, parse_hunk_header, preamble, split_files, totals, FileDiff, LineKind,
};

#[test]
fn preamble_captures_header_and_ends_with_one_blank() {
    let show = "commit abc123\nAuthor:     A U Thor <a@u.thor>\nAuthorDate: Mon Jan 1 00:00:00 2024\n\n    Subject line\n\n    Body paragraph.\n\n\ndiff --git a/f b/f\nindex 1..2 100644\n--- a/f\n+++ b/f\n@@ -1 +1 @@\n-a\n+b\n";
    let meta = preamble(show);
    assert_eq!(meta.first().unwrap(), "commit abc123");
    assert!(meta.iter().any(|l| l == "    Subject line"));
    assert!(meta.iter().any(|l| l == "    Body paragraph."));
    // Multiple trailing blanks collapse to exactly one separator line.
    assert_eq!(meta.last().unwrap(), "");
    assert_ne!(meta[meta.len() - 2], "");
}

#[test]
fn preamble_is_empty_for_plain_diff() {
    assert!(preamble(SAMPLE).is_empty());
}

const SAMPLE: &str = "diff --git a/src/main.rs b/src/main.rs\n\
index 1234567..89abcde 100644\n\
--- a/src/main.rs\n\
+++ b/src/main.rs\n\
@@ -1,4 +1,4 @@\n\
 fn main() {\n\
-    println!(\"hello\");\n\
+    println!(\"hello world\");\n\
 let x = 1;\n\
 }\n";

#[test]
fn parses_single_file() {
    let files = parse(SAMPLE);
    assert_eq!(files.len(), 1);
    assert_eq!(files[0].path(), "src/main.rs");
    assert_eq!(files[0].hunks.len(), 1);
    let lines = &files[0].hunks[0].lines;
    assert_eq!(lines[0].kind, LineKind::Context);
    assert_eq!(lines[1].kind, LineKind::Remove);
    assert_eq!(lines[2].kind, LineKind::Add);
    assert_eq!(lines[0].new_no, Some(1));
    assert_eq!(lines[2].new_no, Some(2));
    assert_eq!(lines[3].old_no, Some(3));
}

#[test]
fn strips_mnemonic_prefixes() {
    // diff.mnemonicPrefix=true emits c/ (commit) and w/ (worktree) instead
    // of a/ b/. Both the header split and the ---/+++ lines must resolve to
    // the real path so display and open work.
    let diff = "diff --git c/src/main.rs w/src/main.rs\n\
index e69de29..0cfbf08 100644\n\
--- c/src/main.rs\n\
+++ w/src/main.rs\n\
@@ -1 +1 @@\n\
-old\n\
+new\n";
    let files = parse(diff);
    assert_eq!(files.len(), 1);
    assert_eq!(files[0].path(), "src/main.rs");
}

#[test]
fn strips_ansi_so_colorized_diff_parses() {
    // Git colorizes the diff it pipes to a pager (color.diff auto-on for
    // pagers). The raw bytes carry SGR codes and mnemonic i/ w/ prefixes,
    // exactly as captured from `git -c pager.diff=drift diff`.
    let colored = "\x1b[33mdiff --git i/f.txt w/f.txt\x1b[m\n\
\x1b[33mindex de98044..4657bb7 100644\x1b[m\n\
\x1b[33m--- i/f.txt\x1b[m\n\
\x1b[33m+++ w/f.txt\x1b[m\n\
\x1b[36m@@ -1,3 +1,3 @@\x1b[m\n\
 a\n\
\x1b[31m-b\x1b[m\n\
\x1b[32m+CHANGED\x1b[m\n\
 c\n";
    // Raw colorized text parses to nothing (the bug).
    assert_eq!(parse(colored).len(), 0);
    // After stripping it parses cleanly.
    let files = parse(&uncurses::ansi::strip::strip(colored));
    assert_eq!(files.len(), 1);
    assert_eq!(files[0].path(), "f.txt");
    let lines = &files[0].hunks[0].lines;
    assert_eq!(lines[1].kind, LineKind::Remove);
    assert_eq!(lines[2].kind, LineKind::Add);
    assert_eq!(lines[2].content, "CHANGED");
    assert!(!lines[2].content.contains('\x1b'));
}

#[test]
fn intraline_marks_changed_word() {
    let files = parse(SAMPLE);
    let lines = &files[0].hunks[0].lines;
    let add = &lines[2];
    assert!(!add.segments.is_empty(), "paired add should be segmented");
    assert!(add.segments.iter().any(|s| s.changed));
    assert!(add.segments.iter().any(|s| !s.changed));
    let joined: String = add.segments.iter().map(|s| s.text.as_str()).collect();
    assert_eq!(joined, add.content);
}

#[test]
fn intraline_handles_cjk_and_accents() {
    // Multibyte content must parse intact and word-diff on char boundaries
    // (never byte offsets): CJK words and accented Latin, with a space so
    // the shared prefix stays unchanged and only the last word is marked.
    let d = "diff --git a/文書.txt b/文書.txt\n\
index 1..2 100644\n\
--- a/文書.txt\n\
+++ b/文書.txt\n\
@@ -1,2 +1,2 @@\n\
-你好 世界\n\
+你好 宇宙\n\
-café crème\n\
+café glacé\n";
    let files = parse(d);
    assert_eq!(files.len(), 1);
    assert_eq!(files[0].path(), "文書.txt");
    let lines = &files[0].hunks[0].lines;
    let cjk_add = &lines[1];
    assert_eq!(cjk_add.content, "你好 宇宙");
    // Segments must reassemble to the exact content — proof no multibyte
    // char was split or dropped by the word-diff.
    let joined: String = cjk_add.segments.iter().map(|s| s.text.as_str()).collect();
    assert_eq!(joined, cjk_add.content);
    assert!(cjk_add.segments.iter().any(|s| s.changed && s.text.contains("宇宙")));
    assert!(cjk_add.segments.iter().any(|s| !s.changed && s.text.contains("你好")));
    // Accented Latin behaves the same.
    let acc_add = &lines[3];
    let joined: String = acc_add.segments.iter().map(|s| s.text.as_str()).collect();
    assert_eq!(joined, acc_add.content);
    assert!(acc_add.segments.iter().any(|s| s.changed && s.text.contains("glacé")));
}

#[test]
fn handles_new_and_binary() {
    let d = "diff --git a/a.png b/a.png\nnew file mode 100644\nindex 0..1\nBinary files /dev/null and b/a.png differ\n";
    let files = parse(d);
    assert_eq!(files.len(), 1);
    assert!(files[0].is_binary);
    assert!(files[0].notes.iter().any(|n| n == "new file"));
}

#[test]
fn multiple_files() {
    let d = format!("{SAMPLE}diff --git a/b.txt b/b.txt\n--- a/b.txt\n+++ b/b.txt\n@@ -1 +1 @@\n-old\n+new\n");
    let files = parse(&d);
    assert_eq!(files.len(), 2);
    assert_eq!(files[1].path(), "b.txt");
}

#[test]
fn split_files_matches_parse_and_drops_preamble() {
    // A `git show` preamble before the first `diff --git` is discarded, and
    // the section count/order lines up 1:1 with parse().
    let d = format!(
        "commit abc\nAuthor: x\n\n    msg\n\n{SAMPLE}diff --git a/b.txt b/b.txt\n--- a/b.txt\n+++ b/b.txt\n@@ -1 +1 @@\n-old\n+new\n"
    );
    let sections = split_files(&d);
    let files = parse(&d);
    assert_eq!(sections.len(), files.len());
    assert!(sections[0].starts_with("diff --git a/src/main.rs"));
    assert!(sections[1].starts_with("diff --git a/b.txt"));
    assert!(sections[1].contains("+new"));
    // No commit preamble leaked into the first section.
    assert!(!sections[0].contains("commit abc"));
}

#[test]
fn per_block_parse_equals_whole() {
    // A piped diff is streamed: each `diff --git` block is parsed
    // as it arrives instead of the whole diff at once. That's only correct
    // if parsing blocks independently yields the same files, in order, as
    // parsing everything together. Lock that invariant.
    let d = format!(
        "commit abc\n\n{SAMPLE}diff --git a/b.txt b/b.txt\n--- a/b.txt\n+++ b/b.txt\n@@ -1 +1 @@\n-old\n+new\n"
    );
    let whole = parse(&d);
    let streamed: Vec<FileDiff> = split_files(&d)
        .iter()
        .filter_map(|block| parse(block).into_iter().next())
        .collect();
    assert_eq!(streamed.len(), whole.len());
    for (s, w) in streamed.iter().zip(&whole) {
        assert_eq!(s.path(), w.path());
        assert_eq!(s.hunks.len(), w.hunks.len());
        assert_eq!(s.is_binary, w.is_binary);
    }
}

#[test]
fn sections_keep_their_line_ends() {
    let d = "diff --git a/f b/f\n--- a/f\n+++ b/f\n@@ -1 +1 @@\n-a\r\n+b\r\n";
    assert_eq!(split_files(d), vec![d.to_string()]);
    // Lines are read without them.
    assert_eq!(parse(d)[0].hunks[0].lines[1].content, "b");
    // Nothing is added behind a last line without a line feed.
    let open = "commit abc\n\ndiff --git a/f b/f\n-a\r\r\ndiff --git a/g b/g\n+b";
    let sections = split_files(open);
    assert_eq!(sections, vec!["diff --git a/f b/f\n-a\r\r\n", "diff --git a/g b/g\n+b"]);
    // Joined they are the diff from its first section on, and split as before.
    assert_eq!(sections.concat(), &open["commit abc\n\n".len()..]);
    assert_eq!(split_files(&sections.concat()), sections);
    assert!(split_files("no diff here\n").is_empty());
}

#[test]
fn the_heading_of_a_hunk_is_no_range() {
    let header = |s: &str| parse_hunk_header(&s.chars().collect::<Vec<char>>());
    assert_eq!(header("@@ -10,3 +20,4 @@ a - b"), (10, 20));
    assert_eq!(header("@@ -10,3 +20,4 @@ x +7 -8 @@ -9"), (10, 20));
    assert_eq!(header("@@ -5 +6 @@"), (5, 6));
    assert_eq!(header("@@@ -1,2 -3,4 +5,6 @@@ -9"), (3, 5));
    assert_eq!(header("-5 +7"), (5, 7));
    assert_eq!(header("@@"), (1, 1));
    assert_eq!(header(""), (1, 1));
    let d = "diff --git a/f b/f\n--- a/f\n+++ b/f\n@@ -10 +20 @@ i - 1\n-a\n+b\n";
    let lines = &parse(d)[0].hunks[0].lines;
    assert_eq!(lines[0].old_no, Some(10));
    assert_eq!(lines[1].new_no, Some(20));
}

#[test]
fn totals_add_up() {
    let d = format!("{SAMPLE}diff --git a/b.txt b/b.txt\n--- a/b.txt\n+++ b/b.txt\n@@ -1 +1,2 @@\n-old\n+new\n+more\n");
    let files = parse(&d);
    let (n, add, del) = totals(&files);
    let (a, b) = (totals(&files[..1]), totals(&files[1..]));
    assert_eq!((n, add, del), (a.0 + b.0, a.1 + b.1, a.2 + b.2));
    assert_eq!(b, (1, 2, 1));
    assert_eq!((b.1, b.2), files[1].stats());
    assert_eq!(totals(&[]), (0, 0, 0));
}
