use git_review::layout::pager_columns;
use git_review::pager::{
    append_patch_line, find_file_sections, push_patch_line, lines_of, styled_diff_line, styled_diff_lines, App,
    PatchLineKind, NO_CHANGES, TITLE_EMPTY, TITLE_KEYS,
};
use git_review::style::{Color, Modifier, Rect};
use git_review::tui::action::KeyCode;

const PATCH: &str = "diff --git a/one.rs b/one.rs\nindex 1..2\n--- a/one.rs\n+++ b/one.rs\n@@ -1 +1 @@\n-old\n+new\ndiff --git a/two.rs b/two.rs\n@@ -3 +3 @@\n context\r\n";

#[test]
fn splits_lines_like_str_lines() {
    assert_eq!(lines_of("a\nb\r\nc"), vec!["a", "b", "c"]);
    assert_eq!(lines_of("a\n\nb\n"), vec!["a", "", "b"]);
    assert_eq!(lines_of(""), Vec::<String>::new());
    assert_eq!(lines_of("x\r"), vec!["x\r"]);
}

#[test]
fn finds_file_sections() {
    let lines = lines_of(PATCH);
    let files = find_file_sections(&lines);
    assert_eq!(files.len(), 2);
    assert_eq!(files[0].name, "one.rs");
    assert_eq!(files[0].start_line, 0);
    assert_eq!(files[1].name, "two.rs");
    assert_eq!(files[1].start_line, 7);
}

#[test]
fn sections_fall_back_to_one_diff() {
    let files = find_file_sections(&["plain text".to_owned()]);
    assert_eq!(files.len(), 1);
    assert_eq!(files[0].name, "Diff");
    assert!(find_file_sections(&[]).is_empty());
    let odd = find_file_sections(&["diff --git b/b/x".to_owned()]);
    assert_eq!(odd[0].name, "x");
}

#[test]
fn styles_patch_lines() {
    let header = styled_diff_line("diff --git a/x b/x");
    assert_eq!(header.spans.len(), 1);
    assert_eq!(header.spans[0].style.fg, Some(Color::Blue));
    assert_eq!(header.spans[0].style.add_modifier, Modifier { bits: 1 });
    assert_eq!(styled_diff_line("@@ -1 +1 @@").spans[0].style.fg, Some(Color::Magenta));
    assert_eq!(styled_diff_line("+++ b/x").spans[0].style.fg, Some(Color::Blue));
    assert_eq!(styled_diff_line("+x").spans[0].style.fg, Some(Color::Green));
    assert_eq!(styled_diff_line("-x").spans[0].style.fg, Some(Color::Red));
    assert_eq!(styled_diff_line(" x").spans[0].style.fg, None);
    let empty = styled_diff_lines(&[]);
    assert_eq!(empty.len(), 1);
    assert_eq!(empty[0].spans[0].content, NO_CHANGES);
    assert_eq!(empty[0].spans[0].style.fg, Some(Color::DarkGray));
}

#[test]
fn pager_keys_move_through_the_patch() {
    let mut app = App::new(PATCH.to_owned());
    assert_eq!(app.title(), TITLE_KEYS);
    assert_eq!(app.list_selection(), Some(0));
    app.handle_key(KeyCode::Char('n'));
    assert_eq!(app.selected_file, 1);
    assert_eq!(app.scroll, 7);
    app.handle_key(KeyCode::Char('k'));
    assert_eq!(app.scroll, 6);
    assert_eq!(app.selected_file, 0);
    app.handle_key(KeyCode::End);
    assert_eq!(app.scroll, 9);
    assert_eq!(app.selected_file, 1);
    app.handle_key(KeyCode::Char('g'));
    assert_eq!(app.scroll, 0);
    assert_eq!(app.selected_file, 0);
    app.handle_key(KeyCode::Char('p'));
    assert_eq!(app.selected_file, 0);
    app.handle_key(KeyCode::PageDown);
    assert_eq!(app.scroll, 20);
    assert_eq!(app.selected_file, 1);
    app.handle_key(KeyCode::Char('u'));
    assert_eq!(app.scroll, 0);
    app.handle_key(KeyCode::Char('x'));
    assert!(!app.should_quit);
    app.handle_key(KeyCode::Esc);
    assert!(app.should_quit);
}

#[test]
fn pager_scroll_round_trip() {
    let mut app = App::new(PATCH.to_owned());
    app.scroll_down(3);
    app.scroll_up(3);
    assert_eq!(app.scroll, 0);
    assert_eq!(app.selected_file, 0);
    app.scroll = u16::MAX - 1;
    app.scroll_down(5);
    assert_eq!(app.scroll, u16::MAX);
}

#[test]
fn empty_pager() {
    let app = App::new(String::new());
    assert_eq!(app.title(), TITLE_EMPTY);
    assert_eq!(app.list_selection(), None);
}

#[test]
fn patch_lines_get_their_marks() {
    let mut out = String::new();
    append_patch_line(&mut out, PatchLineKind::Addition, '+', b"new\n");
    append_patch_line(&mut out, PatchLineKind::AddEofnl, '>', b"\n\\ No newline\n");
    append_patch_line(&mut out, PatchLineKind::HunkHeader, 'H', b"@@ -1 +1 @@\n");
    append_patch_line(&mut out, PatchLineKind::Context, ' ', &[0x66, 0xff, 0x0a]);
    assert_eq!(out, "+new\n\\\n\\ No newline\n@@ -1 +1 @@\n f\u{fffd}\n");
}

#[test]
fn pager_columns_split_the_screen() {
    let (files, diff) = pager_columns(Rect { x: 0, y: 0, width: 100, height: 10 });
    assert_eq!(files, Rect { x: 0, y: 0, width: 32, height: 10 });
    assert_eq!(diff, Rect { x: 32, y: 0, width: 68, height: 10 });
}

#[test]
fn header_lines_get_no_mark() {
    let mut out = String::from(">");
    push_patch_line(&mut out, PatchLineKind::FileHeader, 'F', "diff --git a/x b/x\n");
    push_patch_line(&mut out, PatchLineKind::Deletion, '-', "gone\n");
    assert_eq!(out, ">diff --git a/x b/x\n-gone\n");
}
