use git_review::layout::centered_rect;
use git_review::model::{Delta, DiffLoc, LineStatus};
use git_review::style::{Color, Modifier, Rect};
use git_review::tui::edit::{Edit, EditorError};
use git_review::tui::file_selector::FileSelector;
use git_review::tui::{App, Screen, Theme};

#[test]
fn test_hunks_point_at_their_text() {
    let delta = Delta::from_test_hunks(vec![(
        "@@ -1 +1 @@",
        vec![
            (LineStatus::Context, " ctx".to_string()),
            (LineStatus::Remove, "-gone".to_string()),
            (LineStatus::Add, "+new".to_string()),
            (LineStatus::Binary, "bin".to_string()),
        ],
    )]);
    assert_eq!(delta.len(), 1);
    let entry = delta.get(0).unwrap();
    assert_eq!(entry.path, "test.rs");
    let hunks = entry.hunks();
    assert_eq!(hunks.len(), 1);
    assert_eq!(hunks[0].header(), "@@ -1 +1 @@");
    assert_eq!(hunks[0].critical(), 2);
    let lines = hunks[0].lines();
    let contents: Vec<&str> = lines.iter().map(|l| l.content()).collect();
    assert_eq!(contents, vec![" ctx", "-gone", "+new", ""]);
    assert_eq!(lines[1].status(), LineStatus::Remove);
    assert_eq!(lines[2].highlight().spans[0].content, "+new");
    assert!(lines[3].highlight().spans.is_empty());
    assert!(LineStatus::Add.is_critical());
    assert!(!LineStatus::Context.is_critical());
}

#[test]
fn editor_choice() {
    assert_eq!(Edit::editor_command(Some("hx"), false, false, false).unwrap(), "hx");
    assert_eq!(Edit::editor_command(Some(""), true, false, true).unwrap(), "nano");
    assert_eq!(Edit::editor_command(None, true, true, true).unwrap(), "vi");
    assert_eq!(Edit::editor_command(None, false, true, true).unwrap_err(), EditorError::NoPath);
    assert_eq!(Edit::editor_command(None, true, false, false).unwrap_err(), EditorError::NotFound);
    assert!(Edit::is_executable(Some((true, 0o755))));
    assert!(!Edit::is_executable(Some((true, 0o644))));
    assert!(!Edit::is_executable(Some((false, 0o755))));
    assert!(!Edit::is_executable(None));
    let edit = Edit::new("src/lib.rs", Some("/repo"));
    assert_eq!(edit.path(), "src/lib.rs");
    assert_eq!(edit.workdir(), Some("/repo"));
}

#[test]
fn selector_is_centered() {
    let area = Rect { x: 0, y: 0, width: 100, height: 50 };
    let inner = centered_rect(70, 70, area);
    assert_eq!(inner, Rect { x: 15, y: 8, width: 70, height: 35 });
    let delta = Delta::from_test_hunks(vec![]);
    let selector = FileSelector { entries: delta.entries() };
    assert_eq!(selector.area(area), inner);
    assert_eq!(selector.items(), vec!["test.rs".to_owned()]);
    assert_eq!(selector.highlight_style().fg, Some(Color::Yellow));
    assert_eq!(selector.highlight_style().add_modifier, Modifier { bits: 1 });
}

#[test]
fn empty_model_draws_the_warning() {
    let mut app = App::new(Delta { entries: vec![] }, Theme::default());
    match app.draw(Rect { x: 0, y: 0, width: 20, height: 5 }) {
        Screen::Empty { warning } => assert_eq!(warning.fg, Some(Color::Yellow)),
        Screen::Files { .. } => panic!("expected the warning"),
    }
}

#[test]
fn viewer_draw_keeps_the_fitted_scroll() {
    let lines = (0..50).map(|i| (LineStatus::Add, format!("+line {i}"))).collect();
    let delta = Delta::from_test_hunks(vec![("@@ -1 +1 @@", lines)]);
    let mut app = App::new(delta, Theme::default());
    app.line = 49;
    app.hidden_hunks[0].insert(7);
    match app.draw(Rect { x: 0, y: 0, width: 167, height: 38 }) {
        Screen::Files { diff, selector } => {
            assert!(selector.is_none());
            let frame = diff.unwrap();
            assert_eq!(frame.text.len(), 37);
            assert_eq!(frame.text[0].spans[0].content, "+line 13");
        }
        Screen::Empty { .. } => panic!("expected the diff"),
    }
    assert_eq!(app.scroll, 13);
}

#[test]
fn diff_lines_describe_themselves() {
    assert_eq!(DiffLoc { status: LineStatus::Add, line: 12 }.describe(), "+12");
    assert_eq!(DiffLoc { status: LineStatus::Remove, line: 0 }.describe(), "-0");
    assert_eq!(DiffLoc { status: LineStatus::Context, line: 907 }.describe(), " 907");
    assert_eq!(DiffLoc { status: LineStatus::Binary, line: 3 }.describe(), "binary");
    assert_eq!(git_review::text::decimal_text(usize::MAX), usize::MAX.to_string());
}

#[test]
fn buffer_content_is_its_bytes() {
    let buf = git_review::buf::Buffer::buf(b"ab\ncd".to_vec());
    assert_eq!(buf.content(), b"ab\ncd");
}
