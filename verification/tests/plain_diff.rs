use git_review::model::LineStatus;
use git_review::style::{Color, Line, Modifier};
use git_review::tui::plain_diff::{Diff, PlainHunk, PlainLine};

fn pl(status: LineStatus, content: &str) -> PlainLine {
    PlainLine { status, content: content.to_owned() }
}

fn first_char(line: &Line) -> String {
    line.spans[0].content.chars().next().map(|c| c.to_string()).unwrap_or_default()
}

fn has(line: &Line, m: u16) -> bool {
    line.spans[0].style.add_modifier.bits & m == m
}

const BOLD: u16 = 1;
const REVERSED: u16 = 64;

#[test]
fn diff_renders_line_content_and_status_backgrounds() {
    let hunks = [PlainHunk {
        lines: vec![
            pl(LineStatus::Context, " context"),
            pl(LineStatus::Add, "+added"),
            pl(LineStatus::Remove, "-removed"),
            pl(LineStatus::Binary, "binary"),
        ],
    }];
    let rows = Diff { hunks: &hunks }.render(38, 99);

    assert_eq!(first_char(&rows[0]), " ");
    assert_eq!(rows[0].spans[0].content.chars().nth(1), Some('c'));
    assert_eq!(rows[0].spans[0].style.bg, None);

    assert_eq!(first_char(&rows[1]), "+");
    assert_eq!(rows[1].spans[0].style.bg, Some(Color::Green));

    assert_eq!(first_char(&rows[2]), "-");
    assert_eq!(rows[2].spans[0].style.bg, Some(Color::Red));

    assert_eq!(first_char(&rows[3]), "b");
    assert_eq!(rows[3].spans[0].style.bg, Some(Color::Gray));
}

#[test]
fn diff_highlights_selected_added_or_removed_line_only() {
    let hunks = [PlainHunk {
        lines: vec![
            pl(LineStatus::Context, " context"),
            pl(LineStatus::Add, "+added"),
            pl(LineStatus::Binary, "binary"),
            pl(LineStatus::Remove, "-removed"),
        ],
    }];
    let rows = Diff { hunks: &hunks }.render(38, 1);

    assert_eq!(rows[1].spans[0].style.bg, Some(Color::Green));
    assert!(!has(&rows[1], BOLD));
    assert!(!has(&rows[1], REVERSED));

    assert_eq!(rows[2].spans[0].style.bg, Some(Color::Gray));
    assert!(!has(&rows[2], BOLD));
    assert!(!has(&rows[2], REVERSED));

    assert_eq!(rows[3].spans[0].style.bg, Some(Color::Red));
    assert!(has(&rows[3], BOLD));
    assert!(has(&rows[3], REVERSED));
}

#[test]
fn diff_continues_rendering_across_hunks() {
    let hunks = [
        PlainHunk { lines: vec![pl(LineStatus::Add, "+first")] },
        PlainHunk { lines: vec![pl(LineStatus::Remove, "-second")] },
    ];
    let rows = Diff { hunks: &hunks }.render(38, 0);

    assert_eq!(first_char(&rows[0]), "+");
    assert_eq!(rows[0].spans[0].style.bg, Some(Color::Green));
    assert_eq!(first_char(&rows[1]), "-");
    assert_eq!(rows[1].spans[0].style.bg, Some(Color::Red));
}

#[test]
fn plain_view_draws_one_more_row_than_its_height_at_most() {
    let lines = (0..10).map(|i| pl(LineStatus::Context, &format!(" {i}"))).collect();
    let hunks = [PlainHunk { lines }];
    let rows = Diff { hunks: &hunks }.render(3, 0);
    assert_eq!(rows.len(), 4);
    assert_eq!(rows[3].spans[0].content, " 3");
    let none: [PlainHunk; 0] = [];
    assert!(Diff { hunks: &none }.render(3, 0).is_empty());
    assert_eq!(rows[0].spans[0].style.add_modifier, Modifier { bits: 0 });
}
