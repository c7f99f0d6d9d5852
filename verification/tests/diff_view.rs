use git_review::buf::color::HighlightEvent;
use git_review::model::{Delta, LineStatus};
use git_review::syntax::theme::SyntaxTheme;
use git_review::style::{Color, Line, Modifier, Rect, Style};
use git_review::tui::diff::window::Window;
use git_review::tui::diff::{Diff, DiffFrame, DiffState};
use git_review::tui::Theme;
use ratatui::widgets::Widget;

fn color(c: Color) -> ratatui::style::Color {
    match c {
        Color::Reset => ratatui::style::Color::Reset,
        Color::Black => ratatui::style::Color::Black,
        Color::Red => ratatui::style::Color::Red,
        Color::Green => ratatui::style::Color::Green,
        Color::Yellow => ratatui::style::Color::Yellow,
        Color::Blue => ratatui::style::Color::Blue,
        Color::Magenta => ratatui::style::Color::Magenta,
        Color::Cyan => ratatui::style::Color::Cyan,
        Color::Gray => ratatui::style::Color::Gray,
        Color::DarkGray => ratatui::style::Color::DarkGray,
        Color::LightRed => ratatui::style::Color::LightRed,
        Color::LightGreen => ratatui::style::Color::LightGreen,
        Color::LightYellow => ratatui::style::Color::LightYellow,
        Color::LightBlue => ratatui::style::Color::LightBlue,
        Color::LightMagenta => ratatui::style::Color::LightMagenta,
        Color::LightCyan => ratatui::style::Color::LightCyan,
        Color::White => ratatui::style::Color::White,
        Color::Rgb(r, g, b) => ratatui::style::Color::Rgb(r, g, b),
        Color::Indexed(i) => ratatui::style::Color::Indexed(i),
    }
}

fn style(s: Style) -> ratatui::style::Style {
    let mut out = ratatui::style::Style::default();
    if let Some(fg) = s.fg {
        out = out.fg(color(fg));
    }
    if let Some(bg) = s.bg {
        out = out.bg(color(bg));
    }
    out.add_modifier(ratatui::style::Modifier::from_bits_truncate(s.add_modifier.bits))
}

fn rect(r: Rect) -> ratatui::layout::Rect {
    ratatui::layout::Rect { x: r.x, y: r.y, width: r.width, height: r.height }
}

fn line(l: &Line) -> ratatui::text::Line<'static> {
    ratatui::text::Line::from(
        l.spans
            .iter()
            .map(|s| ratatui::text::Span::styled(s.content.clone(), style(s.style)))
            .collect::<Vec<_>>(),
    )
}

fn paint(frame: &DiffFrame, buf: &mut ratatui::buffer::Buffer) {
    if let Some(path) = &frame.path {
        ratatui::text::Span::styled(path.content.clone(), style(path.style)).render(rect(frame.path_area), buf);
    }
    for (row, s) in &frame.row_styles {
        let y = frame.row_area.y as usize + row;
        if y <= u16::MAX as usize {
            let mut area = rect(frame.row_area);
            area.y = y as u16;
            area.height = 1;
            buf.set_style(area, style(*s));
        }
    }
    let text = ratatui::text::Text::from(frame.text.iter().map(line).collect::<Vec<_>>());
    text.render(rect(frame.render_area), buf);
}

fn render(delta: &Delta, hidden: &[usize], theme: &Theme, state: &mut DiffState) -> ratatui::buffer::Buffer {
    let area = Rect { x: 0, y: 0, width: 167, height: 38 };
    let mut buf = ratatui::buffer::Buffer::empty(rect(area));
    let widget = Diff {
        path: delta.get(0).map(|entry| entry.path.as_str()),
        selected_entry: 0,
        delta,
        hidden_hunks: hidden,
        theme,
    };
    if let Some(frame) = widget.render(area, state) {
        paint(&frame, &mut buf);
    }
    buf
}

fn centered_x(widest_line: &str) -> u16 {
    ((167 - widest_line.chars().count()) / 2) as u16
}

fn start() -> DiffState {
    DiffState { line: 0, scroll: 0, center_line: false }
}

#[test]
fn renders_hunk_headers() {
    let theme = Theme::default();
    let delta = Delta::from_test_hunks(vec![(
        "@@ -1 +1 @@",
        vec![(LineStatus::Add, "+added".to_string())],
    )]);

    let buf = render(&delta, &[], &theme, &mut start());

    let x = centered_x("+added");

    assert_eq!(buf[(x, 0)].symbol(), "t");
    assert_eq!(buf[(x + 1, 0)].symbol(), "e");
    assert_eq!(buf[(x, 1)].symbol(), "@");
    assert_eq!(buf[(x, 1)].fg, ratatui::style::Color::Cyan);
    assert!(buf[(x, 1)].modifier.contains(ratatui::style::Modifier::BOLD));
    assert_eq!(buf[(x, 2)].symbol(), "+");
    assert_eq!(buf[(0, 2)].bg, ratatui::style::Color::Green);
}

#[test]
fn unit_continues_rendering_across_hunks() {
    let theme = Theme::default();
    let delta = Delta::from_test_hunks(vec![
        ("@@ -1 +1 @@", vec![(LineStatus::Add, "+first".to_string())]),
        ("@@ -2 +2 @@", vec![(LineStatus::Remove, "-second".to_string())]),
    ]);

    let buf = render(&delta, &[], &theme, &mut start());

    let x = centered_x("-second");

    assert_eq!(buf[(x, 2)].symbol(), "+");
    assert_eq!(buf[(0, 2)].bg, ratatui::style::Color::Green);
    assert_eq!(buf[(166, 2)].bg, ratatui::style::Color::Green);
    assert_eq!(buf[(x, 4)].symbol(), "-");
    assert_eq!(buf[(0, 4)].bg, ratatui::style::Color::Red);
    assert_eq!(buf[(166, 4)].bg, ratatui::style::Color::Red);
}

#[test]
fn skips_hidden_hunks() {
    let theme = Theme::default();
    let hidden = [0];
    let delta = Delta::from_test_hunks(vec![
        ("@@ -1 +1 @@", vec![(LineStatus::Add, "+hidden".to_string())]),
        ("@@ -2 +2 @@", vec![(LineStatus::Remove, "-visible".to_string())]),
    ]);

    let buf = render(&delta, &hidden, &theme, &mut start());

    let x = centered_x("-visible");

    assert_eq!(buf[(x, 1)].symbol(), "@");
    assert_eq!(buf[(x, 2)].symbol(), "-");
    assert_eq!(buf[(0, 2)].bg, ratatui::style::Color::Red);
    assert_eq!(buf[(x, 3)].symbol(), " ");
}

#[test]
fn unit_renders_line_content_and_status_backgrounds() {
    let theme = Theme::default();
    let delta = Delta::from_test_hunks(vec![(
        "@@ -1 +1 @@",
        vec![
            (LineStatus::Context, " context".to_string()),
            (LineStatus::Add, "+added".to_string()),
            (LineStatus::Remove, "-removed".to_string()),
            (LineStatus::Binary, "binary".to_string()),
        ],
    )]);

    let buf = render(&delta, &[], &theme, &mut DiffState { line: 99, scroll: 0, center_line: false });

    let x = centered_x("-removed");

    assert_eq!(buf[(x, 2)].symbol(), " ");
    assert_eq!(buf[(x + 1, 2)].symbol(), "c");
    assert_eq!(buf[(x, 2)].bg, ratatui::style::Color::Reset);

    assert_eq!(buf[(x, 3)].symbol(), "+");
    assert_eq!(buf[(0, 3)].bg, ratatui::style::Color::Green);
    assert_eq!(buf[(166, 3)].bg, ratatui::style::Color::Green);

    assert_eq!(buf[(x, 4)].symbol(), "-");
    assert_eq!(buf[(0, 4)].bg, ratatui::style::Color::Red);
    assert_eq!(buf[(166, 4)].bg, ratatui::style::Color::Red);

    assert_eq!(buf[(x, 5)].symbol(), " ");
    assert_eq!(buf[(0, 5)].bg, ratatui::style::Color::Gray);
    assert_eq!(buf[(166, 5)].bg, ratatui::style::Color::Gray);
}

#[test]
fn unit_highlights_selected_added_or_removed_line_only() {
    let mut theme = Theme::default();
    theme.selected_removed_fg = Some(Color::Yellow);
    let delta = Delta::from_test_hunks(vec![(
        "@@ -1 +1 @@",
        vec![
            (LineStatus::Context, " context".to_string()),
            (LineStatus::Add, "+added".to_string()),
            (LineStatus::Binary, "binary".to_string()),
            (LineStatus::Remove, "-removed".to_string()),
        ],
    )]);

    let buf = render(&delta, &[], &theme, &mut DiffState { line: 1, scroll: 0, center_line: false });

    let x = centered_x("-removed");

    assert_eq!(buf[(x, 3)].bg, ratatui::style::Color::Green);
    assert!(!buf[(x, 3)].modifier.contains(ratatui::style::Modifier::BOLD));
    assert!(!buf[(x, 3)].modifier.contains(ratatui::style::Modifier::REVERSED));

    assert_eq!(buf[(x, 4)].bg, ratatui::style::Color::Gray);
    assert!(!buf[(x, 4)].modifier.contains(ratatui::style::Modifier::BOLD));
    assert!(!buf[(x, 4)].modifier.contains(ratatui::style::Modifier::REVERSED));

    assert_eq!(buf[(x, 5)].bg, ratatui::style::Color::Red);
    assert_eq!(buf[(x, 5)].fg, ratatui::style::Color::Yellow);
    assert!(buf[(x, 5)].modifier.contains(ratatui::style::Modifier::BOLD));
}

#[test]
fn applies_selected_added_foreground() {
    let mut theme = Theme::default();
    theme.selected_added_fg = Some(Color::Blue);
    theme.selected_bg = Some(Color::White);
    let delta = Delta::from_test_hunks(vec![(
        "@@ -1 +1 @@",
        vec![(LineStatus::Add, "+added".to_string())],
    )]);

    let buf = render(&delta, &[], &theme, &mut start());

    let x = centered_x("+added");

    assert_eq!(buf[(x, 2)].fg, ratatui::style::Color::Blue);
    assert_eq!(buf[(x, 2)].bg, ratatui::style::Color::White);
    assert!(buf[(x, 2)].modifier.contains(ratatui::style::Modifier::BOLD));
}

fn fifty_lines() -> Delta {
    let lines = (0..50)
        .map(|i| (LineStatus::Add, format!("+line {i}")))
        .collect();
    Delta::from_test_hunks(vec![("@@ -1 +1 @@", lines)])
}

#[test]
fn scrolls_to_keep_selected_line_visible() {
    let theme = Theme::default();
    let delta = fifty_lines();

    let mut state = DiffState { line: 49, scroll: 0, center_line: false };
    let buf = render(&delta, &[], &theme, &mut state);

    let x = centered_x("+line 10");

    assert_eq!(buf[(x, 1)].symbol(), "+");
    assert_eq!(buf[(x + 6, 1)].symbol(), "1");
    assert_eq!(buf[(x + 7, 1)].symbol(), "3");
    assert!(buf[(x, 37)].modifier.contains(ratatui::style::Modifier::BOLD));
}

#[test]
fn centers_selected_line_even_at_file_end() {
    let theme = Theme::default();
    let delta = fifty_lines();

    let mut state = DiffState { line: 49, scroll: 0, center_line: true };
    let buf = render(&delta, &[], &theme, &mut state);

    let x = centered_x("+line 10");

    assert_eq!(buf[(x, 19)].symbol(), "+");
    assert_eq!(buf[(x + 6, 19)].symbol(), "4");
    assert_eq!(buf[(x + 7, 19)].symbol(), "9");
    assert!(buf[(x, 19)].modifier.contains(ratatui::style::Modifier::BOLD));
}

#[test]
fn render_updates_scroll_and_consumes_centering() {
    let theme = Theme::default();
    let delta = fifty_lines();
    let mut state = DiffState { line: 49, scroll: 0, center_line: true };
    let _ = render(&delta, &[], &theme, &mut state);
    assert_eq!(state.scroll, 49 - 37 / 2);
    assert!(!state.center_line);
    assert_eq!(state.line, 49);
}

#[test]
fn nothing_is_drawn_for_a_missing_file_or_no_rows() {
    let theme = Theme::default();
    let delta = fifty_lines();
    let widget = Diff { path: Some("x"), selected_entry: 3, delta: &delta, hidden_hunks: &[], theme: &theme };
    let mut state = DiffState { line: 4, scroll: 2, center_line: true };
    assert!(widget.render(Rect { x: 0, y: 0, width: 10, height: 10 }, &mut state).is_none());
    assert_eq!(state, DiffState { line: 4, scroll: 2, center_line: true });
    let widget = Diff { path: Some("x"), selected_entry: 0, delta: &delta, hidden_hunks: &[], theme: &theme };
    assert!(widget.render(Rect { x: 0, y: 0, width: 10, height: 1 }, &mut state).is_none());
    assert_eq!(state.scroll, 2);
}

#[test]
fn frame_lists_row_styles_and_text() {
    let theme = Theme::default();
    let delta = Delta::from_test_hunks(vec![(
        "@@ -1 +1 @@",
        vec![(LineStatus::Add, "+a".to_string()), (LineStatus::Context, " b".to_string())],
    )]);
    let widget = Diff { path: None, selected_entry: 0, delta: &delta, hidden_hunks: &[], theme: &theme };
    let mut state = start();
    let frame = widget.render(Rect { x: 0, y: 0, width: 20, height: 5 }, &mut state).unwrap();
    assert_eq!(frame.text.len(), 3);
    assert_eq!(frame.text[0].spans[0].content, "@@ -1 +1 @@");
    assert_eq!(frame.text[1].spans[0].content, "+a");
    assert_eq!(frame.row_styles.len(), 2);
    assert_eq!(frame.row_styles[0].0, 1);
    assert_eq!(frame.row_styles[0].1.bg, Some(Color::Green));
    assert_eq!(frame.row_styles[0].1.add_modifier, Modifier { bits: 65 });
    assert_eq!(frame.row_styles[1].1.bg, None);
    assert!(frame.path.is_none());
    assert_eq!(frame.render_area.x, 9);
}

#[test]
fn window_skips_then_fills() {
    let mut w = Window::new(2, 3);
    let mut seen = Vec::new();
    for _ in 0..7 {
        seen.push((w.visible(), w.fused()));
        w.inc();
    }
    assert_eq!(
        seen,
        vec![
            (false, false),
            (false, false),
            (true, false),
            (true, false),
            (true, false),
            (true, true),
            (true, true),
        ]
    );
    let empty = Window::new(1, 0);
    assert!(empty.fused());
}

#[test]
fn syntax_highlights_rust_diff_lines() {
    let theme = Theme::default();
    let syntax = SyntaxTheme::new(&[(
        Some("git-review.tree-sitter.keyword".to_string()),
        Some("magenta".to_string()),
    )]);
    let mut delta = Delta::from_test_hunks(vec![(
        "@@ -1 +1 @@",
        vec![(LineStatus::Add, "fn main() {}".to_string())],
    )]);
    // The events a Rust grammar gives for `fn main() {}`: the keyword `fn` as highlight 0.
    let events = [
        HighlightEvent::HighlightStart(0),
        HighlightEvent::Source { start: 0, end: 2 },
        HighlightEvent::HighlightEnd,
        HighlightEvent::Source { start: 2, end: 12 },
        HighlightEvent::Source { start: 12, end: 13 },
    ];
    delta.entries[0]
        .new
        .apply_highlight(&events, syntax.palette())
        .expect("events fit the buffer");

    let buf = render(&delta, &[], &theme, &mut DiffState { line: 99, scroll: 0, center_line: false });

    let x = centered_x("fn main() {}");

    assert_eq!(buf[(x, 2)].symbol(), "f");
    assert_eq!(buf[(x, 2)].fg, ratatui::style::Color::Magenta);
}
