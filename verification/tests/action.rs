use git_review::eventing::AppEvent;
use git_review::model::{Delta, LineStatus};
use git_review::tui::action::{Intent, KeyCode, Mode, MouseKind, UnboundInput};
use git_review::tui::keymap::{action_for_mouse, Action};
use git_review::tui::{App, Theme};

#[test]
fn escape_does_not_quit_diff_mode() {
    assert!(Mode::Diff.action_for_key(KeyCode::Esc).is_err());
}

#[test]
fn q_still_quits_diff_mode() {
    assert_eq!(
        Mode::Diff.action_for_key(KeyCode::Char('q')).unwrap(),
        Intent::Quit
    );
}

#[test]
fn escape_closes_file_selector() {
    assert_eq!(
        Mode::FileSelector.action_for_key(KeyCode::Esc).unwrap(),
        Intent::CloseFileSelector
    );
}

#[test]
fn mouse_wheel_scrolls_three_lines() {
    assert_eq!(
        Mode::Diff.action_for_mouse(MouseKind::ScrollDown).unwrap(),
        Intent::ScrollDown(3)
    );
    assert_eq!(
        Mode::FileSelector.action_for_mouse(MouseKind::ScrollUp).unwrap(),
        Intent::SelectPreviousFile
    );
    assert_eq!(
        Mode::Diff.action_for_mouse(MouseKind::Other).unwrap_err(),
        UnboundInput::Mouse
    );
}

#[test]
fn page_keys_scroll_twenty_lines() {
    assert_eq!(Mode::Diff.action_for_key(KeyCode::PageDown).unwrap(), Intent::ScrollDown(20));
    assert_eq!(Mode::Diff.action_for_key(KeyCode::PageUp).unwrap(), Intent::ScrollUp(20));
    assert_eq!(
        Mode::FileSelector.action_for_key(KeyCode::PageDown).unwrap(),
        Intent::SelectNextFile
    );
    assert_eq!(
        Mode::FileSelector.action_for_key(KeyCode::Enter).unwrap(),
        Intent::ConfirmFileSelection
    );
}

#[test]
fn editor_keymap_binds_e_and_escape() {
    assert_eq!(Mode::Diff.action_for(KeyCode::Char('e')).unwrap(), Action::EditFile);
    assert_eq!(Mode::Diff.action_for(KeyCode::Esc).unwrap(), Action::Quit);
    assert!(Mode::Diff.action_for(KeyCode::Char('x')).is_err());
    assert_eq!(
        Mode::FileSelector.action_for(KeyCode::Char('f')).unwrap(),
        Action::CloseFileSelector
    );
    assert_eq!(action_for_mouse(Mode::Diff, MouseKind::ScrollUp), Some(Action::ScrollUp(3)));
    assert_eq!(action_for_mouse(Mode::FileSelector, MouseKind::Other), None);
}

fn two_hunks() -> Delta {
    Delta::from_test_hunks(vec![
        (
            "@@ -1 +1 @@",
            vec![
                (LineStatus::Add, "+a".to_string()),
                (LineStatus::Context, " b".to_string()),
                (LineStatus::Remove, "-c".to_string()),
            ],
        ),
        (
            "@@ -5 +5 @@",
            vec![
                (LineStatus::Add, "+d".to_string()),
                (LineStatus::Add, "+e".to_string()),
            ],
        ),
    ])
}

#[test]
fn scrolling_stops_at_the_last_line() {
    let mut app = App::new(two_hunks(), Theme::default());
    assert_eq!(app.current_file_line_count(), 4);
    app.execute(Intent::ScrollDown(20));
    assert_eq!(app.line, 3);
    app.execute(Intent::ScrollUp(1));
    assert_eq!(app.line, 2);
    app.execute(Intent::ScrollUp(20));
    assert_eq!(app.line, 0);
}

#[test]
fn scroll_down_then_up_returns() {
    let mut app = App::new(two_hunks(), Theme::default());
    app.execute(Intent::ScrollDown(2));
    app.execute(Intent::ScrollUp(2));
    assert_eq!(app.line, 0);
}

#[test]
fn hunk_jumps_move_between_hunks() {
    let mut app = App::new(two_hunks(), Theme::default());
    assert_eq!(app.current_hunk(), Some(0));
    app.execute(Intent::JumpToNextHunk);
    assert_eq!(app.line, 2);
    assert_eq!(app.current_hunk(), Some(1));
    app.execute(Intent::JumpToNextHunk);
    assert_eq!(app.line, 2);
    app.execute(Intent::JumpToBottom);
    assert_eq!(app.line, 3);
    app.execute(Intent::JumpToPreviousHunk);
    assert_eq!(app.line, 0);
}

#[test]
fn hiding_a_hunk_pulls_the_selection_back() {
    let mut app = App::new(two_hunks(), Theme::default());
    app.execute(Intent::JumpToBottom);
    app.execute(Intent::HideCurrentHunk);
    assert!(app.hunk_is_hidden(1));
    assert_eq!(app.current_file_line_count(), 2);
    assert_eq!(app.line, 1);
    app.execute(Intent::ShowHiddenHunks);
    assert!(!app.hunk_is_hidden(1));
    assert_eq!(app.current_file_line_count(), 4);
}

#[test]
fn selector_opens_and_confirms() {
    let mut app = App::new(two_hunks(), Theme::default());
    app.execute(Intent::ScrollDown(1));
    app.execute(Intent::OpenFileSelector);
    assert_eq!(app.mode, Mode::FileSelector);
    assert_eq!(app.selector_file, 0);
    app.execute(Intent::SelectNextFile);
    assert_eq!(app.selector_file, 0);
    app.execute(Intent::ConfirmFileSelection);
    assert_eq!(app.mode, Mode::Diff);
    assert_eq!(app.line, 0);
}

#[test]
fn events_drive_the_viewer() {
    let mut app = App::new(two_hunks(), Theme::default());
    assert!(app.handle_event(AppEvent::Key(KeyCode::Char('j'))));
    assert_eq!(app.line, 1);
    assert!(!app.handle_event(AppEvent::Key(KeyCode::Char('x'))));
    assert!(app.handle_event(AppEvent::Redraw));
    assert!(app.handle_event(AppEvent::Mouse(MouseKind::ScrollDown)));
    assert_eq!(app.line, 3);
    assert!(app.handle_event(AppEvent::Key(KeyCode::Char('q'))));
    assert!(app.should_quit);
}

#[test]
fn centering_is_requested_once() {
    let mut app = App::new(two_hunks(), Theme::default());
    app.execute(Intent::CenterSelectedLine);
    assert!(app.center_line);
}

#[test]
fn scroll_up_then_down_returns() {
    let mut app = App::new(two_hunks(), Theme::default());
    app.execute(Intent::JumpToBottom);
    app.execute(Intent::ScrollUp(2));
    assert_eq!(app.line, 1);
    app.execute(Intent::ScrollDown(2));
    assert_eq!(app.line, 3);
}

#[test]
fn selector_open_then_close_keeps_the_view() {
    let mut app = App::new(two_hunks(), Theme::default());
    app.execute(Intent::ScrollDown(1));
    app.execute(Intent::OpenFileSelector);
    app.execute(Intent::CloseFileSelector);
    assert_eq!(app.mode, Mode::Diff);
    assert_eq!(app.line, 1);
    assert_eq!(app.selector_file, app.selected_file);
}
