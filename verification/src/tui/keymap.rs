//! The keymap of the viewer that can hand the shown file to an editor: which action each key
//! and each mouse wheel turn asks for, in each mode.
use vstd::prelude::*;

use crate::tui::action::{KeyCode, Mode, MouseKind, UnboundInput, PAGE_SCROLL_LINES, WHEEL_SCROLL_LINES};

verus! {

/// An action to be taken.
#[derive(Debug, Clone, Copy, PartialEq, Eq, Structural)]
pub enum Action {
    Quit,
    ScrollDown(u16),
    ScrollUp(u16),
    JumpToTop,
    JumpToBottom,
    JumpToNextHunk,
    JumpToPreviousHunk,
    CenterSelectedLine,
    HideCurrentHunk,
    ShowHiddenHunks,
    NextFile,
    PreviousFile,
    OpenFileSelector,
    EditFile,
    CloseFileSelector,
    SelectNextFile,
    SelectPreviousFile,
    SelectFirstFile,
    SelectLastFile,
    ConfirmFileSelection,
}

/// The action a key asks for in the diff view.
pub open spec fn spec_diff_key(key: KeyCode) -> Option<Action> {
    match key {
        KeyCode::Char('q') | KeyCode::Esc => Some(Action::Quit),
        KeyCode::Char('j') | KeyCode::Down => Some(Action::ScrollDown(1)),
        KeyCode::Char('k') | KeyCode::Up => Some(Action::ScrollUp(1)),
        KeyCode::PageDown => Some(Action::ScrollDown(20)),
        KeyCode::PageUp => Some(Action::ScrollUp(20)),
        KeyCode::Char('d') => Some(Action::JumpToNextHunk),
        KeyCode::Char('u') => Some(Action::JumpToPreviousHunk),
        KeyCode::Char('z') => Some(Action::CenterSelectedLine),
        KeyCode::Char('g') | KeyCode::Home => Some(Action::JumpToTop),
        KeyCode::Char('G') | KeyCode::End => Some(Action::JumpToBottom),
        KeyCode::Char('h') => Some(Action::HideCurrentHunk),
        KeyCode::Char('H') => Some(Action::ShowHiddenHunks),
        KeyCode::Char('n') | KeyCode::Tab => Some(Action::NextFile),
        KeyCode::Char('p') | KeyCode::BackTab => Some(Action::PreviousFile),
        KeyCode::Char('f') => Some(Action::OpenFileSelector),
        KeyCode::Char('e') => Some(Action::EditFile),
        _ => None,
    }
}

/// The action a key asks for in the file selector.
pub open spec fn spec_selector_key(key: KeyCode) -> Option<Action> {
    match key {
        KeyCode::Char('q') | KeyCode::Esc | KeyCode::Char('f') => Some(Action::CloseFileSelector),
        KeyCode::Char('j') | KeyCode::Down | KeyCode::PageDown | KeyCode::Char('d') | KeyCode::Char('n')
        | KeyCode::Tab => Some(Action::SelectNextFile),
        KeyCode::Char('k') | KeyCode::Up | KeyCode::PageUp | KeyCode::Char('u') | KeyCode::Char('p')
        | KeyCode::BackTab => Some(Action::SelectPreviousFile),
        KeyCode::Char('g') | KeyCode::Home => Some(Action::SelectFirstFile),
        KeyCode::Char('G') | KeyCode::End => Some(Action::SelectLastFile),
        KeyCode::Enter => Some(Action::ConfirmFileSelection),
        _ => None,
    }
}

/// The action a key asks for in a mode.
pub open spec fn spec_action_for(mode: Mode, key: KeyCode) -> Option<Action> {
    match mode {
        Mode::Diff => spec_diff_key(key),
        Mode::FileSelector => spec_selector_key(key),
    }
}

/// The action a turn of the mouse wheel asks for in a mode: three lines in the diff view, one
/// file in the selector.
pub open spec fn spec_mouse_action(mode: Mode, kind: MouseKind) -> Option<Action> {
    match (mode, kind) {
        (Mode::Diff, MouseKind::ScrollDown) => Some(Action::ScrollDown(3)),
        (Mode::Diff, MouseKind::ScrollUp) => Some(Action::ScrollUp(3)),
        (Mode::FileSelector, MouseKind::ScrollDown) => Some(Action::SelectNextFile),
        (Mode::FileSelector, MouseKind::ScrollUp) => Some(Action::SelectPreviousFile),
        _ => None,
    }
}

/// The action a key asks for in the diff view (see [`spec_diff_key`]).
fn diff_action(key: KeyCode) -> (res: Result<Action, UnboundInput>)
    ensures
        match spec_diff_key(key) {
            Some(a) => res == Ok::<Action, UnboundInput>(a),
            None => res == Err::<Action, UnboundInput>(UnboundInput::Key),
        },
{
    match key {
        KeyCode::Char('q') | KeyCode::Esc => Ok(Action::Quit),
        KeyCode::Char('j') | KeyCode::Down => Ok(Action::ScrollDown(1)),
        KeyCode::Char('k') | KeyCode::Up => Ok(Action::ScrollUp(1)),
        KeyCode::PageDown => Ok(Action::ScrollDown(PAGE_SCROLL_LINES)),
        KeyCode::PageUp => Ok(Action::ScrollUp(PAGE_SCROLL_LINES)),
        KeyCode::Char('d') => Ok(Action::JumpToNextHunk),
        KeyCode::Char('u') => Ok(Action::JumpToPreviousHunk),
        KeyCode::Char('z') => Ok(Action::CenterSelectedLine),
        KeyCode::Char('g') | KeyCode::Home => Ok(Action::JumpToTop),
        KeyCode::Char('G') | KeyCode::End => Ok(Action::JumpToBottom),
        KeyCode::Char('h') => Ok(Action::HideCurrentHunk),
        KeyCode::Char('H') => Ok(Action::ShowHiddenHunks),
        KeyCode::Char('n') | KeyCode::Tab => Ok(Action::NextFile),
        KeyCode::Char('p') | KeyCode::BackTab => Ok(Action::PreviousFile),
        KeyCode::Char('f') => Ok(Action::OpenFileSelector),
        KeyCode::Char('e') => Ok(Action::EditFile),
        _ => Err(UnboundInput::Key),
    }
}

/// The action a key asks for in the file selector (see [`spec_selector_key`]).
fn file_selector_action(key: KeyCode) -> (res: Result<Action, UnboundInput>)
    ensures
        match spec_selector_key(key) {
            Some(a) => res == Ok::<Action, UnboundInput>(a),
            None => res == Err::<Action, UnboundInput>(UnboundInput::Key),
        },
{
    match key {
        KeyCode::Char('q') | KeyCode::Esc | KeyCode::Char('f') => Ok(Action::CloseFileSelector),
        KeyCode::Char('j') | KeyCode::Down | KeyCode::PageDown | KeyCode::Char('d') | KeyCode::Char('n')
        | KeyCode::Tab => Ok(Action::SelectNextFile),
        KeyCode::Char('k') | KeyCode::Up | KeyCode::PageUp | KeyCode::Char('u') | KeyCode::Char('p')
        | KeyCode::BackTab => Ok(Action::SelectPreviousFile),
        KeyCode::Char('g') | KeyCode::Home => Ok(Action::SelectFirstFile),
        KeyCode::Char('G') | KeyCode::End => Ok(Action::SelectLastFile),
        KeyCode::Enter => Ok(Action::ConfirmFileSelection),
        _ => Err(UnboundInput::Key),
    }
}

impl Mode {
    /// The action a key asks for in this mode (see [`spec_action_for`]); an unbound key is an
    /// error.
    pub fn action_for(self, key: KeyCode) -> (res: Result<Action, UnboundInput>)
        ensures
            match spec_action_for(self, key) {
                Some(a) => res == Ok::<Action, UnboundInput>(a),
                None => res == Err::<Action, UnboundInput>(UnboundInput::Key),
            },
    {
        match self {
            Mode::Diff => diff_action(key),
            Mode::FileSelector => file_selector_action(key),
        }
    }
}

/// The action a turn of the mouse wheel asks for (see [`spec_mouse_action`]).
pub fn action_for_mouse(mode: Mode, kind: MouseKind) -> (res: Option<Action>)
    ensures
        res == spec_mouse_action(mode, kind),
{
    match (mode, kind) {
        (Mode::Diff, MouseKind::ScrollDown) => Some(Action::ScrollDown(WHEEL_SCROLL_LINES)),
        (Mode::Diff, MouseKind::ScrollUp) => Some(Action::ScrollUp(WHEEL_SCROLL_LINES)),
        (Mode::FileSelector, MouseKind::ScrollDown) => Some(Action::SelectNextFile),
        (Mode::FileSelector, MouseKind::ScrollUp) => Some(Action::SelectPreviousFile),
        _ => None,
    }
}

} // verus!
