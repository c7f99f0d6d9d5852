//! What the user can ask for, which key asks for what, and how each request moves the viewer.
use vstd::prelude::*;

use crate::eventing::AppEvent;
use crate::tui::{counts_fit, App};

use file::{next_file_spec, prev_file_spec};
use hunk::{hide_hunk_spec, unhide_hunks_spec};
use jump::{bottom_spec, next_hunk_spec, prev_hunk_spec, top_spec};
use misc::center_line_spec;
use quit::quit_spec;
use scroll::{scroll_down_spec, scroll_up_spec};
use selector::{
    close_spec, confirm_spec, open_spec, select_first_spec, select_last_spec, select_next_spec,
    select_prev_spec,
};

pub mod file;
pub mod hunk;
pub mod jump;
pub mod misc;
pub mod quit;
pub mod scroll;
pub mod selector;

verus! {

/// How many lines a page scroll moves.
pub const PAGE_SCROLL_LINES: u16 = 20u16;

/// How many lines a mouse wheel step moves.
pub const WHEEL_SCROLL_LINES: u16 = 3u16;

/// The set of keybindings currently active in the UI.
#[derive(Debug, Clone, Copy, PartialEq, Eq, Structural)]
pub enum Mode {
    Diff,
    FileSelector,
}

/// A key the user pressed.
#[derive(Debug, Clone, Copy, PartialEq, Eq, Structural)]
pub enum KeyCode {
    Char(char),
    Esc,
    Enter,
    Tab,
    BackTab,
    Up,
    Down,
    PageUp,
    PageDown,
    Home,
    End,
    Other,
}

/// What the mouse did.
#[derive(Debug, Clone, Copy, PartialEq, Eq, Structural)]
pub enum MouseKind {
    ScrollDown,
    ScrollUp,
    Other,
}

/// Input that no request is bound to in the current mode.
#[derive(Debug, Clone, Copy, PartialEq, Eq, Structural)]
pub enum UnboundInput {
    /// "invalid keycode"
    Key,
    /// "invalid mouse action"
    Mouse,
}

/// An action to be taken.
#[derive(Debug, Clone, Copy, PartialEq, Eq, Structural)]
pub enum Intent {
    Quit,
    ScrollDown(u16),
    ScrollUp(u16),
    JumpToTop,
    JumpToBottom,
    JumpToNextHunk,
    JumpToPreviousHunk,
    CenterSelectedLine,
    HideCurrentHunk,
    ShowHiddenHunks,
    NextFile,
    PreviousFile,
    OpenFileSelector,
    CloseFileSelector,
    SelectNextFile,
    SelectPreviousFile,
    SelectFirstFile,
    SelectLastFile,
    ConfirmFileSelection,
}

/// A request that changes the viewer.
pub trait Action {
    /// The viewer states the request can be carried out on.
    spec fn allowed(&self, app: &App) -> bool;

    /// Carries out the request.
    fn perform(&self, app: &mut App)
        requires
            self.allowed(old(app)),
    ;
}

/// What the diff view binds each key to.
pub open spec fn spec_diff_action(key: KeyCode) -> Option<Intent> {
    match key {
        KeyCode::Char('q') => Some(Intent::Quit),
        KeyCode::Char('j') | KeyCode::Down => Some(Intent::ScrollDown(1)),
        KeyCode::Char('k') | KeyCode::Up => Some(Intent::ScrollUp(1)),
        KeyCode::PageDown => Some(Intent::ScrollDown(20)),
        KeyCode::PageUp => Some(Intent::ScrollUp(20)),
        KeyCode::Char('d') => Some(Intent::JumpToNextHunk),
        KeyCode::Char('u') => Some(Intent::JumpToPreviousHunk),
        KeyCode::Char('z') => Some(Intent::CenterSelectedLine),
        KeyCode::Char('g') | KeyCode::Home => Some(Intent::JumpToTop),
        KeyCode::Char('G') | KeyCode::End => Some(Intent::JumpToBottom),
        KeyCode::Char('h') => Some(Intent::HideCurrentHunk),
        KeyCode::Char('H') => Some(Intent::ShowHiddenHunks),
        KeyCode::Char('n') | KeyCode::Tab => Some(Intent::NextFile),
        KeyCode::Char('p') | KeyCode::BackTab => Some(Intent::PreviousFile),
        KeyCode::Char('f') => Some(Intent::OpenFileSelector),
        _ => None,
    }
}

/// What the file selector binds each key to.
pub open spec fn spec_file_selector_action(key: KeyCode) -> Option<Intent> {
    match key {
        KeyCode::Char('q') | KeyCode::Esc | KeyCode::Char('f') => Some(Intent::CloseFileSelector),
        KeyCode::Char('j') | KeyCode::Down | KeyCode::PageDown | KeyCode::Char('d')
        | KeyCode::Char('n') | KeyCode::Tab => Some(Intent::SelectNextFile),
        KeyCode::Char('k') | KeyCode::Up | KeyCode::PageUp | KeyCode::Char('u')
        | KeyCode::Char('p') | KeyCode::BackTab => Some(Intent::SelectPreviousFile),
        KeyCode::Char('g') | KeyCode::Home => Some(Intent::SelectFirstFile),
        KeyCode::Char('G') | KeyCode::End => Some(Intent::SelectLastFile),
        KeyCode::Enter => Some(Intent::ConfirmFileSelection),
        _ => None,
    }
}

/// What each mode binds a key to.
pub open spec fn spec_action_for_key(mode: Mode, key: KeyCode) -> Option<Intent> {
    match mode {
        Mode::Diff => spec_diff_action(key),
        Mode::FileSelector => spec_file_selector_action(key),
    }
}

/// What each mode binds a mouse action to.
pub open spec fn spec_action_for_mouse(mode: Mode, kind: MouseKind) -> Option<Intent> {
    match (mode, kind) {
        (Mode::Diff, MouseKind::ScrollDown) => Some(Intent::ScrollDown(3)),
        (Mode::Diff, MouseKind::ScrollUp) => Some(Intent::ScrollUp(3)),
        (Mode::FileSelector, MouseKind::ScrollDown) => Some(Intent::SelectNextFile),
        (Mode::FileSelector, MouseKind::ScrollUp) => Some(Intent::SelectPreviousFile),
        _ => None,
    }
}

fn diff_action(key: KeyCode) -> (res: Result<Intent, UnboundInput>)
    ensures
        match spec_diff_action(key) {
            Some(i) => res == Ok::<Intent, UnboundInput>(i),
            None => res == Err::<Intent, UnboundInput>(UnboundInput::Key),
        },
{
    match key {
        KeyCode::Char('q') => Ok(Intent::Quit),
        KeyCode::Char('j') | KeyCode::Down => Ok(Intent::ScrollDown(1)),
        KeyCode::Char('k') | KeyCode::Up => Ok(Intent::ScrollUp(1)),
        KeyCode::PageDown => Ok(Intent::ScrollDown(PAGE_SCROLL_LINES)),
        KeyCode::PageUp => Ok(Intent::ScrollUp(PAGE_SCROLL_LINES)),
        KeyCode::Char('d') => Ok(Intent::JumpToNextHunk),
        KeyCode::Char('u') => Ok(Intent::JumpToPreviousHunk),
        KeyCode::Char('z') => Ok(Intent::CenterSelectedLine),
        KeyCode::Char('g') | KeyCode::Home => Ok(Intent::JumpToTop),
        KeyCode::Char('G') | KeyCode::End => Ok(Intent::JumpToBottom),
        KeyCode::Char('h') => Ok(Intent::HideCurrentHunk),
        KeyCode::Char('H') => Ok(Intent::ShowHiddenHunks),
        KeyCode::Char('n') | KeyCode::Tab => Ok(Intent::NextFile),
        KeyCode::Char('p') | KeyCode::BackTab => Ok(Intent::PreviousFile),
        KeyCode::Char('f') => Ok(Intent::OpenFileSelector),
        _ => Err(UnboundInput::Key),
    }
}

fn file_selector_action(key: KeyCode) -> (res: Result<Intent, UnboundInput>)
    ensures
        match spec_file_selector_action(key) {
            Some(i) => res == Ok::<Intent, UnboundInput>(i),
            None => res == Err::<Intent, UnboundInput>(UnboundInput::Key),
        },
{
    match key {
        KeyCode::Char('q') | KeyCode::Esc | KeyCode::Char('f') => Ok(Intent::CloseFileSelector),
        KeyCode::Char('j') | KeyCode::Down | KeyCode::PageDown | KeyCode::Char('d')
        | KeyCode::Char('n') | KeyCode::Tab => Ok(Intent::SelectNextFile),
        KeyCode::Char('k') | KeyCode::Up | KeyCode::PageUp | KeyCode::Char('u')
        | KeyCode::Char('p') | KeyCode::BackTab => Ok(Intent::SelectPreviousFile),
        KeyCode::Char('g') | KeyCode::Home => Ok(Intent::SelectFirstFile),
        KeyCode::Char('G') | KeyCode::End => Ok(Intent::SelectLastFile),
        KeyCode::Enter => Ok(Intent::ConfirmFileSelection),
        _ => Err(UnboundInput::Key),
    }
}

/// What carrying out `intent` does to the viewer.
pub open spec fn intent_spec(old: &App, new: &App, intent: Intent) -> bool {
    match intent {
        Intent::Quit => quit_spec(old, new),
        Intent::ScrollDown(n) => scroll_down_spec(old, new, n),
        Intent::ScrollUp(n) => scroll_up_spec(old, new, n),
        Intent::JumpToTop => top_spec(old, new),
        Intent::JumpToBottom => bottom_spec(old, new),
        Intent::JumpToNextHunk => next_hunk_spec(old, new),
        Intent::JumpToPreviousHunk => prev_hunk_spec(old, new),
        Intent::CenterSelectedLine => center_line_spec(old, new),
        Intent::HideCurrentHunk => hide_hunk_spec(old, new),
        Intent::ShowHiddenHunks => unhide_hunks_spec(old, new),
        Intent::NextFile => next_file_spec(old, new),
        Intent::PreviousFile => prev_file_spec(old, new),
        Intent::OpenFileSelector => open_spec(old, new),
        Intent::CloseFileSelector => close_spec(old, new),
        Intent::SelectNextFile => select_next_spec(old, new),
        Intent::SelectPreviousFile => select_prev_spec(old, new),
        Intent::SelectFirstFile => select_first_spec(old, new),
        Intent::SelectLastFile => select_last_spec(old, new),
        Intent::ConfirmFileSelection => confirm_spec(old, new),
    }
}

/// The viewer states `intent` can be carried out on: the line counts fit, and scrolling down
/// does not overflow the line number.
pub open spec fn intent_allowed(app: &App, intent: Intent) -> bool {
    &&& counts_fit(&app.model)
    &&& match intent {
        Intent::ScrollDown(n) => app.line + n <= usize::MAX,
        _ => true,
    }
}

impl App {
    /// Carries out a request.
    pub fn execute(&mut self, intent: Intent)
        requires
            intent_allowed(old(self), intent),
        ensures
            intent_spec(old(self), final(self), intent),
    {
        match intent {
            Intent::Quit => quit::Quit.perform(self),
            Intent::ScrollDown(amount) => scroll::ScrollDown(amount).perform(self),
            Intent::ScrollUp(amount) => scroll::ScrollUp(amount).perform(self),
            Intent::JumpToTop => jump::Top.perform(self),
            Intent::JumpToBottom => jump::Bottom.perform(self),
            Intent::JumpToNextHunk => jump::NextHunk.perform(self),
            Intent::JumpToPreviousHunk => jump::PrevHunk.perform(self),
            Intent::HideCurrentHunk => hunk::HideHunk.perform(self),
            Intent::ShowHiddenHunks => hunk::UnhideHunks.perform(self),
            Intent::NextFile => file::NextFile.perform(self),
            Intent::PreviousFile => file::PrevFile.perform(self),
            Intent::CenterSelectedLine => misc::CenterLine.perform(self),
            Intent::OpenFileSelector => selector::Open.perform(self),
            Intent::CloseFileSelector => selector::Close.perform(self),
            Intent::SelectNextFile => selector::NextFile.perform(self),
            Intent::SelectPreviousFile => selector::PrevFile.perform(self),
            Intent::SelectFirstFile => selector::FirstFile.perform(self),
            Intent::SelectLastFile => selector::LastFile.perform(self),
            Intent::ConfirmFileSelection => selector::Confirm.perform(self),
        }
    }
}

impl App {
    /// Reacts to one event: a bound key or mouse action is carried out; the result says
    /// whether the view must be drawn again.
    pub fn handle_event(&mut self, event: AppEvent) -> (redraw: bool)
        requires
            counts_fit(&old(self).model),
            old(self).line + PAGE_SCROLL_LINES <= usize::MAX,
        ensures
            match event {
                AppEvent::Key(key) => match spec_action_for_key(old(self).mode, key) {
                    Some(intent) => redraw && intent_spec(old(self), final(self), intent),
                    None => !redraw && *final(self) == *old(self),
                },
                AppEvent::Mouse(kind) => match spec_action_for_mouse(old(self).mode, kind) {
                    Some(intent) => redraw && intent_spec(old(self), final(self), intent),
                    None => !redraw && *final(self) == *old(self),
                },
                AppEvent::Redraw => redraw && *final(self) == *old(self),
            },
    {
        match event {
            AppEvent::Key(key) => {
                if let Ok(intent) = self.mode.action_for_key(key) {
                    self.execute(intent);
                    true
                } else {
                    false
                }
            },
            AppEvent::Mouse(kind) => {
                if let Ok(intent) = self.mode.action_for_mouse(kind) {
                    self.execute(intent);
                    true
                } else {
                    false
                }
            },
            AppEvent::Redraw => true,
        }
    }
}

impl Mode {
    /// The request a key makes in this mode.
    pub fn action_for_key(self, key: KeyCode) -> (res: Result<Intent, UnboundInput>)
        ensures
            match spec_action_for_key(self, key) {
                Some(i) => res == Ok::<Intent, UnboundInput>(i),
                None => res == Err::<Intent, UnboundInput>(UnboundInput::Key),
            },
    {
        match self {
            Mode::Diff => diff_action(key),
            Mode::FileSelector => file_selector_action(key),
        }
    }

    /// The request a mouse action makes in this mode.
    pub fn action_for_mouse(self, kind: MouseKind) -> (res: Result<Intent, UnboundInput>)
        ensures
            match spec_action_for_mouse(self, kind) {
                Some(i) => res == Ok::<Intent, UnboundInput>(i),
                None => res == Err::<Intent, UnboundInput>(UnboundInput::Mouse),
            },
    {
        match (self, kind) {
            (Mode::Diff, MouseKind::ScrollDown) => Ok(Intent::ScrollDown(WHEEL_SCROLL_LINES)),
            (Mode::Diff, MouseKind::ScrollUp) => Ok(Intent::ScrollUp(WHEEL_SCROLL_LINES)),
            (Mode::FileSelector, MouseKind::ScrollDown) => Ok(Intent::SelectNextFile),
            (Mode::FileSelector, MouseKind::ScrollUp) => Ok(Intent::SelectPreviousFile),
            _ => Err(UnboundInput::Mouse),
        }
    }
}

} // verus!
