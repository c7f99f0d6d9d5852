//! Moving the selected line.
use vstd::prelude::*;

use crate::tui::action::Action;
use crate::tui::{counts_fit, App};

verus! {

/// Move the selection up by this many lines.
pub struct ScrollUp(pub u16);

/// Move the selection down by this many lines.
pub struct ScrollDown(pub u16);

/// The selection moves up by `amount`, stopping at the first line.
pub open spec fn scroll_up_spec(old: &App, new: &App, amount: u16) -> bool {
    *new == (App { line: if old.line >= amount { (old.line - amount) as usize } else { 0 }, ..*old })
}

/// The selection moves down by `amount`, stopping at the last shown selectable line.
pub open spec fn scroll_down_spec(old: &App, new: &App, amount: u16) -> bool {
    *new == (App {
        line: if old.line + amount <= old.last_line() { (old.line + amount) as usize } else { old.last_line() as usize },
        ..*old
    })
}

impl Action for ScrollUp {
    open spec fn allowed(&self, app: &App) -> bool {
        true
    }

    fn perform(&self, app: &mut App)
        ensures
            scroll_up_spec(old(app), final(app), self.0),
    {
        app.line = app.line.saturating_sub(self.0 as usize);
    }
}

impl Action for ScrollDown {
    open spec fn allowed(&self, app: &App) -> bool {
        &&& counts_fit(&app.model)
        &&& app.line + self.0 <= usize::MAX
    }

    fn perform(&self, app: &mut App)
        ensures
            scroll_down_spec(old(app), final(app), self.0),
    {
        app.line = app.line + self.0 as usize;
        let last_line = app.current_file_line_count().saturating_sub(1);
        if last_line < app.line {
            app.line = last_line;
        }
    }
}

} // verus!
