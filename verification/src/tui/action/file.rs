//! Moving between the changed files.
use vstd::prelude::*;

use crate::tui::action::Action;
use crate::tui::App;

verus! {

/// Show the next file.
pub struct NextFile;

/// Show the previous file.
pub struct PrevFile;

/// The next file, when there is one, is shown from its top; else nothing changes.
pub open spec fn next_file_spec(old: &App, new: &App) -> bool {
    if old.selected_file + 1 < old.model.entries@.len() {
        *new == (App { selected_file: (old.selected_file + 1) as usize, line: 0, scroll: 0, ..*old })
    } else {
        *new == *old
    }
}

/// The previous file, when there is one, is shown from its top; else nothing changes.
pub open spec fn prev_file_spec(old: &App, new: &App) -> bool {
    if old.selected_file > 0 {
        *new == (App { selected_file: (old.selected_file - 1) as usize, line: 0, scroll: 0, ..*old })
    } else {
        *new == *old
    }
}

impl Action for NextFile {
    open spec fn allowed(&self, app: &App) -> bool {
        true
    }

    fn perform(&self, app: &mut App)
        ensures
            next_file_spec(old(app), final(app)),
    {
        if app.selected_file < app.model.len() && app.selected_file + 1 < app.model.len() {
            app.selected_file += 1;
            app.jump_to_selected_file();
        }
    }
}

impl Action for PrevFile {
    open spec fn allowed(&self, app: &App) -> bool {
        true
    }

    fn perform(&self, app: &mut App)
        ensures
            prev_file_spec(old(app), final(app)),
    {
        if app.selected_file > 0 {
            app.selected_file -= 1;
            app.jump_to_selected_file();
        }
    }
}

} // verus!
