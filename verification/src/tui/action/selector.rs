//! The file selector: choosing which file to show.
use vstd::prelude::*;

use crate::tui::action::{Action, Mode};
use crate::tui::App;

verus! {

/// Open the file selector on the shown file.
pub struct Open;

/// Close the file selector.
pub struct Close;

/// Highlight the next file in the selector.
pub struct NextFile;

/// Highlight the previous file in the selector.
pub struct PrevFile;

/// Highlight the first file in the selector.
pub struct FirstFile;

/// Highlight the last file in the selector.
pub struct LastFile;

/// Show the highlighted file and close the selector.
pub struct Confirm;

/// The selector opens with the shown file highlighted.
pub open spec fn open_spec(old: &App, new: &App) -> bool {
    *new == (App { selector_file: old.selected_file, mode: Mode::FileSelector, ..*old })
}

/// The selector closes; the shown file stays.
pub open spec fn close_spec(old: &App, new: &App) -> bool {
    *new == (App { mode: Mode::Diff, ..*old })
}

/// The highlight moves down unless it is on the last file.
pub open spec fn select_next_spec(old: &App, new: &App) -> bool {
    if old.selector_file + 1 < old.model.entries@.len() {
        *new == (App { selector_file: (old.selector_file + 1) as usize, ..*old })
    } else {
        *new == *old
    }
}

/// The highlight moves up, stopping at the first file.
pub open spec fn select_prev_spec(old: &App, new: &App) -> bool {
    *new == (App { selector_file: if old.selector_file == 0 { 0 } else { (old.selector_file - 1) as usize }, ..*old })
}

/// The highlight goes to the first file.
pub open spec fn select_first_spec(old: &App, new: &App) -> bool {
    *new == (App { selector_file: 0, ..*old })
}

/// The highlight would go to the last file, but the test guarding it (`!len == 0`, a bitwise
/// complement) only passes when every bit of the number of files is set, that is when it is
/// `usize::MAX`: otherwise nothing changes.
pub open spec fn select_last_spec(old: &App, new: &App) -> bool {
    let len = old.model.entries@.len() as usize;
    if !len == 0usize {
        *new == (App { selector_file: (len - 1) as usize, ..*old })
    } else {
        *new == *old
    }
}

/// The highlighted file is shown from its top and the selector closes.
pub open spec fn confirm_spec(old: &App, new: &App) -> bool {
    *new == (App { selected_file: old.selector_file, mode: Mode::Diff, line: 0, scroll: 0, ..*old })
}

impl Action for Open {
    open spec fn allowed(&self, app: &App) -> bool {
        true
    }

    fn perform(&self, app: &mut App)
        ensures
            open_spec(old(app), final(app)),
    {
        app.selector_file = app.selected_file;
        app.mode = Mode::FileSelector;
    }
}

impl Action for Close {
    open spec fn allowed(&self, app: &App) -> bool {
        true
    }

    fn perform(&self, app: &mut App)
        ensures
            close_spec(old(app), final(app)),
    {
        app.mode = Mode::Diff;
    }
}

impl Action for NextFile {
    open spec fn allowed(&self, app: &App) -> bool {
        true
    }

    fn perform(&self, app: &mut App)
        ensures
            select_next_spec(old(app), final(app)),
    {
        if app.selector_file < app.model.len() && app.selector_file + 1 < app.model.len() {
            app.selector_file += 1;
        }
    }
}

impl Action for PrevFile {
    open spec fn allowed(&self, app: &App) -> bool {
        true
    }

    fn perform(&self, app: &mut App)
        ensures
            select_prev_spec(old(app), final(app)),
    {
        app.selector_file = app.selector_file.saturating_sub(1);
    }
}

impl Action for FirstFile {
    open spec fn allowed(&self, app: &App) -> bool {
        true
    }

    fn perform(&self, app: &mut App)
        ensures
            select_first_spec(old(app), final(app)),
    {
        app.selector_file = 0;
    }
}

impl Action for LastFile {
    open spec fn allowed(&self, app: &App) -> bool {
        true
    }

    fn perform(&self, app: &mut App)
        ensures
            select_last_spec(old(app), final(app)),
    {
        let len = app.model.len();
        assert(!len == 0usize ==> len > 0usize) by (bit_vector);
        if !len == 0 {
            app.selector_file = len - 1;
        }
    }
}

impl Action for Confirm {
    open spec fn allowed(&self, app: &App) -> bool {
        true
    }

    fn perform(&self, app: &mut App)
        ensures
            confirm_spec(old(app), final(app)),
    {
        app.selected_file = app.selector_file;
        app.mode = Mode::Diff;
        app.jump_to_selected_file();
    }
}

} // verus!
