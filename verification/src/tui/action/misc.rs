//! Centering the selected line.
use vstd::prelude::*;

use crate::tui::action::Action;
use crate::tui::App;

verus! {

/// Put the selected line in the middle at the next draw.
pub struct CenterLine;

/// Only the centering flag changed, and it is set.
pub open spec fn center_line_spec(old: &App, new: &App) -> bool {
    *new == (App { center_line: true, ..*old })
}

impl Action for CenterLine {
    open spec fn allowed(&self, app: &App) -> bool {
        true
    }

    fn perform(&self, app: &mut App)
        ensures
            center_line_spec(old(app), final(app)),
    {
        app.center_line = true;
    }
}

} // verus!
