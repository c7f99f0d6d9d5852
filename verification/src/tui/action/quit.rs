//! Leaving the viewer.
use vstd::prelude::*;

use crate::tui::action::Action;
use crate::tui::App;

verus! {

/// Stop the viewer.
pub struct Quit;

/// After quitting only the quit flag changed, and it is set.
pub open spec fn quit_spec(old: &App, new: &App) -> bool {
    *new == (App { should_quit: true, ..*old })
}

impl Action for Quit {
    open spec fn allowed(&self, app: &App) -> bool {
        true
    }

    fn perform(&self, app: &mut App)
        ensures
            quit_spec(old(app), final(app)),
    {
        app.should_quit = true;
    }
}

} // verus!
