//! Jumping to the ends of the file and between hunks.
use vstd::prelude::*;

use crate::tui::action::Action;
use crate::tui::{counts_fit, is_next_hunk_start, is_prev_hunk_start, shown_before, shown_count, App};

verus! {

/// Go to the first line.
pub struct Top;

/// Go to the last line.
pub struct Bottom;

/// Go to the start of the next hunk.
pub struct NextHunk;

/// Go to the start of the previous hunk.
pub struct PrevHunk;

/// The selection and the view go to the first line.
pub open spec fn top_spec(old: &App, new: &App) -> bool {
    *new == (App { line: 0, scroll: 0, ..*old })
}

/// The selection goes to the last shown selectable line.
pub open spec fn bottom_spec(old: &App, new: &App) -> bool {
    *new == (App { line: old.last_line() as usize, ..*old })
}

/// The selection goes to the first line of the first shown hunk that starts after it; when
/// there is none it stays.
pub open spec fn next_hunk_spec(old: &App, new: &App) -> bool {
    &&& *new == (App { line: new.line, ..*old })
    &&& if old.selected_file < old.model.entries@.len() {
        let e = &old.model.entries@[old.selected_file as int];
        let h = old.hidden_set();
        ||| exists|k: int| is_next_hunk_start(e, h, old.line as int, k) && new.line == shown_before(e, h, k)
        ||| new.line == old.line && forall|k: int|
            0 <= k < e.hunks@.len() && shown_count(e, h, k) > 0 ==> shown_before(e, h, k) <= old.line
    } else {
        new.line == old.line
    }
}

/// The selection goes to the first line of the last shown hunk that ends at or before it; when
/// there is none it stays.
pub open spec fn prev_hunk_spec(old: &App, new: &App) -> bool {
    &&& *new == (App { line: new.line, ..*old })
    &&& if old.selected_file < old.model.entries@.len() {
        let e = &old.model.entries@[old.selected_file as int];
        let h = old.hidden_set();
        ||| exists|j: int| is_prev_hunk_start(e, h, old.line as int, j) && new.line == shown_before(e, h, j)
        ||| new.line == old.line && forall|j: int| !is_prev_hunk_start(e, h, old.line as int, j)
    } else {
        new.line == old.line
    }
}

impl Action for Top {
    open spec fn allowed(&self, app: &App) -> bool {
        true
    }

    fn perform(&self, app: &mut App)
        ensures
            top_spec(old(app), final(app)),
    {
        app.line = 0;
        app.scroll = 0;
    }
}

impl Action for Bottom {
    open spec fn allowed(&self, app: &App) -> bool {
        counts_fit(&app.model)
    }

    fn perform(&self, app: &mut App)
        ensures
            bottom_spec(old(app), final(app)),
    {
        app.line = app.current_file_line_count().saturating_sub(1);
    }
}

impl Action for NextHunk {
    open spec fn allowed(&self, app: &App) -> bool {
        counts_fit(&app.model)
    }

    fn perform(&self, app: &mut App)
        ensures
            next_hunk_spec(old(app), final(app)),
    {
        if let Some(start) = app.next_hunk_start() {
            app.line = start;
        }
    }
}

impl Action for PrevHunk {
    open spec fn allowed(&self, app: &App) -> bool {
        counts_fit(&app.model)
    }

    fn perform(&self, app: &mut App)
        ensures
            prev_hunk_spec(old(app), final(app)),
    {
        if let Some(start) = app.previous_hunk_start() {
            app.line = start;
        }
    }
}

} // verus!
