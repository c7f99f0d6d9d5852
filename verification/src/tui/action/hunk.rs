//! Hiding hunks and showing them again.
use vstd::prelude::*;

use crate::tui::action::Action;
use crate::tui::{counts_fit, hunk_holds_line, lemma_hunk_holds_line_unique, App};

verus! {

broadcast use vstd::std_specs::btree::group_btree_axioms, vstd::laws_cmp::group_laws_cmp;

/// Hide the hunk of the selected line.
pub struct HideHunk;

/// Show every hunk of the file again.
pub struct UnhideHunks;

/// When a shown hunk holds the selected line, it is added to the file's hidden hunks and the
/// selection and the view are pulled back to the last line still shown; otherwise nothing
/// changes.
pub open spec fn hide_hunk_spec(old: &App, new: &App) -> bool {
    let sel = old.selected_file as int;
    if sel < old.model.entries@.len() && exists|i: int|
        hunk_holds_line(&old.model.entries@[sel], old.hidden_set(), i, old.line as int) {
        let i = choose|i: int| hunk_holds_line(&old.model.entries@[sel], old.hidden_set(), i, old.line as int);
        &&& new.hidden_hunks@.len() == old.hidden_hunks@.len()
        &&& forall|k: int| 0 <= k < new.hidden_hunks@.len() && k != sel ==> #[trigger] new.hidden_hunks@[k] == old.hidden_hunks@[k]
        &&& sel < old.hidden_hunks@.len() ==> new.hidden_hunks@[sel]@ == old.hidden_set().insert(i as usize)
        &&& new.line == if old.line <= new.last_line() { old.line as int } else { new.last_line() }
        &&& new.scroll == if old.scroll <= new.last_line() { old.scroll as int } else { new.last_line() }
        &&& *new == (App { hidden_hunks: new.hidden_hunks, line: new.line, scroll: new.scroll, ..*old })
    } else {
        *new == *old
    }
}

/// The file's hidden hunks are shown again.
pub open spec fn unhide_hunks_spec(old: &App, new: &App) -> bool {
    let sel = old.selected_file as int;
    &&& new.hidden_hunks@.len() == old.hidden_hunks@.len()
    &&& forall|k: int| 0 <= k < new.hidden_hunks@.len() && k != sel ==> #[trigger] new.hidden_hunks@[k] == old.hidden_hunks@[k]
    &&& sel < old.hidden_hunks@.len() ==> new.hidden_hunks@[sel]@ == Set::<usize>::empty()
    &&& *new == (App { hidden_hunks: new.hidden_hunks, ..*old })
}

impl Action for HideHunk {
    open spec fn allowed(&self, app: &App) -> bool {
        counts_fit(&app.model)
    }

    fn perform(&self, app: &mut App)
        ensures
            hide_hunk_spec(old(app), final(app)),
    {
        if let Some(hunk) = app.current_hunk() {
            let ghost sel = app.selected_file as int;
            proof {
                let i = choose|i: int| hunk_holds_line(&app.model.entries@[sel], app.hidden_set(), i, app.line as int);
                lemma_hunk_holds_line_unique(&app.model.entries@[sel], app.hidden_set(), i, hunk as int, app.line as int);
            }
            if app.selected_file < app.hidden_hunks.len() {
                let mut hidden = app.hidden_hunks[app.selected_file].clone();
                hidden.insert(hunk);
                app.hidden_hunks.set(app.selected_file, hidden);
            }
            let count = app.current_file_line_count();
            let last_line = if count == 0 { 0 } else { count - 1 };
            if last_line < app.line {
                app.line = last_line;
            }
            if last_line < app.scroll {
                app.scroll = last_line;
            }
        }
    }
}

impl Action for UnhideHunks {
    open spec fn allowed(&self, app: &App) -> bool {
        true
    }

    fn perform(&self, app: &mut App)
        ensures
            unhide_hunks_spec(old(app), final(app)),
    {
        if app.selected_file < app.hidden_hunks.len() {
            let mut hidden = app.hidden_hunks[app.selected_file].clone();
            hidden.clear();
            app.hidden_hunks.set(app.selected_file, hidden);
        }
    }
}

} // verus!
