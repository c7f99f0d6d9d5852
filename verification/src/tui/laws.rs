//! What holds of the viewer across requests.
use vstd::prelude::*;

use crate::tui::action::hunk::{hide_hunk_spec, unhide_hunks_spec};
use crate::tui::action::jump::{next_hunk_spec, prev_hunk_spec};
use crate::tui::action::{intent_allowed, intent_spec, spec_action_for_key, Intent, KeyCode, Mode};
use crate::tui::{
    is_next_hunk_start, is_prev_hunk_start, lemma_shown_before_hidden, lemma_shown_before_monotonic, shown_before,
    shown_total, App,
};

verus! {

/// Whatever request is carried out, a selection that rests on a shown selectable line (or on
/// the first line when the file shows none) still does.
pub proof fn law_selection_stays_in_range(old: &App, new: &App, intent: Intent)
    requires
        old.line <= old.last_line(),
        intent_spec(old, new, intent),
    ensures
        new.line <= new.last_line(),
{
    let sel = old.selected_file as int;
    match intent {
        Intent::JumpToNextHunk => {
            if sel < old.model.entries@.len() && new.line != old.line {
                let e = &old.model.entries@[sel];
                let h = old.hidden_set();
                let k = choose|k: int| is_next_hunk_start(e, h, old.line as int, k) && new.line == shown_before(e, h, k);
                lemma_shown_before_monotonic(e, h, k, e.hunks@.len() as int);
            }
        },
        Intent::JumpToPreviousHunk => {
            if sel < old.model.entries@.len() && new.line != old.line {
                let e = &old.model.entries@[sel];
                let h = old.hidden_set();
                let j = choose|j: int| is_prev_hunk_start(e, h, old.line as int, j) && new.line == shown_before(e, h, j);
                lemma_shown_before_monotonic(e, h, j, e.hunks@.len() as int);
            }
        },
        Intent::ShowHiddenHunks => {
            if sel < old.model.entries@.len() && sel < old.hidden_hunks@.len() {
                let e = &old.model.entries@[sel];
                lemma_shown_before_hidden(e, old.hidden_set(), e.hunks@.len() as int);
                assert(new.hidden_set() == Set::<usize>::empty());
            }
        },
        _ => {},
    }
}

/// Moving the selection down and back up by the same amount, without reaching the last line,
/// returns to where it was.
pub proof fn law_scroll_down_then_up(a: &App, b: &App, c: &App, amount: u16)
    requires
        a.line + amount <= a.last_line(),
        intent_allowed(a, Intent::ScrollDown(amount)),
        intent_spec(a, b, Intent::ScrollDown(amount)),
        intent_spec(b, c, Intent::ScrollUp(amount)),
    ensures
        *c == *a,
{
    assert(b.line == a.line + amount);
    assert(c.line == a.line);
    assert(*c == (App { line: a.line, ..*a }));
}

/// Moving the selection up and back down by the same amount, from a line in range and without
/// reaching the first line, returns to where it was.
pub proof fn law_scroll_up_then_down(a: &App, b: &App, c: &App, amount: u16)
    requires
        a.line >= amount,
        a.line <= a.last_line(),
        intent_spec(a, b, Intent::ScrollUp(amount)),
        intent_allowed(b, Intent::ScrollDown(amount)),
        intent_spec(b, c, Intent::ScrollDown(amount)),
    ensures
        *c == *a,
{
}

/// Jumping to the next hunk never moves the selection up; jumping to the previous one never
/// moves it down.
pub proof fn law_hunk_jumps_keep_direction(a: &App, b: &App, c: &App)
    requires
        next_hunk_spec(a, b),
        prev_hunk_spec(a, c),
    ensures
        b.line >= a.line,
        c.line <= a.line,
{
    let sel = a.selected_file as int;
    if sel < a.model.entries@.len() {
        let e = &a.model.entries@[sel];
        let h = a.hidden_set();
        if c.line != a.line {
            let j = choose|j: int| is_prev_hunk_start(e, h, a.line as int, j) && c.line == shown_before(e, h, j);
            assert(c.line <= a.line);
        }
    }
}

/// Showing the hidden hunks after hiding one leaves no hunk of the file hidden, and the other
/// files' hidden hunks as they were.
pub proof fn law_unhide_after_hide(a: &App, b: &App, c: &App)
    requires
        a.selected_file < a.hidden_hunks@.len(),
        hide_hunk_spec(a, b),
        unhide_hunks_spec(b, c),
    ensures
        c.selected_file == a.selected_file,
        c.hidden_set() == Set::<usize>::empty(),
        c.hidden_hunks@.len() == a.hidden_hunks@.len(),
        forall|k: int| 0 <= k < c.hidden_hunks@.len() && k != a.selected_file ==> #[trigger] c.hidden_hunks@[k] == a.hidden_hunks@[k],
{
}

/// Opening the file selector and closing it again changes nothing but the highlighted file,
/// which is then the shown one.
pub proof fn law_selector_open_close(a: &App, b: &App, c: &App)
    requires
        a.mode == Mode::Diff,
        intent_spec(a, b, Intent::OpenFileSelector),
        intent_spec(b, c, Intent::CloseFileSelector),
    ensures
        *c == (App { selector_file: a.selected_file, ..*a }),
{
}

/// Confirming a file in the selector shows it from its top, in the diff view.
pub proof fn law_confirm_shows_highlighted(a: &App, b: &App)
    requires
        intent_spec(a, b, Intent::ConfirmFileSelection),
    ensures
        b.selected_file == a.selector_file,
        b.mode == Mode::Diff,
        b.line == 0,
        b.scroll == 0,
{
}

/// In the diff view, `d` jumps to the next hunk and `u` to the previous one: whatever the
/// viewer's state, the request `d` makes never moves the selection up, and the one `u` makes
/// never moves it down.
pub proof fn law_hunk_keys_keep_direction(a: &App, b: &App, c: &App)
    requires
        spec_action_for_key(Mode::Diff, KeyCode::Char('d')) is Some,
        spec_action_for_key(Mode::Diff, KeyCode::Char('u')) is Some,
        intent_spec(a, b, spec_action_for_key(Mode::Diff, KeyCode::Char('d'))->0),
        intent_spec(a, c, spec_action_for_key(Mode::Diff, KeyCode::Char('u'))->0),
    ensures
        spec_action_for_key(Mode::Diff, KeyCode::Char('d')) == Some(Intent::JumpToNextHunk),
        spec_action_for_key(Mode::Diff, KeyCode::Char('u')) == Some(Intent::JumpToPreviousHunk),
        b.line >= a.line,
        c.line <= a.line,
{
    law_hunk_jumps_keep_direction(a, b, c);
}

} // verus!
