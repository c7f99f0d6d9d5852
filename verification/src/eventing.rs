//! The events the viewer reacts to.
use vstd::prelude::*;

use crate::tui::action::{KeyCode, MouseKind};

verus! {

/// Events distributed through the application's event channel.
#[derive(Debug, Clone, Copy, PartialEq, Eq, Structural)]
pub enum AppEvent {
    Key(KeyCode),
    Mouse(MouseKind),
    Redraw,
}

} // verus!
