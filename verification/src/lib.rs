use vstd::prelude::*;

pub mod text;
pub mod cli;
pub mod style;
pub mod buf;
pub mod layout;
pub mod model;
pub mod pager;
pub mod syntax;
pub mod tui;
pub mod eventing;

verus! {

} // verus!
