//! The file selector: a centered list of the changed files over the diff view.
use vstd::prelude::*;

use crate::layout::{centered_outcome, centered_rect};
use crate::model::Entry;
use crate::style::{Color, Modifier, Rect, Style};

verus! {

/// The selector's title.
pub const SELECTOR_TITLE: &'static str = "Files — Enter select, Esc close";
/// The mark before the highlighted file.
pub const SELECTOR_SYMBOL: &'static str = "› ";

/// The list of files to choose from.
pub struct FileSelector<'a> {
    pub entries: &'a [Entry],
}

impl<'a> FileSelector<'a> {
    /// Where the selector is drawn: the middle of `area`, 70% of it each way, as the layout
    /// splits place it.
    pub fn area(&self, area: Rect) -> (res: Rect)
        ensures
            centered_outcome(70, 70, area, res),
    {
        centered_rect(70, 70, area)
    }

    /// The rows of the list: each file's path, in order.
    pub fn items(&self) -> (res: Vec<String>)
        ensures
            res@.len() == self.entries@.len(),
            forall|k: int| 0 <= k < res@.len() ==> #[trigger] res@[k]@ == self.entries@[k].path@,
    {
        let mut res: Vec<String> = Vec::new();
        let mut k: usize = 0;
        while k < self.entries.len()
            invariant
                k <= self.entries@.len(),
                res@.len() == k,
                forall|j: int| 0 <= j < k ==> #[trigger] res@[j]@ == self.entries@[j].path@,
            decreases self.entries@.len() - k,
        {
            res.push(self.entries[k].path.clone());
            k += 1;
        }
        res
    }

    /// How the highlighted file is drawn: bold yellow.
    pub fn highlight_style(&self) -> (res: Style)
        ensures
            res == (Style { fg: Some(Color::Yellow), bg: None, add_modifier: Modifier { bits: 1 } }),
    {
        assert(0u16 | 1u16 == 1u16) by (bit_vector);
        Style::new().fg(Color::Yellow).add_modifier(Modifier::bold())
    }
}

} // verus!
