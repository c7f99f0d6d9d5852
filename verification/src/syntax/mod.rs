//! Syntax highlighting: which language a file is written in, and the colors of highlight names.
use vstd::prelude::*;

use tree_sitter_highlight::{HighlightConfiguration, Highlighter};

use crate::buf::color::ColorError;
use crate::buf::{highlight_outcome, highlighted, theme_palette};
use crate::model::{Delta, EntryView};
use crate::style::Color;
use theme::SyntaxTheme;

pub mod loader;
pub mod matcher;
pub mod theme;

verus! {

/// A tree-sitter highlighter, carried through unopened.
#[verifier::external_type_specification]
#[verifier::external_body]
pub struct ExHighlighter(Highlighter);

/// A language's tree-sitter highlight configuration, carried through unopened.
#[verifier::external_type_specification]
#[verifier::external_body]
pub struct ExHighlightConfiguration(HighlightConfiguration);

/// A file after highlighting with `config`, and how coloring each of its versions went: a file
/// with no configuration stays as it is; otherwise its old and then its new version are each
/// colored from the highlighter's run over it (see [`highlight_outcome`]).
pub open spec fn colored_entry(e: EntryView, config: Option<HighlightConfiguration>, palette: Seq<Color>) -> (EntryView, (Result<(), ColorError>, Result<(), ColorError>)) {
    match config {
        None => (e, (Ok(()), Ok(()))),
        Some(c) => {
            let (old, old_res) = highlight_outcome(e.old, highlighted(c, e.old.content), palette);
            let (new, new_res) = highlight_outcome(e.new, highlighted(c, e.new.content), palette);
            (EntryView { old, new, ..e }, (old_res, new_res))
        },
    }
}

/// Highlights the files of `delta`, file `k` with `configs[k]` (`None` where its language has
/// no grammar), the colors taken from `theme`; gives, for each file, how coloring its old and
/// its new version went.
pub fn highlight_delta(
    delta: &mut Delta,
    configs: &[Option<HighlightConfiguration>],
    highlighter: &mut Highlighter,
    theme: &SyntaxTheme,
) -> (res: Vec<(Result<(), ColorError>, Result<(), ColorError>)>)
    requires
        configs@.len() == old(delta).entries@.len(),
    ensures
        final(delta).entries@.len() == old(delta).entries@.len(),
        res@.len() == old(delta).entries@.len(),
        forall|k: int|
            0 <= k < res@.len() ==> (final(delta).entries@[k]@, #[trigger] res@[k]) == colored_entry(
                old(delta).entries@[k]@,
                configs@[k],
                theme_palette(theme@),
            ),
{
    let mut res: Vec<(Result<(), ColorError>, Result<(), ColorError>)> = Vec::new();
    let n = delta.entries.len();
    let mut k: usize = 0;
    while k < n
        invariant
            n == old(delta).entries@.len(),
            configs@.len() == n,
            delta.entries@.len() == n,
            res@.len() == k,
            k <= n,
            forall|j: int| k <= j < n ==> #[trigger] delta.entries@[j] == old(delta).entries@[j],
            forall|j: int|
                0 <= j < k ==> (delta.entries@[j]@, #[trigger] res@[j]) == colored_entry(
                    old(delta).entries@[j]@,
                    configs@[j],
                    theme_palette(theme@),
                ),
        decreases n - k,
    {
        match &configs[k] {
            None => {
                res.push((Ok(()), Ok(())));
            },
            Some(config) => {
                let old_res = delta.entries[k].old.color(highlighter, config, theme);
                let new_res = delta.entries[k].new.color(highlighter, config, theme);
                res.push((old_res, new_res));
            },
        }
        k += 1;
    }
    res
}

} // verus!
