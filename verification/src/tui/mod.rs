//! The interactive diff viewer's state and the rules by which it moves.
use std::collections::BTreeSet;

use vstd::prelude::*;

use crate::model::{critical_count, Delta, Entry};
use crate::style::{Line, Rect, SpanView, Style};
use diff::{spec_diff_area, spec_draw, spec_effective_bounds, rebalanced, Diff, DiffFrame, DiffState};

pub mod action;
pub mod diff;
pub mod edit;
pub mod file_selector;
pub mod keymap;
pub mod laws;
pub mod plain_diff;
pub mod theme;

pub use action::Mode;
pub use theme::Theme;

verus! {

broadcast use vstd::std_specs::btree::group_btree_axioms, vstd::laws_cmp::group_laws_cmp;

/// How many selectable lines hunk `i` of `e` shows: none when it is hidden.
pub open spec fn shown_count(e: &Entry, hidden: Set<usize>, i: int) -> nat {
    if hidden.contains(i as usize) {
        0
    } else {
        critical_count(e.hunks@[i].lines@)
    }
}

/// How many selectable lines the hunks before hunk `i` show.
pub open spec fn shown_before(e: &Entry, hidden: Set<usize>, i: int) -> nat
    decreases i,
{
    if i <= 0 {
        0
    } else {
        shown_before(e, hidden, i - 1) + shown_count(e, hidden, i - 1)
    }
}

/// How many selectable lines the file shows in all.
pub open spec fn shown_total(e: &Entry, hidden: Set<usize>) -> nat {
    shown_before(e, hidden, e.hunks@.len() as int)
}

/// Every file's selectable lines can be counted in a `usize`.
pub open spec fn counts_fit(d: &Delta) -> bool {
    forall|k: int|
        0 <= k < d.entries@.len() ==> shown_total(#[trigger] &d.entries@[k], Set::empty()) <= usize::MAX
}

/// Hunk `i` shows selectable lines and line `line` (counted over shown selectable lines) is one of them.
pub open spec fn hunk_holds_line(e: &Entry, hidden: Set<usize>, i: int, line: int) -> bool {
    &&& 0 <= i < e.hunks@.len()
    &&& shown_count(e, hidden, i) > 0
    &&& shown_before(e, hidden, i) <= line < shown_before(e, hidden, i) + shown_count(e, hidden, i)
}

/// Counts only grow along the hunks.
pub proof fn lemma_shown_before_monotonic(e: &Entry, hidden: Set<usize>, i: int, j: int)
    requires
        i <= j,
    ensures
        shown_before(e, hidden, i) <= shown_before(e, hidden, j),
        0 <= i < j ==> shown_before(e, hidden, i) + shown_count(e, hidden, i) <= shown_before(e, hidden, j),
    decreases j - i,
{
    if i < j {
        lemma_shown_before_monotonic(e, hidden, i, j - 1);
        if j - 1 > i && i >= 0 {
        }
    }
}

/// Hiding hunks never adds lines.
pub proof fn lemma_shown_before_hidden(e: &Entry, hidden: Set<usize>, i: int)
    ensures
        shown_before(e, hidden, i) <= shown_before(e, Set::empty(), i),
    decreases i,
{
    if i > 0 {
        lemma_shown_before_hidden(e, hidden, i - 1);
    }
}

/// Hunk `k` is the first shown hunk with selectable lines that starts after line `line`.
pub open spec fn is_next_hunk_start(e: &Entry, hidden: Set<usize>, line: int, k: int) -> bool {
    &&& 0 <= k < e.hunks@.len()
    &&& shown_count(e, hidden, k) > 0
    &&& shown_before(e, hidden, k) > line
    &&& forall|j: int| 0 <= j < k && shown_count(e, hidden, j) > 0 ==> shown_before(e, hidden, j) <= line
}

/// Hunk `j` is the last shown hunk with selectable lines that ends at or before line `line`.
pub open spec fn is_prev_hunk_start(e: &Entry, hidden: Set<usize>, line: int, j: int) -> bool {
    &&& 0 <= j < e.hunks@.len()
    &&& shown_count(e, hidden, j) > 0
    &&& shown_before(e, hidden, j) + shown_count(e, hidden, j) <= line
    &&& forall|m: int|
        j < m < e.hunks@.len() && shown_count(e, hidden, m) > 0 ==> shown_before(e, hidden, m)
            + shown_count(e, hidden, m) > line
}

/// A line belongs to at most one hunk.
pub proof fn lemma_hunk_holds_line_unique(e: &Entry, hidden: Set<usize>, i: int, j: int, line: int)
    requires
        hunk_holds_line(e, hidden, i, line),
        hunk_holds_line(e, hidden, j, line),
    ensures
        i == j,
{
    if i < j {
        lemma_shown_before_monotonic(e, hidden, i, j);
    } else if j < i {
        lemma_shown_before_monotonic(e, hidden, j, i);
    }
}

/// Whether every file's selectable lines can be counted in a `usize`.
pub fn model_counts_fit(d: &Delta) -> (res: bool)
    ensures
        res == counts_fit(d),
{
    let mut k: usize = 0;
    while k < d.entries.len()
        invariant
            k <= d.entries@.len(),
            forall|j: int| 0 <= j < k ==> shown_total(#[trigger] &d.entries@[j], Set::empty()) <= usize::MAX,
        decreases d.entries@.len() - k,
    {
        let entry = &d.entries[k];
        let hunks = entry.hunks();
        let mut sum: usize = 0;
        let mut i: usize = 0;
        while i < hunks.len()
            invariant
                hunks@.len() == entry.hunks@.len(),
                forall|m: int| 0 <= m < hunks@.len() ==> (#[trigger] hunks@[m]).spec_locs() == entry.hunks@[m].lines@,
                i <= hunks@.len(),
                k < d.entries@.len(),
                entry == &d.entries@[k as int],
                sum == shown_before(entry, Set::empty(), i as int),
            decreases hunks@.len() - i,
        {
            match sum.checked_add(hunks[i].critical()) {
                Some(s) => { sum = s; },
                None => {
                    proof {
                        lemma_shown_before_monotonic(entry, Set::empty(), i + 1, entry.hunks@.len() as int);
                        assert(shown_before(entry, Set::empty(), i + 1) > usize::MAX);
                        assert(shown_total(&d.entries@[k as int], Set::empty()) > usize::MAX);
                    }
                    return false;
                },
            }
            i += 1;
        }
        k += 1;
    }
    true
}

/// The viewer's state.
#[derive(Debug)]
pub struct App {
    /// The diff being shown.
    pub model: Delta,
    /// The file shown.
    pub selected_file: usize,
    /// The file highlighted in the file selector.
    pub selector_file: usize,
    /// Which keybindings are active.
    pub mode: Mode,
    /// The selected line, counted over the shown added and removed lines of the file.
    pub line: usize,
    /// The first visual row shown.
    pub scroll: usize,
    /// For each file, the hunks the user hid.
    pub hidden_hunks: Vec<BTreeSet<usize>>,
    /// The next draw puts the selected line in the middle.
    pub center_line: bool,
    /// The viewer should stop.
    pub should_quit: bool,
    /// How to draw.
    pub theme: Theme,
}

impl App {
    /// The hunks hidden in the shown file.
    pub open spec fn hidden_set(&self) -> Set<usize> {
        if self.selected_file < self.hidden_hunks@.len() {
            self.hidden_hunks@[self.selected_file as int]@
        } else {
            Set::empty()
        }
    }

    /// How many selectable lines the shown file shows.
    pub open spec fn line_count(&self) -> nat {
        if self.selected_file < self.model.entries@.len() {
            shown_total(&self.model.entries@[self.selected_file as int], self.hidden_set())
        } else {
            0
        }
    }

    /// The largest line the cursor may rest on: one less than the count, or 0.
    pub open spec fn last_line(&self) -> int {
        if self.line_count() == 0 {
            0
        } else {
            self.line_count() - 1
        }
    }

    /// A viewer on the first file, in diff mode, at the top, nothing hidden.
    pub fn new(model: Delta, theme: Theme) -> (res: App)
        ensures
            res.model == model,
            res.theme == theme,
            res.selected_file == 0,
            res.selector_file == 0,
            res.mode == Mode::Diff,
            res.line == 0,
            res.scroll == 0,
            res.hidden_hunks@.len() == model.entries@.len(),
            forall|k: int| 0 <= k < res.hidden_hunks@.len() ==> #[trigger] res.hidden_hunks@[k]@ == Set::<usize>::empty(),
            !res.center_line,
            !res.should_quit,
    {
        let len = model.len();
        let mut hidden_hunks: Vec<BTreeSet<usize>> = Vec::new();
        let mut i: usize = 0;
        while i < len
            invariant
                i <= len,
                hidden_hunks@.len() == i,
                forall|k: int| 0 <= k < i ==> #[trigger] hidden_hunks@[k]@ == Set::<usize>::empty(),
            decreases len - i,
        {
            hidden_hunks.push(BTreeSet::new());
            i += 1;
        }
        App {
            model,
            selected_file: 0,
            selector_file: 0,
            mode: Mode::Diff,
            line: 0,
            scroll: 0,
            hidden_hunks,
            center_line: false,
            should_quit: false,
            theme,
        }
    }

    /// Back to the top of the file.
    pub fn jump_to_selected_file(&mut self)
        ensures
            final(self).line == 0,
            final(self).scroll == 0,
            *final(self) == (App { line: 0, scroll: 0, ..*old(self) }),
    {
        self.line = 0;
        self.scroll = 0;
    }

    /// Hunk `hunk` of the shown file is hidden.
    pub fn hunk_is_hidden(&self, hunk: usize) -> (res: bool)
        ensures
            res == self.hidden_set().contains(hunk),
    {
        if self.selected_file < self.hidden_hunks.len() {
            self.hidden_hunks[self.selected_file].contains(&hunk)
        } else {
            false
        }
    }

    /// How many selectable lines the shown file shows.
    pub fn current_file_line_count(&self) -> (res: usize)
        requires
            counts_fit(&self.model),
        ensures
            res == self.line_count(),
    {
        match self.model.get(self.selected_file) {
            None => 0,
            Some(entry) => {
                let ghost hidden = self.hidden_set();
                let hunks = entry.hunks();
                let mut sum: usize = 0;
                let mut i: usize = 0;
                proof {
                    lemma_shown_before_hidden(entry, hidden, entry.hunks@.len() as int);
                    assert(shown_total(&self.model.entries@[self.selected_file as int], Set::empty()) <= usize::MAX);
                }
                while i < hunks.len()
                    invariant
                        hunks@.len() == entry.hunks@.len(),
                        forall|k: int| 0 <= k < hunks@.len() ==> (#[trigger] hunks@[k]).spec_locs() == entry.hunks@[k].lines@,
                        hidden == self.hidden_set(),
                        i <= hunks@.len(),
                        sum == shown_before(entry, hidden, i as int),
                        shown_total(entry, hidden) <= usize::MAX,
                    decreases hunks@.len() - i,
                {
                    proof {
                        lemma_shown_before_monotonic(entry, hidden, i + 1, entry.hunks@.len() as int);
                    }
                    if !self.hunk_is_hidden(i) {
                        sum = sum + hunks[i].critical();
                    }
                    i += 1;
                }
                sum
            },
        }
    }

    /// The shown hunk that holds the selected line, if any.
    pub fn current_hunk(&self) -> (res: Option<usize>)
        requires
            counts_fit(&self.model),
        ensures
            self.selected_file >= self.model.entries@.len() ==> res is None,
            self.selected_file < self.model.entries@.len() ==> match res {
                Some(i) => hunk_holds_line(&self.model.entries@[self.selected_file as int], self.hidden_set(), i as int, self.line as int),
                None => forall|i: int| !hunk_holds_line(&self.model.entries@[self.selected_file as int], self.hidden_set(), i, self.line as int),
            },
    {
        let entry = match self.model.get(self.selected_file) {
            None => { return None; },
            Some(e) => e,
        };
        let ghost hidden = self.hidden_set();
        let hunks = entry.hunks();
        let mut first_line: usize = 0;
        let mut index: usize = 0;
        proof {
            lemma_shown_before_hidden(entry, hidden, entry.hunks@.len() as int);
        }
        while index < hunks.len()
            invariant
                hunks@.len() == entry.hunks@.len(),
                forall|k: int| 0 <= k < hunks@.len() ==> (#[trigger] hunks@[k]).spec_locs() == entry.hunks@[k].lines@,
                hidden == self.hidden_set(),
                self.selected_file < self.model.entries@.len(),
                entry == &self.model.entries@[self.selected_file as int],
                index <= hunks@.len(),
                first_line == shown_before(entry, hidden, index as int),
                shown_total(entry, hidden) <= usize::MAX,
                forall|k: int| 0 <= k < index ==> !hunk_holds_line(entry, hidden, k, self.line as int),
                self.line >= first_line,
            decreases hunks@.len() - index,
        {
            proof {
                lemma_shown_before_monotonic(entry, hidden, index + 1, entry.hunks@.len() as int);
            }
            if self.hunk_is_hidden(index) {
                index += 1;
                continue;
            }
            let line_count = hunks[index].critical();
            if line_count == 0 {
                index += 1;
                continue;
            }
            if self.line < first_line + line_count {
                return Some(index);
            }
            first_line += line_count;
            index += 1;
        }
        proof {
            assert forall|i: int| !hunk_holds_line(entry, hidden, i, self.line as int) by {
                if 0 <= i < entry.hunks@.len() {
                }
            }
        }
        None
    }

    /// Where the next shown hunk after the selected line starts, if there is one.
    pub fn next_hunk_start(&self) -> (res: Option<usize>)
        requires
            counts_fit(&self.model),
        ensures
            self.selected_file >= self.model.entries@.len() ==> res is None,
            self.selected_file < self.model.entries@.len() ==> ({
                let e = &self.model.entries@[self.selected_file as int];
                match res {
                    Some(s) => exists|k: int| is_next_hunk_start(e, self.hidden_set(), self.line as int, k)
                        && s == shown_before(e, self.hidden_set(), k),
                    None => forall|k: int|
                        0 <= k < e.hunks@.len() && shown_count(e, self.hidden_set(), k) > 0
                            ==> shown_before(e, self.hidden_set(), k) <= self.line,
                }
            }),
    {
        let entry = match self.model.get(self.selected_file) {
            None => { return None; },
            Some(e) => e,
        };
        let ghost hidden = self.hidden_set();
        let hunks = entry.hunks();
        let mut first_line: usize = 0;
        let mut index: usize = 0;
        proof {
            lemma_shown_before_hidden(entry, hidden, entry.hunks@.len() as int);
        }
        while index < hunks.len()
            invariant
                hunks@.len() == entry.hunks@.len(),
                forall|k: int| 0 <= k < hunks@.len() ==> (#[trigger] hunks@[k]).spec_locs() == entry.hunks@[k].lines@,
                hidden == self.hidden_set(),
                self.selected_file < self.model.entries@.len(),
                entry == &self.model.entries@[self.selected_file as int],
                index <= hunks@.len(),
                first_line == shown_before(entry, hidden, index as int),
                shown_total(entry, hidden) <= usize::MAX,
                forall|j: int| 0 <= j < index && shown_count(entry, hidden, j) > 0 ==> shown_before(entry, hidden, j) <= self.line,
            decreases hunks@.len() - index,
        {
            proof {
                lemma_shown_before_monotonic(entry, hidden, index + 1, entry.hunks@.len() as int);
            }
            if self.hunk_is_hidden(index) {
                index += 1;
                continue;
            }
            let line_count = hunks[index].critical();
            if line_count == 0 {
                index += 1;
                continue;
            }
            if first_line > self.line {
                assert(is_next_hunk_start(entry, hidden, self.line as int, index as int));
                return Some(first_line);
            }
            first_line += line_count;
            index += 1;
        }
        None
    }

    /// Where the last shown hunk that ends at or before the selected line starts, if there is one.
    pub fn previous_hunk_start(&self) -> (res: Option<usize>)
        requires
            counts_fit(&self.model),
        ensures
            self.selected_file >= self.model.entries@.len() ==> res is None,
            self.selected_file < self.model.entries@.len() ==> ({
                let e = &self.model.entries@[self.selected_file as int];
                match res {
                    Some(s) => exists|j: int| is_prev_hunk_start(e, self.hidden_set(), self.line as int, j)
                        && s == shown_before(e, self.hidden_set(), j),
                    None => forall|j: int| !is_prev_hunk_start(e, self.hidden_set(), self.line as int, j),
                }
            }),
    {
        let entry = match self.model.get(self.selected_file) {
            None => { return None; },
            Some(e) => e,
        };
        let ghost hidden = self.hidden_set();
        let ghost line = self.line as int;
        let hunks = entry.hunks();
        let mut first_line: usize = 0;
        let mut previous: Option<usize> = None;
        let ghost mut prev_idx: int = 0;
        let mut index: usize = 0;
        let ghost len = entry.hunks@.len() as int;
        proof {
            lemma_shown_before_hidden(entry, hidden, len);
        }
        while index < hunks.len()
            invariant
                hunks@.len() == len,
                len == entry.hunks@.len(),
                line == self.line,
                forall|k: int| 0 <= k < hunks@.len() ==> (#[trigger] hunks@[k]).spec_locs() == entry.hunks@[k].lines@,
                hidden == self.hidden_set(),
                self.selected_file < self.model.entries@.len(),
                entry == &self.model.entries@[self.selected_file as int],
                index <= len,
                first_line == shown_before(entry, hidden, index as int),
                shown_total(entry, hidden) <= usize::MAX,
                forall|j: int| 0 <= j < index && shown_count(entry, hidden, j) > 0
                    ==> shown_before(entry, hidden, j) + shown_count(entry, hidden, j) <= line,
                match previous {
                    Some(p) => {
                        &&& 0 <= prev_idx < index
                        &&& shown_count(entry, hidden, prev_idx) > 0
                        &&& p == shown_before(entry, hidden, prev_idx)
                        &&& forall|m: int| prev_idx < m < index ==> shown_count(entry, hidden, m) == 0
                    },
                    None => forall|m: int| 0 <= m < index ==> shown_count(entry, hidden, m) == 0,
                },
            decreases len - index,
        {
            proof {
                lemma_shown_before_monotonic(entry, hidden, index + 1, len);
            }
            if self.hunk_is_hidden(index) {
                index += 1;
                continue;
            }
            let line_count = hunks[index].critical();
            if line_count == 0 {
                index += 1;
                continue;
            }
            if self.line <= first_line || self.line < first_line + line_count {
                proof {
                    let k = index as int;
                    assert forall|m: int| k <= m < len && shown_count(entry, hidden, m) > 0
                        implies shown_before(entry, hidden, m) + shown_count(entry, hidden, m) > line by {
                        lemma_shown_before_monotonic(entry, hidden, k, m);
                    }
                    match previous {
                        Some(p) => {
                            assert(is_prev_hunk_start(entry, hidden, line, prev_idx));
                        },
                        None => {
                            assert forall|j: int| !is_prev_hunk_start(entry, hidden, line, j) by {
                                if 0 <= j < len && shown_count(entry, hidden, j) > 0 && j >= k {
                                    lemma_shown_before_monotonic(entry, hidden, k, j);
                                }
                            }
                        },
                    }
                }
                return previous;
            }
            previous = Some(first_line);
            proof {
                prev_idx = index as int;
            }
            first_line += line_count;
            index += 1;
        }
        proof {
            match previous {
                Some(p) => {
                    assert(is_prev_hunk_start(entry, hidden, line, prev_idx));
                },
                None => {},
            }
        }
        previous
    }

    /// The hunks hidden in the shown file, in increasing order.
    fn hidden_list(&self) -> (res: Vec<usize>)
        ensures
            res@.to_set() == self.hidden_set(),
    {
        let mut hidden: Vec<usize> = Vec::new();
        if self.selected_file < self.hidden_hunks.len() {
            let set = &self.hidden_hunks[self.selected_file];
            let ghost all = vstd::std_specs::iter::IteratorSpec::remaining(&vstd::std_specs::btree::spec_btree_keys_iter(set));
            for h in it: set.iter()
                invariant
                    it.seq() == all,
                    hidden@.len() == it.index(),
                    hidden@ == all.take(it.index()).unref(),
            {
                let ghost before = hidden@;
                hidden.push(*h);
                assert(all.take(it.index() + 1).unref() =~= before.push(*h));
            }
            assert(hidden@.len() == all.len());
            assert(all.take(all.len() as int) =~= all);
            assert(hidden@ =~= all.unref());
            assert(hidden@.to_set() =~= set@);
        } else {
            assert(hidden@.to_set() =~= Set::<usize>::empty());
        }
        hidden
    }

    /// Draws the viewer into `area`: the warning when nothing changed; else the shown file's
    /// diff, its hidden hunks left out (see [`Diff::render`]), the selection and scroll it fits
    /// kept for the next draw, and the file selector over it when open.
    pub fn draw(&mut self, area: Rect) -> (res: Screen)
        requires
            counts_fit(&old(self).model),
            area.x + area.width <= u16::MAX,
        ensures
            old(self).model.entries@.len() == 0 ==> res == (Screen::Empty { warning: old(self).theme.warning }) && *final(self) == *old(self),
            old(self).model.entries@.len() > 0 ==> ({
                let before = DiffState { line: old(self).line, scroll: old(self).scroll, center_line: old(self).center_line };
                let after = DiffState { line: final(self).line, scroll: final(self).scroll, center_line: final(self).center_line };
                &&& *final(self) == (App { line: after.line, scroll: after.scroll, center_line: after.center_line, ..*old(self) })
                &&& res matches Screen::Files { diff, selector } && ({
                    &&& selector == (if old(self).mode == Mode::FileSelector { Some(old(self).selector_file) } else { None })
                    &&& drawn(old(self), area, before, after, diff)
                })
            }),
    {
        if self.model.len() == 0 {
            return Screen::Empty { warning: self.theme.warning };
        }
        let hidden = self.hidden_list();
        let mut state = DiffState { line: self.line, scroll: self.scroll, center_line: self.center_line };
        let frame = {
            let path = match self.model.get(self.selected_file) {
                Some(entry) => Some(entry.path.as_str()),
                None => None,
            };
            let diff = Diff {
                path,
                selected_entry: self.selected_file,
                delta: &self.model,
                hidden_hunks: hidden.as_slice(),
                theme: &self.theme,
            };
            diff.render(area, &mut state)
        };
        self.line = state.line;
        self.scroll = state.scroll;
        self.center_line = state.center_line;
        let selector = if self.mode == Mode::FileSelector {
            Some(self.selector_file)
        } else {
            None
        };
        Screen::Files { diff: frame, selector }
    }
}


/// What the viewer puts on screen.
pub enum Screen {
    /// Nothing changed: a centered warning over the whole area.
    Empty { warning: Style },
    /// The shown file's diff, and the file the file selector highlights when it is open.
    Files { diff: Option<DiffFrame>, selector: Option<usize> },
}

/// `diff` is what drawing `app`'s shown file into `area` gives, the selection and scroll going
/// from `before` to `after`: nothing, the state kept, when the file does not exist or no row is
/// left under its path; else the rows [`Diff::render`] describes.
pub open spec fn drawn(app: &App, area: Rect, before: DiffState, after: DiffState, diff: Option<DiffFrame>) -> bool {
    if app.selected_file >= app.model.entries@.len() {
        diff is None && after == before
    } else {
        let e = &app.model.entries@[app.selected_file as int];
        let da = spec_diff_area(area, true);
        if da.height == 0 {
            diff is None && after == before
        } else {
            &&& rebalanced(e, before, after, da.height as int)
            &&& diff matches Some(f) && ({
                let d = spec_draw(e, app.theme, app.hidden_set(), after.line as int, after.scroll as nat, da.height as nat);
                &&& f.render_area == spec_effective_bounds(e, da)
                &&& f.path_area == (Rect { y: area.y, height: 1, ..f.render_area })
                &&& f.path matches Some(s) && s@ == (SpanView { content: e.path@, style: app.theme.hunk_header })
                &&& f.row_area == da
                &&& f.row_styles@ == d.rows
                &&& f.text@.map_values(|l: Line| l@) == d.text
            })
        }
    }
}

} // verus!
