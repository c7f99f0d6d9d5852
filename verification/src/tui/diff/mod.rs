//! The diff view: which rows of the selected file are drawn, in which style, and how the view
//! scrolls to keep the selected line in sight.
use vstd::prelude::*;

use crate::model::{
    critical_count, is_critical_status, lemma_critical_count_bounds, loc_spans, loc_text, Delta,
    DiffLoc, Entry, LineStatus,
};
use crate::style::{Color, Line, Modifier, Rect, Span, SpanView, Style};
use crate::text::chars_of;
use crate::tui::{counts_fit, lemma_shown_before_monotonic, shown_before, shown_total, Theme};

pub mod window;

use window::{window_step, Window};

verus! {

/// What the diff view draws: one file of a diff, without its hidden hunks.
pub struct Diff<'a> {
    /// The file's path, drawn above the hunks when given.
    pub path: Option<&'a str>,
    /// Which file of the diff.
    pub selected_entry: usize,
    pub delta: &'a Delta,
    /// Hunks not drawn.
    pub hidden_hunks: &'a [usize],
    pub theme: &'a Theme,
}

/// The selected line, the first visual row shown, and whether to center the selection.
#[derive(Debug, Clone, Copy, PartialEq, Eq, Structural)]
pub struct DiffState {
    pub line: usize,
    pub scroll: usize,
    pub center_line: bool,
}

/// What one draw of the diff view puts on screen, in drawing order: the path line, then the
/// style of each row, then the text.
#[derive(Debug)]
pub struct DiffFrame {
    /// Where the path is drawn.
    pub path_area: Rect,
    /// The path, in the hunk header style.
    pub path: Option<Span>,
    /// The area whose rows get `row_styles`.
    pub row_area: Rect,
    /// The style of each row, as its offset from the top of `row_area`, applied in order.
    pub row_styles: Vec<(usize, Style)>,
    /// Where the text is drawn.
    pub render_area: Rect,
    /// The lines of text, top first.
    pub text: Vec<Line>,
}

/// `(i, j)` is the selected line: line `j` of hunk `i` is added or removed and is the
/// `line`-th such line of the file, hidden hunks included.
pub open spec fn selects(e: &Entry, line: int, i: int, j: int) -> bool {
    &&& 0 <= i < e.hunks@.len()
    &&& 0 <= j < e.hunks@[i].lines@.len()
    &&& is_critical_status(e.hunks@[i].lines@[j].status)
    &&& shown_before(e, Set::empty(), i) + critical_count(e.hunks@[i].lines@.take(j)) == line
}

/// The style a diff line is drawn in: its status background, and, when selected, the
/// selection background, the selected foreground of added or removed lines, and the selection
/// modifiers.
pub open spec fn spec_style_for(theme: Theme, status: LineStatus, selected: bool) -> Style {
    let plain = Style { fg: None, bg: None, add_modifier: Modifier { bits: 0 } };
    let base = match status {
        LineStatus::Add => Style { bg: Some(theme.added_bg), ..plain },
        LineStatus::Remove => Style { bg: Some(theme.removed_bg), ..plain },
        LineStatus::Context => plain,
        LineStatus::Binary => Style { bg: Some(theme.binary_bg), ..plain },
    };
    if !selected {
        base
    } else {
        let with_bg = match theme.selected_bg {
            Some(c) => Style { bg: Some(c), ..base },
            None => base,
        };
        let fg = match status {
            LineStatus::Add => theme.selected_added_fg,
            LineStatus::Remove => theme.selected_removed_fg,
            _ => None,
        };
        let with_fg = match fg {
            Some(c) => Style { fg: Some(c), ..with_bg },
            None => with_bg,
        };
        Style { add_modifier: Modifier { bits: with_fg.add_modifier.bits | theme.selected_modifier.bits }, ..with_fg }
    }
}

/// The scroll that keeps visual row `j` in a view of `height` rows: centered when asked,
/// else moved the least that shows it.
pub open spec fn spec_scroll_for(old: DiffState, j: int, height: int) -> int {
    if old.center_line {
        if j >= height / 2 { j - height / 2 } else { 0 }
    } else if j < old.scroll {
        j
    } else if j >= (if old.scroll + height <= usize::MAX { old.scroll + height } else { usize::MAX as int }) {
        if j >= height - 1 { j - (if height >= 1 { height - 1 } else { 0 }) } else { 0 }
    } else {
        old.scroll as int
    }
}

/// The state after fitting the view to `height` rows: the scroll follows the selected line when
/// there is one, and the centering request is consumed.
pub open spec fn rebalanced(e: &Entry, old: DiffState, new: DiffState, height: int) -> bool {
    &&& new.line == old.line
    &&& !new.center_line
    &&& if exists|i: int, j: int| selects(e, old.line as int, i, j) {
        let (i, j) = choose|i: int, j: int| selects(e, old.line as int, i, j);
        new.scroll == spec_scroll_for(old, j, height)
    } else {
        new.scroll == old.scroll
    }
}

/// The widest of the lines' texts, each length cut to 16 bits.
pub open spec fn locs_width(e: &Entry, locs: Seq<DiffLoc>) -> int
    decreases locs.len(),
{
    if locs.len() == 0 {
        0
    } else {
        let w = locs_width(e, locs.drop_last());
        let l = (loc_text(e, locs.last()).len() as u16) as int;
        if w >= l { w } else { l }
    }
}

/// The widest line of the first `n` hunks.
pub open spec fn entry_width(e: &Entry, n: int) -> int
    decreases n,
{
    if n <= 0 {
        0
    } else {
        let w = entry_width(e, n - 1);
        let l = locs_width(e, e.hunks@[n - 1].lines@);
        if w >= l { w } else { l }
    }
}

/// The area the text is drawn in: `area`, moved right by half the room the widest line leaves.
pub open spec fn spec_effective_bounds(e: &Entry, area: Rect) -> Rect {
    let len = entry_width(e, e.hunks@.len() as int);
    let pad = (if area.width > len { area.width - len } else { 0 }) / 2;
    Rect { x: (area.x + pad) as u16, width: (area.width - pad) as u16, ..area }
}

/// The draw in progress. The rows drawn so far are the lines of `text`.
pub struct DrawState {
    /// Rows still to skip and rows still to fill.
    pub window: (nat, nat),
    /// How many added or removed lines were passed.
    pub crit: int,
    /// Each styled row, as its offset from the top of the view, and its style, in order.
    pub rows: Seq<(usize, Style)>,
    /// The text drawn.
    pub text: Seq<Seq<SpanView>>,
    /// No row is left.
    pub done: bool,
}

/// A hunk header passes: drawn, and taking a row, once no row is left to skip.
pub open spec fn draw_header(theme: Theme, st: DrawState, header: Seq<char>) -> DrawState {
    if st.window.0 == 0 {
        DrawState {
            window: window_step(st.window),
            text: st.text.push(seq![SpanView { content: header, style: theme.hunk_header }]),
            ..st
        }
    } else {
        st
    }
}

/// A diff line passes: the row under the text drawn so far gets its style, it is drawn once no
/// row is left to skip, and the draw ends when no row is left to fill.
pub open spec fn draw_line(e: &Entry, theme: Theme, line: int, st: DrawState, loc: DiffLoc) -> DrawState {
    let critical = is_critical_status(loc.status);
    let style = spec_style_for(theme, loc.status, critical && st.crit == line);
    let visible = st.window.0 == 0;
    let window = window_step(st.window);
    DrawState {
        window,
        crit: if window.1 == 0 || !critical { st.crit } else { st.crit + 1 },
        rows: st.rows.push((st.text.len() as usize, style)),
        text: if visible { st.text.push(loc_spans(e, loc)) } else { st.text },
        done: window.1 == 0,
    }
}

/// The lines of a hunk pass in order, until the draw ends.
pub open spec fn draw_lines(e: &Entry, theme: Theme, line: int, st: DrawState, locs: Seq<DiffLoc>) -> DrawState
    decreases locs.len(),
{
    if locs.len() == 0 {
        st
    } else {
        let prev = draw_lines(e, theme, line, st, locs.drop_last());
        if prev.done {
            prev
        } else {
            draw_line(e, theme, line, prev, locs.last())
        }
    }
}

/// The first `n` hunks pass in order, hidden ones skipped, until the draw ends.
pub open spec fn draw_hunks(e: &Entry, theme: Theme, hidden: Set<usize>, line: int, st: DrawState, n: int) -> DrawState
    decreases n,
{
    if n <= 0 {
        st
    } else {
        let prev = draw_hunks(e, theme, hidden, line, st, n - 1);
        if prev.done || hidden.contains((n - 1) as usize) {
            prev
        } else {
            draw_lines(e, theme, line, draw_header(theme, prev, e.hunks@[n - 1].header@), e.hunks@[n - 1].lines@)
        }
    }
}

/// The whole draw of file `e`: `height` rows from visual row `scroll`, with line `line` selected.
pub open spec fn spec_draw(e: &Entry, theme: Theme, hidden: Set<usize>, line: int, scroll: nat, height: nat) -> DrawState {
    let start = DrawState { window: (scroll, height), crit: 0, rows: Seq::empty(), text: Seq::empty(), done: false };
    draw_hunks(e, theme, hidden, line, start, e.hunks@.len() as int)
}

/// The rows the diff lines get: `area` less the path line when a path is drawn.
pub open spec fn spec_diff_area(area: Rect, has_path: bool) -> Rect {
    let ph: int = if has_path { 1 } else { 0 };
    Rect {
        y: if area.y + ph <= u16::MAX { (area.y + ph) as u16 } else { u16::MAX },
        height: if area.height >= ph { (area.height - ph) as u16 } else { 0 },
        ..area
    }
}

/// Fitting the view keeps the selected line in sight: after [`rebalanced`], the row of the
/// selected line lies within the `height` rows shown from the new scroll.
pub proof fn law_rebalance_shows_selection(e: &Entry, old: DiffState, new: DiffState, height: int, i: int, j: int)
    requires
        0 < height,
        rebalanced(e, old, new, height),
        selects(e, old.line as int, i, j),
    ensures
        new.scroll <= j < new.scroll + height,
{
    assert(e.hunks@[i].lines@.len() == e.hunks@[i].lines.len());
    let (i2, j2) = choose|i2: int, j2: int| selects(e, old.line as int, i2, j2);
    lemma_selects_unique(e, old.line as int, i, j, i2, j2);
}

/// Once the draw has ended, the lines left change nothing.
pub proof fn lemma_draw_lines_done(e: &Entry, theme: Theme, line: int, st: DrawState, locs: Seq<DiffLoc>, j: int)
    requires
        0 <= j <= locs.len(),
        draw_lines(e, theme, line, st, locs.take(j)).done,
    ensures
        draw_lines(e, theme, line, st, locs) == draw_lines(e, theme, line, st, locs.take(j)),
    decreases locs.len() - j,
{
    if j < locs.len() {
        assert(locs.take(j + 1).drop_last() == locs.take(j));
        lemma_draw_lines_done(e, theme, line, st, locs, j + 1);
    } else {
        assert(locs.take(j) == locs);
    }
}

/// Once the draw has ended, the hunks left change nothing.
pub proof fn lemma_draw_hunks_done(e: &Entry, theme: Theme, hidden: Set<usize>, line: int, st: DrawState, i: int, n: int)
    requires
        0 <= i <= n,
        draw_hunks(e, theme, hidden, line, st, i).done,
    ensures
        draw_hunks(e, theme, hidden, line, st, n) == draw_hunks(e, theme, hidden, line, st, i),
    decreases n - i,
{
    if i < n {
        lemma_draw_hunks_done(e, theme, hidden, line, st, i, n - 1);
    }
}

/// The lines of the first `n` hunks that are not hidden, in order.
pub open spec fn shown_locs(e: &Entry, hidden: Set<usize>, n: int) -> Seq<DiffLoc>
    decreases n,
{
    if n <= 0 {
        Seq::empty()
    } else if hidden.contains((n - 1) as usize) {
        shown_locs(e, hidden, n - 1)
    } else {
        shown_locs(e, hidden, n - 1) + e.hunks@[n - 1].lines@
    }
}

/// The style of the row of shown line `k`: selected exactly when the line is added or removed
/// and `line` such lines are shown before it.
pub open spec fn row_style(theme: Theme, locs: Seq<DiffLoc>, k: int, line: int) -> Style {
    spec_style_for(theme, locs[k].status, is_critical_status(locs[k].status) && critical_count(locs.take(k)) == line)
}

/// Counting the lines of two runs one after the other adds their counts.
pub proof fn lemma_critical_count_concat(a: Seq<DiffLoc>, b: Seq<DiffLoc>)
    ensures
        critical_count(a + b) == critical_count(a) + critical_count(b),
    decreases b.len(),
{
    if b.len() > 0 {
        assert((a + b).drop_last() =~= a + b.drop_last());
        lemma_critical_count_concat(a, b.drop_last());
    } else {
        assert(a + b =~= a);
    }
}

/// A hunk's lines pass from a draw that has not ended: the rows kept, then one row per line
/// passed, each styled by whether the lines counted so far reach `line`; while the draw goes
/// on, every line passed and the count grows by the hunk's added and removed lines.
proof fn lemma_draw_lines_rows(e: &Entry, theme: Theme, line: int, st: DrawState, locs: Seq<DiffLoc>)
    requires
        !st.done,
    ensures
        ({
            let out = draw_lines(e, theme, line, st, locs);
            let r0 = st.rows.len() as int;
            &&& r0 <= out.rows.len() <= r0 + locs.len()
            &&& forall|k: int| 0 <= k < r0 ==> #[trigger] out.rows[k] == st.rows[k]
            &&& forall|t: int|
                0 <= t < out.rows.len() - r0 ==> (#[trigger] out.rows[r0 + t]).1 == spec_style_for(
                    theme,
                    locs[t].status,
                    is_critical_status(locs[t].status) && st.crit + critical_count(locs.take(t)) == line,
                )
            &&& !out.done ==> out.rows.len() == r0 + locs.len() && out.crit == st.crit + critical_count(locs)
        }),
    decreases locs.len(),
{
    if locs.len() > 0 {
        let prev = draw_lines(e, theme, line, st, locs.drop_last());
        lemma_draw_lines_rows(e, theme, line, st, locs.drop_last());
        let r0 = st.rows.len() as int;
        assert forall|t: int| 0 <= t < locs.len() - 1 implies locs.drop_last().take(t) == locs.take(t)
            && locs.drop_last()[t] == locs[t] by {
            assert(locs.drop_last().take(t) =~= locs.take(t));
        }
        if !prev.done {
            assert(locs.take(locs.len() - 1) =~= locs.drop_last());
            assert(locs.drop_last().push(locs.last()) =~= locs);
        }
    } else {
        assert(locs.take(0) =~= locs);
    }
}

/// The draw of the first `n` hunks from the start: its rows follow the shown lines one for
/// one (see [`row_style`]); while it goes on, every shown line was passed and counted.
proof fn lemma_draw_hunks_rows(e: &Entry, theme: Theme, hidden: Set<usize>, line: int, st0: DrawState, n: int)
    requires
        st0.crit == 0,
        st0.rows.len() == 0,
        !st0.done,
        0 <= n <= e.hunks@.len(),
    ensures
        ({
            let out = draw_hunks(e, theme, hidden, line, st0, n);
            let f = shown_locs(e, hidden, n);
            &&& out.rows.len() <= f.len()
            &&& forall|k: int| 0 <= k < out.rows.len() ==> (#[trigger] out.rows[k]).1 == row_style(theme, f, k, line)
            &&& !out.done ==> out.rows.len() == f.len() && out.crit == critical_count(f)
        }),
    decreases n,
{
    if n > 0 {
        lemma_draw_hunks_rows(e, theme, hidden, line, st0, n - 1);
        let prev = draw_hunks(e, theme, hidden, line, st0, n - 1);
        let f0 = shown_locs(e, hidden, n - 1);
        let f = shown_locs(e, hidden, n);
        let out = draw_hunks(e, theme, hidden, line, st0, n);
        if !hidden.contains((n - 1) as usize) {
            let lines = e.hunks@[n - 1].lines@;
            assert(f == f0 + lines);
            assert forall|k: int| 0 <= k < f0.len() implies f[k] == f0[k] && f.take(k) == f0.take(k) by {
                assert(f.take(k) =~= f0.take(k));
            }
            if !prev.done {
                let h = draw_header(theme, prev, e.hunks@[n - 1].header@);
                lemma_draw_lines_rows(e, theme, line, h, lines);
                assert forall|k: int| 0 <= k < out.rows.len() implies (#[trigger] out.rows[k]).1 == row_style(theme, f, k, line) by {
                    if k >= f0.len() {
                        let t = k - f0.len();
                        assert(out.rows[f0.len() + t] == out.rows[k]);
                        assert(f[k] == lines[t]);
                        assert(f.take(k) =~= f0 + lines.take(t));
                        lemma_critical_count_concat(f0, lines.take(t));
                    }
                }
                if !out.done {
                    lemma_critical_count_concat(f0, lines);
                }
            }
        }
    }
}

/// The rows the diff view styles follow its shown lines one for one, hidden hunks left out:
/// the row of an added or removed line is styled as selected exactly when `line` such lines
/// are shown before it, and every other row in its status style.
pub proof fn law_rows_follow_lines(e: &Entry, theme: Theme, hidden: Set<usize>, line: int, scroll: nat, height: nat)
    ensures
        ({
            let d = spec_draw(e, theme, hidden, line, scroll, height);
            let f = shown_locs(e, hidden, e.hunks@.len() as int);
            &&& d.rows.len() <= f.len()
            &&& forall|k: int| 0 <= k < d.rows.len() ==> (#[trigger] d.rows[k]).1 == row_style(theme, f, k, line)
        }),
{
    let st0 = DrawState { window: (scroll, height), crit: 0, rows: Seq::empty(), text: Seq::empty(), done: false };
    lemma_draw_hunks_rows(e, theme, hidden, line, st0, e.hunks@.len() as int);
}

/// Counting over a longer prefix never gives fewer lines; one more line adds one when it is
/// added or removed.
pub proof fn lemma_critical_take(s: Seq<DiffLoc>, a: int, b: int)
    requires
        0 <= a <= b <= s.len(),
    ensures
        critical_count(s.take(a)) <= critical_count(s.take(b)),
        a < b ==> critical_count(s.take(a + 1)) == critical_count(s.take(a)) + if is_critical_status(s[a].status) { 1int } else { 0int },
        b == s.len() ==> critical_count(s.take(b)) == critical_count(s),
    decreases b - a,
{
    if a < b {
        assert(s.take(a + 1).drop_last() == s.take(a));
        lemma_critical_take(s, a + 1, b);
    }
    if b == s.len() {
        assert(s.take(b) == s);
    }
}

/// At most one line is selected.
pub proof fn lemma_selects_unique(e: &Entry, line: int, i1: int, j1: int, i2: int, j2: int)
    requires
        selects(e, line, i1, j1),
        selects(e, line, i2, j2),
    ensures
        i1 == i2 && j1 == j2,
{
    let s1 = e.hunks@[i1].lines@;
    let s2 = e.hunks@[i2].lines@;
    if i1 == i2 {
        if j1 < j2 {
            lemma_critical_take(s1, j1, j2);
            lemma_critical_take(s1, j1 + 1, j2);
        } else if j2 < j1 {
            lemma_critical_take(s1, j2, j1);
            lemma_critical_take(s1, j2 + 1, j1);
        }
    } else if i1 < i2 {
        lemma_critical_take(s1, j1, s1.len() as int);
        lemma_critical_take(s1, j1 + 1, s1.len() as int);
        lemma_shown_before_monotonic(e, Set::empty(), i1, i2);
    } else {
        lemma_critical_take(s2, j2, s2.len() as int);
        lemma_critical_take(s2, j2 + 1, s2.len() as int);
        lemma_shown_before_monotonic(e, Set::empty(), i2, i1);
    }
}

impl<'a> Diff<'a> {
    /// The style a line is drawn in (see [`spec_style_for`]).
    pub fn style_for(&self, status: LineStatus, selected: bool) -> (res: Style)
        ensures
            res == spec_style_for(*self.theme, status, selected),
    {
        let mut style = match status {
            LineStatus::Add => Style::new().bg(self.theme.added_bg),
            LineStatus::Remove => Style::new().bg(self.theme.removed_bg),
            LineStatus::Context => Style::new(),
            LineStatus::Binary => Style::new().bg(self.theme.binary_bg),
        };
        if selected {
            if let Some(color) = self.theme.selected_bg {
                style = style.bg(color);
            }
            let selected_fg = match status {
                LineStatus::Add => self.theme.selected_added_fg,
                LineStatus::Remove => self.theme.selected_removed_fg,
                _ => None,
            };
            if let Some(color) = selected_fg {
                style = style.fg(color);
            }
            style = style.add_modifier(self.theme.selected_modifier);
        }
        style
    }
}

/// Whether `x` is one of `s`.
fn slice_contains(s: &[usize], x: usize) -> (res: bool)
    ensures
        res == s@.contains(x),
{
    let mut k: usize = 0;
    while k < s.len()
        invariant
            k <= s@.len(),
            forall|m: int| 0 <= m < k ==> s@[m] != x,
        decreases s@.len() - k,
    {
        if s[k] == x {
            return true;
        }
        k += 1;
    }
    false
}

/// The text of a diff line (see [`loc_text`]).
fn loc_content<'e>(e: &'e Entry, loc: DiffLoc) -> (res: &'e str)
    ensures
        res@ == loc_text(e, loc),
{
    proof {
        reveal_strlit("");
    }
    match loc.status {
        LineStatus::Add => e.new.line(loc.line),
        LineStatus::Remove => e.old.line(loc.line),
        LineStatus::Context => e.new.line(loc.line),
        LineStatus::Binary => "",
    }
}

/// A diff line as drawn (see [`loc_spans`]).
fn loc_line(e: &Entry, loc: DiffLoc) -> (res: Line)
    ensures
        res@ == loc_spans(e, loc),
{
    match loc.status {
        LineStatus::Add => e.new.highlight(loc.line),
        LineStatus::Remove => e.old.highlight(loc.line),
        LineStatus::Context => e.new.highlight(loc.line),
        LineStatus::Binary => {
            let res = Line { spans: Vec::new() };
            assert(res@ =~= Seq::<SpanView>::empty());
            res
        },
    }
}

/// The hunk of the `line`-th added or removed line of `e`, and where the line stands within
/// it, if there is such a line.
fn find_selected(e: &Entry, line: usize) -> (res: Option<(usize, usize)>)
    ensures
        match res {
            Some((i, j)) => selects(e, line as int, i as int, j as int),
            None => !exists|i: int, j: int| selects(e, line as int, i, j),
        },
{
    let mut critical_line: usize = 0;
    let mut i: usize = 0;
    while i < e.hunks.len()
        invariant
            i <= e.hunks@.len(),
            critical_line == shown_before(e, Set::empty(), i as int),
            critical_line <= line,
            forall|i2: int, j2: int| 0 <= i2 < i ==> !selects(e, line as int, i2, j2),
        decreases e.hunks@.len() - i,
    {
        let lines = &e.hunks[i].lines;
        let mut j: usize = 0;
        while j < lines.len()
            invariant
                i < e.hunks@.len(),
                lines@ == e.hunks@[i as int].lines@,
                j <= lines@.len(),
                critical_line == shown_before(e, Set::empty(), i as int) + critical_count(lines@.take(j as int)),
                critical_line <= line,
                forall|i2: int, j2: int| 0 <= i2 < i ==> !selects(e, line as int, i2, j2),
                forall|j2: int| 0 <= j2 < j ==> !selects(e, line as int, i as int, j2),
            decreases lines@.len() - j,
        {
            proof {
                lemma_critical_take(lines@, j as int, j as int + 1);
            }
            if lines[j].status.is_critical() {
                if critical_line == line {
                    return Some((i, j));
                }
                critical_line += 1;
            }
            j += 1;
        }
        proof {
            lemma_critical_take(lines@, j as int, lines@.len() as int);
            assert forall|i2: int, j2: int| 0 <= i2 < i + 1 implies !selects(e, line as int, i2, j2) by {
                if i2 == i && 0 <= j2 < lines@.len() {
                }
            }
        }
        i += 1;
    }
    None
}

/// Rows drawn so far: the window, the count of added and removed lines passed, each row's
/// style, the text, and whether the draw ended.
struct Drawing {
    window: Window,
    crit: usize,
    rows: Vec<(usize, Style)>,
    text: Vec<Line>,
    done: bool,
}

impl View for Drawing {
    type V = DrawState;

    closed spec fn view(&self) -> DrawState {
        DrawState {
            window: self.window@,
            crit: self.crit as int,
            rows: self.rows@,
            text: self.text@.map_values(|l: Line| l@),
            done: self.done,
        }
    }
}

impl<'a> Diff<'a> {
    /// The area the text is drawn in (see [`spec_effective_bounds`]); `area` itself when the
    /// selected file does not exist.
    fn effective_bounds(&self, area: Rect) -> (res: Rect)
        requires
            area.x + area.width <= u16::MAX,
        ensures
            self.selected_entry < self.delta.entries@.len() ==> res == spec_effective_bounds(&self.delta.entries@[self.selected_entry as int], area),
            self.selected_entry >= self.delta.entries@.len() ==> res == area,
    {
        let entry = match self.delta.get(self.selected_entry) {
            None => { return area; },
            Some(e) => e,
        };
        let mut len: u16 = 0;
        let mut i: usize = 0;
        while i < entry.hunks.len()
            invariant
                i <= entry.hunks@.len(),
                len == entry_width(entry, i as int),
            decreases entry.hunks@.len() - i,
        {
            let lines = &entry.hunks[i].lines;
            let mut j: usize = 0;
            while j < lines.len()
                invariant
                    i < entry.hunks@.len(),
                    lines@ == entry.hunks@[i as int].lines@,
                    j <= lines@.len(),
                    len == (if entry_width(entry, i as int) >= locs_width(entry, lines@.take(j as int)) {
                        entry_width(entry, i as int)
                    } else {
                        locs_width(entry, lines@.take(j as int))
                    }),
                decreases lines@.len() - j,
            {
                let n = chars_of(loc_content(entry, lines[j])).len();
                let w = #[verifier::truncate] (n as u16);
                assert(lines@.take(j as int + 1).drop_last() == lines@.take(j as int));
                if w > len {
                    len = w;
                }
                j += 1;
            }
            assert(lines@.take(lines@.len() as int) == lines@);
            i += 1;
        }
        let pad = area.width.saturating_sub(len) / 2;
        Rect { x: area.x + pad, width: area.width - pad, ..area }
    }

    /// Fits the scroll to a view of `area.height` rows so the selected line shows, and consumes
    /// the centering request (see [`rebalanced`]); nothing changes when the selected file does
    /// not exist.
    fn rebalance_state(&self, area: Rect, state: &mut DiffState)
        ensures
            self.selected_entry < self.delta.entries@.len() ==> rebalanced(&self.delta.entries@[self.selected_entry as int], *old(state), *final(state), area.height as int),
            self.selected_entry >= self.delta.entries@.len() ==> *final(state) == *old(state),
    {
        let entry = match self.delta.get(self.selected_entry) {
            None => { return; },
            Some(e) => e,
        };
        let selected = find_selected(entry, state.line);
        let ghost old_state = *state;
        if let Some((hunk, selected)) = selected {
            proof {
                let (i, j) = choose|i: int, j: int| selects(entry, old_state.line as int, i, j);
                lemma_selects_unique(entry, old_state.line as int, i, j, hunk as int, selected as int);
            }
            let visible_height = area.height as usize;
            if state.center_line {
                state.scroll = selected.saturating_sub(visible_height / 2);
            } else if selected < state.scroll {
                state.scroll = selected;
            } else if selected >= state.scroll.saturating_add(visible_height) {
                state.scroll = selected.saturating_sub(visible_height.saturating_sub(1));
            }
        }
        state.center_line = false;
    }

    /// A hunk header passes (see [`draw_header`]).
    fn push_header(&self, d: &mut Drawing, header: &String)
        ensures
            final(d)@ == draw_header(*self.theme, old(d)@, header@),
    {
        if d.window.visible() {
            let mut spans: Vec<Span> = Vec::new();
            spans.push(Span { content: header.clone(), style: self.theme.hunk_header });
            let l = Line { spans };
            assert(l@ =~= seq![SpanView { content: header@, style: self.theme.hunk_header }]);
            d.text.push(l);
            d.window.inc();
            assert(d@.text =~= old(d)@.text.push(l@));
        }
    }

    /// A diff line of `e` passes (see [`draw_line`]).
    fn push_line(&self, d: &mut Drawing, e: &Entry, line: usize, loc: DiffLoc)
        requires
            !is_critical_status(loc.status) || window_step(old(d)@.window).1 == 0 || old(d).crit < usize::MAX,
        ensures
            final(d)@ == draw_line(e, *self.theme, line as int, old(d)@, loc),
    {
        let critical = loc.status.is_critical();
        let style = self.style_for(loc.status, critical && d.crit == line);
        let visible = d.window.visible();
        let row = d.text.len();
        d.rows.push((row, style));
        if visible {
            let l = loc_line(e, loc);
            d.text.push(l);
            assert(d@.text =~= old(d)@.text.push(l@));
        }
        d.window.inc();
        d.done = d.window.fused();
        if !d.done && critical {
            d.crit = d.crit + 1;
        }
    }

    /// Draws the selected file into `area`: the path on the first row when there is one, then
    /// the hunks, hidden ones left out, from the scroll that keeps the selected line in sight.
    /// Nothing is drawn, and the state is left alone, when the file does not exist or no row is
    /// left for the hunks.
    pub fn render(&self, area: Rect, state: &mut DiffState) -> (res: Option<DiffFrame>)
        requires
            counts_fit(self.delta),
            area.x + area.width <= u16::MAX,
        ensures
            self.selected_entry >= self.delta.entries@.len() ==> res is None && *final(state) == *old(state),
            self.selected_entry < self.delta.entries@.len() ==> ({
                let e = &self.delta.entries@[self.selected_entry as int];
                let da = spec_diff_area(area, self.path is Some);
                if da.height == 0 {
                    res is None && *final(state) == *old(state)
                } else {
                    &&& rebalanced(e, *old(state), *final(state), da.height as int)
                    &&& res matches Some(f) && ({
                        let d = spec_draw(e, *self.theme, self.hidden_hunks@.to_set(), final(state).line as int, final(state).scroll as nat, da.height as nat);
                        &&& f.render_area == spec_effective_bounds(e, da)
                        &&& f.path_area == (Rect { y: area.y, height: 1, ..f.render_area })
                        &&& match self.path {
                            Some(p) => f.path matches Some(s) && s@ == (SpanView { content: p@, style: self.theme.hunk_header }),
                            None => f.path is None,
                        }
                        &&& f.row_area == da
                        &&& f.row_styles@ == d.rows
                        &&& f.text@.map_values(|l: Line| l@) == d.text
                    })
                }
            }),
    {
        let entry = match self.delta.get(self.selected_entry) {
            None => { return None; },
            Some(e) => e,
        };
        let ph: u16 = if self.path.is_some() { 1 } else { 0 };
        let diff_area = Rect { y: area.y.saturating_add(ph), height: area.height.saturating_sub(ph), ..area };
        if diff_area.height == 0 {
            return None;
        }
        let render_area = self.effective_bounds(diff_area);
        let path = match self.path {
            Some(p) => Some(Span { content: p.to_owned(), style: self.theme.hunk_header }),
            None => None,
        };
        let path_area = Rect { y: area.y, height: 1, ..render_area };
        self.rebalance_state(diff_area, state);
        let line = state.line;
        let mut d = Drawing {
            window: Window::new(state.scroll, diff_area.height as usize),
            crit: 0,
            rows: Vec::new(),
            text: Vec::new(),
            done: false,
        };
        let ghost st0 = d@;
        assert(st0.text =~= Seq::<Seq<SpanView>>::empty());
        assert(st0.rows =~= Seq::<(usize, Style)>::empty());
        assert(st0 == (DrawState { window: (state.scroll as nat, diff_area.height as nat), crit: 0, rows: Seq::empty(), text: Seq::empty(), done: false }));
        let ghost n = entry.hunks@.len() as int;
        proof {
            assert(shown_total(&self.delta.entries@[self.selected_entry as int], Set::empty()) <= usize::MAX);
        }
        let mut i: usize = 0;
        while i < entry.hunks.len() && !d.done
            invariant
                n == entry.hunks@.len(),
                i <= n,
                d@ == draw_hunks(entry, *self.theme, self.hidden_hunks@.to_set(), line as int, st0, i as int),
                d.crit <= shown_before(entry, Set::empty(), i as int),
                shown_total(entry, Set::empty()) <= usize::MAX,
            decreases n - i,
        {
            proof {
                lemma_shown_before_monotonic(entry, Set::empty(), i + 1, n);
            }
            if !slice_contains(self.hidden_hunks, i) {
                let hunk = &entry.hunks[i];
                let ghost lines = hunk.lines@;
                self.push_header(&mut d, &hunk.header);
                let ghost after_header = d@;
                let mut j: usize = 0;
                assert(lines.take(0) =~= Seq::<DiffLoc>::empty());
                while j < hunk.lines.len() && !d.done
                    invariant
                        lines == hunk.lines@,
                        lines == entry.hunks@[i as int].lines@,
                        j <= lines.len(),
                        d@ == draw_lines(entry, *self.theme, line as int, after_header, lines.take(j as int)),
                        d.crit <= shown_before(entry, Set::empty(), i as int) + critical_count(lines.take(j as int)),
                        shown_before(entry, Set::empty(), i as int) + critical_count(lines) <= usize::MAX,
                    decreases lines.len() - j,
                {
                    proof {
                        lemma_critical_take(lines, j as int, j as int + 1);
                        lemma_critical_take(lines, j as int + 1, lines.len() as int);
                        assert(lines.take(j as int + 1).drop_last() == lines.take(j as int));
                    }
                    self.push_line(&mut d, entry, line, hunk.lines[j]);
                    j += 1;
                }
                proof {
                    lemma_critical_take(lines, j as int, lines.len() as int);
                    if j < lines.len() {
                        lemma_draw_lines_done(entry, *self.theme, line as int, after_header, lines, j as int);
                    } else {
                        assert(lines.take(j as int) == lines);
                    }
                }
            }
            i += 1;
        }
        proof {
            if i < n {
                lemma_draw_hunks_done(entry, *self.theme, self.hidden_hunks@.to_set(), line as int, st0, i as int, n);
            }
        }
        let Drawing { rows, text, .. } = d;
        Some(DiffFrame { path_area, path, row_area: diff_area, row_styles: rows, render_area, text })
    }
}

} // verus!
