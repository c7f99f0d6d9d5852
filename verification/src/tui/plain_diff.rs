//! A diff view over hunks that carry their lines' text: one row per line, colored by status,
//! the selected added or removed line bold and reversed.
use vstd::prelude::*;

use crate::model::{is_critical_status, LineStatus};
use crate::style::{Color, Line, Modifier, Span, SpanView, Style};

verus! {

/// A line with its status and text.
#[derive(Debug, Clone)]
pub struct PlainLine {
    pub status: LineStatus,
    pub content: String,
}

/// A hunk's lines.
#[derive(Debug, Clone)]
pub struct PlainHunk {
    pub lines: Vec<PlainLine>,
}

/// The hunks to draw.
pub struct Diff<'a> {
    pub hunks: &'a [PlainHunk],
}

/// The lines of the hunks, in order, as status and text.
pub open spec fn flat_lines(hunks: Seq<PlainHunk>) -> Seq<(LineStatus, Seq<char>)>
    decreases hunks.len(),
{
    if hunks.len() == 0 {
        Seq::empty()
    } else {
        flat_lines(hunks.drop_last()) + hunks.last().lines@.map_values(|l: PlainLine| (l.status, l.content@))
    }
}

/// How many lines of `lines` are added or removed.
pub open spec fn critical_before(lines: Seq<(LineStatus, Seq<char>)>) -> nat
    decreases lines.len(),
{
    if lines.len() == 0 {
        0
    } else {
        critical_before(lines.drop_last()) + if is_critical_status(lines.last().0) { 1nat } else { 0nat }
    }
}

/// The style of a line: green, red or gray background for added, removed and binary lines,
/// bold and reversed when it is the selected one.
pub open spec fn plain_style(status: LineStatus, selected: bool) -> Style {
    let plain = Style { fg: None, bg: None, add_modifier: Modifier { bits: 0 } };
    let base = match status {
        LineStatus::Add => Style { bg: Some(Color::Green), ..plain },
        LineStatus::Remove => Style { bg: Some(Color::Red), ..plain },
        LineStatus::Context => plain,
        LineStatus::Binary => Style { bg: Some(Color::Gray), ..plain },
    };
    if selected {
        Style { add_modifier: Modifier { bits: 65 }, ..base }
    } else {
        base
    }
}

/// Row `k` of the lines, with line `selected` counted over added and removed lines.
pub open spec fn plain_row(lines: Seq<(LineStatus, Seq<char>)>, k: int, selected: int) -> Seq<SpanView> {
    let (status, text) = lines[k];
    seq![SpanView {
        content: text,
        style: plain_style(status, is_critical_status(status) && critical_before(lines.take(k)) == selected),
    }]
}

/// The rows drawn in a view of `height` rows: the first `height + 1` lines, or all of them.
pub open spec fn plain_rows(hunks: Seq<PlainHunk>, height: int, selected: int) -> Seq<Seq<SpanView>> {
    let lines = flat_lines(hunks);
    let n = if lines.len() <= height + 1 { lines.len() as int } else { height + 1 };
    Seq::new(n as nat, |k: int| plain_row(lines, k, selected))
}

impl<'a> Diff<'a> {
    /// The rows of a view `height` rows high, line `selected` highlighted (see [`plain_rows`]).
    pub fn render(&self, height: u16, selected: usize) -> (res: Vec<Line>)
        ensures
            res@.map_values(|l: Line| l@) == plain_rows(self.hunks@, height as int, selected as int),
    {
        let ghost all = flat_lines(self.hunks@);
        let mut rows: Vec<Line> = Vec::new();
        let mut crit: usize = 0;
        let mut h: usize = 0;
        let ghost mut seen: Seq<(LineStatus, Seq<char>)> = Seq::empty();
        while h < self.hunks.len() && rows.len() <= height as usize
            invariant
                h <= self.hunks@.len(),
                seen == flat_lines(self.hunks@.take(h as int)),
                all == flat_lines(self.hunks@),
                rows@.len() <= seen.len(),
                rows@.len() <= height + 1,
                rows@.len() < seen.len() ==> rows@.len() == height + 1,
                crit == critical_before(seen.take(rows@.len() as int)),
                crit <= rows@.len(),
                forall|k: int| 0 <= k < rows@.len() ==> #[trigger] rows@[k]@ == plain_row(seen, k, selected as int),
                forall|k: int| 0 <= k < seen.len() ==> seen[k] == all[k],
                seen.len() <= all.len(),
            decreases self.hunks@.len() - h,
        {
            let lines = &self.hunks[h].lines;
            let ghost next = seen + lines@.map_values(|l: PlainLine| (l.status, l.content@));
            proof {
                assert(self.hunks@.take(h as int + 1).drop_last() =~= self.hunks@.take(h as int));
                lemma_flat_prefix(self.hunks@, h as int + 1);
            }
            proof {
                assert(rows@.len() == seen.len());
                assert(next.take(rows@.len() as int) =~= seen.take(rows@.len() as int));
                assert forall|k: int| 0 <= k < rows@.len() implies #[trigger] rows@[k]@ == plain_row(next, k, selected as int) by {
                    assert(next.take(k) =~= seen.take(k));
                    assert(next[k] == seen[k]);
                }
            }
            let mut j: usize = 0;
            while j < lines.len() && rows.len() <= height as usize
                invariant
                    j <= lines@.len(),
                    h < self.hunks@.len(),
                    *lines == self.hunks@[h as int].lines,
                    next == seen + lines@.map_values(|l: PlainLine| (l.status, l.content@)),
                    rows@.len() == seen.len() + j,
                    rows@.len() <= height + 1,
                    crit == critical_before(next.take(rows@.len() as int)),
                    crit <= rows@.len(),
                    forall|k: int| 0 <= k < rows@.len() ==> #[trigger] rows@[k]@ == plain_row(next, k, selected as int),
                decreases lines@.len() - j,
            {
                let line = &lines[j];
                let k = rows.len();
                assert(next[k as int] == (line.status, line.content@));
                assert(next.take(k as int + 1).drop_last() =~= next.take(k as int));
                let critical = line.status.is_critical();
                let base = match line.status {
                    LineStatus::Add => Style::new().bg(Color::Green),
                    LineStatus::Remove => Style::new().bg(Color::Red),
                    LineStatus::Context => Style::new(),
                    LineStatus::Binary => Style::new().bg(Color::Gray),
                };
                let style = if critical && crit == selected {
                    base.add_modifier(Modifier::bold()).add_modifier(Modifier::reversed())
                } else {
                    base
                };
                assert(0u16 | 1u16 | 64u16 == 65u16) by (bit_vector);
                let mut spans: Vec<Span> = Vec::new();
                spans.push(Span { content: line.content.clone(), style });
                let l = Line { spans };
                assert(l@ =~= plain_row(next, k as int, selected as int));
                rows.push(l);
                if critical {
                    crit = crit + 1;
                }
                j += 1;
            }
            proof {
                assert forall|k: int| 0 <= k < rows@.len() implies #[trigger] rows@[k]@ == plain_row(next, k, selected as int) by {}
                assert forall|k: int| 0 <= k < next.len() implies next[k] == all[k] by {
                    assert(next == flat_lines(self.hunks@.take(h as int + 1)));
                }
            }
            proof {
                seen = next;
            }
            h += 1;
        }
        proof {
            assert(seen.len() <= all.len());
            if h == self.hunks@.len() {
                assert(self.hunks@.take(h as int) =~= self.hunks@);
            }
            assert forall|k: int| 0 <= k < rows@.len() implies #[trigger] rows@[k]@ == plain_row(all, k, selected as int) by {
                assert(seen.take(k) =~= all.take(k));
            }
        }
        assert(rows@.map_values(|l: Line| l@) =~= plain_rows(self.hunks@, height as int, selected as int));
        rows
    }
}

/// The lines of a prefix of the hunks start the lines of all of them.
proof fn lemma_flat_prefix(hunks: Seq<PlainHunk>, n: int)
    requires
        0 <= n <= hunks.len(),
    ensures
        flat_lines(hunks.take(n)).len() <= flat_lines(hunks).len(),
        forall|k: int| 0 <= k < flat_lines(hunks.take(n)).len() ==> flat_lines(hunks.take(n))[k] == #[trigger] flat_lines(hunks)[k],
    decreases hunks.len() - n,
{
    if n < hunks.len() {
        lemma_flat_prefix(hunks, n + 1);
        assert(hunks.take(n + 1).drop_last() =~= hunks.take(n));
    } else {
        assert(hunks.take(n) =~= hunks);
    }
}

} // verus!
