//! Coloring a buffer from the events of a syntax highlighter, and drawing a colored line.
use vstd::prelude::*;

use crate::buf::{lemma_newline_positions, newline_positions};
use crate::style::{Color, SpanView, Style};
use crate::text::decoded_or_empty;

verus! {

/// A step of a syntax highlighter's walk over a source text.
#[derive(Debug, Clone, Copy, PartialEq, Eq, Structural)]
pub enum HighlightEvent {
    /// The bytes `start..end` of the source, drawn in the innermost open highlight.
    Source { start: usize, end: usize },
    /// A highlight opens; its number indexes the theme's colors.
    HighlightStart(usize),
    /// The innermost open highlight closes.
    HighlightEnd,
}

/// Why the events could not be applied: the event at this position would index out of bounds.
#[derive(Debug, Clone, Copy, PartialEq, Eq, Structural)]
pub enum ColorError {
    InvalidEvent(usize),
    Highlighter,
}

/// The coloring built so far: the colored spans of each line reached, and the open highlights.
pub struct ColorState {
    pub colors: Seq<Seq<(Color, usize, usize)>>,
    pub stack: Seq<Color>,
}

/// The `k`-th piece of `bytes` when cut at its newlines (the newlines themselves excluded).
pub open spec fn piece_len(bytes: Seq<u8>, k: int) -> int {
    let np = newline_positions(bytes);
    let start = if k == 0 { 0 } else { np[k - 1] + 1 };
    let end = if k < np.len() { np[k] } else { bytes.len() as int };
    end - start
}

/// A source run `start..end` colored `top` and starting at column `col` of the current line:
/// added to the current line, and, for each newline it crosses, a new line holding the rest.
pub open spec fn add_run(
    colors: Seq<Seq<(Color, usize, usize)>>,
    bytes: Seq<u8>,
    top: Color,
    col: usize,
) -> Seq<Seq<(Color, usize, usize)>> {
    let m = newline_positions(bytes).len();
    if m == 0 {
        colors.update(colors.len() - 1, colors.last().push((top, col, bytes.len() as usize)))
    } else {
        let first = piece_len(bytes, 0);
        let head = if first > 0 {
            colors.update(colors.len() - 1, colors.last().push((top, col, first as usize)))
        } else {
            colors
        };
        head + Seq::new(m, |k: int| seq![(top, 0usize, piece_len(bytes, k + 1) as usize)])
    }
}

/// One event applied to the coloring; `None` where the event reaches outside the buffer, its
/// lines or the theme.
pub open spec fn step_event(
    content: Seq<u8>,
    lines: Seq<(usize, usize)>,
    palette: Seq<Color>,
    st: ColorState,
    ev: HighlightEvent,
) -> Option<ColorState> {
    match ev {
        HighlightEvent::HighlightStart(code) => if code < palette.len() {
            Some(ColorState { stack: st.stack.push(palette[code as int]), ..st })
        } else {
            None
        },
        HighlightEvent::HighlightEnd => if st.stack.len() > 0 {
            Some(ColorState { stack: st.stack.drop_last(), ..st })
        } else {
            Some(st)
        },
        HighlightEvent::Source { start, end } => {
            if start > end || end > content.len() || st.colors.len() == 0 || st.colors.len() - 1
                >= lines.len() || start < lines[st.colors.len() - 1].0 {
                None
            } else if start == end {
                Some(st)
            } else if st.stack.len() == 0 {
                None
            } else {
                let col = (start - lines[st.colors.len() - 1].0) as usize;
                Some(ColorState {
                    colors: add_run(st.colors, content.subrange(start as int, end as int), st.stack.last(), col),
                    ..st
                })
            }
        },
    }
}

/// The events applied in order from `st`; `Err(k)` when the `k`-th is the first that fails.
pub open spec fn apply_events(
    content: Seq<u8>,
    lines: Seq<(usize, usize)>,
    palette: Seq<Color>,
    st: ColorState,
    events: Seq<HighlightEvent>,
) -> (ColorState, Option<int>)
    decreases events.len(),
{
    if events.len() == 0 {
        (st, None)
    } else {
        let (prev, err) = apply_events(content, lines, palette, st, events.drop_last());
        if err is Some {
            (prev, err)
        } else {
            match step_event(content, lines, palette, prev, events.last()) {
                Some(next) => (next, None),
                None => (prev, Some(events.len() - 1)),
            }
        }
    }
}

/// The bytes a colored span `(color, offset, length)` covers in a line's bytes.
pub open spec fn span_bytes(bytes: Seq<u8>, c: (Color, usize, usize)) -> Seq<u8> {
    let cap = bytes.len() - c.1;
    let n = if c.2 <= cap { c.2 as int } else { cap };
    bytes.subrange(c.1 as int, c.1 + n)
}

/// A colored span can be drawn: it starts inside the line and cuts no character.
pub open spec fn span_drawable(bytes: Seq<u8>, c: (Color, usize, usize)) -> bool {
    c.1 <= bytes.len() && vstd::utf8::valid_utf8(span_bytes(bytes, c))
}

/// The spans drawn for a line's colored spans: in order, up to the first that cannot be drawn.
pub open spec fn span_run(bytes: Seq<u8>, cs: Seq<(Color, usize, usize)>) -> Seq<SpanView>
    decreases cs.len(),
{
    if cs.len() == 0 || !span_drawable(bytes, cs[0]) {
        Seq::empty()
    } else {
        seq![SpanView { content: decoded_or_empty(span_bytes(bytes, cs[0])), style: Style { fg: Some(cs[0].0), bg: None, add_modifier: crate::style::Modifier { bits: 0 } } }]
            + span_run(bytes, cs.skip(1))
    }
}

/// Once an event fails, later events change nothing.
proof fn lemma_error_persists(
    content: Seq<u8>,
    lines: Seq<(usize, usize)>,
    palette: Seq<Color>,
    st: ColorState,
    events: Seq<HighlightEvent>,
    n: int,
)
    requires
        0 <= n <= events.len(),
        apply_events(content, lines, palette, st, events.take(n)).1 is Some,
    ensures
        apply_events(content, lines, palette, st, events) == apply_events(content, lines, palette, st, events.take(n)),
    decreases events.len() - n,
{
    if n < events.len() {
        assert(events.drop_last().take(n) == events.take(n));
        lemma_error_persists(content, lines, palette, st, events.drop_last(), n);
    } else {
        assert(events.take(n) == events);
    }
}

/// The lines of a coloring, as sequences.
pub open spec fn deep_colors(colors: Seq<Vec<(Color, usize, usize)>>) -> Seq<Seq<(Color, usize, usize)>> {
    colors.map_values(|c: Vec<(Color, usize, usize)>| c@)
}

/// The positions of the newlines of `bytes`.
fn newline_offsets(bytes: &[u8]) -> (res: Vec<usize>)
    ensures
        res@.len() == newline_positions(bytes@).len(),
        forall|k: int| 0 <= k < res@.len() ==> res@[k] == #[trigger] newline_positions(bytes@)[k],
{
    let mut res: Vec<usize> = Vec::new();
    let mut i: usize = 0;
    while i < bytes.len()
        invariant
            i <= bytes@.len(),
            res@.len() == newline_positions(bytes@.take(i as int)).len(),
            forall|k: int| 0 <= k < res@.len() ==> res@[k] == #[trigger] newline_positions(bytes@.take(i as int))[k],
        decreases bytes@.len() - i,
    {
        let ghost before = bytes@.take(i as int);
        let ghost after = bytes@.take(i as int + 1);
        assert(after.drop_last() == before);
        if bytes[i] == 10u8 {
            res.push(i);
            assert(newline_positions(after) == newline_positions(before).push(i as int));
        } else {
            assert(newline_positions(after) == newline_positions(before));
        }
        i += 1;
    }
    assert(bytes@.take(bytes@.len() as int) == bytes@);
    res
}

/// Appends a span to the last line of the coloring.
fn push_on_last(colors: &mut Vec<Vec<(Color, usize, usize)>>, span: (Color, usize, usize))
    requires
        old(colors)@.len() > 0,
    ensures
        deep_colors(final(colors)@) == deep_colors(old(colors)@).update(
            old(colors)@.len() - 1,
            deep_colors(old(colors)@).last().push(span),
        ),
{
    let mut last = colors.pop().unwrap();
    last.push(span);
    colors.push(last);
    assert(deep_colors(final(colors)@) =~= deep_colors(old(colors)@).update(
        old(colors)@.len() - 1,
        deep_colors(old(colors)@).last().push(span),
    ));
}

/// Adds a source run to the coloring (see [`add_run`]).
fn add_run_exec(
    colors: &mut Vec<Vec<(Color, usize, usize)>>,
    bytes: &[u8],
    top: Color,
    col: usize,
)
    requires
        old(colors)@.len() > 0,
    ensures
        deep_colors(final(colors)@) == add_run(deep_colors(old(colors)@), bytes@, top, col),
{
    let blen = bytes.len();
    let np = newline_offsets(bytes);
    let m = np.len();
    proof {
        lemma_newline_positions(bytes@);
    }
    if m == 0 {
        push_on_last(colors, (top, col, bytes.len()));
    } else {
        assert forall|j: int| 0 <= j < np@.len() implies #[trigger] np@[j] < bytes@.len() by {
            assert(np@[j] == newline_positions(bytes@)[j]);
        }
        assert forall|a: int, b: int| 0 <= a < b < np@.len() implies np@[a] < np@[b] by {
            assert(np@[a] == newline_positions(bytes@)[a]);
            assert(np@[b] == newline_positions(bytes@)[b]);
        }
        let first = np[0];
        if first > 0 {
            push_on_last(colors, (top, col, first));
        }
        let ghost head = deep_colors(colors@);
        let mut k: usize = 0;
        while k < m
            invariant
                k <= m,
                m == np@.len(),
                blen == bytes@.len(),
                m == newline_positions(bytes@).len(),
                forall|j: int| 0 <= j < np@.len() ==> np@[j] == #[trigger] newline_positions(bytes@)[j],
                forall|j: int| 0 <= j < np@.len() ==> #[trigger] np@[j] < bytes@.len(),
                forall|a: int, b: int| 0 <= a < b < np@.len() ==> np@[a] < np@[b],
                deep_colors(colors@) == head + Seq::new(k as nat, |j: int| seq![(top, 0usize, piece_len(bytes@, j + 1) as usize)]),
            decreases m - k,
        {
            assert(np@[k as int] < blen);
            let s = np[k] + 1;
            let e = if k + 1 < m { np[k + 1] } else { blen };
            assert(s <= e) by {
                if k + 1 < m {
                    assert(np@[k as int] < np@[k + 1]);
                }
            }
            assert(np@[k as int] == newline_positions(bytes@)[k as int]);
            assert(k + 1 < m ==> np@[k + 1] == newline_positions(bytes@)[k + 1]);
            let piece = e - s;
            assert(piece == piece_len(bytes@, k + 1));
            let mut line: Vec<(Color, usize, usize)> = Vec::new();
            line.push((top, 0usize, piece));
            let ghost before = colors@;
            colors.push(line);
            assert(line@ == seq![(top, 0usize, piece)]);
            assert(deep_colors(colors@) =~= deep_colors(before).push(seq![(top, 0usize, piece)]));
            assert(deep_colors(colors@) =~= head + Seq::new(k as nat + 1, |j: int| seq![(top, 0usize, piece_len(bytes@, j + 1) as usize)]));
            k += 1;
        }
    }
}


/// Applies highlighter events to a coloring, stopping at the first event that reaches outside
/// the buffer, its lines or the palette.
pub fn apply_highlight_events(
    content: &[u8],
    lines: &[(usize, usize)],
    palette: &[Color],
    events: &[HighlightEvent],
    colors: &mut Vec<Vec<(Color, usize, usize)>>,
    stack: &mut Vec<Color>,
) -> (res: Result<(), ColorError>)
    ensures
        ({
            let (st, err) = apply_events(
                content@,
                lines@,
                palette@,
                ColorState { colors: deep_colors(old(colors)@), stack: old(stack)@ },
                events@,
            );
            &&& deep_colors(final(colors)@) == st.colors
            &&& final(stack)@ == st.stack
            &&& match err {
                Some(k) => res == Err::<(), ColorError>(ColorError::InvalidEvent(k as usize)),
                None => res is Ok,
            }
        }),
{
    let ghost st0 = ColorState { colors: deep_colors(colors@), stack: stack@ };
    let mut i: usize = 0;
    let mut failed: Option<usize> = None;
    while i < events.len() && failed.is_none()
        invariant
            i <= events@.len(),
            failed is None ==> apply_events(content@, lines@, palette@, st0, events@.take(i as int)) == (
            ColorState { colors: deep_colors(colors@), stack: stack@ }, None::<int>),
            failed matches Some(k) ==> apply_events(content@, lines@, palette@, st0, events@) == (
            ColorState { colors: deep_colors(colors@), stack: stack@ }, Some(k as int)),
        decreases events@.len() - i,
    {
        let ghost prev = ColorState { colors: deep_colors(colors@), stack: stack@ };
        assert(events@.take(i as int + 1).drop_last() == events@.take(i as int));
        assert(events@.take(i as int + 1).last() == events@[i as int]);
        let ok = step_exec(content, lines, palette, events[i], colors, stack);
        if !ok {
            proof {
                lemma_error_persists(content@, lines@, palette@, st0, events@, i + 1);
            }
            failed = Some(i);
        }
        i += 1;
    }
    match failed {
        Some(k) => Err(ColorError::InvalidEvent(k)),
        None => {
            assert(events@.take(events@.len() as int) == events@);
            Ok(())
        },
    }
}

/// Applies one event; false, with nothing changed, when it reaches outside the buffer, its
/// lines or the palette.
fn step_exec(
    content: &[u8],
    lines: &[(usize, usize)],
    palette: &[Color],
    event: HighlightEvent,
    colors: &mut Vec<Vec<(Color, usize, usize)>>,
    stack: &mut Vec<Color>,
) -> (ok: bool)
    ensures
        match step_event(content@, lines@, palette@, ColorState { colors: deep_colors(old(colors)@), stack: old(stack)@ }, event) {
            Some(next) => ok && deep_colors(final(colors)@) == next.colors && final(stack)@ == next.stack,
            None => !ok && final(colors)@ == old(colors)@ && final(stack)@ == old(stack)@,
        },
{
    let ghost prev = ColorState { colors: deep_colors(colors@), stack: stack@ };
    assert(prev.colors.len() == colors@.len());
    match event {
        HighlightEvent::HighlightStart(code) => {
            if code >= palette.len() {
                return false;
            }
            stack.push(palette[code]);
            true
        },
        HighlightEvent::HighlightEnd => {
            stack.pop();
            true
        },
        HighlightEvent::Source { start, end } => {
            if start > end || end > content.len() || colors.len() == 0 || colors.len() - 1 >= lines.len() {
                return false;
            }
            let line_start = lines[colors.len() - 1].0;
            if start < line_start {
                return false;
            }
            if start == end {
                return true;
            }
            if stack.len() == 0 {
                return false;
            }
            let top = stack[stack.len() - 1];
            let bytes = &content[start..end];
            add_run_exec(colors, bytes, top, start - line_start);
            true
        },
    }
}

/// A highlight that starts draws what follows in its own palette color, whatever highlights are
/// open around it, and ending it gives back the colors open before it; neither touches the
/// colored lines.
pub proof fn law_highlight_start_end(
    content: Seq<u8>,
    lines: Seq<(usize, usize)>,
    palette: Seq<Color>,
    st: ColorState,
    code: usize,
)
    requires
        code < palette.len(),
    ensures
        ({
            let started = step_event(content, lines, palette, st, HighlightEvent::HighlightStart(code));
            &&& started is Some
            &&& started->0.stack.len() == st.stack.len() + 1
            &&& started->0.stack.last() == palette[code as int]
            &&& started->0.colors == st.colors
            &&& step_event(content, lines, palette, started->0, HighlightEvent::HighlightEnd) == Some(st)
        }),
{
    let started = step_event(content, lines, palette, st, HighlightEvent::HighlightStart(code))->0;
    assert(started.stack.drop_last() == st.stack);
}

} // verus!
