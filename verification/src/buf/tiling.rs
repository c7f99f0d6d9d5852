//! Highlighter events that walk the whole content color every line exactly.
use vstd::prelude::*;

use crate::buf::color::{add_run, apply_events, span_bytes, span_drawable, span_run, ColorState, HighlightEvent};
use crate::buf::{highlight_outcome, highlight_spans, lemma_newline_positions, line_bytes, line_start, line_text, newline_positions, spans_lines, BufferView};
use crate::style::{Color, SpanView};

verus! {

/// How many newlines the first `p` bytes of `s` hold.
pub open spec fn newlines_before(s: Seq<u8>, p: int) -> int {
    newline_positions(s.take(p)).len() as int
}

/// The newlines of a prefix are the first newlines of the whole, and the later ones lie at or
/// after the prefix's end.
proof fn lemma_prefix_newlines(s: Seq<u8>, q: int)
    requires
        0 <= q <= s.len(),
    ensures
        newlines_before(s, q) <= newline_positions(s).len(),
        forall|k: int|
            0 <= k < newlines_before(s, q) ==> #[trigger] newline_positions(s.take(q))[k] == newline_positions(s)[k],
        forall|k: int|
            newlines_before(s, q) <= k < newline_positions(s).len() ==> #[trigger] newline_positions(s)[k] >= q,
    decreases s.len() - q,
{
    if q == s.len() {
        assert(s.take(q) == s);
    } else {
        lemma_prefix_newlines(s, q + 1);
        assert(s.take(q + 1).drop_last() == s.take(q));
        assert(s.take(q + 1).last() == s[q]);
        let a = newline_positions(s.take(q + 1));
        let b = newline_positions(s.take(q));
        if s[q] == 10u8 {
            assert(a == b.push(q));
            assert forall|k: int| 0 <= k < b.len() implies #[trigger] b[k] == newline_positions(s)[k] by {
                assert(a[k] == b[k]);
            }
            assert forall|k: int| b.len() <= k < newline_positions(s).len() implies #[trigger] newline_positions(s)[k] >= q by {
                if k == b.len() {
                    assert(a[k] == q);
                }
            }
        } else {
            assert(a == b);
        }
    }
}

/// The newlines of `s[p..q]` are those of `s` that lie in `p..q`, moved back by `p`.
proof fn lemma_range_newlines(s: Seq<u8>, p: int, q: int)
    requires
        0 <= p <= q <= s.len(),
    ensures
        newline_positions(s.subrange(p, q)).len() == newlines_before(s, q) - newlines_before(s, p),
        forall|j: int|
            0 <= j < newline_positions(s.subrange(p, q)).len() ==> #[trigger] newline_positions(s.subrange(p, q))[j]
                == newline_positions(s.take(q))[newlines_before(s, p) + j] - p,
    decreases q - p,
{
    if q == p {
        assert(s.subrange(p, q) == Seq::<u8>::empty());
    } else {
        lemma_range_newlines(s, p, q - 1);
        assert(s.subrange(p, q).drop_last() == s.subrange(p, q - 1));
        assert(s.take(q).drop_last() == s.take(q - 1));
        assert(s.take(q).last() == s[q - 1]);
        assert(s.subrange(p, q).last() == s[q - 1]);
    }
}

/// The total length of colored spans.
pub open spec fn span_total(cs: Seq<(Color, usize, usize)>) -> int
    decreases cs.len(),
{
    if cs.len() == 0 {
        0
    } else {
        span_total(cs.drop_last()) + cs.last().2
    }
}

/// The spans follow one another from offset 0, each starting where the ones before it end,
/// and together cover `n` bytes.
pub open spec fn spans_tile(cs: Seq<(Color, usize, usize)>, n: int) -> bool {
    &&& span_total(cs) == n
    &&& forall|i: int| 0 <= i < cs.len() ==> (#[trigger] cs[i]).1 == span_total(cs.take(i))
}

/// Where the source runs of `events` end, each starting where the one before ended and the
/// first at 0; `None` when one starts elsewhere.
pub open spec fn source_end(events: Seq<HighlightEvent>) -> Option<int>
    decreases events.len(),
{
    if events.len() == 0 {
        Some(0)
    } else {
        match source_end(events.drop_last()) {
            None => None,
            Some(p) => match events.last() {
                HighlightEvent::Source { start, end } => if start == p {
                    Some(end as int)
                } else {
                    None
                },
                _ => Some(p),
            },
        }
    }
}

/// The coloring of `s` once its first `p` bytes were walked: a line for each newline passed
/// and one for the bytes after, each line passed covered to its newline, the last one to `p`.
spec fn tiled_upto(s: Seq<u8>, c: Seq<Seq<(Color, usize, usize)>>, p: int) -> bool {
    let cur = newlines_before(s, p);
    &&& c.len() == cur + 1
    &&& forall|k: int| 0 <= k < cur ==> spans_tile(#[trigger] c[k], newline_positions(s)[k] - line_start(s, k))
    &&& spans_tile(c[cur], p - line_start(s, cur))
}

/// A span added where the spans end keeps them tiled.
proof fn lemma_tile_push(cs: Seq<(Color, usize, usize)>, n: int, x: (Color, usize, usize))
    requires
        spans_tile(cs, n),
        x.1 == n,
    ensures
        spans_tile(cs.push(x), n + x.2),
{
    assert(cs.push(x).drop_last() == cs);
    assert forall|i: int| 0 <= i < cs.push(x).len() implies (#[trigger] cs.push(x)[i]).1 == span_total(cs.push(x).take(i)) by {
        if i < cs.len() {
            assert(cs.push(x).take(i) == cs.take(i));
        } else {
            assert(cs.push(x).take(i) == cs);
        }
    }
}

/// A single span from offset 0 tiles its own length.
proof fn lemma_tile_single(x: (Color, usize, usize))
    requires
        x.1 == 0,
    ensures
        spans_tile(seq![x], x.2 as int),
{
    let e = Seq::<(Color, usize, usize)>::empty();
    assert(seq![x] == e.push(x));
    assert(span_total(e) == 0);
    lemma_tile_push(e, 0, x);
}

/// A source run from `p` to `q`, added at the column where the current line's spans end,
/// leaves the coloring walked up to `q`.
#[verifier::spinoff_prover]
#[verifier::rlimit(40)]
proof fn lemma_run_tiles(
    s: Seq<u8>,
    lines: Seq<(usize, usize)>,
    c: Seq<Seq<(Color, usize, usize)>>,
    p: int,
    q: int,
    top: Color,
)
    requires
        spans_lines(s, lines),
        0 <= p < q <= s.len(),
        s.len() <= usize::MAX,
        tiled_upto(s, c, p),
        newlines_before(s, p) < lines.len(),
        p >= lines[newlines_before(s, p)].0,
    ensures
        tiled_upto(s, add_run(c, s.subrange(p, q), top, (p - lines[newlines_before(s, p)].0) as usize), q),
{
    let np = newline_positions(s);
    let cur = newlines_before(s, p);
    let curq = newlines_before(s, q);
    lemma_prefix_newlines(s, p);
    lemma_prefix_newlines(s, q);
    lemma_range_newlines(s, p, q);
    lemma_newline_positions(s);
    lemma_newline_positions(s.take(q));
    let bytes = s.subrange(p, q);
    let bn = newline_positions(bytes);
    let m = bn.len() as int;
    let col = (p - lines[cur].0) as usize;
    assert(lines[cur].0 == line_start(s, cur));
    assert(col == p - line_start(s, cur));
    assert(c.last() == c[cur]);
    assert forall|j: int| 0 <= j < m implies #[trigger] bn[j] == np[cur + j] - p by {
        assert(newline_positions(s.take(q))[cur + j] == np[cur + j]);
    }
    let res = add_run(c, bytes, top, col);
    if m == 0 {
        let x = (top, col, bytes.len() as usize);
        lemma_tile_push(c[cur], col as int, x);
        assert(res == c.update(cur, c[cur].push(x)));
        assert forall|k: int| 0 <= k < curq implies spans_tile(#[trigger] res[k], np[k] - line_start(s, k)) by {
            assert(res[k] == c[k]);
        }
    } else {
        let first = crate::buf::color::piece_len(bytes, 0);
        assert(first == np[cur] - p);
        let head = if first > 0 {
            c.update(c.len() - 1, c.last().push((top, col, first as usize)))
        } else {
            c
        };
        if first > 0 {
            lemma_tile_push(c[cur], col as int, (top, col, first as usize));
        }
        assert(spans_tile(head[cur], np[cur] - line_start(s, cur)));
        assert(head.len() == cur + 1);
        let tail = Seq::new(m as nat, |k: int| seq![(top, 0usize, crate::buf::color::piece_len(bytes, k + 1) as usize)]);
        assert(res == head + tail);
        assert forall|k: int| 0 <= k < curq implies spans_tile(#[trigger] res[k], np[k] - line_start(s, k)) by {
            if k < cur {
                assert(res[k] == c[k]);
            } else if k == cur {
                assert(res[k] == head[cur]);
            } else {
                let j = k - cur - 1;
                assert(res[k] == tail[j]);
                assert(j + 1 < m);
                assert(crate::buf::color::piece_len(bytes, j + 1) == bn[j + 1] - (bn[j] + 1));
                assert(np[cur + j] < np[cur + j + 1]);
                lemma_tile_single((top, 0usize, crate::buf::color::piece_len(bytes, j + 1) as usize));
            }
        }
        let j = m - 1;
        assert(res[curq] == tail[j]);
        assert(crate::buf::color::piece_len(bytes, j + 1) == (q - p) - (bn[j] + 1));
        assert(newline_positions(s.take(q))[cur + j] < q);
        lemma_tile_single((top, 0usize, crate::buf::color::piece_len(bytes, j + 1) as usize));
    }
}

/// The coloring an uncolored buffer starts from.
spec fn fresh_coloring() -> ColorState {
    ColorState { colors: seq![Seq::empty()], stack: seq![Color::Reset] }
}

/// How many highlights the events leave open: starts less ends.
pub open spec fn open_depth(events: Seq<HighlightEvent>) -> int
    decreases events.len(),
{
    if events.len() == 0 {
        0
    } else {
        open_depth(events.drop_last()) + match events.last() {
            HighlightEvent::HighlightStart(_) => 1int,
            HighlightEvent::HighlightEnd => -1int,
            HighlightEvent::Source { .. } => 0int,
        }
    }
}

/// No highlight ends that was not started before it.
pub open spec fn ends_matched(events: Seq<HighlightEvent>) -> bool {
    forall|n: int| 0 <= n <= events.len() ==> open_depth(#[trigger] events.take(n)) >= 0
}

/// Every source run covers at least one byte.
pub open spec fn runs_nonempty(events: Seq<HighlightEvent>) -> bool {
    forall|i: int|
        0 <= i < events.len() ==> ((#[trigger] events[i]) matches HighlightEvent::Source { start, end } ==> start < end)
}

/// Every highlight started is one of the palette's.
pub open spec fn codes_in_palette(events: Seq<HighlightEvent>, palette: Seq<Color>) -> bool {
    forall|i: int|
        0 <= i < events.len() ==> ((#[trigger] events[i]) matches HighlightEvent::HighlightStart(code) ==> code < palette.len())
}

/// Every source run covers valid UTF-8 of `content`: it cuts no character.
pub open spec fn runs_valid(content: Seq<u8>, events: Seq<HighlightEvent>) -> bool {
    forall|i: int|
        0 <= i < events.len() ==> ((#[trigger] events[i]) matches HighlightEvent::Source { start, end }
            ==> vstd::utf8::valid_utf8(content.subrange(start as int, end as int)))
}

/// The events a highlighter gives over the whole of `content`: runs of at least one byte that
/// follow one another from its first byte to its last and cut no character, and highlights
/// that start from the palette and end only once started.
pub open spec fn walks_content(content: Seq<u8>, events: Seq<HighlightEvent>, palette: Seq<Color>) -> bool {
    &&& source_end(events) == Some(content.len() as int)
    &&& runs_nonempty(events)
    &&& runs_valid(content, events)
    &&& codes_in_palette(events, palette)
    &&& ends_matched(events)
}

/// The runs of the events before the last one end no later than all of them, and the last
/// event, when a run, starts where they end.
proof fn lemma_source_end_prefix(events: Seq<HighlightEvent>)
    requires
        events.len() > 0,
        runs_nonempty(events),
        source_end(events) is Some,
    ensures
        source_end(events.drop_last()) is Some,
        source_end(events.drop_last())->0 <= source_end(events)->0,
        runs_nonempty(events.drop_last()),
{
    assert forall|i: int| 0 <= i < events.drop_last().len() implies
        ((#[trigger] events.drop_last()[i]) matches HighlightEvent::Source { start, end } ==> start < end) by {
        assert(events.drop_last()[i] == events[i]);
    }
    let last = events.last();
    assert(last == events[events.len() - 1]);
}

/// Events that walk up to a point of the content, on a buffer that ends with a newline, apply
/// without error and leave the coloring walked up to that point, one color open per highlight
/// left open.
proof fn lemma_events_walk(
    s: Seq<u8>,
    lines: Seq<(usize, usize)>,
    palette: Seq<Color>,
    events: Seq<HighlightEvent>,
)
    requires
        spans_lines(s, lines),
        s.len() <= usize::MAX,
        s.len() == 0 || s.last() == 10u8,
        source_end(events) is Some,
        source_end(events)->0 <= s.len(),
        runs_nonempty(events),
        codes_in_palette(events, palette),
        ends_matched(events),
        runs_valid(s, events),
    ensures
        apply_events(s, lines, palette, fresh_coloring(), events).1 is None,
        tiled_upto(s, apply_events(s, lines, palette, fresh_coloring(), events).0.colors, source_end(events)->0),
        valid_upto(s, apply_events(s, lines, palette, fresh_coloring(), events).0.colors, source_end(events)->0),
        apply_events(s, lines, palette, fresh_coloring(), events).0.stack.len() == 1 + open_depth(events),
    decreases events.len(),
{
    if events.len() == 0 {
        assert(s.take(0) == Seq::<u8>::empty());
        assert(span_total(Seq::<(Color, usize, usize)>::empty()) == 0);
        assert(spans_valid(s, fresh_coloring().colors[0], 0));
    } else {
        let prev = events.drop_last();
        lemma_source_end_prefix(events);
        assert forall|i: int| 0 <= i < prev.len() implies
            ((#[trigger] prev[i]) matches HighlightEvent::HighlightStart(code) ==> code < palette.len()) by {
            assert(prev[i] == events[i]);
        }
        assert forall|n: int| 0 <= n <= prev.len() implies open_depth(#[trigger] prev.take(n)) >= 0 by {
            assert(prev.take(n) == events.take(n));
        }
        assert forall|i: int| 0 <= i < prev.len() implies
            ((#[trigger] prev[i]) matches HighlightEvent::Source { start, end }
                ==> vstd::utf8::valid_utf8(s.subrange(start as int, end as int))) by {
            assert(prev[i] == events[i]);
        }
        assert(events.take(events.len() as int) == events);
        lemma_events_walk(s, lines, palette, prev);
        let st = apply_events(s, lines, palette, fresh_coloring(), prev).0;
        let p0 = source_end(prev)->0;
        let cur = newlines_before(s, p0);
        let last = events.last();
        assert(last == events[events.len() - 1]);
        match last {
            HighlightEvent::Source { start, end } => {
                assert(start == p0 && start < end && end <= s.len());
                let np = newline_positions(s);
                lemma_prefix_newlines(s, p0);
                lemma_newline_positions(s.take(p0));
                assert(s.drop_last() == s.take(s.len() - 1));
                assert(np.last() == s.len() - 1);
                if cur >= np.len() {
                    assert(np[np.len() - 1] < p0) by {
                        assert(newline_positions(s.take(p0))[np.len() - 1] == np[np.len() - 1]);
                    }
                }
                assert(cur < lines.len());
                assert(lines[cur].0 == line_start(s, cur));
                if cur > 0 {
                    assert(newline_positions(s.take(p0))[cur - 1] == np[cur - 1]);
                }
                lemma_run_tiles(s, lines, st.colors, p0, end as int, st.stack.last());
                lemma_run_valid(s, lines, st.colors, p0, end as int, st.stack.last());
            },
            _ => {},
        }
    }
}

/// The events a highlighter gives over the whole content of an uncolored buffer whose content
/// is empty or ends with a newline (see [`walks_content`]) color it without error: a colored
/// line for each of its lines and one after, each line's spans following one another from its
/// first byte and together covering its whole length, so that the texts of the spans a line is
/// drawn with, one after another, are the line's text.
pub proof fn law_walking_events_cover_lines(b: BufferView, palette: Seq<Color>, events: Seq<HighlightEvent>)
    requires
        spans_lines(b.content, b.lines),
        b.colors.len() == 0,
        b.content.len() <= usize::MAX,
        b.content.len() == 0 || b.content.last() == 10u8,
        walks_content(b.content, events, palette),
    ensures
        ({
            let (colored, res) = highlight_outcome(b, Ok((events, false)), palette);
            &&& res is Ok
            &&& colored.content == b.content
            &&& colored.lines == b.lines
            &&& colored.colors.len() == b.lines.len() + 1
            &&& forall|k: int| 0 <= k < b.lines.len() ==> spans_tile(#[trigger] colored.colors[k], b.lines[k].1 as int)
            &&& forall|k: int|
                1 <= k <= b.lines.len() ==> span_texts(#[trigger] highlight_spans(colored, k)) == line_text(colored, k)
        }),
{
    let s = b.content;
    let st0 = ColorState { colors: b.colors.push(Seq::empty()), stack: seq![Color::Reset] };
    assert(b.colors.push(Seq::empty()) == seq![Seq::<(Color, usize, usize)>::empty()]);
    assert(st0 == fresh_coloring());
    lemma_events_walk(s, b.lines, palette, events);
    assert(s.take(s.len() as int) == s);
    let colors = apply_events(s, b.lines, palette, st0, events).0.colors;
    assert forall|k: int| 0 <= k < b.lines.len() implies spans_tile(#[trigger] colors[k], b.lines[k].1 as int) by {
        assert(b.lines[k].0 == line_start(s, k));
    }
    let colored = BufferView { colors, ..b };
    assert forall|k: int| 1 <= k <= b.lines.len() implies span_texts(#[trigger] highlight_spans(colored, k)) == line_text(colored, k) by {
        assert(b.lines[k - 1].0 == line_start(s, k - 1));
        assert(spans_tile(colors[k - 1], b.lines[k - 1].1 as int));
        lemma_line_text(s, b.lines, colors, k - 1);
        assert(colored == BufferView { content: s, lines: b.lines, colors });
    }
}

/// The bytes of a valid UTF-8 text between two of its newlines (or its ends) are valid too.
proof fn lemma_valid_between(r: Seq<u8>, a: int, b: int)
    requires
        vstd::utf8::valid_utf8(r),
        0 <= a <= b <= r.len(),
        a == 0 || r[a - 1] == 10u8,
        b == r.len() || r[b] == 10u8,
    ensures
        vstd::utf8::valid_utf8(r.subrange(a, b)),
{
    let r1 = r.subrange(0, b);
    if b < r.len() {
        vstd::utf8::is_char_boundary_iff_not_is_continuation_byte(r, b);
        vstd::utf8::valid_utf8_split(r, b);
    } else {
        assert(r1 == r);
    }
    if a == 0 {
        assert(r.subrange(a, b) == r1);
    } else {
        assert(r1[a - 1] == 10u8);
        vstd::utf8::is_char_boundary_iff_not_is_continuation_byte(r1, a - 1);
        vstd::utf8::valid_utf8_split(r1, a - 1);
        let t = r1.subrange(a - 1, r1.len() as int);
        assert(t[0] == 10u8);
        assert(vstd::utf8::pop_first_scalar(t) == r.subrange(a, b));
    }
}

/// The bytes of `s` a span covers, its line starting at `start`.
pub open spec fn span_at(s: Seq<u8>, start: int, c: (Color, usize, usize)) -> Seq<u8> {
    s.subrange(start + c.1, start + c.1 + c.2)
}

/// Each span of a line starting at `start` covers valid UTF-8.
pub open spec fn spans_valid(s: Seq<u8>, cs: Seq<(Color, usize, usize)>, start: int) -> bool {
    forall|i: int| 0 <= i < cs.len() ==> vstd::utf8::valid_utf8(#[trigger] span_at(s, start, cs[i]))
}

/// Every span of the lines reached by the first `p` bytes covers valid UTF-8.
spec fn valid_upto(s: Seq<u8>, c: Seq<Seq<(Color, usize, usize)>>, p: int) -> bool {
    forall|k: int| 0 <= k <= newlines_before(s, p) ==> spans_valid(s, #[trigger] c[k], line_start(s, k))
}

/// A valid source run, cut at its newlines, adds spans that each cover valid UTF-8.
#[verifier::spinoff_prover]
#[verifier::rlimit(40)]
proof fn lemma_run_valid(
    s: Seq<u8>,
    lines: Seq<(usize, usize)>,
    c: Seq<Seq<(Color, usize, usize)>>,
    p: int,
    q: int,
    top: Color,
)
    requires
        spans_lines(s, lines),
        0 <= p < q <= s.len(),
        s.len() <= usize::MAX,
        tiled_upto(s, c, p),
        valid_upto(s, c, p),
        vstd::utf8::valid_utf8(s.subrange(p, q)),
        newlines_before(s, p) < lines.len(),
        p >= lines[newlines_before(s, p)].0,
    ensures
        valid_upto(s, add_run(c, s.subrange(p, q), top, (p - lines[newlines_before(s, p)].0) as usize), q),
{
    let np = newline_positions(s);
    let cur = newlines_before(s, p);
    let curq = newlines_before(s, q);
    lemma_prefix_newlines(s, p);
    lemma_prefix_newlines(s, q);
    lemma_range_newlines(s, p, q);
    lemma_newline_positions(s);
    lemma_newline_positions(s.take(q));
    let bytes = s.subrange(p, q);
    let bn = newline_positions(bytes);
    lemma_newline_positions(bytes);
    let m = bn.len() as int;
    let col = (p - lines[cur].0) as usize;
    let ls = line_start(s, cur);
    assert(lines[cur].0 == ls);
    assert(c.last() == c[cur]);
    assert forall|j: int| 0 <= j < m implies #[trigger] bn[j] == np[cur + j] - p by {
        assert(newline_positions(s.take(q))[cur + j] == np[cur + j]);
    }
    let res = add_run(c, bytes, top, col);
    if m == 0 {
        let x = (top, col, bytes.len() as usize);
        assert(res == c.update(cur, c[cur].push(x)));
        assert(span_at(s, ls, x) == bytes);
        assert forall|k: int| 0 <= k <= curq implies spans_valid(s, #[trigger] res[k], line_start(s, k)) by {
            if k == cur {
                assert forall|i: int| 0 <= i < res[k].len() implies vstd::utf8::valid_utf8(#[trigger] span_at(s, ls, res[k][i])) by {
                    if i < c[cur].len() {
                        assert(res[k][i] == c[cur][i]);
                    }
                }
            } else {
                assert(res[k] == c[k]);
            }
        }
    } else {
        let first = crate::buf::color::piece_len(bytes, 0);
        assert(first == np[cur] - p);
        let x = (top, col, first as usize);
        let head = if first > 0 {
            c.update(c.len() - 1, c.last().push(x))
        } else {
            c
        };
        assert(span_at(s, ls, x) == bytes.subrange(0, bn[0]));
        lemma_valid_between(bytes, 0, bn[0]);
        assert(spans_valid(s, head[cur], ls)) by {
            if first > 0 {
                assert forall|i: int| 0 <= i < head[cur].len() implies vstd::utf8::valid_utf8(#[trigger] span_at(s, ls, head[cur][i])) by {
                    if i < c[cur].len() {
                        assert(head[cur][i] == c[cur][i]);
                    }
                }
            }
        }
        let tail = Seq::new(m as nat, |k: int| seq![(top, 0usize, crate::buf::color::piece_len(bytes, k + 1) as usize)]);
        assert(res == head + tail);
        assert forall|k: int| 0 <= k <= curq implies spans_valid(s, #[trigger] res[k], line_start(s, k)) by {
            if k < cur {
                assert(res[k] == c[k]);
            } else if k == cur {
                assert(res[k] == head[cur]);
            } else {
                let j = k - cur - 1;
                assert(res[k] == tail[j]);
                let y = (top, 0usize, crate::buf::color::piece_len(bytes, j + 1) as usize);
                let e = if j + 1 < m { bn[j + 1] } else { bytes.len() as int };
                assert(crate::buf::color::piece_len(bytes, j + 1) == e - (bn[j] + 1));
                assert(np[cur + j] < q);
                assert(line_start(s, k) == np[cur + j] + 1);
                assert(span_at(s, line_start(s, k), y) == bytes.subrange(bn[j] + 1, e));
                lemma_valid_between(bytes, bn[j] + 1, e);
                assert(res[k][0] == y);
            }
        }
    }
}

/// The texts of drawn spans, one after another.
pub open spec fn span_texts(spans: Seq<SpanView>) -> Seq<char>
    decreases spans.len(),
{
    if spans.len() == 0 {
        Seq::empty()
    } else {
        spans[0].content + span_texts(spans.skip(1))
    }
}

/// The total of spans is the first one's length and the rest's total.
proof fn lemma_total_front(cs: Seq<(Color, usize, usize)>)
    requires
        cs.len() > 0,
    ensures
        span_total(cs) == cs[0].2 + span_total(cs.skip(1)),
    decreases cs.len(),
{
    if cs.len() > 1 {
        lemma_total_front(cs.drop_last());
        assert(cs.drop_last().skip(1) == cs.skip(1).drop_last());
        assert(cs.skip(1).last() == cs.last());
        assert(cs.drop_last()[0] == cs[0]);
        assert(span_total(cs.skip(1)) == span_total(cs.skip(1).drop_last()) + cs.skip(1).last().2);
        assert(span_total(cs) == span_total(cs.drop_last()) + cs.last().2);
    } else {
        assert(cs.drop_last().len() == 0);
        assert(cs.skip(1).len() == 0);
        assert(span_total(cs) == span_total(cs.drop_last()) + cs.last().2);
    }
}

/// A total of lengths is never negative.
proof fn lemma_total_nonneg(cs: Seq<(Color, usize, usize)>)
    ensures
        span_total(cs) >= 0,
    decreases cs.len(),
{
    if cs.len() > 0 {
        lemma_total_nonneg(cs.drop_last());
    }
}

/// Two valid UTF-8 texts, one after the other, are valid and decode one after the other.
proof fn lemma_decode_concat(p1: Seq<u8>, p2: Seq<u8>)
    requires
        vstd::utf8::valid_utf8(p1),
        vstd::utf8::valid_utf8(p2),
    ensures
        vstd::utf8::valid_utf8(p1 + p2),
        vstd::utf8::decode_utf8(p1 + p2) == vstd::utf8::decode_utf8(p1) + vstd::utf8::decode_utf8(p2),
    decreases p1.len(),
{
    vstd::utf8::valid_utf8_concat(p1, p2);
    if p1.len() == 0 {
        assert(p1 + p2 == p2);
    } else {
        let w = p1 + p2;
        let n = vstd::utf8::length_of_first_scalar(p1);
        assert(1 <= n <= p1.len());
        assert forall|i: int| 0 <= i < n implies #[trigger] w[i] == p1[i] by {}
        assert(w[0] == p1[0]);
        if n >= 2 {
            assert(w[1] == p1[1]);
        }
        if n >= 3 {
            assert(w[2] == p1[2]);
        }
        if n >= 4 {
            assert(w[3] == p1[3]);
        }
        assert(vstd::utf8::length_of_first_scalar(w) == n);
        assert(vstd::utf8::decode_first_scalar(w) == vstd::utf8::decode_first_scalar(p1));
        let rest = vstd::utf8::pop_first_scalar(p1);
        assert(vstd::utf8::pop_first_scalar(w) == rest + p2);
        lemma_decode_concat(rest, p2);
        assert(vstd::utf8::decode_utf8(w) == seq![vstd::utf8::decode_first_scalar(p1) as char] + (vstd::utf8::decode_utf8(rest) + vstd::utf8::decode_utf8(p2)));
        assert(vstd::utf8::decode_utf8(p1) == seq![vstd::utf8::decode_first_scalar(p1) as char] + vstd::utf8::decode_utf8(rest));
    }
}

/// Spans that follow one another from byte `a` of a line to its end, each covering valid
/// UTF-8, are all drawn, and their texts, one after another, are the text of those bytes.
proof fn lemma_run_text(bytes: Seq<u8>, cs: Seq<(Color, usize, usize)>, a: int)
    requires
        0 <= a,
        a + span_total(cs) == bytes.len(),
        forall|i: int| 0 <= i < cs.len() ==> (#[trigger] cs[i]).1 == a + span_total(cs.take(i)),
        forall|i: int|
            0 <= i < cs.len() ==> vstd::utf8::valid_utf8(bytes.subrange((#[trigger] cs[i]).1 as int, cs[i].1 + cs[i].2)),
    ensures
        vstd::utf8::valid_utf8(bytes.subrange(a, bytes.len() as int)),
        span_texts(span_run(bytes, cs)) == vstd::utf8::decode_utf8(bytes.subrange(a, bytes.len() as int)),
    decreases cs.len(),
{
    if cs.len() == 0 {
        assert(bytes.subrange(a, bytes.len() as int) == Seq::<u8>::empty());
        assert(vstd::utf8::decode_utf8(Seq::<u8>::empty()) == Seq::<char>::empty());
    } else {
        let x = cs[0];
        let rest = cs.skip(1);
        lemma_total_front(cs);
        lemma_total_nonneg(rest);
        assert(cs.take(0) == Seq::<(Color, usize, usize)>::empty());
        assert(x.1 == a);
        let a2 = a + x.2;
        assert(span_bytes(bytes, x) == bytes.subrange(a, a2));
        assert(span_drawable(bytes, x));
        assert forall|i: int| 0 <= i < rest.len() implies (#[trigger] rest[i]).1 == a2 + span_total(rest.take(i)) by {
            assert(rest[i] == cs[i + 1]);
            lemma_total_front(cs.take(i + 1));
            assert(cs.take(i + 1).skip(1) == rest.take(i));
            assert(cs.take(i + 1)[0] == x);
        }
        assert forall|i: int| 0 <= i < rest.len() implies
            vstd::utf8::valid_utf8(bytes.subrange((#[trigger] rest[i]).1 as int, rest[i].1 + rest[i].2)) by {
            assert(rest[i] == cs[i + 1]);
        }
        lemma_run_text(bytes, rest, a2);
        let p1 = bytes.subrange(a, a2);
        let p2 = bytes.subrange(a2, bytes.len() as int);
        lemma_decode_concat(p1, p2);
        assert(p1 + p2 == bytes.subrange(a, bytes.len() as int));
        let run = span_run(bytes, cs);
        let tail = span_run(bytes, rest);
        assert(run == seq![run[0]] + tail);
        assert(run[0].content == vstd::utf8::decode_utf8(p1));
        assert((seq![run[0]] + tail).skip(1) == tail);
    }
}

/// The first `i` spans total no more than all of them, and one more adds its length.
proof fn lemma_total_prefix(cs: Seq<(Color, usize, usize)>, i: int)
    requires
        0 <= i <= cs.len(),
    ensures
        span_total(cs.take(i)) <= span_total(cs),
        i < cs.len() ==> span_total(cs.take(i + 1)) == span_total(cs.take(i)) + cs[i].2,
    decreases cs.len() - i,
{
    if i < cs.len() {
        assert(cs.take(i + 1).drop_last() == cs.take(i));
        assert(cs.take(i + 1).last() == cs[i]);
        lemma_total_prefix(cs, i + 1);
    } else {
        assert(cs.take(i) == cs);
    }
}

/// A line whose spans tile it from its first byte, each covering valid UTF-8, is valid UTF-8,
/// is drawn with all its spans, and their texts, one after another, are the line's text.
proof fn lemma_line_text(s: Seq<u8>, lines: Seq<(usize, usize)>, colors: Seq<Seq<(Color, usize, usize)>>, k: int)
    requires
        spans_lines(s, lines),
        0 <= k < lines.len(),
        colors.len() > k,
        spans_tile(colors[k], lines[k].1 as int),
        spans_valid(s, colors[k], line_start(s, k)),
    ensures
        span_texts(highlight_spans(BufferView { content: s, lines, colors }, k + 1))
            == line_text(BufferView { content: s, lines, colors }, k + 1),
{
    let b = BufferView { content: s, lines, colors };
    crate::buf::law_buf_line(s, lines, k);
    let ls = line_start(s, k);
    let e = newline_positions(s)[k];
    let bytes = s.subrange(ls, e);
    assert(lines[k].0 == ls);
    assert(line_bytes(b, k + 1) == Some(bytes));
    let cs = colors[k];
    assert forall|i: int| 0 <= i < cs.len() implies (#[trigger] cs[i]).1 == 0 + span_total(cs.take(i)) by {}
    assert forall|i: int| 0 <= i < cs.len() implies
        vstd::utf8::valid_utf8(bytes.subrange((#[trigger] cs[i]).1 as int, cs[i].1 + cs[i].2)) by {
        lemma_total_prefix(cs, i);
        lemma_total_prefix(cs, i + 1);
        lemma_total_nonneg(cs.take(i));
        assert(bytes.subrange(cs[i].1 as int, cs[i].1 + cs[i].2) == span_at(s, ls, cs[i]));
    }
    lemma_run_text(bytes, cs, 0);
    assert(bytes.subrange(0, bytes.len() as int) == bytes);
}

} // verus!
