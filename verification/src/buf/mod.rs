//! A file's content, split into lines, with the colors of its highlighted spans.
use vstd::prelude::*;

use crate::style::{Color, Line, Span, SpanView, Style};
use crate::syntax::theme::SyntaxTheme;
use crate::text::{decoded_or_empty, utf8_str};

use git2::{Blob, Oid, Repository};
use tree_sitter_highlight::{HighlightConfiguration, Highlighter};

use color::{apply_events, apply_highlight_events, deep_colors, span_bytes, span_drawable, span_run, ColorError, ColorState, HighlightEvent};

pub mod color;
pub mod tiling;

verus! {

/// The bytes of one version of a file and where each of its lines lies.
#[derive(Debug)]
pub struct Buffer {
    content: Vec<u8>,
    lines: Vec<(usize, usize)>,
    colors: Vec<Vec<(Color, usize, usize)>>,
}

/// The mathematical value of a [`Buffer`].
pub struct BufferView {
    /// The file's bytes.
    pub content: Seq<u8>,
    /// `(start, length)` of each line, the newline excluded.
    pub lines: Seq<(usize, usize)>,
    /// For each highlighted line, its colored spans as `(color, offset, length)`.
    pub colors: Seq<Seq<(Color, usize, usize)>>,
}

impl View for Buffer {
    type V = BufferView;

    closed spec fn view(&self) -> BufferView {
        BufferView {
            content: self.content@,
            lines: self.lines@,
            colors: self.colors@.map_values(|c: Vec<(Color, usize, usize)>| c@),
        }
    }
}

/// A Git repository, carried through unopened.
#[verifier::external_type_specification]
#[verifier::external_body]
pub struct ExRepository(Repository);

/// A Git object id, carried through unopened.
#[verifier::external_type_specification]
#[verifier::external_body]
pub struct ExOid(Oid);

/// A Git blob, carried through unopened.
#[verifier::external_type_specification]
#[verifier::external_body]
pub struct ExBlob<'repo>(Blob<'repo>);

/// An error of libgit2, carried through unopened.
#[verifier::external_type_specification]
#[verifier::external_body]
pub struct ExGitError(git2::Error);

/// Whether every byte of the Git object id `oid` is zero, as `git2::Oid::is_zero` tells.
pub uninterp spec fn zero_oid(oid: Oid) -> bool;

/// `git2::Oid::is_zero`: whether every byte of the id is zero, as Git writes the id of a file
/// version that does not exist. The id's bytes are opaque here, so the answer is only named:
/// the same id always gives the same answer.
#[verifier::external_body]
fn oid_is_zero(oid: &Oid) -> (res: bool)
    ensures
        res == zero_oid(*oid),
{
    oid.is_zero()
}

/// `git2::Repository::find_blob`: the blob with id `oid`. Nothing is claimed: the answer comes
/// from the repository on disk.
#[verifier::external_body]
fn find_blob<'repo>(repo: &'repo Repository, oid: Oid) -> Result<Blob<'repo>, git2::Error> {
    repo.find_blob(oid)
}

/// `git2::Blob::content`: the blob's bytes, copied. Nothing is claimed of them.
#[verifier::external_body]
fn blob_bytes(blob: &Blob) -> Vec<u8> {
    blob.content().to_vec()
}

/// What `tree_sitter_highlight::Highlighter::highlight` gives over `source` with `config`, no
/// cancellation flag and no injected languages: its events in order, up to the first error, and
/// whether an error cut them short; `Err` when the run could not start.
pub uninterp spec fn highlighted(config: HighlightConfiguration, source: Seq<u8>) -> Result<(Seq<HighlightEvent>, bool), ()>;

/// `tree_sitter_highlight::Highlighter::highlight` over `source` with `config` and no injected
/// languages: its events in order, up to the first error. `Err` when the highlighter could not
/// start; the flag tells whether an error cut the events short. The outcome is only named (see
/// [`highlighted`]): it depends on the configuration and the source alone, the highlighter
/// carrying nothing but reusable cursors from one run to the next. Which events a grammar gives
/// is not stated.
#[verifier::external_body]
fn highlight_events(highlighter: &mut Highlighter, config: &HighlightConfiguration, source: &[u8]) -> (res: Result<(Vec<HighlightEvent>, bool), ()>)
    ensures
        outcome_view(res) == highlighted(*config, source@),
{
    let events = match highlighter.highlight(config, source, None, None, no_injection) {
        Ok(it) => it,
        Err(_) => { return Err(()); },
    };
    let mut out = Vec::new();
    for event in events {
        match event {
            Ok(tree_sitter_highlight::HighlightEvent::Source { start, end }) => out.push(HighlightEvent::Source { start, end }),
            Ok(tree_sitter_highlight::HighlightEvent::HighlightStart(h)) => out.push(HighlightEvent::HighlightStart(h.0)),
            Ok(tree_sitter_highlight::HighlightEvent::HighlightEnd) => out.push(HighlightEvent::HighlightEnd),
            Err(_) => { return Ok((out, true)); },
        }
    }
    Ok((out, false))
}

/// No other language is highlighted inside a file.
fn no_injection<'a>(_language: &str) -> (res: Option<&'a HighlightConfiguration>)
    ensures
        res is None,
{
    None
}

/// Why a file version could not be read from the repository.
#[derive(Debug, Clone, Copy, PartialEq, Eq, Structural)]
pub enum BufferError {
    /// The repository has no readable blob with that id.
    Blob,
}

/// The events of a highlighter run, as values: the events, and whether an error cut them short;
/// `Err` when the run could not start.
pub open spec fn outcome_view(o: Result<(Vec<HighlightEvent>, bool), ()>) -> Result<(Seq<HighlightEvent>, bool), ()> {
    match o {
        Ok((events, cut)) => Ok((events@, cut)),
        Err(_) => Err(()),
    }
}

/// A buffer colored from a highlighter run: a run that could not start changes nothing; else a
/// new colored line is opened and the events are applied in order, from the default color (see
/// [`apply_events`]); an invalid event, or an error that cut the run short, is reported.
pub open spec fn highlight_outcome(b: BufferView, outcome: Result<(Seq<HighlightEvent>, bool), ()>, palette: Seq<Color>) -> (BufferView, Result<(), ColorError>) {
    match outcome {
        Err(_) => (b, Err(ColorError::Highlighter)),
        Ok((events, cut)) => {
            let st0 = ColorState { colors: b.colors.push(Seq::empty()), stack: seq![Color::Reset] };
            let (st, err) = apply_events(b.content, b.lines, palette, st0, events);
            let colored = BufferView { colors: st.colors, ..b };
            match err {
                Some(k) => (colored, Err(ColorError::InvalidEvent(k as usize))),
                None => if cut {
                    (colored, Err(ColorError::Highlighter))
                } else {
                    (colored, Ok(()))
                },
            }
        },
    }
}

/// The colors of a syntax theme's highlights, in order.
pub open spec fn theme_palette(t: Seq<(Seq<char>, Color)>) -> Seq<Color> {
    t.map_values(|p: (Seq<char>, Color)| p.1)
}

/// The buffer with no bytes, no lines and no colors.
pub open spec fn empty_buffer() -> BufferView {
    BufferView { content: Seq::empty(), lines: Seq::empty(), colors: Seq::empty() }
}

/// Positions of the newline bytes of `s`, in order.
pub open spec fn newline_positions(s: Seq<u8>) -> Seq<int>
    decreases s.len(),
{
    if s.len() == 0 {
        Seq::empty()
    } else if s.last() == 10u8 {
        newline_positions(s.drop_last()).push(s.len() - 1)
    } else {
        newline_positions(s.drop_last())
    }
}

/// Where the `k`-th newline-terminated line of `s` starts.
pub open spec fn line_start(s: Seq<u8>, k: int) -> int {
    if k == 0 {
        0
    } else {
        newline_positions(s)[k - 1] + 1
    }
}

/// `lines` lists, for each newline of `s`, the `(start, length)` of the line it ends;
/// bytes after the last newline belong to no line.
pub open spec fn spans_lines(s: Seq<u8>, lines: Seq<(usize, usize)>) -> bool {
    &&& lines.len() == newline_positions(s).len()
    &&& forall|k: int|
        0 <= k < lines.len() ==> {
            &&& #[trigger] lines[k].0 == line_start(s, k)
            &&& lines[k].1 == newline_positions(s)[k] - line_start(s, k)
        }
}

/// The bytes of line `n` (counted from 1; 0 reads as 1), when the buffer has it.
pub open spec fn line_bytes(b: BufferView, n: int) -> Option<Seq<u8>> {
    let i = if n == 0 { 0 } else { n - 1 };
    if i >= b.lines.len() {
        None
    } else {
        let (start, len) = b.lines[i];
        if start + len > b.content.len() {
            None
        } else {
            Some(b.content.subrange(start as int, start + len))
        }
    }
}

/// The text of line `n`: empty when there is no such line or it is not valid UTF-8.
pub open spec fn line_text(b: BufferView, n: int) -> Seq<char> {
    match line_bytes(b, n) {
        Some(bytes) => decoded_or_empty(bytes),
        None => Seq::empty(),
    }
}

/// How line `index` (counted from 1; 0 reads as 1) is drawn: nothing when there is no such
/// line, it is not valid UTF-8, or it was not colored and is empty; its text in one unstyled
/// span when it was not colored; else
/// its colored spans, in order, up to the first one that starts past its end or cuts a character.
pub open spec fn highlight_spans(b: BufferView, index: int) -> Seq<SpanView> {
    let i = if index == 0 { 0 } else { index - 1 };
    match line_bytes(b, index) {
        None => Seq::empty(),
        Some(bytes) => if !vstd::utf8::valid_utf8(bytes) {
            Seq::empty()
        } else if i >= b.colors.len() && vstd::utf8::decode_utf8(bytes).len() == 0 {
            Seq::empty()
        } else if i >= b.colors.len() {
            seq![SpanView { content: vstd::utf8::decode_utf8(bytes), style: Style { fg: None, bg: None, add_modifier: crate::style::Modifier { bits: 0 } } }]
        } else {
            span_run(bytes, b.colors[i])
        },
    }
}

/// Every newline position lies inside `s`, and they increase.
pub proof fn lemma_newline_positions(s: Seq<u8>)
    ensures
        forall|k: int|
            0 <= k < newline_positions(s).len() ==> 0 <= #[trigger] newline_positions(s)[k] < s.len()
                && s[newline_positions(s)[k]] == 10u8,
        forall|j: int, k: int|
            0 <= j < k < newline_positions(s).len() ==> newline_positions(s)[j]
                < newline_positions(s)[k],
    decreases s.len(),
{
    if s.len() > 0 {
        let prev = s.drop_last();
        lemma_newline_positions(prev);
        assert forall|k: int| 0 <= k < newline_positions(prev).len() implies s[#[trigger] newline_positions(prev)[k]] == 10u8 by {
            assert(s[newline_positions(prev)[k]] == prev[newline_positions(prev)[k]]);
        }
    }
}

/// Reading back a buffer split from bytes (see [`Buffer::buf`]): line `k + 1` is exactly the
/// bytes between the `k`-th newline (or the start) and the next one.
pub proof fn law_buf_line(content: Seq<u8>, lines: Seq<(usize, usize)>, k: int)
    requires
        spans_lines(content, lines),
        0 <= k < lines.len(),
    ensures
        line_bytes(BufferView { content, lines, colors: Seq::empty() }, k + 1)
            == Some(content.subrange(line_start(content, k), newline_positions(content)[k])),
        content[newline_positions(content)[k]] == 10u8,
{
    lemma_newline_positions(content);
    if k > 0 {
        assert(newline_positions(content)[k - 1] < newline_positions(content)[k]);
    }
}

/// A copy of `v`.
fn copy_vec<T: Copy>(v: &Vec<T>) -> (res: Vec<T>)
    ensures
        res@ == v@,
{
    let mut res: Vec<T> = Vec::new();
    let mut i: usize = 0;
    while i < v.len()
        invariant
            i <= v@.len(),
            res@ == v@.take(i as int),
        decreases v@.len() - i,
    {
        res.push(v[i]);
        assert(v@.take(i as int + 1) == v@.take(i as int).push(v@[i as int]));
        i += 1;
    }
    assert(v@.take(v@.len() as int) == v@);
    res
}

impl Clone for Buffer {
    /// An equal buffer.
    fn clone(&self) -> (res: Buffer)
        ensures
            res@ == self@,
    {
        proof {
            use_type_invariant(self);
        }
        let content = copy_vec(&self.content);
        let lines = copy_vec(&self.lines);
        let mut colors: Vec<Vec<(Color, usize, usize)>> = Vec::new();
        let mut i: usize = 0;
        while i < self.colors.len()
            invariant
                i <= self.colors@.len(),
                colors@.len() == i,
                forall|k: int| 0 <= k < i ==> #[trigger] colors@[k]@ == self.colors@[k]@,
            decreases self.colors@.len() - i,
        {
            colors.push(copy_vec(&self.colors[i]));
            i += 1;
        }
        let res = Buffer { content, lines, colors };
        assert(res@.colors =~= self@.colors);
        res
    }
}

/// Extending the scanned prefix by a newline adds one line, ending there.
proof fn lemma_spans_push_newline(
    before: Seq<u8>,
    after: Seq<u8>,
    old_lines: Seq<(usize, usize)>,
    lines: Seq<(usize, usize)>,
    pos: int,
)
    requires
        after.len() == before.len() + 1,
        after.drop_last() == before,
        after.last() == 10u8,
        pos == before.len(),
        spans_lines(before, old_lines),
        lines.len() == old_lines.len() + 1,
        forall|k: int| 0 <= k < old_lines.len() ==> lines[k] == old_lines[k],
        lines.last().0 == line_start(before, old_lines.len() as int),
        lines.last().1 == pos - line_start(before, old_lines.len() as int),
    ensures
        spans_lines(after, lines),
        line_start(after, lines.len() as int) == pos + 1,
{
    assert(newline_positions(after) == newline_positions(before).push(pos));
    assert forall|k: int| 0 <= k < lines.len() implies #[trigger] lines[k].0 == line_start(after, k)
        && lines[k].1 == newline_positions(after)[k] - line_start(after, k) by {
        assert(line_start(after, k) == line_start(before, k));
        if k < old_lines.len() {
            assert(lines[k] == old_lines[k]);
        }
    }
}

impl Buffer {
    #[verifier::type_invariant]
    spec fn well_formed(self) -> bool {
        forall|k: int|
            #![trigger self.lines@[k]]
            0 <= k < self.lines@.len() ==> self.lines@[k].0 + self.lines@[k].1 <= self.content@.len()
    }

    /// The empty buffer: no bytes, no lines, no colors.
    pub fn new() -> (res: Buffer)
        ensures
            res@ == empty_buffer(),
    {
        let res = Buffer { content: Vec::new(), lines: Vec::new(), colors: Vec::new() };
        assert(res@.colors =~= Seq::<Seq<(Color, usize, usize)>>::empty());
        assert(res@.content =~= Seq::<u8>::empty());
        assert(res@.lines =~= Seq::<(usize, usize)>::empty());
        res
    }

    /// Splits `content` into its newline-terminated lines.
    pub fn buf(content: Vec<u8>) -> (res: Buffer)
        ensures
            res@.content == content@,
            spans_lines(content@, res@.lines),
            res@.colors.len() == 0,
    {
        let mut lines: Vec<(usize, usize)> = Vec::new();
        let mut last: usize = 0;
        let mut pos: usize = 0;
        let n = content.len();
        while pos < n
            invariant
                n == content@.len(),
                pos <= n,
                last <= pos,
                spans_lines(content@.take(pos as int), lines@),
                last == line_start(content@.take(pos as int), lines@.len() as int),
                forall|k: int| #![trigger lines@[k]] 0 <= k < lines@.len() ==> lines@[k].0 + lines@[k].1 <= pos,
            decreases n - pos,
        {
            let ghost before = content@.take(pos as int);
            let ghost after = content@.take(pos as int + 1);
            assert(after.drop_last() == before);
            if content[pos] == 10u8 {
                let len = pos - last;
                let ghost old_lines = lines@;
                lines.push((last, len));
                proof {
                    lemma_spans_push_newline(before, after, old_lines, lines@, pos as int);
                }
                last = pos + 1;
            } else {
                assert(newline_positions(after) == newline_positions(before));
            }
            pos += 1;
        }
        assert(content@.take(n as int) == content@);
        let res = Buffer { content, lines, colors: Vec::new() };
        assert(res@.colors.len() == 0);
        res
    }

    /// The text of line `line` (counted from 1; 0 reads as 1); empty when there is no such
    /// line or its bytes are not valid UTF-8.
    pub fn line(&self, line: usize) -> (res: &str)
        ensures
            res@ == line_text(self@, line as int),
    {
        proof {
            use_type_invariant(self);
            reveal_strlit("");
        }
        let i = if line == 0 { 0 } else { line - 1 };
        if i >= self.lines.len() {
            return "";
        }
        let clen = self.content.len();
        let (start, len) = self.lines[i];
        assert(self.lines@[i as int].0 + self.lines@[i as int].1 <= self.content@.len());
        if start > clen || len > clen - start {
            return "";
        }
        let bytes = &self.content.as_slice()[start..start + len];
        match utf8_str(bytes) {
            Some(s) => s,
            None => "",
        }
    }

    /// Colors the buffer from a highlighter's events over its content: a new colored line is
    /// opened, then the events are applied in order, the open highlights starting with the
    /// default color and `palette` giving the color of each highlight. Stops with an error at
    /// the first event that reaches outside the content, its lines or the palette.
    pub fn apply_highlight(&mut self, events: &[HighlightEvent], palette: &[Color]) -> (res: Result<(), ColorError>)
        ensures
            ({
                let st0 = ColorState { colors: old(self)@.colors.push(Seq::empty()), stack: seq![Color::Reset] };
                let (st, err) = apply_events(old(self)@.content, old(self)@.lines, palette@, st0, events@);
                &&& final(self)@ == (BufferView { colors: st.colors, ..old(self)@ })
                &&& match err {
                    Some(k) => res == Err::<(), ColorError>(ColorError::InvalidEvent(k as usize)),
                    None => res is Ok,
                }
            }),
    {
        let mut stack: Vec<Color> = Vec::new();
        stack.push(Color::Reset);
        let mut taken = Buffer::new();
        std::mem::swap(&mut taken, self);
        proof {
            use_type_invariant(&taken);
        }
        let Buffer { content, lines, mut colors } = taken;
        colors.push(Vec::new());
        assert(deep_colors(colors@) =~= old(self)@.colors.push(Seq::empty()));
        let res = apply_highlight_events(content.as_slice(), lines.as_slice(), palette, events, &mut colors, &mut stack);
        *self = Buffer { content, lines, colors };
        res
    }

    /// Colors the buffer from a highlighter run (see [`highlight_outcome`]).
    pub fn apply_outcome(&mut self, outcome: Result<(Vec<HighlightEvent>, bool), ()>, palette: &[Color]) -> (res: Result<(), ColorError>)
        ensures
            (final(self)@, res) == highlight_outcome(old(self)@, outcome_view(outcome), palette@),
    {
        match outcome {
            Err(_) => Err(ColorError::Highlighter),
            Ok((events, cut)) => {
                let applied = self.apply_highlight(events.as_slice(), palette);
                match applied {
                    Err(e) => Err(e),
                    Ok(()) => if cut {
                        Err(ColorError::Highlighter)
                    } else {
                        Ok(())
                    },
                }
            },
        }
    }

    /// Colors the buffer by running `highlighter` over its content with `hiconfig`, the colors
    /// of the highlights taken from `theme`: the run's outcome ([`highlighted`]) is applied as
    /// [`highlight_outcome`] says.
    pub fn color(&mut self, highlighter: &mut Highlighter, hiconfig: &HighlightConfiguration, theme: &SyntaxTheme) -> (res: Result<(), ColorError>)
        ensures
            (final(self)@, res) == highlight_outcome(old(self)@, highlighted(*hiconfig, old(self)@.content), theme_palette(theme@)),
    {
        let outcome = highlight_events(highlighter, hiconfig, self.content.as_slice());
        let palette = theme.palette();
        assert(palette@ =~= theme_palette(theme@));
        let res = self.apply_outcome(outcome, palette);
        assert((self@, res) == highlight_outcome(old(self)@, outcome_view(outcome), theme_palette(theme@)));
        res
    }

    /// The version of a file that Git stores as blob `oid`; the empty buffer for the zero id,
    /// which stands for a version that does not exist. Whatever bytes the repository gives
    /// are split into lines as [`Buffer::buf`] says.
    pub fn load(repo: &Repository, oid: Oid) -> (res: Result<Buffer, BufferError>)
        ensures
            zero_oid(oid) ==> (res matches Ok(b) && b@ == empty_buffer()),
            res is Err ==> !zero_oid(oid),
            res matches Ok(b) ==> b@.colors.len() == 0 && spans_lines(b@.content, b@.lines),
    {
        if oid_is_zero(&oid) {
            let b = Buffer::new();
            proof {
                assert(newline_positions(Seq::<u8>::empty()).len() == 0);
            }
            return Ok(b);
        }
        match find_blob(repo, oid) {
            Ok(blob) => Ok(Buffer::buf(blob_bytes(&blob))),
            Err(_) => Err(BufferError::Blob),
        }
    }

    /// How line `index` is drawn (see [`highlight_spans`]).
    pub fn highlight(&self, index: usize) -> (res: Line)
        ensures
            res@ == highlight_spans(self@, index as int),
    {
        proof {
            use_type_invariant(self);
        }
        let i = if index == 0 { 0 } else { index - 1 };
        if i >= self.lines.len() {
            let res = Line { spans: Vec::new() };
            assert(res@ =~= Seq::<SpanView>::empty());
            return res;
        }
        let clen = self.content.len();
        let (start, len) = self.lines[i];
        assert(self.lines@[i as int].0 + self.lines@[i as int].1 <= self.content@.len());
        assert(start + len <= clen);
        let bytes = &self.content.as_slice()[start..start + len];
        let text = match utf8_str(bytes) {
            Some(t) => t,
            None => {
                let res = Line { spans: Vec::new() };
                assert(res@ =~= Seq::<SpanView>::empty());
                return res;
            },
        };
        if i >= self.colors.len() {
            let mut spans: Vec<Span> = Vec::new();
            if !text.is_empty() {
                spans.push(Span { content: text.to_owned(), style: Style::new() });
            }
            let res = Line { spans };
            assert(res@ =~= highlight_spans(self@, index as int));
            return res;
        }
        let cs = &self.colors[i];
        assert(self@.colors[i as int] == cs@);
        let mut spans: Vec<Span> = Vec::new();
        let mut k: usize = 0;
        let mut stopped = false;
        assert(cs@.skip(0) == cs@);
        assert(spans@.map_values(|s: Span| s@) + span_run(bytes@, cs@) =~= span_run(bytes@, cs@));
        while k < cs.len() && !stopped
            invariant
                k <= cs@.len(),
                bytes@.len() == len,
                !stopped ==> spans@.map_values(|s: Span| s@) + span_run(bytes@, cs@.skip(k as int)) == span_run(bytes@, cs@),
                stopped ==> spans@.map_values(|s: Span| s@) == span_run(bytes@, cs@),
            decreases cs@.len() - k,
        {
            let (color, offset, offlen) = cs[k];
            assert(cs@.skip(k as int)[0] == cs@[k as int]);
            assert(cs@.skip(k as int).skip(1) == cs@.skip(k as int + 1));
            if offset > len {
                stopped = true;
            } else {
                let cap = len - offset;
                let n = if offlen <= cap { offlen } else { cap };
                let piece = &bytes[offset..offset + n];
                assert(piece@ == span_bytes(bytes@, cs@[k as int]));
                match utf8_str(piece) {
                    None => {
                        stopped = true;
                    },
                    Some(t) => {
                        let ghost before = spans@.map_values(|s: Span| s@);
                        spans.push(Span { content: t.to_owned(), style: Style::new().fg(color) });
                        assert(spans@.map_values(|s: Span| s@) =~= before.push(spans@.last()@));
                        assert(span_drawable(bytes@, cs@[k as int]));
                        assert(before.push(spans@.last()@) + span_run(bytes@, cs@.skip(k as int + 1)) =~= before + span_run(bytes@, cs@.skip(k as int)));
                    },
                }
            }
            k += 1;
        }
        proof {
            if !stopped {
                assert(cs@.skip(k as int).len() == 0);
                assert(spans@.map_values(|s: Span| s@) =~= spans@.map_values(|s: Span| s@) + span_run(bytes@, cs@.skip(k as int)));
            }
        }
        let res = Line { spans };
        res
    }

    /// The bytes of the file.
    pub fn content(&self) -> (res: &[u8])
        ensures
            res@ == self@.content,
    {
        self.content.as_slice()
    }

    /// Moves the content out, leaving this buffer empty.
    pub fn take(&mut self) -> (res: Buffer)
        ensures
            res@ == old(self)@,
            final(self)@ == empty_buffer(),
    {
        let mut res = Buffer::new();
        std::mem::swap(&mut res, self);
        res
    }

    /// A buffer holding the given lines, each followed by a newline.
    pub fn from_test_lines(lines: &Vec<String>) -> (res: Buffer)
        ensures
            res@.lines.len() == lines@.len(),
            forall|k: int|
                0 <= k < lines@.len() ==> #[trigger] line_text(res@, k + 1) == lines@[k]@,
            res@.colors.len() == 0,
    {
        let mut content: Vec<u8> = Vec::new();
        let mut spans: Vec<(usize, usize)> = Vec::new();
        let mut i: usize = 0;
        while i < lines.len()
            invariant
                i <= lines@.len(),
                spans@.len() == i,
                forall|k: int| 0 <= k < i ==> #[trigger] spans@[k].0 + spans@[k].1 <= content@.len(),
                forall|k: int|
                    0 <= k < i ==> content@.subrange(#[trigger] spans@[k].0 as int, spans@[k].0 + spans@[k].1)
                        == vstd::utf8::encode_utf8(lines@[k]@) ,
            decreases lines@.len() - i,
        {
            let bytes = lines[i].as_str().as_bytes();
            let start = content.len();
            let ghost before = content@;
            let mut j: usize = 0;
            while j < bytes.len()
                invariant
                    j <= bytes@.len(),
                    start == before.len(),
                    content@ == before + bytes@.take(j as int),
                decreases bytes@.len() - j,
            {
                content.push(bytes[j]);
                assert(bytes@.take(j as int + 1) == bytes@.take(j as int).push(bytes@[j as int]));
                j += 1;
            }
            assert(bytes@.take(bytes@.len() as int) == bytes@);
            spans.push((start, bytes.len()));
            content.push(10u8);
            assert forall|k: int| 0 <= k < i + 1 implies content@.subrange(#[trigger] spans@[k].0 as int, spans@[k].0 + spans@[k].1)
                == vstd::utf8::encode_utf8(lines@[k]@) by {
                if k < i {
                    assert(content@.subrange(spans@[k].0 as int, spans@[k].0 + spans@[k].1)
                        == before.subrange(spans@[k].0 as int, spans@[k].0 + spans@[k].1));
                } else {
                    assert(content@.subrange(start as int, start + bytes@.len()) == bytes@);
                }
            }
            i += 1;
        }
        let res = Buffer { content, lines: spans, colors: Vec::new() };
        assert(res@.colors.len() == 0);
        assert forall|k: int| 0 <= k < lines@.len() implies #[trigger] line_text(res@, k + 1) == lines@[k]@ by {
            vstd::utf8::encode_utf8_valid_utf8(lines@[k]@);
            vstd::utf8::encode_utf8_decode_utf8(lines@[k]@);
            assert(line_bytes(res@, k + 1) == Some(vstd::utf8::encode_utf8(lines@[k]@)));
        }
        res
    }
}

} // verus!
