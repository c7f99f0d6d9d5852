//! The diff model: files that changed, their hunks, and the lines of each hunk.
use vstd::prelude::*;

use crate::buf::tiling::span_texts;
use crate::buf::{highlight_spans, line_bytes, line_text, Buffer, BufferView};
use crate::style::{Line, SpanView};
use crate::text::{decimal_digits, decimal_text, push_char};
use vstd::string::StringExecFns;

pub mod load;

verus! {

/// What a diff line says about the file.
#[derive(Debug, Clone, Copy, PartialEq, Eq, Structural)]
pub enum LineStatus {
    Add,
    Remove,
    Context,
    Binary,
}

/// A line of a hunk: its status and its line number (from 1) in the file version it shows.
#[derive(Debug, Clone, Copy, PartialEq, Eq, Structural)]
pub struct DiffLoc {
    pub status: LineStatus,
    pub line: usize,
}

/// A hunk as stored: its header and its lines.
#[derive(Debug)]
pub struct IHunk {
    pub header: String,
    pub lines: Vec<DiffLoc>,
}

/// One changed file: its path, both versions, and its hunks.
#[derive(Debug)]
pub struct Entry {
    pub path: String,
    pub old: Buffer,
    pub new: Buffer,
    pub hunks: Vec<IHunk>,
}

/// All the changed files of a diff.
#[derive(Debug)]
pub struct Delta {
    pub entries: Vec<Entry>,
}

/// A hunk seen through its file.
#[derive(Debug)]
pub struct Hunk<'a> {
    header: &'a str,
    entry: &'a Entry,
    diff_locs: &'a [DiffLoc],
}

/// A line of a hunk seen through its file.
#[derive(Debug)]
pub struct HunkLine<'a> {
    entry: &'a Entry,
    diff_loc: DiffLoc,
}

/// The mathematical value of an [`IHunk`].
pub struct IHunkView {
    pub header: Seq<char>,
    pub lines: Seq<DiffLoc>,
}

impl View for IHunk {
    type V = IHunkView;

    open spec fn view(&self) -> IHunkView {
        IHunkView { header: self.header@, lines: self.lines@ }
    }
}

/// The mathematical value of an [`Entry`].
pub struct EntryView {
    pub path: Seq<char>,
    pub old: BufferView,
    pub new: BufferView,
    pub hunks: Seq<IHunkView>,
}

impl View for Entry {
    type V = EntryView;

    open spec fn view(&self) -> EntryView {
        EntryView {
            path: self.path@,
            old: self.old@,
            new: self.new@,
            hunks: self.hunks@.map_values(|h: IHunk| h@),
        }
    }
}

/// Added and removed lines are the ones the cursor can select.
pub open spec fn is_critical_status(s: LineStatus) -> bool {
    s == LineStatus::Add || s == LineStatus::Remove
}

/// How many lines of `locs` are added or removed.
pub open spec fn critical_count(locs: Seq<DiffLoc>) -> nat
    decreases locs.len(),
{
    if locs.len() == 0 {
        0
    } else {
        critical_count(locs.drop_last()) + if is_critical_status(locs.last().status) {
            1nat
        } else {
            0nat
        }
    }
}

/// A prefix never holds more selectable lines than the whole.
pub proof fn lemma_critical_count_bounds(locs: Seq<DiffLoc>, n: int)
    requires
        0 <= n <= locs.len(),
    ensures
        critical_count(locs.take(n)) <= critical_count(locs),
        critical_count(locs) <= locs.len(),
    decreases locs.len(),
{
    if locs.len() > 0 {
        if n == locs.len() {
            assert(locs.take(n) == locs);
            lemma_critical_count_bounds(locs.drop_last(), 0);
        } else {
            assert(locs.take(n) == locs.drop_last().take(n));
            lemma_critical_count_bounds(locs.drop_last(), n);
        }
    } else {
        assert(locs.take(n) == locs);
    }
}

/// The text a diff line shows: the added or context line from the new version, the removed
/// line from the old one, nothing for binary content.
pub open spec fn loc_text(e: &Entry, loc: DiffLoc) -> Seq<char> {
    match loc.status {
        LineStatus::Add => line_text(e.new@, loc.line as int),
        LineStatus::Remove => line_text(e.old@, loc.line as int),
        LineStatus::Context => line_text(e.new@, loc.line as int),
        LineStatus::Binary => Seq::empty(),
    }
}

/// How a diff line is drawn: the highlighted line of the version it shows; nothing for binary content.
pub open spec fn loc_spans(e: &Entry, loc: DiffLoc) -> Seq<SpanView> {
    match loc.status {
        LineStatus::Add => highlight_spans(e.new@, loc.line as int),
        LineStatus::Remove => highlight_spans(e.old@, loc.line as int),
        LineStatus::Context => highlight_spans(e.new@, loc.line as int),
        LineStatus::Binary => Seq::empty(),
    }
}

/// How a diff line is written in debug output: its status mark and its line number, or
/// `binary`.
pub open spec fn loc_description(loc: DiffLoc) -> Seq<char> {
    match loc.status {
        LineStatus::Add => seq!['+'] + decimal_digits(loc.line as nat),
        LineStatus::Remove => seq!['-'] + decimal_digits(loc.line as nat),
        LineStatus::Context => seq![' '] + decimal_digits(loc.line as nat),
        LineStatus::Binary => "binary"@,
    }
}

impl DiffLoc {
    /// The line as written in debug output (see [`loc_description`]).
    pub fn describe(&self) -> (res: String)
        ensures
            res@ == loc_description(*self),
    {
        let mark = match self.status {
            LineStatus::Add => '+',
            LineStatus::Remove => '-',
            LineStatus::Context => ' ',
            LineStatus::Binary => { return "binary".to_owned(); },
        };
        let mut out = String::new();
        push_char(&mut out, mark);
        out.append(decimal_text(self.line).as_str());
        out
    }
}

impl LineStatus {
    /// Added and removed lines are selectable; context and binary lines are not.
    pub fn is_critical(&self) -> (res: bool)
        ensures
            res == is_critical_status(*self),
    {
        match self {
            LineStatus::Remove | LineStatus::Add => true,
            _ => false,
        }
    }
}

impl Delta {
    /// The changed files.
    pub fn entries(&self) -> (res: &[Entry])
        ensures
            res@ == self.entries@,
    {
        self.entries.as_slice()
    }

    /// How many files changed.
    pub fn len(&self) -> (res: usize)
        ensures
            res == self.entries@.len(),
    {
        self.entries.len()
    }

    /// The file at `pos`, if there is one.
    pub fn get(&self, pos: usize) -> (res: Option<&Entry>)
        ensures
            pos < self.entries@.len() ==> res == Some(&self.entries@[pos as int]),
            pos >= self.entries@.len() ==> res is None,
    {
        if pos < self.entries.len() {
            Some(&self.entries[pos])
        } else {
            None
        }
    }
}

/// Each line of a test hunk shows its text: the lines of file `e` match, one for one and in
/// order, the `(status, text)` pairs of `spec`, with `spec`'s headers.
pub open spec fn shows_test_hunks(e: &Entry, spec: Seq<(&str, Vec<(LineStatus, String)>)>) -> bool {
    &&& e.hunks@.len() == spec.len()
    &&& forall|i: int|
        #![trigger e.hunks@[i]]
        0 <= i < spec.len() ==> {
            &&& e.hunks@[i].header@ == spec[i].0@
            &&& e.hunks@[i].lines@.len() == spec[i].1@.len()
            &&& forall|j: int|
                #![trigger e.hunks@[i].lines@[j]]
                0 <= j < spec[i].1@.len() ==> {
                    &&& e.hunks@[i].lines@[j].status == spec[i].1@[j].0
                    &&& (spec[i].1@[j].0 != LineStatus::Binary ==> loc_text(e, e.hunks@[i].lines@[j]) == spec[i].1@[j].1@)
                    &&& (spec[i].1@[j].0 == LineStatus::Binary ==> e.hunks@[i].lines@[j].line == 0)
                }
        }
}

/// Where a test line lands: the new version for added and context lines, the old one for
/// removed lines, both for context lines.
spec fn lands(status: LineStatus, line: usize, text: Seq<char>, old_lines: Seq<String>, new_lines: Seq<String>) -> bool {
    match status {
        LineStatus::Add | LineStatus::Context => 1 <= line <= new_lines.len() && new_lines[line - 1]@ == text,
        LineStatus::Remove => 1 <= line <= old_lines.len() && old_lines[line - 1]@ == text,
        LineStatus::Binary => line == 0,
    }
}

impl Delta {
    /// A diff of one file, `test.rs`, with the given hunks: each a header and its lines, each
    /// line a status and its text. Added lines go to the new version, removed ones to the old
    /// one, context lines to both; binary lines point nowhere.
    pub fn from_test_hunks(hunks: Vec<(&str, Vec<(LineStatus, String)>)>) -> (res: Delta)
        ensures
            res.entries@.len() == 1,
            res.entries@[0].path@ == "test.rs"@,
            shows_test_hunks(&res.entries@[0], hunks@),
            res.entries@[0].old@.colors.len() == 0,
            res.entries@[0].new@.colors.len() == 0,
    {
        let mut old_lines: Vec<String> = Vec::new();
        let mut new_lines: Vec<String> = Vec::new();
        let mut test_hunks: Vec<IHunk> = Vec::new();
        let mut i: usize = 0;
        while i < hunks.len()
            invariant
                i <= hunks@.len(),
                test_hunks@.len() == i,
                forall|a: int|
                    #![trigger test_hunks@[a]]
                    0 <= a < i ==> {
                        &&& test_hunks@[a].header@ == hunks@[a].0@
                        &&& test_hunks@[a].lines@.len() == hunks@[a].1@.len()
                        &&& forall|b: int|
                            #![trigger test_hunks@[a].lines@[b]]
                            0 <= b < hunks@[a].1@.len() ==> {
                                &&& test_hunks@[a].lines@[b].status == hunks@[a].1@[b].0
                                &&& lands(hunks@[a].1@[b].0, test_hunks@[a].lines@[b].line, hunks@[a].1@[b].1@, old_lines@, new_lines@)
                            }
                    },
            decreases hunks@.len() - i,
        {
            let lines = &hunks[i].1;
            let mut diff_locs: Vec<DiffLoc> = Vec::new();
            let mut j: usize = 0;
            let ghost old_before = old_lines@;
            let ghost new_before = new_lines@;
            while j < lines.len()
                invariant
                    i < hunks@.len(),
                    *lines == hunks@[i as int].1,
                    j <= lines@.len(),
                    diff_locs@.len() == j,
                    old_before.len() <= old_lines@.len(),
                    new_before.len() <= new_lines@.len(),
                    forall|k: int| 0 <= k < old_before.len() ==> #[trigger] old_lines@[k] == old_before[k],
                    forall|k: int| 0 <= k < new_before.len() ==> #[trigger] new_lines@[k] == new_before[k],
                    forall|b: int|
                        #![trigger diff_locs@[b]]
                        0 <= b < j ==> {
                            &&& diff_locs@[b].status == lines@[b].0
                            &&& lands(lines@[b].0, diff_locs@[b].line, lines@[b].1@, old_lines@, new_lines@)
                        },
                decreases lines@.len() - j,
            {
                let status = lines[j].0;
                let content = lines[j].1.clone();
                let line: usize = match status {
                    LineStatus::Add => {
                        new_lines.push(content);
                        new_lines.len()
                    },
                    LineStatus::Remove => {
                        old_lines.push(content);
                        old_lines.len()
                    },
                    LineStatus::Context => {
                        old_lines.push(content.clone());
                        new_lines.push(content);
                        new_lines.len()
                    },
                    LineStatus::Binary => 0,
                };
                diff_locs.push(DiffLoc { status, line });
                j += 1;
            }
            test_hunks.push(IHunk { header: hunks[i].0.to_owned(), lines: diff_locs });
            i += 1;
        }
        let old = Buffer::from_test_lines(&old_lines);
        let new = Buffer::from_test_lines(&new_lines);
        let entry = Entry { path: "test.rs".to_owned(), old, new, hunks: test_hunks };
        assert forall|a: int, b: int|
            0 <= a < hunks@.len() && 0 <= b < hunks@[a].1@.len() && hunks@[a].1@[b].0 != LineStatus::Binary implies
                loc_text(&entry, #[trigger] entry.hunks@[a].lines@[b]) == hunks@[a].1@[b].1@ by {
            let loc = entry.hunks@[a].lines@[b];
            assert(lands(hunks@[a].1@[b].0, loc.line, hunks@[a].1@[b].1@, old_lines@, new_lines@));
            if loc.status == LineStatus::Remove {
                assert(line_text(entry.old@, (loc.line - 1) + 1) == old_lines@[loc.line - 1]@);
            } else {
                assert(line_text(entry.new@, (loc.line - 1) + 1) == new_lines@[loc.line - 1]@);
            }
        }
        let mut entries: Vec<Entry> = Vec::new();
        entries.push(entry);
        Delta { entries }
    }
}

impl Entry {
    /// The hunks of this file, in order.
    pub fn hunks<'a>(&'a self) -> (res: Vec<Hunk<'a>>)
        ensures
            res@.len() == self.hunks@.len(),
            forall|i: int|
                #![trigger res@[i]]
                0 <= i < res@.len() ==> {
                    &&& res@[i].spec_entry() == self
                    &&& res@[i].spec_header() == self.hunks@[i].header@
                    &&& res@[i].spec_locs() == self.hunks@[i].lines@
                },
    {
        let mut res: Vec<Hunk<'a>> = Vec::new();
        let mut i: usize = 0;
        while i < self.hunks.len()
            invariant
                i <= self.hunks@.len(),
                res@.len() == i,
                forall|k: int|
                    0 <= k < i ==> {
                        &&& #[trigger] res@[k].entry == self
                        &&& res@[k].header@ == self.hunks@[k].header@
                        &&& res@[k].diff_locs@ == self.hunks@[k].lines@
                    },
            decreases self.hunks@.len() - i,
        {
            let ihunk = &self.hunks[i];
            res.push(Hunk { header: ihunk.header.as_str(), entry: self, diff_locs: ihunk.lines.as_slice() });
            i += 1;
        }
        res
    }
}

impl<'a> Hunk<'a> {
    /// The file this hunk belongs to.
    pub closed spec fn spec_entry(&self) -> &'a Entry {
        self.entry
    }

    /// The lines of this hunk.
    pub closed spec fn spec_locs(&self) -> Seq<DiffLoc> {
        self.diff_locs@
    }

    /// The header of this hunk.
    pub closed spec fn spec_header(&self) -> Seq<char> {
        self.header@
    }

    /// The hunk header, e.g. `@@ -1,3 +1,4 @@`.
    pub fn header(&self) -> (res: &str)
        ensures
            res@ == self.spec_header(),
    {
        self.header
    }

    /// How many of its lines are added or removed.
    pub fn critical(&self) -> (res: usize)
        ensures
            res == critical_count(self.spec_locs()),
    {
        let mut count: usize = 0;
        let mut i: usize = 0;
        while i < self.diff_locs.len()
            invariant
                i <= self.diff_locs@.len(),
                count == critical_count(self.diff_locs@.take(i as int)),
                count <= i,
            decreases self.diff_locs@.len() - i,
        {
            assert(self.diff_locs@.take(i as int + 1).drop_last() == self.diff_locs@.take(i as int));
            if self.diff_locs[i].status.is_critical() {
                count += 1;
            }
            i += 1;
        }
        assert(self.diff_locs@.take(self.diff_locs@.len() as int) == self.diff_locs@);
        count
    }

    /// The lines of this hunk, in order.
    pub fn lines(&self) -> (res: Vec<HunkLine<'a>>)
        ensures
            res@.len() == self.spec_locs().len(),
            forall|i: int|
                #![trigger res@[i]]
                0 <= i < res@.len() ==> {
                    &&& res@[i].spec_entry() == self.spec_entry()
                    &&& res@[i].spec_loc() == self.spec_locs()[i]
                },
    {
        let mut res: Vec<HunkLine<'a>> = Vec::new();
        let mut i: usize = 0;
        while i < self.diff_locs.len()
            invariant
                i <= self.diff_locs@.len(),
                res@.len() == i,
                forall|k: int|
                    0 <= k < i ==> {
                        &&& #[trigger] res@[k].entry == self.entry
                        &&& res@[k].diff_loc == self.diff_locs@[k]
                    },
            decreases self.diff_locs@.len() - i,
        {
            res.push(HunkLine { entry: self.entry, diff_loc: self.diff_locs[i] });
            i += 1;
        }
        res
    }
}

impl<'a> HunkLine<'a> {
    /// The file this line belongs to.
    pub closed spec fn spec_entry(&self) -> &'a Entry {
        self.entry
    }

    /// Where this line points.
    pub closed spec fn spec_loc(&self) -> DiffLoc {
        self.diff_loc
    }

    /// Whether the line was added, removed, kept or is binary.
    pub fn status(&self) -> (res: LineStatus)
        ensures
            res == self.spec_loc().status,
    {
        self.diff_loc.status
    }

    /// The text of the line.
    pub fn content(&self) -> (res: &'a str)
        ensures
            res@ == loc_text(self.spec_entry(), self.spec_loc()),
    {
        proof {
            reveal_strlit("");
        }
        match self.diff_loc.status {
            LineStatus::Add => self.entry.new.line(self.diff_loc.line),
            LineStatus::Remove => self.entry.old.line(self.diff_loc.line),
            LineStatus::Context => self.entry.new.line(self.diff_loc.line),
            LineStatus::Binary => "",
        }
    }

    /// The line as drawn (see [`loc_spans`]).
    pub fn highlight(&self) -> (res: Line)
        ensures
            res@ == loc_spans(self.spec_entry(), self.spec_loc()),
    {
        match self.diff_loc.status {
            LineStatus::Add => self.entry.new.highlight(self.diff_loc.line),
            LineStatus::Remove => self.entry.old.highlight(self.diff_loc.line),
            LineStatus::Context => self.entry.new.highlight(self.diff_loc.line),
            LineStatus::Binary => {
                let res = Line { spans: Vec::new() };
                assert(res@ =~= Seq::<SpanView>::empty());
                res
            },
        }
    }
}

/// A diff line of a file whose versions are not highlighted is drawn spelling its text: the
/// texts of the spans it is drawn with, one after another, are the text of the line it shows.
pub proof fn law_line_drawn_as_its_text(e: &Entry, loc: DiffLoc)
    requires
        e.old@.colors.len() == 0,
        e.new@.colors.len() == 0,
    ensures
        span_texts(loc_spans(e, loc)) == loc_text(e, loc),
{
    let b = match loc.status {
        LineStatus::Remove => e.old@,
        _ => e.new@,
    };
    let n = loc.line as int;
    assert(span_texts(Seq::<SpanView>::empty()) == Seq::<char>::empty());
    if loc.status != LineStatus::Binary {
        assert(loc_spans(e, loc) == highlight_spans(b, n));
        assert(loc_text(e, loc) == line_text(b, n));
        match line_bytes(b, n) {
            None => {},
            Some(bytes) => {
                if vstd::utf8::valid_utf8(bytes) && vstd::utf8::decode_utf8(bytes).len() > 0 {
                    let sp = highlight_spans(b, n);
                    assert(sp.len() == 1);
                    assert(sp.skip(1) == Seq::<SpanView>::empty());
                    assert(sp[0].content + Seq::<char>::empty() == sp[0].content);
                } else if vstd::utf8::valid_utf8(bytes) {
                    assert(vstd::utf8::decode_utf8(bytes) == Seq::<char>::empty());
                }
            },
        }
    }
}

} // verus!
