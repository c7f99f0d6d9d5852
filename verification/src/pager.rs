//! A pager over the text of a patch: the patch's lines, the files it touches, a scroll
//! position and the file it is in.
use vstd::prelude::*;

use crate::style::{Color, Line, Modifier, Span, SpanView, Style};
use crate::text::{chars_of, has_prefix, push_char, starts_with, string_of};
use crate::tui::action::KeyCode;
use crate::tui::theme::is_white_space;

verus! {

/// A piece of text without the carriage return that may end it.
pub open spec fn strip_cr(p: Seq<char>) -> Seq<char> {
    if p.len() > 0 && p.last() == '\r' {
        p.drop_last()
    } else {
        p
    }
}

/// The lines finished so far and the piece after the last newline.
pub open spec fn scan_lines(s: Seq<char>) -> (Seq<Seq<char>>, Seq<char>)
    decreases s.len(),
{
    if s.len() == 0 {
        (Seq::empty(), Seq::empty())
    } else {
        let (done, cur) = scan_lines(s.drop_last());
        if s.last() == '\n' {
            (done.push(strip_cr(cur)), Seq::empty())
        } else {
            (done, cur.push(s.last()))
        }
    }
}

/// The lines of a text as `str::lines` gives them: cut at each newline, a carriage return
/// before it dropped, a last line without newline kept unless it is empty.
pub open spec fn text_lines(s: Seq<char>) -> Seq<Seq<char>> {
    let (done, cur) = scan_lines(s);
    if cur.len() > 0 {
        done.push(cur)
    } else {
        done
    }
}

/// The words finished so far and the word being read.
pub open spec fn scan_words(s: Seq<char>) -> (Seq<Seq<char>>, Seq<char>)
    decreases s.len(),
{
    if s.len() == 0 {
        (Seq::empty(), Seq::empty())
    } else {
        let (done, cur) = scan_words(s.drop_last());
        if is_white_space(s.last()) {
            if cur.len() > 0 {
                (done.push(cur), Seq::empty())
            } else {
                (done, cur)
            }
        } else {
            (done, cur.push(s.last()))
        }
    }
}

/// The words of a text, as `str::split_whitespace` gives them.
pub open spec fn words(s: Seq<char>) -> Seq<Seq<char>> {
    let (done, cur) = scan_words(s);
    if cur.len() > 0 {
        done.push(cur)
    } else {
        done
    }
}

/// A text without every `b/` that starts it.
pub open spec fn trim_b(s: Seq<char>) -> Seq<char>
    decreases s.len(),
{
    if s.len() >= 2 && s[0] == 'b' && s[1] == '/' {
        trim_b(s.skip(2))
    } else {
        s
    }
}

/// The file a `diff --git a/<old> b/<new>` header names: its second word without the `b/`
/// prefixes, or, with fewer words, the whole rest of the header without them.
pub open spec fn section_name(rest: Seq<char>) -> Seq<char> {
    let w = words(rest);
    trim_b(if w.len() >= 2 { w[1] } else { rest })
}

/// The files a patch's headers name, with the index of each header line.
pub open spec fn header_sections(lines: Seq<Seq<char>>) -> Seq<(Seq<char>, int)>
    decreases lines.len(),
{
    if lines.len() == 0 {
        Seq::empty()
    } else {
        let prev = header_sections(lines.drop_last());
        let line = lines.last();
        if has_prefix(line, "diff --git "@) {
            prev.push((section_name(line.skip("diff --git "@.len() as int)), lines.len() - 1))
        } else {
            prev
        }
    }
}

/// The sections of a patch: one per file header; one section `Diff` from the top for a text
/// without headers; none for no text.
pub open spec fn spec_file_sections(lines: Seq<Seq<char>>) -> Seq<(Seq<char>, int)> {
    let found = header_sections(lines);
    if found.len() == 0 && lines.len() > 0 {
        seq![("Diff"@, 0int)]
    } else {
        found
    }
}

/// How a patch line is drawn: headers bold blue, hunk headers bold magenta, added lines green,
/// removed lines red, the rest plain.
pub open spec fn patch_line_style(line: Seq<char>) -> Style {
    let plain = Style { fg: None, bg: None, add_modifier: Modifier { bits: 0 } };
    if has_prefix(line, "diff --git"@) || has_prefix(line, "index "@) || has_prefix(line, "--- "@) || has_prefix(line, "+++ "@) {
        Style { fg: Some(Color::Blue), add_modifier: Modifier { bits: 1 }, ..plain }
    } else if has_prefix(line, "@@"@) {
        Style { fg: Some(Color::Magenta), add_modifier: Modifier { bits: 1 }, ..plain }
    } else if has_prefix(line, "+"@) {
        Style { fg: Some(Color::Green), ..plain }
    } else if has_prefix(line, "-"@) {
        Style { fg: Some(Color::Red), ..plain }
    } else {
        plain
    }
}

/// One file of the patch and the line its header is on.
#[derive(Debug, Clone)]
pub struct FileSection {
    pub name: String,
    pub start_line: usize,
}

/// The lines of a text (see [`text_lines`]).
pub fn lines_of(text: &str) -> (res: Vec<String>)
    ensures
        res@.map_values(|l: String| l@) == text_lines(text@),
{
    let cs = chars_of(text);
    let mut done: Vec<String> = Vec::new();
    let mut cur = String::new();
    let mut cur_len: usize = 0;
    let mut i: usize = 0;
    while i < cs.len()
        invariant
            cs@ == text@,
            i <= cs@.len(),
            cur_len == cur@.len(),
            cur_len <= i,
            (done@.map_values(|l: String| l@), cur@) == scan_lines(text@.take(i as int)),
        decreases cs@.len() - i,
    {
        let c = cs[i];
        assert(text@.take(i as int + 1).drop_last() =~= text@.take(i as int));
        if c == '\n' {
            let chars = chars_of(cur.as_str());
            let n = chars.len();
            let line = if n > 0 && chars[n - 1] == '\r' {
                string_of(&chars.as_slice()[0..n - 1])
            } else {
                string_of(chars.as_slice())
            };
            if n > 0 {
                assert(chars@.subrange(0, n - 1) =~= chars@.drop_last());
            }
            let ghost before = done@.map_values(|l: String| l@);
            done.push(line);
            assert(done@.map_values(|l: String| l@) =~= before.push(strip_cr(cur@)));
            cur = String::new();
            cur_len = 0;
        } else {
            push_char(&mut cur, c);
            cur_len = cur_len + 1;
        }
        i += 1;
    }
    assert(text@.take(cs@.len() as int) =~= text@);
    if cur_len > 0 {
        let ghost before = done@.map_values(|l: String| l@);
        let ghost c = cur@;
        done.push(cur);
        assert(done@.map_values(|l: String| l@) =~= before.push(c));
    }
    done
}

/// The words of a text (see [`words`]).
fn words_of(text: &[char]) -> (res: Vec<Vec<char>>)
    ensures
        res@.map_values(|w: Vec<char>| w@) == words(text@),
{
    let mut done: Vec<Vec<char>> = Vec::new();
    let mut cur: Vec<char> = Vec::new();
    let mut i: usize = 0;
    while i < text.len()
        invariant
            i <= text@.len(),
            (done@.map_values(|w: Vec<char>| w@), cur@) == scan_words(text@.take(i as int)),
        decreases text@.len() - i,
    {
        let c = text[i];
        assert(text@.take(i as int + 1).drop_last() =~= text@.take(i as int));
        if crate::tui::theme::white_space(c) {
            if cur.len() > 0 {
                let ghost before = done@.map_values(|w: Vec<char>| w@);
                let ghost word = cur@;
                done.push(cur);
                assert(done@.map_values(|w: Vec<char>| w@) =~= before.push(word));
                cur = Vec::new();
            }
        } else {
            cur.push(c);
        }
        i += 1;
    }
    assert(text@.take(text@.len() as int) =~= text@);
    if cur.len() > 0 {
        let ghost before = done@.map_values(|w: Vec<char>| w@);
        let ghost word = cur@;
        done.push(cur);
        assert(done@.map_values(|w: Vec<char>| w@) =~= before.push(word));
    }
    done
}

/// The file a header's rest names (see [`section_name`]).
fn section_name_of(rest: &[char]) -> (res: String)
    ensures
        res@ == section_name(rest@),
{
    let ws = words_of(rest);
    assert(ws@.len() >= 2 ==> ws@[1]@ == words(rest@)[1]);
    let name: &[char] = if ws.len() >= 2 {
        ws[1].as_slice()
    } else {
        rest
    };
    let ghost whole = name@;
    let mut k: usize = 0;
    assert(whole.skip(0) =~= whole);
    while name.len() - k >= 2 && name[k] == 'b' && name[k + 1] == '/'
        invariant
            whole == name@,
            k <= name@.len(),
            trim_b(whole) == trim_b(whole.skip(k as int)),
        decreases name@.len() - k,
    {
        assert(whole.skip(k as int).skip(2) =~= whole.skip(k as int + 2));
        k += 2;
    }
    let res = string_of(&name[k..name.len()]);
    assert(name@.subrange(k as int, name@.len() as int) =~= whole.skip(k as int));
    res
}

/// The sections of a patch (see [`spec_file_sections`]).
pub fn find_file_sections(lines: &[String]) -> (res: Vec<FileSection>)
    ensures
        res@.map_values(|f: FileSection| (f.name@, f.start_line as int)) == spec_file_sections(lines@.map_values(|l: String| l@)),
{
    let ghost all = lines@.map_values(|l: String| l@);
    let mut files: Vec<FileSection> = Vec::new();
    let mut i: usize = 0;
    while i < lines.len()
        invariant
            i <= lines@.len(),
            all == lines@.map_values(|l: String| l@),
            files@.map_values(|f: FileSection| (f.name@, f.start_line as int)) == header_sections(all.take(i as int)),
        decreases lines@.len() - i,
    {
        assert(all.take(i as int + 1).drop_last() =~= all.take(i as int));
        assert(all.take(i as int + 1).last() == lines@[i as int]@);
        let line = lines[i].as_str();
        if starts_with(line, "diff --git ") {
            let cs = chars_of(line);
            let plen = chars_of("diff --git ").len();
            let name = section_name_of(&cs.as_slice()[plen..cs.len()]);
            assert(cs@.subrange(plen as int, cs@.len() as int) =~= line@.skip("diff --git "@.len() as int));
            let ghost before = files@.map_values(|f: FileSection| (f.name@, f.start_line as int));
            let section = FileSection { name, start_line: i };
            files.push(section);
            assert(files@.map_values(|f: FileSection| (f.name@, f.start_line as int)) =~= before.push((section.name@, i as int)));
        }
        i += 1;
    }
    assert(all.take(lines@.len() as int) =~= all);
    if files.len() == 0 && lines.len() > 0 {
        let section = FileSection { name: "Diff".to_owned(), start_line: 0 };
        files.push(section);
        assert(files@.map_values(|f: FileSection| (f.name@, f.start_line as int)) =~= seq![("Diff"@, 0int)]);
    }
    files
}

/// A patch line as drawn (see [`patch_line_style`]).
pub fn styled_diff_line(line: &str) -> (res: Line)
    ensures
        res@ == seq![SpanView { content: line@, style: patch_line_style(line@) }],
{
    let style = if starts_with(line, "diff --git") || starts_with(line, "index ") || starts_with(line, "--- ")
        || starts_with(line, "+++ ") {
        Style::new().fg(Color::Blue).add_modifier(Modifier::bold())
    } else if starts_with(line, "@@") {
        Style::new().fg(Color::Magenta).add_modifier(Modifier::bold())
    } else if starts_with(line, "+") {
        Style::new().fg(Color::Green)
    } else if starts_with(line, "-") {
        Style::new().fg(Color::Red)
    } else {
        Style::new()
    };
    assert(0u16 | 1u16 == 1u16) by (bit_vector);
    let mut spans: Vec<Span> = Vec::new();
    spans.push(Span { content: line.to_owned(), style });
    let res = Line { spans };
    assert(res@ =~= seq![SpanView { content: line@, style: patch_line_style(line@) }]);
    res
}

/// The text shown when a patch is empty.
pub const NO_CHANGES: &'static str = "No changes to review.";

/// A patch's lines as drawn; a dark gray notice when there are none.
pub fn styled_diff_lines(lines: &[String]) -> (res: Vec<Line>)
    ensures
        lines@.len() == 0 ==> res@.map_values(|l: Line| l@) == seq![seq![SpanView { content: NO_CHANGES@, style: Style { fg: Some(Color::DarkGray), bg: None, add_modifier: Modifier { bits: 0 } } }]],
        lines@.len() > 0 ==> res@.map_values(|l: Line| l@) == lines@.map_values(|l: String| seq![SpanView { content: l@, style: patch_line_style(l@) }]),
{
    let mut out: Vec<Line> = Vec::new();
    if lines.len() == 0 {
        let mut spans: Vec<Span> = Vec::new();
        spans.push(Span { content: NO_CHANGES.to_owned(), style: Style::new().fg(Color::DarkGray) });
        let l = Line { spans };
        assert(l@ =~= seq![SpanView { content: NO_CHANGES@, style: Style { fg: Some(Color::DarkGray), bg: None, add_modifier: Modifier { bits: 0 } } }]);
        out.push(l);
        assert(out@.map_values(|l: Line| l@) =~= seq![seq![SpanView { content: NO_CHANGES@, style: Style { fg: Some(Color::DarkGray), bg: None, add_modifier: Modifier { bits: 0 } } }]]);
        return out;
    }
    let mut i: usize = 0;
    while i < lines.len()
        invariant
            i <= lines@.len(),
            out@.map_values(|l: Line| l@) == lines@.take(i as int).map_values(|l: String| seq![SpanView { content: l@, style: patch_line_style(l@) }]),
        decreases lines@.len() - i,
    {
        let ghost before = out@.map_values(|l: Line| l@);
        let l = styled_diff_line(lines[i].as_str());
        out.push(l);
        assert(out@.map_values(|l: Line| l@) =~= before.push(l@));
        assert(lines@.take(i as int + 1) =~= lines@.take(i as int).push(lines@[i as int]));
        assert(out@.map_values(|l: Line| l@) =~= lines@.take(i as int + 1).map_values(|l: String| seq![SpanView { content: l@, style: patch_line_style(l@) }]));
        i += 1;
    }
    assert(lines@.take(lines@.len() as int) =~= lines@);
    out
}

/// The last section that starts at or before line `scroll`.
pub open spec fn last_section_at(files: Seq<FileSection>, scroll: int) -> Option<int>
    decreases files.len(),
{
    if files.len() == 0 {
        None
    } else if files.last().start_line <= scroll {
        Some(files.len() - 1)
    } else {
        last_section_at(files.drop_last(), scroll)
    }
}

/// The file shown once the view is at line `scroll`: the last section starting at or before
/// it, else the file shown before.
pub open spec fn synced_file(files: Seq<FileSection>, scroll: int, selected: usize) -> usize {
    match last_section_at(files, scroll) {
        Some(k) => k as usize,
        None => selected,
    }
}

/// The scroll that puts a line at the top, as far as a `u16` reaches.
pub open spec fn scroll_to(line: int) -> u16 {
    if line <= u16::MAX { line as u16 } else { u16::MAX }
}

/// The pager after scrolling `amount` lines down, no further than a `u16` reaches, in the file
/// it then shows.
pub open spec fn pager_scroll_down(a: App, amount: u16) -> App {
    let scroll = scroll_to(a.scroll + amount);
    App { scroll, selected_file: synced_file(a.files@, scroll as int, a.selected_file), ..a }
}

/// The pager after scrolling `amount` lines up, no further than the top, in the file it then
/// shows.
pub open spec fn pager_scroll_up(a: App, amount: u16) -> App {
    let scroll = (if a.scroll >= amount { a.scroll - amount } else { 0 }) as u16;
    App { scroll, selected_file: synced_file(a.files@, scroll as int, a.selected_file), ..a }
}

/// Scrolling back up by as many lines as were scrolled down, when no limit was hit, returns to
/// the same line and, when the view was in the file it shows, the same file.
pub proof fn law_pager_scroll_round_trip(a: App, amount: u16)
    requires
        a.scroll + amount <= u16::MAX,
        last_section_at(a.files@, a.scroll as int) == Some(a.selected_file as int),
    ensures
        pager_scroll_up(pager_scroll_down(a, amount), amount) == a,
{
}

/// Rows a page key scrolls.
pub const PAGER_PAGE: u16 = 20;

/// The pager's title when the patch is empty.
pub const TITLE_EMPTY: &'static str = "Diff - no changes";
/// The pager's title, listing its keys.
pub const TITLE_KEYS: &'static str = "Diff - q quit · j/k scroll · n/p files · g/G top/bottom";

/// The pager over a patch.
#[derive(Debug)]
pub struct App {
    /// The patch's lines.
    pub lines: Vec<String>,
    /// The files it touches.
    pub files: Vec<FileSection>,
    /// The file the view is in.
    pub selected_file: usize,
    /// The first line shown.
    pub scroll: u16,
    /// The pager should stop.
    pub should_quit: bool,
}

impl App {
    /// A pager at the top of `diff`, in its first file.
    pub fn new(diff: String) -> (res: App)
        ensures
            res.lines@.map_values(|l: String| l@) == text_lines(diff@),
            res.files@.map_values(|f: FileSection| (f.name@, f.start_line as int)) == spec_file_sections(text_lines(diff@)),
            res.selected_file == 0,
            res.scroll == 0,
            !res.should_quit,
    {
        let lines = lines_of(diff.as_str());
        let files = find_file_sections(lines.as_slice());
        App { lines, files, selected_file: 0, scroll: 0, should_quit: false }
    }

    /// The last section that starts at or before line `scroll` (see [`last_section_at`]).
    fn section_at(&self, scroll: usize) -> (res: Option<usize>)
        ensures
            match last_section_at(self.files@, scroll as int) {
                Some(k) => res == Some(k as usize),
                None => res is None,
            },
    {
        let mut i: usize = self.files.len();
        assert(self.files@.take(i as int) =~= self.files@);
        while i > 0
            invariant
                i <= self.files@.len(),
                last_section_at(self.files@, scroll as int) == last_section_at(self.files@.take(i as int), scroll as int),
            decreases i,
        {
            assert(self.files@.take(i as int).drop_last() =~= self.files@.take(i as int - 1));
            if self.files[i - 1].start_line <= scroll {
                return Some(i - 1);
            }
            i -= 1;
        }
        None
    }

    /// Puts the view in the file it shows (see [`synced_file`]).
    pub fn sync_selected_file_to_scroll(&mut self)
        ensures
            *final(self) == (App { selected_file: synced_file(old(self).files@, old(self).scroll as int, old(self).selected_file), ..*old(self) }),
    {
        match self.section_at(self.scroll as usize) {
            Some(index) => { self.selected_file = index; },
            None => {},
        }
    }

    /// Scrolls to the start of the selected file, when there is such a file.
    pub fn jump_to_selected_file(&mut self)
        ensures
            old(self).selected_file < old(self).files@.len() ==> *final(self) == (App { scroll: scroll_to(old(self).files@[old(self).selected_file as int].start_line as int), ..*old(self) }),
            old(self).selected_file >= old(self).files@.len() ==> *final(self) == *old(self),
    {
        if self.selected_file < self.files.len() {
            let start = self.files[self.selected_file].start_line;
            self.scroll = if start <= 65535 { start as u16 } else { 65535 };
        }
    }

    /// The next file, at its start, when there is one.
    pub fn next_file(&mut self)
        requires
            old(self).selected_file < usize::MAX,
        ensures
            old(self).selected_file + 1 < old(self).files@.len() ==> *final(self) == (App {
                selected_file: (old(self).selected_file + 1) as usize,
                scroll: scroll_to(old(self).files@[old(self).selected_file + 1].start_line as int),
                ..*old(self)
            }),
            old(self).selected_file + 1 >= old(self).files@.len() ==> *final(self) == *old(self),
    {
        if self.selected_file + 1 < self.files.len() {
            self.selected_file = self.selected_file + 1;
            self.jump_to_selected_file();
        }
    }

    /// The previous file, at its start, when there is one.
    pub fn previous_file(&mut self)
        ensures
            old(self).selected_file > 0 && old(self).selected_file - 1 < old(self).files@.len() ==> *final(self) == (App {
                selected_file: (old(self).selected_file - 1) as usize,
                scroll: scroll_to(old(self).files@[old(self).selected_file - 1].start_line as int),
                ..*old(self)
            }),
            old(self).selected_file > 0 && old(self).selected_file - 1 >= old(self).files@.len() ==> *final(self) == (App {
                selected_file: (old(self).selected_file - 1) as usize,
                ..*old(self)
            }),
            old(self).selected_file == 0 ==> *final(self) == *old(self),
    {
        if self.selected_file > 0 {
            self.selected_file = self.selected_file - 1;
            self.jump_to_selected_file();
        }
    }

    /// Scrolls `amount` lines down, no further than a `u16` reaches, and follows the file.
    pub fn scroll_down(&mut self, amount: u16)
        ensures
            *final(self) == pager_scroll_down(*old(self), amount),
    {
        self.scroll = self.scroll.saturating_add(amount);
        self.sync_selected_file_to_scroll();
    }

    /// Scrolls `amount` lines up, no further than the top, and follows the file.
    pub fn scroll_up(&mut self, amount: u16)
        ensures
            *final(self) == pager_scroll_up(*old(self), amount),
    {
        self.scroll = self.scroll.saturating_sub(amount);
        self.sync_selected_file_to_scroll();
    }

    /// Handles a key: `q` or Esc quits; `j`/Down and `k`/Up scroll a line, `d`/PageDown and
    /// `u`/PageUp a page; `g`/Home goes to the top and the first file; `G`/End to the last
    /// line; `n`/Tab and `p`/BackTab change files; other keys do nothing.
    pub fn handle_key(&mut self, key: KeyCode)
        requires
            old(self).selected_file < usize::MAX,
        ensures
            final(self).lines == old(self).lines,
            final(self).files == old(self).files,
            final(self).should_quit == (old(self).should_quit || key == KeyCode::Char('q') || key == KeyCode::Esc),
            (key == KeyCode::Char('g') || key == KeyCode::Home) ==> final(self).scroll == 0 && final(self).selected_file == 0,
            (key == KeyCode::Char('G') || key == KeyCode::End) ==> ({
                let last = if old(self).lines@.len() >= 1 { old(self).lines@.len() - 1 } else { 0 };
                &&& final(self).scroll == scroll_to(last)
                &&& final(self).selected_file == synced_file(old(self).files@, final(self).scroll as int, old(self).selected_file)
            }),
            (key == KeyCode::Char('j') || key == KeyCode::Down) ==> final(self).scroll == scroll_to(old(self).scroll + 1)
                && final(self).selected_file == synced_file(old(self).files@, final(self).scroll as int, old(self).selected_file),
            (key == KeyCode::Char('k') || key == KeyCode::Up) ==> final(self).scroll == (if old(self).scroll >= 1 { old(self).scroll - 1 } else { 0 })
                && final(self).selected_file == synced_file(old(self).files@, final(self).scroll as int, old(self).selected_file),
            (key == KeyCode::Char('d') || key == KeyCode::PageDown) ==> final(self).scroll == scroll_to(old(self).scroll + 20)
                && final(self).selected_file == synced_file(old(self).files@, final(self).scroll as int, old(self).selected_file),
            (key == KeyCode::Char('u') || key == KeyCode::PageUp) ==> final(self).scroll == (if old(self).scroll >= 20 { old(self).scroll - 20 } else { 0 })
                && final(self).selected_file == synced_file(old(self).files@, final(self).scroll as int, old(self).selected_file),
            (key == KeyCode::Char('n') || key == KeyCode::Tab) ==> ({
                let next = old(self).selected_file + 1;
                if next < old(self).files@.len() {
                    final(self).selected_file == next && final(self).scroll == scroll_to(old(self).files@[next].start_line as int)
                } else {
                    final(self).selected_file == old(self).selected_file && final(self).scroll == old(self).scroll
                }
            }),
            (key == KeyCode::Char('p') || key == KeyCode::BackTab) ==> ({
                let sel = old(self).selected_file;
                if sel == 0 {
                    final(self).selected_file == sel && final(self).scroll == old(self).scroll
                } else if sel - 1 < old(self).files@.len() {
                    final(self).selected_file == sel - 1 && final(self).scroll == scroll_to(old(self).files@[sel - 1].start_line as int)
                } else {
                    final(self).selected_file == sel - 1 && final(self).scroll == old(self).scroll
                }
            }),
            !(key == KeyCode::Char('q') || key == KeyCode::Esc || key == KeyCode::Char('j') || key == KeyCode::Down
                || key == KeyCode::Char('k') || key == KeyCode::Up || key == KeyCode::Char('d') || key == KeyCode::PageDown
                || key == KeyCode::Char('u') || key == KeyCode::PageUp || key == KeyCode::Char('g') || key == KeyCode::Home
                || key == KeyCode::Char('G') || key == KeyCode::End || key == KeyCode::Char('n') || key == KeyCode::Tab
                || key == KeyCode::Char('p') || key == KeyCode::BackTab) ==> *final(self) == *old(self),
            (key == KeyCode::Char('q') || key == KeyCode::Esc) ==> final(self).scroll == old(self).scroll
                && final(self).selected_file == old(self).selected_file,
    {
        match key {
            KeyCode::Char('q') | KeyCode::Esc => { self.should_quit = true; },
            KeyCode::Char('j') | KeyCode::Down => self.scroll_down(1),
            KeyCode::Char('k') | KeyCode::Up => self.scroll_up(1),
            KeyCode::Char('d') | KeyCode::PageDown => self.scroll_down(PAGER_PAGE),
            KeyCode::Char('u') | KeyCode::PageUp => self.scroll_up(PAGER_PAGE),
            KeyCode::Char('g') | KeyCode::Home => {
                self.scroll = 0;
                self.selected_file = 0;
            },
            KeyCode::Char('G') | KeyCode::End => {
                let last = self.lines.len().saturating_sub(1);
                self.scroll = if last <= 65535 { last as u16 } else { 65535 };
                self.sync_selected_file_to_scroll();
            },
            KeyCode::Char('n') | KeyCode::Tab => self.next_file(),
            KeyCode::Char('p') | KeyCode::BackTab => self.previous_file(),
            _ => {},
        }
    }

    /// The title over the patch.
    pub fn title(&self) -> (res: &'static str)
        ensures
            res@ == (if self.lines@.len() == 0 { TITLE_EMPTY@ } else { TITLE_KEYS@ }),
    {
        if self.lines.len() == 0 {
            TITLE_EMPTY
        } else {
            TITLE_KEYS
        }
    }

    /// The row the file list highlights: the selected file, when there are files.
    pub fn list_selection(&self) -> (res: Option<usize>)
        ensures
            res == (if self.files@.len() > 0 { Some(self.selected_file) } else { None::<usize> }),
    {
        if self.files.len() > 0 {
            Some(self.selected_file)
        } else {
            None
        }
    }
}

/// What a line of a printed patch is.
#[derive(Debug, Clone, Copy, PartialEq, Eq, Structural)]
pub enum PatchLineKind {
    Context,
    Addition,
    Deletion,
    ContextEofnl,
    AddEofnl,
    DeleteEofnl,
    FileHeader,
    HunkHeader,
    Binary,
}

/// The text `String::from_utf8_lossy` makes of bytes.
pub uninterp spec fn lossy_text(bytes: Seq<u8>) -> Seq<char>;

/// `String::from_utf8_lossy`: the text of the bytes, each invalid sequence read as U+FFFD;
/// valid UTF-8 reads as what it encodes.
#[verifier::external_body]
fn utf8_lossy(bytes: &[u8]) -> (res: String)
    ensures
        res@ == lossy_text(bytes@),
        vstd::utf8::valid_utf8(bytes@) ==> res@ == vstd::utf8::decode_utf8(bytes@),
{
    String::from_utf8_lossy(bytes).into_owned()
}

/// The mark a patch line starts with: its origin for context, added and removed lines, a
/// backslash for "no newline" markers, nothing for headers and binary notes.
pub open spec fn spec_patch_prefix(kind: PatchLineKind, origin: char) -> Option<char> {
    match kind {
        PatchLineKind::Context | PatchLineKind::Addition | PatchLineKind::Deletion => Some(origin),
        PatchLineKind::ContextEofnl | PatchLineKind::AddEofnl | PatchLineKind::DeleteEofnl => Some('\\'),
        _ => None,
    }
}

/// The text a patch line adds to the patch: its mark (see [`spec_patch_prefix`]), then its
/// content.
pub open spec fn patch_line_text(kind: PatchLineKind, origin: char, content: Seq<char>) -> Seq<char> {
    match spec_patch_prefix(kind, origin) {
        Some(c) => seq![c] + content,
        None => content,
    }
}

/// Appends a patch line, its content given as text, to `out` (see [`patch_line_text`]).
pub fn push_patch_line(out: &mut String, kind: PatchLineKind, origin: char, content: &str)
    ensures
        final(out)@ == old(out)@ + patch_line_text(kind, origin, content@),
{
    let prefix: Option<char> = match kind {
        PatchLineKind::Context | PatchLineKind::Addition | PatchLineKind::Deletion => Some(origin),
        PatchLineKind::ContextEofnl | PatchLineKind::AddEofnl | PatchLineKind::DeleteEofnl => Some('\\'),
        _ => None,
    };
    let ghost start = out@;
    if let Some(c) = prefix {
        push_char(out, c);
    }
    let ghost marked = out@;
    let chars = chars_of(content);
    let mut k: usize = 0;
    while k < chars.len()
        invariant
            chars@ == content@,
            k <= chars@.len(),
            out@ == marked + chars@.take(k as int),
        decreases chars@.len() - k,
    {
        push_char(out, chars[k]);
        assert(chars@.take(k as int + 1) =~= chars@.take(k as int).push(chars@[k as int]));
        k += 1;
    }
    assert(chars@.take(chars@.len() as int) =~= chars@);
    proof {
        match spec_patch_prefix(kind, origin) {
            Some(c) => {
                assert(marked =~= start.push(c));
                assert(out@ =~= start + (seq![c] + content@));
            },
            None => {
                assert(marked =~= start);
            },
        }
    }
}

/// Appends a printed patch line to `out`: its mark, then its content read as UTF-8, invalid
/// sequences replaced (see [`patch_line_text`] and [`lossy_text`]).
pub fn append_patch_line(out: &mut String, kind: PatchLineKind, origin: char, content: &[u8])
    ensures
        final(out)@ == old(out)@ + patch_line_text(kind, origin, lossy_text(content@)),
{
    let text = utf8_lossy(content);
    push_patch_line(out, kind, origin, text.as_str());
}

} // verus!
