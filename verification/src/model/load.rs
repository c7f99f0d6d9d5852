//! Building the model from the lines a diff printer emits, and choosing the default branch.
use vstd::prelude::*;

use crate::buf::{empty_buffer, Buffer, BufferView};
use crate::model::{DiffLoc, Entry, EntryView, IHunk, IHunkView, LineStatus};
use crate::text::{chars_eq, chars_of, decoded_or_empty, has_prefix, string_of, utf8_str};
use vstd::string::{StrSliceExecFns, StringExecFns};

verus! {

/// What a diff printer reports, one line of the patch at a time.
pub enum DiffEvent {
    /// A line of a hunk: its kind, and its line numbers in the new and the old version.
    Line { status: LineStatus, new_lineno: Option<u32>, old_lineno: Option<u32> },
    /// A file starts: the path of its new version, and its two versions, each `None` when it
    /// could be loaded neither from the repository nor from the working tree.
    FileHeader { path: Option<String>, old: Option<Buffer>, new: Option<Buffer> },
    /// A hunk starts; `content` is its header line.
    HunkHeader { content: Vec<u8> },
    /// A "no newline at end of file" marker.
    NoNewline,
}

/// Why a file could not be collected.
#[derive(Debug, Clone, Copy, PartialEq, Eq, Structural)]
pub enum CollectError {
    /// The old version of the file could not be loaded.
    OldFileMissing,
    /// The new version of the file could not be loaded.
    NewFileMissing,
}

/// Gathers the files of a diff from the printer's events.
pub struct PrintCollector {
    entries: Vec<Entry>,
    hunk: IHunk,
    hunks: Vec<IHunk>,
    name: Option<String>,
    new: Buffer,
    old: Buffer,
}

/// The mathematical value of a [`PrintCollector`].
pub struct CollectorView {
    /// The files finished so far.
    pub entries: Seq<EntryView>,
    /// The hunk being filled.
    pub hunk: IHunkView,
    /// The finished hunks of the current file.
    pub hunks: Seq<IHunkView>,
    /// The path of the current file, once a file started.
    pub name: Option<Seq<char>>,
    /// The versions of the current file.
    pub old: BufferView,
    pub new: BufferView,
}

impl View for PrintCollector {
    type V = CollectorView;

    closed spec fn view(&self) -> CollectorView {
        CollectorView {
            entries: self.entries@.map_values(|e: Entry| e@),
            hunk: self.hunk@,
            hunks: self.hunks@.map_values(|h: IHunk| h@),
            name: match self.name {
                Some(n) => Some(n@),
                None => None,
            },
            old: self.old@,
            new: self.new@,
        }
    }
}

/// A hunk with no header and no lines.
pub open spec fn empty_hunk() -> IHunkView {
    IHunkView { header: Seq::empty(), lines: Seq::empty() }
}

/// A collector that saw nothing.
pub open spec fn fresh_collector() -> CollectorView {
    CollectorView {
        entries: Seq::empty(),
        hunk: empty_hunk(),
        hunks: Seq::empty(),
        name: None,
        old: empty_buffer(),
        new: empty_buffer(),
    }
}

/// The hunks of the current file, the hunk being filled included when it has lines.
pub open spec fn closed_hunks(c: CollectorView) -> Seq<IHunkView> {
    if c.hunk.lines.len() > 0 {
        c.hunks.push(c.hunk)
    } else {
        c.hunks
    }
}

/// The current file, if one started, is finished: its hunks and versions become an entry.
/// A hunk being filled is closed when it has lines; one without lines is kept as it is.
pub open spec fn flush_entry(c: CollectorView) -> CollectorView {
    match c.name {
        Some(name) => CollectorView {
            entries: c.entries.push(EntryView { path: name, old: c.old, new: c.new, hunks: closed_hunks(c) }),
            hunk: if c.hunk.lines.len() > 0 { empty_hunk() } else { c.hunk },
            hunks: Seq::empty(),
            old: empty_buffer(),
            new: empty_buffer(),
            ..c
        },
        None => c,
    }
}

/// The line number a diff line points at: its new one, else its old one, else 0.
pub open spec fn event_lineno(new_lineno: Option<u32>, old_lineno: Option<u32>) -> usize {
    match new_lineno {
        Some(n) => n as usize,
        None => match old_lineno {
            Some(o) => o as usize,
            None => 0,
        },
    }
}

/// What one event does to the collector, and whether it failed.
pub open spec fn collect_step(c: CollectorView, ev: DiffEvent) -> (CollectorView, Result<(), CollectError>) {
    match ev {
        DiffEvent::Line { status, new_lineno, old_lineno } => {
            let loc = DiffLoc { status, line: event_lineno(new_lineno, old_lineno) };
            (CollectorView { hunk: IHunkView { lines: c.hunk.lines.push(loc), ..c.hunk }, ..c }, Ok(()))
        },
        DiffEvent::FileHeader { path, old, new } => {
            let started = CollectorView {
                name: match path {
                    Some(p) => Some(p@),
                    None => None,
                },
                ..flush_entry(c)
            };
            match old {
                None => (started, Err(CollectError::OldFileMissing)),
                Some(o) => {
                    let with_old = CollectorView { old: o@, ..started };
                    match new {
                        None => (with_old, Err(CollectError::NewFileMissing)),
                        Some(n) => (CollectorView { new: n@, ..with_old }, Ok(())),
                    }
                },
            }
        },
        DiffEvent::HunkHeader { content } => (
            CollectorView {
                hunks: closed_hunks(c),
                hunk: IHunkView { header: decoded_or_empty(content@), lines: Seq::empty() },
                ..c
            },
            Ok(()),
        ),
        DiffEvent::NoNewline => (c, Ok(())),
    }
}

/// The files collected once the events are over: the current file is added when it has hunks.
pub open spec fn finalized(c: CollectorView) -> Seq<EntryView> {
    if (c.hunk.lines.len() > 0 || c.hunks.len() > 0) && c.name is Some {
        c.entries.push(EntryView { path: c.name->0, old: c.old, new: c.new, hunks: closed_hunks(c) })
    } else {
        c.entries
    }
}

/// A file reported with both versions, then a hunk header and one line, is collected as one
/// entry: the file's path and versions, and one hunk with that header and that line.
pub proof fn law_collect_one_line(
    path: String,
    old: Buffer,
    new: Buffer,
    header: Vec<u8>,
    status: LineStatus,
    new_lineno: Option<u32>,
    old_lineno: Option<u32>,
)
    ensures
        ({
            let c1 = collect_step(fresh_collector(), DiffEvent::FileHeader { path: Some(path), old: Some(old), new: Some(new) });
            let c2 = collect_step(c1.0, DiffEvent::HunkHeader { content: header });
            let c3 = collect_step(c2.0, DiffEvent::Line { status, new_lineno, old_lineno });
            &&& c1.1 is Ok && c2.1 is Ok && c3.1 is Ok
            &&& finalized(c3.0) == seq![EntryView {
                path: path@,
                old: old@,
                new: new@,
                hunks: seq![IHunkView {
                    header: decoded_or_empty(header@),
                    lines: seq![DiffLoc { status, line: event_lineno(new_lineno, old_lineno) }],
                }],
            }]
        }),
{
    let c1 = collect_step(fresh_collector(), DiffEvent::FileHeader { path: Some(path), old: Some(old), new: Some(new) });
    let c2 = collect_step(c1.0, DiffEvent::HunkHeader { content: header });
    let c3 = collect_step(c2.0, DiffEvent::Line { status, new_lineno, old_lineno });
    assert(c2.0.hunks =~= Seq::<IHunkView>::empty());
    assert(c3.0.hunk.lines =~= seq![DiffLoc { status, line: event_lineno(new_lineno, old_lineno) }]);
    assert(closed_hunks(c3.0) =~= seq![c3.0.hunk]);
    assert(finalized(c3.0) =~= seq![EntryView { path: path@, old: old@, new: new@, hunks: closed_hunks(c3.0) }]);
}

/// The collector after the events, taken in order from `c`, whatever each step reported.
pub open spec fn collect_all(c: CollectorView, events: Seq<DiffEvent>) -> CollectorView
    decreases events.len(),
{
    if events.len() == 0 {
        c
    } else {
        collect_step(collect_all(c, events.drop_last()), events.last()).0
    }
}

/// Every hunk in `hs` has at least one line.
pub open spec fn hunks_have_lines(hs: Seq<IHunkView>) -> bool {
    forall|k: int| 0 <= k < hs.len() ==> (#[trigger] hs[k]).lines.len() > 0
}

/// Every closed hunk of the collector, finished files' hunks included, has a line.
spec fn closed_hunks_have_lines(c: CollectorView) -> bool {
    &&& hunks_have_lines(c.hunks)
    &&& forall|i: int| 0 <= i < c.entries.len() ==> hunks_have_lines((#[trigger] c.entries[i]).hunks)
}

/// Closing the hunk being filled keeps every closed hunk with a line.
proof fn lemma_closed_hunks_have_lines(c: CollectorView)
    requires
        hunks_have_lines(c.hunks),
    ensures
        hunks_have_lines(closed_hunks(c)),
{
    if c.hunk.lines.len() > 0 {
        assert forall|k: int| 0 <= k < closed_hunks(c).len() implies (#[trigger] closed_hunks(c)[k]).lines.len() > 0 by {
            if k < c.hunks.len() {
                assert(closed_hunks(c)[k] == c.hunks[k]);
            }
        }
    }
}

/// One event keeps every closed hunk with a line.
proof fn lemma_step_keeps_lines(c: CollectorView, ev: DiffEvent)
    requires
        closed_hunks_have_lines(c),
    ensures
        closed_hunks_have_lines(collect_step(c, ev).0),
{
    lemma_closed_hunks_have_lines(c);
    match ev {
        DiffEvent::FileHeader { .. } => {
            let f = flush_entry(c);
            if c.name is Some {
                assert forall|i: int| 0 <= i < f.entries.len() implies hunks_have_lines((#[trigger] f.entries[i]).hunks) by {
                    if i < c.entries.len() {
                        assert(f.entries[i] == c.entries[i]);
                    }
                }
                assert(hunks_have_lines(f.hunks));
            }
        },
        _ => {},
    }
}

/// Every hunk of the files collected from a fresh collector has at least one line, whatever
/// the events were: a hunk header followed by no line adds no hunk.
pub proof fn law_finalized_hunks_have_lines(events: Seq<DiffEvent>)
    ensures
        ({
            let files = finalized(collect_all(fresh_collector(), events));
            forall|i: int| 0 <= i < files.len() ==> hunks_have_lines(#[trigger] files[i].hunks)
        }),
{
    lemma_collect_all_keeps_lines(events);
    let c = collect_all(fresh_collector(), events);
    lemma_closed_hunks_have_lines(c);
    let files = finalized(c);
    assert forall|i: int| 0 <= i < files.len() implies hunks_have_lines(#[trigger] files[i].hunks) by {
        if i < c.entries.len() {
            assert(files[i] == c.entries[i]);
        }
    }
}

/// Every collector reached from a fresh one keeps every closed hunk with a line.
proof fn lemma_collect_all_keeps_lines(events: Seq<DiffEvent>)
    ensures
        closed_hunks_have_lines(collect_all(fresh_collector(), events)),
    decreases events.len(),
{
    if events.len() > 0 {
        lemma_collect_all_keeps_lines(events.drop_last());
        lemma_step_keeps_lines(collect_all(fresh_collector(), events.drop_last()), events.last());
    }
}

/// A line of a hunk is collected with the line number it has in the new version when it has
/// one (added and context lines), else the one it has in the old version (removed lines), else
/// 0; it is added after the lines collected before it, with its kind, and the event never fails.
pub proof fn law_line_numbers(c: CollectorView, status: LineStatus, new_lineno: Option<u32>, old_lineno: Option<u32>)
    ensures
        ({
            let (next, res) = collect_step(c, DiffEvent::Line { status, new_lineno, old_lineno });
            let loc = next.hunk.lines.last();
            &&& res is Ok
            &&& next.hunk.lines.len() == c.hunk.lines.len() + 1
            &&& next.hunk.lines.drop_last() == c.hunk.lines
            &&& loc.status == status
            &&& (new_lineno matches Some(n) ==> loc.line == n)
            &&& (new_lineno is None ==> (old_lineno matches Some(o) ==> loc.line == o))
            &&& (new_lineno is None && old_lineno is None ==> loc.line == 0)
            &&& next.entries == c.entries && next.hunks == c.hunks && next.hunk.header == c.hunk.header
        }),
{
    let next = collect_step(c, DiffEvent::Line { status, new_lineno, old_lineno }).0;
    assert(next.hunk.lines.drop_last() == c.hunk.lines);
}

impl PrintCollector {
    /// A collector that saw nothing.
    pub fn new() -> (res: PrintCollector)
        ensures
            res@ == fresh_collector(),
    {
        let res = PrintCollector {
            entries: Vec::new(),
            hunk: IHunk { header: String::new(), lines: Vec::new() },
            hunks: Vec::new(),
            name: None,
            new: Buffer::new(),
            old: Buffer::new(),
        };
        assert(res@.entries =~= Seq::<EntryView>::empty());
        assert(res@.hunks =~= Seq::<IHunkView>::empty());
        assert(res@.hunk.lines =~= Seq::<DiffLoc>::empty());
        assert(res@.hunk.header =~= Seq::<char>::empty());
        res
    }

    /// Moves the hunk being filled out, leaving an empty one.
    fn take_hunk(&mut self) -> (res: IHunk)
        ensures
            res@ == old(self)@.hunk,
            final(self)@ == (CollectorView { hunk: empty_hunk(), ..old(self)@ }),
    {
        let mut h = IHunk { header: String::new(), lines: Vec::new() };
        std::mem::swap(&mut h, &mut self.hunk);
        assert(self@.hunk =~= empty_hunk());
        h
    }

    /// Closes the hunk being filled when it has lines.
    fn close_hunk(&mut self)
        ensures
            final(self)@ == (CollectorView {
                hunks: closed_hunks(old(self)@),
                hunk: if old(self)@.hunk.lines.len() > 0 { empty_hunk() } else { old(self)@.hunk },
                ..old(self)@
            }),
    {
        if !self.hunk.lines.is_empty() {
            let h = self.take_hunk();
            let ghost before = self@;
            self.hunks.push(h);
            assert(self@.hunks =~= before.hunks.push(h@));
        }
    }

    /// Finishes the current file, if one started (see [`flush_entry`]).
    fn flush(&mut self)
        ensures
            final(self)@ == flush_entry(old(self)@),
    {
        let path = match &self.name {
            Some(n) => n.clone(),
            None => { return; },
        };
        self.close_hunk();
        let mut hunks: Vec<IHunk> = Vec::new();
        std::mem::swap(&mut hunks, &mut self.hunks);
        let old = self.old.take();
        let new = self.new.take();
        let ghost before = self@;
        let entry = Entry { path, old, new, hunks };
        self.entries.push(entry);
        assert(self@.entries =~= before.entries.push(entry@));
        assert(self@.hunks =~= Seq::<IHunkView>::empty());
    }

    /// Takes in one event of the printer (see [`collect_step`]).
    pub fn collect(&mut self, event: DiffEvent) -> (res: Result<(), CollectError>)
        ensures
            (final(self)@, res) == collect_step(old(self)@, event),
    {
        match event {
            DiffEvent::Line { status, new_lineno, old_lineno } => {
                let line: usize = match new_lineno {
                    Some(n) => n as usize,
                    None => match old_lineno {
                        Some(o) => o as usize,
                        None => 0,
                    },
                };
                self.hunk.lines.push(DiffLoc { status, line });
                Ok(())
            },
            DiffEvent::FileHeader { path, old, new } => {
                self.flush();
                self.name = path;
                match old {
                    Some(b) => { self.old = b; },
                    None => { return Err(CollectError::OldFileMissing); },
                }
                match new {
                    Some(b) => { self.new = b; },
                    None => { return Err(CollectError::NewFileMissing); },
                }
                Ok(())
            },
            DiffEvent::HunkHeader { content } => {
                self.close_hunk();
                self.hunk.header = match utf8_str(content.as_slice()) {
                    Some(s) => s.to_owned(),
                    None => String::new(),
                };
                self.hunk.lines = Vec::new();
                assert(self@.hunk.lines =~= Seq::<DiffLoc>::empty());
                Ok(())
            },
            DiffEvent::NoNewline => Ok(()),
        }
    }

    /// The files collected (see [`finalized`]).
    pub fn finalize(self) -> (res: Vec<Entry>)
        ensures
            res@.map_values(|e: Entry| e@) == finalized(self@),
    {
        let ghost v = self@;
        let PrintCollector { mut entries, hunk, mut hunks, name, old, new } = self;
        if !hunk.lines.is_empty() || !hunks.is_empty() {
            if let Some(name) = name {
                let ghost before_hunks = hunks@.map_values(|h: IHunk| h@);
                if !hunk.lines.is_empty() {
                    hunks.push(hunk);
                    assert(hunks@.map_values(|h: IHunk| h@) =~= before_hunks.push(v.hunk));
                }
                let ghost before = entries@.map_values(|e: Entry| e@);
                let entry = Entry { hunks, path: name, old, new };
                entries.push(entry);
                assert(entries@.map_values(|e: Entry| e@) =~= before.push(entry@));
            }
        }
        entries
    }
}

/// Why no default branch could be named.
#[derive(Debug, Clone, Copy, PartialEq, Eq, Structural)]
pub enum BranchError {
    /// The default branch reference is empty.
    EmptyDefaultBranch,
    /// The default branch a remote advertised is not valid UTF-8.
    InvalidUtf8,
    /// Neither the remotes nor the local branches name a default branch.
    NotFound,
}


/// `k` is the position of the first `c` in `s`.
pub open spec fn is_first(s: Seq<char>, c: char, k: int) -> bool {
    &&& 0 <= k < s.len()
    &&& s[k] == c
    &&& forall|m: int| 0 <= m < k ==> s[m] != c
}

/// A revision name for the default branch, from the reference a remote's `HEAD` points at or
/// the branch the remote advertises: `refs/remotes/<rest>` gives `<rest>`,
/// `refs/heads/<branch>` gives `<remote>/<branch>`, any other non-empty name stays as it is.
pub open spec fn spec_normalize_default_branch(reference: Seq<char>, remote_name: Seq<char>) -> Result<Seq<char>, BranchError> {
    if has_prefix(reference, "refs/remotes/"@) {
        Ok(reference.skip("refs/remotes/"@.len() as int))
    } else if has_prefix(reference, "refs/heads/"@) {
        Ok(remote_name + seq!['/'] + reference.skip("refs/heads/"@.len() as int))
    } else if reference.len() == 0 {
        Err(BranchError::EmptyDefaultBranch)
    } else {
        Ok(reference)
    }
}

/// The remote of an upstream branch name: what comes before its first `/`, when that is not
/// empty.
pub open spec fn spec_remote_from_upstream(s: Seq<char>) -> Option<Seq<char>> {
    if exists|k: int| is_first(s, '/', k) {
        let k = choose|k: int| is_first(s, '/', k);
        if k > 0 {
            Some(s.take(k))
        } else {
            None
        }
    } else {
        None
    }
}

/// There is at most one first position.
pub proof fn lemma_is_first_unique(s: Seq<char>, c: char, k1: int, k2: int)
    requires
        is_first(s, c, k1),
        is_first(s, c, k2),
    ensures
        k1 == k2,
{
}

/// The rest of `s` after `p`, when `s` starts with `p`.
fn strip_prefix(s: &str, p: &str) -> (res: Option<String>)
    ensures
        match res {
            Some(rest) => has_prefix(s@, p@) && rest@ == s@.skip(p@.len() as int),
            None => !has_prefix(s@, p@),
        },
{
    let sc = chars_of(s);
    let pc = chars_of(p);
    if pc.len() > sc.len() {
        return None;
    }
    let mut k: usize = 0;
    while k < pc.len()
        invariant
            pc@ == p@,
            sc@ == s@,
            pc@.len() <= sc@.len(),
            k <= pc@.len(),
            forall|m: int| 0 <= m < k ==> sc@[m] == pc@[m],
        decreases pc@.len() - k,
    {
        if sc[k] != pc[k] {
            assert(s@.take(p@.len() as int)[k as int] != p@[k as int]);
            return None;
        }
        k += 1;
    }
    assert(s@.take(p@.len() as int) =~= p@);
    let rest = string_of(&sc.as_slice()[pc.len()..sc.len()]);
    assert(sc@.subrange(pc@.len() as int, sc@.len() as int) =~= s@.skip(p@.len() as int));
    Some(rest)
}

/// The revision name of a default branch reference (see [`spec_normalize_default_branch`]).
pub fn normalize_default_branch(reference: &str, remote_name: &str) -> (res: Result<String, BranchError>)
    ensures
        match res {
            Ok(s) => spec_normalize_default_branch(reference@, remote_name@) == Ok::<Seq<char>, BranchError>(s@),
            Err(e) => spec_normalize_default_branch(reference@, remote_name@) == Err::<Seq<char>, BranchError>(e),
        },
{
    if let Some(branch) = strip_prefix(reference, "refs/remotes/") {
        return Ok(branch);
    }
    if let Some(branch) = strip_prefix(reference, "refs/heads/") {
        let mut name = remote_name.to_owned();
        name.append("/");
        name.append(branch.as_str());
        proof {
            reveal_strlit("/");
        }
        assert(name@ =~= remote_name@ + seq!['/'] + branch@);
        return Ok(name);
    }
    if reference.is_empty() {
        return Err(BranchError::EmptyDefaultBranch);
    }
    Ok(reference.to_owned())
}

/// The remote of an upstream branch name (see [`spec_remote_from_upstream`]).
pub fn remote_from_upstream_branch(upstream_branch: &str) -> (res: Option<&str>)
    ensures
        match res {
            Some(r) => spec_remote_from_upstream(upstream_branch@) == Some(r@),
            None => spec_remote_from_upstream(upstream_branch@) is None,
        },
{
    let cs = chars_of(upstream_branch);
    let mut k: usize = 0;
    while k < cs.len()
        invariant
            cs@ == upstream_branch@,
            k <= cs@.len(),
            forall|m: int| 0 <= m < k ==> cs@[m] != '/',
        decreases cs@.len() - k,
    {
        if cs[k] == '/' {
            proof {
                assert(is_first(upstream_branch@, '/', k as int));
                let c = choose|j: int| is_first(upstream_branch@, '/', j);
                lemma_is_first_unique(upstream_branch@, '/', c, k as int);
            }
            if k == 0 {
                return None;
            }
            return Some(upstream_branch.substring_char(0, k));
        }
        k += 1;
    }
    None
}

/// The remote the current branch pulls from: the remote of its upstream branch, else the
/// remote configured for it when that is neither empty nor `.`.
pub open spec fn spec_current_branch_remote(upstream: Option<Seq<char>>, configured: Option<Seq<char>>) -> Option<Seq<char>> {
    match upstream {
        Some(u) if spec_remote_from_upstream(u) is Some => spec_remote_from_upstream(u),
        _ => match configured {
            Some(c) if c != "."@ && c.len() > 0 => Some(c),
            _ => None,
        },
    }
}

/// The remote the current branch pulls from (see [`spec_current_branch_remote`]), given the
/// name of its upstream branch and the `branch.<name>.remote` setting, each when there is one.
pub fn current_branch_remote(upstream: Option<&str>, configured: Option<&str>) -> (res: Option<String>)
    ensures
        match res {
            Some(r) => spec_current_branch_remote(opt_view(upstream), opt_view(configured)) == Some(r@),
            None => spec_current_branch_remote(opt_view(upstream), opt_view(configured)) is None,
        },
{
    if let Some(u) = upstream {
        if let Some(remote_name) = remote_from_upstream_branch(u) {
            return Some(remote_name.to_owned());
        }
    }
    match configured {
        Some(c) => {
            let cs = chars_of(c);
            proof {
                reveal_strlit(".");
            }
            if (cs.len() == 1 && cs[0] == '.') || cs.len() == 0 {
                assert(cs.len() == 1 && cs[0] == '.' ==> c@ =~= "."@);
                None
            } else {
                Some(c.to_owned())
            }
        },
        None => None,
    }
}

/// The characters of an optional string.
pub open spec fn opt_view(s: Option<&str>) -> Option<Seq<char>> {
    match s {
        Some(t) => Some(t@),
        None => None,
    }
}

/// The setting that names the remote of branch `branch`: `branch.<branch>.remote`.
pub fn branch_remote_key(branch: &str) -> (res: String)
    ensures
        res@ == "branch."@ + branch@ + ".remote"@,
{
    let mut key = "branch.".to_owned();
    key.append(branch);
    key.append(".remote");
    key
}

/// The reference a remote's `HEAD` is cached under: `refs/remotes/<remote>/HEAD`.
pub fn remote_head_ref(remote_name: &str) -> (res: String)
    ensures
        res@ == "refs/remotes/"@ + remote_name@ + "/HEAD"@,
{
    let mut name = "refs/remotes/".to_owned();
    name.append(remote_name);
    name.append("/HEAD");
    name
}

/// The remote to ask for the default branch: the one the current branch pulls from, else
/// `origin`.
pub fn default_remote_name(upstream_remote: Option<String>) -> (res: String)
    ensures
        res@ == match upstream_remote {
            Some(t) => t@,
            None => "origin"@,
        },
{
    match upstream_remote {
        Some(t) => t,
        None => "origin".to_owned(),
    }
}

/// What the repository knows of a remote's default branch.
pub struct RemoteFacts {
    /// What `refs/remotes/<remote>/HEAD` points at, when it is a symbolic reference.
    pub head_target: Option<String>,
    /// The default branch the remote advertises, when it can be asked.
    pub advertised: Option<Vec<u8>>,
}

/// A remote's default branch: from its cached `HEAD` when that is symbolic, else from what it
/// advertises; an advertised name that is not UTF-8 is an error.
pub open spec fn spec_remote_default_branch(facts: RemoteFacts, remote_name: Seq<char>) -> Result<Option<Seq<char>>, BranchError> {
    match facts.head_target {
        Some(t) => match spec_normalize_default_branch(t@, remote_name) {
            Ok(b) => Ok(Some(b)),
            Err(e) => Err(e),
        },
        None => match facts.advertised {
            Some(bytes) => if vstd::utf8::valid_utf8(bytes@) {
                match spec_normalize_default_branch(vstd::utf8::decode_utf8(bytes@), remote_name) {
                    Ok(b) => Ok(Some(b)),
                    Err(e) => Err(e),
                }
            } else {
                Err(BranchError::InvalidUtf8)
            },
            None => Ok(None),
        },
    }
}

/// `res` is what the spec result `spec` says, strings taken by their characters.
pub open spec fn same_branch_result(res: Result<Option<String>, BranchError>, spec: Result<Option<Seq<char>>, BranchError>) -> bool {
    match res {
        Ok(Some(s)) => spec == Ok::<Option<Seq<char>>, BranchError>(Some(s@)),
        Ok(None) => spec == Ok::<Option<Seq<char>>, BranchError>(None),
        Err(e) => spec == Err::<Option<Seq<char>>, BranchError>(e),
    }
}

/// A remote's default branch (see [`spec_remote_default_branch`]).
pub fn detect_remote_default_branch(facts: &RemoteFacts, remote_name: &str) -> (res: Result<Option<String>, BranchError>)
    ensures
        same_branch_result(res, spec_remote_default_branch(*facts, remote_name@)),
{
    if let Some(target) = &facts.head_target {
        return match normalize_default_branch(target.as_str(), remote_name) {
            Ok(b) => Ok(Some(b)),
            Err(e) => Err(e),
        };
    }
    if let Some(bytes) = &facts.advertised {
        return match utf8_str(bytes.as_slice()) {
            None => Err(BranchError::InvalidUtf8),
            Some(branch) => match normalize_default_branch(branch, remote_name) {
                Ok(b) => Ok(Some(b)),
                Err(e) => Err(e),
            },
        };
    }
    Ok(None)
}

/// The default branch: the remote's, else `origin`'s when the remote is another one, else the
/// local `main`, else the local `master`. An error in asking a remote ends the search.
pub open spec fn spec_detect_default_branch(
    remote_name: Seq<char>,
    remote: RemoteFacts,
    origin: RemoteFacts,
    has_main: bool,
    has_master: bool,
) -> Result<Seq<char>, BranchError> {
    let fallback = if has_main {
        Ok("main"@)
    } else if has_master {
        Ok("master"@)
    } else {
        Err(BranchError::NotFound)
    };
    match spec_remote_default_branch(remote, remote_name) {
        Err(e) => Err(e),
        Ok(Some(b)) => Ok(b),
        Ok(None) => if remote_name != "origin"@ {
            match spec_remote_default_branch(origin, "origin"@) {
                Err(e) => Err(e),
                Ok(Some(b)) => Ok(b),
                Ok(None) => fallback,
            }
        } else {
            fallback
        },
    }
}

/// The repository's default branch as a revision name (see [`spec_detect_default_branch`]),
/// from what `remote` (the remote the current branch pulls from, else `origin`) and `origin`
/// say, and whether the local branches `main` and `master` exist.
pub fn detect_default_branch(
    remote_name: &str,
    remote: &RemoteFacts,
    origin: &RemoteFacts,
    has_main: bool,
    has_master: bool,
) -> (res: Result<String, BranchError>)
    ensures
        match res {
            Ok(s) => spec_detect_default_branch(remote_name@, *remote, *origin, has_main, has_master) == Ok::<Seq<char>, BranchError>(s@),
            Err(e) => spec_detect_default_branch(remote_name@, *remote, *origin, has_main, has_master) == Err::<Seq<char>, BranchError>(e),
        },
{
    match detect_remote_default_branch(remote, remote_name) {
        Err(e) => { return Err(e); },
        Ok(Some(b)) => { return Ok(b); },
        Ok(None) => {},
    }
    let origin_name = "origin";
    let is_origin = chars_eq(remote_name, origin_name);
    if !is_origin {
        match detect_remote_default_branch(origin, origin_name) {
            Err(e) => { return Err(e); },
            Ok(Some(b)) => { return Ok(b); },
            Ok(None) => {},
        }
    }
    if has_main {
        return Ok("main".to_owned());
    }
    if has_master {
        return Ok("master".to_owned());
    }
    Err(BranchError::NotFound)
}


} // verus!
