//! The command line's model: which diff the user asked for.
use vstd::prelude::*;

use crate::text::{chars_of, push_char, string_of};

verus! {

/// A revision the diff is taken against: one commit-ish, or a `<base>..<head>` range.
#[derive(Debug, Clone, PartialEq, Eq)]
pub enum Revision {
    Commitish(String),
    Range(String, String),
}

/// The mathematical value of a [`Revision`].
pub enum RevisionView {
    Commitish(Seq<char>),
    Range(Seq<char>, Seq<char>),
}

impl View for Revision {
    type V = RevisionView;

    open spec fn view(&self) -> RevisionView {
        match self {
            Revision::Commitish(rev) => RevisionView::Commitish(rev@),
            Revision::Range(base, head) => RevisionView::Range(base@, head@),
        }
    }
}

/// `n` dots start at position `i` of `s`.
pub open spec fn dots_at(s: Seq<char>, i: int, n: int) -> bool {
    &&& 0 <= i
    &&& i + n <= s.len()
    &&& forall|k: int| i <= k < i + n ==> s[k] == '.'
}

/// `s` holds `...` somewhere.
pub open spec fn has_triple_dot(s: Seq<char>) -> bool {
    exists|i: int| dots_at(s, i, 3)
}

/// `i` is the first position of `..` in `s`.
pub open spec fn first_double_dot(s: Seq<char>, i: int) -> bool {
    &&& dots_at(s, i, 2)
    &&& forall|j: int| 0 <= j < i ==> !dots_at(s, j, 2)
}

/// `s` holds `..` somewhere.
pub open spec fn has_double_dot(s: Seq<char>) -> bool {
    exists|i: int| dots_at(s, i, 2)
}

/// What parsing `s` as a revision gives: `Ok` with the revision, or `Err` with the message.
pub open spec fn spec_parse_revision(s: Seq<char>) -> Result<RevisionView, Seq<char>> {
    if has_triple_dot(s) {
        Err(triple_dot_message())
    } else if has_double_dot(s) {
        let i = choose|i: int| first_double_dot(s, i);
        if i == 0 || i + 2 == s.len() {
            Err(range_form_message())
        } else {
            Ok(RevisionView::Range(s.take(i), s.skip(i + 2)))
        }
    } else {
        Ok(RevisionView::Commitish(s))
    }
}

/// The message for a `a...b` argument.
pub open spec fn triple_dot_message() -> Seq<char> {
    "triple-dot ranges are not supported yet; use <base>..<head>"@
}

/// The message for a range with an empty side.
pub open spec fn range_form_message() -> Seq<char> {
    "range must be in the form <base>..<head>"@
}

/// How a revision is written: the commit-ish itself, or `base..head`.
pub open spec fn spec_revision_text(r: RevisionView) -> Seq<char> {
    match r {
        RevisionView::Commitish(c) => c,
        RevisionView::Range(b, h) => b + seq!['.', '.'] + h,
    }
}

/// Where `..` occurs there is a first place it occurs.
pub proof fn lemma_first_double_dot_exists(s: Seq<char>, k: int)
    requires
        dots_at(s, k, 2),
    ensures
        exists|i: int| first_double_dot(s, i),
    decreases k,
{
    if exists|j: int| 0 <= j < k && dots_at(s, j, 2) {
        let j = choose|j: int| 0 <= j < k && dots_at(s, j, 2);
        lemma_first_double_dot_exists(s, j);
    } else {
        assert(first_double_dot(s, k));
    }
}

/// Writing out a parsed revision gives back the argument it was parsed from, so parsing what
/// was written gives the same revision again.
pub proof fn law_revision_text_round_trip(s: Seq<char>)
    requires
        spec_parse_revision(s) is Ok,
    ensures
        spec_revision_text(spec_parse_revision(s)->Ok_0) == s,
        spec_parse_revision(spec_revision_text(spec_parse_revision(s)->Ok_0)) == spec_parse_revision(s),
{
    if !has_triple_dot(s) && has_double_dot(s) {
        let k = choose|k: int| dots_at(s, k, 2);
        lemma_first_double_dot_exists(s, k);
        let i = choose|i: int| first_double_dot(s, i);
        assert(s.take(i) + seq!['.', '.'] + s.skip(i + 2) =~= s);
    }
}

/// Position of the first `..` at or after `from`, and whether `...` occurs from `from` on.
fn scan_dots(cs: &Vec<char>) -> (res: (bool, Option<usize>))
    ensures
        res.0 == has_triple_dot(cs@),
        match res.1 {
            Some(i) => first_double_dot(cs@, i as int),
            None => !has_double_dot(cs@),
        },
{
    let n = cs.len();
    let mut first: Option<usize> = None;
    let mut triple = false;
    let mut i: usize = 0;
    while i < n
        invariant
            n == cs@.len(),
            i <= n,
            triple <==> exists|k: int| 0 <= k < i && dots_at(cs@, k, 3),
            match first {
                Some(f) => f < i && first_double_dot(cs@, f as int),
                None => forall|j: int| 0 <= j < i ==> !dots_at(cs@, j, 2),
            },
        decreases n - i,
    {
        if i + 1 < n && cs[i] == '.' && cs[i + 1] == '.' {
            if first.is_none() {
                first = Some(i);
            }
            if i + 2 < n && cs[i + 2] == '.' {
                triple = true;
            }
        }
        assert(dots_at(cs@, i as int, 2) <==> (i + 1 < n && cs@[i as int] == '.' && cs@[i + 1] == '.'));
        assert(dots_at(cs@, i as int, 3) <==> (i + 2 < n && cs@[i as int] == '.' && cs@[i + 1] == '.' && cs@[i + 2] == '.'));
        i += 1;
    }
    assert(triple == has_triple_dot(cs@)) by {
        if has_triple_dot(cs@) {
            let k = choose|k: int| dots_at(cs@, k, 3);
            assert(0 <= k < n);
        }
    }
    (triple, first)
}

impl Revision {
    /// Parses a revision argument: `base..head` is a range, anything else a commit-ish.
    /// Triple-dot ranges and ranges with an empty side are refused.
    pub fn parse(raw: &str) -> (res: Result<Revision, String>)
        ensures
            match (res, spec_parse_revision(raw@)) {
                (Ok(r), Ok(v)) => r@ == v,
                (Err(e), Err(m)) => e@ == m,
                _ => false,
            },
    {
        let cs = chars_of(raw);
        let (triple, first) = scan_dots(&cs);
        if triple {
            return Err("triple-dot ranges are not supported yet; use <base>..<head>".to_owned());
        }
        match first {
            Some(i) => {
                proof {
                    let k = choose|k: int| first_double_dot(cs@, k);
                    if k < i {
                        assert(!dots_at(cs@, k, 2));
                    } else if k > i {
                        assert(!dots_at(cs@, i as int, 2));
                    }
                }
                assert(dots_at(cs@, i as int, 2));
                assert(i + 2 <= cs.len());
                if i == 0 || i + 2 == cs.len() {
                    return Err("range must be in the form <base>..<head>".to_owned());
                }
                let base = string_of(&cs[0..i]);
                let head = string_of(&cs[i + 2..cs.len()]);
                assert(cs@.subrange(0, i as int) == cs@.take(i as int));
                assert(cs@.subrange(i + 2, cs@.len() as int) == cs@.skip(i + 2));
                Ok(Revision::Range(base, head))
            },
            None => Ok(Revision::Commitish(raw.to_owned())),
        }
    }

    /// The commit-ish, when this is not a range.
    pub fn commitish(&self) -> (res: Option<&str>)
        ensures
            match self@ {
                RevisionView::Commitish(c) => res matches Some(s) && s@ == c,
                RevisionView::Range(..) => res is None,
            },
    {
        match self {
            Revision::Commitish(rev) => Some(rev.as_str()),
            Revision::Range(..) => None,
        }
    }

    /// The two ends of the range, when this is one.
    pub fn range(&self) -> (res: Option<(&str, &str)>)
        ensures
            match self@ {
                RevisionView::Commitish(_) => res is None,
                RevisionView::Range(b, h) => res matches Some(p) && p.0@ == b && p.1@ == h,
            },
    {
        match self {
            Revision::Commitish(_) => None,
            Revision::Range(base, head) => Some((base.as_str(), head.as_str())),
        }
    }

    /// The revision as it is written on the command line.
    pub fn to_text(&self) -> (res: String)
        ensures
            res@ == spec_revision_text(self@),
    {
        match self {
            Revision::Commitish(rev) => rev.clone(),
            Revision::Range(base, head) => {
                let mut out = base.clone();
                push_char(&mut out, '.');
                push_char(&mut out, '.');
                let tail = chars_of(head.as_str());
                let mut i: usize = 0;
                while i < tail.len()
                    invariant
                        i <= tail.len(),
                        tail@ == head@,
                        out@ == base@ + seq!['.', '.'] + tail@.take(i as int),
                    decreases tail.len() - i,
                {
                    push_char(&mut out, tail[i]);
                    assert(tail@.take(i as int + 1) == tail@.take(i as int).push(tail@[i as int]));
                    i += 1;
                }
                assert(tail@.take(tail.len() as int) == tail@);
                out
            },
        }
    }
}

impl std::str::FromStr for Revision {
    type Err = String;

    fn from_str(raw: &str) -> (res: Result<Revision, String>)
        ensures
            match (res, spec_parse_revision(raw@)) {
                (Ok(r), Ok(v)) => r@ == v,
                (Err(e), Err(m)) => e@ == m,
                _ => false,
            },
    {
        Revision::parse(raw)
    }
}

/// Which changes to show.
#[derive(Debug, Clone, PartialEq, Eq)]
pub enum DiffMode {
    WorkingTree,
    Staged,
    DefaultBranch,
    Revision(Revision),
}

/// Why the flags given cannot be combined.
#[derive(Debug, Clone, Copy, PartialEq, Eq)]
pub enum DiffModeError {
    StagedWithRevision,
    DefaultBranchWithRevision,
    StagedWithDefaultBranch,
}

impl DiffModeError {
    /// The message shown to the user.
    pub fn message(&self) -> (res: String)
        ensures
            res@ == match self {
                DiffModeError::StagedWithRevision => "--staged cannot be combined with a revision or range"@,
                DiffModeError::DefaultBranchWithRevision => "--default-branch cannot be combined with a revision or range"@,
                DiffModeError::StagedWithDefaultBranch => "--staged cannot be combined with --default-branch"@,
            },
    {
        match self {
            DiffModeError::StagedWithRevision => "--staged cannot be combined with a revision or range".to_owned(),
            DiffModeError::DefaultBranchWithRevision => "--default-branch cannot be combined with a revision or range".to_owned(),
            DiffModeError::StagedWithDefaultBranch => "--staged cannot be combined with --default-branch".to_owned(),
        }
    }
}

/// The parsed command line.
#[derive(Debug)]
pub struct Cli {
    /// Show staged changes instead of working tree changes.
    pub staged: bool,
    /// Diff against the repository's default branch.
    pub default_branch: bool,
    /// Optional revision or range to diff against.
    pub rev: Option<Revision>,
}

impl Cli {
    /// The diff the flags ask for; conflicting flags are refused.
    pub fn diff_mode(self) -> (res: Result<DiffMode, DiffModeError>)
        ensures
            match (self.staged, self.default_branch, self.rev) {
                (false, false, None) => res == Ok::<DiffMode, DiffModeError>(DiffMode::WorkingTree),
                (true, false, None) => res == Ok::<DiffMode, DiffModeError>(DiffMode::Staged),
                (false, true, None) => res == Ok::<DiffMode, DiffModeError>(DiffMode::DefaultBranch),
                (false, false, Some(r)) => res == Ok::<DiffMode, DiffModeError>(DiffMode::Revision(r)),
                (true, _, Some(_)) => res == Err::<DiffMode, DiffModeError>(DiffModeError::StagedWithRevision),
                (_, true, Some(_)) => res == Err::<DiffMode, DiffModeError>(DiffModeError::DefaultBranchWithRevision),
                (true, true, None) => res == Err::<DiffMode, DiffModeError>(DiffModeError::StagedWithDefaultBranch),
            },
    {
        match (self.staged, self.default_branch, self.rev) {
            (false, false, None) => Ok(DiffMode::WorkingTree),
            (true, false, None) => Ok(DiffMode::Staged),
            (false, true, None) => Ok(DiffMode::DefaultBranch),
            (false, false, Some(rev)) => Ok(DiffMode::Revision(rev)),
            (true, _, Some(_)) => Err(DiffModeError::StagedWithRevision),
            (_, true, Some(_)) => Err(DiffModeError::DefaultBranchWithRevision),
            (true, true, None) => Err(DiffModeError::StagedWithDefaultBranch),
        }
    }
}

} // verus!
