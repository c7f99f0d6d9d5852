//! Which language a file is written in, by its extension.
use vstd::prelude::*;

verus! {

/// Where the last `c` of `s` is; -1 when `s` has none.
pub open spec fn last_index_of(s: Seq<char>, c: char) -> int
    decreases s.len(),
{
    if s.len() == 0 {
        -1
    } else if s.last() == c {
        s.len() - 1
    } else {
        last_index_of(s.drop_last(), c)
    }
}

/// The last `c` of `s`, if any, lies inside `s`.
pub proof fn lemma_last_index_of(s: Seq<char>, c: char)
    ensures
        -1 <= last_index_of(s, c) < s.len(),
        last_index_of(s, c) >= 0 ==> s[last_index_of(s, c)] == c,
    decreases s.len(),
{
    if s.len() > 0 && s.last() != c {
        lemma_last_index_of(s.drop_last(), c);
    }
}

/// The last component of a path that is neither empty nor `.`, as `Path::components` leaves
/// them: separators repeated or trailing, and `.` components, are passed over.
pub open spec fn last_component(path: Seq<char>) -> Option<Seq<char>>
    decreases path.len(),
{
    let k = last_index_of(path, '/');
    let tail = path.skip(k + 1);
    if tail.len() == 0 || tail == seq!['.'] {
        if k < 0 {
            None
        } else {
            proof {
                lemma_last_index_of(path, '/');
            }
            last_component(path.take(k))
        }
    } else {
        Some(tail)
    }
}

/// The extension of a path, as `std::path::Path::extension` documents it: none when the path
/// has no file name (no component left, or the last is `..`); else the part of the file name
/// after its final `.`, none when it has no `.` or only a leading one.
pub open spec fn path_extension(path: Seq<char>) -> Option<Seq<char>> {
    match last_component(path) {
        None => None,
        Some(name) => if name == seq!['.', '.'] {
            None
        } else {
            let j = last_index_of(name, '.');
            if j <= 0 {
                None
            } else {
                Some(name.skip(j + 1))
            }
        },
    }
}

/// `std::path::Path::extension`, read back as text: as [`path_extension`] states it. The text
/// of an extension of a `&str` path is always valid, so `to_str` gives it whole.
#[verifier::external_body]
fn extension_of(path: &str) -> (res: Option<&str>)
    ensures
        match res {
            Some(e) => path_extension(path@) == Some(e@),
            None => path_extension(path@) is None,
        },
{
    match std::path::Path::new(path).extension() {
        Some(e) => e.to_str(),
        None => None,
    }
}

/// The language an extension names in `map`: the first entry for it.
pub open spec fn language_of(map: Seq<(Seq<char>, Seq<char>)>, ext: Seq<char>) -> Option<Seq<char>> {
    if exists|k: int| 0 <= k < map.len() && map[k].0 == ext {
        let k = choose|k: int| 0 <= k < map.len() && map[k].0 == ext && forall|j: int| 0 <= j < k ==> map[j].0 != ext;
        Some(map[k].1)
    } else {
        None
    }
}

/// Maps file extensions to language names.
#[derive(Debug)]
pub struct Matcher {
    map: Vec<(String, String)>,
}

impl View for Matcher {
    type V = Seq<(Seq<char>, Seq<char>)>;

    closed spec fn view(&self) -> Seq<(Seq<char>, Seq<char>)> {
        self.map@.map_values(|p: (String, String)| (p.0@, p.1@))
    }
}

impl Matcher {
    /// Rust for `.rs` files, TypeScript for `.ts` files.
    pub fn new() -> (res: Matcher)
        ensures
            res@ == seq![("rs"@, "rust"@), ("ts"@, "typescript"@)],
    {
        let mut map: Vec<(String, String)> = Vec::new();
        map.push(("rs".to_owned(), "rust".to_owned()));
        map.push(("ts".to_owned(), "typescript".to_owned()));
        let res = Matcher { map };
        assert(res@ =~= seq![("rs"@, "rust"@), ("ts"@, "typescript"@)]);
        res
    }

    /// The language of an extension (see [`language_of`]).
    pub fn language_for(&self, ext: &str) -> (res: Option<&str>)
        ensures
            match res {
                Some(l) => language_of(self@, ext@) == Some(l@),
                None => language_of(self@, ext@) is None,
            },
    {
        let mut k: usize = 0;
        while k < self.map.len()
            invariant
                k <= self.map@.len(),
                forall|j: int| 0 <= j < k ==> self@[j].0 != ext@,
            decreases self.map@.len() - k,
        {
            let entry = &self.map[k];
            if crate::text::chars_eq(entry.0.as_str(), ext) {
                proof {
                    assert(self@[k as int] == (entry.0@, entry.1@));
                    assert(self@[k as int].0 == ext@);
                    assert(0 <= k < self@.len() && self@[k as int].0 == ext@ && forall|j: int| 0 <= j < k ==> self@[j].0 != ext@);
                    let c = choose|c: int| 0 <= c < self@.len() && self@[c].0 == ext@ && forall|j: int| 0 <= j < c ==> self@[j].0 != ext@;
                    if c < k {
                        assert(self@[c].0 != ext@);
                    } else if c > k {
                        assert(self@[k as int].0 != ext@);
                    }
                }
                return Some(entry.1.as_str());
            }
            k += 1;
        }
        None
    }

    /// The language of a file, by its path's extension.
    pub fn matches(&self, path: &str) -> (res: Option<&str>)
        ensures
            match path_extension(path@) {
                Some(ext) => match res {
                    Some(l) => language_of(self@, ext) == Some(l@),
                    None => language_of(self@, ext) is None,
                },
                None => res is None,
            },
    {
        match extension_of(path) {
            Some(ext) => self.language_for(ext),
            None => None,
        }
    }
}

impl Default for Matcher {
    fn default() -> (res: Matcher)
        ensures
            res@ == seq![("rs"@, "rust"@), ("ts"@, "typescript"@)],
    {
        Matcher::new()
    }
}

} // verus!
