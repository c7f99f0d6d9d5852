//! Where tree-sitter grammars are looked for, and the file and symbol names they go by.
use vstd::prelude::*;

use crate::text::{chars_of, push_char};
use vstd::string::StringExecFns;

verus! {

/// The pieces finished so far and the piece being read.
pub open spec fn scan_pieces(s: Seq<char>, sep: char) -> (Seq<Seq<char>>, Seq<char>)
    decreases s.len(),
{
    if s.len() == 0 {
        (Seq::empty(), Seq::empty())
    } else {
        let (done, cur) = scan_pieces(s.drop_last(), sep);
        if s.last() == sep {
            (done.push(cur), Seq::empty())
        } else {
            (done, cur.push(s.last()))
        }
    }
}

/// The pieces of `s` between the separators, empty ones included, as `str::split` gives them.
pub open spec fn pieces(s: Seq<char>, sep: char) -> Seq<Seq<char>> {
    let (done, cur) = scan_pieces(s, sep);
    done.push(cur)
}

/// The directories searched for grammars, in order.
#[derive(Debug)]
pub struct Loader {
    paths: Vec<String>,
}

impl View for Loader {
    type V = Seq<Seq<char>>;

    closed spec fn view(&self) -> Seq<Seq<char>> {
        self.paths@.map_values(|p: String| p@)
    }
}

impl Loader {
    /// The directories a search path lists, separated by `:`; none without a search path.
    pub fn from_search_path(value: Option<&str>) -> (res: Loader)
        ensures
            res@ == match value {
                Some(v) => pieces(v@, ':'),
                None => Seq::empty(),
            },
    {
        let mut paths: Vec<String> = Vec::new();
        match value {
            None => {
                let res = Loader { paths };
                assert(res@ =~= Seq::<Seq<char>>::empty());
                res
            },
            Some(v) => {
                let cs = chars_of(v);
                let mut cur = String::new();
                let mut i: usize = 0;
                while i < cs.len()
                    invariant
                        cs@ == v@,
                        i <= cs@.len(),
                        (paths@.map_values(|p: String| p@), cur@) == scan_pieces(v@.take(i as int), ':'),
                    decreases cs@.len() - i,
                {
                    assert(v@.take(i as int + 1).drop_last() =~= v@.take(i as int));
                    if cs[i] == ':' {
                        let ghost before = paths@.map_values(|p: String| p@);
                        let ghost piece = cur@;
                        paths.push(cur);
                        assert(paths@.map_values(|p: String| p@) =~= before.push(piece));
                        cur = String::new();
                    } else {
                        push_char(&mut cur, cs[i]);
                    }
                    i += 1;
                }
                assert(v@.take(cs@.len() as int) =~= v@);
                let ghost before = paths@.map_values(|p: String| p@);
                let ghost piece = cur@;
                paths.push(cur);
                assert(paths@.map_values(|p: String| p@) =~= before.push(piece));
                Loader { paths }
            },
        }
    }

    /// The directories searched, in order.
    pub fn paths(&self) -> (res: &[String])
        ensures
            res@.map_values(|p: String| p@) == self@,
    {
        self.paths.as_slice()
    }

    /// The library files a grammar may be in, in the order they are tried: `<lang>.so`,
    /// `<lang>.dylib`, `<lang>.dll`.
    pub fn library_names(lang: &str) -> (res: Vec<String>)
        ensures
            res@.map_values(|n: String| n@) == seq![lang@ + ".so"@, lang@ + ".dylib"@, lang@ + ".dll"@],
    {
        let mut res: Vec<String> = Vec::new();
        let mut so = lang.to_owned();
        so.append(".so");
        res.push(so);
        let mut dylib = lang.to_owned();
        dylib.append(".dylib");
        res.push(dylib);
        let mut dll = lang.to_owned();
        dll.append(".dll");
        res.push(dll);
        assert(res@.map_values(|n: String| n@) =~= seq![lang@ + ".so"@, lang@ + ".dylib"@, lang@ + ".dll"@]);
        res
    }

    /// The symbol a grammar library exports its language under: `tree_sitter_<lang>`.
    pub fn symbol_name(lang: &str) -> (res: String)
        ensures
            res@ == "tree_sitter_"@ + lang@,
    {
        let mut name = "tree_sitter_".to_owned();
        name.append(lang);
        name
    }
}

} // verus!
