//! Handing the shown file to the user's editor: which file, from which directory, and which
//! editor.
use vstd::prelude::*;

verus! {

/// A request to edit a file, run from the repository's working directory when it has one.
#[derive(Debug, Clone, Copy)]
pub struct Edit<'a> {
    path: &'a str,
    workdir: Option<&'a str>,
}

/// Why no editor could be chosen.
#[derive(Debug, Clone, Copy, PartialEq, Eq, Structural)]
pub enum EditorError {
    /// `$EDITOR` is not set and `$PATH` is not set.
    NoPath,
    /// `$EDITOR` is not set and neither `vi` nor `nano` is in `$PATH`.
    NotFound,
}

impl<'a> Edit<'a> {
    /// A request to edit `path`, from `workdir` when given.
    pub fn new(path: &'a str, workdir: Option<&'a str>) -> (res: Edit<'a>)
        ensures
            res.spec_path() == path,
            res.spec_workdir() == workdir,
    {
        Edit { path, workdir }
    }

    /// The file to edit.
    pub closed spec fn spec_path(&self) -> &'a str {
        self.path
    }

    /// The directory to run the editor from.
    pub closed spec fn spec_workdir(&self) -> Option<&'a str> {
        self.workdir
    }

    /// The file to edit.
    pub fn path(&self) -> (res: &'a str)
        ensures
            res == self.spec_path(),
    {
        self.path
    }

    /// The directory to run the editor from, when there is one.
    pub fn workdir(&self) -> (res: Option<&'a str>)
        ensures
            res == self.spec_workdir(),
    {
        self.workdir
    }

    /// Whether a file can be run: it is a regular file with an execute bit set. `metadata`
    /// holds whether the path is a regular file and its Unix mode, when the path can be read.
    pub fn is_executable(metadata: Option<(bool, u32)>) -> (res: bool)
        ensures
            res == match metadata {
                Some((is_file, mode)) => is_file && mode & 0o111 != 0,
                None => false,
            },
    {
        match metadata {
            Some((is_file, mode)) => is_file && mode & 0o111 != 0,
            None => false,
        }
    }

    /// The editor to run: `$EDITOR` when it is set and not empty; else, when `$PATH` is set,
    /// the first of `vi` and `nano` found executable in it.
    pub fn editor_command(editor: Option<&str>, path_set: bool, vi_found: bool, nano_found: bool) -> (res: Result<String, EditorError>)
        ensures
            match editor {
                Some(e) if e@.len() > 0 => res matches Ok(s) && s@ == e@,
                _ => if !path_set {
                    res == Err::<String, EditorError>(EditorError::NoPath)
                } else if vi_found {
                    res matches Ok(s) && s@ == "vi"@
                } else if nano_found {
                    res matches Ok(s) && s@ == "nano"@
                } else {
                    res == Err::<String, EditorError>(EditorError::NotFound)
                },
            },
    {
        if let Some(e) = editor {
            if !e.is_empty() {
                return Ok(e.to_owned());
            }
        }
        if !path_set {
            return Err(EditorError::NoPath);
        }
        if vi_found {
            return Ok("vi".to_owned());
        }
        if nano_found {
            return Ok("nano".to_owned());
        }
        Err(EditorError::NotFound)
    }
}

} // verus!
