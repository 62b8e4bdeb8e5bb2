//! Serving one fixed file.

use vstd::prelude::*;
use crate::serve_dir::Access;

verus! {

/// Serves the file at one canonical path, whatever the request.
#[derive(Clone, Debug, PartialEq)]
pub struct ServeFile {
    file_path: String,
}

impl ServeFile {
    /// The path of the served file.
    pub closed spec fn file_path_view(&self) -> Seq<char> {
        self.file_path@
    }

    /// The file to read for any request.
    pub open spec fn target(&self, request_path: Seq<char>) -> Option<Seq<char>> {
        Some(self.file_path_view())
    }

    /// Serves the file at `canonical_path`, an absolute path with `.`, `..`
    /// and links already resolved.
    pub fn init(canonical_path: &str) -> (r: ServeFile)
        ensures
            r.file_path_view() == canonical_path@,
    {
        ServeFile { file_path: canonical_path.to_string() }
    }

    /// The path of the served file.
    pub fn file_path(&self) -> (r: &str)
        ensures
            r@ == self.file_path_view(),
    {
        self.file_path.as_str()
    }

    /// Decides a request: the fixed file is read, and the requested path is
    /// not looked at.
    pub fn resolve(&self, request_path: &str) -> (r: Access)
        ensures
            r@ == self.target(request_path@),
    {
        Access::Read(self.file_path.clone())
    }
}

/// Two requests to the same single-file resolver, with any paths, read the
/// same fixed file.
pub proof fn lemma_request_path_ignored(f: ServeFile, first: Seq<char>, second: Seq<char>)
    ensures
        f.target(first) == f.target(second),
        f.target(first) == Some(f.file_path_view()),
{
}

} // verus!
