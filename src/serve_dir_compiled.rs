//! Serving the files of a bundle held in memory.

use std::sync::Arc;
use vstd::prelude::*;
use crate::bundle::{first_file, Bundle, BundleFile, Found, Item};
use crate::mime::{content_type, content_type_for};
use crate::path::{trim_leading_separators, trim_separators};
use crate::reply::{answer_of, Answer, Reply};

verus! {

/// The path of the entry `name` inside the directory `dir` of a bundle.
pub open spec fn child_path(dir: Seq<char>, name: Seq<char>) -> Seq<char> {
    if dir.len() == 0 {
        name
    } else {
        dir + seq!['/'] + name
    }
}

/// The answer for a file of a bundle: its bytes, typed by its extension.
pub open spec fn file_answer(path: Seq<char>, contents: Seq<u8>) -> Answer {
    Answer::Content(contents, content_type_for(path))
}

/// Serves a bundle of files held in memory; clones share the bundle.
#[derive(Clone, Debug)]
pub struct ServeDirCompiled {
    dir: Arc<Bundle>,
    index_file: Option<String>,
    pattern: String,
}

impl ServeDirCompiled {
    /// The served bundle.
    pub closed spec fn bundle(&self) -> Bundle {
        *self.dir
    }

    /// The name of the file served for a directory, if any.
    pub closed spec fn index_view(&self) -> Option<Seq<char>> {
        match self.index_file {
            Some(f) => Some(f@),
            None => None,
        }
    }

    /// The name of the route parameter that holds the requested path.
    pub closed spec fn pattern_view(&self) -> Seq<char> {
        self.pattern@
    }

    /// The answer owed for a request of `segment`.
    pub open spec fn answer(&self, segment: Seq<char>) -> Answer {
        let files = self.bundle().files_view();
        match self.bundle().item_at(trim_separators(segment)) {
            None => Answer::NotFound,
            Some(Found::File(p, c)) => file_answer(p, c),
            Some(Found::Dir(d)) => match self.index_view() {
                None => Answer::NotFound,
                Some(ix) => match first_file(files, child_path(d, ix)) {
                    Some(c) => file_answer(child_path(d, ix), c),
                    None => Answer::NotFound,
                },
            },
        }
    }

    /// Serves `dir`, taking requested paths from the route parameter
    /// `pattern`, with no index file.
    pub fn new(dir: Bundle, pattern: &str) -> (r: ServeDirCompiled)
        ensures
            r.bundle() == dir,
            r.index_view() is None,
            r.pattern_view() == pattern@,
    {
        ServeDirCompiled { dir: Arc::new(dir), index_file: None, pattern: pattern.to_string() }
    }

    /// The same endpoint, serving `file` for requests that name a directory
    /// (or nothing for requests that name a directory, when `file` is `None`).
    pub fn with_index_file(self, file: Option<&str>) -> (r: ServeDirCompiled)
        ensures
            r.bundle() == self.bundle(),
            r.pattern_view() == self.pattern_view(),
            match file {
                Some(f) => r.index_view() == Some(f@),
                None => r.index_view() is None,
            },
    {
        let index_file = match file {
            Some(f) => Some(f.to_string()),
            None => None,
        };
        ServeDirCompiled { dir: self.dir, index_file, pattern: self.pattern }
    }

    /// The name of the route parameter that holds the requested path.
    pub fn pattern(&self) -> (r: &str)
        ensures
            r@ == self.pattern_view(),
    {
        self.pattern.as_str()
    }

    /// What `path` names in the bundle.
    pub fn get_item(&self, path: &str) -> (r: Option<Item<'_>>)
        ensures
            match r {
                Some(item) => self.bundle().item_at(path@) == Some(item@),
                None => self.bundle().item_at(path@) is None,
            },
    {
        self.dir.get_item(path)
    }

    /// The answer for one file of the bundle.
    pub fn serve_file(&self, file: &BundleFile) -> (r: Reply<Vec<u8>>)
        ensures
            answer_of(r) == file_answer(file@.0, file@.1),
    {
        let body = file.contents().clone();
        assert(body@ =~= file@.1);
        Reply::Content { body, content_type: content_type(file.path()) }
    }

    /// Answers a request of `segment`: separators at its start are dropped,
    /// a file it names is served, and a directory it names is served through
    /// its index file where one is set and present. `.` and `..` are plain
    /// names here, which no entry of a bundle has.
    pub fn resolve(&self, segment: &str) -> (r: Reply<Vec<u8>>)
        ensures
            answer_of(r) == self.answer(segment@),
    {
        let path = trim_leading_separators(segment);
        match self.get_item(path) {
            None => Reply::NotFound,
            Some(Item::File(file)) => self.serve_file(file),
            Some(Item::Dir(dir)) => match &self.index_file {
                None => Reply::NotFound,
                Some(index_file) => {
                    let child = child_of(dir, index_file.as_str());
                    match self.dir.get_file(child.as_str()) {
                        Some(file) => self.serve_file(file),
                        None => Reply::NotFound,
                    }
                },
            },
        }
    }
}

/// The path of the entry `name` inside the directory `dir`.
fn child_of(dir: &str, name: &str) -> (r: String)
    ensures
        r@ == child_path(dir@, name@),
{
    if dir.unicode_len() == 0 {
        name.to_string()
    } else {
        let mut r = String::from_str(dir);
        r.append("/");
        r.append(name);
        proof {
            reveal_strlit("/");
        }
        r
    }
}

/// Requesting the empty path, with an index file set and a file of that name
/// at the bundle's root, answers with that file's content.
pub proof fn lemma_root_served_by_index(c: ServeDirCompiled, index: Seq<char>, contents: Seq<u8>)
    requires
        c.index_view() == Some(index),
        first_file(c.bundle().files_view(), index) == Some(contents),
    ensures
        c.answer(Seq::empty()) == file_answer(index, contents),
{
    assert(trim_separators(Seq::<char>::empty()) == Seq::<char>::empty());
}

/// Without an index file, a request that names a directory is answered with
/// not found, whatever the directory holds.
pub proof fn lemma_directory_without_index_not_found(c: ServeDirCompiled, segment: Seq<char>)
    requires
        c.index_view() is None,
        c.bundle().item_at(trim_separators(segment)) matches Some(Found::Dir(_)),
    ensures
        c.answer(segment) == Answer::NotFound,
{
}

/// Resolving the same request twice against the same bundle answers the same
/// way both times.
pub proof fn lemma_answer_repeatable(c: ServeDirCompiled, first: Seq<char>, second: Seq<char>)
    requires
        first == second,
    ensures
        c.answer(first) == c.answer(second),
{
}

} // verus!
