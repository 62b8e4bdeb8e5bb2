//! Serving the files of a directory on disk.

use vstd::prelude::*;
use crate::path::{
    components, has_prefix, lemma_walk_append, lemma_walk_parents, lemma_walk_without_parents,
    named, parent_dir, parents, path_components, render, rendered, seq_views, walk,
    walk_components,
};
use crate::reply::{FileRead, Reply, settled};

verus! {

/// What a request for a path under a root comes to.
#[derive(Clone, Debug, PartialEq)]
pub enum Access {
    /// Read the file at this absolute path.
    Read(String),
    /// The path leaves the root.
    Forbidden,
}

impl View for Access {
    type V = Option<Seq<char>>;

    open spec fn view(&self) -> Option<Seq<char>> {
        match self {
            Access::Read(p) => Some(p@),
            Access::Forbidden => None,
        }
    }
}

/// Serves the files under one canonical directory.
#[derive(Clone, Debug, PartialEq)]
pub struct ServeDir {
    dir_path: Vec<String>,
    pattern: String,
}

impl ServeDir {
    /// The components of the root directory.
    pub closed spec fn root(&self) -> Seq<Seq<char>> {
        seq_views(self.dir_path@)
    }

    /// The name of the route parameter that holds the requested path.
    pub closed spec fn pattern_view(&self) -> Seq<char> {
        self.pattern@
    }

    /// The working path for a request: the root with each component of the
    /// request applied.
    pub open spec fn candidate(&self, segment: Seq<char>) -> Seq<Seq<char>> {
        walk(self.root(), components(segment))
    }

    /// Whether the working path for a request stays under the root.
    pub open spec fn contains(&self, segment: Seq<char>) -> bool {
        self.root().is_prefix_of(self.candidate(segment))
    }

    /// The file to read for a request, or `None` where it is forbidden.
    pub open spec fn target(&self, segment: Seq<char>) -> Option<Seq<char>> {
        if self.contains(segment) {
            Some(rendered(self.candidate(segment)))
        } else {
            None
        }
    }

    /// Serves the directory `canonical_root`, an absolute path with `.`, `..`
    /// and links already resolved, taking requested paths from the route
    /// parameter `pattern`.
    pub fn serve(canonical_root: &str, pattern: &str) -> (r: ServeDir)
        ensures
            r.root() == components(canonical_root@),
            r.pattern_view() == pattern@,
    {
        ServeDir { dir_path: path_components(canonical_root), pattern: pattern.to_string() }
    }

    /// The name of the route parameter that holds the requested path.
    pub fn pattern(&self) -> (r: &str)
        ensures
            r@ == self.pattern_view(),
    {
        self.pattern.as_str()
    }

    /// The absolute path of the root directory.
    pub fn root_path(&self) -> (r: String)
        ensures
            r@ == rendered(self.root()),
    {
        render(&self.dir_path)
    }

    /// Decides a request for `segment`: separators at its start are dropped,
    /// its components are applied to the root, and the result is read only
    /// if it still lies under the root.
    pub fn resolve(&self, segment: &str) -> (r: Access)
        ensures
            r@ == self.target(segment@),
    {
        let comps = path_components(segment);
        let file_path = walk_components(&self.dir_path, &comps);
        if has_prefix(&file_path, &self.dir_path) {
            Access::Read(render(&file_path))
        } else {
            Access::Forbidden
        }
    }
}

/// A request whose path stays under the root is never forbidden: its file is
/// read, and the answer is that file's content when the read finds it and not
/// found when the file does not exist.
pub proof fn lemma_contained_request_is_read<B, E>(
    d: ServeDir,
    segment: Seq<char>,
    read: FileRead<B, E>,
)
    requires
        d.contains(segment),
    ensures
        d.target(segment) == Some(rendered(d.candidate(segment))),
        settled(read) != Ok::<Reply<B>, E>(Reply::Forbidden),
        read is Missing ==> settled(read) == Ok::<Reply<B>, E>(Reply::NotFound),
        forall|b: B|
            read == FileRead::<B, E>::Found(b) ==> settled(read) == Ok::<Reply<B>, E>(
                (Reply::Content { body: b, content_type: None }),
            ),
{
}

/// A request whose path starts with `k` components `..`, climbs that many
/// levels (or up to the file system root), and then names no way back into the
/// root, is forbidden: whatever lies at the place it reaches is never read.
pub proof fn lemma_escaping_request_is_forbidden(d: ServeDir, segment: Seq<char>, k: nat)
    requires
        1 <= k <= components(segment).len(),
        forall|i: int| 0 <= i < k ==> components(segment)[i] == parent_dir(),
        forall|i: int|
            k <= i < components(segment).len() ==> components(segment)[i] != parent_dir(),
        !d.root().skip(
            if k <= d.root().len() {
                d.root().len() - k
            } else {
                0
            },
        ).is_prefix_of(named(components(segment).skip(k as int))),
    ensures
        d.target(segment) is None,
{
    let root = d.root();
    let comps = components(segment);
    let rest = comps.skip(k as int);
    let keep: int = if k <= root.len() {
        root.len() - k
    } else {
        0
    };
    assert(comps =~= parents(k) + rest);
    lemma_walk_append(root, parents(k), rest);
    lemma_walk_parents(root, k);
    let base = root.take(keep);
    lemma_walk_without_parents(base, rest);
    let cand = base + named(rest);
    assert(d.candidate(segment) == cand);
    if root.is_prefix_of(cand) {
        assert(root.skip(keep).is_prefix_of(named(rest))) by {
            assert forall|j: int| 0 <= j < root.skip(keep).len() implies root.skip(keep)[j]
                == named(rest)[j] by {
                assert(root[keep + j] == cand[keep + j]);
            }
        }
    }
}

/// Resolving the same request twice against the same directory decides the
/// same way both times.
pub proof fn lemma_resolution_repeatable(d: ServeDir, first: Seq<char>, second: Seq<char>)
    requires
        first == second,
    ensures
        d.target(first) == d.target(second),
        d.candidate(first) == d.candidate(second),
{
}

} // verus!
