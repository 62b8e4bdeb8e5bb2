//! A bundle of directories and files held in memory, each entry named by its
//! full path relative to the bundle's root.

use vstd::prelude::*;
use crate::path::{same_text, seq_views};

verus! {

/// A file of a bundle: its path relative to the bundle's root and its bytes.
#[derive(Debug)]
pub struct BundleFile {
    path: String,
    contents: Vec<u8>,
}

impl View for BundleFile {
    type V = (Seq<char>, Seq<u8>);

    closed spec fn view(&self) -> (Seq<char>, Seq<u8>) {
        (self.path@, self.contents@)
    }
}

impl BundleFile {
    /// The file's path relative to the bundle's root.
    pub fn path(&self) -> (r: &str)
        ensures
            r@ == self@.0,
    {
        self.path.as_str()
    }

    /// The file's bytes.
    pub fn contents(&self) -> (r: &Vec<u8>)
        ensures
            r@ == self@.1,
    {
        &self.contents
    }
}

/// An entry that a path names in a bundle.
pub enum Item<'a> {
    /// A directory, by its path (empty for the bundle's root).
    Dir(&'a str),
    /// A file.
    File(&'a BundleFile),
}

/// What a path names in a bundle, as values.
pub ghost enum Found {
    Dir(Seq<char>),
    File(Seq<char>, Seq<u8>),
}

impl<'a> View for Item<'a> {
    type V = Found;

    open spec fn view(&self) -> Found {
        match self {
            Item::Dir(d) => Found::Dir(d@),
            Item::File(f) => Found::File(f@.0, f@.1),
        }
    }
}

/// The contents of the first file of `files` whose path is `p`.
pub open spec fn first_file(files: Seq<(Seq<char>, Seq<u8>)>, p: Seq<char>) -> Option<Seq<u8>>
    decreases files.len(),
{
    if files.len() == 0 {
        None
    } else if files[0].0 == p {
        Some(files[0].1)
    } else {
        first_file(files.drop_first(), p)
    }
}

/// Directories and files loaded once; a path names at most one directory
/// entry and the first file entry of that path.
#[derive(Debug)]
pub struct Bundle {
    dirs: Vec<String>,
    files: Vec<BundleFile>,
}

impl Bundle {
    /// The paths of the bundle's directories, its root aside.
    pub closed spec fn dirs_view(&self) -> Seq<Seq<char>> {
        seq_views(self.dirs@)
    }

    /// The bundle's files, in the order they were added.
    pub closed spec fn files_view(&self) -> Seq<(Seq<char>, Seq<u8>)> {
        self.files@.map_values(|f: BundleFile| f@)
    }

    /// What `p` names: the root for the empty path, else a directory of that
    /// path, else the first file of that path.
    pub open spec fn item_at(&self, p: Seq<char>) -> Option<Found> {
        if p.len() == 0 {
            Some(Found::Dir(p))
        } else if self.dirs_view().contains(p) {
            Some(Found::Dir(p))
        } else {
            match first_file(self.files_view(), p) {
                Some(c) => Some(Found::File(p, c)),
                None => None,
            }
        }
    }

    /// An empty bundle.
    pub fn new() -> (r: Bundle)
        ensures
            r.dirs_view() == Seq::<Seq<char>>::empty(),
            r.files_view() == Seq::<(Seq<char>, Seq<u8>)>::empty(),
    {
        let r = Bundle { dirs: Vec::new(), files: Vec::new() };
        assert(r.dirs_view() =~= Seq::<Seq<char>>::empty());
        assert(r.files_view() =~= Seq::<(Seq<char>, Seq<u8>)>::empty());
        r
    }

    /// Adds a directory at `path`, relative to the bundle's root.
    pub fn add_dir(&mut self, path: &str)
        ensures
            final(self).dirs_view() == old(self).dirs_view().push(path@),
            final(self).files_view() == old(self).files_view(),
    {
        self.dirs.push(path.to_string());
        assert(self.dirs_view() =~= old(self).dirs_view().push(path@));
    }

    /// Adds a file at `path`, relative to the bundle's root, with `contents`.
    pub fn add_file(&mut self, path: &str, contents: Vec<u8>)
        ensures
            final(self).dirs_view() == old(self).dirs_view(),
            final(self).files_view() == old(self).files_view().push((path@, contents@)),
    {
        let f = BundleFile { path: path.to_string(), contents };
        self.files.push(f);
        assert(self.files_view() =~= old(self).files_view().push((path@, contents@)));
    }

    /// Whether the bundle holds a directory at `path`.
    pub fn get_dir(&self, path: &str) -> (r: Option<&String>)
        ensures
            match r {
                Some(d) => d@ == path@ && self.dirs_view().contains(path@),
                None => !self.dirs_view().contains(path@),
            },
    {
        let mut i: usize = 0;
        while i < self.dirs.len()
            invariant
                i <= self.dirs@.len(),
                forall|j: int| 0 <= j < i ==> self.dirs@[j]@ != path@,
            decreases self.dirs@.len() - i,
        {
            if same_text(self.dirs[i].as_str(), path) {
                assert(self.dirs_view()[i as int] == path@);
                return Some(&self.dirs[i]);
            }
            i = i + 1;
        }
        assert(!self.dirs_view().contains(path@)) by {
            if self.dirs_view().contains(path@) {
                let j = choose|j: int| 0 <= j < self.dirs_view().len() && self.dirs_view()[j] == path@;
                assert(self.dirs@[j]@ == path@);
            }
        }
        None
    }

    /// The first file of the bundle at `path`.
    pub fn get_file(&self, path: &str) -> (r: Option<&BundleFile>)
        ensures
            match r {
                Some(f) => f@.0 == path@ && first_file(self.files_view(), path@) == Some(f@.1),
                None => first_file(self.files_view(), path@) is None,
            },
    {
        let ghost all = self.files_view();
        let mut i: usize = 0;
        assert(all.skip(0) =~= all);
        while i < self.files.len()
            invariant
                i <= self.files@.len(),
                all == self.files_view(),
                first_file(all, path@) == first_file(all.skip(i as int), path@),
            decreases self.files@.len() - i,
        {
            proof {
                assert(all.skip(i as int).drop_first() =~= all.skip(i + 1));
                assert(all.skip(i as int)[0] == self.files@[i as int]@);
            }
            if same_text(self.files[i].path.as_str(), path) {
                return Some(&self.files[i]);
            }
            i = i + 1;
        }
        assert(all.skip(i as int).len() == 0);
        None
    }

    /// What `path` names in the bundle, as `item_at` describes it.
    pub fn get_item(&self, path: &str) -> (r: Option<Item<'_>>)
        ensures
            match r {
                Some(item) => self.item_at(path@) == Some(item@),
                None => self.item_at(path@) is None,
            },
    {
        if path.unicode_len() == 0 {
            proof {
                reveal_strlit("");
                assert(""@ =~= path@);
            }
            Some(Item::Dir(""))
        } else if let Some(d) = self.get_dir(path) {
            Some(Item::Dir(d.as_str()))
        } else if let Some(f) = self.get_file(path) {
            Some(Item::File(f))
        } else {
            None
        }
    }
}

} // verus!
