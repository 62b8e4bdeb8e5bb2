//! Path strings as sequences of components, and the walk that applies
//! `.` and `..` to a working path.

use vstd::prelude::*;

verus! {

/// The view of each string of a sequence.
pub open spec fn seq_views(v: Seq<String>) -> Seq<Seq<char>> {
    v.map_values(|s: String| s@)
}

/// Splitting a path string char by char: the components completed so far
/// and the component being read.
pub open spec fn split_state(s: Seq<char>) -> (Seq<Seq<char>>, Seq<char>)
    decreases s.len(),
{
    if s.len() == 0 {
        (Seq::empty(), Seq::empty())
    } else {
        let (done, cur) = split_state(s.drop_last());
        if s.last() == '/' {
            (if cur.len() == 0 { done } else { done.push(cur) }, Seq::empty())
        } else {
            (done, cur.push(s.last()))
        }
    }
}

/// The non-empty pieces of `s` between separators `/`. Leading, trailing and
/// repeated separators yield no component.
pub open spec fn components(s: Seq<char>) -> Seq<Seq<char>> {
    let (done, cur) = split_state(s);
    if cur.len() == 0 {
        done
    } else {
        done.push(cur)
    }
}

/// Splits `s` into its components.
pub fn path_components(s: &str) -> (r: Vec<String>)
    ensures
        seq_views(r@) == components(s@),
{
    let n = s.unicode_len();
    let mut done: Vec<String> = Vec::new();
    let mut start: usize = 0;
    let mut i: usize = 0;
    while i < n
        invariant
            n == s@.len(),
            start <= i <= n,
            split_state(s@.take(i as int)) == (seq_views(done@), s@.subrange(
                start as int,
                i as int,
            )),
        decreases n - i,
    {
        let c = s.get_char(i);
        proof {
            assert(s@.take(i + 1).drop_last() =~= s@.take(i as int));
            assert(s@.take(i + 1).last() == c);
        }
        if c == '/' {
            if start < i {
                let piece = s.substring_char(start, i).to_string();
                let ghost before = done@;
                done.push(piece);
                assert(seq_views(done@) =~= seq_views(before).push(piece@));
            }
            start = i + 1;
            assert(s@.subrange(start as int, i + 1) =~= Seq::<char>::empty());
        } else {
            assert(s@.subrange(start as int, i + 1) =~= s@.subrange(start as int, i as int).push(
                c,
            ));
        }
        i = i + 1;
    }
    assert(s@.take(n as int) =~= s@);
    if start < n {
        let piece = s.substring_char(start, n).to_string();
        let ghost before = done@;
        done.push(piece);
        assert(seq_views(done@) =~= seq_views(before).push(piece@));
    }
    done
}

/// The component that names the current directory.
pub open spec fn current_dir() -> Seq<char> {
    seq!['.']
}

/// The component that names the parent directory.
pub open spec fn parent_dir() -> Seq<char> {
    seq!['.', '.']
}

/// One component applied to a working path: `.` leaves it, `..` removes its
/// last component (if it has one), any other component is appended.
pub open spec fn step(path: Seq<Seq<char>>, c: Seq<char>) -> Seq<Seq<char>> {
    if c == current_dir() {
        path
    } else if c == parent_dir() {
        if path.len() == 0 {
            path
        } else {
            path.drop_last()
        }
    } else {
        path.push(c)
    }
}

/// The working path after applying every component of `comps` in order,
/// starting from `start`.
pub open spec fn walk(start: Seq<Seq<char>>, comps: Seq<Seq<char>>) -> Seq<Seq<char>>
    decreases comps.len(),
{
    if comps.len() == 0 {
        start
    } else {
        step(walk(start, comps.drop_last()), comps.last())
    }
}

/// The components joined by `/`, without a leading separator.
pub open spec fn joined(cs: Seq<Seq<char>>) -> Seq<char>
    decreases cs.len(),
{
    if cs.len() == 0 {
        Seq::empty()
    } else if cs.len() == 1 {
        cs[0]
    } else {
        joined(cs.drop_last()) + seq!['/'] + cs.last()
    }
}

/// The absolute path string of a sequence of components: `/` for none.
pub open spec fn rendered(cs: Seq<Seq<char>>) -> Seq<char> {
    seq!['/'] + joined(cs)
}

/// Whether two strings hold the same characters.
pub fn same_text(a: &str, name: &str) -> (r: bool)
    ensures
        r == (a@ == name@),
{
    let n = a.unicode_len();
    if n != name.unicode_len() {
        return false;
    }
    let mut i: usize = 0;
    while i < n
        invariant
            n == a@.len() == name@.len(),
            i <= n,
            forall|j: int| 0 <= j < i ==> a@[j] == name@[j],
        decreases n - i,
    {
        if a.get_char(i) != name.get_char(i) {
            return false;
        }
        i = i + 1;
    }
    assert(a@ =~= name@);
    true
}

/// Applies each component of `comps` to a copy of `start`.
pub fn walk_components(start: &Vec<String>, comps: &Vec<String>) -> (r: Vec<String>)
    ensures
        seq_views(r@) == walk(seq_views(start@), seq_views(comps@)),
{
    let mut path: Vec<String> = Vec::new();
    let mut k: usize = 0;
    while k < start.len()
        invariant
            k <= start@.len(),
            seq_views(path@) =~= seq_views(start@.take(k as int)),
        decreases start@.len() - k,
    {
        let ghost before = path@;
        path.push(start[k].clone());
        assert(seq_views(path@) =~= seq_views(before).push(start@[k as int]@));
        assert(seq_views(start@.take(k + 1)) =~= seq_views(start@.take(k as int)).push(
            start@[k as int]@,
        ));
        k = k + 1;
    }
    assert(start@.take(k as int) =~= start@);
    let ghost origin = seq_views(start@);
    let ghost all = seq_views(comps@);
    let mut i: usize = 0;
    while i < comps.len()
        invariant
            i <= comps@.len(),
            origin == seq_views(start@),
            all == seq_views(comps@),
            seq_views(path@) == walk(origin, all.take(i as int)),
        decreases comps@.len() - i,
    {
        let c = &comps[i];
        proof {
            assert(all.take(i + 1).drop_last() =~= all.take(i as int));
            assert(all.take(i + 1).last() == c@);
        }
        if same_text(c.as_str(), ".") {
            proof {
                reveal_strlit(".");
                assert(c@ =~= current_dir());
            }
        } else if same_text(c.as_str(), "..") {
            proof {
                reveal_strlit(".");
                reveal_strlit("..");
                assert(c@ =~= parent_dir());
                assert(c@ != current_dir());
            }
            if path.len() > 0 {
                let ghost before = path@;
                path.pop();
                assert(seq_views(path@) =~= seq_views(before).drop_last());
            }
        } else {
            proof {
                reveal_strlit(".");
                reveal_strlit("..");
                assert(current_dir() =~= ".".view());
                assert(parent_dir() =~= "..".view());
            }
            let ghost before = path@;
            path.push(c.clone());
            assert(seq_views(path@) =~= seq_views(before).push(c@));
        }
        i = i + 1;
    }
    assert(all.take(i as int) =~= all);
    path
}

/// Whether `path` begins with the components of `root`.
pub fn has_prefix(path: &Vec<String>, root: &Vec<String>) -> (r: bool)
    ensures
        r == seq_views(root@).is_prefix_of(seq_views(path@)),
{
    if root.len() > path.len() {
        return false;
    }
    let mut i: usize = 0;
    while i < root.len()
        invariant
            root@.len() <= path@.len(),
            i <= root@.len(),
            forall|j: int| 0 <= j < i ==> root@[j]@ == path@[j]@,
        decreases root@.len() - i,
    {
        if root[i] != path[i] {
            proof {
                assert(seq_views(path@)[i as int] != seq_views(root@)[i as int]);
            }
            return false;
        }
        i = i + 1;
    }
    assert(seq_views(root@) =~= seq_views(path@).take(root@.len() as int));
    true
}

/// The absolute path string of the components `cs`.
pub fn render(cs: &Vec<String>) -> (r: String)
    ensures
        r@ == rendered(seq_views(cs@)),
{
    let mut out = String::from_str("/");
    let ghost all = seq_views(cs@);
    let mut i: usize = 0;
    proof {
        reveal_strlit("/");
    }
    while i < cs.len()
        invariant
            i <= cs@.len(),
            all == seq_views(cs@),
            out@ == seq!['/'] + joined(all.take(i as int)),
        decreases cs@.len() - i,
    {
        proof {
            assert(all.take(i + 1).drop_last() =~= all.take(i as int));
        }
        if i > 0 {
            out.append("/");
        }
        out.append(cs[i].as_str());
        proof {
            reveal_strlit("/");
            if i == 0 {
                assert(all.take(1) =~= seq![cs@[0]@]);
                assert(out@ =~= seq!['/'] + joined(all.take(1)));
            } else {
                assert(out@ =~= seq!['/'] + joined(all.take(i + 1)));
            }
        }
        i = i + 1;
    }
    assert(all.take(i as int) =~= all);
    out
}

/// The components other than `.`.
pub open spec fn named(cs: Seq<Seq<char>>) -> Seq<Seq<char>>
    decreases cs.len(),
{
    if cs.len() == 0 {
        Seq::empty()
    } else if cs.last() == current_dir() {
        named(cs.drop_last())
    } else {
        named(cs.drop_last()).push(cs.last())
    }
}

/// `n` components `..`.
pub open spec fn parents(n: nat) -> Seq<Seq<char>> {
    Seq::new(n, |i: int| parent_dir())
}

/// Walking two sequences of components one after the other is walking their
/// concatenation.
pub proof fn lemma_walk_append(start: Seq<Seq<char>>, a: Seq<Seq<char>>, b: Seq<Seq<char>>)
    ensures
        walk(start, a + b) == walk(walk(start, a), b),
    decreases b.len(),
{
    if b.len() == 0 {
        assert(a + b =~= a);
    } else {
        assert((a + b).drop_last() =~= a + b.drop_last());
        assert((a + b).last() == b.last());
        lemma_walk_append(start, a, b.drop_last());
    }
}

/// Each `..` removes one component, until none is left.
pub proof fn lemma_walk_parents(start: Seq<Seq<char>>, n: nat)
    ensures
        walk(start, parents(n)) == start.take(
            if n <= start.len() {
                start.len() - n
            } else {
                0
            },
        ),
    decreases n,
{
    if n == 0 {
        assert(parents(0) =~= Seq::<Seq<char>>::empty());
        assert(start.take(start.len() as int) =~= start);
    } else {
        assert(parents(n).drop_last() =~= parents((n - 1) as nat));
        assert(parents(n).last() == parent_dir());
        assert(parent_dir() != current_dir());
        lemma_walk_parents(start, (n - 1) as nat);
        let prev = walk(start, parents((n - 1) as nat));
        assert(walk(start, parents(n)) == step(prev, parent_dir()));
        if n <= start.len() {
            assert(prev == start.take(start.len() - n + 1));
            assert(prev.drop_last() =~= start.take(start.len() - n));
        } else {
            assert(prev == start.take(0));
            assert(prev.len() == 0);
        }
    }
}

/// Without `..`, a walk appends every component but `.`.
pub proof fn lemma_walk_without_parents(start: Seq<Seq<char>>, cs: Seq<Seq<char>>)
    requires
        forall|i: int| 0 <= i < cs.len() ==> cs[i] != parent_dir(),
    ensures
        walk(start, cs) == start + named(cs),
    decreases cs.len(),
{
    if cs.len() == 0 {
        assert(start + named(cs) =~= start);
    } else {
        lemma_walk_without_parents(start, cs.drop_last());
        if cs.last() == current_dir() {
        } else {
            assert(start + named(cs) =~= (start + named(cs.drop_last())).push(cs.last()));
        }
    }
}

/// `s` without the separators `/` at its start.
pub open spec fn trim_separators(s: Seq<char>) -> Seq<char>
    decreases s.len(),
{
    if s.len() > 0 && s[0] == '/' {
        trim_separators(s.drop_first())
    } else {
        s
    }
}

/// Drops the separators `/` at the start of `s`.
pub fn trim_leading_separators(s: &str) -> (r: &str)
    ensures
        r@ == trim_separators(s@),
{
    let n = s.unicode_len();
    let mut i: usize = 0;
    assert(s@.skip(0) =~= s@);
    while i < n && s.get_char(i) == '/'
        invariant
            n == s@.len(),
            i <= n,
            trim_separators(s@) == trim_separators(s@.skip(i as int)),
        decreases n - i,
    {
        assert(s@.skip(i as int).drop_first() =~= s@.skip(i + 1));
        i = i + 1;
    }
    let r = s.substring_char(i, n);
    assert(r@ =~= s@.skip(i as int));
    r
}

} // verus!
