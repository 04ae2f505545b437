use vstd::prelude::*;
use vstd::multiset::Multiset;

use crate::file::{File, FileShape};
use crate::path::{seq_views, Path};

verus! {

/// The shape of a directory node, for specification: the files directly
/// inside it as an unordered collection, and the children keyed by name.
#[verifier::ext_equal]
pub struct DirShape {
    pub name: Seq<char>,
    pub files: Multiset<FileShape>,
    pub children: Map<Seq<char>, DirShape>,
}

impl DirShape {
    /// A freshly created, empty node.
    pub open spec fn empty(name: Seq<char>) -> DirShape {
        DirShape { name, files: Multiset::empty(), children: Map::empty() }
    }
}

/// The shape of the empty tree root.
pub open spec fn root_shape() -> DirShape {
    DirShape::empty(seq!['/'])
}

/// Descending along `comps`, creating every missing node, and returning the
/// changed tree.
pub open spec fn shape_add_path(t: DirShape, comps: Seq<Seq<char>>) -> DirShape
    decreases comps.len(),
{
    if comps.len() == 0 {
        t
    } else {
        let n = comps[0];
        let child = if t.children.contains_key(n) {
            t.children[n]
        } else {
            DirShape::empty(n)
        };
        DirShape {
            children: t.children.insert(n, shape_add_path(child, comps.drop_first())),
            ..t
        }
    }
}

/// Resolving `comps` against the tree: the node reached by walking children
/// by name, or nothing as soon as one component is missing.
pub open spec fn shape_find(t: DirShape, comps: Seq<Seq<char>>) -> Option<DirShape>
    decreases comps.len(),
{
    if comps.len() == 0 {
        Some(t)
    } else if t.children.contains_key(comps[0]) {
        shape_find(t.children[comps[0]], comps.drop_first())
    } else {
        None
    }
}

/// Descending along `comps`, creating every missing node, and placing the
/// file in the node reached.
pub open spec fn shape_add_file_at(t: DirShape, comps: Seq<Seq<char>>, f: FileShape) -> DirShape
    decreases comps.len(),
{
    if comps.len() == 0 {
        DirShape { files: t.files.insert(f), ..t }
    } else {
        let n = comps[0];
        let child = if t.children.contains_key(n) {
            t.children[n]
        } else {
            DirShape::empty(n)
        };
        DirShape {
            children: t.children.insert(n, shape_add_file_at(child, comps.drop_first(), f)),
            ..t
        }
    }
}

/// The components of the directory a file belongs in: its path with the last
/// component removed.
pub open spec fn file_parent(f: FileShape) -> Seq<Seq<char>> {
    if f.comps.len() > 0 {
        f.comps.drop_last()
    } else {
        f.comps
    }
}

/// Placing one file in the tree, under its parent path.
pub open spec fn shape_add_file(t: DirShape, f: FileShape) -> DirShape {
    shape_add_file_at(t, file_parent(f), f)
}

/// The tree rebuilt from scratch from a flat list of files.
pub open spec fn shape_build(files: Seq<FileShape>) -> DirShape
    decreases files.len(),
{
    if files.len() == 0 {
        root_shape()
    } else {
        shape_add_file(shape_build(files.drop_last()), files.last())
    }
}

/// The index of the child of that name, when one exists.
pub open spec fn child_idx(cs: Seq<Dir>, n: Seq<char>) -> int {
    choose|i: int| 0 <= i < cs.len() && cs[i].name@ == n
}

/// Whether a child of that name exists.
pub open spec fn has_child(cs: Seq<Dir>, n: Seq<char>) -> bool {
    exists|i: int| 0 <= i < cs.len() && cs[i].name@ == n
}

/// Pairwise distinct child names.
pub open spec fn unique_names(cs: Seq<Dir>) -> bool {
    forall|i: int, j: int| 0 <= i < j < cs.len() ==> cs[i].name@ != cs[j].name@
}

/// A node in the virtual directory tree: a name, the files directly
/// contained, and the child directories, one per name.
#[derive(Debug)]
pub struct Dir {
    pub name: String,
    pub files: Vec<File>,
    pub children_dirs: Vec<Dir>,
}

/// The children of a node as a map from name to child shape.
pub open spec fn kids(cs: Seq<Dir>) -> Map<Seq<char>, DirShape>
    decreases cs,
{
    Map::new(
        |n: Seq<char>| has_child(cs, n),
        |n: Seq<char>|
            if has_child(cs, n) {
                cs[child_idx(cs, n)].shape()
            } else {
                DirShape::empty(n)
            },
    )
}

impl Dir {
    /// The shape of this node: name, unordered file collection, and the
    /// children as a map from name to child shape.
    pub open spec fn shape(self) -> DirShape
        decreases self,
    {
        DirShape {
            name: self.name@,
            files: self.files@.map_values(|f: File| f@).to_multiset(),
            children: kids(self.children_dirs@),
        }
    }

    /// Well-formed: the children carry pairwise distinct names and are
    /// themselves well-formed.
    pub open spec fn wf(self) -> bool
        decreases self,
    {
        &&& unique_names(self.children_dirs@)
        &&& forall|i: int|
            0 <= i < self.children_dirs@.len() ==> (#[trigger] self.children_dirs@[i]).wf()
    }
}

/// Walking the same component sequence a second time changes nothing: no
/// duplicate subtree is ever created.
pub proof fn lemma_shape_add_path_idempotent(t: DirShape, comps: Seq<Seq<char>>)
    ensures
        shape_add_path(shape_add_path(t, comps), comps) == shape_add_path(t, comps),
    decreases comps.len(),
{
    if comps.len() == 0 {
    } else {
        let n = comps[0];
        let rest = comps.drop_first();
        let child = if t.children.contains_key(n) {
            t.children[n]
        } else {
            DirShape::empty(n)
        };
        let t1 = shape_add_path(t, comps);
        assert(t1.children == t.children.insert(n, shape_add_path(child, rest)));
        assert(t1.children.contains_key(n));
        assert(t1.children[n] == shape_add_path(child, rest));
        lemma_shape_add_path_idempotent(child, rest);
        assert(t1.children.insert(n, shape_add_path(t1.children[n], rest)) =~= t1.children);
        assert(shape_add_path(t1, comps) =~= t1);
    }
}

/// After the walk, the node at the walked components exists; the walk
/// touches no file anywhere.
pub proof fn lemma_shape_add_path_found(t: DirShape, comps: Seq<Seq<char>>)
    ensures
        shape_find(shape_add_path(t, comps), comps) is Some,
    decreases comps.len(),
{
    if comps.len() == 0 {
    } else {
        let n = comps[0];
        let rest = comps.drop_first();
        let child = if t.children.contains_key(n) {
            t.children[n]
        } else {
            DirShape::empty(n)
        };
        let t1 = shape_add_path(t, comps);
        assert(t1.children.contains_key(n));
        assert(t1.children[n] == shape_add_path(child, rest));
        lemma_shape_add_path_found(child, rest);
    }
}

/// Placing two files commutes, whatever their target paths.
proof fn lemma_add_file_at_commute(
    t: DirShape,
    p1: Seq<Seq<char>>,
    f1: FileShape,
    p2: Seq<Seq<char>>,
    f2: FileShape,
)
    ensures
        shape_add_file_at(shape_add_file_at(t, p1, f1), p2, f2) == shape_add_file_at(
            shape_add_file_at(t, p2, f2),
            p1,
            f1,
        ),
    decreases p1.len() + p2.len(),
{
    if p1.len() == 0 && p2.len() == 0 {
        assert(t.files.insert(f1).insert(f2) =~= t.files.insert(f2).insert(f1));
        assert(shape_add_file_at(shape_add_file_at(t, p1, f1), p2, f2) =~= shape_add_file_at(
            shape_add_file_at(t, p2, f2),
            p1,
            f1,
        ));
    } else if p1.len() == 0 {
        assert(shape_add_file_at(shape_add_file_at(t, p1, f1), p2, f2) =~= shape_add_file_at(
            shape_add_file_at(t, p2, f2),
            p1,
            f1,
        ));
    } else if p2.len() == 0 {
        assert(shape_add_file_at(shape_add_file_at(t, p1, f1), p2, f2) =~= shape_add_file_at(
            shape_add_file_at(t, p2, f2),
            p1,
            f1,
        ));
    } else if p1[0] == p2[0] {
        let n = p1[0];
        let child = if t.children.contains_key(n) {
            t.children[n]
        } else {
            DirShape::empty(n)
        };
        lemma_add_file_at_commute(child, p1.drop_first(), f1, p2.drop_first(), f2);
        let a = shape_add_file_at(t, p1, f1);
        let b = shape_add_file_at(t, p2, f2);
        assert(a.children[n] == shape_add_file_at(child, p1.drop_first(), f1));
        assert(b.children[n] == shape_add_file_at(child, p2.drop_first(), f2));
        assert(a.children.insert(
            n,
            shape_add_file_at(shape_add_file_at(child, p1.drop_first(), f1), p2.drop_first(), f2),
        ) =~= b.children.insert(
            n,
            shape_add_file_at(shape_add_file_at(child, p2.drop_first(), f2), p1.drop_first(), f1),
        ));
        assert(shape_add_file_at(a, p2, f2) =~= shape_add_file_at(b, p1, f1));
    } else {
        let n1 = p1[0];
        let n2 = p2[0];
        let c1 = if t.children.contains_key(n1) {
            t.children[n1]
        } else {
            DirShape::empty(n1)
        };
        let c2 = if t.children.contains_key(n2) {
            t.children[n2]
        } else {
            DirShape::empty(n2)
        };
        let a = shape_add_file_at(t, p1, f1);
        let b = shape_add_file_at(t, p2, f2);
        assert(a.children.insert(n2, shape_add_file_at(c2, p2.drop_first(), f2)) =~= b
            .children.insert(n1, shape_add_file_at(c1, p1.drop_first(), f1)));
        assert(shape_add_file_at(a, p2, f2) =~= shape_add_file_at(b, p1, f1));
    }
}

/// The tree built from a list equals one file placed on top of the tree
/// built from the list without it, wherever that file stood.
proof fn lemma_build_pick(fs: Seq<FileShape>, i: int)
    requires
        0 <= i < fs.len(),
    ensures
        shape_build(fs) == shape_add_file(shape_build(fs.remove(i)), fs[i]),
    decreases fs.len(),
{
    if i == fs.len() - 1 {
        assert(fs.remove(i) =~= fs.drop_last());
    } else {
        let dl = fs.drop_last();
        lemma_build_pick(dl, i);
        lemma_add_file_at_commute(
            shape_build(dl.remove(i)),
            file_parent(fs[i]),
            fs[i],
            file_parent(fs.last()),
            fs.last(),
        );
        assert(fs.remove(i).drop_last() =~= dl.remove(i));
        assert(fs.remove(i).last() == fs.last());
        assert(shape_build(fs.remove(i)) == shape_add_file(
            shape_build(dl.remove(i)),
            fs.last(),
        ));
    }
}

/// Rebuilding from two lists holding the same files, in whatever order,
/// yields the very same tree shape: same children keys and same file
/// membership at every node.
pub proof fn lemma_shape_build_permutation(fs1: Seq<FileShape>, fs2: Seq<FileShape>)
    requires
        fs1.to_multiset() == fs2.to_multiset(),
    ensures
        shape_build(fs1) == shape_build(fs2),
    decreases fs2.len(),
{
    broadcast use vstd::seq_lib::group_to_multiset_ensures;

    if fs2.len() == 0 {
        assert(fs1.len() == fs1.to_multiset().len());
        assert(fs1.len() == 0);
    } else {
        let x = fs2.last();
        let fs2p = fs2.drop_last();
        assert(fs2p.push(x) =~= fs2);
        assert(fs2.to_multiset() == fs2p.to_multiset().insert(x));
        assert(fs2.to_multiset().count(x) > 0);
        assert(fs1.to_multiset().count(x) > 0);
        assert(fs1.contains(x));
        let i = choose|i: int| 0 <= i < fs1.len() && fs1[i] == x;
        assert(fs1.remove(i).to_multiset() == fs1.to_multiset().remove(x));
        assert(fs1.remove(i).to_multiset() =~= fs2p.to_multiset());
        lemma_shape_build_permutation(fs1.remove(i), fs2p);
        lemma_build_pick(fs1, i);
        assert(shape_build(fs2) == shape_add_file(shape_build(fs2p), x));
    }
}

/// With distinct names, the chosen index is the one index bearing the name.
proof fn lemma_child_idx(cs: Seq<Dir>, n: Seq<char>)
    requires
        unique_names(cs),
        has_child(cs, n),
    ensures
        0 <= child_idx(cs, n) < cs.len(),
        cs[child_idx(cs, n)].name@ == n,
        forall|i: int| 0 <= i < cs.len() && cs[i].name@ == n ==> i == child_idx(cs, n),
{
    let k = child_idx(cs, n);
    assert(0 <= k < cs.len() && cs[k].name@ == n);
    assert forall|i: int| 0 <= i < cs.len() && cs[i].name@ == n implies i == k by {
        if i < k {
            assert(cs[i].name@ != cs[k].name@);
        } else if k < i {
            assert(cs[k].name@ != cs[i].name@);
        }
    }
}

/// Replacing the child at one index by one of the same name updates exactly
/// that entry of the children map.
proof fn lemma_kids_update(cs: Seq<Dir>, k: int, c: Dir)
    requires
        unique_names(cs),
        0 <= k < cs.len(),
        c.name@ == cs[k].name@,
    ensures
        unique_names(cs.update(k, c)),
        kids(cs.update(k, c)) == kids(cs).insert(c.name@, c.shape()),
{
    let cs2 = cs.update(k, c);
    assert forall|i: int, j: int| 0 <= i < j < cs2.len() implies cs2[i].name@ != cs2[j].name@ by {
        assert(cs2[i].name@ == cs[i].name@);
        assert(cs2[j].name@ == cs[j].name@);
    }
    assert forall|n: Seq<char>| #[trigger] has_child(cs, n) implies has_child(cs2, n) by {
        lemma_child_idx(cs, n);
        let i = child_idx(cs, n);
        assert(cs2[i].name@ == n);
    }
    assert forall|n: Seq<char>| #[trigger] has_child(cs2, n) implies has_child(cs, n) by {
        lemma_child_idx(cs2, n);
        let i = child_idx(cs2, n);
        assert(cs[i].name@ == n);
    }
    assert forall|n: Seq<char>| #[trigger] has_child(cs2, n) && n != c.name@ implies cs2[child_idx(
        cs2,
        n,
    )] == cs[child_idx(cs, n)] by {
        lemma_child_idx(cs2, n);
        lemma_child_idx(cs, n);
        let i = child_idx(cs2, n);
        assert(i != k);
        assert(cs[i].name@ == n);
        assert(child_idx(cs, n) == i);
    }
    assert(cs2[k] == c);
    assert(has_child(cs2, c.name@));
    lemma_child_idx(cs2, c.name@);
    assert(cs2[child_idx(cs2, c.name@)] == c);
    assert(kids(cs2) =~= kids(cs).insert(c.name@, c.shape()));
}

/// Appending a child under a fresh name adds exactly one entry to the
/// children map.
proof fn lemma_kids_push(cs: Seq<Dir>, c: Dir)
    requires
        unique_names(cs),
        !has_child(cs, c.name@),
    ensures
        unique_names(cs.push(c)),
        kids(cs.push(c)) == kids(cs).insert(c.name@, c.shape()),
{
    let cs2 = cs.push(c);
    assert forall|i: int, j: int| 0 <= i < j < cs2.len() implies cs2[i].name@ != cs2[j].name@ by {
        if j < cs.len() {
            assert(cs2[i].name@ == cs[i].name@);
            assert(cs2[j].name@ == cs[j].name@);
        } else {
            assert(cs2[j] == c);
            assert(cs2[i].name@ == cs[i].name@);
            if cs[i].name@ == c.name@ {
                assert(has_child(cs, c.name@));
            }
        }
    }
    assert forall|n: Seq<char>| #[trigger] has_child(cs, n) implies has_child(cs2, n) by {
        lemma_child_idx(cs, n);
        let i = child_idx(cs, n);
        assert(cs2[i].name@ == n);
    }
    assert(cs2[cs.len() as int] == c);
    assert(has_child(cs2, c.name@));
    assert forall|n: Seq<char>| #[trigger] has_child(cs2, n) && n != c.name@ implies has_child(
        cs,
        n,
    ) && cs2[child_idx(cs2, n)] == cs[child_idx(cs, n)] by {
        lemma_child_idx(cs2, n);
        let i = child_idx(cs2, n);
        if i == cs.len() {
            assert(cs2[i] == c);
        }
        assert(cs[i].name@ == n);
        assert(has_child(cs, n));
        lemma_child_idx(cs, n);
        assert(child_idx(cs, n) == i);
    }
    lemma_child_idx(cs2, c.name@);
    assert(cs2[child_idx(cs2, c.name@)] == c);
    assert(kids(cs2) =~= kids(cs).insert(c.name@, c.shape()));
}

impl Dir {
    /// A fresh, empty directory of that name.
    pub fn new(name: &str) -> (r: Self)
        ensures
            r.shape() == DirShape::empty(name@),
            r.wf(),
    {
        let r = Self { name: String::from_str(name), files: Vec::new(), children_dirs: Vec::new() };
        proof {
            broadcast use vstd::seq_lib::group_to_multiset_ensures;

            assert(r.files@.map_values(|f: File| f@) =~= Seq::<FileShape>::empty());
            assert(r.files@.map_values(|f: File| f@).to_multiset() =~= Multiset::empty());
            assert(kids(r.children_dirs@) =~= Map::<Seq<char>, DirShape>::empty());
            assert(r.shape() =~= DirShape::empty(name@));
        }
        r
    }

    /// The root of a tree, bearing the reserved top name.
    pub fn root() -> (r: Self)
        ensures
            r.shape() == root_shape(),
            r.wf(),
    {
        proof {
            reveal_strlit("/");
            assert("/"@ =~= seq!['/']);
        }
        Self::new("/")
    }

    /// The position of the child of that name, if one exists.
    fn find_child_index(&self, name: &String) -> (r: Option<usize>)
        ensures
            match r {
                Some(k) => k < self.children_dirs@.len() && self.children_dirs@[k as int].name@
                    == name@,
                None => !has_child(self.children_dirs@, name@),
            },
    {
        let mut j: usize = 0;
        while j < self.children_dirs.len()
            invariant
                j <= self.children_dirs@.len(),
                forall|i: int| 0 <= i < j ==> self.children_dirs@[i].name@ != name@,
            decreases self.children_dirs@.len() - j,
        {
            if self.children_dirs[j].name == *name {
                return Some(j);
            }
            j = j + 1;
        }
        None
    }

    /// Walks down from this node along the components from position `i` on,
    /// creating every directory still missing.
    fn add_path_rec(&mut self, components: &Vec<String>, i: usize)
        requires
            old(self).wf(),
            i <= components@.len(),
        ensures
            final(self).wf(),
            final(self).name == old(self).name,
            final(self).files == old(self).files,
            final(self).shape() == shape_add_path(
                old(self).shape(),
                seq_views(components@).skip(i as int),
            ),
        decreases components@.len() - i,
    {
        if i == components.len() {
            proof {
                assert(seq_views(components@).skip(i as int) =~= Seq::<Seq<char>>::empty());
            }
            return ;
        }
        let ghost rest = seq_views(components@).skip(i as int);
        proof {
            assert(rest.len() > 0);
            assert(rest[0] == components@[i as int]@);
            assert(rest.drop_first() =~= seq_views(components@).skip(i as int + 1));
        }
        let name = &components[i];
        let ghost pre = self.children_dirs@;
        match self.find_child_index(name) {
            Some(k) => {
                proof {
                    assert(has_child(pre, name@));
                    lemma_child_idx(pre, name@);
                    assert(child_idx(pre, name@) == k as int);
                    assert(self.shape().children[name@] == pre[k as int].shape());
                }
                let mut child = self.children_dirs.remove(k);
                child.add_path_rec(components, i + 1);
                self.children_dirs.insert(k, child);
                proof {
                    assert(self.children_dirs@ =~= pre.update(
                        k as int,
                        self.children_dirs@[k as int],
                    ));
                    let c = self.children_dirs@[k as int];
                    lemma_kids_update(pre, k as int, c);
                    assert(self.shape() =~= shape_add_path(old(self).shape(), rest));
                }
            },
            None => {
                let mut child = Dir::new(name.as_str());
                child.add_path_rec(components, i + 1);
                self.children_dirs.push(child);
                proof {
                    let c = self.children_dirs@.last();
                    assert(self.children_dirs@ =~= pre.push(c));
                    assert(c.name@ == name@);
                    lemma_kids_push(pre, c);
                    assert(!old(self).shape().children.contains_key(name@));
                    assert(c.shape() == shape_add_path(DirShape::empty(name@), rest.drop_first()));
                    assert(self.shape() =~= shape_add_path(old(self).shape(), rest));
                }
            },
        }
    }

    /// Walks the tree from this node along the given components in order,
    /// creating any missing child directory, so that afterwards the whole
    /// chain exists; walking the same components twice leaves the tree as
    /// after the first walk.
    pub fn add_new_path(&mut self, components: &Vec<String>)
        requires
            old(self).wf(),
        ensures
            final(self).wf(),
            final(self).shape() == shape_add_path(old(self).shape(), seq_views(components@)),
    {
        proof {
            assert(seq_views(components@).skip(0) =~= seq_views(components@));
        }
        self.add_path_rec(components, 0);
    }

    /// Walks down along the components from position `i` on, creating every
    /// directory still missing, and leaves the file in the node reached.
    fn add_file_rec(&mut self, components: &Vec<String>, i: usize, file: File)
        requires
            old(self).wf(),
            i <= components@.len(),
        ensures
            final(self).wf(),
            final(self).name == old(self).name,
            final(self).shape() == shape_add_file_at(
                old(self).shape(),
                seq_views(components@).skip(i as int),
                file@,
            ),
        decreases components@.len() - i,
    {
        if i == components.len() {
            proof {
                broadcast use vstd::seq_lib::group_to_multiset_ensures;

                assert(seq_views(components@).skip(i as int) =~= Seq::<Seq<char>>::empty());
            }
            let ghost pre_files = self.files@;
            self.files.push(file);
            proof {
                assert(self.files@.map_values(|f: File| f@) =~= pre_files.map_values(
                    |f: File| f@,
                ).push(file@));
                broadcast use vstd::seq_lib::group_to_multiset_ensures;

                assert(self.shape() =~= shape_add_file_at(
                    old(self).shape(),
                    seq_views(components@).skip(i as int),
                    file@,
                ));
            }
            return ;
        }
        let ghost rest = seq_views(components@).skip(i as int);
        proof {
            assert(rest.len() > 0);
            assert(rest[0] == components@[i as int]@);
            assert(rest.drop_first() =~= seq_views(components@).skip(i as int + 1));
        }
        let name = &components[i];
        let ghost pre = self.children_dirs@;
        match self.find_child_index(name) {
            Some(k) => {
                proof {
                    assert(has_child(pre, name@));
                    lemma_child_idx(pre, name@);
                    assert(child_idx(pre, name@) == k as int);
                    assert(self.shape().children[name@] == pre[k as int].shape());
                }
                let mut child = self.children_dirs.remove(k);
                child.add_file_rec(components, i + 1, file);
                self.children_dirs.insert(k, child);
                proof {
                    assert(self.children_dirs@ =~= pre.update(
                        k as int,
                        self.children_dirs@[k as int],
                    ));
                    let c = self.children_dirs@[k as int];
                    lemma_kids_update(pre, k as int, c);
                    assert(self.shape() =~= shape_add_file_at(old(self).shape(), rest, file@));
                }
            },
            None => {
                let mut child = Dir::new(name.as_str());
                child.add_file_rec(components, i + 1, file);
                self.children_dirs.push(child);
                proof {
                    let c = self.children_dirs@.last();
                    assert(self.children_dirs@ =~= pre.push(c));
                    assert(c.name@ == name@);
                    lemma_kids_push(pre, c);
                    assert(!old(self).shape().children.contains_key(name@));
                    assert(self.shape() =~= shape_add_file_at(old(self).shape(), rest, file@));
                }
            },
        }
    }

    /// Resolves a path against the tree by walking children by name; the
    /// answer is nothing as soon as any component is missing, even if the
    /// earlier components matched.
    pub fn find_directory_by_relative_path(&self, path: &Path) -> (r: Option<&Dir>)
        requires
            self.wf(),
        ensures
            match r {
                Some(d) => shape_find(self.shape(), path.comps()) == Some(d.shape()) && d.wf(),
                None => shape_find(self.shape(), path.comps()) is None,
            },
    {
        let components = path.components();
        let mut cur: &Dir = self;
        let mut i: usize = 0;
        proof {
            assert(seq_views(components@).skip(0) =~= path.comps());
        }
        while i < components.len()
            invariant
                i <= components@.len(),
                cur.wf(),
                seq_views(components@) == path.comps(),
                shape_find(self.shape(), path.comps()) == shape_find(
                    cur.shape(),
                    path.comps().skip(i as int),
                ),
            decreases components@.len() - i,
        {
            let ghost rest = path.comps().skip(i as int);
            proof {
                assert(rest.len() > 0);
                assert(rest[0] == components@[i as int]@);
                assert(rest.drop_first() =~= path.comps().skip(i as int + 1));
            }
            let name = &components[i];
            match cur.find_child_index(name) {
                Some(k) => {
                    proof {
                        assert(has_child(cur.children_dirs@, name@));
                        lemma_child_idx(cur.children_dirs@, name@);
                        assert(child_idx(cur.children_dirs@, name@) == k as int);
                        assert(cur.shape().children[name@] == cur.children_dirs@[k as int].shape());
                    }
                    cur = &cur.children_dirs[k];
                },
                None => {
                    proof {
                        assert(!cur.shape().children.contains_key(name@));
                    }
                    return None;
                },
            }
            i = i + 1;
        }
        proof {
            assert(path.comps().skip(i as int) =~= Seq::<Seq<char>>::empty());
        }
        Some(cur)
    }

    /// The child directories, one per name, in no promised order.
    pub fn get_children_dirs(&self) -> (r: &Vec<Dir>)
        requires
            self.wf(),
        ensures
            r@ == self.children_dirs@,
            unique_names(r@),
            forall|i: int|
                0 <= i < r@.len() ==> (#[trigger] r@[i]).wf() && self.shape().children.contains_key(
                    r@[i].name@,
                ) && self.shape().children[r@[i].name@] == r@[i].shape(),
            forall|n: Seq<char>|
                self.shape().children.contains_key(n) ==> exists|i: int|
                    0 <= i < r@.len() && (#[trigger] r@[i]).name@ == n,
    {
        proof {
            assert forall|i: int| 0 <= i < self.children_dirs@.len() implies (#[trigger] self
                .children_dirs@[i]).wf() && self.shape().children.contains_key(
                self.children_dirs@[i].name@,
            ) && self.shape().children[self.children_dirs@[i].name@]
                == self.children_dirs@[i].shape() by {
                let n = self.children_dirs@[i].name@;
                assert(has_child(self.children_dirs@, n));
                lemma_child_idx(self.children_dirs@, n);
                assert(child_idx(self.children_dirs@, n) == i);
            }
            assert forall|n: Seq<char>| self.shape().children.contains_key(n) implies exists|i: int|
                0 <= i < self.children_dirs@.len() && (#[trigger] self.children_dirs@[i]).name@
                    == n by {
                lemma_child_idx(self.children_dirs@, n);
                let k = child_idx(self.children_dirs@, n);
                assert(0 <= k < self.children_dirs@.len() && self.children_dirs@[k].name@ == n);
            }
        }
        &self.children_dirs
    }

    /// The message identifiers of the files directly inside this node, in
    /// order; files inside child directories are not included.
    pub fn get_files_messages_ids(&self) -> (r: Vec<i32>)
        ensures
            r@ == self.files@.map_values(|f: File| f.message_id),
    {
        let mut r: Vec<i32> = Vec::new();
        let mut i: usize = 0;
        while i < self.files.len()
            invariant
                i <= self.files@.len(),
                r@.len() == i,
                forall|t: int| 0 <= t < i ==> r@[t] == self.files@[t].message_id,
            decreases self.files@.len() - i,
        {
            r.push(self.files[i].message_id);
            i = i + 1;
        }
        proof {
            assert(r@ =~= self.files@.map_values(|f: File| f.message_id));
        }
        r
    }

    /// Rebuilds a tree from scratch from a flat list of files: each file is
    /// placed in the directory named by its path's parent, every directory
    /// on the way being created as needed.
    pub fn build_tree(files: &Vec<File>) -> (r: Dir)
        requires
            forall|i: int| 0 <= i < files@.len() ==> (#[trigger] files@[i]).path.wf(),
        ensures
            r.wf(),
            r.shape() == shape_build(files@.map_values(|f: File| f@)),
    {
        let mut root = Dir::root();
        let ghost fsv = files@.map_values(|f: File| f@);
        let mut i: usize = 0;
        proof {
            assert(fsv.subrange(0, 0) =~= Seq::<FileShape>::empty());
        }
        while i < files.len()
            invariant
                i <= files@.len(),
                fsv == files@.map_values(|f: File| f@),
                forall|t: int| 0 <= t < files@.len() ==> (#[trigger] files@[t]).path.wf(),
                root.wf(),
                root.shape() == shape_build(fsv.subrange(0, i as int)),
            decreases files@.len() - i,
        {
            let ghost pre_shape = root.shape();
            let file = files[i].clone();
            let parent = file.path.parent();
            let comps = parent.components();
            proof {
                assert(file@ == fsv[i as int]);
                assert(seq_views(comps@) == file_parent(file@));
            }
            root.add_file_rec(&comps, 0, file);
            proof {
                assert(seq_views(comps@).skip(0) =~= seq_views(comps@));
                assert(fsv.subrange(0, i as int + 1).drop_last() =~= fsv.subrange(0, i as int));
                assert(fsv.subrange(0, i as int + 1).last() == fsv[i as int]);
                assert(root.shape() == shape_add_file(pre_shape, fsv[i as int]));
                assert(root.shape() == shape_build(fsv.subrange(0, i as int + 1)));
            }
            i = i + 1;
        }
        proof {
            assert(fsv.subrange(0, fsv.len() as int) =~= fsv);
        }
        root
    }
}

} // verus!
