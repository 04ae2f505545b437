use vstd::prelude::*;

use crate::dir::Dir;
use crate::path::Path;

verus! {

/// Whether the root list holds a tree under that account name.
pub open spec fn has_root(rs: Seq<(String, Dir)>, n: Seq<char>) -> bool {
    exists|i: int| 0 <= i < rs.len() && rs[i].0@ == n
}

/// The index of the tree of that account, when one exists.
pub open spec fn root_idx(rs: Seq<(String, Dir)>, n: Seq<char>) -> int {
    choose|i: int| 0 <= i < rs.len() && rs[i].0@ == n
}

/// Pairwise distinct account names.
pub open spec fn unique_root_keys(rs: Seq<(String, Dir)>) -> bool {
    forall|i: int, j: int| 0 <= i < j < rs.len() ==> rs[i].0@ != rs[j].0@
}

/// The object-browsing view's state: one rebuilt directory tree per
/// account, and the path the user is looking at.
#[derive(Debug)]
pub struct Cloud {
    pub clients_roots: Vec<(String, Dir)>,
    pub current_path: Path,
    pub is_creating_folder: bool,
    pub new_dir_name: String,
}

impl Cloud {
    /// Every tree is keyed by one account name, and is well formed.
    pub open spec fn wf(self) -> bool {
        &&& unique_root_keys(self.clients_roots@)
        &&& forall|i: int|
            0 <= i < self.clients_roots@.len() ==> (#[trigger] self.clients_roots@[i]).1.wf()
    }

    /// A blank browsing view: no trees, looking at the root path.
    pub fn new() -> (r: Self)
        ensures
            r.clients_roots@ == Seq::<(String, Dir)>::empty(),
            r.current_path.raw() == seq!['/'],
            r.current_path.comps() == Seq::<Seq<char>>::empty(),
            r.current_path.wf(),
            r.is_creating_folder == false,
            r.new_dir_name@ == Seq::<char>::empty(),
            r.wf(),
    {
        let r = Self {
            clients_roots: Vec::new(),
            current_path: Path::default(),
            is_creating_folder: false,
            new_dir_name: String::new(),
        };
        r
    }

    /// Replaces the tree kept for one account, or adds it when none was
    /// kept: the previous tree for that account is discarded wholesale.
    #[verifier::loop_isolation(false)]
    pub fn set_root(&mut self, name: String, root: Dir)
        requires
            old(self).wf(),
            root.wf(),
        ensures
            final(self).wf(),
            final(self).current_path == old(self).current_path,
            final(self).is_creating_folder == old(self).is_creating_folder,
            final(self).new_dir_name == old(self).new_dir_name,
            if has_root(old(self).clients_roots@, name@) {
                final(self).clients_roots@ == old(self).clients_roots@.update(
                    root_idx(old(self).clients_roots@, name@),
                    (name, root),
                )
            } else {
                final(self).clients_roots@ == old(self).clients_roots@.push((name, root))
            },
    {
        let ghost pre = self.clients_roots@;
        match self.find_root_index(&name) {
            Some(j) => {
                proof {
                    assert(pre[j as int].0@ == name@);
                    assert(has_root(pre, name@));
                    assert forall|t: int| 0 <= t < pre.len() && pre[t].0@ == name@ implies t
                        == j as int by {
                        if (j as int) < t {
                            assert(pre[j as int].0@ != pre[t].0@);
                        }
                    }
                    assert(root_idx(pre, name@) == j as int);
                }
                self.clients_roots[j] = (name, root);
                proof {
                    assert forall|a: int, b: int|
                        0 <= a < b < self.clients_roots@.len() implies self.clients_roots@[a].0@
                        != self.clients_roots@[b].0@ by {
                        assert(self.clients_roots@[a].0@ == pre[a].0@ || a == j as int);
                        assert(self.clients_roots@[b].0@ == pre[b].0@ || b == j as int);
                    }
                }
            },
            None => {
                self.clients_roots.push((name, root));
                proof {
                    assert forall|a: int, b: int|
                        0 <= a < b < self.clients_roots@.len() implies self.clients_roots@[a].0@
                        != self.clients_roots@[b].0@ by {
                        if b == pre.len() as int {
                            assert(self.clients_roots@[a].0@ == pre[a].0@);
                            if pre[a].0@ == name@ {
                                assert(has_root(pre, name@));
                            }
                        }
                    }
                }
            },
        }
    }

    /// The position of the tree kept for that account, if any.
    fn find_root_index(&self, name: &String) -> (r: Option<usize>)
        ensures
            match r {
                Some(k) => k < self.clients_roots@.len() && self.clients_roots@[k as int].0@
                    == name@,
                None => !has_root(self.clients_roots@, name@),
            },
    {
        let mut j: usize = 0;
        while j < self.clients_roots.len()
            invariant
                j <= self.clients_roots@.len(),
                forall|t: int| 0 <= t < j ==> self.clients_roots@[t].0@ != name@,
            decreases self.clients_roots@.len() - j,
        {
            if self.clients_roots[j].0 == *name {
                return Some(j);
            }
            j = j + 1;
        }
        None
    }
}

} // verus!
