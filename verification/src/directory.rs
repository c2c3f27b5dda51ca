//! The node directory: the sole authority for "is this node online".
//!
//! It holds the names of the connected nodes, in connection order, and
//! maintains the broker's first invariant: at most one node is
//! registered under a given name at any moment.  The driver keeps the
//! socket of each listed node under the same name.

use vstd::prelude::*;

verus! {

/// The directory of online node names, unique and in connection order.
pub struct NodeList {
    names: Vec<String>,
}

impl View for NodeList {
    type V = Seq<Seq<char>>;

    closed spec fn view(&self) -> Seq<Seq<char>> {
        self.names.deep_view()
    }
}

impl NodeList {
    /// Directory uniqueness: no name is registered twice.
    pub open spec fn wf(&self) -> bool {
        forall|i: int, j: int| 0 <= i < j < self@.len() ==> self@[i] != self@[j]
    }

    /// An empty directory.
    pub fn new() -> (r: NodeList)
        ensures
            r@ == Seq::<Seq<char>>::empty(),
            r.wf(),
    {
        NodeList { names: Vec::new() }
    }

    /// How many nodes are online.
    pub fn len(&self) -> (r: usize)
        ensures
            r == self@.len(),
    {
        self.names.len()
    }

    /// The name at a position, for walks over the directory.
    pub fn at(&self, i: usize) -> (r: &String)
        requires
            i < self@.len(),
        ensures
            r@ == self@[i as int],
    {
        proof {
            assert(self@[i as int] == self.names@[i as int]@);
        }
        &self.names[i]
    }

    /// Whether `name` is online.
    #[verifier::loop_isolation(false)]
    pub fn contains(&self, name: &str) -> (r: bool)
        ensures
            r == self@.contains(name@),
    {
        let n = self.names.len();
        let mut i: usize = 0;
        while i < n
            invariant
                0 <= i <= n,
                n == self@.len(),
                forall|k: int| 0 <= k < i ==> self@[k] != name@,
            decreases n - i,
        {
            proof {
                assert(self@[i as int] == self.names@[i as int]@);
            }
            if crate::name::str_eq(self.names[i].as_str(), name) {
                assert(self@.contains(name@));
                return true;
            }
            i = i + 1;
        }
        false
    }

    /// Registers a new node at the end of the directory.
    pub fn insert(&mut self, name: String)
        requires
            old(self).wf(),
            !old(self)@.contains(name@),
        ensures
            final(self)@ == old(self)@.push(name@),
            final(self).wf(),
    {
        let ghost oldv = self@;
        self.names.push(name);
        proof {
            assert(self@ =~= oldv.push(name@));
        }
    }

    /// Removes `name` if it is online; reports whether it was.
    #[verifier::loop_isolation(false)]
    pub fn remove(&mut self, name: &str) -> (r: bool)
        requires
            old(self).wf(),
        ensures
            r == old(self)@.contains(name@),
            final(self)@ == old(self)@.remove_value(name@),
            final(self).wf(),
            !final(self)@.contains(name@),
    {
        let ghost oldv = self@;
        let n = self.names.len();
        let mut i: usize = 0;
        while i < n
            invariant
                0 <= i <= n,
                n == self@.len(),
                self@ == oldv,
                forall|k: int| 0 <= k < i ==> self@[k] != name@,
            decreases n - i,
        {
            proof {
                assert(self@[i as int] == self.names@[i as int]@);
            }
            if crate::name::str_eq(self.names[i].as_str(), name) {
                proof {
                    assert(oldv.contains(name@));
                    oldv.index_of_first_ensures(name@);
                    let fi = oldv.index_of_first(name@)->Some_0;
                    assert(oldv[fi] == name@);
                    if fi < i {
                        assert(oldv[fi] != name@);
                    }
                    assert(oldv.index_of_first(name@) == Some(i as int));
                }
                let ghost old_names = self.names@;
                self.names.remove(i);
                proof {
                    old_names.remove_ensures(i as int);
                    oldv.remove_ensures(i as int);
                    assert forall|t: int|
                        0 <= t < self@.len() implies self@[t] == oldv.remove(i as int)[t] by {
                        assert(self@[t] == self.names@[t]@);
                        if t < i {
                            assert(self.names@[t] == old_names[t]);
                            assert(oldv[t] == old_names[t]@);
                        } else {
                            assert(self.names@[t] == old_names[t + 1]);
                            assert(oldv[t + 1] == old_names[t + 1]@);
                        }
                    }
                    assert(self@ =~= oldv.remove(i as int));
                    assert(!self@.contains(name@)) by {
                        if self@.contains(name@) {
                            let w = choose|w: int| 0 <= w < self@.len() && self@[w] == name@;
                            if w < i {
                                assert(oldv[w] == name@);
                            } else {
                                assert(oldv[w + 1] == name@);
                            }
                        }
                    }
                }
                return true;
            }
            i = i + 1;
        }
        proof {
            oldv.index_of_first_ensures(name@);
            assert(!oldv.contains(name@));
            assert(self@ == oldv.remove_value(name@));
        }
        false
    }
}

/// Directory uniqueness, as a statement on its own: a well-formed
/// directory registers at most one node under any name.
pub proof fn lemma_directory_unique(d: &NodeList, i: int, j: int)
    requires
        d.wf(),
        0 <= i < d@.len(),
        0 <= j < d@.len(),
        d@[i] == d@[j],
    ensures
        i == j,
{
}

} // verus!
