//! The subscription table: who watches which dotted node paths.
//!
//! An entry pairs a subscriber name with the set of watched paths it
//! registered through `flgon`.  A watched path concerns the node named
//! by its first dotted segment: that node's connect, disconnect and
//! `_`-prefixed events are delivered to the subscriber.  Only the
//! subscriber's own departure (or `flgoff`) removes its entries.

use vstd::prelude::*;

use crate::name::str_eq;

verus! {

/// One subscriber and its watched paths.
pub struct SubEntry {
    pub subscriber: String,
    pub paths: Vec<String>,
}

impl View for SubEntry {
    type V = (Seq<char>, Seq<Seq<char>>);

    open spec fn view(&self) -> (Seq<char>, Seq<Seq<char>>) {
        (self.subscriber@, self.paths.deep_view())
    }
}

impl DeepView for SubEntry {
    type V = (Seq<char>, Seq<Seq<char>>);

    open spec fn deep_view(&self) -> (Seq<char>, Seq<Seq<char>>) {
        self.view()
    }
}

/// Index of the first entry owned by `u`, or `m.len()` if none.
pub open spec fn sub_idx(m: Seq<(Seq<char>, Seq<Seq<char>>)>, u: Seq<char>) -> int
    decreases m.len(),
{
    if m.len() == 0 {
        0
    } else if m[0].0 == u {
        0
    } else {
        1 + sub_idx(m.drop_first(), u)
    }
}

pub proof fn lemma_sub_idx(m: Seq<(Seq<char>, Seq<Seq<char>>)>, u: Seq<char>)
    ensures
        0 <= sub_idx(m, u) <= m.len(),
        sub_idx(m, u) < m.len() ==> m[sub_idx(m, u)].0 == u,
        forall|k: int| 0 <= k < sub_idx(m, u) ==> m[k].0 != u,
    decreases m.len(),
{
    if m.len() != 0 && m[0].0 != u {
        lemma_sub_idx(m.drop_first(), u);
        assert(forall|k: int| 1 <= k < sub_idx(m, u) ==> m[k] == m.drop_first()[k - 1]);
    }
}

/// A scan that stopped at the first entry of `u` (or the end) found
/// `sub_idx`.
pub proof fn lemma_sub_idx_at(m: Seq<(Seq<char>, Seq<Seq<char>>)>, u: Seq<char>, i: int)
    requires
        0 <= i <= m.len(),
        forall|k: int| 0 <= k < i ==> m[k].0 != u,
        i < m.len() ==> m[i].0 == u,
    ensures
        sub_idx(m, u) == i,
    decreases m.len(),
{
    if m.len() != 0 && m[0].0 != u {
        assert(i >= 1);
        assert(forall|k: int| 0 <= k < i - 1 ==> m.drop_first()[k] == m[k + 1] && m[k + 1].0 != u);
        lemma_sub_idx_at(m.drop_first(), u, i - 1);
    }
}

/// What `flgon` does: a new subscriber gains an entry with the single
/// path; a known subscriber gains the path unless it is already
/// watched.  The flag reports whether the path was added.
pub open spec fn spec_flgon(
    m: Seq<(Seq<char>, Seq<Seq<char>>)>,
    u: Seq<char>,
    p: Seq<char>,
) -> (Seq<(Seq<char>, Seq<Seq<char>>)>, bool) {
    let i = sub_idx(m, u);
    if i == m.len() {
        (m.push((u, seq![p])), true)
    } else if m[i].1.contains(p) {
        (m, false)
    } else {
        (m.update(i, (u, m[i].1.push(p))), true)
    }
}

/// The three outcomes of `flgoff`.
#[derive(PartialEq, Eq, Structural, Clone, Copy, Debug)]
pub enum FlgoffOutcome {
    /// The path was watched and has been removed.
    Removed,
    /// The subscriber exists but did not watch the path.
    NotInList,
    /// The subscriber has no entry at all.
    Void,
}

/// What `flgoff` does: removes the watched path of a known
/// subscriber, and reports which of the three outcomes happened.
pub open spec fn spec_flgoff(
    m: Seq<(Seq<char>, Seq<Seq<char>>)>,
    u: Seq<char>,
    p: Seq<char>,
) -> (Seq<(Seq<char>, Seq<Seq<char>>)>, FlgoffOutcome) {
    let i = sub_idx(m, u);
    if i == m.len() {
        (m, FlgoffOutcome::Void)
    } else if m[i].1.contains(p) {
        (m.update(i, (u, m[i].1.remove_value(p))), FlgoffOutcome::Removed)
    } else {
        (m, FlgoffOutcome::NotInList)
    }
}

/// What a subscriber's departure does: its whole entry goes.
pub open spec fn spec_unsubscribe_all(
    m: Seq<(Seq<char>, Seq<Seq<char>>)>,
    u: Seq<char>,
) -> Seq<(Seq<char>, Seq<Seq<char>>)> {
    let i = sub_idx(m, u);
    if i == m.len() {
        m
    } else {
        m.remove(i)
    }
}

/// The subscription table.
pub struct SubTable {
    pub entries: Vec<SubEntry>,
}

impl View for SubTable {
    type V = Seq<(Seq<char>, Seq<Seq<char>>)>;

    open spec fn view(&self) -> Seq<(Seq<char>, Seq<Seq<char>>)> {
        self.entries.deep_view()
    }
}

impl SubTable {
    /// Well-formedness: one entry per subscriber, and no path watched
    /// twice by the same subscriber.
    pub open spec fn wf(&self) -> bool {
        (forall|i: int, j: int| 0 <= i < j < self@.len() ==> self@[i].0 != self@[j].0) && (forall|
            e: int,
            i: int,
            j: int,
        |
            0 <= e < self@.len() && 0 <= i < j < self@[e].1.len() ==> self@[e].1[i]
                != self@[e].1[j])
    }

    /// An empty table.
    pub fn new() -> (r: SubTable)
        ensures
            r@ == Seq::<(Seq<char>, Seq<Seq<char>>)>::empty(),
            r.wf(),
    {
        SubTable { entries: Vec::new() }
    }

    /// Index of `u`'s entry, or the table's length if it has none.
    #[verifier::loop_isolation(false)]
    fn find(&self, u: &str) -> (r: usize)
        ensures
            r == sub_idx(self@, u@),
    {
        let n = self.entries.len();
        let mut i: usize = 0;
        while i < n
            invariant
                0 <= i <= n,
                n == self@.len(),
                forall|k: int| 0 <= k < i ==> self@[k].0 != u@,
            decreases n - i,
        {
            proof {
                assert(self@[i as int] == self.entries@[i as int]@);
            }
            if str_eq(self.entries[i].subscriber.as_str(), u) {
                proof {
                    lemma_sub_idx_at(self@, u@, i as int);
                }
                return i;
            }
            i = i + 1;
        }
        proof {
            lemma_sub_idx_at(self@, u@, n as int);
        }
        n
    }

    /// Registers `(u, p)`: the `flgon` verb's table change.
    #[verifier::loop_isolation(false)]
    pub fn flgon(&mut self, u: &str, p: &str) -> (added: bool)
        requires
            old(self).wf(),
        ensures
            final(self)@ == spec_flgon(old(self)@, u@, p@).0,
            added == spec_flgon(old(self)@, u@, p@).1,
            final(self).wf(),
    {
        let ghost oldv = self@;
        let i = self.find(u);
        proof {
            lemma_sub_idx(oldv, u@);
        }
        if i == self.entries.len() {
            let mut paths: Vec<String> = Vec::new();
            paths.push(String::from_str(p));
            self.entries.push(SubEntry { subscriber: String::from_str(u), paths });
            proof {
                assert(paths.deep_view() =~= seq![p@]);
                assert(self@ =~= oldv.push((u@, seq![p@])));
            }
            true
        } else {
            let entry = &self.entries[i];
            let m = entry.paths.len();
            let mut k: usize = 0;
            while k < m
                invariant
                    0 <= k <= m,
                    i < self@.len(),
                    self@ == oldv,
                    m == self@[i as int].1.len(),
                    forall|t: int| 0 <= t < k ==> self@[i as int].1[t] != p@,
                decreases m - k,
            {
                proof {
                    assert(self@[i as int] == self.entries@[i as int]@);
                    assert(self@[i as int].1[k as int] == self.entries@[i as int].paths@[k as int]@);
                }
                if str_eq(self.entries[i].paths[k].as_str(), p) {
                    assert(self@[i as int].1.contains(p@));
                    return false;
                }
                k = k + 1;
            }
            assert(!oldv[i as int].1.contains(p@));
            let ghost old_entries = self.entries@;
            let mut entry = self.entries.remove(i);
            let ghost paths_before = entry.paths.deep_view();
            entry.paths.push(String::from_str(p));
            proof {
                assert(entry.paths.deep_view() =~= paths_before.push(p@));
            }
            let ghost esnap = entry;
            let ghost ev = entry@;
            self.entries.insert(i, entry);
            proof {
                assert(ev == (u@, oldv[i as int].1.push(p@)));
                old_entries.remove_ensures(i as int);
                old_entries.remove(i as int).insert_ensures(i as int, esnap);
                let target = oldv.update(i as int, ev);
                assert forall|t: int| 0 <= t < self@.len() implies self@[t] == target[t] by {
                    assert(self@[t] == self.entries@[t]@);
                    if t < i {
                        assert(self.entries@[t] == old_entries.remove(i as int)[t]);
                        assert(old_entries.remove(i as int)[t] == old_entries[t]);
                        assert(oldv[t] == old_entries[t]@);
                    } else if t > i {
                        assert(self.entries@[t] == old_entries.remove(i as int)[t - 1]);
                        assert(old_entries.remove(i as int)[t - 1] == old_entries[t]);
                        assert(oldv[t] == old_entries[t]@);
                    }
                }
                assert(self@ =~= target);
            }
            true
        }
    }

    /// Withdraws `(u, p)`: the `flgoff` verb's table change.
    #[verifier::loop_isolation(false)]
    pub fn flgoff(&mut self, u: &str, p: &str) -> (out: FlgoffOutcome)
        requires
            old(self).wf(),
        ensures
            final(self)@ == spec_flgoff(old(self)@, u@, p@).0,
            out == spec_flgoff(old(self)@, u@, p@).1,
            final(self).wf(),
    {
        let ghost oldv = self@;
        let i = self.find(u);
        proof {
            lemma_sub_idx(oldv, u@);
        }
        if i == self.entries.len() {
            return FlgoffOutcome::Void;
        }
        let entry = &self.entries[i];
        let m = entry.paths.len();
        let mut k: usize = 0;
        while k < m
            invariant
                0 <= k <= m,
                i < self@.len(),
                self@ == oldv,
                m == self@[i as int].1.len(),
                forall|t: int| 0 <= t < k ==> self@[i as int].1[t] != p@,
            decreases m - k,
        {
            proof {
                assert(self@[i as int] == self.entries@[i as int]@);
                assert(self@[i as int].1[k as int] == self.entries@[i as int].paths@[k as int]@);
            }
            if str_eq(self.entries[i].paths[k].as_str(), p) {
                proof {
                    assert(self@[i as int].1.contains(p@));
                    let pv = oldv[i as int].1;
                    pv.index_of_first_ensures(p@);
                    let fk = pv.index_of_first(p@)->Some_0;
                    if fk < k {
                        assert(pv[fk] != p@);
                    }
                    assert(pv.index_of_first(p@) == Some(k as int));
                }
                let ghost old_entries = self.entries@;
                let mut entry = self.entries.remove(i);
                let ghost old_paths = entry.paths@;
                entry.paths.remove(k);
                let ghost esnap = entry;
                let ghost ev = entry@;
                self.entries.insert(i, entry);
                proof {
                    assert(ev == (u@, oldv[i as int].1.remove(k as int))) by {
                        old_paths.remove_ensures(k as int);
                        oldv[i as int].1.remove_ensures(k as int);
                        assert forall|t: int|
                            0 <= t < ev.1.len() implies ev.1[t] == oldv[i as int].1.remove(
                            k as int,
                        )[t] by {
                            assert(ev.1[t] == esnap.paths@[t]@);
                            if t < k {
                                assert(esnap.paths@[t] == old_paths[t]);
                                assert(oldv[i as int].1[t] == old_paths[t]@);
                            } else {
                                assert(esnap.paths@[t] == old_paths[t + 1]);
                                assert(oldv[i as int].1[t + 1] == old_paths[t + 1]@);
                            }
                        }
                        assert(ev.1 =~= oldv[i as int].1.remove(k as int));
                    }
                    assert(oldv[i as int].1.remove_value(p@) == oldv[i as int].1.remove(k as int));
                    old_entries.remove_ensures(i as int);
                    old_entries.remove(i as int).insert_ensures(i as int, esnap);
                    let target = oldv.update(i as int, ev);
                    assert forall|t: int| 0 <= t < self@.len() implies self@[t] == target[t] by {
                        assert(self@[t] == self.entries@[t]@);
                        if t < i {
                            assert(self.entries@[t] == old_entries.remove(i as int)[t]);
                            assert(old_entries.remove(i as int)[t] == old_entries[t]);
                            assert(oldv[t] == old_entries[t]@);
                        } else if t > i {
                            assert(self.entries@[t] == old_entries.remove(i as int)[t - 1]);
                            assert(old_entries.remove(i as int)[t - 1] == old_entries[t]);
                            assert(oldv[t] == old_entries[t]@);
                        }
                    }
                    assert(self@ =~= target);
                    assert(self.wf()) by {
                        let pv = oldv[i as int].1.remove(k as int);
                        oldv[i as int].1.remove_ensures(k as int);
                        assert forall|a: int, b: int|
                            0 <= a < b < pv.len() implies pv[a] != pv[b] by {
                            let ov = oldv[i as int].1;
                            if b < k {
                            } else if a < k {
                                assert(pv[a] == ov[a] && pv[b] == ov[b + 1]);
                            } else {
                                assert(pv[a] == ov[a + 1] && pv[b] == ov[b + 1]);
                            }
                        }
                    }
                }
                return FlgoffOutcome::Removed;
            }
            k = k + 1;
        }
        assert(!oldv[i as int].1.contains(p@));
        FlgoffOutcome::NotInList
    }

    /// Drops `u`'s whole entry: the table change of a departure.
    #[verifier::loop_isolation(false)]
    pub fn unsubscribe_all(&mut self, u: &str)
        requires
            old(self).wf(),
        ensures
            final(self)@ == spec_unsubscribe_all(old(self)@, u@),
            final(self).wf(),
    {
        let ghost oldv = self@;
        let i = self.find(u);
        proof {
            lemma_sub_idx(oldv, u@);
        }
        if i < self.entries.len() {
            self.entries.remove(i);
            proof {
                assert(self@ =~= oldv.remove(i as int));
            }
        }
    }
}

} // verus!
