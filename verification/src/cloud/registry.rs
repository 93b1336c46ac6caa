//! The registry of resident account handles.
//!
//! The coordinator loads an account on demand, shares the handle for the
//! duration of one request, and removes it again when the request's
//! release guard runs. Removal is total: after it, the registry no longer
//! holds any handle under the id.

use vstd::prelude::*;

verus! {

/// A mapping from canonical account ids to resident handles, with each id
/// held at most once.
pub struct Registry<T> {
    entries: Vec<(String, T)>,
}

impl<T> Registry<T> {
    /// Ids are pairwise distinct.
    pub closed spec fn wf(&self) -> bool {
        forall|i: int, j: int|
            0 <= i < j < self.entries@.len() ==> (#[trigger] self.entries@[i]).0@ != (
            #[trigger] self.entries@[j]).0@
    }

    /// Whether a handle is resident under the id.
    pub closed spec fn holds(&self, id: Seq<char>) -> bool {
        exists|i: int| 0 <= i < self.entries@.len() && (#[trigger] self.entries@[i]).0@ == id
    }

    pub closed spec fn len_spec(&self) -> nat {
        self.entries@.len()
    }

    pub fn new() -> (r: Registry<T>)
        ensures
            r.wf(),
            forall|id: Seq<char>| !#[trigger] r.holds(id),
            r.len_spec() == 0,
    {
        Registry { entries: Vec::new() }
    }

    /// Looks the resident handle up.
    pub fn get(&self, id: &str) -> (r: Option<&T>)
        requires
            self.wf(),
        ensures
            r is Some <==> self.holds(id@),
    {
        let n = self.entries.len();
        let mut i: usize = 0;
        while i < n
            invariant
                n == self.entries@.len(),
                i <= n,
                forall|q: int| 0 <= q < i ==> (#[trigger] self.entries@[q]).0@ != id@,
            decreases n - i,
        {
            if crate::helpers::str_eq(self.entries[i].0.as_str(), id) {
                return Some(&self.entries[i].1);
            }
            i = i + 1;
        }
        proof {
            assert(!self.holds(id@));
        }
        None
    }

    /// Makes a handle resident; an id already held is left unchanged.
    pub fn insert(&mut self, id: String, value: T)
        requires
            old(self).wf(),
        ensures
            final(self).wf(),
            final(self).holds(id@),
            forall|other: Seq<char>|
                other != id@ ==> #[trigger] final(self).holds(other) == old(self).holds(other),
    {
        let n = self.entries.len();
        let mut i: usize = 0;
        while i < n
            invariant
                n == self.entries@.len(),
                i <= n,
                self.wf(),
                forall|q: int| 0 <= q < i ==> (#[trigger] self.entries@[q]).0@ != id@,
            decreases n - i,
        {
            if crate::helpers::str_eq(self.entries[i].0.as_str(), id.as_str()) {
                proof {
                    assert((self.entries@[i as int]).0@ == id@);
                }
                return ;
            }
            i = i + 1;
        }
        self.entries.push((id, value));
        proof {
            assert((self.entries@[self.entries@.len() - 1]).0@ == id@);
            assert forall|other: Seq<char>|
                other != id@ implies #[trigger] self.holds(other) == old(self).holds(other) by {
                if old(self).holds(other) {
                    let w = choose|w: int|
                        0 <= w < old(self).entries@.len() && (#[trigger] old(
                            self,
                        ).entries@[w]).0@ == other;
                    assert(self.entries@[w].0@ == other);
                }
                if self.holds(other) {
                    let w = choose|w: int|
                        0 <= w < self.entries@.len() && (#[trigger] self.entries@[w]).0@ == other;
                    assert(w < old(self).entries@.len());
                    assert(old(self).entries@[w].0@ == other);
                }
            }
        }
    }

    /// Releases the handle: afterwards the registry holds nothing under
    /// the id, whatever it held before.
    pub fn remove(&mut self, id: &str)
        requires
            old(self).wf(),
        ensures
            final(self).wf(),
            !final(self).holds(id@),
            forall|other: Seq<char>|
                other != id@ ==> #[trigger] final(self).holds(other) == old(self).holds(other),
    {
        let n = self.entries.len();
        let mut i: usize = 0;
        while i < n
            invariant
                n == self.entries@.len(),
                i <= n,
                self.wf(),
                self.entries@ == old(self).entries@,
                forall|q: int| 0 <= q < i ==> (#[trigger] self.entries@[q]).0@ != id@,
            decreases n - i,
        {
            if crate::helpers::str_eq(self.entries[i].0.as_str(), id) {
                let ghost pre = self.entries@;
                self.entries.remove(i);
                proof {
                    assert forall|q: int|
                        0 <= q < self.entries@.len() implies (#[trigger] self.entries@[q]).0@
                        != id@ by {
                        if q < i {
                            assert(self.entries@[q] == pre[q]);
                        } else {
                            assert(self.entries@[q] == pre[q + 1]);
                        }
                    }
                    assert forall|p: int, q: int|
                        0 <= p < q < self.entries@.len() implies (#[trigger] self.entries@[p]).0@
                        != (#[trigger] self.entries@[q]).0@ by {
                        let p0: int = if p < i {
                            p
                        } else {
                            p + 1
                        };
                        let q0: int = if q < i {
                            q
                        } else {
                            q + 1
                        };
                        assert(self.entries@[p] == pre[p0] && self.entries@[q] == pre[q0]);
                    }
                    assert forall|other: Seq<char>|
                        other != id@ implies #[trigger] self.holds(other) == old(self).holds(
                        other,
                    ) by {
                        if old(self).holds(other) {
                            let w = choose|w: int|
                                0 <= w < pre.len() && (#[trigger] pre[w]).0@ == other;
                            if w < i {
                                assert(self.entries@[w].0@ == other);
                            } else {
                                assert(self.entries@[w - 1].0@ == other);
                            }
                        }
                        if self.holds(other) {
                            let w = choose|w: int|
                                0 <= w < self.entries@.len() && (#[trigger] self.entries@[w]).0@
                                    == other;
                            if w < i {
                                assert(pre[w].0@ == other);
                            } else {
                                assert(pre[w + 1].0@ == other);
                            }
                        }
                    }
                }
                return ;
            }
            i = i + 1;
        }
        proof {
            assert(!self.holds(id@));
        }
    }
}

} // verus!
