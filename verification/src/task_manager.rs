//! Registry pairing each running workload with its live channel endpoints.
//!
//! A workload registered under a numeric id owns one command-sender endpoint
//! and one output-receiver endpoint. The registry is generic over the two
//! endpoint types: channel-item encoding is none of its business, only
//! identity and lookup. Both endpoints of an id are installed by one
//! operation and live in one entry, so no observer ever sees one without the
//! other — `get_sender` and `get_receiver` answer under exactly the same
//! condition. Registering an id that is already present overwrites its
//! endpoints.
//!
//! The registry itself is a sequential structure; a concurrent caller shares
//! it behind a short-held lock of its choosing.

use crate::assoc::lemma_map_of_contains;
use crate::assoc::lemma_map_of_lookup;
use crate::assoc::lemma_map_of_update;
use crate::assoc::map_of;
use crate::assoc::unique_keys;
use vstd::prelude::*;

verus! {

/// Map from workload identifier to a live command-sender / output-receiver
/// endpoint pair.
pub struct TaskManager<S, R> {
    entries: Vec<(usize, (S, R))>,
}

impl<S, R> TaskManager<S, R> {
    /// The mapping this registry holds.
    pub closed spec fn view(&self) -> Map<usize, (S, R)> {
        map_of(self.entries@)
    }

    /// Well-formedness: one entry per id.
    pub closed spec fn wf(&self) -> bool {
        unique_keys(self.entries@)
    }

    /// An empty registry.
    pub fn new() -> (r: TaskManager<S, R>)
        ensures
            r.wf(),
            r@ == Map::<usize, (S, R)>::empty(),
    {
        TaskManager { entries: Vec::new() }
    }

    /// Installs both endpoints for `id` as one atomic entry; an id already
    /// present has its endpoints overwritten.
    pub fn register(&mut self, id: usize, sender: S, receiver: R)
        requires
            old(self).wf(),
        ensures
            final(self).wf(),
            final(self)@ == old(self)@.insert(id, (sender, receiver)),
    {
        let mut i: usize = 0;
        while i < self.entries.len()
            invariant
                0 <= i <= self.entries@.len(),
                forall|j: int| 0 <= j < i ==> self.entries@[j].0 != id,
                unique_keys(self.entries@),
                self.entries@ == old(self).entries@,
            decreases self.entries@.len() - i,
        {
            if self.entries[i].0 == id {
                proof {
                    lemma_map_of_update(self.entries@, i as int, (id, (sender, receiver)));
                }
                self.entries[i] = (id, (sender, receiver));
                proof {
                    assert forall|a: int, b: int|
                        0 <= a < b < self.entries@.len() implies self.entries@[a].0
                        != self.entries@[b].0 by {
                        assert(old(self).entries@[a].0 != old(self).entries@[b].0);
                    }
                }
                return ;
            }
            i = i + 1;
        }
        proof {
            lemma_map_of_contains(self.entries@, id);
        }
        self.entries.push((id, (sender, receiver)));
        proof {
            assert(self.entries@.drop_last() =~= old(self).entries@);
            assert forall|a: int, b: int|
                0 <= a < b < self.entries@.len() implies self.entries@[a].0
                != self.entries@[b].0 by {
                if b < self.entries@.len() - 1 {
                    assert(old(self).entries@[a].0 != old(self).entries@[b].0);
                } else {
                    assert(old(self).entries@[a].0 != id);
                }
            }
        }
    }

    /// The command-sender endpoint of `id`, present exactly when `id` is
    /// registered; many producers may forward input through it.
    pub fn get_sender(&self, id: usize) -> (r: Option<&S>)
        requires
            self.wf(),
        ensures
            match r {
                Some(s) => self@.contains_key(id) && *s == self@[id].0,
                None => !self@.contains_key(id),
            },
    {
        let mut i: usize = 0;
        while i < self.entries.len()
            invariant
                0 <= i <= self.entries@.len(),
                forall|j: int| 0 <= j < i ==> self.entries@[j].0 != id,
                self.wf(),
            decreases self.entries@.len() - i,
        {
            if self.entries[i].0 == id {
                proof {
                    lemma_map_of_lookup(self.entries@, i as int);
                }
                return Some(&self.entries[i].1.0);
            }
            i = i + 1;
        }
        proof {
            lemma_map_of_contains(self.entries@, id);
        }
        None
    }

    /// The single logical output endpoint of `id`, present exactly when `id`
    /// is registered; a caller guards it so that only one holder drains at a
    /// time.
    pub fn get_receiver(&self, id: usize) -> (r: Option<&R>)
        requires
            self.wf(),
        ensures
            match r {
                Some(rx) => self@.contains_key(id) && *rx == self@[id].1,
                None => !self@.contains_key(id),
            },
    {
        let mut i: usize = 0;
        while i < self.entries.len()
            invariant
                0 <= i <= self.entries@.len(),
                forall|j: int| 0 <= j < i ==> self.entries@[j].0 != id,
                self.wf(),
            decreases self.entries@.len() - i,
        {
            if self.entries[i].0 == id {
                proof {
                    lemma_map_of_lookup(self.entries@, i as int);
                }
                return Some(&self.entries[i].1.1);
            }
            i = i + 1;
        }
        proof {
            lemma_map_of_contains(self.entries@, id);
        }
        None
    }
}

} // verus!
