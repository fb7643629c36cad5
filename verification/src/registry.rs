//! Connection registry: the live mapping from runner id to gateway-side
//! connection state, with the single-writer guarantees the gateway relies on.
//!
//! The registry's view is a map, so a runner id names at most one connection
//! at any instant. Installation returns the displaced connection, whose
//! socket the caller must close before serving the new one; removal is
//! idempotent.

use std::collections::HashMap;
use vstd::prelude::*;

use crate::ids::Id;

verus! {

broadcast use vstd::std_specs::hash::group_hash_axioms;

/// Gateway-side state of one live runner socket. The transport sink itself
/// stays with the I/O layer, keyed by the same runner id.
#[derive(Clone, Copy, Debug, PartialEq, Eq, Structural)]
pub struct Connection {
    /// The runner workflow this socket feeds.
    pub workflow_id: Id,
    /// Wire version negotiated at handshake; fixed for the socket's life.
    pub protocol_version: u16,
    /// Most recent round-trip time in milliseconds.
    pub last_rtt: u32,
}

/// Index of `id` in the list, or `None` when it does not occur.
fn find_id(ids: &Vec<Id>, id: Id) -> (r: Option<usize>)
    ensures
        match r {
            Some(j) => j < ids@.len() && ids@[j as int] == id,
            None => forall|i: int| 0 <= i < ids@.len() ==> ids@[i] != id,
        },
{
    let mut j: usize = 0;
    while j < ids.len()
        invariant
            j <= ids@.len(),
            forall|i: int| 0 <= i < j ==> ids@[i] != id,
        decreases ids@.len() - j,
    {
        if ids[j] == id {
            return Some(j);
        }
        j += 1;
    }
    None
}

/// Mapping runner id -> live connection.
pub struct Registry {
    conns: HashMap<Id, Connection>,
    ids: Vec<Id>,
}

impl View for Registry {
    type V = Map<Id, Connection>;

    closed spec fn view(&self) -> Map<Id, Connection> {
        self.conns@
    }
}

impl Registry {
    /// The id list mirrors the map's domain exactly, without duplicates.
    pub closed spec fn wf(&self) -> bool {
        &&& self.ids@.no_duplicates()
        &&& forall|i: int|
            0 <= i < self.ids@.len() ==> self.conns@.contains_key(#[trigger] self.ids@[i])
        &&& forall|k: Id|
            self.conns@.contains_key(k) ==> exists|i: int|
                0 <= i < self.ids@.len() && self.ids@[i] == k
    }

    /// An empty registry.
    pub fn new() -> (r: Registry)
        ensures
            r@ == Map::<Id, Connection>::empty(),
            r.wf(),
    {
        Registry { conns: HashMap::new(), ids: Vec::new() }
    }

    /// Shared read of one runner's connection.
    pub fn lookup(&self, id: Id) -> (r: Option<Connection>)
        ensures
            r == if self@.contains_key(id) {
                Some(self@[id])
            } else {
                None::<Connection>
            },
    {
        match self.conns.get(&id) {
            Some(c) => Some(*c),
            None => None,
        }
    }

    /// Atomic insert-and-return-previous. The caller must close the
    /// displaced connection's socket (reason `new_runner_connected`)
    /// before the new connection serves outbound traffic.
    pub fn install(&mut self, id: Id, conn: Connection) -> (displaced: Option<Connection>)
        requires
            old(self).wf(),
        ensures
            final(self).wf(),
            final(self)@ == old(self)@.insert(id, conn),
            displaced == if old(self)@.contains_key(id) {
                Some(old(self)@[id])
            } else {
                None::<Connection>
            },
    {
        let displaced = self.conns.insert(id, conn);
        if displaced.is_none() {
            self.ids.push(id);
            proof {
                assert forall|i: int|
                    0 <= i < self.ids@.len() implies self.conns@.contains_key(
                    #[trigger] self.ids@[i],
                ) by {
                    if i < self.ids@.len() - 1 {
                        assert(self.ids@[i] == old(self).ids@[i]);
                    }
                }
                assert forall|k: Id| self.conns@.contains_key(k) implies exists|i: int|
                    0 <= i < self.ids@.len() && self.ids@[i] == k by {
                    if k != id {
                        let j = choose|j: int|
                            0 <= j < old(self).ids@.len() && old(self).ids@[j] == k;
                        assert(self.ids@[j] == k);
                    } else {
                        assert(self.ids@[self.ids@.len() - 1] == id);
                    }
                }
                assert forall|i: int, j: int|
                    0 <= i < j < self.ids@.len() implies self.ids@[i] != self.ids@[j] by {
                    if j == self.ids@.len() - 1 {
                        assert(!old(self).conns@.contains_key(id));
                    }
                }
            }
        }
        displaced
    }

    /// Idempotent removal: removing an absent runner changes nothing.
    pub fn remove(&mut self, id: Id)
        requires
            old(self).wf(),
        ensures
            final(self).wf(),
            final(self)@ == old(self)@.remove(id),
    {
        let had = self.conns.remove(&id);
        if had.is_some() {
            let ghost pre_ids = self.ids@;
            let j = match find_id(&self.ids, id) {
                Some(j) => j,
                None => {
                    proof {
                        let w = choose|w: int| 0 <= w < pre_ids.len() && pre_ids[w] == id;
                        assert(false);
                    }
                    0
                },
            };
            self.ids.swap_remove(j);
            proof {
                let now = self.ids@;
                assert(pre_ids[j as int] == id);
                assert forall|i: int|
                    0 <= i < now.len() implies self.conns@.contains_key(#[trigger] now[i]) by {
                    if i == j {
                        assert(now[i] == pre_ids[pre_ids.len() - 1]);
                    } else {
                        assert(now[i] == pre_ids[i]);
                    }
                    assert(now[i] != id);
                    assert(old(self).conns@.contains_key(now[i]));
                }
                assert forall|k: Id| self.conns@.contains_key(k) implies exists|i: int|
                    0 <= i < now.len() && now[i] == k by {
                    assert(old(self).conns@.contains_key(k));
                    let w = choose|w: int| 0 <= w < pre_ids.len() && pre_ids[w] == k;
                    assert(k != id);
                    if w == pre_ids.len() - 1 {
                        assert(now[j as int] == k);
                    } else {
                        assert(now[w] == k);
                    }
                }
                assert forall|a: int, b: int|
                    0 <= a < b < now.len() implies now[a] != now[b] by {
                    if a == j {
                        assert(now[a] == pre_ids[pre_ids.len() - 1]);
                        assert(now[b] == pre_ids[b]);
                    } else if b == j {
                        assert(now[b] == pre_ids[pre_ids.len() - 1]);
                        assert(now[a] == pre_ids[a]);
                    } else {
                        assert(now[a] == pre_ids[a]);
                        assert(now[b] == pre_ids[b]);
                    }
                }
            }
        } else {
            proof {
                assert(old(self)@ =~= old(self)@.remove(id));
            }
        }
    }

    /// Record a fresh round-trip time for a live runner; a no-op when the
    /// runner is not connected. Returns whether the runner was found.
    pub fn update_rtt(&mut self, id: Id, rtt: u32) -> (found: bool)
        requires
            old(self).wf(),
        ensures
            final(self).wf(),
            found == old(self)@.contains_key(id),
            final(self)@ == if old(self)@.contains_key(id) {
                old(self)@.insert(
                    id,
                    Connection {
                        workflow_id: old(self)@[id].workflow_id,
                        protocol_version: old(self)@[id].protocol_version,
                        last_rtt: rtt,
                    },
                )
            } else {
                old(self)@
            },
    {
        let prev: Option<Connection> = match self.conns.get(&id) {
            Some(c) => Some(*c),
            None => None,
        };
        match prev {
            Some(c) => {
                self.conns.insert(
                    id,
                    Connection {
                        workflow_id: c.workflow_id,
                        protocol_version: c.protocol_version,
                        last_rtt: rtt,
                    },
                );
                proof {
                    assert forall|k: Id| self.conns@.contains_key(k) implies exists|i: int|
                        0 <= i < self.ids@.len() && self.ids@[i] == k by {
                        assert(old(self).conns@.contains_key(k));
                        let w = choose|w: int|
                            0 <= w < old(self).ids@.len() && old(self).ids@[w] == k;
                        assert(self.ids@[w] == k);
                    }
                }
                true
            },
            None => false,
        }
    }

    /// Snapshot of `(runner_id, workflow_id, last_rtt)` for every live
    /// connection: sound (every triple is live and exact), complete (every
    /// live runner appears), and without duplicates.
    pub fn snapshot(&self) -> (r: Vec<(Id, Id, u32)>)
        requires
            self.wf(),
        ensures
            forall|i: int|
                0 <= i < r@.len() ==> {
                    &&& self@.contains_key(#[trigger] r@[i].0)
                    &&& self@[r@[i].0].workflow_id == r@[i].1
                    &&& self@[r@[i].0].last_rtt == r@[i].2
                },
            forall|k: Id|
                self@.contains_key(k) ==> exists|i: int| 0 <= i < r@.len() && #[trigger] r@[i].0
                    == k,
            forall|a: int, b: int| 0 <= a < b < r@.len() ==> r@[a].0 != r@[b].0,
    {
        let mut r: Vec<(Id, Id, u32)> = Vec::new();
        let mut j: usize = 0;
        while j < self.ids.len()
            invariant
                self.wf(),
                j <= self.ids@.len(),
                r@.len() == j,
                forall|i: int| 0 <= i < j ==> #[trigger] r@[i].0 == self.ids@[i],
                forall|i: int|
                    0 <= i < j ==> {
                        &&& self@.contains_key(#[trigger] r@[i].0)
                        &&& self@[r@[i].0].workflow_id == r@[i].1
                        &&& self@[r@[i].0].last_rtt == r@[i].2
                    },
            decreases self.ids@.len() - j,
        {
            let id = self.ids[j];
            match self.conns.get(&id) {
                Some(c) => {
                    r.push((id, c.workflow_id, c.last_rtt));
                },
                None => {
                    proof {
                        assert(false);
                    }
                },
            }
            j += 1;
        }
        proof {
            assert forall|k: Id| self@.contains_key(k) implies exists|i: int|
                0 <= i < r@.len() && #[trigger] r@[i].0 == k by {
                let w = choose|w: int| 0 <= w < self.ids@.len() && self.ids@[w] == k;
                assert(r@[w].0 == k);
            }
        }
        r
    }
}

} // verus!
