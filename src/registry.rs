use vstd::prelude::*;

use crate::lease::{grant_step, Lease, LeaseManager, LeaseTable};

verus! {

#[derive(Clone, Copy, Debug, PartialEq, Eq, Structural)]
pub enum Role {
    Datanode,
    Frontend,
    Meta,
}

/// A member of the cluster as last heard from, with the fencing token of
/// its registration lease.
#[derive(Debug)]
pub struct Peer {
    pub id: u64,
    pub addr: String,
    pub role: Role,
    pub lease_id: u64,
}

pub struct PeerView {
    pub id: u64,
    pub addr: Seq<char>,
    pub role: Role,
    pub lease_id: u64,
}

impl View for Peer {
    type V = PeerView;

    open spec fn view(&self) -> PeerView {
        PeerView { id: self.id, addr: self.addr@, role: self.role, lease_id: self.lease_id }
    }
}

pub open spec fn ids_distinct(s: Seq<PeerView>) -> bool {
    forall|i: int, j: int|
        0 <= i < s.len() && 0 <= j < s.len() && i != j ==> #[trigger] s[i].id != #[trigger] s[j].id
}

/// The record of peer `id` in `s`, if any.
pub open spec fn find_peer(s: Seq<PeerView>, id: u64) -> Option<PeerView> {
    if exists|i: int| 0 <= i < s.len() && s[i].id == id {
        Some(s[choose|i: int| 0 <= i < s.len() && s[i].id == id])
    } else {
        None
    }
}

/// The peers of `s` whose registration lease is live at `now`, in order.
pub open spec fn live_peers(s: Seq<PeerView>, t: LeaseTable, now: u64) -> Seq<PeerView>
    decreases s.len(),
{
    if s.len() == 0 {
        Seq::empty()
    } else {
        let prev = live_peers(s.drop_last(), t, now);
        if t.live_lease(s.last().id, now) is Some {
            prev.push(s.last())
        } else {
            prev
        }
    }
}

/// The ids of the peers of `s` whose registration lease has lapsed at
/// `now`, in order.
pub open spec fn lapsed_ids(s: Seq<PeerView>, t: LeaseTable, now: u64) -> Seq<u64>
    decreases s.len(),
{
    if s.len() == 0 {
        Seq::empty()
    } else {
        let prev = lapsed_ids(s.drop_last(), t, now);
        if t.live_lease(s.last().id, now) is Some {
            prev
        } else {
            prev.push(s.last().id)
        }
    }
}

/// Cluster membership: a peer is registered by its first heartbeat, renews
/// its registration lease with every heartbeat, and is removed once that
/// lease has lapsed.
pub struct PeerRegistry {
    peers: Vec<Peer>,
    leases: LeaseManager,
    lease_ttl: u64,
}

impl PeerRegistry {
    pub closed spec fn peers_spec(&self) -> Seq<PeerView> {
        self.peers@.map_values(|p: Peer| p@)
    }

    pub closed spec fn leases_spec(&self) -> LeaseTable {
        self.leases@
    }

    pub closed spec fn lease_ttl_spec(&self) -> u64 {
        self.lease_ttl
    }

    /// Each peer's registration lease sits under its own id and is held by
    /// the peer itself; peers are listed once.
    pub open spec fn wf(&self) -> bool {
        &&& self.leases_spec().wf()
        &&& ids_distinct(self.peers_spec())
        &&& forall|k: u64|
            #![trigger self.leases_spec().leases[k]]
            self.leases_spec().leases.contains_key(k) ==> self.leases_spec().leases[k].holder_id
                == k
    }

    pub fn new(lease_ttl: u64) -> (r: Self)
        ensures
            r.wf(),
            r.peers_spec().len() == 0,
            r.lease_ttl_spec() == lease_ttl,
            r.leases_spec().leases.is_empty(),
    {
        let r = PeerRegistry { peers: Vec::new(), leases: LeaseManager::new(), lease_ttl };
        proof {
            assert(r.peers_spec() =~= Seq::<PeerView>::empty());
        }
        r
    }

    pub fn len(&self) -> (r: usize)
        ensures
            r == self.peers_spec().len(),
    {
        self.peers.len()
    }

    fn position(&self, id: u64) -> (r: Option<usize>)
        ensures
            r matches Some(i) ==> i < self.peers_spec().len() && self.peers_spec()[i as int].id
                == id,
            r is None ==> forall|i: int|
                0 <= i < self.peers_spec().len() ==> #[trigger] self.peers_spec()[i].id != id,
    {
        let mut i: usize = 0;
        while i < self.peers.len()
            invariant
                0 <= i <= self.peers@.len(),
                forall|j: int| 0 <= j < i ==> #[trigger] self.peers_spec()[j].id != id,
            decreases self.peers@.len() - i,
        {
            if self.peers[i].id == id {
                return Some(i);
            }
            i = i + 1;
        }
        None
    }

    /// The role and lease token of peer `id`, if it is registered.
    pub fn lookup(&self, id: u64) -> (r: Option<(Role, u64)>)
        requires
            self.wf(),
        ensures
            r == (match find_peer(self.peers_spec(), id) {
                Some(p) => Some((p.role, p.lease_id)),
                None => None,
            }),
    {
        match self.position(id) {
            Some(i) => Some((self.peers[i].role, self.peers[i].lease_id)),
            None => None,
        }
    }

    /// Records a heartbeat of peer `id` from `addr` at `now`: grants or
    /// renews its registration lease and creates or updates its record.
    /// Returns the lease, which is never refused: each peer only ever holds
    /// the lease of its own id.
    pub fn on_heartbeat(&mut self, id: u64, addr: String, role: Role, now: u64) -> (r: Lease)
        requires
            old(self).wf(),
            now + old(self).lease_ttl_spec() <= u64::MAX,
            old(self).leases_spec().next_token < u64::MAX,
        ensures
            final(self).wf(),
            final(self).lease_ttl_spec() == old(self).lease_ttl_spec(),
            (final(self).leases_spec(), Ok::<Lease, crate::lease::LeaseError>(r)) == grant_step(
                old(self).leases_spec(),
                id,
                id,
                old(self).lease_ttl_spec(),
                now,
            ),
            find_peer(final(self).peers_spec(), id) == Some(
                PeerView { id, addr: addr@, role, lease_id: r.fencing_token },
            ),
            forall|other: u64|
                other != id ==> find_peer(final(self).peers_spec(), other) == find_peer(
                    old(self).peers_spec(),
                    other,
                ),
    {
        let ghost t0 = self.leases@;
        let ghost before = self.peers_spec();
        proof {
            if t0.leases.contains_key(id) {
                assert(t0.leases[id].holder_id == id);
            }
        }
        let lease = self.leases.grant(id, id, self.lease_ttl, now).unwrap();
        let peer = Peer { id, addr, role, lease_id: lease.fencing_token };
        let ghost pv = peer@;
        match self.position(id) {
            Some(i) => {
                self.peers.set(i, peer);
                proof {
                    let after = self.peers_spec();
                    assert(after =~= before.update(i as int, pv));
                    assert(after[i as int].id == id);
                    assert forall|a: int, b: int|
                        0 <= a < after.len() && 0 <= b < after.len() && a != b
                        implies #[trigger] after[a].id != #[trigger] after[b].id by {
                        if a != i && b != i {
                            assert(after[a] == before[a] && after[b] == before[b]);
                        } else if a == i {
                            assert(after[b] == before[b]);
                            assert(before[i as int].id == id);
                        } else {
                            assert(after[a] == before[a]);
                            assert(before[i as int].id == id);
                        }
                    }
                    assert(find_peer(after, id) == Some(after[i as int]));
                    assert forall|other: u64| other != id implies find_peer(after, other)
                        == find_peer(before, other) by {
                        if exists|j: int| 0 <= j < before.len() && before[j].id == other {
                            let j = choose|j: int| 0 <= j < before.len() && before[j].id == other;
                            assert(after[j] == before[j]);
                            assert(find_peer(after, other) == Some(after[j]));
                        } else {
                            assert forall|j: int| 0 <= j < after.len() implies after[j].id
                                != other by {
                                if j != i {
                                    assert(after[j] == before[j]);
                                }
                            }
                        }
                    }
                }
            },
            None => {
                self.peers.push(peer);
                proof {
                    let after = self.peers_spec();
                    let n = before.len() as int;
                    assert(after =~= before.push(pv));
                    assert(after[n].id == id);
                    assert(find_peer(after, id) == Some(after[n]));
                    assert forall|other: u64| other != id implies find_peer(after, other)
                        == find_peer(before, other) by {
                        if exists|j: int| 0 <= j < before.len() && before[j].id == other {
                            let j = choose|j: int| 0 <= j < before.len() && before[j].id == other;
                            assert(after[j] == before[j]);
                            assert(find_peer(after, other) == Some(after[j]));
                        } else {
                            assert forall|j: int| 0 <= j < after.len() implies after[j].id
                                != other by {
                                if j < n {
                                    assert(after[j] == before[j]);
                                }
                            }
                        }
                    }
                }
            },
        }
        proof {
            let t1 = self.leases@;
            assert forall|k: u64| #![trigger t1.leases[k]] t1.leases.contains_key(k) implies t1.leases[k].holder_id == k by {
                if k != id {
                    assert(t1.leases[k] == t0.leases[k]);
                }
            }
        }
        lease
    }

    /// Removes every peer whose registration lease has lapsed at `now` and
    /// returns their ids, in the order they were registered.
    pub fn prune(&mut self, now: u64) -> (r: Vec<u64>)
        requires
            old(self).wf(),
        ensures
            final(self).wf(),
            final(self).leases_spec() == old(self).leases_spec(),
            final(self).lease_ttl_spec() == old(self).lease_ttl_spec(),
            final(self).peers_spec() == live_peers(
                old(self).peers_spec(),
                old(self).leases_spec(),
                now,
            ),
            r@ == lapsed_ids(old(self).peers_spec(), old(self).leases_spec(), now),
    {
        let ghost start = self.peers_spec();
        let ghost t = self.leases@;
        let ghost ttl0 = self.lease_ttl;
        let mut rest: Vec<Peer> = Vec::new();
        std::mem::swap(&mut self.peers, &mut rest);
        proof {
            assert(self.peers_spec() =~= live_peers(start.take(0), t, now));
            assert(Seq::<u64>::empty() =~= lapsed_ids(start.take(0), t, now));
        }
        let mut removed: Vec<u64> = Vec::new();
        let ghost mut k: int = 0;
        while rest.len() > 0
            invariant
                t == self.leases@,
                self.leases@.wf(),
                forall|q: u64|
                    #![trigger t.leases[q]]
                    t.leases.contains_key(q) ==> t.leases[q].holder_id == q,
                ids_distinct(start),
                0 <= k <= start.len(),
                rest@.len() == start.len() - k,
                forall|i: int| 0 <= i < rest@.len() ==> #[trigger] rest@[i]@ == start[k + i],
                self.lease_ttl == ttl0,
                self.peers_spec() == live_peers(start.take(k), t, now),
                removed@ == lapsed_ids(start.take(k), t, now),
            decreases rest@.len(),
        {
            proof {
                assert(start.take(k + 1).drop_last() =~= start.take(k));
                assert(start.take(k + 1).last() == start[k]);
                assert(rest@[0]@ == start[k + 0]);
            }
            let ghost old_rest = rest@;
            let p = rest.remove(0);
            proof {
                assert forall|i: int| 0 <= i < rest@.len() implies #[trigger] rest@[i]@ == start[(k
                    + 1) + i] by {
                    assert(rest@[i] == old_rest[i + 1]);
                    assert(old_rest[i + 1]@ == start[k + (i + 1)]);
                }
            }
            let live = match self.leases.get(p.id, now) {
                Some(_) => true,
                None => false,
            };
            if live {
                let ghost before = self.peers_spec();
                self.peers.push(p);
                proof {
                    assert(self.peers_spec() =~= before.push(start[k]));
                }
            } else {
                removed.push(p.id);
            }
            proof {
                k = k + 1;
            }
        }
        proof {
            assert(start.take(k) =~= start);
            lemma_live_peers_distinct(start, t, now);
        }
        removed
    }
}

proof fn lemma_live_peers_distinct(s: Seq<PeerView>, t: LeaseTable, now: u64)
    requires
        ids_distinct(s),
    ensures
        ids_distinct(live_peers(s, t, now)),
        forall|i: int|
            0 <= i < live_peers(s, t, now).len() ==> exists|j: int|
                0 <= j < s.len() && #[trigger] live_peers(s, t, now)[i] == s[j],
    decreases s.len(),
{
    if s.len() > 0 {
        let d = s.drop_last();
        assert(ids_distinct(d)) by {
            assert forall|i: int, j: int|
                0 <= i < d.len() && 0 <= j < d.len() && i != j implies #[trigger] d[i].id
                != #[trigger] d[j].id by {
                assert(d[i] == s[i] && d[j] == s[j]);
            }
        }
        lemma_live_peers_distinct(d, t, now);
        let prev = live_peers(d, t, now);
        let cur = live_peers(s, t, now);
        assert forall|i: int| 0 <= i < cur.len() implies exists|j: int|
            0 <= j < s.len() && #[trigger] cur[i] == s[j] by {
            if i < prev.len() {
                let j = choose|j: int| 0 <= j < d.len() && prev[i] == d[j];
                assert(cur[i] == s[j]);
            } else {
                assert(cur[i] == s[s.len() - 1]);
            }
        }
        assert forall|a: int, b: int|
            0 <= a < cur.len() && 0 <= b < cur.len() && a != b implies #[trigger] cur[a].id
            != #[trigger] cur[b].id by {
            if a < prev.len() && b < prev.len() {
            } else if a < prev.len() {
                let j = choose|j: int| 0 <= j < d.len() && prev[a] == d[j];
                assert(cur[a] == s[j]);
                assert(cur[b] == s[s.len() - 1]);
            } else {
                let j = choose|j: int| 0 <= j < d.len() && prev[b] == d[j];
                assert(cur[b] == s[j]);
                assert(cur[a] == s[s.len() - 1]);
            }
        }
    }
}

} // verus!
