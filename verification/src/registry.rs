//! The peer registry: the set of addresses discovered through presence
//! announcements, pending a connection attempt. The listener inserts,
//! the connector drains; the surrounding program serialises the two
//! behind one lock, so each operation here sees the registry alone.
use vstd::prelude::*;

use crate::ip::IpAddress;

verus! {

/// A set of peer addresses. The backing vector never holds an address
/// twice, so an announcement heard many times is recorded once.
pub struct PeerRegistry {
    addrs: Vec<IpAddress>,
}

impl PeerRegistry {
    /// The registry viewed as the set of addresses it holds.
    pub closed spec fn view(&self) -> Set<IpAddress> {
        self.addrs@.to_set()
    }

    /// The backing vector holds no address twice.
    pub closed spec fn wf(&self) -> bool {
        self.addrs@.no_duplicates()
    }

    pub fn new() -> (r: PeerRegistry)
        ensures
            r@ == Set::<IpAddress>::empty(),
            r.wf(),
    {
        let r = PeerRegistry { addrs: Vec::new() };
        proof {
            assert(r.addrs@.to_set() =~= Set::<IpAddress>::empty());
        }
        r
    }

    /// How many distinct addresses the registry holds.
    pub fn len(&self) -> (r: usize)
        requires
            self.wf(),
        ensures
            r == self@.len(),
    {
        proof {
            self.addrs@.unique_seq_to_set();
        }
        self.addrs.len()
    }

    /// Whether `addr` has been recorded.
    pub fn contains(&self, addr: &IpAddress) -> (r: bool)
        ensures
            r == self@.contains(*addr),
    {
        let mut i: usize = 0;
        while i < self.addrs.len()
            invariant
                i <= self.addrs@.len(),
                forall|j: int| 0 <= j < i ==> self.addrs@[j] != *addr,
            decreases self.addrs@.len() - i,
        {
            if self.addrs[i] == *addr {
                proof {
                    assert(self.addrs@.contains(*addr));
                }
                return true;
            }
            i += 1;
        }
        proof {
            assert(!self.addrs@.contains(*addr));
        }
        false
    }

    /// Record `addr`. Idempotent: an address already present is left
    /// alone, so the set grows by at most this one element.
    pub fn insert(&mut self, addr: IpAddress)
        requires
            old(self).wf(),
        ensures
            final(self).wf(),
            final(self)@ == old(self)@.insert(addr),
    {
        if !self.contains(&addr) {
            self.addrs.push(addr);
            proof {
                assert(self.addrs@.drop_last() == old(self).addrs@);
                assert(self.addrs@.to_set() =~= old(self)@.insert(addr)) by {
                    assert(forall|x: IpAddress| #[trigger] self.addrs@.contains(x) <==> (
                    old(self).addrs@.contains(x) || x == addr)) by {
                        assert(forall|x: IpAddress|
                            old(self).addrs@.contains(x) ==> #[trigger] self.addrs@.contains(
                                x,
                            )) by {
                            assert(forall|i: int|
                                0 <= i < old(self).addrs@.len() ==> self.addrs@[i] == old(
                                    self,
                                ).addrs@[i]);
                        };
                        assert(self.addrs@[self.addrs@.len() - 1] == addr);
                    };
                };
            }
        } else {
            proof {
                assert(self@ =~= old(self)@.insert(addr));
            }
        }
    }

    /// Atomically empty the registry, yielding its prior contents.
    /// The caller gets every recorded address exactly once, and the
    /// registry starts the next snapshot empty.
    pub fn drain(&mut self) -> (r: Vec<IpAddress>)
        requires
            old(self).wf(),
        ensures
            final(self).wf(),
            final(self)@ == Set::<IpAddress>::empty(),
            r@.to_set() == old(self)@,
            r@.no_duplicates(),
    {
        let mut out: Vec<IpAddress> = Vec::new();
        core::mem::swap(&mut out, &mut self.addrs);
        proof {
            assert(self.addrs@.to_set() =~= Set::<IpAddress>::empty());
        }
        out
    }
}

/// Recording an address is idempotent: however many times an
/// announcement is heard before the next drain, the snapshot holds the
/// address once. Over the set model, inserting twice is inserting once.
pub proof fn lemma_insert_idempotent(s: Set<IpAddress>, addr: IpAddress)
    ensures
        s.insert(addr).insert(addr) == s.insert(addr),
{
    assert(s.insert(addr).insert(addr) =~= s.insert(addr));
}

/// Draining is atomic with respect to an insert: under the lock the two
/// happen in one order or the other. Either way the inserted address
/// lands in exactly one snapshot — the drained one when the insert came
/// first, the next one when the drain came first — never both, never
/// lost. `drain`'s contract supplies the snapshots each order yields.
pub proof fn lemma_drain_snapshot(prior: Set<IpAddress>, addr: IpAddress)
    requires
        !prior.contains(addr),
    ensures
        ({
            // the insert won the lock first: drained snapshot
            // prior.insert(addr), next snapshot starts empty
            let drained = prior.insert(addr);
            let next = Set::<IpAddress>::empty();
            drained.contains(addr) && !next.contains(addr)
        }),
        ({
            // the drain won the lock first: drained snapshot prior,
            // next snapshot holds the insert
            let drained = prior;
            let next = Set::<IpAddress>::empty().insert(addr);
            !drained.contains(addr) && next.contains(addr)
        }),
{
}

} // verus!
