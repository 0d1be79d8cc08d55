//! Presence discovery: what the broadcaster announces and where, and
//! what the listener does with a datagram it received.
use vstd::prelude::*;

use crate::ip::IpAddress;
use crate::ip::spec_is_my_ip;
use crate::registry::PeerRegistry;

verus! {

/// The fixed announcement payload, the ASCII text `ONLINE`.
pub open spec fn online_payload() -> Seq<u8> {
    seq![79u8, 78u8, 76u8, 73u8, 78u8, 69u8]
}

/// The announcement datagram's bytes.
pub fn online_message() -> (r: Vec<u8>)
    ensures
        r@ == online_payload(),
{
    let mut r: Vec<u8> = Vec::new();
    r.push(79);
    r.push(78);
    r.push(76);
    r.push(73);
    r.push(78);
    r.push(69);
    proof {
        assert(r@ =~= online_payload());
    }
    r
}

/// Whether a datagram is exactly the announcement. A malformed or
/// partial payload simply fails this test; it is never an error.
pub fn is_online_message(payload: &Vec<u8>) -> (r: bool)
    ensures
        r == (payload@ == online_payload()),
{
    if payload.len() != 6 {
        proof {
            assert(payload@ != online_payload());
        }
        return false;
    }
    let r = payload[0] == 79 && payload[1] == 78 && payload[2] == 76 && payload[3] == 73
        && payload[4] == 78 && payload[5] == 69;
    proof {
        assert(r == (payload@ =~= online_payload()));
    }
    r
}

/// The subnet broadcast address derived from an interface address under
/// the announcer's /24 assumption: first three octets kept, last 255.
pub open spec fn spec_subnet_broadcast(addr: IpAddress) -> IpAddress {
    IpAddress { o0: addr.o0, o1: addr.o1, o2: addr.o2, o3: 255u8 }
}

/// The subnet broadcast address the announcer derives from an
/// interface address: the first three octets kept, the last set to 255
/// (every subnet is taken for a /24).
pub fn subnet_broadcast_address(addr: &IpAddress) -> (r: IpAddress)
    ensures
        r == spec_subnet_broadcast(*addr),
{
    IpAddress { o0: addr.o0, o1: addr.o1, o2: addr.o2, o3: 255 }
}

/// Where one announcement round sends: for every interface address, its
/// subnet broadcast address with the discovery port, in order.
pub fn broadcast_targets(addresses: &Vec<IpAddress>, port: u16) -> (r: Vec<Vec<u8>>)
    ensures
        r@.len() == addresses@.len(),
        forall|i: int|
            0 <= i < r@.len() ==> #[trigger] r@[i]@ == crate::ip::spec_socket_addr(
                spec_subnet_broadcast(addresses@[i]),
                port,
            ),
{
    let mut r: Vec<Vec<u8>> = Vec::new();
    let mut i: usize = 0;
    while i < addresses.len()
        invariant
            i <= addresses@.len(),
            r@.len() == i,
            forall|j: int|
                0 <= j < i ==> #[trigger] r@[j]@ == crate::ip::spec_socket_addr(
                    spec_subnet_broadcast(addresses@[j]),
                    port,
                ),
        decreases addresses@.len() - i,
    {
        let broadcast = subnet_broadcast_address(&addresses[i]);
        let target = crate::ip::socket_addr_bytes(&broadcast, port);
        r.push(target);
        i += 1;
    }
    r
}

/// The directed broadcast address of the subnet that `addr` with
/// `mask` lies on: the address with every host bit set.
pub fn directed_broadcast_address(addr: &IpAddress, mask: &IpAddress) -> (r: IpAddress)
    ensures
        r.o0 == addr.o0 | !mask.o0,
        r.o1 == addr.o1 | !mask.o1,
        r.o2 == addr.o2 | !mask.o2,
        r.o3 == addr.o3 | !mask.o3,
{
    IpAddress {
        o0: addr.o0 | !mask.o0,
        o1: addr.o1 | !mask.o1,
        o2: addr.o2 | !mask.o2,
        o3: addr.o3 | !mask.o3,
    }
}

/// What the listener does with one received datagram: if it is exactly
/// the announcement and the sender is not this host, record the sender;
/// anything else leaves the registry untouched. This is where the
/// registry's guarantee comes from: a self-originated broadcast echo is
/// never inserted, and an announcement heard many times lands once.
pub fn handle_datagram(
    payload: &Vec<u8>,
    src: IpAddress,
    enumeration: &Option<Vec<IpAddress>>,
    registry: &mut PeerRegistry,
)
    requires
        old(registry).wf(),
    ensures
        final(registry).wf(),
        final(registry)@ == if payload@ == online_payload() && !spec_is_my_ip(
            src,
            *enumeration,
        ) {
            old(registry)@.insert(src)
        } else {
            old(registry)@
        },
{
    if is_online_message(payload) {
        if !crate::ip::is_my_ip(&src, enumeration) {
            registry.insert(src);
        }
    }
}

} // verus!
