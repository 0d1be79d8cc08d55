//! The self-address oracle: deciding whether a network address belongs to
//! this host, given the addresses bound to its interfaces.
use vstd::prelude::*;

verus! {

/// An IPv4 address held as its four octets.
#[derive(PartialEq, Eq, Structural, Clone, Copy, Debug)]
pub struct IpAddress {
    pub o0: u8,
    pub o1: u8,
    pub o2: u8,
    pub o3: u8,
}

/// Whether `addr` is one of the addresses in `local`, the addresses bound
/// to this host's interfaces.
pub fn is_local_address(addr: &IpAddress, local: &Vec<IpAddress>) -> (r: bool)
    ensures
        r == local@.contains(*addr),
{
    let mut i: usize = 0;
    while i < local.len()
        invariant
            i <= local.len(),
            forall|j: int| 0 <= j < i ==> local@[j] != *addr,
        decreases local.len() - i,
    {
        if local[i] == *addr {
            return true;
        }
        i += 1;
    }
    false
}

/// What the self-address oracle answers: membership in the enumerated
/// interface addresses, and "not mine" when enumeration failed.
pub open spec fn spec_is_my_ip(addr: IpAddress, enumeration: Option<Vec<IpAddress>>) -> bool {
    match enumeration {
        Some(local) => local@.contains(addr),
        None => false,
    }
}

/// The self-address oracle. `enumeration` is what interface enumeration
/// produced: `None` when it failed. On failure the safe answer is
/// "not mine", so that a genuine peer is never suppressed.
pub fn is_my_ip(addr: &IpAddress, enumeration: &Option<Vec<IpAddress>>) -> (r: bool)
    ensures
        r == spec_is_my_ip(*addr, *enumeration),
{
    match enumeration {
        Some(local) => is_local_address(addr, local),
        None => false,
    }
}

/// The decimal digits of `n`, most significant first, as ASCII bytes.
pub open spec fn dec_rep(n: nat) -> Seq<u8>
    decreases n,
{
    if n < 10 {
        seq![(48 + n) as u8]
    } else {
        dec_rep(n / 10).push((48 + n % 10) as u8)
    }
}

/// Write `n` in decimal.
pub fn u16_decimal(n: u16) -> (r: Vec<u8>)
    ensures
        r@ == dec_rep(n as nat),
    decreases n,
{
    if n < 10 {
        let mut r: Vec<u8> = Vec::new();
        r.push(48 + n as u8);
        proof {
            assert(r@ =~= dec_rep(n as nat));
        }
        r
    } else {
        let mut r = u16_decimal(n / 10);
        r.push(48 + (n % 10) as u8);
        proof {
            assert(r@ =~= dec_rep(n as nat));
        }
        r
    }
}

/// The textual form of `ip` with `port`, as a connector dials it:
/// the dotted octets, a colon, the port in decimal.
pub open spec fn spec_socket_addr(ip: IpAddress, port: u16) -> Seq<u8> {
    dec_rep(ip.o0 as nat) + seq![46u8] + dec_rep(ip.o1 as nat) + seq![46u8] + dec_rep(
        ip.o2 as nat,
    ) + seq![46u8] + dec_rep(ip.o3 as nat) + seq![58u8] + dec_rep(port as nat)
}

/// Render `ip:port` as ASCII bytes.
pub fn socket_addr_bytes(ip: &IpAddress, port: u16) -> (r: Vec<u8>)
    ensures
        r@ == spec_socket_addr(*ip, port),
{
    let mut r = u16_decimal(ip.o0 as u16);
    r.push(46);
    let mut part = u16_decimal(ip.o1 as u16);
    r.append(&mut part);
    r.push(46);
    let mut part = u16_decimal(ip.o2 as u16);
    r.append(&mut part);
    r.push(46);
    let mut part = u16_decimal(ip.o3 as u16);
    r.append(&mut part);
    r.push(58);
    let mut part = u16_decimal(port);
    r.append(&mut part);
    proof {
        assert(r@ =~= spec_socket_addr(*ip, port));
    }
    r
}

/// The addresses the connector dials for a drained snapshot: each peer
/// paired with the fixed session port, in the snapshot's order.
pub fn connection_targets(peers: &Vec<IpAddress>, port: u16) -> (r: Vec<Vec<u8>>)
    ensures
        r@.len() == peers@.len(),
        forall|i: int| 0 <= i < r@.len() ==> #[trigger] r@[i]@ == spec_socket_addr(peers@[i], port),
{
    let mut r: Vec<Vec<u8>> = Vec::new();
    let mut i: usize = 0;
    while i < peers.len()
        invariant
            i <= peers@.len(),
            r@.len() == i,
            forall|j: int| 0 <= j < i ==> #[trigger] r@[j]@ == spec_socket_addr(peers@[j], port),
        decreases peers@.len() - i,
    {
        let target = socket_addr_bytes(&peers[i], port);
        r.push(target);
        i += 1;
    }
    r
}

} // verus!
