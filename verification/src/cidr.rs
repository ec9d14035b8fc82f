//! IP networks written as `address/length`, and containment between
//! networks and addresses.

use vstd::prelude::*;
use crate::bgp::types::{Ipv4Net, Ipv6Net};
use crate::bgp::nlri::{masked_addr, high_mask};
use crate::net::{IpAddress, IpModel};

verus! {

/// An IPv4 or IPv6 network: address (host bits kept as written) and prefix
/// length.
#[derive(Clone, Copy, Debug)]
pub enum IpNetwork {
    V4(Ipv4Net),
    V6(Ipv6Net),
}

/// Model of a network: family, address octets, prefix length.
pub struct NetModel {
    pub v6: bool,
    pub addr: Seq<u8>,
    pub len: u8,
}

impl View for IpNetwork {
    type V = NetModel;

    open spec fn view(&self) -> NetModel {
        match self {
            IpNetwork::V4(n) => NetModel { v6: false, addr: n.addr@, len: n.prefix_len },
            IpNetwork::V6(n) => NetModel { v6: true, addr: n.addr@, len: n.prefix_len },
        }
    }
}

/// Whether the first `len` bits of `a` and `b` agree.
pub open spec fn same_prefix_bits(a: Seq<u8>, b: Seq<u8>, len: nat) -> bool {
    masked_addr(a, len, a.len()) == masked_addr(b, len, b.len())
}

/// Whether network `n` contains address `a`: same family, and `a` lies
/// between the network's first and last address.
pub open spec fn net_contains_addr(n: NetModel, a: IpModel) -> bool {
    match a {
        IpModel::V4(b) => !n.v6 && same_prefix_bits(n.addr, b, n.len as nat),
        IpModel::V6(b) => n.v6 && same_prefix_bits(n.addr, b, n.len as nat),
    }
}

/// Whether network `n` contains network `m`: same family, `m` no shorter,
/// and `m` inside `n`'s address range.
pub open spec fn net_contains_net(n: NetModel, m: NetModel) -> bool {
    &&& n.v6 == m.v6
    &&& n.len <= m.len
    &&& same_prefix_bits(n.addr, m.addr, n.len as nat)
}

/// Whether the first `len` bits of `a` and `b` (of equal width) agree.
pub fn same_prefix(a: &[u8], b: &[u8], len: u8) -> (r: bool)
    requires
        a.len() == b.len(),
        len as int <= 8 * a.len(),
    ensures
        r == same_prefix_bits(a@, b@, len as nat),
{
    let full: usize = len as usize / 8;
    let rem: u8 = len % 8;
    let mask: u8 = if rem == 0 { 0x00 } else if rem == 1 { 0x80 } else if rem == 2 { 0xC0 }
        else if rem == 3 { 0xE0 } else if rem == 4 { 0xF0 } else if rem == 5 { 0xF8 }
        else if rem == 6 { 0xFC } else { 0xFE };
    let ghost ma = masked_addr(a@, len as nat, a@.len());
    let ghost mb = masked_addr(b@, len as nat, b@.len());
    let mut i: usize = 0;
    while i < a.len()
        invariant
            a.len() == b.len(),
            len as int <= 8 * a.len(),
            full == len / 8,
            rem == len % 8,
            mask == high_mask(rem as int),
            ma == masked_addr(a@, len as nat, a@.len()),
            mb == masked_addr(b@, len as nat, b@.len()),
            i <= a.len(),
            forall|j: int| 0 <= j < i ==> ma[j] == mb[j],
        decreases a.len() - i,
    {
        let (x, y) = if i < full {
            (a[i], b[i])
        } else if i == full && rem != 0 {
            (a[i] & mask, b[i] & mask)
        } else {
            (0u8, 0u8)
        };
        assert(ma[i as int] == x && mb[i as int] == y);
        if x != y {
            return false;
        }
        i = i + 1;
    }
    assert(ma =~= mb);
    true
}

impl IpNetwork {
    /// Whether the network contains the address.
    pub fn contains_addr(&self, a: &IpAddress) -> (r: bool)
        requires
            self.wf(),
        ensures
            r == net_contains_addr(self@, a@),
    {
        match (self, a) {
            (IpNetwork::V4(n), IpAddress::V4(b)) => same_prefix(&n.addr, b, n.prefix_len),
            (IpNetwork::V6(n), IpAddress::V6(b)) => same_prefix(&n.addr, b, n.prefix_len),
            _ => false,
        }
    }

    /// Whether the network contains network `m`.
    pub fn contains_net(&self, m: &IpNetwork) -> (r: bool)
        requires
            self.wf(),
        ensures
            r == net_contains_net(self@, m@),
    {
        match (self, m) {
            (IpNetwork::V4(n), IpNetwork::V4(k)) => n.prefix_len <= k.prefix_len && same_prefix(
                &n.addr,
                &k.addr,
                n.prefix_len,
            ),
            (IpNetwork::V6(n), IpNetwork::V6(k)) => n.prefix_len <= k.prefix_len && same_prefix(
                &n.addr,
                &k.addr,
                n.prefix_len,
            ),
            _ => false,
        }
    }

    /// The prefix length.
    pub fn prefix_len(&self) -> (r: u8)
        ensures
            r == self@.len,
    {
        match self {
            IpNetwork::V4(n) => n.prefix_len,
            IpNetwork::V6(n) => n.prefix_len,
        }
    }

    /// A prefix length that fits the family (32 or 128 bits at most).
    pub open spec fn wf(&self) -> bool {
        match self {
            IpNetwork::V4(n) => n.prefix_len <= 32,
            IpNetwork::V6(n) => n.prefix_len <= 128,
        }
    }
}

/// The network that `ipnet`'s `IpNet::from_str` reads from a text such as
/// "10.0.0.0/8" or "2001:db8::/32", `None` where it reads none.
pub uninterp spec fn ipnet_text_net(s: Seq<char>) -> Option<NetModel>;

pub open spec fn opt_net_view(r: Option<IpNetwork>) -> Option<NetModel> {
    match r {
        Some(n) => Some(n@),
        None => None,
    }
}

/// `ipnet::IpNet::from_str`: reads `address/length`. The result is named,
/// and its prefix length is at most 32 (IPv4) or 128 (IPv6), as the parser
/// only reads lengths below 33 or 129.
#[verifier::external_body]
pub(crate) fn parse_ip_net(s: &str) -> (r: Option<IpNetwork>)
    ensures
        opt_net_view(r) == ipnet_text_net(s@),
        r matches Some(n) ==> n.wf(),
{
    match s.parse::<ipnet::IpNet>() {
        Ok(ipnet::IpNet::V4(n)) => Some(
            IpNetwork::V4(Ipv4Net { addr: n.addr().octets(), prefix_len: n.prefix_len() }),
        ),
        Ok(ipnet::IpNet::V6(n)) => Some(
            IpNetwork::V6(Ipv6Net { addr: n.addr().octets(), prefix_len: n.prefix_len() }),
        ),
        Err(_) => None,
    }
}

} // verus!
