//! Which of a machine's addresses a peer on the same local network can
//! reach: what is offered to a guest who wants to find the host.

use vstd::prelude::*;
use crate::relay::{begins_with, has_prefix};

verus! {

/// One address of one network interface.
#[derive(Debug, PartialEq, Eq)]
pub struct Interface {
    /// The interface's name.
    pub name: Vec<u8>,
    /// The address is an IPv4 address.
    pub is_ipv4: bool,
    /// The address is a loopback address.
    pub is_loopback: bool,
    /// The four bytes of an IPv4 address.
    pub octets: [u8; 4],
}

/// An IPv4 address beginning with `a.b` is private: `10.*`, `172.16.*` to
/// `172.31.*`, or `192.168.*`.
pub open spec fn private_v4(a: u8, b: u8) -> bool {
    a == 10 || (a == 172 && 16 <= b <= 31) || (a == 192 && b == 168)
}

/// The name is that of an interface that some software made up: it begins
/// with `docker`, `br-`, `veth`, `tun`, `tap` or `vmnet`.
pub open spec fn made_up(name: Seq<u8>) -> bool {
    ||| begins_with(name, seq![0x64u8, 0x6f, 0x63, 0x6b, 0x65, 0x72])
    ||| begins_with(name, seq![0x62u8, 0x72, 0x2d])
    ||| begins_with(name, seq![0x76u8, 0x65, 0x74, 0x68])
    ||| begins_with(name, seq![0x74u8, 0x75, 0x6e])
    ||| begins_with(name, seq![0x74u8, 0x61, 0x70])
    ||| begins_with(name, seq![0x76u8, 0x6d, 0x6e, 0x65, 0x74])
}

impl Interface {
    /// The address is one to offer: a private IPv4 address, no loopback, on
    /// an interface that is not made up.
    pub open spec fn on_lan(self) -> bool {
        self.is_ipv4 && !self.is_loopback && !made_up(self.name@) && private_v4(
            self.octets[0],
            self.octets[1],
        )
    }

    /// Whether the address is one to offer.
    pub fn is_on_lan(&self) -> (r: bool)
        ensures
            r == self.on_lan(),
    {
        self.is_ipv4 && !self.is_loopback && !is_made_up(self.name.as_slice()) && is_private_v4(
            self.octets,
        )
    }
}

/// The addresses to offer among the first `n` of `all`, in their order.
pub open spec fn offered(all: Seq<Interface>, n: int) -> Seq<[u8; 4]>
    decreases n,
{
    if n <= 0 {
        Seq::empty()
    } else if all[n - 1].on_lan() {
        offered(all, n - 1).push(all[n - 1].octets)
    } else {
        offered(all, n - 1)
    }
}

/// Whether an IPv4 address is private.
pub fn is_private_v4(octets: [u8; 4]) -> (r: bool)
    ensures
        r == private_v4(octets[0], octets[1]),
{
    octets[0] == 10 || (octets[0] == 172 && octets[1] >= 16 && octets[1] <= 31) || (octets[0]
        == 192 && octets[1] == 168)
}

/// Whether the name is that of an interface that some software made up.
pub fn is_made_up(name: &[u8]) -> (r: bool)
    ensures
        r == made_up(name@),
{
    let docker: [u8; 6] = [0x64, 0x6f, 0x63, 0x6b, 0x65, 0x72];
    let bridge: [u8; 3] = [0x62, 0x72, 0x2d];
    let veth: [u8; 4] = [0x76, 0x65, 0x74, 0x68];
    let tun: [u8; 3] = [0x74, 0x75, 0x6e];
    let tap: [u8; 3] = [0x74, 0x61, 0x70];
    let vmnet: [u8; 5] = [0x76, 0x6d, 0x6e, 0x65, 0x74];
    has_prefix(name, docker.as_slice()) || has_prefix(name, bridge.as_slice()) || has_prefix(
        name,
        veth.as_slice(),
    ) || has_prefix(name, tun.as_slice()) || has_prefix(name, tap.as_slice()) || has_prefix(
        name,
        vmnet.as_slice(),
    )
}

/// The addresses to offer among `all`, in their order.
pub fn lan_addresses(all: &Vec<Interface>) -> (kept: Vec<[u8; 4]>)
    ensures
        kept@ == offered(all@, all.len() as int),
        forall|k: int| 0 <= k < kept.len() ==> private_v4(#[trigger] kept[k][0], kept[k][1]),
{
    let mut kept: Vec<[u8; 4]> = Vec::new();
    let mut i: usize = 0;
    while i < all.len()
        invariant
            i <= all.len(),
            kept@ == offered(all@, i as int),
            forall|k: int| 0 <= k < kept.len() ==> private_v4(#[trigger] kept[k][0], kept[k][1]),
        decreases all.len() - i,
    {
        if all[i].is_on_lan() {
            kept.push(all[i].octets);
        }
        i = i + 1;
    }
    kept
}

} // verus!
