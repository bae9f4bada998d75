//! Network addresses and their form in socket calls.

use vstd::prelude::*;

verus! {

/// The address family of IPv4 in socket calls.
pub const AF_INET: u16 = 2;

/// The address family of IPv6 in socket calls.
pub const AF_INET6: u16 = 10;

/// An Internet address.
#[derive(Debug, Clone, Copy, PartialEq, Eq)]
pub enum IpAddr {
    /// An IPv4 address
    V4([u8; 4]),
    /// An IPv6 address
    V6([u8; 16]),
}

/// An Internet address and a port.
#[derive(Debug, Clone, Copy, PartialEq, Eq)]
pub struct SocketAddr {
    /// The host
    pub ip: IpAddr,
    /// The port
    pub port: u16,
}

/// An address in the form that socket calls use: the family, and the bytes that follow it.
#[derive(Debug, PartialEq, Eq)]
pub struct RawAddr {
    /// Address family
    pub family: u16,
    /// The port, the address and what else belongs to the family, in network byte order
    pub data: Vec<u8>,
}

/// Why an address in raw form cannot be read.
#[derive(Debug, Clone, Copy, PartialEq, Eq, Structural)]
pub enum AddrError {
    /// The family is neither IPv4 nor IPv6
    UnsupportedFamily,
}

/// The two bytes of a port in network byte order.
pub open spec fn port_bytes(port: u16) -> Seq<u8> {
    seq![(port / 0x100) as u8, (port % 0x100) as u8]
}

/// The bytes of an address that follow the family. IPv4: port, address and eight zeros. IPv6:
/// port, flow label zero, address and scope zero.
pub open spec fn raw_bytes(addr: SocketAddr) -> Seq<u8> {
    match addr.ip {
        IpAddr::V4(octets) => port_bytes(addr.port) + octets@ + Seq::new(8, |i: int| 0u8),
        IpAddr::V6(octets) => port_bytes(addr.port) + Seq::new(4, |i: int| 0u8) + octets@
            + Seq::new(4, |i: int| 0u8),
    }
}

/// The family of an address.
pub open spec fn family_of(addr: SocketAddr) -> u16 {
    match addr.ip {
        IpAddr::V4(_) => AF_INET,
        IpAddr::V6(_) => AF_INET6,
    }
}

/// True when the raw form spells the address.
pub open spec fn spells(family: u16, data: Seq<u8>, addr: SocketAddr) -> bool {
    &&& addr.port == data[0] * 0x100 + data[1]
    &&& match addr.ip {
        IpAddr::V4(octets) => family == AF_INET && octets@ == data.subrange(2, 6),
        IpAddr::V6(octets) => family == AF_INET6 && octets@ == data.subrange(6, 22),
    }
}

/// The raw form of an address.
pub fn to_raw(addr: &SocketAddr) -> (r: RawAddr)
    ensures
        r.family == family_of(*addr),
        r.data@ == raw_bytes(*addr),
        r.data@.len() == if addr.ip is V4 {
            14int
        } else {
            26
        },
{
    let mut data: Vec<u8> = Vec::new();
    data.push((addr.port / 0x100) as u8);
    data.push((addr.port % 0x100) as u8);
    assert(data@ =~= port_bytes(addr.port));
    match addr.ip {
        IpAddr::V4(octets) => {
            data.extend_from_slice(&octets);
            assert(data@ =~= port_bytes(addr.port) + octets@);
            data.resize(14, 0);
            assert(data@ =~= raw_bytes(*addr));
            RawAddr { family: AF_INET, data }
        },
        IpAddr::V6(octets) => {
            data.resize(6, 0);
            assert(data@ =~= port_bytes(addr.port) + Seq::new(4, |i: int| 0u8));
            data.extend_from_slice(&octets);
            assert(data@ =~= port_bytes(addr.port) + Seq::new(4, |i: int| 0u8) + octets@);
            data.resize(26, 0);
            assert(data@ =~= raw_bytes(*addr));
            RawAddr { family: AF_INET6, data }
        },
    }
}

/// The address that a raw form spells.
pub fn from_raw(family: u16, data: &[u8]) -> (r: Result<SocketAddr, AddrError>)
    requires
        data@.len() >= 26,
    ensures
        match r {
            Ok(addr) => spells(family, data@, addr),
            Err(AddrError::UnsupportedFamily) => family != AF_INET && family != AF_INET6,
        },
{
    let port: u16 = data[0] as u16 * 0x100 + data[1] as u16;
    if family == AF_INET {
        let octets: [u8; 4] = [data[2], data[3], data[4], data[5]];
        assert(octets@ =~= data@.subrange(2, 6));
        Ok(SocketAddr { ip: IpAddr::V4(octets), port })
    } else if family == AF_INET6 {
        let octets: [u8; 16] = [
            data[6], data[7], data[8], data[9],
            data[10], data[11], data[12], data[13],
            data[14], data[15], data[16], data[17],
            data[18], data[19], data[20], data[21],
        ];
        assert(octets@ =~= data@.subrange(6, 22));
        Ok(SocketAddr { ip: IpAddr::V6(octets), port })
    } else {
        Err(AddrError::UnsupportedFamily)
    }
}

/// Law: an address that is put into raw form, whatever follows it, is what the raw form spells,
/// and it is the only one.
pub proof fn law_raw_round_trip(addr: SocketAddr, rest: Seq<u8>, other: SocketAddr)
    ensures
        spells(family_of(addr), raw_bytes(addr) + rest, addr),
        spells(family_of(addr), raw_bytes(addr) + rest, other) ==> other == addr,
{
    let data = raw_bytes(addr) + rest;
    match addr.ip {
        IpAddr::V4(octets) => {
            assert(data.subrange(2, 6) =~= octets@);
        },
        IpAddr::V6(octets) => {
            assert(data.subrange(6, 22) =~= octets@);
        },
    }
    if spells(family_of(addr), data, other) {
        match (addr.ip, other.ip) {
            (IpAddr::V4(a), IpAddr::V4(b)) => {
                assert(a@ == b@);
                assert(a =~= b);
            },
            (IpAddr::V6(a), IpAddr::V6(b)) => {
                assert(a@ == b@);
                assert(a =~= b);
            },
            _ => {},
        }
    }
}

/// Law: the raw form of an address has the port first, most significant byte first, then the octets
/// of the address in their order: right after the port for IPv4, and after four zeros for IPv6. All
/// other bytes are zero.
pub proof fn law_raw_layout(addr: SocketAddr, i: int)
    ensures
        raw_bytes(addr)[0] * 256 + raw_bytes(addr)[1] == addr.port,
        addr.ip matches IpAddr::V4(octets) ==> {
            &&& family_of(addr) == 2
            &&& raw_bytes(addr).len() == 14
            &&& 0 <= i < 4 ==> raw_bytes(addr)[2 + i] == octets@[i]
            &&& 6 <= i < 14 ==> raw_bytes(addr)[i] == 0
        },
        addr.ip matches IpAddr::V6(octets) ==> {
            &&& family_of(addr) == 10
            &&& raw_bytes(addr).len() == 26
            &&& 0 <= i < 16 ==> raw_bytes(addr)[6 + i] == octets@[i]
            &&& 2 <= i < 6 ==> raw_bytes(addr)[i] == 0
            &&& 22 <= i < 26 ==> raw_bytes(addr)[i] == 0
        },
{
}

} // verus!
