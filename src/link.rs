//! Link-layer addresses of the packet socket, and the netlink request that
//! puts the tunnel's neighbour table into application-probe mode.

use vstd::prelude::*;
use crate::error::Error;

verus! {

/// EtherType of NHRP.
pub const NHRP_ETHERTYPE: u16 = 0x2001;

/// Packet socket address family.
pub const AF_PACKET: u16 = 17;

/// Hardware type of an IPv4 GRE device.
pub const ARPHRD_IPGRE: u16 = 778;

/// Hardware type of an IPv6 GRE device.
pub const ARPHRD_IP6GRE: u16 = 823;

/// Fields of a packet socket address, in host byte order.
#[derive(Debug, PartialEq, Eq, Clone)]
pub struct LinkAddr {
    pub family: u16,
    pub protocol: u16,
    pub ifindex: i32,
    pub halen: u8,
    pub addr: Vec<u8>,
}

/// The link-layer destination for an NBMA address on device `ifindex`:
/// an IPv4 address is the hardware address; IPv6 is not served, and any
/// other width is invalid.
pub fn addr_to_sockaddr(addr: &[u8], ifindex: i32) -> (r: Result<LinkAddr, Error>)
    ensures
        addr@.len() == 4 ==> r is Ok && r->Ok_0.family == AF_PACKET && r->Ok_0.protocol
            == NHRP_ETHERTYPE && r->Ok_0.ifindex == ifindex && r->Ok_0.halen == 4 && r->Ok_0.addr@
            == addr@,
        addr@.len() == 16 ==> r == Err::<LinkAddr, Error>(Error::NotImplemented),
        addr@.len() != 4 && addr@.len() != 16 ==> r == Err::<LinkAddr, Error>(Error::Invalid),
{
    if addr.len() == 4 {
        Ok(
            LinkAddr {
                family: AF_PACKET,
                protocol: NHRP_ETHERTYPE,
                ifindex,
                halen: 4,
                addr: vstd::slice::slice_to_vec(addr),
            },
        )
    } else if addr.len() == 16 {
        Err(Error::NotImplemented)
    } else {
        Err(Error::Invalid)
    }
}

/// The NBMA source address of a received datagram: the first four
/// hardware address octets of an IPv4 GRE device carrying NHRP.
pub fn sockaddr_to_addr(hatype: u16, protocol: u16, addr: &[u8]) -> (r: Result<Vec<u8>, Error>)
    ensures
        hatype == ARPHRD_IPGRE && protocol == NHRP_ETHERTYPE && addr@.len() >= 4 ==> r is Ok
            && r->Ok_0@ == addr@.take(4),
        hatype == ARPHRD_IP6GRE ==> r == Err::<Vec<u8>, Error>(Error::NotImplemented),
        hatype != ARPHRD_IP6GRE && !(hatype == ARPHRD_IPGRE && protocol == NHRP_ETHERTYPE
            && addr@.len() >= 4) ==> r == Err::<Vec<u8>, Error>(Error::Invalid),
{
    if hatype == ARPHRD_IPGRE && protocol == NHRP_ETHERTYPE && addr.len() >= 4 {
        Ok(crate::wire::copy_range(addr, 0, 4))
    } else if hatype == ARPHRD_IP6GRE {
        Err(Error::NotImplemented)
    } else {
        Err(Error::Invalid)
    }
}

/// The set-neighbour-table request with interface index zero: header,
/// table name "arp_cache", and the attributes IFINDEX, APP_PROBES = 1,
/// MCAST_PROBES = 0 and UCAST_PROBES = 0.  Netlink is in host byte order;
/// this layout is for a little-endian host.
pub open spec fn neighbour_table_template() -> Seq<u8> {
    seq![
        0x48u8, 0x00, 0x00, 0x00, 0x43, 0x00, 0x01, 0x01, 0x26, 0xf4, 0x73, 0x5b, 0x00, 0x00,
        0x00, 0x00, 0x02, 0x00, 0x00, 0x00, 0x0e, 0x00, 0x01, 0x00, 0x61, 0x72, 0x70, 0x5f,
        0x63, 0x61, 0x63, 0x68, 0x65, 0x00, 0x00, 0x00, 0x24, 0x00, 0x06, 0x00, 0x08, 0x00,
        0x01, 0x00, 0x00, 0x00, 0x00, 0x00, 0x08, 0x00, 0x09, 0x00, 0x01, 0x00, 0x00, 0x00,
        0x08, 0x00, 0x0b, 0x00, 0x00, 0x00, 0x00, 0x00, 0x08, 0x00, 0x0a, 0x00, 0x00, 0x00,
        0x00, 0x00,
    ]
}

/// The four octets of `v`, least significant first.
pub open spec fn u32_le_octets(v: u32) -> Seq<u8> {
    seq![(v % 256) as u8, ((v / 256) % 256) as u8, ((v / 0x10000) % 256) as u8, (v / 0x1000000) as u8]
}

/// Offset of the interface index value in the request.
pub const IFINDEX_OFFSET: usize = 44;

/// The request that switches device `ifid` to application probes.
pub fn neighbour_table_request(ifid: u32) -> (r: Vec<u8>)
    ensures
        r@ == neighbour_table_template().take(44) + u32_le_octets(ifid)
            + neighbour_table_template().skip(48),
{
    let t: [u8; 72] = [
        0x48, 0x00, 0x00, 0x00, 0x43, 0x00, 0x01, 0x01, 0x26, 0xf4, 0x73, 0x5b, 0x00, 0x00, 0x00,
        0x00, 0x02, 0x00, 0x00, 0x00, 0x0e, 0x00, 0x01, 0x00, 0x61, 0x72, 0x70, 0x5f, 0x63, 0x61,
        0x63, 0x68, 0x65, 0x00, 0x00, 0x00, 0x24, 0x00, 0x06, 0x00, 0x08, 0x00, 0x01, 0x00, 0x00,
        0x00, 0x00, 0x00, 0x08, 0x00, 0x09, 0x00, 0x01, 0x00, 0x00, 0x00, 0x08, 0x00, 0x0b, 0x00,
        0x00, 0x00, 0x00, 0x00, 0x08, 0x00, 0x0a, 0x00, 0x00, 0x00, 0x00, 0x00,
    ];
    let mut r: Vec<u8> = Vec::new();
    let mut i: usize = 0;
    while i < 72
        invariant
            i <= 72,
            t@ == neighbour_table_template(),
            r@ == t@.take(i as int),
        decreases 72 - i,
    {
        r.push(t[i]);
        i = i + 1;
        assert(r@ =~= t@.take(i as int));
    }
    r.set(IFINDEX_OFFSET, (ifid % 256) as u8);
    r.set(IFINDEX_OFFSET + 1, ((ifid / 256) % 256) as u8);
    r.set(IFINDEX_OFFSET + 2, ((ifid / 0x10000) % 256) as u8);
    r.set(IFINDEX_OFFSET + 3, (ifid / 0x1000000) as u8);
    assert(r@ =~= neighbour_table_template().take(44) + u32_le_octets(ifid)
        + neighbour_table_template().skip(48));
    r
}

} // verus!
