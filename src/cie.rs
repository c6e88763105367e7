//! Client information entries: field access, iteration and the owned entry.

use vstd::prelude::*;
use crate::error::Error;
use crate::traits::{Emitable, Parseable};
use crate::wire::{addr_width_ok, is_addr_width, be16, push_octets, push_u16, read_u16, u16_octets, write_range, write_u16};

verus! {

/// Octets of the fixed part of an entry, before the addresses.
pub const CIE_HEADER_LEN: usize = 12;

/// Mathematical value of a client information entry.
pub struct CieModel {
    pub code: u8,
    pub prefix_len: u8,
    pub mtu: u16,
    pub holding_time: u16,
    pub preference: u8,
    pub client_nbma_addr: Seq<u8>,
    pub client_nbma_saddr: Seq<u8>,
    pub client_proto_addr: Seq<u8>,
}

impl CieModel {
    /// The address lengths fit their fields.
    pub open spec fn wf(self) -> bool {
        &&& self.client_nbma_addr.len() < 64
        &&& self.client_nbma_saddr.len() < 64
        &&& self.client_proto_addr.len() < 256
        &&& addr_width_ok(self.client_nbma_addr.len() as int)
        &&& addr_width_ok(self.client_proto_addr.len() as int)
    }
}

pub open spec fn cie_nbma_len(b: Seq<u8>) -> int {
    (b[8] % 64) as int
}

pub open spec fn cie_saddr_len(b: Seq<u8>) -> int {
    (b[9] % 64) as int
}

pub open spec fn cie_saddr_offset(b: Seq<u8>) -> int {
    CIE_HEADER_LEN + cie_nbma_len(b)
}

pub open spec fn cie_proto_offset(b: Seq<u8>) -> int {
    cie_saddr_offset(b) + cie_saddr_len(b)
}

/// Octets of the entry that starts `b`, as its length fields declare.
pub open spec fn cie_len(b: Seq<u8>) -> int {
    cie_proto_offset(b) + b[10] as int
}

/// `b` starts with a whole entry.
pub open spec fn cie_complete(b: Seq<u8>) -> bool {
    b.len() >= CIE_HEADER_LEN && b.len() >= cie_len(b)
}

/// The entry that starts `b`.
pub open spec fn cie_model(b: Seq<u8>) -> CieModel {
    CieModel {
        code: b[0],
        prefix_len: b[1],
        mtu: be16(b, 4),
        holding_time: be16(b, 6),
        preference: b[11],
        client_nbma_addr: b.subrange(CIE_HEADER_LEN as int, cie_saddr_offset(b)),
        client_nbma_saddr: b.subrange(cie_saddr_offset(b), cie_proto_offset(b)),
        client_proto_addr: b.subrange(cie_proto_offset(b), cie_len(b)),
    }
}

/// The octets of an entry: reserved octets zero, addresses as NSAP.
pub open spec fn cie_bytes(c: CieModel) -> Seq<u8> {
    seq![c.code, c.prefix_len, 0u8, 0u8] + u16_octets(c.mtu) + u16_octets(c.holding_time) + seq![
        c.client_nbma_addr.len() as u8,
        c.client_nbma_saddr.len() as u8,
        c.client_proto_addr.len() as u8,
        c.preference,
    ] + c.client_nbma_addr + c.client_nbma_saddr + c.client_proto_addr
}

/// The client NBMA and protocol addresses of the entry that starts `b`
/// have widths the codec decodes.
pub open spec fn cie_widths_ok(b: Seq<u8>) -> bool {
    addr_width_ok(cie_nbma_len(b)) && addr_width_ok(b[10] as int)
}

/// Decodes the entry that starts `b`: it must be whole, and its addresses
/// absent, IPv4 or IPv6.
pub open spec fn parse_cie(b: Seq<u8>) -> Result<CieModel, Error> {
    if !cie_complete(b) {
        Err(Error::Truncated)
    } else if !cie_widths_ok(b) {
        Err(Error::NotImplemented)
    } else {
        Ok(cie_model(b))
    }
}

/// Entries back to back; every one must be whole and decodable.
pub open spec fn parse_cie_list(b: Seq<u8>) -> Result<Seq<CieModel>, Error>
    decreases b.len(),
{
    if b.len() == 0 {
        Ok(Seq::empty())
    } else if !cie_complete(b) {
        Err(Error::Truncated)
    } else if !cie_widths_ok(b) {
        Err(Error::NotImplemented)
    } else {
        match parse_cie_list(b.skip(cie_len(b))) {
            Ok(rest) => Ok(seq![cie_model(b)] + rest),
            Err(e) => Err(e),
        }
    }
}

/// The octets of a list of entries.
pub open spec fn cie_list_bytes(l: Seq<CieModel>) -> Seq<u8>
    decreases l.len(),
{
    if l.len() == 0 {
        Seq::empty()
    } else {
        cie_bytes(l[0]) + cie_list_bytes(l.skip(1))
    }
}

pub open spec fn cies_wf(l: Seq<CieModel>) -> bool {
    forall|i: int| 0 <= i < l.len() ==> #[trigger] l[i].wf()
}

/// An entry reads back from its octets, whatever follows them.
pub proof fn lemma_cie_round_trip(c: CieModel, rest: Seq<u8>)
    requires
        c.wf(),
    ensures
        cie_complete(cie_bytes(c) + rest),
        cie_widths_ok(cie_bytes(c) + rest),
        cie_len(cie_bytes(c) + rest) == cie_bytes(c).len(),
        cie_model(cie_bytes(c) + rest) == c,
{
    let b = cie_bytes(c) + rest;
    let a = c.client_nbma_addr.len() as int;
    let s = c.client_nbma_saddr.len() as int;
    let p = c.client_proto_addr.len() as int;
    assert(b[8] == a as u8 && b[9] == s as u8 && b[10] == p as u8);
    assert(cie_len(b) == 12 + a + s + p);
    crate::wire::lemma_be16_octets(c.mtu, b, 4);
    crate::wire::lemma_be16_octets(c.holding_time, b, 6);
    assert(b.subrange(12, 12 + a) =~= c.client_nbma_addr);
    assert(b.subrange(12 + a, 12 + a + s) =~= c.client_nbma_saddr);
    assert(b.subrange(12 + a + s, 12 + a + s + p) =~= c.client_proto_addr);
}

/// A list of entries reads back from its octets.
pub proof fn lemma_cie_list_round_trip(l: Seq<CieModel>)
    requires
        cies_wf(l),
    ensures
        parse_cie_list(cie_list_bytes(l)) == Ok::<Seq<CieModel>, Error>(l),
    decreases l.len(),
{
    if l.len() > 0 {
        let tail = l.skip(1);
        assert forall|i: int| 0 <= i < tail.len() implies #[trigger] tail[i].wf() by {
            assert(tail[i] == l[i + 1]);
        }
        lemma_cie_list_round_trip(tail);
        assert(l[0].wf());
        let b = cie_list_bytes(l);
        lemma_cie_round_trip(l[0], cie_list_bytes(tail));
        assert(b.skip(cie_len(b)) =~= cie_list_bytes(tail));
        assert(seq![l[0]] + tail =~= l);
    } else {
        assert(l =~= Seq::<CieModel>::empty());
    }
}

/// An owned client information entry.  An empty address is absent.
#[derive(Debug, PartialEq, Eq, Clone)]
pub struct ClientInformationEntry {
    pub code: u8,
    pub prefix_len: u8,
    pub mtu: u16,
    pub holding_time: u16,
    pub preference: u8,
    pub client_nbma_addr: Vec<u8>,
    pub client_nbma_saddr: Vec<u8>,
    pub client_proto_addr: Vec<u8>,
}

impl View for ClientInformationEntry {
    type V = CieModel;

    open spec fn view(&self) -> CieModel {
        CieModel {
            code: self.code,
            prefix_len: self.prefix_len,
            mtu: self.mtu,
            holding_time: self.holding_time,
            preference: self.preference,
            client_nbma_addr: self.client_nbma_addr@,
            client_nbma_saddr: self.client_nbma_saddr@,
            client_proto_addr: self.client_proto_addr@,
        }
    }
}

impl ClientInformationEntry {
    pub fn new(
        code: u8,
        prefix_len: u8,
        mtu: u16,
        holding_time: u16,
        preference: u8,
        client_nbma_addr: Vec<u8>,
        client_nbma_saddr: Vec<u8>,
        client_proto_addr: Vec<u8>,
    ) -> (r: ClientInformationEntry)
        ensures
            r@ == (CieModel {
                code,
                prefix_len,
                mtu,
                holding_time,
                preference,
                client_nbma_addr: client_nbma_addr@,
                client_nbma_saddr: client_nbma_saddr@,
                client_proto_addr: client_proto_addr@,
            }),
    {
        ClientInformationEntry {
            code,
            prefix_len,
            mtu,
            holding_time,
            preference,
            client_nbma_addr,
            client_nbma_saddr,
            client_proto_addr,
        }
    }

    /// Whether the address lengths fit their fields.
    pub fn is_well_formed(&self) -> (r: bool)
        ensures
            r == self@.wf(),
    {
        self.client_nbma_addr.len() < 64 && self.client_nbma_saddr.len() < 64
            && self.client_proto_addr.len() < 256 && is_addr_width(self.client_nbma_addr.len())
            && is_addr_width(self.client_proto_addr.len())
    }

    /// A copy whose view is the same.
    pub fn duplicate(&self) -> (r: ClientInformationEntry)
        ensures
            r@ == self@,
    {
        ClientInformationEntry {
            code: self.code,
            prefix_len: self.prefix_len,
            mtu: self.mtu,
            holding_time: self.holding_time,
            preference: self.preference,
            client_nbma_addr: vstd::slice::slice_to_vec(self.client_nbma_addr.as_slice()),
            client_nbma_saddr: vstd::slice::slice_to_vec(self.client_nbma_saddr.as_slice()),
            client_proto_addr: vstd::slice::slice_to_vec(self.client_proto_addr.as_slice()),
        }
    }
}

impl Emitable for ClientInformationEntry {
    open spec fn wire(&self) -> Seq<u8> {
        cie_bytes(self@)
    }

    open spec fn emitable(&self) -> bool {
        self@.wf()
    }

    fn write_to(&self, out: &mut Vec<u8>) {
        let ghost start = out@;
        out.push(self.code);
        out.push(self.prefix_len);
        out.push(0);
        out.push(0);
        push_u16(out, self.mtu);
        push_u16(out, self.holding_time);
        out.push(self.client_nbma_addr.len() as u8);
        out.push(self.client_nbma_saddr.len() as u8);
        out.push(self.client_proto_addr.len() as u8);
        out.push(self.preference);
        push_octets(out, self.client_nbma_addr.as_slice());
        push_octets(out, self.client_nbma_saddr.as_slice());
        push_octets(out, self.client_proto_addr.as_slice());
        assert(out@ =~= start + cie_bytes(self@));
    }

    fn buffer_len(&self) -> (r: usize) {
        CIE_HEADER_LEN + self.client_nbma_addr.len() + self.client_nbma_saddr.len()
            + self.client_proto_addr.len()
    }
}

/// Appends the octets of every entry of `cies`.
pub fn write_cie_list(cies: &Vec<ClientInformationEntry>, out: &mut Vec<u8>)
    requires
        forall|i: int| 0 <= i < cies@.len() ==> (#[trigger] cies@[i])@.wf(),
    ensures
        final(out)@ == old(out)@ + cie_list_bytes(cies@.map_values(|c: ClientInformationEntry| c@)),
{
    let ghost start = out@;
    let ghost models = cies@.map_values(|c: ClientInformationEntry| c@);
    let mut i: usize = 0;
    assert(models.skip(0) =~= models);
    while i < cies.len()
        invariant
            i <= cies@.len(),
            models == cies@.map_values(|c: ClientInformationEntry| c@),
            forall|k: int| 0 <= k < cies@.len() ==> (#[trigger] cies@[k])@.wf(),
            start + cie_list_bytes(models) == out@ + cie_list_bytes(models.skip(i as int)),
        decreases cies@.len() - i,
    {
        let ghost before = out@;
        assert(models.skip(i as int)[0] == cies@[i as int]@);
        assert(models.skip(i as int).skip(1) =~= models.skip(i + 1));
        cies[i].write_to(out);
        i = i + 1;
    }
    assert(models.skip(i as int).len() == 0);
    assert(out@ =~= start + cie_list_bytes(models));
}

/// Octet length of a list of entries.
pub fn cie_list_len(cies: &Vec<ClientInformationEntry>) -> (r: usize)
    requires
        forall|i: int| 0 <= i < cies@.len() ==> (#[trigger] cies@[i])@.wf(),
        cie_list_bytes(cies@.map_values(|c: ClientInformationEntry| c@)).len() <= usize::MAX,
    ensures
        r == cie_list_bytes(cies@.map_values(|c: ClientInformationEntry| c@)).len(),
{
    let ghost models = cies@.map_values(|c: ClientInformationEntry| c@);
    let mut total: usize = 0;
    let mut i: usize = 0;
    assert(models.skip(0) =~= models);
    while i < cies.len()
        invariant
            i <= cies@.len(),
            models == cies@.map_values(|c: ClientInformationEntry| c@),
            forall|k: int| 0 <= k < cies@.len() ==> (#[trigger] cies@[k])@.wf(),
            cie_list_bytes(models).len() <= usize::MAX,
            total + cie_list_bytes(models.skip(i as int)).len() == cie_list_bytes(models).len(),
        decreases cies@.len() - i,
    {
        assert(models.skip(i as int)[0] == cies@[i as int]@);
        assert(models.skip(i as int).skip(1) =~= models.skip(i + 1));
        total = total + cies[i].buffer_len();
        i = i + 1;
    }
    total
}

/// Octet length of `cies` when every entry is well formed and the total is
/// at most `limit`; none otherwise.
pub fn bounded_cie_list_len(cies: &Vec<ClientInformationEntry>, limit: usize) -> (r: Option<usize>)
    ensures
        match r {
            Some(n) => cies_wf(cies@.map_values(|c: ClientInformationEntry| c@)) && n
                == cie_list_bytes(cies@.map_values(|c: ClientInformationEntry| c@)).len() && n
                <= limit,
            None => !(cies_wf(cies@.map_values(|c: ClientInformationEntry| c@)) && cie_list_bytes(
                cies@.map_values(|c: ClientInformationEntry| c@),
            ).len() <= limit),
        },
{
    let ghost models = cies@.map_values(|c: ClientInformationEntry| c@);
    let mut total: usize = 0;
    let mut i: usize = 0;
    assert(models.skip(0) =~= models);
    while i < cies.len()
        invariant
            i <= cies@.len(),
            models == cies@.map_values(|c: ClientInformationEntry| c@),
            forall|k: int| 0 <= k < i ==> (#[trigger] models[k]).wf(),
            total <= limit,
            total + cie_list_bytes(models.skip(i as int)).len() == cie_list_bytes(models).len(),
        decreases cies@.len() - i,
    {
        assert(models[i as int] == cies@[i as int]@);
        assert(models.skip(i as int)[0] == cies@[i as int]@);
        assert(models.skip(i as int).skip(1) =~= models.skip(i + 1));
        if !cies[i].is_well_formed() {
            return None;
        }
        let n = cies[i].buffer_len();
        if n > limit - total {
            return None;
        }
        total = total + n;
        i = i + 1;
    }
    assert(models.skip(i as int).len() == 0);
    Some(total)
}

/// A view of a client information entry held in a byte vector.
pub struct CieBuffer {
    buffer: Vec<u8>,
}

impl View for CieBuffer {
    type V = Seq<u8>;

    closed spec fn view(&self) -> Seq<u8> {
        self.buffer@
    }
}

impl CieBuffer {
    pub fn new(buffer: Vec<u8>) -> (r: CieBuffer)
        ensures
            r@ == buffer@,
    {
        CieBuffer { buffer }
    }

    /// Wraps octets that start with a whole entry.
    pub fn new_checked(buffer: Vec<u8>) -> (r: Result<CieBuffer, Error>)
        ensures
            match r {
                Ok(p) => p@ == buffer@ && cie_complete(buffer@),
                Err(e) => e == Error::Truncated && !cie_complete(buffer@),
            },
    {
        let packet = CieBuffer::new(buffer);
        match packet.check_buffer_length() {
            Ok(()) => Ok(packet),
            Err(e) => Err(e),
        }
    }

    fn check_buffer_length(&self) -> (r: Result<(), Error>)
        ensures
            match r {
                Ok(()) => cie_complete(self@),
                Err(e) => e == Error::Truncated && !cie_complete(self@),
            },
    {
        let len = self.buffer.len();
        if len < CIE_HEADER_LEN || len < self.length() as usize {
            Err(Error::Truncated)
        } else {
            Ok(())
        }
    }

    /// Octets of the entry as its length fields declare.
    pub fn length(&self) -> (r: u32)
        requires
            self@.len() >= CIE_HEADER_LEN,
        ensures
            r == cie_len(self@),
    {
        CIE_HEADER_LEN as u32 + self.cli_nbma_addr_tl() as u32 % 64 + self.cli_nbma_saddr_tl() as u32
            % 64 + self.cli_proto_addr_len() as u32
    }

    pub fn into_inner(self) -> (r: Vec<u8>)
        ensures
            r@ == self@,
    {
        self.buffer
    }

    pub fn code(&self) -> (r: u8)
        requires
            self@.len() >= CIE_HEADER_LEN,
        ensures
            r == self@[0],
    {
        self.buffer[0]
    }

    pub fn prefix_len(&self) -> (r: u8)
        requires
            self@.len() >= CIE_HEADER_LEN,
        ensures
            r == self@[1],
    {
        self.buffer[1]
    }

    pub fn mtu(&self) -> (r: u16)
        requires
            self@.len() >= CIE_HEADER_LEN,
        ensures
            r == be16(self@, 4),
    {
        read_u16(self.buffer.as_slice(), 4)
    }

    pub fn holding_time(&self) -> (r: u16)
        requires
            self@.len() >= CIE_HEADER_LEN,
        ensures
            r == be16(self@, 6),
    {
        read_u16(self.buffer.as_slice(), 6)
    }

    /// The client NBMA address type/length octet.
    pub fn cli_nbma_addr_tl(&self) -> (r: u8)
        requires
            self@.len() >= CIE_HEADER_LEN,
        ensures
            r == self@[8],
    {
        self.buffer[8]
    }

    pub fn cli_nbma_addr_offset(&self) -> (r: usize)
        ensures
            r == CIE_HEADER_LEN,
    {
        CIE_HEADER_LEN
    }

    /// The client NBMA subaddress type/length octet.
    pub fn cli_nbma_saddr_tl(&self) -> (r: u8)
        requires
            self@.len() >= CIE_HEADER_LEN,
        ensures
            r == self@[9],
    {
        self.buffer[9]
    }

    pub fn cli_nbma_saddr_offset(&self) -> (r: usize)
        requires
            self@.len() >= CIE_HEADER_LEN,
        ensures
            r == cie_saddr_offset(self@),
    {
        self.cli_nbma_addr_offset() + (self.cli_nbma_addr_tl() % 64) as usize
    }

    pub fn cli_proto_addr_len(&self) -> (r: u8)
        requires
            self@.len() >= CIE_HEADER_LEN,
        ensures
            r == self@[10],
    {
        self.buffer[10]
    }

    pub fn cli_proto_addr_offset(&self) -> (r: usize)
        requires
            self@.len() >= CIE_HEADER_LEN,
        ensures
            r == cie_proto_offset(self@),
    {
        self.cli_nbma_saddr_offset() + (self.cli_nbma_saddr_tl() % 64) as usize
    }

    pub fn preference(&self) -> (r: u8)
        requires
            self@.len() >= CIE_HEADER_LEN,
        ensures
            r == self@[11],
    {
        self.buffer[11]
    }

    pub fn cli_nbma_addr(&self) -> (r: &[u8])
        requires
            cie_complete(self@),
        ensures
            r@ == self@.subrange(CIE_HEADER_LEN as int, cie_saddr_offset(self@)),
    {
        vstd::slice::slice_subrange(
            self.buffer.as_slice(),
            self.cli_nbma_addr_offset(),
            self.cli_nbma_saddr_offset(),
        )
    }

    pub fn cli_nbma_saddr(&self) -> (r: &[u8])
        requires
            cie_complete(self@),
        ensures
            r@ == self@.subrange(cie_saddr_offset(self@), cie_proto_offset(self@)),
    {
        vstd::slice::slice_subrange(
            self.buffer.as_slice(),
            self.cli_nbma_saddr_offset(),
            self.cli_proto_addr_offset(),
        )
    }

    pub fn cli_proto_addr(&self) -> (r: &[u8])
        requires
            cie_complete(self@),
        ensures
            r@ == self@.subrange(cie_proto_offset(self@), cie_len(self@)),
    {
        vstd::slice::slice_subrange(
            self.buffer.as_slice(),
            self.cli_proto_addr_offset(),
            self.length() as usize,
        )
    }

    /// Overwrites the client NBMA address with `value`, which has its length.
    pub fn cli_nbma_addr_mut(&mut self, value: &[u8])
        requires
            cie_complete(old(self)@),
            value@.len() == cie_nbma_len(old(self)@),
        ensures
            final(self)@ == old(self)@.take(CIE_HEADER_LEN as int) + value@ + old(self)@.skip(
                cie_saddr_offset(old(self)@),
            ),
    {
        let off = self.cli_nbma_addr_offset();
        write_range(&mut self.buffer, off, value);
    }

    /// Overwrites the client NBMA subaddress with `value`, which has its length.
    pub fn cli_nbma_saddr_mut(&mut self, value: &[u8])
        requires
            cie_complete(old(self)@),
            value@.len() == cie_saddr_len(old(self)@),
        ensures
            final(self)@ == old(self)@.take(cie_saddr_offset(old(self)@)) + value@ + old(
                self,
            )@.skip(cie_proto_offset(old(self)@)),
    {
        let off = self.cli_nbma_saddr_offset();
        write_range(&mut self.buffer, off, value);
    }

    /// Overwrites the client protocol address with `value`, which has its length.
    pub fn cli_proto_addr_mut(&mut self, value: &[u8])
        requires
            cie_complete(old(self)@),
            value@.len() == old(self)@[10],
        ensures
            final(self)@ == old(self)@.take(cie_proto_offset(old(self)@)) + value@ + old(
                self,
            )@.skip(cie_len(old(self)@)),
    {
        let off = self.cli_proto_addr_offset();
        write_range(&mut self.buffer, off, value);
    }

    pub fn set_code(&mut self, value: u8)
        requires
            old(self)@.len() >= CIE_HEADER_LEN,
        ensures
            final(self)@ == old(self)@.update(0, value),
    {
        self.buffer.set(0, value)
    }

    pub fn set_prefix_len(&mut self, value: u8)
        requires
            old(self)@.len() >= CIE_HEADER_LEN,
        ensures
            final(self)@ == old(self)@.update(1, value),
    {
        self.buffer.set(1, value)
    }

    pub fn set_mtu(&mut self, value: u16)
        requires
            old(self)@.len() >= CIE_HEADER_LEN,
        ensures
            final(self)@ == old(self)@.update(4, u16_octets(value)[0]).update(5, u16_octets(value)[1]),
    {
        write_u16(&mut self.buffer, 4, value)
    }

    pub fn set_holding_time(&mut self, value: u16)
        requires
            old(self)@.len() >= CIE_HEADER_LEN,
        ensures
            final(self)@ == old(self)@.update(6, u16_octets(value)[0]).update(7, u16_octets(value)[1]),
    {
        write_u16(&mut self.buffer, 6, value)
    }

    pub fn set_cli_nbma_addr_tl(&mut self, value: u8)
        requires
            old(self)@.len() >= CIE_HEADER_LEN,
        ensures
            final(self)@ == old(self)@.update(8, value),
    {
        self.buffer.set(8, value)
    }

    pub fn set_cli_nbma_saddr_tl(&mut self, value: u8)
        requires
            old(self)@.len() >= CIE_HEADER_LEN,
        ensures
            final(self)@ == old(self)@.update(9, value),
    {
        self.buffer.set(9, value)
    }

    pub fn set_cli_proto_addr_len(&mut self, value: u8)
        requires
            old(self)@.len() >= CIE_HEADER_LEN,
        ensures
            final(self)@ == old(self)@.update(10, value),
    {
        self.buffer.set(10, value)
    }

    pub fn set_preference(&mut self, value: u8)
        requires
            old(self)@.len() >= CIE_HEADER_LEN,
        ensures
            final(self)@ == old(self)@.update(11, value),
    {
        self.buffer.set(11, value)
    }
}

impl Parseable<ClientInformationEntry> for CieBuffer {
    open spec fn parsed(&self) -> Result<CieModel, Error> {
        parse_cie(self@)
    }

    fn parse(&self) -> (r: Result<ClientInformationEntry, Error>) {
        if let Err(e) = self.check_buffer_length() {
            return Err(e);
        }
        if !is_addr_width((self.cli_nbma_addr_tl() % 64) as usize) || !is_addr_width(
            self.cli_proto_addr_len() as usize,
        ) {
            return Err(Error::NotImplemented);
        }
        Ok(ClientInformationEntry {
            code: self.code(),
            prefix_len: self.prefix_len(),
            mtu: self.mtu(),
            holding_time: self.holding_time(),
            preference: self.preference(),
            client_nbma_addr: vstd::slice::slice_to_vec(self.cli_nbma_addr()),
            client_nbma_saddr: vstd::slice::slice_to_vec(self.cli_nbma_saddr()),
            client_proto_addr: vstd::slice::slice_to_vec(self.cli_proto_addr()),
        })
    }
}

/// Walks the entries laid back to back in a byte vector.  After an entry
/// that is not whole it yields the error once and then nothing.
pub struct CieIterator {
    position: usize,
    buffer: Vec<u8>,
}

impl CieIterator {
    pub fn new(buffer: Vec<u8>) -> (r: CieIterator)
        ensures
            r.position() == 0,
            r.octets() == buffer@,
    {
        CieIterator { position: 0, buffer }
    }

    /// Offset of the next entry.
    pub closed spec fn position(&self) -> int {
        self.position as int
    }

    /// The octets walked.
    pub closed spec fn octets(&self) -> Seq<u8> {
        self.buffer@
    }

    /// The octets not walked yet.
    pub open spec fn remaining(&self) -> Seq<u8> {
        if self.position() >= self.octets().len() {
            Seq::empty()
        } else {
            self.octets().skip(self.position())
        }
    }

    /// Yields a view of the next entry, or the error of an entry that is
    /// not whole, or nothing once the octets are used up.
    pub fn next(&mut self) -> (r: Option<Result<CieBuffer, Error>>)
        ensures
            final(self).octets() == old(self).octets(),
            old(self).remaining().len() == 0 ==> r is None && final(self).remaining().len() == 0,
            old(self).remaining().len() > 0 && cie_complete(old(self).remaining()) ==> (match r {
                Some(Ok(b)) => b@ == old(self).remaining() && final(self).remaining() == old(
                    self,
                ).remaining().skip(cie_len(old(self).remaining())),
                _ => false,
            }),
            old(self).remaining().len() > 0 && !cie_complete(old(self).remaining()) ==> r == Some(
                Err::<CieBuffer, Error>(Error::Truncated),
            ) && final(self).remaining().len() == 0,
    {
        let len = self.buffer.len();
        if self.position >= len {
            return None;
        }
        let rest = crate::wire::copy_range(self.buffer.as_slice(), self.position, len);
        assert(rest@ =~= self.remaining());
        match CieBuffer::new_checked(rest) {
            Ok(b) => {
                let n = b.length() as usize;
                proof {
                    assert(self.octets().skip(self.position + n) =~= self.remaining().skip(
                        n as int,
                    ));
                }
                self.position = self.position + n;
                Some(Ok(b))
            },
            Err(e) => {
                self.position = len;
                Some(Err(e))
            },
        }
    }
}

/// Decodes entries laid back to back, failing on one that is not whole.
pub fn parse_cies(b: &[u8]) -> (r: Result<Vec<ClientInformationEntry>, Error>)
    ensures
        match r {
            Ok(v) => parse_cie_list(b@) == Ok::<Seq<CieModel>, Error>(
                v@.map_values(|c: ClientInformationEntry| c@),
            ),
            Err(e) => parse_cie_list(b@) == Err::<Seq<CieModel>, Error>(e),
        },
{
    let mut it = CieIterator::new(vstd::slice::slice_to_vec(b));
    let mut out: Vec<ClientInformationEntry> = Vec::new();
    assert(it.remaining() =~= b@);
    loop
        invariant
            it.octets() == b@,
            parse_cie_list(b@) == match parse_cie_list(it.remaining()) {
                Ok(rest) => Ok(out@.map_values(|c: ClientInformationEntry| c@) + rest),
                Err(e) => Err(e),
            },
        decreases it.remaining().len(),
    {
        let ghost before = it.remaining();
        let ghost done = out@.map_values(|c: ClientInformationEntry| c@);
        match it.next() {
            None => {
                assert(done + Seq::<CieModel>::empty() =~= done);
                return Ok(out);
            },
            Some(Ok(cb)) => {
                let c = match cb.parse() {
                    Ok(c) => c,
                    Err(e) => {
                        return Err(e);
                    },
                };
                out.push(c);
                proof {
                    assert(out@.map_values(|c: ClientInformationEntry| c@) =~= done + seq![
                        cie_model(before),
                    ]);
                    match parse_cie_list(it.remaining()) {
                        Ok(rest) => {
                            assert(done + (seq![cie_model(before)] + rest) =~= done + seq![
                                cie_model(before),
                            ] + rest);
                        },
                        Err(_) => {},
                    }
                }
            },
            Some(Err(e)) => {
                return Err(e);
            },
        }
    }
}

} // verus!
