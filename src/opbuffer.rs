//! Field access to the common part of an operation body.

use vstd::prelude::*;
use crate::error::Error;
use crate::wire::{be16, be32, read_u16, read_u32, u16_octets, u32_octets, write_range, write_u16, write_u32};

verus! {

/// Octets of the fixed part of an operation body, before the addresses.
pub const OPERATION_HEADER_LEN: usize = 10;

/// Type and length of an NBMA address: the 0x40 bit tells E.164 from
/// NSAP, the low six bits give the length.
#[derive(Debug, PartialEq, Eq, Hash, Copy, Clone, Structural)]
pub enum AddrTL {
    NSAP(u8),
    E164(u8),
}

/// The type and length that the octet `v` encodes; the 0x80 bit is ignored.
pub open spec fn addr_tl_of(v: u8) -> AddrTL {
    if (v / 64) % 2 == 1 {
        AddrTL::E164(v % 64)
    } else {
        AddrTL::NSAP(v % 64)
    }
}

impl AddrTL {
    /// The length fits in six bits.
    pub open spec fn wf(self) -> bool {
        match self {
            AddrTL::NSAP(l) => l < 64,
            AddrTL::E164(l) => l < 64,
        }
    }

    /// The carried length.
    pub open spec fn len(self) -> u8 {
        match self {
            AddrTL::NSAP(l) => l,
            AddrTL::E164(l) => l,
        }
    }

    /// The octet that encodes type and length (the length taken modulo 64).
    pub open spec fn value(self) -> u8 {
        match self {
            AddrTL::NSAP(l) => l % 64,
            AddrTL::E164(l) => (l % 64 + 64) as u8,
        }
    }

    pub fn from_u8(v: u8) -> (r: AddrTL)
        ensures
            r == addr_tl_of(v),
            r.wf(),
            r.len() == v % 64,
    {
        if (v / 64) % 2 == 1 {
            AddrTL::E164(v % 64)
        } else {
            AddrTL::NSAP(v % 64)
        }
    }

    pub fn to_u8(self) -> (r: u8)
        ensures
            r == self.value(),
            self.wf() ==> addr_tl_of(r) == self,
    {
        match self {
            AddrTL::NSAP(l) => l % 64,
            AddrTL::E164(l) => l % 64 + 64,
        }
    }

    /// The length carried, whatever the type.
    pub fn val(&self) -> (r: u8)
        ensures
            r == self.len(),
    {
        match *self {
            AddrTL::NSAP(v) => v,
            AddrTL::E164(v) => v,
        }
    }
}

/// Length of the source NBMA address.
pub open spec fn op_shtl_len(b: Seq<u8>) -> int {
    (b[0] % 64) as int
}

/// Length of the source NBMA subaddress.
pub open spec fn op_sstl_len(b: Seq<u8>) -> int {
    (b[1] % 64) as int
}

pub open spec fn op_src_nbma_offset(b: Seq<u8>) -> int {
    OPERATION_HEADER_LEN as int
}

pub open spec fn op_src_saddr_offset(b: Seq<u8>) -> int {
    OPERATION_HEADER_LEN + op_shtl_len(b)
}

pub open spec fn op_src_proto_offset(b: Seq<u8>) -> int {
    op_src_saddr_offset(b) + op_sstl_len(b)
}

pub open spec fn op_dst_proto_offset(b: Seq<u8>) -> int {
    op_src_proto_offset(b) + b[2] as int
}

/// Octets of the common part: fixed fields and the four addresses.
pub open spec fn op_common_len(b: Seq<u8>) -> int {
    op_dst_proto_offset(b) + b[3] as int
}

/// The octets hold the whole common part.
pub open spec fn op_common_complete(b: Seq<u8>) -> bool {
    b.len() >= OPERATION_HEADER_LEN && b.len() >= op_common_len(b)
}

/// A view of an operation body held in a byte vector.
pub struct OperationBuffer {
    buffer: Vec<u8>,
}

impl View for OperationBuffer {
    type V = Seq<u8>;

    closed spec fn view(&self) -> Seq<u8> {
        self.buffer@
    }
}

impl OperationBuffer {
    pub fn new(buffer: Vec<u8>) -> (r: OperationBuffer)
        ensures
            r@ == buffer@,
    {
        OperationBuffer { buffer }
    }

    /// Wraps octets that hold the whole common part.
    pub fn new_checked(buffer: Vec<u8>) -> (r: Result<OperationBuffer, Error>)
        ensures
            match r {
                Ok(p) => p@ == buffer@ && op_common_complete(buffer@),
                Err(e) => e == Error::Truncated && !op_common_complete(buffer@),
            },
    {
        let packet = OperationBuffer::new(buffer);
        match packet.check_buffer_length() {
            Ok(()) => Ok(packet),
            Err(e) => Err(e),
        }
    }

    pub(crate) fn check_buffer_length(&self) -> (r: Result<(), Error>)
        ensures
            match r {
                Ok(()) => op_common_complete(self@),
                Err(e) => e == Error::Truncated && !op_common_complete(self@),
            },
    {
        let len = self.buffer.len();
        if len < OPERATION_HEADER_LEN || len < self.length() {
            Err(Error::Truncated)
        } else {
            Ok(())
        }
    }

    /// Octets of the common part as the length fields declare it.
    pub fn length(&self) -> (r: usize)
        requires
            self@.len() >= 4,
        ensures
            r == op_common_len(self@),
    {
        let d = self.buffer.as_slice();
        OPERATION_HEADER_LEN + (d[0] % 64) as usize + (d[1] % 64) as usize + d[2] as usize
            + d[3] as usize
    }

    pub fn into_inner(self) -> (r: Vec<u8>)
        ensures
            r@ == self@,
    {
        self.buffer
    }

    pub fn src_nbma_addr_tl(&self) -> (r: AddrTL)
        requires
            self@.len() >= 4,
        ensures
            r == addr_tl_of(self@[0]),
    {
        AddrTL::from_u8(self.buffer[0])
    }

    pub fn src_nbma_addr_offset(&self) -> (r: usize)
        ensures
            r == op_src_nbma_offset(self@),
    {
        OPERATION_HEADER_LEN
    }

    pub fn src_nbma_saddr_tl(&self) -> (r: AddrTL)
        requires
            self@.len() >= 4,
        ensures
            r == addr_tl_of(self@[1]),
    {
        AddrTL::from_u8(self.buffer[1])
    }

    pub fn src_nbma_saddr_offset(&self) -> (r: usize)
        requires
            self@.len() >= 4,
        ensures
            r == op_src_saddr_offset(self@),
    {
        self.src_nbma_addr_offset() + self.src_nbma_addr_tl().val() as usize
    }

    pub fn src_proto_addr_len(&self) -> (r: u8)
        requires
            self@.len() >= 4,
        ensures
            r == self@[2],
    {
        self.buffer[2]
    }

    pub fn src_proto_addr_offset(&self) -> (r: usize)
        requires
            self@.len() >= 4,
        ensures
            r == op_src_proto_offset(self@),
    {
        self.src_nbma_saddr_offset() + self.src_nbma_saddr_tl().val() as usize
    }

    pub fn dst_proto_addr_len(&self) -> (r: u8)
        requires
            self@.len() >= 4,
        ensures
            r == self@[3],
    {
        self.buffer[3]
    }

    pub fn dst_proto_addr_offset(&self) -> (r: usize)
        requires
            self@.len() >= 4,
        ensures
            r == op_dst_proto_offset(self@),
    {
        self.src_proto_addr_offset() + self.src_proto_addr_len() as usize
    }

    pub fn flags(&self) -> (r: u16)
        requires
            self@.len() >= OPERATION_HEADER_LEN,
        ensures
            r == be16(self@, 4),
    {
        read_u16(self.buffer.as_slice(), 4)
    }

    pub fn request_id(&self) -> (r: u32)
        requires
            self@.len() >= OPERATION_HEADER_LEN,
        ensures
            r == be32(self@, 6),
    {
        read_u32(self.buffer.as_slice(), 6)
    }

    pub fn src_nbma_addr(&self) -> (r: &[u8])
        requires
            op_common_complete(self@),
        ensures
            r@ == self@.subrange(op_src_nbma_offset(self@), op_src_saddr_offset(self@)),
    {
        vstd::slice::slice_subrange(
            self.buffer.as_slice(),
            self.src_nbma_addr_offset(),
            self.src_nbma_saddr_offset(),
        )
    }

    pub fn src_nbma_saddr(&self) -> (r: &[u8])
        requires
            op_common_complete(self@),
        ensures
            r@ == self@.subrange(op_src_saddr_offset(self@), op_src_proto_offset(self@)),
    {
        vstd::slice::slice_subrange(
            self.buffer.as_slice(),
            self.src_nbma_saddr_offset(),
            self.src_proto_addr_offset(),
        )
    }

    pub fn src_proto_addr(&self) -> (r: &[u8])
        requires
            op_common_complete(self@),
        ensures
            r@ == self@.subrange(op_src_proto_offset(self@), op_dst_proto_offset(self@)),
    {
        vstd::slice::slice_subrange(
            self.buffer.as_slice(),
            self.src_proto_addr_offset(),
            self.dst_proto_addr_offset(),
        )
    }

    pub fn dst_proto_addr(&self) -> (r: &[u8])
        requires
            op_common_complete(self@),
        ensures
            r@ == self@.subrange(op_dst_proto_offset(self@), op_common_len(self@)),
    {
        vstd::slice::slice_subrange(
            self.buffer.as_slice(),
            self.dst_proto_addr_offset(),
            self.length(),
        )
    }

    /// What follows the common part: the client information entries.
    pub fn payload(&self) -> (r: &[u8])
        requires
            op_common_complete(self@),
        ensures
            r@ == self@.skip(op_common_len(self@)),
    {
        let r = vstd::slice::slice_subrange(
            self.buffer.as_slice(),
            self.length(),
            self.buffer.len(),
        );
        assert(r@ =~= self@.skip(op_common_len(self@)));
        r
    }

    /// Overwrites the source NBMA address with `value`, which has its length.
    pub fn src_nbma_addr_mut(&mut self, value: &[u8])
        requires
            op_common_complete(old(self)@),
            value@.len() == op_shtl_len(old(self)@),
        ensures
            final(self)@ == old(self)@.take(op_src_nbma_offset(old(self)@)) + value@ + old(
                self,
            )@.skip(op_src_saddr_offset(old(self)@)),
    {
        let off = self.src_nbma_addr_offset();
        write_range(&mut self.buffer, off, value);
    }

    /// Overwrites the source NBMA subaddress with `value`, which has its length.
    pub fn src_nbma_saddr_mut(&mut self, value: &[u8])
        requires
            op_common_complete(old(self)@),
            value@.len() == op_sstl_len(old(self)@),
        ensures
            final(self)@ == old(self)@.take(op_src_saddr_offset(old(self)@)) + value@ + old(
                self,
            )@.skip(op_src_proto_offset(old(self)@)),
    {
        let off = self.src_nbma_saddr_offset();
        write_range(&mut self.buffer, off, value);
    }

    /// Overwrites the source protocol address with `value`, which has its length.
    pub fn src_proto_addr_mut(&mut self, value: &[u8])
        requires
            op_common_complete(old(self)@),
            value@.len() == old(self)@[2],
        ensures
            final(self)@ == old(self)@.take(op_src_proto_offset(old(self)@)) + value@ + old(
                self,
            )@.skip(op_dst_proto_offset(old(self)@)),
    {
        let off = self.src_proto_addr_offset();
        write_range(&mut self.buffer, off, value);
    }

    /// Overwrites the destination protocol address with `value`, which has its length.
    pub fn dst_proto_addr_mut(&mut self, value: &[u8])
        requires
            op_common_complete(old(self)@),
            value@.len() == old(self)@[3],
        ensures
            final(self)@ == old(self)@.take(op_dst_proto_offset(old(self)@)) + value@ + old(
                self,
            )@.skip(op_common_len(old(self)@)),
    {
        let off = self.dst_proto_addr_offset();
        write_range(&mut self.buffer, off, value);
    }

    pub fn set_src_nbma_addr_tl(&mut self, value: AddrTL)
        requires
            old(self)@.len() >= OPERATION_HEADER_LEN,
        ensures
            final(self)@ == old(self)@.update(0, value.value()),
    {
        self.buffer.set(0, value.to_u8())
    }

    pub fn set_src_nbma_saddr_tl(&mut self, value: AddrTL)
        requires
            old(self)@.len() >= OPERATION_HEADER_LEN,
        ensures
            final(self)@ == old(self)@.update(1, value.value()),
    {
        self.buffer.set(1, value.to_u8())
    }

    pub fn set_src_proto_addr_len(&mut self, value: u8)
        requires
            old(self)@.len() >= OPERATION_HEADER_LEN,
        ensures
            final(self)@ == old(self)@.update(2, value),
    {
        self.buffer.set(2, value)
    }

    pub fn set_dst_proto_addr_len(&mut self, value: u8)
        requires
            old(self)@.len() >= OPERATION_HEADER_LEN,
        ensures
            final(self)@ == old(self)@.update(3, value),
    {
        self.buffer.set(3, value)
    }

    pub fn set_flags(&mut self, value: u16)
        requires
            old(self)@.len() >= OPERATION_HEADER_LEN,
        ensures
            final(self)@ == old(self)@.update(4, u16_octets(value)[0]).update(5, u16_octets(value)[1]),
    {
        write_u16(&mut self.buffer, 4, value)
    }

    pub fn set_request_id(&mut self, value: u32)
        requires
            old(self)@.len() >= OPERATION_HEADER_LEN,
        ensures
            final(self)@ == old(self)@.update(6, u32_octets(value)[0]).update(7, u32_octets(value)[1]).update(
                8,
                u32_octets(value)[2],
            ).update(9, u32_octets(value)[3]),
    {
        write_u32(&mut self.buffer, 6, value)
    }
}

} // verus!
