//! The fixed header: protocol type, operation type, and the owned header value.

use vstd::prelude::*;
use crate::error::Error;
use crate::traits::Emitable;
use crate::wire::{be16, push_octets, push_u16, read_u16, u16_octets};

verus! {

/// Class of the 16-bit protocol type field.
#[derive(Debug, PartialEq, Eq, Copy, Clone, Hash, Structural)]
pub enum ProtocolClass {
    /// `0x00xx`: an NLPID.
    NLPID(u8),
    /// `0x0100`..`0x03FF`: reserved for future use.
    Future(u16),
    /// `0x04xx`: an ATM Forum value.
    ATM(u8),
    /// `0x05xx`: an experimental or private value.
    Private(u8),
    /// `0x0600` and above: an Ethertype.
    Ethertype(u16),
}

/// The class that the wire value `v` stands for.
pub open spec fn protocol_class_of(v: u16) -> ProtocolClass {
    let hi = v / 256;
    let lo = (v % 256) as u8;
    if hi == 0 {
        ProtocolClass::NLPID(lo)
    } else if hi <= 3 {
        ProtocolClass::Future(v)
    } else if hi == 4 {
        ProtocolClass::ATM(lo)
    } else if hi == 5 {
        ProtocolClass::Private(lo)
    } else {
        ProtocolClass::Ethertype(v)
    }
}

impl ProtocolClass {
    /// The carried value lies in the range of its class.
    pub open spec fn wf(self) -> bool {
        match self {
            ProtocolClass::Future(v) => 0x100 <= v <= 0x3FF,
            ProtocolClass::Ethertype(v) => v >= 0x600,
            _ => true,
        }
    }

    /// The wire value of a class.
    pub open spec fn value(self) -> u16 {
        match self {
            ProtocolClass::NLPID(b) => b as u16,
            ProtocolClass::Future(v) => v,
            ProtocolClass::ATM(b) => (0x400 + b) as u16,
            ProtocolClass::Private(b) => (0x500 + b) as u16,
            ProtocolClass::Ethertype(v) => v,
        }
    }

    /// Whether the carried value lies in the range of its class.
    pub fn is_valid(&self) -> (r: bool)
        ensures
            r == self.wf(),
    {
        match *self {
            ProtocolClass::Future(v) => 0x100 <= v && v <= 0x3FF,
            ProtocolClass::Ethertype(v) => v >= 0x600,
            _ => true,
        }
    }

    /// Decodes a 16-bit protocol type.
    pub fn from_u16(v: u16) -> (r: ProtocolClass)
        ensures
            r == protocol_class_of(v),
            r.wf(),
            r.value() == v,
    {
        let hi = v / 256;
        let lo = (v % 256) as u8;
        if hi == 0 {
            ProtocolClass::NLPID(lo)
        } else if hi <= 3 {
            ProtocolClass::Future(v)
        } else if hi == 4 {
            ProtocolClass::ATM(lo)
        } else if hi == 5 {
            ProtocolClass::Private(lo)
        } else {
            ProtocolClass::Ethertype(v)
        }
    }

    /// Encodes a class as its 16-bit protocol type.
    pub fn to_u16(self) -> (r: u16)
        requires
            self.wf(),
        ensures
            r == self.value(),
            protocol_class_of(r) == self,
    {
        match self {
            ProtocolClass::NLPID(b) => b as u16,
            ProtocolClass::Future(v) => v,
            ProtocolClass::ATM(b) => 0x400 + b as u16,
            ProtocolClass::Private(b) => 0x500 + b as u16,
            ProtocolClass::Ethertype(v) => v,
        }
    }
}

/// A well-formed class reads back from its wire value.
pub proof fn lemma_protocol_class_round_trip(c: ProtocolClass)
    requires
        c.wf(),
    ensures
        protocol_class_of(c.value()) == c,
{
}

/// Protocol type and SNAP extension of the fixed header.
#[derive(Debug, PartialEq, Eq, Copy, Clone, Hash)]
pub struct ProtocolType {
    pub protype: ProtocolClass,
    pub prosnap: [u8; 5],
}

/// Octets of a protocol type and its SNAP extension.
pub const PROTOCOL_TYPE_LEN: usize = 7;

impl Emitable for ProtocolType {
    open spec fn wire(&self) -> Seq<u8> {
        u16_octets(self.protype.value()) + self.prosnap@
    }

    open spec fn emitable(&self) -> bool {
        self.protype.wf()
    }

    fn write_to(&self, out: &mut Vec<u8>) {
        let ghost start = out@;
        push_u16(out, self.protype.to_u16());
        push_octets(out, self.prosnap.as_slice());
        assert(out@ =~= start + self.wire());
    }

    fn buffer_len(&self) -> (r: usize) {
        PROTOCOL_TYPE_LEN
    }
}

/// Decodes a protocol type and SNAP extension from the start of `b`.
pub fn parse_protocol_type(b: &[u8]) -> (r: Result<ProtocolType, Error>)
    ensures
        b@.len() < PROTOCOL_TYPE_LEN ==> r == Err::<ProtocolType, Error>(Error::Truncated),
        b@.len() >= PROTOCOL_TYPE_LEN ==> r is Ok && r->Ok_0.protype == protocol_class_of(be16(b@, 0))
            && r->Ok_0.prosnap@ == b@.subrange(2, 7),
{
    if b.len() < PROTOCOL_TYPE_LEN {
        return Err(Error::Truncated);
    }
    let prosnap = [b[2], b[3], b[4], b[5], b[6]];
    assert(prosnap@ =~= b@.subrange(2, 7));
    Ok(ProtocolType { protype: ProtocolClass::from_u16(read_u16(b, 0)), prosnap })
}

/// The operation type octet.
#[derive(Debug, PartialEq, Eq, Copy, Clone, Hash, Structural)]
pub enum NhrpOp {
    ResolutionRequest,
    ResolutionReply,
    RegistrationRequest,
    RegistrationReply,
    PurgeRequest,
    PurgeReply,
    ErrorIndication,
    Other(u8),
}

/// The operation that the wire value `v` stands for.
pub open spec fn nhrp_op_of(v: u8) -> NhrpOp {
    if v == 1 {
        NhrpOp::ResolutionRequest
    } else if v == 2 {
        NhrpOp::ResolutionReply
    } else if v == 3 {
        NhrpOp::RegistrationRequest
    } else if v == 4 {
        NhrpOp::RegistrationReply
    } else if v == 5 {
        NhrpOp::PurgeRequest
    } else if v == 6 {
        NhrpOp::PurgeReply
    } else if v == 7 {
        NhrpOp::ErrorIndication
    } else {
        NhrpOp::Other(v)
    }
}

impl NhrpOp {
    /// `Other` carries no value that has a variant of its own.
    pub open spec fn wf(self) -> bool {
        match self {
            NhrpOp::Other(v) => v == 0 || v > 7,
            _ => true,
        }
    }

    /// The wire value of an operation type.
    pub open spec fn value(self) -> u8 {
        match self {
            NhrpOp::ResolutionRequest => 1,
            NhrpOp::ResolutionReply => 2,
            NhrpOp::RegistrationRequest => 3,
            NhrpOp::RegistrationReply => 4,
            NhrpOp::PurgeRequest => 5,
            NhrpOp::PurgeReply => 6,
            NhrpOp::ErrorIndication => 7,
            NhrpOp::Other(v) => v,
        }
    }

    /// Whether `Other` carries no value that has a variant of its own.
    pub fn is_valid(&self) -> (r: bool)
        ensures
            r == self.wf(),
    {
        match *self {
            NhrpOp::Other(v) => v == 0 || v > 7,
            _ => true,
        }
    }

    /// Decodes an operation type octet.
    pub fn from_u8(v: u8) -> (r: NhrpOp)
        ensures
            r == nhrp_op_of(v),
            r.wf(),
            r.value() == v,
    {
        if v == 1 {
            NhrpOp::ResolutionRequest
        } else if v == 2 {
            NhrpOp::ResolutionReply
        } else if v == 3 {
            NhrpOp::RegistrationRequest
        } else if v == 4 {
            NhrpOp::RegistrationReply
        } else if v == 5 {
            NhrpOp::PurgeRequest
        } else if v == 6 {
            NhrpOp::PurgeReply
        } else if v == 7 {
            NhrpOp::ErrorIndication
        } else {
            NhrpOp::Other(v)
        }
    }

    /// Encodes an operation type as its octet.
    pub fn to_u8(self) -> (r: u8)
        ensures
            r == self.value(),
            self.wf() ==> nhrp_op_of(r) == self,
    {
        match self {
            NhrpOp::ResolutionRequest => 1,
            NhrpOp::ResolutionReply => 2,
            NhrpOp::RegistrationRequest => 3,
            NhrpOp::RegistrationReply => 4,
            NhrpOp::PurgeRequest => 5,
            NhrpOp::PurgeReply => 6,
            NhrpOp::ErrorIndication => 7,
            NhrpOp::Other(v) => v,
        }
    }
}

/// A well-formed operation type reads back from its octet.
pub proof fn lemma_nhrp_op_round_trip(o: NhrpOp)
    requires
        o.wf(),
    ensures
        nhrp_op_of(o.value()) == o,
{
}

/// The fields of the fixed header that a message keeps; length, checksum
/// and extension offset are derived when the message is emitted.
#[derive(Debug, PartialEq, Eq, Clone, Copy, Hash)]
pub struct FixedHeader {
    pub afn: u16,
    pub protocol_type: ProtocolType,
    pub hopcount: u8,
    pub optype: NhrpOp,
}

/// Mathematical value of a fixed header.
pub struct FixedHeaderModel {
    pub afn: u16,
    pub protype: ProtocolClass,
    pub prosnap: Seq<u8>,
    pub hopcount: u8,
    pub optype: NhrpOp,
}

impl View for FixedHeader {
    type V = FixedHeaderModel;

    open spec fn view(&self) -> FixedHeaderModel {
        FixedHeaderModel {
            afn: self.afn,
            protype: self.protocol_type.protype,
            prosnap: self.protocol_type.prosnap@,
            hopcount: self.hopcount,
            optype: self.optype,
        }
    }
}

impl FixedHeaderModel {
    /// Protocol class and operation type can be emitted and read back.
    pub open spec fn wf(self) -> bool {
        self.protype.wf() && self.optype.wf() && self.prosnap.len() == 5
    }
}

impl FixedHeader {
    pub fn new(afn: u16, protocol_type: ProtocolType, hopcount: u8, optype: NhrpOp) -> (r:
        FixedHeader)
        ensures
            r == (FixedHeader { afn, protocol_type, hopcount, optype }),
    {
        FixedHeader { afn, protocol_type, hopcount, optype }
    }

    pub fn afn(&self) -> (r: u16)
        ensures
            r == self.afn,
    {
        self.afn
    }

    pub fn protocol_type(&self) -> (r: ProtocolType)
        ensures
            r == self.protocol_type,
    {
        self.protocol_type
    }

    pub fn hopcount(&self) -> (r: u8)
        ensures
            r == self.hopcount,
    {
        self.hopcount
    }

    pub fn optype(&self) -> (r: NhrpOp)
        ensures
            r == self.optype,
    {
        self.optype
    }
}

} // verus!
