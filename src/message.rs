//! Whole messages: fixed header, operation and extensions, with the laws
//! that tie emission and parsing together.

use vstd::prelude::*;
use crate::buffer::{
    FIXED_HEADER_LEN, NhrpBuffer, checksum_of, extensions_of, fold_carries,
    lemma_fold_carries_bound, packet_complete, packet_layout_ok, payload_of, pktsize_of, word_sum,
};
use crate::error::Error;
use crate::extension::{
    bounded_ext_list_len, Extension, ExtensionModel, ext_list_bytes, ext_list_len, exts_wf, lemma_ext_list_round_trip,
    parse_ext_list, parse_extensions, write_ext_list,
};
use crate::header::{FixedHeader, FixedHeaderModel, NhrpOp, nhrp_op_of, protocol_class_of};
use crate::opbuffer::OperationBuffer;
use crate::operation::{
    bounded_entries_len, bounded_entry_len, CommonHeaderModel, OperationModel, PurgeMessage, RegistrationReplyMessage,
    RegistrationRequestMessage, ResolutionReplyMessage, ResolutionRequestMessage,
    lemma_operation_round_trip, operation_bytes, parse_operation,
};
use crate::traits::{Emitable, Parseable};
use crate::wire::{be16, push_octets, push_u16, u16_octets};

verus! {

/// The fixed header as it is read from a packet.
pub open spec fn header_model(b: Seq<u8>) -> FixedHeaderModel {
    FixedHeaderModel {
        afn: be16(b, 0),
        protype: protocol_class_of(be16(b, 2)),
        prosnap: b.subrange(4, 9),
        hopcount: b[9],
        optype: nhrp_op_of(b[17]),
    }
}

/// The octets of a fixed header with the given derived fields.
pub open spec fn header_bytes(h: FixedHeaderModel, len: u16, checksum: u16, extoffset: u16) -> Seq<
    u8,
> {
    u16_octets(h.afn) + u16_octets(h.protype.value()) + h.prosnap + seq![h.hopcount] + u16_octets(
        len,
    ) + u16_octets(checksum) + u16_octets(extoffset) + seq![1u8, h.optype.value()]
}

/// Mathematical value of a message.
pub struct MessageModel {
    pub header: FixedHeaderModel,
    pub operation: OperationModel,
    pub extensions: Seq<ExtensionModel>,
}

impl MessageModel {
    /// Everything after the fixed header.
    pub open spec fn body(self) -> Seq<u8> {
        operation_bytes(self.operation) + ext_list_bytes(self.extensions)
    }

    /// Total length of the emitted message.
    pub open spec fn pkt_len(self) -> int {
        FIXED_HEADER_LEN + self.body().len()
    }

    /// Offset of the first extension, 0 when there is none.
    pub open spec fn ext_offset(self) -> int {
        if self.extensions.len() == 0 {
            0
        } else {
            FIXED_HEADER_LEN + operation_bytes(self.operation).len()
        }
    }

    /// A message that can be emitted and read back: its parts are well
    /// formed, the header names the operation it carries, the extension
    /// list is empty or closed by its one end marker, and the whole fits
    /// the 16-bit length field.
    pub open spec fn wf(self) -> bool {
        &&& self.header.wf()
        &&& self.header.optype == self.operation.optype()
        &&& self.operation.wf()
        &&& exts_wf(self.extensions)
        &&& forall|i: int| 0 <= i < self.extensions.len() ==> (#[trigger] self.extensions[i]).wf()
        &&& self.pkt_len() <= 0xFFFF
    }
}

/// The emitted octets with the given checksum field.
pub open spec fn message_bytes_with(m: MessageModel, checksum: u16) -> Seq<u8> {
    header_bytes(m.header, m.pkt_len() as u16, checksum, m.ext_offset() as u16) + m.body()
}

/// The emitted octets: the checksum is computed with its field zero.
pub open spec fn message_bytes(m: MessageModel) -> Seq<u8> {
    message_bytes_with(m, checksum_of(message_bytes_with(m, 0)))
}

/// The operation types the codec decodes: all but error indications and
/// unknown types.
pub open spec fn is_served_optype(o: NhrpOp) -> bool {
    !(o is ErrorIndication || o is Other)
}

/// Decodes a packet.  An operation type that is not served is refused
/// before the layout is looked at.
pub open spec fn parse_message(b: Seq<u8>) -> Result<MessageModel, Error> {
    if !packet_complete(b) {
        Err(Error::Truncated)
    } else if !is_served_optype(nhrp_op_of(b[17])) {
        Err(Error::NotImplemented)
    } else if !packet_layout_ok(b) {
        Err(Error::Invalid)
    } else {
        match parse_operation(payload_of(b), header_model(b).optype) {
            Ok(op) => Ok(
                MessageModel {
                    header: header_model(b),
                    operation: op,
                    extensions: parse_ext_list(extensions_of(b)),
                },
            ),
            Err(e) => Err(e),
        }
    }
}

/// An operation of any type.
#[derive(Debug, PartialEq, Eq, Clone)]
pub enum Operation {
    ResolutionRequest(ResolutionRequestMessage),
    ResolutionReply(ResolutionReplyMessage),
    RegistrationRequest(RegistrationRequestMessage),
    RegistrationReply(RegistrationReplyMessage),
    PurgeRequest(PurgeMessage),
    PurgeReply(PurgeMessage),
}

impl View for Operation {
    type V = OperationModel;

    open spec fn view(&self) -> OperationModel {
        match self {
            Operation::ResolutionRequest(m) => OperationModel::ResolutionRequest(m@.0, m@.1),
            Operation::ResolutionReply(m) => OperationModel::ResolutionReply(m@.0, m@.1),
            Operation::RegistrationRequest(m) => OperationModel::RegistrationRequest(m@.0, m@.1),
            Operation::RegistrationReply(m) => OperationModel::RegistrationReply(m@.0, m@.1),
            Operation::PurgeRequest(m) => OperationModel::PurgeRequest(m@.0, m@.1),
            Operation::PurgeReply(m) => OperationModel::PurgeReply(m@.0, m@.1),
        }
    }
}

impl Operation {
    /// Octet length of the body when it is well formed and at most `limit`
    /// octets long; none otherwise.
    pub fn bounded_len(&self, limit: usize) -> (r: Option<usize>)
        ensures
            match r {
                Some(n) => self@.wf() && n == operation_bytes(self@).len() && n <= limit,
                None => !(self@.wf() && operation_bytes(self@).len() <= limit),
            },
    {
        match self {
            Operation::ResolutionRequest(m) => bounded_entry_len(&m.header, m.cie.as_ref(), limit),
            Operation::RegistrationReply(m) => bounded_entry_len(&m.header, Some(&m.cie), limit),
            Operation::ResolutionReply(m) => bounded_entries_len(&m.header, &m.cie, limit),
            Operation::RegistrationRequest(m) => bounded_entries_len(&m.header, &m.cie, limit),
            Operation::PurgeRequest(m) => bounded_entries_len(&m.header, &m.cie, limit),
            Operation::PurgeReply(m) => bounded_entries_len(&m.header, &m.cie, limit),
        }
    }

    pub fn optype(&self) -> (r: NhrpOp)
        ensures
            r == self@.optype(),
    {
        match self {
            Operation::ResolutionRequest(_) => NhrpOp::ResolutionRequest,
            Operation::ResolutionReply(_) => NhrpOp::ResolutionReply,
            Operation::RegistrationRequest(_) => NhrpOp::RegistrationRequest,
            Operation::RegistrationReply(_) => NhrpOp::RegistrationReply,
            Operation::PurgeRequest(_) => NhrpOp::PurgeRequest,
            Operation::PurgeReply(_) => NhrpOp::PurgeReply,
        }
    }
}

impl Emitable for Operation {
    open spec fn wire(&self) -> Seq<u8> {
        operation_bytes(self@)
    }

    open spec fn emitable(&self) -> bool {
        self@.wf() && self.wire().len() <= usize::MAX
    }

    fn write_to(&self, out: &mut Vec<u8>) {
        match self {
            Operation::ResolutionRequest(m) => m.write_to(out),
            Operation::ResolutionReply(m) => m.write_to(out),
            Operation::RegistrationRequest(m) => m.write_to(out),
            Operation::RegistrationReply(m) => m.write_to(out),
            Operation::PurgeRequest(m) => m.write_to(out),
            Operation::PurgeReply(m) => m.write_to(out),
        }
    }

    fn buffer_len(&self) -> (r: usize) {
        match self {
            Operation::ResolutionRequest(m) => m.buffer_len(),
            Operation::ResolutionReply(m) => m.buffer_len(),
            Operation::RegistrationRequest(m) => m.buffer_len(),
            Operation::RegistrationReply(m) => m.buffer_len(),
            Operation::PurgeRequest(m) => m.buffer_len(),
            Operation::PurgeReply(m) => m.buffer_len(),
        }
    }
}

impl Emitable for FixedHeader {
    /// Length, checksum and extension offset are left zero.
    open spec fn wire(&self) -> Seq<u8> {
        header_bytes(self@, 0, 0, 0)
    }

    open spec fn emitable(&self) -> bool {
        self@.wf()
    }

    fn write_to(&self, out: &mut Vec<u8>) {
        let ghost start = out@;
        push_u16(out, self.afn);
        push_u16(out, self.protocol_type.protype.to_u16());
        push_octets(out, self.protocol_type.prosnap.as_slice());
        out.push(self.hopcount);
        push_u16(out, 0);
        push_u16(out, 0);
        push_u16(out, 0);
        out.push(1);
        out.push(self.optype.to_u8());
        assert(out@ =~= start + header_bytes(self@, 0, 0, 0));
    }

    fn buffer_len(&self) -> (r: usize) {
        FIXED_HEADER_LEN
    }
}

impl Parseable<FixedHeader> for NhrpBuffer {
    open spec fn parsed(&self) -> Result<FixedHeaderModel, Error> {
        if self@.len() >= FIXED_HEADER_LEN {
            Ok(header_model(self@))
        } else {
            Err(Error::Truncated)
        }
    }

    fn parse(&self) -> (r: Result<FixedHeader, Error>) {
        if !self.has_fixed_header() {
            return Err(Error::Truncated);
        }
        let h = FixedHeader {
            afn: self.afn(),
            protocol_type: self.protocol_type(),
            hopcount: self.hopcount(),
            optype: self.optype(),
        };
        assert(h@.prosnap =~= header_model(self@).prosnap);
        Ok(h)
    }
}

/// A whole message.
#[derive(Debug, PartialEq, Eq, Clone)]
pub struct NhrpMessage {
    pub header: FixedHeader,
    pub operation: Operation,
    pub extensions: Vec<Extension>,
}

impl View for NhrpMessage {
    type V = MessageModel;

    open spec fn view(&self) -> MessageModel {
        MessageModel {
            header: self.header@,
            operation: self.operation@,
            extensions: self.extensions@.map_values(|e: Extension| e@),
        }
    }
}

impl NhrpMessage {
    pub fn new(header: FixedHeader, operation: Operation, extensions: Vec<Extension>) -> (r:
        NhrpMessage)
        ensures
            r.header == header,
            r.operation == operation,
            r.extensions == extensions,
    {
        NhrpMessage { header, operation, extensions }
    }

    pub fn into_parts(self) -> (r: (FixedHeader, Operation, Vec<Extension>))
        ensures
            r.0 == self.header,
            r.1 == self.operation,
            r.2 == self.extensions,
    {
        (self.header, self.operation, self.extensions)
    }

    /// Whether the message can be emitted and read back (see
    /// `MessageModel::wf`).
    pub fn is_well_formed(&self) -> (r: bool)
        ensures
            r == self@.wf(),
    {
        if !self.header.protocol_type.protype.is_valid() || !self.header.optype.is_valid() {
            return false;
        }
        if self.header.optype != self.operation.optype() {
            return false;
        }
        let op_len = match self.operation.bounded_len(0xFFFF - FIXED_HEADER_LEN) {
            Some(n) => n,
            None => return false,
        };
        match bounded_ext_list_len(&self.extensions, 0xFFFF - FIXED_HEADER_LEN - op_len) {
            Some(_) => true,
            None => false,
        }
    }

    /// Emits the message over the start of `buffer`, or fails with
    /// `Exhausted` when the buffer is shorter than the message.
    pub fn to_bytes(&self, buffer: &mut [u8]) -> (r: Result<usize, Error>)
        requires
            self@.wf(),
        ensures
            r is Err <==> message_bytes(self@).len() > old(buffer)@.len(),
            match r {
                Ok(n) => n == message_bytes(self@).len() && n <= old(buffer)@.len()
                    && final(buffer)@ == message_bytes(self@) + old(buffer)@.skip(n as int),
                Err(e) => e == Error::Exhausted && message_bytes(self@).len() > old(buffer)@.len()
                    && final(buffer)@ == old(buffer)@,
            },
    {
        let n = self.buffer_len();
        if n > buffer.len() {
            Err(Error::Exhausted)
        } else {
            self.emit(buffer);
            Ok(n)
        }
    }

    /// Decodes the message held by `buffer`.
    pub fn from_bytes(buffer: &[u8]) -> (r: Result<NhrpMessage, Error>)
        ensures
            match r {
                Ok(m) => parse_message(buffer@) == Ok::<MessageModel, Error>(m@),
                Err(e) => parse_message(buffer@) == Err::<MessageModel, Error>(e),
            },
    {
        match NhrpBuffer::new_checked(vstd::slice::slice_to_vec(buffer)) {
            Ok(b) => <NhrpBuffer as Parseable<NhrpMessage>>::parse(&b),
            Err(e) => Err(e),
        }
    }
}

proof fn lemma_exts_emitable(m: MessageModel, v: Seq<Extension>)
    requires
        m.wf(),
        m.extensions == v.map_values(|e: Extension| e@),
    ensures
        forall|i: int| 0 <= i < v.len() ==> (#[trigger] v[i])@.wf(),
{
    assert forall|i: int| 0 <= i < v.len() implies (#[trigger] v[i])@.wf() by {
        assert(m.extensions[i] == v[i]@);
    }
}

impl Emitable for NhrpMessage {
    open spec fn wire(&self) -> Seq<u8> {
        message_bytes(self@)
    }

    open spec fn emitable(&self) -> bool {
        self@.wf()
    }

    fn write_to(&self, out: &mut Vec<u8>) {
        let ghost m = self@;
        proof {
            lemma_exts_emitable(m, self.extensions@);
        }
        let mut buf: Vec<u8> = Vec::new();
        self.header.write_to(&mut buf);
        self.operation.write_to(&mut buf);
        let op_end = buf.len();
        write_ext_list(&self.extensions, &mut buf);
        let total = buf.len();
        let extoff: u16 = if self.extensions.len() == 0 {
            0
        } else {
            op_end as u16
        };
        let mut mbuffer = NhrpBuffer::new(buf);
        mbuffer.set_length(total as u16);
        mbuffer.set_extoffset(extoff);
        mbuffer.set_checksum(0);
        assert(mbuffer@ =~= message_bytes_with(m, 0));
        proof {
            crate::wire::lemma_be16_octets(total as u16, mbuffer@, 10);
        }
        let checksum = mbuffer.calculate_checksum();
        assert(mbuffer@.take(total as int) =~= mbuffer@);
        mbuffer.set_checksum(checksum);
        assert(mbuffer@ =~= message_bytes(m));
        let bytes = mbuffer.into_inner();
        push_octets(out, bytes.as_slice());
    }

    fn buffer_len(&self) -> (r: usize) {
        proof {
            lemma_exts_emitable(self@, self.extensions@);
        }
        FIXED_HEADER_LEN + self.operation.buffer_len() + ext_list_len(&self.extensions)
    }
}

impl Parseable<NhrpMessage> for NhrpBuffer {
    open spec fn parsed(&self) -> Result<MessageModel, Error> {
        parse_message(self@)
    }

    fn parse(&self) -> (r: Result<NhrpMessage, Error>) {
        if let Err(e) = self.check_buffer_length() {
            return Err(e);
        }
        match self.optype() {
            NhrpOp::ErrorIndication | NhrpOp::Other(_) => return Err(Error::NotImplemented),
            _ => {},
        }
        let pktsize = self.length() as usize;
        let extoff = self.extoffset() as usize;
        if pktsize < FIXED_HEADER_LEN || (extoff != 0 && (extoff < FIXED_HEADER_LEN || extoff
            > pktsize)) {
            return Err(Error::Invalid);
        }
        let header: FixedHeader = match <NhrpBuffer as Parseable<FixedHeader>>::parse(self) {
            Ok(h) => h,
            Err(e) => return Err(e),
        };
        let body = OperationBuffer::new(vstd::slice::slice_to_vec(self.payload()));
        let operation = match header.optype {
            NhrpOp::ResolutionRequest => match <OperationBuffer as Parseable<
                ResolutionRequestMessage,
            >>::parse(&body) {
                Ok(m) => Operation::ResolutionRequest(m),
                Err(e) => return Err(e),
            },
            NhrpOp::ResolutionReply => match <OperationBuffer as Parseable<
                ResolutionReplyMessage,
            >>::parse(&body) {
                Ok(m) => Operation::ResolutionReply(m),
                Err(e) => return Err(e),
            },
            NhrpOp::RegistrationRequest => match <OperationBuffer as Parseable<
                RegistrationRequestMessage,
            >>::parse(&body) {
                Ok(m) => Operation::RegistrationRequest(m),
                Err(e) => return Err(e),
            },
            NhrpOp::RegistrationReply => match <OperationBuffer as Parseable<
                RegistrationReplyMessage,
            >>::parse(&body) {
                Ok(m) => Operation::RegistrationReply(m),
                Err(e) => return Err(e),
            },
            NhrpOp::PurgeRequest => match <OperationBuffer as Parseable<PurgeMessage>>::parse(
                &body,
            ) {
                Ok(m) => Operation::PurgeRequest(m),
                Err(e) => return Err(e),
            },
            NhrpOp::PurgeReply => match <OperationBuffer as Parseable<PurgeMessage>>::parse(
                &body,
            ) {
                Ok(m) => Operation::PurgeReply(m),
                Err(e) => return Err(e),
            },
            _ => return Err(Error::NotImplemented),
        };
        let extensions = parse_extensions(self.extensions());
        let r = NhrpMessage { header, operation, extensions };
        assert(r@.header == header_model(self@));
        Ok(r)
    }
}

} // verus!

verus! {

/// Where each part of an emitted message lands.
proof fn lemma_emitted_layout(m: MessageModel, c: u16)
    requires
        m.wf(),
    ensures
        ({
            let b = message_bytes_with(m, c);
            &&& b.len() == m.pkt_len()
            &&& pktsize_of(b) == m.pkt_len()
            &&& crate::buffer::extoffset_of(b) == m.ext_offset()
            &&& packet_complete(b)
            &&& packet_layout_ok(b)
            &&& payload_of(b) == operation_bytes(m.operation)
            &&& extensions_of(b) == ext_list_bytes(m.extensions)
            &&& header_model(b) == m.header
        }),
{
    let b = message_bytes_with(m, c);
    let h = m.header;
    let len = m.pkt_len() as u16;
    let eoff = m.ext_offset() as u16;
    let hb = header_bytes(h, len, c, eoff);
    let ob = operation_bytes(m.operation);
    let eb = ext_list_bytes(m.extensions);
    assert(hb.len() == 18);
    assert(b =~= hb + (ob + eb));
    crate::wire::lemma_be16_octets(h.afn, b, 0);
    crate::wire::lemma_be16_octets(h.protype.value(), b, 2);
    crate::wire::lemma_be16_octets(len, b, 10);
    crate::wire::lemma_be16_octets(eoff, b, 14);
    crate::header::lemma_protocol_class_round_trip(h.protype);
    crate::header::lemma_nhrp_op_round_trip(h.optype);
    assert(b.subrange(4, 9) =~= h.prosnap);
    assert(b[9] == h.hopcount);
    assert(b[17] == h.optype.value());
    assert(header_model(b) == h);
    if m.extensions.len() == 0 {
        assert(eb =~= Seq::<u8>::empty());
        assert(b.subrange(18, m.pkt_len()) =~= ob);
    } else {
        assert(b.subrange(18, 18 + ob.len() as int) =~= ob);
        assert(b.subrange(18 + ob.len() as int, m.pkt_len()) =~= eb);
    }
}

/// Parsing what a well-formed message emits gives the message back.
pub proof fn lemma_parse_emit(m: MessageModel)
    requires
        m.wf(),
    ensures
        parse_message(message_bytes(m)) == Ok::<MessageModel, Error>(m),
{
    lemma_emitted_layout(m, checksum_of(message_bytes_with(m, 0)));
    lemma_operation_round_trip(m.operation);
    lemma_ext_list_round_trip(m.extensions);
}

/// An emitted message is as long as its declared packet size, which is
/// the length `buffer_len` reports.
pub proof fn lemma_emit_length(m: MessageModel)
    requires
        m.wf(),
    ensures
        message_bytes(m).len() == m.pkt_len(),
        pktsize_of(message_bytes(m)) == message_bytes(m).len(),
{
    lemma_emitted_layout(m, checksum_of(message_bytes_with(m, 0)));
}

/// The checksum of an emitted message, computed again over the octets as
/// they stand, is zero.
pub proof fn lemma_emit_checksum(m: MessageModel)
    requires
        m.wf(),
    ensures
        checksum_of(message_bytes(m)) == 0,
{
    let h = m.header;
    let len = m.pkt_len() as u16;
    let eoff = m.ext_offset() as u16;
    let p = u16_octets(h.afn) + u16_octets(h.protype.value()) + h.prosnap + seq![h.hopcount]
        + u16_octets(len);
    let q = u16_octets(eoff) + seq![1u8, h.optype.value()] + m.body();
    let c = checksum_of(message_bytes_with(m, 0));
    assert(message_bytes_with(m, 0) =~= p + u16_octets(0) + q);
    assert(message_bytes_with(m, c) =~= p + u16_octets(c) + q);
    crate::buffer::lemma_checksum_self_check(p, q);
}

/// Walking the extensions of an emitted message yields the message's
/// extension list, which ends with the end marker when it is not empty.
pub proof fn lemma_emit_extensions(m: MessageModel)
    requires
        m.wf(),
    ensures
        parse_ext_list(extensions_of(message_bytes(m))) == m.extensions,
        m.extensions.len() > 0 ==> m.extensions.last() is EndOfExtensions,
{
    lemma_emitted_layout(m, checksum_of(message_bytes_with(m, 0)));
    lemma_ext_list_round_trip(m.extensions);
}

/// Walking the extensions of an emitted message with `next`: call `i`
/// yields the whole extension `m.extensions[i]`, the last one yielded is
/// the end marker, and the call after it yields nothing.
pub proof fn lemma_emit_extension_walk(m: MessageModel, i: nat)
    requires
        m.wf(),
        i <= m.extensions.len(),
    ensures
        ({
            let w = crate::extension::ext_walk(extensions_of(message_bytes(m)), i);
            &&& i < m.extensions.len() ==> w.len() > 0 && crate::extension::ext_complete(w)
                && crate::extension::ext_model(w) == m.extensions[i as int]
            &&& i == m.extensions.len() ==> w.len() == 0
            &&& m.extensions.len() > 0 ==> m.extensions.last() is EndOfExtensions
        }),
{
    lemma_emitted_layout(m, checksum_of(message_bytes_with(m, 0)));
    crate::extension::lemma_ext_walk_list(m.extensions, i);
}

/// A whole packet of an operation type that is not served (an error
/// indication or an unknown type) is refused with `NotImplemented`,
/// whatever its layout.
pub proof fn lemma_unserved_operation(b: Seq<u8>)
    requires
        packet_complete(b),
        !is_served_optype(nhrp_op_of(b[17])),
    ensures
        parse_message(b) == Err::<MessageModel, Error>(Error::NotImplemented),
{
}

} // verus!
