//! Operation bodies: the common header and the per-operation messages.

use vstd::prelude::*;
use crate::cie::{
    bounded_cie_list_len, CieBuffer, CieModel, ClientInformationEntry, cie_bytes, cie_complete, cie_list_bytes,
    cie_list_len, cie_model, cies_wf, parse_cie, lemma_cie_list_round_trip, lemma_cie_round_trip,
    parse_cie_list, parse_cies, write_cie_list,
};
use crate::error::Error;
use crate::header::NhrpOp;
use crate::opbuffer::{
    AddrTL, OPERATION_HEADER_LEN, OperationBuffer, op_common_complete, op_common_len,
    op_dst_proto_offset, op_shtl_len, op_src_proto_offset, op_src_saddr_offset,
};
use crate::traits::{Emitable, Parseable};
use crate::wire::{addr_width_ok, is_addr_width, be16, be32, push_octets, push_u16, push_u32, u16_octets, u32_octets};

verus! {

/// Mathematical value of the common header of an operation.
pub struct CommonHeaderModel {
    pub flags: u16,
    pub request_id: u32,
    pub src_nbma_addr: Seq<u8>,
    pub src_nbma_saddr: Seq<u8>,
    pub src_proto_addr: Seq<u8>,
    pub dst_proto_addr: Seq<u8>,
}

impl CommonHeaderModel {
    /// The address lengths fit their fields.
    pub open spec fn wf(self) -> bool {
        &&& self.src_nbma_addr.len() < 64
        &&& self.src_nbma_saddr.len() < 64
        &&& self.src_proto_addr.len() < 256
        &&& self.dst_proto_addr.len() < 256
        &&& addr_width_ok(self.src_nbma_addr.len() as int)
        &&& addr_width_ok(self.src_proto_addr.len() as int)
        &&& addr_width_ok(self.dst_proto_addr.len() as int)
    }
}

/// The common header at the start of a whole operation body `b`.
pub open spec fn common_model(b: Seq<u8>) -> CommonHeaderModel {
    CommonHeaderModel {
        flags: be16(b, 4),
        request_id: be32(b, 6),
        src_nbma_addr: b.subrange(OPERATION_HEADER_LEN as int, op_src_saddr_offset(b)),
        src_nbma_saddr: b.subrange(op_src_saddr_offset(b), op_src_proto_offset(b)),
        src_proto_addr: b.subrange(op_src_proto_offset(b), op_dst_proto_offset(b)),
        dst_proto_addr: b.subrange(op_dst_proto_offset(b), op_common_len(b)),
    }
}

/// The octets of a common header, addresses as NSAP.
pub open spec fn common_bytes(h: CommonHeaderModel) -> Seq<u8> {
    seq![
        h.src_nbma_addr.len() as u8,
        h.src_nbma_saddr.len() as u8,
        h.src_proto_addr.len() as u8,
        h.dst_proto_addr.len() as u8,
    ] + u16_octets(h.flags) + u32_octets(h.request_id) + h.src_nbma_addr + h.src_nbma_saddr
        + h.src_proto_addr + h.dst_proto_addr
}

/// The source NBMA, source protocol and destination protocol addresses
/// of the common part have widths the codec decodes.
pub open spec fn common_widths_ok(b: Seq<u8>) -> bool {
    addr_width_ok(op_shtl_len(b)) && addr_width_ok(b[2] as int) && addr_width_ok(b[3] as int)
}

/// Decodes the common header of an operation body: it must be whole, and
/// its addresses absent, IPv4 or IPv6.
pub open spec fn parse_common(b: Seq<u8>) -> Result<CommonHeaderModel, Error> {
    if !op_common_complete(b) {
        Err(Error::Truncated)
    } else if !common_widths_ok(b) {
        Err(Error::NotImplemented)
    } else {
        Ok(common_model(b))
    }
}

/// What follows the common header of a whole operation body.
pub open spec fn after_common(b: Seq<u8>) -> Seq<u8> {
    b.skip(op_common_len(b))
}

/// Resolution request body: a trailing entry that is not whole counts as none.
pub open spec fn parse_resolution_request(b: Seq<u8>) -> Result<
    (CommonHeaderModel, Option<CieModel>),
    Error,
> {
    match parse_common(b) {
        Err(e) => Err(e),
        Ok(h) => if cie_complete(after_common(b)) {
            match parse_cie(after_common(b)) {
                Ok(c) => Ok((h, Some(c))),
                Err(e) => Err(e),
            }
        } else {
            Ok((h, None))
        },
    }
}

/// Body made of a common header and a list of whole entries.
pub open spec fn parse_entries_body(b: Seq<u8>) -> Result<(CommonHeaderModel, Seq<CieModel>), Error> {
    match parse_common(b) {
        Err(e) => Err(e),
        Ok(h) => match parse_cie_list(after_common(b)) {
            Ok(l) => Ok((h, l)),
            Err(e) => Err(e),
        },
    }
}

/// Registration reply body: a common header and one whole entry.
pub open spec fn parse_registration_reply(b: Seq<u8>) -> Result<(CommonHeaderModel, CieModel), Error> {
    match parse_common(b) {
        Err(e) => Err(e),
        Ok(h) => match parse_cie(after_common(b)) {
            Ok(c) => Ok((h, c)),
            Err(e) => Err(e),
        },
    }
}

/// A common header reads back from its octets, whatever follows them.
pub proof fn lemma_common_round_trip(h: CommonHeaderModel, rest: Seq<u8>)
    requires
        h.wf(),
    ensures
        op_common_complete(common_bytes(h) + rest),
        common_widths_ok(common_bytes(h) + rest),
        op_common_len(common_bytes(h) + rest) == common_bytes(h).len(),
        common_model(common_bytes(h) + rest) == h,
        after_common(common_bytes(h) + rest) == rest,
{
    let b = common_bytes(h) + rest;
    let a = h.src_nbma_addr.len() as int;
    let s = h.src_nbma_saddr.len() as int;
    let p = h.src_proto_addr.len() as int;
    let d = h.dst_proto_addr.len() as int;
    assert(b[0] == a as u8 && b[1] == s as u8 && b[2] == p as u8 && b[3] == d as u8);
    assert(op_common_len(b) == 10 + a + s + p + d);
    crate::wire::lemma_be16_octets(h.flags, b, 4);
    crate::wire::lemma_be32_octets(h.request_id, b, 6);
    assert(b.subrange(10, 10 + a) =~= h.src_nbma_addr);
    assert(b.subrange(10 + a, 10 + a + s) =~= h.src_nbma_saddr);
    assert(b.subrange(10 + a + s, 10 + a + s + p) =~= h.src_proto_addr);
    assert(b.subrange(10 + a + s + p, 10 + a + s + p + d) =~= h.dst_proto_addr);
    assert(b.skip(10 + a + s + p + d) =~= rest);
}

/// Mathematical value of an operation.
pub enum OperationModel {
    ResolutionRequest(CommonHeaderModel, Option<CieModel>),
    ResolutionReply(CommonHeaderModel, Seq<CieModel>),
    RegistrationRequest(CommonHeaderModel, Seq<CieModel>),
    RegistrationReply(CommonHeaderModel, CieModel),
    PurgeRequest(CommonHeaderModel, Seq<CieModel>),
    PurgeReply(CommonHeaderModel, Seq<CieModel>),
}

impl OperationModel {
    /// The operation type of the variant.
    pub open spec fn optype(self) -> NhrpOp {
        match self {
            OperationModel::ResolutionRequest(..) => NhrpOp::ResolutionRequest,
            OperationModel::ResolutionReply(..) => NhrpOp::ResolutionReply,
            OperationModel::RegistrationRequest(..) => NhrpOp::RegistrationRequest,
            OperationModel::RegistrationReply(..) => NhrpOp::RegistrationReply,
            OperationModel::PurgeRequest(..) => NhrpOp::PurgeRequest,
            OperationModel::PurgeReply(..) => NhrpOp::PurgeReply,
        }
    }

    /// The common header of any variant.
    pub open spec fn header(self) -> CommonHeaderModel {
        match self {
            OperationModel::ResolutionRequest(h, _) => h,
            OperationModel::ResolutionReply(h, _) => h,
            OperationModel::RegistrationRequest(h, _) => h,
            OperationModel::RegistrationReply(h, _) => h,
            OperationModel::PurgeRequest(h, _) => h,
            OperationModel::PurgeReply(h, _) => h,
        }
    }

    /// Every length fits the field that carries it.
    pub open spec fn wf(self) -> bool {
        self.header().wf() && match self {
            OperationModel::ResolutionRequest(_, c) => c is Some ==> c->0.wf(),
            OperationModel::RegistrationReply(_, c) => c.wf(),
            OperationModel::ResolutionReply(_, l) => cies_wf(l),
            OperationModel::RegistrationRequest(_, l) => cies_wf(l),
            OperationModel::PurgeRequest(_, l) => cies_wf(l),
            OperationModel::PurgeReply(_, l) => cies_wf(l),
        }
    }
}

/// The octets of an operation body.
pub open spec fn operation_bytes(o: OperationModel) -> Seq<u8> {
    match o {
        OperationModel::ResolutionRequest(h, c) => common_bytes(h) + match c {
            Some(c) => cie_bytes(c),
            None => Seq::empty(),
        },
        OperationModel::ResolutionReply(h, l) => common_bytes(h) + cie_list_bytes(l),
        OperationModel::RegistrationRequest(h, l) => common_bytes(h) + cie_list_bytes(l),
        OperationModel::RegistrationReply(h, c) => common_bytes(h) + cie_bytes(c),
        OperationModel::PurgeRequest(h, l) => common_bytes(h) + cie_list_bytes(l),
        OperationModel::PurgeReply(h, l) => common_bytes(h) + cie_list_bytes(l),
    }
}

/// Decodes an operation body of the given type.
pub open spec fn parse_operation(b: Seq<u8>, optype: NhrpOp) -> Result<OperationModel, Error> {
    match optype {
        NhrpOp::ResolutionRequest => match parse_resolution_request(b) {
            Ok((h, c)) => Ok(OperationModel::ResolutionRequest(h, c)),
            Err(e) => Err(e),
        },
        NhrpOp::ResolutionReply => match parse_entries_body(b) {
            Ok((h, l)) => Ok(OperationModel::ResolutionReply(h, l)),
            Err(e) => Err(e),
        },
        NhrpOp::RegistrationRequest => match parse_entries_body(b) {
            Ok((h, l)) => Ok(OperationModel::RegistrationRequest(h, l)),
            Err(e) => Err(e),
        },
        NhrpOp::RegistrationReply => match parse_registration_reply(b) {
            Ok((h, c)) => Ok(OperationModel::RegistrationReply(h, c)),
            Err(e) => Err(e),
        },
        NhrpOp::PurgeRequest => match parse_entries_body(b) {
            Ok((h, l)) => Ok(OperationModel::PurgeRequest(h, l)),
            Err(e) => Err(e),
        },
        NhrpOp::PurgeReply => match parse_entries_body(b) {
            Ok((h, l)) => Ok(OperationModel::PurgeReply(h, l)),
            Err(e) => Err(e),
        },
        _ => Err(Error::NotImplemented),
    }
}

/// An operation body reads back from its octets.
pub proof fn lemma_operation_round_trip(o: OperationModel)
    requires
        o.wf(),
    ensures
        parse_operation(operation_bytes(o), o.optype()) == Ok::<OperationModel, Error>(o),
{
    let h = o.header();
    match o {
        OperationModel::ResolutionRequest(_, c) => {
            match c {
                Some(c) => {
                    lemma_common_round_trip(h, cie_bytes(c));
                    lemma_cie_round_trip(c, Seq::empty());
                    assert(cie_bytes(c) + Seq::<u8>::empty() =~= cie_bytes(c));
                },
                None => {
                    lemma_common_round_trip(h, Seq::empty());
                },
            }
        },
        OperationModel::RegistrationReply(_, c) => {
            lemma_common_round_trip(h, cie_bytes(c));
            lemma_cie_round_trip(c, Seq::empty());
            assert(cie_bytes(c) + Seq::<u8>::empty() =~= cie_bytes(c));
        },
        OperationModel::ResolutionReply(_, l) => {
            lemma_common_round_trip(h, cie_list_bytes(l));
            lemma_cie_list_round_trip(l);
        },
        OperationModel::RegistrationRequest(_, l) => {
            lemma_common_round_trip(h, cie_list_bytes(l));
            lemma_cie_list_round_trip(l);
        },
        OperationModel::PurgeRequest(_, l) => {
            lemma_common_round_trip(h, cie_list_bytes(l));
            lemma_cie_list_round_trip(l);
        },
        OperationModel::PurgeReply(_, l) => {
            lemma_common_round_trip(h, cie_list_bytes(l));
            lemma_cie_list_round_trip(l);
        },
    }
}

/// The common header of an operation.
#[derive(Debug, PartialEq, Eq, Clone)]
pub struct CommonHeader {
    pub flags: u16,
    pub request_id: u32,
    pub src_nbma_addr: Vec<u8>,
    pub src_nbma_saddr: Vec<u8>,
    pub src_proto_addr: Vec<u8>,
    pub dst_proto_addr: Vec<u8>,
}

impl View for CommonHeader {
    type V = CommonHeaderModel;

    open spec fn view(&self) -> CommonHeaderModel {
        CommonHeaderModel {
            flags: self.flags,
            request_id: self.request_id,
            src_nbma_addr: self.src_nbma_addr@,
            src_nbma_saddr: self.src_nbma_saddr@,
            src_proto_addr: self.src_proto_addr@,
            dst_proto_addr: self.dst_proto_addr@,
        }
    }
}

impl CommonHeader {
    /// Whether the address lengths fit their fields.
    pub fn is_well_formed(&self) -> (r: bool)
        ensures
            r == self@.wf(),
    {
        self.src_nbma_addr.len() < 64 && self.src_nbma_saddr.len() < 64 && self.src_proto_addr.len()
            < 256 && self.dst_proto_addr.len() < 256 && is_addr_width(self.src_nbma_addr.len())
            && is_addr_width(self.src_proto_addr.len()) && is_addr_width(self.dst_proto_addr.len())
    }

    /// A copy whose view is the same.
    pub fn duplicate(&self) -> (r: CommonHeader)
        ensures
            r@ == self@,
    {
        CommonHeader {
            flags: self.flags,
            request_id: self.request_id,
            src_nbma_addr: vstd::slice::slice_to_vec(self.src_nbma_addr.as_slice()),
            src_nbma_saddr: vstd::slice::slice_to_vec(self.src_nbma_saddr.as_slice()),
            src_proto_addr: vstd::slice::slice_to_vec(self.src_proto_addr.as_slice()),
            dst_proto_addr: vstd::slice::slice_to_vec(self.dst_proto_addr.as_slice()),
        }
    }
}

impl Emitable for CommonHeader {
    open spec fn wire(&self) -> Seq<u8> {
        common_bytes(self@)
    }

    open spec fn emitable(&self) -> bool {
        self@.wf()
    }

    fn write_to(&self, out: &mut Vec<u8>) {
        let ghost start = out@;
        out.push(AddrTL::NSAP(self.src_nbma_addr.len() as u8).to_u8());
        out.push(AddrTL::NSAP(self.src_nbma_saddr.len() as u8).to_u8());
        out.push(self.src_proto_addr.len() as u8);
        out.push(self.dst_proto_addr.len() as u8);
        push_u16(out, self.flags);
        push_u32(out, self.request_id);
        push_octets(out, self.src_nbma_addr.as_slice());
        push_octets(out, self.src_nbma_saddr.as_slice());
        push_octets(out, self.src_proto_addr.as_slice());
        push_octets(out, self.dst_proto_addr.as_slice());
        assert(out@ =~= start + common_bytes(self@));
    }

    fn buffer_len(&self) -> (r: usize) {
        OPERATION_HEADER_LEN + self.src_nbma_addr.len() + self.src_nbma_saddr.len()
            + self.src_proto_addr.len() + self.dst_proto_addr.len()
    }
}

impl Parseable<CommonHeader> for OperationBuffer {
    open spec fn parsed(&self) -> Result<CommonHeaderModel, Error> {
        parse_common(self@)
    }

    fn parse(&self) -> (r: Result<CommonHeader, Error>) {
        if let Err(e) = self.check_buffer_length() {
            return Err(e);
        }
        if !is_addr_width(self.src_nbma_addr_tl().val() as usize) || !is_addr_width(
            self.src_proto_addr_len() as usize,
        ) || !is_addr_width(self.dst_proto_addr_len() as usize) {
            return Err(Error::NotImplemented);
        }
        Ok(
            CommonHeader {
                flags: self.flags(),
                request_id: self.request_id(),
                src_nbma_addr: vstd::slice::slice_to_vec(self.src_nbma_addr()),
                src_nbma_saddr: vstd::slice::slice_to_vec(self.src_nbma_saddr()),
                src_proto_addr: vstd::slice::slice_to_vec(self.src_proto_addr()),
                dst_proto_addr: vstd::slice::slice_to_vec(self.dst_proto_addr()),
            },
        )
    }
}

/// The entries of `l` as mathematical values.
pub open spec fn cie_models(l: Seq<ClientInformationEntry>) -> Seq<CieModel> {
    l.map_values(|c: ClientInformationEntry| c@)
}

/// Every entry of `l` can be emitted.
pub open spec fn cies_emitable(l: Seq<ClientInformationEntry>) -> bool {
    forall|i: int| 0 <= i < l.len() ==> (#[trigger] l[i])@.wf()
}

proof fn lemma_cies_emitable(l: Seq<ClientInformationEntry>)
    ensures
        cies_emitable(l) == cies_wf(cie_models(l)),
{
    if cies_emitable(l) {
        assert forall|i: int| 0 <= i < cie_models(l).len() implies #[trigger] cie_models(
            l,
        )[i].wf() by {
            assert(cie_models(l)[i] == l[i]@);
        }
    }
    if cies_wf(cie_models(l)) {
        assert forall|i: int| 0 <= i < l.len() implies (#[trigger] l[i])@.wf() by {
            assert(cie_models(l)[i] == l[i]@);
        }
    }
}

/// Octet length of a body made of `header` and the entries `cies` when
/// all are well formed and the total is at most `limit`; none otherwise.
pub fn bounded_entries_len(header: &CommonHeader, cies: &Vec<ClientInformationEntry>, limit: usize) -> (r:
    Option<usize>)
    ensures
        ({
            let ok = header@.wf() && cies_wf(cie_models(cies@)) && common_bytes(header@).len()
                + cie_list_bytes(cie_models(cies@)).len() <= limit;
            match r {
                Some(n) => ok && n == common_bytes(header@).len() + cie_list_bytes(
                    cie_models(cies@),
                ).len(),
                None => !ok,
            }
        }),
{
    if !header.is_well_formed() {
        return None;
    }
    let hl = header.buffer_len();
    if hl > limit {
        return None;
    }
    match bounded_cie_list_len(cies, limit - hl) {
        Some(n) => Some(hl + n),
        None => None,
    }
}

/// Octet length of a body made of `header` and at most one entry `cie`
/// when all are well formed and the total is at most `limit`; none otherwise.
pub fn bounded_entry_len(header: &CommonHeader, cie: Option<&ClientInformationEntry>, limit: usize) -> (r:
    Option<usize>)
    ensures
        ({
            let ok = header@.wf() && (cie is Some ==> cie->Some_0@.wf()) && common_bytes(header@).len()
                + match cie {
                Some(c) => cie_bytes(c@).len(),
                None => 0,
            } <= limit;
            match r {
                Some(n) => ok && n == common_bytes(header@).len() + match cie {
                    Some(c) => cie_bytes(c@).len(),
                    None => 0,
                },
                None => !ok,
            }
        }),
{
    if !header.is_well_formed() {
        return None;
    }
    let hl = header.buffer_len();
    if hl > limit {
        return None;
    }
    match cie {
        Some(c) => {
            if !c.is_well_formed() {
                return None;
            }
            let cl = c.buffer_len();
            if cl > limit - hl {
                None
            } else {
                Some(hl + cl)
            }
        },
        None => Some(hl),
    }
}

/// Decodes the common header and the whole entries after it.
fn parse_entries(b: &OperationBuffer) -> (r: Result<(CommonHeader, Vec<ClientInformationEntry>), Error>)
    ensures
        match r {
            Ok((h, l)) => parse_entries_body(b@) == Ok::<
                (CommonHeaderModel, Seq<CieModel>),
                Error,
            >((h@, cie_models(l@))),
            Err(e) => parse_entries_body(b@) == Err::<(CommonHeaderModel, Seq<CieModel>), Error>(e),
        },
{
    let header: CommonHeader = match <OperationBuffer as Parseable<CommonHeader>>::parse(b) {
        Ok(h) => h,
        Err(e) => return Err(e),
    };
    let payload = b.payload();
    match parse_cies(payload) {
        Ok(l) => Ok((header, l)),
        Err(e) => Err(e),
    }
}

/// A resolution request: the requester's addresses and at most one entry.
#[derive(Debug, PartialEq, Eq, Clone)]
pub struct ResolutionRequestMessage {
    pub header: CommonHeader,
    pub cie: Option<ClientInformationEntry>,
}

impl View for ResolutionRequestMessage {
    type V = (CommonHeaderModel, Option<CieModel>);

    open spec fn view(&self) -> (CommonHeaderModel, Option<CieModel>) {
        (
            self.header@,
            match self.cie {
                Some(c) => Some(c@),
                None => None,
            },
        )
    }
}

impl Emitable for ResolutionRequestMessage {
    open spec fn wire(&self) -> Seq<u8> {
        operation_bytes(OperationModel::ResolutionRequest(self@.0, self@.1))
    }

    open spec fn emitable(&self) -> bool {
        OperationModel::ResolutionRequest(self@.0, self@.1).wf()
    }

    fn write_to(&self, out: &mut Vec<u8>) {
        let ghost start = out@;
        self.header.write_to(out);
        match &self.cie {
            Some(c) => c.write_to(out),
            None => {},
        }
        assert(out@ =~= start + self.wire());
    }

    fn buffer_len(&self) -> (r: usize) {
        let n = self.header.buffer_len();
        match &self.cie {
            Some(c) => n + c.buffer_len(),
            None => n,
        }
    }
}

impl Parseable<ResolutionRequestMessage> for OperationBuffer {
    open spec fn parsed(&self) -> Result<(CommonHeaderModel, Option<CieModel>), Error> {
        parse_resolution_request(self@)
    }

    fn parse(&self) -> (r: Result<ResolutionRequestMessage, Error>) {
        let header: CommonHeader = match <OperationBuffer as Parseable<CommonHeader>>::parse(self) {
            Ok(h) => h,
            Err(e) => return Err(e),
        };
        let rest = vstd::slice::slice_to_vec(self.payload());
        let cie = match CieBuffer::new_checked(rest) {
            Ok(buffer) => match buffer.parse() {
                Ok(c) => Some(c),
                Err(e) => return Err(e),
            },
            Err(_) => None,
        };
        Ok(ResolutionRequestMessage { header, cie })
    }
}

/// Reply status of a resolution.
#[derive(Debug, PartialEq, Eq, Clone, Copy, Hash, Structural)]
pub enum ResolutionCode {
    Success,
    Prohibited,
    InsufficientResources,
    NoBindingExists,
    BindingNotUnique,
    Unknown(u8),
}

/// The resolution status that the octet `v` stands for.
pub open spec fn resolution_code_of(v: u8) -> ResolutionCode {
    if v == 0 {
        ResolutionCode::Success
    } else if v == 4 {
        ResolutionCode::Prohibited
    } else if v == 5 {
        ResolutionCode::InsufficientResources
    } else if v == 12 {
        ResolutionCode::NoBindingExists
    } else if v == 13 {
        ResolutionCode::BindingNotUnique
    } else {
        ResolutionCode::Unknown(v)
    }
}

impl ResolutionCode {
    pub open spec fn value(self) -> u8 {
        match self {
            ResolutionCode::Success => 0,
            ResolutionCode::Prohibited => 4,
            ResolutionCode::InsufficientResources => 5,
            ResolutionCode::NoBindingExists => 12,
            ResolutionCode::BindingNotUnique => 13,
            ResolutionCode::Unknown(v) => v,
        }
    }

    pub fn from_u8(value: u8) -> (r: ResolutionCode)
        ensures
            r == resolution_code_of(value),
            r.value() == value,
    {
        match value {
            0 => ResolutionCode::Success,
            4 => ResolutionCode::Prohibited,
            5 => ResolutionCode::InsufficientResources,
            12 => ResolutionCode::NoBindingExists,
            13 => ResolutionCode::BindingNotUnique,
            _ => ResolutionCode::Unknown(value),
        }
    }

    pub fn to_u8(self) -> (r: u8)
        ensures
            r == self.value(),
    {
        match self {
            ResolutionCode::Success => 0,
            ResolutionCode::Prohibited => 4,
            ResolutionCode::InsufficientResources => 5,
            ResolutionCode::NoBindingExists => 12,
            ResolutionCode::BindingNotUnique => 13,
            ResolutionCode::Unknown(v) => v,
        }
    }
}

/// Requester is a router.
pub const FLAG_REQUESTER_ROUTER: u16 = 0x8000;

/// The reply is authoritative.
pub const FLAG_AUTHORITATIVE: u16 = 0x4000;

/// The association with the destination is stable.
pub const FLAG_DST_STABLE: u16 = 0x2000;

/// The binding is unique.
pub const FLAG_UNIQUE: u16 = 0x1000;

/// The association with the source is stable.
pub const FLAG_SRC_STABLE: u16 = 0x0800;

/// The resolution reply flags for the given bits.
pub open spec fn resolution_flags(
    requester_router: bool,
    authorative: bool,
    unique: bool,
    src_stable: bool,
    dst_stable: bool,
) -> u16 {
    ((if requester_router { 0x8000int } else { 0 }) + (if authorative { 0x4000int } else { 0 }) + (
    if dst_stable { 0x2000int } else { 0 }) + (if unique { 0x1000int } else { 0 }) + (if src_stable {
        0x0800int
    } else {
        0
    })) as u16
}

/// A resolution reply: the answering header and its entries.
#[derive(Debug, PartialEq, Eq, Clone)]
pub struct ResolutionReplyMessage {
    pub header: CommonHeader,
    pub cie: Vec<ClientInformationEntry>,
}

impl View for ResolutionReplyMessage {
    type V = (CommonHeaderModel, Seq<CieModel>);

    open spec fn view(&self) -> (CommonHeaderModel, Seq<CieModel>) {
        (self.header@, cie_models(self.cie@))
    }
}

impl ResolutionReplyMessage {
    /// A reply with one entry: the binding `dst_n_a` of `dst_p_a` when
    /// there is one, else an entry with null addresses and zero fields.
    pub fn new(
        request_id: u32,
        code: ResolutionCode,
        src_n_a: Vec<u8>,
        src_p_a: Vec<u8>,
        dst_n_a: Option<Vec<u8>>,
        dst_p_a: Vec<u8>,
        requester_router: bool,
        authorative: bool,
        unique: bool,
        src_stable: bool,
        dst_stable: bool,
        holding_time: u16,
        prefix_len: u8,
    ) -> (r: ResolutionReplyMessage)
        ensures
            r.header@ == (CommonHeaderModel {
                flags: resolution_flags(
                    requester_router,
                    authorative,
                    unique,
                    src_stable,
                    dst_stable,
                ),
                request_id,
                src_nbma_addr: src_n_a@,
                src_nbma_saddr: Seq::empty(),
                src_proto_addr: src_p_a@,
                dst_proto_addr: dst_p_a@,
            }),
            r.cie@.len() == 1,
            r.cie@[0]@ == match dst_n_a {
                Some(n) => CieModel {
                    code: code.value(),
                    prefix_len,
                    mtu: 0,
                    holding_time,
                    preference: 0,
                    client_nbma_addr: n@,
                    client_nbma_saddr: Seq::empty(),
                    client_proto_addr: dst_p_a@,
                },
                None => CieModel {
                    code: code.value(),
                    prefix_len: 0,
                    mtu: 0,
                    holding_time: 0,
                    preference: 0,
                    client_nbma_addr: Seq::empty(),
                    client_nbma_saddr: Seq::empty(),
                    client_proto_addr: Seq::empty(),
                },
            },
    {
        let f1: u16 = if requester_router { FLAG_REQUESTER_ROUTER } else { 0 };
        let f2: u16 = if authorative { FLAG_AUTHORITATIVE } else { 0 };
        let f3: u16 = if dst_stable { FLAG_DST_STABLE } else { 0 };
        let f4: u16 = if unique { FLAG_UNIQUE } else { 0 };
        let f5: u16 = if src_stable { FLAG_SRC_STABLE } else { 0 };
        let cie = match dst_n_a {
            Some(dst) => ClientInformationEntry {
                code: code.to_u8(),
                prefix_len,
                mtu: 0,
                holding_time,
                preference: 0,
                client_nbma_addr: dst,
                client_nbma_saddr: Vec::new(),
                client_proto_addr: vstd::slice::slice_to_vec(dst_p_a.as_slice()),
            },
            None => ClientInformationEntry {
                code: code.to_u8(),
                prefix_len: 0,
                mtu: 0,
                holding_time: 0,
                preference: 0,
                client_nbma_addr: Vec::new(),
                client_nbma_saddr: Vec::new(),
                client_proto_addr: Vec::new(),
            },
        };
        let header = CommonHeader {
            flags: f1 + f2 + f3 + f4 + f5,
            request_id,
            src_nbma_addr: src_n_a,
            src_nbma_saddr: Vec::new(),
            src_proto_addr: src_p_a,
            dst_proto_addr: dst_p_a,
        };
        let mut cies: Vec<ClientInformationEntry> = Vec::new();
        cies.push(cie);
        ResolutionReplyMessage { header, cie: cies }
    }

    pub fn into_parts(self) -> (r: (CommonHeader, Vec<ClientInformationEntry>))
        ensures
            r.0 == self.header,
            r.1 == self.cie,
    {
        (self.header, self.cie)
    }
}

impl Emitable for ResolutionReplyMessage {
    open spec fn wire(&self) -> Seq<u8> {
        operation_bytes(OperationModel::ResolutionReply(self@.0, self@.1))
    }

    open spec fn emitable(&self) -> bool {
        OperationModel::ResolutionReply(self@.0, self@.1).wf() && self.wire().len() <= usize::MAX
    }

    fn write_to(&self, out: &mut Vec<u8>) {
        let ghost start = out@;
        proof {
            lemma_cies_emitable(self.cie@);
        }
        self.header.write_to(out);
        write_cie_list(&self.cie, out);
        assert(out@ =~= start + self.wire());
    }

    fn buffer_len(&self) -> (r: usize) {
        proof {
            lemma_cies_emitable(self.cie@);
        }
        self.header.buffer_len() + cie_list_len(&self.cie)
    }
}

impl Parseable<ResolutionReplyMessage> for OperationBuffer {
    open spec fn parsed(&self) -> Result<(CommonHeaderModel, Seq<CieModel>), Error> {
        parse_entries_body(self@)
    }

    fn parse(&self) -> (r: Result<ResolutionReplyMessage, Error>) {
        match parse_entries(self) {
            Ok((header, cie)) => Ok(ResolutionReplyMessage { header, cie }),
            Err(e) => Err(e),
        }
    }
}

/// A registration request: the registering client and its entries.
#[derive(Debug, PartialEq, Eq, Clone)]
pub struct RegistrationRequestMessage {
    pub header: CommonHeader,
    pub cie: Vec<ClientInformationEntry>,
}

impl View for RegistrationRequestMessage {
    type V = (CommonHeaderModel, Seq<CieModel>);

    open spec fn view(&self) -> (CommonHeaderModel, Seq<CieModel>) {
        (self.header@, cie_models(self.cie@))
    }
}

impl RegistrationRequestMessage {
    pub fn new(header: CommonHeader, cie: Vec<ClientInformationEntry>) -> (r:
        RegistrationRequestMessage)
        ensures
            r.header == header,
            r.cie == cie,
    {
        RegistrationRequestMessage { header, cie }
    }

    pub fn header(&self) -> (r: &CommonHeader)
        ensures
            *r == self.header,
    {
        &self.header
    }

    pub fn into_parts(self) -> (r: (CommonHeader, Vec<ClientInformationEntry>))
        ensures
            r.0 == self.header,
            r.1 == self.cie,
    {
        (self.header, self.cie)
    }
}

impl Emitable for RegistrationRequestMessage {
    open spec fn wire(&self) -> Seq<u8> {
        operation_bytes(OperationModel::RegistrationRequest(self@.0, self@.1))
    }

    open spec fn emitable(&self) -> bool {
        OperationModel::RegistrationRequest(self@.0, self@.1).wf() && self.wire().len()
            <= usize::MAX
    }

    fn write_to(&self, out: &mut Vec<u8>) {
        let ghost start = out@;
        proof {
            lemma_cies_emitable(self.cie@);
        }
        self.header.write_to(out);
        write_cie_list(&self.cie, out);
        assert(out@ =~= start + self.wire());
    }

    fn buffer_len(&self) -> (r: usize) {
        proof {
            lemma_cies_emitable(self.cie@);
        }
        self.header.buffer_len() + cie_list_len(&self.cie)
    }
}

impl Parseable<RegistrationRequestMessage> for OperationBuffer {
    open spec fn parsed(&self) -> Result<(CommonHeaderModel, Seq<CieModel>), Error> {
        parse_entries_body(self@)
    }

    fn parse(&self) -> (r: Result<RegistrationRequestMessage, Error>) {
        match parse_entries(self) {
            Ok((header, cie)) => Ok(RegistrationRequestMessage { header, cie }),
            Err(e) => Err(e),
        }
    }
}

/// Reply status of a registration.
#[derive(Debug, PartialEq, Eq, Clone, Copy, Hash, Structural)]
pub enum RegistrationCode {
    Success,
    Prohibited,
    InsufficientResources,
    AlreadyRegistered,
    Unknown(u8),
}

/// The registration status that the octet `v` stands for.
pub open spec fn registration_code_of(v: u8) -> RegistrationCode {
    if v == 0 {
        RegistrationCode::Success
    } else if v == 4 {
        RegistrationCode::Prohibited
    } else if v == 5 {
        RegistrationCode::InsufficientResources
    } else if v == 14 {
        RegistrationCode::AlreadyRegistered
    } else {
        RegistrationCode::Unknown(v)
    }
}

impl RegistrationCode {
    pub open spec fn value(self) -> u8 {
        match self {
            RegistrationCode::Success => 0,
            RegistrationCode::Prohibited => 4,
            RegistrationCode::InsufficientResources => 5,
            RegistrationCode::AlreadyRegistered => 14,
            RegistrationCode::Unknown(v) => v,
        }
    }

    pub fn from_u8(value: u8) -> (r: RegistrationCode)
        ensures
            r == registration_code_of(value),
            r.value() == value,
    {
        match value {
            0 => RegistrationCode::Success,
            4 => RegistrationCode::Prohibited,
            5 => RegistrationCode::InsufficientResources,
            14 => RegistrationCode::AlreadyRegistered,
            _ => RegistrationCode::Unknown(value),
        }
    }

    pub fn to_u8(self) -> (r: u8)
        ensures
            r == self.value(),
    {
        match self {
            RegistrationCode::Success => 0,
            RegistrationCode::Prohibited => 4,
            RegistrationCode::InsufficientResources => 5,
            RegistrationCode::AlreadyRegistered => 14,
            RegistrationCode::Unknown(v) => v,
        }
    }
}

/// A registration reply: the answering header and the one entry.
#[derive(Debug, PartialEq, Eq, Clone)]
pub struct RegistrationReplyMessage {
    pub header: CommonHeader,
    pub cie: ClientInformationEntry,
}

impl View for RegistrationReplyMessage {
    type V = (CommonHeaderModel, CieModel);

    open spec fn view(&self) -> (CommonHeaderModel, CieModel) {
        (self.header@, self.cie@)
    }
}

impl RegistrationReplyMessage {
    /// A reply that echoes `cie` with its code set to `code`; the flags
    /// carry the unique bit only.
    pub fn new(
        request_id: u32,
        code: RegistrationCode,
        cie: ClientInformationEntry,
        src_nbma_addr: Vec<u8>,
        src_proto_addr: Vec<u8>,
        dst_proto_addr: Vec<u8>,
        unique: bool,
    ) -> (r: RegistrationReplyMessage)
        ensures
            r.header@ == (CommonHeaderModel {
                flags: if unique {
                    FLAG_REQUESTER_ROUTER
                } else {
                    0
                },
                request_id,
                src_nbma_addr: src_nbma_addr@,
                src_nbma_saddr: Seq::empty(),
                src_proto_addr: src_proto_addr@,
                dst_proto_addr: dst_proto_addr@,
            }),
            r.cie@ == (CieModel { code: code.value(), ..cie@ }),
    {
        let mut cie = cie;
        cie.code = code.to_u8();
        let header = CommonHeader {
            flags: if unique {
                FLAG_REQUESTER_ROUTER
            } else {
                0
            },
            request_id,
            src_nbma_addr,
            src_nbma_saddr: Vec::new(),
            src_proto_addr,
            dst_proto_addr,
        };
        RegistrationReplyMessage { header, cie }
    }

    pub fn into_parts(self) -> (r: (CommonHeader, ClientInformationEntry))
        ensures
            r.0 == self.header,
            r.1 == self.cie,
    {
        (self.header, self.cie)
    }
}

impl Emitable for RegistrationReplyMessage {
    open spec fn wire(&self) -> Seq<u8> {
        operation_bytes(OperationModel::RegistrationReply(self@.0, self@.1))
    }

    open spec fn emitable(&self) -> bool {
        OperationModel::RegistrationReply(self@.0, self@.1).wf()
    }

    fn write_to(&self, out: &mut Vec<u8>) {
        let ghost start = out@;
        self.header.write_to(out);
        self.cie.write_to(out);
        assert(out@ =~= start + self.wire());
    }

    fn buffer_len(&self) -> (r: usize) {
        self.header.buffer_len() + self.cie.buffer_len()
    }
}

impl Parseable<RegistrationReplyMessage> for OperationBuffer {
    open spec fn parsed(&self) -> Result<(CommonHeaderModel, CieModel), Error> {
        parse_registration_reply(self@)
    }

    fn parse(&self) -> (r: Result<RegistrationReplyMessage, Error>) {
        let header: CommonHeader = match <OperationBuffer as Parseable<CommonHeader>>::parse(self) {
            Ok(h) => h,
            Err(e) => return Err(e),
        };
        let rest = vstd::slice::slice_to_vec(self.payload());
        let cie = match CieBuffer::new_checked(rest) {
            Ok(buffer) => match buffer.parse() {
                Ok(c) => c,
                Err(e) => return Err(e),
            },
            Err(e) => return Err(e),
        };
        Ok(RegistrationReplyMessage { header, cie })
    }
}

/// A purge request or reply: the header and the entries to purge.
#[derive(Debug, PartialEq, Eq, Clone)]
pub struct PurgeMessage {
    pub header: CommonHeader,
    pub cie: Vec<ClientInformationEntry>,
}

impl View for PurgeMessage {
    type V = (CommonHeaderModel, Seq<CieModel>);

    open spec fn view(&self) -> (CommonHeaderModel, Seq<CieModel>) {
        (self.header@, cie_models(self.cie@))
    }
}

impl PurgeMessage {
    pub fn header(&self) -> (r: &CommonHeader)
        ensures
            *r == self.header,
    {
        &self.header
    }

    pub fn cie(&self) -> (r: &Vec<ClientInformationEntry>)
        ensures
            *r == self.cie,
    {
        &self.cie
    }

    pub fn into_parts(self) -> (r: (CommonHeader, Vec<ClientInformationEntry>))
        ensures
            r.0 == self.header,
            r.1 == self.cie,
    {
        (self.header, self.cie)
    }
}

impl Emitable for PurgeMessage {
    open spec fn wire(&self) -> Seq<u8> {
        operation_bytes(OperationModel::PurgeRequest(self@.0, self@.1))
    }

    open spec fn emitable(&self) -> bool {
        OperationModel::PurgeRequest(self@.0, self@.1).wf() && self.wire().len() <= usize::MAX
    }

    fn write_to(&self, out: &mut Vec<u8>) {
        let ghost start = out@;
        proof {
            lemma_cies_emitable(self.cie@);
        }
        self.header.write_to(out);
        write_cie_list(&self.cie, out);
        assert(out@ =~= start + self.wire());
    }

    fn buffer_len(&self) -> (r: usize) {
        proof {
            lemma_cies_emitable(self.cie@);
        }
        self.header.buffer_len() + cie_list_len(&self.cie)
    }
}

impl Parseable<PurgeMessage> for OperationBuffer {
    open spec fn parsed(&self) -> Result<(CommonHeaderModel, Seq<CieModel>), Error> {
        parse_entries_body(self@)
    }

    fn parse(&self) -> (r: Result<PurgeMessage, Error>) {
        match parse_entries(self) {
            Ok((header, cie)) => Ok(PurgeMessage { header, cie }),
            Err(e) => Err(e),
        }
    }
}

} // verus!
