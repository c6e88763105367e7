use cloutd::buffer::NhrpBuffer;
use cloutd::cie::{CieBuffer, CieIterator, ClientInformationEntry};
use cloutd::error::Error;
use cloutd::extension::{Extension, ExtensionBuffer, ExtensionIterator, ExtensionType};
use cloutd::header::{FixedHeader, NhrpOp, ProtocolClass, ProtocolType};
use cloutd::message::{NhrpMessage, Operation};
use cloutd::opbuffer::{AddrTL, OperationBuffer};
use cloutd::operation::{
    CommonHeader, PurgeMessage, RegistrationCode, RegistrationReplyMessage,
    RegistrationRequestMessage, ResolutionCode, ResolutionReplyMessage, ResolutionRequestMessage,
};
use cloutd::traits::{Emitable, Parseable};

fn fixture() -> Vec<u8> {
    vec![
        0x00, 0x01, 0x08, 0x00, 0x00, 0x00, 0x00, 0x00, 0x00, 0x10, 0x00, 0x5C, 0xD6, 0x74, 0x00,
        0x34, 0x01, 0x03, 0x04, 0x00, 0x04, 0x04, 0x80, 0x02, 0x00, 0x00, 0x00, 0x01, 0xC6, 0x33,
        0x64, 0x05, 0x0A, 0x00, 0x00, 0x02, 0x0A, 0x00, 0x00, 0x01, 0x00, 0xFF, 0x00, 0x00, 0x00,
        0x00, 0x1C, 0x20, 0x00, 0x00, 0x00, 0x00, 0x80, 0x04, 0x00, 0x00, 0x80, 0x05, 0x00, 0x00,
        0x80, 0x03, 0x00, 0x00, 0x00, 0x09, 0x00, 0x14, 0x00, 0x20, 0x00, 0x00, 0x00, 0x00, 0x00,
        0x00, 0x04, 0x00, 0x04, 0x00, 0xC6, 0x33, 0x64, 0x04, 0x0A, 0x00, 0x00, 0x01, 0x80, 0x00,
        0x00, 0x00,
    ]
}

fn ipv4_type() -> ProtocolType {
    ProtocolType { protype: ProtocolClass::from_u16(0x0800), prosnap: [0; 5] }
}

fn common(src_nbma: [u8; 4], src_proto: [u8; 4], dst_proto: [u8; 4], flags: u16, rid: u32) -> CommonHeader {
    CommonHeader {
        flags,
        request_id: rid,
        src_nbma_addr: src_nbma.to_vec(),
        src_nbma_saddr: vec![],
        src_proto_addr: src_proto.to_vec(),
        dst_proto_addr: dst_proto.to_vec(),
    }
}

fn null_cie() -> ClientInformationEntry {
    ClientInformationEntry::new(0, 0xFF, 0, 7200, 0, vec![], vec![], vec![])
}

fn registration(extensions: Vec<Extension>) -> NhrpMessage {
    let op = Operation::RegistrationRequest(RegistrationRequestMessage::new(
        common([198, 51, 100, 5], [10, 0, 0, 2], [10, 0, 0, 1], 0x8002, 1),
        vec![null_cie()],
    ));
    NhrpMessage::new(FixedHeader::new(1, ipv4_type(), 16, NhrpOp::RegistrationRequest), op, extensions)
}

fn emit_vec(m: &NhrpMessage) -> Vec<u8> {
    let mut buf = vec![0u8; m.buffer_len()];
    m.emit(&mut buf);
    buf
}

#[test]
fn fixture_parses_as_registration_request() {
    let m = NhrpMessage::from_bytes(&fixture()).unwrap();
    assert_eq!(m.header.optype, NhrpOp::RegistrationRequest);
    assert_eq!(m.header.afn, 1);
    assert_eq!(m.header.hopcount, 16);
    assert_eq!(m.header.protocol_type.protype, ProtocolClass::Ethertype(0x0800));
    let msg = match &m.operation {
        Operation::RegistrationRequest(msg) => msg.clone(),
        other => panic!("unexpected operation {:?}", other),
    };
    assert_eq!(msg.header.flags, 0x8002);
    assert_eq!(msg.header.request_id, 1);
    assert_eq!(msg.header.src_nbma_addr, vec![198, 51, 100, 5]);
    assert_eq!(msg.header.src_proto_addr, vec![10, 0, 0, 2]);
    assert_eq!(msg.header.dst_proto_addr, vec![10, 0, 0, 1]);
    assert_eq!(msg.cie.len(), 1);
    assert_eq!(msg.cie[0].holding_time, 7200);
    assert_eq!(msg.cie[0].prefix_len, 0xFF);
    assert_eq!(m.extensions.len(), 5);
    assert_eq!(m.extensions[4], Extension::EndOfExtensions);
    assert_eq!(m.extensions[0].etype(), ExtensionType::NHRP(4));
    assert!(m.extensions[0].compulsory());
    assert_eq!(m.extensions[3].etype(), ExtensionType::NHRP(9));
    assert!(!m.extensions[3].compulsory());
    // The responder address extension carries an entry for 198.51.100.4 / 10.0.0.1.
    let cb = CieBuffer::new_checked(m.extensions[3].data().to_vec()).ok().unwrap();
    let c = cb.parse().unwrap();
    assert_eq!(c.client_nbma_addr, vec![198, 51, 100, 4]);
    assert_eq!(c.client_proto_addr, vec![10, 0, 0, 1]);
    assert_eq!(c.prefix_len, 0x20);
}

#[test]
fn fixture_reserializes_identically() {
    let m = NhrpMessage::from_bytes(&fixture()).unwrap();
    let mut buf = [0u8; 128];
    let n = m.to_bytes(&mut buf).unwrap();
    assert_eq!(n, 92);
    assert_eq!(buf[..n].to_vec(), fixture());
}

#[test]
fn truncated_datagram_is_rejected() {
    let f = fixture();
    assert_eq!(NhrpMessage::from_bytes(&f[..10]), Err(Error::Truncated));
    assert_eq!(NhrpMessage::from_bytes(&f[..91]), Err(Error::Truncated));
}

#[test]
fn flipped_octet_breaks_checksum() {
    let bytes = emit_vec(&registration(vec![]));
    let good = NhrpBuffer::new(bytes.clone());
    assert_eq!(good.calculate_checksum(), 0);
    let mut bad = bytes.clone();
    bad[30] ^= 0x01;
    let mut b = NhrpBuffer::new(bad);
    assert_ne!(b.calculate_checksum(), 0);
    let stored = b.checksum();
    b.set_checksum(0);
    assert_ne!(b.calculate_checksum(), stored);
}

#[test]
fn parse_of_emit_gives_message_back() {
    let exts = vec![
        Extension::Other { etype: ExtensionType::NHRP(4), compulsory: true, data: vec![] },
        Extension::Other { etype: ExtensionType::IETF(0x1234), compulsory: false, data: vec![1, 2, 3] },
        Extension::EndOfExtensions,
    ];
    for m in [registration(vec![]), registration(exts)] {
        let bytes = emit_vec(&m);
        assert_eq!(NhrpMessage::from_bytes(&bytes), Ok(m));
    }
}

#[test]
fn emitted_length_is_buffer_len_and_pktsize() {
    let m = registration(vec![Extension::EndOfExtensions]);
    let bytes = emit_vec(&m);
    assert_eq!(bytes.len(), m.buffer_len());
    assert_eq!(bytes.len(), 18 + 10 + 12 + 12 + 4);
    let b = NhrpBuffer::new(bytes.clone());
    assert_eq!(b.length() as usize, bytes.len());
    assert_eq!(b.extoffset(), 18 + 10 + 12 + 12);
    assert_eq!(b.version(), 1);
}

#[test]
fn emitted_checksum_verifies_to_zero() {
    let exts = vec![
        Extension::Other { etype: ExtensionType::ATM(0x1001), compulsory: false, data: vec![9] },
        Extension::EndOfExtensions,
    ];
    let bytes = emit_vec(&registration(exts));
    assert_eq!(bytes.len() % 2, 1);
    assert_eq!(NhrpBuffer::new(bytes).calculate_checksum(), 0);
}

#[test]
fn checksum_exact_value() {
    let mut f = fixture();
    f[12] = 0;
    f[13] = 0;
    assert_eq!(NhrpBuffer::new(f).calculate_checksum(), 0xD674);
    // Odd length: the last octet is the high octet of a word.
    let mut h = vec![0u8; 19];
    h[11] = 19;
    h[18] = 0x01;
    assert_eq!(NhrpBuffer::new(h).calculate_checksum(), 0xFFFF - (19 + 0x0100));
}

#[test]
fn extension_iteration_yields_list_and_end() {
    let exts = vec![
        Extension::Other { etype: ExtensionType::Experimental(0x3900), compulsory: true, data: vec![7, 7] },
        Extension::EndOfExtensions,
    ];
    let m = registration(exts.clone());
    let b = NhrpBuffer::new(emit_vec(&m));
    let mut it = ExtensionIterator::new(b.extensions().to_vec());
    let mut seen = Vec::new();
    while let Some(Ok(e)) = it.next() {
        seen.push(e.parse().unwrap());
    }
    assert_eq!(seen, exts);
}

#[test]
fn extension_iteration_stops_at_end_and_on_truncation() {
    let bytes = vec![0x80, 0x04, 0x00, 0x01, 0xAA, 0x80, 0x00, 0x00, 0x00, 0x00, 0x05, 0x00, 0x00];
    let mut it = ExtensionIterator::new(bytes);
    assert!(matches!(it.next(), Some(Ok(_))));
    assert!(matches!(it.next(), Some(Ok(_))));
    assert!(it.next().is_none());
    let mut short = ExtensionIterator::new(vec![0x00, 0x05, 0x00, 0x09, 0x01]);
    assert!(short.next().is_none());
    assert!(short.next().is_none());
}

#[test]
fn error_indication_is_not_implemented() {
    let mut f = fixture();
    f[17] = 7;
    assert_eq!(NhrpMessage::from_bytes(&f), Err(Error::NotImplemented));
    f[17] = 42;
    assert_eq!(NhrpMessage::from_bytes(&f), Err(Error::NotImplemented));
}

#[test]
fn inconsistent_layout_is_invalid() {
    let mut f = fixture();
    f[15] = 10; // extension offset inside the fixed header
    assert_eq!(NhrpMessage::from_bytes(&f), Err(Error::Invalid));
    let mut g = fixture();
    g[11] = 12; // packet size shorter than the fixed header
    assert_eq!(NhrpMessage::from_bytes(&g), Err(Error::Invalid));
}

#[test]
fn to_bytes_reports_exhausted() {
    let m = registration(vec![]);
    let mut small = [0xEEu8; 20];
    assert_eq!(m.to_bytes(&mut small), Err(Error::Exhausted));
    assert_eq!(small, [0xEEu8; 20]);
}

#[test]
fn protocol_class_round_trips() {
    for v in [0x0000u16, 0x00CC, 0x0100, 0x03FF, 0x0401, 0x05FE, 0x0600, 0x0800, 0xFFFF] {
        assert_eq!(ProtocolClass::from_u16(v).to_u16(), v);
    }
    assert_eq!(ProtocolClass::from_u16(0x00CC), ProtocolClass::NLPID(0xCC));
    assert_eq!(ProtocolClass::from_u16(0x0200), ProtocolClass::Future(0x0200));
    assert_eq!(ProtocolClass::from_u16(0x0401), ProtocolClass::ATM(1));
    assert_eq!(ProtocolClass::from_u16(0x0502), ProtocolClass::Private(2));
}

#[test]
fn nhrp_op_round_trips() {
    for v in 0u8..=255 {
        assert_eq!(NhrpOp::from_u8(v).to_u8(), v);
    }
    assert_eq!(NhrpOp::from_u8(3), NhrpOp::RegistrationRequest);
    assert_eq!(NhrpOp::from_u8(9), NhrpOp::Other(9));
}

#[test]
fn addr_tl_encoding() {
    assert_eq!(AddrTL::from_u8(4), AddrTL::NSAP(4));
    assert_eq!(AddrTL::from_u8(0x44), AddrTL::E164(4));
    assert_eq!(AddrTL::from_u8(0x84), AddrTL::NSAP(4));
    assert_eq!(AddrTL::E164(5).to_u8(), 0x45);
    assert_eq!(AddrTL::NSAP(63).to_u8(), 63);
    assert_eq!(AddrTL::E164(7).val(), 7);
}

#[test]
fn operation_buffer_fields() {
    let f = fixture();
    let ob = OperationBuffer::new_checked(f[18..52].to_vec()).ok().unwrap();
    assert_eq!(ob.length(), 22);
    assert_eq!(ob.src_nbma_addr_tl(), AddrTL::NSAP(4));
    assert_eq!(ob.src_nbma_saddr_offset(), 14);
    assert_eq!(ob.src_proto_addr_offset(), 14);
    assert_eq!(ob.dst_proto_addr_offset(), 18);
    assert_eq!(ob.flags(), 0x8002);
    assert_eq!(ob.request_id(), 1);
    assert_eq!(ob.src_nbma_addr(), &[198, 51, 100, 5]);
    assert_eq!(ob.dst_proto_addr(), &[10, 0, 0, 1]);
    assert_eq!(ob.payload().len(), 12);
    let h: CommonHeader = ob.parse().unwrap();
    assert_eq!(h.src_proto_addr, vec![10, 0, 0, 2]);
    assert!(OperationBuffer::new_checked(f[18..30].to_vec()).is_err());
}

#[test]
fn operation_buffer_setters() {
    let mut ob = OperationBuffer::new(vec![0u8; 22]);
    ob.set_src_nbma_addr_tl(AddrTL::E164(4));
    ob.set_src_nbma_saddr_tl(AddrTL::NSAP(0));
    ob.set_src_proto_addr_len(4);
    ob.set_dst_proto_addr_len(4);
    ob.set_flags(0x1234);
    ob.set_request_id(0xA1B2C3D4);
    ob.src_nbma_addr_mut(&[1, 2, 3, 4]);
    ob.src_proto_addr_mut(&[5, 6, 7, 8]);
    ob.dst_proto_addr_mut(&[9, 10, 11, 12]);
    assert_eq!(
        ob.into_inner(),
        vec![0x44, 0, 4, 4, 0x12, 0x34, 0xA1, 0xB2, 0xC3, 0xD4, 1, 2, 3, 4, 5, 6, 7, 8, 9, 10, 11, 12]
    );
}

#[test]
fn nhrp_buffer_setters_and_getters() {
    let mut b = NhrpBuffer::new(vec![0u8; 24]);
    b.set_afn(1);
    b.set_protocol_type(ipv4_type());
    b.set_hopcount(3);
    b.set_length(24);
    b.set_extoffset(20);
    b.set_version(1);
    b.set_optype(NhrpOp::PurgeRequest);
    b.set_prosnap([1, 2, 3, 4, 5]);
    b.payload_mut(&[0xA, 0xB]);
    b.extensions_mut(&[0xC, 0xD, 0xE, 0xF]);
    assert_eq!(b.afn(), 1);
    assert_eq!(b.protype(), 0x0800);
    assert_eq!(b.prosnap(), [1, 2, 3, 4, 5]);
    assert_eq!(b.hopcount(), 3);
    assert_eq!(b.payload_length(), 6);
    assert_eq!(b.optype(), NhrpOp::PurgeRequest);
    assert_eq!(b.payload(), &[0xA, 0xB]);
    assert_eq!(b.extensions(), &[0xC, 0xD, 0xE, 0xF]);
    let h: FixedHeader = b.parse().unwrap();
    assert_eq!(h.optype(), NhrpOp::PurgeRequest);
    assert_eq!(h.hopcount(), 3);
    assert!(NhrpBuffer::new_checked(vec![0u8; 17]).is_err());
}

#[test]
fn cie_buffer_fields_and_setters() {
    let mut cb = CieBuffer::new(vec![0u8; 20]);
    cb.set_code(5);
    cb.set_prefix_len(24);
    cb.set_mtu(1400);
    cb.set_holding_time(60);
    cb.set_cli_nbma_addr_tl(4);
    cb.set_cli_nbma_saddr_tl(0);
    cb.set_cli_proto_addr_len(4);
    cb.set_preference(9);
    cb.cli_nbma_addr_mut(&[1, 1, 1, 1]);
    cb.cli_proto_addr_mut(&[2, 2, 2, 2]);
    assert_eq!(cb.length(), 20);
    assert_eq!(cb.mtu(), 1400);
    assert_eq!(cb.cli_proto_addr_offset(), 16);
    let c = cb.parse().unwrap();
    assert_eq!(c, ClientInformationEntry::new(5, 24, 1400, 60, 9, vec![1, 1, 1, 1], vec![], vec![2, 2, 2, 2]));
    let mut out = vec![0u8; 20];
    c.emit(&mut out);
    assert_eq!(out[..4].to_vec(), vec![5, 24, 0, 0]);
}

#[test]
fn cie_iterator_fuses_after_error() {
    let mut bytes = vec![0u8; 12];
    bytes.extend_from_slice(&[0, 0, 0, 0, 0, 0, 0, 0, 4]);
    let mut it = CieIterator::new(bytes);
    assert!(matches!(it.next(), Some(Ok(_))));
    assert!(matches!(it.next(), Some(Err(Error::Truncated))));
    assert!(it.next().is_none());
}

#[test]
fn resolution_request_with_truncated_entry_has_none() {
    let h = common([1, 1, 1, 1], [2, 2, 2, 2], [3, 3, 3, 3], 0, 7);
    let mut bytes = vec![0u8; h.buffer_len()];
    h.emit(&mut bytes);
    bytes.extend_from_slice(&[0, 0, 0]);
    let m: ResolutionRequestMessage = OperationBuffer::new(bytes.clone()).parse().unwrap();
    assert!(m.cie.is_none());
    let r: Result<RegistrationReplyMessage, Error> = OperationBuffer::new(bytes.clone()).parse();
    assert_eq!(r, Err(Error::Truncated));
    let p: Result<PurgeMessage, Error> = OperationBuffer::new(bytes).parse();
    assert_eq!(p, Err(Error::Truncated));
}

#[test]
fn extension_buffer_fields_and_setters() {
    let mut eb = ExtensionBuffer::new(vec![0u8; 6]);
    eb.set_compulsory(true);
    eb.set_extensiontype(ExtensionType::IETF(0x1300));
    eb.set_length(2);
    eb.payload_mut(&[0xAB, 0xCD]);
    assert!(eb.compulsory());
    assert_eq!(eb.extensiontype(), ExtensionType::IETF(0x1300));
    assert_eq!(eb.payload_length(), 2);
    assert_eq!(eb.length(), 6);
    assert_eq!(eb.payload(), &[0xAB, 0xCD]);
    assert_eq!(
        eb.parse(),
        Ok(Extension::Other { etype: ExtensionType::IETF(0x1300), compulsory: true, data: vec![0xAB, 0xCD] })
    );
    assert!(ExtensionBuffer::new_checked(vec![0, 1, 0, 3, 0]).is_err());
    assert_eq!(ExtensionType::from_u16(0x1100), ExtensionType::ATM(0x1100));
}

#[test]
fn codes_encode() {
    assert_eq!(ResolutionCode::NoBindingExists.to_u8(), 12);
    assert_eq!(ResolutionCode::from_u8(13), ResolutionCode::BindingNotUnique);
    assert_eq!(RegistrationCode::AlreadyRegistered.to_u8(), 14);
    assert_eq!(RegistrationCode::from_u8(99), RegistrationCode::Unknown(99));
}

#[test]
fn resolution_reply_builder() {
    let r = ResolutionReplyMessage::new(
        9,
        ResolutionCode::Success,
        vec![1, 2, 3, 4],
        vec![10, 0, 0, 1],
        Some(vec![5, 6, 7, 8]),
        vec![10, 0, 0, 2],
        true,
        true,
        false,
        true,
        true,
        60,
        32,
    );
    assert_eq!(r.header.flags, 0x8000 | 0x4000 | 0x2000 | 0x0800);
    assert_eq!(r.cie.len(), 1);
    assert_eq!(r.cie[0].client_nbma_addr, vec![5, 6, 7, 8]);
    assert_eq!(r.cie[0].client_proto_addr, vec![10, 0, 0, 2]);
    let miss = ResolutionReplyMessage::new(
        9, ResolutionCode::NoBindingExists, vec![1, 2, 3, 4], vec![10, 0, 0, 1], None,
        vec![10, 0, 0, 2], false, true, false, false, false, 60, 32,
    );
    assert_eq!(miss.cie[0].code, 12);
    assert!(miss.cie[0].client_proto_addr.is_empty());
    assert_eq!(miss.cie[0].holding_time, 0);
}

#[test]
fn undecodable_address_widths_are_not_implemented() {
    // An entry with a 5-octet client NBMA address.
    let mut entry = vec![0u8, 0, 0, 0, 0, 0, 0, 0, 5, 0, 0, 0];
    entry.extend_from_slice(&[1, 2, 3, 4, 5]);
    let cb = CieBuffer::new_checked(entry.clone()).ok().unwrap();
    assert_eq!(cb.parse(), Err(Error::NotImplemented));
    // An entry with a 16-octet protocol address is decoded.
    let mut v6 = vec![0u8, 0, 0, 0, 0, 0, 0, 0, 0, 0, 16, 0];
    v6.extend_from_slice(&[7u8; 16]);
    assert_eq!(CieBuffer::new(v6).parse().unwrap().client_proto_addr, vec![7u8; 16]);
    // The same entry inside a registration request.
    let h = CommonHeader {
        flags: 0,
        request_id: 1,
        src_nbma_addr: vec![1, 2, 3, 4],
        src_nbma_saddr: vec![],
        src_proto_addr: vec![10, 0, 0, 1],
        dst_proto_addr: vec![10, 0, 0, 2],
    };
    let mut body = vec![0u8; h.buffer_len()];
    h.emit(&mut body);
    body.extend_from_slice(&entry);
    let r: Result<RegistrationRequestMessage, Error> = OperationBuffer::new(body).parse();
    assert_eq!(r, Err(Error::NotImplemented));
    // A common header with a 3-octet destination protocol address.
    let mut f = fixture();
    f[21] = 3;
    assert_eq!(NhrpMessage::from_bytes(&f), Err(Error::NotImplemented));
    let mut g = fixture();
    g[18] = 5;
    assert_eq!(NhrpMessage::from_bytes(&g), Err(Error::NotImplemented));
}

#[test]
fn to_bytes_fits_exact_buffer() {
    let m = registration(vec![]);
    let mut exact = vec![0u8; m.buffer_len()];
    assert_eq!(m.to_bytes(&mut exact), Ok(m.buffer_len()));
    assert_eq!(NhrpBuffer::new(exact).length() as usize, m.buffer_len());
    let mut short = vec![0u8; m.buffer_len() - 1];
    assert_eq!(m.to_bytes(&mut short), Err(Error::Exhausted));
}

#[test]
fn unserved_type_is_refused_before_layout() {
    let mut p = vec![0u8; 18];
    p[11] = 18; // packet size 18
    p[15] = 5; // extension offset inside the fixed header
    p[16] = 1;
    p[17] = 7;
    assert_eq!(NhrpMessage::from_bytes(&p), Err(Error::NotImplemented));
    p[17] = 9;
    assert_eq!(NhrpMessage::from_bytes(&p), Err(Error::NotImplemented));
    p[17] = 1;
    assert_eq!(NhrpMessage::from_bytes(&p), Err(Error::Invalid));
}
