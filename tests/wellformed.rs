use cloutd::cie::ClientInformationEntry;
use cloutd::extension::{Extension, ExtensionType};
use cloutd::header::{parse_protocol_type, FixedHeader, NhrpOp, ProtocolClass, ProtocolType};
use cloutd::message::{NhrpMessage, Operation};
use cloutd::operation::{CommonHeader, ResolutionRequestMessage};
use cloutd::error::Error;
use cloutd::traits::Emitable;

fn request(protype: ProtocolClass, optype: NhrpOp, cie: Option<ClientInformationEntry>, exts: Vec<Extension>) -> NhrpMessage {
    NhrpMessage::new(
        FixedHeader::new(1, ProtocolType { protype, prosnap: [0; 5] }, 0, optype),
        Operation::ResolutionRequest(ResolutionRequestMessage {
            header: CommonHeader {
                flags: 0,
                request_id: 3,
                src_nbma_addr: vec![1, 2, 3, 4],
                src_nbma_saddr: vec![],
                src_proto_addr: vec![10, 0, 0, 1],
                dst_proto_addr: vec![10, 0, 0, 2],
            },
            cie,
        }),
        exts,
    )
}

fn ip() -> ProtocolClass {
    ProtocolClass::Ethertype(0x0800)
}

#[test]
fn well_formed_messages_are_accepted() {
    assert!(request(ip(), NhrpOp::ResolutionRequest, None, vec![]).is_well_formed());
    let exts = vec![
        Extension::Other { etype: ExtensionType::NHRP(3), compulsory: true, data: vec![] },
        Extension::EndOfExtensions,
    ];
    assert!(request(ip(), NhrpOp::ResolutionRequest, None, exts).is_well_formed());
}

#[test]
fn ill_formed_messages_are_refused() {
    assert!(!request(ProtocolClass::Future(0x0050), NhrpOp::ResolutionRequest, None, vec![]).is_well_formed());
    assert!(!request(ProtocolClass::Ethertype(0x0100), NhrpOp::ResolutionRequest, None, vec![]).is_well_formed());
    assert!(!request(ip(), NhrpOp::PurgeRequest, None, vec![]).is_well_formed());
    assert!(!request(ip(), NhrpOp::Other(1), None, vec![]).is_well_formed());
    let long = ClientInformationEntry::new(0, 0, 0, 0, 0, vec![0; 64], vec![], vec![]);
    assert!(!request(ip(), NhrpOp::ResolutionRequest, Some(long), vec![]).is_well_formed());
    let unterminated = vec![Extension::Other { etype: ExtensionType::NHRP(3), compulsory: true, data: vec![] }];
    assert!(!request(ip(), NhrpOp::ResolutionRequest, None, unterminated).is_well_formed());
    let early_end = vec![Extension::EndOfExtensions, Extension::EndOfExtensions];
    assert!(!request(ip(), NhrpOp::ResolutionRequest, None, early_end).is_well_formed());
    let zero_type = vec![
        Extension::Other { etype: ExtensionType::NHRP(0), compulsory: false, data: vec![] },
        Extension::EndOfExtensions,
    ];
    assert!(!request(ip(), NhrpOp::ResolutionRequest, None, zero_type).is_well_formed());
    let mismatched = vec![
        Extension::Other { etype: ExtensionType::ATM(0x0100), compulsory: false, data: vec![] },
        Extension::EndOfExtensions,
    ];
    assert!(!request(ip(), NhrpOp::ResolutionRequest, None, mismatched).is_well_formed());
    let huge = vec![
        Extension::Other { etype: ExtensionType::NHRP(3), compulsory: false, data: vec![0; 0xFFF0] },
        Extension::EndOfExtensions,
    ];
    assert!(!request(ip(), NhrpOp::ResolutionRequest, None, huge).is_well_formed());
}

#[test]
fn protocol_type_parse_and_emit() {
    let p = parse_protocol_type(&[0x08, 0x00, 1, 2, 3, 4, 5, 99]).unwrap();
    assert_eq!(p.protype, ProtocolClass::Ethertype(0x0800));
    assert_eq!(p.prosnap, [1, 2, 3, 4, 5]);
    let mut out = [0u8; 7];
    p.emit(&mut out);
    assert_eq!(out, [0x08, 0x00, 1, 2, 3, 4, 5]);
    assert_eq!(p.buffer_len(), 7);
    assert_eq!(parse_protocol_type(&[0x08, 0x00, 1]), Err(Error::Truncated));
}
