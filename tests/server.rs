use cloutd::cie::ClientInformationEntry;
use cloutd::error::Error;
use cloutd::header::{FixedHeader, NhrpOp, ProtocolClass, ProtocolType};
use cloutd::message::{NhrpMessage, Operation};
use cloutd::operation::{
    CommonHeader, PurgeMessage, RegistrationRequestMessage, ResolutionReplyMessage,
    ResolutionRequestMessage,
};
use cloutd::server::{NeighbourAction, NhrpHandler};

fn header(op: NhrpOp) -> FixedHeader {
    FixedHeader::new(1, ProtocolType { protype: ProtocolClass::from_u16(0x0800), prosnap: [0; 5] }, 16, op)
}

fn common(src_nbma: [u8; 4], src_proto: [u8; 4], dst_proto: [u8; 4], flags: u16, rid: u32) -> CommonHeader {
    CommonHeader {
        flags,
        request_id: rid,
        src_nbma_addr: src_nbma.to_vec(),
        src_nbma_saddr: vec![],
        src_proto_addr: src_proto.to_vec(),
        dst_proto_addr: dst_proto.to_vec(),
    }
}

fn null_cie() -> ClientInformationEntry {
    ClientInformationEntry::new(0, 0xFF, 0, 7200, 0, vec![], vec![], vec![])
}

fn registration_request() -> NhrpMessage {
    NhrpMessage::new(
        header(NhrpOp::RegistrationRequest),
        Operation::RegistrationRequest(RegistrationRequestMessage::new(
            common([198, 51, 100, 5], [10, 0, 0, 2], [10, 0, 0, 1], 0x8002, 77),
            vec![null_cie()],
        )),
        vec![],
    )
}

fn resolution_request(dst: [u8; 4], cie: Option<ClientInformationEntry>) -> NhrpMessage {
    NhrpMessage::new(
        header(NhrpOp::ResolutionRequest),
        Operation::ResolutionRequest(ResolutionRequestMessage {
            header: common([198, 51, 100, 9], [10, 0, 0, 9], dst, 0x9000, 5),
            cie,
        }),
        vec![],
    )
}

fn resolution_reply(op: &Operation) -> ResolutionReplyMessage {
    match op {
        Operation::ResolutionReply(r) => r.clone(),
        other => panic!("unexpected reply {:?}", other),
    }
}

#[test]
fn registration_round_trip() {
    let mut h = NhrpHandler::new();
    let out = h.handle_message(registration_request(), vec![198, 51, 100, 5]).ok().unwrap();
    assert_eq!(out.message.header.optype, NhrpOp::RegistrationReply);
    assert_eq!(out.message.header.hopcount, 16);
    assert!(out.message.extensions.is_empty());
    assert_eq!(out.destination, vec![198, 51, 100, 5]);
    let reply = match &out.message.operation {
        Operation::RegistrationReply(r) => r.clone(),
        other => panic!("unexpected reply {:?}", other),
    };
    assert_eq!(reply.header.request_id, 77);
    assert_eq!(reply.header.src_proto_addr, vec![10, 0, 0, 1]);
    assert_eq!(reply.header.dst_proto_addr, vec![10, 0, 0, 2]);
    assert_eq!(reply.header.flags, 0x8000);
    assert_eq!(reply.cie.code, 0);
    assert_eq!(reply.cie.holding_time, 7200);
    assert_eq!(h.lookup(&[10, 0, 0, 2]), Some(vec![198, 51, 100, 5]));
    assert_eq!(h.peer_count(), 1);
    assert_eq!(
        out.actions,
        vec![NeighbourAction::Install { proto_addr: vec![10, 0, 0, 2], nbma_addr: vec![198, 51, 100, 5] }]
    );
}

#[test]
fn resolution_hit_after_registration() {
    let mut h = NhrpHandler::new();
    h.handle_message(registration_request(), vec![198, 51, 100, 5]).ok().unwrap();
    let cie = ClientInformationEntry::new(0, 32, 0, 600, 0, vec![], vec![], vec![]);
    let out = h.handle_message(resolution_request([10, 0, 0, 2], Some(cie)), vec![198, 51, 100, 9]).ok().unwrap();
    assert_eq!(out.message.header.optype, NhrpOp::ResolutionReply);
    assert_eq!(out.destination, vec![198, 51, 100, 9]);
    let r = resolution_reply(&out.message.operation);
    assert_eq!(r.cie.len(), 1);
    assert_eq!(r.cie[0].code, 0);
    assert_eq!(r.cie[0].client_nbma_addr, vec![198, 51, 100, 5]);
    assert_eq!(r.cie[0].client_proto_addr, vec![10, 0, 0, 2]);
    assert_eq!(r.cie[0].holding_time, 600);
    assert_eq!(r.cie[0].prefix_len, 32);
    assert_eq!(r.header.flags & 0x4000, 0x4000);
    assert_eq!(r.header.flags & 0x2000, 0x2000);
    assert_eq!(r.header.flags & 0x0800, 0x0800);
    assert_eq!(r.header.flags, 0x8000 | 0x4000 | 0x2000 | 0x1000 | 0x0800);
    assert_eq!(r.header.src_proto_addr, vec![10, 0, 0, 2]);
    assert_eq!(r.header.dst_proto_addr, vec![10, 0, 0, 9]);
    assert!(out.actions.is_empty());
}

#[test]
fn resolution_miss() {
    let mut h = NhrpHandler::new();
    let out = h.handle_message(resolution_request([10, 0, 0, 99], None), vec![198, 51, 100, 9]).ok().unwrap();
    let r = resolution_reply(&out.message.operation);
    assert_eq!(r.cie.len(), 1);
    assert_eq!(r.cie[0].code, 12);
    assert!(r.cie[0].client_nbma_addr.is_empty());
    assert!(r.cie[0].client_proto_addr.is_empty());
    assert_eq!(r.cie[0].holding_time, 0);
}

#[test]
fn purge_after_registration() {
    let mut h = NhrpHandler::new();
    h.handle_message(registration_request(), vec![198, 51, 100, 5]).ok().unwrap();
    let purge = PurgeMessage {
        header: common([198, 51, 100, 5], [10, 0, 0, 2], [10, 0, 0, 1], 0, 78),
        cie: vec![null_cie()],
    };
    let msg = NhrpMessage::new(header(NhrpOp::PurgeRequest), Operation::PurgeRequest(purge.clone()), vec![]);
    let out = h.handle_message(msg, vec![198, 51, 100, 5]).ok().unwrap();
    assert_eq!(out.message.header.optype, NhrpOp::PurgeReply);
    assert_eq!(out.message.operation, Operation::PurgeReply(purge));
    assert_eq!(h.peer_count(), 0);
    assert_eq!(out.actions, vec![NeighbourAction::Remove { proto_addr: vec![10, 0, 0, 2] }]);
    let after = h.handle_message(resolution_request([10, 0, 0, 2], None), vec![1, 1, 1, 1]).ok().unwrap();
    assert_eq!(resolution_reply(&after.message.operation).cie[0].code, 12);
}

#[test]
fn repeated_request_gives_same_reply() {
    let mut h = NhrpHandler::new();
    let first = h.handle_message(registration_request(), vec![198, 51, 100, 5]).ok().unwrap();
    let second = h.handle_message(registration_request(), vec![198, 51, 100, 5]).ok().unwrap();
    assert_eq!(first.message, second.message);
    assert_eq!(first.actions, second.actions);
    assert_eq!(h.peer_count(), 1);
    let r1 = h.handle_message(resolution_request([10, 0, 0, 2], None), vec![1, 1, 1, 1]).ok().unwrap();
    let r2 = h.handle_message(resolution_request([10, 0, 0, 2], None), vec![1, 1, 1, 1]).ok().unwrap();
    assert_eq!(r1.message, r2.message);
}

#[test]
fn later_entry_rebinds_address() {
    let mut h = NhrpHandler::new();
    let a = ClientInformationEntry::new(0, 0, 0, 0, 0, vec![1, 1, 1, 1], vec![], vec![10, 0, 0, 7]);
    let b = ClientInformationEntry::new(0, 0, 0, 0, 0, vec![2, 2, 2, 2], vec![], vec![10, 0, 0, 7]);
    let msg = NhrpMessage::new(
        header(NhrpOp::RegistrationRequest),
        Operation::RegistrationRequest(RegistrationRequestMessage::new(
            common([3, 3, 3, 3], [10, 0, 0, 3], [10, 0, 0, 1], 0, 1),
            vec![a, b],
        )),
        vec![],
    );
    h.handle_message(msg, vec![3, 3, 3, 3]).ok().unwrap();
    assert_eq!(h.lookup(&[10, 0, 0, 7]), Some(vec![2, 2, 2, 2]));
    assert_eq!(h.lookup(&[10, 0, 0, 3]), None);
}

#[test]
fn registration_without_entries_is_invalid() {
    let mut h = NhrpHandler::new();
    let msg = NhrpMessage::new(
        header(NhrpOp::RegistrationRequest),
        Operation::RegistrationRequest(RegistrationRequestMessage::new(
            common([3, 3, 3, 3], [10, 0, 0, 3], [10, 0, 0, 1], 0, 1),
            vec![],
        )),
        vec![],
    );
    assert!(matches!(h.handle_message(msg, vec![3, 3, 3, 3]), Err(Error::Invalid)));
    assert_eq!(h.peer_count(), 0);
}

#[test]
fn replies_are_not_served() {
    let mut h = NhrpHandler::new();
    let op = Operation::ResolutionReply(ResolutionReplyMessage {
        header: common([1, 1, 1, 1], [2, 2, 2, 2], [3, 3, 3, 3], 0, 1),
        cie: vec![],
    });
    assert!(matches!(h.route(op), Err(Error::NotImplemented)));
}

#[test]
fn registration_without_protocol_address_is_invalid() {
    let mut h = NhrpHandler::new();
    let mut hdr = common([3, 3, 3, 3], [10, 0, 0, 3], [10, 0, 0, 1], 0, 1);
    hdr.src_proto_addr = vec![];
    let good = ClientInformationEntry::new(0, 0, 0, 0, 0, vec![], vec![], vec![10, 0, 0, 8]);
    let msg = NhrpMessage::new(
        header(NhrpOp::RegistrationRequest),
        Operation::RegistrationRequest(RegistrationRequestMessage::new(hdr, vec![good, null_cie()])),
        vec![],
    );
    assert!(matches!(h.handle_message(msg, vec![3, 3, 3, 3]), Err(Error::Invalid)));
    assert_eq!(h.peer_count(), 0);
}

#[test]
fn ipv6_bindings() {
    let mut h = NhrpHandler::new();
    let mut hdr = common([3, 3, 3, 3], [10, 0, 0, 3], [10, 0, 0, 1], 0, 1);
    hdr.src_proto_addr = vec![0xfe, 0x80, 0, 0, 0, 0, 0, 0, 0, 0, 0, 0, 0, 0, 0, 1];
    let msg = NhrpMessage::new(
        header(NhrpOp::RegistrationRequest),
        Operation::RegistrationRequest(RegistrationRequestMessage::new(hdr.clone(), vec![null_cie()])),
        vec![],
    );
    h.handle_message(msg, vec![3, 3, 3, 3]).ok().unwrap();
    assert_eq!(h.lookup(&hdr.src_proto_addr), Some(vec![3, 3, 3, 3]));
    assert_eq!(h.lookup(&[0xfe, 0x80, 0, 0]), None);
    assert_eq!(h.peer_count(), 1);
}
