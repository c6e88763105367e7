use cloutd::cie::ClientInformationEntry;
use cloutd::error::{CloutdError, Error};
use cloutd::framing::{NhrpCodec, NhrpFramed, StartSend};
use cloutd::header::{FixedHeader, NhrpOp, ProtocolClass, ProtocolType};
use cloutd::link::{addr_to_sockaddr, neighbour_table_request, sockaddr_to_addr, AF_PACKET, NHRP_ETHERTYPE};
use cloutd::message::{NhrpMessage, Operation};
use cloutd::operation::{CommonHeader, PurgeMessage};
use cloutd::traits::Emitable;

fn purge(rid: u32) -> NhrpMessage {
    NhrpMessage::new(
        FixedHeader::new(1, ProtocolType { protype: ProtocolClass::from_u16(0x0800), prosnap: [0; 5] }, 0, NhrpOp::PurgeRequest),
        Operation::PurgeRequest(PurgeMessage {
            header: CommonHeader {
                flags: 0,
                request_id: rid,
                src_nbma_addr: vec![198, 51, 100, 5],
                src_nbma_saddr: vec![],
                src_proto_addr: vec![10, 0, 0, 2],
                dst_proto_addr: vec![10, 0, 0, 1],
            },
            cie: vec![ClientInformationEntry::new(0, 0, 0, 0, 0, vec![], vec![], vec![])],
        }),
        vec![],
    )
}

#[test]
fn one_message_per_datagram() {
    let mut sink = NhrpFramed::new();
    assert!(sink.is_flushed());
    let m1 = purge(1);
    let mut expected = vec![0u8; m1.buffer_len()];
    m1.emit(&mut expected);
    assert!(matches!(sink.start_send(m1.clone(), vec![198, 51, 100, 5]), StartSend::Ready));
    let (datagram, dst) = sink.pending().unwrap();
    assert_eq!(datagram.to_vec(), expected);
    assert_eq!(dst.to_vec(), vec![198, 51, 100, 5]);
    let mut codec = NhrpCodec::new();
    assert_eq!(codec.decode(datagram), Ok(m1));
    match sink.start_send(purge(2), vec![1, 2, 3, 4]) {
        StartSend::NotReady(m, d) => {
            assert_eq!(m, purge(2));
            assert_eq!(d, vec![1, 2, 3, 4]);
        }
        StartSend::Ready => panic!("a second datagram was merged"),
    }
    assert_eq!(sink.pending().unwrap().0.to_vec(), expected);
    assert_eq!(sink.poll_complete(expected.len()), Ok(()));
    assert!(sink.is_flushed());
    assert!(matches!(sink.start_send(purge(2), vec![1, 2, 3, 4]), StartSend::Ready));
}

#[test]
fn short_write_is_an_error() {
    let mut sink = NhrpFramed::new();
    assert!(matches!(sink.start_send(purge(3), vec![1, 2, 3, 4]), StartSend::Ready));
    assert_eq!(sink.poll_complete(5), Err(Error::Io));
    assert!(sink.is_flushed());
    assert_eq!(sink.poll_complete(0), Ok(()));
}

#[test]
fn codec_decodes_exactly_one_datagram() {
    let mut codec = NhrpCodec::new();
    let mut two = Vec::new();
    codec.encode(&purge(1), &mut two);
    let one_len = two.len();
    codec.encode(&purge(2), &mut two);
    assert_eq!(two.len(), 2 * one_len);
    assert_eq!(codec.decode(&two[..one_len]), Ok(purge(1)));
    assert_eq!(codec.decode(&two[one_len..]), Ok(purge(2)));
    assert_eq!(codec.decode(&two[..one_len - 1]), Err(Error::Truncated));
}

#[test]
fn link_address_for_ipv4() {
    let a = addr_to_sockaddr(&[198, 51, 100, 5], 6).unwrap();
    assert_eq!(a.family, AF_PACKET);
    assert_eq!(a.protocol, NHRP_ETHERTYPE);
    assert_eq!(a.ifindex, 6);
    assert_eq!(a.halen, 4);
    assert_eq!(a.addr, vec![198, 51, 100, 5]);
    assert_eq!(addr_to_sockaddr(&[0; 16], 6), Err(Error::NotImplemented));
    assert_eq!(addr_to_sockaddr(&[0; 5], 6), Err(Error::Invalid));
}

#[test]
fn source_address_from_link_layer() {
    assert_eq!(sockaddr_to_addr(778, 0x2001, &[198, 51, 100, 5, 0, 0, 0, 0]), Ok(vec![198, 51, 100, 5]));
    assert_eq!(sockaddr_to_addr(823, 0x2001, &[0; 8]), Err(Error::NotImplemented));
    assert_eq!(sockaddr_to_addr(778, 0x0800, &[0; 8]), Err(Error::Invalid));
    assert_eq!(sockaddr_to_addr(1, 0x2001, &[0; 8]), Err(Error::Invalid));
}

#[test]
fn neighbour_table_frame() {
    let f = neighbour_table_request(6);
    assert_eq!(f.len(), 72);
    assert_eq!(f[..8].to_vec(), vec![0x48, 0, 0, 0, 0x43, 0, 0x01, 0x01]);
    assert_eq!(f[40..56].to_vec(), vec![8, 0, 1, 0, 6, 0, 0, 0, 8, 0, 9, 0, 1, 0, 0, 0]);
    let g = neighbour_table_request(0x01020304);
    assert_eq!(g[44..48].to_vec(), vec![4, 3, 2, 1]);
    assert_eq!(g[..44].to_vec(), f[..44].to_vec());
    assert_eq!(g[48..].to_vec(), f[48..].to_vec());
}

#[test]
fn errors_collect_related_ones() {
    let mut e = CloutdError::from(Error::Io);
    e.and(CloutdError::new(Error::Truncated, vec![]));
    assert_eq!(e.source, Error::Io);
    assert_eq!(e.others.len(), 1);
    assert_eq!(e.others[0].source, Error::Truncated);
}
