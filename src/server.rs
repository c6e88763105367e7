//! The request/response server: registration, purge and resolution
//! handlers over the peer table, and the router that picks one.

use vstd::prelude::*;
use crate::cie::{CieModel, ClientInformationEntry};
use crate::error::Error;
use crate::header::{FixedHeader, FixedHeaderModel, NhrpOp};
use crate::message::{MessageModel, NhrpMessage, Operation};
use crate::operation::{
    CommonHeader, CommonHeaderModel, FLAG_AUTHORITATIVE, FLAG_DST_STABLE, FLAG_REQUESTER_ROUTER,
    FLAG_SRC_STABLE, FLAG_UNIQUE, OperationModel, PurgeMessage, RegistrationCode,
    RegistrationReplyMessage, RegistrationRequestMessage, ResolutionCode, ResolutionReplyMessage,
    ResolutionRequestMessage, cie_models, resolution_flags,
};
use crate::peers::{PeerTable, is_peer_key};

verus! {

/// Bindings of overlay protocol addresses to NBMA addresses.
pub type PeerMap = Map<Seq<u8>, Seq<u8>>;

/// The NBMA address an entry names: its own, else the requester's.
pub open spec fn entry_nbma(h: CommonHeaderModel, c: CieModel) -> Seq<u8> {
    if c.client_nbma_addr.len() == 0 {
        h.src_nbma_addr
    } else {
        c.client_nbma_addr
    }
}

/// The protocol address an entry names: its own, else the requester's.
pub open spec fn entry_proto(h: CommonHeaderModel, c: CieModel) -> Seq<u8> {
    if c.client_proto_addr.len() == 0 {
        h.src_proto_addr
    } else {
        c.client_proto_addr
    }
}

/// Every entry names an IPv4 or IPv6 protocol address, its own or the
/// requester's.
pub open spec fn entries_keyed(h: CommonHeaderModel, l: Seq<CieModel>) -> bool {
    forall|i: int| 0 <= i < l.len() ==> is_peer_key(entry_proto(h, #[trigger] l[i]))
}

/// The table after binding the addresses of each entry in turn.
pub open spec fn register_entries(t: PeerMap, h: CommonHeaderModel, l: Seq<CieModel>) -> PeerMap
    decreases l.len(),
{
    if l.len() == 0 {
        t
    } else {
        register_entries(t, h, l.drop_last()).insert(entry_proto(h, l.last()), entry_nbma(h, l.last()))
    }
}

/// The table after dropping the protocol address of each entry in turn.
pub open spec fn purge_entries(t: PeerMap, h: CommonHeaderModel, l: Seq<CieModel>) -> PeerMap
    decreases l.len(),
{
    if l.len() == 0 {
        t
    } else {
        purge_entries(t, h, l.drop_last()).remove(entry_proto(h, l.last()))
    }
}

/// A change that the kernel neighbour table is to follow.
#[derive(Debug, PartialEq, Eq, Clone)]
pub enum NeighbourAction {
    /// Add or replace a reachable neighbour.
    Install { proto_addr: Vec<u8>, nbma_addr: Vec<u8> },
    /// Remove a neighbour.
    Remove { proto_addr: Vec<u8> },
}

/// Mathematical value of a neighbour table change.
pub enum NeighbourActionModel {
    Install { proto_addr: Seq<u8>, nbma_addr: Seq<u8> },
    Remove { proto_addr: Seq<u8> },
}

impl View for NeighbourAction {
    type V = NeighbourActionModel;

    open spec fn view(&self) -> NeighbourActionModel {
        match self {
            NeighbourAction::Install { proto_addr, nbma_addr } => NeighbourActionModel::Install {
                proto_addr: proto_addr@,
                nbma_addr: nbma_addr@,
            },
            NeighbourAction::Remove { proto_addr } => NeighbourActionModel::Remove {
                proto_addr: proto_addr@,
            },
        }
    }
}

/// The changes as mathematical values.
pub open spec fn action_models(l: Seq<NeighbourAction>) -> Seq<NeighbourActionModel> {
    l.map_values(|a: NeighbourAction| a@)
}

/// One install per entry, in order.
pub open spec fn install_actions(h: CommonHeaderModel, l: Seq<CieModel>) -> Seq<NeighbourActionModel> {
    l.map_values(
        |c: CieModel|
            NeighbourActionModel::Install { proto_addr: entry_proto(h, c), nbma_addr: entry_nbma(h, c) },
    )
}

/// One removal per entry, in order.
pub open spec fn remove_actions(h: CommonHeaderModel, l: Seq<CieModel>) -> Seq<NeighbourActionModel> {
    l.map_values(|c: CieModel| NeighbourActionModel::Remove { proto_addr: entry_proto(h, c) })
}

/// Reply to a registration: the first entry echoed with code 0, the
/// request id kept, protocol addresses swapped, the unique bit kept.
pub open spec fn registration_reply(h: CommonHeaderModel, first: CieModel) -> OperationModel {
    OperationModel::RegistrationReply(
        CommonHeaderModel {
            flags: if h.flags >= 0x8000 {
                0x8000
            } else {
                0
            },
            request_id: h.request_id,
            src_nbma_addr: h.src_nbma_addr,
            src_nbma_saddr: Seq::empty(),
            src_proto_addr: h.dst_proto_addr,
            dst_proto_addr: h.src_proto_addr,
        },
        CieModel { code: 0, ..first },
    )
}

/// Reply to a resolution: one entry with the binding of the destination
/// protocol address, or a negative entry when there is none.
pub open spec fn resolution_reply(t: PeerMap, h: CommonHeaderModel, c: Option<CieModel>) -> OperationModel {
    let holding_time: u16 = match c {
        Some(c) => c.holding_time,
        None => 0,
    };
    let prefix_len: u8 = match c {
        Some(c) => c.prefix_len,
        None => 0,
    };
    let header = CommonHeaderModel {
        flags: resolution_flags(h.flags >= 0x8000, true, (h.flags / 0x1000) % 2 == 1, true, true),
        request_id: h.request_id,
        src_nbma_addr: h.src_nbma_addr,
        src_nbma_saddr: Seq::empty(),
        src_proto_addr: h.dst_proto_addr,
        dst_proto_addr: h.src_proto_addr,
    };
    let entry = if t.contains_key(h.dst_proto_addr) {
        CieModel {
            code: 0,
            prefix_len,
            mtu: 0,
            holding_time,
            preference: 0,
            client_nbma_addr: t[h.dst_proto_addr],
            client_nbma_saddr: Seq::empty(),
            client_proto_addr: h.dst_proto_addr,
        }
    } else {
        CieModel {
            code: 12,
            prefix_len: 0,
            mtu: 0,
            holding_time: 0,
            preference: 0,
            client_nbma_addr: Seq::empty(),
            client_nbma_saddr: Seq::empty(),
            client_proto_addr: Seq::empty(),
        }
    };
    OperationModel::ResolutionReply(header, seq![entry])
}

/// What serving a request does: the reply, the table afterwards and the
/// neighbour changes.  Only registration, purge and resolution requests
/// are served; a registration without entries, or with an entry whose
/// protocol address is neither IPv4 nor IPv6, is refused.
pub open spec fn route_spec(t: PeerMap, op: OperationModel) -> Result<
    (OperationModel, PeerMap, Seq<NeighbourActionModel>),
    Error,
> {
    match op {
        OperationModel::RegistrationRequest(h, l) => if l.len() == 0 || !entries_keyed(h, l) {
            Err(Error::Invalid)
        } else {
            Ok((registration_reply(h, l[0]), register_entries(t, h, l), install_actions(h, l)))
        },
        OperationModel::PurgeRequest(h, l) => Ok(
            (OperationModel::PurgeReply(h, l), purge_entries(t, h, l), remove_actions(h, l)),
        ),
        OperationModel::ResolutionRequest(h, c) => Ok(
            (resolution_reply(t, h, c), t, Seq::empty()),
        ),
        _ => Err(Error::NotImplemented),
    }
}

/// The reply message: the request's fixed header with the reply's
/// operation type, the reply operation, and no extensions.
pub open spec fn reply_message(request: FixedHeaderModel, reply: OperationModel) -> MessageModel {
    MessageModel {
        header: FixedHeaderModel { optype: reply.optype(), ..request },
        operation: reply,
        extensions: Seq::empty(),
    }
}

/// A reply ready to be sent.
pub struct Reply {
    /// The reply message.
    pub message: NhrpMessage,
    /// The NBMA address to send it to: the request's source.
    pub destination: Vec<u8>,
    /// Neighbour table changes, to be made after the table was updated.
    pub actions: Vec<NeighbourAction>,
}

fn select<'a>(own: &'a Vec<u8>, fallback: &'a Vec<u8>) -> (r: &'a Vec<u8>)
    ensures
        r@ == if own@.len() == 0 {
            fallback@
        } else {
            own@
        },
{
    if own.len() == 0 {
        fallback
    } else {
        own
    }
}

/// Serves requests against the peer table.
pub struct NhrpHandler {
    peers: PeerTable,
}

impl View for NhrpHandler {
    type V = PeerMap;

    closed spec fn view(&self) -> PeerMap {
        self.peers@
    }
}

impl NhrpHandler {
    pub closed spec fn wf(&self) -> bool {
        self.peers.wf()
    }

    /// A handler with an empty peer table.
    pub fn new() -> (r: NhrpHandler)
        ensures
            r.wf(),
            r@ == PeerMap::empty(),
    {
        NhrpHandler { peers: PeerTable::new() }
    }

    /// The NBMA address bound to a protocol address.
    pub fn lookup(&self, proto_addr: &[u8]) -> (r: Option<Vec<u8>>)
        requires
            self.wf(),
        ensures
            match r {
                Some(v) => self@.contains_key(proto_addr@) && self@[proto_addr@] == v@,
                None => !self@.contains_key(proto_addr@),
            },
    {
        self.peers.get(proto_addr)
    }

    /// Number of bindings, saturating at the largest `usize`.
    pub fn peer_count(&self) -> (r: usize)
        requires
            self.wf(),
        ensures
            r == if self@.len() > usize::MAX {
                usize::MAX as nat
            } else {
                self@.len()
            },
    {
        self.peers.len()
    }

    /// Binds the addresses of every entry and answers with the first entry.
    pub fn on_registration_request(&mut self, msg: RegistrationRequestMessage) -> (r: Result<
        (RegistrationReplyMessage, Vec<NeighbourAction>),
        Error,
    >)
        requires
            old(self).wf(),
        ensures
            final(self).wf(),
            match route_spec(old(self)@, OperationModel::RegistrationRequest(msg@.0, msg@.1)) {
                Ok((reply, t, acts)) => match r {
                    Ok((m, a)) => OperationModel::RegistrationReply(m@.0, m@.1) == reply
                        && final(self)@ == t && action_models(a@) == acts,
                    Err(_) => false,
                },
                Err(e) => r == Err::<(RegistrationReplyMessage, Vec<NeighbourAction>), Error>(e)
                    && final(self)@ == old(self)@,
            },
    {
        let (hdr, cies) = msg.into_parts();
        if cies.len() == 0 {
            return Err(Error::Invalid);
        }
        let ghost h = hdr@;
        let ghost l = cie_models(cies@);
        let ghost start = self@;
        let mut j: usize = 0;
        while j < cies.len()
            invariant
                h == hdr@,
                l == cie_models(cies@),
                j <= cies@.len(),
                h == msg@.0,
                l == msg@.1,
                self.wf(),
                self@ == start,
                forall|k: int| 0 <= k < j ==> is_peer_key(entry_proto(h, #[trigger] l[k])),
            decreases cies@.len() - j,
        {
            let proto = select(&cies[j].client_proto_addr, &hdr.src_proto_addr);
            assert(l[j as int] == cies@[j as int]@);
            if proto.len() != 4 && proto.len() != 16 {
                assert(!is_peer_key(entry_proto(h, l[j as int])));
                assert(!entries_keyed(h, l));
                assert(msg@.0 == h && msg@.1 == l);
                return Err(Error::Invalid);
            }
            j = j + 1;
        }
        let mut actions: Vec<NeighbourAction> = Vec::new();
        let mut i: usize = 0;
        assert(l.take(0) =~= Seq::<CieModel>::empty());
        assert(action_models(actions@) =~= install_actions(h, l.take(0)));
        while i < cies.len()
            invariant
                self.wf(),
                h == hdr@,
                l == cie_models(cies@),
                i <= cies@.len(),
                entries_keyed(h, l),
                self@ == register_entries(start, h, l.take(i as int)),
                action_models(actions@) == install_actions(h, l.take(i as int)),
                actions@.len() == i,
            decreases cies@.len() - i,
        {
            let c = &cies[i];
            let nbma = select(&c.client_nbma_addr, &hdr.src_nbma_addr);
            let proto = select(&c.client_proto_addr, &hdr.src_proto_addr);
            assert(l[i as int] == cies@[i as int]@);
            self.peers.insert(proto.as_slice(), nbma.as_slice());
            let ghost before = actions@;
            actions.push(
                NeighbourAction::Install {
                    proto_addr: vstd::slice::slice_to_vec(proto.as_slice()),
                    nbma_addr: vstd::slice::slice_to_vec(nbma.as_slice()),
                },
            );
            proof {
                assert(l[i as int] == cies@[i as int]@);
                assert(l.take(i + 1).drop_last() =~= l.take(i as int));
                assert(l.take(i + 1).last() == l[i as int]);
                assert forall|j: int| 0 <= j < i + 1 implies action_models(actions@)[j]
                    == install_actions(h, l.take(i + 1))[j] by {
                    if j < i {
                        assert(actions@[j] == before[j]);
                        assert(action_models(before)[j] == install_actions(h, l.take(i as int))[j]);
                    }
                }
                assert(action_models(actions@) =~= install_actions(h, l.take(i + 1)));
            }
            i = i + 1;
        }
        assert(l.take(i as int) =~= l);
        let first = cies[0].duplicate();
        let reply = RegistrationReplyMessage::new(
            hdr.request_id,
            RegistrationCode::Success,
            first,
            vstd::slice::slice_to_vec(hdr.src_nbma_addr.as_slice()),
            vstd::slice::slice_to_vec(hdr.dst_proto_addr.as_slice()),
            vstd::slice::slice_to_vec(hdr.src_proto_addr.as_slice()),
            hdr.flags >= FLAG_REQUESTER_ROUTER,
        );
        assert(l[0] == cies@[0]@);
        Ok((reply, actions))
    }

    /// Drops the binding of every entry and echoes the request.
    pub fn on_purge_request(&mut self, msg: PurgeMessage) -> (r: (PurgeMessage, Vec<NeighbourAction>))
        requires
            old(self).wf(),
        ensures
            final(self).wf(),
            match route_spec(old(self)@, OperationModel::PurgeRequest(msg@.0, msg@.1)) {
                Ok((reply, t, acts)) => OperationModel::PurgeReply(r.0@.0, r.0@.1) == reply
                    && final(self)@ == t && action_models(r.1@) == acts,
                Err(_) => false,
            },
    {
        let ghost h = msg.header@;
        let ghost l = cie_models(msg.cie@);
        let ghost start = self@;
        let mut actions: Vec<NeighbourAction> = Vec::new();
        let mut i: usize = 0;
        assert(l.take(0) =~= Seq::<CieModel>::empty());
        assert(action_models(actions@) =~= remove_actions(h, l.take(0)));
        while i < msg.cie.len()
            invariant
                self.wf(),
                h == msg.header@,
                l == cie_models(msg.cie@),
                i <= msg.cie@.len(),
                self@ == purge_entries(start, h, l.take(i as int)),
                action_models(actions@) == remove_actions(h, l.take(i as int)),
                actions@.len() == i,
            decreases msg.cie@.len() - i,
        {
            let c = &msg.cie[i];
            let proto = select(&c.client_proto_addr, &msg.header.src_proto_addr);
            self.peers.remove(proto.as_slice());
            let ghost before = actions@;
            actions.push(
                NeighbourAction::Remove { proto_addr: vstd::slice::slice_to_vec(proto.as_slice()) },
            );
            proof {
                assert(l[i as int] == msg.cie@[i as int]@);
                assert(l.take(i + 1).drop_last() =~= l.take(i as int));
                assert(l.take(i + 1).last() == l[i as int]);
                assert forall|j: int| 0 <= j < i + 1 implies action_models(actions@)[j]
                    == remove_actions(h, l.take(i + 1))[j] by {
                    if j < i {
                        assert(actions@[j] == before[j]);
                        assert(action_models(before)[j] == remove_actions(h, l.take(i as int))[j]);
                    }
                }
                assert(action_models(actions@) =~= remove_actions(h, l.take(i + 1)));
            }
            i = i + 1;
        }
        assert(l.take(i as int) =~= l);
        (msg, actions)
    }

    /// Answers with the binding of the requested protocol address.
    pub fn on_resolution_request(&self, msg: &ResolutionRequestMessage) -> (r: ResolutionReplyMessage)
        requires
            self.wf(),
        ensures
            OperationModel::ResolutionReply(r@.0, r@.1) == resolution_reply(self@, msg@.0, msg@.1),
    {
        let h = &msg.header;
        let (holding_time, prefix_len) = match &msg.cie {
            Some(c) => (c.holding_time, c.prefix_len),
            None => (0u16, 0u8),
        };
        let f1: u16 = if h.flags >= FLAG_REQUESTER_ROUTER { FLAG_REQUESTER_ROUTER } else { 0 };
        let f4: u16 = if (h.flags / 0x1000) % 2 == 1 { FLAG_UNIQUE } else { 0 };
        let header = CommonHeader {
            flags: f1 + FLAG_AUTHORITATIVE + FLAG_DST_STABLE + f4 + FLAG_SRC_STABLE,
            request_id: h.request_id,
            src_nbma_addr: vstd::slice::slice_to_vec(h.src_nbma_addr.as_slice()),
            src_nbma_saddr: Vec::new(),
            src_proto_addr: vstd::slice::slice_to_vec(h.dst_proto_addr.as_slice()),
            dst_proto_addr: vstd::slice::slice_to_vec(h.src_proto_addr.as_slice()),
        };
        let entry = match self.peers.get(h.dst_proto_addr.as_slice()) {
            Some(nbma) => ClientInformationEntry {
                code: ResolutionCode::Success.to_u8(),
                prefix_len,
                mtu: 0,
                holding_time,
                preference: 0,
                client_nbma_addr: nbma,
                client_nbma_saddr: Vec::new(),
                client_proto_addr: vstd::slice::slice_to_vec(h.dst_proto_addr.as_slice()),
            },
            None => ClientInformationEntry {
                code: ResolutionCode::NoBindingExists.to_u8(),
                prefix_len: 0,
                mtu: 0,
                holding_time: 0,
                preference: 0,
                client_nbma_addr: Vec::new(),
                client_nbma_saddr: Vec::new(),
                client_proto_addr: Vec::new(),
            },
        };
        let mut cie: Vec<ClientInformationEntry> = Vec::new();
        cie.push(entry);
        let r = ResolutionReplyMessage { header, cie };
        assert(cie_models(r.cie@) =~= seq![r.cie@[0]@]);
        r
    }

    /// Hands a request to the handler of its type.
    pub fn route(&mut self, op: Operation) -> (r: Result<(Operation, Vec<NeighbourAction>), Error>)
        requires
            old(self).wf(),
        ensures
            final(self).wf(),
            match route_spec(old(self)@, op@) {
                Ok((reply, t, acts)) => match r {
                    Ok((o, a)) => o@ == reply && final(self)@ == t && action_models(a@) == acts,
                    Err(_) => false,
                },
                Err(e) => r == Err::<(Operation, Vec<NeighbourAction>), Error>(e) && final(self)@
                    == old(self)@,
            },
    {
        match op {
            Operation::RegistrationRequest(m) => match self.on_registration_request(m) {
                Ok((reply, actions)) => Ok((Operation::RegistrationReply(reply), actions)),
                Err(e) => Err(e),
            },
            Operation::PurgeRequest(m) => {
                let (reply, actions) = self.on_purge_request(m);
                Ok((Operation::PurgeReply(reply), actions))
            },
            Operation::ResolutionRequest(m) => {
                let reply = self.on_resolution_request(&m);
                let actions: Vec<NeighbourAction> = Vec::new();
                assert(action_models(actions@) =~= Seq::<NeighbourActionModel>::empty());
                Ok((Operation::ResolutionReply(reply), actions))
            },
            _ => Err(Error::NotImplemented),
        }
    }

    /// Serves one received message: the reply goes back to the source
    /// NBMA address, with the request's fixed header and no extensions.
    pub fn handle_message(&mut self, msg: NhrpMessage, source: Vec<u8>) -> (r: Result<Reply, Error>)
        requires
            old(self).wf(),
        ensures
            final(self).wf(),
            match route_spec(old(self)@, msg@.operation) {
                Ok((reply, t, acts)) => match r {
                    Ok(out) => out.message@ == reply_message(msg@.header, reply)
                        && out.destination@ == source@ && action_models(out.actions@) == acts
                        && final(self)@ == t,
                    Err(_) => false,
                },
                Err(e) => r is Err && r->Err_0 == e && final(self)@ == old(self)@,
            },
    {
        let (header, operation, _extensions) = msg.into_parts();
        match self.route(operation) {
            Ok((reply, actions)) => {
                let reply_header = FixedHeader {
                    afn: header.afn,
                    protocol_type: header.protocol_type,
                    hopcount: header.hopcount,
                    optype: reply.optype(),
                };
                let message = NhrpMessage {
                    header: reply_header,
                    operation: reply,
                    extensions: Vec::new(),
                };
                assert(message@.extensions =~= Seq::<crate::extension::ExtensionModel>::empty());
                Ok(Reply { message, destination: source, actions })
            },
            Err(e) => Err(e),
        }
    }
}

} // verus!

verus! {

/// A registered entry that no later entry rebinds is bound to its NBMA address.
proof fn lemma_register_entries_get(t: PeerMap, h: CommonHeaderModel, l: Seq<CieModel>, i: int)
    requires
        0 <= i < l.len(),
        forall|j: int| i < j < l.len() ==> entry_proto(h, #[trigger] l[j]) != entry_proto(h, l[i]),
    ensures
        register_entries(t, h, l).contains_key(entry_proto(h, l[i])),
        register_entries(t, h, l)[entry_proto(h, l[i])] == entry_nbma(h, l[i]),
    decreases l.len(),
{
    if i < l.len() - 1 {
        let l2 = l.drop_last();
        assert(l2[i] == l[i]);
        assert forall|j: int| i < j < l2.len() implies entry_proto(h, #[trigger] l2[j]) != entry_proto(
            h,
            l2[i],
        ) by {
            assert(l2[j] == l[j]);
        }
        lemma_register_entries_get(t, h, l2, i);
        assert(entry_proto(h, l.last()) != entry_proto(h, l[i]));
    }
}

/// Registering is overriding the table with the bindings of the entries.
proof fn lemma_register_entries_union(t: PeerMap, h: CommonHeaderModel, l: Seq<CieModel>)
    ensures
        register_entries(t, h, l) == t.union_prefer_right(register_entries(PeerMap::empty(), h, l)),
    decreases l.len(),
{
    if l.len() == 0 {
        assert(t.union_prefer_right(PeerMap::empty()) =~= t);
    } else {
        lemma_register_entries_union(t, h, l.drop_last());
        assert(register_entries(t, h, l) =~= t.union_prefer_right(
            register_entries(PeerMap::empty(), h, l),
        ));
    }
}

/// A protocol address is bound after a purge exactly when it was bound
/// before and no entry names it; its binding is the one it had.
proof fn lemma_purge_entries_pointwise(
    t: PeerMap,
    h: CommonHeaderModel,
    l: Seq<CieModel>,
    k: Seq<u8>,
)
    ensures
        purge_entries(t, h, l).contains_key(k) == (t.contains_key(k) && forall|j: int|
            0 <= j < l.len() ==> entry_proto(h, #[trigger] l[j]) != k),
        purge_entries(t, h, l).contains_key(k) ==> purge_entries(t, h, l)[k] == t[k],
    decreases l.len(),
{
    if l.len() > 0 {
        let l2 = l.drop_last();
        lemma_purge_entries_pointwise(t, h, l2, k);
        if purge_entries(t, h, l).contains_key(k) {
            assert forall|j: int| 0 <= j < l.len() implies entry_proto(h, #[trigger] l[j]) != k by {
                if j < l.len() - 1 {
                    assert(l2[j] == l[j]);
                }
            }
        }
        if t.contains_key(k) && forall|j: int| 0 <= j < l.len() ==> entry_proto(h, #[trigger] l[j]) != k {
            assert forall|j: int| 0 <= j < l2.len() implies entry_proto(h, #[trigger] l2[j]) != k by {
                assert(l2[j] == l[j]);
            }
            assert(entry_proto(h, l[l.len() - 1]) != k);
        }
    }
}

/// Once a registration has been served, resolving the protocol address of
/// any of its entries that no later entry rebinds answers Success with
/// that entry's NBMA address.
pub proof fn lemma_register_then_resolve(
    t: PeerMap,
    h: CommonHeaderModel,
    l: Seq<CieModel>,
    i: int,
    q: CommonHeaderModel,
    qc: Option<CieModel>,
)
    requires
        0 <= i < l.len(),
        entries_keyed(h, l),
        forall|j: int| i < j < l.len() ==> entry_proto(h, #[trigger] l[j]) != entry_proto(h, l[i]),
        q.dst_proto_addr == entry_proto(h, l[i]),
    ensures
        route_spec(t, OperationModel::RegistrationRequest(h, l)) is Ok,
        ({
            let t2 = route_spec(t, OperationModel::RegistrationRequest(h, l))->Ok_0.1;
            match route_spec(t2, OperationModel::ResolutionRequest(q, qc)) {
                Ok((OperationModel::ResolutionReply(_, es), _, _)) => es.len() == 1 && es[0].code
                    == ResolutionCode::Success.value() && es[0].client_nbma_addr == entry_nbma(h, l[i])
                    && es[0].client_proto_addr == entry_proto(h, l[i]),
                _ => false,
            }
        }),
{
    lemma_register_entries_get(t, h, l, i);
}

/// Once a purge has been served, resolving the protocol address of any of
/// its entries answers NoBindingExists with null addresses.
pub proof fn lemma_purge_then_resolve(
    t: PeerMap,
    h: CommonHeaderModel,
    l: Seq<CieModel>,
    i: int,
    q: CommonHeaderModel,
    qc: Option<CieModel>,
)
    requires
        0 <= i < l.len(),
        q.dst_proto_addr == entry_proto(h, l[i]),
    ensures
        route_spec(t, OperationModel::PurgeRequest(h, l)) is Ok,
        ({
            let t2 = route_spec(t, OperationModel::PurgeRequest(h, l))->Ok_0.1;
            match route_spec(t2, OperationModel::ResolutionRequest(q, qc)) {
                Ok((OperationModel::ResolutionReply(_, es), _, _)) => es.len() == 1 && es[0].code
                    == ResolutionCode::NoBindingExists.value() && es[0].client_nbma_addr.len() == 0
                    && es[0].client_proto_addr.len() == 0,
                _ => false,
            }
        }),
{
    lemma_purge_entries_pointwise(t, h, l, entry_proto(h, l[i]));
}

/// Serving a request a second time, on the table the first time left,
/// gives the same reply and neighbour changes and leaves that table as it is.
pub proof fn lemma_route_repeat(t: PeerMap, op: OperationModel)
    requires
        route_spec(t, op) is Ok,
    ensures
        route_spec(route_spec(t, op)->Ok_0.1, op) == route_spec(t, op),
{
    let t2 = route_spec(t, op)->Ok_0.1;
    match op {
        OperationModel::RegistrationRequest(h, l) => {
            let u = register_entries(PeerMap::empty(), h, l);
            lemma_register_entries_union(t, h, l);
            lemma_register_entries_union(t2, h, l);
            assert(t.union_prefer_right(u).union_prefer_right(u) =~= t.union_prefer_right(u));
        },
        OperationModel::PurgeRequest(h, l) => {
            assert forall|k: Seq<u8>| #[trigger] purge_entries(t2, h, l).contains_key(k)
                == t2.contains_key(k) by {
                lemma_purge_entries_pointwise(t2, h, l, k);
                lemma_purge_entries_pointwise(t, h, l, k);
            }
            assert forall|k: Seq<u8>| #[trigger] purge_entries(t2, h, l).contains_key(k) implies purge_entries(
                t2,
                h,
                l,
            )[k] == t2[k] by {
                lemma_purge_entries_pointwise(t2, h, l, k);
            }
            assert(purge_entries(t2, h, l) =~= t2);
        },
        _ => {},
    }
}

} // verus!
