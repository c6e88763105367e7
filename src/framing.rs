//! Datagram framing: one message per datagram in each direction.  The
//! socket work is done by the caller; these are the decisions around it.

use vstd::prelude::*;
use crate::error::Error;
use crate::message::{MessageModel, NhrpMessage, message_bytes, parse_message};
use crate::traits::Emitable;

verus! {

/// Decodes and encodes whole messages.
pub struct NhrpCodec {}

impl NhrpCodec {
    pub fn new() -> (r: NhrpCodec) {
        NhrpCodec {  }
    }

    /// Decodes the message that is exactly the datagram `src`.
    pub fn decode(&mut self, src: &[u8]) -> (r: Result<NhrpMessage, Error>)
        ensures
            match r {
                Ok(m) => parse_message(src@) == Ok::<MessageModel, Error>(m@),
                Err(e) => parse_message(src@) == Err::<MessageModel, Error>(e),
            },
    {
        NhrpMessage::from_bytes(src)
    }

    /// Appends the octets of `msg` to `buf`.
    pub fn encode(&mut self, msg: &NhrpMessage, buf: &mut Vec<u8>)
        requires
            msg@.wf(),
        ensures
            final(buf)@ == old(buf)@ + message_bytes(msg@),
    {
        msg.write_to(buf)
    }
}

/// The datagram waiting to be written and where it goes; none once flushed.
pub struct SinkModel {
    pub pending: Option<(Seq<u8>, Seq<u8>)>,
}

/// Offering a message: taken only when nothing is pending, and then the
/// pending datagram is the whole message.
pub open spec fn sink_start(s: SinkModel, m: MessageModel, dst: Seq<u8>) -> (SinkModel, bool) {
    match s.pending {
        Some(_) => (s, false),
        None => (SinkModel { pending: Some((message_bytes(m), dst)) }, true),
    }
}

/// The socket wrote `written` octets of the pending datagram: the sink is
/// flushed, and a short write is an error.
pub open spec fn sink_flush(s: SinkModel, written: nat) -> (SinkModel, Result<(), Error>) {
    match s.pending {
        None => (s, Ok(())),
        Some((d, _)) => (
            SinkModel { pending: None },
            if written == d.len() {
                Ok(())
            } else {
                Err(Error::Io)
            },
        ),
    }
}

/// Outcome of offering a message to the sink.
pub enum StartSend {
    /// The message is now the pending datagram.
    Ready,
    /// A datagram is still pending; the message and destination come back.
    NotReady(NhrpMessage, Vec<u8>),
}

/// The sending side of the framed transport: at most one datagram pending.
pub struct NhrpFramed {
    wr: Vec<u8>,
    out_addr: Vec<u8>,
    flushed: bool,
}

impl View for NhrpFramed {
    type V = SinkModel;

    closed spec fn view(&self) -> SinkModel {
        SinkModel {
            pending: if self.flushed {
                None
            } else {
                Some((self.wr@, self.out_addr@))
            },
        }
    }
}

impl NhrpFramed {
    /// A flushed sink.
    pub fn new() -> (r: NhrpFramed)
        ensures
            r@.pending is None,
    {
        NhrpFramed { wr: Vec::new(), out_addr: Vec::new(), flushed: true }
    }

    /// Whether no datagram is pending.
    pub fn is_flushed(&self) -> (r: bool)
        ensures
            r == (self@.pending is None),
    {
        self.flushed
    }

    /// The pending datagram and its destination.
    pub fn pending(&self) -> (r: Option<(&[u8], &[u8])>)
        ensures
            match self@.pending {
                Some((d, a)) => r is Some && r->Some_0.0@ == d && r->Some_0.1@ == a,
                None => r is None,
            },
    {
        if self.flushed {
            None
        } else {
            Some((self.wr.as_slice(), self.out_addr.as_slice()))
        }
    }

    /// Offers a message for `dst`; it is encoded whole into one datagram,
    /// or handed back when a datagram is still pending.
    pub fn start_send(&mut self, msg: NhrpMessage, dst: Vec<u8>) -> (r: StartSend)
        requires
            msg@.wf(),
        ensures
            (final(self)@, r is Ready) == sink_start(old(self)@, msg@, dst@),
            match r {
                StartSend::NotReady(m, d) => m == msg && d == dst,
                StartSend::Ready => true,
            },
    {
        if !self.flushed {
            return StartSend::NotReady(msg, dst);
        }
        let mut wr: Vec<u8> = Vec::new();
        NhrpCodec::new().encode(&msg, &mut wr);
        assert(wr@ =~= message_bytes(msg@));
        self.wr = wr;
        self.out_addr = dst;
        self.flushed = false;
        StartSend::Ready
    }

    /// Records that the socket wrote `written` octets of the pending
    /// datagram.
    pub fn poll_complete(&mut self, written: usize) -> (r: Result<(), Error>)
        ensures
            (final(self)@, r) == sink_flush(old(self)@, written as nat),
    {
        if self.flushed {
            return Ok(());
        }
        let wrote_all = written == self.wr.len();
        self.wr = Vec::new();
        self.flushed = true;
        if wrote_all {
            Ok(())
        } else {
            Err(Error::Io)
        }
    }
}

/// One message per datagram: a message offered to a flushed sink becomes
/// a pending datagram that decodes to exactly that message and is as long
/// as the message declares; a second message offered before the flush is
/// refused and leaves the pending datagram alone.
pub proof fn lemma_one_datagram_per_message(
    s: SinkModel,
    m1: MessageModel,
    d1: Seq<u8>,
    m2: MessageModel,
    d2: Seq<u8>,
)
    requires
        s.pending is None,
        m1.wf(),
    ensures
        ({
            let (after_first, taken1) = sink_start(s, m1, d1);
            let (after_second, taken2) = sink_start(after_first, m2, d2);
            &&& taken1
            &&& after_first.pending == Some((message_bytes(m1), d1))
            &&& parse_message(message_bytes(m1)) == Ok::<MessageModel, Error>(m1)
            &&& crate::buffer::pktsize_of(message_bytes(m1)) == message_bytes(m1).len()
            &&& !taken2
            &&& after_second == after_first
        }),
{
    crate::message::lemma_parse_emit(m1);
    crate::message::lemma_emit_length(m1);
}

} // verus!
