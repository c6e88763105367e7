//! Field access to the fixed header of a packet, and the packet checksum.

use vstd::prelude::*;
use crate::error::Error;
use crate::header::{NhrpOp, ProtocolClass, ProtocolType, nhrp_op_of, protocol_class_of};
use crate::wire::{be16, read_u16, u16_octets, write_u16};

verus! {

/// Octets of the fixed header; the operation body starts right after it.
pub const FIXED_HEADER_LEN: usize = 18;

/// Offset of the packet size field.
pub const PKTSIZE_OFFSET: usize = 10;

/// Offset of the checksum field.
pub const CHECKSUM_OFFSET: usize = 12;

/// Offset of the extension offset field.
pub const EXTOFFSET_OFFSET: usize = 14;

/// Declared total packet length.
pub open spec fn pktsize_of(b: Seq<u8>) -> u16 {
    be16(b, 10)
}

/// Declared offset of the first extension, 0 when there is none.
pub open spec fn extoffset_of(b: Seq<u8>) -> u16 {
    be16(b, 14)
}

/// The octets hold the fixed header and as many octets as they declare.
pub open spec fn packet_complete(b: Seq<u8>) -> bool {
    b.len() >= FIXED_HEADER_LEN && b.len() >= pktsize_of(b)
}

/// The declared length and extension offset describe a consistent layout.
pub open spec fn packet_layout_ok(b: Seq<u8>) -> bool {
    &&& pktsize_of(b) >= FIXED_HEADER_LEN
    &&& (extoffset_of(b) == 0 || FIXED_HEADER_LEN <= extoffset_of(b) <= pktsize_of(b))
}

/// End of the operation body: the extension offset, or the packet end.
pub open spec fn payload_end(b: Seq<u8>) -> int {
    if extoffset_of(b) == 0 {
        pktsize_of(b) as int
    } else {
        extoffset_of(b) as int
    }
}

/// The operation body of a packet.
pub open spec fn payload_of(b: Seq<u8>) -> Seq<u8> {
    b.subrange(FIXED_HEADER_LEN as int, payload_end(b))
}

/// The extension area of a packet; empty when the offset is 0.
pub open spec fn extensions_of(b: Seq<u8>) -> Seq<u8> {
    if extoffset_of(b) == 0 {
        Seq::empty()
    } else {
        b.subrange(extoffset_of(b) as int, pktsize_of(b) as int)
    }
}

/// Sum of the big-endian 16-bit words of `s`; an odd last octet counts as
/// the high octet of a word.
pub open spec fn word_sum(s: Seq<u8>) -> nat
    decreases s.len(),
{
    if s.len() == 0 {
        0
    } else if s.len() == 1 {
        s[0] as nat * 256
    } else {
        s[0] as nat * 256 + s[1] as nat + word_sum(s.skip(2))
    }
}

proof fn lemma_fold_step_smaller(x: nat)
    requires
        x >= 0x10000,
    ensures
        x % 0x10000 + x / 0x10000 < x,
{
    assert(x % 0x10000 + x / 0x10000 < x) by (nonlinear_arith)
        requires
            x >= 0x10000,
    ;
}

#[via_fn]
proof fn fold_carries_decreases(x: nat) {
    if x >= 0x10000 {
        lemma_fold_step_smaller(x);
    }
}

/// Adds the carries above 16 bits back in until none is left.
pub open spec fn fold_carries(x: nat) -> nat
    decreases x via fold_carries_decreases
{
    if x < 0x10000 {
        x
    } else {
        fold_carries(x % 0x10000 + x / 0x10000)
    }
}

pub proof fn lemma_fold_carries_bound(x: nat)
    ensures
        fold_carries(x) <= 0xFFFF,
    decreases x,
{
    if x >= 0x10000 {
        lemma_fold_step_smaller(x);
        lemma_fold_carries_bound(x % 0x10000 + x / 0x10000);
    }
}

/// RFC 1071 checksum of `s`: the one's complement of its folded word sum.
pub open spec fn checksum_of(s: Seq<u8>) -> u16 {
    (0xFFFF - fold_carries(word_sum(s))) as u16
}

proof fn lemma_word_sum_step(s: Seq<u8>, i: int)
    requires
        0 <= i,
        i + 2 <= s.len(),
    ensures
        word_sum(s.skip(i)) == s[i] as nat * 256 + s[i + 1] as nat + word_sum(s.skip(i + 2)),
{
    assert(s.skip(i).skip(2) =~= s.skip(i + 2));
}

/// The word sum of two pieces, the first of even length, adds up.
pub proof fn lemma_word_sum_concat(x: Seq<u8>, y: Seq<u8>)
    requires
        x.len() % 2 == 0,
    ensures
        word_sum(x + y) == word_sum(x) + word_sum(y),
    decreases x.len(),
{
    if x.len() == 0 {
        assert(x + y =~= y);
    } else {
        assert((x + y).skip(2) =~= x.skip(2) + y);
        lemma_word_sum_concat(x.skip(2), y);
    }
}

/// Folding keeps the value modulo 0xFFFF, and a positive sum folds to a
/// positive value.
pub proof fn lemma_fold_carries_mod(x: nat)
    ensures
        fold_carries(x) % 0xFFFF == x % 0xFFFF,
        x > 0 ==> fold_carries(x) > 0,
    decreases x,
{
    if x >= 0x10000 {
        let q = x / 0x10000;
        let r = x % 0x10000;
        vstd::arithmetic::div_mod::lemma_fundamental_div_mod(x as int, 0x10000);
        assert(x == 0xFFFF * q + (q + r));
        vstd::arithmetic::div_mod::lemma_mod_multiples_vanish(q as int, (q + r) as int, 0xFFFF);
        lemma_fold_step_smaller(x);
        lemma_fold_carries_mod(r + q);
    }
}

/// A packet whose checksum field holds the checksum computed with that
/// field zero has a checksum of zero when it is computed again in place.
pub proof fn lemma_checksum_self_check(p: Seq<u8>, q: Seq<u8>)
    requires
        p.len() == CHECKSUM_OFFSET,
    ensures
        checksum_of(p + u16_octets(checksum_of(p + u16_octets(0) + q)) + q) == 0,
{
    let z = p + u16_octets(0) + q;
    let c = checksum_of(z);
    let s = p + u16_octets(c) + q;
    assert(z =~= p + (u16_octets(0) + q));
    assert(s =~= p + (u16_octets(c) + q));
    lemma_word_sum_concat(p, u16_octets(0) + q);
    lemma_word_sum_concat(u16_octets(0), q);
    lemma_word_sum_concat(p, u16_octets(c) + q);
    lemma_word_sum_concat(u16_octets(c), q);
    assert(u16_octets(c).skip(2) =~= Seq::<u8>::empty());
    assert(u16_octets(0).skip(2) =~= Seq::<u8>::empty());
    assert(word_sum(u16_octets(c).skip(2)) == 0);
    vstd::arithmetic::div_mod::lemma_fundamental_div_mod(c as int, 256);
    assert(word_sum(u16_octets(c)) == c);
    assert(word_sum(u16_octets(0).skip(2)) == 0);
    assert(word_sum(u16_octets(0)) == 0);
    let sum_zeroed = word_sum(z);
    lemma_fold_carries_bound(sum_zeroed);
    lemma_fold_carries_mod(sum_zeroed);
    assert(c == 0xFFFF - fold_carries(sum_zeroed));
    assert(word_sum(s) == sum_zeroed + c);
    let sum_filled = word_sum(s);
    lemma_fold_carries_bound(sum_filled);
    lemma_fold_carries_mod(sum_filled);
    assert(sum_filled > 0);
    assert(sum_filled % 0xFFFF == 0) by {
        vstd::arithmetic::div_mod::lemma_fundamental_div_mod(sum_zeroed as int, 0xFFFF);
        vstd::arithmetic::div_mod::lemma_fundamental_div_mod(fold_carries(sum_zeroed) as int, 0xFFFF);
        vstd::arithmetic::div_mod::lemma_mod_multiples_vanish(
            (sum_zeroed / 0xFFFF - fold_carries(sum_zeroed) / 0xFFFF + 1) as int,
            0,
            0xFFFF,
        );
        assert(sum_filled == 0xFFFF * (sum_zeroed / 0xFFFF - fold_carries(sum_zeroed) / 0xFFFF + 1) + 0);
    }
    assert(fold_carries(sum_filled) == 0xFFFF);
}

/// A view of the fixed header of a packet held in a byte vector.
pub struct NhrpBuffer {
    buffer: Vec<u8>,
}

impl View for NhrpBuffer {
    type V = Seq<u8>;

    closed spec fn view(&self) -> Seq<u8> {
        self.buffer@
    }
}

impl NhrpBuffer {
    /// Wraps octets without checking them.
    pub fn new(buffer: Vec<u8>) -> (r: NhrpBuffer)
        ensures
            r@ == buffer@,
    {
        NhrpBuffer { buffer }
    }

    /// Wraps octets that hold the fixed header and the declared length.
    pub fn new_checked(buffer: Vec<u8>) -> (r: Result<NhrpBuffer, Error>)
        ensures
            match r {
                Ok(p) => p@ == buffer@ && packet_complete(buffer@),
                Err(e) => e == Error::Truncated && !packet_complete(buffer@),
            },
    {
        let packet = NhrpBuffer::new(buffer);
        match packet.check_buffer_length() {
            Ok(()) => Ok(packet),
            Err(e) => Err(e),
        }
    }

    pub(crate) fn check_buffer_length(&self) -> (r: Result<(), Error>)
        ensures
            match r {
                Ok(()) => packet_complete(self@),
                Err(e) => e == Error::Truncated && !packet_complete(self@),
            },
    {
        let len = self.buffer.len();
        if len < FIXED_HEADER_LEN || len < self.length() as usize {
            Err(Error::Truncated)
        } else {
            Ok(())
        }
    }

    /// Whether the octets hold the whole fixed header.
    pub fn has_fixed_header(&self) -> (r: bool)
        ensures
            r == (self@.len() >= FIXED_HEADER_LEN),
    {
        self.buffer.len() >= FIXED_HEADER_LEN
    }

    /// Declared length of everything after the fixed header.
    pub fn payload_length(&self) -> (r: usize)
        requires
            self@.len() >= FIXED_HEADER_LEN,
            pktsize_of(self@) >= FIXED_HEADER_LEN,
        ensures
            r == pktsize_of(self@) - FIXED_HEADER_LEN,
    {
        let total_length = self.length() as usize;
        total_length - FIXED_HEADER_LEN
    }

    pub fn into_inner(self) -> (r: Vec<u8>)
        ensures
            r@ == self@,
    {
        self.buffer
    }

    pub fn afn(&self) -> (r: u16)
        requires
            self@.len() >= FIXED_HEADER_LEN,
        ensures
            r == be16(self@, 0),
    {
        read_u16(self.buffer.as_slice(), 0)
    }

    pub fn protype(&self) -> (r: u16)
        requires
            self@.len() >= FIXED_HEADER_LEN,
        ensures
            r == be16(self@, 2),
    {
        read_u16(self.buffer.as_slice(), 2)
    }

    pub fn prosnap(&self) -> (r: [u8; 5])
        requires
            self@.len() >= FIXED_HEADER_LEN,
        ensures
            r@ == self@.subrange(4, 9),
    {
        let d = self.buffer.as_slice();
        let r = [d[4], d[5], d[6], d[7], d[8]];
        assert(r@ =~= self@.subrange(4, 9));
        r
    }

    pub fn protocol_type(&self) -> (r: ProtocolType)
        requires
            self@.len() >= FIXED_HEADER_LEN,
        ensures
            r.protype == protocol_class_of(be16(self@, 2)),
            r.prosnap@ == self@.subrange(4, 9),
    {
        let protype = ProtocolClass::from_u16(self.protype());
        ProtocolType { protype, prosnap: self.prosnap() }
    }

    pub fn hopcount(&self) -> (r: u8)
        requires
            self@.len() >= FIXED_HEADER_LEN,
        ensures
            r == self@[9],
    {
        self.buffer[9]
    }

    pub fn length(&self) -> (r: u16)
        requires
            self@.len() >= PKTSIZE_OFFSET + 2,
        ensures
            r == pktsize_of(self@),
    {
        read_u16(self.buffer.as_slice(), PKTSIZE_OFFSET)
    }

    pub fn checksum(&self) -> (r: u16)
        requires
            self@.len() >= FIXED_HEADER_LEN,
        ensures
            r == be16(self@, 12),
    {
        read_u16(self.buffer.as_slice(), CHECKSUM_OFFSET)
    }

    pub fn extoffset(&self) -> (r: u16)
        requires
            self@.len() >= FIXED_HEADER_LEN,
        ensures
            r == extoffset_of(self@),
    {
        read_u16(self.buffer.as_slice(), EXTOFFSET_OFFSET)
    }

    pub fn version(&self) -> (r: u8)
        requires
            self@.len() >= FIXED_HEADER_LEN,
        ensures
            r == self@[16],
    {
        self.buffer[16]
    }

    pub fn optype(&self) -> (r: NhrpOp)
        requires
            self@.len() >= FIXED_HEADER_LEN,
        ensures
            r == nhrp_op_of(self@[17]),
    {
        NhrpOp::from_u8(self.buffer[17])
    }

    /// RFC 1071 checksum over the declared packet length, taking the
    /// checksum field as it stands.
    pub fn calculate_checksum(&self) -> (r: u16)
        requires
            packet_complete(self@),
        ensures
            r == checksum_of(self@.take(pktsize_of(self@) as int)),
    {
        let len = self.length() as usize;
        let ghost s = self@.take(len as int);
        let data = self.buffer.as_slice();
        let mut sum: u32 = 0;
        let mut i: usize = 0;
        assert(s.skip(0) =~= s);
        while i + 1 < len
            invariant
                len <= 0xFFFF,
                len <= data@.len(),
                s == data@.take(len as int),
                i <= len,
                sum <= 0xFFFF * i,
                sum as nat + word_sum(s.skip(i as int)) == word_sum(s),
            decreases len - i,
        {
            proof {
                lemma_word_sum_step(s, i as int);
            }
            sum = sum + (data[i] as u32) * 256 + data[i + 1] as u32;
            i = i + 2;
        }
        if i < len {
            assert(s.skip(i as int).len() == 1);
            sum = sum + (data[i] as u32) * 256;
        } else {
            assert(s.skip(i as int).len() == 0);
        }
        let ghost total = sum as nat;
        while sum > 0xFFFF
            invariant
                fold_carries(sum as nat) == fold_carries(total),
            decreases sum,
        {
            proof {
                lemma_fold_step_smaller(sum as nat);
            }
            sum = sum % 0x10000 + sum / 0x10000;
        }
        (0xFFFF - sum) as u16
    }

    /// The operation body: from the end of the fixed header up to the
    /// extension offset, or up to the packet end when there are no
    /// extensions.
    pub fn payload(&self) -> (r: &[u8])
        requires
            packet_complete(self@),
            packet_layout_ok(self@),
        ensures
            r@ == payload_of(self@),
    {
        let extoff = self.extoffset() as usize;
        let end = if extoff == 0 { self.length() as usize } else { extoff };
        vstd::slice::slice_subrange(self.buffer.as_slice(), FIXED_HEADER_LEN, end)
    }

    /// The extension area: from the extension offset up to the packet end,
    /// empty when the offset is 0.
    pub fn extensions(&self) -> (r: &[u8])
        requires
            packet_complete(self@),
            packet_layout_ok(self@),
        ensures
            r@ == extensions_of(self@),
    {
        let extoff = self.extoffset() as usize;
        if extoff == 0 {
            vstd::slice::slice_subrange(self.buffer.as_slice(), 0, 0)
        } else {
            vstd::slice::slice_subrange(self.buffer.as_slice(), extoff, self.length() as usize)
        }
    }

    /// Overwrites the operation body with `value`, which has its length.
    pub fn payload_mut(&mut self, value: &[u8])
        requires
            packet_complete(old(self)@),
            packet_layout_ok(old(self)@),
            value@.len() == payload_end(old(self)@) - FIXED_HEADER_LEN,
        ensures
            final(self)@.len() == old(self)@.len(),
            final(self)@ == old(self)@.take(FIXED_HEADER_LEN as int) + value@ + old(self)@.skip(
                payload_end(old(self)@),
            ),
    {
        let ghost start = self@;
        let extoff = self.extoffset() as usize;
        let end = if extoff == 0 { self.length() as usize } else { extoff };
        let mut i: usize = 0;
        while i < value.len()
            invariant
                value@.len() == end - FIXED_HEADER_LEN,
                end <= start.len(),
                end == payload_end(start),
                i <= value@.len(),
                self@.len() == start.len(),
                forall|j: int|
                    0 <= j < start.len() ==> #[trigger] self@[j] == if FIXED_HEADER_LEN <= j
                        < FIXED_HEADER_LEN + i {
                        value@[j - FIXED_HEADER_LEN]
                    } else {
                        start[j]
                    },
            decreases value@.len() - i,
        {
            self.buffer.set(FIXED_HEADER_LEN + i, value[i]);
            i = i + 1;
        }
        assert(self@ =~= start.take(FIXED_HEADER_LEN as int) + value@ + start.skip(end as int));
    }

    /// Overwrites the extension area with `value`, which has its length.
    pub fn extensions_mut(&mut self, value: &[u8])
        requires
            packet_complete(old(self)@),
            packet_layout_ok(old(self)@),
            extoffset_of(old(self)@) != 0,
            value@.len() == pktsize_of(old(self)@) - extoffset_of(old(self)@),
        ensures
            final(self)@.len() == old(self)@.len(),
            final(self)@ == old(self)@.take(extoffset_of(old(self)@) as int) + value@ + old(
                self,
            )@.skip(pktsize_of(old(self)@) as int),
    {
        let ghost start = self@;
        let off = self.extoffset() as usize;
        let ghost end = pktsize_of(start) as int;
        let n = self.buffer.len();
        let mut i: usize = 0;
        while i < value.len()
            invariant
                n == start.len(),
                off == extoffset_of(start),
                value@.len() == end - off,
                end <= start.len(),
                i <= value@.len(),
                self@.len() == start.len(),
                forall|j: int|
                    0 <= j < start.len() ==> #[trigger] self@[j] == if off <= j < off + i {
                        value@[j - off]
                    } else {
                        start[j]
                    },
            decreases value@.len() - i,
        {
            self.buffer.set(off + i, value[i]);
            i = i + 1;
        }
        assert(self@ =~= start.take(off as int) + value@ + start.skip(end));
    }

    pub fn set_afn(&mut self, value: u16)
        requires
            old(self)@.len() >= FIXED_HEADER_LEN,
        ensures
            final(self)@ == old(self)@.update(0, u16_octets(value)[0]).update(1, u16_octets(value)[1]),
    {
        write_u16(&mut self.buffer, 0, value)
    }

    pub fn set_protype(&mut self, value: u16)
        requires
            old(self)@.len() >= FIXED_HEADER_LEN,
        ensures
            final(self)@ == old(self)@.update(2, u16_octets(value)[0]).update(3, u16_octets(value)[1]),
    {
        write_u16(&mut self.buffer, 2, value)
    }

    pub fn set_prosnap(&mut self, value: [u8; 5])
        requires
            old(self)@.len() >= FIXED_HEADER_LEN,
        ensures
            final(self)@ == old(self)@.take(4) + value@ + old(self)@.skip(9),
    {
        let ghost start = self@;
        self.buffer.set(4, value[0]);
        self.buffer.set(5, value[1]);
        self.buffer.set(6, value[2]);
        self.buffer.set(7, value[3]);
        self.buffer.set(8, value[4]);
        assert(self@ =~= start.take(4) + value@ + start.skip(9));
    }

    pub fn set_protocol_type(&mut self, value: ProtocolType)
        requires
            old(self)@.len() >= FIXED_HEADER_LEN,
            value.protype.wf(),
        ensures
            final(self)@ == old(self)@.take(2) + u16_octets(value.protype.value()) + value.prosnap@
                + old(self)@.skip(9),
    {
        let ghost start = self@;
        self.set_protype(value.protype.to_u16());
        self.set_prosnap(value.prosnap);
        assert(self@ =~= start.take(2) + u16_octets(value.protype.value()) + value.prosnap@
            + start.skip(9));
    }

    pub fn set_hopcount(&mut self, value: u8)
        requires
            old(self)@.len() >= FIXED_HEADER_LEN,
        ensures
            final(self)@ == old(self)@.update(9, value),
    {
        self.buffer.set(9, value)
    }

    pub fn set_length(&mut self, value: u16)
        requires
            old(self)@.len() >= FIXED_HEADER_LEN,
        ensures
            final(self)@ == old(self)@.update(10, u16_octets(value)[0]).update(11, u16_octets(value)[1]),
    {
        write_u16(&mut self.buffer, PKTSIZE_OFFSET, value)
    }

    pub fn set_checksum(&mut self, value: u16)
        requires
            old(self)@.len() >= FIXED_HEADER_LEN,
        ensures
            final(self)@ == old(self)@.update(12, u16_octets(value)[0]).update(13, u16_octets(value)[1]),
    {
        write_u16(&mut self.buffer, CHECKSUM_OFFSET, value)
    }

    pub fn set_extoffset(&mut self, value: u16)
        requires
            old(self)@.len() >= FIXED_HEADER_LEN,
        ensures
            final(self)@ == old(self)@.update(14, u16_octets(value)[0]).update(15, u16_octets(value)[1]),
    {
        write_u16(&mut self.buffer, EXTOFFSET_OFFSET, value)
    }

    pub fn set_version(&mut self, value: u8)
        requires
            old(self)@.len() >= FIXED_HEADER_LEN,
        ensures
            final(self)@ == old(self)@.update(16, value),
    {
        self.buffer.set(16, value)
    }

    pub fn set_optype(&mut self, value: NhrpOp)
        requires
            old(self)@.len() >= FIXED_HEADER_LEN,
        ensures
            final(self)@ == old(self)@.update(17, value.value()),
    {
        self.buffer.set(17, value.to_u8())
    }
}

} // verus!
