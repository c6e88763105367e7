//! Big-endian octet fields and the helpers that read and write them.

use vstd::prelude::*;

verus! {

/// The big-endian 16-bit value of the octets at `i` and `i + 1`.
pub open spec fn be16(b: Seq<u8>, i: int) -> u16 {
    (b[i] as int * 256 + b[i + 1] as int) as u16
}

/// The big-endian 32-bit value of the four octets starting at `i`.
pub open spec fn be32(b: Seq<u8>, i: int) -> u32 {
    (b[i] as int * 0x1000000 + b[i + 1] as int * 0x10000 + b[i + 2] as int * 0x100
        + b[i + 3] as int) as u32
}

/// The two octets of `v`, most significant first.
pub open spec fn u16_octets(v: u16) -> Seq<u8> {
    seq![(v / 256) as u8, (v % 256) as u8]
}

/// The four octets of `v`, most significant first.
pub open spec fn u32_octets(v: u32) -> Seq<u8> {
    seq![(v / 0x1000000) as u8, ((v / 0x10000) % 256) as u8, ((v / 256) % 256) as u8, (v % 256) as u8]
}

pub proof fn lemma_be16_octets(v: u16, s: Seq<u8>, i: int)
    requires
        0 <= i,
        i + 2 <= s.len(),
        s[i] == u16_octets(v)[0],
        s[i + 1] == u16_octets(v)[1],
    ensures
        be16(s, i) == v,
{
}

pub proof fn lemma_be32_octets(v: u32, s: Seq<u8>, i: int)
    requires
        0 <= i,
        i + 4 <= s.len(),
        s[i] == u32_octets(v)[0],
        s[i + 1] == u32_octets(v)[1],
        s[i + 2] == u32_octets(v)[2],
        s[i + 3] == u32_octets(v)[3],
    ensures
        be32(s, i) == v,
{
    assert(v == (v / 0x1000000) * 0x1000000 + ((v / 0x10000) % 256) * 0x10000 + ((v / 256) % 256)
        * 0x100 + v % 256) by (bit_vector);
}

/// An address width the codec decodes: absent, IPv4 or IPv6.
pub open spec fn addr_width_ok(n: int) -> bool {
    n == 0 || n == 4 || n == 16
}

/// Whether `n` octets is an address width the codec decodes.
pub fn is_addr_width(n: usize) -> (r: bool)
    ensures
        r == addr_width_ok(n as int),
{
    n == 0 || n == 4 || n == 16
}

/// Reads the big-endian 16-bit field at `i`.
pub fn read_u16(b: &[u8], i: usize) -> (r: u16)
    requires
        i + 2 <= b@.len(),
    ensures
        r == be16(b@, i as int),
{
    (b[i] as u16) * 256 + (b[i + 1] as u16)
}

/// Reads the big-endian 32-bit field at `i`.
pub fn read_u32(b: &[u8], i: usize) -> (r: u32)
    requires
        i + 4 <= b@.len(),
    ensures
        r == be32(b@, i as int),
{
    (b[i] as u32) * 0x1000000 + (b[i + 1] as u32) * 0x10000 + (b[i + 2] as u32) * 0x100 + (b[i
        + 3] as u32)
}

/// Writes `v` big-endian over the octets at `i` and `i + 1`.
pub fn write_u16(b: &mut Vec<u8>, i: usize, v: u16)
    requires
        i + 2 <= old(b)@.len(),
    ensures
        final(b)@ == old(b)@.update(i as int, u16_octets(v)[0]).update(i + 1, u16_octets(v)[1]),
{
    let _n = b.len();
    b.set(i, (v / 256) as u8);
    b.set(i + 1, (v % 256) as u8);
}

/// Writes `v` big-endian over the four octets starting at `i`.
pub fn write_u32(b: &mut Vec<u8>, i: usize, v: u32)
    requires
        i + 4 <= old(b)@.len(),
    ensures
        final(b)@ == old(b)@.update(i as int, u32_octets(v)[0]).update(i + 1, u32_octets(v)[1]).update(
            i + 2,
            u32_octets(v)[2],
        ).update(i + 3, u32_octets(v)[3]),
{
    let _n = b.len();
    b.set(i, (v / 0x1000000) as u8);
    b.set(i + 1, ((v / 0x10000) % 256) as u8);
    b.set(i + 2, ((v / 256) % 256) as u8);
    b.set(i + 3, (v % 256) as u8);
}

/// Appends `v` big-endian.
pub fn push_u16(out: &mut Vec<u8>, v: u16)
    ensures
        final(out)@ == old(out)@ + u16_octets(v),
{
    out.push((v / 256) as u8);
    out.push((v % 256) as u8);
    assert(final(out)@ =~= old(out)@ + u16_octets(v));
}

/// Appends `v` big-endian.
pub fn push_u32(out: &mut Vec<u8>, v: u32)
    ensures
        final(out)@ == old(out)@ + u32_octets(v),
{
    out.push((v / 0x1000000) as u8);
    out.push(((v / 0x10000) % 256) as u8);
    out.push(((v / 256) % 256) as u8);
    out.push((v % 256) as u8);
    assert(final(out)@ =~= old(out)@ + u32_octets(v));
}

/// Appends every octet of `bytes`.
pub fn push_octets(out: &mut Vec<u8>, bytes: &[u8])
    ensures
        final(out)@ == old(out)@ + bytes@,
{
    let ghost start = out@;
    let mut i: usize = 0;
    while i < bytes.len()
        invariant
            i <= bytes@.len(),
            out@ == start + bytes@.subrange(0, i as int),
        decreases bytes@.len() - i,
    {
        out.push(bytes[i]);
        i = i + 1;
        assert(out@ =~= start + bytes@.subrange(0, i as int));
    }
    assert(bytes@.subrange(0, i as int) =~= bytes@);
}

/// Copies the octets `b[lo..hi]` into a new vector.
pub fn copy_range(b: &[u8], lo: usize, hi: usize) -> (r: Vec<u8>)
    requires
        lo <= hi <= b@.len(),
    ensures
        r@ == b@.subrange(lo as int, hi as int),
{
    let mut r: Vec<u8> = Vec::new();
    let mut i: usize = lo;
    while i < hi
        invariant
            lo <= i <= hi,
            hi <= b@.len(),
            r@ == b@.subrange(lo as int, i as int),
        decreases hi - i,
    {
        r.push(b[i]);
        i = i + 1;
        assert(r@ =~= b@.subrange(lo as int, i as int));
    }
    r
}

/// Overwrites the first `bytes.len()` octets of `buffer` with `bytes`.
pub fn copy_to_prefix(buffer: &mut [u8], bytes: &[u8])
    requires
        bytes@.len() <= old(buffer)@.len(),
    ensures
        final(buffer)@ == bytes@ + old(buffer)@.skip(bytes@.len() as int),
{
    let ghost start = buffer@;
    let mut i: usize = 0;
    while i < bytes.len()
        invariant
            i <= bytes@.len(),
            bytes@.len() <= start.len(),
            buffer@.len() == start.len(),
            buffer@ == bytes@.subrange(0, i as int) + start.skip(i as int),
        decreases bytes@.len() - i,
    {
        buffer[i] = bytes[i];
        i = i + 1;
        assert(buffer@ =~= bytes@.subrange(0, i as int) + start.skip(i as int));
    }
    assert(bytes@.subrange(0, i as int) =~= bytes@);
}

/// Overwrites the octets starting at `off` with `value`.
pub fn write_range(b: &mut Vec<u8>, off: usize, value: &[u8])
    requires
        off + value@.len() <= old(b)@.len(),
    ensures
        final(b)@ == old(b)@.take(off as int) + value@ + old(b)@.skip(off + value@.len()),
{
    let ghost start = b@;
    let n = b.len();
    let mut i: usize = 0;
    while i < value.len()
        invariant
            n == start.len(),
            off + value@.len() <= n,
            i <= value@.len(),
            b@.len() == start.len(),
            forall|j: int|
                0 <= j < start.len() ==> #[trigger] b@[j] == if off <= j < off + i {
                    value@[j - off]
                } else {
                    start[j]
                },
        decreases value@.len() - i,
    {
        b.set(off + i, value[i]);
        i = i + 1;
    }
    assert(b@ =~= start.take(off as int) + value@ + start.skip(off + value@.len()));
}

/// Whether two octet strings are equal.
pub fn octets_eq(a: &[u8], b: &[u8]) -> (r: bool)
    ensures
        r == (a@ == b@),
{
    if a.len() != b.len() {
        return false;
    }
    let mut i: usize = 0;
    while i < a.len()
        invariant
            a@.len() == b@.len(),
            i <= a@.len(),
            forall|j: int| 0 <= j < i ==> a@[j] == b@[j],
        decreases a@.len() - i,
    {
        if a[i] != b[i] {
            return false;
        }
        i = i + 1;
    }
    assert(a@ =~= b@);
    true
}

} // verus!
