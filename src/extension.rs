//! Extensions: field access, iteration and the owned extension.

use vstd::prelude::*;
use crate::error::Error;
use crate::traits::{Emitable, Parseable};
use crate::wire::{be16, push_octets, push_u16, read_u16, u16_octets, write_range, write_u16};

verus! {

/// Octets of an extension header.
pub const EXTENSION_HEADER_LEN: usize = 4;

/// Extension type, by the range its 14-bit value falls in.
#[derive(Debug, PartialEq, Eq, Clone, Copy, Structural)]
pub enum ExtensionType {
    NHRP(u16),
    ATM(u16),
    IETF(u16),
    Experimental(u16),
}

/// The type that the 14-bit value `v` stands for.
pub open spec fn extension_type_of(v: u16) -> ExtensionType {
    if v <= 0x0FFF {
        ExtensionType::NHRP(v)
    } else if v <= 0x11FF {
        ExtensionType::ATM(v)
    } else if v <= 0x37FF {
        ExtensionType::IETF(v)
    } else {
        ExtensionType::Experimental(v)
    }
}

impl ExtensionType {
    /// The carried value.
    pub open spec fn value(self) -> u16 {
        match self {
            ExtensionType::NHRP(v) => v,
            ExtensionType::ATM(v) => v,
            ExtensionType::IETF(v) => v,
            ExtensionType::Experimental(v) => v,
        }
    }

    /// The carried value lies in the range of its variant.
    pub open spec fn wf(self) -> bool {
        self.value() <= 0x3FFF && extension_type_of(self.value()) == self
    }

    /// Classifies a 14-bit extension type.
    pub fn from_u16(value: u16) -> (r: ExtensionType)
        requires
            value <= 0x3FFF,
        ensures
            r == extension_type_of(value),
            r.wf(),
    {
        if value <= 0x0FFF {
            ExtensionType::NHRP(value)
        } else if value <= 0x11FF {
            ExtensionType::ATM(value)
        } else if value <= 0x37FF {
            ExtensionType::IETF(value)
        } else {
            ExtensionType::Experimental(value)
        }
    }

    pub fn to_u16(self) -> (r: u16)
        ensures
            r == self.value(),
    {
        match self {
            ExtensionType::NHRP(v) => v,
            ExtensionType::ATM(v) => v,
            ExtensionType::IETF(v) => v,
            ExtensionType::Experimental(v) => v,
        }
    }

    /// Whether this is the End-Of-Extensions type.
    pub fn is_end_of_extensions(self) -> (r: bool)
        ensures
            r == (self == ExtensionType::NHRP(0)),
    {
        match self {
            ExtensionType::NHRP(v) => v == 0,
            _ => false,
        }
    }
}

/// Mathematical value of an extension.
pub enum ExtensionModel {
    EndOfExtensions,
    Other { etype: ExtensionType, compulsory: bool, data: Seq<u8> },
}

impl ExtensionModel {
    /// An extension other than the end marker, with a well-formed, nonzero
    /// type and a payload whose length fits 16 bits.
    pub open spec fn wf(self) -> bool {
        match self {
            ExtensionModel::EndOfExtensions => true,
            ExtensionModel::Other { etype, data, .. } => etype.wf() && etype.value() != 0
                && data.len() <= 0xFFFF,
        }
    }
}

/// The first header field: compulsory bit over the 14-bit type.
pub open spec fn ext_cutype(b: Seq<u8>) -> u16 {
    be16(b, 0)
}

/// Payload length declared by the extension that starts `b`.
pub open spec fn ext_payload_len(b: Seq<u8>) -> int {
    be16(b, 2) as int
}

/// `b` starts with a whole extension.
pub open spec fn ext_complete(b: Seq<u8>) -> bool {
    b.len() >= EXTENSION_HEADER_LEN && b.len() >= EXTENSION_HEADER_LEN + ext_payload_len(b)
}

/// The extension that starts `b` has the End-Of-Extensions type.
pub open spec fn ext_is_end(b: Seq<u8>) -> bool {
    ext_cutype(b) % 0x4000 == 0
}

/// The extension that starts `b`.
pub open spec fn ext_model(b: Seq<u8>) -> ExtensionModel {
    if ext_is_end(b) {
        ExtensionModel::EndOfExtensions
    } else {
        ExtensionModel::Other {
            etype: extension_type_of(ext_cutype(b) % 0x4000),
            compulsory: ext_cutype(b) >= 0x8000,
            data: b.subrange(EXTENSION_HEADER_LEN as int, EXTENSION_HEADER_LEN + ext_payload_len(b)),
        }
    }
}

/// The extensions that iteration yields: up to and including the end
/// marker, stopping silently at an extension that is not whole.
pub open spec fn parse_ext_list(b: Seq<u8>) -> Seq<ExtensionModel>
    decreases b.len(),
{
    if b.len() == 0 || !ext_complete(b) {
        Seq::empty()
    } else if ext_is_end(b) {
        seq![ExtensionModel::EndOfExtensions]
    } else {
        seq![ext_model(b)] + parse_ext_list(b.skip(EXTENSION_HEADER_LEN + ext_payload_len(b)))
    }
}

/// The octets of an extension; the end marker is compulsory and empty.
pub open spec fn ext_bytes(e: ExtensionModel) -> Seq<u8> {
    match e {
        ExtensionModel::EndOfExtensions => u16_octets(0x8000) + u16_octets(0),
        ExtensionModel::Other { etype, compulsory, data } => u16_octets(
            (if compulsory {
                0x8000int
            } else {
                0int
            } + etype.value()) as u16,
        ) + u16_octets(data.len() as u16) + data,
    }
}

/// The octets of a list of extensions.
pub open spec fn ext_list_bytes(l: Seq<ExtensionModel>) -> Seq<u8>
    decreases l.len(),
{
    if l.len() == 0 {
        Seq::empty()
    } else {
        ext_bytes(l[0]) + ext_list_bytes(l.skip(1))
    }
}

/// A list that is empty, or ends with the one end marker it holds.
pub open spec fn exts_wf(l: Seq<ExtensionModel>) -> bool {
    l.len() == 0 || (l.last() is EndOfExtensions && forall|i: int|
        0 <= i < l.len() - 1 ==> (#[trigger] l[i]) is Other && l[i].wf())
}

proof fn lemma_ext_round_trip(e: ExtensionModel, rest: Seq<u8>)
    requires
        e.wf(),
    ensures
        ext_complete(ext_bytes(e) + rest),
        EXTENSION_HEADER_LEN + ext_payload_len(ext_bytes(e) + rest) == ext_bytes(e).len(),
        ext_is_end(ext_bytes(e) + rest) == (e is EndOfExtensions),
        ext_model(ext_bytes(e) + rest) == e,
{
    let b = ext_bytes(e) + rest;
    match e {
        ExtensionModel::EndOfExtensions => {
            crate::wire::lemma_be16_octets(0x8000, b, 0);
            crate::wire::lemma_be16_octets(0, b, 2);
        },
        ExtensionModel::Other { etype, compulsory, data } => {
            let cu = (if compulsory {
                0x8000int
            } else {
                0int
            } + etype.value()) as u16;
            crate::wire::lemma_be16_octets(cu, b, 0);
            crate::wire::lemma_be16_octets(data.len() as u16, b, 2);
            assert(cu % 0x4000 == etype.value());
            assert(b.subrange(4, 4 + data.len() as int) =~= data);
        },
    }
}

proof fn lemma_exts_wf_tail(l: Seq<ExtensionModel>)
    requires
        exts_wf(l),
        l.len() >= 2,
    ensures
        exts_wf(l.skip(1)),
        l[0] is Other,
        l[0].wf(),
{
    let tail = l.skip(1);
    assert(tail.last() == l.last());
    assert forall|i: int| 0 <= i < tail.len() - 1 implies (#[trigger] tail[i]) is Other
        && tail[i].wf() by {
        assert(tail[i] == l[i + 1]);
    }
}

/// A well-formed list of extensions reads back from its octets.
pub proof fn lemma_ext_list_round_trip(l: Seq<ExtensionModel>)
    requires
        exts_wf(l),
    ensures
        parse_ext_list(ext_list_bytes(l)) == l,
    decreases l.len(),
{
    if l.len() == 0 {
        assert(l =~= Seq::<ExtensionModel>::empty());
    } else {
        let tail = l.skip(1);
        let rest = ext_list_bytes(tail);
        let b = ext_list_bytes(l);
        assert(b == ext_bytes(l[0]) + rest);
        if l.len() == 1 {
            assert(l[0] is EndOfExtensions);
            lemma_ext_round_trip(l[0], rest);
            assert(parse_ext_list(b) == seq![ExtensionModel::EndOfExtensions]);
            assert(l =~= seq![ExtensionModel::EndOfExtensions]);
        } else {
            lemma_exts_wf_tail(l);
            lemma_ext_list_round_trip(tail);
            lemma_ext_round_trip(l[0], rest);
            let n = EXTENSION_HEADER_LEN + ext_payload_len(b);
            assert(b.skip(n) =~= rest);
            assert(parse_ext_list(b) == seq![ext_model(b)] + parse_ext_list(b.skip(n)));
            assert(seq![l[0]] + tail =~= l);
        }
    }
}

/// The octets not walked yet after `i` calls of `ExtensionIterator::next`
/// over `b`: each call moves past one whole extension, and the end marker
/// or an extension that is not whole ends the walk.
pub open spec fn ext_walk(b: Seq<u8>, i: nat) -> Seq<u8>
    decreases i,
{
    if i == 0 {
        b
    } else {
        let r = ext_walk(b, (i - 1) as nat);
        if r.len() == 0 || !ext_complete(r) || ext_is_end(r) {
            Seq::empty()
        } else {
            r.skip(EXTENSION_HEADER_LEN + ext_payload_len(r))
        }
    }
}

proof fn lemma_ext_list_bytes_skip(l: Seq<ExtensionModel>, k: int)
    requires
        0 <= k < l.len(),
    ensures
        ext_list_bytes(l.skip(k)) == ext_bytes(l[k]) + ext_list_bytes(l.skip(k + 1)),
{
    assert(l.skip(k)[0] == l[k]);
    assert(l.skip(k).skip(1) =~= l.skip(k + 1));
}

/// Walking the octets of a well-formed list: before step `i` the next
/// extension is the whole `l[i]`, and after the last one, the end
/// marker, nothing is left.
pub proof fn lemma_ext_walk_list(l: Seq<ExtensionModel>, i: nat)
    requires
        exts_wf(l),
        i <= l.len(),
    ensures
        i < l.len() ==> ext_walk(ext_list_bytes(l), i) == ext_list_bytes(l.skip(i as int))
            && ext_walk(ext_list_bytes(l), i).len() > 0 && ext_complete(
            ext_walk(ext_list_bytes(l), i),
        ) && ext_model(ext_walk(ext_list_bytes(l), i)) == l[i as int],
        i == l.len() ==> ext_walk(ext_list_bytes(l), i).len() == 0,
    decreases i,
{
    let b = ext_list_bytes(l);
    if i == 0 {
        assert(l.skip(0) =~= l);
        if l.len() > 0 {
            lemma_ext_list_bytes_skip(l, 0);
            assert(l[0].wf()) by {
                if l.len() > 1 {
                    assert(l[0] is Other && l[0].wf());
                }
            }
            lemma_ext_round_trip(l[0], ext_list_bytes(l.skip(1)));
        } else {
            assert(b =~= Seq::<u8>::empty());
        }
    } else {
        let k = (i - 1) as int;
        lemma_ext_walk_list(l, (i - 1) as nat);
        lemma_ext_list_bytes_skip(l, k);
        let wk = l[k].wf() && (k < l.len() - 1 ==> l[k] is Other);
        assert(wk) by {
            if k < l.len() - 1 {
                assert(l[k] is Other && l[k].wf());
            } else {
                assert(l[k] == l.last());
            }
        }
        lemma_ext_round_trip(l[k], ext_list_bytes(l.skip(k + 1)));
        if i < l.len() {
            lemma_ext_list_bytes_skip(l, i as int);
            assert(l[i as int].wf()) by {
                if i < l.len() - 1 {
                    assert(l[i as int] is Other && l[i as int].wf());
                } else {
                    assert(l[i as int] == l.last());
                }
            }
            lemma_ext_round_trip(l[i as int], ext_list_bytes(l.skip(i as int + 1)));
        } else {
            assert(l[k] == l.last());
        }
    }
}

/// An owned extension.
#[derive(Debug, PartialEq, Eq, Clone)]
pub enum Extension {
    EndOfExtensions,
    Other { etype: ExtensionType, compulsory: bool, data: Vec<u8> },
}

impl View for Extension {
    type V = ExtensionModel;

    open spec fn view(&self) -> ExtensionModel {
        match self {
            Extension::EndOfExtensions => ExtensionModel::EndOfExtensions,
            Extension::Other { etype, compulsory, data } => ExtensionModel::Other {
                etype: *etype,
                compulsory: *compulsory,
                data: data@,
            },
        }
    }
}

impl Extension {
    /// Payload length; the end marker has none.
    pub fn length(&self) -> (r: usize)
        ensures
            r == match self@ {
                ExtensionModel::EndOfExtensions => 0,
                ExtensionModel::Other { data, .. } => data.len(),
            },
    {
        match self {
            Extension::EndOfExtensions => 0,
            Extension::Other { data, .. } => data.len(),
        }
    }

    /// The end marker is always compulsory.
    pub fn compulsory(&self) -> (r: bool)
        ensures
            r == match self@ {
                ExtensionModel::EndOfExtensions => true,
                ExtensionModel::Other { compulsory, .. } => compulsory,
            },
    {
        match self {
            Extension::EndOfExtensions => true,
            Extension::Other { compulsory, .. } => *compulsory,
        }
    }

    pub fn etype(&self) -> (r: ExtensionType)
        ensures
            r == match self@ {
                ExtensionModel::EndOfExtensions => ExtensionType::NHRP(0),
                ExtensionModel::Other { etype, .. } => etype,
            },
    {
        match self {
            Extension::EndOfExtensions => ExtensionType::NHRP(0),
            Extension::Other { etype, .. } => *etype,
        }
    }

    pub fn data(&self) -> (r: &[u8])
        ensures
            r@ == match self@ {
                ExtensionModel::EndOfExtensions => Seq::<u8>::empty(),
                ExtensionModel::Other { data, .. } => data,
            },
    {
        match self {
            Extension::EndOfExtensions => {
                let e: &[u8] = &[];
                assert(e@ =~= Seq::<u8>::empty());
                e
            },
            Extension::Other { data, .. } => data.as_slice(),
        }
    }

    /// Whether this is the end marker, or has a well-formed, nonzero type
    /// and a payload whose length fits 16 bits.
    pub fn is_well_formed(&self) -> (r: bool)
        ensures
            r == self@.wf(),
    {
        match self {
            Extension::EndOfExtensions => true,
            Extension::Other { etype, data, .. } => {
                let v = etype.to_u16();
                v <= 0x3FFF && v != 0 && ExtensionType::from_u16(v) == *etype && data.len() <= 0xFFFF
            },
        }
    }

    /// A copy whose view is the same.
    pub fn duplicate(&self) -> (r: Extension)
        ensures
            r@ == self@,
    {
        match self {
            Extension::EndOfExtensions => Extension::EndOfExtensions,
            Extension::Other { etype, compulsory, data } => Extension::Other {
                etype: *etype,
                compulsory: *compulsory,
                data: vstd::slice::slice_to_vec(data.as_slice()),
            },
        }
    }
}

impl Emitable for Extension {
    open spec fn wire(&self) -> Seq<u8> {
        ext_bytes(self@)
    }

    open spec fn emitable(&self) -> bool {
        self@.wf()
    }

    fn write_to(&self, out: &mut Vec<u8>) {
        match self {
            Extension::EndOfExtensions => {
                push_u16(out, 0x8000);
                push_u16(out, 0);
                assert(final(out)@ =~= old(out)@ + ext_bytes(self@));
            },
            Extension::Other { etype, compulsory, data } => {
                let ghost start = out@;
                let flag: u16 = if *compulsory {
                    0x8000
                } else {
                    0
                };
                push_u16(out, flag + etype.to_u16());
                push_u16(out, data.len() as u16);
                push_octets(out, data.as_slice());
                assert(out@ =~= start + ext_bytes(self@));
            },
        }
    }

    fn buffer_len(&self) -> (r: usize) {
        EXTENSION_HEADER_LEN + self.length()
    }
}

/// Appends the octets of every extension of `exts`.
pub fn write_ext_list(exts: &Vec<Extension>, out: &mut Vec<u8>)
    requires
        forall|i: int| 0 <= i < exts@.len() ==> (#[trigger] exts@[i])@.wf(),
    ensures
        final(out)@ == old(out)@ + ext_list_bytes(exts@.map_values(|e: Extension| e@)),
{
    let ghost start = out@;
    let ghost models = exts@.map_values(|e: Extension| e@);
    let mut i: usize = 0;
    assert(models.skip(0) =~= models);
    while i < exts.len()
        invariant
            i <= exts@.len(),
            models == exts@.map_values(|e: Extension| e@),
            forall|k: int| 0 <= k < exts@.len() ==> (#[trigger] exts@[k])@.wf(),
            start + ext_list_bytes(models) == out@ + ext_list_bytes(models.skip(i as int)),
        decreases exts@.len() - i,
    {
        assert(models.skip(i as int)[0] == exts@[i as int]@);
        assert(models.skip(i as int).skip(1) =~= models.skip(i + 1));
        exts[i].write_to(out);
        i = i + 1;
    }
    assert(models.skip(i as int).len() == 0);
    assert(out@ =~= start + ext_list_bytes(models));
}

/// Octet length of a list of extensions.
pub fn ext_list_len(exts: &Vec<Extension>) -> (r: usize)
    requires
        forall|i: int| 0 <= i < exts@.len() ==> (#[trigger] exts@[i])@.wf(),
        ext_list_bytes(exts@.map_values(|e: Extension| e@)).len() <= usize::MAX,
    ensures
        r == ext_list_bytes(exts@.map_values(|e: Extension| e@)).len(),
{
    let ghost models = exts@.map_values(|e: Extension| e@);
    let mut total: usize = 0;
    let mut i: usize = 0;
    assert(models.skip(0) =~= models);
    while i < exts.len()
        invariant
            i <= exts@.len(),
            models == exts@.map_values(|e: Extension| e@),
            forall|k: int| 0 <= k < exts@.len() ==> (#[trigger] exts@[k])@.wf(),
            ext_list_bytes(models).len() <= usize::MAX,
            total + ext_list_bytes(models.skip(i as int)).len() == ext_list_bytes(models).len(),
        decreases exts@.len() - i,
    {
        assert(models.skip(i as int)[0] == exts@[i as int]@);
        assert(models.skip(i as int).skip(1) =~= models.skip(i + 1));
        total = total + exts[i].buffer_len();
        i = i + 1;
    }
    total
}

/// Octet length of `exts` when the list is empty or closed by its one end
/// marker, every extension is well formed and the total is at most
/// `limit`; none otherwise.
pub fn bounded_ext_list_len(exts: &Vec<Extension>, limit: usize) -> (r: Option<usize>)
    ensures
        ({
            let models = exts@.map_values(|e: Extension| e@);
            let ok = exts_wf(models) && (forall|i: int|
                0 <= i < models.len() ==> (#[trigger] models[i]).wf()) && ext_list_bytes(models).len()
                <= limit;
            match r {
                Some(n) => ok && n == ext_list_bytes(models).len(),
                None => !ok,
            }
        }),
{
    let ghost models = exts@.map_values(|e: Extension| e@);
    let mut total: usize = 0;
    let mut i: usize = 0;
    assert(models.skip(0) =~= models);
    while i < exts.len()
        invariant
            i <= exts@.len(),
            models == exts@.map_values(|e: Extension| e@),
            forall|k: int| 0 <= k < i ==> (#[trigger] models[k]).wf(),
            forall|k: int| 0 <= k < i && k < exts@.len() - 1 ==> (#[trigger] models[k]) is Other,
            forall|k: int| 0 <= k < i && k == exts@.len() - 1 ==> (#[trigger] models[k]) is EndOfExtensions,
            total <= limit,
            total + ext_list_bytes(models.skip(i as int)).len() == ext_list_bytes(models).len(),
        decreases exts@.len() - i,
    {
        assert(models[i as int] == exts@[i as int]@);
        assert(models.skip(i as int)[0] == exts@[i as int]@);
        assert(models.skip(i as int).skip(1) =~= models.skip(i + 1));
        if !exts[i].is_well_formed() {
            return None;
        }
        let is_end = match &exts[i] {
            Extension::EndOfExtensions => true,
            _ => false,
        };
        if is_end != (i + 1 == exts.len()) {
            return None;
        }
        let n = exts[i].buffer_len();
        if n > limit - total {
            return None;
        }
        total = total + n;
        i = i + 1;
    }
    assert(models.skip(i as int).len() == 0);
    assert(exts_wf(models)) by {
        if models.len() > 0 {
            assert(models.last() == models[models.len() - 1]);
        }
    }
    Some(total)
}

/// A view of an extension held in a byte vector.
pub struct ExtensionBuffer {
    buffer: Vec<u8>,
}

impl View for ExtensionBuffer {
    type V = Seq<u8>;

    closed spec fn view(&self) -> Seq<u8> {
        self.buffer@
    }
}

impl ExtensionBuffer {
    pub fn new(buffer: Vec<u8>) -> (r: ExtensionBuffer)
        ensures
            r@ == buffer@,
    {
        ExtensionBuffer { buffer }
    }

    /// Wraps octets that start with a whole extension.
    pub fn new_checked(buffer: Vec<u8>) -> (r: Result<ExtensionBuffer, Error>)
        ensures
            match r {
                Ok(p) => p@ == buffer@ && ext_complete(buffer@),
                Err(e) => e == Error::Truncated && !ext_complete(buffer@),
            },
    {
        let ext = ExtensionBuffer::new(buffer);
        match ext.check_buffer_length() {
            Ok(()) => Ok(ext),
            Err(e) => Err(e),
        }
    }

    fn check_buffer_length(&self) -> (r: Result<(), Error>)
        ensures
            match r {
                Ok(()) => ext_complete(self@),
                Err(e) => e == Error::Truncated && !ext_complete(self@),
            },
    {
        let len = self.buffer.len();
        if len < EXTENSION_HEADER_LEN || len < self.length() as usize {
            Err(Error::Truncated)
        } else {
            Ok(())
        }
    }

    fn cutype(&self) -> (r: u16)
        requires
            self@.len() >= EXTENSION_HEADER_LEN,
        ensures
            r == ext_cutype(self@),
    {
        read_u16(self.buffer.as_slice(), 0)
    }

    /// The extension type: the low 14 bits of the first field.
    pub fn extensiontype(&self) -> (r: ExtensionType)
        requires
            self@.len() >= EXTENSION_HEADER_LEN,
        ensures
            r == extension_type_of(ext_cutype(self@) % 0x4000),
    {
        ExtensionType::from_u16(self.cutype() % 0x4000)
    }

    /// The compulsory bit: the top bit of the first field.
    pub fn compulsory(&self) -> (r: bool)
        requires
            self@.len() >= EXTENSION_HEADER_LEN,
        ensures
            r == (ext_cutype(self@) >= 0x8000),
    {
        self.cutype() >= 0x8000
    }

    pub fn payload_length(&self) -> (r: u16)
        requires
            self@.len() >= EXTENSION_HEADER_LEN,
        ensures
            r == ext_payload_len(self@),
    {
        read_u16(self.buffer.as_slice(), 2)
    }

    /// Octets of the whole extension, header included.
    pub fn length(&self) -> (r: u32)
        requires
            self@.len() >= EXTENSION_HEADER_LEN,
        ensures
            r == EXTENSION_HEADER_LEN + ext_payload_len(self@),
    {
        self.payload_length() as u32 + EXTENSION_HEADER_LEN as u32
    }

    pub fn payload(&self) -> (r: &[u8])
        requires
            ext_complete(self@),
        ensures
            r@ == self@.subrange(
                EXTENSION_HEADER_LEN as int,
                EXTENSION_HEADER_LEN + ext_payload_len(self@),
            ),
    {
        vstd::slice::slice_subrange(
            self.buffer.as_slice(),
            EXTENSION_HEADER_LEN,
            self.length() as usize,
        )
    }

    /// Overwrites the payload with `value`, which has its length.
    pub fn payload_mut(&mut self, value: &[u8])
        requires
            ext_complete(old(self)@),
            value@.len() == ext_payload_len(old(self)@),
        ensures
            final(self)@ == old(self)@.take(EXTENSION_HEADER_LEN as int) + value@ + old(self)@.skip(
                EXTENSION_HEADER_LEN + ext_payload_len(old(self)@),
            ),
    {
        write_range(&mut self.buffer, EXTENSION_HEADER_LEN, value);
    }

    /// Sets the type and keeps the compulsory bit.
    pub fn set_extensiontype(&mut self, value: ExtensionType)
        requires
            old(self)@.len() >= EXTENSION_HEADER_LEN,
        ensures
            ({
                let cu = (value.value() % 0x4000 + if ext_cutype(old(self)@) >= 0x8000 {
                    0x8000int
                } else {
                    0int
                }) as u16;
                final(self)@ == old(self)@.update(0, u16_octets(cu)[0]).update(1, u16_octets(cu)[1])
            }),
    {
        let curr = self.cutype();
        let flag: u16 = if curr >= 0x8000 {
            0x8000
        } else {
            0
        };
        write_u16(&mut self.buffer, 0, value.to_u16() % 0x4000 + flag)
    }

    /// Sets the compulsory bit and keeps the type.
    pub fn set_compulsory(&mut self, value: bool)
        requires
            old(self)@.len() >= EXTENSION_HEADER_LEN,
        ensures
            ({
                let cu = ((if value {
                    0x8000int
                } else {
                    0int
                }) + ext_cutype(old(self)@) % 0x4000) as u16;
                final(self)@ == old(self)@.update(0, u16_octets(cu)[0]).update(1, u16_octets(cu)[1])
            }),
    {
        let curr = self.cutype();
        let flag: u16 = if value {
            0x8000
        } else {
            0
        };
        write_u16(&mut self.buffer, 0, flag + curr % 0x4000)
    }

    /// Sets the payload length.
    pub fn set_length(&mut self, value: u16)
        requires
            old(self)@.len() >= EXTENSION_HEADER_LEN,
        ensures
            final(self)@ == old(self)@.update(2, u16_octets(value)[0]).update(3, u16_octets(value)[1]),
    {
        write_u16(&mut self.buffer, 2, value)
    }
}

impl Parseable<Extension> for ExtensionBuffer {
    open spec fn parsed(&self) -> Result<ExtensionModel, Error> {
        if ext_complete(self@) {
            Ok(ext_model(self@))
        } else {
            Err(Error::Truncated)
        }
    }

    fn parse(&self) -> (r: Result<Extension, Error>) {
        if let Err(e) = self.check_buffer_length() {
            return Err(e);
        }
        let etype = self.extensiontype();
        if etype.is_end_of_extensions() {
            Ok(Extension::EndOfExtensions)
        } else {
            Ok(
                Extension::Other {
                    etype,
                    compulsory: self.compulsory(),
                    data: vstd::slice::slice_to_vec(self.payload()),
                },
            )
        }
    }
}

/// Walks the extensions laid back to back in a byte vector.  It stops
/// after the end marker, and silently at an extension that is not whole.
pub struct ExtensionIterator {
    position: usize,
    buffer: Vec<u8>,
}

impl ExtensionIterator {
    pub fn new(buffer: Vec<u8>) -> (r: ExtensionIterator)
        ensures
            r.position() == 0,
            r.octets() == buffer@,
    {
        ExtensionIterator { position: 0, buffer }
    }

    /// Offset of the next extension.
    pub closed spec fn position(&self) -> int {
        self.position as int
    }

    /// The octets walked.
    pub closed spec fn octets(&self) -> Seq<u8> {
        self.buffer@
    }

    /// The octets not walked yet.
    pub open spec fn remaining(&self) -> Seq<u8> {
        if self.position() >= self.octets().len() {
            Seq::empty()
        } else {
            self.octets().skip(self.position())
        }
    }

    /// Yields a view of the next extension, or nothing once the octets are
    /// used up, the end marker was seen, or an extension is not whole.
    pub fn next(&mut self) -> (r: Option<Result<ExtensionBuffer, Error>>)
        ensures
            final(self).octets() == old(self).octets(),
            final(self).remaining() == ext_walk(old(self).remaining(), 1),
            (old(self).remaining().len() == 0 || !ext_complete(old(self).remaining())) ==> r is None
                && final(self).remaining().len() == 0,
            old(self).remaining().len() > 0 && ext_complete(old(self).remaining()) ==> (match r {
                Some(Ok(b)) => b@ == old(self).remaining() && final(self).remaining() == if ext_is_end(
                    old(self).remaining(),
                ) {
                    Seq::<u8>::empty()
                } else {
                    old(self).remaining().skip(
                        EXTENSION_HEADER_LEN + ext_payload_len(old(self).remaining()),
                    )
                },
                _ => false,
            }),
    {
        let ghost rem = self.remaining();
        proof {
            assert(ext_walk(rem, 0) == rem);
            assert(ext_walk(rem, 1) == if rem.len() == 0 || !ext_complete(rem) || ext_is_end(rem) {
                Seq::<u8>::empty()
            } else {
                rem.skip(EXTENSION_HEADER_LEN + ext_payload_len(rem))
            });
        }
        let len = self.buffer.len();
        if self.position >= len {
            return None;
        }
        let rest = crate::wire::copy_range(self.buffer.as_slice(), self.position, len);
        assert(rest@ =~= self.remaining());
        match ExtensionBuffer::new_checked(rest) {
            Ok(b) => {
                let n = b.length() as usize;
                if b.extensiontype().is_end_of_extensions() {
                    self.position = len;
                } else {
                    proof {
                        assert(self.octets().skip(self.position + n) =~= self.remaining().skip(
                            n as int,
                        ));
                    }
                    self.position = self.position + n;
                }
                Some(Ok(b))
            },
            Err(_) => {
                self.position = len;
                None
            },
        }
    }
}

/// Decodes the extensions that iteration over `b` yields.
pub fn parse_extensions(b: &[u8]) -> (r: Vec<Extension>)
    ensures
        r@.map_values(|e: Extension| e@) == parse_ext_list(b@),
{
    let mut it = ExtensionIterator::new(vstd::slice::slice_to_vec(b));
    let mut out: Vec<Extension> = Vec::new();
    assert(it.remaining() =~= b@);
    loop
        invariant
            it.octets() == b@,
            parse_ext_list(b@) == out@.map_values(|e: Extension| e@) + parse_ext_list(
                it.remaining(),
            ),
        decreases it.remaining().len(),
    {
        let ghost before = it.remaining();
        let ghost done = out@.map_values(|e: Extension| e@);
        match it.next() {
            Some(Ok(eb)) => {
                match eb.parse() {
                    Ok(e) => {
                        out.push(e);
                        proof {
                            assert(out@.map_values(|e: Extension| e@) =~= done + seq![
                                ext_model(before),
                            ]);
                            if ext_is_end(before) {
                                assert(it.remaining().len() == 0);
                                assert(parse_ext_list(before) == seq![
                                    ExtensionModel::EndOfExtensions,
                                ]);
                                assert(done + parse_ext_list(before) =~= out@.map_values(
                                    |e: Extension| e@,
                                ) + parse_ext_list(it.remaining()));
                            } else {
                                assert(done + (seq![ext_model(before)] + parse_ext_list(
                                    it.remaining(),
                                )) =~= done + seq![ext_model(before)] + parse_ext_list(
                                    it.remaining(),
                                ));
                            }
                        }
                    },
                    Err(_) => {
                        return out;
                    },
                }
            },
            _ => {
                assert(done + Seq::<ExtensionModel>::empty() =~= done);
                return out;
            },
        }
    }
}

} // verus!
