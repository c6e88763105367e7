//! Decoding from and encoding to octets.

use vstd::prelude::*;
use crate::error::Error;
use crate::wire::copy_to_prefix;

verus! {

/// A value that can be serialized.
pub trait Emitable {
    /// The octets this value is emitted as.
    spec fn wire(&self) -> Seq<u8>;

    /// Every length fits the field that carries it.
    spec fn emitable(&self) -> bool;

    /// Appends the serialized value to `out`.
    fn write_to(&self, out: &mut Vec<u8>)
        requires
            self.emitable(),
        ensures
            final(out)@ == old(out)@ + self.wire(),
    ;

    /// Length of the serialized data.
    fn buffer_len(&self) -> (r: usize)
        requires
            self.emitable(),
        ensures
            r == self.wire().len(),
    ;

    /// Writes the serialized value over the start of `buffer`, which must
    /// be at least `buffer_len()` octets long.
    fn emit(&self, buffer: &mut [u8])
        requires
            self.emitable(),
            self.wire().len() <= old(buffer)@.len(),
        ensures
            final(buffer)@ == self.wire() + old(buffer)@.skip(self.wire().len() as int),
    {
        let mut bytes: Vec<u8> = Vec::new();
        self.write_to(&mut bytes);
        assert(bytes@ =~= self.wire());
        copy_to_prefix(buffer, bytes.as_slice());
    }
}

/// A view that can be decoded into a `T`.
pub trait Parseable<T: View> {
    /// What decoding yields.
    spec fn parsed(&self) -> Result<T::V, Error>;

    /// Decodes the value.
    fn parse(&self) -> (r: Result<T, Error>)
        ensures
            match r {
                Ok(v) => self.parsed() == Ok::<T::V, Error>(v@),
                Err(e) => self.parsed() == Err::<T::V, Error>(e),
            },
    ;
}

} // verus!
