//! Failure kinds of the codec and the server.

use vstd::prelude::*;

verus! {

/// What went wrong while decoding, encoding or serving a message.
#[derive(Debug, Clone, Copy, PartialEq, Eq, Structural)]
pub enum Error {
    /// The input is shorter than a length it declares or needs.
    Truncated,
    /// The output buffer is too small for the value.
    Exhausted,
    /// An operation type, or an address width, that is not served.
    NotImplemented,
    /// A field holds a value that is semantically malformed.
    Invalid,
    /// The socket did not take a whole datagram, or failed.
    Io,
}

/// An error together with the errors that came with it.
#[derive(Debug)]
pub struct CloutdError {
    pub source: Error,
    pub others: Vec<CloutdError>,
}

impl CloutdError {
    pub fn new(source: Error, others: Vec<CloutdError>) -> (r: CloutdError)
        ensures
            r.source == source,
            r.others == others,
    {
        CloutdError { source, others }
    }

    /// An error with nothing related to it.
    pub fn from(source: Error) -> (r: CloutdError)
        ensures
            r.source == source,
            r.others@.len() == 0,
    {
        CloutdError { source, others: Vec::new() }
    }

    /// Adds a related error.
    pub fn and(&mut self, other: CloutdError)
        ensures
            final(self).source == old(self).source,
            final(self).others@ == old(self).others@.push(other),
    {
        self.others.push(other);
    }
}

} // verus!
