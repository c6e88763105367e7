//! Next Hop Resolution Protocol (RFC 2332) agent: the wire codec, the
//! request/response server logic and the datagram framing decisions.

pub mod wire;
pub mod error;
pub mod traits;
pub mod header;
pub mod buffer;
pub mod opbuffer;
pub mod cie;
pub mod extension;
pub mod operation;
pub mod message;
pub mod peers;
pub mod server;
pub mod framing;
pub mod link;
