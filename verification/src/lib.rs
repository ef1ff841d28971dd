//! Verified core of an XDP router that demultiplexes Constellation pshred
//! packets by the `proposer_index` field of their header.

pub mod protocol;
pub mod bytes;
pub mod sender;
pub mod text;
pub mod xtask;
pub mod packet;
pub mod router;
pub mod stats;
pub mod redirect;
