//! A verified model of a WebAssembly guest's memory bridge: the calling
//! convention by which UTF-8 strings cross between a host and a guest that
//! share nothing but a flat, byte-addressable linear memory.
//!
//! The bridge passes a string as an (address, length) pair into linear
//! memory; where a single return value must carry both, the pair is packed
//! into one 64-bit word ([`codec`]). Memory is handed out by two explicit
//! primitives with no automatic reclamation, so ownership of each region
//! moves by convention alone ([`bridge`]). On top of the convention sit the
//! greeting operations and the logging import ([`greet`]).

pub mod bridge;
pub mod codec;
pub mod greet;
pub mod text;
