//! Protocol logic for an 8-channel relay expansion card driven over a
//! serial link with fixed 4-byte command and response frames.

pub mod bytebuf;
pub mod codec;
pub mod laws;
pub mod session;
