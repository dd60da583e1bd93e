//! Decoding of fixed-layout market-quote packets out of captured
//! network frames: frame validation, fixed-width ASCII-digit field
//! decoding, accept-time reconstruction, and assembly of the final
//! quote records.

pub mod accept_time;
pub mod fields;
pub mod options;
pub mod quote;
pub mod quote_packet;
pub mod text;
