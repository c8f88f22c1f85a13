//! Fault-tolerant decoding of fixed-shape records from Borsh-encoded bytes.
//!
//! A record is read field by field. A field that cannot be read takes its
//! configured default, and reading goes on from wherever the cursor was left.

pub mod value;
pub mod codec;
pub mod decoder;
pub mod laws;
pub mod model;
pub mod plan;
pub mod wire;
