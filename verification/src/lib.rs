//! GATT characteristic model for a Bluetooth Low Energy peripheral.
//!
//! The crate models one characteristic: its property flags, its attribute
//! value buffer, its descriptor children, the access-event protocol the
//! native stack drives (read with a user callback, chunked-write
//! reassembly), per-connection subscription state, and the notify/indicate
//! fan-out with its flow-controlled indication tracking.
//!
//! The native stack itself (connection lookup, MTU negotiation, the
//! transmit primitives) stays outside: callers hand its answers in as plain
//! values and carry the computed outbound messages back to it. So is the
//! mutual exclusion that guards a characteristic between stack dispatch
//! and application threads: the model is sequential, and each entry point
//! is one bounded critical section of the embedding's lock.

pub mod access;
pub mod att_value;
pub mod characteristic;
pub mod conn;
pub mod descriptor;
pub mod flags;
pub mod laws;
pub mod server;
pub mod uuid;
