//! Consumer side of a shared-memory completion ring.
//!
//! A producer appends fixed-size completion records to a power-of-two ring
//! held in a shared byte region and advances a tail counter; this crate
//! resolves the ring's control fields from producer-supplied byte offsets,
//! lends out short-lived consumer views that drain records in FIFO order,
//! and publishes consumed slots back through the shared head counter.

pub mod cqueue;
pub mod entry;
pub mod le;
