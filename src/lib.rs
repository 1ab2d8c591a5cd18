//! Concurrency primitives: the pairing logic of a rendezvous channel and the
//! tagged-pointer layer of epoch-based memory reclamation.

pub mod atomic;
pub mod deferred;
pub mod err;
pub mod packet;
pub mod select;
pub mod waker;
pub mod zero;
