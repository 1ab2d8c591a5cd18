//! The single-slot buffer through which one message passes from a sender to a
//! receiver.

use core::cell::UnsafeCell;
use core::sync::atomic::AtomicBool;
use vstd::prelude::*;

verus! {

#[verifier::external_type_specification]
#[verifier::external_body]
#[verifier::reject_recursive_types(T)]
pub struct ExUnsafeCell<T: ?Sized>(UnsafeCell<T>);

/// Relies on `UnsafeCell::new`, which wraps the value; what it holds is read and
/// written around the library, so nothing is stated of it here.
pub assume_specification<T>[ UnsafeCell::<T>::new ](value: T) -> UnsafeCell<T>;

/// A rendezvous packet.
///
/// The side that waits creates it: on its own stack for a blocking operation,
/// on the heap for a select. Exactly one side writes `msg` and then sets
/// `ready`; the other reads `msg` after it has seen `ready`.
#[verifier::reject_recursive_types(T)]
pub struct Packet<T> {
    /// Whether the packet lives on the waiting thread's stack.
    pub on_stack: bool,
    /// Set once the message has been written, or taken.
    pub ready: AtomicBool,
    /// The message.
    pub msg: UnsafeCell<Option<T>>,
}

impl<T> Packet<T> {
    /// An empty packet on the stack, for a blocking receive.
    pub fn empty_on_stack() -> (r: Packet<T>)
        ensures
            r.on_stack,
    {
        Packet { on_stack: true, ready: AtomicBool::new(false), msg: UnsafeCell::new(None) }
    }

    /// An empty packet on the heap, for a select.
    pub fn empty_on_heap() -> (r: Box<Packet<T>>)
        ensures
            !r.on_stack,
    {
        Box::new(Packet { on_stack: false, ready: AtomicBool::new(false), msg: UnsafeCell::new(None) })
    }

    /// A packet on the stack holding `msg`, for a blocking send.
    pub fn message_on_stack(msg: T) -> (r: Packet<T>)
        ensures
            r.on_stack,
    {
        Packet { on_stack: true, ready: AtomicBool::new(false), msg: UnsafeCell::new(Some(msg)) }
    }
}

} // verus!
