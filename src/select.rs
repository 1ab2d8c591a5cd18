//! What a waiting thread was selected for, and the per-thread context that holds it.

use core::sync::atomic::{AtomicUsize, Ordering};
use vstd::prelude::*;
use crate::atomic::compare_exchange_word;

verus! {

/// The state of a thread's current blocking or selecting operation.
#[derive(Clone, Copy, Debug, PartialEq, Eq, Structural)]
pub enum Selected {
    /// Still waiting: the initial state.
    Waiting,
    /// Gave up: the deadline passed, or another case won the select.
    Aborted,
    /// The channel closed.
    Closed,
    /// Paired by the operation with this id.
    Operation(usize),
}

/// An operation id: ids 0, 1 and 2 encode the other states.
pub open spec fn is_operation_id(oper: usize) -> bool {
    oper > 2
}

/// A state that can be stored in a context: an operation carries a valid id.
pub open spec fn is_storable(sel: Selected) -> bool {
    match sel {
        Selected::Operation(oper) => is_operation_id(oper),
        _ => true,
    }
}

/// The word that stands for a state.
pub open spec fn selected_word(sel: Selected) -> usize {
    match sel {
        Selected::Waiting => 0,
        Selected::Aborted => 1,
        Selected::Closed => 2,
        Selected::Operation(oper) => oper,
    }
}

/// The state that a word stands for.
pub open spec fn word_selected(w: usize) -> Selected {
    if w == 0 {
        Selected::Waiting
    } else if w == 1 {
        Selected::Aborted
    } else if w == 2 {
        Selected::Closed
    } else {
        Selected::Operation(w)
    }
}

/// Encoding a state as a word and decoding it gives the state back.
pub proof fn lemma_selected_round_trip(sel: Selected)
    requires
        is_storable(sel),
    ensures
        word_selected(selected_word(sel)) == sel,
{
}

impl Selected {
    /// The word that stands for this state.
    pub fn into_usize(self) -> (r: usize)
        ensures
            r == selected_word(self),
    {
        match self {
            Selected::Waiting => 0,
            Selected::Aborted => 1,
            Selected::Closed => 2,
            Selected::Operation(oper) => oper,
        }
    }

    /// The state that `w` stands for.
    pub fn from_usize(w: usize) -> (r: Selected)
        ensures
            r == word_selected(w),
            is_storable(r),
    {
        if w == 0 {
            Selected::Waiting
        } else if w == 1 {
            Selected::Aborted
        } else if w == 2 {
            Selected::Closed
        } else {
            Selected::Operation(w)
        }
    }
}

/// Scratch space of one operation: the address of the packet that the pairing
/// chose, or zero where the channel was found closed.
#[derive(Clone, Copy, Debug, PartialEq, Eq, Structural)]
pub struct Token {
    pub zero: usize,
}

impl Token {
    /// A token that holds no packet.
    pub fn new() -> (r: Token)
        ensures
            r.zero == 0,
    {
        Token { zero: 0 }
    }
}

/// A thread's context for one operation at a time.
///
/// Its state is changed once, by compare-and-set, from `Waiting` to one of the
/// other three; other threads do that, so its current value is not known here.
pub struct Context {
    thread_id: u64,
    select: AtomicUsize,
    packet: AtomicUsize,
}

impl Context {
    /// The id of the thread that owns this context.
    pub closed spec fn thread(&self) -> u64 {
        self.thread_id
    }

    /// A context for the thread with id `thread_id`, waiting, with no packet.
    pub fn new(thread_id: u64) -> (r: Context)
        ensures
            r.thread() == thread_id,
    {
        Context {
            thread_id,
            select: AtomicUsize::new(0),
            packet: AtomicUsize::new(0),
        }
    }

    /// The id of the owning thread.
    pub fn thread_id(&self) -> (r: u64)
        ensures
            r == self.thread(),
    {
        self.thread_id
    }

    /// Makes the context wait again, with no packet, before a new operation.
    pub fn reset(&self) {
        self.select.store(0, Ordering::Release);
        self.packet.store(0, Ordering::Release);
    }

    /// Moves the context from `Waiting` to `sel`; where it had already left
    /// `Waiting`, the state that it had is returned.
    pub fn try_select(&self, sel: Selected) -> (r: Result<(), Selected>)
        requires
            is_storable(sel),
        ensures
            r is Err ==> is_storable(r->Err_0) && r->Err_0 != Selected::Waiting,
    {
        match compare_exchange_word(
            &self.select,
            0,
            sel.into_usize(),
            Ordering::AcqRel,
            Ordering::Acquire,
        ) {
            Ok(_) => Ok(()),
            Err(w) => Err(Selected::from_usize(w)),
        }
    }

    /// The current state.
    pub fn selected(&self) -> (r: Selected)
        ensures
            is_storable(r),
    {
        Selected::from_usize(self.select.load(Ordering::Acquire))
    }

    /// Hands the context the address of the packet that its selector chose.
    pub fn store_packet(&self, packet: usize) {
        self.packet.store(packet, Ordering::Release);
    }

    /// The packet stored so far, or zero.
    pub fn packet(&self) -> (r: usize) {
        self.packet.load(Ordering::Acquire)
    }
}

} // verus!
