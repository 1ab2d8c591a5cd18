//! A one-shot callable, kept inline when small and boxed otherwise.

use std::rc::Rc;
use core::marker::PhantomData;
use vstd::prelude::*;

verus! {

/// Room for three machine words.
type Data = [usize; 3];

/// Where a callable is kept.
enum Slot<F> {
    Inline(F),
    Boxed(Box<F>),
}

/// Whether a callable of type `F` fits in three words, alignment included.
pub open spec fn fits_inline<F>() -> bool {
    vstd::layout::size_of::<F>() <= vstd::layout::size_of::<Data>()
        && vstd::layout::align_of::<F>() <= vstd::layout::align_of::<Data>()
}

/// A retirement action: a `FnOnce()` that runs once, when `call` consumes it.
///
/// A callable that fits in three machine words is kept inline; a larger one is
/// moved to the heap. It is neither shared between nor sent to other threads.
pub struct Deferred<F: FnOnce()> {
    slot: Slot<F>,
    _marker: PhantomData<Rc<()>>,
}

impl<F: FnOnce()> Deferred<F> {
    /// The callable held.
    pub closed spec fn callable(&self) -> F {
        match self.slot {
            Slot::Inline(f) => f,
            Slot::Boxed(b) => *b,
        }
    }

    /// Whether the callable is kept inline.
    pub closed spec fn is_inline(&self) -> bool {
        self.slot is Inline
    }

    /// Wraps `f`: inline where it fits in three words, on the heap otherwise.
    pub fn new(f: F) -> (r: Self)
        ensures
            r.callable() == f,
            r.is_inline() == fits_inline::<F>(),
    {
        let size = core::mem::size_of::<F>();
        let align = core::mem::align_of::<F>();
        if size <= core::mem::size_of::<Data>() && align <= core::mem::align_of::<Data>() {
            Deferred { slot: Slot::Inline(f), _marker: PhantomData }
        } else {
            Deferred { slot: Slot::Boxed(Box::new(f)), _marker: PhantomData }
        }
    }

    /// Runs the callable, once: `self` is consumed.
    pub fn call(self)
        requires
            call_requires(self.callable(), ()),
        ensures
            call_ensures(self.callable(), (), ()),
    {
        match self.slot {
            Slot::Inline(f) => f(),
            Slot::Boxed(b) => {
                let f = *b;
                f()
            },
        }
    }
}

} // verus!
