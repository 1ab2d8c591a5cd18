//! The registry of the threads that wait on one side of a channel.

use std::sync::Arc;
use vstd::prelude::*;
use crate::select::{is_operation_id, Context, Selected};

verus! {

/// A waiting operation: the thread's context, the operation's id, and the
/// address of its packet.
pub struct Entry {
    pub cx: Arc<Context>,
    pub oper: usize,
    pub packet: usize,
}

impl Entry {
    /// The id of the thread that registered the entry.
    pub open spec fn thread(&self) -> u64 {
        self.cx.thread()
    }
}

/// Whether any entry of `s` belongs to a thread other than `current`.
pub open spec fn has_other(s: Seq<Entry>, current: u64) -> bool {
    exists|i: int| 0 <= i < s.len() && #[trigger] s[i].thread() != current
}

/// `i` is the first index of `s` whose entry carries the operation id `oper`.
pub open spec fn index_of_oper(s: Seq<Entry>, oper: usize, i: int) -> bool {
    0 <= i < s.len() && s[i].oper == oper && forall|j: int| 0 <= j < i ==> #[trigger] s[j].oper
        != oper
}

/// A selection that a context refused: the index of its entry in the list that
/// was scanned, and the state that the context had already left `Waiting` for.
#[derive(Clone, Copy, Debug, PartialEq, Eq, Structural)]
pub struct Refusal {
    pub index: usize,
    pub state: Selected,
}

/// `refused` records that the entry at index `j` was offered and refused: its
/// context had already left `Waiting`.
pub open spec fn was_refused(refused: Seq<Refusal>, j: int) -> bool {
    exists|k: int|
        0 <= k < refused.len() && #[trigger] refused[k].index == j && refused[k].state
            != Selected::Waiting
}

/// Every entry of `s` before index `end` that belongs to a thread other than
/// `current` was offered and refused.
pub open spec fn refused_before(s: Seq<Entry>, current: u64, end: int, refused: Seq<Refusal>) -> bool {
    forall|j: int| 0 <= j < end && #[trigger] s[j].thread() != current ==> was_refused(refused, j)
}

/// `refused` names only entries of `s` before `end` that belong to another
/// thread than `current`, each with a state other than `Waiting`.
pub open spec fn record_within(s: Seq<Entry>, current: u64, end: int, refused: Seq<Refusal>) -> bool {
    forall|k: int|
        0 <= k < refused.len() ==> {
            &&& 0 <= #[trigger] refused[k].index < end
            &&& end <= s.len()
            &&& s[refused[k].index as int].thread() != current
            &&& refused[k].state != Selected::Waiting
        }
}

/// No two entries of `s` share a packet.
pub open spec fn distinct_packets(s: Seq<Entry>) -> bool {
    forall|i: int, j: int|
        0 <= i < s.len() && 0 <= j < s.len() && i != j ==> #[trigger] s[i].packet
            != #[trigger] s[j].packet
}

/// Whether an entry of `s` carries the packet `packet`.
pub open spec fn holds_packet(s: Seq<Entry>, packet: usize) -> bool {
    exists|i: int| 0 <= i < s.len() && #[trigger] s[i].packet == packet
}

/// Removing an entry keeps the others valid and their packets distinct.
proof fn lemma_remove_keeps(s: Seq<Entry>, i: int)
    requires
        0 <= i < s.len(),
        distinct_packets(s),
        forall|k: int|
            0 <= k < s.len() ==> {
                &&& is_operation_id(#[trigger] s[k].oper)
                &&& s[k].packet != 0
            },
    ensures
        distinct_packets(s.remove(i)),
        forall|k: int|
            0 <= k < s.remove(i).len() ==> {
                &&& is_operation_id(#[trigger] s.remove(i)[k].oper)
                &&& s.remove(i)[k].packet != 0
            },
{
    let t = s.remove(i);
    assert forall|k: int| 0 <= k < t.len() implies {
        &&& is_operation_id(#[trigger] t[k].oper)
        &&& t[k].packet != 0
    } by {
        if k < i {
            assert(t[k] == s[k]);
            assert(is_operation_id(s[k].oper));
        } else {
            assert(t[k] == s[k + 1]);
            assert(is_operation_id(s[k + 1].oper));
        }
    }
    assert forall|a: int, b: int| 0 <= a < t.len() && 0 <= b < t.len() && a != b implies #[trigger] t[a].packet
        != #[trigger] t[b].packet by {
        let a2 = if a < i { a } else { a + 1 };
        let b2 = if b < i { b } else { b + 1 };
        assert(t[a] == s[a2]);
        assert(t[b] == s[b2]);
        assert(s[a2].packet != s[b2].packet);
    }
}

/// A registry of waiting operations: `selectors` may be paired, `observers`
/// only want to hear that something changed.
pub struct Waker {
    selectors: Vec<Entry>,
    observers: Vec<Entry>,
}

impl Waker {
    /// The waiting operations, in order of registration.
    pub closed spec fn selectors(&self) -> Seq<Entry> {
        self.selectors@
    }

    /// The watching operations, in order of registration.
    pub closed spec fn observers(&self) -> Seq<Entry> {
        self.observers@
    }

    /// Every waiting operation has a valid id and its own packet.
    pub open spec fn wf(&self) -> bool {
        &&& forall|i: int|
            0 <= i < self.selectors().len() ==> {
                &&& is_operation_id(#[trigger] self.selectors()[i].oper)
                &&& self.selectors()[i].packet != 0
            }
        &&& distinct_packets(self.selectors())
    }

    /// An empty registry.
    pub fn new() -> (r: Waker)
        ensures
            r.wf(),
            r.selectors() == Seq::<Entry>::empty(),
            r.observers() == Seq::<Entry>::empty(),
    {
        Waker { selectors: Vec::new(), observers: Vec::new() }
    }

    /// Whether a waiting operation carries the packet `packet`.
    pub fn has_packet(&self, packet: usize) -> (r: bool)
        ensures
            r == holds_packet(self.selectors(), packet),
    {
        let mut i: usize = 0;
        while i < self.selectors.len()
            invariant
                i <= self.selectors@.len(),
                forall|j: int| 0 <= j < i ==> #[trigger] self.selectors@[j].packet != packet,
            decreases self.selectors@.len() - i,
        {
            if self.selectors[i].packet == packet {
                assert(self.selectors()[i as int].packet == packet);
                return true;
            }
            i += 1;
        }
        false
    }

    /// Appends a waiting operation at the back.
    pub fn register_with_packet(&mut self, oper: usize, packet: usize, cx: &Arc<Context>)
        requires
            old(self).wf(),
            is_operation_id(oper),
            packet != 0,
            !holds_packet(old(self).selectors(), packet),
        ensures
            final(self).wf(),
            final(self).selectors() == old(self).selectors().push(
                Entry { cx: *cx, oper, packet },
            ),
            final(self).observers() == old(self).observers(),
    {
        self.selectors.push(Entry { cx: cx.clone(), oper, packet });
        proof {
            let s = self.selectors@;
            let n = old(self).selectors@.len() as int;
            assert forall|i: int| 0 <= i < s.len() implies {
                &&& is_operation_id(#[trigger] s[i].oper)
                &&& s[i].packet != 0
            } by {
                if i < n {
                    assert(s[i] == old(self).selectors@[i]);
                    assert(is_operation_id(old(self).selectors()[i].oper));
                }
            }
            assert forall|a: int, b: int| 0 <= a < s.len() && 0 <= b < s.len() && a != b implies #[trigger] s[a].packet
                != #[trigger] s[b].packet by {
                if a < n && b < n {
                    assert(s[a] == old(self).selectors@[a]);
                    assert(s[b] == old(self).selectors@[b]);
                    assert(old(self).selectors()[a].packet != old(self).selectors()[b].packet);
                } else if a < n {
                    assert(s[a] == old(self).selectors@[a]);
                    assert(old(self).selectors()[a].packet != packet);
                } else if b < n {
                    assert(s[b] == old(self).selectors@[b]);
                    assert(old(self).selectors()[b].packet != packet);
                }
            }
        }
    }

    /// Removes the first waiting operation with id `oper`, and returns it.
    pub fn unregister(&mut self, oper: usize) -> (r: Option<Entry>)
        requires
            old(self).wf(),
        ensures
            final(self).wf(),
            final(self).observers() == old(self).observers(),
            match r {
                Some(e) => exists|i: int|
                    index_of_oper(old(self).selectors(), oper, i) && e == old(self).selectors()[i]
                        && final(self).selectors() == old(self).selectors().remove(i),
                None => final(self).selectors() == old(self).selectors() && forall|j: int|
                    0 <= j < old(self).selectors().len() ==> #[trigger] old(
                        self,
                    ).selectors()[j].oper != oper,
            },
    {
        let mut i: usize = 0;
        while i < self.selectors.len()
            invariant
                self.selectors@ == old(self).selectors@,
                self.observers@ == old(self).observers@,
                old(self).wf(),
                i <= self.selectors@.len(),
                forall|j: int| 0 <= j < i ==> #[trigger] self.selectors@[j].oper != oper,
            decreases self.selectors@.len() - i,
        {
            if self.selectors[i].oper == oper {
                let e = self.selectors.remove(i);
                proof {
                    assert(index_of_oper(old(self).selectors(), oper, i as int));
                    lemma_remove_keeps(old(self).selectors(), i as int);
                }
                return Some(e);
            }
            i += 1;
        }
        None
    }

    /// Pairs with the first waiting operation of another thread whose context
    /// accepts the selection, removes it and hands it the packet's address.
    ///
    /// Entries of the current thread are skipped: a thread never pairs with
    /// itself. Every entry of another thread offered before the chosen one, or
    /// every one where none accepts, refused: `refused` is set to those
    /// refusals, in order.
    pub fn try_select(&mut self, current: u64, refused: &mut Vec<Refusal>) -> (r: Option<Entry>)
        requires
            old(self).wf(),
        ensures
            final(self).wf(),
            final(self).observers() == old(self).observers(),
            match r {
                Some(e) => exists|i: int|
                    0 <= i < old(self).selectors().len() && e == old(self).selectors()[i]
                        && e.thread() != current && final(self).selectors() == old(
                        self,
                    ).selectors().remove(i) && refused_before(
                        old(self).selectors(),
                        current,
                        i,
                        final(refused)@,
                    ) && record_within(old(self).selectors(), current, i, final(refused)@),
                None => final(self).selectors() == old(self).selectors() && refused_before(
                    old(self).selectors(),
                    current,
                    old(self).selectors().len() as int,
                    final(refused)@,
                ) && record_within(
                    old(self).selectors(),
                    current,
                    old(self).selectors().len() as int,
                    final(refused)@,
                ),
            },
    {
        *refused = Vec::new();
        let mut i: usize = 0;
        while i < self.selectors.len()
            invariant
                self.selectors@ == old(self).selectors@,
                self.observers@ == old(self).observers@,
                self.wf(),
                i <= self.selectors@.len(),
                refused_before(self.selectors@, current, i as int, refused@),
                record_within(self.selectors@, current, i as int, refused@),
            decreases self.selectors@.len() - i,
        {
            if self.selectors[i].cx.thread_id() != current {
                let oper = self.selectors[i].oper;
                assert(is_operation_id(self.selectors()[i as int].oper));
                match self.selectors[i].cx.try_select(Selected::Operation(oper)) {
                    Ok(()) => {
                        self.selectors[i].cx.store_packet(self.selectors[i].packet);
                        let e = self.selectors.remove(i);
                        proof {
                            assert(e == old(self).selectors()[i as int]);
                            assert(e.thread() != current);
                            lemma_remove_keeps(old(self).selectors(), i as int);
                        }
                        return Some(e);
                    },
                    Err(state) => {
                        let ghost before = refused@;
                        refused.push(Refusal { index: i, state });
                        proof {
                            let s = self.selectors@;
                            let n = before.len() as int;
                            assert(refused@[n].index == i);
                            assert forall|j: int|
                                0 <= j < i + 1 && #[trigger] s[j].thread()
                                    != current implies was_refused(refused@, j) by {
                                if j < i {
                                    assert(was_refused(before, j));
                                    let k = choose|k: int|
                                        0 <= k < before.len() && #[trigger] before[k].index == j
                                            && before[k].state != Selected::Waiting;
                                    assert(refused@[k] == before[k]);
                                } else {
                                    assert(refused@[n].index == j);
                                }
                            }
                            assert forall|k: int| 0 <= k < refused@.len() implies {
                                &&& 0 <= #[trigger] refused@[k].index < i + 1
                                &&& i + 1 <= s.len()
                                &&& s[refused@[k].index as int].thread() != current
                                &&& refused@[k].state != Selected::Waiting
                            } by {
                                if k < n {
                                    assert(refused@[k] == before[k]);
                                }
                            }
                        }
                    },
                }
            }
            proof {
                let s = self.selectors@;
                assert forall|j: int|
                    0 <= j < i + 1 && #[trigger] s[j].thread() != current implies was_refused(
                    refused@,
                    j,
                ) by {
                    if j < i {
                    }
                }
            }
            i += 1;
        }
        None
    }

    /// Whether another thread's operation is waiting here.
    pub fn can_select(&self, current: u64) -> (r: bool)
        ensures
            r == has_other(self.selectors(), current),
    {
        let mut i: usize = 0;
        while i < self.selectors.len()
            invariant
                i <= self.selectors@.len(),
                forall|j: int| 0 <= j < i ==> #[trigger] self.selectors@[j].thread() == current,
            decreases self.selectors@.len() - i,
        {
            if self.selectors[i].cx.thread_id() != current {
                assert(self.selectors()[i as int].thread() != current);
                return true;
            }
            i += 1;
        }
        false
    }

    /// Subscribes an operation to hear of the next change.
    pub fn watch(&mut self, oper: usize, cx: &Arc<Context>)
        ensures
            final(self).observers() == old(self).observers().push(Entry { cx: *cx, oper, packet: 0 }),
            final(self).selectors() == old(self).selectors(),
    {
        self.observers.push(Entry { cx: cx.clone(), oper, packet: 0 });
    }

    /// Removes every subscription of the operation `oper`.
    pub fn unwatch(&mut self, oper: usize)
        ensures
            final(self).selectors() == old(self).selectors(),
            final(self).observers() == old(self).observers().filter(|e: Entry| e.oper != oper),
    {
        let mut kept: Vec<Entry> = Vec::new();
        let mut i: usize = 0;
        while i < self.observers.len()
            invariant
                self.observers@ == old(self).observers@,
                self.selectors@ == old(self).selectors@,
                i <= self.observers@.len(),
                kept@ == self.observers@.take(i as int).filter(|e: Entry| e.oper != oper),
            decreases self.observers@.len() - i,
        {
            proof {
                reveal(Seq::filter);
                assert(self.observers@.take(i + 1).drop_last() == self.observers@.take(i as int));
            }
            if self.observers[i].oper != oper {
                kept.push(
                    Entry {
                        cx: self.observers[i].cx.clone(),
                        oper: self.observers[i].oper,
                        packet: self.observers[i].packet,
                    },
                );
            }
            i += 1;
        }
        proof {
            assert(self.observers@.take(self.observers@.len() as int) == self.observers@);
        }
        self.observers = kept;
    }

    /// Tells every watching operation that something changed, and empties the
    /// watch list. Each watcher with a valid operation id is offered the
    /// selection: those that accept are handed back, in order, to be woken;
    /// those that refuse are recorded in `refused`, by their index.
    pub fn notify(&mut self, refused: &mut Vec<Refusal>) -> (r: Vec<Entry>)
        ensures
            final(self).selectors() == old(self).selectors(),
            final(self).observers() == Seq::<Entry>::empty(),
            forall|k: int|
                0 <= k < r@.len() ==> #[trigger] r@[k].oper > 2 && old(self).observers().contains(
                    r@[k],
                ),
            forall|j: int|
                0 <= j < old(self).observers().len() && #[trigger] old(self).observers()[j].oper > 2
                    ==> r@.contains(old(self).observers()[j]) || was_refused(final(refused)@, j),
    {
        *refused = Vec::new();
        let mut woken: Vec<Entry> = Vec::new();
        let mut i: usize = 0;
        while i < self.observers.len()
            invariant
                self.selectors@ == old(self).selectors@,
                self.observers@ == old(self).observers@,
                i <= self.observers@.len(),
                forall|k: int|
                    0 <= k < woken@.len() ==> #[trigger] woken@[k].oper > 2
                        && old(self).observers@.contains(woken@[k]),
                forall|j: int|
                    0 <= j < i && #[trigger] self.observers@[j].oper > 2 ==> woken@.contains(
                        self.observers@[j],
                    ) || was_refused(refused@, j),
            decreases self.observers@.len() - i,
        {
            let oper = self.observers[i].oper;
            if oper > 2 {
                match self.observers[i].cx.try_select(Selected::Operation(oper)) {
                    Ok(()) => {
                        let e = Entry {
                            cx: self.observers[i].cx.clone(),
                            oper,
                            packet: self.observers[i].packet,
                        };
                        let ghost before = woken@;
                        woken.push(e);
                        proof {
                            assert(e == self.observers@[i as int]);
                            assert(woken@[before.len() as int] == e);
                            assert forall|k: int|
                                0 <= k < woken@.len() implies #[trigger] woken@[k].oper > 2
                                && old(self).observers@.contains(woken@[k]) by {
                                if k < before.len() {
                                    assert(woken@[k] == before[k]);
                                } else {
                                    assert(old(self).observers@[i as int] == e);
                                }
                            }
                            assert forall|j: int|
                                0 <= j < i + 1 && #[trigger] self.observers@[j].oper > 2
                                    implies woken@.contains(self.observers@[j]) || was_refused(
                                refused@,
                                j,
                            ) by {
                                if j < i {
                                    if before.contains(self.observers@[j]) {
                                        let k = choose|k: int|
                                            0 <= k < before.len() && before[k]
                                                == self.observers@[j];
                                        assert(woken@[k] == before[k]);
                                    }
                                } else {
                                    assert(woken@[before.len() as int] == self.observers@[j]);
                                }
                            }
                        }
                    },
                    Err(state) => {
                        let ghost before = refused@;
                        refused.push(Refusal { index: i, state });
                        proof {
                            let n = before.len() as int;
                            assert(refused@[n].index == i);
                            assert forall|j: int|
                                0 <= j < i + 1 && #[trigger] self.observers@[j].oper > 2
                                    implies woken@.contains(self.observers@[j]) || was_refused(
                                refused@,
                                j,
                            ) by {
                                if j < i {
                                    if was_refused(before, j) {
                                        let k = choose|k: int|
                                            0 <= k < before.len() && #[trigger] before[k].index == j
                                                && before[k].state != Selected::Waiting;
                                        assert(refused@[k] == before[k]);
                                    }
                                } else {
                                    assert(refused@[n].index == j);
                                }
                            }
                        }
                    },
                }
            }
            i += 1;
        }
        self.observers = Vec::new();
        woken
    }

    /// Marks every waiting operation as closed and removes it, then tells the
    /// watchers. Returns the threads' entries to be woken: the waiting ones in
    /// order, then the watchers that accepted.
    pub fn close(&mut self) -> (r: Vec<Entry>)
        ensures
            final(self).wf(),
            final(self).selectors() == Seq::<Entry>::empty(),
            final(self).observers() == Seq::<Entry>::empty(),
            r@.len() >= old(self).selectors().len(),
            r@.take(old(self).selectors().len() as int) == old(self).selectors(),
    {
        let mut woken: Vec<Entry> = Vec::new();
        std::mem::swap(&mut woken, &mut self.selectors);
        let mut i: usize = 0;
        while i < woken.len()
            invariant
                woken@ == old(self).selectors@,
                i <= woken@.len(),
            decreases woken@.len() - i,
        {
            let _ = woken[i].cx.try_select(Selected::Closed);
            i += 1;
        }
        let mut refused: Vec<Refusal> = Vec::new();
        let mut watchers = self.notify(&mut refused);
        let ghost before = woken@;
        woken.append(&mut watchers);
        proof {
            assert(woken@.take(before.len() as int) =~= before);
        }
        woken
    }
}

} // verus!
