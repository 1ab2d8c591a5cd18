//! The pairing logic of a zero-capacity (rendezvous) channel.
//!
//! `Inner` is the record that the channel's lock protects: the waiting senders,
//! the waiting receivers, and whether the channel is closed. Every decision of
//! the channel is a method on it. Parking threads and moving the message through
//! the chosen packet happen around these calls, outside the lock.

use std::sync::Arc;
use vstd::prelude::*;
use crate::err::{RecvTimeoutError, SendTimeoutError, TryRecvError, TrySendError};
use crate::select::{is_operation_id, Context, Selected, Token};
use crate::waker::{
    has_other, holds_packet, index_of_oper, record_within, refused_before, was_refused, Entry,
    Refusal, Waker,
};

verus! {

/// Both registries hold the same entries.
pub open spec fn same_registry(a: Waker, b: Waker) -> bool {
    a.selectors() == b.selectors() && a.observers() == b.observers()
}

/// `after` is `before` with `e` paired away: `e` is the first waiting operation
/// of a thread other than `current` that accepted the selection. Every earlier
/// one of another thread refused, as `refused` records, and only `e` was removed.
pub open spec fn paired_first(
    before: Waker,
    after: Waker,
    current: u64,
    e: Entry,
    refused: Seq<Refusal>,
) -> bool {
    exists|i: int|
        0 <= i < before.selectors().len() && #[trigger] before.selectors()[i] == e && e.thread()
            != current && after.selectors() == before.selectors().remove(i) && after.observers()
            == before.observers() && refused_before(before.selectors(), current, i, refused)
            && record_within(before.selectors(), current, i, refused)
}

/// Nobody was paired: every waiting operation of a thread other than `current`
/// refused, as `refused` records.
pub open spec fn none_accepted(before: Waker, current: u64, refused: Seq<Refusal>) -> bool {
    refused_before(before.selectors(), current, before.selectors().len() as int, refused)
        && record_within(before.selectors(), current, before.selectors().len() as int, refused)
}

/// A packet is paired at most once: after its waiting operation has been paired
/// away, no waiting operation carries that packet any more.
pub proof fn lemma_paired_at_most_once(
    before: Waker,
    after: Waker,
    current: u64,
    e: Entry,
    refused: Seq<Refusal>,
)
    requires
        before.wf(),
        paired_first(before, after, current, e, refused),
    ensures
        forall|k: int|
            0 <= k < after.selectors().len() ==> #[trigger] after.selectors()[k].packet != e.packet,
{
    let i = choose|i: int|
        0 <= i < before.selectors().len() && #[trigger] before.selectors()[i] == e && e.thread()
            != current && after.selectors() == before.selectors().remove(i) && after.observers()
            == before.observers() && refused_before(before.selectors(), current, i, refused)
            && record_within(before.selectors(), current, i, refused);
    assert forall|k: int| 0 <= k < after.selectors().len() implies #[trigger] after.selectors()[k].packet
        != e.packet by {
        if k < i {
            assert(after.selectors()[k] == before.selectors()[k]);
            assert(before.selectors()[k].packet != before.selectors()[i].packet);
        } else {
            assert(after.selectors()[k] == before.selectors()[k + 1]);
            assert(before.selectors()[k + 1].packet != before.selectors()[i].packet);
        }
    }
}

/// Pairing follows registration order: when the operation registered at `b`
/// is paired, every operation of another thread registered before it, at `a`,
/// was offered first and refused.
pub proof fn lemma_first_registered_first_paired(
    before: Waker,
    after: Waker,
    current: u64,
    refused: Seq<Refusal>,
    a: int,
    b: int,
)
    requires
        before.wf(),
        0 <= a < b < before.selectors().len(),
        before.selectors()[a].thread() != current,
        paired_first(before, after, current, before.selectors()[b], refused),
    ensures
        was_refused(refused, a),
{
    let e = before.selectors()[b];
    let i = choose|i: int|
        0 <= i < before.selectors().len() && #[trigger] before.selectors()[i] == e && e.thread()
            != current && after.selectors() == before.selectors().remove(i) && after.observers()
            == before.observers() && refused_before(before.selectors(), current, i, refused)
            && record_within(before.selectors(), current, i, refused);
    if i != b {
        assert(before.selectors()[i].packet != before.selectors()[b].packet);
    }
    assert(i == b);
}

/// One step of a run of operations on a channel, as their contracts state it:
/// `Some(r)` is a call of `close` that returned `r`, which reports whether the
/// channel was open and leaves it closed; `None` is any other operation, which
/// leaves closedness as it was.
pub open spec fn run_step(before: Inner, after: Inner, closing: Option<bool>) -> bool {
    match closing {
        Some(r) => r == !before.closed() && after.closed(),
        None => after.closed() == before.closed(),
    }
}

/// A channel, once closed, stays closed for the rest of the run.
pub proof fn lemma_closed_stays(states: Seq<Inner>, steps: Seq<Option<bool>>, j: int, k: int)
    requires
        states.len() == steps.len() + 1,
        forall|n: int| 0 <= n < steps.len() ==> run_step(states[n], #[trigger] states[n + 1], steps[n]),
        0 <= j <= k < states.len(),
        states[j].closed(),
    ensures
        states[k].closed(),
    decreases k - j,
{
    if j < k {
        assert(run_step(states[j], states[j + 1], steps[j]));
        lemma_closed_stays(states, steps, j + 1, k);
    }
}

/// Closing is monotonic: over any run of operations on one channel, `close`
/// returns `true` at most once, and after that every `close` returns `false`.
pub proof fn lemma_close_true_once(states: Seq<Inner>, steps: Seq<Option<bool>>)
    requires
        states.len() == steps.len() + 1,
        forall|n: int| 0 <= n < steps.len() ==> run_step(states[n], #[trigger] states[n + 1], steps[n]),
    ensures
        forall|j: int, k: int|
            0 <= j < k < steps.len() && #[trigger] steps[j] == Some(true) && steps[k] is Some
                ==> #[trigger] steps[k] == Some(false),
{
    assert forall|j: int, k: int|
        0 <= j < k < steps.len() && #[trigger] steps[j] == Some(true) && steps[k] is Some
            implies #[trigger] steps[k] == Some(false) by {
        assert(run_step(states[j], states[j + 1], steps[j]));
        lemma_closed_stays(states, steps, j + 1, k);
        assert(run_step(states[k], states[k + 1], steps[k]));
    }
}

/// Registration order is kept: pairing or unregistering one waiting operation
/// leaves the others in the order in which they registered.
pub proof fn lemma_registration_order_kept(s: Seq<Entry>, i: int, a: int, b: int)
    requires
        0 <= i < s.len(),
        0 <= a < b < s.len(),
        a != i,
        b != i,
    ensures
        ({
            let a2 = if a < i {
                a
            } else {
                a - 1
            };
            let b2 = if b < i {
                b
            } else {
                b - 1
            };
            a2 < b2 && s.remove(i)[a2] == s[a] && s.remove(i)[b2] == s[b]
        }),
{
}

/// The state of a channel that its lock protects.
pub struct Inner {
    senders: Waker,
    receivers: Waker,
    is_closed: bool,
}

impl Inner {
    /// The waiting senders.
    pub closed spec fn senders(&self) -> Waker {
        self.senders
    }

    /// The waiting receivers.
    pub closed spec fn receivers(&self) -> Waker {
        self.receivers
    }

    /// Whether the channel is closed.
    pub closed spec fn closed(&self) -> bool {
        self.is_closed
    }

    /// Both registries are well formed, and a closed channel has nobody waiting.
    pub open spec fn wf(&self) -> bool {
        &&& self.senders().wf()
        &&& self.receivers().wf()
        &&& self.closed() ==> self.senders().selectors().len() == 0
            && self.receivers().selectors().len() == 0
    }

    /// An open channel with nobody waiting.
    pub fn new() -> (r: Inner)
        ensures
            r.wf(),
            !r.closed(),
            r.senders().selectors().len() == 0,
            r.receivers().selectors().len() == 0,
    {
        Inner { senders: Waker::new(), receivers: Waker::new(), is_closed: false }
    }

    /// Tries to pair a send with the first waiting receiver of another thread
    /// whose context accepts.
    ///
    /// Returns whether the send can complete now: then the token holds the
    /// receiver's packet and its entry is appended to `woken`, or the token
    /// holds zero where the channel is closed. The receivers that refused
    /// before are left in `refused`.
    pub fn start_send(
        &mut self,
        token: &mut Token,
        current: u64,
        woken: &mut Vec<Entry>,
        refused: &mut Vec<Refusal>,
    ) -> (r: bool)
        requires
            old(self).wf(),
        ensures
            final(self).wf(),
            final(self).closed() == old(self).closed(),
            same_registry(final(self).senders(), old(self).senders()),
            old(self).closed() ==> r && final(token).zero == 0 && same_registry(
                final(self).receivers(),
                old(self).receivers(),
            ) && final(woken)@ == old(woken)@,
            !old(self).closed() && r ==> final(token).zero != 0 && final(woken)@.len() == old(
                woken,
            )@.len() + 1 && final(woken)@.drop_last() == old(woken)@ && final(woken)@.last().packet
                == final(token).zero && paired_first(
                old(self).receivers(),
                final(self).receivers(),
                current,
                final(woken)@.last(),
                final(refused)@,
            ),
            !r ==> final(token).zero == old(token).zero && final(woken)@ == old(woken)@
                && same_registry(final(self).receivers(), old(self).receivers()) && none_accepted(
                old(self).receivers(),
                current,
                final(refused)@,
            ),
    {
        match self.receivers.try_select(current, refused) {
            Some(e) => {
                proof {
                    let i = choose|i: int|
                        0 <= i < old(self).receivers.selectors().len() && e == old(
                            self,
                        ).receivers.selectors()[i] && e.thread() != current
                            && self.receivers.selectors() == old(self).receivers.selectors().remove(
                            i,
                        ) && refused_before(old(self).receivers.selectors(), current, i, refused@)
                            && record_within(old(self).receivers.selectors(), current, i, refused@);
                    assert(is_operation_id(old(self).receivers.selectors()[i].oper));
                    assert(old(self).receivers.selectors()[i] == e);
                }
                token.zero = e.packet;
                woken.push(e);
                proof {
                    assert(woken@.drop_last() =~= old(woken)@);
                }
                true
            },
            None => {
                if self.is_closed {
                    token.zero = 0;
                    true
                } else {
                    false
                }
            },
        }
    }

    /// Tries to pair a receive with the first waiting sender of another thread
    /// whose context accepts.
    ///
    /// Returns whether the receive can complete now: then the token holds the
    /// sender's packet and its entry is appended to `woken`, or the token
    /// holds zero where the channel is closed. The senders that refused
    /// before are left in `refused`.
    pub fn start_recv(
        &mut self,
        token: &mut Token,
        current: u64,
        woken: &mut Vec<Entry>,
        refused: &mut Vec<Refusal>,
    ) -> (r: bool)
        requires
            old(self).wf(),
        ensures
            final(self).wf(),
            final(self).closed() == old(self).closed(),
            same_registry(final(self).receivers(), old(self).receivers()),
            old(self).closed() ==> r && final(token).zero == 0 && same_registry(
                final(self).senders(),
                old(self).senders(),
            ) && final(woken)@ == old(woken)@,
            !old(self).closed() && r ==> final(token).zero != 0 && final(woken)@.len() == old(
                woken,
            )@.len() + 1 && final(woken)@.drop_last() == old(woken)@ && final(woken)@.last().packet
                == final(token).zero && paired_first(
                old(self).senders(),
                final(self).senders(),
                current,
                final(woken)@.last(),
                final(refused)@,
            ),
            !r ==> final(token).zero == old(token).zero && final(woken)@ == old(woken)@
                && same_registry(final(self).senders(), old(self).senders()) && none_accepted(
                old(self).senders(),
                current,
                final(refused)@,
            ),
    {
        match self.senders.try_select(current, refused) {
            Some(e) => {
                proof {
                    let i = choose|i: int|
                        0 <= i < old(self).senders.selectors().len() && e == old(
                            self,
                        ).senders.selectors()[i] && e.thread() != current
                            && self.senders.selectors() == old(self).senders.selectors().remove(
                            i,
                        ) && refused_before(old(self).senders.selectors(), current, i, refused@)
                            && record_within(old(self).senders.selectors(), current, i, refused@);
                    assert(is_operation_id(old(self).senders.selectors()[i].oper));
                    assert(old(self).senders.selectors()[i] == e);
                }
                token.zero = e.packet;
                woken.push(e);
                proof {
                    assert(woken@.drop_last() =~= old(woken)@);
                }
                true
            },
            None => {
                if self.is_closed {
                    token.zero = 0;
                    true
                } else {
                    false
                }
            },
        }
    }

    /// The decision of a non-blocking send of `msg`.
    ///
    /// `Ok((e, msg))`: the receive `e`, the first waiting one of another thread
    /// that accepted, is now paired; `msg` is to be written into its packet and
    /// its thread woken. Otherwise the message comes back: `Closed` where the
    /// channel is closed, `Full` where every waiting receive refused. Nothing is
    /// kept in the channel. The receives that refused are left in `refused`.
    pub fn try_send<T>(&mut self, msg: T, current: u64, refused: &mut Vec<Refusal>) -> (r: Result<
        (Entry, T),
        TrySendError<T>,
    >)
        requires
            old(self).wf(),
        ensures
            final(self).wf(),
            final(self).closed() == old(self).closed(),
            same_registry(final(self).senders(), old(self).senders()),
            match r {
                Ok((e, m)) => m == msg && !old(self).closed() && e.packet != 0 && paired_first(
                    old(self).receivers(),
                    final(self).receivers(),
                    current,
                    e,
                    final(refused)@,
                ),
                Err(TrySendError::Closed(m)) => m == msg && old(self).closed() && same_registry(
                    final(self).receivers(),
                    old(self).receivers(),
                ),
                Err(TrySendError::Full(m)) => m == msg && !old(self).closed() && same_registry(
                    final(self).receivers(),
                    old(self).receivers(),
                ) && none_accepted(old(self).receivers(), current, final(refused)@),
            },
    {
        let mut token = Token::new();
        let mut woken: Vec<Entry> = Vec::new();
        if self.start_send(&mut token, current, &mut woken, refused) {
            if token.zero == 0 {
                Err(TrySendError::Closed(msg))
            } else {
                let e = woken.pop().unwrap();
                Ok((e, msg))
            }
        } else {
            Err(TrySendError::Full(msg))
        }
    }

    /// The decision of a non-blocking receive.
    ///
    /// `Ok(e)`: the send `e`, the first waiting one of another thread that
    /// accepted, is now paired; its message is to be taken from its packet.
    /// `Closed` where the channel is closed, `Empty` where every waiting send
    /// refused. The sends that refused are left in `refused`.
    pub fn try_recv(&mut self, current: u64, refused: &mut Vec<Refusal>) -> (r: Result<
        Entry,
        TryRecvError,
    >)
        requires
            old(self).wf(),
        ensures
            final(self).wf(),
            final(self).closed() == old(self).closed(),
            same_registry(final(self).receivers(), old(self).receivers()),
            match r {
                Ok(e) => !old(self).closed() && e.packet != 0 && paired_first(
                    old(self).senders(),
                    final(self).senders(),
                    current,
                    e,
                    final(refused)@,
                ),
                Err(TryRecvError::Closed) => old(self).closed() && same_registry(
                    final(self).senders(),
                    old(self).senders(),
                ),
                Err(TryRecvError::Empty) => !old(self).closed() && same_registry(
                    final(self).senders(),
                    old(self).senders(),
                ) && none_accepted(old(self).senders(), current, final(refused)@),
            },
    {
        let mut token = Token::new();
        let mut woken: Vec<Entry> = Vec::new();
        if self.start_recv(&mut token, current, &mut woken, refused) {
            if token.zero == 0 {
                Err(TryRecvError::Closed)
            } else {
                let e = woken.pop().unwrap();
                Ok(e)
            }
        } else {
            Err(TryRecvError::Empty)
        }
    }

    /// Whether a waiting send already carries the packet `packet`.
    pub fn send_holds_packet(&self, packet: usize) -> (r: bool)
        ensures
            r == holds_packet(self.senders().selectors(), packet),
    {
        self.senders.has_packet(packet)
    }

    /// Registers a waiting send of operation `oper` with its packet, and tells
    /// the receivers' watchers; returns those that accepted, to be woken.
    ///
    /// A closed channel takes no registration: `None`, and nothing changes.
    pub fn register_send(&mut self, oper: usize, packet: usize, cx: &Arc<Context>) -> (r: Option<
        Vec<Entry>,
    >)
        requires
            old(self).wf(),
            is_operation_id(oper),
            packet != 0,
            !holds_packet(old(self).senders().selectors(), packet),
        ensures
            final(self).wf(),
            final(self).closed() == old(self).closed(),
            r is None <==> old(self).closed(),
            r is None ==> same_registry(final(self).senders(), old(self).senders())
                && same_registry(final(self).receivers(), old(self).receivers()),
            r is Some ==> final(self).senders().selectors() == old(self).senders().selectors().push(
                Entry { cx: *cx, oper, packet },
            ) && final(self).senders().observers() == old(self).senders().observers()
                && final(self).receivers().selectors() == old(self).receivers().selectors()
                && final(self).receivers().observers().len() == 0 && forall|k: int|
                0 <= k < r->Some_0@.len() ==> #[trigger] r->Some_0@[k].oper > 2 && old(
                    self,
                ).receivers().observers().contains(r->Some_0@[k]),
    {
        if self.is_closed {
            return None;
        }
        self.senders.register_with_packet(oper, packet, cx);
        let mut refused: Vec<Refusal> = Vec::new();
        Some(self.receivers.notify(&mut refused))
    }

    /// Whether a waiting receive already carries the packet `packet`.
    pub fn recv_holds_packet(&self, packet: usize) -> (r: bool)
        ensures
            r == holds_packet(self.receivers().selectors(), packet),
    {
        self.receivers.has_packet(packet)
    }

    /// Registers a waiting receive of operation `oper` with its packet, and tells
    /// the senders' watchers; returns those that accepted, to be woken.
    ///
    /// A closed channel takes no registration: `None`, and nothing changes.
    pub fn register_recv(&mut self, oper: usize, packet: usize, cx: &Arc<Context>) -> (r: Option<
        Vec<Entry>,
    >)
        requires
            old(self).wf(),
            is_operation_id(oper),
            packet != 0,
            !holds_packet(old(self).receivers().selectors(), packet),
        ensures
            final(self).wf(),
            final(self).closed() == old(self).closed(),
            r is None <==> old(self).closed(),
            r is None ==> same_registry(final(self).senders(), old(self).senders())
                && same_registry(final(self).receivers(), old(self).receivers()),
            r is Some ==> final(self).receivers().selectors() == old(self).receivers().selectors().push(
                Entry { cx: *cx, oper, packet },
            ) && final(self).receivers().observers() == old(self).receivers().observers()
                && final(self).senders().selectors() == old(self).senders().selectors()
                && final(self).senders().observers().len() == 0 && forall|k: int|
                0 <= k < r->Some_0@.len() ==> #[trigger] r->Some_0@[k].oper > 2 && old(
                    self,
                ).senders().observers().contains(r->Some_0@[k]),
    {
        if self.is_closed {
            return None;
        }
        self.receivers.register_with_packet(oper, packet, cx);
        let mut refused: Vec<Refusal> = Vec::new();
        Some(self.senders.notify(&mut refused))
    }

    /// Removes the first waiting send of operation `oper`; `None` where
    /// there is none, and then nothing changes.
    pub fn unregister_send(&mut self, oper: usize) -> (r: Option<Entry>)
        requires
            old(self).wf(),
        ensures
            final(self).wf(),
            final(self).closed() == old(self).closed(),
            same_registry(final(self).receivers(), old(self).receivers()),
            final(self).senders().observers() == old(self).senders().observers(),
            match r {
                Some(e) => exists|i: int|
                    index_of_oper(old(self).senders().selectors(), oper, i) && e == old(
                        self,
                    ).senders().selectors()[i] && final(self).senders().selectors() == old(
                        self,
                    ).senders().selectors().remove(i),
                None => final(self).senders().selectors() == old(self).senders().selectors()
                    && forall|j: int|
                    0 <= j < old(self).senders().selectors().len() ==> #[trigger] old(
                        self,
                    ).senders().selectors()[j].oper != oper,
            },
    {
        self.senders.unregister(oper)
    }

    /// Removes the first waiting receive of operation `oper`; `None` where
    /// there is none, and then nothing changes.
    pub fn unregister_recv(&mut self, oper: usize) -> (r: Option<Entry>)
        requires
            old(self).wf(),
        ensures
            final(self).wf(),
            final(self).closed() == old(self).closed(),
            same_registry(final(self).senders(), old(self).senders()),
            final(self).receivers().observers() == old(self).receivers().observers(),
            match r {
                Some(e) => exists|i: int|
                    index_of_oper(old(self).receivers().selectors(), oper, i) && e == old(
                        self,
                    ).receivers().selectors()[i] && final(self).receivers().selectors() == old(
                        self,
                    ).receivers().selectors().remove(i),
                None => final(self).receivers().selectors() == old(self).receivers().selectors()
                    && forall|j: int|
                    0 <= j < old(self).receivers().selectors().len() ==> #[trigger] old(
                        self,
                    ).receivers().selectors()[j].oper != oper,
            },
    {
        self.receivers.unregister(oper)
    }

    /// Subscribes a select case on the sending side to hear of changes.
    pub fn watch_send(&mut self, oper: usize, cx: &Arc<Context>)
        requires
            old(self).wf(),
        ensures
            final(self).wf(),
            final(self).closed() == old(self).closed(),
            same_registry(final(self).receivers(), old(self).receivers()),
            final(self).senders().selectors() == old(self).senders().selectors(),
            final(self).senders().observers() == old(self).senders().observers().push(
                Entry { cx: *cx, oper, packet: 0 },
            ),
    {
        self.senders.watch(oper, cx);
    }

    /// Cancels the subscriptions of the sending select case `oper`.
    pub fn unwatch_send(&mut self, oper: usize)
        requires
            old(self).wf(),
        ensures
            final(self).wf(),
            final(self).closed() == old(self).closed(),
            same_registry(final(self).receivers(), old(self).receivers()),
            final(self).senders().selectors() == old(self).senders().selectors(),
            final(self).senders().observers() == old(self).senders().observers().filter(
                |e: Entry| e.oper != oper,
            ),
    {
        self.senders.unwatch(oper);
    }

    /// Subscribes a select case on the receiving side to hear of changes.
    pub fn watch_recv(&mut self, oper: usize, cx: &Arc<Context>)
        requires
            old(self).wf(),
        ensures
            final(self).wf(),
            final(self).closed() == old(self).closed(),
            same_registry(final(self).senders(), old(self).senders()),
            final(self).receivers().selectors() == old(self).receivers().selectors(),
            final(self).receivers().observers() == old(self).receivers().observers().push(
                Entry { cx: *cx, oper, packet: 0 },
            ),
    {
        self.receivers.watch(oper, cx);
    }

    /// Cancels the subscriptions of the receiving select case `oper`.
    pub fn unwatch_recv(&mut self, oper: usize)
        requires
            old(self).wf(),
        ensures
            final(self).wf(),
            final(self).closed() == old(self).closed(),
            same_registry(final(self).senders(), old(self).senders()),
            final(self).receivers().selectors() == old(self).receivers().selectors(),
            final(self).receivers().observers() == old(self).receivers().observers().filter(
                |e: Entry| e.oper != oper,
            ),
    {
        self.receivers.unwatch(oper);
    }

    /// Whether the channel is closed.
    pub fn is_closed(&self) -> (r: bool)
        ensures
            r == self.closed(),
    {
        self.is_closed
    }

    /// Whether a send could pair now: another thread's receive waits, or the
    /// channel is closed.
    pub fn is_send_ready(&self, current: u64) -> (r: bool)
        ensures
            r == (has_other(self.receivers().selectors(), current) || self.closed()),
    {
        self.receivers.can_select(current) || self.is_closed
    }

    /// Whether a receive could pair now: another thread's send waits, or the
    /// channel is closed.
    pub fn is_recv_ready(&self, current: u64) -> (r: bool)
        ensures
            r == (has_other(self.senders().selectors(), current) || self.closed()),
    {
        self.senders.can_select(current) || self.is_closed
    }

    /// Closes the channel: every waiting operation is marked closed and removed,
    /// and the entries to be woken are appended to `woken`.
    ///
    /// Returns `true` only on the call that closed the channel.
    pub fn close(&mut self, woken: &mut Vec<Entry>) -> (r: bool)
        requires
            old(self).wf(),
        ensures
            final(self).wf(),
            r == !old(self).closed(),
            final(self).closed(),
            final(self).senders().selectors().len() == 0,
            final(self).receivers().selectors().len() == 0,
            !r ==> same_registry(final(self).senders(), old(self).senders()) && same_registry(
                final(self).receivers(),
                old(self).receivers(),
            ) && final(woken)@ == old(woken)@,
            r ==> final(woken)@.take(old(woken)@.len() as int) == old(woken)@,
            r ==> forall|e: Entry|
                old(self).senders().selectors().contains(e) || old(
                    self,
                ).receivers().selectors().contains(e) ==> #[trigger] final(woken)@.contains(e),
    {
        if self.is_closed {
            return false;
        }
        self.is_closed = true;
        let ghost w0 = woken@;
        let ghost ss = self.senders.selectors();
        let ghost rs = self.receivers.selectors();
        let mut s = self.senders.close();
        let mut q = self.receivers.close();
        let ghost s_all = s@;
        let ghost q_all = q@;
        woken.append(&mut s);
        woken.append(&mut q);
        proof {
            assert(woken@ == w0 + s_all + q_all);
            assert(woken@.take(w0.len() as int) =~= w0);
            assert forall|e: Entry| ss.contains(e) || rs.contains(e) implies #[trigger] woken@.contains(
                e,
            ) by {
                if ss.contains(e) {
                    let k = choose|k: int| 0 <= k < ss.len() && ss[k] == e;
                    assert(s_all.take(ss.len() as int)[k] == e);
                    assert(woken@[w0.len() + k] == e);
                } else {
                    let k = choose|k: int| 0 <= k < rs.len() && rs[k] == e;
                    assert(q_all.take(rs.len() as int)[k] == e);
                    assert(woken@[w0.len() + s_all.len() + k] == e);
                }
            }
        }
        true
    }

    /// A rendezvous channel buffers nothing: its length is zero.
    pub fn len(&self) -> (r: usize)
        ensures
            r == 0,
    {
        0
    }

    /// A rendezvous channel has capacity zero.
    pub fn capacity(&self) -> (r: Option<usize>)
        ensures
            r == Some(0usize),
    {
        Some(0)
    }

    /// A rendezvous channel is always empty.
    pub fn is_empty(&self) -> (r: bool)
        ensures
            r,
    {
        true
    }

    /// A rendezvous channel is always full.
    pub fn is_full(&self) -> (r: bool)
        ensures
            r,
    {
        true
    }
}

/// Where the token sends a message: the packet's address, or the message back
/// where the token holds zero, the channel having been found closed.
pub fn write_target<T>(token: &Token, msg: T) -> (r: Result<(usize, T), T>)
    ensures
        token.zero == 0 ==> r == Err::<(usize, T), T>(msg),
        token.zero != 0 ==> r == Ok::<(usize, T), T>((token.zero, msg)),
{
    if token.zero == 0 {
        Err(msg)
    } else {
        Ok((token.zero, msg))
    }
}

/// Where the token receives from: the packet's address, or an error where
/// the token holds zero, the channel having been found closed.
pub fn read_source(token: &Token) -> (r: Result<usize, ()>)
    ensures
        token.zero == 0 ==> r == Err::<usize, ()>(()),
        token.zero != 0 ==> r == Ok::<usize, ()>(token.zero),
{
    if token.zero == 0 {
        Err(())
    } else {
        Ok(token.zero)
    }
}

/// The outcome of a blocking send once its thread has been woken in state `sel`.
///
/// Paired: delivered. Aborted or closed: `msg`, taken back from the packet,
/// comes back in the error.
pub fn send_result<T>(sel: Selected, msg: Option<T>) -> (r: Result<(), SendTimeoutError<T>>)
    requires
        !(sel is Waiting),
        !(sel is Operation) ==> msg is Some,
    ensures
        sel is Operation ==> r is Ok,
        sel is Aborted ==> r == Err::<(), SendTimeoutError<T>>(
            SendTimeoutError::Timeout(msg->Some_0),
        ),
        sel is Closed ==> r == Err::<(), SendTimeoutError<T>>(SendTimeoutError::Closed(msg->Some_0)),
{
    match sel {
        Selected::Operation(_) => Ok(()),
        Selected::Aborted => Err(SendTimeoutError::Timeout(msg.unwrap())),
        _ => Err(SendTimeoutError::Closed(msg.unwrap())),
    }
}

/// The outcome of a blocking receive once its thread has been woken in state `sel`.
///
/// Paired: the message taken from the packet. Aborted: timeout. Closed: closed.
pub fn recv_result<T>(sel: Selected, msg: Option<T>) -> (r: Result<T, RecvTimeoutError>)
    requires
        !(sel is Waiting),
        sel is Operation ==> msg is Some,
    ensures
        sel is Operation ==> r == Ok::<T, RecvTimeoutError>(msg->Some_0),
        sel is Aborted ==> r == Err::<T, RecvTimeoutError>(RecvTimeoutError::Timeout),
        sel is Closed ==> r == Err::<T, RecvTimeoutError>(RecvTimeoutError::Closed),
{
    match sel {
        Selected::Operation(_) => Ok(msg.unwrap()),
        Selected::Aborted => Err(RecvTimeoutError::Timeout),
        _ => Err(RecvTimeoutError::Closed),
    }
}

} // verus!
