use std::cell::Cell;
use std::rc::Rc;
use std::sync::Arc;

use rendezvous::err::{RecvTimeoutError, SendTimeoutError, TryRecvError, TrySendError};
use rendezvous::packet::Packet;
use rendezvous::select::{Context, Selected, Token};
use rendezvous::waker::Refusal;
use rendezvous::zero::{read_source, recv_result, send_result, write_target, Inner};

#[test]
fn capacity_len_empty_full() {
    let inner = Inner::new();
    assert_eq!(inner.capacity(), Some(0));
    assert_eq!(inner.len(), 0);
    assert!(inner.is_empty());
    assert!(inner.is_full());
}

#[test]
fn try_send_without_receiver_is_full() {
    let mut inner = Inner::new();
    assert!(matches!(inner.try_send(7, 1, &mut Vec::new()), Err(TrySendError::Full(7))));
    assert!(matches!(inner.try_recv(1, &mut Vec::new()), Err(TryRecvError::Empty)));
}

#[test]
fn rendezvous_pairs_waiting_receiver() {
    let mut inner = Inner::new();
    let receiver = Arc::new(Context::new(1));
    assert!(inner.register_recv(100, 0x1000, &receiver).is_some());
    assert!(inner.is_send_ready(2));
    assert!(!inner.is_send_ready(1));
    let (e, m) = inner.try_send(7, 2, &mut Vec::new()).ok().unwrap();
    assert_eq!((e.packet, e.oper, e.cx.thread_id(), m), (0x1000, 100, 1, 7));
    assert_eq!(receiver.selected(), Selected::Operation(100));
    assert_eq!(receiver.packet(), 0x1000);
    assert!(matches!(inner.try_send(8, 2, &mut Vec::new()), Err(TrySendError::Full(8))));
}

#[test]
fn no_pairing_with_own_thread() {
    let mut inner = Inner::new();
    let me = Arc::new(Context::new(5));
    assert!(inner.register_send(10, 0x40, &me).is_some());
    assert!(matches!(inner.try_recv(5, &mut Vec::new()), Err(TryRecvError::Empty)));
    assert!(!inner.is_recv_ready(5));
    assert_eq!(inner.try_recv(6, &mut Vec::new()).ok().unwrap().packet, 0x40);
}

#[test]
fn waiting_senders_are_paired_in_order() {
    let mut inner = Inner::new();
    let a = Arc::new(Context::new(1));
    let b = Arc::new(Context::new(2));
    assert!(inner.register_send(10, 0xa0, &a).is_some());
    assert!(inner.register_send(20, 0xb0, &b).is_some());
    assert_eq!(inner.try_recv(3, &mut Vec::new()).ok().unwrap().packet, 0xa0);
    assert_eq!(inner.try_recv(3, &mut Vec::new()).ok().unwrap().packet, 0xb0);
    assert!(matches!(inner.try_recv(3, &mut Vec::new()), Err(TryRecvError::Empty)));
}

#[test]
fn aborted_waiter_is_skipped() {
    let mut inner = Inner::new();
    let a = Arc::new(Context::new(1));
    let b = Arc::new(Context::new(2));
    assert!(inner.register_send(10, 0xa0, &a).is_some());
    assert!(inner.register_send(20, 0xb0, &b).is_some());
    assert_eq!(a.try_select(Selected::Aborted), Ok(()));
    assert_eq!(inner.try_recv(3, &mut Vec::new()).ok().unwrap().packet, 0xb0);
    assert!(inner.unregister_send(10).is_some());
    assert!(matches!(inner.try_recv(3, &mut Vec::new()), Err(TryRecvError::Empty)));
}

#[test]
fn select_timeout_leaves_registry_empty() {
    let mut inner = Inner::new();
    let cx = Arc::new(Context::new(1));
    assert!(inner.register_recv(30, 0x300, &cx).is_some());
    assert_eq!(cx.try_select(Selected::Aborted), Ok(()));
    assert_eq!(recv_result::<i32>(cx.selected(), None), Err(RecvTimeoutError::Timeout));
    assert!(inner.unregister_recv(30).is_some());
    assert!(!inner.is_send_ready(2));
    assert!(inner.unregister_recv(30).is_none());
}

#[test]
fn close_wakes_waiting_receiver() {
    let mut inner = Inner::new();
    let cx = Arc::new(Context::new(1));
    assert!(inner.register_recv(40, 0x400, &cx).is_some());
    let mut woken = Vec::new();
    assert!(inner.close(&mut woken));
    assert_eq!(woken.len(), 1);
    assert_eq!(woken[0].oper, 40);
    assert_eq!(cx.selected(), Selected::Closed);
    assert_eq!(recv_result::<i32>(cx.selected(), None), Err(RecvTimeoutError::Closed));
}

#[test]
fn close_returns_true_once() {
    let mut inner = Inner::new();
    let mut woken = Vec::new();
    assert!(inner.close(&mut woken));
    assert!(!inner.close(&mut woken));
    assert!(!inner.close(&mut woken));
    assert!(woken.is_empty());
}

#[test]
fn closed_channel_refuses_everything() {
    let mut inner = Inner::new();
    let mut woken = Vec::new();
    inner.close(&mut woken);
    assert!(matches!(inner.try_send(3, 1, &mut Vec::new()), Err(TrySendError::Closed(3))));
    assert!(matches!(inner.try_recv(1, &mut Vec::new()), Err(TryRecvError::Closed)));
    let cx = Arc::new(Context::new(1));
    assert!(inner.register_send(50, 0x500, &cx).is_none());
    assert!(inner.is_send_ready(1));
    assert!(inner.is_recv_ready(1));
    let mut token = Token::new();
    let mut paired = Vec::new();
    assert!(inner.start_send(&mut token, 1, &mut paired, &mut Vec::new()));
    assert_eq!(token.zero, 0);
    assert!(paired.is_empty());
    assert_eq!(write_target(&token, 9), Err(9));
    assert_eq!(read_source(&token), Err(()));
}

#[test]
fn start_recv_fills_token() {
    let mut inner = Inner::new();
    let cx = Arc::new(Context::new(1));
    assert!(inner.register_send(60, 0x600, &cx).is_some());
    let mut token = Token::new();
    let mut paired = Vec::new();
    assert!(inner.start_recv(&mut token, 2, &mut paired, &mut Vec::new()));
    assert_eq!(token.zero, 0x600);
    assert_eq!(paired.len(), 1);
    assert_eq!(paired[0].oper, 60);
    assert_eq!(read_source(&token), Ok(0x600));
    assert_eq!(write_target(&token, 'x'), Ok((0x600, 'x')));
    let mut other = Token::new();
    assert!(!inner.start_recv(&mut other, 2, &mut paired, &mut Vec::new()));
    assert_eq!(paired.len(), 1);
    assert_eq!(other.zero, 0);
}

#[test]
fn watchers_are_told_of_registration() {
    let mut inner = Inner::new();
    let watcher = Arc::new(Context::new(1));
    let receiver = Arc::new(Context::new(2));
    inner.watch_send(80, &watcher);
    assert!(!inner.is_send_ready(1));
    let woken = inner.register_recv(90, 0x900, &receiver).unwrap();
    assert_eq!(woken.len(), 1);
    assert_eq!(woken[0].oper, 80);
    assert_eq!(watcher.selected(), Selected::Operation(80));
    assert!(inner.is_send_ready(1));
    let again = inner.register_recv(91, 0x910, &receiver).unwrap();
    assert!(again.is_empty());
}

#[test]
fn unwatch_removes_subscription() {
    let mut w = rendezvous::waker::Waker::new();
    let cx = Arc::new(Context::new(1));
    w.watch(80, &cx);
    w.watch(81, &cx);
    w.unwatch(80);
    let woken = w.notify(&mut Vec::new());
    assert_eq!(woken.len(), 1);
    assert_eq!(woken[0].oper, 81);
}

#[test]
fn send_results_give_message_back() {
    assert_eq!(send_result(Selected::Operation(5), None::<u8>), Ok(()));
    assert_eq!(send_result(Selected::Aborted, Some(4u8)), Err(SendTimeoutError::Timeout(4)));
    assert_eq!(send_result(Selected::Closed, Some(4u8)), Err(SendTimeoutError::Closed(4)));
    assert_eq!(recv_result(Selected::Operation(5), Some(6u8)), Ok(6));
    assert_eq!(SendTimeoutError::Closed(11).into_inner(), 11);
    assert_eq!(TrySendError::Full(12).into_inner(), 12);
}

#[test]
fn failed_send_leaks_no_copy() {
    let payload = Rc::new(Cell::new(0));
    let mut inner = Inner::new();
    match inner.try_send(payload.clone(), 1, &mut Vec::new()) {
        Err(TrySendError::Full(m)) => {
            assert_eq!(Rc::strong_count(&payload), 2);
            drop(m);
        }
        _ => panic!("nobody was waiting"),
    }
    assert_eq!(Rc::strong_count(&payload), 1);
    let mut woken = Vec::new();
    inner.close(&mut woken);
    match inner.try_send(payload.clone(), 1, &mut Vec::new()) {
        Err(TrySendError::Closed(m)) => drop(m),
        _ => panic!("the channel is closed"),
    }
    assert_eq!(Rc::strong_count(&payload), 1);
}

#[test]
fn selected_words_round_trip() {
    for sel in [Selected::Waiting, Selected::Aborted, Selected::Closed, Selected::Operation(3), Selected::Operation(77)] {
        assert_eq!(Selected::from_usize(sel.into_usize()), sel);
    }
    assert_eq!(Selected::Closed.into_usize(), 2);
}

#[test]
fn packets_record_where_they_live() {
    assert!(Packet::<u8>::empty_on_stack().on_stack);
    assert!(!Packet::<u8>::empty_on_heap().on_stack);
    let p = Packet::message_on_stack(5u8);
    assert!(p.on_stack);
    assert_eq!(p.msg.into_inner(), Some(5));
}

#[test]
fn context_selection_happens_once() {
    let cx = Context::new(9);
    assert_eq!(cx.thread_id(), 9);
    assert_eq!(cx.selected(), Selected::Waiting);
    assert_eq!(cx.try_select(Selected::Operation(12)), Ok(()));
    assert_eq!(cx.try_select(Selected::Aborted), Err(Selected::Operation(12)));
    cx.reset();
    assert_eq!(cx.selected(), Selected::Waiting);
    assert_eq!(cx.packet(), 0);
}

#[test]
fn refusals_are_recorded_before_the_pairing() {
    let mut inner = Inner::new();
    let a = Arc::new(Context::new(1));
    let b = Arc::new(Context::new(2));
    let c = Arc::new(Context::new(3));
    assert!(inner.register_send(10, 0xa0, &a).is_some());
    assert!(inner.register_send(20, 0xb0, &b).is_some());
    assert!(inner.register_send(30, 0xc0, &c).is_some());
    assert_eq!(a.try_select(Selected::Aborted), Ok(()));
    let mut refused = Vec::new();
    let e = inner.try_recv(3, &mut refused).ok().unwrap();
    assert_eq!(e.oper, 20);
    assert_eq!(refused, vec![Refusal { index: 0, state: Selected::Aborted }]);
    assert!(inner.send_holds_packet(0xa0));
    assert!(!inner.send_holds_packet(0xb0));
    assert!(inner.unregister_send(10).is_some());
    assert!(matches!(inner.try_recv(3, &mut refused), Err(TryRecvError::Empty)));
    assert!(refused.is_empty());
}

#[test]
fn is_closed_reports_close() {
    let mut inner = Inner::new();
    assert!(!inner.is_closed());
    inner.close(&mut Vec::new());
    assert!(inner.is_closed());
}
