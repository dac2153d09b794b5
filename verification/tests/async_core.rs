use std::sync::atomic::{AtomicUsize, Ordering};
use std::sync::Arc;
use std::task::{Wake, Waker};

use embedded2020::mutex::{LockPoll, Mutex};
use embedded2020::spsc::{Channel, RecvPoll, SendPoll};
use embedded2020::task::{yield_now, YieldPoll};

struct Counter(AtomicUsize);

impl Wake for Counter {
    fn wake(self: Arc<Self>) {
        self.0.fetch_add(1, Ordering::SeqCst);
    }
}

fn counting_waker() -> (Arc<Counter>, Waker) {
    let c = Arc::new(Counter(AtomicUsize::new(0)));
    let w = Waker::from(c.clone());
    (c, w)
}

#[test]
fn yield_suspends_once() {
    let mut y = yield_now();
    assert_eq!(y.poll(), YieldPoll::WakeAndPend);
    assert_eq!(y.poll(), YieldPoll::Ready);
    assert_eq!(y.poll(), YieldPoll::Ready);
}

#[test]
fn sent_message_is_received() {
    let (_, w) = counting_waker();
    let mut ch: Channel<u32> = Channel::new();
    let (tx, rx) = ch.split();
    match ch.poll_send(&tx, 42, &w) {
        SendPoll::Ready(waker) => assert!(waker.is_none()),
        SendPoll::Pending(_) => panic!("an empty channel takes the message"),
    }
    match ch.poll_recv(&rx, &w) {
        RecvPoll::Ready(m, waker) => {
            assert_eq!(m, 42);
            assert!(waker.is_none());
        }
        RecvPoll::Pending => panic!("the message is there"),
    }
    assert!(matches!(ch.poll_recv(&rx, &w), RecvPoll::Pending));
}

#[test]
fn full_channel_keeps_second_message_with_sender() {
    let (sender_count, sw) = counting_waker();
    let (_, rw) = counting_waker();
    let mut ch: Channel<u8> = Channel::new();
    let (tx, rx) = ch.split();
    assert!(matches!(ch.poll_send(&tx, 1, &sw), SendPoll::Ready(None)));
    match ch.poll_send(&tx, 2, &sw) {
        SendPoll::Pending(m) => assert_eq!(m, 2),
        SendPoll::Ready(_) => panic!("the channel is full"),
    }
    match ch.poll_recv(&rx, &rw) {
        RecvPoll::Ready(m, Some(waker)) => {
            assert_eq!(m, 1);
            waker.wake();
        }
        _ => panic!("the first message is there and the sender waits"),
    }
    assert_eq!(sender_count.0.load(Ordering::SeqCst), 1);
}

#[test]
fn waiting_receiver_is_woken_by_send() {
    let (recv_count, rw) = counting_waker();
    let (_, sw) = counting_waker();
    let mut ch: Channel<u8> = Channel::new();
    let (tx, rx) = ch.split();
    assert!(matches!(ch.poll_recv(&rx, &rw), RecvPoll::Pending));
    match ch.poll_send(&tx, 5, &sw) {
        SendPoll::Ready(Some(waker)) => waker.wake(),
        _ => panic!("the receiver waits"),
    }
    assert_eq!(recv_count.0.load(Ordering::SeqCst), 1);
    assert!(ch.drop_recv(&rx).is_none());
    assert!(ch.drop_send(&tx).is_none());
}

#[test]
fn mutex_lock_and_unlock() {
    let (_, w) = counting_waker();
    let mut m = Mutex::new(7u32);
    let g = match m.poll_lock(None, &w) {
        LockPoll::Ready(g) => g,
        LockPoll::Pending(_) => panic!("the mutex is free"),
    };
    assert_eq!(*m.get(&g), 7);
    assert_eq!(m.replace(&g, 8), 7);
    assert!(m.try_lock().is_none());
    assert!(m.unlock(g).is_none());
    let g = m.try_lock().unwrap();
    assert_eq!(*m.get(&g), 8);
}

#[test]
fn mutex_wakes_the_waiter_on_unlock() {
    let (count_a, wa) = counting_waker();
    let (_, wb) = counting_waker();
    let mut m = Mutex::new(());
    let g = m.try_lock().unwrap();
    let a = match m.poll_lock(None, &wa) {
        LockPoll::Pending(id) => id,
        LockPoll::Ready(_) => panic!("the mutex is held"),
    };
    assert!(m.is_waiting(a));
    assert!(matches!(m.poll_lock(Some(a), &wa), LockPoll::Pending(id) if id == a));
    let b = match m.poll_lock(None, &wb) {
        LockPoll::Pending(id) => id,
        LockPoll::Ready(_) => panic!("the mutex is held"),
    };
    assert_ne!(a, b);
    assert!(m.cancel(b).is_some());
    assert!(!m.is_waiting(b));
    let woken = m.unlock(g).unwrap();
    woken.wake();
    assert_eq!(count_a.0.load(Ordering::SeqCst), 1);
    assert!(!m.is_waiting(a));
    assert!(matches!(m.poll_lock(Some(a), &wa), LockPoll::Ready(_)));
}
