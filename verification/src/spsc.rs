//! Single Producer Single Consumer channels: the state of a one-slot channel and what polling
//! its send and receive futures does to it.
use vstd::prelude::*;
use std::task::Waker;

use crate::task::clone_waker;

verus! {

/// `async`-aware channel with room for one message
pub struct Channel<T> {
    buffer: Option<T>,
    recv_waker: Option<Waker>,
    send_waker: Option<Waker>,
}

/// Sending side of a channel
pub struct Sender {
    endpoint: (),
}

/// The receiving side of a channel
pub struct Receiver {
    endpoint: (),
}

/// What polling a send future gives.
pub enum SendPoll<T> {
    /// The message is in the channel; wake the receiver with this waker, if any.
    Ready(Option<Waker>),
    /// The channel is full; the message stays with the future.
    Pending(T),
}

/// What polling a receive future gives.
pub enum RecvPoll<T> {
    /// The message taken out of the channel, and the waker of the sender to wake, if any.
    Ready(T, Option<Waker>),
    /// The channel is empty.
    Pending,
}

/// The state of a channel that its futures act on.
pub struct ChannelState<T> {
    /// The message waiting in the channel, if any
    pub message: Option<T>,
    /// The waker that a waiting receiver left, if any
    pub receiver_waker: Option<Waker>,
    /// The waker that a waiting sender left, if any
    pub sender_waker: Option<Waker>,
}

/// The state after one poll of a send future: an empty channel takes the message and gives up
/// the receiver's waker, which is handed back to be woken; a full channel keeps its message and
/// the sender leaves `copy`, a copy of its waker, unless a sender's waker is already there.
pub open spec fn send_state<T>(c: ChannelState<T>, msg: T, copy: Waker) -> ChannelState<T> {
    if c.message is None {
        ChannelState { message: Some(msg), receiver_waker: None, sender_waker: c.sender_waker }
    } else {
        ChannelState { sender_waker: if c.sender_waker is Some { c.sender_waker } else { Some(copy) }, ..c }
    }
}

/// The state after one poll of the receive future: a waiting message is taken out and the
/// sender's waker given up, to be woken; on an empty channel the receiver leaves `copy`, a copy
/// of its waker, unless a receiver's waker is already there.
pub open spec fn recv_state<T>(c: ChannelState<T>, copy: Waker) -> ChannelState<T> {
    if c.message is Some {
        ChannelState { message: None, receiver_waker: c.receiver_waker, sender_waker: None }
    } else {
        ChannelState { receiver_waker: if c.receiver_waker is Some { c.receiver_waker } else { Some(copy) }, ..c }
    }
}

impl<T> View for Channel<T> {
    type V = ChannelState<T>;

    closed spec fn view(&self) -> ChannelState<T> {
        ChannelState { message: self.buffer, receiver_waker: self.recv_waker, sender_waker: self.send_waker }
    }
}

impl<T> Channel<T> {
    /// Creates a new channel
    pub fn new() -> (r: Self)
        ensures
            r@ == (ChannelState::<T> { message: None, receiver_waker: None, sender_waker: None }),
    {
        Self { buffer: None, recv_waker: None, send_waker: None }
    }

    /// Splits the channel in `sender` and `receiver` endpoints
    pub fn split(&mut self) -> (r: (Sender, Receiver))
        ensures
            *final(self) == *old(self),
    {
        (Sender { endpoint: () }, Receiver { endpoint: () })
    }

    /// One poll of the future that sends `msg`: if the channel is empty the message goes in and
    /// the receiver's waker, if any, is handed back to be woken; otherwise the message is handed
    /// back and a copy of `waker` is left for the sender, unless one is already there.
    pub fn poll_send(&mut self, sender: &Sender, msg: T, waker: &Waker) -> (r: SendPoll<T>)
        ensures
            exists|copy: Waker| final(self)@ == send_state(old(self)@, msg, copy),
            old(self)@.message is None ==> r == SendPoll::<T>::Ready(old(self)@.receiver_waker),
            old(self)@.message is Some ==> r == SendPoll::<T>::Pending(msg),
    {
        if self.buffer.is_none() {
            self.buffer = Some(msg);
            let woken = self.recv_waker.take();
            assert(self@ == send_state(old(self)@, msg, *waker));
            SendPoll::Ready(woken)
        } else {
            if self.send_waker.is_none() {
                let copy = clone_waker(waker);
                self.send_waker = Some(copy);
                assert(self@ == send_state(old(self)@, msg, self.send_waker->0));
            } else {
                assert(self@ == send_state(old(self)@, msg, self.send_waker->0));
            }
            SendPoll::Pending(msg)
        }
    }

    /// What dropping a send future does: takes the sender's waker out, to be dropped.
    pub fn drop_send(&mut self, sender: &Sender) -> (r: Option<Waker>)
        ensures
            final(self)@ == (ChannelState { sender_waker: None, ..old(self)@ }),
            r == old(self)@.sender_waker,
    {
        self.send_waker.take()
    }

    /// One poll of the receive future: if a message is waiting it is taken out and the sender's
    /// waker, if any, is handed back to be woken; otherwise a copy of `waker` is left for the
    /// receiver, unless one is already there.
    pub fn poll_recv(&mut self, receiver: &Receiver, waker: &Waker) -> (r: RecvPoll<T>)
        ensures
            exists|copy: Waker| final(self)@ == recv_state(old(self)@, copy),
            old(self)@.message matches Some(m) ==> r == RecvPoll::<T>::Ready(m, old(self)@.sender_waker),
            old(self)@.message is None ==> r is Pending,
    {
        match self.buffer.take() {
            Some(val) => {
                let woken = self.send_waker.take();
                assert(self@ == recv_state(old(self)@, *waker));
                RecvPoll::Ready(val, woken)
            },
            None => {
                if self.recv_waker.is_none() {
                    let copy = clone_waker(waker);
                    self.recv_waker = Some(copy);
                    assert(self@ == recv_state(old(self)@, self.recv_waker->0));
                } else {
                    assert(self@ == recv_state(old(self)@, self.recv_waker->0));
                }
                RecvPoll::Pending
            },
        }
    }

    /// What dropping a receive future does: takes the receiver's waker out, to be dropped.
    pub fn drop_recv(&mut self, receiver: &Receiver) -> (r: Option<Waker>)
        ensures
            final(self)@ == (ChannelState { receiver_waker: None, ..old(self)@ }),
            r == old(self)@.receiver_waker,
    {
        self.recv_waker.take()
    }
}

/// A message sent into an empty channel is the message that the next receive takes out, and the
/// channel is empty again after it.
pub proof fn sent_then_received<T>(c: ChannelState<T>, msg: T, send_copy: Waker, recv_copy: Waker)
    requires
        c.message is None,
    ensures
        send_state(c, msg, send_copy).message == Some(msg),
        recv_state(send_state(c, msg, send_copy), recv_copy).message is None,
{
}

/// A send into a full channel leaves the waiting message in place: nothing is overwritten.
pub proof fn full_channel_keeps_message<T>(c: ChannelState<T>, msg: T, copy: Waker)
    requires
        c.message is Some,
    ensures
        send_state(c, msg, copy).message == c.message,
{
}

/// Whatever the state, after a receive the channel has room, and the next send puts its message in.
pub proof fn receive_makes_room<T>(c: ChannelState<T>, msg: T, recv_copy: Waker, send_copy: Waker)
    ensures
        recv_state(c, recv_copy).message is None,
        send_state(recv_state(c, recv_copy), msg, send_copy).message == Some(msg),
{
}

/// A receive on an empty channel leaves the receiver's waker (its own copy, where none was
/// there) and keeps the channel empty, so that the next send, which hands back the receiver's
/// waker, wakes that receiver; and the mirror case for a send on a full channel.
pub proof fn waiting_side_is_woken<T>(c: ChannelState<T>, msg: T, copy: Waker)
    ensures
        c.message is None ==> recv_state(c, copy).message is None && recv_state(c, copy).receiver_waker == (
        if c.receiver_waker is Some { c.receiver_waker } else { Some(copy) }),
        c.message is Some ==> send_state(c, msg, copy).message is Some && send_state(c, msg, copy).sender_waker == (
        if c.sender_waker is Some { c.sender_waker } else { Some(copy) }),
{
}

} // verus!
