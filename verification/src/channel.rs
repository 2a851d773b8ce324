//! Channels between threads, by crossbeam.
//!
//! Everything in this file is taken on trust, as one picture of a channel: its two ends are
//! made together and for a purpose, which says what the channel takes; only what the channel
//! takes is ever sent; and what comes out at one end is something that was sent at the other.
//! Nothing else makes an end, and nothing else puts anything into a channel.

use vstd::prelude::*;
use crossbeam::channel::{Receiver, Sender};

verus! {

/// The sending end of a crossbeam channel. Nothing is known of what is in the channel.
#[verifier::external_type_specification]
#[verifier::external_body]
#[verifier::reject_recursive_types(T)]
pub struct ExSender<T>(Sender<T>);

/// The receiving end of a crossbeam channel. Nothing is known of what is in the channel.
#[verifier::external_type_specification]
#[verifier::external_body]
#[verifier::reject_recursive_types(T)]
pub struct ExReceiver<T>(Receiver<T>);

/// What a channel is made for: it says which messages the channel takes.
pub trait Admits<T> {
    spec fn admits(&self, msg: T) -> bool;
}

/// The end of a channel that messages go in at, with what may go in.
#[verifier::reject_recursive_types(T)]
pub struct SendingEnd<T> {
    sender: Sender<T>,
    accepts: Ghost<spec_fn(T) -> bool>,
}

/// The end of a channel that messages come out at, with what may have gone in.
#[verifier::reject_recursive_types(T)]
pub struct ReceivingEnd<T> {
    receiver: Receiver<T>,
    accepts: Ghost<spec_fn(T) -> bool>,
}

impl<T> SendingEnd<T> {
    /// What may be put into the channel.
    pub closed spec fn accepts(self) -> spec_fn(T) -> bool {
        self.accepts@
    }
}

impl<T> ReceivingEnd<T> {
    /// What may have been put into the channel.
    pub closed spec fn accepts(self) -> spec_fn(T) -> bool {
        self.accepts@
    }
}

/// Makes a channel without a bound, with `crossbeam::channel::unbounded`, and hands out its two
/// ends. The channel takes what its purpose admits.
#[verifier::external_body]
pub(crate) fn unbounded_ends<T, W: Admits<T>>(purpose: &W) -> (ends: (
    SendingEnd<T>,
    ReceivingEnd<T>,
))
    ensures
        forall|msg: T| #[trigger] (ends.0.accepts())(msg) <==> purpose.admits(msg),
        ends.1.accepts() == ends.0.accepts(),
{
    let (sender, receiver) = crossbeam::channel::unbounded();
    (
        SendingEnd { sender, accepts: Ghost(|msg: T| purpose.admits(msg)) },
        ReceivingEnd { receiver, accepts: Ghost(|msg: T| purpose.admits(msg)) },
    )
}

/// Makes a channel that holds at most `capacity` messages, with `crossbeam::channel::bounded`,
/// and hands out its two ends. With a capacity of 0 a send and a receive must meet. The
/// channel takes what its purpose admits. crossbeam stops the thread on a capacity whose
/// next power of two, doubled, no machine word holds.
#[verifier::external_body]
pub(crate) fn bounded_ends<T, W: Admits<T>>(capacity: usize, purpose: &W) -> (ends: (
    SendingEnd<T>,
    ReceivingEnd<T>,
))
    requires
        capacity < 0x4000_0000,
    ensures
        forall|msg: T| #[trigger] (ends.0.accepts())(msg) <==> purpose.admits(msg),
        ends.1.accepts() == ends.0.accepts(),
{
    let (sender, receiver) = crossbeam::channel::bounded(capacity);
    (
        SendingEnd { sender, accepts: Ghost(|msg: T| purpose.admits(msg)) },
        ReceivingEnd { receiver, accepts: Ghost(|msg: T| purpose.admits(msg)) },
    )
}

/// Sends `msg` with `Sender::send`. Where every receiver is gone the message is dropped.
#[verifier::external_body]
pub(crate) fn channel_send<T>(end: &SendingEnd<T>, msg: T)
    requires
        (end.accepts())(msg),
{
    let _ = end.sender.send(msg);
}

/// Takes the next message that is ready with `Receiver::try_recv`; `None` where there is none.
/// It never waits. What comes out was sent, so the channel takes it.
#[verifier::external_body]
pub(crate) fn channel_try_recv<T>(end: &ReceivingEnd<T>) -> (msg: Option<T>)
    ensures
        msg matches Some(m) ==> (end.accepts())(m),
{
    end.receiver.try_recv().ok()
}

/// Waits for a message with `Receiver::recv`; `None` once every sender is gone. What comes out
/// was sent, so the channel takes it.
#[verifier::external_body]
pub(crate) fn channel_recv<T>(end: &ReceivingEnd<T>) -> (msg: Option<T>)
    ensures
        msg matches Some(m) ==> (end.accepts())(m),
{
    end.receiver.recv().ok()
}

} // verus!
