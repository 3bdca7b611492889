//! The unbounded, non-blocking channels that carry packets between the
//! runtimes.
//!
//! The endpoints come from `crossbeam_channel`.  What is assumed of that crate
//! is collected at the top of this file; everything below it is verified
//! against those assumptions.

use vstd::prelude::*;
use crossbeam_channel::{Receiver, Sender, TryRecvError, TrySendError};

verus! {

/// The sending half of a `crossbeam_channel` channel.  Nothing is known of
/// its contents: the other half lives in another runtime.
#[verifier::external_type_specification]
#[verifier::external_body]
#[verifier::reject_recursive_types(T)]
pub struct ExSender<T>(Sender<T>);

/// The receiving half of a `crossbeam_channel` channel, equally opaque.
#[verifier::external_type_specification]
#[verifier::external_body]
#[verifier::reject_recursive_types(T)]
pub struct ExReceiver<T>(Receiver<T>);

/// `crossbeam_channel::unbounded` hands out the two halves of a fresh channel
/// without a capacity limit.  Nothing is claimed of them.
pub assume_specification<T>[ crossbeam_channel::unbounded::<T> ]() -> (halves: (
    Sender<T>,
    Receiver<T>,
));

/// `Receiver::len` reports how many messages are queued at the moment of the
/// call.  The number may be stale as soon as it is returned, so nothing is
/// claimed of it.
pub assume_specification<T>[ Receiver::<T>::len ](rx: &Receiver<T>) -> (queued: usize);

/// Why a receive attempt yielded no message.
#[derive(Clone, Copy, Debug, PartialEq, Eq, Structural)]
pub enum RecvStop {
    /// Nothing is queued right now.
    Empty,
    /// Nothing is queued and every sender is gone.
    Disconnected,
}

/// `Sender::try_send` never blocks.  When it fails, because the channel is
/// full or because every receiver is gone, the error it returns holds the
/// very message that was handed in; this is all that is claimed.
#[verifier::external_body]
pub(crate) fn try_send<T>(tx: &Sender<T>, msg: T) -> (outcome: Result<(), T>)
    ensures
        outcome matches Err(back) ==> back == msg,
{
    match tx.try_send(msg) {
        Ok(()) => Ok(()),
        Err(TrySendError::Full(back)) => Err(back),
        Err(TrySendError::Disconnected(back)) => Err(back),
    }
}

/// `Receiver::try_recv` never blocks.  Which message comes out, if any, is
/// decided by the sending side, so nothing is claimed of the result.
#[verifier::external_body]
pub(crate) fn try_recv<T>(rx: &Receiver<T>) -> (outcome: Result<T, RecvStop>) {
    match rx.try_recv() {
        Ok(msg) => Ok(msg),
        Err(TryRecvError::Empty) => Err(RecvStop::Empty),
        Err(TryRecvError::Disconnected) => Err(RecvStop::Disconnected),
    }
}

/// `Receiver::clone` makes one more receiver of the same channel.  Nothing is
/// claimed of it.
#[verifier::external_body]
pub(crate) fn clone_receiver<T>(rx: &Receiver<T>) -> (other: Receiver<T>) {
    rx.clone()
}

/// What one drain of a receiver brought in.
pub struct Drained<T> {
    /// The messages, oldest first.
    pub messages: Vec<T>,
    /// Whether the drain ended because every sender is gone.
    pub disconnected: bool,
}

impl<T> Drained<T> {
    /// A drain that has taken nothing yet.
    pub fn new() -> (drained: Self)
        ensures
            drained.messages@ == Seq::<T>::empty(),
            !drained.disconnected,
    {
        Drained { messages: Vec::new(), disconnected: false }
    }

    /// Takes in the outcome of one receive attempt.  A message joins those
    /// that were taken before it.  A failed attempt ends the drain and tells
    /// whether every sender is gone.  Returns whether another attempt is in
    /// order.
    pub fn note(&mut self, outcome: Result<T, RecvStop>) -> (more: bool)
        ensures
            match outcome {
                Ok(msg) => {
                    &&& more
                    &&& final(self).messages@ == old(self).messages@.push(msg)
                    &&& final(self).disconnected == old(self).disconnected
                },
                Err(stop) => {
                    &&& !more
                    &&& final(self).messages@ == old(self).messages@
                    &&& final(self).disconnected == (stop == RecvStop::Disconnected)
                },
            },
    {
        match outcome {
            Ok(msg) => {
                self.messages.push(msg);
                true
            },
            Err(stop) => {
                self.disconnected = stop == RecvStop::Disconnected;
                false
            },
        }
    }
}

/// Takes what is queued on `rx`, oldest message first, without ever
/// waiting: as many messages as were queued when the call began, and one
/// more where one has arrived meanwhile.  The last attempt is what tells an
/// empty channel from a disconnected one.  What comes in is decided by the
/// sending side alone; what is done with the outcome of each attempt is
/// `Drained::note`.
pub(crate) fn drain<T>(rx: &Receiver<T>) -> (drained: Drained<T>) {
    let queued: usize = rx.len();
    let mut drained = Drained::new();
    let mut more = true;
    let mut taken: usize = 0;
    while taken < queued && more
        invariant
            taken <= queued,
        decreases queued - taken,
    {
        more = drained.note(try_recv(rx));
        taken = taken + 1;
    }
    if more {
        drained.note(try_recv(rx));
    }
    drained
}

/// The source's sending half of a channel pair: what goes in comes out of a
/// `DioxusRxChannel`.
#[verifier::reject_recursive_types(T)]
pub struct BevyTxChannel<T>(pub Sender<T>);

impl<T> BevyTxChannel<T> {
    /// Pushes `msg` without blocking.  A message that could not leave comes
    /// back.
    pub fn send(&self, msg: T) -> (outcome: Result<(), T>)
        ensures
            outcome matches Err(back) ==> back == msg,
    {
        try_send(&self.0, msg)
    }
}

/// The source's receiving half of a channel pair: what comes out went into a
/// `DioxusTxChannel`.
#[verifier::reject_recursive_types(T)]
pub struct BevyRxChannel<T>(pub Receiver<T>);

impl<T> BevyRxChannel<T> {
    /// Takes what is queued, oldest message first, without blocking.
    pub fn drain(&self) -> Drained<T> {
        drain(&self.0)
    }
}

/// The observer's sending half of a channel pair: what goes in comes out of
/// a `BevyRxChannel`.
#[verifier::reject_recursive_types(T)]
pub struct DioxusTxChannel<T>(pub Sender<T>);

impl<T> DioxusTxChannel<T> {
    /// Pushes `msg` without blocking.  A message that could not leave comes
    /// back.
    pub fn send(&self, msg: T) -> (outcome: Result<(), T>)
        ensures
            outcome matches Err(back) ==> back == msg,
    {
        try_send(&self.0, msg)
    }
}

/// The observer's receiving half of a channel pair: what comes out went into
/// a `BevyTxChannel`.
#[verifier::reject_recursive_types(T)]
pub struct DioxusRxChannel<T>(pub Receiver<T>);

impl<T> DioxusRxChannel<T> {
    /// Takes what is queued, oldest message first, without blocking.
    pub fn drain(&self) -> Drained<T> {
        drain(&self.0)
    }

    /// One more receiving half of the same channel.
    pub fn another(&self) -> Self {
        DioxusRxChannel(clone_receiver(&self.0))
    }
}

/// A fresh channel without a capacity limit, from the source to the
/// observer.
pub fn source_to_observer<T>() -> (BevyTxChannel<T>, DioxusRxChannel<T>) {
    let (tx, rx) = crossbeam_channel::unbounded::<T>();
    (BevyTxChannel(tx), DioxusRxChannel(rx))
}

/// A fresh channel without a capacity limit, from the observer to the
/// source.
pub fn observer_to_source<T>() -> (DioxusTxChannel<T>, BevyRxChannel<T>) {
    let (tx, rx) = crossbeam_channel::unbounded::<T>();
    (DioxusTxChannel(tx), BevyRxChannel(rx))
}

/// The channel pair of one mirrored value: one direction per runtime.  The
/// types of the four halves say which runtime holds each and which way it
/// leads, so that no half can be handed to the wrong side.
#[verifier::reject_recursive_types(T)]
pub struct BevyDioxusIO<T> {
    /// Where the source pushes what the observer reads.
    pub bevy_tx: BevyTxChannel<T>,
    /// Where the source reads what the observer wrote.
    pub bevy_rx: BevyRxChannel<T>,
    /// Where the observer writes.
    pub dioxus_tx: DioxusTxChannel<T>,
    /// Where the observer reads.
    pub dioxus_rx: DioxusRxChannel<T>,
}

impl<T> BevyDioxusIO<T> {
    /// Two fresh channels, one for each direction.
    pub fn new() -> Self {
        let (bevy_tx, dioxus_rx) = source_to_observer::<T>();
        let (dioxus_tx, bevy_rx) = observer_to_source::<T>();
        BevyDioxusIO { bevy_tx, bevy_rx, dioxus_tx, dioxus_rx }
    }
}

impl<T> Default for BevyDioxusIO<T> {
    fn default() -> Self {
        BevyDioxusIO::new()
    }
}

} // verus!
