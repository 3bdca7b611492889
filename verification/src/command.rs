//! The queue on which the observer hands registrations to the source.

use vstd::prelude::*;
use crossbeam_channel::{Receiver, Sender};
use crate::channel::{drain, try_send, BevyRxChannel, BevyTxChannel};
use crate::packet::InfoPacket;
use crate::registry::MirrorKey;

verus! {

/// The source-side halves of a channel pair, on their way to the source.
#[verifier::reject_recursive_types(T)]
#[verifier::reject_recursive_types(V)]
pub struct RegistrationRequest<T, V> {
    /// What the observer asked for.
    pub key: MirrorKey,
    /// Where the source pushes its updates.
    pub bevy_tx: BevyTxChannel<InfoPacket<T, V>>,
    /// Where the source finds the observer's edits and requests.
    pub bevy_rx: BevyRxChannel<InfoPacket<T, V>>,
}

/// The observer's end of the command queue into the source.
#[verifier::reject_recursive_types(T)]
#[verifier::reject_recursive_types(V)]
pub struct BevyCommandQueueTx<T, V>(pub Sender<RegistrationRequest<T, V>>);

/// The source's end of the command queue.
#[verifier::reject_recursive_types(T)]
#[verifier::reject_recursive_types(V)]
pub struct DioxusCommandQueueRx<T, V>(pub Receiver<RegistrationRequest<T, V>>);

impl<T, V> BevyCommandQueueTx<T, V> {
    /// Hands `request` to the source without blocking.  A request that could
    /// not leave, because the source is gone, comes back.
    pub fn submit(&self, request: RegistrationRequest<T, V>) -> (outcome: Result<
        (),
        RegistrationRequest<T, V>,
    >)
        ensures
            outcome matches Err(back) ==> back == request,
    {
        try_send(&self.0, request)
    }
}

/// The two ends of a fresh command queue.
#[verifier::reject_recursive_types(T)]
#[verifier::reject_recursive_types(V)]
pub struct DioxusBevyInteropPlugin<T, V> {
    /// The observer's end.
    pub command_tx: BevyCommandQueueTx<T, V>,
    /// The source's end.
    pub command_rx: DioxusCommandQueueRx<T, V>,
}

impl<T, V> DioxusBevyInteropPlugin<T, V> {
    /// A command queue without a capacity limit.
    pub fn new() -> Self {
        let (command_tx, command_rx) = crossbeam_channel::unbounded::<RegistrationRequest<T, V>>();
        DioxusBevyInteropPlugin {
            command_tx: BevyCommandQueueTx(command_tx),
            command_rx: DioxusCommandQueueRx(command_rx),
        }
    }
}

/// Takes the registrations that are queued, oldest first, for the source to
/// apply at its command-drain point.
pub fn read_dioxus_command_queues<T, V>(queue: &DioxusCommandQueueRx<T, V>) -> Vec<
    RegistrationRequest<T, V>,
> {
    drain(&queue.0).messages
}

} // verus!
