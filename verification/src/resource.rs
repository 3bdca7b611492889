//! The observer's copy of a singleton resource of the source, for readers
//! that want a plain `Option`: nothing until the first update has arrived.

use vstd::prelude::*;
use crate::channel::{DioxusRxChannel, DioxusTxChannel, Drained};
use crate::packet::{last_update, InfoPacket, InfoUpdate};

verus! {

/// The copy after a batch of packets: the value of the last update, or what
/// was there before where the batch holds no update.
pub open spec fn refreshed<T>(before: Option<T>, packets: Seq<InfoPacket<T, ()>>) -> Option<T> {
    match last_update(packets) {
        Some(update) => Some(update.update),
        None => before,
    }
}

/// What is shown for a copy that holds nothing yet.
pub const NO_RESOURCE: &'static str = "???";

/// The text to show for a copy: the text of its value, or `???` while it
/// holds none.
pub fn shown(value_text: Option<String>) -> (text: String)
    ensures
        text@ == match value_text {
            Some(of_value) => of_value@,
            None => NO_RESOURCE@,
        },
{
    match value_text {
        Some(of_value) => of_value,
        None => NO_RESOURCE.to_owned(),
    }
}

/// The packet that carries a write of `value` to the source: an update with
/// the value, and neither index nor correlation data.
pub fn resource_packet<T>(value: T) -> (packet: InfoPacket<T, ()>)
    ensures
        packet == InfoPacket::Update(
            InfoUpdate { update: value, index: None::<u64>, additional_info: None::<()> },
        ),
{
    InfoPacket::Update(InfoUpdate { update: value, index: None, additional_info: None })
}

/// The observer's copy of one resource.
#[verifier::reject_recursive_types(T)]
pub struct BevyRes<T> {
    resource_write: DioxusTxChannel<InfoPacket<T, ()>>,
    resource_incoming: DioxusRxChannel<InfoPacket<T, ()>>,
    resource_read: Option<T>,
}

impl<T> View for BevyRes<T> {
    type V = Option<T>;

    closed spec fn view(&self) -> Option<T> {
        self.resource_read
    }
}

impl<T> BevyRes<T> {
    /// A copy that has not received anything yet.
    pub fn new(
        resource_write: DioxusTxChannel<InfoPacket<T, ()>>,
        resource_incoming: DioxusRxChannel<InfoPacket<T, ()>>,
    ) -> (copy: Self)
        ensures
            copy@ is None,
    {
        BevyRes { resource_write, resource_incoming, resource_read: None }
    }

    /// Hands `value` to the source as the packet of `resource_packet`.  The
    /// copy itself changes only when the source sends the value back.  A
    /// value that could not leave is returned.
    pub fn set_resource(&self, value: T) -> (outcome: Result<(), T>)
        ensures
            outcome matches Err(back) ==> back == value,
    {
        match self.resource_write.send(resource_packet(value)) {
            Ok(()) => Ok(()),
            Err(back) => match back.into_update() {
                Some(update) => Err(update.update),
                None => {
                    // What bounces is the packet that was handed in.
                    vstd::pervasive::unreached()
                },
            },
        }
    }

    /// The value that arrived last, if any has.
    pub fn read_resource(&self) -> (read: &Option<T>)
        ensures
            *read == self@,
    {
        &self.resource_read
    }

    /// Applies a batch of received packets: the last update wins.
    pub fn absorb_all(&mut self, packets: Vec<InfoPacket<T, ()>>)
        ensures
            final(self)@ == refreshed(old(self)@, packets@),
    {
        let ghost start = self@;
        for packet in it: packets.into_iter()
            invariant
                it.seq() == packets@,
                self@ == refreshed(start, it.seq().take(it.index() as int)),
        {
            proof {
                let done = it.seq().take(it.index() + 1);
                assert(done.drop_last() == it.seq().take(it.index() as int));
                assert(done.last() == packet);
            }
            match packet {
                InfoPacket::Update(update) => {
                    self.resource_read = Some(update.update);
                },
                InfoPacket::Request(_) => {},
            }
        }
        proof {
            assert(packets@.take(packets@.len() as int) == packets@);
        }
    }

    /// One poll cycle: takes what is queued and applies it.  Returns the
    /// number of packets taken.
    pub fn poll(&mut self) -> (received: usize)
        ensures
            exists|packets: Seq<InfoPacket<T, ()>>|
                packets.len() == received && final(self)@ == #[trigger] refreshed(
                    old(self)@,
                    packets,
                ),
    {
        let Drained { messages, disconnected: _ } = self.resource_incoming.drain();
        let received = messages.len();
        self.absorb_all(messages);
        received
    }
}

} // verus!
