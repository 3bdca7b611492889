//! What the source runs for one mirrored value on each of its ticks: a
//! receiver that takes the observer's edits and requests, and a sender that
//! pushes the authoritative value.

use vstd::prelude::*;
use crate::channel::{BevyRxChannel, BevyTxChannel, Drained};
use crate::command::RegistrationRequest;
use crate::packet::{clone_info, cloned_info, InfoPacket, InfoUpdate};
use crate::registry::MirrorKey;

verus! {

/// What the source keeps for one mirrored value, apart from its channels.
pub struct SourceState<V> {
    /// What the observer registered.
    pub key: MirrorKey,
    /// The instance that outgoing updates are stamped with.
    pub index: Option<u64>,
    /// The correlation data that outgoing updates are stamped with.
    pub additional_info: Option<V>,
    /// Whether a request for a refresh has come in and is not answered yet.
    pub reply_owed: bool,
    /// Whether the source had a value when the sender last ran.
    pub value_seen: bool,
}

impl<V> SourceState<V> {
    /// The state right after registration.
    pub open spec fn installed(key: MirrorKey) -> Self {
        SourceState {
            key,
            index: key.index,
            additional_info: None,
            reply_owed: false,
            value_seen: false,
        }
    }

    /// The state after one packet has come in.
    pub open spec fn heard<T>(self, packet: InfoPacket<T, V>) -> Self {
        match packet {
            InfoPacket::Update(_) => self,
            InfoPacket::Request(_) => SourceState { reply_owed: true, ..self },
        }
    }

    /// The state after a batch has come in, oldest packet first.
    pub open spec fn heard_all<T>(self, packets: Seq<InfoPacket<T, V>>) -> Self
        decreases packets.len(),
    {
        if packets.len() == 0 {
            self
        } else {
            self.heard_all(packets.drop_last()).heard(packets.last())
        }
    }

    /// Whether the sender pushes an update: there is a value, and it is new,
    /// or has changed, or a refresh is owed.  A value is new where there was
    /// none when the sender last ran.
    pub open spec fn pushes<T>(self, value: Option<T>, changed: bool) -> bool {
        value is Some && (changed || self.reply_owed || !self.value_seen)
    }

    /// Whether `update` is what the sender pushes for `value`: a clone of
    /// the value, stamped with the index and the correlation data.
    pub open spec fn stamps<T>(self, value: T, update: InfoUpdate<T, V>) -> bool
        where
            T: Clone,
            V: Clone,
    {
        &&& cloned(value, update.update)
        &&& update.index == self.index
        &&& cloned_info(self.additional_info, update.additional_info)
    }

    /// The state after the sender has run: it has seen whether there is a
    /// value, and a push settles the debt of a refresh.
    pub open spec fn sent<T>(self, value: Option<T>, changed: bool) -> Self {
        SourceState {
            reply_owed: self.reply_owed && !self.pushes(value, changed),
            value_seen: value is Some,
            ..self
        }
    }
}

/// The authoritative value after one packet has come in: an update
/// overwrites it.
pub open spec fn edited<T, V>(value: Option<T>, packet: InfoPacket<T, V>) -> Option<T> {
    match packet {
        InfoPacket::Update(update) => Some(update.update),
        InfoPacket::Request(_) => value,
    }
}

/// The authoritative value after a batch has come in, oldest packet first.
pub open spec fn edited_all<T, V>(value: Option<T>, packets: Seq<InfoPacket<T, V>>) -> Option<T>
    decreases packets.len(),
{
    if packets.len() == 0 {
        value
    } else {
        edited(edited_all(value, packets.drop_last()), packets.last())
    }
}

/// How many updates a batch holds.
pub open spec fn count_updates<T, V>(packets: Seq<InfoPacket<T, V>>) -> nat
    decreases packets.len(),
{
    if packets.len() == 0 {
        0
    } else {
        count_updates(packets.drop_last()) + if packets.last() is Update {
            1nat
        } else {
            0nat
        }
    }
}

/// What the receiver did in one tick.
#[derive(Clone, Copy, Debug, PartialEq, Eq)]
pub struct ReceiveReport {
    /// How many packets were taken off the channel.
    pub received: usize,
    /// How many of them were edits, each of which overwrote the value.
    pub applied: usize,
    /// Whether the observer's side of the channel is gone.
    pub disconnected: bool,
}

/// What the sender did in one tick.
#[derive(Debug, PartialEq, Eq)]
pub enum SendOutcome<T, V> {
    /// Nothing was due.
    Idle,
    /// One update was pushed.
    Sent,
    /// One update was due, but the observer's side of the channel is gone;
    /// this is the update that could not leave.
    Dropped(InfoUpdate<T, V>),
}

/// What one tick did.
#[derive(Debug, PartialEq, Eq)]
pub struct TickReport<T, V> {
    pub received: ReceiveReport,
    pub sent: SendOutcome<T, V>,
}

/// The source-resident end of one mirrored value.
#[verifier::reject_recursive_types(T)]
#[verifier::reject_recursive_types(V)]
pub struct SourceMirror<T, V> {
    key: MirrorKey,
    index: Option<u64>,
    additional_info: Option<V>,
    reply_owed: bool,
    value_seen: bool,
    bevy_tx: BevyTxChannel<InfoPacket<T, V>>,
    bevy_rx: BevyRxChannel<InfoPacket<T, V>>,
}

impl<T, V> View for SourceMirror<T, V> {
    type V = SourceState<V>;

    closed spec fn view(&self) -> SourceState<V> {
        SourceState {
            key: self.key,
            index: self.index,
            additional_info: self.additional_info,
            reply_owed: self.reply_owed,
            value_seen: self.value_seen,
        }
    }
}

impl<T, V> SourceMirror<T, V> {
    /// Takes over the source's halves of a channel pair.
    pub fn install(request: RegistrationRequest<T, V>) -> (mirror: Self)
        ensures
            mirror@ == SourceState::<V>::installed(request.key),
    {
        let RegistrationRequest { key, bevy_tx, bevy_rx } = request;
        SourceMirror {
            key,
            index: key.index,
            additional_info: None,
            reply_owed: false,
            value_seen: false,
            bevy_tx,
            bevy_rx,
        }
    }

    /// What the observer registered.
    pub fn key(&self) -> (key: MirrorKey)
        ensures
            key == self@.key,
    {
        self.key
    }

    /// Whether a request for a refresh waits for its answer.
    pub fn reply_owed(&self) -> (owed: bool)
        ensures
            owed == self@.reply_owed,
    {
        self.reply_owed
    }

    /// Sets what outgoing updates are stamped with.
    pub fn identify(&mut self, index: Option<u64>, additional_info: Option<V>)
        ensures
            final(self)@ == (SourceState { index, additional_info, ..old(self)@ }),
    {
        self.index = index;
        self.additional_info = additional_info;
    }

    /// The update that stands for `value` on the wire.
    pub fn outgoing(&self, value: &T) -> (update: InfoUpdate<T, V>)
        where
            T: Clone,
            V: Clone,
        ensures
            self@.stamps(*value, update),
    {
        InfoUpdate {
            update: value.clone(),
            index: self.index,
            additional_info: clone_info(&self.additional_info),
        }
    }

    /// Takes in one packet: an update overwrites the authoritative value, a
    /// request is noted for the sender.  The index that an update carries is
    /// not consulted: a channel pair serves one value.
    pub fn hear(&mut self, value: &mut Option<T>, packet: InfoPacket<T, V>)
        ensures
            final(self)@ == old(self)@.heard(packet),
            *final(value) == edited(*old(value), packet),
            *old(value) is Some ==> *final(value) is Some,
    {
        match packet {
            InfoPacket::Update(update) => {
                *value = Some(update.update);
            },
            InfoPacket::Request(_) => {
                self.reply_owed = true;
            },
        }
    }

    /// Takes in a batch, oldest packet first, and says how many of the
    /// packets were edits.
    pub fn hear_all(&mut self, value: &mut Option<T>, packets: Vec<InfoPacket<T, V>>) -> (applied:
        usize)
        ensures
            final(self)@ == old(self)@.heard_all(packets@),
            *final(value) == edited_all(*old(value), packets@),
            applied == count_updates(packets@),
            *old(value) is Some ==> *final(value) is Some,
    {
        let ghost start = self@;
        let ghost before = *value;
        let total = packets.len();
        let mut applied: usize = 0;
        for packet in it: packets.into_iter()
            invariant
                it.seq() == packets@,
                packets@.len() == total,
                self@ == start.heard_all(it.seq().take(it.index() as int)),
                *value == edited_all(before, it.seq().take(it.index() as int)),
                before is Some ==> *value is Some,
                applied == count_updates(it.seq().take(it.index() as int)),
                applied <= it.index(),
        {
            proof {
                let done = it.seq().take(it.index() + 1);
                assert(done.drop_last() == it.seq().take(it.index() as int));
                assert(done.last() == packet);
            }
            if packet.is_update() {
                applied = applied + 1;
            }
            self.hear(value, packet);
        }
        proof {
            assert(packets@.take(packets@.len() as int) == packets@);
        }
        applied
    }

    /// The receiver: takes every packet that is queued, in arrival order.
    pub fn receive_updates(&mut self, value: &mut Option<T>) -> (report: ReceiveReport)
        ensures
            *old(value) is Some ==> *final(value) is Some,
            exists|packets: Seq<InfoPacket<T, V>>|
                {
                    &&& packets.len() == report.received
                    &&& report.applied == count_updates(packets)
                    &&& final(self)@ == #[trigger] old(self)@.heard_all(packets)
                    &&& *final(value) == edited_all(*old(value), packets)
                },
    {
        let Drained { messages, disconnected } = self.bevy_rx.drain();
        let received = messages.len();
        let applied = self.hear_all(value, messages);
        ReceiveReport { received, applied, disconnected }
    }

    /// The sender: pushes one update with the current value where the value
    /// is new, or has changed, or a refresh is owed, and nothing otherwise.
    /// An update that cannot leave is dropped, and the debt with it.
    pub fn send_update(&mut self, value: Option<&T>, changed: bool) -> (outcome: SendOutcome<T, V>)
        where
            T: Clone,
            V: Clone,
        ensures
            final(self)@ == old(self)@.sent(value, changed),
            outcome is Idle <==> !old(self)@.pushes(value, changed),
            outcome matches SendOutcome::Dropped(back) ==> value is Some && old(self)@.stamps(
                *value->0,
                back,
            ),
    {
        match value {
            Some(current) => {
                let due = changed || self.reply_owed || !self.value_seen;
                self.value_seen = true;
                if due {
                    let packet = InfoPacket::Update(self.outgoing(current));
                    self.reply_owed = false;
                    match self.bevy_tx.send(packet) {
                        Ok(()) => SendOutcome::Sent,
                        Err(InfoPacket::Update(back)) => SendOutcome::Dropped(back),
                        Err(InfoPacket::Request(_)) => {
                            // What bounces is the packet that was handed in.
                            vstd::pervasive::unreached()
                        },
                    }
                } else {
                    SendOutcome::Idle
                }
            },
            None => {
                self.value_seen = false;
                SendOutcome::Idle
            },
        }
    }

    /// One tick: the receiver, then the sender.  An edit that the receiver
    /// applied counts as a change, so that it is echoed in the same tick.
    pub fn tick(&mut self, value: &mut Option<T>, changed: bool) -> (report: TickReport<T, V>)
        where
            T: Clone,
            V: Clone,
        ensures
            *old(value) is Some ==> *final(value) is Some,
            *final(value) is Some && changed ==> !(report.sent is Idle),
            exists|packets: Seq<InfoPacket<T, V>>|
                {
                    &&& packets.len() == report.received.received
                    &&& report.received.applied == count_updates(packets)
                    &&& *final(value) == edited_all(*old(value), packets)
                    &&& final(self)@ == (#[trigger] old(self)@.heard_all(packets)).sent(
                        *final(value),
                        changed || report.received.applied > 0,
                    )
                    &&& report.sent is Idle <==> !old(self)@.heard_all(packets).pushes(
                        *final(value),
                        changed || report.received.applied > 0,
                    )
                },
    {
        let received = self.receive_updates(value);
        let sent = self.send_update(value.as_ref(), changed || received.applied > 0);
        TickReport { received, sent }
    }
}

} // verus!
