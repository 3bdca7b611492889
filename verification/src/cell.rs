//! The observer's cached copy of one mirrored value.

use vstd::prelude::*;
use crate::channel::{DioxusRxChannel, DioxusTxChannel, Drained};
use crate::packet::{clone_info, cloned_info, InfoPacket, InfoUpdate, StatusUpdate};

verus! {

/// Why a cell holds no value.
#[derive(Clone, Copy, Debug, PartialEq, Eq, Structural)]
pub enum BevyFetchBackup {
    /// The value cannot be fetched: the cell has no link to the source.
    Unknown,
    /// The value exists at the source but has not arrived yet.
    Uninitialized,
}

impl BevyFetchBackup {
    /// The placeholder to show in place of a value.  The two reasons read
    /// differently; the first names what could not be received by the name
    /// of this type.
    pub fn message(&self) -> (text: String)
        ensures
            text@ == match *self {
                BevyFetchBackup::Unknown => "Unable to receive bevy_dioxus_sync::cell::BevyFetchBackup"@,
                BevyFetchBackup::Uninitialized => "waiting for value from bevy...."@,
            },
    {
        match self {
            BevyFetchBackup::Unknown => "Unable to receive bevy_dioxus_sync::cell::BevyFetchBackup".to_owned(),
            BevyFetchBackup::Uninitialized => "waiting for value from bevy....".to_owned(),
        }
    }
}

impl Default for BevyFetchBackup {
    fn default() -> (backup: Self)
        ensures
            backup == BevyFetchBackup::Unknown,
    {
        BevyFetchBackup::Unknown
    }
}

/// What a cell is, apart from its channel endpoints.
pub struct CellState<T, V> {
    /// The cached value, or why there is none.
    pub value: Result<T, BevyFetchBackup>,
    /// The instance the cell mirrors, once known.
    pub index: Option<u64>,
    /// The correlation data that came with the last update.
    pub additional_info: Option<V>,
    /// Whether the cell takes its index from the updates it receives.
    pub learns_index: bool,
    /// Whether the cell has channel endpoints.
    pub linked: bool,
}

impl<T, V> CellState<T, V> {
    /// A cell that has no link to the source.
    pub open spec fn unlinked() -> Self {
        CellState {
            value: Err(BevyFetchBackup::Unknown),
            index: None,
            additional_info: None,
            learns_index: false,
            linked: false,
        }
    }

    /// A linked cell that has not received anything yet.
    pub open spec fn pending(index: Option<u64>) -> Self {
        CellState {
            value: Err(BevyFetchBackup::Uninitialized),
            index,
            additional_info: None,
            learns_index: index is None,
            linked: true,
        }
    }

    /// The state after one packet has been applied.
    pub open spec fn absorb(self, packet: InfoPacket<T, V>) -> Self {
        match packet {
            InfoPacket::Update(update) => CellState {
                value: Ok(update.update),
                index: if self.learns_index && update.index is Some {
                    update.index
                } else {
                    self.index
                },
                additional_info: update.additional_info,
                ..self
            },
            InfoPacket::Request(_) => self,
        }
    }

    /// The state after a batch has been applied, oldest packet first.
    pub open spec fn absorb_all(self, packets: Seq<InfoPacket<T, V>>) -> Self
        decreases packets.len(),
    {
        if packets.len() == 0 {
            self
        } else {
            self.absorb_all(packets.drop_last()).absorb(packets.last())
        }
    }

    /// The state after a local write of `value`.
    pub open spec fn written(self, value: T) -> Self {
        CellState { value: Ok(value), ..self }
    }

    /// Whether `update` is what a write of `value` puts on the wire: a clone
    /// of the value, with the index and the correlation data of the cell.
    pub open spec fn writes(self, value: T, update: InfoUpdate<T, V>) -> bool
        where
            T: Clone,
            V: Clone,
    {
        &&& cloned(value, update.update)
        &&& update.index == self.index
        &&& cloned_info(self.additional_info, update.additional_info)
    }
}

/// How a local write ended.
#[derive(Debug, PartialEq, Eq)]
pub enum WriteOutcome<T, V> {
    /// The packet left and the cell holds the value.
    Sent,
    /// The cell has no link to the source.
    Unlinked,
    /// The source is gone; this is the packet that could not leave.
    Dropped(InfoUpdate<T, V>),
}

impl<T, V> WriteOutcome<T, V> {
    /// Whether the write reached the channel.
    pub fn is_sent(&self) -> (sent: bool)
        ensures
            sent == (*self is Sent),
    {
        match self {
            WriteOutcome::Sent => true,
            _ => false,
        }
    }
}

/// How a request for a refresh ended.
#[derive(Clone, Copy, Debug, PartialEq, Eq, Structural)]
pub enum RefreshOutcome {
    /// The request left for the source.
    Sent,
    /// The cell has no link to the source.
    Unlinked,
    /// The source is gone; this is the request that could not leave.
    Dropped(StatusUpdate),
}

/// What one poll of a cell did.
#[derive(Clone, Copy, Debug, PartialEq, Eq)]
pub struct PollReport {
    /// How many packets were taken off the channel and applied.
    pub received: usize,
    /// Whether the source side of the channel is gone.
    pub disconnected: bool,
}

/// The observer-side mirror of one value of the source.
#[verifier::reject_recursive_types(T)]
#[verifier::reject_recursive_types(V)]
pub struct BevyValue<T, V> {
    link: Option<(DioxusTxChannel<InfoPacket<T, V>>, DioxusRxChannel<InfoPacket<T, V>>)>,
    value: Result<T, BevyFetchBackup>,
    additional_info: Option<V>,
    index: Option<u64>,
    learns_index: bool,
}

impl<T, V> View for BevyValue<T, V> {
    type V = CellState<T, V>;

    closed spec fn view(&self) -> CellState<T, V> {
        CellState {
            value: self.value,
            index: self.index,
            additional_info: self.additional_info,
            learns_index: self.learns_index,
            linked: self.link is Some,
        }
    }
}

impl<T, V> BevyValue<T, V> {
    /// A cell without a link to the source: its value stays unknown.
    pub fn unlinked() -> (cell: Self)
        ensures
            cell@ == CellState::<T, V>::unlinked(),
    {
        BevyValue {
            link: None,
            value: Err(BevyFetchBackup::Unknown),
            additional_info: None,
            index: None,
            learns_index: false,
        }
    }

    /// A cell that waits for its first update over the given endpoints.
    pub fn pending(
        writer: DioxusTxChannel<InfoPacket<T, V>>,
        reader: DioxusRxChannel<InfoPacket<T, V>>,
        index: Option<u64>,
    ) -> (cell: Self)
        ensures
            cell@ == CellState::<T, V>::pending(index),
    {
        BevyValue {
            link: Some((writer, reader)),
            value: Err(BevyFetchBackup::Uninitialized),
            additional_info: None,
            index,
            learns_index: index.is_none(),
        }
    }

    /// The cached value, or the reason why there is none.
    pub fn read_value(&self) -> (read: Result<&T, &BevyFetchBackup>)
        ensures
            match read {
                Ok(value) => self@.value == Ok::<T, BevyFetchBackup>(*value),
                Err(backup) => self@.value == Err::<T, BevyFetchBackup>(*backup),
            },
    {
        match &self.value {
            Ok(value) => Ok(value),
            Err(backup) => Err(backup),
        }
    }

    /// The instance the cell mirrors, once known.
    pub fn index(&self) -> (index: Option<u64>)
        ensures
            index == self@.index,
    {
        self.index
    }

    /// The correlation data that came with the last update.
    pub fn additional_info(&self) -> (info: &Option<V>)
        ensures
            *info == self@.additional_info,
    {
        &self.additional_info
    }

    /// Whether the cell takes its index from the updates it receives.
    pub fn learns_index(&self) -> (learns: bool)
        ensures
            learns == self@.learns_index,
    {
        self.learns_index
    }

    /// Whether the cell has channel endpoints.
    pub fn is_linked(&self) -> (linked: bool)
        ensures
            linked == self@.linked,
    {
        self.link.is_some()
    }

    /// One more receiver of the read channel, for a task that takes the
    /// packets off by itself and hands them to `receive_all`.  A cell
    /// without a link has none.
    pub fn reader(&self) -> (reader: Option<DioxusRxChannel<InfoPacket<T, V>>>)
        ensures
            reader is Some <==> self@.linked,
    {
        match &self.link {
            Some((_, reader)) => Some(reader.another()),
            None => None,
        }
    }

    /// What is queued on the read channel; nothing where there is no link.
    pub(crate) fn take_queued(&self) -> (drained: Drained<InfoPacket<T, V>>)
        ensures
            !self@.linked ==> drained.messages@.len() == 0 && !drained.disconnected,
    {
        match &self.link {
            Some((_, reader)) => reader.drain(),
            None => Drained::new(),
        }
    }

    /// Applies one received packet.  An update overwrites the value and the
    /// correlation data, and a cell that was created without an index takes
    /// the index that the update names.  A request changes nothing.
    pub fn receive(&mut self, packet: InfoPacket<T, V>)
        ensures
            final(self)@ == old(self)@.absorb(packet),
    {
        match packet {
            InfoPacket::Update(update) => {
                if self.learns_index && update.index.is_some() {
                    self.index = update.index;
                }
                self.additional_info = update.additional_info;
                self.value = Ok(update.update);
            },
            InfoPacket::Request(_) => {},
        }
    }

    /// Applies a batch of received packets, oldest first.
    pub fn receive_all(&mut self, packets: Vec<InfoPacket<T, V>>)
        ensures
            final(self)@ == old(self)@.absorb_all(packets@),
    {
        let ghost start = self@;
        for packet in it: packets.into_iter()
            invariant
                it.seq() == packets@,
                self@ == start.absorb_all(it.seq().take(it.index() as int)),
        {
            proof {
                let done = it.seq().take(it.index() + 1);
                assert(done.drop_last() == it.seq().take(it.index() as int));
                assert(done.last() == packet);
            }
            self.receive(packet);
        }
        proof {
            assert(packets@.take(packets@.len() as int) == packets@);
        }
    }

    /// Takes what is queued on the read channel and applies it, oldest
    /// packet first.  A cell without a link is left as it is.
    pub fn poll(&mut self) -> (report: PollReport)
        ensures
            !old(self)@.linked ==> report.received == 0 && !report.disconnected,
            exists|packets: Seq<InfoPacket<T, V>>|
                packets.len() == report.received && final(self)@ == #[trigger] old(self)@.absorb_all(
                    packets,
                ),
    {
        let Drained { messages, disconnected } = self.take_queued();
        let received = messages.len();
        self.receive_all(messages);
        PollReport { received, disconnected }
    }

    /// The update that a write of `value` puts on the wire.
    pub fn write_packet(&self, value: &T) -> (update: InfoUpdate<T, V>)
        where
            T: Clone,
            V: Clone,
        ensures
            self@.writes(*value, update),
    {
        InfoUpdate {
            update: value.clone(),
            index: self.index,
            additional_info: clone_info(&self.additional_info),
        }
    }

    /// Settles a write of `value` once the channel has answered.  Where the
    /// packet has left, the cell takes the value.  Where it has come back,
    /// the cell is left as it is and the packet is handed on.
    pub fn settle_write(&mut self, value: T, answer: Result<(), InfoUpdate<T, V>>) -> (outcome:
        WriteOutcome<T, V>)
        ensures
            match answer {
                Ok(()) => outcome is Sent && final(self)@ == old(self)@.written(value),
                Err(back) => outcome == WriteOutcome::Dropped(back) && final(self)@ == old(self)@,
            },
    {
        match answer {
            Ok(()) => {
                self.value = Ok(value);
                WriteOutcome::Sent
            },
            Err(back) => WriteOutcome::Dropped(back),
        }
    }

    /// Writes `value`: the packet of `write_packet` goes to the source, and
    /// `settle_write` takes the channel's answer.  So the cell takes the
    /// value exactly where the packet has left; a cell without a link, or one
    /// whose source is gone, is left as it is.
    pub fn set_value(&mut self, value: T) -> (outcome: WriteOutcome<T, V>)
        where
            T: Clone,
            V: Clone,
        ensures
            outcome is Unlinked <==> !old(self)@.linked,
            outcome matches WriteOutcome::Dropped(back) ==> old(self)@.writes(value, back),
            final(self)@ == (if outcome is Sent {
                old(self)@.written(value)
            } else {
                old(self)@
            }),
    {
        match &self.link {
            Some((writer, _)) => {
                let packet = InfoPacket::Update(self.write_packet(&value));
                let answer = match writer.send(packet) {
                    Ok(()) => Ok(()),
                    Err(back) => match back.into_update() {
                        Some(update) => Err(update),
                        None => {
                            // What bounces is the packet that was handed in.
                            vstd::pervasive::unreached()
                        },
                    },
                };
                self.settle_write(value, answer)
            },
            None => WriteOutcome::Unlinked,
        }
    }

    /// Asks the source to push its current value: a request for a refresh
    /// goes to the source.  A cell without a link has nowhere to send it; one
    /// whose source is gone gets the request back.  The cell itself changes
    /// only when the answer is polled.
    pub fn request_refresh(&self) -> (outcome: RefreshOutcome)
        ensures
            outcome is Unlinked <==> !self@.linked,
            outcome matches RefreshOutcome::Dropped(back) ==> back == StatusUpdate::RequestRefresh,
    {
        match &self.link {
            Some((writer, _)) => {
                let request = InfoPacket::Request(StatusUpdate::RequestRefresh);
                match writer.send(request) {
                    Ok(()) => RefreshOutcome::Sent,
                    Err(InfoPacket::Request(back)) => RefreshOutcome::Dropped(back),
                    Err(InfoPacket::Update(_)) => {
                        // What bounces is the packet that was handed in.
                        vstd::pervasive::unreached()
                    },
                }
            },
            None => RefreshOutcome::Unlinked,
        }
    }
}

} // verus!
