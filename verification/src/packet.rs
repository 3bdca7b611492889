//! The wire format exchanged between the two runtimes.

use vstd::prelude::*;

verus! {

/// A control message that carries no value.
#[derive(Clone, Copy, Debug, PartialEq, Eq, Structural)]
pub enum StatusUpdate {
    /// Ask the other side to push its current value.
    RequestRefresh,
}

/// One value on its way to or from the observer.
#[derive(Debug, PartialEq, Eq)]
pub struct InfoUpdate<T, V> {
    pub update: T,
    pub index: Option<u64>,
    pub additional_info: Option<V>,
}

/// What travels over a channel pair.
#[derive(Debug, PartialEq, Eq)]
pub enum InfoPacket<T, V> {
    Update(InfoUpdate<T, V>),
    Request(StatusUpdate),
}

/// Whether `copy` is a clone of the correlation data `info`: both are
/// absent, or both are present and one is a clone of the other.
pub open spec fn cloned_info<V: Clone>(info: Option<V>, copy: Option<V>) -> bool {
    match (info, copy) {
        (Some(kept), Some(copied)) => cloned(kept, copied),
        (None, None) => true,
        _ => false,
    }
}

/// A clone of the correlation data `info`.
pub fn clone_info<V: Clone>(info: &Option<V>) -> (copy: Option<V>)
    ensures
        cloned_info(*info, copy),
{
    match info {
        Some(kept) => Some(kept.clone()),
        None => None,
    }
}

impl<T, V> InfoUpdate<T, V> {
    /// Whether `copy` is a clone of this update, field by field.
    pub open spec fn cloned_as(self, copy: Self) -> bool
        where
            T: Clone,
            V: Clone,
    {
        &&& cloned(self.update, copy.update)
        &&& copy.index == self.index
        &&& cloned_info(self.additional_info, copy.additional_info)
    }
}

impl<T: Clone, V: Clone> Clone for InfoUpdate<T, V> {
    fn clone(&self) -> (copy: Self)
        ensures
            self.cloned_as(copy),
    {
        InfoUpdate {
            update: self.update.clone(),
            index: self.index,
            additional_info: clone_info(&self.additional_info),
        }
    }
}

impl<T: Clone, V: Clone> Clone for InfoPacket<T, V> {
    fn clone(&self) -> (copy: Self)
        ensures
            match (*self, copy) {
                (InfoPacket::Update(update), InfoPacket::Update(copied)) => update.cloned_as(
                    copied,
                ),
                (InfoPacket::Request(request), InfoPacket::Request(copied)) => request == copied,
                _ => false,
            },
    {
        match self {
            InfoPacket::Update(update) => InfoPacket::Update(update.clone()),
            InfoPacket::Request(request) => InfoPacket::Request(*request),
        }
    }
}

/// The last update of a batch, if it holds one.
pub open spec fn last_update<T, V>(packets: Seq<InfoPacket<T, V>>) -> Option<InfoUpdate<T, V>>
    decreases packets.len(),
{
    if packets.len() == 0 {
        None
    } else {
        match packets.last() {
            InfoPacket::Update(update) => Some(update),
            InfoPacket::Request(_) => last_update(packets.drop_last()),
        }
    }
}

/// Whether a batch holds a request for a refresh.
pub open spec fn asks_refresh<T, V>(packets: Seq<InfoPacket<T, V>>) -> bool {
    exists|at: int| 0 <= at < packets.len() && #[trigger] packets[at] is Request
}

impl<T, V> InfoPacket<T, V> {
    /// The update that the packet carries, if it carries one.
    pub fn into_update(self) -> (update: Option<InfoUpdate<T, V>>)
        ensures
            update == match self {
                InfoPacket::Update(carried) => Some(carried),
                InfoPacket::Request(_) => None,
            },
    {
        match self {
            InfoPacket::Update(carried) => Some(carried),
            InfoPacket::Request(_) => None,
        }
    }

    /// Whether the packet carries a value.
    pub fn is_update(&self) -> (b: bool)
        ensures
            b == (self is Update),
    {
        match self {
            InfoPacket::Update(_) => true,
            InfoPacket::Request(_) => false,
        }
    }
}

} // verus!
