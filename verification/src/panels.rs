//! Which panels the observer shows: the source logs every panel that is
//! added to or removed from an entity, and the observer replays the log.

use vstd::prelude::*;
use std::collections::HashMap;
use crossbeam_channel::{Receiver, Sender};
use crate::channel::{drain, try_send, Drained};

verus! {

broadcast use vstd::std_specs::hash::group_hash_axioms;

/// What happened to the panel of an entity.
pub enum PanelUpdateKind<P> {
    /// The entity got this panel.
    Add(P),
    /// The entity lost its panel.
    Remove,
}

/// One entry of the log.
pub struct PanelUpdate<P> {
    pub key: u64,
    pub value: PanelUpdateKind<P>,
}

/// The log of one tick, oldest entry first.
pub struct DioxusPanelUpdates<P>(pub Vec<PanelUpdate<P>>);

/// Where the source sends its logs.
#[verifier::reject_recursive_types(P)]
pub struct DioxusPanelUpdatesSender<P>(pub Sender<DioxusPanelUpdates<P>>);

/// The two ends of the channel that carries the logs.
#[verifier::reject_recursive_types(P)]
pub struct DioxusPanelsPlugin<P> {
    pub dioxus_panel_updates_tx: Sender<DioxusPanelUpdates<P>>,
    pub dioxus_panel_updates_rx: Receiver<DioxusPanelUpdates<P>>,
}

/// The panels after one entry of the log.
pub open spec fn replayed<P>(before: Map<u64, P>, update: PanelUpdate<P>) -> Map<u64, P> {
    match update.value {
        PanelUpdateKind::Add(panel) => before.insert(update.key, panel),
        PanelUpdateKind::Remove => before.remove(update.key),
    }
}

/// The panels after a log, oldest entry first.
pub open spec fn replayed_all<P>(before: Map<u64, P>, updates: Seq<PanelUpdate<P>>) -> Map<u64, P>
    decreases updates.len(),
{
    if updates.len() == 0 {
        before
    } else {
        replayed(replayed_all(before, updates.drop_last()), updates.last())
    }
}

/// The panels after a run of logs, in the order of receipt.
pub open spec fn replayed_logs<P>(before: Map<u64, P>, logs: Seq<DioxusPanelUpdates<P>>) -> Map<
    u64,
    P,
>
    decreases logs.len(),
{
    if logs.len() == 0 {
        before
    } else {
        replayed_all(replayed_logs(before, logs.drop_last()), logs.last().0@)
    }
}

impl<P> DioxusPanelsPlugin<P> {
    /// A channel without a capacity limit.
    pub fn new() -> Self {
        let (dioxus_panel_updates_tx, dioxus_panel_updates_rx) = crossbeam_channel::unbounded::<
            DioxusPanelUpdates<P>,
        >();
        DioxusPanelsPlugin { dioxus_panel_updates_tx, dioxus_panel_updates_rx }
    }
}

impl<P> DioxusPanelUpdates<P> {
    /// The empty log.
    pub fn new() -> (log: Self)
        ensures
            log.0@ == Seq::<PanelUpdate<P>>::empty(),
    {
        DioxusPanelUpdates(Vec::new())
    }

    /// Takes what has been logged and leaves the log empty.
    pub fn take(&mut self) -> (taken: Self)
        ensures
            taken.0@ == old(self).0@,
            final(self).0@ == Seq::<PanelUpdate<P>>::empty(),
    {
        let mut updates: Vec<PanelUpdate<P>> = Vec::new();
        std::mem::swap(&mut updates, &mut self.0);
        DioxusPanelUpdates(updates)
    }

    /// Logs that `entity` got `panel`.
    pub fn note_added(&mut self, entity: u64, panel: P)
        ensures
            final(self).0@ == old(self).0@.push(
                PanelUpdate { key: entity, value: PanelUpdateKind::Add(panel) },
            ),
    {
        self.0.push(PanelUpdate { key: entity, value: PanelUpdateKind::Add(panel) });
    }

    /// Logs that `entity` lost its panel.
    pub fn note_removed(&mut self, entity: u64)
        ensures
            final(self).0@ == old(self).0@.push(
                PanelUpdate { key: entity, value: PanelUpdateKind::Remove },
            ),
    {
        self.0.push(PanelUpdate { key: entity, value: PanelUpdateKind::Remove });
    }
}

impl<P> Default for DioxusPanelUpdates<P> {
    fn default() -> (log: Self)
        ensures
            log.0@ == Seq::<PanelUpdate<P>>::empty(),
    {
        DioxusPanelUpdates::new()
    }
}

/// Sends what `take` finds in the log, which leaves the log empty.  A log
/// that could not leave comes back.
pub fn push_panel_updates<P>(
    panel_updates: &mut DioxusPanelUpdates<P>,
    panel_update_sender: &DioxusPanelUpdatesSender<P>,
) -> (outcome: Result<(), DioxusPanelUpdates<P>>)
    ensures
        final(panel_updates).0@ == Seq::<PanelUpdate<P>>::empty(),
        outcome matches Err(back) ==> back.0@ == old(panel_updates).0@,
{
    try_send(&panel_update_sender.0, panel_updates.take())
}

/// The panels that the observer shows, by entity.
pub struct DioxusPanels<P>(pub HashMap<u64, P>);

impl<P> DioxusPanels<P> {
    /// No panels.
    pub fn new() -> (panels: Self)
        ensures
            panels.0@ == Map::<u64, P>::empty(),
    {
        DioxusPanels(HashMap::new())
    }

    /// Replays one log, oldest entry first.
    pub fn apply_updates(&mut self, updates: DioxusPanelUpdates<P>)
        ensures
            final(self).0@ == replayed_all(old(self).0@, updates.0@),
    {
        let ghost start = self.0@;
        let ghost log = updates.0@;
        for update in it: updates.0.into_iter()
            invariant
                it.seq() == log,
                self.0@ == replayed_all(start, it.seq().take(it.index() as int)),
        {
            proof {
                let done = it.seq().take(it.index() + 1);
                assert(done.drop_last() == it.seq().take(it.index() as int));
                assert(done.last() == update);
            }
            match update.value {
                PanelUpdateKind::Add(panel) => {
                    self.0.insert(update.key, panel);
                },
                PanelUpdateKind::Remove => {
                    self.0.remove(&update.key);
                },
            }
        }
        proof {
            assert(log.take(log.len() as int) == log);
        }
    }

    /// Replays a run of logs, in the order of receipt.
    pub fn apply_logs(&mut self, logs: Vec<DioxusPanelUpdates<P>>)
        ensures
            final(self).0@ == replayed_logs(old(self).0@, logs@),
    {
        let ghost start = self.0@;
        for log in it: logs.into_iter()
            invariant
                it.seq() == logs@,
                self.0@ == replayed_logs(start, it.seq().take(it.index() as int)),
        {
            proof {
                let done = it.seq().take(it.index() + 1);
                assert(done.drop_last() == it.seq().take(it.index() as int));
                assert(done.last() == log);
            }
            self.apply_updates(log);
        }
        proof {
            assert(logs@.take(logs@.len() as int) == logs@);
        }
    }

    /// One poll cycle: takes the logs that are queued on `updates` and
    /// replays them.  Returns the number of logs taken.
    pub fn poll(&mut self, updates: &Receiver<DioxusPanelUpdates<P>>) -> (received: usize)
        ensures
            exists|logs: Seq<DioxusPanelUpdates<P>>|
                logs.len() == received && final(self).0@ == #[trigger] replayed_logs(
                    old(self).0@,
                    logs,
                ),
    {
        let Drained { messages, disconnected: _ } = drain(updates);
        let received = messages.len();
        self.apply_logs(messages);
        received
    }
}

} // verus!
