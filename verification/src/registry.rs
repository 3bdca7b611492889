//! The keyed collection of all cells of one observer scope.

use vstd::prelude::*;
use crate::cell::{BevyValue, CellState, PollReport, WriteOutcome};
use crate::channel::{BevyDioxusIO, DioxusRxChannel, Drained};
use crate::command::{BevyCommandQueueTx, RegistrationRequest};
use crate::packet::InfoPacket;

verus! {

/// What a cell is registered under: the kind of value and, where there are
/// several of one kind, which instance.
#[derive(Clone, Copy, Debug, PartialEq, Eq, Hash, Structural)]
pub struct MirrorKey {
    pub type_id: u64,
    pub index: Option<u64>,
}

/// Names one cell of a registry.
#[derive(Clone, Copy, Debug, PartialEq, Eq, Hash, Structural)]
pub struct MirrorHandle {
    pub slot: usize,
}

/// One cell of a registry together with the kind of value it mirrors.
pub struct SlotState<T, V> {
    pub type_id: u64,
    pub cell: CellState<T, V>,
}

/// What a registry is: its cells in the order of their creation, and the
/// keys under which they are found.
pub struct RegistryState<T, V> {
    pub bindings: Map<MirrorKey, int>,
    pub slots: Seq<SlotState<T, V>>,
}

impl<T, V> RegistryState<T, V> {
    /// The registry without cells.
    pub open spec fn empty() -> Self {
        RegistryState { bindings: Map::empty(), slots: Seq::empty() }
    }

    /// Every key leads to a cell of the registry, and to one of its own kind.
    pub open spec fn wf(self) -> bool {
        forall|key: MirrorKey| #[trigger]
            self.bindings.contains_key(key) ==> 0 <= self.bindings[key] < self.slots.len()
                && self.slots[self.bindings[key]].type_id == key.type_id
    }

    /// Whether `slot` names a cell of the registry.
    pub open spec fn has_slot(self, slot: int) -> bool {
        0 <= slot < self.slots.len()
    }

    /// The registry with `key` leading to `slot`.
    pub open spec fn bound(self, key: MirrorKey, slot: int) -> Self {
        RegistryState { bindings: self.bindings.insert(key, slot), ..self }
    }

    /// The registry with one more cell, linked and waiting, found under `key`.
    pub open spec fn with_pending(self, key: MirrorKey) -> Self {
        RegistryState {
            bindings: self.bindings.insert(key, self.slots.len() as int),
            slots: self.slots.push(
                SlotState { type_id: key.type_id, cell: CellState::pending(key.index) },
            ),
        }
    }

    /// The registry with one more cell that has no link and no key.
    pub open spec fn with_unlinked(self, type_id: u64) -> Self {
        RegistryState {
            bindings: self.bindings,
            slots: self.slots.push(SlotState { type_id, cell: CellState::unlinked() }),
        }
    }

    /// The cell that a lookup of `key` leads to: the one found under it, or
    /// else the one that the lookup creates.
    pub open spec fn resolved_slot(self, key: MirrorKey) -> int {
        if self.bindings.contains_key(key) {
            self.bindings[key]
        } else {
            self.slots.len() as int
        }
    }

    /// The registry after a lookup of `key`.  A key that is found changes
    /// nothing.  One that is not gets a waiting cell where a command queue
    /// is at hand, and otherwise leads to a cell without link and key.
    pub open spec fn resolve(self, key: MirrorKey, has_queue: bool) -> Self {
        if self.bindings.contains_key(key) {
            self
        } else if has_queue {
            self.with_pending(key)
        } else {
            self.with_unlinked(key.type_id)
        }
    }

    /// Whether a lookup of `key` creates a channel pair.
    pub open spec fn creates_channels(self, key: MirrorKey, has_queue: bool) -> bool {
        !self.bindings.contains_key(key) && has_queue
    }

    /// The registry after a local write of `value` to the cell at `slot`.
    pub open spec fn written(self, slot: int, value: T) -> Self {
        let before = self.slots[slot];
        RegistryState {
            slots: self.slots.update(slot, SlotState { cell: before.cell.written(value), ..before }),
            ..self
        }
    }

    /// The registry after the cell at `slot` has applied one packet.  A cell
    /// that learns its index from the packet is from then on found under it.
    pub open spec fn absorb(self, slot: int, packet: InfoPacket<T, V>) -> Self {
        let before = self.slots[slot];
        let after = SlotState { cell: before.cell.absorb(packet), ..before };
        let bindings = match packet {
            InfoPacket::Update(update) => if before.cell.learns_index && update.index is Some {
                self.bindings.insert(
                    MirrorKey { type_id: before.type_id, index: update.index },
                    slot,
                )
            } else {
                self.bindings
            },
            InfoPacket::Request(_) => self.bindings,
        };
        RegistryState { bindings, slots: self.slots.update(slot, after) }
    }

    /// Whether `after` is this registry but for what a poll of the cell at
    /// `slot` may touch: that cell, and the keys of its kind that name an
    /// instance, which may come to lead to it.
    pub open spec fn polled(self, slot: int, after: Self) -> bool {
        &&& after.slots.len() == self.slots.len()
        &&& after.slots[slot].type_id == self.slots[slot].type_id
        &&& forall|other: int|
            0 <= other < self.slots.len() && other != slot ==> #[trigger] after.slots[other]
                == self.slots[other]
        &&& forall|key: MirrorKey| #[trigger]
            self.bindings.contains_key(key) ==> after.bindings.contains_key(key) && (
            after.bindings[key] == self.bindings[key] || after.bindings[key] == slot)
        &&& forall|key: MirrorKey|
            key.index is None || key.type_id != self.slots[slot].type_id ==> (
            #[trigger] after.bindings.contains_key(key)) == self.bindings.contains_key(key) && (
            self.bindings.contains_key(key) ==> after.bindings[key] == self.bindings[key])
    }

    /// The registry after the cell at `slot` has applied a batch, oldest
    /// packet first.
    pub open spec fn absorb_all(self, slot: int, packets: Seq<InfoPacket<T, V>>) -> Self
        decreases packets.len(),
    {
        if packets.len() == 0 {
            self
        } else {
            self.absorb_all(slot, packets.drop_last()).absorb(slot, packets.last())
        }
    }
}

/// How a lookup by key ended.
#[verifier::reject_recursive_types(T)]
#[verifier::reject_recursive_types(V)]
pub enum RegisterOutcome<T, V> {
    /// The key was already registered; nothing was created.
    Found,
    /// A cell was created and its registration left for the source.
    Requested,
    /// A cell was created, but the command queue is disconnected; this is
    /// the registration that could not leave.
    RequestLost(RegistrationRequest<T, V>),
    /// There is no command queue: the cell has no link and no key.
    Unavailable,
}

/// What a lookup by key found or entered.
#[verifier::reject_recursive_types(T)]
#[verifier::reject_recursive_types(V)]
pub struct Entered<T, V> {
    /// The cell that the key leads to, or the cell without key.
    pub handle: MirrorHandle,
    /// Whether the key was registered before.
    pub found: bool,
    /// The registration to submit to the source, where a channel pair was
    /// made.
    pub request: Option<RegistrationRequest<T, V>>,
}

/// The cell that a lookup by key led to, and how.
#[verifier::reject_recursive_types(T)]
#[verifier::reject_recursive_types(V)]
pub struct Registration<T, V> {
    pub handle: MirrorHandle,
    pub outcome: RegisterOutcome<T, V>,
}

#[verifier::reject_recursive_types(T)]
#[verifier::reject_recursive_types(V)]
struct Slot<T, V> {
    type_id: u64,
    cell: BevyValue<T, V>,
}

/// The registry of one observer scope.  It owns its cells; readers hold
/// handles.  The keys stand in a list in which none stands twice, which is
/// what makes the list a map: a key is a pair of a kind and an instance, and
/// a scope holds few cells.
#[verifier::reject_recursive_types(T)]
#[verifier::reject_recursive_types(V)]
pub struct MirrorRegistry<T, V> {
    slots: Vec<Slot<T, V>>,
    bindings: Vec<(MirrorKey, usize)>,
}

/// Whether `key` stands at position `at` of `bindings`.
spec fn key_at(bindings: Seq<(MirrorKey, usize)>, key: MirrorKey, at: int) -> bool {
    0 <= at < bindings.len() && bindings[at].0 == key
}

/// The map that a list of bindings without repeated keys stands for.
spec fn bindings_map(bindings: Seq<(MirrorKey, usize)>) -> Map<MirrorKey, int> {
    Map::new(
        |key: MirrorKey| exists|at: int| key_at(bindings, key, at),
        |key: MirrorKey| bindings[choose|at: int| key_at(bindings, key, at)].1 as int,
    )
}

/// No key stands at two positions.
spec fn keys_distinct(bindings: Seq<(MirrorKey, usize)>) -> bool {
    forall|i: int, j: int|
        0 <= i < bindings.len() && 0 <= j < bindings.len() && i != j ==> (#[trigger] bindings[i]).0
            != (#[trigger] bindings[j]).0
}

proof fn lemma_bindings_found(bindings: Seq<(MirrorKey, usize)>, key: MirrorKey, at: int)
    requires
        keys_distinct(bindings),
        key_at(bindings, key, at),
    ensures
        bindings_map(bindings).contains_key(key),
        bindings_map(bindings)[key] == bindings[at].1,
{
    let chosen = choose|at: int| key_at(bindings, key, at);
    assert(key_at(bindings, key, chosen));
    if chosen != at {
        assert(bindings[chosen].0 != bindings[at].0);
    }
}

proof fn lemma_bindings_missing(bindings: Seq<(MirrorKey, usize)>, key: MirrorKey)
    requires
        forall|at: int| 0 <= at < bindings.len() ==> (#[trigger] bindings[at]).0 != key,
    ensures
        !bindings_map(bindings).contains_key(key),
{
    if bindings_map(bindings).contains_key(key) {
        let at = choose|at: int| key_at(bindings, key, at);
        assert(key_at(bindings, key, at));
        assert(bindings[at].0 != key);
    }
}

proof fn lemma_bindings_push(bindings: Seq<(MirrorKey, usize)>, key: MirrorKey, slot: usize)
    requires
        keys_distinct(bindings),
        forall|at: int| 0 <= at < bindings.len() ==> (#[trigger] bindings[at]).0 != key,
    ensures
        keys_distinct(bindings.push((key, slot))),
        bindings_map(bindings.push((key, slot))) == bindings_map(bindings).insert(key, slot as int),
{
    let after = bindings.push((key, slot));
    assert(keys_distinct(after)) by {
        assert forall|i: int, j: int|
            0 <= i < after.len() && 0 <= j < after.len() && i != j implies (#[trigger] after[i]).0
            != (#[trigger] after[j]).0 by {
            if i < bindings.len() && j < bindings.len() {
                assert(bindings[i].0 != bindings[j].0);
            } else if i < bindings.len() {
                assert(bindings[i].0 != key);
            } else {
                assert(bindings[j].0 != key);
            }
        }
    }
    let lhs = bindings_map(after);
    let rhs = bindings_map(bindings).insert(key, slot as int);
    assert forall|k: MirrorKey| lhs.contains_key(k) == rhs.contains_key(k) by {
        if lhs.contains_key(k) {
            let at = choose|at: int| key_at(after, k, at);
            assert(key_at(after, k, at));
            if at < bindings.len() {
                assert(key_at(bindings, k, at));
            }
        }
        if rhs.contains_key(k) {
            if k == key {
                assert(key_at(after, k, bindings.len() as int));
            } else {
                let at = choose|at: int| key_at(bindings, k, at);
                assert(key_at(bindings, k, at));
                assert(key_at(after, k, at));
            }
        }
    }
    assert forall|k: MirrorKey| lhs.contains_key(k) implies lhs[k] == rhs[k] by {
        if k == key {
            lemma_bindings_found(after, k, bindings.len() as int);
        } else {
            let at = choose|at: int| key_at(bindings, k, at);
            assert(key_at(bindings, k, at));
            assert(key_at(after, k, at));
            lemma_bindings_found(after, k, at);
            lemma_bindings_found(bindings, k, at);
        }
    }
    assert(lhs =~= rhs);
}

proof fn lemma_bindings_update(
    bindings: Seq<(MirrorKey, usize)>,
    key: MirrorKey,
    at: int,
    slot: usize,
)
    requires
        keys_distinct(bindings),
        key_at(bindings, key, at),
    ensures
        keys_distinct(bindings.update(at, (key, slot))),
        bindings_map(bindings.update(at, (key, slot))) == bindings_map(bindings).insert(
            key,
            slot as int,
        ),
{
    let after = bindings.update(at, (key, slot));
    assert(keys_distinct(after)) by {
        assert forall|i: int, j: int|
            0 <= i < after.len() && 0 <= j < after.len() && i != j implies (#[trigger] after[i]).0
            != (#[trigger] after[j]).0 by {
            assert(bindings[i].0 != bindings[j].0);
        }
    }
    let lhs = bindings_map(after);
    let rhs = bindings_map(bindings).insert(key, slot as int);
    assert forall|k: MirrorKey| lhs.contains_key(k) == rhs.contains_key(k) by {
        if lhs.contains_key(k) {
            let i = choose|i: int| key_at(after, k, i);
            assert(key_at(after, k, i));
            assert(key_at(bindings, k, i));
        }
        if rhs.contains_key(k) {
            if k == key {
                assert(key_at(after, k, at));
            } else {
                let i = choose|i: int| key_at(bindings, k, i);
                assert(key_at(bindings, k, i));
                assert(key_at(after, k, i));
            }
        }
    }
    assert forall|k: MirrorKey| lhs.contains_key(k) implies lhs[k] == rhs[k] by {
        if k == key {
            assert(key_at(after, k, at));
            lemma_bindings_found(after, k, at);
        } else {
            let i = choose|i: int| key_at(bindings, k, i);
            assert(key_at(bindings, k, i));
            assert(key_at(after, k, i));
            lemma_bindings_found(after, k, i);
            lemma_bindings_found(bindings, k, i);
        }
    }
    assert(lhs =~= rhs);
}

impl<T, V> View for MirrorRegistry<T, V> {
    type V = RegistryState<T, V>;

    closed spec fn view(&self) -> RegistryState<T, V> {
        RegistryState {
            bindings: bindings_map(self.bindings@),
            slots: Seq::new(
                self.slots@.len(),
                |i: int| SlotState { type_id: self.slots@[i].type_id, cell: self.slots@[i].cell@ },
            ),
        }
    }
}

impl<T, V> MirrorRegistry<T, V> {
    /// What holds of every registry that this module hands out.
    pub closed spec fn wf(&self) -> bool {
        &&& keys_distinct(self.bindings@)
        &&& forall|at: int|
            0 <= at < self.bindings@.len() ==> (#[trigger] self.bindings@[at]).1
                < self.slots@.len() && self.slots@[self.bindings@[at].1 as int].type_id
                == self.bindings@[at].0.type_id
    }

    /// In a registry of this module every key leads to a cell of its kind.
    pub proof fn lemma_wf_view(&self)
        requires
            self.wf(),
        ensures
            self@.wf(),
    {
        assert forall|key: MirrorKey| #[trigger] self@.bindings.contains_key(key) implies 0
            <= self@.bindings[key] < self@.slots.len() && self@.slots[self@.bindings[key]].type_id
            == key.type_id by {
            let at = choose|at: int| key_at(self.bindings@, key, at);
            assert(key_at(self.bindings@, key, at));
            lemma_bindings_found(self.bindings@, key, at);
        }
    }

    /// A registry without cells.
    pub fn new() -> (registry: Self)
        ensures
            registry.wf(),
            registry@ == RegistryState::<T, V>::empty(),
    {
        let registry = MirrorRegistry { slots: Vec::new(), bindings: Vec::new() };
        proof {
            lemma_bindings_missing_all(registry.bindings@);
            assert(registry@.bindings =~= Map::<MirrorKey, int>::empty());
            assert(registry@.slots =~= Seq::<SlotState<T, V>>::empty());
        }
        registry
    }

    /// How many cells the registry owns.
    pub fn len(&self) -> (count: usize)
        ensures
            count == self@.slots.len(),
    {
        self.slots.len()
    }

    /// Where in the list of bindings `key` stands, if it does.
    fn position(&self, key: MirrorKey) -> (found: Option<usize>)
        ensures
            match found {
                Some(at) => key_at(self.bindings@, key, at as int),
                None => forall|at: int|
                    0 <= at < self.bindings@.len() ==> (#[trigger] self.bindings@[at]).0 != key,
            },
    {
        let mut at: usize = 0;
        while at < self.bindings.len()
            invariant
                at <= self.bindings@.len(),
                forall|i: int| 0 <= i < at ==> (#[trigger] self.bindings@[i]).0 != key,
            decreases self.bindings@.len() - at,
        {
            if self.bindings[at].0 == key {
                return Some(at);
            }
            at = at + 1;
        }
        None
    }

    /// The cell registered under the kind `type_id` and the instance `index`.
    pub fn get_typed(&self, type_id: u64, index: Option<u64>) -> (found: Option<MirrorHandle>)
        requires
            self.wf(),
        ensures
            match found {
                Some(handle) => self@.bindings.contains_key(MirrorKey { type_id, index })
                    && handle.slot == self@.bindings[MirrorKey { type_id, index }],
                None => !self@.bindings.contains_key(MirrorKey { type_id, index }),
            },
    {
        let key = MirrorKey { type_id, index };
        match self.position(key) {
            Some(at) => {
                proof {
                    lemma_bindings_found(self.bindings@, key, at as int);
                }
                Some(MirrorHandle { slot: self.bindings[at].1 })
            },
            None => {
                proof {
                    lemma_bindings_missing(self.bindings@, key);
                }
                None
            },
        }
    }

    /// Makes `key` lead to `slot`, whatever it led to before.
    fn bind(&mut self, key: MirrorKey, slot: usize)
        requires
            old(self).wf(),
            slot < old(self)@.slots.len(),
            old(self)@.slots[slot as int].type_id == key.type_id,
        ensures
            final(self).wf(),
            final(self)@ == old(self)@.bound(key, slot as int),
    {
        match self.position(key) {
            Some(at) => {
                proof {
                    lemma_bindings_update(self.bindings@, key, at as int, slot);
                }
                self.bindings[at] = (key, slot);
            },
            None => {
                proof {
                    lemma_bindings_push(self.bindings@, key, slot);
                }
                self.bindings.push((key, slot));
            },
        }
        assert(self@.slots =~= old(self)@.slots);
    }

    /// Registers the cell `handle` under the instance `index` of its kind,
    /// in place of whatever was registered there.
    pub fn insert_typed(&mut self, handle: MirrorHandle, index: Option<u64>)
        requires
            old(self).wf(),
            old(self)@.has_slot(handle.slot as int),
        ensures
            final(self).wf(),
            final(self)@ == old(self)@.bound(
                MirrorKey { type_id: old(self)@.slots[handle.slot as int].type_id, index },
                handle.slot as int,
            ),
    {
        let key = MirrorKey { type_id: self.slots[handle.slot].type_id, index };
        self.bind(key, handle.slot);
    }

    /// The cell that `handle` names.
    pub fn cell(&self, handle: MirrorHandle) -> (cell: &BevyValue<T, V>)
        requires
            self@.has_slot(handle.slot as int),
        ensures
            cell@ == self@.slots[handle.slot as int].cell,
    {
        &self.slots[handle.slot].cell
    }

    /// The kind of value that the cell `handle` mirrors.
    pub fn type_id(&self, handle: MirrorHandle) -> (type_id: u64)
        requires
            self@.has_slot(handle.slot as int),
        ensures
            type_id == self@.slots[handle.slot as int].type_id,
    {
        self.slots[handle.slot].type_id
    }

    /// Looks `(type_id, index)` up and enters a cell where it is missing:
    /// the check, the making of the registration and the entry of the cell,
    /// and nothing else.
    ///
    /// A key that is registered yields its cell.  For a missing key, where
    /// the scope has a command queue, a channel pair is made, a waiting cell
    /// with the observer's halves is entered under the key, and the source's
    /// halves come back as the registration to submit.  Without a command
    /// queue the cell that comes back has no link and is entered under no
    /// key.
    pub fn register(&mut self, has_queue: bool, type_id: u64, index: Option<u64>) -> (entered:
        Entered<T, V>)
        requires
            old(self).wf(),
        ensures
            final(self).wf(),
            final(self)@ == old(self)@.resolve(MirrorKey { type_id, index }, has_queue),
            entered.handle.slot == old(self)@.resolved_slot(MirrorKey { type_id, index }),
            final(self)@.has_slot(entered.handle.slot as int),
            entered.found == old(self)@.bindings.contains_key(MirrorKey { type_id, index }),
            entered.request is Some <==> old(self)@.creates_channels(
                MirrorKey { type_id, index },
                has_queue,
            ),
            entered.request matches Some(request) ==> request.key == (MirrorKey { type_id, index }),
    {
        let key = MirrorKey { type_id, index };
        proof {
            self.lemma_wf_view();
        }
        match self.get_typed(type_id, index) {
            Some(handle) => {
                return Entered { handle, found: true, request: None };
            },
            None => {},
        }
        let slot = self.slots.len();
        let handle = MirrorHandle { slot };
        if has_queue {
            let BevyDioxusIO { bevy_tx, bevy_rx, dioxus_tx, dioxus_rx } = BevyDioxusIO::new();
            self.slots.push(Slot { type_id, cell: BevyValue::pending(dioxus_tx, dioxus_rx, index) });
            proof {
                assert(self@.slots =~= old(self)@.with_pending(key).slots);
                assert forall|at: int| 0 <= at < self.bindings@.len() implies (
                #[trigger] self.bindings@[at]).0 != key by {
                    if self.bindings@[at].0 == key {
                        lemma_bindings_found(self.bindings@, key, at);
                    }
                }
                lemma_bindings_push(self.bindings@, key, slot);
            }
            self.bindings.push((key, slot));
            Entered {
                handle,
                found: false,
                request: Some(RegistrationRequest { key, bevy_tx, bevy_rx }),
            }
        } else {
            self.slots.push(Slot { type_id, cell: BevyValue::unlinked() });
            proof {
                assert(self@.slots =~= old(self)@.with_unlinked(type_id).slots);
            }
            Entered { handle, found: false, request: None }
        }
    }

    /// Looks `(type_id, index)` up and registers it where it is missing: as
    /// `register`, and then the registration is handed to the command queue.
    /// Whether it left is in the outcome; the cell is entered either way.
    pub fn get_or_register(
        &mut self,
        command_queue_tx: Option<&BevyCommandQueueTx<T, V>>,
        type_id: u64,
        index: Option<u64>,
    ) -> (registration: Registration<T, V>)
        requires
            old(self).wf(),
        ensures
            final(self).wf(),
            final(self)@ == old(self)@.resolve(
                MirrorKey { type_id, index },
                command_queue_tx is Some,
            ),
            registration.handle.slot == old(self)@.resolved_slot(MirrorKey { type_id, index }),
            final(self)@.has_slot(registration.handle.slot as int),
            match registration.outcome {
                RegisterOutcome::Found => old(self)@.bindings.contains_key(
                    MirrorKey { type_id, index },
                ),
                RegisterOutcome::Requested => old(self)@.creates_channels(
                    MirrorKey { type_id, index },
                    command_queue_tx is Some,
                ),
                RegisterOutcome::RequestLost(back) => old(self)@.creates_channels(
                    MirrorKey { type_id, index },
                    command_queue_tx is Some,
                ) && back.key == (MirrorKey { type_id, index }),
                RegisterOutcome::Unavailable => !old(self)@.bindings.contains_key(
                    MirrorKey { type_id, index },
                ) && command_queue_tx is None,
            },
    {
        let Entered { handle, found, request } = self.register(
            command_queue_tx.is_some(),
            type_id,
            index,
        );
        let outcome = match (request, command_queue_tx) {
            (Some(request), Some(queue)) => match queue.submit(request) {
                Ok(()) => RegisterOutcome::Requested,
                Err(back) => RegisterOutcome::RequestLost(back),
            },
            _ => if found {
                RegisterOutcome::Found
            } else {
                RegisterOutcome::Unavailable
            },
        };
        Registration { handle, outcome }
    }

    /// One more receiver of the read channel of the cell `handle`; none
    /// where the cell has no link.
    pub fn reader(&self, handle: MirrorHandle) -> (reader: Option<
        DioxusRxChannel<InfoPacket<T, V>>,
    >)
        requires
            self@.has_slot(handle.slot as int),
        ensures
            reader is Some <==> self@.slots[handle.slot as int].cell.linked,
    {
        self.slots[handle.slot].cell.reader()
    }

    /// Lets the cell `handle` apply one received packet.
    pub fn receive(&mut self, handle: MirrorHandle, packet: InfoPacket<T, V>)
        requires
            old(self).wf(),
            old(self)@.has_slot(handle.slot as int),
        ensures
            final(self).wf(),
            final(self)@ == old(self)@.absorb(handle.slot as int, packet),
            final(self)@.slots.len() == old(self)@.slots.len(),
    {
        let slot = handle.slot;
        let learned: Option<u64> = if self.slots[slot].cell.learns_index() {
            match &packet {
                InfoPacket::Update(update) => update.index,
                InfoPacket::Request(_) => None,
            }
        } else {
            None
        };
        self.slots[slot].cell.receive(packet);
        proof {
            assert(self@.slots =~= old(self)@.absorb(slot as int, packet).slots);
        }
        match learned {
            Some(index) => {
                let type_id = self.slots[slot].type_id;
                self.bind(MirrorKey { type_id, index: Some(index) }, slot);
            },
            None => {},
        }
    }

    /// Lets the cell `handle` apply a batch of received packets, oldest
    /// first.
    pub fn receive_all(&mut self, handle: MirrorHandle, packets: Vec<InfoPacket<T, V>>)
        requires
            old(self).wf(),
            old(self)@.has_slot(handle.slot as int),
        ensures
            final(self).wf(),
            final(self)@ == old(self)@.absorb_all(handle.slot as int, packets@),
            final(self)@.slots.len() == old(self)@.slots.len(),
    {
        let ghost start = self@;
        for packet in it: packets.into_iter()
            invariant
                self.wf(),
                it.seq() == packets@,
                self@.slots.len() == start.slots.len(),
                start.has_slot(handle.slot as int),
                self@ == start.absorb_all(handle.slot as int, it.seq().take(it.index() as int)),
        {
            proof {
                let done = it.seq().take(it.index() + 1);
                assert(done.drop_last() == it.seq().take(it.index() as int));
                assert(done.last() == packet);
            }
            self.receive(handle, packet);
        }
        proof {
            assert(packets@.take(packets@.len() as int) == packets@);
        }
    }

    /// One poll cycle of the cell `handle`: takes what is queued on its read
    /// channel and applies it, oldest packet first.
    pub fn poll(&mut self, handle: MirrorHandle) -> (report: PollReport)
        requires
            old(self).wf(),
            old(self)@.has_slot(handle.slot as int),
        ensures
            final(self).wf(),
            old(self)@.polled(handle.slot as int, final(self)@),
            !old(self)@.slots[handle.slot as int].cell.linked ==> report.received == 0
                && !report.disconnected,
            exists|packets: Seq<InfoPacket<T, V>>|
                packets.len() == report.received && final(self)@ == #[trigger] old(
                    self,
                )@.absorb_all(handle.slot as int, packets),
    {
        let Drained { messages, disconnected } = self.slots[handle.slot].cell.take_queued();
        let received = messages.len();
        proof {
            self.lemma_wf_view();
            lemma_absorb_all_polled(self@, handle.slot as int, messages@);
        }
        self.receive_all(handle, messages);
        PollReport { received, disconnected }
    }

    /// Writes `value` through the cell `handle`: to the source and, where
    /// the packet has left, to the cell.
    pub fn set_value(&mut self, handle: MirrorHandle, value: T) -> (outcome: WriteOutcome<T, V>)
        where
            T: Clone,
            V: Clone,
        requires
            old(self).wf(),
            old(self)@.has_slot(handle.slot as int),
        ensures
            final(self).wf(),
            outcome is Unlinked <==> !old(self)@.slots[handle.slot as int].cell.linked,
            outcome matches WriteOutcome::Dropped(back) ==> old(
                self,
            )@.slots[handle.slot as int].cell.writes(value, back),
            final(self)@ == (if outcome is Sent {
                old(self)@.written(handle.slot as int, value)
            } else {
                old(self)@
            }),
    {
        let outcome = self.slots[handle.slot].cell.set_value(value);
        proof {
            if outcome is Sent {
                assert(self@.slots =~= old(self)@.written(handle.slot as int, value).slots);
            } else {
                assert(self@.slots =~= old(self)@.slots);
            }
        }
        outcome
    }
}

/// Applying a batch is a poll: it touches what a poll may touch.
pub proof fn lemma_absorb_all_polled<T, V>(
    registry: RegistryState<T, V>,
    slot: int,
    packets: Seq<InfoPacket<T, V>>,
)
    requires
        registry.wf(),
        registry.has_slot(slot),
    ensures
        registry.absorb_all(slot, packets).wf(),
        registry.polled(slot, registry.absorb_all(slot, packets)),
    decreases packets.len(),
{
    if packets.len() > 0 {
        let before = registry.absorb_all(slot, packets.drop_last());
        lemma_absorb_all_polled(registry, slot, packets.drop_last());
        let after = before.absorb(slot, packets.last());
        assert(after == registry.absorb_all(slot, packets));
        assert(after.wf());
        assert(registry.polled(slot, after));
    }
}

proof fn lemma_bindings_missing_all(bindings: Seq<(MirrorKey, usize)>)
    requires
        bindings.len() == 0,
    ensures
        forall|key: MirrorKey| !bindings_map(bindings).contains_key(key),
{
    assert forall|key: MirrorKey| !bindings_map(bindings).contains_key(key) by {
        lemma_bindings_missing(bindings, key);
    }
}

} // verus!
