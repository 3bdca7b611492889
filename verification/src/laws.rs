//! What holds of the engine as a whole, stated over the models that the
//! contracts of the other modules use.

use vstd::prelude::*;
use crate::cell::{BevyFetchBackup, CellState};
use crate::delta::{entered, folded, folded_all, AddRemoveQueues};
use crate::events::{
    acyclic, ancestor, button_bit, catches_at, catches_within, document_button, ButtonState,
    MouseButton, MouseState, NodeClasses,
};
use crate::packet::{asks_refresh, last_update, InfoPacket, InfoUpdate};
use crate::registry::{lemma_absorb_all_polled, MirrorKey, RegistryState};
use crate::resource::refreshed;
use crate::source::{count_updates, edited_all, SourceState};

verus! {

/// A batch leaves of a cell what its last update says: the value of that
/// update, whatever came before it in the batch.  A batch without an update
/// leaves the value alone.  Whether the cell is linked, and whether it
/// learns its index, never changes.
pub proof fn law_last_update_wins<T, V>(cell: CellState<T, V>, packets: Seq<InfoPacket<T, V>>)
    ensures
        cell.absorb_all(packets).value == match last_update(packets) {
            Some(update) => Ok::<T, BevyFetchBackup>(update.update),
            None => cell.value,
        },
        last_update(packets) is None ==> cell.absorb_all(packets) == cell,
        cell.absorb_all(packets).linked == cell.linked,
        cell.absorb_all(packets).learns_index == cell.learns_index,
    decreases packets.len(),
{
    if packets.len() > 0 {
        law_last_update_wins(cell, packets.drop_last());
    }
}

/// A cell that waits for its first update reads as not yet initialised for
/// as long as no update has been applied: no batch of mere requests puts a
/// value into it.
pub proof fn law_pending_until_first_update<T, V>(
    index: Option<u64>,
    packets: Seq<InfoPacket<T, V>>,
)
    requires
        last_update(packets) is None,
    ensures
        CellState::<T, V>::pending(index).absorb_all(packets).value == Err::<T, BevyFetchBackup>(
            BevyFetchBackup::Uninitialized,
        ),
{
    law_last_update_wins(CellState::<T, V>::pending(index), packets);
}

/// Two updates in one batch: the cell ends at the value of the later one.
pub proof fn law_later_update_overwrites<T, V>(
    cell: CellState<T, V>,
    first: InfoUpdate<T, V>,
    second: InfoUpdate<T, V>,
)
    ensures
        cell.absorb_all(seq![InfoPacket::Update(first), InfoPacket::Update(second)]).value == Ok::<
            T,
            BevyFetchBackup,
        >(second.update),
{
    let batch = seq![InfoPacket::Update(first), InfoPacket::Update(second)];
    assert(batch.last() == InfoPacket::Update(second));
    law_last_update_wins(cell, batch);
}

/// A cell reads as unavailable only while it has no link, and as waiting
/// only while it has one: no packet and no write ever mixes the two up.
pub proof fn law_placeholders_stay_apart<T, V>(
    index: Option<u64>,
    packets: Seq<InfoPacket<T, V>>,
    value: T,
)
    ensures
        CellState::<T, V>::pending(index).absorb_all(packets).value != Err::<T, BevyFetchBackup>(
            BevyFetchBackup::Unknown,
        ),
        CellState::<T, V>::unlinked().absorb_all(packets).value != Err::<T, BevyFetchBackup>(
            BevyFetchBackup::Uninitialized,
        ),
        CellState::<T, V>::pending(index).absorb_all(packets).written(value).value is Ok,
{
    law_last_update_wins(CellState::<T, V>::pending(index), packets);
    law_last_update_wins(CellState::<T, V>::unlinked(), packets);
}

/// What a batch does to a registry when the cell at `slot` applies it: that
/// cell applies the batch, every other cell is untouched, every key that led
/// to `slot` still does, and no key moves but one of the cell's kind that
/// names an instance.  The registry stays well formed.
pub proof fn law_poll_touches_one_cell<T, V>(
    registry: RegistryState<T, V>,
    slot: int,
    packets: Seq<InfoPacket<T, V>>,
)
    requires
        registry.wf(),
        registry.has_slot(slot),
    ensures
        registry.absorb_all(slot, packets).wf(),
        registry.polled(slot, registry.absorb_all(slot, packets)),
        registry.absorb_all(slot, packets).slots[slot].cell == registry.slots[slot].cell.absorb_all(
            packets,
        ),
        forall|key: MirrorKey| #[trigger]
            registry.bindings.contains_key(key) && registry.bindings[key] == slot
                ==> registry.absorb_all(slot, packets).bindings[key] == slot,
    decreases packets.len(),
{
    lemma_absorb_all_polled(registry, slot, packets);
    if packets.len() > 0 {
        law_poll_touches_one_cell(registry, slot, packets.drop_last());
        lemma_absorb_all_polled(registry, slot, packets.drop_last());
    }
}

/// Round trip.  Where the source holds a value and has changed it, its
/// sender pushes an update for it.  Once the observer's cell for a key has
/// applied a batch that ends with that update, a lookup of the key still
/// leads to the same cell, and the cell reads a clone of the source's value.
pub proof fn law_round_trip<T: Clone, V: Clone>(
    source: SourceState<V>,
    value: T,
    update: InfoUpdate<T, V>,
    registry: RegistryState<T, V>,
    key: MirrorKey,
    earlier: Seq<InfoPacket<T, V>>,
)
    requires
        source.stamps(value, update),
        registry.wf(),
        registry.bindings.contains_key(key),
    ensures
        source.pushes(Some(value), true),
        ({
            let slot = registry.bindings[key];
            let after = registry.absorb_all(slot, earlier.push(InfoPacket::Update(update)));
            &&& after.wf()
            &&& after.bindings.contains_key(key)
            &&& after.bindings[key] == slot
            &&& after.slots[slot].cell.value == Ok::<T, BevyFetchBackup>(update.update)
            &&& cloned(value, update.update)
        }),
{
    let slot = registry.bindings[key];
    let batch = earlier.push(InfoPacket::Update(update));
    assert(batch.last() == InfoPacket::Update(update));
    law_poll_touches_one_cell(registry, slot, batch);
    law_last_update_wins(registry.slots[slot].cell, batch);
}

/// A request in a batch leaves the source owing a reply.
pub proof fn law_request_is_noted<T, V>(source: SourceState<V>, packets: Seq<InfoPacket<T, V>>)
    ensures
        source.heard_all(packets).reply_owed == (source.reply_owed || asks_refresh(packets)),
        source.heard_all(packets).key == source.key,
        source.heard_all(packets).index == source.index,
        source.heard_all(packets).additional_info == source.additional_info,
        source.heard_all(packets).value_seen == source.value_seen,
    decreases packets.len(),
{
    if packets.len() > 0 {
        let shorter = packets.drop_last();
        law_request_is_noted(source, shorter);
        if asks_refresh(packets) {
            let at = choose|at: int| 0 <= at < packets.len() && #[trigger] packets[at] is Request;
            if at < packets.len() - 1 {
                assert(shorter[at] is Request);
            }
        }
        if asks_refresh(shorter) {
            let at = choose|at: int| 0 <= at < shorter.len() && #[trigger] shorter[at] is Request;
            assert(packets[at] is Request);
        }
        if packets.last() is Request {
            assert(packets[packets.len() - 1] is Request);
        }
    }
}

/// The edits of a batch leave the authoritative value at the last of them.
pub proof fn law_last_edit_wins<T, V>(value: Option<T>, packets: Seq<InfoPacket<T, V>>)
    ensures
        edited_all(value, packets) == match last_update(packets) {
            Some(update) => Some(update.update),
            None => value,
        },
    decreases packets.len(),
{
    if packets.len() > 0 {
        law_last_edit_wins(value, packets.drop_last());
    }
}

/// Refresh.  In a tick whose inbound batch holds a request for a refresh,
/// the sender pushes an update whether or not the value has changed, as
/// long as the source has a value to push.  The reply settles the debt: a
/// following tick without a change and without a new request pushes
/// nothing.
pub proof fn law_refresh_is_answered_once<T, V>(
    source: SourceState<V>,
    value: Option<T>,
    packets: Seq<InfoPacket<T, V>>,
    changed: bool,
)
    requires
        asks_refresh(packets),
        edited_all(value, packets) is Some,
    ensures
        ({
            let current = edited_all(value, packets);
            let heard = source.heard_all(packets);
            &&& heard.pushes(current, changed)
            &&& !heard.sent(current, changed).reply_owed
            &&& !heard.sent(current, changed).heard_all(Seq::<InfoPacket<T, V>>::empty()).pushes(
                current,
                false,
            )
        }),
{
    law_request_is_noted(source, packets);
}

/// A value that appears is pushed.  Where the source had no value when the
/// sender last ran and has one now, the sender pushes an update for it,
/// whether or not its caller calls the value changed, and whatever came in
/// in between.  The same holds of the first tick after registration.
pub proof fn law_new_value_is_pushed<T, V>(
    source: SourceState<V>,
    key: MirrorKey,
    earlier_changed: bool,
    packets: Seq<InfoPacket<T, V>>,
    value: T,
    changed: bool,
)
    ensures
        source.sent(None::<T>, earlier_changed).heard_all(packets).pushes(Some(value), changed),
        SourceState::<V>::installed(key).heard_all(packets).pushes(Some(value), changed),
        !source.sent(None::<T>, earlier_changed).heard_all(packets).sent(
            Some(value),
            changed,
        ).pushes(Some(value), false),
{
    law_request_is_noted(source.sent(None::<T>, earlier_changed), packets);
    law_request_is_noted(SourceState::<V>::installed(key), packets);
}

/// A batch holds an edit exactly if it has a last update.
pub proof fn law_edits_are_counted<T, V>(packets: Seq<InfoPacket<T, V>>)
    ensures
        count_updates(packets) > 0 <==> last_update(packets) is Some,
        count_updates(packets) <= packets.len(),
    decreases packets.len(),
{
    if packets.len() > 0 {
        law_edits_are_counted(packets.drop_last());
    }
}

/// Echo.  A tick whose inbound batch holds an edit leaves the source with
/// the edit as its value and pushes an update for it, so that the observer
/// hears of the edit in the same tick.
pub proof fn law_edit_is_echoed<T, V>(
    source: SourceState<V>,
    value: Option<T>,
    packets: Seq<InfoPacket<T, V>>,
    changed: bool,
)
    requires
        count_updates(packets) > 0,
    ensures
        last_update(packets) is Some,
        edited_all(value, packets) == Some(last_update(packets)->0.update),
        source.heard_all(packets).pushes(
            edited_all(value, packets),
            changed || count_updates(packets) > 0,
        ),
{
    law_edits_are_counted(packets);
    law_last_edit_wins(value, packets);
}

/// One cell per key.  Of two lookups of one key, at most one creates a
/// channel pair.  Where the first had a command queue at hand, or the key
/// was registered before, the second finds what the first left: it leads to
/// the same cell, a cell of the key's kind, and changes nothing.  The two
/// together add at most one cell then.
pub proof fn law_single_cell_per_key<T, V>(
    registry: RegistryState<T, V>,
    key: MirrorKey,
    first_has_queue: bool,
    second_has_queue: bool,
)
    requires
        registry.wf(),
    ensures
        ({
            let first = registry.resolve(key, first_has_queue);
            let second = first.resolve(key, second_has_queue);
            &&& first.wf()
            &&& second.wf()
            &&& !(registry.creates_channels(key, first_has_queue) && first.creates_channels(
                key,
                second_has_queue,
            ))
            &&& first_has_queue || registry.bindings.contains_key(key) ==> {
                &&& first.bindings.contains_key(key)
                &&& second == first
                &&& first.resolved_slot(key) == registry.resolved_slot(key)
                &&& !first.creates_channels(key, second_has_queue)
                &&& second.slots.len() <= registry.slots.len() + 1
                &&& second.slots[second.bindings[key]].type_id == key.type_id
            }
        }),
{
}

/// A lookup keeps the registry well formed and never disturbs a cell that
/// was there before.
pub proof fn law_lookup_keeps_cells<T, V>(
    registry: RegistryState<T, V>,
    key: MirrorKey,
    has_queue: bool,
)
    requires
        registry.wf(),
    ensures
        registry.resolve(key, has_queue).wf(),
        registry.resolve(key, has_queue).has_slot(registry.resolved_slot(key)),
        forall|slot: int|
            0 <= slot < registry.slots.len() ==> #[trigger] registry.resolve(
                key,
                has_queue,
            ).slots[slot] == registry.slots[slot],
        forall|other: MirrorKey| #[trigger]
            registry.bindings.contains_key(other) ==> registry.resolve(
                key,
                has_queue,
            ).bindings.contains_key(other) && registry.resolve(key, has_queue).bindings[other]
                == registry.bindings[other],
{
}

/// Folding a batch a second time changes nothing, and a key that a batch
/// both removes and adds ends up present with the added value.
pub proof fn law_fold_is_idempotent<U>(before: Map<u64, U>, add: Map<u64, U>, remove: Set<u64>)
    ensures
        folded(folded(before, add, remove), add, remove) == folded(before, add, remove),
        forall|key: u64| #[trigger]
            add.contains_key(key) ==> folded(before, add, remove).contains_key(key) && folded(
                before,
                add,
                remove,
            )[key] == add[key],
        forall|key: u64|
            remove.contains(key) && !add.contains_key(key) ==> !(#[trigger] folded(
                before,
                add,
                remove,
            ).contains_key(key)),
        forall|key: u64|
            !remove.contains(key) && !add.contains_key(key) ==> (#[trigger] folded(
                before,
                add,
                remove,
            ).contains_key(key)) == before.contains_key(key),
        forall|key: u64|
            !remove.contains(key) && !add.contains_key(key) && before.contains_key(key)
                ==> #[trigger] folded(before, add, remove)[key] == before[key],
{
    assert(folded(folded(before, add, remove), add, remove) =~= folded(before, add, remove));
}

/// The resource copy goes by the same rule as a cell: the last update of a
/// batch wins, and a batch without an update changes nothing.
pub proof fn law_resource_copy_matches_cell<T>(
    before: Option<T>,
    cell: CellState<T, ()>,
    packets: Seq<InfoPacket<T, ()>>,
)
    requires
        match before {
            Some(value) => cell.value == Ok::<T, BevyFetchBackup>(value),
            None => cell.value is Err,
        },
    ensures
        match refreshed(before, packets) {
            Some(value) => cell.absorb_all(packets).value == Ok::<T, BevyFetchBackup>(value),
            None => cell.absorb_all(packets).value is Err,
        },
{
    law_last_update_wins(cell, packets);
}

/// What a list of entries builds up holds exactly the keys of the list, and
/// for each key the value of its last entry.
pub proof fn law_last_entry_wins<U>(entries: Seq<(u64, U)>, at: int)
    requires
        0 <= at < entries.len(),
        forall|later: int| at < later < entries.len() ==> (#[trigger] entries[later]).0
            != entries[at].0,
    ensures
        entered(entries).contains_key(entries[at].0),
        entered(entries)[entries[at].0] == entries[at].1,
        forall|key: u64| #[trigger]
            entered(entries).contains_key(key) ==> exists|i: int|
                0 <= i < entries.len() && (#[trigger] entries[i]).0 == key,
    decreases entries.len(),
{
    let shorter = entries.drop_last();
    if at < entries.len() - 1 {
        assert(entries[entries.len() - 1].0 != entries[at].0);
        assert forall|later: int| at < later < shorter.len() implies (#[trigger] shorter[later]).0
            != shorter[at].0 by {
            assert(entries[later].0 != entries[at].0);
        }
        law_last_entry_wins(shorter, at);
    }
    lemma_entered_keys(entries);
}

proof fn lemma_entered_keys<U>(entries: Seq<(u64, U)>)
    ensures
        forall|key: u64| #[trigger]
            entered(entries).contains_key(key) ==> exists|i: int|
                0 <= i < entries.len() && (#[trigger] entries[i]).0 == key,
    decreases entries.len(),
{
    if entries.len() > 0 {
        let shorter = entries.drop_last();
        lemma_entered_keys(shorter);
        assert forall|key: u64| #[trigger] entered(entries).contains_key(key) implies exists|
            i: int,
        |
            0 <= i < entries.len() && (#[trigger] entries[i]).0 == key by {
            if key == entries.last().0 {
                assert(entries[entries.len() - 1].0 == key);
            } else {
                assert(entered(shorter).contains_key(key));
                let i = choose|i: int| 0 <= i < shorter.len() && (#[trigger] shorter[i]).0 == key;
                assert(entries[i].0 == key);
            }
        }
    }
}

/// Across batches the one applied last wins for each of its keys: what it
/// adds is present with the value it gave, and what it only removes is gone,
/// whatever the earlier batches did.
pub proof fn law_latest_batch_wins<U>(
    before: Map<u64, U>,
    earlier: Seq<AddRemoveQueues<U>>,
    latest: AddRemoveQueues<U>,
)
    ensures
        forall|key: u64| #[trigger]
            latest.add@.contains_key(key) ==> folded_all(before, earlier.push(latest)).contains_key(
                key,
            ) && folded_all(before, earlier.push(latest))[key] == latest.add@[key],
        forall|key: u64|
            latest.remove@.contains(key) && !latest.add@.contains_key(key) ==> !(
            #[trigger] folded_all(before, earlier.push(latest)).contains_key(key)),
{
    assert(earlier.push(latest).drop_last() == earlier);
    assert(earlier.push(latest).last() == latest);
}

/// The placeholder for a value that cannot be fetched is never the one for
/// a value that is on its way.
pub proof fn law_placeholders_differ()
    ensures
        "Unable to receive bevy_dioxus_sync::cell::BevyFetchBackup"@ != "waiting for value from bevy...."@,
{
    reveal_strlit("Unable to receive bevy_dioxus_sync::cell::BevyFetchBackup");
    reveal_strlit("waiting for value from bevy....");
    assert("Unable to receive bevy_dioxus_sync::cell::BevyFetchBackup"@.len() != "waiting for value from bevy...."@.len());
}

/// A button that is pressed is held, whatever was held before; one that is
/// released is not; and no other button is touched by either.  Releasing
/// after pressing is as good as releasing.
pub proof fn law_buttons_are_tracked_one_by_one<P, M>(
    state: MouseState<P, M>,
    button: MouseButton,
    other: MouseButton,
)
    requires
        document_button(button) is Some,
        document_button(other) is Some,
        document_button(other) != document_button(button),
    ensures
        ({
            let bit = button_bit(document_button(button)->0);
            let other_bit = button_bit(document_button(other)->0);
            let pressed = state.switched(button, ButtonState::Pressed);
            let released = state.switched(button, ButtonState::Released);
            &&& pressed.buttons & bit == bit
            &&& released.buttons & bit == 0
            &&& pressed.buttons & other_bit == state.buttons & other_bit
            &&& released.buttons & other_bit == state.buttons & other_bit
            &&& pressed.switched(button, ButtonState::Released) == released
        }),
{
    let bit = button_bit(document_button(button)->0);
    let other_bit = button_bit(document_button(other)->0);
    let held = state.buttons;
    assert(bit & other_bit == 0) by {
        assert(1u8 & 2u8 == 0 && 1u8 & 4u8 == 0 && 1u8 & 8u8 == 0 && 1u8 & 16u8 == 0 && 2u8 & 4u8
            == 0 && 2u8 & 8u8 == 0 && 2u8 & 16u8 == 0 && 4u8 & 8u8 == 0 && 4u8 & 16u8 == 0 && 8u8
            & 16u8 == 0) by (bit_vector);
        assert(2u8 & 1u8 == 0 && 4u8 & 1u8 == 0 && 8u8 & 1u8 == 0 && 16u8 & 1u8 == 0 && 4u8 & 2u8
            == 0 && 8u8 & 2u8 == 0 && 16u8 & 2u8 == 0 && 8u8 & 4u8 == 0 && 16u8 & 4u8 == 0 && 16u8
            & 8u8 == 0) by (bit_vector);
    }
    assert((held | bit) & bit == bit) by (bit_vector);
    assert((held & !bit) & bit == 0) by (bit_vector);
    assert((held | bit) & other_bit == held & other_bit) by (bit_vector)
        requires
            bit & other_bit == 0,
    ;
    assert((held & !bit) & other_bit == held & other_bit) by (bit_vector)
        requires
            bit & other_bit == 0,
    ;
    assert((held | bit) & !bit == held & !bit) by (bit_vector);
}

/// Going up `first` levels and then `then` levels is going up
/// `first + then` levels.
proof fn lemma_ancestor_of_ancestor(nodes: Seq<NodeClasses>, node_id: int, first: nat, then: nat)
    ensures
        ancestor(nodes, node_id, first + then) == match ancestor(nodes, node_id, first) {
            Some(above) => ancestor(nodes, above, then),
            None => None,
        },
        ancestor(nodes, node_id, first) matches Some(above) ==> 0 <= above < nodes.len(),
    decreases first,
{
    if 0 <= node_id < nodes.len() && first > 0 {
        match nodes[node_id].parent {
            Some(parent) => {
                lemma_ancestor_of_ancestor(nodes, parent as int, (first - 1) as nat, then);
                assert((first - 1) as nat + then == (first + then - 1) as nat);
            },
            None => {},
        }
    }
}

/// In a document without cycles a node has fewer levels above it than the
/// document has nodes.
proof fn lemma_ancestors_are_few(nodes: Seq<NodeClasses>, node_id: int, steps: nat)
    requires
        acyclic(nodes),
        ancestor(nodes, node_id, steps) is Some,
    ensures
        steps < nodes.len(),
{
    let chain = Seq::new(steps + 1, |level: int| ancestor(nodes, node_id, level as nat)->0);
    assert forall|level: int| 0 <= level <= steps implies ancestor(
        nodes,
        node_id,
        level as nat,
    ) is Some && 0 <= #[trigger] chain[level] < nodes.len() by {
        lemma_ancestor_of_ancestor(nodes, node_id, level as nat, (steps - level) as nat);
        assert(level as nat + (steps - level) as nat == steps);
    }
    assert forall|low: int, high: int|
        0 <= low < chain.len() && 0 <= high < chain.len() && low != high implies chain[low]
        != chain[high] by {
        let (near, far) = if low < high {
            (low, high)
        } else {
            (high, low)
        };
        if chain[near] == chain[far] {
            lemma_ancestor_of_ancestor(nodes, node_id, near as nat, (far - near) as nat);
            assert(near as nat + (far - near) as nat == far as nat);
            assert(ancestor(nodes, node_id, near as nat) is Some);
            assert(ancestor(nodes, node_id, far as nat) is Some);
            assert(ancestor(nodes, chain[near], (far - near) as nat) == Some(chain[near]));
        }
    }
    chain.unique_seq_to_set();
    vstd::set_lib::lemma_int_range(0, nodes.len() as int);
    assert(chain.to_set().subset_of(vstd::set_lib::set_int_range(0, nodes.len() as int))) by {
        assert forall|above: int| chain.to_set().contains(above) implies vstd::set_lib::set_int_range(
            0,
            nodes.len() as int,
        ).contains(above) by {
            let level = choose|level: int| 0 <= level < chain.len() && chain[level] == above;
            assert(0 <= chain[level] < nodes.len());
        }
    }
    vstd::set_lib::lemma_len_subset(
        chain.to_set(),
        vstd::set_lib::set_int_range(0, nodes.len() as int),
    );
}

/// A search that finds the class finds it at some level within its steps.
proof fn lemma_found_at_a_level(nodes: Seq<NodeClasses>, node_id: int, steps: nat) -> (level: nat)
    requires
        catches_within(nodes, node_id, steps),
    ensures
        level <= steps,
        catches_at(nodes, node_id, level),
    decreases steps,
{
    if catches_at(nodes, node_id, 0) {
        0
    } else {
        let above = lemma_found_at_a_level(
            nodes,
            nodes[node_id].parent->0 as int,
            (steps - 1) as nat,
        );
        (above + 1) as nat
    }
}

/// A search with enough steps finds the class at whatever level it is.
proof fn lemma_level_is_found(nodes: Seq<NodeClasses>, node_id: int, level: nat, steps: nat)
    requires
        catches_at(nodes, node_id, level),
        level <= steps,
    ensures
        catches_within(nodes, node_id, steps),
    decreases level,
{
    if level > 0 {
        lemma_level_is_found(
            nodes,
            nodes[node_id].parent->0 as int,
            (level - 1) as nat,
            (steps - 1) as nat,
        );
    }
}

/// In a document without cycles the search for the class reaches every
/// node above: a node catches events exactly if it, or a node at any level
/// above it, carries the class.
pub proof fn law_search_reaches_every_ancestor(nodes: Seq<NodeClasses>, node_id: int)
    requires
        acyclic(nodes),
    ensures
        catches_within(nodes, node_id, nodes.len()) <==> exists|level: nat|
            catches_at(nodes, node_id, level),
{
    if catches_within(nodes, node_id, nodes.len()) {
        let level = lemma_found_at_a_level(nodes, node_id, nodes.len());
        assert(catches_at(nodes, node_id, level));
    }
    if exists|level: nat| catches_at(nodes, node_id, level) {
        let level = choose|level: nat| catches_at(nodes, node_id, level);
        lemma_ancestors_are_few(nodes, node_id, level);
        lemma_level_is_found(nodes, node_id, level, nodes.len());
    }
}

} // verus!
