use bevy_dioxus_sync::cell::{BevyFetchBackup, WriteOutcome};
use bevy_dioxus_sync::command::{read_dioxus_command_queues, DioxusBevyInteropPlugin};
use bevy_dioxus_sync::packet::{InfoPacket, InfoUpdate, StatusUpdate};
use bevy_dioxus_sync::registry::{MirrorHandle, MirrorKey, MirrorRegistry, RegisterOutcome};
use bevy_dioxus_sync::source::SourceMirror;

const SPEED: u64 = 11;
const TRANSFORM: u64 = 12;

fn update(value: i32, index: Option<u64>) -> InfoPacket<i32, ()> {
    InfoPacket::Update(InfoUpdate { update: value, index, additional_info: None })
}

#[test]
fn second_lookup_of_a_key_finds_the_first_cell_and_asks_for_nothing() {
    let queue = DioxusBevyInteropPlugin::<i32, ()>::new();
    let mut registry: MirrorRegistry<i32, ()> = MirrorRegistry::new();

    // Both lookups happen before the source has applied anything.
    let first = registry.get_or_register(Some(&queue.command_tx), SPEED, Some(3));
    let second = registry.get_or_register(Some(&queue.command_tx), SPEED, Some(3));

    assert!(matches!(first.outcome, RegisterOutcome::Requested));
    assert!(matches!(second.outcome, RegisterOutcome::Found));
    assert_eq!(first.handle, second.handle);
    assert_eq!(registry.len(), 1);
    // Exactly one channel pair was made: one registration is queued.
    assert_eq!(read_dioxus_command_queues(&queue.command_rx).len(), 1);
}

#[test]
fn second_lookup_without_index_finds_the_waiting_cell() {
    let queue = DioxusBevyInteropPlugin::<i32, ()>::new();
    let mut registry: MirrorRegistry<i32, ()> = MirrorRegistry::new();
    let first = registry.get_or_register(Some(&queue.command_tx), TRANSFORM, None);
    let second = registry.get_or_register(Some(&queue.command_tx), TRANSFORM, None);
    assert_eq!(first.handle, second.handle);
    assert!(matches!(second.outcome, RegisterOutcome::Found));
    assert_eq!(registry.len(), 1);
    assert_eq!(read_dioxus_command_queues(&queue.command_rx).len(), 1);
}

#[test]
fn different_keys_get_different_cells() {
    let queue = DioxusBevyInteropPlugin::<i32, ()>::new();
    let mut registry: MirrorRegistry<i32, ()> = MirrorRegistry::new();
    let a = registry.get_or_register(Some(&queue.command_tx), SPEED, Some(1));
    let b = registry.get_or_register(Some(&queue.command_tx), SPEED, Some(2));
    let c = registry.get_or_register(Some(&queue.command_tx), TRANSFORM, Some(1));
    let d = registry.get_or_register(Some(&queue.command_tx), SPEED, None);
    assert_eq!(a.handle, MirrorHandle { slot: 0 });
    assert_eq!(b.handle, MirrorHandle { slot: 1 });
    assert_eq!(c.handle, MirrorHandle { slot: 2 });
    assert_eq!(d.handle, MirrorHandle { slot: 3 });
    assert_eq!(registry.len(), 4);
    assert_eq!(registry.type_id(c.handle), TRANSFORM);

    let requests = read_dioxus_command_queues(&queue.command_rx);
    let keys: Vec<MirrorKey> = requests.iter().map(|request| request.key).collect();
    assert_eq!(
        keys,
        vec![
            MirrorKey { type_id: SPEED, index: Some(1) },
            MirrorKey { type_id: SPEED, index: Some(2) },
            MirrorKey { type_id: TRANSFORM, index: Some(1) },
            MirrorKey { type_id: SPEED, index: None },
        ]
    );
}

#[test]
fn lookup_without_a_command_queue_gives_an_unknown_cell_under_no_key() {
    let mut registry: MirrorRegistry<i32, ()> = MirrorRegistry::new();
    let first = registry.get_or_register(None, SPEED, Some(3));
    assert!(matches!(first.outcome, RegisterOutcome::Unavailable));
    assert_eq!(registry.cell(first.handle).read_value(), Err(&BevyFetchBackup::Unknown));
    assert_eq!(registry.get_typed(SPEED, Some(3)), None);
    assert_eq!(registry.set_value(first.handle, 1), WriteOutcome::Unlinked);
    assert_eq!(registry.poll(first.handle).received, 0);

    // Once a queue is at hand the key is registered for real.
    let queue = DioxusBevyInteropPlugin::<i32, ()>::new();
    let second = registry.get_or_register(Some(&queue.command_tx), SPEED, Some(3));
    assert!(matches!(second.outcome, RegisterOutcome::Requested));
    assert_ne!(first.handle, second.handle);
    assert_eq!(registry.get_typed(SPEED, Some(3)), Some(second.handle));
}

#[test]
fn lost_registration_comes_back_and_the_cell_keeps_waiting() {
    let queue = DioxusBevyInteropPlugin::<i32, ()>::new();
    let DioxusBevyInteropPlugin { command_tx, command_rx } = queue;
    drop(command_rx);
    let mut registry: MirrorRegistry<i32, ()> = MirrorRegistry::new();
    let registration = registry.get_or_register(Some(&command_tx), SPEED, Some(3));
    match registration.outcome {
        RegisterOutcome::RequestLost(back) => {
            assert_eq!(back.key, MirrorKey { type_id: SPEED, index: Some(3) });
        }
        _ => panic!("the command queue has no receiver"),
    }
    assert_eq!(registry.get_typed(SPEED, Some(3)), Some(registration.handle));
    assert_eq!(
        registry.cell(registration.handle).read_value(),
        Err(&BevyFetchBackup::Uninitialized)
    );
}

#[test]
fn cell_registered_without_index_is_found_under_the_index_it_learns() {
    let queue = DioxusBevyInteropPlugin::<i32, ()>::new();
    let mut registry: MirrorRegistry<i32, ()> = MirrorRegistry::new();
    let registration = registry.get_or_register(Some(&queue.command_tx), TRANSFORM, None);
    let mut source =
        SourceMirror::install(read_dioxus_command_queues(&queue.command_rx).pop().unwrap());
    assert_eq!(registry.get_typed(TRANSFORM, Some(77)), None);

    source.identify(Some(77), None);
    let mut value = Some(-4);
    source.tick(&mut value, true);
    assert_eq!(registry.poll(registration.handle).received, 1);

    assert_eq!(registry.get_typed(TRANSFORM, Some(77)), Some(registration.handle));
    assert_eq!(registry.get_typed(TRANSFORM, None), Some(registration.handle));
    assert_eq!(registry.cell(registration.handle).index(), Some(77));
    assert_eq!(registry.cell(registration.handle).read_value(), Ok(&-4));

    // A later lookup by the learned index hits the same cell.
    let again = registry.get_or_register(Some(&queue.command_tx), TRANSFORM, Some(77));
    assert!(matches!(again.outcome, RegisterOutcome::Found));
    assert_eq!(again.handle, registration.handle);
    assert_eq!(registry.len(), 1);
    assert!(read_dioxus_command_queues(&queue.command_rx).is_empty());
}

#[test]
fn learned_index_takes_a_key_over() {
    let queue = DioxusBevyInteropPlugin::<i32, ()>::new();
    let mut registry: MirrorRegistry<i32, ()> = MirrorRegistry::new();
    let eager = registry.get_or_register(Some(&queue.command_tx), TRANSFORM, Some(5));
    let lazy = registry.get_or_register(Some(&queue.command_tx), TRANSFORM, None);
    assert_eq!(registry.get_typed(TRANSFORM, Some(5)), Some(eager.handle));

    registry.receive(lazy.handle, update(1, Some(5)));
    assert_eq!(registry.get_typed(TRANSFORM, Some(5)), Some(lazy.handle));
    // The cell that lost the key is untouched.
    assert_eq!(
        registry.cell(eager.handle).read_value(),
        Err(&BevyFetchBackup::Uninitialized)
    );
    assert_eq!(registry.len(), 2);
}

#[test]
fn batch_applied_through_the_registry_ends_at_the_last_update() {
    let queue = DioxusBevyInteropPlugin::<i32, ()>::new();
    let mut registry: MirrorRegistry<i32, ()> = MirrorRegistry::new();
    let watched = registry.get_or_register(Some(&queue.command_tx), SPEED, None);
    let other = registry.get_or_register(Some(&queue.command_tx), TRANSFORM, None);

    registry.receive_all(
        watched.handle,
        vec![
            update(1, Some(8)),
            InfoPacket::Request(StatusUpdate::RequestRefresh),
            update(2, Some(9)),
            update(3, None),
        ],
    );
    assert_eq!(registry.cell(watched.handle).read_value(), Ok(&3));
    assert_eq!(registry.cell(watched.handle).index(), Some(9));
    assert_eq!(registry.get_typed(SPEED, Some(8)), Some(watched.handle));
    assert_eq!(registry.get_typed(SPEED, Some(9)), Some(watched.handle));
    assert_eq!(
        registry.cell(other.handle).read_value(),
        Err(&BevyFetchBackup::Uninitialized)
    );
}

#[test]
fn explicit_binding_replaces_what_was_there() {
    let queue = DioxusBevyInteropPlugin::<i32, ()>::new();
    let mut registry: MirrorRegistry<i32, ()> = MirrorRegistry::new();
    let a = registry.get_or_register(Some(&queue.command_tx), SPEED, Some(1));
    let b = registry.get_or_register(Some(&queue.command_tx), SPEED, Some(2));
    registry.insert_typed(b.handle, Some(1));
    assert_eq!(registry.get_typed(SPEED, Some(1)), Some(b.handle));
    assert_eq!(registry.get_typed(SPEED, Some(2)), Some(b.handle));
    registry.insert_typed(a.handle, Some(40));
    assert_eq!(registry.get_typed(SPEED, Some(40)), Some(a.handle));
    assert_eq!(registry.get_typed(SPEED, Some(41)), None);
    assert_eq!(registry.get_typed(TRANSFORM, Some(40)), None);
}

#[test]
fn empty_registry_has_no_cells() {
    let registry: MirrorRegistry<i32, ()> = MirrorRegistry::new();
    assert_eq!(registry.len(), 0);
    assert_eq!(registry.get_typed(SPEED, None), None);
}

#[test]
fn entering_a_cell_hands_out_the_registration_exactly_once() {
    let mut registry: MirrorRegistry<i32, ()> = MirrorRegistry::new();
    let first = registry.register(true, SPEED, Some(3));
    assert!(!first.found);
    let request = first.request.expect("a missing key with a queue makes a registration");
    assert_eq!(request.key, MirrorKey { type_id: SPEED, index: Some(3) });

    let second = registry.register(true, SPEED, Some(3));
    assert!(second.found);
    assert!(second.request.is_none());
    assert_eq!(second.handle, first.handle);
    assert_eq!(registry.len(), 1);

    let third = registry.register(false, TRANSFORM, None);
    assert!(!third.found);
    assert!(third.request.is_none());
    assert_eq!(registry.cell(third.handle).read_value(), Err(&BevyFetchBackup::Unknown));

    // The registration and the cell hold the two ends of one channel pair.
    let mut source = SourceMirror::install(request);
    let mut value = Some(5);
    source.tick(&mut value, true);
    assert_eq!(registry.poll(first.handle).received, 1);
    assert_eq!(registry.cell(first.handle).read_value(), Ok(&5));
}

#[test]
fn reader_of_a_cell_takes_packets_for_it() {
    let mut registry: MirrorRegistry<i32, ()> = MirrorRegistry::new();
    let entered = registry.register(true, SPEED, None);
    let mut source = SourceMirror::install(entered.request.unwrap());
    let reader = registry.reader(entered.handle).expect("a linked cell has a reader");

    let mut value = Some(1);
    source.tick(&mut value, true);
    value = Some(2);
    source.tick(&mut value, true);

    let drained = reader.drain();
    assert_eq!(drained.messages.len(), 2);
    registry.receive_all(entered.handle, drained.messages);
    assert_eq!(registry.cell(entered.handle).read_value(), Ok(&2));
    // What the reader took is gone from the channel.
    assert_eq!(registry.poll(entered.handle).received, 0);

    let unlinked = registry.register(false, TRANSFORM, None);
    assert!(registry.reader(unlinked.handle).is_none());
    assert!(registry.cell(unlinked.handle).reader().is_none());
}
