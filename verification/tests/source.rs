use bevy_dioxus_sync::channel::{BevyDioxusIO, BevyRxChannel, BevyTxChannel, Drained, RecvStop};
use bevy_dioxus_sync::command::RegistrationRequest;
use bevy_dioxus_sync::packet::{InfoPacket, InfoUpdate, StatusUpdate};
use bevy_dioxus_sync::registry::MirrorKey;
use bevy_dioxus_sync::source::{ReceiveReport, SendOutcome, SourceMirror};

type Packet = InfoPacket<u32, u8>;

struct Observer {
    tx: crossbeam_channel::Sender<Packet>,
    rx: crossbeam_channel::Receiver<Packet>,
}

fn installed(index: Option<u64>) -> (SourceMirror<u32, u8>, Observer) {
    let BevyDioxusIO { bevy_tx, bevy_rx, dioxus_tx, dioxus_rx } = BevyDioxusIO::<Packet>::new();
    let key = MirrorKey { type_id: 4, index };
    let mirror = SourceMirror::install(RegistrationRequest { key, bevy_tx, bevy_rx });
    (mirror, Observer { tx: dioxus_tx.0, rx: dioxus_rx.0 })
}

fn update(value: u32) -> Packet {
    InfoPacket::Update(InfoUpdate { update: value, index: None, additional_info: None })
}

fn refresh() -> Packet {
    InfoPacket::Request(StatusUpdate::RequestRefresh)
}

#[test]
fn refresh_is_answered_by_one_update_though_nothing_changed() {
    let (mut mirror, observer) = installed(Some(6));
    let mut value = Some(10);
    // The first tick pushes the value as new.
    assert_eq!(mirror.tick(&mut value, false).sent, SendOutcome::Sent);
    observer.rx.try_recv().unwrap();
    assert_eq!(mirror.tick(&mut value, false).sent, SendOutcome::Idle);

    observer.tx.send(refresh()).unwrap();
    let report = mirror.tick(&mut value, false);
    assert_eq!(report.received, ReceiveReport { received: 1, applied: 0, disconnected: false });
    assert_eq!(report.sent, SendOutcome::Sent);
    assert_eq!(
        observer.rx.try_recv().unwrap(),
        InfoPacket::Update(InfoUpdate { update: 10, index: Some(6), additional_info: None })
    );
    assert!(observer.rx.try_recv().is_err());

    // The debt is settled: the next tick is silent.
    assert!(!mirror.reply_owed());
    assert_eq!(mirror.tick(&mut value, false).sent, SendOutcome::Idle);
    assert!(observer.rx.try_recv().is_err());
}

#[test]
fn several_refresh_requests_in_one_tick_get_one_answer() {
    let (mut mirror, observer) = installed(None);
    let mut value = Some(10);
    observer.tx.send(refresh()).unwrap();
    observer.tx.send(refresh()).unwrap();
    observer.tx.send(refresh()).unwrap();
    let report = mirror.tick(&mut value, true);
    assert_eq!(report.received.received, 3);
    assert_eq!(report.sent, SendOutcome::Sent);
    assert_eq!(observer.rx.len(), 1);
}

#[test]
fn refresh_without_a_value_stays_owed_until_there_is_one() {
    let (mut mirror, observer) = installed(None);
    let mut value: Option<u32> = None;
    observer.tx.send(refresh()).unwrap();
    assert_eq!(mirror.tick(&mut value, false).sent, SendOutcome::Idle);
    assert!(mirror.reply_owed());
    assert!(observer.rx.try_recv().is_err());

    value = Some(3);
    assert_eq!(mirror.tick(&mut value, false).sent, SendOutcome::Sent);
    assert!(!mirror.reply_owed());
    assert_eq!(observer.rx.try_recv().unwrap(), update(3));
}

#[test]
fn receiver_takes_every_queued_packet_and_the_last_edit_wins() {
    let (mut mirror, observer) = installed(None);
    let mut value = Some(0);
    observer.tx.send(update(1)).unwrap();
    observer.tx.send(refresh()).unwrap();
    observer.tx.send(update(2)).unwrap();
    observer.tx.send(update(3)).unwrap();

    let report = mirror.receive_updates(&mut value);
    assert_eq!(report, ReceiveReport { received: 4, applied: 3, disconnected: false });
    assert_eq!(value, Some(3));
    assert!(mirror.reply_owed());

    // Nothing is left for the next tick.
    let report = mirror.receive_updates(&mut value);
    assert_eq!(report.received, 0);
    assert_eq!(value, Some(3));
}

#[test]
fn edit_creates_the_value_where_the_source_had_none() {
    let (mut mirror, _observer) = installed(None);
    let mut value: Option<u32> = None;
    assert_eq!(mirror.hear_all(&mut value, vec![refresh(), update(5)]), 1);
    assert_eq!(value, Some(5));
    assert_eq!(mirror.hear_all(&mut value, vec![]), 0);
    assert_eq!(value, Some(5));
    mirror.hear(&mut value, update(6));
    assert_eq!(value, Some(6));
}

#[test]
fn sender_pushes_only_what_is_due() {
    let (mut mirror, observer) = installed(Some(1));
    assert_eq!(mirror.send_update(None, true), SendOutcome::Idle);
    assert!(observer.rx.try_recv().is_err());
    // A value that appears is pushed once, changed or not.
    assert_eq!(mirror.send_update(Some(&1), false), SendOutcome::Sent);
    assert_eq!(observer.rx.len(), 1);
    assert_eq!(mirror.send_update(Some(&1), false), SendOutcome::Idle);
    assert_eq!(observer.rx.len(), 1);
    assert_eq!(mirror.send_update(Some(&2), true), SendOutcome::Sent);
    assert_eq!(observer.rx.len(), 2);
    // A value that goes and comes back is new again.
    assert_eq!(mirror.send_update(None, false), SendOutcome::Idle);
    assert_eq!(mirror.send_update(Some(&2), false), SendOutcome::Sent);
    assert_eq!(observer.rx.len(), 3);
}

#[test]
fn update_for_a_vanished_observer_is_dropped() {
    let (mut mirror, observer) = installed(Some(1));
    mirror.identify(Some(2), Some(9));
    drop(observer);
    let mut value = Some(8);
    let report = mirror.tick(&mut value, true);
    assert!(report.received.disconnected);
    assert_eq!(
        report.sent,
        SendOutcome::Dropped(InfoUpdate { update: 8, index: Some(2), additional_info: Some(9) })
    );
    assert_eq!(value, Some(8));
}

#[test]
fn outgoing_update_is_stamped_with_index_and_correlation_data() {
    let (mut mirror, _observer) = installed(Some(1));
    assert_eq!(mirror.key(), MirrorKey { type_id: 4, index: Some(1) });
    assert_eq!(
        mirror.outgoing(&7),
        InfoUpdate { update: 7, index: Some(1), additional_info: None }
    );
    mirror.identify(None, Some(3));
    assert_eq!(
        mirror.outgoing(&7),
        InfoUpdate { update: 7, index: None, additional_info: Some(3) }
    );
}

#[test]
fn source_channel_halves_work_on_their_own() {
    let (tx, rx) = crossbeam_channel::unbounded::<u8>();
    let tx = BevyTxChannel(tx);
    let rx = BevyRxChannel(rx);
    assert_eq!(tx.send(1), Ok(()));
    assert_eq!(tx.send(2), Ok(()));
    let drained = rx.drain();
    assert_eq!(drained.messages, vec![1, 2]);
    assert!(!drained.disconnected);
    assert!(rx.drain().messages.is_empty());
    drop(rx);
    assert_eq!(tx.send(3), Err(3));
}

#[test]
fn drain_keeps_messages_in_order_and_ends_on_the_first_failed_attempt() {
    let mut drained: Drained<u8> = Drained::new();
    assert!(drained.messages.is_empty());
    assert!(!drained.disconnected);
    assert!(drained.note(Ok(4)));
    assert!(drained.note(Ok(2)));
    assert!(!drained.note(Err(RecvStop::Empty)));
    assert_eq!(drained.messages, vec![4, 2]);
    assert!(!drained.disconnected);

    let mut gone: Drained<u8> = Drained::new();
    assert!(gone.note(Ok(1)));
    assert!(!gone.note(Err(RecvStop::Disconnected)));
    assert_eq!(gone.messages, vec![1]);
    assert!(gone.disconnected);
}

#[test]
fn drain_of_a_channel_tells_empty_from_disconnected() {
    let (tx, rx) = crossbeam_channel::unbounded::<u8>();
    let rx = BevyRxChannel(rx);
    let drained = rx.drain();
    assert!(drained.messages.is_empty());
    assert!(!drained.disconnected);
    tx.send(7).unwrap();
    tx.send(8).unwrap();
    tx.send(9).unwrap();
    drop(tx);
    let drained = rx.drain();
    assert_eq!(drained.messages, vec![7, 8, 9]);
    assert!(drained.disconnected);
}
