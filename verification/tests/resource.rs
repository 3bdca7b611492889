use bevy_dioxus_sync::config::{InfoRefershRateMS, DEFAULT_REFRESH_MS};
use bevy_dioxus_sync::packet::{InfoPacket, InfoUpdate, StatusUpdate};
use bevy_dioxus_sync::channel::{DioxusRxChannel, DioxusTxChannel};
use bevy_dioxus_sync::resource::{resource_packet, shown, BevyRes, NO_RESOURCE};

type Packet = InfoPacket<i64, ()>;

fn update(value: i64) -> Packet {
    InfoPacket::Update(InfoUpdate { update: value, index: None, additional_info: None })
}

fn copy() -> (BevyRes<i64>, crossbeam_channel::Sender<Packet>, crossbeam_channel::Receiver<Packet>)
{
    let (to_copy, incoming) = crossbeam_channel::unbounded();
    let (write, from_copy) = crossbeam_channel::unbounded();
    (BevyRes::new(DioxusTxChannel(write), DioxusRxChannel(incoming)), to_copy, from_copy)
}

#[test]
fn resource_copy_is_empty_until_the_first_update() {
    let (mut res, to_copy, _from_copy) = copy();
    assert_eq!(res.read_resource(), &None);
    assert_eq!(res.poll(), 0);
    assert_eq!(res.read_resource(), &None);
    to_copy.send(InfoPacket::Request(StatusUpdate::RequestRefresh)).unwrap();
    assert_eq!(res.poll(), 1);
    assert_eq!(res.read_resource(), &None);
}

#[test]
fn resource_copy_keeps_the_last_update_of_a_poll() {
    let (mut res, to_copy, _from_copy) = copy();
    to_copy.send(update(1)).unwrap();
    to_copy.send(update(2)).unwrap();
    assert_eq!(res.poll(), 2);
    assert_eq!(res.read_resource(), &Some(2));
    res.absorb_all(vec![update(5), InfoPacket::Request(StatusUpdate::RequestRefresh)]);
    assert_eq!(res.read_resource(), &Some(5));
    res.absorb_all(vec![]);
    assert_eq!(res.read_resource(), &Some(5));
}

#[test]
fn set_resource_sends_without_touching_the_copy() {
    let (res, _to_copy, from_copy) = copy();
    assert_eq!(res.set_resource(9), Ok(()));
    assert_eq!(res.read_resource(), &None);
    assert_eq!(from_copy.try_recv().unwrap(), update(9));
    // Exactly one packet went out.
    assert!(from_copy.try_recv().is_err());
}

#[test]
fn set_resource_hands_the_value_back_when_the_source_is_gone() {
    let (res, _to_copy, from_copy) = copy();
    drop(from_copy);
    assert_eq!(res.set_resource(9), Err(9));
}

#[test]
fn refresh_interval_defaults_to_thirty_milliseconds() {
    assert_eq!(DEFAULT_REFRESH_MS, 30);
    assert_eq!(InfoRefershRateMS::default(), InfoRefershRateMS(30));
}

#[test]
fn refresh_interval_from_polls_per_second() {
    assert_eq!(InfoRefershRateMS::from_fps(30), InfoRefershRateMS(33));
    assert_eq!(InfoRefershRateMS::from_fps(60), InfoRefershRateMS(16));
    assert_eq!(InfoRefershRateMS::from_fps(1), InfoRefershRateMS(1000));
    assert_eq!(InfoRefershRateMS::from_fps(1000), InfoRefershRateMS(1));
    assert_eq!(InfoRefershRateMS::from_fps(1001), InfoRefershRateMS(0));
    assert_eq!(InfoRefershRateMS::from_fps(u16::MAX), InfoRefershRateMS(0));
}

#[test]
fn refresh_interval_for_zero_polls_per_second_is_the_default() {
    assert_eq!(InfoRefershRateMS::from_fps_or_default(0), InfoRefershRateMS(30));
    assert_eq!(InfoRefershRateMS::from_fps_or_default(25), InfoRefershRateMS(40));
}

#[test]
fn resource_write_travels_as_a_bare_update() {
    assert_eq!(resource_packet(5i64), update(5));
    assert_eq!(
        resource_packet("v"),
        InfoPacket::Update(InfoUpdate { update: "v", index: None, additional_info: None })
    );
}

#[test]
fn resource_copy_without_a_value_shows_question_marks() {
    assert_eq!(NO_RESOURCE, "???");
    assert_eq!(shown(None), "???");
    assert_eq!(shown(Some("12.5".to_string())), "12.5");
    let (res, _to_copy, _from_copy) = copy();
    assert_eq!(shown(res.read_resource().as_ref().map(|value| value.to_string())), "???");
}
