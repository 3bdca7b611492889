use bevy_dioxus_sync::asset::{
    asset_batch, asset_status, get_asset_status, send_updated_asset, try_load_initial_asset, AssetLoadState,
    AssetRequest, LoadProgress,
};
use bevy_dioxus_sync::channel::BevyTxChannel;

fn request(
    entity: u64,
    asset: Option<&'static str>,
    progress: LoadProgress,
) -> AssetRequest<&'static str> {
    AssetRequest { entity, asset, progress }
}

#[test]
fn asset_state_follows_the_asset_and_then_the_loader() {
    assert_eq!(asset_status(Some(1), LoadProgress::Loading), Some(AssetLoadState::Loaded(1)));
    assert_eq!(asset_status(Some(1), LoadProgress::NotLoaded), Some(AssetLoadState::Loaded(1)));
    assert_eq!(asset_status::<u8>(None, LoadProgress::Loading), Some(AssetLoadState::Loading));
    assert_eq!(
        asset_status::<u8>(None, LoadProgress::Failed("no file".to_string())),
        Some(AssetLoadState::Failed("no file".to_string()))
    );
    assert_eq!(asset_status::<u8>(None, LoadProgress::NotLoaded), None);
    assert_eq!(asset_status::<u8>(None, LoadProgress::Loaded), None);
    assert!(AssetLoadState::Loaded(1).is_settled());
    assert!(AssetLoadState::<u8>::Failed(String::new()).is_settled());
    assert!(!AssetLoadState::<u8>::Loading.is_settled());
}

#[test]
fn asset_states_of_a_tick_are_gathered_by_entity() {
    let found = get_asset_status(vec![
        request(1, Some("cube"), LoadProgress::Loaded),
        request(2, None, LoadProgress::Loading),
        request(3, None, LoadProgress::NotLoaded),
        request(4, None, LoadProgress::Failed("broken".to_string())),
    ]);
    assert_eq!(found.states.len(), 3);
    assert_eq!(found.states.get(&1), Some(&AssetLoadState::Loaded("cube")));
    assert_eq!(found.states.get(&2), Some(&AssetLoadState::Loading));
    assert_eq!(found.states.get(&3), None);
    assert_eq!(found.states.get(&4), Some(&AssetLoadState::Failed("broken".to_string())));
    assert_eq!(found.settled, vec![1, 4]);
}

#[test]
fn asset_states_travel_as_one_batch() {
    let (tx, rx) = crossbeam_channel::unbounded();
    let tx = BevyTxChannel(tx);
    let found = try_load_initial_asset(
        vec![request(1, Some("cube"), LoadProgress::Loaded), request(2, None, LoadProgress::Loading)],
        &tx,
    );
    assert_eq!(found.settled, vec![1]);
    assert!(found.unsent.is_none());
    let batch = rx.try_recv().unwrap();
    assert_eq!(batch.add.len(), 2);
    assert!(batch.remove.is_empty());

    assert!(send_updated_asset(vec![request(2, Some("ball"), LoadProgress::Loaded)], &tx).is_ok());
    let batch = rx.try_recv().unwrap();
    assert_eq!(batch.add.get(&2), Some(&AssetLoadState::Loaded("ball")));

    drop(rx);
    let back = send_updated_asset(vec![request(2, None, LoadProgress::Loading)], &tx).unwrap_err();
    assert_eq!(back.add.get(&2), Some(&AssetLoadState::Loading));
    let found = try_load_initial_asset(vec![request(3, Some("x"), LoadProgress::Loaded)], &tx);
    assert_eq!(found.settled, vec![3]);
    assert_eq!(found.unsent.unwrap().add.len(), 1);
}

#[test]
fn asset_batch_adds_the_states_and_removes_nothing() {
    let (batch, settled) = asset_batch(vec![
        request(1, Some("cube"), LoadProgress::Loaded),
        request(2, None, LoadProgress::Loading),
        request(3, None, LoadProgress::NotLoaded),
    ]);
    assert_eq!(batch.add.len(), 2);
    assert_eq!(batch.add.get(&1), Some(&AssetLoadState::Loaded("cube")));
    assert_eq!(batch.add.get(&2), Some(&AssetLoadState::Loading));
    assert!(batch.remove.is_empty());
    assert_eq!(settled, vec![1]);
}
