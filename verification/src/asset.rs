//! How far the assets are that the observer asked for: loaded, still
//! loading, or failed.  The states travel as the values of a batch.

use vstd::prelude::*;
use std::collections::{HashMap, HashSet};
use crate::channel::BevyTxChannel;
use crate::delta::AddRemoveQueues;

verus! {

broadcast use vstd::std_specs::hash::group_hash_axioms;

/// What the observer is told of an asset.
#[derive(Debug, PartialEq, Eq)]
pub enum AssetLoadState<T> {
    /// The asset is there, with its value.
    Loaded(T),
    /// The asset is being loaded.
    Loading,
    /// Loading has failed, with the loader's message.
    Failed(String),
}

/// What the source's loader says of an asset.
#[derive(Debug, PartialEq, Eq)]
pub enum LoadProgress {
    NotLoaded,
    Loading,
    Loaded,
    Failed(String),
}

/// One asset that the observer asked for, as the source finds it in a tick.
pub struct AssetRequest<T> {
    /// The entity that refers to the asset.
    pub entity: u64,
    /// The asset's value, where the source holds it.
    pub asset: Option<T>,
    /// What the loader says of it.
    pub progress: LoadProgress,
}

/// What the observer is told of an asset: its value where the source holds
/// it; else that it is loading or has failed, as the loader says; and
/// nothing where the loader has not begun.
pub open spec fn status_of<T>(asset: Option<T>, progress: LoadProgress) -> Option<
    AssetLoadState<T>,
> {
    match asset {
        Some(value) => Some(AssetLoadState::Loaded(value)),
        None => match progress {
            LoadProgress::Failed(message) => Some(AssetLoadState::Failed(message)),
            LoadProgress::Loading => Some(AssetLoadState::Loading),
            _ => None,
        },
    }
}

/// The states of a list of requests, by entity.  A later request for an
/// entity replaces an earlier one.
pub open spec fn statuses_of<T>(requests: Seq<AssetRequest<T>>) -> Map<u64, AssetLoadState<T>>
    decreases requests.len(),
{
    if requests.len() == 0 {
        Map::empty()
    } else {
        let earlier = statuses_of(requests.drop_last());
        match status_of(requests.last().asset, requests.last().progress) {
            Some(state) => earlier.insert(requests.last().entity, state),
            None => earlier,
        }
    }
}

/// The entities of a list of requests whose asset has settled: it is loaded
/// or it has failed.
pub open spec fn settled_of<T>(requests: Seq<AssetRequest<T>>) -> Seq<u64>
    decreases requests.len(),
{
    if requests.len() == 0 {
        Seq::empty()
    } else {
        let earlier = settled_of(requests.drop_last());
        match status_of(requests.last().asset, requests.last().progress) {
            Some(AssetLoadState::Loaded(_)) | Some(AssetLoadState::Failed(_)) => earlier.push(
                requests.last().entity,
            ),
            _ => earlier,
        }
    }
}

impl<T> AssetLoadState<T> {
    /// Whether nothing more is to come: the asset is loaded or has failed.
    pub fn is_settled(&self) -> (settled: bool)
        ensures
            settled == !(*self is Loading),
    {
        match self {
            AssetLoadState::Loading => false,
            _ => true,
        }
    }
}

/// What the observer is told of one asset.
pub fn asset_status<T>(asset: Option<T>, progress: LoadProgress) -> (state: Option<
    AssetLoadState<T>,
>)
    ensures
        state == status_of(asset, progress),
{
    match asset {
        Some(value) => Some(AssetLoadState::Loaded(value)),
        None => match progress {
            LoadProgress::Failed(message) => Some(AssetLoadState::Failed(message)),
            LoadProgress::Loading => Some(AssetLoadState::Loading),
            _ => None,
        },
    }
}

/// What a pass over the requests of a tick found.
pub struct AssetStatuses<T> {
    /// The state of every asset that has one, by entity.
    pub states: HashMap<u64, AssetLoadState<T>>,
    /// The entities whose asset has settled, in the order of the requests.
    pub settled: Vec<u64>,
}

/// Looks at every request once.
pub fn get_asset_status<T>(requests: Vec<AssetRequest<T>>) -> (found: AssetStatuses<T>)
    ensures
        found.states@ == statuses_of(requests@),
        found.settled@ == settled_of(requests@),
{
    let mut states: HashMap<u64, AssetLoadState<T>> = HashMap::new();
    let mut settled: Vec<u64> = Vec::new();
    for request in it: requests.into_iter()
        invariant
            it.seq() == requests@,
            states@ == statuses_of(it.seq().take(it.index() as int)),
            settled@ == settled_of(it.seq().take(it.index() as int)),
    {
        proof {
            let done = it.seq().take(it.index() + 1);
            assert(done.drop_last() == it.seq().take(it.index() as int));
            assert(done.last() == request);
        }
        let AssetRequest { entity, asset, progress } = request;
        match asset_status(asset, progress) {
            Some(state) => {
                if state.is_settled() {
                    settled.push(entity);
                }
                states.insert(entity, state);
            },
            None => {},
        }
    }
    proof {
        assert(requests@.take(requests@.len() as int) == requests@);
    }
    AssetStatuses { states, settled }
}

/// The batch that tells the observer of the states of the assets in
/// `requests`, and the entities whose asset has settled.  The batch adds
/// the states and removes nothing.
pub fn asset_batch<T>(requests: Vec<AssetRequest<T>>) -> (made: (
    AddRemoveQueues<AssetLoadState<T>>,
    Vec<u64>,
))
    ensures
        made.0.add@ == statuses_of(requests@),
        made.0.remove@ == Set::<u64>::empty(),
        made.1@ == settled_of(requests@),
{
    let AssetStatuses { states, settled } = get_asset_status(requests);
    (AddRemoveQueues { add: states, remove: HashSet::new() }, settled)
}

/// Sends the batch of `asset_batch` for the assets that changed in this
/// tick.  A batch that could not leave comes back.
pub fn send_updated_asset<T>(
    requests: Vec<AssetRequest<T>>,
    bevy_tx: &BevyTxChannel<AddRemoveQueues<AssetLoadState<T>>>,
) -> (outcome: Result<(), AddRemoveQueues<AssetLoadState<T>>>)
    ensures
        outcome matches Err(back) ==> back.add@ == statuses_of(requests@) && back.remove@
            == Set::<u64>::empty(),
{
    let (batch, _) = asset_batch(requests);
    bevy_tx.send(batch)
}

/// What a first look at the assets of newly seen entities brought.
pub struct InitialAssets<T> {
    /// The entities that need no second look: their asset has settled.
    pub settled: Vec<u64>,
    /// The batch, where it could not leave.
    pub unsent: Option<AddRemoveQueues<AssetLoadState<T>>>,
}

/// Sends the batch of `asset_batch` for the assets that the observer has
/// not been told of yet, and names the entities whose asset has settled.
pub fn try_load_initial_asset<T>(
    requests: Vec<AssetRequest<T>>,
    bevy_tx: &BevyTxChannel<AddRemoveQueues<AssetLoadState<T>>>,
) -> (found: InitialAssets<T>)
    ensures
        found.settled@ == settled_of(requests@),
        found.unsent matches Some(back) ==> back.add@ == statuses_of(requests@) && back.remove@
            == Set::<u64>::empty(),
{
    let (batch, settled) = asset_batch(requests);
    let unsent = match bevy_tx.send(batch) {
        Ok(()) => None,
        Err(back) => Some(back),
    };
    InitialAssets { settled, unsent }
}

} // verus!
