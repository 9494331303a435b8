//! Waiting for a resource to load: what each observed load state means for
//! the one who waits.
use crate::async_asset::LoadState;
use vstd::prelude::*;

verus! {

/// Why a load came to nothing.
#[derive(Clone, Debug)]
pub enum LoadFailure<E> {
    /// The resource was not loading at all, or the watch on it ended before
    /// the load did.
    NotLoaded,
    /// The resource or something it depends on failed to load, for the
    /// reason given.
    Failed(E),
}

/// What follows from one observation of a load, for every observation.
pub open spec fn load_outcome_of<E>(seen: Option<LoadState<E>>) -> Option<Result<(), LoadFailure<E>>> {
    match seen {
        None => Some(Err(LoadFailure::NotLoaded)),
        Some(LoadState::NotLoaded) => Some(Err(LoadFailure::NotLoaded)),
        Some(LoadState::Loading) => None,
        Some(LoadState::Loaded) => Some(Ok(())),
        Some(LoadState::Failed(reason)) => Some(Err(LoadFailure::Failed(reason))),
    }
}

/// Decides on one observation of a load: `seen` is the next value of the
/// watch on the resource, or `None` once the watch has ended. The answer is
/// `None` while the load goes on, and the load's result once it is known:
/// success when everything is loaded, the failure's reason when something
/// failed, and [`LoadFailure::NotLoaded`] when the resource is not loading or
/// the watch has ended.
pub fn load_outcome<E>(seen: Option<LoadState<E>>) -> (outcome: Option<Result<(), LoadFailure<E>>>)
    ensures
        outcome == load_outcome_of(seen),
{
    match seen {
        None => Some(Err(LoadFailure::NotLoaded)),
        Some(LoadState::NotLoaded) => Some(Err(LoadFailure::NotLoaded)),
        Some(LoadState::Loading) => None,
        Some(LoadState::Loaded) => Some(Ok(())),
        Some(LoadState::Failed(reason)) => Some(Err(LoadFailure::Failed(reason))),
    }
}

} // verus!
