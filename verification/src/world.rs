//! The shared state: `bevy_ecs::world::World`.
//!
//! The library never looks inside a world. It hands the world to jobs, one
//! at a time, and keeps its own registries in it as resources.
use bevy_ecs::world::World;
use vstd::prelude::*;

verus! {

/// `bevy_ecs::world::World`: the state that only the drain step may touch.
#[verifier::external_type_specification]
#[verifier::external_body]
pub struct ExWorld(World);

} // verus!
