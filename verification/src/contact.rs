//! What the broad phase hands to the narrow phase.

use bevy::ecs::entity::Entity;
use vstd::prelude::*;

verus! {

/// The handle of a body: `bevy`'s `Entity`. The library carries handles
/// from its input to its output and never looks inside one.
#[verifier::external_type_specification]
#[verifier::external_body]
pub struct ExEntity(bevy::ecs::entity::Entity);

/// A candidate pair: the handles of two bodies whose world boxes overlap.
#[derive(Clone, Copy, Debug, PartialEq, Eq)]
pub struct BroadContact {
    /// The body whose box begins first along x, or no later than the other's.
    pub a: Entity,
    /// The other body.
    pub b: Entity,
}

} // verus!
