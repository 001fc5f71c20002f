//! The discrete core of a rigid-body physics pipeline.
//!
//! Coordinates, times and radii are ordinals (see [`ordinal`]): integers
//! that stand for the host's single-precision values and keep their order.
//! The library compares and negates ordinals and never adds or scales them:
//! arithmetic on coordinates is the host's.
//!
//! Bodies are known by their handles, `bevy` entities, which the library
//! carries from its input to its output without looking inside.

pub mod bounds;
pub mod collider;
pub mod contact;
pub mod intersect;
pub mod ordinal;
pub mod phases;

pub use bounds::aabb::{Aabb, GlobalAabb, Point3};
pub use collider::{Collider, ColliderSphere, ColliderType};
pub use contact::BroadContact;
pub use intersect::sphere::earliest_impact;
pub use ordinal::{negate, ordinal_from_bits, ordinal_to_bits};
pub use phases::axis::{cmp_x_axis, cmp_y_axis, cmp_z_axis, sweep_order};
pub use phases::broad::{aabb_aabb_intersect, broadphase_system};
pub use phases::narrow::{narrow_test, NarrowTest};

use vstd::prelude::*;

verus! {

/// How the narrow phase looks for contacts.
#[derive(Clone, Copy, Debug, PartialEq, Eq, Structural)]
pub enum CollisionDetection {
    /// Test the bodies where they stand.
    Static,
    /// Test the bodies along their way through the frame.
    Dynamic,
}

/// The switches of the pipeline.
#[derive(Clone, Copy, Debug, PartialEq, Eq, Structural)]
pub struct PhysicsConfig {
    /// Whether the physics stages run at all.
    pub enabled: bool,
    /// Whether the diagnostics stage runs.
    pub debug: bool,
    /// How the narrow phase looks for contacts.
    pub detection: CollisionDetection,
}

impl Default for PhysicsConfig {
    fn default() -> (c: Self)
        ensures
            c == (PhysicsConfig {
                enabled: true,
                debug: true,
                detection: CollisionDetection::Dynamic,
            }),
    {
        PhysicsConfig { enabled: true, debug: true, detection: CollisionDetection::Dynamic }
    }
}

/// The stages of a frame.
#[derive(Clone, Copy, Debug, PartialEq, Eq, Hash, Structural)]
pub enum Phases {
    /// What a body has from its mass, its collider and its pose is derived.
    Setup,
    /// Forces change velocities.
    Dynamics,
    /// Pairs of bodies whose boxes overlap are found.
    Broad,
    /// Each pair is tested precisely, and contacts are made.
    Narrow,
    /// Each contact is resolved by impulses.
    Resolve,
    /// Every body moves on by its velocity.
    UpdatePosition,
    /// The frame is reported.
    Debug,
}

/// The physics stages, in the order in which every frame runs them: forces,
/// broad phase, narrow phase, resolution, integration.
pub open spec fn physics_phases() -> Seq<Phases> {
    seq![Phases::Dynamics, Phases::Broad, Phases::Narrow, Phases::Resolve, Phases::UpdatePosition]
}

/// The stages of one frame under `config`, in their order: the setup, then
/// all physics stages or none of them, then the diagnostics if asked for.
pub open spec fn frame_plan(config: PhysicsConfig) -> Seq<Phases> {
    seq![Phases::Setup] + (if config.enabled {
        physics_phases()
    } else {
        Seq::empty()
    }) + (if config.debug {
        seq![Phases::Debug]
    } else {
        Seq::empty()
    })
}

/// Lists the stages that this frame runs, in their order.
pub fn frame_phases(config: &PhysicsConfig) -> (plan: Vec<Phases>)
    ensures
        plan@ == frame_plan(*config),
{
    let mut plan: Vec<Phases> = Vec::new();
    plan.push(Phases::Setup);
    if run_physics(config) {
        plan.push(Phases::Dynamics);
        plan.push(Phases::Broad);
        plan.push(Phases::Narrow);
        plan.push(Phases::Resolve);
        plan.push(Phases::UpdatePosition);
    }
    if run_debug(config) {
        plan.push(Phases::Debug);
    }
    assert(plan@ =~= frame_plan(*config));
    plan
}

/// A disabled pipeline runs no physics stage, and an enabled one runs each
/// of them once, in the fixed order, whatever the other switches say.
pub proof fn lemma_physics_gated(config: PhysicsConfig)
    ensures
        !config.enabled ==> forall|k: int|
            0 <= k < frame_plan(config).len() ==> !physics_phases().contains(
                #[trigger] frame_plan(config)[k],
            ),
        config.enabled ==> frame_plan(config).subrange(1, 6) == physics_phases(),
        frame_plan(config)[0] == Phases::Setup,
{
    let plan = frame_plan(config);
    if config.enabled {
        assert(plan.subrange(1, 6) =~= physics_phases());
    } else {
        assert forall|k: int| 0 <= k < plan.len() implies !physics_phases().contains(
            #[trigger] plan[k],
        ) by {
            assert(plan[k] == Phases::Setup || plan[k] == Phases::Debug);
            if physics_phases().contains(plan[k]) {
                let m = choose|m: int|
                    0 <= m < physics_phases().len() && physics_phases()[m] == plan[k];
                assert(m == 0 || m == 1 || m == 2 || m == 3 || m == 4);
            }
        }
    }
}

/// Whether the physics stages run this frame.
pub fn run_physics(config: &PhysicsConfig) -> (run: bool)
    ensures
        run == config.enabled,
{
    if config.enabled {
        true
    } else {
        false
    }
}

/// Whether the diagnostics stage runs this frame.
pub fn run_debug(config: &PhysicsConfig) -> (run: bool)
    ensures
        run == config.debug,
{
    if config.debug {
        true
    } else {
        false
    }
}

} // verus!
