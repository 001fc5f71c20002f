//! The narrow phase's choice of test for a candidate pair.

use crate::collider::ColliderType;
use crate::CollisionDetection;
use vstd::prelude::*;

verus! {

/// A precise test on two colliders.
#[derive(Clone, Copy, Debug, PartialEq, Eq, Structural)]
pub enum NarrowTest {
    /// Do the two spheres overlap where they stand now?
    SphereSphereStatic,
    /// Do the two spheres meet on their way through this frame?
    SphereSphereDynamic,
}

/// The test for a pair of shapes under a detection mode.
pub open spec fn test_for(
    a: ColliderType,
    b: ColliderType,
    detection: CollisionDetection,
) -> Option<NarrowTest> {
    match (a, b) {
        (ColliderType::Sphere, ColliderType::Sphere) => match detection {
            CollisionDetection::Static => Some(NarrowTest::SphereSphereStatic),
            CollisionDetection::Dynamic => Some(NarrowTest::SphereSphereDynamic),
        },
    }
}

/// Chooses the test that the narrow phase runs on a candidate pair, or none
/// where the pipeline has no test for the two shapes: such a pair yields no
/// contact.
pub fn narrow_test(
    a: ColliderType,
    b: ColliderType,
    detection: CollisionDetection,
) -> (t: Option<NarrowTest>)
    ensures
        t == test_for(a, b, detection),
{
    match (a, b) {
        (ColliderType::Sphere, ColliderType::Sphere) => match detection {
            CollisionDetection::Static => Some(NarrowTest::SphereSphereStatic),
            CollisionDetection::Dynamic => Some(NarrowTest::SphereSphereDynamic),
        },
    }
}

} // verus!
