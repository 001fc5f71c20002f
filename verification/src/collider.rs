//! Collider shapes and what the pipeline derives from them.

use crate::bounds::aabb::{Aabb, Point3};
use crate::ordinal::{negate, negated};
use vstd::prelude::*;

verus! {

/// The shape family of a collider.
#[derive(Clone, Copy, Debug, PartialEq, Eq, Structural)]
pub enum ColliderType {
    Sphere,
}

/// What every collider shape tells the pipeline about itself.
pub trait Collider {
    /// The shape family.
    fn get_type(&self) -> ColliderType;

    /// The centre of mass, in the collider's own frame.
    fn get_center_of_mass(&self) -> Point3;

    /// The bounding box, in the collider's own frame.
    fn get_aabb(&self) -> Aabb;
}

/// A sphere around the body's origin.
#[derive(Clone, Copy, Debug, PartialEq, Eq, Structural)]
pub struct ColliderSphere {
    /// The ordinal of the radius.
    pub radius: i32,
}

impl ColliderSphere {
    /// The sphere with the given radius.
    pub fn new(radius: i32) -> (s: Self)
        ensures
            s.radius == radius,
    {
        ColliderSphere { radius }
    }
}

impl Collider for ColliderSphere {
    fn get_type(&self) -> (t: ColliderType)
        ensures
            t == ColliderType::Sphere,
    {
        ColliderType::Sphere
    }

    /// A sphere's centre of mass is its centre.
    fn get_center_of_mass(&self) -> (c: Point3)
        ensures
            c == Point3::spec_splat(0),
    {
        Point3::splat(0)
    }

    /// The cube from minus the radius to the radius on every axis.
    fn get_aabb(&self) -> (b: Aabb)
        ensures
            b.minimums == Point3::spec_splat(negated(self.radius)),
            b.maximums == Point3::spec_splat(self.radius),
    {
        Aabb { minimums: Point3::splat(negate(self.radius)), maximums: Point3::splat(self.radius) }
    }
}

} // verus!
