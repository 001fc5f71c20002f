//! Axis-aligned bounding boxes over ordinal coordinates.

use crate::ordinal::MAX_FINITE;
use vstd::prelude::*;

verus! {

/// A point, or a triple of extents, one ordinal per axis.
#[derive(Clone, Copy, Debug, PartialEq, Eq, Structural)]
pub struct Point3 {
    pub x: i32,
    pub y: i32,
    pub z: i32,
}

impl Point3 {
    /// The point whose three coordinates are all `v`.
    pub open spec fn spec_splat(v: i32) -> Point3 {
        Point3 { x: v, y: v, z: v }
    }

    /// The point whose three coordinates are all `v`.
    #[verifier::when_used_as_spec(spec_splat)]
    pub fn splat(v: i32) -> (p: Point3)
        ensures
            p == Point3::spec_splat(v),
    {
        Point3 { x: v, y: v, z: v }
    }
}

/// The eight corners of the box spanned by `lo` and `hi`, starting at the
/// all-maximum corner: the upper face first, then the lower face, each walked
/// from the maximum x and z corner through minimum x, then minimum z.
pub open spec fn corners(lo: Point3, hi: Point3) -> Seq<Point3> {
    seq![
        Point3 { x: hi.x, y: hi.y, z: hi.z },
        Point3 { x: lo.x, y: hi.y, z: hi.z },
        Point3 { x: lo.x, y: hi.y, z: lo.z },
        Point3 { x: hi.x, y: hi.y, z: lo.z },
        Point3 { x: hi.x, y: lo.y, z: hi.z },
        Point3 { x: lo.x, y: lo.y, z: hi.z },
        Point3 { x: lo.x, y: lo.y, z: lo.z },
        Point3 { x: hi.x, y: lo.y, z: lo.z },
    ]
}

fn corner_array(lo: Point3, hi: Point3) -> (v: [Point3; 8])
    ensures
        v@ == corners(lo, hi),
{
    let v = [
        Point3 { x: hi.x, y: hi.y, z: hi.z },
        Point3 { x: lo.x, y: hi.y, z: hi.z },
        Point3 { x: lo.x, y: hi.y, z: lo.z },
        Point3 { x: hi.x, y: hi.y, z: lo.z },
        Point3 { x: hi.x, y: lo.y, z: hi.z },
        Point3 { x: lo.x, y: lo.y, z: hi.z },
        Point3 { x: lo.x, y: lo.y, z: lo.z },
        Point3 { x: hi.x, y: lo.y, z: lo.z },
    ];
    assert(v@ =~= corners(lo, hi));
    v
}

/// A bounding box in the collider's own frame: its origin is the origin of
/// the body it is attached to.
#[derive(Clone, Copy, Debug, PartialEq, Eq, Structural)]
pub struct Aabb {
    /// The corner with the least x, y and z.
    pub minimums: Point3,
    /// The corner with the greatest x, y and z.
    pub maximums: Point3,
}

impl Default for Aabb {
    /// The inverted box: every minimum at the largest finite coordinate and
    /// every maximum at the smallest, so that no finite point lies inside.
    fn default() -> (b: Self)
        ensures
            b.minimums == Point3::spec_splat(MAX_FINITE),
            b.maximums == Point3::spec_splat((-MAX_FINITE) as i32),
    {
        Aabb { minimums: Point3::splat(MAX_FINITE), maximums: Point3::splat(-MAX_FINITE) }
    }
}

impl Aabb {
    /// The eight corners of the box, in the body's frame.
    pub fn vertices_mesh_space(&self) -> (v: [Point3; 8])
        ensures
            v@ == corners(self.minimums, self.maximums),
    {
        corner_array(self.minimums, self.maximums)
    }
}

/// A bounding box in world coordinates, refreshed from the body's
/// translation every frame.
#[derive(Clone, Copy, Debug, PartialEq, Eq, Structural)]
pub struct GlobalAabb {
    /// The corner with the least x, y and z.
    pub minimums: Point3,
    /// The corner with the greatest x, y and z.
    pub maximums: Point3,
}

impl Default for GlobalAabb {
    /// The inverted box, as for [`Aabb`].
    fn default() -> (b: Self)
        ensures
            b.minimums == Point3::spec_splat(MAX_FINITE),
            b.maximums == Point3::spec_splat((-MAX_FINITE) as i32),
    {
        GlobalAabb { minimums: Point3::splat(MAX_FINITE), maximums: Point3::splat(-MAX_FINITE) }
    }
}

impl GlobalAabb {
    /// Two boxes overlap when their interiors meet on every axis: boxes that
    /// only touch do not overlap.
    pub open spec fn intersects(&self, other: &GlobalAabb) -> bool {
        &&& self.minimums.x < other.maximums.x
        &&& self.maximums.x > other.minimums.x
        &&& self.minimums.y < other.maximums.y
        &&& self.maximums.y > other.minimums.y
        &&& self.minimums.z < other.maximums.z
        &&& self.maximums.z > other.minimums.z
    }

    /// The eight corners of the box, in world coordinates.
    pub fn vertices_mesh_space(&self) -> (v: [Point3; 8])
        ensures
            v@ == corners(self.minimums, self.maximums),
    {
        corner_array(self.minimums, self.maximums)
    }
}

/// The overlap test does not depend on the order of its arguments.
pub proof fn lemma_intersects_symmetric(a: GlobalAabb, b: GlobalAabb)
    ensures
        a.intersects(&b) == b.intersects(&a),
{
}

/// Boxes that end where the other begins, on any axis, do not overlap.
pub proof fn lemma_touching_is_no_overlap(a: GlobalAabb, b: GlobalAabb)
    requires
        a.maximums.x == b.minimums.x || a.maximums.y == b.minimums.y || a.maximums.z
            == b.minimums.z,
    ensures
        !a.intersects(&b),
        !b.intersects(&a),
{
}

} // verus!
