use vstd::prelude::*;

verus! {

/// Every scalar in the scene model is a fixed-point number with `SCALE`
/// subunits per scene unit.  The surrounding program converts to whatever
/// representation its graphics backend wants.
pub const SCALE: i64 = 65536;

/// Coordinates handed to the camera arithmetic must stay within this
/// magnitude so that every intermediate product fits in 64 bits.
pub const COORD_LIMIT: i64 = 536870912;

/// A point or vector in the ground plane, in fixed-point scene units.
#[derive(Clone, Copy, Debug, PartialEq, Eq, Structural)]
pub struct Vec2 {
    pub x: i64,
    pub y: i64,
}

/// A point or vector in space, in fixed-point scene units.
#[derive(Clone, Copy, Debug, PartialEq, Eq, Structural)]
pub struct Vec3 {
    pub x: i64,
    pub y: i64,
    pub z: i64,
}

impl Vec2 {
    pub open spec fn in_bounds(self) -> bool {
        &&& -COORD_LIMIT <= self.x <= COORD_LIMIT
        &&& -COORD_LIMIT <= self.y <= COORD_LIMIT
    }

    pub fn new(x: i64, y: i64) -> (v: Vec2)
        ensures
            v == (Vec2 { x, y }),
    {
        Vec2 { x, y }
    }
}

impl Vec3 {
    pub open spec fn in_bounds(self) -> bool {
        &&& -COORD_LIMIT <= self.x <= COORD_LIMIT
        &&& -COORD_LIMIT <= self.y <= COORD_LIMIT
        &&& -COORD_LIMIT <= self.z <= COORD_LIMIT
    }

    pub fn new(x: i64, y: i64, z: i64) -> (v: Vec3)
        ensures
            v == (Vec3 { x, y, z }),
    {
        Vec3 { x, y, z }
    }

    /// Ground-plane projection: drops the vertical component.
    pub fn into_2d(self) -> (v: Vec2)
        ensures
            v == (Vec2 { x: self.x, y: self.y }),
    {
        Vec2 { x: self.x, y: self.y }
    }
}

/// Squared distance between two ground-plane points, as a mathematical
/// integer (no overflow at the specification level).
pub open spec fn dist_sq_2d(a: Vec2, b: Vec2) -> int {
    (a.x - b.x) * (a.x - b.x) + (a.y - b.y) * (a.y - b.y)
}

/// Squared distance between two points in space.
pub open spec fn dist_sq_3d(a: Vec3, b: Vec3) -> int {
    (a.x - b.x) * (a.x - b.x) + (a.y - b.y) * (a.y - b.y) + (a.z - b.z) * (a.z - b.z)
}

/// One corner of a triangle mesh.
#[derive(Clone, Copy, Debug, PartialEq, Eq, Structural)]
pub struct Vertex {
    pub position: Vec3,
}

/// Per-copy placement of a mesh: where it stands, which way it faces in the
/// ground plane, and its tint.
#[derive(Clone, Copy, Debug, PartialEq, Eq, Structural)]
pub struct Instance {
    pub instance_position: Vec3,
    pub instance_direction: Vec2,
    pub instance_color: Vec3,
}

/// A scene's camera: position, look-at target, up vector and vertical field
/// of view (radians, fixed-point).
///
/// Invariant: the up vector and the look vector (target − position) must
/// not be collinear — see [`Eye::view_defined`].  A collinear pair gives
/// the look-at construction no usable frame, so whatever builds the view
/// matrix must guard against it.
#[derive(Clone, Copy, Debug, PartialEq, Eq, Structural)]
pub struct Eye {
    pub position: Vec3,
    pub target: Vec3,
    pub up: Vec3,
    pub field_of_view: i64,
}

impl Eye {
    /// The view is defined exactly when the up vector and the look vector
    /// are not collinear: their cross product does not vanish.
    pub open spec fn view_defined(self) -> bool {
        let vx = self.target.x - self.position.x;
        let vy = self.target.y - self.position.y;
        let vz = self.target.z - self.position.z;
        !(self.up.y * vz - self.up.z * vy == 0 && self.up.z * vx - self.up.x * vz == 0
            && self.up.x * vy - self.up.y * vx == 0)
    }
}

/// An element-for-element copy of a vector of plain values, so that a
/// message or frame owns its data independently of its source.
pub fn copy_vec<T: Copy>(v: &Vec<T>) -> (r: Vec<T>)
    ensures
        r@ =~= v@,
{
    let mut r: Vec<T> = Vec::new();
    let mut i: usize = 0;
    while i < v.len()
        invariant
            i <= v.len(),
            r@ =~= v@.take(i as int),
        decreases v.len() - i,
    {
        r.push(v[i]);
        proof {
            assert(r@ =~= v@.take(i + 1));
        }
        i += 1;
    }
    r
}

} // verus!
