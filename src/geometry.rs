//! Fixed-point geometry of the unit cube.
//!
//! Positions and lengths are integers counted in units of `1 / UNIT`: the
//! whole octree covers `[0, UNIT]` on each axis.
use vstd::prelude::*;

verus! {

/// Number of fixed-point units along one side of the unit cube.
pub const UNIT: u32 = 16777216;

/// The largest supported resolution (leaves per axis).
///
/// Serialised buffers address words with `u32`; at this resolution the
/// deepest possible tree still fits.
pub const MAX_RESOLUTION: u32 = 1024;

/// A point in fixed-point coordinates.
#[derive(Clone, Copy, PartialEq, Eq, Debug, Structural)]
pub struct Point {
    pub x: i32,
    pub y: i32,
    pub z: i32,
}

impl Point {
    /// Make a point from its three coordinates.
    pub fn new(x: i32, y: i32, z: i32) -> (r: Point)
        ensures
            r == (Point { x, y, z }),
    {
        Point { x, y, z }
    }
}

/// The center of the whole unit cube.
pub open spec fn root_center() -> Point {
    Point { x: (UNIT / 2) as i32, y: (UNIT / 2) as i32, z: (UNIT / 2) as i32 }
}

/// Offset along one axis of the child in octant `i` for a parent of side `size`:
/// `bit` selects the axis (1 for x, 2 for y, 4 for z).
pub open spec fn octant_offset(size: u32, i: int, bit: int) -> int {
    if (i / bit) % 2 == 1 {
        (size / 4) as int
    } else {
        -((size / 4) as int)
    }
}

/// Center of the child cube in octant `i` (bit 0: x high, bit 1: y high, bit 2: z high).
pub open spec fn child_center(center: Point, size: u32, i: int) -> Point {
    Point {
        x: (center.x + octant_offset(size, i, 1)) as i32,
        y: (center.y + octant_offset(size, i, 2)) as i32,
        z: (center.z + octant_offset(size, i, 4)) as i32,
    }
}

/// The cube of side `size` around `center` lies inside the unit cube.
pub open spec fn inside_unit(size: u32, center: Point) -> bool {
    &&& size <= UNIT
    &&& center.x - size / 2 >= 0 && center.x + size / 2 <= UNIT
    &&& center.y - size / 2 >= 0 && center.y + size / 2 <= UNIT
    &&& center.z - size / 2 >= 0 && center.z + size / 2 <= UNIT
}

/// A child of a cube inside the unit cube is inside it too.
pub proof fn lemma_child_inside(size: u32, center: Point, i: int)
    requires
        inside_unit(size, center),
        0 <= i < 8,
    ensures
        inside_unit(size / 2, child_center(center, size, i)),
{
    assert((size / 2) / 2 == size / 4);
    assert(size / 4 + size / 4 <= size / 2);
}

/// Center of the child cube in octant `index`.
pub fn octant_center(center: Point, size: u32, index: usize) -> (r: Point)
    requires
        inside_unit(size, center),
        index < 8,
    ensures
        r == child_center(center, size, index as int),
{
    let q: i32 = (size / 4) as i32;
    let x: i32 = if index % 2 == 1 { center.x + q } else { center.x - q };
    let y: i32 = if (index / 2) % 2 == 1 { center.y + q } else { center.y - q };
    let z: i32 = if (index / 4) % 2 == 1 { center.z + q } else { center.z - q };
    Point { x, y, z }
}

/// Whether a cube of side `size` is at or below the smallest leaf size `1 / resolution`.
pub open spec fn at_limit(size: u32, resolution: u32) -> bool {
    size * resolution <= UNIT
}

/// Tests whether a cube of side `size` has reached the smallest leaf size.
pub fn reaches_limit(size: u32, resolution: u32) -> (r: bool)
    ensures
        r == at_limit(size, resolution),
{
    proof {
        assert((size as u64) * (resolution as u64) <= u32::MAX as u64 * u32::MAX as u64) by (nonlinear_arith);
    }
    (size as u64) * (resolution as u64) <= UNIT as u64
}

} // verus!
