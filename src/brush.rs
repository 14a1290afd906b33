//! Shape predicates that drive edits, and the built-in brush tips.
//!
//! All distances are compared in doubled coordinates, so that the half side
//! of a cube, `size / 2`, stays exact for every integer `size`.
use vstd::prelude::*;
use crate::geometry::Point;

verus! {

/// A pure test on the cube of side `size` around `center`.
///
/// An edit takes two of them: a filler, true when the cube meets the brush
/// volume, and a container, true when the cube lies wholly inside it.
pub trait CubePredicate {
    /// The value of the test on a cube.
    spec fn spec_holds(&self, size: u32, center: Point) -> bool;

    /// Evaluates the test on a cube.
    fn holds(&self, size: u32, center: Point) -> (r: bool)
        ensures
            r == self.spec_holds(size, center),
    ;
}

/// Doubled distance from the brush coordinate `b` to the span of a cube
/// with center `c` and side `s` along one axis (zero inside the span).
pub open spec fn near_gap(b: int, c: int, s: int) -> int {
    if 2 * b < 2 * c - s {
        2 * c - s - 2 * b
    } else if 2 * b > 2 * c + s {
        2 * b - 2 * c - s
    } else {
        0
    }
}

/// Doubled signed offset from the brush coordinate `b` to the far face of
/// the cube span: the low face when the brush is above the center, else the high one.
pub open spec fn far_gap(b: int, c: int, s: int) -> int {
    if b > c {
        2 * b - (2 * c - s)
    } else {
        2 * b - (2 * c + s)
    }
}

/// The sphere of radius `r` around `b` meets the cube (squared distances, doubled coordinates).
pub open spec fn sphere_meets(r: u32, b: Point, size: u32, center: Point) -> bool {
    4 * r * r - near_gap(b.x as int, center.x as int, size as int) * near_gap(b.x as int, center.x as int, size as int)
        - near_gap(b.y as int, center.y as int, size as int) * near_gap(b.y as int, center.y as int, size as int)
        - near_gap(b.z as int, center.z as int, size as int) * near_gap(b.z as int, center.z as int, size as int) >= 0
}

/// The sphere of radius `r` around `b` strictly encloses the cube.
pub open spec fn sphere_encloses(r: u32, b: Point, size: u32, center: Point) -> bool {
    4 * r * r - far_gap(b.x as int, center.x as int, size as int) * far_gap(b.x as int, center.x as int, size as int)
        - far_gap(b.y as int, center.y as int, size as int) * far_gap(b.y as int, center.y as int, size as int)
        - far_gap(b.z as int, center.z as int, size as int) * far_gap(b.z as int, center.z as int, size as int) > 0
}

/// The open intervals `[b - r, b + r]` and the cube span overlap on one axis.
pub open spec fn span_overlaps(b: int, r: int, c: int, s: int) -> bool {
    2 * b - 2 * r < 2 * c + s && 2 * b + 2 * r > 2 * c - s
}

/// The cube span lies strictly inside `[b - r, b + r]` on one axis.
pub open spec fn span_contains(b: int, r: int, c: int, s: int) -> bool {
    2 * b - 2 * r < 2 * c - s && 2 * c + s < 2 * b + 2 * r
}

/// The box of half side `r` around `b` meets the cube.
pub open spec fn box_meets(r: u32, b: Point, size: u32, center: Point) -> bool {
    &&& span_overlaps(b.x as int, r as int, center.x as int, size as int)
    &&& span_overlaps(b.y as int, r as int, center.y as int, size as int)
    &&& span_overlaps(b.z as int, r as int, center.z as int, size as int)
}

/// The box of half side `r` around `b` strictly contains the cube.
pub open spec fn box_encloses(r: u32, b: Point, size: u32, center: Point) -> bool {
    &&& span_contains(b.x as int, r as int, center.x as int, size as int)
    &&& span_contains(b.y as int, r as int, center.y as int, size as int)
    &&& span_contains(b.z as int, r as int, center.z as int, size as int)
}

fn gap_near(b: i32, c: i32, s: u32) -> (r: i128)
    ensures
        r == near_gap(b as int, c as int, s as int),
        0 <= r <= 0x4_0000_0000,
{
    let b2: i128 = 2 * (b as i128);
    let c2: i128 = 2 * (c as i128);
    let s: i128 = s as i128;
    if b2 < c2 - s {
        c2 - s - b2
    } else if b2 > c2 + s {
        b2 - c2 - s
    } else {
        0
    }
}

fn gap_far(b: i32, c: i32, s: u32) -> (r: i128)
    ensures
        r == far_gap(b as int, c as int, s as int),
        -0x4_0000_0000 <= r <= 0x4_0000_0000,
{
    let b2: i128 = 2 * (b as i128);
    let c2: i128 = 2 * (c as i128);
    let s: i128 = s as i128;
    if b > c {
        b2 - (c2 - s)
    } else {
        b2 - (c2 + s)
    }
}

fn square(v: i128) -> (r: i128)
    requires
        -0x4_0000_0000 <= v <= 0x4_0000_0000,
    ensures
        r == v * v,
        0 <= r <= 0x10_0000_0000_0000_0000,
{
    proof {
        assert(0 <= v * v <= 0x10_0000_0000_0000_0000) by (nonlinear_arith)
            requires -0x4_0000_0000 <= v <= 0x4_0000_0000;
    }
    v * v
}

fn doubled_radius_squared(r: u32) -> (q: i128)
    ensures
        q == 4 * r * r,
        0 <= q <= 0x4_0000_0000_0000_0000,
{
    proof {
        assert(0 <= 4 * r * r <= 0x4_0000_0000_0000_0000) by (nonlinear_arith)
            requires 0 <= r <= u32::MAX;
    }
    4 * (r as i128) * (r as i128)
}

/// Filler of the round tip: the sphere of radius `brush_size` meets the cube.
#[derive(Clone, Copy, Debug)]
pub struct RoundFiller {
    pub brush_size: u32,
    pub brush_position: Point,
}

/// Container of the round tip: the sphere of radius `brush_size` strictly encloses the cube.
#[derive(Clone, Copy, Debug)]
pub struct RoundContainer {
    pub brush_size: u32,
    pub brush_position: Point,
}

/// Filler of the square tip: the box of half side `brush_size` meets the cube.
#[derive(Clone, Copy, Debug)]
pub struct SquareFiller {
    pub brush_size: u32,
    pub brush_position: Point,
}

/// Container of the square tip: the box of half side `brush_size` strictly contains the cube.
#[derive(Clone, Copy, Debug)]
pub struct SquareContainer {
    pub brush_size: u32,
    pub brush_position: Point,
}

impl CubePredicate for RoundFiller {
    open spec fn spec_holds(&self, size: u32, center: Point) -> bool {
        sphere_meets(self.brush_size, self.brush_position, size, center)
    }

    fn holds(&self, size: u32, center: Point) -> (r: bool) {
        let b = self.brush_position;
        let gx = square(gap_near(b.x, center.x, size));
        let gy = square(gap_near(b.y, center.y, size));
        let gz = square(gap_near(b.z, center.z, size));
        doubled_radius_squared(self.brush_size) - gx - gy - gz >= 0
    }
}

impl CubePredicate for RoundContainer {
    open spec fn spec_holds(&self, size: u32, center: Point) -> bool {
        sphere_encloses(self.brush_size, self.brush_position, size, center)
    }

    fn holds(&self, size: u32, center: Point) -> (r: bool) {
        let b = self.brush_position;
        let gx = square(gap_far(b.x, center.x, size));
        let gy = square(gap_far(b.y, center.y, size));
        let gz = square(gap_far(b.z, center.z, size));
        doubled_radius_squared(self.brush_size) - gx - gy - gz > 0
    }
}

fn overlaps(b: i32, r: u32, c: i32, s: u32) -> (o: bool)
    ensures
        o == span_overlaps(b as int, r as int, c as int, s as int),
{
    let b2: i128 = 2 * (b as i128);
    let r2: i128 = 2 * (r as i128);
    let c2: i128 = 2 * (c as i128);
    let s: i128 = s as i128;
    b2 - r2 < c2 + s && b2 + r2 > c2 - s
}

fn contains(b: i32, r: u32, c: i32, s: u32) -> (o: bool)
    ensures
        o == span_contains(b as int, r as int, c as int, s as int),
{
    let b2: i128 = 2 * (b as i128);
    let r2: i128 = 2 * (r as i128);
    let c2: i128 = 2 * (c as i128);
    let s: i128 = s as i128;
    b2 - r2 < c2 - s && c2 + s < b2 + r2
}

impl CubePredicate for SquareFiller {
    open spec fn spec_holds(&self, size: u32, center: Point) -> bool {
        box_meets(self.brush_size, self.brush_position, size, center)
    }

    fn holds(&self, size: u32, center: Point) -> (r: bool) {
        let b = self.brush_position;
        let r = self.brush_size;
        overlaps(b.x, r, center.x, size) && overlaps(b.y, r, center.y, size) && overlaps(b.z, r, center.z, size)
    }
}

impl CubePredicate for SquareContainer {
    open spec fn spec_holds(&self, size: u32, center: Point) -> bool {
        box_encloses(self.brush_size, self.brush_position, size, center)
    }

    fn holds(&self, size: u32, center: Point) -> (r: bool) {
        let b = self.brush_position;
        let r = self.brush_size;
        contains(b.x, r, center.x, size) && contains(b.y, r, center.y, size) && contains(b.z, r, center.z, size)
    }
}

/// A brush tip that draws spheres.
#[derive(Clone, Copy, Debug)]
pub struct RoundBrushTip {}

impl RoundBrushTip {
    /// Create a new round brush tip.
    pub fn new() -> (r: Self)
        ensures
            r == (RoundBrushTip {}),
    {
        RoundBrushTip {}
    }

    /// The filler of a sphere of radius `brush_size` around `brush_position`.
    pub fn filler(brush_size: u32, brush_position: Point) -> (r: RoundFiller)
        ensures
            r.brush_size == brush_size,
            r.brush_position == brush_position,
    {
        RoundFiller { brush_size, brush_position }
    }

    /// The container of a sphere of radius `brush_size` around `brush_position`.
    pub fn container(brush_size: u32, brush_position: Point) -> (r: RoundContainer)
        ensures
            r.brush_size == brush_size,
            r.brush_position == brush_position,
    {
        RoundContainer { brush_size, brush_position }
    }
}

/// A brush tip that draws axis-aligned cubes.
#[derive(Clone, Copy, Debug)]
pub struct SquareBrushTip {}

impl SquareBrushTip {
    /// Create a new square brush tip.
    pub fn new() -> (r: Self)
        ensures
            r == (SquareBrushTip {}),
    {
        SquareBrushTip {}
    }

    /// The filler of a cube of half side `brush_size` around `brush_position`.
    pub fn filler(brush_size: u32, brush_position: Point) -> (r: SquareFiller)
        ensures
            r.brush_size == brush_size,
            r.brush_position == brush_position,
    {
        SquareFiller { brush_size, brush_position }
    }

    /// The container of a cube of half side `brush_size` around `brush_position`.
    pub fn container(brush_size: u32, brush_position: Point) -> (r: SquareContainer)
        ensures
            r.brush_size == brush_size,
            r.brush_position == brush_position,
    {
        SquareContainer { brush_size, brush_position }
    }
}

/// On one axis, the gap to a sub-span is at least the gap to the span,
/// and at most the far offset of the span (sub-spans given in doubled
/// coordinates as `[2c - s, 2c + s]`).
pub proof fn lemma_axis_gaps(b: int, c: int, s: int, c2: int, s2: int)
    requires
        s >= 0,
        s2 >= 0,
        2 * c - s <= 2 * c2 - s2,
        2 * c2 + s2 <= 2 * c + s,
    ensures
        0 <= near_gap(b, c, s) <= near_gap(b, c2, s2),
        near_gap(b, c2, s2) * near_gap(b, c2, s2) <= far_gap(b, c, s) * far_gap(b, c, s),
        near_gap(b, c, s) * near_gap(b, c, s) <= near_gap(b, c2, s2) * near_gap(b, c2, s2),
{
    let n = near_gap(b, c, s);
    let n2 = near_gap(b, c2, s2);
    let f = far_gap(b, c, s);
    let af = if f >= 0 { f } else { -f };
    assert(0 <= n2 <= af);
    assert(n2 * n2 <= af * af) by (nonlinear_arith)
        requires 0 <= n2 <= af;
    assert(af * af == f * f) by (nonlinear_arith)
        requires af == f || af == -f;
    assert(n * n <= n2 * n2) by (nonlinear_arith)
        requires 0 <= n <= n2;
}

/// On one axis, the far offset of a span bounds its own gap.
pub proof fn lemma_axis_near_far(b: int, c: int, s: int)
    requires
        s >= 0,
    ensures
        near_gap(b, c, s) * near_gap(b, c, s) <= far_gap(b, c, s) * far_gap(b, c, s),
{
    lemma_axis_gaps(b, c, s, c, s);
}

/// The round tip is consistent: a cube that the sphere encloses, it meets.
pub proof fn lemma_round_consistent(r: u32, b: Point, size: u32, center: Point)
    ensures
        sphere_encloses(r, b, size, center) ==> sphere_meets(r, b, size, center),
{
    lemma_axis_near_far(b.x as int, center.x as int, size as int);
    lemma_axis_near_far(b.y as int, center.y as int, size as int);
    lemma_axis_near_far(b.z as int, center.z as int, size as int);
}

/// The square tip is consistent: a cube that the box contains, it meets.
pub proof fn lemma_square_consistent(r: u32, b: Point, size: u32, center: Point)
    ensures
        box_encloses(r, b, size, center) ==> box_meets(r, b, size, center),
{
}

} // verus!
