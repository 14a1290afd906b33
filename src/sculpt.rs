//! The sculpt: the octree root, its resolution and its material palette.
use vstd::prelude::*;
use crate::brush::{CubePredicate, RoundFiller, RoundContainer, SquareFiller, SquareContainer, lemma_axis_gaps, lemma_round_consistent, lemma_square_consistent};
use crate::buffer::voxel_words;
use crate::geometry::{Point, UNIT, MAX_RESOLUTION, root_center, child_center, at_limit};
use crate::material::{Material, SculptPalette, default_material, palette_bytes};
use crate::node::SculptNode;
use crate::octree::{
    Octree, SculptNodeKind, no_children, shaped, kinds_ok, subdivided, unsubdivided,
    lemma_subdivided_kinds, lemma_unsubdivided_kinds, lemma_subdivided_idempotent, lemma_filled_cleared,
    any_child, subdivided_slot, unsubdivided_slot, merged, leafed,
};

verus! {

/// What a sculpt is: its tree, its resolution and its palette.
pub struct SculptView {
    pub root: Octree,
    pub resolution: u32,
    pub palette: Seq<Material>,
}

/// The root of a new sculpt: one empty node covering the unit cube.
pub open spec fn empty_root() -> Octree {
    Octree {
        kind: SculptNodeKind::Empty,
        children: no_children(),
        center: root_center(),
        size: UNIT,
        material: 0,
    }
}

/// The tree after an additive edit with these predicates.
pub open spec fn added<F: CubePredicate, C: CubePredicate>(root: Octree, filler: F, container: C, resolution: u32) -> Octree {
    subdivided(root, UNIT, root_center(), 0, filler, container, resolution, false)
}

/// The tree after an erasing edit with these predicates.
pub open spec fn removed<F: CubePredicate, C: CubePredicate>(root: Octree, filler: F, container: C, resolution: u32) -> Octree {
    unsubdivided(root, UNIT, root_center(), 0, filler, container, resolution)
}

/// The 3D sculpt: a sparse voxel octree with associated material information.
pub struct Sculpt {
    root: SculptNode,
    resolution: u32,
    palette: SculptPalette,
}

impl View for Sculpt {
    type V = SculptView;

    closed spec fn view(&self) -> SculptView {
        SculptView { root: self.root@, resolution: self.resolution, palette: self.palette@ }
    }
}

/// A sculpt's tree covers the unit cube, has consistent kinds, its
/// resolution is supported, and its palette is well formed.
pub open spec fn sculpt_wf(v: SculptView) -> bool {
    &&& shaped(v.root, UNIT, root_center())
    &&& kinds_ok(v.root)
    &&& 1 <= v.resolution <= MAX_RESOLUTION
    &&& v.palette.len() >= 1
    &&& v.palette[0] == default_material()
}

impl Sculpt {
    /// The sculpt is well formed.
    pub closed spec fn wf(&self) -> bool {
        &&& sculpt_wf(self@)
        &&& self.palette.wf()
        &&& self.root.size == UNIT
        &&& self.root.center == root_center()
        &&& self.root.counted()
    }

    /// Every cached descendant count in the tree equals the node's weight.
    pub closed spec fn counts_refreshed(&self) -> bool {
        self.root.counted()
    }

    /// Creates a new sculpt of `resolution` leaves per axis.
    pub fn new(resolution: u32) -> (r: Self)
        requires
            1 <= resolution <= MAX_RESOLUTION,
        ensures
            r.wf(),
            r@.root == empty_root(),
            r@.resolution == resolution,
            r@.palette == seq![default_material()],
    {
        let center = Point::new((UNIT / 2) as i32, (UNIT / 2) as i32, (UNIT / 2) as i32);
        let root = SculptNode::new(SculptNodeKind::Empty, 0, UNIT, center);
        let r = Sculpt { root, palette: SculptPalette::new(), resolution };
        assert(!crate::octree::any_child(no_children()));
        assert(crate::octree::weight_upto(no_children(), 8) == 0) by {
            reveal_with_fuel(crate::octree::weight_upto, 9);
        }
        r
    }

    /// Retrieve the set resolution.
    pub fn get_resolution(&self) -> (r: u32)
        ensures
            r == self@.resolution,
    {
        self.resolution
    }

    /// The root node.
    pub fn root(&self) -> (r: &SculptNode)
        ensures
            r@ == self@.root,
            self.counts_refreshed() ==> r.counted(),
    {
        &self.root
    }

    /// Gets the raw data for the voxel buffer.
    pub fn get_voxel_buffer(&self) -> (r: Vec<u32>)
        requires
            self.wf(),
        ensures
            r@ == voxel_words(self@.root),
    {
        self.root.to_buffer()
    }

    /// Gets the raw data for the material palette buffer.
    pub fn get_material_buffer(&self) -> (r: Vec<u8>)
        ensures
            r@ == palette_bytes(self@.palette, self@.palette.len() as int),
    {
        self.palette.to_buffer()
    }

    /// Adds to the sculpt: fills where the predicates say, then refreshes
    /// the descendant counts.
    pub fn subdivide<F: CubePredicate, C: CubePredicate>(&mut self, is_filled: F, is_contained: C)
        requires
            old(self).wf(),
        ensures
            final(self).wf(),
            final(self)@.root == added(old(self)@.root, is_filled, is_contained, old(self)@.resolution),
            kinds_ok(final(self)@.root),
            final(self).counts_refreshed(),
            final(self)@.resolution == old(self)@.resolution,
            final(self)@.palette == old(self)@.palette,
    {
        proof {
            lemma_subdivided_kinds(self.root@, UNIT, root_center(), 0, is_filled, is_contained, self.resolution, false);
        }
        self.root.subdivide(0, &is_filled, &is_contained, self.resolution, false);
        self.root.set_child_count();
    }

    /// Removes from the sculpt: erases where the predicates say, then
    /// refreshes the descendant counts.
    pub fn unsubdivide<F: CubePredicate, C: CubePredicate>(&mut self, is_filled: F, is_contained: C)
        requires
            old(self).wf(),
        ensures
            final(self).wf(),
            final(self)@.root == removed(old(self)@.root, is_filled, is_contained, old(self)@.resolution),
            kinds_ok(final(self)@.root),
            final(self).counts_refreshed(),
            final(self)@.resolution == old(self)@.resolution,
            final(self)@.palette == old(self)@.palette,
    {
        proof {
            lemma_unsubdivided_kinds(self.root@, UNIT, root_center(), 0, is_filled, is_contained, self.resolution);
        }
        self.root.unsubdivide(0, &is_filled, &is_contained, self.resolution);
        self.root.set_child_count();
    }
}

/// An additive edit repeated with the same predicates changes nothing
/// more: adding twice gives the tree that adding once gives.
pub proof fn lemma_add_idempotent<F: CubePredicate, C: CubePredicate>(root: Octree, filler: F, container: C, resolution: u32)
    ensures
        added(added(root, filler, container, resolution), filler, container, resolution) == added(root, filler, container, resolution),
{
    lemma_subdivided_idempotent(root, UNIT, root_center(), 0, filler, container, resolution);
}

/// On the unit cube and its eight octants the predicates behave as an
/// intersection test and a containment test: the container implies the
/// filler, an octant met implies the cube met, and a cube held implies
/// every octant met.
pub open spec fn tests_the_same_volume<F: CubePredicate, C: CubePredicate>(filler: F, container: C) -> bool {
    &&& (container.spec_holds(UNIT, root_center()) ==> filler.spec_holds(UNIT, root_center()))
    &&& forall|i: int| 0 <= i < 8 ==> (#[trigger] filler.spec_holds((UNIT / 2) as u32, child_center(root_center(), UNIT, i))
        ==> filler.spec_holds(UNIT, root_center()))
    &&& forall|i: int| 0 <= i < 8 ==> (container.spec_holds(UNIT, root_center())
        ==> #[trigger] filler.spec_holds((UNIT / 2) as u32, child_center(root_center(), UNIT, i)))
}

/// A root that the container holds is filled as one leaf and erased again.
proof fn lemma_held_root_cleared<F: CubePredicate, C: CubePredicate>(filler: F, container: C, resolution: u32)
    requires
        tests_the_same_volume(filler, container),
        container.spec_holds(UNIT, root_center()),
    ensures
        ({
            let r = removed(added(empty_root(), filler, container, resolution), filler, container, resolution);
            r.kind == SculptNodeKind::Empty && !any_child(r.children)
        }),
{
    let rc = root_center();
    let w = added(empty_root(), filler, container, resolution);
    assert(w == leafed(empty_root()));
    assert(!any_child(no_children()));
    let ds = seq![
        unsubdivided_slot(w.children[0], 0, UNIT, rc, 0, filler, container, resolution),
        unsubdivided_slot(w.children[1], 1, UNIT, rc, 0, filler, container, resolution),
        unsubdivided_slot(w.children[2], 2, UNIT, rc, 0, filler, container, resolution),
        unsubdivided_slot(w.children[3], 3, UNIT, rc, 0, filler, container, resolution),
        unsubdivided_slot(w.children[4], 4, UNIT, rc, 0, filler, container, resolution),
        unsubdivided_slot(w.children[5], 5, UNIT, rc, 0, filler, container, resolution),
        unsubdivided_slot(w.children[6], 6, UNIT, rc, 0, filler, container, resolution),
        unsubdivided_slot(w.children[7], 7, UNIT, rc, 0, filler, container, resolution),
    ];
    assert forall|i: int| 0 <= i < 8 implies (#[trigger] ds[i]) is None by {
        assert(w.children[i] is None);
    }
    assert(!any_child(ds));
    let w2 = Octree { children: ds, ..w };
    if !at_limit(UNIT, resolution) {
        let cs = seq![
            subdivided_slot(w2.children[0], 0, UNIT, rc, 0, filler, container, resolution, true),
            subdivided_slot(w2.children[1], 1, UNIT, rc, 0, filler, container, resolution, true),
            subdivided_slot(w2.children[2], 2, UNIT, rc, 0, filler, container, resolution, true),
            subdivided_slot(w2.children[3], 3, UNIT, rc, 0, filler, container, resolution, true),
            subdivided_slot(w2.children[4], 4, UNIT, rc, 0, filler, container, resolution, true),
            subdivided_slot(w2.children[5], 5, UNIT, rc, 0, filler, container, resolution, true),
            subdivided_slot(w2.children[6], 6, UNIT, rc, 0, filler, container, resolution, true),
            subdivided_slot(w2.children[7], 7, UNIT, rc, 0, filler, container, resolution, true),
        ];
        assert forall|i: int| 0 <= i < 8 implies (#[trigger] cs[i]) is None by {
            assert(filler.spec_holds((UNIT / 2) as u32, child_center(rc, UNIT, i)));
        }
        assert(!any_child(cs));
        assert(!crate::octree::all_leaves(cs));
        assert(subdivided(w2, UNIT, rc, 0, filler, container, resolution, true) == merged(w2, cs));
    }
}

/// Adding and then removing with the same predicates, from an empty
/// sculpt, leaves an empty root without children: what the edit filled is
/// all erased. It holds when the predicates test one volume on the unit
/// cube; at resolution 1 the filler must also meet the unit cube, since
/// then the whole cube becomes one leaf that a brush elsewhere never erases.
pub proof fn lemma_add_then_remove_clears<F: CubePredicate, C: CubePredicate>(filler: F, container: C, resolution: u32)
    requires
        1 <= resolution,
        tests_the_same_volume(filler, container),
        resolution > 1 || filler.spec_holds(UNIT, root_center()),
    ensures
        ({
            let r = removed(added(empty_root(), filler, container, resolution), filler, container, resolution);
            r.kind == SculptNodeKind::Empty && !any_child(r.children)
        }),
{
    let rc = root_center();
    assert(!any_child(no_children()));
    assert(empty_root().children == no_children());
    if container.spec_holds(UNIT, rc) {
        lemma_held_root_cleared(filler, container, resolution);
    } else if filler.spec_holds(UNIT, rc) {
        lemma_filled_cleared(empty_root(), UNIT, rc, 0, filler, container, resolution);
    } else {
        assert(!at_limit(UNIT, resolution));
        let t = empty_root();
        let cs = seq![
            subdivided_slot(t.children[0], 0, UNIT, rc, 0, filler, container, resolution, false),
            subdivided_slot(t.children[1], 1, UNIT, rc, 0, filler, container, resolution, false),
            subdivided_slot(t.children[2], 2, UNIT, rc, 0, filler, container, resolution, false),
            subdivided_slot(t.children[3], 3, UNIT, rc, 0, filler, container, resolution, false),
            subdivided_slot(t.children[4], 4, UNIT, rc, 0, filler, container, resolution, false),
            subdivided_slot(t.children[5], 5, UNIT, rc, 0, filler, container, resolution, false),
            subdivided_slot(t.children[6], 6, UNIT, rc, 0, filler, container, resolution, false),
            subdivided_slot(t.children[7], 7, UNIT, rc, 0, filler, container, resolution, false),
        ];
        assert forall|i: int| 0 <= i < 8 implies (#[trigger] cs[i]) is None by {
            assert(t.children[i] is None);
            if filler.spec_holds((UNIT / 2) as u32, child_center(rc, UNIT, i)) {
                assert(false);
            }
        }
        assert(!any_child(cs));
        assert(!crate::octree::all_leaves(cs));
        assert(added(t, filler, container, resolution) == merged(t, cs));
    }
}

/// An octant of the unit cube lies inside it, axis by axis.
proof fn lemma_octant_inside(i: int)
    requires
        0 <= i < 8,
    ensures
        ({
            let c = root_center();
            let o = child_center(c, UNIT, i);
            let s = UNIT as int;
            let s2 = (UNIT / 2) as int;
            &&& 2 * c.x - s <= 2 * o.x - s2 && 2 * o.x + s2 <= 2 * c.x + s
            &&& 2 * c.y - s <= 2 * o.y - s2 && 2 * o.y + s2 <= 2 * c.y + s
            &&& 2 * c.z - s <= 2 * o.z - s2 && 2 * o.z + s2 <= 2 * c.z + s
        }),
{
}

/// The round tip's filler and container test one volume on the unit cube.
pub proof fn lemma_round_tip_tests_one_volume(brush_size: u32, brush_position: Point)
    ensures
        tests_the_same_volume(
            RoundFiller { brush_size, brush_position },
            RoundContainer { brush_size, brush_position },
        ),
{
    let b = brush_position;
    let c = root_center();
    lemma_round_consistent(brush_size, b, UNIT, c);
    assert forall|i: int| 0 <= i < 8 implies {
        &&& (crate::brush::sphere_meets(brush_size, b, (UNIT / 2) as u32, #[trigger] child_center(c, UNIT, i))
            ==> crate::brush::sphere_meets(brush_size, b, UNIT, c))
        &&& (crate::brush::sphere_encloses(brush_size, b, UNIT, c)
            ==> crate::brush::sphere_meets(brush_size, b, (UNIT / 2) as u32, child_center(c, UNIT, i)))
    } by {
        lemma_octant_inside(i);
        let o = child_center(c, UNIT, i);
        lemma_axis_gaps(b.x as int, c.x as int, UNIT as int, o.x as int, (UNIT / 2) as int);
        lemma_axis_gaps(b.y as int, c.y as int, UNIT as int, o.y as int, (UNIT / 2) as int);
        lemma_axis_gaps(b.z as int, c.z as int, UNIT as int, o.z as int, (UNIT / 2) as int);
    }
}

/// The square tip's filler and container test one volume on the unit cube.
pub proof fn lemma_square_tip_tests_one_volume(brush_size: u32, brush_position: Point)
    ensures
        tests_the_same_volume(
            SquareFiller { brush_size, brush_position },
            SquareContainer { brush_size, brush_position },
        ),
{
    lemma_square_consistent(brush_size, brush_position, UNIT, root_center());
    assert forall|i: int| 0 <= i < 8 implies #[trigger] child_center(root_center(), UNIT, i) == child_center(root_center(), UNIT, i) by {
        lemma_octant_inside(i);
    }
}

} // verus!
