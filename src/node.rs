//! The sculpt node: a recursive, in-place edited octree node.
use vstd::prelude::*;
use crate::brush::CubePredicate;
use crate::geometry::{Point, MAX_RESOLUTION, octant_center, reaches_limit, at_limit, child_center, inside_unit, lemma_child_inside};
use crate::octree::{Octree, SculptNodeKind, no_children, subdivided, subdivided_slot, shaped, shaped_slot, any_child, unsubdivided, unsubdivided_slot,
    weight, weight_upto, weight_bound,
    lemma_weight_bound, lemma_weight_bound_monotone, lemma_weight_upto_monotone,
    lemma_weight_upto_step};

verus! {

/// A node/voxel of the sparse voxel octree.
pub struct SculptNode {
    pub kind: SculptNodeKind,
    /// Eight child slots, indexed by octant.
    pub children: Vec<Option<Box<SculptNode>>>,
    pub center: Point,
    pub size: u32,
    /// Palette index of the material (read on leaves).
    pub material: u32,
    /// Cached descendant count, refreshed by `set_child_count`.
    pub child_count: u32,
}

impl SculptNode {
    /// The model of the node.
    pub open spec fn model(&self) -> Octree
        decreases self,
    {
        Octree {
            kind: self.kind,
            children: if self.children.len() == 8 {
                seq![
                    Self::slot_model(self.children[0]),
                    Self::slot_model(self.children[1]),
                    Self::slot_model(self.children[2]),
                    Self::slot_model(self.children[3]),
                    Self::slot_model(self.children[4]),
                    Self::slot_model(self.children[5]),
                    Self::slot_model(self.children[6]),
                    Self::slot_model(self.children[7]),
                ]
            } else {
                Seq::empty()
            },
            center: self.center,
            size: self.size,
            material: self.material,
        }
    }

    /// The model of a child slot.
    pub open spec fn slot_model(o: Option<Box<SculptNode>>) -> Option<Octree>
        decreases o,
    {
        match o {
            Some(b) => Some(b.model()),
            None => None,
        }
    }
}

impl SculptNode {
    /// Every cached `child_count` in the subtree equals the node's weight.
    pub open spec fn counted(&self) -> bool
        decreases self,
    {
        &&& self.child_count == weight(self@)
        &&& self.children.len() == 8
        &&& forall|i: int| 0 <= i < 8 ==> Self::counted_slot(#[trigger] self.children[i])
    }

    /// An absent slot, or a counted child.
    pub open spec fn counted_slot(o: Option<Box<SculptNode>>) -> bool
        decreases o,
    {
        match o {
            Some(b) => b.counted(),
            None => true,
        }
    }
}

impl View for SculptNode {
    type V = Octree;

    open spec fn view(&self) -> Octree {
        self.model()
    }
}

/// A vector of eight absent slots.
fn empty_slots() -> (r: Vec<Option<Box<SculptNode>>>)
    ensures
        r.len() == 8,
        forall|i: int| 0 <= i < 8 ==> (#[trigger] r[i]) is None,
{
    let mut v: Vec<Option<Box<SculptNode>>> = Vec::new();
    let mut i: usize = 0;
    while i < 8
        invariant
            i <= 8,
            v.len() == i,
            forall|j: int| 0 <= j < i ==> (#[trigger] v[j]) is None,
        decreases 8 - i,
    {
        v.push(None);
        i += 1;
    }
    v
}

impl SculptNode {
    /// Make a sculpt node with the given parameters and no children.
    pub fn new(kind: SculptNodeKind, material: u32, size: u32, center: Point) -> (r: Self)
        ensures
            r@ == (Octree { kind, children: no_children(), center, size, material }),
            r.child_count == 0,
    {
        let r = SculptNode { kind, children: empty_slots(), center, size, material, child_count: 0 };
        assert(r@.children =~= no_children());
        r
    }

    /// Removes every child.
    fn clear_children(&mut self)
        ensures
            final(self)@ == (Octree { children: no_children(), ..old(self)@ }),
            final(self).size == old(self).size,
            final(self).center == old(self).center,
    {
        self.children = empty_slots();
        assert(self@.children =~= no_children());
    }

    /// One child slot of the additive pass: creates the child where the
    /// slot is empty and the filler (negated when `invert`) accepts the
    /// octant, then recurses into it.
    fn subdivide_slot<F: CubePredicate, C: CubePredicate>(
        slot: Option<Box<SculptNode>>,
        i: usize,
        size: u32,
        center: Point,
        fill: u32,
        is_filled: &F,
        is_contained: &C,
        resolution: u32,
        invert: bool,
    ) -> (r: Option<Box<SculptNode>>)
        requires
            i < 8,
            inside_unit(size, center),
            !at_limit(size, resolution),
            1 <= resolution <= MAX_RESOLUTION,
            shaped_slot(Self::slot_model(slot), (size / 2) as u32, child_center(center, size, i as int)),
        ensures
            Self::slot_model(r) == subdivided_slot(Self::slot_model(slot), i as int, size, center, fill, *is_filled, *is_contained, resolution, invert),
            shaped_slot(Self::slot_model(r), (size / 2) as u32, child_center(center, size, i as int)),
        decreases size, 0nat,
    {
        proof {
            lemma_child_inside(size, center, i as int);
        }
        let half: u32 = size / 2;
        assert(size > 0) by (nonlinear_arith)
            requires size * resolution > crate::geometry::UNIT;
        let cc = octant_center(center, size, i);
        let mut slot = slot;
        if slot.is_none() && is_filled.holds(half, cc) == !invert {
            slot = Some(Box::new(SculptNode::new(SculptNodeKind::Empty, fill, half, cc)));
            proof {
                assert(slot->0@.children =~= no_children());
            }
        }
        match slot {
            Some(mut child) => {
                child.subdivide(fill, is_filled, is_contained, resolution, invert);
                Some(child)
            },
            None => None,
        }
    }

    /// Handles the sparse voxel octree subdividing modifications, recursively.
    #[verifier::rlimit(50)]
    pub fn subdivide<F: CubePredicate, C: CubePredicate>(
        &mut self,
        fill: u32,
        is_filled: &F,
        is_contained: &C,
        resolution: u32,
        invert: bool,
    )
        requires
            shaped(old(self)@, old(self).size, old(self).center),
            1 <= resolution <= MAX_RESOLUTION,
        ensures
            final(self)@ == subdivided(old(self)@, old(self).size, old(self).center, fill, *is_filled, *is_contained, resolution, invert),
            shaped(final(self)@, old(self).size, old(self).center),
        decreases old(self).size, 1nat,
    {
        if !invert && self.kind == SculptNodeKind::Leaf {
            return;
        }
        if reaches_limit(self.size, resolution) || is_contained.holds(self.size, self.center) == !invert {
            self.clear_children();
            self.kind = SculptNodeKind::Leaf;
            assert(!any_child(self@.children));
            return;
        }
        let ghost t0 = self@;
        let ghost cs = seq![
            subdivided_slot(t0.children[0], 0, t0.size, t0.center, fill, *is_filled, *is_contained, resolution, invert),
            subdivided_slot(t0.children[1], 1, t0.size, t0.center, fill, *is_filled, *is_contained, resolution, invert),
            subdivided_slot(t0.children[2], 2, t0.size, t0.center, fill, *is_filled, *is_contained, resolution, invert),
            subdivided_slot(t0.children[3], 3, t0.size, t0.center, fill, *is_filled, *is_contained, resolution, invert),
            subdivided_slot(t0.children[4], 4, t0.size, t0.center, fill, *is_filled, *is_contained, resolution, invert),
            subdivided_slot(t0.children[5], 5, t0.size, t0.center, fill, *is_filled, *is_contained, resolution, invert),
            subdivided_slot(t0.children[6], 6, t0.size, t0.center, fill, *is_filled, *is_contained, resolution, invert),
            subdivided_slot(t0.children[7], 7, t0.size, t0.center, fill, *is_filled, *is_contained, resolution, invert),
        ];
        let mut all_leaves = true;
        let mut any_present = false;
        let mut i: usize = 0;
        while i < 8
            invariant
                i <= 8,
                self.children.len() == 8,
                self.kind == t0.kind,
                self.size == t0.size,
                self.center == t0.center,
                self.material == t0.material,
                t0 == old(self)@,
                shaped(t0, t0.size, t0.center),
                !at_limit(t0.size, resolution),
                1 <= resolution <= MAX_RESOLUTION,
                cs.len() == 8,
                forall|j: int| 0 <= j < 8 ==> #[trigger] cs[j] == subdivided_slot(t0.children[j], j, t0.size, t0.center, fill, *is_filled, *is_contained, resolution, invert),
                forall|j: int| 0 <= j < i ==> Self::slot_model(#[trigger] self.children[j]) == cs[j],
                forall|j: int| 0 <= j < i ==> shaped_slot(#[trigger] cs[j], (t0.size / 2) as u32, child_center(t0.center, t0.size, j)),
                forall|j: int| i <= j < 8 ==> Self::slot_model(#[trigger] self.children[j]) == t0.children[j],
                all_leaves == (forall|j: int| 0 <= j < i ==> (#[trigger] cs[j]) is Some && cs[j]->0.kind == SculptNodeKind::Leaf),
                any_present == (exists|j: int| 0 <= j < i && (#[trigger] cs[j]) is Some),
            decreases 8 - i,
        {
            let mut slot: Option<Box<SculptNode>> = None;
            std::mem::swap(&mut slot, &mut self.children[i]);
            proof {
                assert(Self::slot_model(slot) == t0.children[i as int]);
                assert(shaped_slot(t0.children[i as int], (t0.size / 2) as u32, child_center(t0.center, t0.size, i as int)));
            }
            let mut slot = Self::subdivide_slot(slot, i, self.size, self.center, fill, is_filled, is_contained, resolution, invert);
            let present = slot.is_some();
            let leaf = match &slot {
                Some(child) => child.kind == SculptNodeKind::Leaf,
                None => false,
            };
            proof {
                assert(Self::slot_model(slot) == cs[i as int]);
                assert(leaf == (cs[i as int] is Some && cs[i as int]->0.kind == SculptNodeKind::Leaf));
                assert(present == cs[i as int] is Some);
            }
            all_leaves = all_leaves && leaf;
            any_present = any_present || present;
            std::mem::swap(&mut slot, &mut self.children[i]);
            i += 1;
        }
        assert(self@.children =~= cs);
        assert(all_leaves == crate::octree::all_leaves(cs));
        assert(any_present == any_child(cs));
        proof {
            let size = t0.size;
            assert(size * resolution > crate::geometry::UNIT);
            assert(size * MAX_RESOLUTION >= size * resolution) by (nonlinear_arith)
                requires resolution <= MAX_RESOLUTION;
        }
        if all_leaves {
            self.clear_children();
            self.kind = SculptNodeKind::Leaf;
            assert(!any_child(self@.children));
        } else if any_present {
            self.kind = SculptNodeKind::Interior;
        }
    }

    /// Whether any child slot is present.
    pub fn has_children(&self) -> (r: bool)
        requires
            self.children.len() == 8,
        ensures
            r == any_child(self@.children),
    {
        let mut i: usize = 0;
        while i < 8
            invariant
                i <= 8,
                self.children.len() == 8,
                forall|j: int| 0 <= j < i ==> (#[trigger] self.children[j]) is None,
            decreases 8 - i,
        {
            if self.children[i].is_some() {
                assert(self@.children[i as int] is Some);
                return true;
            }
            i += 1;
        }
        assert(forall|j: int| 0 <= j < 8 ==> (#[trigger] self@.children[j]) is None);
        false
    }

    /// One child slot of the erasing pass: recurses into a present child and
    /// drops it when it became empty or the container holds its whole cube.
    fn unsubdivide_slot<F: CubePredicate, C: CubePredicate>(
        slot: Option<Box<SculptNode>>,
        i: usize,
        size: u32,
        center: Point,
        fill: u32,
        is_filled: &F,
        is_contained: &C,
        resolution: u32,
    ) -> (r: Option<Box<SculptNode>>)
        requires
            i < 8,
            1 <= resolution <= MAX_RESOLUTION,
            shaped_slot(Self::slot_model(slot), (size / 2) as u32, child_center(center, size, i as int)),
        ensures
            Self::slot_model(r) == unsubdivided_slot(Self::slot_model(slot), i as int, size, center, fill, *is_filled, *is_contained, resolution),
            shaped_slot(Self::slot_model(r), (size / 2) as u32, child_center(center, size, i as int)),
            r is Some ==> slot is Some,
        decreases Self::slot_model(slot), 0nat,
    {
        match slot {
            Some(mut child) => {
                child.unsubdivide(fill, is_filled, is_contained, resolution);
                if child.kind == SculptNodeKind::Empty || is_contained.holds(child.size, child.center) {
                    None
                } else {
                    Some(child)
                }
            },
            None => None,
        }
    }

    /// Handles the sparse voxel octree unsubdividing modifications, recursively.
    #[verifier::rlimit(50)]
    pub fn unsubdivide<F: CubePredicate, C: CubePredicate>(
        &mut self,
        fill: u32,
        is_filled: &F,
        is_contained: &C,
        resolution: u32,
    )
        requires
            shaped(old(self)@, old(self).size, old(self).center),
            1 <= resolution <= MAX_RESOLUTION,
        ensures
            final(self)@ == unsubdivided(old(self)@, old(self).size, old(self).center, fill, *is_filled, *is_contained, resolution),
            shaped(final(self)@, old(self).size, old(self).center),
        decreases old(self)@, 1nat,
    {
        if !is_filled.holds(self.size, self.center) {
            return;
        }
        let ghost t0 = self@;
        let ghost cs = seq![
            unsubdivided_slot(t0.children[0], 0, t0.size, t0.center, fill, *is_filled, *is_contained, resolution),
            unsubdivided_slot(t0.children[1], 1, t0.size, t0.center, fill, *is_filled, *is_contained, resolution),
            unsubdivided_slot(t0.children[2], 2, t0.size, t0.center, fill, *is_filled, *is_contained, resolution),
            unsubdivided_slot(t0.children[3], 3, t0.size, t0.center, fill, *is_filled, *is_contained, resolution),
            unsubdivided_slot(t0.children[4], 4, t0.size, t0.center, fill, *is_filled, *is_contained, resolution),
            unsubdivided_slot(t0.children[5], 5, t0.size, t0.center, fill, *is_filled, *is_contained, resolution),
            unsubdivided_slot(t0.children[6], 6, t0.size, t0.center, fill, *is_filled, *is_contained, resolution),
            unsubdivided_slot(t0.children[7], 7, t0.size, t0.center, fill, *is_filled, *is_contained, resolution),
        ];
        let mut had_any = false;
        let mut any_left = false;
        let mut i: usize = 0;
        while i < 8
            invariant
                i <= 8,
                self.children.len() == 8,
                self.kind == t0.kind,
                self.size == t0.size,
                self.center == t0.center,
                self.material == t0.material,
                t0 == old(self)@,
                shaped(t0, t0.size, t0.center),
                1 <= resolution <= MAX_RESOLUTION,
                cs.len() == 8,
                forall|j: int| 0 <= j < 8 ==> #[trigger] cs[j] == unsubdivided_slot(t0.children[j], j, t0.size, t0.center, fill, *is_filled, *is_contained, resolution),
                forall|j: int| 0 <= j < i ==> Self::slot_model(#[trigger] self.children[j]) == cs[j],
                forall|j: int| 0 <= j < i ==> shaped_slot(#[trigger] cs[j], (t0.size / 2) as u32, child_center(t0.center, t0.size, j)),
                forall|j: int| 0 <= j < i ==> (#[trigger] cs[j]) is Some ==> t0.children[j] is Some,
                forall|j: int| i <= j < 8 ==> Self::slot_model(#[trigger] self.children[j]) == t0.children[j],
                had_any == (exists|j: int| 0 <= j < i && (#[trigger] t0.children[j]) is Some),
                any_left == (exists|j: int| 0 <= j < i && (#[trigger] cs[j]) is Some),
            decreases 8 - i,
        {
            let mut slot: Option<Box<SculptNode>> = None;
            std::mem::swap(&mut slot, &mut self.children[i]);
            proof {
                assert(Self::slot_model(slot) == t0.children[i as int]);
                assert(shaped_slot(t0.children[i as int], (t0.size / 2) as u32, child_center(t0.center, t0.size, i as int)));
            }
            let before = slot.is_some();
            let mut slot = Self::unsubdivide_slot(slot, i, self.size, self.center, fill, is_filled, is_contained, resolution);
            let after = slot.is_some();
            proof {
                assert(Self::slot_model(slot) == cs[i as int]);
                assert(after == cs[i as int] is Some);
                assert(before == t0.children[i as int] is Some);
            }
            had_any = had_any || before;
            any_left = any_left || after;
            std::mem::swap(&mut slot, &mut self.children[i]);
            i += 1;
        }
        assert(self@.children =~= cs);
        assert(had_any == any_child(t0.children));
        assert(any_left == any_child(cs));
        if had_any && !any_left {
            self.kind = SculptNodeKind::Empty;
            return;
        }
        if any_left {
            self.kind = SculptNodeKind::Interior;
            return;
        }
        proof {
            assert(shaped_slot(self@.children[0], (t0.size / 2) as u32, child_center(t0.center, t0.size, 0)));
        }
        self.subdivide(fill, is_filled, is_contained, resolution, true);
        if self.has_children() {
            self.kind = SculptNodeKind::Interior;
        } else {
            self.kind = SculptNodeKind::Empty;
        }
    }

    /// Set the child counts recursively.
    ///
    /// The child count is needed by the buffer generation algorithm.
    #[verifier::rlimit(50)]
    pub fn set_child_count(&mut self)
        requires
            shaped(old(self)@, old(self).size, old(self).center),
        ensures
            final(self)@ == old(self)@,
            final(self).counted(),
        decreases old(self)@,
    {
        let ghost t0 = self@;
        proof {
            lemma_weight_bound(t0, t0.size, t0.center);
            assert(weight_bound(t0.size) <= weight_bound(crate::geometry::UNIT)) by {
                lemma_weight_bound_monotone(t0.size, crate::geometry::UNIT);
            }
            crate::octree::lemma_root_weight_bound();
        }
        let mut count: u32 = 0;
        let mut i: usize = 0;
        while i < 8
            invariant
                i <= 8,
                self.children.len() == 8,
                self.kind == t0.kind,
                self.size == t0.size,
                self.center == t0.center,
                self.material == t0.material,
                t0 == old(self)@,
                shaped(t0, t0.size, t0.center),
                weight(t0) <= 2454267024,
                t0.children.len() == 8,
                forall|j: int| 0 <= j < 8 ==> Self::slot_model(#[trigger] self.children[j]) == t0.children[j],
                forall|j: int| 0 <= j < i ==> Self::counted_slot(#[trigger] self.children[j]),
                count == weight_upto(t0.children, i as int),
            decreases 8 - i,
        {
            let mut slot: Option<Box<SculptNode>> = None;
            std::mem::swap(&mut slot, &mut self.children[i]);
            proof {
                assert(Self::slot_model(slot) == t0.children[i as int]);
                assert(shaped_slot(t0.children[i as int], (t0.size / 2) as u32, child_center(t0.center, t0.size, i as int)));
                lemma_weight_upto_monotone(t0.children, i as int + 1, 8);
                lemma_weight_upto_step(t0.children, i as int);
            }
            match slot {
                Some(mut child) => {
                    let ghost c0 = child@;
                    assert(t0.children[i as int] == Some(c0));
                    if child.kind == SculptNodeKind::Interior {
                        count += 2;
                    } else {
                        count += 1;
                    }
                    child.set_child_count();
                    assert(child.child_count == weight(c0));
                    count += child.child_count;
                    slot = Some(child);
                },
                None => {},
            }
            proof {
                assert(Self::slot_model(slot) == t0.children[i as int]);
                assert(Self::counted_slot(slot));
            }
            std::mem::swap(&mut slot, &mut self.children[i]);
            i += 1;
        }
        self.child_count = count;
        assert(self@.children =~= t0.children);
    }
}

} // verus!
