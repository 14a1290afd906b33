//! The mathematical model of a sculpt node and of the edits on it.
use vstd::prelude::*;
use crate::brush::CubePredicate;
use crate::geometry::{Point, at_limit, child_center, inside_unit};

verus! {

/// The classification of a sculpt node.
#[derive(Clone, Copy, PartialEq, Eq, Debug, Structural)]
pub enum SculptNodeKind {
    /// A uniformly filled cube.
    Leaf,
    /// A cube with present children.
    Interior,
    /// Empty space, which the parent prunes.
    Empty,
}

/// A node of the octree as a value: the model of `SculptNode`.
pub struct Octree {
    pub kind: SculptNodeKind,
    pub children: Seq<Option<Octree>>,
    pub center: Point,
    pub size: u32,
    pub material: u32,
}

/// Eight absent child slots.
pub open spec fn no_children() -> Seq<Option<Octree>> {
    seq![None, None, None, None, None, None, None, None]
}

/// A newly allocated node: empty, childless, with the fill material.
pub open spec fn fresh(fill: u32, size: u32, center: Point) -> Octree {
    Octree { kind: SculptNodeKind::Empty, children: no_children(), center, size, material: fill }
}

/// Some slot among the eight is present.
pub open spec fn any_child(cs: Seq<Option<Octree>>) -> bool {
    exists|i: int| 0 <= i < 8 && (#[trigger] cs[i]) is Some
}

/// All eight slots are present and hold leaves.
pub open spec fn all_leaves(cs: Seq<Option<Octree>>) -> bool {
    forall|i: int| 0 <= i < 8 ==> (#[trigger] cs[i]) is Some && cs[i]->0.kind == SculptNodeKind::Leaf
}

/// The node turned into a childless leaf.
pub open spec fn leafed(t: Octree) -> Octree {
    Octree { kind: SculptNodeKind::Leaf, children: no_children(), ..t }
}

/// The node with new child slots after an additive pass: it collapses to a
/// leaf when all eight children are leaves, is interior when any child is
/// present, and otherwise keeps its kind.
pub open spec fn merged(t: Octree, cs: Seq<Option<Octree>>) -> Octree {
    if all_leaves(cs) {
        leafed(t)
    } else if any_child(cs) {
        Octree { kind: SculptNodeKind::Interior, children: cs, ..t }
    } else {
        Octree { children: cs, ..t }
    }
}

/// The result of `subdivide` on the node `t`, whose cube has side `size`
/// around `center`.
pub open spec fn subdivided<F: CubePredicate, C: CubePredicate>(
    t: Octree,
    size: u32,
    center: Point,
    fill: u32,
    filler: F,
    container: C,
    resolution: u32,
    invert: bool,
) -> Octree
    decreases size, 1nat,
{
    if !invert && t.kind == SculptNodeKind::Leaf {
        t
    } else if at_limit(size, resolution) || container.spec_holds(size, center) == !invert {
        leafed(t)
    } else {
        merged(
            t,
            seq![
                subdivided_slot(t.children[0], 0, size, center, fill, filler, container, resolution, invert),
                subdivided_slot(t.children[1], 1, size, center, fill, filler, container, resolution, invert),
                subdivided_slot(t.children[2], 2, size, center, fill, filler, container, resolution, invert),
                subdivided_slot(t.children[3], 3, size, center, fill, filler, container, resolution, invert),
                subdivided_slot(t.children[4], 4, size, center, fill, filler, container, resolution, invert),
                subdivided_slot(t.children[5], 5, size, center, fill, filler, container, resolution, invert),
                subdivided_slot(t.children[6], 6, size, center, fill, filler, container, resolution, invert),
                subdivided_slot(t.children[7], 7, size, center, fill, filler, container, resolution, invert),
            ],
        )
    }
}

/// Slot `o` in octant `i` before recursion: a fresh node where the slot was absent
/// and the filler (negated when `invert`) accepts the octant.
pub open spec fn seeded_slot<F: CubePredicate>(
    o: Option<Octree>,
    i: int,
    size: u32,
    center: Point,
    fill: u32,
    filler: F,
    invert: bool,
) -> Option<Octree> {
    let half = (size / 2) as u32;
    let c = child_center(center, size, i);
    if o is None && filler.spec_holds(half, c) == !invert {
        Some(fresh(fill, half, c))
    } else {
        o
    }
}

/// Slot `o` in octant `i` after the additive pass has created and recursed into it.
pub open spec fn subdivided_slot<F: CubePredicate, C: CubePredicate>(
    o: Option<Octree>,
    i: int,
    size: u32,
    center: Point,
    fill: u32,
    filler: F,
    container: C,
    resolution: u32,
    invert: bool,
) -> Option<Octree>
    decreases size, 0nat,
{
    if size == 0 {
        o
    } else {
        match seeded_slot(o, i, size, center, fill, filler, invert) {
            Some(c) => Some(
                subdivided(
                    c,
                    (size / 2) as u32,
                    child_center(center, size, i),
                    fill,
                    filler,
                    container,
                    resolution,
                    invert,
                ),
            ),
            None => None,
        }
    }
}

/// The result of `unsubdivide` on the node `t`, whose cube has side `size`
/// around `center`.
pub open spec fn unsubdivided<F: CubePredicate, C: CubePredicate>(
    t: Octree,
    size: u32,
    center: Point,
    fill: u32,
    filler: F,
    container: C,
    resolution: u32,
) -> Octree
    decreases t,
{
    if !filler.spec_holds(size, center) || t.children.len() != 8 {
        t
    } else {
        let cs = seq![
            unsubdivided_slot(t.children[0], 0, size, center, fill, filler, container, resolution),
            unsubdivided_slot(t.children[1], 1, size, center, fill, filler, container, resolution),
            unsubdivided_slot(t.children[2], 2, size, center, fill, filler, container, resolution),
            unsubdivided_slot(t.children[3], 3, size, center, fill, filler, container, resolution),
            unsubdivided_slot(t.children[4], 4, size, center, fill, filler, container, resolution),
            unsubdivided_slot(t.children[5], 5, size, center, fill, filler, container, resolution),
            unsubdivided_slot(t.children[6], 6, size, center, fill, filler, container, resolution),
            unsubdivided_slot(t.children[7], 7, size, center, fill, filler, container, resolution),
        ];
        if any_child(t.children) && !any_child(cs) {
            Octree { kind: SculptNodeKind::Empty, children: cs, ..t }
        } else if any_child(cs) {
            Octree { kind: SculptNodeKind::Interior, children: cs, ..t }
        } else {
            eroded(Octree { children: cs, ..t }, size, center, fill, filler, container, resolution)
        }
    }
}

/// A childless node that the brush touches, rebuilt by the inverted
/// additive pass: interior when that pass left children, else empty.
pub open spec fn eroded<F: CubePredicate, C: CubePredicate>(
    t: Octree,
    size: u32,
    center: Point,
    fill: u32,
    filler: F,
    container: C,
    resolution: u32,
) -> Octree {
    let s = subdivided(t, size, center, fill, filler, container, resolution, true);
    if any_child(s.children) {
        Octree { kind: SculptNodeKind::Interior, ..s }
    } else {
        Octree { kind: SculptNodeKind::Empty, ..s }
    }
}

/// Slot `o` in octant `i` after the erasing pass: removed when the
/// recursion left it empty or the container holds its whole cube.
pub open spec fn unsubdivided_slot<F: CubePredicate, C: CubePredicate>(
    o: Option<Octree>,
    i: int,
    size: u32,
    center: Point,
    fill: u32,
    filler: F,
    container: C,
    resolution: u32,
) -> Option<Octree>
    decreases o,
{
    match o {
        Some(c) => {
            let half = (size / 2) as u32;
            let cc = child_center(center, size, i);
            let r = unsubdivided(c, half, cc, fill, filler, container, resolution);
            if r.kind == SculptNodeKind::Empty || container.spec_holds(half, cc) {
                None
            } else {
                Some(r)
            }
        },
        None => None,
    }
}

/// The node has the given geometry, eight slots, lies in the unit cube, has
/// children only above the smallest supported leaf size, and so do its
/// descendants, each at its octant's geometry.
pub open spec fn shaped(t: Octree, size: u32, center: Point) -> bool
    decreases t,
{
    &&& t.size == size
    &&& t.center == center
    &&& inside_unit(size, center)
    &&& t.children.len() == 8
    &&& (any_child(t.children) ==> !at_limit(size, crate::geometry::MAX_RESOLUTION))
    &&& forall|i: int| 0 <= i < 8 ==> shaped_slot(#[trigger] t.children[i], (size / 2) as u32, child_center(center, size, i))
}

/// An absent slot, or a shaped child.
pub open spec fn shaped_slot(o: Option<Octree>, size: u32, center: Point) -> bool
    decreases o,
{
    match o {
        Some(c) => shaped(c, size, center),
        None => true,
    }
}

/// Every interior node has a present child and every leaf has none, throughout the tree.
pub open spec fn kinds_ok(t: Octree) -> bool
    decreases t,
{
    &&& (t.kind == SculptNodeKind::Interior ==> any_child(t.children))
    &&& (t.kind == SculptNodeKind::Leaf ==> !any_child(t.children))
    &&& t.children.len() == 8
    &&& forall|i: int| 0 <= i < 8 ==> kinds_ok_slot(#[trigger] t.children[i])
}

/// An absent slot, or a child whose subtree satisfies `kinds_ok`.
pub open spec fn kinds_ok_slot(o: Option<Octree>) -> bool
    decreases o,
{
    match o {
        Some(c) => kinds_ok(c),
        None => true,
    }
}

/// Words that a present child adds to its parent's span: two for an
/// interior child, one otherwise, plus the child's own weight.
pub open spec fn slot_weight(o: Option<Octree>) -> nat
    decreases o,
{
    match o {
        Some(c) => (if c.kind == SculptNodeKind::Interior { 2nat } else { 1nat }) + weight(c),
        None => 0,
    }
}

/// The sum of `slot_weight` over the first `n` slots.
pub open spec fn weight_upto(cs: Seq<Option<Octree>>, n: int) -> nat
    decreases cs, n,
{
    if n <= 0 || n > cs.len() {
        0
    } else {
        weight_upto(cs, n - 1) + slot_weight(cs[n - 1])
    }
}

/// The descendant count of a node: the words its descendants take in the buffer.
pub open spec fn weight(t: Octree) -> nat
    decreases t,
{
    weight_upto(t.children, 8)
}

/// The largest weight of a shaped node of side `size`.
pub open spec fn weight_bound(size: u32) -> nat
    decreases size,
{
    if at_limit(size, crate::geometry::MAX_RESOLUTION) || size == 0 {
        0
    } else {
        8 * (2 + weight_bound((size / 2) as u32))
    }
}

/// One more slot adds its weight to the prefix sum.
pub proof fn lemma_weight_upto_step(cs: Seq<Option<Octree>>, i: int)
    requires
        0 <= i < cs.len(),
    ensures
        weight_upto(cs, i + 1) == weight_upto(cs, i) + slot_weight(cs[i]),
{
}

/// Prefix sums of slot weights never decrease.
pub proof fn lemma_weight_upto_monotone(cs: Seq<Option<Octree>>, m: int, n: int)
    requires
        0 <= m <= n <= cs.len(),
    ensures
        weight_upto(cs, m) <= weight_upto(cs, n),
    decreases n - m,
{
    if m < n {
        lemma_weight_upto_monotone(cs, m, n - 1);
    }
}

/// Each of the first `n` slots weighs at most `w`: their sum is at most `n * w`.
pub proof fn lemma_weight_upto_bounded(cs: Seq<Option<Octree>>, n: int, w: nat)
    requires
        0 <= n <= cs.len(),
        forall|j: int| 0 <= j < n ==> slot_weight(#[trigger] cs[j]) <= w,
    ensures
        weight_upto(cs, n) <= n * w,
    decreases n,
{
    if n > 0 {
        lemma_weight_upto_bounded(cs, n - 1, w);
        assert((n - 1) * w + w == n * w) by (nonlinear_arith);
    }
}

/// The bound grows with the side.
pub proof fn lemma_weight_bound_monotone(a: u32, b: u32)
    requires
        a <= b,
    ensures
        weight_bound(a) <= weight_bound(b),
    decreases b,
{
    if !(at_limit(a, crate::geometry::MAX_RESOLUTION) || a == 0) {
        assert(a * crate::geometry::MAX_RESOLUTION <= b * crate::geometry::MAX_RESOLUTION) by (nonlinear_arith)
            requires a <= b;
        lemma_weight_bound_monotone((a / 2) as u32, (b / 2) as u32);
    }
}

/// The weight of a shaped node is at most the bound for its side.
pub proof fn lemma_weight_bound(t: Octree, size: u32, center: Point)
    requires
        shaped(t, size, center),
    ensures
        weight(t) <= weight_bound(size),
    decreases t,
{
    let half = (size / 2) as u32;
    if any_child(t.children) {
        assert(size > 0) by (nonlinear_arith)
            requires size * crate::geometry::MAX_RESOLUTION > crate::geometry::UNIT;
        assert forall|j: int| 0 <= j < 8 implies slot_weight(#[trigger] t.children[j]) <= 2 + weight_bound(half) by {
            assert(shaped_slot(t.children[j], half, child_center(center, size, j)));
            if let Some(c) = t.children[j] {
                lemma_weight_bound(c, half, child_center(center, size, j));
            }
        }
        lemma_weight_upto_bounded(t.children, 8, 2 + weight_bound(half));
    } else {
        assert forall|j: int| 0 <= j < 8 implies slot_weight(#[trigger] t.children[j]) <= 0 by {}
        lemma_weight_upto_bounded(t.children, 8, 0);
    }
}

/// The weight of a whole tree fits the buffer's `u32` word indices.
pub proof fn lemma_root_weight_bound()
    ensures
        weight_bound(crate::geometry::UNIT) == 2454267024,
{
    reveal_with_fuel(weight_bound, 12);
    assert(weight_bound(16384) == 0);
    assert(weight_bound(32768) == 16);
    assert(weight_bound(65536) == 144);
    assert(weight_bound(131072) == 1168);
    assert(weight_bound(262144) == 9360);
    assert(weight_bound(524288) == 74896);
    assert(weight_bound(1048576) == 599184);
    assert(weight_bound(2097152) == 4793488);
    assert(weight_bound(4194304) == 38347920);
    assert(weight_bound(8388608) == 306783376);
}

/// A present slot stays present through the additive pass.
pub proof fn lemma_subdivided_slot_keeps<F: CubePredicate, C: CubePredicate>(
    o: Option<Octree>,
    i: int,
    size: u32,
    center: Point,
    fill: u32,
    filler: F,
    container: C,
    resolution: u32,
    invert: bool,
)
    requires
        size > 0,
        o is Some,
    ensures
        subdivided_slot(o, i, size, center, fill, filler, container, resolution, invert) is Some,
{
}

/// The additive pass keeps interior nodes non-empty and leaves childless.
pub proof fn lemma_subdivided_kinds<F: CubePredicate, C: CubePredicate>(
    t: Octree,
    size: u32,
    center: Point,
    fill: u32,
    filler: F,
    container: C,
    resolution: u32,
    invert: bool,
)
    requires
        kinds_ok(t),
    ensures
        kinds_ok(subdivided(t, size, center, fill, filler, container, resolution, invert)),
    decreases size, 1nat,
{
    let r = subdivided(t, size, center, fill, filler, container, resolution, invert);
    if !invert && t.kind == SculptNodeKind::Leaf {
    } else if at_limit(size, resolution) || container.spec_holds(size, center) == !invert {
        assert(!any_child(no_children()));
    } else {
        assert(size > 0) by (nonlinear_arith)
            requires size * resolution > crate::geometry::UNIT;
        let cs = seq![
            subdivided_slot(t.children[0], 0, size, center, fill, filler, container, resolution, invert),
            subdivided_slot(t.children[1], 1, size, center, fill, filler, container, resolution, invert),
            subdivided_slot(t.children[2], 2, size, center, fill, filler, container, resolution, invert),
            subdivided_slot(t.children[3], 3, size, center, fill, filler, container, resolution, invert),
            subdivided_slot(t.children[4], 4, size, center, fill, filler, container, resolution, invert),
            subdivided_slot(t.children[5], 5, size, center, fill, filler, container, resolution, invert),
            subdivided_slot(t.children[6], 6, size, center, fill, filler, container, resolution, invert),
            subdivided_slot(t.children[7], 7, size, center, fill, filler, container, resolution, invert),
        ];
        assert forall|i: int| 0 <= i < 8 implies kinds_ok_slot(#[trigger] cs[i]) by {
            lemma_subdivided_slot_kinds(t.children[i], i, size, center, fill, filler, container, resolution, invert);
        }
        if t.kind == SculptNodeKind::Interior {
            let k = choose|k: int| 0 <= k < 8 && (#[trigger] t.children[k]) is Some;
            lemma_subdivided_slot_keeps(t.children[k], k, size, center, fill, filler, container, resolution, invert);
            assert(cs[k] is Some);
        }
        assert(!any_child(no_children()));
    }
}

/// A slot of the additive pass satisfies `kinds_ok` when it did before.
pub proof fn lemma_subdivided_slot_kinds<F: CubePredicate, C: CubePredicate>(
    o: Option<Octree>,
    i: int,
    size: u32,
    center: Point,
    fill: u32,
    filler: F,
    container: C,
    resolution: u32,
    invert: bool,
)
    requires
        kinds_ok_slot(o),
    ensures
        kinds_ok_slot(subdivided_slot(o, i, size, center, fill, filler, container, resolution, invert)),
    decreases size, 0nat,
{
    if size > 0 {
        if let Some(c) = seeded_slot(o, i, size, center, fill, filler, invert) {
            if o is None {
                assert(!any_child(no_children()));
            }
            lemma_subdivided_kinds(c, (size / 2) as u32, child_center(center, size, i), fill, filler, container, resolution, invert);
        }
    }
}

/// The erasing pass keeps interior nodes non-empty and leaves childless.
pub proof fn lemma_unsubdivided_kinds<F: CubePredicate, C: CubePredicate>(
    t: Octree,
    size: u32,
    center: Point,
    fill: u32,
    filler: F,
    container: C,
    resolution: u32,
)
    requires
        kinds_ok(t),
    ensures
        kinds_ok(unsubdivided(t, size, center, fill, filler, container, resolution)),
    decreases t,
{
    if !filler.spec_holds(size, center) || t.children.len() != 8 {
    } else {
        let cs = seq![
            unsubdivided_slot(t.children[0], 0, size, center, fill, filler, container, resolution),
            unsubdivided_slot(t.children[1], 1, size, center, fill, filler, container, resolution),
            unsubdivided_slot(t.children[2], 2, size, center, fill, filler, container, resolution),
            unsubdivided_slot(t.children[3], 3, size, center, fill, filler, container, resolution),
            unsubdivided_slot(t.children[4], 4, size, center, fill, filler, container, resolution),
            unsubdivided_slot(t.children[5], 5, size, center, fill, filler, container, resolution),
            unsubdivided_slot(t.children[6], 6, size, center, fill, filler, container, resolution),
            unsubdivided_slot(t.children[7], 7, size, center, fill, filler, container, resolution),
        ];
        assert forall|i: int| 0 <= i < 8 implies kinds_ok_slot(#[trigger] cs[i]) by {
            assert(kinds_ok_slot(t.children[i]));
            if let Some(c) = t.children[i] {
                lemma_unsubdivided_kinds(c, (size / 2) as u32, child_center(center, size, i), fill, filler, container, resolution);
            }
        }
        if !(any_child(t.children) && !any_child(cs)) && !any_child(cs) {
            let u = Octree { children: cs, ..t };
            assert(!any_child(t.children));
            assert(kinds_ok(u));
            lemma_subdivided_kinds(u, size, center, fill, filler, container, resolution, true);
        }
    }
}

/// A slot after the additive pass is unchanged by a second pass.
pub proof fn lemma_subdivided_slot_idempotent<F: CubePredicate, C: CubePredicate>(
    o: Option<Octree>,
    i: int,
    size: u32,
    center: Point,
    fill: u32,
    filler: F,
    container: C,
    resolution: u32,
)
    ensures
        subdivided_slot(subdivided_slot(o, i, size, center, fill, filler, container, resolution, false), i, size, center, fill, filler, container, resolution, false)
            == subdivided_slot(o, i, size, center, fill, filler, container, resolution, false),
    decreases size, 0nat,
{
    if size > 0 {
        if let Some(x) = seeded_slot(o, i, size, center, fill, filler, false) {
            lemma_subdivided_idempotent(x, (size / 2) as u32, child_center(center, size, i), fill, filler, container, resolution);
        }
    }
}

/// The additive pass, run twice with the same predicates, gives what it gives once.
pub proof fn lemma_subdivided_idempotent<F: CubePredicate, C: CubePredicate>(
    t: Octree,
    size: u32,
    center: Point,
    fill: u32,
    filler: F,
    container: C,
    resolution: u32,
)
    ensures
        subdivided(subdivided(t, size, center, fill, filler, container, resolution, false), size, center, fill, filler, container, resolution, false)
            == subdivided(t, size, center, fill, filler, container, resolution, false),
    decreases size, 1nat,
{
    if t.kind != SculptNodeKind::Leaf && !(at_limit(size, resolution) || container.spec_holds(size, center)) {
        let cs = seq![
            subdivided_slot(t.children[0], 0, size, center, fill, filler, container, resolution, false),
            subdivided_slot(t.children[1], 1, size, center, fill, filler, container, resolution, false),
            subdivided_slot(t.children[2], 2, size, center, fill, filler, container, resolution, false),
            subdivided_slot(t.children[3], 3, size, center, fill, filler, container, resolution, false),
            subdivided_slot(t.children[4], 4, size, center, fill, filler, container, resolution, false),
            subdivided_slot(t.children[5], 5, size, center, fill, filler, container, resolution, false),
            subdivided_slot(t.children[6], 6, size, center, fill, filler, container, resolution, false),
            subdivided_slot(t.children[7], 7, size, center, fill, filler, container, resolution, false),
        ];
        let u = merged(t, cs);
        if !all_leaves(cs) {
            assert forall|i: int| 0 <= i < 8 implies subdivided_slot(#[trigger] u.children[i], i, size, center, fill, filler, container, resolution, false) == cs[i] by {
                lemma_subdivided_slot_idempotent(t.children[i], i, size, center, fill, filler, container, resolution);
            }
            let cs2 = seq![
                subdivided_slot(u.children[0], 0, size, center, fill, filler, container, resolution, false),
                subdivided_slot(u.children[1], 1, size, center, fill, filler, container, resolution, false),
                subdivided_slot(u.children[2], 2, size, center, fill, filler, container, resolution, false),
                subdivided_slot(u.children[3], 3, size, center, fill, filler, container, resolution, false),
                subdivided_slot(u.children[4], 4, size, center, fill, filler, container, resolution, false),
                subdivided_slot(u.children[5], 5, size, center, fill, filler, container, resolution, false),
                subdivided_slot(u.children[6], 6, size, center, fill, filler, container, resolution, false),
                subdivided_slot(u.children[7], 7, size, center, fill, filler, container, resolution, false),
            ];
            assert(cs2 =~= cs);
        }
    }
}

/// A slot of the erasing pass, over a slot that the additive pass filled
/// from nothing, is removed.
pub proof fn lemma_filled_slot_cleared<F: CubePredicate, C: CubePredicate>(
    i: int,
    size: u32,
    center: Point,
    fill: u32,
    filler: F,
    container: C,
    resolution: u32,
)
    requires
        size > 0,
    ensures
        unsubdivided_slot(subdivided_slot(None, i, size, center, fill, filler, container, resolution, false), i, size, center, fill, filler, container, resolution) is None,
    decreases size, 0nat,
{
    let half = (size / 2) as u32;
    let cc = child_center(center, size, i);
    if filler.spec_holds(half, cc) {
        lemma_filled_cleared(fresh(fill, half, cc), half, cc, fill, filler, container, resolution);
    }
}

/// A childless node that the filler accepts but whose cube the container
/// does not hold is erased to an empty childless node.
pub proof fn lemma_childless_erased<F: CubePredicate, C: CubePredicate>(
    w: Octree,
    size: u32,
    center: Point,
    fill: u32,
    filler: F,
    container: C,
    resolution: u32,
)
    requires
        w.children.len() == 8,
        !any_child(w.children),
        filler.spec_holds(size, center),
        !container.spec_holds(size, center),
    ensures
        ({
            let r = unsubdivided(w, size, center, fill, filler, container, resolution);
            r.kind == SculptNodeKind::Empty && !any_child(r.children)
        }),
{
    let ds = seq![
        unsubdivided_slot(w.children[0], 0, size, center, fill, filler, container, resolution),
        unsubdivided_slot(w.children[1], 1, size, center, fill, filler, container, resolution),
        unsubdivided_slot(w.children[2], 2, size, center, fill, filler, container, resolution),
        unsubdivided_slot(w.children[3], 3, size, center, fill, filler, container, resolution),
        unsubdivided_slot(w.children[4], 4, size, center, fill, filler, container, resolution),
        unsubdivided_slot(w.children[5], 5, size, center, fill, filler, container, resolution),
        unsubdivided_slot(w.children[6], 6, size, center, fill, filler, container, resolution),
        unsubdivided_slot(w.children[7], 7, size, center, fill, filler, container, resolution),
    ];
    assert forall|i: int| 0 <= i < 8 implies (#[trigger] ds[i]) is None by {
        assert(w.children[i] is None);
    }
    assert(!any_child(ds));
    assert(!any_child(no_children()));
}

/// A node with children that the filler accepts, whose every child the
/// erasing pass removes, is erased to an empty childless node.
pub proof fn lemma_emptied_erased<F: CubePredicate, C: CubePredicate>(
    w: Octree,
    size: u32,
    center: Point,
    fill: u32,
    filler: F,
    container: C,
    resolution: u32,
)
    requires
        w.children.len() == 8,
        any_child(w.children),
        filler.spec_holds(size, center),
        forall|i: int| 0 <= i < 8 ==> (#[trigger] unsubdivided_slot(w.children[i], i, size, center, fill, filler, container, resolution)) is None,
    ensures
        ({
            let r = unsubdivided(w, size, center, fill, filler, container, resolution);
            r.kind == SculptNodeKind::Empty && !any_child(r.children)
        }),
{
    let ds = seq![
        unsubdivided_slot(w.children[0], 0, size, center, fill, filler, container, resolution),
        unsubdivided_slot(w.children[1], 1, size, center, fill, filler, container, resolution),
        unsubdivided_slot(w.children[2], 2, size, center, fill, filler, container, resolution),
        unsubdivided_slot(w.children[3], 3, size, center, fill, filler, container, resolution),
        unsubdivided_slot(w.children[4], 4, size, center, fill, filler, container, resolution),
        unsubdivided_slot(w.children[5], 5, size, center, fill, filler, container, resolution),
        unsubdivided_slot(w.children[6], 6, size, center, fill, filler, container, resolution),
        unsubdivided_slot(w.children[7], 7, size, center, fill, filler, container, resolution),
    ];
    assert forall|i: int| 0 <= i < 8 implies (#[trigger] ds[i]) is None by {}
    assert(!any_child(ds));
}

/// An empty childless node that the filler accepts, filled by the additive
/// pass and then erased with the same predicates, ends empty and childless,
/// unless the container holds its whole cube (then its parent drops it).
pub proof fn lemma_filled_cleared<F: CubePredicate, C: CubePredicate>(
    x: Octree,
    size: u32,
    center: Point,
    fill: u32,
    filler: F,
    container: C,
    resolution: u32,
)
    requires
        x.kind == SculptNodeKind::Empty,
        x.children == no_children(),
        filler.spec_holds(size, center),
    ensures
        ({
            let r = unsubdivided(subdivided(x, size, center, fill, filler, container, resolution, false), size, center, fill, filler, container, resolution);
            (r.kind == SculptNodeKind::Empty && !any_child(r.children)) || container.spec_holds(size, center)
        }),
    decreases size, 1nat,
{
    let w = subdivided(x, size, center, fill, filler, container, resolution, false);
    assert(!any_child(no_children()));
    if container.spec_holds(size, center) {
    } else if at_limit(size, resolution) {
        lemma_childless_erased(w, size, center, fill, filler, container, resolution);
    } else {
        assert(size > 0) by (nonlinear_arith)
            requires size * resolution > crate::geometry::UNIT;
        let cs = seq![
            subdivided_slot(x.children[0], 0, size, center, fill, filler, container, resolution, false),
            subdivided_slot(x.children[1], 1, size, center, fill, filler, container, resolution, false),
            subdivided_slot(x.children[2], 2, size, center, fill, filler, container, resolution, false),
            subdivided_slot(x.children[3], 3, size, center, fill, filler, container, resolution, false),
            subdivided_slot(x.children[4], 4, size, center, fill, filler, container, resolution, false),
            subdivided_slot(x.children[5], 5, size, center, fill, filler, container, resolution, false),
            subdivided_slot(x.children[6], 6, size, center, fill, filler, container, resolution, false),
            subdivided_slot(x.children[7], 7, size, center, fill, filler, container, resolution, false),
        ];
        assert(w == merged(x, cs));
        if any_child(cs) && !all_leaves(cs) {
            assert forall|i: int| 0 <= i < 8 implies (#[trigger] unsubdivided_slot(w.children[i], i, size, center, fill, filler, container, resolution)) is None by {
                assert(x.children[i] is None);
                lemma_filled_slot_cleared(i, size, center, fill, filler, container, resolution);
            }
            let k = choose|k: int| 0 <= k < 8 && (#[trigger] cs[k]) is Some;
            assert(w.children[k] is Some);
            lemma_emptied_erased(w, size, center, fill, filler, container, resolution);
        } else {
            lemma_childless_erased(w, size, center, fill, filler, container, resolution);
        }
    }
}

} // verus!
