//! Reading a voxel buffer back into a tree shape, as a renderer walks it.
use vstd::prelude::*;
use crate::buffer::{
    octant_bit, child_mask_upto, leaf_mask_upto, lemma_octant_bits, node_word, header_words, header_len, header_len_upto,
    below_upto, headers_upto, bodies_upto, body_words, emitted, voxel_words, lemma_headers_len, lemma_bodies_len,
    lemma_emitted_len, lemma_parts_monotone, lemma_weight_split,
};
use crate::octree::{lemma_weight_bound, lemma_root_weight_bound};
use crate::geometry::{Point, UNIT, child_center, root_center};
use crate::octree::{Octree, SculptNodeKind, any_child, shaped, shaped_slot, kinds_ok, kinds_ok_slot, weight};

verus! {

/// Bit `i` of a word.
pub open spec fn bit_of(word: u32, i: u32) -> bool {
    ((word >> i) & 1u32) == 1u32
}

proof fn lemma_bit_value(k: u32)
    requires
        k < 8,
    ensures
        octant_bit(k as int) == (1u32 << k),
{
    lemma_octant_bits();
    reveal_with_fuel(octant_bit, 9);
    if k == 0 {
        assert((1u32 << 0u32) == 1u32) by (bit_vector);
    } else if k == 1 {
        assert((1u32 << 1u32) == 2u32) by (bit_vector);
    } else if k == 2 {
        assert((1u32 << 2u32) == 4u32) by (bit_vector);
    } else if k == 3 {
        assert((1u32 << 3u32) == 8u32) by (bit_vector);
    } else if k == 4 {
        assert((1u32 << 4u32) == 16u32) by (bit_vector);
    } else if k == 5 {
        assert((1u32 << 5u32) == 32u32) by (bit_vector);
    } else if k == 6 {
        assert((1u32 << 6u32) == 64u32) by (bit_vector);
    } else {
        assert((1u32 << 7u32) == 128u32) by (bit_vector);
    }
}

proof fn lemma_add_bit(m: u32, k: u32, i: u32)
    requires
        k < 8,
        i <= k,
        m < (1u32 << k),
    ensures
        m + (1u32 << k) < 256,
        bit_of((m + (1u32 << k)) as u32, i) == (i == k || bit_of(m, i)),
{
    assert(((m + (1u32 << k)) as u32 >> i) & 1u32 == (if i == k { 1u32 } else { (m >> i) & 1u32 })
        && m + (1u32 << k) < 256) by (bit_vector)
        requires k < 8, i <= k, m < (1u32 << k);
}

proof fn lemma_keep_bit(m: u32, k: u32, i: u32)
    requires
        k < 8,
        i == k,
        m < (1u32 << k),
    ensures
        !bit_of(m, i),
{
    assert((m >> i) & 1u32 == 0u32) by (bit_vector)
        requires k < 8, i == k, m < (1u32 << k);
}

/// Bit `i` of the child mask of the first `n` slots is set exactly when slot `i` is present.
pub proof fn lemma_child_mask_bits(cs: Seq<Option<Octree>>, n: int)
    requires
        0 <= n <= 8,
    ensures
        child_mask_upto(cs, n) < octant_bit(n),
        forall|j: u32| j < n ==> #[trigger] bit_of(child_mask_upto(cs, n) as u32, j) == (cs[j as int] is Some),
        forall|j: u32| n <= j < 8 ==> !#[trigger] bit_of(child_mask_upto(cs, n) as u32, j),
    decreases n,
{
    lemma_octant_bits();
    if n == 0 {
        assert forall|j: u32| j < 8 implies !#[trigger] bit_of(0u32, j) by {
            assert((0u32 >> j) & 1u32 == 0u32) by (bit_vector);
        }
    } else {
        lemma_child_mask_bits(cs, n - 1);
        let k = (n - 1) as u32;
        let m = child_mask_upto(cs, n - 1) as u32;
        lemma_bit_value(k);
        assert forall|j: u32| j < 8 implies #[trigger] bit_of(child_mask_upto(cs, n) as u32, j) == (
            if j == k { cs[j as int] is Some } else { bit_of(m, j) }) by {
            if cs[n - 1] is Some {
                if j <= k {
                    lemma_add_bit(m, k, j);
                } else {
                    assert(((m + (1u32 << k)) as u32 >> j) & 1u32 == 0u32) by (bit_vector)
                        requires k < 8, j > k, j < 8, m < (1u32 << k);
                    assert((m >> j) & 1u32 == 0u32) by (bit_vector)
                        requires k < 8, j > k, j < 8, m < (1u32 << k);
                }
            } else if j == k {
                lemma_keep_bit(m, k, j);
            }
        }
        if cs[n - 1] is Some {
            lemma_add_bit(m, k, k);
        }
    }
}

/// Bit `i` of the leaf mask of the first `n` slots is set exactly when slot `i` holds a leaf.
pub proof fn lemma_leaf_mask_bits(cs: Seq<Option<Octree>>, n: int)
    requires
        0 <= n <= 8,
    ensures
        leaf_mask_upto(cs, n) < octant_bit(n),
        forall|j: u32| j < n ==> #[trigger] bit_of(leaf_mask_upto(cs, n) as u32, j) == (cs[j as int] is Some && cs[j as int]->0.kind == SculptNodeKind::Leaf),
        forall|j: u32| n <= j < 8 ==> !#[trigger] bit_of(leaf_mask_upto(cs, n) as u32, j),
    decreases n,
{
    lemma_octant_bits();
    if n == 0 {
        assert forall|j: u32| j < 8 implies !#[trigger] bit_of(0u32, j) by {
            assert((0u32 >> j) & 1u32 == 0u32) by (bit_vector);
        }
    } else {
        lemma_leaf_mask_bits(cs, n - 1);
        let k = (n - 1) as u32;
        let m = leaf_mask_upto(cs, n - 1) as u32;
        lemma_bit_value(k);
        assert forall|j: u32| j < 8 implies #[trigger] bit_of(leaf_mask_upto(cs, n) as u32, j) == (
            if j == k { cs[j as int] is Some && cs[j as int]->0.kind == SculptNodeKind::Leaf } else { bit_of(m, j) }) by {
            if cs[n - 1] is Some && cs[n - 1]->0.kind == SculptNodeKind::Leaf {
                if j <= k {
                    lemma_add_bit(m, k, j);
                } else {
                    assert(((m + (1u32 << k)) as u32 >> j) & 1u32 == 0u32) by (bit_vector)
                        requires k < 8, j > k, j < 8, m < (1u32 << k);
                    assert((m >> j) & 1u32 == 0u32) by (bit_vector)
                        requires k < 8, j > k, j < 8, m < (1u32 << k);
                }
            } else if j == k {
                lemma_keep_bit(m, k, j);
            }
        }
        if cs[n - 1] is Some && cs[n - 1]->0.kind == SculptNodeKind::Leaf {
            lemma_add_bit(m, k, k);
        }
    }
}

/// The header word holds the child mask in its second byte and the leaf mask in its first.
pub proof fn lemma_header_bits(cm: u32, lm: u32, j: u32)
    requires
        cm < 256,
        lm < 256,
        j < 8,
    ensures
        bit_of((cm * 256 + lm) as u32, (8 + j) as u32) == bit_of(cm, j),
        bit_of((cm * 256 + lm) as u32, j) == bit_of(lm, j),
        ((cm * 256 + lm) as u32 >> 8u32) & 0xFFu32 == cm,
{
    assert(((((cm * 256 + lm) as u32) >> ((8 + j) as u32)) & 1u32) == ((cm >> j) & 1u32)
        && ((((cm * 256 + lm) as u32) >> j) & 1u32) == ((lm >> j) & 1u32)
        && ((((cm * 256 + lm) as u32) >> 8u32) & 0xFFu32) == cm) by (bit_vector)
        requires cm < 256, lm < 256, j < 8;
}

/// The structure of a tree: kinds, present slots and leaf materials.
pub enum Shape {
    Leaf(u32),
    Interior(Seq<Option<Shape>>),
    Empty,
}

/// The shape of a node.
pub open spec fn shape_of(t: Octree) -> Shape
    decreases t,
{
    match t.kind {
        SculptNodeKind::Leaf => Shape::Leaf(t.material),
        SculptNodeKind::Empty => Shape::Empty,
        SculptNodeKind::Interior => if t.children.len() == 8 {
            Shape::Interior(seq![
                shape_slot(t.children[0]), shape_slot(t.children[1]), shape_slot(t.children[2]), shape_slot(t.children[3]),
                shape_slot(t.children[4]), shape_slot(t.children[5]), shape_slot(t.children[6]), shape_slot(t.children[7]),
            ])
        } else {
            Shape::Interior(seq![])
        },
    }
}

/// The shape of a slot.
pub open spec fn shape_slot(o: Option<Octree>) -> Option<Shape>
    decreases o,
{
    match o {
        Some(c) => Some(shape_of(c)),
        None => None,
    }
}

/// Every present descendant is a leaf or an interior node.
pub open spec fn solid(t: Octree) -> bool
    decreases t,
{
    forall|i: int| 0 <= i < 8 && i < t.children.len() ==> solid_slot(#[trigger] t.children[i])
}

/// An absent slot, or a solid leaf or interior child.
pub open spec fn solid_slot(o: Option<Octree>) -> bool
    decreases o,
{
    match o {
        Some(c) => c.kind != SculptNodeKind::Empty && solid(c),
        None => true,
    }
}

/// Words that slot `j` takes among the headers, read from the masks.
pub open spec fn slot_words(header: u32, j: u32) -> nat {
    if !bit_of(header, (8 + j) as u32) {
        0
    } else if bit_of(header, j) {
        1
    } else {
        2
    }
}

/// Header words of the slots before `i`, read from the masks.
pub open spec fn slot_offset(header: u32, i: int) -> nat
    decreases i,
{
    if i <= 0 {
        0
    } else {
        slot_offset(header, i - 1) + slot_words(header, (i - 1) as u32)
    }
}

/// The shape that the buffer describes for an interior header `header` whose
/// children's headers start at `ptr`.
pub open spec fn decode_node(buf: Seq<u32>, header: u32, ptr: int) -> Shape
    decreases buf.len() - ptr, 1nat,
{
    if (header >> 8u32) & 0xFFu32 == 0 {
        Shape::Empty
    } else {
        Shape::Interior(seq![
            decode_slot(buf, header, ptr, 0), decode_slot(buf, header, ptr, 1),
            decode_slot(buf, header, ptr, 2), decode_slot(buf, header, ptr, 3),
            decode_slot(buf, header, ptr, 4), decode_slot(buf, header, ptr, 5),
            decode_slot(buf, header, ptr, 6), decode_slot(buf, header, ptr, 7),
        ])
    }
}

/// Slot `i` as the buffer describes it: absent, a leaf whose word is its
/// material, or an interior node with a header pair.
pub open spec fn decode_slot(buf: Seq<u32>, header: u32, ptr: int, i: u32) -> Option<Shape>
    decreases buf.len() - ptr, 0nat,
{
    let pos = ptr + slot_offset(header, i as int);
    if !bit_of(header, (8 + i) as u32) {
        None
    } else if bit_of(header, i) {
        Some(Shape::Leaf(buf[pos]))
    } else if ptr < buf[pos + 1] <= buf.len() {
        Some(decode_node(buf, buf[pos], buf[pos + 1] as int))
    } else {
        Some(Shape::Empty)
    }
}

/// The shape a whole voxel buffer describes.
pub open spec fn decode(buf: Seq<u32>) -> Shape {
    if buf.len() < 2 {
        Shape::Empty
    } else {
        decode_node(buf, buf[0], buf[1] as int)
    }
}

/// The header of slot `i` sits after the headers of the slots before it.
pub proof fn lemma_header_at(cs: Seq<Option<Octree>>, n: int, base: nat, i: int, k: int)
    requires
        0 <= i < n,
        0 <= k < header_len(cs[i]),
    ensures
        header_len_upto(cs, i) + k < header_len_upto(cs, n),
        headers_upto(cs, n, base)[header_len_upto(cs, i) + k] == header_words(cs[i], base + below_upto(cs, i))[k],
    decreases n,
{
    lemma_headers_len(cs, n - 1, base);
    lemma_parts_monotone(cs, i + 1, n);
    if i < n - 1 {
        lemma_parts_monotone(cs, i + 1, n - 1);
        lemma_header_at(cs, n - 1, base, i, k);
    }
}

/// The descendants of slot `i` sit after the descendants of the slots before it.
pub proof fn lemma_body_at(cs: Seq<Option<Octree>>, n: int, base: nat, i: int, size: u32, center: Point)
    requires
        0 <= i < n <= 8,
        cs.len() == 8,
        cs[i] is Some,
        forall|j: int| 0 <= j < 8 ==> shaped_slot(#[trigger] cs[j], (size / 2) as u32, child_center(center, size, j)),
    ensures
        below_upto(cs, i) + weight(cs[i]->0) <= below_upto(cs, n),
        bodies_upto(cs, n, base).subrange(below_upto(cs, i) as int, (below_upto(cs, i) + weight(cs[i]->0)) as int)
            == emitted(cs[i]->0, base + below_upto(cs, i)),
    decreases n,
{
    lemma_bodies_len(cs, n - 1, base, size, center);
    lemma_parts_monotone(cs, i + 1, n);
    let p = base + below_upto(cs, n - 1);
    assert(bodies_upto(cs, n, base) == bodies_upto(cs, n - 1, base) + body_words(cs[n - 1], p));
    if i < n - 1 {
        lemma_parts_monotone(cs, i + 1, n - 1);
        lemma_body_at(cs, n - 1, base, i, size, center);
        assert(bodies_upto(cs, n, base).subrange(below_upto(cs, i) as int, (below_upto(cs, i) + weight(cs[i]->0)) as int)
            =~= bodies_upto(cs, n - 1, base).subrange(below_upto(cs, i) as int, (below_upto(cs, i) + weight(cs[i]->0)) as int));
    } else {
        let c = cs[i]->0;
        assert(shaped_slot(cs[i], (size / 2) as u32, child_center(center, size, i)));
        lemma_emitted_len(c, p);
        assert(body_words(cs[i], p) == emitted(c, p));
        assert(bodies_upto(cs, n, base).subrange(below_upto(cs, i) as int, (below_upto(cs, i) + weight(c)) as int) =~= emitted(c, p));
    }
}

/// The header word of a node with children tells, slot by slot, which
/// children are present and which are leaves.
proof fn lemma_slot_bits(t: Octree, j: u32)
    requires
        j < 8,
        t.children.len() == 8,
        any_child(t.children),
    ensures
        bit_of(node_word(t), (8 + j) as u32) == t.children[j as int] is Some,
        bit_of(node_word(t), j) == (t.children[j as int] is Some && t.children[j as int]->0.kind == SculptNodeKind::Leaf),
        (node_word(t) >> 8u32) & 0xFFu32 != 0,
{
    let cs = t.children;
    lemma_octant_bits();
    lemma_child_mask_bits(cs, 8);
    lemma_leaf_mask_bits(cs, 8);
    let cm = child_mask_upto(cs, 8) as u32;
    let lm = leaf_mask_upto(cs, 8) as u32;
    lemma_header_bits(cm, lm, j);
    let k = choose|k: int| 0 <= k < 8 && (#[trigger] cs[k]) is Some;
    assert(bit_of(cm, k as u32));
    if cm == 0 {
        let kk = k as u32;
        assert((0u32 >> kk) & 1u32 == 0u32) by (bit_vector);
    }
    lemma_header_bits(cm, lm, 0);
}

/// In a solid node the masks give each slot its header length.
proof fn lemma_slot_offset(t: Octree, i: int)
    requires
        0 <= i <= 8,
        t.children.len() == 8,
        any_child(t.children),
        solid(t),
    ensures
        slot_offset(node_word(t), i) == header_len_upto(t.children, i),
    decreases i,
{
    if i > 0 {
        lemma_slot_offset(t, i - 1);
        lemma_slot_bits(t, (i - 1) as u32);
        assert(solid_slot(t.children[i - 1]));
    }
}

/// The words of an interior child stand where its parent's header points.
proof fn lemma_child_words(b: Seq<u32>, t: Octree, p: nat, i: int)
    requires
        shaped(t, t.size, t.center),
        0 <= i < 8,
        t.children[i] is Some,
        p + weight(t) <= b.len(),
        b.subrange(p as int, (p + weight(t)) as int) == emitted(t, p),
    ensures
        ({
            let cs = t.children;
            let q = p + header_len_upto(cs, 8) + below_upto(cs, i);
            let c = cs[i]->0;
            &&& q + weight(c) <= b.len()
            &&& b.subrange(q as int, (q + weight(c)) as int) == emitted(c, q)
        }),
{
    let cs = t.children;
    let base = p + header_len_upto(cs, 8);
    let e = emitted(t, p);
    let c = cs[i]->0;
    let q = base + below_upto(cs, i);
    lemma_emitted_len(t, p);
    lemma_weight_split(cs, 8);
    lemma_headers_len(cs, 8, base);
    lemma_body_at(cs, 8, base, i, t.size, t.center);
    lemma_parts_monotone(cs, i, 8);
    assert(shaped_slot(cs[i], (t.size / 2) as u32, child_center(t.center, t.size, i)));
    lemma_emitted_len(c, q);
    assert(e == headers_upto(cs, 8, base) + bodies_upto(cs, 8, base));
    assert forall|k: int| 0 <= k < weight(c) implies b.subrange(q as int, (q + weight(c)) as int)[k] == #[trigger] emitted(c, q)[k] by {
        assert(b[q + k] == e[(q - p) + k]);
        assert(e[(q - p) + k] == bodies_upto(cs, 8, base)[below_upto(cs, i) + k]);
    }
    assert(b.subrange(q as int, (q + weight(c)) as int) =~= emitted(c, q));
}

/// Slot `i` of an interior node whose descendants' words stand at `p`
/// decodes to the slot's shape.
proof fn lemma_decode_slot(b: Seq<u32>, t: Octree, p: nat, i: int)
    requires
        shaped(t, t.size, t.center),
        kinds_ok(t),
        solid(t),
        t.kind == SculptNodeKind::Interior,
        0 <= i < 8,
        p + weight(t) <= b.len(),
        p + weight(t) <= u32::MAX,
        b.subrange(p as int, (p + weight(t)) as int) == emitted(t, p),
    ensures
        decode_slot(b, node_word(t), p as int, i as u32) == shape_slot(t.children[i]),
    decreases t, 0nat,
{
    let cs = t.children;
    let base = p + header_len_upto(cs, 8);
    let e = emitted(t, p);
    let j = i as u32;
    lemma_slot_bits(t, j);
    lemma_slot_offset(t, i);
    lemma_emitted_len(t, p);
    lemma_weight_split(cs, 8);
    lemma_headers_len(cs, 8, base);
    let h = header_len_upto(cs, i);
    let pos = p + h;
    if let Some(c) = cs[i] {
        assert(solid_slot(cs[i]));
        assert(kinds_ok_slot(cs[i]));
        assert(shaped_slot(cs[i], (t.size / 2) as u32, child_center(t.center, t.size, i)));
        assert(e == headers_upto(cs, 8, base) + bodies_upto(cs, 8, base));
        lemma_header_at(cs, 8, base, i, 0);
        assert(b[pos as int] == e[h as int]);
        assert(e[h as int] == headers_upto(cs, 8, base)[h as int]);
        assert(b[pos as int] == node_word(c));
        if c.kind == SculptNodeKind::Leaf {
            assert(!any_child(c.children));
            assert(decode_slot(b, node_word(t), p as int, j) == Some(Shape::Leaf(b[pos as int])));
        } else {
            lemma_header_at(cs, 8, base, i, 1);
            assert(b[(pos + 1) as int] == e[(h + 1) as int]);
            assert(e[(h + 1) as int] == headers_upto(cs, 8, base)[(h + 1) as int]);
            let q = base + below_upto(cs, i);
            lemma_parts_monotone(cs, i + 1, 8);
            lemma_child_words(b, t, p, i);
            assert(b[(pos + 1) as int] == q as u32);
            assert(q <= u32::MAX);
            assert(p < q);
            lemma_decode_node(b, c, q);
            assert(decode_slot(b, node_word(t), p as int, j) == Some(decode_node(b, node_word(c), q as int)));
        }
    }
}

/// An interior node whose descendants' words stand at `p` in the buffer
/// decodes to its shape.
pub proof fn lemma_decode_node(b: Seq<u32>, t: Octree, p: nat)
    requires
        shaped(t, t.size, t.center),
        kinds_ok(t),
        solid(t),
        t.kind == SculptNodeKind::Interior,
        p + weight(t) <= b.len(),
        p + weight(t) <= u32::MAX,
        b.subrange(p as int, (p + weight(t)) as int) == emitted(t, p),
    ensures
        decode_node(b, node_word(t), p as int) == shape_of(t),
    decreases t, 1nat,
{
    let cs = t.children;
    let header = node_word(t);
    lemma_slot_bits(t, 0);
    assert forall|i: int| 0 <= i < 8 implies decode_slot(b, header, p as int, i as u32) == #[trigger] shape_slot(cs[i]) by {
        lemma_decode_slot(b, t, p, i);
    }
    let d = seq![
        decode_slot(b, header, p as int, 0), decode_slot(b, header, p as int, 1),
        decode_slot(b, header, p as int, 2), decode_slot(b, header, p as int, 3),
        decode_slot(b, header, p as int, 4), decode_slot(b, header, p as int, 5),
        decode_slot(b, header, p as int, 6), decode_slot(b, header, p as int, 7),
    ];
    let sh = seq![
        shape_slot(cs[0]), shape_slot(cs[1]), shape_slot(cs[2]), shape_slot(cs[3]),
        shape_slot(cs[4]), shape_slot(cs[5]), shape_slot(cs[6]), shape_slot(cs[7]),
    ];
    assert(d =~= sh);
}

/// Decoding the voxel buffer of a tree gives back its shape: the same
/// kinds, the same present slots and the same material in every leaf. It
/// holds for a root that is interior, or empty and childless with a
/// material below 256, over descendants that are all leaves or interior
/// nodes: a present empty child takes one header word without a leaf bit,
/// which a reader cannot tell from an interior pair.
pub proof fn lemma_decode_round_trip(t: Octree)
    requires
        shaped(t, UNIT, root_center()),
        kinds_ok(t),
        solid(t),
        t.kind == SculptNodeKind::Interior || (t.kind == SculptNodeKind::Empty && !any_child(t.children) && t.material < 256),
    ensures
        decode(voxel_words(t)) == shape_of(t),
{
    let b = voxel_words(t);
    lemma_emitted_len(t, 2);
    if t.kind == SculptNodeKind::Interior {
        lemma_weight_bound(t, UNIT, root_center());
        lemma_root_weight_bound();
        assert(b.subrange(2, (2 + weight(t)) as int) =~= emitted(t, 2));
        lemma_decode_node(b, t, 2);
    } else {
        let m = t.material;
        assert((m >> 8u32) & 0xFFu32 == 0) by (bit_vector)
            requires m < 256;
    }
}

/// Slots of equal shape agree on presence, kind and leaf material.
proof fn lemma_same_shape_slot(x: Option<Octree>, y: Option<Octree>)
    requires
        shape_slot(x) == shape_slot(y),
        solid_slot(x),
        solid_slot(y),
    ensures
        (x is Some) == (y is Some),
        x is Some ==> x->0.kind == y->0.kind,
        x is Some && x->0.kind == SculptNodeKind::Leaf ==> x->0.material == y->0.material,
        x is Some ==> shape_of(x->0) == shape_of(y->0),
{
}

/// Slot sequences that agree slot by slot on every part of the buffer agree
/// on the prefix sums, the header and body words, and the masks.
proof fn lemma_prefix_congruent(ca: Seq<Option<Octree>>, cb: Seq<Option<Octree>>, n: int, base: nat)
    requires
        0 <= n <= 8,
        ca.len() == 8,
        cb.len() == 8,
        forall|j: int| 0 <= j < 8 ==> ((#[trigger] ca[j]) is Some) == (cb[j] is Some),
        forall|j: int| 0 <= j < 8 ==> #[trigger] header_len(ca[j]) == header_len(cb[j]),
        forall|j: int| 0 <= j < 8 && ca[j] is Some ==> #[trigger] weight(ca[j]->0) == weight(cb[j]->0),
        forall|j: int| 0 <= j < 8 && ca[j] is Some ==> ((#[trigger] ca[j]->0.kind == SculptNodeKind::Leaf) == (cb[j]->0.kind == SculptNodeKind::Leaf)),
        forall|j: int, q: nat| 0 <= j < 8 ==> #[trigger] header_words(ca[j], q) == header_words(cb[j], q),
        forall|j: int, q: nat| 0 <= j < 8 ==> #[trigger] body_words(ca[j], q) == body_words(cb[j], q),
    ensures
        header_len_upto(ca, n) == header_len_upto(cb, n),
        below_upto(ca, n) == below_upto(cb, n),
        headers_upto(ca, n, base) == headers_upto(cb, n, base),
        bodies_upto(ca, n, base) == bodies_upto(cb, n, base),
        child_mask_upto(ca, n) == child_mask_upto(cb, n),
        leaf_mask_upto(ca, n) == leaf_mask_upto(cb, n),
    decreases n,
{
    if n > 0 {
        lemma_prefix_congruent(ca, cb, n - 1, base);
        let j = n - 1;
        assert(header_len(ca[j]) == header_len(cb[j]));
        assert(header_words(ca[j], base + below_upto(ca, j)) == header_words(cb[j], base + below_upto(cb, j)));
        assert(body_words(ca[j], base + below_upto(ca, j)) == body_words(cb[j], base + below_upto(cb, j)));
        if ca[j] is Some {
            assert(weight(ca[j]->0) == weight(cb[j]->0));
            assert((ca[j]->0.kind == SculptNodeKind::Leaf) == (cb[j]->0.kind == SculptNodeKind::Leaf));
        }
    }
}

/// Slots of equal shape take the same header and body words.
proof fn lemma_same_shape_slot_words(x: Option<Octree>, y: Option<Octree>, sx: u32, cx: Point, sy: u32, cy: Point)
    requires
        shape_slot(x) == shape_slot(y),
        solid_slot(x),
        solid_slot(y),
        kinds_ok_slot(x),
        kinds_ok_slot(y),
        shaped_slot(x, sx, cx),
        shaped_slot(y, sy, cy),
    ensures
        (x is Some) == (y is Some),
        header_len(x) == header_len(y),
        x is Some ==> weight(x->0) == weight(y->0),
        x is Some ==> ((x->0.kind == SculptNodeKind::Leaf) == (y->0.kind == SculptNodeKind::Leaf)),
        forall|q: nat| #[trigger] header_words(x, q) == header_words(y, q),
        forall|q: nat| #[trigger] body_words(x, q) == body_words(y, q),
    decreases x, 0nat,
{
    lemma_same_shape_slot(x, y);
    if let Some(u) = x {
        let v = y->0;
        lemma_same_shape(u, v);
        assert forall|q: nat| #[trigger] header_words(x, q) == header_words(y, q) by {}
        assert forall|q: nat| #[trigger] body_words(x, q) == body_words(y, q) by {
            assert(body_words(x, q) == emitted(u, q));
            assert(body_words(y, q) == emitted(v, q));
        }
    }
}

/// Trees of equal shape have equal weight, header word and descendant words.
proof fn lemma_same_shape(a: Octree, b: Octree)
    requires
        shape_of(a) == shape_of(b),
        shaped(a, a.size, a.center),
        shaped(b, b.size, b.center),
        kinds_ok(a),
        kinds_ok(b),
        solid(a),
        solid(b),
        a.kind != SculptNodeKind::Empty,
    ensures
        weight(a) == weight(b),
        node_word(a) == node_word(b),
        forall|p: nat| #[trigger] emitted(a, p) == emitted(b, p),
    decreases a, 1nat,
{
    let ca = a.children;
    let cb = b.children;
    if a.kind == SculptNodeKind::Interior {
        assert forall|j: int| 0 <= j < 8 implies shape_slot(#[trigger] ca[j]) == shape_slot(cb[j]) by {
            let sa = seq![
                shape_slot(ca[0]), shape_slot(ca[1]), shape_slot(ca[2]), shape_slot(ca[3]),
                shape_slot(ca[4]), shape_slot(ca[5]), shape_slot(ca[6]), shape_slot(ca[7]),
            ];
            let sb = seq![
                shape_slot(cb[0]), shape_slot(cb[1]), shape_slot(cb[2]), shape_slot(cb[3]),
                shape_slot(cb[4]), shape_slot(cb[5]), shape_slot(cb[6]), shape_slot(cb[7]),
            ];
            assert(sa[j] == sb[j]);
        }
    } else {
        assert forall|j: int| 0 <= j < 8 implies shape_slot(#[trigger] ca[j]) == shape_slot(cb[j]) by {
            assert(ca[j] is None);
            assert(cb[j] is None);
        }
    }
    assert forall|j: int| 0 <= j < 8 implies {
        &&& ((#[trigger] ca[j]) is Some) == (cb[j] is Some)
        &&& header_len(ca[j]) == header_len(cb[j])
        &&& (ca[j] is Some ==> weight(ca[j]->0) == weight(cb[j]->0))
        &&& (ca[j] is Some ==> ((ca[j]->0.kind == SculptNodeKind::Leaf) == (cb[j]->0.kind == SculptNodeKind::Leaf)))
        &&& forall|q: nat| #[trigger] header_words(ca[j], q) == header_words(cb[j], q)
        &&& forall|q: nat| #[trigger] body_words(ca[j], q) == body_words(cb[j], q)
    } by {
        assert(solid_slot(ca[j]));
        assert(solid_slot(cb[j]));
        assert(kinds_ok_slot(ca[j]));
        assert(kinds_ok_slot(cb[j]));
        assert(shaped_slot(ca[j], (a.size / 2) as u32, child_center(a.center, a.size, j)));
        assert(shaped_slot(cb[j], (b.size / 2) as u32, child_center(b.center, b.size, j)));
        lemma_same_shape_slot_words(ca[j], cb[j], (a.size / 2) as u32, child_center(a.center, a.size, j),
            (b.size / 2) as u32, child_center(b.center, b.size, j));
    }
    lemma_weight_split(ca, 8);
    lemma_weight_split(cb, 8);
    lemma_prefix_congruent(ca, cb, 8, 0);
    assert forall|p: nat| #[trigger] emitted(a, p) == emitted(b, p) by {
        let base = p + header_len_upto(ca, 8);
        lemma_prefix_congruent(ca, cb, 8, base);
    }
}

/// Re-serialising a tree with the shape that a voxel buffer decodes to
/// gives that buffer again, for an interior root over leaves and interior
/// nodes only.
pub proof fn lemma_reserialize_round_trip(t: Octree, r: Octree)
    requires
        shaped(t, UNIT, root_center()),
        shaped(r, UNIT, root_center()),
        kinds_ok(t),
        kinds_ok(r),
        solid(t),
        solid(r),
        t.kind == SculptNodeKind::Interior,
        shape_of(r) == decode(voxel_words(t)),
    ensures
        voxel_words(r) == voxel_words(t),
{
    lemma_decode_round_trip(t);
    lemma_same_shape(t, r);
}

} // verus!
