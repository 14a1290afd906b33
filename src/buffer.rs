//! The GPU word buffer: a two-pass packing of the octree with forward
//! child pointers.
use vstd::prelude::*;
use crate::node::SculptNode;
use crate::octree::{
    Octree, SculptNodeKind, any_child, shaped, shaped_slot, weight, weight_upto, slot_weight,
    lemma_weight_bound, lemma_weight_bound_monotone, lemma_root_weight_bound,
};
use crate::geometry::{Point, UNIT, child_center};

verus! {

/// The bit of octant `i` in a child or leaf mask.
pub open spec fn octant_bit(i: int) -> nat
    decreases i,
{
    if i <= 0 {
        1
    } else {
        2 * octant_bit(i - 1)
    }
}

/// Bits of the present slots among the first `n`.
pub open spec fn child_mask_upto(cs: Seq<Option<Octree>>, n: int) -> nat
    decreases n,
{
    if n <= 0 {
        0
    } else {
        child_mask_upto(cs, n - 1) + if cs[n - 1] is Some { octant_bit(n - 1) } else { 0 }
    }
}

/// Bits of the present leaf slots among the first `n`.
pub open spec fn leaf_mask_upto(cs: Seq<Option<Octree>>, n: int) -> nat
    decreases n,
{
    if n <= 0 {
        0
    } else {
        leaf_mask_upto(cs, n - 1) + if cs[n - 1] is Some && cs[n - 1]->0.kind == SculptNodeKind::Leaf {
            octant_bit(n - 1)
        } else {
            0
        }
    }
}

/// The header word of a node: its material when it has no children, else
/// the child mask above the leaf mask.
pub open spec fn node_word(t: Octree) -> u32 {
    if !any_child(t.children) {
        t.material
    } else {
        (child_mask_upto(t.children, 8) * 256 + leaf_mask_upto(t.children, 8)) as u32
    }
}

/// Header words of a slot among its siblings: none when absent, one for a
/// leaf or empty child, two for an interior child (with its children's position `ptr`).
pub open spec fn header_words(o: Option<Octree>, ptr: nat) -> Seq<u32> {
    match o {
        Some(c) => if c.kind == SculptNodeKind::Interior {
            seq![node_word(c), ptr as u32]
        } else {
            seq![node_word(c)]
        },
        None => seq![],
    }
}

/// Number of header words of a slot.
pub open spec fn header_len(o: Option<Octree>) -> nat {
    match o {
        Some(c) => if c.kind == SculptNodeKind::Interior { 2nat } else { 1nat },
        None => 0,
    }
}

/// Header words of the first `n` slots.
pub open spec fn header_len_upto(cs: Seq<Option<Octree>>, n: int) -> nat
    decreases n,
{
    if n <= 0 {
        0
    } else {
        header_len_upto(cs, n - 1) + header_len(cs[n - 1])
    }
}

/// Descendant words of the first `n` slots.
pub open spec fn below_upto(cs: Seq<Option<Octree>>, n: int) -> nat
    decreases n,
{
    if n <= 0 {
        0
    } else {
        below_upto(cs, n - 1) + match cs[n - 1] {
            Some(c) => weight(c),
            None => 0,
        }
    }
}

/// First pass: the header words of the first `n` slots, whose descendants start at `base`.
pub open spec fn headers_upto(cs: Seq<Option<Octree>>, n: int, base: nat) -> Seq<u32>
    decreases n,
{
    if n <= 0 {
        seq![]
    } else {
        headers_upto(cs, n - 1, base) + header_words(cs[n - 1], base + below_upto(cs, n - 1))
    }
}

/// Second pass: the descendants of the first `n` slots, starting at `base`.
pub open spec fn bodies_upto(cs: Seq<Option<Octree>>, n: int, base: nat) -> Seq<u32>
    decreases cs, n,
{
    if n <= 0 || n > cs.len() {
        seq![]
    } else {
        bodies_upto(cs, n - 1, base) + body_words(cs[n - 1], base + below_upto(cs, n - 1))
    }
}

/// The descendants of a slot, whose children's headers start at `p`.
pub open spec fn body_words(o: Option<Octree>, p: nat) -> Seq<u32>
    decreases o,
{
    match o {
        Some(c) => emitted(c, p),
        None => seq![],
    }
}

/// The words of all descendants of `t`, when its children's headers start at index `p`.
pub open spec fn emitted(t: Octree, p: nat) -> Seq<u32>
    decreases t,
{
    let base = p + header_len_upto(t.children, 8);
    headers_upto(t.children, 8, base) + bodies_upto(t.children, 8, base)
}

/// The voxel buffer of a tree: the root's header, the index 2 of its
/// children, then its descendants.
pub open spec fn voxel_words(t: Octree) -> Seq<u32> {
    seq![node_word(t), 2u32] + emitted(t, 2)
}

/// Slot weights split into header words and descendant words.
pub proof fn lemma_weight_split(cs: Seq<Option<Octree>>, n: int)
    requires
        0 <= n <= cs.len(),
    ensures
        weight_upto(cs, n) == header_len_upto(cs, n) + below_upto(cs, n),
    decreases n,
{
    if n > 0 {
        lemma_weight_split(cs, n - 1);
        assert(slot_weight(cs[n - 1]) == header_len(cs[n - 1]) + match cs[n - 1] {
            Some(c) => weight(c),
            None => 0,
        });
    }
}

/// The mask bits of the eight octants.
pub proof fn lemma_octant_bits()
    ensures
        octant_bit(0) == 1,
        forall|i: int| 0 <= i < 8 ==> #[trigger] octant_bit(i + 1) == 2 * octant_bit(i),
        octant_bit(8) == 256,
{
    reveal_with_fuel(octant_bit, 9);
    assert forall|i: int| 0 <= i < 8 implies #[trigger] octant_bit(i + 1) == 2 * octant_bit(i) by {}
}

/// Prefix sums of header and descendant words never decrease.
pub proof fn lemma_parts_monotone(cs: Seq<Option<Octree>>, m: int, n: int)
    requires
        0 <= m <= n,
    ensures
        header_len_upto(cs, m) <= header_len_upto(cs, n),
        below_upto(cs, m) <= below_upto(cs, n),
    decreases n - m,
{
    if m < n {
        lemma_parts_monotone(cs, m, n - 1);
    }
}

/// Mask bits grow with the octant.
pub proof fn lemma_octant_bit_monotone(i: int, j: int)
    requires
        0 <= i <= j,
    ensures
        octant_bit(i) <= octant_bit(j),
    decreases j - i,
{
    if i < j {
        lemma_octant_bit_monotone(i, j - 1);
    }
}

/// The first pass writes as many words as the slots' header lengths.
pub proof fn lemma_headers_len(cs: Seq<Option<Octree>>, n: int, base: nat)
    ensures
        headers_upto(cs, n, base).len() == header_len_upto(cs, n),
    decreases n,
{
    if n > 0 {
        lemma_headers_len(cs, n - 1, base);
    }
}

/// The second pass writes as many words as the slots' descendants weigh.
pub proof fn lemma_bodies_len(cs: Seq<Option<Octree>>, n: int, base: nat, size: u32, center: Point)
    requires
        0 <= n <= cs.len(),
        cs.len() == 8,
        forall|i: int| 0 <= i < 8 ==> shaped_slot(#[trigger] cs[i], (size / 2) as u32, child_center(center, size, i)),
    ensures
        bodies_upto(cs, n, base).len() == below_upto(cs, n),
    decreases cs, n,
{
    if n > 0 {
        lemma_bodies_len(cs, n - 1, base, size, center);
        assert(shaped_slot(cs[n - 1], (size / 2) as u32, child_center(center, size, n - 1)));
        let p = base + below_upto(cs, n - 1);
        assert(bodies_upto(cs, n, base) == bodies_upto(cs, n - 1, base) + body_words(cs[n - 1], p));
        if let Some(c) = cs[n - 1] {
            lemma_emitted_len(c, p);
            assert(body_words(cs[n - 1], p) == emitted(c, p));
        }
    }
}

/// The descendants of a node take exactly its weight in words.
pub proof fn lemma_emitted_len(t: Octree, p: nat)
    requires
        shaped(t, t.size, t.center),
    ensures
        emitted(t, p).len() == weight(t),
    decreases t,
{
    let base = p + header_len_upto(t.children, 8);
    lemma_headers_len(t.children, 8, base);
    lemma_bodies_len(t.children, 8, base, t.size, t.center);
    lemma_weight_split(t.children, 8);
}

impl SculptNode {
    /// Convert a node to its header word for the GPU.
    pub fn to_u32(&self) -> (r: u32)
        requires
            self.children.len() == 8,
        ensures
            r == node_word(self@),
    {
        let ghost cs = self@.children;
        proof {
            lemma_octant_bits();
        }
        let mut child_mask: u32 = 0;
        let mut leaf_mask: u32 = 0;
        let mut child_count: u32 = 0;
        let mut bit: u32 = 1;
        let mut index: usize = 0;
        while index < 8
            invariant
                index <= 8,
                self.children.len() == 8,
                cs == self@.children,
                cs.len() == 8,
                bit == octant_bit(index as int),
                bit <= octant_bit(8),
                octant_bit(8) == 256,
                forall|i: int| 0 <= i < 8 ==> #[trigger] octant_bit(i + 1) == 2 * octant_bit(i),
                child_mask == child_mask_upto(cs, index as int),
                leaf_mask == leaf_mask_upto(cs, index as int),
                child_mask < bit,
                leaf_mask < bit,
                child_count <= index,
                (child_count == 0) == !(exists|j: int| 0 <= j < index && (#[trigger] cs[j]) is Some),
            decreases 8 - index,
        {
            assert(cs[index as int] == Self::slot_model(self.children[index as int]));
            match &self.children[index] {
                Some(child) => {
                    if child.kind == SculptNodeKind::Leaf {
                        leaf_mask += bit;
                    }
                    child_mask += bit;
                    child_count += 1;
                },
                None => {},
            }
            proof {
                assert(octant_bit(index as int + 1) == 2 * octant_bit(index as int));
                if index < 7 {
                    lemma_octant_bit_monotone(index as int + 1, 8);
                }
            }
            bit = bit * 2;
            index += 1;
        }
        assert(!(exists|j: int| 0 <= j < 8 && (#[trigger] cs[j]) is Some) == !any_child(cs));
        if child_count == 0 {
            self.material
        } else {
            assert((child_mask << 8u32) | leaf_mask == child_mask * 256 + leaf_mask) by (bit_vector)
                requires child_mask < 256, leaf_mask < 256;
            (child_mask << 8) | leaf_mask
        }
    }

    /// Handle the actual, recursive logic for generating the buffer: the
    /// headers of all present children, then each child's descendants.
    /// `pointer` is the index at which the children's headers start.
    #[verifier::rlimit(50)]
    pub fn append_to_buffer(&self, buffer: &mut Vec<u32>, pointer: u32)
        requires
            shaped(self@, self.size, self.center),
            self.counted(),
            pointer + weight(self@) <= u32::MAX,
        ensures
            final(buffer)@ == old(buffer)@ + emitted(self@, pointer as nat),
        decreases self@,
    {
        let ghost t = self@;
        let ghost cs = t.children;
        proof {
            lemma_weight_split(cs, 8);
        }
        let mut ptr: u32 = pointer;
        let mut index: usize = 0;
        while index < 8
            invariant
                index <= 8,
                self.children.len() == 8,
                t == self@,
                cs == t.children,
                cs.len() == 8,
                pointer + header_len_upto(cs, 8) + below_upto(cs, 8) <= u32::MAX,
                ptr == pointer + header_len_upto(cs, index as int),
            decreases 8 - index,
        {
            proof {
                lemma_parts_monotone(cs, index as int + 1, 8);
                assert(cs[index as int] == Self::slot_model(self.children[index as int]));
            }
            match &self.children[index] {
                Some(child) => {
                    if child.kind == SculptNodeKind::Interior {
                        ptr += 2;
                    } else {
                        ptr += 1;
                    }
                },
                None => {},
            }
            index += 1;
        }
        let base: u32 = ptr;
        let ghost b = base as nat;
        let mut first_child_pointer: u32 = base;
        let mut index: usize = 0;
        while index < 8
            invariant
                index <= 8,
                self.children.len() == 8,
                t == self@,
                cs == t.children,
                cs.len() == 8,
                shaped(t, t.size, t.center),
                self.counted(),
                base == pointer + header_len_upto(cs, 8),
                b == base as nat,
                base + below_upto(cs, 8) <= u32::MAX,
                first_child_pointer == base + below_upto(cs, index as int),
                buffer@ == old(buffer)@ + headers_upto(cs, index as int, b),
            decreases 8 - index,
        {
            proof {
                lemma_parts_monotone(cs, index as int + 1, 8);
                assert(cs[index as int] == Self::slot_model(self.children[index as int]));
                assert(shaped_slot(cs[index as int], (t.size / 2) as u32, child_center(t.center, t.size, index as int)));
                assert(Self::counted_slot(self.children[index as int]));
            }
            let ghost before = buffer@;
            match &self.children[index] {
                Some(child) => {
                    let ghost c = child@;
                    assert(cs[index as int] == Some(c));
                    let word = child.to_u32();
                    buffer.push(word);
                    if child.kind == SculptNodeKind::Interior {
                        buffer.push(first_child_pointer);
                        assert(buffer@ =~= before + seq![node_word(c), first_child_pointer]);
                    } else {
                        assert(buffer@ =~= before + seq![node_word(c)]);
                    }
                    assert(buffer@ =~= before + header_words(Some(c), b + below_upto(cs, index as int)));
                    first_child_pointer += child.child_count;
                },
                None => {
                    assert(buffer@ =~= before + header_words(cs[index as int], b + below_upto(cs, index as int)));
                },
            }
            index += 1;
        }
        let mut second_child_pointer: u32 = base;
        let mut index: usize = 0;
        while index < 8
            invariant
                index <= 8,
                self.children.len() == 8,
                t == self@,
                cs == t.children,
                cs.len() == 8,
                shaped(t, t.size, t.center),
                self.counted(),
                base == pointer + header_len_upto(cs, 8),
                b == base as nat,
                base + below_upto(cs, 8) <= u32::MAX,
                second_child_pointer == base + below_upto(cs, index as int),
                buffer@ == old(buffer)@ + headers_upto(cs, 8, b) + bodies_upto(cs, index as int, b),
            decreases 8 - index,
        {
            proof {
                lemma_parts_monotone(cs, index as int + 1, 8);
                assert(cs[index as int] == Self::slot_model(self.children[index as int]));
                assert(shaped_slot(cs[index as int], (t.size / 2) as u32, child_center(t.center, t.size, index as int)));
                assert(Self::counted_slot(self.children[index as int]));
            }
            let ghost before = buffer@;
            match &self.children[index] {
                Some(child) => {
                    let ghost c = child@;
                    assert(cs[index as int] == Some(c));
                    child.append_to_buffer(buffer, second_child_pointer);
                    assert(buffer@ =~= before + body_words(Some(c), b + below_upto(cs, index as int)));
                    second_child_pointer += child.child_count;
                },
                None => {
                    assert(buffer@ =~= before + body_words(cs[index as int], b + below_upto(cs, index as int)));
                },
            }
            assert(bodies_upto(cs, index as int + 1, b) == bodies_upto(cs, index as int, b) + body_words(cs[index as int], b + below_upto(cs, index as int)));
            assert(buffer@ =~= old(buffer)@ + headers_upto(cs, 8, b) + bodies_upto(cs, index as int + 1, b));
            index += 1;
        }
        assert(emitted(t, pointer as nat) == headers_upto(cs, 8, b) + bodies_upto(cs, 8, b));
        assert(buffer@ =~= old(buffer)@ + emitted(t, pointer as nat));
    }

    /// Convert the node and its children to the buffer format for the GPU.
    pub fn to_buffer(&self) -> (r: Vec<u32>)
        requires
            shaped(self@, self.size, self.center),
            self.counted(),
        ensures
            r@ == voxel_words(self@),
            r@.len() == 2 + self.child_count,
    {
        proof {
            lemma_emitted_len(self@, 2);
            lemma_weight_bound(self@, self.size, self.center);
            lemma_weight_bound_monotone(self.size, UNIT);
            lemma_root_weight_bound();
        }
        let mut buffer: Vec<u32> = Vec::new();
        buffer.push(self.to_u32());
        buffer.push(2);
        self.append_to_buffer(&mut buffer, 2);
        assert(buffer@ =~= voxel_words(self@));
        buffer
    }
}

} // verus!
