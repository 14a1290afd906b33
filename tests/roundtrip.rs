use sbrush::brush::{RoundBrushTip, SquareBrushTip};
use sbrush::geometry::{Point, UNIT};
use sbrush::node::SculptNode;
use sbrush::octree::SculptNodeKind;
use sbrush::sculpt::Sculpt;

#[derive(Debug, PartialEq)]
enum Shape {
    Leaf(u32),
    Interior(Vec<Option<Shape>>),
    Empty,
}

fn units(v: f64) -> i32 {
    (v * UNIT as f64).round() as i32
}

fn length(v: f64) -> u32 {
    (v * UNIT as f64).round() as u32
}

fn shape_of(n: &SculptNode) -> Shape {
    match n.kind {
        SculptNodeKind::Leaf => Shape::Leaf(n.material),
        SculptNodeKind::Empty => Shape::Empty,
        SculptNodeKind::Interior => Shape::Interior(
            n.children.iter().map(|c| c.as_ref().map(|c| shape_of(c))).collect(),
        ),
    }
}

/// Reads an interior node's children the way the renderer does: the header
/// word gives the child and leaf masks, the pointer word the children's headers.
fn decode_interior(buffer: &[u32], header: u32, pointer: u32) -> Shape {
    let child_mask = (header >> 8) & 0xFF;
    let leaf_mask = header & 0xFF;
    if child_mask == 0 {
        return Shape::Empty;
    }
    let mut position = pointer as usize;
    let mut children = Vec::new();
    for i in 0..8 {
        if child_mask & (1 << i) == 0 {
            children.push(None);
        } else if leaf_mask & (1 << i) != 0 {
            children.push(Some(Shape::Leaf(buffer[position])));
            position += 1;
        } else {
            let h = buffer[position];
            let p = buffer[position + 1];
            position += 2;
            children.push(Some(decode_interior(buffer, h, p)));
        }
    }
    Shape::Interior(children)
}

fn decode(buffer: &[u32]) -> Shape {
    decode_interior(buffer, buffer[0], buffer[1])
}

fn octant(center: Point, size: u32, i: usize) -> Point {
    let q = (size / 4) as i32;
    let pick = |c: i32, bit: usize| if (i >> bit) & 1 == 1 { c + q } else { c - q };
    Point::new(pick(center.x, 0), pick(center.y, 1), pick(center.z, 2))
}

fn build(shape: &Shape, size: u32, center: Point) -> SculptNode {
    match shape {
        Shape::Leaf(m) => SculptNode::new(SculptNodeKind::Leaf, *m, size, center),
        Shape::Empty => SculptNode::new(SculptNodeKind::Empty, 0, size, center),
        Shape::Interior(children) => {
            let mut n = SculptNode::new(SculptNodeKind::Interior, 0, size, center);
            for (i, c) in children.iter().enumerate() {
                n.children[i] = c.as_ref().map(|c| Box::new(build(c, size / 2, octant(center, size, i))));
            }
            n
        }
    }
}

fn edited() -> Vec<Sculpt> {
    let round = RoundBrushTip::new();
    let square = SquareBrushTip::new();
    let mut a = Sculpt::new(16);
    round.add(&mut a, units(0.5), units(0.5), length(0.3));
    let mut b = Sculpt::new(32);
    square.add(&mut b, units(0.3), units(0.7), length(0.12));
    round.add(&mut b, units(0.6), units(0.4), length(0.2));
    let mut c = Sculpt::new(8);
    round.add(&mut c, units(0.5), units(0.5), length(0.45));
    square.remove(&mut c, units(0.5), units(0.5), length(0.1));
    vec![a, b, c]
}

#[test]
fn decoding_the_buffer_rebuilds_the_tree() {
    for sculpt in edited() {
        let buffer = sculpt.get_voxel_buffer();
        assert_eq!(decode(&buffer), shape_of(sculpt.root()));
    }
}

#[test]
fn serialize_decode_serialize_is_identity() {
    for sculpt in edited() {
        let buffer = sculpt.get_voxel_buffer();
        let center = Point::new((UNIT / 2) as i32, (UNIT / 2) as i32, (UNIT / 2) as i32);
        let mut rebuilt = build(&decode(&buffer), UNIT, center);
        rebuilt.set_child_count();
        assert_eq!(rebuilt.to_buffer(), buffer);
    }
}

#[test]
fn every_pointer_stays_inside_the_buffer() {
    fn walk(buffer: &[u32], header: u32, pointer: u32) {
        let child_mask = (header >> 8) & 0xFF;
        let leaf_mask = header & 0xFF;
        if child_mask == 0 {
            return;
        }
        assert!((pointer as usize) < buffer.len());
        let mut position = pointer as usize;
        for i in 0..8 {
            if child_mask & (1 << i) != 0 {
                if leaf_mask & (1 << i) != 0 {
                    position += 1;
                } else {
                    walk(buffer, buffer[position], buffer[position + 1]);
                    position += 2;
                }
            }
        }
        assert!(position <= buffer.len());
    }
    for sculpt in edited() {
        let buffer = sculpt.get_voxel_buffer();
        walk(&buffer, buffer[0], buffer[1]);
    }
}
