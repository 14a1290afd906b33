use sbrush::brush::{RoundBrushTip, SquareBrushTip};
use sbrush::geometry::{Point, UNIT};
use sbrush::node::SculptNode;
use sbrush::octree::SculptNodeKind;
use sbrush::sculpt::Sculpt;

fn units(v: f64) -> i32 {
    (v * UNIT as f64).round() as i32
}

fn length(v: f64) -> u32 {
    (v * UNIT as f64).round() as u32
}

fn point(x: f64, y: f64, z: f64) -> Point {
    Point::new(units(x), units(y), units(z))
}

fn node(kind: SculptNodeKind, material: u32, size: f64, x: f64, y: f64, z: f64) -> SculptNode {
    SculptNode::new(kind, material, length(size), point(x, y, z))
}

fn leaf(material: u32, size: f64, x: f64, y: f64, z: f64) -> Option<Box<SculptNode>> {
    Some(Box::new(node(SculptNodeKind::Leaf, material, size, x, y, z)))
}

fn present(n: &SculptNode) -> usize {
    n.children.iter().filter(|child| child.is_some()).count()
}

#[test]
fn subdivide_creates_all_root_children_with_sphere_brush_at_center() {
    let mut sculpt = Sculpt::new(32);

    sculpt.subdivide(
        RoundBrushTip::filler(length(0.5), point(0.5, 0.5, 0.5)),
        RoundBrushTip::container(length(0.5), point(0.5, 0.5, 0.5)),
    );

    assert_eq!(present(sculpt.root()), 8);
}

#[test]
fn simple_sculpt_node_generates_correct_buffer() {
    let mut sculpt_node = node(SculptNodeKind::Interior, 1, 1.0, 0.5, 0.5, 0.5);
    sculpt_node.children = vec![
        leaf(1, 0.5, 0.25, 0.25, 0.25),
        leaf(1, 0.5, 0.75, 0.25, 0.25),
        leaf(1, 0.5, 0.25, 0.75, 0.25),
        leaf(1, 0.5, 0.75, 0.75, 0.25),
        leaf(1, 0.5, 0.25, 0.25, 0.75),
        leaf(1, 0.5, 0.75, 0.25, 0.75),
        leaf(1, 0.5, 0.25, 0.75, 0.75),
        leaf(1, 0.5, 0.75, 0.75, 0.75),
    ];
    sculpt_node.set_child_count();

    let expected = vec![(0b11111111 << 8) + (0b11111111), 2, 1, 1, 1, 1, 1, 1, 1, 1];

    assert_eq!(sculpt_node.to_buffer(), expected);
}

#[test]
fn sculpt_nodes_with_different_materials_generate_correct_buffer() {
    let mut sculpt_node = node(SculptNodeKind::Interior, 1, 1.0, 0.5, 0.5, 0.5);
    sculpt_node.children = vec![
        leaf(2, 0.5, 0.25, 0.25, 0.25),
        leaf(3, 0.5, 0.75, 0.25, 0.25),
        leaf(4, 0.5, 0.25, 0.75, 0.25),
        leaf(5, 0.5, 0.75, 0.75, 0.25),
        leaf(6, 0.5, 0.25, 0.25, 0.75),
        leaf(7, 0.5, 0.75, 0.25, 0.75),
        leaf(8, 0.5, 0.25, 0.75, 0.75),
        leaf(9, 0.5, 0.75, 0.75, 0.75),
    ];
    sculpt_node.set_child_count();

    let expected = vec![(0b11111111 << 8) + (0b11111111), 2, 2, 3, 4, 5, 6, 7, 8, 9];

    assert_eq!(sculpt_node.to_buffer(), expected);
}

#[test]
fn simple_sculpt_node_missing_children_generates_correct_buffer() {
    let mut sculpt_node = node(SculptNodeKind::Interior, 1, 1.0, 0.5, 0.5, 0.5);
    sculpt_node.children = vec![
        leaf(1, 0.5, 0.25, 0.25, 0.25),
        None,
        leaf(1, 0.5, 0.25, 0.75, 0.25),
        None,
        leaf(1, 0.5, 0.25, 0.25, 0.75),
        None,
        None,
        leaf(1, 0.5, 0.75, 0.75, 0.75),
    ];
    sculpt_node.set_child_count();

    let expected = vec![(0b10010101 << 8) + (0b10010101), 2, 1, 1, 1, 1];

    assert_eq!(sculpt_node.to_buffer(), expected);
}

#[test]
fn simple_nested_sculpt_node_generates_correct_buffer() {
    let mut sculpt_node = node(SculptNodeKind::Interior, 1, 1.0, 0.5, 0.5, 0.5);

    let mut sculpt_node_child_lfb = node(SculptNodeKind::Interior, 1, 0.5, 0.25, 0.25, 0.25);
    sculpt_node_child_lfb.children = vec![
        leaf(1, 0.25, 0.125, 0.125, 0.125),
        leaf(1, 0.25, 0.375, 0.125, 0.125),
        leaf(1, 0.25, 0.125, 0.375, 0.125),
        leaf(1, 0.25, 0.375, 0.375, 0.125),
        leaf(1, 0.25, 0.125, 0.125, 0.375),
        leaf(1, 0.25, 0.375, 0.125, 0.375),
        leaf(1, 0.25, 0.125, 0.375, 0.375),
        leaf(1, 0.25, 0.375, 0.375, 0.375),
    ];

    sculpt_node.children = vec![
        Some(Box::new(sculpt_node_child_lfb)),
        leaf(1, 0.5, 0.75, 0.25, 0.25),
        leaf(1, 0.5, 0.25, 0.75, 0.25),
        leaf(1, 0.5, 0.75, 0.75, 0.25),
        leaf(1, 0.5, 0.25, 0.25, 0.75),
        leaf(1, 0.5, 0.75, 0.25, 0.75),
        leaf(1, 0.5, 0.25, 0.75, 0.75),
        leaf(1, 0.5, 0.75, 0.75, 0.75),
    ];
    sculpt_node.set_child_count();

    let expected = vec![
        (0b11111111 << 8) + (0b11111110),
        2,
        (0b11111111 << 8) + (0b11111111),
        11,
        1,
        1,
        1,
        1,
        1,
        1,
        1,
        1,
        1,
        1,
        1,
        1,
        1,
        1,
        1,
    ];

    assert_eq!(sculpt_node.to_buffer(), expected);
}

#[test]
fn two_nested_children_point_past_each_other() {
    let mut root = node(SculptNodeKind::Interior, 1, 1.0, 0.5, 0.5, 0.5);
    let mut first = node(SculptNodeKind::Interior, 1, 0.5, 0.25, 0.25, 0.25);
    first.children = vec![
        leaf(1, 0.25, 0.125, 0.125, 0.125),
        leaf(1, 0.25, 0.375, 0.125, 0.125),
        leaf(1, 0.25, 0.125, 0.375, 0.125),
        leaf(1, 0.25, 0.375, 0.375, 0.125),
        leaf(1, 0.25, 0.125, 0.125, 0.375),
        leaf(1, 0.25, 0.375, 0.125, 0.375),
        leaf(1, 0.25, 0.125, 0.375, 0.375),
        leaf(1, 0.25, 0.375, 0.375, 0.375),
    ];
    let mut second = node(SculptNodeKind::Interior, 1, 0.5, 0.75, 0.25, 0.25);
    second.children = vec![
        leaf(1, 0.25, 0.625, 0.125, 0.125),
        leaf(1, 0.25, 0.875, 0.125, 0.125),
        leaf(1, 0.25, 0.625, 0.375, 0.125),
        leaf(1, 0.25, 0.875, 0.375, 0.125),
        leaf(1, 0.25, 0.625, 0.125, 0.375),
        leaf(1, 0.25, 0.875, 0.125, 0.375),
        leaf(1, 0.25, 0.625, 0.375, 0.375),
        leaf(1, 0.25, 0.875, 0.375, 0.375),
    ];
    root.children = vec![
        Some(Box::new(first)),
        Some(Box::new(second)),
        leaf(1, 0.5, 0.25, 0.75, 0.25),
        leaf(1, 0.5, 0.75, 0.75, 0.25),
        leaf(1, 0.5, 0.25, 0.25, 0.75),
        leaf(1, 0.5, 0.75, 0.25, 0.75),
        leaf(1, 0.5, 0.25, 0.75, 0.75),
        leaf(1, 0.5, 0.75, 0.75, 0.75),
    ];
    root.set_child_count();
    assert_eq!(root.child_count, 2 + 2 + 6 + 16);

    let mut expected = vec![(0b11111111 << 8) + (0b11111100), 2, 0xFFFF, 12, 0xFFFF, 20, 1, 1, 1, 1, 1, 1];
    expected.extend(vec![1; 16]);
    assert_eq!(root.to_buffer(), expected);
}

#[test]
fn child_counts_follow_the_weight_rule() {
    let mut root = node(SculptNodeKind::Interior, 0, 1.0, 0.5, 0.5, 0.5);
    let mut inner = node(SculptNodeKind::Interior, 0, 0.5, 0.25, 0.25, 0.25);
    inner.children = vec![leaf(0, 0.25, 0.125, 0.125, 0.125), None, None, None, None, None, None, None];
    root.children = vec![Some(Box::new(inner)), None, leaf(0, 0.5, 0.25, 0.75, 0.25), None, None, None, None, None];
    root.set_child_count();
    // inner: one leaf (1); root: interior inner (2 + 1) and a leaf (1).
    assert_eq!(root.child_count, 4);
    assert_eq!(root.children[0].as_ref().unwrap().child_count, 1);
    assert_eq!(root.children[2].as_ref().unwrap().child_count, 0);
}

#[test]
fn to_u32_of_a_childless_node_is_its_material() {
    let n = node(SculptNodeKind::Leaf, 7, 0.5, 0.25, 0.25, 0.25);
    assert_eq!(n.to_u32(), 7);
    let mut p = node(SculptNodeKind::Interior, 7, 1.0, 0.5, 0.5, 0.5);
    p.children[3] = Some(Box::new(node(SculptNodeKind::Empty, 0, 0.5, 0.75, 0.75, 0.25)));
    p.children[5] = leaf(0, 0.5, 0.75, 0.25, 0.75);
    assert_eq!(p.to_u32(), (0b00101000 << 8) | 0b00100000);
}

#[test]
fn new_sculpt_is_an_empty_root() {
    let sculpt = Sculpt::new(32);
    assert_eq!(sculpt.get_resolution(), 32);
    assert_eq!(sculpt.root().kind, SculptNodeKind::Empty);
    assert_eq!(present(sculpt.root()), 0);
    assert_eq!(sculpt.get_voxel_buffer(), vec![0, 2]);
    assert_eq!(sculpt.get_material_buffer(), vec![204, 204, 204, 255, 128, 0]);
}

#[test]
fn centered_sphere_fills_every_octant_of_an_interior_root() {
    let mut sculpt = Sculpt::new(32);
    sculpt.subdivide(
        RoundBrushTip::filler(length(0.5), point(0.5, 0.5, 0.5)),
        RoundBrushTip::container(length(0.5), point(0.5, 0.5, 0.5)),
    );
    assert_eq!(sculpt.root().kind, SculptNodeKind::Interior);
    assert_eq!(present(sculpt.root()), 8);
    let buffer = sculpt.get_voxel_buffer();
    // No octant of the root lies inside the sphere, so each is refined further.
    assert_eq!(buffer[0], 0xFF00);
    assert_eq!(buffer[1], 2);
    assert_eq!(buffer.len() as u32, 2 + sculpt.root().child_count);
}

#[test]
fn add_then_remove_same_sphere_empties_the_root() {
    let mut sculpt = Sculpt::new(32);
    let tip = RoundBrushTip::new();
    tip.add(&mut sculpt, units(0.5), units(0.5), length(0.5));
    tip.remove(&mut sculpt, units(0.5), units(0.5), length(0.5));
    assert_eq!(sculpt.root().kind, SculptNodeKind::Empty);
    assert_eq!(present(sculpt.root()), 0);
    assert_eq!(sculpt.get_voxel_buffer(), vec![0, 2]);
}

#[test]
fn subdivide_twice_equals_subdivide_once() {
    let mut once = Sculpt::new(16);
    let mut twice = Sculpt::new(16);
    let tip = RoundBrushTip::new();
    tip.add(&mut once, units(0.3), units(0.6), length(0.2));
    tip.add(&mut twice, units(0.3), units(0.6), length(0.2));
    tip.add(&mut twice, units(0.3), units(0.6), length(0.2));
    assert_eq!(once.get_voxel_buffer(), twice.get_voxel_buffer());
}

#[test]
fn small_brush_reaches_the_resolution_limit() {
    let mut sculpt = Sculpt::new(4);
    let tip = SquareBrushTip::new();
    // The box spans z in [0.49, 0.51], so it meets a low and a high octant.
    tip.add(&mut sculpt, units(0.1), units(0.1), length(0.01));
    let root = sculpt.root();
    assert_eq!(root.kind, SculptNodeKind::Interior);
    assert_eq!(present(root), 2);
    let low = root.children[0].as_ref().unwrap();
    assert_eq!(low.size, UNIT / 2);
    assert_eq!(low.kind, SculptNodeKind::Interior);
    let voxel = low.children[4].as_ref().unwrap();
    assert_eq!(voxel.kind, SculptNodeKind::Leaf);
    assert_eq!(voxel.size, UNIT / 4);
    assert_eq!(
        sculpt.get_voxel_buffer(),
        vec![0x1100, 2, 0x1010, 6, 0x0101, 7, 0, 0]
    );
}

#[test]
fn removing_from_a_solid_region_erases_the_touched_leaf() {
    let mut sculpt = Sculpt::new(8);
    let square = SquareBrushTip::new();
    // A box larger than the unit cube turns the root into one solid leaf.
    square.add(&mut sculpt, units(0.5), units(0.5), length(1.0));
    assert_eq!(sculpt.root().kind, SculptNodeKind::Leaf);
    assert_eq!(sculpt.get_voxel_buffer(), vec![0, 2]);
    // Erasing a small sphere inside it runs the inverted pass on the leaf.
    let round = RoundBrushTip::new();
    round.remove(&mut sculpt, units(0.5), units(0.5), length(0.1));
    assert_eq!(sculpt.root().kind, SculptNodeKind::Empty);
    assert_eq!(present(sculpt.root()), 0);
}

#[test]
fn removing_far_from_the_sculpt_changes_nothing() {
    let mut sculpt = Sculpt::new(16);
    let tip = RoundBrushTip::new();
    tip.add(&mut sculpt, units(0.25), units(0.25), length(0.2));
    let before = sculpt.get_voxel_buffer();
    tip.remove(&mut sculpt, units(3.0), units(3.0), length(0.2));
    assert_eq!(sculpt.get_voxel_buffer(), before);
}

#[test]
fn interior_nodes_have_children_and_leaves_none_after_edits() {
    fn check(n: &SculptNode) {
        let k = present(n);
        match n.kind {
            SculptNodeKind::Interior => assert!(k >= 1),
            SculptNodeKind::Leaf => assert_eq!(k, 0),
            SculptNodeKind::Empty => {}
        }
        for c in n.children.iter().flatten() {
            check(c);
        }
    }
    let mut sculpt = Sculpt::new(16);
    let round = RoundBrushTip::new();
    let square = SquareBrushTip::new();
    round.add(&mut sculpt, units(0.4), units(0.5), length(0.3));
    square.remove(&mut sculpt, units(0.5), units(0.5), length(0.1));
    square.add(&mut sculpt, units(0.7), units(0.3), length(0.15));
    round.remove(&mut sculpt, units(0.3), units(0.4), length(0.05));
    check(sculpt.root());
}
