use sbrush::brush::{CubePredicate, RoundBrushTip, SquareBrushTip};
use sbrush::geometry::{Point, UNIT};

fn units(v: f64) -> i32 {
    (v * UNIT as f64).round() as i32
}

fn length(v: f64) -> u32 {
    (v * UNIT as f64).round() as u32
}

fn point(x: f64, y: f64, z: f64) -> Point {
    Point::new(units(x), units(y), units(z))
}

#[test]
fn round_brush_filler_contains_small_center_point() {
    let filler = RoundBrushTip::filler(length(0.5), point(0.5, 0.5, 0.5));
    assert!(filler.holds(length(0.25), point(0.5, 0.5, 0.5)))
}

#[test]
fn round_brush_filler_contains_large_center_point() {
    let filler = RoundBrushTip::filler(length(0.5), point(0.5, 0.5, 0.5));
    assert!(filler.holds(length(1.0), point(0.5, 0.5, 0.5)))
}

#[test]
fn round_brush_filler_contains_small_offcenter_point() {
    let filler = RoundBrushTip::filler(length(0.5), point(0.5, 0.5, 0.5));
    assert!(filler.holds(length(0.05), point(0.75, 0.75, 0.75)))
}

#[test]
fn round_brush_filler_contains_large_offcenter_point() {
    let filler = RoundBrushTip::filler(length(0.5), point(0.5, 0.5, 0.5));
    assert!(filler.holds(length(1.0), point(0.75, 0.75, 0.75)))
}

#[test]
fn round_brush_filler_contains_large_far_off_point() {
    let filler = RoundBrushTip::filler(length(0.5), point(0.5, 0.5, 0.5));
    assert!(filler.holds(length(4.0), point(2.0, 2.0, 2.0)))
}

#[test]
fn round_brush_filler_does_not_contains_far_off_point() {
    let filler = RoundBrushTip::filler(length(0.5), point(0.5, 0.5, 0.5));
    assert!(!filler.holds(length(0.25), point(2.0, 2.0, 2.0)))
}

#[test]
fn round_brush_container_contains_small_center_point() {
    let container = RoundBrushTip::container(length(0.5), point(0.5, 0.5, 0.5));
    assert!(container.holds(length(0.25), point(0.5, 0.5, 0.5)))
}

#[test]
fn round_brush_container_does_not_contain_large_center_point() {
    let container = RoundBrushTip::container(length(0.5), point(0.5, 0.5, 0.5));
    assert!(!container.holds(length(1.0), point(0.5, 0.5, 0.5)))
}

#[test]
fn round_brush_container_contains_small_offcenter_point() {
    let container = RoundBrushTip::container(length(0.5), point(0.5, 0.5, 0.5));
    assert!(container.holds(length(0.05), point(0.75, 0.75, 0.75)))
}

#[test]
fn round_brush_container_does_not_contain_large_offcenter_point() {
    let container = RoundBrushTip::container(length(0.5), point(0.5, 0.5, 0.5));
    assert!(!container.holds(length(1.0), point(0.75, 0.75, 0.75)))
}

#[test]
fn round_brush_container_does_not_contain_large_far_off_point() {
    let container = RoundBrushTip::container(length(0.5), point(0.5, 0.5, 0.5));
    assert!(!container.holds(length(4.0), point(2.0, 2.0, 2.0)))
}

#[test]
fn round_brush_container_does_not_contains_far_off_point() {
    let container = RoundBrushTip::container(length(0.5), point(0.5, 0.5, 0.5));
    assert!(!container.holds(length(0.25), point(2.0, 2.0, 2.0)))
}

#[test]
fn round_filler_boundary_touch_counts_as_meeting() {
    // The sphere of radius 0.25 around 0.5 just touches the cube [0.75, 1.0] on x.
    let filler = RoundBrushTip::filler(length(0.25), point(0.5, 0.5, 0.5));
    assert!(filler.holds(length(0.25), point(0.875, 0.5, 0.5)));
    assert!(!filler.holds(length(0.25), point(0.885, 0.5, 0.5)));
}

#[test]
fn round_container_is_strict_on_the_boundary() {
    // A cube whose far corner lies exactly on the sphere is not enclosed.
    let on_sphere = RoundBrushTip::container(length(0.75), point(0.5, 0.5, 0.5));
    // far corner offset (0.5, 0.5, 0.25): squared distance 0.5625 = 0.75^2
    assert!(!on_sphere.holds(length(0.5), point(0.75, 0.75, 0.5)));
}

#[test]
fn square_filler_meets_overlapping_cubes() {
    let filler = SquareBrushTip::filler(length(0.25), point(0.5, 0.5, 0.5));
    assert!(filler.holds(length(0.5), point(0.25, 0.25, 0.25)));
    assert!(filler.holds(length(0.25), point(0.5, 0.5, 0.5)));
    // A brush span equal to the cube span overlaps it.
    assert!(filler.holds(length(0.5), point(0.5, 0.5, 0.5)));
    // Spans that only share a face do not overlap.
    assert!(!filler.holds(length(0.25), point(0.875, 0.5, 0.5)));
    assert!(!filler.holds(length(0.25), point(0.125, 0.125, 0.125)));
}

#[test]
fn square_container_requires_strict_containment() {
    let container = SquareBrushTip::container(length(0.25), point(0.5, 0.5, 0.5));
    assert!(container.holds(length(0.25), point(0.5, 0.5, 0.5)));
    assert!(!container.holds(length(0.5), point(0.5, 0.5, 0.5)));
    assert!(!container.holds(length(0.25), point(0.75, 0.5, 0.5)));
}

#[test]
fn container_implies_filler_on_samples() {
    let filler = RoundBrushTip::filler(length(0.3), point(0.4, 0.6, 0.5));
    let container = RoundBrushTip::container(length(0.3), point(0.4, 0.6, 0.5));
    let sq_filler = SquareBrushTip::filler(length(0.3), point(0.4, 0.6, 0.5));
    let sq_container = SquareBrushTip::container(length(0.3), point(0.4, 0.6, 0.5));
    for i in 0..16 {
        for j in 0..16 {
            let size = length(0.0625);
            let c = point(0.03125 + 0.0625 * i as f64, 0.03125 + 0.0625 * j as f64, 0.53125);
            if container.holds(size, c) {
                assert!(filler.holds(size, c));
            }
            if sq_container.holds(size, c) {
                assert!(sq_filler.holds(size, c));
            }
        }
    }
}
