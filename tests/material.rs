use sbrush::editor::{Brush, BrushTip, Editor};
use sbrush::brush::RoundBrushTip;
use sbrush::geometry::UNIT;
use sbrush::material::{Material, SculptPalette};
use sbrush::sculpt::Sculpt;

#[test]
fn default_material_buffer() {
    let m = Material::default();
    assert_eq!(m.to_buffer(), [204, 204, 204, 255, 128, 0]);
}

#[test]
fn palette_starts_with_the_default_material() {
    let palette = SculptPalette::new();
    assert_eq!(palette.len(), 1);
    assert_eq!(palette.get(0), Some(Material::default()));
    assert_eq!(palette.get(1), None);
    assert_eq!(palette.to_buffer(), vec![204, 204, 204, 255, 128, 0]);
}

#[test]
fn palette_interns_equal_materials() {
    let mut palette = SculptPalette::new();
    let red = Material::new(255, 0, 0, 255, 10, 20);
    assert_eq!(palette.push(red), 1);
    assert_eq!(palette.push(red), 1);
    assert_eq!(palette.push(Material::default()), 0);
    assert_eq!(palette.len(), 2);
    assert_eq!(palette.to_buffer(), vec![204, 204, 204, 255, 128, 0, 255, 0, 0, 255, 10, 20]);
}

#[test]
fn editor_starts_with_resolution_512() {
    let editor = Editor::default();
    assert_eq!(editor.get_sculpt_resolution(), 512);
    assert_eq!(editor.get_voxel_buffer(), vec![0, 2]);
    assert_eq!(editor.get_material_buffer(), vec![204, 204, 204, 255, 128, 0]);
}

#[test]
fn editor_brush_selection_is_clamped() {
    let mut a = Editor::default();
    let mut b = Editor::default();
    a.set_brush(7);
    b.set_brush(1);
    a.add(UNIT as i32 / 2, UNIT as i32 / 2);
    b.add(UNIT as i32 / 2, UNIT as i32 / 2);
    assert_eq!(a.get_voxel_buffer(), b.get_voxel_buffer());
    assert!(a.get_voxel_buffer().len() > 2);
    a.remove(UNIT as i32 / 2, UNIT as i32 / 2);
    assert!(a.get_voxel_buffer().len() < b.get_voxel_buffer().len());
}

#[test]
fn brush_add_matches_its_tip() {
    let brush = Brush::new(String::from("Round Brush"), BrushTip::Round(RoundBrushTip::new()));
    let mut a = Sculpt::new(16);
    let mut b = Sculpt::new(16);
    brush.add(&mut a, UNIT as i32 / 3, UNIT as i32 / 2);
    RoundBrushTip::new().add(&mut b, UNIT as i32 / 3, UNIT as i32 / 2, brush.size);
    assert_eq!(a.get_voxel_buffer(), b.get_voxel_buffer());
    assert_eq!(brush.name, "Round Brush");
}
