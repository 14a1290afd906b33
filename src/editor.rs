//! Brushes and the editor that owns the sculpt.
use vstd::prelude::*;
use crate::brush::{RoundBrushTip, SquareBrushTip, RoundFiller, RoundContainer, SquareFiller, SquareContainer};
use crate::buffer::voxel_words;
use crate::geometry::{Point, UNIT};
use crate::material::palette_bytes;
use crate::octree::Octree;
use crate::sculpt::{Sculpt, SculptView, added, removed};

verus! {

/// The brush center for input `(x, y)`: the tip is held at depth one half.
pub open spec fn brush_center(x: i32, y: i32) -> Point {
    Point { x, y, z: (UNIT / 2) as i32 }
}

fn brush_position(x: i32, y: i32) -> (r: Point)
    ensures
        r == brush_center(x, y),
{
    Point::new(x, y, (UNIT / 2) as i32)
}

impl RoundBrushTip {
    /// Sculpt by adding a sphere of radius `size` around `(x, y)`.
    pub fn add(&self, sculpt: &mut Sculpt, x: i32, y: i32, size: u32)
        requires
            old(sculpt).wf(),
        ensures
            final(sculpt).wf(),
            final(sculpt)@ == (SculptView {
                root: added(old(sculpt)@.root, RoundFiller { brush_size: size, brush_position: brush_center(x, y) },
                    RoundContainer { brush_size: size, brush_position: brush_center(x, y) }, old(sculpt)@.resolution),
                ..old(sculpt)@
            }),
    {
        let p = brush_position(x, y);
        sculpt.subdivide(RoundBrushTip::filler(size, p), RoundBrushTip::container(size, p));
    }

    /// Sculpt by removing a sphere of radius `size` around `(x, y)`.
    pub fn remove(&self, sculpt: &mut Sculpt, x: i32, y: i32, size: u32)
        requires
            old(sculpt).wf(),
        ensures
            final(sculpt).wf(),
            final(sculpt)@ == (SculptView {
                root: removed(old(sculpt)@.root, RoundFiller { brush_size: size, brush_position: brush_center(x, y) },
                    RoundContainer { brush_size: size, brush_position: brush_center(x, y) }, old(sculpt)@.resolution),
                ..old(sculpt)@
            }),
    {
        let p = brush_position(x, y);
        sculpt.unsubdivide(RoundBrushTip::filler(size, p), RoundBrushTip::container(size, p));
    }
}

impl SquareBrushTip {
    /// Sculpt by adding a cube of half side `size` around `(x, y)`.
    pub fn add(&self, sculpt: &mut Sculpt, x: i32, y: i32, size: u32)
        requires
            old(sculpt).wf(),
        ensures
            final(sculpt).wf(),
            final(sculpt)@ == (SculptView {
                root: added(old(sculpt)@.root, SquareFiller { brush_size: size, brush_position: brush_center(x, y) },
                    SquareContainer { brush_size: size, brush_position: brush_center(x, y) }, old(sculpt)@.resolution),
                ..old(sculpt)@
            }),
    {
        let p = brush_position(x, y);
        sculpt.subdivide(SquareBrushTip::filler(size, p), SquareBrushTip::container(size, p));
    }

    /// Sculpt by removing a cube of half side `size` around `(x, y)`.
    pub fn remove(&self, sculpt: &mut Sculpt, x: i32, y: i32, size: u32)
        requires
            old(sculpt).wf(),
        ensures
            final(sculpt).wf(),
            final(sculpt)@ == (SculptView {
                root: removed(old(sculpt)@.root, SquareFiller { brush_size: size, brush_position: brush_center(x, y) },
                    SquareContainer { brush_size: size, brush_position: brush_center(x, y) }, old(sculpt)@.resolution),
                ..old(sculpt)@
            }),
    {
        let p = brush_position(x, y);
        sculpt.unsubdivide(SquareBrushTip::filler(size, p), SquareBrushTip::container(size, p));
    }
}

/// The tip of a brush.
#[derive(Clone, Copy, Debug)]
pub enum BrushTip {
    Round(RoundBrushTip),
    Square(SquareBrushTip),
}

/// The tree after an additive stroke of `tip` with size `size` at `(x, y)`.
pub open spec fn stroke_added(tip: BrushTip, root: Octree, x: i32, y: i32, size: u32, resolution: u32) -> Octree {
    match tip {
        BrushTip::Round(_) => added(root, RoundFiller { brush_size: size, brush_position: brush_center(x, y) },
            RoundContainer { brush_size: size, brush_position: brush_center(x, y) }, resolution),
        BrushTip::Square(_) => added(root, SquareFiller { brush_size: size, brush_position: brush_center(x, y) },
            SquareContainer { brush_size: size, brush_position: brush_center(x, y) }, resolution),
    }
}

/// The tree after an erasing stroke of `tip` with size `size` at `(x, y)`.
pub open spec fn stroke_removed(tip: BrushTip, root: Octree, x: i32, y: i32, size: u32, resolution: u32) -> Octree {
    match tip {
        BrushTip::Round(_) => removed(root, RoundFiller { brush_size: size, brush_position: brush_center(x, y) },
            RoundContainer { brush_size: size, brush_position: brush_center(x, y) }, resolution),
        BrushTip::Square(_) => removed(root, SquareFiller { brush_size: size, brush_position: brush_center(x, y) },
            SquareContainer { brush_size: size, brush_position: brush_center(x, y) }, resolution),
    }
}

/// The size a new brush starts with: a tenth of the unit cube.
pub const DEFAULT_BRUSH_SIZE: u32 = 1677722;

/// A brush for sculpting.
pub struct Brush {
    pub name: String,
    pub tip: BrushTip,
    pub size: u32,
}

impl Brush {
    /// Create a new brush with a tip.
    pub fn new(name: String, tip: BrushTip) -> (r: Self)
        ensures
            r.name == name,
            r.tip == tip,
            r.size == DEFAULT_BRUSH_SIZE,
    {
        Brush { name, tip, size: DEFAULT_BRUSH_SIZE }
    }

    /// Sculpt by adding geometry.
    pub fn add(&self, sculpt: &mut Sculpt, x: i32, y: i32)
        requires
            old(sculpt).wf(),
        ensures
            final(sculpt).wf(),
            final(sculpt)@ == (SculptView {
                root: stroke_added(self.tip, old(sculpt)@.root, x, y, self.size, old(sculpt)@.resolution),
                ..old(sculpt)@
            }),
    {
        match self.tip {
            BrushTip::Round(t) => t.add(sculpt, x, y, self.size),
            BrushTip::Square(t) => t.add(sculpt, x, y, self.size),
        }
    }

    /// Sculpt by removing geometry.
    pub fn remove(&self, sculpt: &mut Sculpt, x: i32, y: i32)
        requires
            old(sculpt).wf(),
        ensures
            final(sculpt).wf(),
            final(sculpt)@ == (SculptView {
                root: stroke_removed(self.tip, old(sculpt)@.root, x, y, self.size, old(sculpt)@.resolution),
                ..old(sculpt)@
            }),
    {
        match self.tip {
            BrushTip::Round(t) => t.remove(sculpt, x, y, self.size),
            BrushTip::Square(t) => t.remove(sculpt, x, y, self.size),
        }
    }
}

impl Default for Editor {
    /// A default editor: a sculpt of resolution 512, a round and a square brush.
    fn default() -> (r: Self)
        ensures
            r.is_new(),
    {
        let mut brushes: Vec<Brush> = Vec::new();
        brushes.push(Brush::new(String::from_str("Round Brush"), BrushTip::Round(RoundBrushTip::new())));
        brushes.push(Brush::new(String::from_str("Square Brush"), BrushTip::Square(SquareBrushTip::new())));
        Editor { sculpt: Sculpt::new(EDITOR_RESOLUTION), current_brush: 0, brushes }
    }
}

/// The resolution of the editor's sculpt.
pub const EDITOR_RESOLUTION: u32 = 512;

/// The owner of sculpt-related state: the document and the session's brushes.
pub struct Editor {
    sculpt: Sculpt,
    current_brush: usize,
    brushes: Vec<Brush>,
}

impl Editor {
    /// The editor's sculpt.
    pub closed spec fn sculpt_view(&self) -> SculptView {
        self.sculpt@
    }

    /// The index of the current brush.
    pub closed spec fn current(&self) -> int {
        self.current_brush as int
    }

    /// The tip of brush `i`.
    pub closed spec fn tip_of(&self, i: int) -> BrushTip {
        self.brushes[i].tip
    }

    /// The size of brush `i`.
    pub closed spec fn size_of(&self, i: int) -> u32 {
        self.brushes[i].size
    }

    /// The number of brushes.
    pub closed spec fn brush_count(&self) -> int {
        self.brushes.len() as int
    }

    /// The editor is well formed: its sculpt is, and the current brush exists.
    pub closed spec fn wf(&self) -> bool {
        &&& self.sculpt.wf()
        &&& self.current_brush < self.brushes.len()
    }

    /// The editor is well formed and holds a new sculpt.
    pub open spec fn is_new(&self) -> bool {
        &&& self.wf()
        &&& self.sculpt_view().resolution == EDITOR_RESOLUTION
        &&& self.sculpt_view().root == crate::sculpt::empty_root()
        &&& self.brush_count() == 2
        &&& self.current() == 0
        &&& self.tip_of(0) == BrushTip::Round(RoundBrushTip {})
        &&& self.tip_of(1) == BrushTip::Square(SquareBrushTip {})
    }

    /// Get the density of the sculpt in voxels per axis.
    pub fn get_sculpt_resolution(&self) -> (r: u32)
        ensures
            r == self.sculpt_view().resolution,
    {
        self.sculpt.get_resolution()
    }

    /// Set the brush type; an index past the last brush selects the last one.
    pub fn set_brush(&mut self, brush: usize)
        requires
            old(self).wf(),
        ensures
            final(self).wf(),
            final(self).current() == (if brush < old(self).brush_count() { brush as int } else { old(self).brush_count() - 1 }),
            final(self).sculpt_view() == old(self).sculpt_view(),
            final(self).brush_count() == old(self).brush_count(),
            forall|i: int| 0 <= i < old(self).brush_count() ==> final(self).tip_of(i) == old(self).tip_of(i) && final(self).size_of(i) == old(self).size_of(i),
    {
        if brush < self.brushes.len() {
            self.current_brush = brush;
        } else {
            self.current_brush = self.brushes.len() - 1;
        }
    }

    /// Get the buffer for the sculpted voxels.
    pub fn get_voxel_buffer(&self) -> (r: Vec<u32>)
        requires
            self.wf(),
        ensures
            r@ == voxel_words(self.sculpt_view().root),
    {
        self.sculpt.get_voxel_buffer()
    }

    /// Get the buffer for the used materials.
    pub fn get_material_buffer(&self) -> (r: Vec<u8>)
        ensures
            r@ == palette_bytes(self.sculpt_view().palette, self.sculpt_view().palette.len() as int),
    {
        self.sculpt.get_material_buffer()
    }

    /// Draw additively on the sculpt with the current brush.
    pub fn add(&mut self, x: i32, y: i32)
        requires
            old(self).wf(),
        ensures
            final(self).wf(),
            final(self).sculpt_view() == (SculptView {
                root: stroke_added(old(self).tip_of(old(self).current()), old(self).sculpt_view().root, x, y,
                    old(self).size_of(old(self).current()), old(self).sculpt_view().resolution),
                ..old(self).sculpt_view()
            }),
            final(self).current() == old(self).current(),
    {
        self.brushes[self.current_brush].add(&mut self.sculpt, x, y);
    }

    /// Draw subtractively on the sculpt with the current brush.
    pub fn remove(&mut self, x: i32, y: i32)
        requires
            old(self).wf(),
        ensures
            final(self).wf(),
            final(self).sculpt_view() == (SculptView {
                root: stroke_removed(old(self).tip_of(old(self).current()), old(self).sculpt_view().root, x, y,
                    old(self).size_of(old(self).current()), old(self).sculpt_view().resolution),
                ..old(self).sculpt_view()
            }),
            final(self).current() == old(self).current(),
    {
        self.brushes[self.current_brush].remove(&mut self.sculpt, x, y);
    }
}

} // verus!
