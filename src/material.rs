//! Surface materials and the palette that interns them.
use vstd::prelude::*;

verus! {

/// A material encoding surface attributes, each channel a byte (0 to 255).
#[derive(Clone, Copy, PartialEq, Eq, Debug, Hash, Structural)]
pub struct Material {
    pub red: u8,
    pub green: u8,
    pub blue: u8,
    pub alpha: u8,
    pub roughness: u8,
    pub metallic: u8,
}

/// The default material: light grey, opaque, medium roughness, not metallic.
pub open spec fn default_material() -> Material {
    Material { red: 204, green: 204, blue: 204, alpha: 255, roughness: 128, metallic: 0 }
}

/// The six buffer bytes of a material.
pub open spec fn material_bytes(m: Material) -> Seq<u8> {
    seq![m.red, m.green, m.blue, m.alpha, m.roughness, m.metallic]
}

/// The bytes of the first `n` materials, in order.
pub open spec fn palette_bytes(ms: Seq<Material>, n: int) -> Seq<u8>
    decreases n,
{
    if n <= 0 {
        seq![]
    } else {
        palette_bytes(ms, n - 1) + material_bytes(ms[n - 1])
    }
}

impl Material {
    /// Make a material from its color, roughness and metallic channels.
    pub fn new(red: u8, green: u8, blue: u8, alpha: u8, roughness: u8, metallic: u8) -> (r: Material)
        ensures
            r == (Material { red, green, blue, alpha, roughness, metallic }),
    {
        Material { red, green, blue, alpha, roughness, metallic }
    }

    /// Convert the material to its buffer bytes:
    /// `[red, green, blue, alpha, roughness, metallic]`.
    pub fn to_buffer(&self) -> (r: [u8; 6])
        ensures
            r@ == material_bytes(*self),
    {
        let r = [self.red, self.green, self.blue, self.alpha, self.roughness, self.metallic];
        assert(r@ =~= material_bytes(*self));
        r
    }
}

impl Default for Material {
    /// The default material.
    fn default() -> (r: Self)
        ensures
            r == default_material(),
    {
        Material { red: 204, green: 204, blue: 204, alpha: 255, roughness: 128, metallic: 0 }
    }
}

/// The `SculptPalette` stores the materials used by a sculpt; leaves name
/// them by index, and index 0 is the default material.
pub struct SculptPalette {
    materials: Vec<Material>,
}

impl View for SculptPalette {
    type V = Seq<Material>;

    closed spec fn view(&self) -> Seq<Material> {
        self.materials@
    }
}

impl SculptPalette {
    /// The palette starts with the default material, holds no material
    /// twice, and its indices fit `u32`.
    pub open spec fn wf(&self) -> bool {
        &&& self@.len() >= 1
        &&& self@[0] == default_material()
        &&& self@.len() <= u32::MAX
        &&& forall|i: int, j: int| 0 <= i < j < self@.len() ==> self@[i] != self@[j]
    }

    /// Create a sculpt palette holding the default material.
    pub fn new() -> (r: Self)
        ensures
            r@ == seq![default_material()],
            r.wf(),
    {
        let mut materials: Vec<Material> = Vec::new();
        materials.push(Material::default());
        let r = SculptPalette { materials };
        assert(r@ =~= seq![default_material()]);
        r
    }

    /// Get the material at `index`.
    pub fn get(&self, index: u32) -> (r: Option<Material>)
        ensures
            r == (if index < self@.len() { Some(self@[index as int]) } else { None::<Material> }),
    {
        if (index as usize) < self.materials.len() {
            Some(self.materials[index as usize])
        } else {
            None
        }
    }

    /// The number of materials.
    pub fn len(&self) -> (r: usize)
        ensures
            r == self@.len(),
    {
        self.materials.len()
    }

    /// Converts the palette materials to a buffer for use on the GPU: six
    /// bytes per material, in palette order.
    pub fn to_buffer(&self) -> (r: Vec<u8>)
        ensures
            r@ == palette_bytes(self@, self@.len() as int),
    {
        let mut buffer: Vec<u8> = Vec::new();
        let mut i: usize = 0;
        while i < self.materials.len()
            invariant
                i <= self.materials.len(),
                buffer@ == palette_bytes(self@, i as int),
            decreases self.materials.len() - i,
        {
            let bytes = self.materials[i].to_buffer();
            let mut k: usize = 0;
            let ghost before = buffer@;
            while k < 6
                invariant
                    k <= 6,
                    bytes@ == material_bytes(self@[i as int]),
                    buffer@ == before + bytes@.subrange(0, k as int),
                decreases 6 - k,
            {
                buffer.push(bytes[k]);
                k += 1;
                assert(buffer@ =~= before + bytes@.subrange(0, k as int));
            }
            assert(bytes@.subrange(0, 6) =~= bytes@);
            i += 1;
        }
        buffer
    }

    /// Interns a material: returns the index of an equal material already in
    /// the palette, or appends it at the next index.
    pub fn push(&mut self, value: Material) -> (r: u32)
        requires
            old(self).wf(),
            old(self)@.len() < u32::MAX,
        ensures
            final(self).wf(),
            r < final(self)@.len(),
            final(self)@[r as int] == value,
            old(self)@.contains(value) ==> final(self)@ == old(self)@,
            !old(self)@.contains(value) ==> final(self)@ == old(self)@.push(value),
    {
        let mut i: usize = 0;
        while i < self.materials.len()
            invariant
                i <= self.materials.len(),
                self.materials@ == old(self).materials@,
                self@ == old(self)@,
                old(self).wf(),
                old(self)@.len() < u32::MAX,
                forall|j: int| 0 <= j < i ==> self@[j] != value,
            decreases self.materials.len() - i,
        {
            if self.materials[i] == value {
                return i as u32;
            }
            i += 1;
        }
        let index = self.materials.len() as u32;
        self.materials.push(value);
        assert(!old(self)@.contains(value));
        index
    }
}

} // verus!
