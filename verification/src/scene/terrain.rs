use vstd::prelude::*;

verus! {

/// Stands for a texture resource: two layers refer to the same texture
/// exactly when they hold the same id.
pub type TextureId = u64;

/// One material layer of a terrain chunk. The tile factor is held as the bit
/// patterns of its two components.
#[derive(Clone, Copy, Debug, PartialEq, Eq, Structural)]
pub struct Layer {
    pub diffuse_texture: Option<TextureId>,
    pub normal_texture: Option<TextureId>,
    pub specular_texture: Option<TextureId>,
    pub roughness_texture: Option<TextureId>,
    pub height_texture: Option<TextureId>,
    pub mask: Option<TextureId>,
    pub tile_factor_x_bits: u32,
    pub tile_factor_y_bits: u32,
}

/// A chunk of a terrain, seen as the ordered list of its layers.
pub struct Chunk {
    pub layers: Vec<Layer>,
}

impl View for Chunk {
    type V = Seq<Layer>;

    open spec fn view(&self) -> Seq<Layer> {
        self.layers@
    }
}

impl Chunk {
    pub fn new(layers: Vec<Layer>) -> (c: Chunk)
        ensures
            c@ == layers@,
    {
        Chunk { layers }
    }

    /// Appends a layer on top of the others.
    pub fn add_layer(&mut self, layer: Layer)
        ensures
            final(self)@ == old(self)@.push(layer),
    {
        self.layers.push(layer);
    }

    /// Removes the layer at `index` and gives it back; the layers above it move down.
    pub fn remove_layer(&mut self, index: usize) -> (layer: Layer)
        requires
            index < old(self)@.len(),
        ensures
            layer == old(self)@[index as int],
            final(self)@ == old(self)@.remove(index as int),
    {
        self.layers.remove(index)
    }

    /// Removes the top layer and gives it back; `None` when there is no layer.
    pub fn pop_layer(&mut self) -> (layer: Option<Layer>)
        ensures
            old(self)@.len() == 0 ==> layer is None && final(self)@ == old(self)@,
            old(self)@.len() > 0 ==> layer == Some(old(self)@.last()) && final(self)@
                == old(self)@.drop_last(),
    {
        self.layers.pop()
    }

    /// Inserts a layer at `index`; the layers from `index` up move one place up.
    pub fn insert_layer(&mut self, layer: Layer, index: usize)
        requires
            index <= old(self)@.len(),
        ensures
            final(self)@ == old(self)@.insert(index as int, layer),
    {
        self.layers.insert(index, layer);
    }
}

/// A terrain, seen as the ordered list of its chunks.
pub struct Terrain {
    pub chunks: Vec<Chunk>,
}

impl View for Terrain {
    type V = Seq<Seq<Layer>>;

    open spec fn view(&self) -> Seq<Seq<Layer>> {
        self.chunks@.map_values(|c: Chunk| c@)
    }
}

impl Terrain {
    pub fn new(chunks: Vec<Chunk>) -> (t: Terrain)
        ensures
            t.chunks@ == chunks@,
    {
        Terrain { chunks }
    }
}

} // verus!
