use vstd::prelude::*;

use crate::handle::NodeHandle;
use crate::scene::terrain::{Layer, Terrain, TextureId};

verus! {

// ---------------------------------------------------------------------------
// What the commands do to the layers of a terrain, chunk by chunk.
// ---------------------------------------------------------------------------

/// Every chunk has at least one layer.
pub open spec fn all_nonempty(chunks: Seq<Seq<Layer>>) -> bool {
    forall|i: int| 0 <= i < chunks.len() ==> #[trigger] chunks[i].len() > 0
}

/// Every chunk has a layer at `index`.
pub open spec fn all_have_layer(chunks: Seq<Seq<Layer>>, index: int) -> bool {
    &&& 0 <= index
    &&& forall|i: int| 0 <= i < chunks.len() ==> index < #[trigger] chunks[i].len()
}

/// Chunk `i` gets `layers[i]` on top, for every `i` that both sequences reach.
pub open spec fn push_layers(chunks: Seq<Seq<Layer>>, layers: Seq<Layer>) -> Seq<Seq<Layer>> {
    Seq::new(
        chunks.len(),
        |i: int|
            if i < layers.len() {
                chunks[i].push(layers[i])
            } else {
                chunks[i]
            },
    )
}

/// The top layer of every chunk.
pub open spec fn top_layers(chunks: Seq<Seq<Layer>>) -> Seq<Layer> {
    chunks.map_values(|c: Seq<Layer>| c.last())
}

/// Every chunk without its top layer.
pub open spec fn pop_layers(chunks: Seq<Seq<Layer>>) -> Seq<Seq<Layer>> {
    chunks.map_values(|c: Seq<Layer>| c.drop_last())
}

/// The layer at `index` of every chunk.
pub open spec fn layers_at(chunks: Seq<Seq<Layer>>, index: int) -> Seq<Layer> {
    chunks.map_values(|c: Seq<Layer>| c[index])
}

/// Every chunk without its layer at `index`.
pub open spec fn remove_layers_at(chunks: Seq<Seq<Layer>>, index: int) -> Seq<Seq<Layer>> {
    chunks.map_values(|c: Seq<Layer>| c.remove(index))
}

/// Chunk `i` gets `layers[i]` inserted at `index`, for every `i` that both sequences reach.
pub open spec fn insert_layers_at(chunks: Seq<Seq<Layer>>, layers: Seq<Layer>, index: int) -> Seq<
    Seq<Layer>,
> {
    Seq::new(
        chunks.len(),
        |i: int|
            if i < layers.len() {
                chunks[i].insert(index, layers[i])
            } else {
                chunks[i]
            },
    )
}

/// `insert_layers_at` can insert at `index` in every chunk that it reaches.
pub open spec fn can_insert_at(chunks: Seq<Seq<Layer>>, layers: Seq<Layer>, index: int) -> bool {
    &&& 0 <= index
    &&& forall|i: int|
        0 <= i < chunks.len() && i < layers.len() ==> index <= #[trigger] chunks[i].len()
}

/// The texture in the slot `kind` of `layer`.
pub open spec fn layer_texture(layer: Layer, kind: TerrainLayerTextureKind) -> Option<TextureId> {
    match kind {
        TerrainLayerTextureKind::Diffuse => layer.diffuse_texture,
        TerrainLayerTextureKind::Normal => layer.normal_texture,
        TerrainLayerTextureKind::Specular => layer.specular_texture,
        TerrainLayerTextureKind::Roughness => layer.roughness_texture,
        TerrainLayerTextureKind::Height => layer.height_texture,
    }
}

/// `layer` with the slot `kind` holding `texture` and everything else unchanged.
pub open spec fn with_layer_texture(
    layer: Layer,
    kind: TerrainLayerTextureKind,
    texture: Option<TextureId>,
) -> Layer {
    match kind {
        TerrainLayerTextureKind::Diffuse => Layer { diffuse_texture: texture, ..layer },
        TerrainLayerTextureKind::Normal => Layer { normal_texture: texture, ..layer },
        TerrainLayerTextureKind::Specular => Layer { specular_texture: texture, ..layer },
        TerrainLayerTextureKind::Roughness => Layer { roughness_texture: texture, ..layer },
        TerrainLayerTextureKind::Height => Layer { height_texture: texture, ..layer },
    }
}

/// The texture in the slot `kind` of the layer at `index`, chunk by chunk.
pub open spec fn textures_at(
    chunks: Seq<Seq<Layer>>,
    index: int,
    kind: TerrainLayerTextureKind,
) -> Seq<Option<TextureId>> {
    chunks.map_values(|c: Seq<Layer>| layer_texture(c[index], kind))
}

/// Every chunk with `texture` in the slot `kind` of its layer at `index`.
pub open spec fn set_textures_at(
    chunks: Seq<Seq<Layer>>,
    index: int,
    kind: TerrainLayerTextureKind,
    texture: Option<TextureId>,
) -> Seq<Seq<Layer>> {
    chunks.map_values(
        |c: Seq<Layer>| c.update(index, with_layer_texture(c[index], kind, texture)),
    )
}

/// The first texture that is there, in chunk order; `None` when there is none.
pub open spec fn first_some(textures: Seq<Option<TextureId>>) -> Option<TextureId>
    decreases textures.len(),
{
    if textures.len() == 0 {
        None
    } else {
        let before = first_some(textures.drop_last());
        if before is Some {
            before
        } else {
            textures.last()
        }
    }
}

/// Every chunk holds the same texture in the slot `kind` of its layer at `index`.
pub open spec fn uniform_textures_at(
    chunks: Seq<Seq<Layer>>,
    index: int,
    kind: TerrainLayerTextureKind,
) -> bool {
    forall|i: int, j: int|
        0 <= i < chunks.len() && 0 <= j < chunks.len() ==> layer_texture(
            #[trigger] chunks[i][index],
            kind,
        ) == layer_texture(#[trigger] chunks[j][index], kind)
}

// ---------------------------------------------------------------------------
// Commands
// ---------------------------------------------------------------------------

/// Adds one layer on top of every chunk of a terrain, and takes it off again.
#[derive(Debug)]
pub struct AddTerrainLayerCommand {
    terrain: NodeHandle,
    layers: Vec<Layer>,
}

impl AddTerrainLayerCommand {
    /// The terrain node the command works on.
    pub closed spec fn target(&self) -> NodeHandle {
        self.terrain
    }

    /// The layers the command holds: what `execute` puts on top of the
    /// chunks, in chunk order.
    pub closed spec fn held_layers(&self) -> Seq<Layer> {
        self.layers@
    }

    /// A command that puts `layers[i]` on top of chunk `i` of the terrain
    /// `terrain`, for as many chunks as `layers` reaches.
    pub fn new(terrain: NodeHandle, layers: Vec<Layer>) -> (c: Self)
        ensures
            c.target() == terrain,
            c.held_layers() == layers@,
    {
        AddTerrainLayerCommand { terrain, layers }
    }

    /// The command for the terrain node `terrain_handle`, whose chunks are
    /// those of `terrain`: it holds one fresh layer per chunk, `layers[i]`
    /// for chunk `i`, so that its `execute` adds a layer on top of every
    /// chunk and its `revert` takes exactly those layers off again.
    pub fn for_terrain(terrain_handle: NodeHandle, terrain: &Terrain, layers: Vec<Layer>) -> (c: Self)
        requires
            layers@.len() == terrain@.len(),
        ensures
            c.target() == terrain_handle,
            c.held_layers() == layers@,
            c.held_layers().len() == terrain@.len(),
            c.held_layers().len() == terrain.chunks@.len(),
    {
        AddTerrainLayerCommand::new(terrain_handle, layers)
    }

    pub fn terrain(&self) -> (h: NodeHandle)
        ensures
            h == self.target(),
    {
        self.terrain
    }

    pub fn layers(&self) -> (l: &Vec<Layer>)
        ensures
            l@ == self.held_layers(),
    {
        &self.layers
    }

    pub fn name(&self) -> (s: String)
        ensures
            s@ == "Add Terrain Layer"@,
    {
        "Add Terrain Layer".to_owned()
    }

    /// Puts the held layers on top of the chunks, pairing them in order, and
    /// gives up all held layers, also those no chunk took.
    pub fn execute(&mut self, terrain: &mut Terrain)
        ensures
            final(terrain)@ == push_layers(old(terrain)@, old(self).held_layers()),
            final(self).held_layers() == Seq::<Layer>::empty(),
            final(self).target() == old(self).target(),
    {
        let ghost chunks0 = terrain@;
        let n: usize = if self.layers.len() < terrain.chunks.len() {
            self.layers.len()
        } else {
            terrain.chunks.len()
        };
        let mut i: usize = 0;
        while i < n
            invariant
                n <= self.layers@.len(),
                n <= chunks0.len(),
                i <= n,
                self.layers@ == old(self).layers@,
                self.terrain == old(self).terrain,
                terrain.chunks@.len() == chunks0.len(),
                chunks0 == old(terrain)@,
                forall|j: int|
                    0 <= j < i ==> (#[trigger] terrain.chunks@[j])@ == chunks0[j].push(
                        self.layers@[j],
                    ),
                forall|j: int| i <= j < chunks0.len() ==> (#[trigger] terrain.chunks@[j])@ == chunks0[j],
            decreases n - i,
        {
            let layer = self.layers[i];
            terrain.chunks[i].add_layer(layer);
            i += 1;
        }
        self.layers.clear();
        assert(terrain@ =~= push_layers(chunks0, old(self).layers@));
    }

    /// Takes the top layer off every chunk and holds the taken layers, in
    /// chunk order, in place of whatever it held.
    pub fn revert(&mut self, terrain: &mut Terrain)
        requires
            all_nonempty(old(terrain)@),
        ensures
            final(terrain)@ == pop_layers(old(terrain)@),
            final(self).held_layers() == top_layers(old(terrain)@),
            final(self).target() == old(self).target(),
    {
        let ghost chunks0 = terrain@;
        self.layers.clear();
        let mut i: usize = 0;
        while i < terrain.chunks.len()
            invariant
                i <= terrain.chunks@.len(),
                self.terrain == old(self).terrain,
                terrain.chunks@.len() == chunks0.len(),
                chunks0 == old(terrain)@,
                all_nonempty(chunks0),
                self.layers@.len() == i,
                forall|j: int| 0 <= j < i ==> #[trigger] self.layers@[j] == chunks0[j].last(),
                forall|j: int|
                    0 <= j < i ==> (#[trigger] terrain.chunks@[j])@ == chunks0[j].drop_last(),
                forall|j: int| i <= j < chunks0.len() ==> (#[trigger] terrain.chunks@[j])@ == chunks0[j],
            decreases terrain.chunks@.len() - i,
        {
            assert(chunks0[i as int].len() > 0);
            let layer = terrain.chunks[i].pop_layer().unwrap();
            self.layers.push(layer);
            i += 1;
        }
        assert(terrain@ =~= pop_layers(chunks0));
        assert(self.layers@ =~= top_layers(chunks0));
    }
}

/// Removes the layer at an index from every chunk of a terrain, and puts it back.
#[derive(Debug)]
pub struct DeleteTerrainLayerCommand {
    terrain: NodeHandle,
    layers: Vec<Layer>,
    index: usize,
}

impl DeleteTerrainLayerCommand {
    /// The terrain node the command works on.
    pub closed spec fn target(&self) -> NodeHandle {
        self.terrain
    }

    /// The removed layers the command holds, in chunk order.
    pub closed spec fn held_layers(&self) -> Seq<Layer> {
        self.layers@
    }

    /// The index of the layer the command removes from every chunk.
    pub closed spec fn layer_index(&self) -> usize {
        self.index
    }

    /// A command that removes layer `index` from every chunk of the terrain `terrain`.
    pub fn new(terrain: NodeHandle, index: usize) -> (c: Self)
        ensures
            c.target() == terrain,
            c.layer_index() == index,
            c.held_layers() == Seq::<Layer>::empty(),
    {
        DeleteTerrainLayerCommand { terrain, layers: Vec::new(), index }
    }

    pub fn terrain(&self) -> (h: NodeHandle)
        ensures
            h == self.target(),
    {
        self.terrain
    }

    pub fn index(&self) -> (i: usize)
        ensures
            i == self.layer_index(),
    {
        self.index
    }

    pub fn layers(&self) -> (l: &Vec<Layer>)
        ensures
            l@ == self.held_layers(),
    {
        &self.layers
    }

    pub fn name(&self) -> (s: String)
        ensures
            s@ == "Delete Terrain Layer"@,
    {
        "Delete Terrain Layer".to_owned()
    }

    /// Removes the layer at the index from every chunk and holds the removed
    /// layers, in chunk order, in place of whatever it held.
    pub fn execute(&mut self, terrain: &mut Terrain)
        requires
            all_have_layer(old(terrain)@, old(self).layer_index() as int),
        ensures
            final(terrain)@ == remove_layers_at(old(terrain)@, old(self).layer_index() as int),
            final(self).held_layers() == layers_at(old(terrain)@, old(self).layer_index() as int),
            final(self).target() == old(self).target(),
            final(self).layer_index() == old(self).layer_index(),
    {
        let ghost chunks0 = terrain@;
        let index = self.index;
        let mut removed: Vec<Layer> = Vec::new();
        let mut i: usize = 0;
        while i < terrain.chunks.len()
            invariant
                i <= terrain.chunks@.len(),
                index == old(self).index,
                terrain.chunks@.len() == chunks0.len(),
                chunks0 == old(terrain)@,
                all_have_layer(chunks0, index as int),
                removed@.len() == i,
                forall|j: int| 0 <= j < i ==> #[trigger] removed@[j] == chunks0[j][index as int],
                forall|j: int|
                    0 <= j < i ==> (#[trigger] terrain.chunks@[j])@ == chunks0[j].remove(
                        index as int,
                    ),
                forall|j: int| i <= j < chunks0.len() ==> (#[trigger] terrain.chunks@[j])@ == chunks0[j],
            decreases terrain.chunks@.len() - i,
        {
            assert(index < chunks0[i as int].len());
            let layer = terrain.chunks[i].remove_layer(index);
            removed.push(layer);
            i += 1;
        }
        self.layers = removed;
        assert(terrain@ =~= remove_layers_at(chunks0, index as int));
        assert(self.layers@ =~= layers_at(chunks0, index as int));
    }

    /// Inserts the held layers back at the index, pairing them with the
    /// chunks in order, and gives up all held layers.
    pub fn revert(&mut self, terrain: &mut Terrain)
        requires
            can_insert_at(old(terrain)@, old(self).held_layers(), old(self).layer_index() as int),
        ensures
            final(terrain)@ == insert_layers_at(
                old(terrain)@,
                old(self).held_layers(),
                old(self).layer_index() as int,
            ),
            final(self).held_layers() == Seq::<Layer>::empty(),
            final(self).target() == old(self).target(),
            final(self).layer_index() == old(self).layer_index(),
    {
        let ghost chunks0 = terrain@;
        let index = self.index;
        let n: usize = if self.layers.len() < terrain.chunks.len() {
            self.layers.len()
        } else {
            terrain.chunks.len()
        };
        let mut i: usize = 0;
        while i < n
            invariant
                n <= self.layers@.len(),
                n <= chunks0.len(),
                i <= n,
                index == old(self).index,
                self.index == old(self).index,
                self.layers@ == old(self).layers@,
                self.terrain == old(self).terrain,
                terrain.chunks@.len() == chunks0.len(),
                chunks0 == old(terrain)@,
                can_insert_at(chunks0, self.layers@, index as int),
                forall|j: int|
                    0 <= j < i ==> (#[trigger] terrain.chunks@[j])@ == chunks0[j].insert(
                        index as int,
                        self.layers@[j],
                    ),
                forall|j: int| i <= j < chunks0.len() ==> (#[trigger] terrain.chunks@[j])@ == chunks0[j],
            decreases n - i,
        {
            assert(index <= chunks0[i as int].len());
            let layer = self.layers[i];
            terrain.chunks[i].insert_layer(layer, index);
            i += 1;
        }
        self.layers.clear();
        assert(terrain@ =~= insert_layers_at(chunks0, old(self).layers@, index as int));
    }
}

/// The texture slot of a terrain layer that a command works on.
#[derive(Clone, Copy, Debug, PartialEq, Eq, Structural)]
pub enum TerrainLayerTextureKind {
    Diffuse,
    Normal,
    Specular,
    Roughness,
    Height,
}

/// Swaps the texture in one slot of the layer at an index of every chunk
/// with the texture the command holds.
#[derive(Debug)]
pub struct SetTerrainLayerTextureCommand {
    terrain: NodeHandle,
    index: usize,
    kind: TerrainLayerTextureKind,
    texture: Option<TextureId>,
}

impl SetTerrainLayerTextureCommand {
    /// The terrain node the command works on.
    pub closed spec fn target(&self) -> NodeHandle {
        self.terrain
    }

    /// The index of the layer the command works on in every chunk.
    pub closed spec fn layer_index(&self) -> usize {
        self.index
    }

    /// The texture slot the command works on.
    pub closed spec fn slot(&self) -> TerrainLayerTextureKind {
        self.kind
    }

    /// The texture the command holds, to be put in the slot by the next swap.
    pub closed spec fn held_texture(&self) -> Option<TextureId> {
        self.texture
    }

    /// A command that puts `texture` in the slot `kind` of layer `index` of
    /// every chunk of the terrain `terrain`.
    pub fn new(
        terrain: NodeHandle,
        index: usize,
        texture: TextureId,
        kind: TerrainLayerTextureKind,
    ) -> (c: Self)
        ensures
            c.target() == terrain,
            c.layer_index() == index,
            c.slot() == kind,
            c.held_texture() == Some(texture),
    {
        SetTerrainLayerTextureCommand { kind, index, terrain, texture: Some(texture) }
    }

    pub fn terrain(&self) -> (h: NodeHandle)
        ensures
            h == self.target(),
    {
        self.terrain
    }

    pub fn index(&self) -> (i: usize)
        ensures
            i == self.layer_index(),
    {
        self.index
    }

    pub fn kind(&self) -> (k: TerrainLayerTextureKind)
        ensures
            k == self.slot(),
    {
        self.kind
    }

    pub fn texture(&self) -> (t: Option<TextureId>)
        ensures
            t == self.held_texture(),
    {
        self.texture
    }

    pub fn name(&self) -> (s: String)
        ensures
            s@ == "Set Terrain Layer Texture"@,
    {
        "Set Terrain Layer Texture".to_owned()
    }

    /// Puts the held texture in the slot of every chunk's layer at the index,
    /// and holds instead the first texture that was there, in chunk order.
    fn swap(&mut self, terrain: &mut Terrain)
        requires
            all_have_layer(old(terrain)@, old(self).index as int),
        ensures
            final(terrain)@ == set_textures_at(
                old(terrain)@,
                old(self).index as int,
                old(self).kind,
                old(self).texture,
            ),
            final(self).texture == first_some(
                textures_at(old(terrain)@, old(self).index as int, old(self).kind),
            ),
            final(self).terrain == old(self).terrain,
            final(self).index == old(self).index,
            final(self).kind == old(self).kind,
    {
        let ghost chunks0 = terrain@;
        let ghost olds = textures_at(chunks0, self.index as int, self.kind);
        let index = self.index;
        let kind = self.kind;
        let texture = self.texture.take();
        let mut i: usize = 0;
        while i < terrain.chunks.len()
            invariant
                i <= terrain.chunks@.len(),
                index == old(self).index,
                kind == old(self).kind,
                texture == old(self).texture,
                self.terrain == old(self).terrain,
                self.index == old(self).index,
                self.kind == old(self).kind,
                terrain.chunks@.len() == chunks0.len(),
                chunks0 == old(terrain)@,
                olds == textures_at(chunks0, index as int, kind),
                all_have_layer(chunks0, index as int),
                self.texture == first_some(olds.take(i as int)),
                forall|j: int|
                    0 <= j < i ==> (#[trigger] terrain.chunks@[j])@ == chunks0[j].update(
                        index as int,
                        with_layer_texture(chunks0[j][index as int], kind, texture),
                    ),
                forall|j: int| i <= j < chunks0.len() ==> (#[trigger] terrain.chunks@[j])@ == chunks0[j],
            decreases terrain.chunks@.len() - i,
        {
            assert(index < chunks0[i as int].len());
            let layer = &mut terrain.chunks[i].layers[index];
            let instance = match kind {
                TerrainLayerTextureKind::Diffuse => layer.diffuse_texture,
                TerrainLayerTextureKind::Normal => layer.normal_texture,
                TerrainLayerTextureKind::Specular => layer.specular_texture,
                TerrainLayerTextureKind::Roughness => layer.roughness_texture,
                TerrainLayerTextureKind::Height => layer.height_texture,
            };
            if self.texture.is_none() {
                self.texture = instance;
            }
            match kind {
                TerrainLayerTextureKind::Diffuse => layer.diffuse_texture = texture,
                TerrainLayerTextureKind::Normal => layer.normal_texture = texture,
                TerrainLayerTextureKind::Specular => layer.specular_texture = texture,
                TerrainLayerTextureKind::Roughness => layer.roughness_texture = texture,
                TerrainLayerTextureKind::Height => layer.height_texture = texture,
            }
            assert(olds.take(i + 1).drop_last() =~= olds.take(i as int));
            i += 1;
        }
        assert(olds.take(chunks0.len() as int) =~= olds);
        assert(terrain@ =~= set_textures_at(chunks0, index as int, kind, texture));
    }

    /// Puts the held texture in place (see `swap`).
    pub fn execute(&mut self, terrain: &mut Terrain)
        requires
            all_have_layer(old(terrain)@, old(self).layer_index() as int),
        ensures
            final(terrain)@ == set_textures_at(
                old(terrain)@,
                old(self).layer_index() as int,
                old(self).slot(),
                old(self).held_texture(),
            ),
            final(self).held_texture() == first_some(
                textures_at(old(terrain)@, old(self).layer_index() as int, old(self).slot()),
            ),
            final(self).target() == old(self).target(),
            final(self).layer_index() == old(self).layer_index(),
            final(self).slot() == old(self).slot(),
    {
        self.swap(terrain);
    }

    /// Puts the held texture back in place; the same swap as `execute`.
    pub fn revert(&mut self, terrain: &mut Terrain)
        requires
            all_have_layer(old(terrain)@, old(self).layer_index() as int),
        ensures
            final(terrain)@ == set_textures_at(
                old(terrain)@,
                old(self).layer_index() as int,
                old(self).slot(),
                old(self).held_texture(),
            ),
            final(self).held_texture() == first_some(
                textures_at(old(terrain)@, old(self).layer_index() as int, old(self).slot()),
            ),
            final(self).target() == old(self).target(),
            final(self).layer_index() == old(self).layer_index(),
            final(self).slot() == old(self).slot(),
    {
        self.swap(terrain);
    }
}

// ---------------------------------------------------------------------------
// Undo and redo
// ---------------------------------------------------------------------------

/// Undoing an added layer: when the command holds one layer per chunk,
/// `revert` may follow `execute`, and it gives back both the terrain and the
/// layers the command held.
pub proof fn lemma_add_layer_undo(chunks: Seq<Seq<Layer>>, layers: Seq<Layer>)
    requires
        layers.len() == chunks.len(),
    ensures
        all_nonempty(push_layers(chunks, layers)),
        pop_layers(push_layers(chunks, layers)) == chunks,
        top_layers(push_layers(chunks, layers)) == layers,
{
    let pushed = push_layers(chunks, layers);
    assert forall|i: int| 0 <= i < chunks.len() implies #[trigger] pop_layers(pushed)[i]
        == chunks[i] by {
        assert(chunks[i].push(layers[i]).drop_last() =~= chunks[i]);
    }
    assert(pop_layers(pushed) =~= chunks);
    assert(top_layers(pushed) =~= layers);
}

/// Redoing an added layer: after `revert` on a terrain whose chunks all have
/// a layer, `execute` gives back the terrain.
pub proof fn lemma_add_layer_redo(chunks: Seq<Seq<Layer>>)
    requires
        all_nonempty(chunks),
    ensures
        push_layers(pop_layers(chunks), top_layers(chunks)) == chunks,
{
    let redone = push_layers(pop_layers(chunks), top_layers(chunks));
    assert forall|i: int| 0 <= i < chunks.len() implies #[trigger] redone[i] == chunks[i] by {
        assert(chunks[i].len() > 0);
        assert(chunks[i].drop_last().push(chunks[i].last()) =~= chunks[i]);
    }
    assert(redone =~= chunks);
}

/// Removing an element and inserting it back where it was gives back the sequence.
proof fn lemma_remove_then_insert(s: Seq<Layer>, index: int)
    requires
        0 <= index < s.len(),
    ensures
        s.remove(index).len() + 1 == s.len(),
        s.remove(index).insert(index, s[index]) == s,
{
    assert(s.remove(index).insert(index, s[index]) =~= s);
}

/// Inserting an element and removing it again gives back the sequence.
proof fn lemma_insert_then_remove(s: Seq<Layer>, index: int, layer: Layer)
    requires
        0 <= index <= s.len(),
    ensures
        s.insert(index, layer).len() == s.len() + 1,
        s.insert(index, layer)[index] == layer,
        s.insert(index, layer).remove(index) == s,
{
    assert(s.insert(index, layer).remove(index) =~= s);
}

/// Undoing a deleted layer: `revert` may follow `execute`, and it gives back
/// the terrain.
pub proof fn lemma_delete_layer_undo(chunks: Seq<Seq<Layer>>, index: int)
    requires
        all_have_layer(chunks, index),
    ensures
        can_insert_at(remove_layers_at(chunks, index), layers_at(chunks, index), index),
        insert_layers_at(remove_layers_at(chunks, index), layers_at(chunks, index), index)
            == chunks,
{
    let removed = remove_layers_at(chunks, index);
    let undone = insert_layers_at(removed, layers_at(chunks, index), index);
    assert forall|i: int| 0 <= i < chunks.len() implies 0 <= index && index <= #[trigger] removed[i].len()
        && undone[i] == chunks[i] by {
        let c = chunks[i];
        assert(0 <= index && index < c.len());
        lemma_remove_then_insert(c, index);
    }
    assert(undone =~= chunks);
}

/// Redoing a deleted layer: when the command holds one layer per chunk and
/// every chunk can take one at the index, `execute` after `revert` may run,
/// gives back the terrain, and removes the same layers again.
pub proof fn lemma_delete_layer_redo(chunks: Seq<Seq<Layer>>, layers: Seq<Layer>, index: int)
    requires
        layers.len() == chunks.len(),
        can_insert_at(chunks, layers, index),
    ensures
        all_have_layer(insert_layers_at(chunks, layers, index), index),
        remove_layers_at(insert_layers_at(chunks, layers, index), index) == chunks,
        layers_at(insert_layers_at(chunks, layers, index), index) == layers,
{
    let inserted = insert_layers_at(chunks, layers, index);
    assert forall|i: int| 0 <= i < chunks.len() implies 0 <= index && index < #[trigger] inserted[i].len()
        && remove_layers_at(inserted, index)[i] == chunks[i] && layers_at(inserted, index)[i]
        == layers[i] by {
        let c = chunks[i];
        assert(0 <= index && index <= c.len());
        lemma_insert_then_remove(c, index, layers[i]);
    }
    assert(remove_layers_at(inserted, index) =~= chunks);
    assert(layers_at(inserted, index) =~= layers);
}

/// The first texture of a nonempty sequence of equal textures is the first one.
proof fn lemma_first_some_uniform(textures: Seq<Option<TextureId>>)
    requires
        textures.len() > 0,
        forall|i: int| 0 <= i < textures.len() ==> #[trigger] textures[i] == textures[0],
    ensures
        first_some(textures) == textures[0],
    decreases textures.len(),
{
    reveal_with_fuel(first_some, 2);
    if textures.len() > 1 {
        let prefix = textures.drop_last();
        assert forall|i: int| 0 <= i < prefix.len() implies #[trigger] prefix[i] == prefix[0] by {
            assert(textures[i] == textures[0]);
        }
        lemma_first_some_uniform(prefix);
    }
}

/// A texture swap leaves the same texture in the slot of every chunk.
pub proof fn lemma_set_texture_uniform(
    chunks: Seq<Seq<Layer>>,
    index: int,
    kind: TerrainLayerTextureKind,
    texture: Option<TextureId>,
)
    requires
        all_have_layer(chunks, index),
    ensures
        all_have_layer(set_textures_at(chunks, index, kind, texture), index),
        uniform_textures_at(set_textures_at(chunks, index, kind, texture), index, kind),
        forall|i: int|
            0 <= i < chunks.len() ==> #[trigger] textures_at(
                set_textures_at(chunks, index, kind, texture),
                index,
                kind,
            )[i] == texture,
{
    let swapped = set_textures_at(chunks, index, kind, texture);
    assert forall|i: int| 0 <= i < chunks.len() implies layer_texture(
        #[trigger] swapped[i][index],
        kind,
    ) == texture by {
        let c = chunks[i];
        assert(0 <= index && index < c.len());
    }
}

/// Undoing a texture change: on a terrain with at least one chunk whose
/// chunks all hold the same texture in the slot, the second swap gives back
/// the terrain and the texture the command held.
pub proof fn lemma_set_texture_undo(
    chunks: Seq<Seq<Layer>>,
    index: int,
    kind: TerrainLayerTextureKind,
    texture: Option<TextureId>,
)
    requires
        chunks.len() > 0,
        all_have_layer(chunks, index),
        uniform_textures_at(chunks, index, kind),
    ensures
        ({
            let swapped = set_textures_at(chunks, index, kind, texture);
            let held = first_some(textures_at(chunks, index, kind));
            &&& all_have_layer(swapped, index)
            &&& set_textures_at(swapped, index, kind, held) == chunks
            &&& first_some(textures_at(swapped, index, kind)) == texture
        }),
{
    let swapped = set_textures_at(chunks, index, kind, texture);
    let olds = textures_at(chunks, index, kind);
    let c0 = chunks[0];
    assert(0 <= index && index < c0.len());
    assert forall|i: int| 0 <= i < olds.len() implies #[trigger] olds[i] == olds[0] by {
        assert(layer_texture(chunks[i][index], kind) == layer_texture(chunks[0][index], kind));
    }
    lemma_first_some_uniform(olds);
    let held = first_some(olds);
    lemma_set_texture_uniform(chunks, index, kind, texture);
    let news = textures_at(swapped, index, kind);
    assert forall|i: int| 0 <= i < news.len() implies #[trigger] news[i] == news[0] by {}
    lemma_first_some_uniform(news);
    let back = set_textures_at(swapped, index, kind, held);
    assert forall|i: int| 0 <= i < chunks.len() implies #[trigger] back[i] == chunks[i] by {
        assert(0 <= index && index < chunks[i].len());
        assert(layer_texture(chunks[i][index], kind) == held);
        assert(with_layer_texture(with_layer_texture(chunks[i][index], kind, texture), kind, held)
            == chunks[i][index]);
        assert(back[i] =~= chunks[i]);
    }
    assert(back =~= chunks);
}

// ---------------------------------------------------------------------------
// What each command does to a chunk, layer by layer
// ---------------------------------------------------------------------------

/// Adding layers: every chunk that the held layers reach gets its own layer
/// as a new top layer, above all its old layers, which keep their places;
/// every other chunk is left as it was, and no chunk is added or dropped.
pub proof fn lemma_add_layer_appends(chunks: Seq<Seq<Layer>>, layers: Seq<Layer>)
    ensures
        push_layers(chunks, layers).len() == chunks.len(),
        forall|i: int|
            0 <= i < chunks.len() && i < layers.len() ==> {
                &&& (#[trigger] push_layers(chunks, layers)[i]).len() == chunks[i].len() + 1
                &&& push_layers(chunks, layers)[i][chunks[i].len() as int] == layers[i]
                &&& forall|j: int|
                    0 <= j < chunks[i].len() ==> push_layers(chunks, layers)[i][j] == chunks[i][j]
            },
        forall|i: int|
            0 <= i < chunks.len() && layers.len() <= i ==> #[trigger] push_layers(chunks, layers)[i]
                == chunks[i],
{
}

/// Taking the top layers off: the layer taken from a chunk is its last one,
/// and the chunk keeps all the others in their places.
pub proof fn lemma_pop_layers_takes_top(chunks: Seq<Seq<Layer>>)
    requires
        all_nonempty(chunks),
    ensures
        top_layers(chunks).len() == chunks.len(),
        pop_layers(chunks).len() == chunks.len(),
        forall|i: int|
            0 <= i < chunks.len() ==> {
                &&& #[trigger] top_layers(chunks)[i] == chunks[i][chunks[i].len() - 1]
                &&& pop_layers(chunks)[i].len() == chunks[i].len() - 1
                &&& forall|j: int|
                    0 <= j < chunks[i].len() - 1 ==> pop_layers(chunks)[i][j] == chunks[i][j]
            },
{
    assert forall|i: int| 0 <= i < chunks.len() implies {
        &&& #[trigger] top_layers(chunks)[i] == chunks[i][chunks[i].len() - 1]
        &&& pop_layers(chunks)[i].len() == chunks[i].len() - 1
        &&& forall|j: int|
            0 <= j < chunks[i].len() - 1 ==> pop_layers(chunks)[i][j] == chunks[i][j]
    } by {
        assert(chunks[i].len() > 0);
    }
}

/// Deleting a layer: the layer taken from a chunk is the one at the index;
/// the layers below it keep their places and those above move down by one.
pub proof fn lemma_remove_layers_at_shifts(chunks: Seq<Seq<Layer>>, index: int)
    requires
        all_have_layer(chunks, index),
    ensures
        layers_at(chunks, index).len() == chunks.len(),
        remove_layers_at(chunks, index).len() == chunks.len(),
        forall|i: int|
            0 <= i < chunks.len() ==> {
                &&& #[trigger] layers_at(chunks, index)[i] == chunks[i][index]
                &&& remove_layers_at(chunks, index)[i].len() == chunks[i].len() - 1
                &&& forall|j: int|
                    0 <= j < index ==> remove_layers_at(chunks, index)[i][j] == chunks[i][j]
                &&& forall|j: int|
                    index <= j < chunks[i].len() - 1 ==> remove_layers_at(chunks, index)[i][j]
                        == chunks[i][j + 1]
            },
{
    assert forall|i: int| 0 <= i < chunks.len() implies {
        &&& #[trigger] layers_at(chunks, index)[i] == chunks[i][index]
        &&& remove_layers_at(chunks, index)[i].len() == chunks[i].len() - 1
        &&& forall|j: int|
            0 <= j < index ==> remove_layers_at(chunks, index)[i][j] == chunks[i][j]
        &&& forall|j: int|
            index <= j < chunks[i].len() - 1 ==> remove_layers_at(chunks, index)[i][j]
                == chunks[i][j + 1]
    } by {
        let c = chunks[i];
        assert(0 <= index && index < c.len());
    }
}

/// Putting deleted layers back: each chunk that the held layers reach gets
/// its own layer at the index, the layers below keep their places and those
/// from the index up move up by one; every other chunk is left as it was.
pub proof fn lemma_insert_layers_at_shifts(chunks: Seq<Seq<Layer>>, layers: Seq<Layer>, index: int)
    requires
        can_insert_at(chunks, layers, index),
    ensures
        insert_layers_at(chunks, layers, index).len() == chunks.len(),
        forall|i: int|
            0 <= i < chunks.len() && i < layers.len() ==> {
                &&& (#[trigger] insert_layers_at(chunks, layers, index)[i]).len() == chunks[i].len()
                    + 1
                &&& insert_layers_at(chunks, layers, index)[i][index] == layers[i]
                &&& forall|j: int|
                    0 <= j < index ==> insert_layers_at(chunks, layers, index)[i][j] == chunks[i][j]
                &&& forall|j: int|
                    index <= j < chunks[i].len() ==> insert_layers_at(chunks, layers, index)[i][j
                        + 1] == chunks[i][j]
            },
        forall|i: int|
            0 <= i < chunks.len() && layers.len() <= i ==> #[trigger] insert_layers_at(
                chunks,
                layers,
                index,
            )[i] == chunks[i],
{
    assert forall|i: int| 0 <= i < chunks.len() && i < layers.len() implies {
        &&& (#[trigger] insert_layers_at(chunks, layers, index)[i]).len() == chunks[i].len() + 1
        &&& insert_layers_at(chunks, layers, index)[i][index] == layers[i]
        &&& forall|j: int|
            0 <= j < index ==> insert_layers_at(chunks, layers, index)[i][j] == chunks[i][j]
        &&& forall|j: int|
            index <= j < chunks[i].len() ==> insert_layers_at(chunks, layers, index)[i][j + 1]
                == chunks[i][j]
    } by {
        let c = chunks[i];
        assert(0 <= index && index <= c.len());
    }
}

/// Reading a slot: the texture of a layer in the slot of each kind.
pub proof fn lemma_layer_texture_slots(layer: Layer, kind: TerrainLayerTextureKind)
    ensures
        kind == TerrainLayerTextureKind::Diffuse ==> layer_texture(layer, kind)
            == layer.diffuse_texture,
        kind == TerrainLayerTextureKind::Normal ==> layer_texture(layer, kind)
            == layer.normal_texture,
        kind == TerrainLayerTextureKind::Specular ==> layer_texture(layer, kind)
            == layer.specular_texture,
        kind == TerrainLayerTextureKind::Roughness ==> layer_texture(layer, kind)
            == layer.roughness_texture,
        kind == TerrainLayerTextureKind::Height ==> layer_texture(layer, kind)
            == layer.height_texture,
{
}

/// Setting a slot: the layer gets the texture in the slot of `kind`, and
/// every other slot, the mask and the tile factor stay as they were.
pub proof fn lemma_with_layer_texture_sets_only_its_slot(
    layer: Layer,
    kind: TerrainLayerTextureKind,
    texture: Option<TextureId>,
)
    ensures
        ({
            let r = with_layer_texture(layer, kind, texture);
            &&& r.diffuse_texture == if kind == TerrainLayerTextureKind::Diffuse {
                texture
            } else {
                layer.diffuse_texture
            }
            &&& r.normal_texture == if kind == TerrainLayerTextureKind::Normal {
                texture
            } else {
                layer.normal_texture
            }
            &&& r.specular_texture == if kind == TerrainLayerTextureKind::Specular {
                texture
            } else {
                layer.specular_texture
            }
            &&& r.roughness_texture == if kind == TerrainLayerTextureKind::Roughness {
                texture
            } else {
                layer.roughness_texture
            }
            &&& r.height_texture == if kind == TerrainLayerTextureKind::Height {
                texture
            } else {
                layer.height_texture
            }
            &&& r.mask == layer.mask
            &&& r.tile_factor_x_bits == layer.tile_factor_x_bits
            &&& r.tile_factor_y_bits == layer.tile_factor_y_bits
        }),
{
}

/// A texture swap changes, in every chunk, only the layer at the index; that
/// layer only in the slot of `kind`, which gets `texture`. No chunk gains or
/// loses a layer, and every other layer stays as it was.
pub proof fn lemma_set_textures_at_frame(
    chunks: Seq<Seq<Layer>>,
    index: int,
    kind: TerrainLayerTextureKind,
    texture: Option<TextureId>,
)
    requires
        all_have_layer(chunks, index),
    ensures
        set_textures_at(chunks, index, kind, texture).len() == chunks.len(),
        forall|i: int|
            0 <= i < chunks.len() ==> {
                let new = #[trigger] set_textures_at(chunks, index, kind, texture)[i];
                &&& new.len() == chunks[i].len()
                &&& forall|j: int| 0 <= j < chunks[i].len() && j != index ==> new[j] == chunks[i][j]
                &&& new[index] == with_layer_texture(chunks[i][index], kind, texture)
            },
{
    assert forall|i: int| 0 <= i < chunks.len() implies {
        let new = #[trigger] set_textures_at(chunks, index, kind, texture)[i];
        &&& new.len() == chunks[i].len()
        &&& forall|j: int| 0 <= j < chunks[i].len() && j != index ==> new[j] == chunks[i][j]
        &&& new[index] == with_layer_texture(chunks[i][index], kind, texture)
    } by {
        let c = chunks[i];
        assert(0 <= index && index < c.len());
    }
}

/// The texture a swap holds back is the first one found, in chunk order, in
/// the slot: none when no chunk has one there, and otherwise the texture of
/// a chunk before which no chunk has one.
pub proof fn lemma_first_some_is_first(textures: Seq<Option<TextureId>>)
    ensures
        first_some(textures) is None <==> forall|k: int|
            0 <= k < textures.len() ==> #[trigger] textures[k] is None,
        first_some(textures) is Some ==> exists|k: int|
            0 <= k < textures.len() && #[trigger] textures[k] == first_some(textures) && forall|
                j: int,
            |
                0 <= j < k ==> textures[j] is None,
    decreases textures.len(),
{
    if textures.len() > 0 {
        let prefix = textures.drop_last();
        lemma_first_some_is_first(prefix);
        assert forall|k: int| 0 <= k < prefix.len() implies #[trigger] prefix[k] == textures[k] by {}
        if first_some(prefix) is Some {
            let k = choose|k: int|
                0 <= k < prefix.len() && #[trigger] prefix[k] == first_some(prefix) && forall|
                    j: int,
                |
                    0 <= j < k ==> prefix[j] is None;
            assert(textures[k] == first_some(textures));
            assert forall|j: int| 0 <= j < k implies #[trigger] textures[j] is None by {
                assert(prefix[j] is None);
            }
        } else {
            assert(forall|k: int| 0 <= k < prefix.len() ==> #[trigger] prefix[k] is None);
            let last = textures.len() - 1;
            if textures[last] is Some {
                assert forall|j: int| 0 <= j < last implies #[trigger] textures[j] is None by {
                    assert(prefix[j] is None);
                }
                assert(textures[last] == first_some(textures));
            } else {
                assert forall|k: int| 0 <= k < textures.len() implies #[trigger] textures[k] is None by {
                    if k < last {
                        assert(prefix[k] is None);
                    }
                }
            }
        }
    }
}

/// The texture a swap reads from a chunk is the one in the slot of `kind` of
/// the chunk's layer at the index.
pub proof fn lemma_textures_at_reads_slot(
    chunks: Seq<Seq<Layer>>,
    index: int,
    kind: TerrainLayerTextureKind,
)
    ensures
        textures_at(chunks, index, kind).len() == chunks.len(),
        forall|i: int|
            0 <= i < chunks.len() ==> #[trigger] textures_at(chunks, index, kind)[i] == layer_texture(
                chunks[i][index],
                kind,
            ),
{
}

} // verus!
