use rusty_editor::handle::NodeHandle;
use rusty_editor::scene::commands::terrain::{
    AddTerrainLayerCommand, DeleteTerrainLayerCommand, SetTerrainLayerTextureCommand,
    TerrainLayerTextureKind,
};
use rusty_editor::scene::terrain::{Chunk, Layer, Terrain};

fn layer(mask: u64) -> Layer {
    Layer {
        diffuse_texture: None,
        normal_texture: None,
        specular_texture: None,
        roughness_texture: None,
        height_texture: None,
        mask: Some(mask),
        tile_factor_x_bits: 10.0f32.to_bits(),
        tile_factor_y_bits: 10.0f32.to_bits(),
    }
}

fn textured(mask: u64, diffuse: Option<u64>) -> Layer {
    Layer { diffuse_texture: diffuse, ..layer(mask) }
}

fn terrain(chunks: Vec<Vec<Layer>>) -> Terrain {
    Terrain::new(chunks.into_iter().map(Chunk::new).collect())
}

fn layers_of(terrain: &Terrain) -> Vec<Vec<Layer>> {
    terrain.chunks.iter().map(|c| c.layers.clone()).collect()
}

fn handle() -> NodeHandle {
    NodeHandle::new(3, 1)
}

#[test]
fn add_layer_execute_puts_one_layer_on_each_chunk() {
    let mut t = terrain(vec![vec![layer(1)], vec![layer(2)]]);
    let mut cmd = AddTerrainLayerCommand::new(handle(), vec![layer(10), layer(20)]);
    cmd.execute(&mut t);
    assert_eq!(
        layers_of(&t),
        vec![vec![layer(1), layer(10)], vec![layer(2), layer(20)]]
    );
    assert!(cmd.layers().is_empty());
    assert_eq!(cmd.terrain(), handle());
}

#[test]
fn add_layer_undo_gives_back_terrain_and_layers() {
    let before = vec![vec![layer(1)], vec![layer(2), layer(3)]];
    let mut t = terrain(before.clone());
    let mut cmd = AddTerrainLayerCommand::new(handle(), vec![layer(10), layer(20)]);
    cmd.execute(&mut t);
    cmd.revert(&mut t);
    assert_eq!(layers_of(&t), before);
    assert_eq!(cmd.layers(), &vec![layer(10), layer(20)]);
}

#[test]
fn add_layer_redo_after_undo() {
    let mut t = terrain(vec![vec![layer(1)], vec![layer(2)]]);
    let mut cmd = AddTerrainLayerCommand::new(handle(), vec![layer(10), layer(20)]);
    cmd.execute(&mut t);
    let after = layers_of(&t);
    cmd.revert(&mut t);
    cmd.execute(&mut t);
    assert_eq!(layers_of(&t), after);
    assert!(cmd.layers().is_empty());
}

#[test]
fn add_layer_with_fewer_layers_than_chunks_leaves_the_rest() {
    let mut t = terrain(vec![vec![layer(1)], vec![layer(2)]]);
    let mut cmd = AddTerrainLayerCommand::new(handle(), vec![layer(10)]);
    cmd.execute(&mut t);
    assert_eq!(layers_of(&t), vec![vec![layer(1), layer(10)], vec![layer(2)]]);
}

#[test]
fn add_layer_with_more_layers_than_chunks_gives_up_the_rest() {
    let mut t = terrain(vec![vec![layer(1)]]);
    let mut cmd = AddTerrainLayerCommand::new(handle(), vec![layer(10), layer(20), layer(30)]);
    cmd.execute(&mut t);
    assert_eq!(layers_of(&t), vec![vec![layer(1), layer(10)]]);
    assert!(cmd.layers().is_empty());
}

#[test]
fn add_layer_revert_takes_top_layers() {
    let mut t = terrain(vec![vec![layer(1), layer(2)], vec![layer(3)]]);
    let mut cmd = AddTerrainLayerCommand::new(handle(), vec![layer(99)]);
    cmd.revert(&mut t);
    assert_eq!(layers_of(&t), vec![vec![layer(1)], vec![]]);
    assert_eq!(cmd.layers(), &vec![layer(2), layer(3)]);
}

#[test]
fn delete_layer_execute_removes_index_from_each_chunk() {
    let mut t = terrain(vec![
        vec![layer(1), layer(2), layer(3)],
        vec![layer(4), layer(5)],
    ]);
    let mut cmd = DeleteTerrainLayerCommand::new(handle(), 1);
    assert!(cmd.layers().is_empty());
    cmd.execute(&mut t);
    assert_eq!(layers_of(&t), vec![vec![layer(1), layer(3)], vec![layer(4)]]);
    assert_eq!(cmd.layers(), &vec![layer(2), layer(5)]);
    assert_eq!(cmd.index(), 1);
}

#[test]
fn delete_layer_undo_gives_back_terrain() {
    let before = vec![vec![layer(1), layer(2), layer(3)], vec![layer(4), layer(5)]];
    let mut t = terrain(before.clone());
    let mut cmd = DeleteTerrainLayerCommand::new(handle(), 0);
    cmd.execute(&mut t);
    cmd.revert(&mut t);
    assert_eq!(layers_of(&t), before);
    assert!(cmd.layers().is_empty());
}

#[test]
fn delete_layer_redo_removes_the_same_layers() {
    let mut t = terrain(vec![vec![layer(1), layer(2)], vec![layer(4), layer(5)]]);
    let mut cmd = DeleteTerrainLayerCommand::new(handle(), 1);
    cmd.execute(&mut t);
    let after = layers_of(&t);
    cmd.revert(&mut t);
    cmd.execute(&mut t);
    assert_eq!(layers_of(&t), after);
    assert_eq!(cmd.layers(), &vec![layer(2), layer(5)]);
}

#[test]
fn delete_layer_on_terrain_without_chunks_holds_nothing() {
    let mut t = terrain(vec![]);
    let mut cmd = DeleteTerrainLayerCommand::new(handle(), 4);
    cmd.execute(&mut t);
    assert!(cmd.layers().is_empty());
    assert_eq!(layers_of(&t), Vec::<Vec<Layer>>::new());
}

#[test]
fn set_texture_undo_on_uniform_slot() {
    let before = vec![
        vec![textured(1, Some(7)), layer(2)],
        vec![textured(3, Some(7))],
    ];
    let mut t = terrain(before.clone());
    let mut cmd =
        SetTerrainLayerTextureCommand::new(handle(), 0, 42, TerrainLayerTextureKind::Diffuse);
    assert_eq!(cmd.texture(), Some(42));
    cmd.execute(&mut t);
    assert_eq!(
        layers_of(&t),
        vec![
            vec![textured(1, Some(42)), layer(2)],
            vec![textured(3, Some(42))]
        ]
    );
    assert_eq!(cmd.texture(), Some(7));
    cmd.revert(&mut t);
    assert_eq!(layers_of(&t), before);
    assert_eq!(cmd.texture(), Some(42));
}

#[test]
fn set_texture_holds_first_texture_in_chunk_order() {
    let mut t = terrain(vec![
        vec![textured(1, None)],
        vec![textured(2, Some(8))],
        vec![textured(3, Some(9))],
    ]);
    let mut cmd =
        SetTerrainLayerTextureCommand::new(handle(), 0, 42, TerrainLayerTextureKind::Diffuse);
    cmd.execute(&mut t);
    assert_eq!(cmd.texture(), Some(8));
    cmd.revert(&mut t);
    // Every chunk gets the texture that was held back, not its own.
    assert_eq!(
        layers_of(&t),
        vec![
            vec![textured(1, Some(8))],
            vec![textured(2, Some(8))],
            vec![textured(3, Some(8))]
        ]
    );
    assert_eq!(cmd.texture(), Some(42));
}

#[test]
fn set_texture_on_empty_slot_reverts_to_empty() {
    let before = vec![vec![layer(1)], vec![layer(2)]];
    let mut t = terrain(before.clone());
    let mut cmd =
        SetTerrainLayerTextureCommand::new(handle(), 0, 5, TerrainLayerTextureKind::Normal);
    cmd.execute(&mut t);
    assert_eq!(cmd.texture(), None);
    assert_eq!(t.chunks[0].layers[0].normal_texture, Some(5));
    assert_eq!(t.chunks[1].layers[0].normal_texture, Some(5));
    cmd.revert(&mut t);
    assert_eq!(layers_of(&t), before);
    assert_eq!(cmd.texture(), Some(5));
}

#[test]
fn set_texture_touches_only_its_slot() {
    let kinds = [
        TerrainLayerTextureKind::Diffuse,
        TerrainLayerTextureKind::Normal,
        TerrainLayerTextureKind::Specular,
        TerrainLayerTextureKind::Roughness,
        TerrainLayerTextureKind::Height,
    ];
    for kind in kinds {
        let mut t = terrain(vec![vec![layer(1), layer(2)]]);
        let mut cmd = SetTerrainLayerTextureCommand::new(handle(), 1, 11, kind);
        cmd.execute(&mut t);
        let l = t.chunks[0].layers[1];
        let slot = match kind {
            TerrainLayerTextureKind::Diffuse => l.diffuse_texture,
            TerrainLayerTextureKind::Normal => l.normal_texture,
            TerrainLayerTextureKind::Specular => l.specular_texture,
            TerrainLayerTextureKind::Roughness => l.roughness_texture,
            TerrainLayerTextureKind::Height => l.height_texture,
        };
        assert_eq!(slot, Some(11));
        let mut expected = layer(2);
        match kind {
            TerrainLayerTextureKind::Diffuse => expected.diffuse_texture = Some(11),
            TerrainLayerTextureKind::Normal => expected.normal_texture = Some(11),
            TerrainLayerTextureKind::Specular => expected.specular_texture = Some(11),
            TerrainLayerTextureKind::Roughness => expected.roughness_texture = Some(11),
            TerrainLayerTextureKind::Height => expected.height_texture = Some(11),
        }
        assert_eq!(l, expected);
        assert_eq!(t.chunks[0].layers[0], layer(1));
        assert_eq!(cmd.kind(), kind);
        assert_eq!(cmd.index(), 1);
    }
}

#[test]
fn set_texture_without_chunks_loses_held_texture() {
    let mut t = terrain(vec![]);
    let mut cmd =
        SetTerrainLayerTextureCommand::new(handle(), 0, 3, TerrainLayerTextureKind::Height);
    cmd.execute(&mut t);
    assert_eq!(cmd.texture(), None);
}

#[test]
fn command_names() {
    let add = AddTerrainLayerCommand::new(handle(), vec![]);
    let delete = DeleteTerrainLayerCommand::new(handle(), 0);
    let set = SetTerrainLayerTextureCommand::new(handle(), 0, 1, TerrainLayerTextureKind::Diffuse);
    assert_eq!(add.name(), "Add Terrain Layer");
    assert_eq!(delete.name(), "Delete Terrain Layer");
    assert_eq!(set.name(), "Set Terrain Layer Texture");
}

#[test]
fn chunk_operations() {
    let mut c = Chunk::new(vec![layer(1), layer(2)]);
    c.add_layer(layer(3));
    assert_eq!(c.layers, vec![layer(1), layer(2), layer(3)]);
    assert_eq!(c.remove_layer(0), layer(1));
    c.insert_layer(layer(9), 1);
    assert_eq!(c.layers, vec![layer(2), layer(9), layer(3)]);
    assert_eq!(c.pop_layer(), Some(layer(3)));
    assert_eq!(c.pop_layer(), Some(layer(9)));
    assert_eq!(c.pop_layer(), Some(layer(2)));
    assert_eq!(c.pop_layer(), None);
}

#[test]
fn add_layer_for_terrain_adds_one_layer_per_chunk_and_undoes() {
    let before = vec![vec![layer(1)], vec![], vec![layer(2), layer(3)]];
    let mut t = terrain(before.clone());
    let fresh = vec![layer(10), layer(20), layer(30)];
    let mut cmd = AddTerrainLayerCommand::for_terrain(handle(), &t, fresh.clone());
    assert_eq!(cmd.layers().len(), t.chunks.len());
    assert_eq!(cmd.terrain(), handle());
    cmd.execute(&mut t);
    for (chunk, old) in t.chunks.iter().zip(before.iter()) {
        assert_eq!(chunk.layers.len(), old.len() + 1);
    }
    cmd.revert(&mut t);
    assert_eq!(layers_of(&t), before);
    assert_eq!(cmd.layers(), &fresh);
}
