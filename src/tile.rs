use vstd::prelude::*;

verus! {

/// Marks an entity that shows a terrain tile.
pub struct TileComponent;

/// Asks for the terrain to be thrown away and generated anew with a fresh seed.
pub struct ResetTerrainEvent;

/// The seed of the noise field that the terrain is generated from.
#[derive(Debug, Clone, Copy, PartialEq, Eq, Structural)]
pub struct GenerationSeed(pub u32);

impl GenerationSeed {
    /// A seed drawn at random.
    pub fn random() -> (r: Self) {
        GenerationSeed(crate::rolls::random_seed())
    }
}

/// One sprite of the tile sheet placed at a grid position, at a drawing depth.
#[derive(Debug, Clone, Copy, PartialEq, Eq, Hash)]
pub struct Tile {
    pub pos: (i32, i32),
    pub sprite: usize,
    pub z_index: i32,
    pub rotation: i32,
}

impl Tile {
    /// An unrotated tile.
    pub fn new(pos: (i32, i32), sprite: usize, z_index: i32) -> (r: Self)
        ensures
            r.pos == pos,
            r.sprite == sprite,
            r.z_index == z_index,
            r.rotation == 0,
    {
        Tile { pos, sprite, z_index, rotation: 0 }
    }

    /// A tile turned by `rotation`.
    pub fn with_rotation(pos: (i32, i32), sprite: usize, z_index: i32, rotation: i32) -> (r: Self)
        ensures
            r.pos == pos,
            r.sprite == sprite,
            r.z_index == z_index,
            r.rotation == rotation,
    {
        Tile { pos, sprite, z_index, rotation }
    }
}

} // verus!
