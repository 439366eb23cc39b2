use vstd::prelude::*;
use crate::ground::{cell_index, lemma_cell_index_bounds, GroundGrid};
use crate::rolls::TileRolls;
use crate::tile::Tile;

verus! {

/// Columns of the area that generating a chunk looks at: the chunk (`CHUNK_W`)
/// and one more on each side.
pub const AREA_W: usize = 52;
/// Rows of the area that generating a chunk looks at.
pub const AREA_H: usize = 52;
/// Grid positions in that area.
pub const AREA_CELLS: usize = 2704;

/// Layered noise at one grid position: four octaves, coarse to fine, each in
/// millionths of the noise unit.
#[derive(Debug, Clone, Copy, PartialEq, Eq, Structural)]
pub struct NoiseSample {
    pub coarse: i32,
    pub broad: i32,
    pub medium: i32,
    pub fine: i32,
}

/// Four times the mean of the octaves, in millionths.
pub open spec fn total(s: NoiseSample) -> int {
    s.coarse + s.broad + s.medium + s.fine
}

/// Four times the mean of the octaves, in millionths.
pub fn noise_total(s: &NoiseSample) -> (r: i64)
    ensures
        r == total(*s),
{
    s.coarse as i64 + s.broad as i64 + s.medium as i64 + s.fine as i64
}

/// What stands on a ground position.
#[derive(Debug, Clone, Copy, PartialEq, Eq, Structural)]
pub enum Decoration {
    /// Nothing: the bare ground shows.
    Bare,
    /// One sprite at a depth.
    Single { sprite: usize, z_index: i32 },
    /// A gas station: six by three sprites from this position on.
    GasStation,
}

/// The decoration of a ground position with noise `s` and rolls `r`.
///
/// The mean noise decides the biome: dense forest above one half, then patches
/// of forest, sparse trees, cans and junk in bands below; the rolls decide whether
/// anything stands there and which sprite it is.
pub open spec fn decoration(s: NoiseSample, r: TileRolls) -> Decoration {
    let t = total(s);
    if t < 200_000 {
        Decoration::Bare
    } else if (t > 2_000_000 || s.medium > 980_000) && r.chance > 200_000 {
        Decoration::Single { sprite: 298, z_index: 5 }
    } else if s.medium > 500_000 && t < 2_000_000 && r.chance > 400_000 {
        let sprite: int = if r.chance2 > 700_000 {
            if r.chance3 > 600_000 {
                320 + r.pick % 2
            } else if r.chance3 > 100_000 {
                292 + r.pick % 3
            } else {
                252
            }
        } else {
            298
        };
        Decoration::Single { sprite: sprite as usize, z_index: 3 }
    } else if s.fine > 400_000 && t < 2_000_000 && s.medium < 500_000 && r.chance > 900_000 {
        let sprite: int = if r.chance2 > 780_000 {
            298
        } else {
            320 + r.pick % 2
        };
        Decoration::Single { sprite: sprite as usize, z_index: 3 }
    } else if t > 1_200_000 && t < 2_000_000 && s.medium < 500_000 && r.chance > 980_000 {
        Decoration::Single { sprite: (280 + r.pick % 5) as usize, z_index: 1 }
    } else if t > 400_000 && t < 1_200_000 && s.medium < 400_000 && r.chance > 800_000 {
        if r.chance2 > 980_000 {
            Decoration::GasStation
        } else if t > 800_000 && t < 1_200_000 && s.medium < 300_000 && r.chance > 900_000 {
            Decoration::Single { sprite: (41 + r.pick % 4) as usize, z_index: 5 }
        } else {
            Decoration::Bare
        }
    } else {
        Decoration::Bare
    }
}

/// Decides what stands on a ground position with noise `s` and rolls `r`.
pub fn decorate(s: &NoiseSample, r: &TileRolls) -> (d: Decoration)
    ensures
        d == decoration(*s, *r),
{
    let t = noise_total(s);
    if t < 200_000 {
        Decoration::Bare
    } else if (t > 2_000_000 || s.medium > 980_000) && r.chance > 200_000 {
        Decoration::Single { sprite: 298, z_index: 5 }
    } else if s.medium > 500_000 && t < 2_000_000 && r.chance > 400_000 {
        let sprite: usize = if r.chance2 > 700_000 {
            if r.chance3 > 600_000 {
                320 + (r.pick % 2) as usize
            } else if r.chance3 > 100_000 {
                292 + (r.pick % 3) as usize
            } else {
                252
            }
        } else {
            298
        };
        Decoration::Single { sprite, z_index: 3 }
    } else if s.fine > 400_000 && t < 2_000_000 && s.medium < 500_000 && r.chance > 900_000 {
        let sprite: usize = if r.chance2 > 780_000 {
            298
        } else {
            320 + (r.pick % 2) as usize
        };
        Decoration::Single { sprite, z_index: 3 }
    } else if t > 1_200_000 && t < 2_000_000 && s.medium < 500_000 && r.chance > 980_000 {
        Decoration::Single { sprite: 280 + (r.pick % 5) as usize, z_index: 1 }
    } else if t > 400_000 && t < 1_200_000 && s.medium < 400_000 && r.chance > 800_000 {
        if r.chance2 > 980_000 {
            Decoration::GasStation
        } else if t > 800_000 && t < 1_200_000 && s.medium < 300_000 && r.chance > 900_000 {
            Decoration::Single { sprite: 41 + (r.pick % 4) as usize, z_index: 5 }
        } else {
            Decoration::Bare
        }
    } else {
        Decoration::Bare
    }
}

/// The sprite of a water position: the top shore where ground lies to the north
/// and not to the south, else one of three open-water sprites.
pub open spec fn water_sprite(north: bool, south: bool, pick: int) -> usize {
    if north && !south {
        338
    } else if pick % 3 == 0 {
        286
    } else if pick % 3 == 1 {
        314
    } else {
        342
    }
}

/// The sprite of a water position.
pub fn pick_water_sprite(north: bool, south: bool, pick: u32) -> (r: usize)
    ensures
        r == water_sprite(north, south, pick as int),
{
    if north && !south {
        338
    } else if pick % 3 == 0 {
        286
    } else if pick % 3 == 1 {
        314
    } else {
        342
    }
}

/// One of the three bare-ground sprites.
pub open spec fn ground_sprite(pick: int) -> usize {
    if pick % 3 == 0 {
        291
    } else if pick % 3 == 1 {
        319
    } else {
        347
    }
}

/// One of the three bare-ground sprites.
pub fn pick_ground_sprite(pick: u32) -> (r: usize)
    ensures
        r == ground_sprite(pick as int),
{
    if pick % 3 == 0 {
        291
    } else if pick % 3 == 1 {
        319
    } else {
        347
    }
}

/// An unrotated tile, in spec terms.
pub open spec fn tile_at(x: int, y: int, sprite: usize, z_index: i32) -> Tile {
    Tile { pos: (x as i32, y as i32), sprite, z_index, rotation: 0 }
}

/// The eighteen tiles of a gas station whose top-left corner is `(x, y)`,
/// column after column.
pub open spec fn station_tiles(x: int, y: int) -> Seq<Tile> {
    Seq::new(18, |k: int| tile_at(x + k / 3, y + k % 3, (28 * (2 + k % 3) + 13 + k / 3) as usize, 5))
}

/// Bounds on the first position of a chunk under which every position that
/// generating it touches fits an `i32`.
pub open spec fn start_in_bounds(start: (i32, i32)) -> bool {
    -2_000_000_000 <= start.0 <= 2_000_000_000 && -2_000_000_000 <= start.1 <= 2_000_000_000
}

/// The grid position of cell `i` of the area around the chunk that starts at `start`.
pub open spec fn area_pos(start: (i32, i32), i: int) -> (int, int) {
    (start.0 - 1 + i / AREA_H as int, start.1 - 1 + i % AREA_H as int)
}

/// The grid position of cell `i` of the area around the chunk that starts at
/// `start`: where its noise sample is taken.
pub fn area_cell(start: (i32, i32), i: usize) -> (r: (i32, i32))
    requires
        start_in_bounds(start),
        i < AREA_CELLS,
    ensures
        (r.0 as int, r.1 as int) == area_pos(start, i as int),
{
    proof {
        lemma_area_pos(i as int);
    }
    (start.0 - 1 + (i / AREA_H) as i32, start.1 - 1 + (i % AREA_H) as i32)
}

/// Whether `(x, y)` is ground in the area around the chunk that starts at
/// `start`: it lies in the area and its mean noise is above zero.
pub open spec fn area_ground(start: (i32, i32), samples: Seq<NoiseSample>, x: int, y: int) -> bool {
    let dx = x - (start.0 - 1);
    let dy = y - (start.1 - 1);
    0 <= dx < AREA_W && 0 <= dy < AREA_H && total(samples[cell_index(dx, dy, AREA_H as int)]) > 0
}

/// The tiles that cell `i` of the area contributes: a water sprite where it is
/// not ground, else what its decoration places.
pub open spec fn cell_tiles(
    start: (i32, i32),
    samples: Seq<NoiseSample>,
    rolls: Seq<TileRolls>,
    i: int,
) -> Seq<Tile> {
    let (x, y) = area_pos(start, i);
    if !area_ground(start, samples, x, y) {
        seq![
            tile_at(
                x,
                y,
                water_sprite(
                    area_ground(start, samples, x, y - 1),
                    area_ground(start, samples, x, y + 1),
                    rolls[i].pick as int,
                ),
                1,
            ),
        ]
    } else {
        match decoration(samples[i], rolls[i]) {
            Decoration::Bare => Seq::empty(),
            Decoration::Single { sprite, z_index } => seq![tile_at(x, y, sprite, z_index)],
            Decoration::GasStation => station_tiles(x, y),
        }
    }
}

/// The tiles of the whole area, cell after cell.
pub open spec fn chunk_tiles(
    start: (i32, i32),
    samples: Seq<NoiseSample>,
    rolls: Seq<TileRolls>,
) -> Seq<Tile> {
    Seq::new(AREA_CELLS as nat, |i: int| cell_tiles(start, samples, rolls, i)).flatten()
}

pub proof fn lemma_area_pos(i: int)
    requires
        0 <= i < AREA_CELLS,
    ensures
        0 <= i / (AREA_H as int) < AREA_W,
        0 <= i % (AREA_H as int) < AREA_H,
        cell_index(i / AREA_H as int, i % AREA_H as int, AREA_H as int) == i,
{
    vstd::arithmetic::div_mod::lemma_fundamental_div_mod(i, AREA_H as int);
    vstd::arithmetic::div_mod::lemma_mod_bound(i, AREA_H as int);
}

/// The ground flags of the area around the chunk that starts at `start`.
pub fn area_ground_grid(start: (i32, i32), samples: &Vec<NoiseSample>) -> (g: GroundGrid)
    requires
        start_in_bounds(start),
        samples@.len() == AREA_CELLS,
    ensures
        g.wf(),
        g.x0 == start.0 - 1,
        g.y0 == start.1 - 1,
        g.w == AREA_W,
        g.h == AREA_H,
        forall|x: int, y: int| #[trigger] g.has(x, y) == area_ground(start, samples@, x, y),
{
    let mut cells: Vec<bool> = Vec::with_capacity(AREA_CELLS);
    let mut i: usize = 0;
    while i < AREA_CELLS
        invariant
            i <= AREA_CELLS,
            samples@.len() == AREA_CELLS,
            cells@.len() == i,
            forall|k: int| 0 <= k < i ==> #[trigger] cells@[k] == (total(samples@[k]) > 0),
        decreases AREA_CELLS - i,
    {
        cells.push(noise_total(&samples[i]) > 0);
        i = i + 1;
    }
    let g = GroundGrid { x0: start.0 - 1, y0: start.1 - 1, w: AREA_W, h: AREA_H, cells };
    assert(AREA_CELLS == AREA_W * AREA_H);
    assert forall|x: int, y: int| #[trigger] g.has(x, y) == area_ground(start, samples@, x, y) by {
        let dx = x - (start.0 - 1);
        let dy = y - (start.1 - 1);
        if 0 <= dx < AREA_W && 0 <= dy < AREA_H {
            lemma_cell_index_bounds(dx, dy, AREA_W as int, AREA_H as int);
        }
    }
    g
}

/// Appends the eighteen tiles of a gas station whose top-left corner is `(x, y)`.
fn push_station_tiles(tiles: &mut Vec<Tile>, x: i32, y: i32)
    requires
        x + 5 <= i32::MAX,
        y + 2 <= i32::MAX,
    ensures
        final(tiles)@ == old(tiles)@ + station_tiles(x as int, y as int),
{
    let ghost before = tiles@;
    let mut k: usize = 0;
    while k < 18
        invariant
            k <= 18,
            x + 5 <= i32::MAX,
            y + 2 <= i32::MAX,
            tiles@ == before + station_tiles(x as int, y as int).take(k as int),
        decreases 18 - k,
    {
        let xs: i32 = (k / 3) as i32;
        let ys: i32 = (k % 3) as i32;
        let sprite: usize = (28 * (2 + ys) + 13 + xs) as usize;
        tiles.push(Tile::new((x + xs, y + ys), sprite, 5));
        assert(station_tiles(x as int, y as int).take(k + 1) =~= station_tiles(
            x as int,
            y as int,
        ).take(k as int).push(station_tiles(x as int, y as int)[k as int]));
        k = k + 1;
    }
    assert(station_tiles(x as int, y as int).take(18) =~= station_tiles(x as int, y as int));
}

/// Appends the tiles of cell `i` of the area around the chunk that starts at `start`.
fn push_cell_tiles(
    tiles: &mut Vec<Tile>,
    start: (i32, i32),
    samples: &Vec<NoiseSample>,
    rolls: &Vec<TileRolls>,
    ground: &GroundGrid,
    i: usize,
)
    requires
        start_in_bounds(start),
        samples@.len() == AREA_CELLS,
        rolls@.len() == AREA_CELLS,
        i < AREA_CELLS,
        ground.wf(),
        forall|x: int, y: int| #[trigger] ground.has(x, y) == area_ground(start, samples@, x, y),
    ensures
        final(tiles)@ == old(tiles)@ + cell_tiles(start, samples@, rolls@, i as int),
{
    proof {
        lemma_area_pos(i as int);
    }
    let (x, y) = area_cell(start, i);
    let ghost before = tiles@;
    if !ground.contains(x, y) {
        let north = ground.contains(x, y - 1);
        let south = ground.contains(x, y + 1);
        tiles.push(Tile::new((x, y), pick_water_sprite(north, south, rolls[i].pick), 1));
        assert(tiles@ =~= before + cell_tiles(start, samples@, rolls@, i as int));
    } else {
        match decorate(&samples[i], &rolls[i]) {
            Decoration::Bare => {
                assert(tiles@ =~= before + cell_tiles(start, samples@, rolls@, i as int));
            },
            Decoration::Single { sprite, z_index } => {
                tiles.push(Tile::new((x, y), sprite, z_index));
                assert(tiles@ =~= before + cell_tiles(start, samples@, rolls@, i as int));
            },
            Decoration::GasStation => {
                push_station_tiles(tiles, x, y);
            },
        }
    }
}

/// Generates the chunk that starts at `start` from the noise of the area around it
/// (`samples`, cell `i` at column `i / AREA_H` and row `i % AREA_H` of the area)
/// and one set of rolls per cell.
///
/// Returns the tiles of the area, cell after cell, and its ground flags.
pub fn gen_chunk_with_rolls(
    start: (i32, i32),
    samples: &Vec<NoiseSample>,
    rolls: &Vec<TileRolls>,
) -> (r: (Vec<Tile>, GroundGrid))
    requires
        start_in_bounds(start),
        samples@.len() == AREA_CELLS,
        rolls@.len() == AREA_CELLS,
    ensures
        r.1.wf(),
        r.1.x0 == start.0 - 1,
        r.1.y0 == start.1 - 1,
        r.1.w == AREA_W,
        r.1.h == AREA_H,
        forall|x: int, y: int| #[trigger] r.1.has(x, y) == area_ground(start, samples@, x, y),
        r.0@ == chunk_tiles(start, samples@, rolls@),
{
    let ground = area_ground_grid(start, samples);
    let ghost cells = Seq::new(AREA_CELLS as nat, |i: int| cell_tiles(start, samples@, rolls@, i));
    let mut tiles: Vec<Tile> = Vec::new();
    let mut i: usize = 0;
    while i < AREA_CELLS
        invariant
            i <= AREA_CELLS,
            start_in_bounds(start),
            samples@.len() == AREA_CELLS,
            rolls@.len() == AREA_CELLS,
            ground.wf(),
            forall|x: int, y: int| #[trigger] ground.has(x, y) == area_ground(start, samples@, x, y),
            cells == Seq::new(AREA_CELLS as nat, |i: int| cell_tiles(start, samples@, rolls@, i)),
            tiles@ == cells.take(i as int).flatten(),
        decreases AREA_CELLS - i,
    {
        push_cell_tiles(&mut tiles, start, samples, rolls, &ground, i);
        proof {
            assert(cells.take(i + 1) =~= cells.take(i as int).push(cells[i as int]));
            cells.take(i as int).lemma_flatten_push(cells[i as int]);
        }
        i = i + 1;
    }
    assert(cells.take(AREA_CELLS as int) =~= cells);
    (tiles, ground)
}

/// Generates the chunk that starts at `start` from the noise of the area around
/// it, with fresh rolls: the tiles are those of some valid rolls.
pub fn gen_chunk(start: (i32, i32), samples: &Vec<NoiseSample>) -> (r: (Vec<Tile>, GroundGrid))
    requires
        start_in_bounds(start),
        samples@.len() == AREA_CELLS,
    ensures
        r.1.wf(),
        r.1.x0 == start.0 - 1,
        r.1.y0 == start.1 - 1,
        r.1.w == AREA_W,
        r.1.h == AREA_H,
        forall|x: int, y: int| #[trigger] r.1.has(x, y) == area_ground(start, samples@, x, y),
        exists|rolls: Seq<TileRolls>|
            {
                &&& rolls.len() == AREA_CELLS
                &&& forall|i: int| 0 <= i < AREA_CELLS ==> (#[trigger] rolls[i]).wf()
                &&& r.0@ == chunk_tiles(start, samples@, rolls)
            },
{
    let rolls = TileRolls::draw_many(AREA_CELLS);
    let r = gen_chunk_with_rolls(start, samples, &rolls);
    assert(r.0@ == chunk_tiles(start, samples@, rolls@));
    r
}

} // verus!
