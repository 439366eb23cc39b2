use vstd::prelude::*;
use crate::chunk_gen::{area_ground, chunk_tiles, gen_chunk, ground_sprite, NoiseSample, AREA_CELLS};
use crate::chunks::CurrentChunks;
use crate::grid::{
    chunk_in_bounds, chunk_of, chunk_start, chunk_start_of, grid_to_chunk, ipair, neighbour_offsets,
};
use crate::ground::{GroundGrid, GroundTiles};
use crate::rolls::{TileRolls, PICK_SPAN};
use crate::settle::{area_grid, settle_ground, settled, union_ground, union_has};
use crate::tile::{GenerationSeed, Tile};

verus! {

/// Bounds on the player's chunk under which it and its neighbours are in bounds.
pub open spec fn centre_in_bounds(c: (int, int)) -> bool {
    -39_999_998 <= c.0 <= 39_999_998 && -39_999_998 <= c.1 <= 39_999_998
}

/// Bounds on a chunk to generate under which every position of its area lies
/// in a chunk that is in bounds.
pub open spec fn generation_in_bounds(c: (int, int)) -> bool {
    -39_999_999 <= c.0 <= 39_999_999 && -39_999_999 <= c.1 <= 39_999_999
}

/// The chunks around `center`, in the order an update visits them, that are not on screen yet.
pub open spec fn missing_chunks(on_screen: Map<(int, int), Seq<u64>>, center: (int, int)) -> Seq<(int, int)> {
    neighbour_offsets().map_values(|o: (int, int)| (center.0 + o.0, center.1 + o.1)).filter(
        |c: (int, int)| !on_screen.contains_key(c),
    )
}

/// The `k`-th offset of `neighbour_offsets`.
fn neighbour_offset(k: usize) -> (r: (i32, i32))
    requires
        k < 9,
    ensures
        ipair(r) == neighbour_offsets()[k as int],
{
    if k == 0 {
        (-1, 0)
    } else if k == 1 {
        (1, 0)
    } else if k == 2 {
        (0, -1)
    } else if k == 3 {
        (0, 1)
    } else if k == 4 {
        (-1, 1)
    } else if k == 5 {
        (1, 1)
    } else if k == 6 {
        (-1, -1)
    } else if k == 7 {
        (1, -1)
    } else {
        (0, 0)
    }
}

/// The chunks around the player's chunk `center`, itself included, that are
/// not on screen yet and have to be generated.
pub fn chunks_to_generate(current_chunks: &CurrentChunks, center: (i32, i32)) -> (r: Vec<(i32, i32)>)
    requires
        current_chunks.wf(),
        centre_in_bounds(ipair(center)),
    ensures
        r@.map_values(|c: (i32, i32)| ipair(c)) == missing_chunks(current_chunks@, ipair(center)),
        forall|i: int| 0 <= i < r@.len() ==> generation_in_bounds(ipair(#[trigger] r@[i])),
{
    let ghost cands = neighbour_offsets().map_values(
        |o: (int, int)| (center.0 + o.0, center.1 + o.1),
    );
    let ghost pred = |c: (int, int)| !current_chunks@.contains_key(c);
    let mut r: Vec<(i32, i32)> = Vec::new();
    let mut k: usize = 0;
    while k < 9
        invariant
            k <= 9,
            current_chunks.wf(),
            centre_in_bounds(ipair(center)),
            cands == neighbour_offsets().map_values(
                |o: (int, int)| (center.0 + o.0, center.1 + o.1),
            ),
            pred == (|c: (int, int)| !current_chunks@.contains_key(c)),
            r@.map_values(|c: (i32, i32)| ipair(c)) == cands.take(k as int).filter(pred),
            forall|i: int| 0 <= i < r@.len() ==> generation_in_bounds(ipair(#[trigger] r@[i])),
        decreases 9 - k,
    {
        let o = neighbour_offset(k);
        let c = (center.0 + o.0, center.1 + o.1);
        let ghost old_r = r@;
        proof {
            reveal(Seq::filter);
        }
        assert(cands.take(k + 1).drop_last() =~= cands.take(k as int));
        assert(cands.take(k + 1).last() == ipair(c));
        if !current_chunks.contains_key(c) {
            r.push(c);
            assert(r@.map_values(|c: (i32, i32)| ipair(c)) =~= old_r.map_values(
                |c: (i32, i32)| ipair(c),
            ).push(ipair(c)));
        }
        k = k + 1;
    }
    assert(cands.take(9) =~= cands);
    r
}

/// The ground of the areas generated for `chunks` from `samples`: ground in the
/// area of one of them.
pub open spec fn generated_ground(
    chunks: Seq<(i32, i32)>,
    samples: Seq<Vec<NoiseSample>>,
) -> spec_fn(int, int) -> bool {
    |x: int, y: int|
        exists|k: int|
            0 <= k < chunks.len() && area_ground(
                start_of(#[trigger] chunks[k]),
                samples[k]@,
                x,
                y,
            )
}

/// One valid set of rolls per area cell, for each of `n` chunks.
pub open spec fn valid_chunk_rolls(rolls: Seq<Seq<TileRolls>>, n: nat) -> bool {
    &&& rolls.len() == n
    &&& forall|k: int| 0 <= k < n ==> (#[trigger] rolls[k]).len() == AREA_CELLS
    &&& forall|k: int, i: int| 0 <= k < n && 0 <= i < AREA_CELLS ==> (#[trigger] rolls[k][i]).wf()
}

/// The tiles of the chunks `chunks`, one after the other, generated from
/// `samples` with `rolls`.
pub open spec fn generated_tiles(
    chunks: Seq<(i32, i32)>,
    samples: Seq<Vec<NoiseSample>>,
    rolls: Seq<Seq<TileRolls>>,
) -> Seq<Tile> {
    Seq::new(chunks.len(), |k: int| chunk_tiles(start_of(chunks[k]), samples[k]@, rolls[k])).flatten()
}

/// The first position of chunk `c` as a pair of `i32`.
pub open spec fn start_of(c: (i32, i32)) -> (i32, i32) {
    (chunk_start(ipair(c)).0 as i32, chunk_start(ipair(c)).1 as i32)
}

/// Appends every tile of `src` to `dst`, in order.
fn append_tiles(dst: &mut Vec<Tile>, src: &Vec<Tile>)
    ensures
        final(dst)@ == old(dst)@ + src@,
{
    let ghost before = dst@;
    let mut i: usize = 0;
    while i < src.len()
        invariant
            i <= src@.len(),
            dst@ == before + src@.take(i as int),
        decreases src@.len() - i,
    {
        dst.push(src[i]);
        assert(src@.take(i + 1) =~= src@.take(i as int).push(src@[i as int]));
        i = i + 1;
    }
    assert(src@.take(src@.len() as int) =~= src@);
}

/// Generates the chunks `chunks` (as `chunks_to_generate` lists them) from the
/// noise of the areas around them (`samples`, one list per chunk), merges their
/// ground into `ground_tiles`, and returns every tile to show.
///
/// The tiles are those of each chunk in turn, for some valid rolls, followed by
/// one bare-ground tile for every position that settles as ground. Areas of
/// neighbouring chunks overlap by two columns or rows; a water or decoration
/// tile there comes once from each chunk that generated it.
pub fn handle_player_chunk_update_event(
    chunks: &Vec<(i32, i32)>,
    samples: &Vec<Vec<NoiseSample>>,
    ground_tiles: &mut GroundTiles,
) -> (r: Vec<Tile>)
    requires
        old(ground_tiles).wf(),
        samples@.len() == chunks@.len(),
        forall|k: int| 0 <= k < chunks@.len() ==> generation_in_bounds(ipair(#[trigger] chunks@[k])),
        forall|k: int| 0 <= k < samples@.len() ==> (#[trigger] samples@[k])@.len() == AREA_CELLS,
    ensures
        final(ground_tiles).wf(),
        forall|x: int, y: int|
            #![trigger final(ground_tiles)@.contains((x, y))]
            final(ground_tiles)@.contains((x, y)) <==> old(ground_tiles)@.contains((x, y)) || (
            settled(generated_ground(chunks@, samples@), x, y) && i32::MIN <= x <= i32::MAX
                && i32::MIN <= y <= i32::MAX),
        exists|rolls: Seq<Seq<TileRolls>>|
            #[trigger] valid_chunk_rolls(rolls, chunks@.len()) && {
                let n = generated_tiles(chunks@, samples@, rolls).len();
                &&& n <= r@.len()
                &&& r@.take(n as int) == generated_tiles(chunks@, samples@, rolls)
                &&& forall|x: int, y: int|
                    #![trigger settled(generated_ground(chunks@, samples@), x, y)]
                    i32::MIN <= x <= i32::MAX && i32::MIN <= y <= i32::MAX ==> ((exists|i: int|
                        n <= i < r@.len() && (#[trigger] r@[i]).pos == (x as i32, y as i32))
                        <==> settled(generated_ground(chunks@, samples@), x, y))
                &&& forall|i: int, j: int|
                    n <= i < j < r@.len() ==> (#[trigger] r@[i]).pos != (#[trigger] r@[j]).pos
                &&& forall|i: int|
                    n <= i < r@.len() ==> {
                        &&& settled(
                            generated_ground(chunks@, samples@),
                            (#[trigger] r@[i]).pos.0 as int,
                            r@[i].pos.1 as int,
                        )
                        &&& r@[i].z_index == 0
                        &&& r@[i].rotation == 0
                        &&& exists|pick: int| 0 <= pick < PICK_SPAN && r@[i].sprite == ground_sprite(pick)
                    }
            },
{
    let mut tiles: Vec<Tile> = Vec::new();
    let mut grids: Vec<GroundGrid> = Vec::new();
    let ghost mut rolls: Seq<Seq<TileRolls>> = Seq::empty();
    let ghost per_chunk = |rs: Seq<Seq<TileRolls>>| Seq::new(
        rs.len(),
        |k: int| chunk_tiles(start_of(chunks@[k]), samples@[k]@, rs[k]),
    );
    let mut k: usize = 0;
    while k < chunks.len()
        invariant
            k <= chunks@.len(),
            samples@.len() == chunks@.len(),
            forall|j: int| 0 <= j < chunks@.len() ==> generation_in_bounds(ipair(#[trigger] chunks@[j])),
            forall|j: int| 0 <= j < samples@.len() ==> (#[trigger] samples@[j])@.len() == AREA_CELLS,
            rolls.len() == k,
            grids@.len() == k,
            forall|j: int, i: int|
                0 <= j < k && 0 <= i < AREA_CELLS ==> (#[trigger] rolls[j][i]).wf(),
            forall|j: int| 0 <= j < k ==> (#[trigger] rolls[j]).len() == AREA_CELLS,
            forall|j: int| 0 <= j < k ==> area_grid(#[trigger] grids@[j]),
            forall|j: int, x: int, y: int|
                0 <= j < k ==> (#[trigger] grids@[j].has(x, y) == area_ground(
                    start_of(chunks@[j]),
                    samples@[j]@,
                    x,
                    y,
                )),
            tiles@ == Seq::new(
                k as nat,
                |j: int| chunk_tiles(start_of(chunks@[j]), samples@[j]@, rolls[j]),
            ).flatten(),
        decreases chunks@.len() - k,
    {
        let start = chunk_start_of(chunks[k]);
        let (chunk_tiles_k, grid) = gen_chunk(start, &samples[k]);
        let ghost rk = choose|rs: Seq<TileRolls>|
            {
                &&& rs.len() == AREA_CELLS
                &&& forall|i: int| 0 <= i < AREA_CELLS ==> (#[trigger] rs[i]).wf()
                &&& chunk_tiles_k@ == chunk_tiles(start, samples@[k as int]@, rs)
            };
        let ghost old_tiles = tiles@;
        append_tiles(&mut tiles, &chunk_tiles_k);
        grids.push(grid);
        proof {
            let s_old = Seq::new(
                k as nat,
                |j: int| chunk_tiles(start_of(chunks@[j]), samples@[j]@, rolls[j]),
            );
            let old_rolls = rolls;
            rolls = rolls.push(rk);
            let s_new = Seq::new(
                (k + 1) as nat,
                |j: int| chunk_tiles(start_of(chunks@[j]), samples@[j]@, rolls[j]),
            );
            assert(s_new =~= s_old.push(chunk_tiles(start, samples@[k as int]@, rk)));
            s_old.lemma_flatten_push(chunk_tiles(start, samples@[k as int]@, rk));
            assert forall|j: int, i: int|
                0 <= j < k + 1 && 0 <= i < AREA_CELLS implies (#[trigger] rolls[j][i]).wf() by {
                if j < k {
                    assert(rolls[j] == old_rolls[j]);
                }
            }
        }
        k = k + 1;
    }
    proof {
        assert forall|x: int, y: int| #[trigger] union_has(grids@, x, y) == generated_ground(chunks@, samples@)(x, y) by {
            if union_has(grids@, x, y) {
                let j = choose|j: int| 0 <= j < grids@.len() && (#[trigger] grids@[j]).has(x, y);
                assert(area_ground(start_of(chunks@[j]), samples@[j]@, x, y));
            }
            if generated_ground(chunks@, samples@)(x, y) {
                let j = choose|j: int| 0 <= j < chunks@.len() && area_ground(start_of(#[trigger] chunks@[j]), samples@[j]@, x, y);
                assert(grids@[j].has(x, y));
            }
        }
        assert(union_ground(grids@) =~= generated_ground(chunks@, samples@));
    }
    let n: usize = tiles.len();
    let (positions, ground) = settle_ground(&grids);
    let ghost gen = tiles@;
    append_tiles(&mut tiles, &ground);
    proof {
        assert forall|j: int, x: int, y: int| 0 <= j < grids@.len() && #[trigger] grids@[j].has(x, y) implies chunk_in_bounds(chunk_of(x, y)) by {
            assert(area_ground(start_of(chunks@[j]), samples@[j]@, x, y));
            assert(generation_in_bounds(ipair(chunks@[j])));
            vstd::arithmetic::div_mod::lemma_fundamental_div_mod(x, 50);
            vstd::arithmetic::div_mod::lemma_mod_bound(x, 50);
            vstd::arithmetic::div_mod::lemma_fundamental_div_mod(y, 50);
            vstd::arithmetic::div_mod::lemma_mod_bound(y, 50);
        }
    }
    let ghost before_ground = *ground_tiles;
    let mut i: usize = 0;
    while i < positions.len()
        invariant
            i <= positions@.len(),
            ground_tiles.wf(),
            forall|j: int| 0 <= j < positions@.len() ==> settled(union_ground(grids@), #[trigger] positions@[j].0 as int, positions@[j].1 as int),
            forall|j: int, x: int, y: int| 0 <= j < grids@.len() && #[trigger] grids@[j].has(x, y) ==> chunk_in_bounds(chunk_of(x, y)),
            forall|x: int, y: int|
                #![trigger ground_tiles@.contains((x, y))]
                ground_tiles@.contains((x, y)) <==> before_ground@.contains((x, y)) || (exists|j: int| 0 <= j < i && (#[trigger] positions@[j]) == (x as i32, y as i32) && i32::MIN <= x <= i32::MAX && i32::MIN <= y <= i32::MAX),
        decreases positions@.len() - i,
    {
        let p = positions[i];
        proof {
            assert(settled(union_ground(grids@), p.0 as int, p.1 as int));
            assert(union_has(grids@, p.0 as int, p.1 as int));
            let j = choose|j: int| 0 <= j < grids@.len() && (#[trigger] grids@[j]).has(p.0 as int, p.1 as int);
            assert(grids@[j].has(p.0 as int, p.1 as int));
        }
        let ghost mid = *ground_tiles;
        ground_tiles.insert(p.0, p.1);
        proof {
            assert forall|x: int, y: int|
                #![trigger ground_tiles@.contains((x, y))]
                ground_tiles@.contains((x, y)) <==> before_ground@.contains((x, y)) || (exists|j: int| 0 <= j < i + 1 && (#[trigger] positions@[j]) == (x as i32, y as i32) && i32::MIN <= x <= i32::MAX && i32::MIN <= y <= i32::MAX) by {
                if x == p.0 as int && y == p.1 as int {
                    assert(positions@[i as int] == (x as i32, y as i32));
                }
                if exists|j: int| 0 <= j < i + 1 && (#[trigger] positions@[j]) == (x as i32, y as i32) && i32::MIN <= x <= i32::MAX && i32::MIN <= y <= i32::MAX {
                    let j = choose|j: int| 0 <= j < i + 1 && (#[trigger] positions@[j]) == (x as i32, y as i32) && i32::MIN <= x <= i32::MAX && i32::MIN <= y <= i32::MAX;
                    if j < i {
                        assert(mid@.contains((x, y)));
                    }
                }
                if mid@.contains((x, y)) && !before_ground@.contains((x, y)) {
                    let j = choose|j: int| 0 <= j < i && (#[trigger] positions@[j]) == (x as i32, y as i32) && i32::MIN <= x <= i32::MAX && i32::MIN <= y <= i32::MAX;
                    assert(0 <= j < i + 1);
                }
            }
        }
        i = i + 1;
    }
    proof {
        assert(rolls.len() == chunks@.len());
        assert(generated_tiles(chunks@, samples@, rolls) == gen) by {
            assert(Seq::new(chunks@.len(), |k: int| chunk_tiles(start_of(chunks@[k]), samples@[k]@, rolls[k])) =~= Seq::new(
                k as nat,
                |j: int| chunk_tiles(start_of(chunks@[j]), samples@[j]@, rolls[j]),
            ));
        }
        assert(tiles@ == gen + ground@);
        assert(tiles@.take(n as int) =~= gen);
        assert(valid_chunk_rolls(rolls, chunks@.len()));
        let gg = generated_ground(chunks@, samples@);
        assert forall|i2: int| n <= i2 < tiles@.len() implies {
            &&& settled(gg, (#[trigger] tiles@[i2]).pos.0 as int, tiles@[i2].pos.1 as int)
            &&& tiles@[i2].z_index == 0
            &&& tiles@[i2].rotation == 0
            &&& exists|pick: int| 0 <= pick < PICK_SPAN && tiles@[i2].sprite == ground_sprite(pick)
        } by {
            assert(tiles@[i2] == ground@[i2 - n]);
            assert(ground@[i2 - n].pos == positions@[i2 - n]);
        }
        assert forall|i2: int, j2: int|
            n <= i2 < j2 < tiles@.len() implies (#[trigger] tiles@[i2]).pos != (#[trigger] tiles@[j2]).pos by {
            assert(tiles@[i2] == ground@[i2 - n]);
            assert(tiles@[j2] == ground@[j2 - n]);
            assert(positions@[i2 - n] != positions@[j2 - n]);
        }
        assert forall|x: int, y: int|
            #![trigger settled(gg, x, y)]
            i32::MIN <= x <= i32::MAX && i32::MIN <= y <= i32::MAX implies ((exists|i2: int|
                n <= i2 < tiles@.len() && (#[trigger] tiles@[i2]).pos == (x as i32, y as i32))
                <==> settled(gg, x, y)) by {
            if exists|i2: int| n <= i2 < tiles@.len() && (#[trigger] tiles@[i2]).pos == (x as i32, y as i32) {
                let i2 = choose|i2: int| n <= i2 < tiles@.len() && (#[trigger] tiles@[i2]).pos == (x as i32, y as i32);
                assert(tiles@[i2] == ground@[i2 - n]);
                assert(positions@[i2 - n] == (x as i32, y as i32));
                assert(positions@.contains((x as i32, y as i32)));
            }
            if settled(gg, x, y) {
                assert(positions@.contains((x as i32, y as i32)));
                let w = choose|w: int| 0 <= w < positions@.len() && positions@[w] == (x as i32, y as i32);
                assert(tiles@[n + w] == ground@[w]);
            }
        }
        assert forall|x: int, y: int|
            #![trigger ground_tiles@.contains((x, y))]
            ground_tiles@.contains((x, y)) <==> before_ground@.contains((x, y)) || (settled(gg, x, y) && i32::MIN <= x <= i32::MAX && i32::MIN <= y <= i32::MAX) by {
            if settled(gg, x, y) && i32::MIN <= x <= i32::MAX && i32::MIN <= y <= i32::MAX {
                assert(positions@.contains((x as i32, y as i32)));
                let w = choose|w: int| 0 <= w < positions@.len() && positions@[w] == (x as i32, y as i32);
                assert(0 <= w < i);
            }
            if ground_tiles@.contains((x, y)) && !before_ground@.contains((x, y)) {
                let w = choose|w: int| 0 <= w < i && (#[trigger] positions@[w]) == (x as i32, y as i32) && i32::MIN <= x <= i32::MAX && i32::MIN <= y <= i32::MAX;
                assert(positions@.contains((x as i32, y as i32)));
            }
        }
    }
    tiles
}

/// Records that `entity` shows `tile`, under the chunk that holds the tile's position.
pub fn record_tile(current_chunks: &mut CurrentChunks, tile: &Tile, entity: u64)
    requires
        old(current_chunks).wf(),
    ensures
        final(current_chunks).wf(),
        final(current_chunks)@ == old(current_chunks)@.insert(
            chunk_of(tile.pos.0 as int, tile.pos.1 as int),
            if old(current_chunks)@.contains_key(chunk_of(tile.pos.0 as int, tile.pos.1 as int)) {
                old(current_chunks)@[chunk_of(tile.pos.0 as int, tile.pos.1 as int)].push(entity)
            } else {
                seq![entity]
            },
        ),
{
    let c = grid_to_chunk(tile.pos.0, tile.pos.1);
    current_chunks.record(c, entity);
}

/// Throws the terrain away: no chunk on screen, no known ground, a fresh seed.
///
/// Returns the chunk that has to be generated anew around the player.
pub fn handle_terrain_reset_event(
    current_chunks: &mut CurrentChunks,
    ground_tiles: &mut GroundTiles,
    seed: &mut GenerationSeed,
    player_chunk: (i32, i32),
) -> (r: (i32, i32))
    ensures
        final(current_chunks).wf(),
        final(current_chunks)@ == Map::<(int, int), Seq<u64>>::empty(),
        final(ground_tiles).wf(),
        final(ground_tiles)@ == Set::<(int, int)>::empty(),
        r == player_chunk,
{
    current_chunks.clear();
    ground_tiles.clear();
    *seed = GenerationSeed::random();
    player_chunk
}

} // verus!
