use fuzzy_broccoli::chunk_gen::{
    area_cell, decorate, gen_chunk, gen_chunk_with_rolls, noise_total, pick_ground_sprite,
    pick_water_sprite, Decoration, NoiseSample, AREA_CELLS, AREA_H,
};
use fuzzy_broccoli::chunks::{despawn_chunks, CurrentChunks};
use fuzzy_broccoli::grid::{center_to_top_left_grid, chunk_start_of, grid_to_chunk, is_chunk_near};
use fuzzy_broccoli::ground::{clean_ground_tiles, is_ground_kept, GroundGrid, GroundTiles};
use fuzzy_broccoli::rolls::{TileRolls, PICK_SPAN, ROLL_SCALE};
use fuzzy_broccoli::settle::{process_tile, settle_ground};
use fuzzy_broccoli::terrain::{
    chunks_to_generate, handle_player_chunk_update_event, handle_terrain_reset_event,
    record_tile,
};
use fuzzy_broccoli::tile::{GenerationSeed, Tile};

fn flat(v: i32) -> NoiseSample {
    NoiseSample { coarse: v, broad: v, medium: v, fine: v }
}

fn rolls(chance: u32, chance2: u32, chance3: u32, pick: u32) -> TileRolls {
    TileRolls { chance, chance2, chance3, pick }
}

#[test]
fn tile_constructors_keep_their_fields() {
    let t = Tile::new((3, -4), 298, 5);
    assert_eq!(t.pos, (3, -4));
    assert_eq!(t.sprite, 298);
    assert_eq!(t.z_index, 5);
    assert_eq!(t.rotation, 0);
    let r = Tile::with_rotation((1, 2), 7, 1, 90);
    assert_eq!(r.rotation, 90);
    assert_eq!(r.pos, (1, 2));
}

#[test]
fn grid_to_chunk_floors_towards_negative_infinity() {
    assert_eq!(grid_to_chunk(0, 0), (0, 0));
    assert_eq!(grid_to_chunk(49, 50), (0, 1));
    assert_eq!(grid_to_chunk(-1, -50), (-1, -1));
    assert_eq!(grid_to_chunk(-51, 99), (-2, 1));
    assert_eq!(grid_to_chunk(i32::MIN, i32::MAX), (-42949673, 42949672));
}

#[test]
fn centred_grid_moves_to_the_top_left() {
    assert_eq!(center_to_top_left_grid(0, 0), (500, 400));
    assert_eq!(center_to_top_left_grid(-10, 20), (490, 380));
}

#[test]
fn chunk_start_and_nearness() {
    assert_eq!(chunk_start_of((2, -3)), (100, -150));
    assert!(is_chunk_near((1, -1), (0, 0)));
    assert!(!is_chunk_near((2, 0), (0, 0)));
    assert!(is_ground_kept((5, 1), (0, 0)));
    assert!(!is_ground_kept((5, 2), (0, 0)));
}

#[test]
fn ground_grid_marks_positions() {
    let mut g = GroundGrid::new(-1, -1, 3, 2);
    assert!(!g.contains(0, 0));
    g.set(0, 0);
    assert!(g.contains(0, 0));
    assert!(!g.contains(0, -1));
    assert!(!g.contains(5, 5));
}

#[test]
fn ground_tiles_insert_contains_clear() {
    let mut g = GroundTiles::new();
    g.insert(3, 4);
    g.insert(-60, 120);
    g.insert(3, 4);
    assert!(g.contains(3, 4));
    assert!(g.contains(-60, 120));
    assert!(!g.contains(4, 3));
    assert_eq!(g.chunks.len(), 2);
    g.clear();
    assert!(!g.contains(3, 4));
}

#[test]
fn clean_ground_tiles_keeps_shared_rows_and_columns() {
    let mut g = GroundTiles::new();
    g.insert(10, 10);
    g.insert(260, 10);
    g.insert(10, 260);
    g.insert(260, 260);
    g.insert(-60, -60);
    clean_ground_tiles((0, 0), &mut g);
    assert!(g.contains(10, 10));
    assert!(g.contains(260, 10));
    assert!(g.contains(10, 260));
    assert!(!g.contains(260, 260));
    assert!(!g.contains(-60, -60));
}

#[test]
fn current_chunks_record_and_despawn() {
    let mut c = CurrentChunks::new();
    c.record((0, 0), 1);
    c.record((0, 0), 2);
    c.record((3, 0), 7);
    c.record((-1, 1), 9);
    assert!(c.contains_key((0, 0)));
    assert!(c.contains_key((3, 0)));
    let mut gone = despawn_chunks(&mut c, (0, 0));
    gone.sort();
    assert_eq!(gone, vec![7]);
    assert!(c.contains_key((0, 0)));
    assert!(c.contains_key((-1, 1)));
    assert!(!c.contains_key((3, 0)));
    let mut gone = despawn_chunks(&mut c, (5, 5));
    gone.sort();
    assert_eq!(gone, vec![1, 2, 9]);
    assert!(!c.contains_key((0, 0)));
}

#[test]
fn record_tile_files_under_the_tiles_chunk() {
    let mut c = CurrentChunks::new();
    record_tile(&mut c, &Tile::new((-1, 50), 286, 1), 11);
    assert!(c.contains_key((-1, 1)));
    assert!(!c.contains_key((0, 0)));
}

#[test]
fn chunks_to_generate_lists_missing_neighbours_in_order() {
    let mut c = CurrentChunks::new();
    let all = chunks_to_generate(&c, (4, -2));
    assert_eq!(
        all,
        vec![(3, -2), (5, -2), (4, -3), (4, -1), (3, -1), (5, -1), (3, -3), (5, -3), (4, -2)]
    );
    c.record((4, -2), 1);
    c.record((5, -1), 2);
    let some = chunks_to_generate(&c, (4, -2));
    assert_eq!(some, vec![(3, -2), (5, -2), (4, -3), (4, -1), (3, -1), (3, -3), (5, -3)]);
}

#[test]
fn noise_total_sums_the_octaves() {
    let s = NoiseSample { coarse: 1, broad: -2, medium: 30, fine: 400 };
    assert_eq!(noise_total(&s), 429);
    let big = flat(i32::MAX);
    assert_eq!(noise_total(&big), 4 * i32::MAX as i64);
}

#[test]
fn decorations_follow_the_noise_bands() {
    // Below a mean of 0.05 nothing stands.
    assert_eq!(decorate(&flat(40_000), &rolls(999_999, 0, 0, 0)), Decoration::Bare);
    // Dense forest above a mean of one half.
    assert_eq!(
        decorate(&flat(600_000), &rolls(200_001, 0, 0, 0)),
        Decoration::Single { sprite: 298, z_index: 5 }
    );
    assert_eq!(decorate(&flat(600_000), &rolls(200_000, 0, 0, 0)), Decoration::Bare);
    // Patch forest.
    let patch = NoiseSample { coarse: 0, broad: 0, medium: 600_000, fine: 0 };
    assert_eq!(
        decorate(&patch, &rolls(500_000, 800_000, 700_000, 1)),
        Decoration::Single { sprite: 321, z_index: 3 }
    );
    assert_eq!(
        decorate(&patch, &rolls(500_000, 800_000, 200_000, 5)),
        Decoration::Single { sprite: 294, z_index: 3 }
    );
    assert_eq!(
        decorate(&patch, &rolls(500_000, 800_000, 50_000, 5)),
        Decoration::Single { sprite: 252, z_index: 3 }
    );
    assert_eq!(
        decorate(&patch, &rolls(500_000, 100_000, 0, 0)),
        Decoration::Single { sprite: 298, z_index: 3 }
    );
    // Sparse forest.
    let sparse = NoiseSample { coarse: 0, broad: 0, medium: 0, fine: 500_000 };
    assert_eq!(
        decorate(&sparse, &rolls(950_000, 100_000, 0, 3)),
        Decoration::Single { sprite: 321, z_index: 3 }
    );
    assert_eq!(
        decorate(&sparse, &rolls(950_000, 800_000, 0, 3)),
        Decoration::Single { sprite: 298, z_index: 3 }
    );
    // Cans.
    let cans = NoiseSample { coarse: 500_000, broad: 500_000, medium: 0, fine: 300_000 };
    assert_eq!(
        decorate(&cans, &rolls(990_000, 0, 0, 7)),
        Decoration::Single { sprite: 282, z_index: 1 }
    );
    // Gas station and junk.
    let junk = NoiseSample { coarse: 500_000, broad: 500_000, medium: 0, fine: 0 };
    assert_eq!(decorate(&junk, &rolls(850_000, 990_000, 0, 0)), Decoration::GasStation);
    assert_eq!(
        decorate(&junk, &rolls(950_000, 0, 0, 6)),
        Decoration::Single { sprite: 43, z_index: 5 }
    );
    assert_eq!(decorate(&junk, &rolls(850_000, 0, 0, 6)), Decoration::Bare);
}

#[test]
fn water_and_ground_sprites() {
    assert_eq!(pick_water_sprite(true, false, 0), 338);
    assert_eq!(pick_water_sprite(true, true, 0), 286);
    assert_eq!(pick_water_sprite(false, false, 1), 314);
    assert_eq!(pick_water_sprite(false, true, 59), 342);
    assert_eq!(pick_ground_sprite(0), 291);
    assert_eq!(pick_ground_sprite(4), 319);
    assert_eq!(pick_ground_sprite(5), 347);
}

#[test]
fn drawn_rolls_stay_in_range() {
    for r in TileRolls::draw_many(2000) {
        assert!(r.chance < ROLL_SCALE);
        assert!(r.chance2 < ROLL_SCALE);
        assert!(r.chance3 < ROLL_SCALE);
        assert!(r.pick < PICK_SPAN);
    }
    let many = TileRolls::draw_many(2000);
    assert!(many.iter().any(|r| r.pick != many[0].pick));
    let _ = GenerationSeed::random();
}

#[test]
fn all_water_chunk() {
    let samples = vec![flat(-1000); AREA_CELLS];
    let rs = vec![rolls(0, 0, 0, 1); AREA_CELLS];
    let (tiles, ground) = gen_chunk_with_rolls((0, 0), &samples, &rs);
    assert_eq!(tiles.len(), AREA_CELLS);
    assert!(tiles.iter().all(|t| t.sprite == 314 && t.z_index == 1));
    assert_eq!(tiles[0].pos, (-1, -1));
    assert_eq!(tiles[1].pos, (-1, 0));
    assert_eq!(tiles[AREA_H].pos, (0, -1));
    assert_eq!(tiles[AREA_CELLS - 1].pos, (50, 50));
    assert!(!ground.contains(0, 0));
}

#[test]
fn all_bare_ground_chunk() {
    let samples = vec![flat(10_000); AREA_CELLS];
    let (tiles, ground) = gen_chunk((50, -50), &samples);
    assert!(tiles.is_empty());
    assert!(ground.contains(49, -51));
    assert!(ground.contains(100, 0));
    assert!(!ground.contains(101, 0));
}

#[test]
fn shore_above_ground() {
    // Ground only in the lower half of the area (rows y >= 25).
    let mut samples = Vec::new();
    for i in 0..AREA_CELLS {
        let y = (i % AREA_H) as i32 - 1;
        samples.push(if y >= 25 { flat(10_000) } else { flat(-10_000) });
    }
    let rs = vec![rolls(0, 0, 0, 0); AREA_CELLS];
    let (tiles, _) = gen_chunk_with_rolls((0, 0), &samples, &rs);
    let shore: Vec<&Tile> = tiles.iter().filter(|t| t.sprite == 338).collect();
    assert!(shore.is_empty());
    // Ground above (smaller y) water below makes the water a top shore.
    let mut samples = Vec::new();
    for i in 0..AREA_CELLS {
        let y = (i % AREA_H) as i32 - 1;
        samples.push(if y < 25 { flat(10_000) } else { flat(-10_000) });
    }
    let (tiles, _) = gen_chunk_with_rolls((0, 0), &samples, &rs);
    let shore: Vec<&Tile> = tiles.iter().filter(|t| t.sprite == 338).collect();
    assert_eq!(shore.len(), 52);
    assert!(shore.iter().all(|t| t.pos.1 == 25));
}

#[test]
fn gas_station_stamps_eighteen_tiles() {
    let mut samples = vec![flat(-10_000); AREA_CELLS];
    let mut rs = vec![rolls(0, 0, 0, 0); AREA_CELLS];
    // Cell 0 is position (-1, -1).
    samples[0] = NoiseSample { coarse: 500_000, broad: 500_000, medium: 0, fine: 0 };
    rs[0] = rolls(850_000, 990_000, 0, 0);
    let (tiles, _) = gen_chunk_with_rolls((0, 0), &samples, &rs);
    let station: Vec<&Tile> = tiles.iter().filter(|t| t.z_index == 5).collect();
    assert_eq!(station.len(), 18);
    assert_eq!(station[0].pos, (-1, -1));
    assert_eq!(station[0].sprite, 28 * 2 + 13);
    assert_eq!(station[17].pos, (4, 1));
    assert_eq!(station[17].sprite, 28 * 4 + 13 + 5);
}

#[test]
fn settling_drops_spits_only() {
    let mut g = GroundGrid::new(-1, -1, 52, 52);
    g.set(10, 10);
    g.set(20, 20);
    g.set(21, 20);
    let grids = vec![g];
    let (positions, tiles) = settle_ground(&grids);
    assert_eq!(positions, vec![(10, 10)]);
    assert_eq!(tiles.len(), 1);
    assert_eq!(tiles[0].pos, (10, 10));
    assert_eq!(tiles[0].z_index, 0);
    assert!([291, 319, 347].contains(&tiles[0].sprite));
    let (count, _) = process_tile((20, 20), &grids);
    assert_eq!(count, 1);
    let (count, _) = process_tile((20, 21), &grids);
    assert_eq!(count, 1);
}

#[test]
fn settling_merges_overlapping_areas_once() {
    let mut a = GroundGrid::new(-1, -1, 52, 52);
    let mut b = GroundGrid::new(49, -1, 52, 52);
    a.set(49, 10);
    a.set(50, 10);
    b.set(50, 10);
    b.set(51, 10);
    let (positions, _) = settle_ground(&vec![a, b]);
    // (49, 10) and (51, 10) touch ground on one side only; (50, 10) is in both
    // areas and is listed once.
    assert_eq!(positions, vec![(50, 10)]);
}

#[test]
fn chunk_update_generates_ground_and_tiles() {
    let samples = vec![vec![flat(10_000); AREA_CELLS]];
    let mut ground = GroundTiles::new();
    let tiles = handle_player_chunk_update_event(&vec![(0, 0)], &samples, &mut ground);
    assert_eq!(tiles.len(), AREA_CELLS);
    assert!(tiles.iter().all(|t| t.z_index == 0));
    assert!(ground.contains(-1, -1));
    assert!(ground.contains(50, 50));
    assert!(!ground.contains(51, 50));
}

#[test]
fn terrain_reset_forgets_everything() {
    let mut chunks = CurrentChunks::new();
    chunks.record((0, 0), 3);
    let mut ground = GroundTiles::new();
    ground.insert(1, 1);
    let mut seed = GenerationSeed(7);
    let c = handle_terrain_reset_event(&mut chunks, &mut ground, &mut seed, (2, 3));
    assert_eq!(c, (2, 3));
    assert!(!chunks.contains_key((0, 0)));
    assert!(!ground.contains(1, 1));
}

#[test]
fn area_cells_run_column_after_column() {
    assert_eq!(area_cell((0, 0), 0), (-1, -1));
    assert_eq!(area_cell((0, 0), 1), (-1, 0));
    assert_eq!(area_cell((100, 50), AREA_H), (100, 49));
    assert_eq!(area_cell((0, 0), AREA_CELLS - 1), (50, 50));
}
