use vstd::prelude::*;
use crate::chunk_gen::{ground_sprite, lemma_area_pos, pick_ground_sprite, AREA_CELLS, AREA_H, AREA_W};
use crate::ground::{cell_index, lemma_cell_index_bounds, lemma_cell_index_injective, GroundGrid};
use crate::rolls::{random_pick, PICK_SPAN};
use crate::tile::Tile;

verus! {

/// An area grid as generation makes it: 52 by 52 positions, with room for one
/// more position on every side.
pub open spec fn area_grid(g: GroundGrid) -> bool {
    &&& g.wf()
    &&& g.w == AREA_W
    &&& g.h == AREA_H
    &&& g.x0 > i32::MIN
    &&& g.y0 > i32::MIN
    &&& g.x0 + g.w <= i32::MAX
    &&& g.y0 + g.h <= i32::MAX
}

/// Whether some of the grids marks `(x, y)` as ground.
pub open spec fn union_has(grids: Seq<GroundGrid>, x: int, y: int) -> bool {
    exists|k: int| 0 <= k < grids.len() && (#[trigger] grids[k]).has(x, y)
}

/// Whether some of the grids marks `(x, y)` as ground.
pub fn union_contains(grids: &Vec<GroundGrid>, x: i32, y: i32) -> (r: bool)
    requires
        forall|k: int| 0 <= k < grids@.len() ==> (#[trigger] grids@[k]).wf(),
    ensures
        r == union_has(grids@, x as int, y as int),
{
    let mut k: usize = 0;
    while k < grids.len()
        invariant
            k <= grids@.len(),
            forall|j: int| 0 <= j < grids@.len() ==> (#[trigger] grids@[j]).wf(),
            forall|j: int| 0 <= j < k ==> !(#[trigger] grids@[j]).has(x as int, y as int),
        decreases grids@.len() - k,
    {
        if grids[k].contains(x, y) {
            return true;
        }
        k = k + 1;
    }
    false
}

/// How many of the four side neighbours of `(x, y)` are ground.
pub open spec fn ground_neighbours(ground: spec_fn(int, int) -> bool, x: int, y: int) -> int {
    (if ground(x - 1, y) { 1int } else { 0int }) + (if ground(x + 1, y) { 1int } else { 0int }) + (
    if ground(x, y - 1) {
        1int
    } else {
        0int
    }) + (if ground(x, y + 1) { 1int } else { 0int })
}

/// Whether `(x, y)` stays ground once generated areas are merged: it is ground,
/// and it is not a spit that touches ground on one side only.
pub open spec fn settled(ground: spec_fn(int, int) -> bool, x: int, y: int) -> bool {
    ground(x, y) && ground_neighbours(ground, x, y) != 1
}

/// The ground of a list of grids, as a predicate.
pub open spec fn union_ground(grids: Seq<GroundGrid>) -> spec_fn(int, int) -> bool {
    |x: int, y: int| union_has(grids, x, y)
}

/// Counts the ground side neighbours of `pos` and draws one of the bare-ground sprites for it.
pub fn process_tile(pos: (i32, i32), occupied: &Vec<GroundGrid>) -> (r: (i32, usize))
    requires
        i32::MIN < pos.0 < i32::MAX,
        i32::MIN < pos.1 < i32::MAX,
        forall|k: int| 0 <= k < occupied@.len() ==> (#[trigger] occupied@[k]).wf(),
    ensures
        r.0 == ground_neighbours(union_ground(occupied@), pos.0 as int, pos.1 as int),
        exists|pick: int| 0 <= pick < PICK_SPAN && r.1 == ground_sprite(pick),
{
    let (x, y) = pos;
    let mut count: i32 = 4;
    if !union_contains(occupied, x - 1, y) {
        count = count - 1;
    }
    if !union_contains(occupied, x + 1, y) {
        count = count - 1;
    }
    if !union_contains(occupied, x, y - 1) {
        count = count - 1;
    }
    if !union_contains(occupied, x, y + 1) {
        count = count - 1;
    }
    let pick = random_pick();
    (count, pick_ground_sprite(pick))
}

/// Merges the ground of freshly generated areas.
///
/// Returns the positions that stay ground (see `settled`) and, for each of them
/// in the same order, a bare-ground tile at depth zero.
pub fn settle_ground(grids: &Vec<GroundGrid>) -> (r: (Vec<(i32, i32)>, Vec<Tile>))
    requires
        forall|k: int| 0 <= k < grids@.len() ==> area_grid(#[trigger] grids@[k]),
    ensures
        forall|x: int, y: int|
            #![trigger settled(union_ground(grids@), x, y)]
            r.0@.contains((x as i32, y as i32)) && i32::MIN <= x <= i32::MAX && i32::MIN <= y
                <= i32::MAX <==> settled(union_ground(grids@), x, y) && i32::MIN <= x <= i32::MAX && i32::MIN
                <= y <= i32::MAX,
        forall|i: int| 0 <= i < r.0@.len() ==> settled(union_ground(grids@), r.0@[i].0 as int, r.0@[i].1 as int),
        r.0@.no_duplicates(),
        r.1@.len() == r.0@.len(),
        forall|i: int|
            0 <= i < r.1@.len() ==> {
                &&& (#[trigger] r.1@[i]).pos == r.0@[i]
                &&& r.1@[i].z_index == 0
                &&& r.1@[i].rotation == 0
                &&& exists|pick: int| 0 <= pick < PICK_SPAN && r.1@[i].sprite == ground_sprite(pick)
            },
{
    let mut positions: Vec<(i32, i32)> = Vec::new();
    let mut tiles: Vec<Tile> = Vec::new();
    let mut k: usize = 0;
    while k < grids.len()
        invariant
            k <= grids@.len(),
            forall|j: int| 0 <= j < grids@.len() ==> area_grid(#[trigger] grids@[j]),
            forall|x: int, y: int|
                #![trigger positions@.contains((x as i32, y as i32))]
                i32::MIN <= x <= i32::MAX && i32::MIN <= y <= i32::MAX ==> (positions@.contains(
                    (x as i32, y as i32),
                ) <==> settled(union_ground(grids@), x, y) && union_has(grids@.take(k as int), x, y)),
            forall|i: int| 0 <= i < positions@.len() ==> settled(union_ground(grids@), #[trigger] positions@[i].0 as int, positions@[i].1 as int),
            positions@.no_duplicates(),
            tiles@.len() == positions@.len(),
            forall|i: int|
                0 <= i < tiles@.len() ==> {
                    &&& (#[trigger] tiles@[i]).pos == positions@[i]
                    &&& tiles@[i].z_index == 0
                    &&& tiles@[i].rotation == 0
                    &&& exists|pick: int| 0 <= pick < PICK_SPAN && tiles@[i].sprite == ground_sprite(pick)
                },
        decreases grids@.len() - k,
    {
        let mut i: usize = 0;
        while i < AREA_CELLS
            invariant
                k < grids@.len(),
                i <= AREA_CELLS,
                forall|j: int| 0 <= j < grids@.len() ==> area_grid(#[trigger] grids@[j]),
                forall|x: int, y: int|
                    #![trigger positions@.contains((x as i32, y as i32))]
                    i32::MIN <= x <= i32::MAX && i32::MIN <= y <= i32::MAX ==> (positions@.contains(
                        (x as i32, y as i32),
                    ) <==> settled(union_ground(grids@), x, y) && (union_has(grids@.take(k as int), x, y) || (
                    grids@[k as int].has(x, y) && cell_index(
                        x - grids@[k as int].x0,
                        y - grids@[k as int].y0,
                        AREA_H as int,
                    ) < i))),
                forall|i: int| 0 <= i < positions@.len() ==> settled(union_ground(grids@), #[trigger] positions@[i].0 as int, positions@[i].1 as int),
                positions@.no_duplicates(),
                tiles@.len() == positions@.len(),
                forall|i: int|
                    0 <= i < tiles@.len() ==> {
                        &&& (#[trigger] tiles@[i]).pos == positions@[i]
                        &&& tiles@[i].z_index == 0
                        &&& tiles@[i].rotation == 0
                        &&& exists|pick: int| 0 <= pick < PICK_SPAN && tiles@[i].sprite == ground_sprite(pick)
                    },
            decreases AREA_CELLS - i,
        {
            proof {
                lemma_area_pos(i as int);
            }
            let g = &grids[k];
            let x: i32 = g.x0 + (i / AREA_H) as i32;
            let y: i32 = g.y0 + (i % AREA_H) as i32;
            let ghost old_positions = positions@;
            let ghost old_tiles = tiles@;
            let ghost mut pushed = false;
            if g.contains(x, y) && !union_contains_before(grids, k, x, y) {
                let (count, sprite) = process_tile((x, y), grids);
                if count != 1 {
                    positions.push((x, y));
                    tiles.push(Tile::new((x, y), sprite, 0));
                    proof {
                        pushed = true;
                    }
                }
            }
            proof {
                if pushed {
                    assert(positions@ == old_positions.push((x, y)));
                    assert(!old_positions.contains((x, y))) by {
                        let gk = grids@[k as int];
                        lemma_cell_index_bounds(x - gk.x0, y - gk.y0, AREA_W as int, AREA_H as int);
                        assert(cell_index(x - gk.x0, y - gk.y0, AREA_H as int) == i);
                        assert(((x as int) as i32, (y as int) as i32) == (x, y));
                    }
                    assert forall|a: int, b: int| 0 <= a < b < positions@.len() implies positions@[a] != positions@[b] by {
                        if b == old_positions.len() {
                            assert(old_positions[a] == positions@[a]);
                        } else {
                            assert(old_positions[a] != old_positions[b]);
                        }
                    }
                    assert(grids@[k as int].has(x as int, y as int));
                    assert(!union_has(grids@.take(k as int), x as int, y as int));
                    assert(settled(union_ground(grids@), x as int, y as int));
                } else {
                    assert(positions@ == old_positions);
                    assert(grids@[k as int].has(x as int, y as int) ==> union_has(grids@, x as int, y as int));
                }
            }
            proof {
                assert forall|a: int, b: int|
                    #![trigger positions@.contains((a as i32, b as i32))]
                    i32::MIN <= a <= i32::MAX && i32::MIN <= b <= i32::MAX implies (positions@.contains(
                        (a as i32, b as i32),
                    ) <==> settled(union_ground(grids@), a, b) && (union_has(grids@.take(k as int), a, b) || (
                    grids@[k as int].has(a, b) && cell_index(
                        a - grids@[k as int].x0,
                        b - grids@[k as int].y0,
                        AREA_H as int,
                    ) < i + 1))) by {
                    let gk = grids@[k as int];
                    if gk.has(a, b) {
                        lemma_cell_index_bounds(a - gk.x0, b - gk.y0, AREA_W as int, AREA_H as int);
                        if cell_index(a - gk.x0, b - gk.y0, AREA_H as int) == i as int {
                            lemma_cell_index_injective(
                                a - gk.x0,
                                b - gk.y0,
                                i as int / AREA_H as int,
                                i as int % AREA_H as int,
                                AREA_H as int,
                            );
                            assert(a == x && b == y);
                        }
                    }
                    if old_positions.contains((a as i32, b as i32)) {
                        let w = choose|w: int| 0 <= w < old_positions.len() && old_positions[w] == (a as i32, b as i32);
                        assert(positions@[w] == (a as i32, b as i32));
                    }
                    if positions@.contains((a as i32, b as i32)) {
                        let w = choose|w: int| 0 <= w < positions@.len() && positions@[w] == (a as i32, b as i32);
                        if w < old_positions.len() {
                            assert(old_positions[w] == (a as i32, b as i32));
                        } else {
                            assert(a == x && b == y);
                        }
                    }
                    if pushed && a == x && b == y {
                        assert(positions@[positions@.len() - 1] == (a as i32, b as i32));
                    }
                    if settled(union_ground(grids@), a, b) {
                        assert(grids@[k as int] == gk);
                    }
                    if a == x && b == y && gk.has(a, b) && settled(union_ground(grids@), a, b) {
                        if union_has(grids@.take(k as int), a, b) {
                            let j = choose|j: int| 0 <= j < k && (#[trigger] grids@.take(k as int)[j]).has(a, b);
                            assert(grids@.take(k as int)[j] == grids@[j]);
                        }
                    }
                }
                assert forall|i2: int| 0 <= i2 < tiles@.len() implies {
                    &&& (#[trigger] tiles@[i2]).pos == positions@[i2]
                    &&& tiles@[i2].z_index == 0
                    &&& tiles@[i2].rotation == 0
                    &&& exists|pick: int| 0 <= pick < PICK_SPAN && tiles@[i2].sprite == ground_sprite(pick)
                } by {
                    if i2 < old_tiles.len() {
                        assert(tiles@[i2] == old_tiles[i2]);
                        assert(positions@[i2] == old_positions[i2]);
                    }
                }
            }
            i = i + 1;
        }
        proof {
            assert forall|a: int, b: int|
                #![trigger positions@.contains((a as i32, b as i32))]
                i32::MIN <= a <= i32::MAX && i32::MIN <= b <= i32::MAX implies (positions@.contains(
                    (a as i32, b as i32),
                ) <==> settled(union_ground(grids@), a, b) && union_has(grids@.take(k + 1), a, b)) by {
                let gk = grids@[k as int];
                if gk.has(a, b) {
                    lemma_cell_index_bounds(a - gk.x0, b - gk.y0, AREA_W as int, AREA_H as int);
                    assert(grids@.take(k + 1)[k as int] == gk);
                }
                if union_has(grids@.take(k as int), a, b) {
                    let j = choose|j: int| 0 <= j < k && (#[trigger] grids@.take(k as int)[j]).has(a, b);
                    assert(grids@.take(k + 1)[j] == grids@.take(k as int)[j]);
                }
                if union_has(grids@.take(k + 1), a, b) {
                    let j = choose|j: int| 0 <= j < k + 1 && (#[trigger] grids@.take(k + 1)[j]).has(a, b);
                    if j < k {
                        assert(grids@.take(k as int)[j] == grids@.take(k + 1)[j]);
                    }
                }
            }
        }
        k = k + 1;
    }
    proof {
        assert(grids@.take(grids@.len() as int) =~= grids@);
    }
    (positions, tiles)
}

/// Whether one of the grids before the `k`-th marks `(x, y)` as ground.
fn union_contains_before(grids: &Vec<GroundGrid>, k: usize, x: i32, y: i32) -> (r: bool)
    requires
        k <= grids@.len(),
        forall|j: int| 0 <= j < grids@.len() ==> (#[trigger] grids@[j]).wf(),
    ensures
        r == union_has(grids@.take(k as int), x as int, y as int),
{
    let mut j: usize = 0;
    while j < k
        invariant
            k <= grids@.len(),
            j <= k,
            forall|i: int| 0 <= i < grids@.len() ==> (#[trigger] grids@[i]).wf(),
            forall|i: int| 0 <= i < j ==> !(#[trigger] grids@[i]).has(x as int, y as int),
        decreases k - j,
    {
        if grids[j].contains(x, y) {
            assert(grids@.take(k as int)[j as int] == grids@[j as int]);
            return true;
        }
        j = j + 1;
    }
    proof {
        if union_has(grids@.take(k as int), x as int, y as int) {
            let i = choose|i: int| 0 <= i < k && (#[trigger] grids@.take(k as int)[i]).has(x as int, y as int);
            assert(grids@.take(k as int)[i] == grids@[i]);
        }
    }
    false
}

} // verus!
