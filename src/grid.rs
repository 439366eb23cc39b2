use vstd::prelude::*;
use crate::config::{CHUNK_H, CHUNK_W, GRID_COLS, GRID_ROWS};

verus! {

/// The chunk that holds a grid position: floor division by the chunk size.
pub open spec fn chunk_of(x: int, y: int) -> (int, int) {
    (x / CHUNK_W as int, y / CHUNK_H as int)
}

/// A position lies in chunk `c` exactly when it lies between the start of `c`
/// and the start of the next chunk.
pub proof fn lemma_chunk_of_range(x: int, c: int)
    ensures
        (x / 50 == c) <==> (50 * c <= x < 50 * c + 50),
{
    vstd::arithmetic::div_mod::lemma_fundamental_div_mod(x, 50);
    vstd::arithmetic::div_mod::lemma_mod_bound(x, 50);
}

/// Floor division of `v` by a chunk side of 50.
fn floor_div_chunk(v: i32) -> (r: i32)
    ensures
        r == v as int / 50,
{
    // 2147483650 is a multiple of 50 that lifts every i32 to a non-negative value.
    let lifted: i64 = v as i64 + 2147483650;
    let q: i64 = lifted / 50;
    proof {
        vstd::arithmetic::div_mod::lemma_hoist_over_denominator(v as int, 42949673, 50);
    }
    (q - 42949673) as i32
}

/// The chunk that holds the grid position `(x, y)`.
pub fn grid_to_chunk(x: i32, y: i32) -> (r: (i32, i32))
    ensures
        (r.0 as int, r.1 as int) == chunk_of(x as int, y as int),
{
    (floor_div_chunk(x), floor_div_chunk(y))
}

/// Moves a grid position measured from the centre of the map to one measured
/// from its top-left corner, with y growing downwards.
pub fn center_to_top_left_grid(x: i32, y: i32) -> (r: (i32, i32))
    requires
        x + GRID_COLS / 2 <= i32::MAX,
        GRID_ROWS / 2 - y <= i32::MAX,
    ensures
        r.0 == x + GRID_COLS / 2,
        r.1 == GRID_ROWS / 2 - y,
{
    (x + (GRID_COLS / 2) as i32, (GRID_ROWS / 2) as i32 - y)
}

/// A pair of coordinates as mathematical integers.
pub open spec fn ipair(c: (i32, i32)) -> (int, int) {
    (c.0 as int, c.1 as int)
}

/// Two chunks are neighbours, or the same, when they differ by at most one in each axis.
pub open spec fn chunk_near(a: (int, int), b: (int, int)) -> bool {
    -1 <= a.0 - b.0 <= 1 && -1 <= a.1 - b.1 <= 1
}

/// Whether chunk `c` lies in the three-by-three block around `center`.
pub fn is_chunk_near(c: (i32, i32), center: (i32, i32)) -> (r: bool)
    ensures
        r == chunk_near((c.0 as int, c.1 as int), (center.0 as int, center.1 as int)),
{
    let dx: i64 = c.0 as i64 - center.0 as i64;
    let dy: i64 = c.1 as i64 - center.1 as i64;
    -1 <= dx && dx <= 1 && -1 <= dy && dy <= 1
}

/// The grid position of the first tile of chunk `c`.
pub open spec fn chunk_start(c: (int, int)) -> (int, int) {
    (c.0 * CHUNK_W as int, c.1 * CHUNK_H as int)
}

/// Bounds on a chunk coordinate under which every tile position of the chunk,
/// with the margin that generation looks at, fits an `i32`.
pub open spec fn chunk_in_bounds(c: (int, int)) -> bool {
    -40_000_000 <= c.0 <= 40_000_000 && -40_000_000 <= c.1 <= 40_000_000
}

/// The grid position of the first tile of chunk `c`.
pub fn chunk_start_of(c: (i32, i32)) -> (r: (i32, i32))
    requires
        chunk_in_bounds((c.0 as int, c.1 as int)),
    ensures
        (r.0 as int, r.1 as int) == chunk_start((c.0 as int, c.1 as int)),
{
    (c.0 * CHUNK_W as i32, c.1 * CHUNK_H as i32)
}

/// The offsets of the chunks that an update looks at, in the order it visits them:
/// the eight neighbours, then the chunk itself.
pub open spec fn neighbour_offsets() -> Seq<(int, int)> {
    seq![(-1, 0), (1, 0), (0, -1), (0, 1), (-1, 1), (1, 1), (-1, -1), (1, -1), (0, 0)]
}

} // verus!
