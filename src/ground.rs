use vstd::prelude::*;
use crate::config::{CHUNK_H, CHUNK_W};
use crate::grid::{chunk_in_bounds, chunk_of, chunk_start, ipair, lemma_chunk_of_range};

verus! {

/// Largest side of a ground grid.
pub const MAX_GRID_SIDE: usize = 4096;

/// Row-major position of `(a, b)` in a grid with `h` cells per row.
pub open spec fn cell_index(a: int, b: int, h: int) -> int {
    a * h + b
}

pub proof fn lemma_cell_index_bounds(a: int, b: int, w: int, h: int)
    requires
        0 <= a < w,
        0 <= b < h,
    ensures
        0 <= a * h,
        a * h + b < w * h,
        0 <= cell_index(a, b, h) < w * h,
{
    assert(0 <= a * h && a * h + b < w * h) by (nonlinear_arith)
        requires
            0 <= a < w,
            0 <= b < h,
    ;
}

pub proof fn lemma_cell_index_injective(a: int, b: int, x: int, y: int, h: int)
    requires
        0 <= a,
        0 <= x,
        0 <= b < h,
        0 <= y < h,
        cell_index(a, b, h) == cell_index(x, y, h),
    ensures
        a == x,
        b == y,
{
    assert(a == x && b == y) by (nonlinear_arith)
        requires
            0 <= a,
            0 <= x,
            0 <= b < h,
            0 <= y < h,
            a * h + b == x * h + y,
    ;
}

/// A rectangle of the tile grid with one flag per position: whether it is ground.
pub struct GroundGrid {
    /// First column of the rectangle.
    pub x0: i32,
    /// First row of the rectangle.
    pub y0: i32,
    /// Number of columns.
    pub w: usize,
    /// Number of rows.
    pub h: usize,
    /// The flags, column after column.
    pub cells: Vec<bool>,
}

impl GroundGrid {
    pub open spec fn wf(&self) -> bool {
        &&& self.w <= MAX_GRID_SIDE
        &&& self.h <= MAX_GRID_SIDE
        &&& self.cells@.len() == self.w * self.h
        &&& self.x0 + self.w <= i32::MAX + 1
        &&& self.y0 + self.h <= i32::MAX + 1
    }

    /// Whether `(x, y)` lies in the rectangle.
    pub open spec fn covers(&self, x: int, y: int) -> bool {
        self.x0 <= x < self.x0 + self.w && self.y0 <= y < self.y0 + self.h
    }

    /// Whether `(x, y)` lies in the rectangle and is ground.
    pub open spec fn has(&self, x: int, y: int) -> bool {
        self.covers(x, y) && self.cells@[cell_index(x - self.x0, y - self.y0, self.h as int)]
    }

    /// A rectangle of `w` by `h` positions from `(x0, y0)` with no ground in it.
    pub fn new(x0: i32, y0: i32, w: usize, h: usize) -> (r: Self)
        requires
            w <= MAX_GRID_SIDE,
            h <= MAX_GRID_SIDE,
            x0 + w <= i32::MAX + 1,
            y0 + h <= i32::MAX + 1,
        ensures
            r.wf(),
            r.x0 == x0,
            r.y0 == y0,
            r.w == w,
            r.h == h,
            forall|x: int, y: int| !#[trigger] r.has(x, y),
    {
        proof {
            assert(w * h <= MAX_GRID_SIDE * MAX_GRID_SIDE) by (nonlinear_arith)
                requires
                    w <= MAX_GRID_SIDE,
                    h <= MAX_GRID_SIDE,
            ;
        }
        let n: usize = w * h;
        let mut cells: Vec<bool> = Vec::with_capacity(n);
        let mut i: usize = 0;
        while i < n
            invariant
                i <= n,
                cells@.len() == i,
                forall|k: int| 0 <= k < i ==> !cells@[k],
            decreases n - i,
        {
            cells.push(false);
            i = i + 1;
        }
        let r = GroundGrid { x0, y0, w, h, cells };
        assert forall|x: int, y: int| !#[trigger] r.has(x, y) by {
            if r.covers(x, y) {
                lemma_cell_index_bounds(x - x0, y - y0, w as int, h as int);
            }
        }
        r
    }

    /// Whether `(x, y)` is ground in this rectangle.
    pub fn contains(&self, x: i32, y: i32) -> (r: bool)
        requires
            self.wf(),
        ensures
            r == self.has(x as int, y as int),
    {
        let dx: i64 = x as i64 - self.x0 as i64;
        let dy: i64 = y as i64 - self.y0 as i64;
        if dx < 0 || dx >= self.w as i64 || dy < 0 || dy >= self.h as i64 {
            return false;
        }
        let n: usize = self.cells.len();
        proof {
            lemma_cell_index_bounds(dx as int, dy as int, self.w as int, self.h as int);
        }
        self.cells[dx as usize * self.h + dy as usize]
    }

    /// Marks `(x, y)` as ground; it must lie in the rectangle.
    pub fn set(&mut self, x: i32, y: i32)
        requires
            old(self).wf(),
            old(self).covers(x as int, y as int),
        ensures
            final(self).wf(),
            final(self).x0 == old(self).x0,
            final(self).y0 == old(self).y0,
            final(self).w == old(self).w,
            final(self).h == old(self).h,
            forall|a: int, b: int|
                #[trigger] final(self).has(a, b) == (old(self).has(a, b) || (a == x && b == y)),
    {
        let dx: usize = (x as i64 - self.x0 as i64) as usize;
        let dy: usize = (y as i64 - self.y0 as i64) as usize;
        let n: usize = self.cells.len();
        proof {
            lemma_cell_index_bounds(dx as int, dy as int, self.w as int, self.h as int);
        }
        let ghost before = *self;
        self.cells.set(dx * self.h + dy, true);
        proof {
            assert forall|a: int, b: int|
                #[trigger] self.has(a, b) == (before.has(a, b) || (a == x && b == y)) by {
                if self.covers(a, b) {
                    lemma_cell_index_bounds(a - self.x0, b - self.y0, self.w as int, self.h as int);
                }
                if self.covers(a, b) && !(a == x && b == y) {
                    if cell_index(a - self.x0, b - self.y0, self.h as int) == cell_index(
                        dx as int,
                        dy as int,
                        self.h as int,
                    ) {
                        lemma_cell_index_injective(
                            a - self.x0,
                            b - self.y0,
                            dx as int,
                            dy as int,
                            self.h as int,
                        );
                    }
                }
            }
        }
    }
}

/// Ground positions of one chunk.
pub struct GroundChunk {
    pub chunk: (i32, i32),
    pub grid: GroundGrid,
}

impl GroundChunk {
    pub open spec fn wf(&self) -> bool {
        &&& self.grid.wf()
        &&& chunk_in_bounds(ipair(self.chunk))
        &&& (self.grid.x0 as int, self.grid.y0 as int) == chunk_start(
            (self.chunk.0 as int, self.chunk.1 as int),
        )
        &&& self.grid.w == CHUNK_W
        &&& self.grid.h == CHUNK_H
    }
}

/// Every ground position of a chunk's grid lies in that chunk.
proof fn lemma_ground_chunk_owns(e: GroundChunk, a: int, b: int)
    requires
        e.wf(),
        e.grid.has(a, b),
    ensures
        chunk_of(a, b) == ipair(e.chunk),
{
    lemma_chunk_of_range(a, e.chunk.0 as int);
    lemma_chunk_of_range(b, e.chunk.1 as int);
}

/// Whether ground of chunk `c` is still kept while the player stands in chunk
/// `center`: it shares a column or a row of chunks with it, give or take one.
pub open spec fn ground_kept(c: (int, int), center: (int, int)) -> bool {
    (-1 <= c.0 - center.0 <= 1) || (-1 <= c.1 - center.1 <= 1)
}

/// The set of grid positions known to be walkable ground, kept chunk by chunk.
pub struct GroundTiles {
    pub chunks: Vec<GroundChunk>,
}

impl GroundTiles {
    pub open spec fn wf(&self) -> bool {
        &&& forall|i: int| 0 <= i < self.chunks@.len() ==> (#[trigger] self.chunks@[i]).wf()
        &&& forall|i: int, j: int|
            0 <= i < j < self.chunks@.len() ==> #[trigger] self.chunks@[i].chunk
                != #[trigger] self.chunks@[j].chunk
    }

    /// Whether `(x, y)` is known ground.
    pub open spec fn has(&self, x: int, y: int) -> bool {
        exists|i: int| 0 <= i < self.chunks@.len() && (#[trigger] self.chunks@[i]).grid.has(x, y)
    }

    /// The known ground positions.
    pub open spec fn view(&self) -> Set<(int, int)> {
        Set::new(|p: (int, int)| self.has(p.0, p.1))
    }

    /// No ground known yet.
    pub fn new() -> (r: Self)
        ensures
            r.wf(),
            r@ == Set::<(int, int)>::empty(),
    {
        let r = GroundTiles { chunks: Vec::new() };
        assert(r@ =~= Set::<(int, int)>::empty());
        r
    }

    /// Whether `(x, y)` is known ground.
    pub fn contains(&self, x: i32, y: i32) -> (r: bool)
        requires
            self.wf(),
        ensures
            r == self@.contains((x as int, y as int)),
    {
        let mut i: usize = 0;
        while i < self.chunks.len()
            invariant
                self.wf(),
                i <= self.chunks@.len(),
                forall|j: int| 0 <= j < i ==> !(#[trigger] self.chunks@[j]).grid.has(x as int, y as int),
            decreases self.chunks@.len() - i,
        {
            if self.chunks[i].grid.contains(x, y) {
                return true;
            }
            i = i + 1;
        }
        false
    }

    /// Forgets every ground position.
    pub fn clear(&mut self)
        ensures
            final(self).wf(),
            final(self)@ == Set::<(int, int)>::empty(),
    {
        self.chunks = Vec::new();
        assert(self@ =~= Set::<(int, int)>::empty());
    }

    /// Records `(x, y)` as ground.
    pub fn insert(&mut self, x: i32, y: i32)
        requires
            old(self).wf(),
            chunk_in_bounds(chunk_of(x as int, y as int)),
        ensures
            final(self).wf(),
            final(self)@ == old(self)@.insert((x as int, y as int)),
    {
        let c = crate::grid::grid_to_chunk(x, y);
        let start = crate::grid::chunk_start_of(c);
        let ghost before = *self;
        let mut i: usize = 0;
        while i < self.chunks.len()
            invariant
                *self == before,
                self.wf(),
                i <= self.chunks@.len(),
                forall|j: int| 0 <= j < i ==> (#[trigger] self.chunks@[j]).chunk != c,
            ensures
                *self == before,
                i <= self.chunks@.len(),
                forall|j: int| 0 <= j < i ==> (#[trigger] self.chunks@[j]).chunk != c,
                i < self.chunks@.len() ==> self.chunks@[i as int].chunk == c,
            decreases self.chunks@.len() - i,
        {
            if self.chunks[i].chunk.0 == c.0 && self.chunks[i].chunk.1 == c.1 {
                break;
            }
            i = i + 1;
        }
        if i == self.chunks.len() {
            let grid = GroundGrid::new(start.0, start.1, CHUNK_W, CHUNK_H);
            self.chunks.push(GroundChunk { chunk: c, grid });
            assert(forall|a: int, b: int| !self.chunks@[i as int].grid.has(a, b));
            assert forall|a: int, b: int| #[trigger] self.has(a, b) == before.has(a, b) by {
                if self.has(a, b) {
                    let k = choose|k: int| 0 <= k < self.chunks@.len() && (#[trigger] self.chunks@[k]).grid.has(a, b);
                    assert(k != i);
                    assert(before.chunks@[k] == self.chunks@[k]);
                }
                if before.has(a, b) {
                    let k = choose|k: int| 0 <= k < before.chunks@.len() && (#[trigger] before.chunks@[k]).grid.has(a, b);
                    assert(self.chunks@[k] == before.chunks@[k]);
                }
            }
        }
        proof {
            crate::grid::lemma_chunk_of_range(x as int, c.0 as int);
            crate::grid::lemma_chunk_of_range(y as int, c.1 as int);
        }
        let ghost mid = *self;
        let mut entry = self.chunks.remove(i);
        entry.grid.set(x, y);
        self.chunks.insert(i, entry);
        assert forall|a: int, b: int| #[trigger] self.has(a, b) == (mid.has(a, b) || (a == x && b == y)) by {
            if self.has(a, b) {
                let k = choose|k: int| 0 <= k < self.chunks@.len() && (#[trigger] self.chunks@[k]).grid.has(a, b);
                if k != i {
                    assert(mid.chunks@[k] == self.chunks@[k]);
                }
            }
            if mid.has(a, b) {
                let k = choose|k: int| 0 <= k < mid.chunks@.len() && (#[trigger] mid.chunks@[k]).grid.has(a, b);
                if k != i {
                    assert(self.chunks@[k] == mid.chunks@[k]);
                } else {
                    assert(self.chunks@[k].grid.has(a, b));
                }
            }
            if a == x && b == y {
                assert(self.chunks@[i as int].grid.has(a, b));
            }
        }
        assert(self@ =~= before@.insert((x as int, y as int)));
    }
}

/// Whether ground of chunk `c` is kept while the player stands in chunk `center`.
pub fn is_ground_kept(c: (i32, i32), center: (i32, i32)) -> (r: bool)
    ensures
        r == ground_kept(ipair(c), ipair(center)),
{
    let dx: i64 = c.0 as i64 - center.0 as i64;
    let dy: i64 = c.1 as i64 - center.1 as i64;
    (-1 <= dx && dx <= 1) || (-1 <= dy && dy <= 1)
}

/// Forgets the ground of every chunk that shares neither a column nor a row of
/// chunks, give or take one, with the player's chunk.
pub fn clean_ground_tiles(player_chunk: (i32, i32), ground_tiles: &mut GroundTiles)
    requires
        old(ground_tiles).wf(),
    ensures
        final(ground_tiles).wf(),
        final(ground_tiles)@ == old(ground_tiles)@.filter(
            |p: (int, int)| ground_kept(chunk_of(p.0, p.1), ipair(player_chunk)),
        ),
{
    let ghost before = *ground_tiles;
    let ghost center = ipair(player_chunk);
    let mut kept: Vec<GroundChunk> = Vec::new();
    let ghost mut from: Seq<int> = Seq::empty();
    while ground_tiles.chunks.len() > 0
        invariant
            before.wf(),
            center == ipair(player_chunk),
            ground_tiles.chunks@.len() <= before.chunks@.len(),
            ground_tiles.chunks@ == before.chunks@.subrange(0, ground_tiles.chunks@.len() as int),
            from.len() == kept@.len(),
            forall|k: int|
                0 <= k < from.len() ==> {
                    &&& ground_tiles.chunks@.len() <= #[trigger] from[k] < before.chunks@.len()
                    &&& kept@[k] == before.chunks@[from[k]]
                    &&& ground_kept(ipair(kept@[k].chunk), center)
                },
            forall|k1: int, k2: int|
                0 <= k1 < k2 < from.len() ==> #[trigger] from[k1] != #[trigger] from[k2],
            forall|j: int|
                ground_tiles.chunks@.len() <= j < before.chunks@.len() && ground_kept(
                    ipair(#[trigger] before.chunks@[j].chunk),
                    center,
                ) ==> exists|k: int| 0 <= k < from.len() && from[k] == j,
        decreases ground_tiles.chunks@.len(),
    {
        let ghost j = ground_tiles.chunks@.len() - 1;
        let ghost old_from = from;
        let ghost old_kept = kept@;
        let entry = ground_tiles.chunks.pop().unwrap();
        assert(ground_tiles.chunks@ =~= before.chunks@.subrange(0, j));
        assert(entry == before.chunks@[j]);
        if is_ground_kept(entry.chunk, player_chunk) {
            proof {
                from = from.push(j);
            }
            kept.push(entry);
            proof {
                assert forall|k: int| 0 <= k < from.len() implies {
                    &&& ground_tiles.chunks@.len() <= #[trigger] from[k] < before.chunks@.len()
                    &&& kept@[k] == before.chunks@[from[k]]
                    &&& ground_kept(ipair(kept@[k].chunk), center)
                } by {
                    if k < old_from.len() {
                        assert(from[k] == old_from[k]);
                        assert(kept@[k] == old_kept[k]);
                    } else {
                        assert(from[k] == j);
                        assert(kept@[k] == entry);
                    }
                }
                assert forall|j2: int|
                    ground_tiles.chunks@.len() <= j2 < before.chunks@.len() && ground_kept(
                        ipair(#[trigger] before.chunks@[j2].chunk),
                        center,
                    ) implies exists|k: int| 0 <= k < from.len() && from[k] == j2 by {
                    if j2 == j {
                        assert(from[from.len() - 1] == j);
                    } else {
                        let k = choose|k: int| 0 <= k < old_from.len() && old_from[k] == j2;
                        assert(from[k] == old_from[k]);
                    }
                }
            }
        } else {
            proof {
                assert forall|j2: int|
                    ground_tiles.chunks@.len() <= j2 < before.chunks@.len() && ground_kept(
                        ipair(#[trigger] before.chunks@[j2].chunk),
                        center,
                    ) implies exists|k: int| 0 <= k < from.len() && from[k] == j2 by {
                    if j2 != j {
                        let k = choose|k: int| 0 <= k < old_from.len() && old_from[k] == j2;
                        assert(from[k] == j2);
                    }
                }
            }
        }
    }
    ground_tiles.chunks = kept;
    proof {
        assert forall|i: int| 0 <= i < ground_tiles.chunks@.len() implies (
        #[trigger] ground_tiles.chunks@[i]).wf() by {
            assert(from[i] == from[i]);
            assert(before.chunks@[from[i]].wf());
        }
        assert forall|i: int, j: int|
            0 <= i < j < ground_tiles.chunks@.len() implies #[trigger] ground_tiles.chunks@[i].chunk
            != #[trigger] ground_tiles.chunks@[j].chunk by {
            assert(from[i] != from[j]);
            if from[i] < from[j] {
                assert(before.chunks@[from[i]].chunk != before.chunks@[from[j]].chunk);
            } else {
                assert(before.chunks@[from[j]].chunk != before.chunks@[from[i]].chunk);
            }
        }
        let keep = |p: (int, int)| ground_kept(chunk_of(p.0, p.1), center);
        assert forall|p: (int, int)| #[trigger] ground_tiles@.contains(p) == before@.filter(keep).contains(p) by {
            if ground_tiles.has(p.0, p.1) {
                let k = choose|k: int| 0 <= k < ground_tiles.chunks@.len() && (#[trigger] ground_tiles.chunks@[k]).grid.has(p.0, p.1);
                assert(from[k] == from[k]);
                lemma_ground_chunk_owns(ground_tiles.chunks@[k], p.0, p.1);
                assert(before.chunks@[from[k]].grid.has(p.0, p.1));
            }
            if before.has(p.0, p.1) && keep(p) {
                let j = choose|j: int| 0 <= j < before.chunks@.len() && (#[trigger] before.chunks@[j]).grid.has(p.0, p.1);
                lemma_ground_chunk_owns(before.chunks@[j], p.0, p.1);
                assert(ground_kept(ipair(before.chunks@[j].chunk), center));
                let k = choose|k: int| 0 <= k < from.len() && from[k] == j;
                assert(ground_tiles.chunks@[k].grid.has(p.0, p.1));
            }
        }
        assert(ground_tiles@ =~= before@.filter(keep));
    }
}

} // verus!
