use vstd::prelude::*;
use crate::grid::{chunk_near, ipair, is_chunk_near};

verus! {

/// The entities that show the tiles of one chunk.
pub struct ChunkEntities {
    pub chunk: (i32, i32),
    pub entities: Vec<u64>,
}

/// The chunks that are on screen, each with the entities that show its tiles.
pub struct CurrentChunks {
    pub entries: Vec<ChunkEntities>,
}

impl CurrentChunks {
    /// No chunk is listed twice.
    pub open spec fn wf(&self) -> bool {
        forall|i: int, j: int|
            0 <= i < j < self.entries@.len() ==> ipair(#[trigger] self.entries@[i].chunk) != ipair(
                #[trigger] self.entries@[j].chunk,
            )
    }

    /// Whether chunk `c` is listed.
    pub open spec fn has_chunk(&self, c: (int, int)) -> bool {
        exists|i: int| 0 <= i < self.entries@.len() && ipair(#[trigger] self.entries@[i].chunk) == c
    }

    /// Each listed chunk with its entities.
    pub open spec fn view(&self) -> Map<(int, int), Seq<u64>> {
        Map::new(
            |c: (int, int)| self.has_chunk(c),
            |c: (int, int)|
                self.entries@[choose|i: int|
                    0 <= i < self.entries@.len() && ipair(#[trigger] self.entries@[i].chunk)
                        == c].entities@,
        )
    }

    /// The entry at `i` is what the view holds for its chunk.
    pub proof fn lemma_entry(&self, i: int)
        requires
            self.wf(),
            0 <= i < self.entries@.len(),
        ensures
            self@.contains_key(ipair(self.entries@[i].chunk)),
            self@[ipair(self.entries@[i].chunk)] == self.entries@[i].entities@,
    {
        let c = ipair(self.entries@[i].chunk);
        assert(self.has_chunk(c));
        let j = choose|j: int| 0 <= j < self.entries@.len() && ipair(#[trigger] self.entries@[j].chunk) == c;
        if j < i {
            assert(ipair(self.entries@[j].chunk) != ipair(self.entries@[i].chunk));
        } else if i < j {
            assert(ipair(self.entries@[i].chunk) != ipair(self.entries@[j].chunk));
        }
    }

    /// No chunk on screen.
    pub fn new() -> (r: Self)
        ensures
            r.wf(),
            r@ == Map::<(int, int), Seq<u64>>::empty(),
    {
        let r = CurrentChunks { entries: Vec::new() };
        assert(r@ =~= Map::<(int, int), Seq<u64>>::empty());
        r
    }

    /// Forgets every chunk.
    pub fn clear(&mut self)
        ensures
            final(self).wf(),
            final(self)@ == Map::<(int, int), Seq<u64>>::empty(),
    {
        self.entries = Vec::new();
        assert(self@ =~= Map::<(int, int), Seq<u64>>::empty());
    }

    /// The position of chunk `c` among the entries, if it is listed.
    fn find(&self, c: (i32, i32)) -> (r: Option<usize>)
        requires
            self.wf(),
        ensures
            r is None ==> !self.has_chunk(ipair(c)),
            r matches Some(i) ==> i < self.entries@.len() && self.entries@[i as int].chunk == c,
    {
        let mut i: usize = 0;
        while i < self.entries.len()
            invariant
                i <= self.entries@.len(),
                forall|j: int| 0 <= j < i ==> ipair(#[trigger] self.entries@[j].chunk) != ipair(c),
            decreases self.entries@.len() - i,
        {
            if self.entries[i].chunk.0 == c.0 && self.entries[i].chunk.1 == c.1 {
                return Some(i);
            }
            i = i + 1;
        }
        None
    }

    /// Whether chunk `c` is on screen.
    pub fn contains_key(&self, c: (i32, i32)) -> (r: bool)
        requires
            self.wf(),
        ensures
            r == self@.contains_key(ipair(c)),
    {
        match self.find(c) {
            Some(_) => true,
            None => false,
        }
    }

    /// Records that entity `e` shows a tile of chunk `c`.
    pub fn record(&mut self, c: (i32, i32), e: u64)
        requires
            old(self).wf(),
        ensures
            final(self).wf(),
            final(self)@ == old(self)@.insert(
                ipair(c),
                if old(self)@.contains_key(ipair(c)) {
                    old(self)@[ipair(c)].push(e)
                } else {
                    seq![e]
                },
            ),
    {
        let ghost before = *self;
        match self.find(c) {
            Some(i) => {
                let mut entry = self.entries.remove(i);
                entry.entities.push(e);
                self.entries.insert(i, entry);
                assert(self.entries@ == before.entries@.update(i as int, self.entries@[i as int]));
                proof {
                    before.lemma_entry(i as int);
                    assert forall|a: int, b: int|
                        0 <= a < b < self.entries@.len() implies ipair(
                            #[trigger] self.entries@[a].chunk,
                        ) != ipair(#[trigger] self.entries@[b].chunk) by {
                        assert(before.entries@[a].chunk == self.entries@[a].chunk);
                        assert(before.entries@[b].chunk == self.entries@[b].chunk);
                    }
                    assert forall|k: (int, int)| #[trigger] self.has_chunk(k) == before.has_chunk(k) by {
                        if self.has_chunk(k) {
                            let j = choose|j: int| 0 <= j < self.entries@.len() && ipair(#[trigger] self.entries@[j].chunk) == k;
                            assert(before.entries@[j].chunk == self.entries@[j].chunk);
                        }
                        if before.has_chunk(k) {
                            let j = choose|j: int| 0 <= j < before.entries@.len() && ipair(#[trigger] before.entries@[j].chunk) == k;
                            assert(before.entries@[j].chunk == self.entries@[j].chunk);
                        }
                    }
                    assert forall|k: (int, int)| self.has_chunk(k) implies #[trigger] self@[k] == before@.insert(ipair(c), before@[ipair(c)].push(e))[k] by {
                        let j = choose|j: int| 0 <= j < self.entries@.len() && ipair(#[trigger] self.entries@[j].chunk) == k;
                        self.lemma_entry(j);
                        if j != i {
                            assert(before.entries@[j] == self.entries@[j]);
                            before.lemma_entry(j);
                        }
                    }
                    assert(self@ =~= before@.insert(ipair(c), before@[ipair(c)].push(e)));
                }
            },
            None => {
                let mut entities: Vec<u64> = Vec::new();
                entities.push(e);
                self.entries.push(ChunkEntities { chunk: c, entities });
                proof {
                    let n = before.entries@.len() as int;
                    assert forall|a: int, b: int|
                        0 <= a < b < self.entries@.len() implies ipair(
                            #[trigger] self.entries@[a].chunk,
                        ) != ipair(#[trigger] self.entries@[b].chunk) by {
                        if b == n {
                            assert(self.entries@[a] == before.entries@[a]);
                            assert(before.has_chunk(ipair(before.entries@[a].chunk)));
                        } else {
                            assert(self.entries@[a] == before.entries@[a]);
                            assert(self.entries@[b] == before.entries@[b]);
                        }
                    }
                    assert forall|k: (int, int)| #[trigger] self.has_chunk(k) == (before.has_chunk(k) || k == ipair(c)) by {
                        if self.has_chunk(k) {
                            let j = choose|j: int| 0 <= j < self.entries@.len() && ipair(#[trigger] self.entries@[j].chunk) == k;
                            if j < n {
                                assert(before.entries@[j] == self.entries@[j]);
                            }
                        }
                        if before.has_chunk(k) {
                            let j = choose|j: int| 0 <= j < before.entries@.len() && ipair(#[trigger] before.entries@[j].chunk) == k;
                            assert(before.entries@[j] == self.entries@[j]);
                        }
                        if k == ipair(c) {
                            assert(ipair(self.entries@[n].chunk) == k);
                        }
                    }
                    assert forall|k: (int, int)| self.has_chunk(k) implies #[trigger] self@[k] == before@.insert(ipair(c), seq![e])[k] by {
                        let j = choose|j: int| 0 <= j < self.entries@.len() && ipair(#[trigger] self.entries@[j].chunk) == k;
                        self.lemma_entry(j);
                        if j != n {
                            assert(before.entries@[j] == self.entries@[j]);
                            before.lemma_entry(j);
                        } else {
                            assert(self.entries@[j].entities@ =~= seq![e]);
                        }
                    }
                    assert(self@ =~= before@.insert(ipair(c), seq![e]));
                }
            },
        }
    }
}

/// Appends every id of `src` to `dst`, in order.
fn append_ids(dst: &mut Vec<u64>, src: &Vec<u64>)
    ensures
        final(dst)@ == old(dst)@ + src@,
{
    let ghost before = dst@;
    let mut i: usize = 0;
    while i < src.len()
        invariant
            i <= src@.len(),
            dst@ == before + src@.take(i as int),
        decreases src@.len() - i,
    {
        dst.push(src[i]);
        assert(src@.take(i + 1) =~= src@.take(i as int).push(src@[i as int]));
        i = i + 1;
    }
    assert(src@.take(src@.len() as int) =~= src@);
}

/// Drops every chunk outside the three-by-three block around the player's chunk
/// and returns the entities that showed the dropped chunks, so that they can be
/// despawned.
pub fn despawn_chunks(current_chunks: &mut CurrentChunks, player_chunk: (i32, i32)) -> (r: Vec<u64>)
    requires
        old(current_chunks).wf(),
    ensures
        final(current_chunks).wf(),
        forall|c: (int, int)| #[trigger]
            final(current_chunks)@.contains_key(c) == (old(current_chunks)@.contains_key(c)
                && chunk_near(c, ipair(player_chunk))),
        forall|c: (int, int)| #[trigger]
            final(current_chunks)@.contains_key(c) ==> final(current_chunks)@[c] == old(
                current_chunks,
            )@[c],
        forall|e: u64| #[trigger]
            r@.contains(e) <==> exists|c: (int, int)| #[trigger]
                old(current_chunks)@.contains_key(c) && !chunk_near(c, ipair(player_chunk)) && old(
                    current_chunks,
                )@[c].contains(e),
{
    let ghost before = *current_chunks;
    let ghost center = ipair(player_chunk);
    let mut kept: Vec<ChunkEntities> = Vec::new();
    let mut despawned: Vec<u64> = Vec::new();
    let ghost mut from: Seq<int> = Seq::empty();
    while current_chunks.entries.len() > 0
        invariant
            before.wf(),
            center == ipair(player_chunk),
            current_chunks.entries@.len() <= before.entries@.len(),
            current_chunks.entries@ == before.entries@.subrange(
                0,
                current_chunks.entries@.len() as int,
            ),
            from.len() == kept@.len(),
            forall|k: int|
                0 <= k < from.len() ==> {
                    &&& current_chunks.entries@.len() <= #[trigger] from[k] < before.entries@.len()
                    &&& kept@[k] == before.entries@[from[k]]
                    &&& chunk_near(ipair(kept@[k].chunk), center)
                },
            forall|k1: int, k2: int|
                0 <= k1 < k2 < from.len() ==> #[trigger] from[k1] != #[trigger] from[k2],
            forall|j: int|
                current_chunks.entries@.len() <= j < before.entries@.len() && chunk_near(
                    ipair(#[trigger] before.entries@[j].chunk),
                    center,
                ) ==> exists|k: int| 0 <= k < from.len() && from[k] == j,
            forall|e: u64| #[trigger]
                despawned@.contains(e) <==> exists|j: int|
                    current_chunks.entries@.len() <= j < before.entries@.len() && !chunk_near(
                        ipair(#[trigger] before.entries@[j].chunk),
                        center,
                    ) && before.entries@[j].entities@.contains(e),
        decreases current_chunks.entries@.len(),
    {
        let ghost j = current_chunks.entries@.len() - 1;
        let ghost old_from = from;
        let ghost old_kept = kept@;
        let ghost old_despawned = despawned@;
        let entry = current_chunks.entries.pop().unwrap();
        assert(current_chunks.entries@ =~= before.entries@.subrange(0, j));
        assert(entry == before.entries@[j]);
        if is_chunk_near(entry.chunk, player_chunk) {
            proof {
                from = from.push(j);
            }
            kept.push(entry);
            proof {
                assert forall|k: int| 0 <= k < from.len() implies {
                    &&& current_chunks.entries@.len() <= #[trigger] from[k] < before.entries@.len()
                    &&& kept@[k] == before.entries@[from[k]]
                    &&& chunk_near(ipair(kept@[k].chunk), center)
                } by {
                    if k < old_from.len() {
                        assert(from[k] == old_from[k]);
                        assert(kept@[k] == old_kept[k]);
                    } else {
                        assert(from[k] == j);
                        assert(kept@[k] == entry);
                    }
                }
                assert forall|j2: int|
                    current_chunks.entries@.len() <= j2 < before.entries@.len() && chunk_near(
                        ipair(#[trigger] before.entries@[j2].chunk),
                        center,
                    ) implies exists|k: int| 0 <= k < from.len() && from[k] == j2 by {
                    if j2 == j {
                        assert(from[from.len() - 1] == j);
                    } else {
                        let k = choose|k: int| 0 <= k < old_from.len() && old_from[k] == j2;
                        assert(from[k] == old_from[k]);
                    }
                }
                assert forall|e: u64|
                    exists|j2: int|
                        current_chunks.entries@.len() <= j2 < before.entries@.len() && !chunk_near(
                            ipair(#[trigger] before.entries@[j2].chunk),
                            center,
                        ) && before.entries@[j2].entities@.contains(e) implies #[trigger] despawned@.contains(e) by {
                    let j2 = choose|j2: int|
                        current_chunks.entries@.len() <= j2 < before.entries@.len() && !chunk_near(
                            ipair(#[trigger] before.entries@[j2].chunk),
                            center,
                        ) && before.entries@[j2].entities@.contains(e);
                    assert(j2 != j);
                }
            }
        } else {
            append_ids(&mut despawned, &entry.entities);
            proof {
                assert forall|j2: int|
                    current_chunks.entries@.len() <= j2 < before.entries@.len() && chunk_near(
                        ipair(#[trigger] before.entries@[j2].chunk),
                        center,
                    ) implies exists|k: int| 0 <= k < from.len() && from[k] == j2 by {
                    if j2 != j {
                        let k = choose|k: int| 0 <= k < old_from.len() && old_from[k] == j2;
                        assert(from[k] == j2);
                    }
                }
                assert forall|e: u64| #[trigger]
                    despawned@.contains(e) <==> exists|j2: int|
                        current_chunks.entries@.len() <= j2 < before.entries@.len() && !chunk_near(
                            ipair(#[trigger] before.entries@[j2].chunk),
                            center,
                        ) && before.entries@[j2].entities@.contains(e) by {
                    if despawned@.contains(e) {
                        let p = choose|p: int| 0 <= p < despawned@.len() && despawned@[p] == e;
                        if p < old_despawned.len() {
                            assert(old_despawned[p] == e);
                            assert(old_despawned.contains(e));
                        } else {
                            assert(entry.entities@[p - old_despawned.len()] == e);
                            assert(before.entries@[j].entities@.contains(e));
                        }
                    }
                    if exists|j2: int|
                        current_chunks.entries@.len() <= j2 < before.entries@.len() && !chunk_near(
                            ipair(#[trigger] before.entries@[j2].chunk),
                            center,
                        ) && before.entries@[j2].entities@.contains(e) {
                        let j2 = choose|j2: int|
                            current_chunks.entries@.len() <= j2 < before.entries@.len() && !chunk_near(
                                ipair(#[trigger] before.entries@[j2].chunk),
                                center,
                            ) && before.entries@[j2].entities@.contains(e);
                        if j2 == j {
                            let p = choose|p: int| 0 <= p < entry.entities@.len() && entry.entities@[p] == e;
                            assert(despawned@[old_despawned.len() + p] == e);
                        } else {
                            assert(old_despawned.contains(e));
                            let p = choose|p: int| 0 <= p < old_despawned.len() && old_despawned[p] == e;
                            assert(despawned@[p] == e);
                        }
                    }
                }
            }
        }
    }
    current_chunks.entries = kept;
    proof {
        assert forall|a: int, b: int|
            0 <= a < b < current_chunks.entries@.len() implies ipair(
                #[trigger] current_chunks.entries@[a].chunk,
            ) != ipair(#[trigger] current_chunks.entries@[b].chunk) by {
            assert(from[a] != from[b]);
            if from[a] < from[b] {
                assert(ipair(before.entries@[from[a]].chunk) != ipair(before.entries@[from[b]].chunk));
            } else {
                assert(ipair(before.entries@[from[b]].chunk) != ipair(before.entries@[from[a]].chunk));
            }
        }
        assert forall|c: (int, int)| #[trigger]
            current_chunks@.contains_key(c) == (before@.contains_key(c) && chunk_near(c, center)) by {
            if current_chunks.has_chunk(c) {
                let k = choose|k: int| 0 <= k < current_chunks.entries@.len() && ipair(#[trigger] current_chunks.entries@[k].chunk) == c;
                assert(from[k] == from[k]);
                assert(ipair(before.entries@[from[k]].chunk) == c);
            }
            if before.has_chunk(c) && chunk_near(c, center) {
                let j = choose|j: int| 0 <= j < before.entries@.len() && ipair(#[trigger] before.entries@[j].chunk) == c;
                let k = choose|k: int| 0 <= k < from.len() && from[k] == j;
                assert(ipair(current_chunks.entries@[k].chunk) == c);
            }
        }
        assert forall|c: (int, int)| #[trigger] current_chunks@.contains_key(c) implies current_chunks@[c] == before@[c] by {
            let k = choose|k: int| 0 <= k < current_chunks.entries@.len() && ipair(#[trigger] current_chunks.entries@[k].chunk) == c;
            current_chunks.lemma_entry(k);
            assert(from[k] == from[k]);
            before.lemma_entry(from[k]);
        }
        assert forall|e: u64| #[trigger]
            despawned@.contains(e) <==> exists|c: (int, int)| #[trigger]
                before@.contains_key(c) && !chunk_near(c, center) && before@[c].contains(e) by {
            if despawned@.contains(e) {
                let j = choose|j: int|
                    0 <= j < before.entries@.len() && !chunk_near(
                        ipair(#[trigger] before.entries@[j].chunk),
                        center,
                    ) && before.entries@[j].entities@.contains(e);
                before.lemma_entry(j);
                let c = ipair(before.entries@[j].chunk);
                assert(before@.contains_key(c) && !chunk_near(c, center) && before@[c].contains(e));
            }
            if exists|c: (int, int)| #[trigger]
                before@.contains_key(c) && !chunk_near(c, center) && before@[c].contains(e) {
                let c = choose|c: (int, int)| #[trigger]
                    before@.contains_key(c) && !chunk_near(c, center) && before@[c].contains(e);
                let j = choose|j: int| 0 <= j < before.entries@.len() && ipair(#[trigger] before.entries@[j].chunk) == c;
                before.lemma_entry(j);
                assert(before.entries@[j].entities@.contains(e));
            }
        }
    }
    despawned
}

} // verus!
