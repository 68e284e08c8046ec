//! Chunk streaming: the set of terrain chunks materialized around a moving
//! reference point.
//!
//! The index maps chunk grid coordinates to generated meshes, keys unique.
//! Loading is idempotent — a chunk already present is never regenerated — and
//! chunks outside the load radius plus a margin are evicted to bound memory.

use vstd::prelude::*;
use crate::mesh::{CHUNK_COORD_LIM, MeshData, create_terrain_mesh, mesh_is_for};
use crate::player::PLAY_LIM;
use crate::terrain::CHUNK_SIZE_FX;

verus! {

/// Radius, in chunks, of the square window kept loaded around the player.
pub const CHUNK_LOAD_RADIUS: i64 = 2;

/// Margin, in chunks, beyond the load radius before a far chunk is evicted.
pub const CHUNK_EVICT_MARGIN: i64 = 1;

/// One materialized terrain chunk: its grid coordinates and its mesh.
pub struct TerrainChunk {
    pub chunk_x: i64,
    pub chunk_z: i64,
    pub mesh: MeshData,
}

/// The index of loaded chunks; keys are unique chunk grid coordinates.
pub struct ChunkManager {
    pub loaded_chunks: Vec<TerrainChunk>,
}

/// The chunk grid coordinate whose square contains the world coordinate `w`.
pub open spec fn chunk_coord_spec(w: int) -> int {
    w / (CHUNK_SIZE_FX as int)
}

/// (x, z) lies in the square window of the given radius around (ccx, ccz).
pub open spec fn in_window(ccx: int, ccz: int, radius: int, x: int, z: int) -> bool {
    ccx - radius <= x <= ccx + radius && ccz - radius <= z <= ccz + radius
}

/// One loaded chunk is well formed: coordinates on the supported grid and a
/// mesh generated for exactly those coordinates.
pub open spec fn wf_chunk(c: TerrainChunk) -> bool {
    &&& -CHUNK_COORD_LIM <= c.chunk_x <= CHUNK_COORD_LIM
    &&& -CHUNK_COORD_LIM <= c.chunk_z <= CHUNK_COORD_LIM
    &&& mesh_is_for(c.mesh, c.chunk_x as int, c.chunk_z as int)
}

impl ChunkManager {
    pub open spec fn len_spec(self) -> int {
        self.loaded_chunks@.len() as int
    }

    /// The chunk coordinates stored at index `k`.
    pub open spec fn coord_at(self, k: int) -> (int, int) {
        (self.loaded_chunks@[k].chunk_x as int, self.loaded_chunks@[k].chunk_z as int)
    }

    /// The chunk at (x, z) is loaded.
    pub open spec fn contains_coord(self, x: int, z: int) -> bool {
        exists|k: int| 0 <= k < self.len_spec() && self.coord_at(k) == (x, z)
    }

    /// Key uniqueness, plus well-formedness of every loaded chunk.
    pub open spec fn wf(self) -> bool {
        &&& forall|k1: int, k2: int|
            0 <= k1 < k2 < self.len_spec() ==> #[trigger] self.coord_at(k1) != #[trigger] self.coord_at(k2)
        &&& forall|k: int| 0 <= k < self.len_spec() ==> wf_chunk(#[trigger] self.loaded_chunks@[k])
    }

    /// An empty chunk index.
    pub fn new() -> (r: ChunkManager)
        ensures
            r.wf(),
            r.len_spec() == 0,
    {
        ChunkManager { loaded_chunks: Vec::new() }
    }

    /// How many chunks are loaded.
    pub fn loaded_count(&self) -> (r: usize)
        ensures
            r == self.len_spec(),
    {
        self.loaded_chunks.len()
    }

    /// Whether the chunk at grid coordinates (x, z) is loaded.
    pub fn contains(&self, x: i64, z: i64) -> (r: bool)
        ensures
            r == self.contains_coord(x as int, z as int),
    {
        let n: usize = self.loaded_chunks.len();
        let mut k: usize = 0;
        while k < n
            invariant
                n == self.len_spec(),
                k <= n,
                forall|j: int| 0 <= j < k ==> #[trigger] self.coord_at(j) != (x as int, z as int),
            decreases n - k,
        {
            let cxk: i64 = self.loaded_chunks[k].chunk_x;
            let czk: i64 = self.loaded_chunks[k].chunk_z;
            if cxk == x && czk == z {
                proof {
                    assert(self.coord_at(k as int) == (x as int, z as int));
                }
                return true;
            }
            k = k + 1;
        }
        false
    }
}

/// What one `ensure_chunks_near` call guarantees, as a relation between the
/// index before and after: existing entries are untouched, the whole window
/// around (ccx, ccz) is loaded, and everything appended is a window chunk
/// that was missing before.
pub open spec fn ensure_rel(
    pre: ChunkManager,
    post: ChunkManager,
    ccx: int,
    ccz: int,
    radius: int,
) -> bool {
    &&& post.wf()
    &&& post.len_spec() >= pre.len_spec()
    &&& post.loaded_chunks@.subrange(0, pre.len_spec()) == pre.loaded_chunks@
    &&& forall|x: int, z: int| in_window(ccx, ccz, radius, x, z) ==> post.contains_coord(x, z)
    &&& forall|k: int|
        pre.len_spec() <= k < post.len_spec() ==> in_window(
            ccx,
            ccz,
            radius,
            (#[trigger] post.coord_at(k)).0,
            post.coord_at(k).1,
        ) && !pre.contains_coord(post.coord_at(k).0, post.coord_at(k).1)
}

/// The world coordinate range of the playable volume maps into the supported
/// chunk grid, with room for the load window.
proof fn lemma_chunk_coord_bounds(w: int)
    requires
        -PLAY_LIM <= w <= PLAY_LIM,
    ensures
        -52416 <= chunk_coord_spec(w) <= 52416,
{
    vstd::arithmetic::div_mod::lemma_fundamental_div_mod(w, CHUNK_SIZE_FX as int);
    vstd::arithmetic::div_mod::lemma_mod_division_less_than_divisor(w, CHUNK_SIZE_FX as int);
    let q = w / (CHUNK_SIZE_FX as int);
    let r = w % (CHUNK_SIZE_FX as int);
    assert(-52416 <= q <= 52416) by (nonlinear_arith)
        requires
            w == (CHUNK_SIZE_FX as int) * q + r,
            0 <= r < CHUNK_SIZE_FX as int,
            CHUNK_SIZE_FX == 2621440,
            -0x1F_FE00_0000 <= w <= 0x1F_FE00_0000,
    ;
}

impl ChunkManager {
    /// Loads every missing chunk in the square window of the given radius
    /// around the chunk containing (center_x, center_z). Idempotent: a chunk
    /// already present is never regenerated, so a repeated call with the same
    /// center appends nothing.
    pub fn ensure_chunks_near(&mut self, center_x: i64, center_z: i64, radius: i64)
        requires
            old(self).wf(),
            -PLAY_LIM <= center_x <= PLAY_LIM,
            -PLAY_LIM <= center_z <= PLAY_LIM,
            0 <= radius <= 8,
        ensures
            ensure_rel(
                *old(self),
                *final(self),
                chunk_coord_spec(center_x as int),
                chunk_coord_spec(center_z as int),
                radius as int,
            ),
    {
        proof {
            lemma_chunk_coord_bounds(center_x as int);
            lemma_chunk_coord_bounds(center_z as int);
        }
        let ccx: i64 = center_x.checked_div_euclid(CHUNK_SIZE_FX).unwrap();
        let ccz: i64 = center_z.checked_div_euclid(CHUNK_SIZE_FX).unwrap();
        let w: i64 = 2 * radius + 1;
        proof {
            assert(1 <= (w as int) * (w as int) <= 289) by (nonlinear_arith)
                requires
                    1 <= w as int <= 17,
            ;
        }
        let cells: usize = (w * w) as usize;
        let ghost pre: ChunkManager = *self;
        let mut n: usize = 0;
        while n < cells
            invariant
                pre.wf(),
                self.wf(),
                -52416 <= ccx <= 52416,
                -52416 <= ccz <= 52416,
                0 <= radius <= 8,
                w == 2 * radius + 1,
                cells == (w as int) * (w as int),
                n <= cells,
                ccx == chunk_coord_spec(center_x as int),
                ccz == chunk_coord_spec(center_z as int),
                self.len_spec() >= pre.len_spec(),
                self.loaded_chunks@.subrange(0, pre.len_spec()) == pre.loaded_chunks@,
                forall|j: int|
                    0 <= j < pre.len_spec() ==> #[trigger] self.coord_at(j) == pre.coord_at(j),
                forall|m: int|
                    0 <= m < n ==> self.contains_coord(
                        ccx - radius + (#[trigger] (m % (w as int))),
                        ccz - radius + m / (w as int),
                    ),
                forall|k: int|
                    pre.len_spec() <= k < self.len_spec() ==> in_window(
                        ccx as int,
                        ccz as int,
                        radius as int,
                        (#[trigger] self.coord_at(k)).0,
                        self.coord_at(k).1,
                    ) && !pre.contains_coord(self.coord_at(k).0, self.coord_at(k).1),
            decreases cells - n,
        {
            proof {
                assert(0 <= (n as int) % (w as int) < w as int && 0 <= (n as int) / (w as int)
                    < w as int) by (nonlinear_arith)
                    requires
                        0 <= n as int,
                        (n as int) < (w as int) * (w as int),
                        1 <= w as int <= 17,
                ;
            }
            let xi: usize = n % (w as usize);
            let zi: usize = n / (w as usize);
            let x: i64 = ccx - radius + (xi as i64);
            let z: i64 = ccz - radius + (zi as i64);
            if !self.contains(x, z) {
                proof {
                    assert(!pre.contains_coord(x as int, z as int)) by {
                        if pre.contains_coord(x as int, z as int) {
                            let k = choose|k: int|
                                0 <= k < pre.len_spec() && pre.coord_at(k) == (x as int, z as int);
                            assert(self.coord_at(k) == (x as int, z as int));
                        }
                    }
                }
                let mesh: MeshData = create_terrain_mesh(x, z);
                let ghost before: ChunkManager = *self;
                self.loaded_chunks.push(TerrainChunk { chunk_x: x, chunk_z: z, mesh });
                proof {
                    assert(self.loaded_chunks@.subrange(0, pre.len_spec()) =~= before.loaded_chunks@
                        .subrange(0, pre.len_spec()));
                    assert forall|j: int| 0 <= j < before.len_spec() implies #[trigger] self
                        .coord_at(j) == before.coord_at(j) by {}
                    assert(self.coord_at(self.len_spec() - 1) == (x as int, z as int));
                    assert(in_window(ccx as int, ccz as int, radius as int, x as int, z as int));
                    assert forall|x2: int, z2: int| before.contains_coord(x2, z2) implies
                        self.contains_coord(x2, z2) by {
                        let k = choose|k: int|
                            0 <= k < before.len_spec() && before.coord_at(k) == (x2, z2);
                        assert(self.coord_at(k) == (x2, z2));
                    }
                    assert forall|k: int|
                        pre.len_spec() <= k < self.len_spec() implies in_window(
                        ccx as int,
                        ccz as int,
                        radius as int,
                        (#[trigger] self.coord_at(k)).0,
                        self.coord_at(k).1,
                    ) && !pre.contains_coord(self.coord_at(k).0, self.coord_at(k).1) by {
                        if k < before.len_spec() {
                            assert(self.coord_at(k) == before.coord_at(k));
                        } else {
                            assert(self.coord_at(k) == (x as int, z as int));
                        }
                    }
                }
            }
            proof {
                let ghost cur: ChunkManager = *self;
                assert(cur.contains_coord(ccx - radius + (n as int) % (w as int), ccz - radius + (
                n as int) / (w as int)));
            }
            n = n + 1;
        }
        proof {
            assert forall|x: int, z: int|
                in_window(ccx as int, ccz as int, radius as int, x, z) implies self.contains_coord(
                x,
                z,
            ) by {
                let a = x - (ccx - radius);
                let b = z - (ccz - radius);
                let m = b * (w as int) + a;
                assert(0 <= m < (w as int) * (w as int)) by (nonlinear_arith)
                    requires
                        0 <= a < w as int,
                        0 <= b < w as int,
                        m == b * (w as int) + a,
                        1 <= w as int,
                ;
                vstd::arithmetic::div_mod::lemma_fundamental_div_mod_converse_mod(
                    m,
                    w as int,
                    b,
                    a,
                );
                vstd::arithmetic::div_mod::lemma_fundamental_div_mod_converse_div(
                    m,
                    w as int,
                    b,
                    a,
                );
                assert(self.contains_coord(ccx - radius + m % (w as int), ccz - radius + m / (
                w as int)));
            }
        }
    }
}

/// Loading the same window twice changes nothing: the second call finds every
/// window chunk already present and appends no entry, so the index — not just
/// its size — is exactly what the first call left.
pub proof fn lemma_ensure_chunks_idempotent(
    m0: ChunkManager,
    m1: ChunkManager,
    m2: ChunkManager,
    ccx: int,
    ccz: int,
    radius: int,
)
    requires
        0 <= radius,
        ensure_rel(m0, m1, ccx, ccz, radius),
        ensure_rel(m1, m2, ccx, ccz, radius),
    ensures
        m2.loaded_chunks@ == m1.loaded_chunks@,
{
    if m2.len_spec() > m1.len_spec() {
        let k = m1.len_spec();
        let c = m2.coord_at(k);
        assert(in_window(ccx, ccz, radius, c.0, c.1) && !m1.contains_coord(c.0, c.1));
        assert(m1.contains_coord(c.0, c.1));
    }
    assert(m2.loaded_chunks@ =~= m1.loaded_chunks@) by {
        assert(m2.loaded_chunks@.subrange(0, m1.len_spec()) == m1.loaded_chunks@);
        assert forall|i: int| 0 <= i < m1.len_spec() implies m2.loaded_chunks@[i]
            == m1.loaded_chunks@[i] by {
            assert(m2.loaded_chunks@.subrange(0, m1.len_spec())[i] == m2.loaded_chunks@[i]);
        }
    }
}

/// The sequence `s` holds a chunk at grid coordinates (x, z).
pub open spec fn seq_contains_coord(s: Seq<TerrainChunk>, x: int, z: int) -> bool {
    exists|j: int|
        0 <= j < s.len() && ((#[trigger] s[j]).chunk_x as int, s[j].chunk_z as int) == (x, z)
}

/// The index holds a chunk at (x, z) at position `lo` or later.
pub open spec fn contains_from(pre: ChunkManager, lo: int, x: int, z: int) -> bool {
    exists|k: int| lo <= k < pre.len_spec() && #[trigger] pre.coord_at(k) == (x, z)
}

/// The kept chunks are exactly the processed chunks inside the keep window.
pub open spec fn kept_ok(
    kept: Seq<TerrainChunk>,
    pre: ChunkManager,
    lo: int,
    ccx: int,
    ccz: int,
    kr: int,
) -> bool {
    forall|x: int, z: int|
        #[trigger] seq_contains_coord(kept, x, z) <==> (contains_from(pre, lo, x, z) && in_window(
            ccx,
            ccz,
            kr,
            x,
            z,
        ))
}

impl ChunkManager {
    /// Evicts every chunk outside the square window of the given radius
    /// around the chunk containing (center_x, center_z); the loaded set
    /// becomes exactly its intersection with that window.
    pub fn evict_far_chunks(&mut self, center_x: i64, center_z: i64, keep_radius: i64)
        requires
            old(self).wf(),
            -PLAY_LIM <= center_x <= PLAY_LIM,
            -PLAY_LIM <= center_z <= PLAY_LIM,
            0 <= keep_radius <= 16,
        ensures
            final(self).wf(),
            final(self).len_spec() <= old(self).len_spec(),
            forall|x: int, z: int|
                #[trigger] final(self).contains_coord(x, z) <==> (old(self).contains_coord(x, z)
                    && in_window(
                    chunk_coord_spec(center_x as int),
                    chunk_coord_spec(center_z as int),
                    keep_radius as int,
                    x,
                    z,
                )),
    {
        proof {
            lemma_chunk_coord_bounds(center_x as int);
            lemma_chunk_coord_bounds(center_z as int);
        }
        let ccx: i64 = center_x.checked_div_euclid(CHUNK_SIZE_FX).unwrap();
        let ccz: i64 = center_z.checked_div_euclid(CHUNK_SIZE_FX).unwrap();
        let ghost pre: ChunkManager = *self;
        let mut kept: Vec<TerrainChunk> = Vec::new();
        while self.loaded_chunks.len() > 0
            invariant
                pre.wf(),
                0 <= keep_radius <= 16,
                ccx == chunk_coord_spec(center_x as int),
                ccz == chunk_coord_spec(center_z as int),
                self.loaded_chunks@ == pre.loaded_chunks@.subrange(0, self.len_spec()),
                self.len_spec() <= pre.len_spec(),
                self.len_spec() + kept@.len() <= pre.len_spec(),
                forall|j: int| 0 <= j < kept@.len() ==> wf_chunk(#[trigger] kept@[j]),
                forall|j1: int, j2: int|
                    0 <= j1 < j2 < kept@.len() ==> ((#[trigger] kept@[j1]).chunk_x as int,
                    kept@[j1].chunk_z as int) != ((#[trigger] kept@[j2]).chunk_x as int,
                    kept@[j2].chunk_z as int),
                kept_ok(kept@, pre, self.len_spec(), ccx as int, ccz as int, keep_radius as int),
            decreases self.loaded_chunks@.len(),
        {
            let ghost lo0: int = self.len_spec();
            let c: TerrainChunk = self.loaded_chunks.pop().unwrap();
            let ghost lo: int = self.len_spec();
            proof {
                assert(lo == lo0 - 1);
                assert(c == pre.loaded_chunks@[lo]);
                assert(pre.coord_at(lo) == (c.chunk_x as int, c.chunk_z as int));
                assert(self.loaded_chunks@ =~= pre.loaded_chunks@.subrange(0, lo));
                assert(wf_chunk(c));
            }
            let near: bool = ccx - keep_radius <= c.chunk_x && c.chunk_x <= ccx + keep_radius
                && ccz - keep_radius <= c.chunk_z && c.chunk_z <= ccz + keep_radius;
            if near {
                let ghost kept0: Seq<TerrainChunk> = kept@;
                let ghost cc: (int, int) = (c.chunk_x as int, c.chunk_z as int);
                proof {
                    // The popped coordinate is new to `kept`: otherwise some
                    // later index of the original index would repeat it.
                    if seq_contains_coord(kept0, cc.0, cc.1) {
                        assert(contains_from(pre, lo0, cc.0, cc.1));
                        let k = choose|k: int|
                            lo0 <= k < pre.len_spec() && pre.coord_at(k) == cc;
                        assert(pre.coord_at(lo) == cc && pre.coord_at(k) == cc && lo < k);
                        assert(false);
                    }
                }
                kept.push(c);
                proof {
                    assert forall|x: int, z: int| #[trigger]
                        seq_contains_coord(kept@, x, z) implies (contains_from(pre, lo, x, z)
                        && in_window(ccx as int, ccz as int, keep_radius as int, x, z)) by {
                        let j = choose|j: int|
                            0 <= j < kept@.len() && ((kept@[j]).chunk_x as int,
                            kept@[j].chunk_z as int) == (x, z);
                        if j < kept0.len() {
                            assert(kept@[j] == kept0[j]);
                            assert(seq_contains_coord(kept0, x, z));
                            let k = choose|k: int|
                                lo0 <= k < pre.len_spec() && pre.coord_at(k) == (x, z);
                            assert(pre.coord_at(k) == (x, z));
                        } else {
                            assert(kept@[j] == c);
                            assert(pre.coord_at(lo) == (x, z));
                        }
                    }
                    assert forall|x: int, z: int|
                        (contains_from(pre, lo, x, z) && in_window(
                            ccx as int,
                            ccz as int,
                            keep_radius as int,
                            x,
                            z,
                        )) implies #[trigger] seq_contains_coord(kept@, x, z) by {
                        let k = choose|k: int|
                            lo <= k < pre.len_spec() && pre.coord_at(k) == (x, z);
                        if k == lo {
                            assert(((kept@[kept@.len() - 1]).chunk_x as int,
                            kept@[kept@.len() - 1].chunk_z as int) == (x, z));
                        } else {
                            assert(contains_from(pre, lo0, x, z));
                            assert(seq_contains_coord(kept0, x, z));
                            let j = choose|j: int|
                                0 <= j < kept0.len() && ((kept0[j]).chunk_x as int,
                                kept0[j].chunk_z as int) == (x, z);
                            assert(kept@[j] == kept0[j]);
                        }
                    }
                }
            } else {
                proof {
                    let ghost kept0: Seq<TerrainChunk> = kept@;
                    assert forall|x: int, z: int|
                        (contains_from(pre, lo, x, z) && in_window(
                            ccx as int,
                            ccz as int,
                            keep_radius as int,
                            x,
                            z,
                        )) implies #[trigger] seq_contains_coord(kept@, x, z) by {
                        let k = choose|k: int|
                            lo <= k < pre.len_spec() && pre.coord_at(k) == (x, z);
                        if k == lo {
                            assert(!in_window(ccx as int, ccz as int, keep_radius as int, x, z));
                        } else {
                            assert(contains_from(pre, lo0, x, z));
                        }
                    }
                    assert forall|x: int, z: int| #[trigger]
                        seq_contains_coord(kept@, x, z) implies (contains_from(pre, lo, x, z)
                        && in_window(ccx as int, ccz as int, keep_radius as int, x, z)) by {
                        assert(contains_from(pre, lo0, x, z));
                        let k = choose|k: int|
                            lo0 <= k < pre.len_spec() && pre.coord_at(k) == (x, z);
                        assert(pre.coord_at(k) == (x, z));
                    }
                }
            }
        }
        self.loaded_chunks = kept;
        proof {
            let ghost fin: ChunkManager = *self;
            assert forall|x: int, z: int| #[trigger]
                fin.contains_coord(x, z) == (pre.contains_coord(x, z) && in_window(
                ccx as int,
                ccz as int,
                keep_radius as int,
                x,
                z,
            )) by {
                assert(seq_contains_coord(fin.loaded_chunks@, x, z) == (contains_from(
                    pre,
                    0,
                    x,
                    z,
                ) && in_window(ccx as int, ccz as int, keep_radius as int, x, z)));
                if fin.contains_coord(x, z) {
                    let k = choose|k: int| 0 <= k < fin.len_spec() && fin.coord_at(k) == (x, z);
                    assert(((fin.loaded_chunks@[k]).chunk_x as int,
                    fin.loaded_chunks@[k].chunk_z as int) == (x, z));
                    assert(seq_contains_coord(fin.loaded_chunks@, x, z));
                    let k2 = choose|k2: int| 0 <= k2 < pre.len_spec() && pre.coord_at(k2) == (x, z);
                    assert(pre.contains_coord(x, z));
                }
                if pre.contains_coord(x, z) && in_window(
                    ccx as int,
                    ccz as int,
                    keep_radius as int,
                    x,
                    z,
                ) {
                    let k = choose|k: int| 0 <= k < pre.len_spec() && pre.coord_at(k) == (x, z);
                    assert(contains_from(pre, 0, x, z));
                    assert(seq_contains_coord(fin.loaded_chunks@, x, z));
                    let j = choose|j: int|
                        0 <= j < fin.loaded_chunks@.len() && ((fin.loaded_chunks@[j]).chunk_x
                            as int, fin.loaded_chunks@[j].chunk_z as int) == (x, z);
                    assert(fin.coord_at(j) == (x, z));
                }
            }
        }
    }

    /// One chunk-streaming pass: load the whole window around the player,
    /// then evict everything outside the window plus the margin. The loaded
    /// set becomes exactly the old set, grown by the load window, intersected
    /// with the eviction window — so repeating the pass with the same center
    /// changes nothing, and nothing inside the eviction window is lost.
    pub fn manage_terrain_chunks(&mut self, player_x: i64, player_z: i64)
        requires
            old(self).wf(),
            -PLAY_LIM <= player_x <= PLAY_LIM,
            -PLAY_LIM <= player_z <= PLAY_LIM,
        ensures
            final(self).wf(),
            forall|x: int, z: int|
                #[trigger] final(self).contains_coord(x, z) <==> ((old(self).contains_coord(x, z)
                    || in_window(
                    chunk_coord_spec(player_x as int),
                    chunk_coord_spec(player_z as int),
                    CHUNK_LOAD_RADIUS as int,
                    x,
                    z,
                )) && in_window(
                    chunk_coord_spec(player_x as int),
                    chunk_coord_spec(player_z as int),
                    CHUNK_LOAD_RADIUS as int + CHUNK_EVICT_MARGIN as int,
                    x,
                    z,
                )),
    {
        let ghost pre: ChunkManager = *self;
        self.ensure_chunks_near(player_x, player_z, CHUNK_LOAD_RADIUS);
        let ghost mid: ChunkManager = *self;
        self.evict_far_chunks(player_x, player_z, CHUNK_LOAD_RADIUS + CHUNK_EVICT_MARGIN);
        proof {
            let ccx = chunk_coord_spec(player_x as int);
            let ccz = chunk_coord_spec(player_z as int);
            assert forall|x: int, z: int| #[trigger]
                mid.contains_coord(x, z) == (pre.contains_coord(x, z) || in_window(
                ccx,
                ccz,
                CHUNK_LOAD_RADIUS as int,
                x,
                z,
            )) by {
                if mid.contains_coord(x, z) {
                    let k = choose|k: int|
                        0 <= k < mid.len_spec() && mid.coord_at(k) == (x, z);
                    if k < pre.len_spec() {
                        assert(mid.loaded_chunks@.subrange(0, pre.len_spec())[k]
                            == mid.loaded_chunks@[k]);
                        assert(pre.coord_at(k) == (x, z));
                        assert(pre.contains_coord(x, z));
                    } else {
                        assert(in_window(ccx, ccz, CHUNK_LOAD_RADIUS as int, x, z));
                    }
                }
                if pre.contains_coord(x, z) {
                    let k = choose|k: int|
                        0 <= k < pre.len_spec() && pre.coord_at(k) == (x, z);
                    assert(mid.loaded_chunks@.subrange(0, pre.len_spec())[k]
                        == mid.loaded_chunks@[k]);
                    assert(mid.coord_at(k) == (x, z));
                    assert(mid.contains_coord(x, z));
                }
            }
        }
    }
}

} // verus!
