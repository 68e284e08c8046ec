//! Terrain chunk meshes: a fixed-resolution vertex grid over one chunk's
//! world-space square, with heights sampled from the global height field at
//! world coordinates, per-vertex normals averaged from incident face normals,
//! grid-fraction texture coordinates, and two fixed-winding triangles per
//! grid cell.
//!
//! Because vertex heights come from the height field at world coordinates,
//! adjacent chunks sample identical heights along their shared edge: the
//! seam-continuity lemma at the end makes that exact statement.

use vstd::prelude::*;
use crate::fixed::{
    FX_LIM, FX_ONE, abs_i, isqrt_u, lemma_abs_mul, lemma_mul_le_nonneg, lemma_sq_bound,
    lemma_sqrt_lt, mul_div, sqrt_i, tdiv,
};
use crate::player::{V3, vw};
use crate::terrain::{
    CHUNK_RESOLUTION, CHUNK_SIZE_FX, get_terrain_height,
    spec_terrain_height,
};
use crate::vec3::Vec3Fx;

verus! {

/// Vertices per chunk side: the grid resolution plus one.
pub const GRID_W: usize = 25;

/// Vertices per chunk: `GRID_W` squared.
pub const VERTEX_COUNT: usize = 625;

/// Triangles per chunk: two per grid cell.
pub const TRI_COUNT: usize = 1152;

/// Largest chunk coordinate magnitude the mesh generator accepts.
pub const CHUNK_COORD_LIM: i64 = 52425;

/// A chunk mesh: parallel per-vertex arrays and a triangle index list.
pub struct MeshData {
    pub positions: Vec<Vec3Fx>,
    pub normals: Vec<Vec3Fx>,
    pub uvs: Vec<UvFx>,
    pub indices: Vec<u32>,
}

/// A texture coordinate pair, as fixed-point grid fractions.
#[derive(Clone, Copy, Debug, PartialEq, Eq, Structural)]
pub struct UvFx {
    pub u: i64,
    pub v: i64,
}

/// The chunk-local offset of grid column (or row) `i`.
pub open spec fn local_off_spec(i: int) -> int {
    (i * CHUNK_SIZE_FX) / (CHUNK_RESOLUTION as int)
}

/// The world coordinate of grid column `i` of chunk coordinate `c`.
pub open spec fn world_coord_spec(c: int, i: int) -> int {
    c * CHUNK_SIZE_FX + local_off_spec(i)
}

/// The world-space height of grid vertex (i, j) of chunk (cx, cz).
pub open spec fn vertex_height_spec(cx: int, cz: int, i: int, j: int) -> int {
    spec_terrain_height(world_coord_spec(cx, i), world_coord_spec(cz, j))
}

/// The column of a linear vertex index.
pub open spec fn vertex_i(vi: int) -> int {
    vi % (GRID_W as int)
}

/// The row of a linear vertex index.
pub open spec fn vertex_j(vi: int) -> int {
    vi / (GRID_W as int)
}

/// The vertex index of corner `k` of triangle `t`: each grid cell carries two
/// triangles with fixed winding.
pub open spec fn tri_vidx(t: int, k: int) -> int {
    let cell = t / 2;
    let ci = cell % (CHUNK_RESOLUTION as int);
    let cj = cell / (CHUNK_RESOLUTION as int);
    let tl = cj * (GRID_W as int) + ci;
    if t % 2 == 0 {
        if k == 0 {
            tl
        } else if k == 1 {
            tl + (GRID_W as int)
        } else {
            tl + 1
        }
    } else {
        if k == 0 {
            tl + 1
        } else if k == 1 {
            tl + (GRID_W as int)
        } else {
            tl + (GRID_W as int) + 1
        }
    }
}

/// The position of grid vertex `vi`: chunk-local x and z, world height.
pub open spec fn vertex_pos_spec(cx: int, cz: int, vi: int) -> V3 {
    V3 {
        x: local_off_spec(vertex_i(vi)),
        y: vertex_height_spec(cx, cz, vertex_i(vi), vertex_j(vi)),
        z: local_off_spec(vertex_j(vi)),
    }
}

/// The texture coordinates of grid vertex `vi`: grid fractions.
pub open spec fn vertex_uv_spec(vi: int) -> (int, int) {
    (
        (vertex_i(vi) * FX_ONE) / (CHUNK_RESOLUTION as int),
        (vertex_j(vi) * FX_ONE) / (CHUNK_RESOLUTION as int),
    )
}

/// The positions, texture coordinates and indices of `m` are those of the
/// chunk mesh at chunk coordinates (cx, cz).
pub open spec fn mesh_grid_is_for(m: MeshData, cx: int, cz: int) -> bool {
    &&& m.positions@.len() == VERTEX_COUNT
    &&& m.uvs@.len() == VERTEX_COUNT
    &&& m.indices@.len() == 3 * TRI_COUNT
    &&& forall|vi: int|
        0 <= vi < VERTEX_COUNT ==> vw(#[trigger] m.positions@[vi]) == vertex_pos_spec(cx, cz, vi)
    &&& forall|vi: int|
        0 <= vi < VERTEX_COUNT ==> ((#[trigger] m.uvs@[vi]).u as int, m.uvs@[vi].v as int)
            == vertex_uv_spec(vi)
    &&& forall|t: int, k: int|
        0 <= t < TRI_COUNT && 0 <= k < 3 ==> (#[trigger] m.indices@[3 * t + k]) as int == tri_vidx(
            t,
            k,
        )
    &&& forall|n: int| 0 <= n < 3 * TRI_COUNT ==> (#[trigger] m.indices@[n]) < VERTEX_COUNT
}

/// Grid offsets never leave the chunk square, and the far edge lands exactly
/// on the chunk size.
pub proof fn lemma_local_off_bounds(i: int)
    requires
        0 <= i <= CHUNK_RESOLUTION as int,
    ensures
        0 <= local_off_spec(i) <= CHUNK_SIZE_FX,
        i == CHUNK_RESOLUTION as int ==> local_off_spec(i) == CHUNK_SIZE_FX,
        i == 0 ==> local_off_spec(i) == 0,
{
    vstd::arithmetic::div_mod::lemma_div_pos_is_pos(i * CHUNK_SIZE_FX, 24);
    vstd::arithmetic::div_mod::lemma_div_is_ordered(i * CHUNK_SIZE_FX, 24 * CHUNK_SIZE_FX, 24);
    vstd::arithmetic::div_mod::lemma_div_multiples_vanish(CHUNK_SIZE_FX as int, 24);
    assert((0int * CHUNK_SIZE_FX) / 24 == 0);
    assert(i * CHUNK_SIZE_FX <= 24 * CHUNK_SIZE_FX) by (nonlinear_arith)
        requires
            0 <= i <= 24,
    ;
}

/// Chunk seam continuity: along the shared edge of two adjacent chunks, both
/// meshes sample the height field at identical world coordinates, so the
/// shared vertices carry bit-identical heights. Stated for a right-hand
/// neighbour (x direction) and a far neighbour (z direction).
pub proof fn lemma_chunk_seam(cx: int, cz: int, j: int)
    requires
        0 <= j <= CHUNK_RESOLUTION as int,
    ensures
        vertex_height_spec(cx, cz, CHUNK_RESOLUTION as int, j) == vertex_height_spec(
            cx + 1,
            cz,
            0,
            j,
        ),
        vertex_height_spec(cx, cz, j, CHUNK_RESOLUTION as int) == vertex_height_spec(
            cx,
            cz + 1,
            j,
            0,
        ),
{
    lemma_local_off_bounds(CHUNK_RESOLUTION as int);
    lemma_local_off_bounds(0);
    assert(world_coord_spec(cx, CHUNK_RESOLUTION as int) == world_coord_spec(cx + 1, 0))
        by (nonlinear_arith)
        requires
            local_off_spec(CHUNK_RESOLUTION as int) == CHUNK_SIZE_FX,
            local_off_spec(0) == 0,
            world_coord_spec(cx, CHUNK_RESOLUTION as int) == cx * CHUNK_SIZE_FX + local_off_spec(
                CHUNK_RESOLUTION as int,
            ),
            world_coord_spec(cx + 1, 0) == (cx + 1) * CHUNK_SIZE_FX + local_off_spec(0),
    ;
    assert(world_coord_spec(cz, CHUNK_RESOLUTION as int) == world_coord_spec(cz + 1, 0))
        by (nonlinear_arith)
        requires
            local_off_spec(CHUNK_RESOLUTION as int) == CHUNK_SIZE_FX,
            local_off_spec(0) == 0,
            world_coord_spec(cz, CHUNK_RESOLUTION as int) == cz * CHUNK_SIZE_FX + local_off_spec(
                CHUNK_RESOLUTION as int,
            ),
            world_coord_spec(cz + 1, 0) == (cz + 1) * CHUNK_SIZE_FX + local_off_spec(0),
    ;
}

/// The same seam statement over two generated meshes: vertex `j` of the
/// right edge of the left mesh and of the left edge of the right mesh hold
/// the same height.
pub proof fn lemma_mesh_seam(m1: MeshData, m2: MeshData, cx: int, cz: int, j: int)
    requires
        mesh_grid_is_for(m1, cx, cz),
        mesh_grid_is_for(m2, cx + 1, cz),
        0 <= j < GRID_W as int,
    ensures
        m1.positions@[j * (GRID_W as int) + (GRID_W as int) - 1].y == m2.positions@[j * (
        GRID_W as int)].y,
{
    let vi1 = j * (GRID_W as int) + (GRID_W as int) - 1;
    let vi2 = j * (GRID_W as int);
    assert(0 <= vi1 < VERTEX_COUNT) by (nonlinear_arith)
        requires
            0 <= j < 25,
            vi1 == j * 25 + 24,
    ;
    assert(0 <= vi2 < VERTEX_COUNT) by (nonlinear_arith)
        requires
            0 <= j < 25,
            vi2 == j * 25,
    ;
    assert(vertex_i(vi1) == 24 && vertex_j(vi1) == j) by (nonlinear_arith)
        requires
            vi1 == j * 25 + 24,
            0 <= j < 25,
    ;
    assert(vertex_i(vi2) == 0 && vertex_j(vi2) == j) by (nonlinear_arith)
        requires
            vi2 == j * 25,
            0 <= j < 25,
    ;
    lemma_chunk_seam(cx, cz, j);
}

/// The mesh vertex grid of a chunk: positions (chunk-local x and z, world
/// height) and grid-fraction texture coordinates.
fn build_grid(cx: i64, cz: i64) -> (r: (Vec<Vec3Fx>, Vec<UvFx>))
    requires
        -CHUNK_COORD_LIM <= cx <= CHUNK_COORD_LIM,
        -CHUNK_COORD_LIM <= cz <= CHUNK_COORD_LIM,
    ensures
        r.0@.len() == VERTEX_COUNT,
        r.1@.len() == VERTEX_COUNT,
        forall|vi: int|
            0 <= vi < VERTEX_COUNT ==> vw(#[trigger] r.0@[vi]) == vertex_pos_spec(
                cx as int,
                cz as int,
                vi,
            ),
        forall|vi: int|
            0 <= vi < VERTEX_COUNT ==> ((#[trigger] r.1@[vi]).u as int, r.1@[vi].v as int)
                == vertex_uv_spec(vi),
        forall|vi: int|
            0 <= vi < VERTEX_COUNT ==> (#[trigger] r.0@[vi]).bounded(CHUNK_SIZE_FX as int),
{
    let mut positions: Vec<Vec3Fx> = Vec::new();
    let mut uvs: Vec<UvFx> = Vec::new();
    let mut vi: usize = 0;
    while vi < VERTEX_COUNT
        invariant
            0 <= vi <= VERTEX_COUNT,
            -CHUNK_COORD_LIM <= cx <= CHUNK_COORD_LIM,
            -CHUNK_COORD_LIM <= cz <= CHUNK_COORD_LIM,
            positions@.len() == vi,
            uvs@.len() == vi,
            forall|k: int|
                0 <= k < vi ==> vw(#[trigger] positions@[k]) == vertex_pos_spec(
                    cx as int,
                    cz as int,
                    k,
                ),
            forall|k: int|
                0 <= k < vi ==> ((#[trigger] uvs@[k]).u as int, uvs@[k].v as int) == vertex_uv_spec(
                    k,
                ),
            forall|k: int|
                0 <= k < vi ==> (#[trigger] positions@[k]).bounded(CHUNK_SIZE_FX as int),
        decreases VERTEX_COUNT - vi,
    {
        let i: usize = vi % GRID_W;
        let j: usize = vi / GRID_W;
        proof {
            lemma_local_off_bounds(i as int);
            lemma_local_off_bounds(j as int);
            assert((cx as int) * CHUNK_SIZE_FX + local_off_spec(i as int) <= 52426
                * CHUNK_SIZE_FX) by (nonlinear_arith)
                requires
                    -52425 <= cx as int <= 52425,
                    0 <= local_off_spec(i as int) <= CHUNK_SIZE_FX,
            ;
            assert((cx as int) * CHUNK_SIZE_FX + local_off_spec(i as int) >= -52426
                * CHUNK_SIZE_FX) by (nonlinear_arith)
                requires
                    -52425 <= cx as int <= 52425,
                    0 <= local_off_spec(i as int) <= CHUNK_SIZE_FX,
            ;
            assert((cz as int) * CHUNK_SIZE_FX + local_off_spec(j as int) <= 52426
                * CHUNK_SIZE_FX) by (nonlinear_arith)
                requires
                    -52425 <= cz as int <= 52425,
                    0 <= local_off_spec(j as int) <= CHUNK_SIZE_FX,
            ;
            assert((cz as int) * CHUNK_SIZE_FX + local_off_spec(j as int) >= -52426
                * CHUNK_SIZE_FX) by (nonlinear_arith)
                requires
                    -52425 <= cz as int <= 52425,
                    0 <= local_off_spec(j as int) <= CHUNK_SIZE_FX,
            ;
        }
        let lx: i64 = mul_div(i as i64, CHUNK_SIZE_FX, CHUNK_RESOLUTION as i64);
        let lz: i64 = mul_div(j as i64, CHUNK_SIZE_FX, CHUNK_RESOLUTION as i64);
        let wx: i64 = cx * CHUNK_SIZE_FX + lx;
        let wz: i64 = cz * CHUNK_SIZE_FX + lz;
        let h: i64 = get_terrain_height(wx, wz);
        let u: i64 = mul_div(i as i64, FX_ONE, CHUNK_RESOLUTION as i64);
        let v: i64 = mul_div(j as i64, FX_ONE, CHUNK_RESOLUTION as i64);
        positions.push(Vec3Fx { x: lx, y: h, z: lz });
        uvs.push(UvFx { u, v });
        vi = vi + 1;
    }
    (positions, uvs)
}

/// The triangle index list: two fixed-winding triangles per grid cell.
fn build_indices() -> (r: Vec<u32>)
    ensures
        r@.len() == 3 * TRI_COUNT,
        forall|t: int, k: int|
            0 <= t < TRI_COUNT && 0 <= k < 3 ==> (#[trigger] r@[3 * t + k]) as int == tri_vidx(
                t,
                k,
            ),
        forall|n: int| 0 <= n < 3 * TRI_COUNT ==> (#[trigger] r@[n]) < VERTEX_COUNT,
{
    let mut indices: Vec<u32> = Vec::new();
    let mut c: usize = 0;
    while c < 576
        invariant
            0 <= c <= 576,
            indices@.len() == 6 * c,
            forall|t: int, k: int|
                0 <= t < 2 * c && 0 <= k < 3 ==> (#[trigger] indices@[3 * t + k]) as int
                    == tri_vidx(t, k),
            forall|n: int| 0 <= n < 6 * c ==> (#[trigger] indices@[n]) < VERTEX_COUNT,
        decreases 576 - c,
    {
        let ci: usize = c % 24;
        let cj: usize = c / 24;
        let tl: u32 = (cj * GRID_W + ci) as u32;
        let bl: u32 = tl + 25;
        let tr: u32 = tl + 1;
        let br: u32 = bl + 1;
        indices.push(tl);
        indices.push(bl);
        indices.push(tr);
        indices.push(tr);
        indices.push(bl);
        indices.push(br);
        proof {
            let t0 = 2 * (c as int);
            let t1 = 2 * (c as int) + 1;
            assert(t0 / 2 == c as int && t0 % 2 == 0 && t1 / 2 == c as int && t1 % 2 == 1)
                by (nonlinear_arith)
                requires
                    t0 == 2 * (c as int),
                    t1 == 2 * (c as int) + 1,
            ;
            assert(tl as int == (c as int) / 24 * 25 + (c as int) % 24);
            assert(forall|t: int, k: int|
                0 <= t < 2 * (c as int) && 0 <= k < 3 ==> (#[trigger] indices@[3 * t + k]) as int
                    == tri_vidx(t, k));
            assert(indices@[3 * t0 + 0] == tl && indices@[3 * t0 + 1] == bl && indices@[3 * t0 + 2]
                == tr);
            assert(indices@[3 * t1 + 0] == tr && indices@[3 * t1 + 1] == bl && indices@[3 * t1 + 2]
                == br);
        }
        c = c + 1;
    }
    indices
}


/// Componentwise difference of spec vectors.
pub open spec fn v3_sub(a: V3, b: V3) -> V3 {
    V3 { x: a.x - b.x, y: a.y - b.y, z: a.z - b.z }
}

/// Componentwise sum of spec vectors.
pub open spec fn v3_add(a: V3, b: V3) -> V3 {
    V3 { x: a.x + b.x, y: a.y + b.y, z: a.z + b.z }
}

/// The cross product.
pub open spec fn cross_spec(a: V3, b: V3) -> V3 {
    V3 {
        x: a.y * b.z - a.z * b.y,
        y: a.z * b.x - a.x * b.z,
        z: a.x * b.y - a.y * b.x,
    }
}

/// Rescaling onto unit length (in fixed-point ticks), rounding toward zero;
/// the zero vector is left unchanged.
pub open spec fn normalize_spec(v: V3) -> V3 {
    let n2 = v.x * v.x + v.y * v.y + v.z * v.z;
    if n2 == 0 {
        v
    } else {
        let l = sqrt_i(n2);
        V3 {
            x: tdiv(v.x * (FX_ONE as int), l),
            y: tdiv(v.y * (FX_ONE as int), l),
            z: tdiv(v.z * (FX_ONE as int), l),
        }
    }
}

/// Triangle `t` touches vertex `vi`.
pub open spec fn tri_has(t: int, vi: int) -> bool {
    tri_vidx(t, 0) == vi || tri_vidx(t, 1) == vi || tri_vidx(t, 2) == vi
}

/// The unit face normal of triangle `t`, from the chunk-local vertex grid.
pub open spec fn tri_normal_spec(cx: int, cz: int, t: int) -> V3 {
    let p0 = vertex_pos_spec(cx, cz, tri_vidx(t, 0));
    let p1 = vertex_pos_spec(cx, cz, tri_vidx(t, 1));
    let p2 = vertex_pos_spec(cx, cz, tri_vidx(t, 2));
    normalize_spec(cross_spec(v3_sub(p1, p0), v3_sub(p2, p0)))
}

/// The sum of the face normals of the first `t` triangles incident to `vi`.
pub open spec fn normal_sum_upto(cx: int, cz: int, vi: int, t: nat) -> V3
    decreases t,
{
    if t == 0 {
        V3 { x: 0, y: 0, z: 0 }
    } else {
        let prev = normal_sum_upto(cx, cz, vi, (t - 1) as nat);
        if tri_has(t - 1, vi) {
            v3_add(prev, tri_normal_spec(cx, cz, t - 1))
        } else {
            prev
        }
    }
}

/// How many of the first `t` triangles touch vertex `vi`.
pub open spec fn normal_count_upto(vi: int, t: nat) -> int
    decreases t,
{
    if t == 0 {
        0
    } else {
        normal_count_upto(vi, (t - 1) as nat) + if tri_has(t - 1, vi) {
            1int
        } else {
            0int
        }
    }
}

/// The vertex normal: the incident face normals averaged then rescaled onto
/// unit length; straight up for a vertex no triangle touches.
pub open spec fn vertex_normal_spec(cx: int, cz: int, vi: int) -> V3 {
    let s = normal_sum_upto(cx, cz, vi, TRI_COUNT as nat);
    let c = normal_count_upto(vi, TRI_COUNT as nat);
    if c > 0 {
        normalize_spec(V3 { x: tdiv(s.x, c), y: tdiv(s.y, c), z: tdiv(s.z, c) })
    } else {
        V3 { x: 0, y: FX_ONE as int, z: 0 }
    }
}

/// The mesh `m` is the chunk mesh at chunk coordinates (cx, cz): grid,
/// texture coordinates, indices and averaged vertex normals.
pub open spec fn mesh_is_for(m: MeshData, cx: int, cz: int) -> bool {
    &&& mesh_grid_is_for(m, cx, cz)
    &&& m.normals@.len() == VERTEX_COUNT
    &&& forall|vi: int|
        0 <= vi < VERTEX_COUNT ==> vw(#[trigger] m.normals@[vi]) == vertex_normal_spec(cx, cz, vi)
}

/// The three vertex indices of triangle `t`; they are in range and distinct.
fn tri_ids(t: usize) -> (r: (usize, usize, usize))
    requires
        t < TRI_COUNT,
    ensures
        r.0 == tri_vidx(t as int, 0),
        r.1 == tri_vidx(t as int, 1),
        r.2 == tri_vidx(t as int, 2),
        r.0 < VERTEX_COUNT && r.1 < VERTEX_COUNT && r.2 < VERTEX_COUNT,
        r.0 != r.1 && r.0 != r.2 && r.1 != r.2,
{
    let c: usize = t / 2;
    let ci: usize = c % 24;
    let cj: usize = c / 24;
    let tl: usize = cj * GRID_W + ci;
    if t % 2 == 0 {
        (tl, tl + 25, tl + 1)
    } else {
        (tl + 1, tl + 25, tl + 26)
    }
}

/// The cross product of two bounded vectors.
fn cross_vec(a: Vec3Fx, b: Vec3Fx) -> (r: Vec3Fx)
    requires
        a.bounded(0x400000),
        b.bounded(0x400000),
    ensures
        vw(r) == cross_spec(vw(a), vw(b)),
        r.bounded(0x200000000000),
{
    proof {
        lemma_abs_mul(a.y as int, b.z as int);
        lemma_abs_mul(a.z as int, b.y as int);
        lemma_abs_mul(a.z as int, b.x as int);
        lemma_abs_mul(a.x as int, b.z as int);
        lemma_abs_mul(a.x as int, b.y as int);
        lemma_abs_mul(a.y as int, b.x as int);
        lemma_mul_le_nonneg(abs_i(a.y as int), abs_i(b.z as int), 0x400000, 0x400000);
        lemma_mul_le_nonneg(abs_i(a.z as int), abs_i(b.y as int), 0x400000, 0x400000);
        lemma_mul_le_nonneg(abs_i(a.z as int), abs_i(b.x as int), 0x400000, 0x400000);
        lemma_mul_le_nonneg(abs_i(a.x as int), abs_i(b.z as int), 0x400000, 0x400000);
        lemma_mul_le_nonneg(abs_i(a.x as int), abs_i(b.y as int), 0x400000, 0x400000);
        lemma_mul_le_nonneg(abs_i(a.y as int), abs_i(b.x as int), 0x400000, 0x400000);
    }
    Vec3Fx {
        x: a.y * b.z - a.z * b.y,
        y: a.z * b.x - a.x * b.z,
        z: a.x * b.y - a.y * b.x,
    }
}

/// Rescaling onto unit length, rounding toward zero.
fn normalize_vec(v: Vec3Fx) -> (r: Vec3Fx)
    requires
        v.bounded(0x200000000000),
    ensures
        vw(r) == normalize_spec(vw(v)),
        r.bounded(FX_ONE as int),
{
    proof {
        lemma_abs_mul(v.x as int, v.x as int);
        lemma_abs_mul(v.y as int, v.y as int);
        lemma_abs_mul(v.z as int, v.z as int);
        lemma_sq_bound(v.x as int, 0x200000000000);
        lemma_sq_bound(v.y as int, 0x200000000000);
        lemma_sq_bound(v.z as int, 0x200000000000);
    }
    let n2: u128 = v.norm_sq();
    if n2 == 0 {
        proof {
            assert(v.x == 0 && v.y == 0 && v.z == 0) by (nonlinear_arith)
                requires
                    (v.x as int) * (v.x as int) + (v.y as int) * (v.y as int) + (v.z as int) * (
                    v.z as int) == 0,
            ;
        }
        v
    } else {
        let l64: u64 = isqrt_u(n2);
        proof {
            assert(l64 >= 1) by {
                if l64 == 0 {
                    assert((n2 as int) < ((l64 as int) + 1) * ((l64 as int) + 1));
                    assert(((l64 as int) + 1) * ((l64 as int) + 1) == 1) by (nonlinear_arith)
                        requires
                            l64 == 0,
                    ;
                }
            }
            lemma_sqrt_lt(n2 as int, abs_i(v.x as int), (l64 as int) + 1);
            lemma_sqrt_lt(n2 as int, abs_i(v.y as int), (l64 as int) + 1);
            lemma_sqrt_lt(n2 as int, abs_i(v.z as int), (l64 as int) + 1);
            lemma_mul_le_nonneg(abs_i(v.x as int), FX_ONE as int, l64 as int, FX_LIM as int);
            lemma_mul_le_nonneg(abs_i(v.y as int), FX_ONE as int, l64 as int, FX_LIM as int);
            lemma_mul_le_nonneg(abs_i(v.z as int), FX_ONE as int, l64 as int, FX_LIM as int);
            assert((l64 as int) * (FX_LIM as int) == (FX_LIM as int) * (l64 as int))
                by (nonlinear_arith);
        }
        let l: i64 = l64 as i64;
        let nx: i64 = mul_div(v.x, FX_ONE, l);
        let ny: i64 = mul_div(v.y, FX_ONE, l);
        let nz: i64 = mul_div(v.z, FX_ONE, l);
        proof {
            lemma_abs_mul(v.x as int, FX_ONE as int);
            lemma_abs_mul(v.y as int, FX_ONE as int);
            lemma_abs_mul(v.z as int, FX_ONE as int);
            assert(abs_i(nx as int) <= FX_ONE as int) by (nonlinear_arith)
                requires
                    abs_i(nx as int) * (l as int) <= abs_i(v.x as int) * (FX_ONE as int),
                    abs_i(v.x as int) <= l as int,
                    l >= 1,
                    abs_i(nx as int) >= 0,
            ;
            assert(abs_i(ny as int) <= FX_ONE as int) by (nonlinear_arith)
                requires
                    abs_i(ny as int) * (l as int) <= abs_i(v.y as int) * (FX_ONE as int),
                    abs_i(v.y as int) <= l as int,
                    l >= 1,
                    abs_i(ny as int) >= 0,
            ;
            assert(abs_i(nz as int) <= FX_ONE as int) by (nonlinear_arith)
                requires
                    abs_i(nz as int) * (l as int) <= abs_i(v.z as int) * (FX_ONE as int),
                    abs_i(v.z as int) <= l as int,
                    l >= 1,
                    abs_i(nz as int) >= 0,
            ;
        }
        Vec3Fx { x: nx, y: ny, z: nz }
    }
}

/// Per-vertex normals: the face normals of all incident triangles summed,
/// averaged, then rescaled onto unit length.
#[verifier::rlimit(100)]
fn build_normals(positions: &Vec<Vec3Fx>, cx: Ghost<int>, cz: Ghost<int>) -> (r: Vec<Vec3Fx>)
    requires
        positions@.len() == VERTEX_COUNT,
        forall|vi: int|
            0 <= vi < VERTEX_COUNT ==> vw(#[trigger] positions@[vi]) == vertex_pos_spec(
                cx@,
                cz@,
                vi,
            ),
        forall|vi: int|
            0 <= vi < VERTEX_COUNT ==> (#[trigger] positions@[vi]).bounded(CHUNK_SIZE_FX as int),
    ensures
        r@.len() == VERTEX_COUNT,
        forall|vi: int|
            0 <= vi < VERTEX_COUNT ==> vw(#[trigger] r@[vi]) == vertex_normal_spec(cx@, cz@, vi),
        forall|vi: int| 0 <= vi < VERTEX_COUNT ==> (#[trigger] r@[vi]).bounded(FX_ONE as int),
{
    let mut sums: Vec<Vec3Fx> = Vec::new();
    let mut counts: Vec<i64> = Vec::new();
    let mut k: usize = 0;
    while k < VERTEX_COUNT
        invariant
            sums@.len() == k,
            counts@.len() == k,
            k <= VERTEX_COUNT,
            forall|vi: int| 0 <= vi < k ==> vw(#[trigger] sums@[vi]) == (V3 { x: 0, y: 0, z: 0 }),
            forall|vi: int| 0 <= vi < k ==> (#[trigger] counts@[vi]) == 0,
        decreases VERTEX_COUNT - k,
    {
        sums.push(Vec3Fx { x: 0, y: 0, z: 0 });
        counts.push(0);
        k = k + 1;
    }
    let mut t: usize = 0;
    while t < TRI_COUNT
        invariant
            sums@.len() == VERTEX_COUNT,
            counts@.len() == VERTEX_COUNT,
            t <= TRI_COUNT,
            positions@.len() == VERTEX_COUNT,
            forall|vi: int|
                0 <= vi < VERTEX_COUNT ==> vw(#[trigger] positions@[vi]) == vertex_pos_spec(
                    cx@,
                    cz@,
                    vi,
                ),
            forall|vi: int|
                0 <= vi < VERTEX_COUNT ==> (#[trigger] positions@[vi]).bounded(
                    CHUNK_SIZE_FX as int,
                ),
            forall|vi: int|
                0 <= vi < VERTEX_COUNT ==> vw(#[trigger] sums@[vi]) == normal_sum_upto(
                    cx@,
                    cz@,
                    vi,
                    t as nat,
                ),
            forall|vi: int|
                0 <= vi < VERTEX_COUNT ==> (#[trigger] counts@[vi]) == normal_count_upto(
                    vi,
                    t as nat,
                ),
            forall|vi: int|
                0 <= vi < VERTEX_COUNT ==> (#[trigger] sums@[vi]).bounded(65536 * (t as int)),
            forall|vi: int| 0 <= vi < VERTEX_COUNT ==> 0 <= #[trigger] counts@[vi] <= t as int,
        decreases TRI_COUNT - t,
    {
        let (i0, i1, i2): (usize, usize, usize) = tri_ids(t);
        let p0: Vec3Fx = positions[i0];
        let p1: Vec3Fx = positions[i1];
        let p2: Vec3Fx = positions[i2];
        let e1: Vec3Fx = Vec3Fx { x: p1.x - p0.x, y: p1.y - p0.y, z: p1.z - p0.z };
        let e2: Vec3Fx = Vec3Fx { x: p2.x - p0.x, y: p2.y - p0.y, z: p2.z - p0.z };
        let n: Vec3Fx = normalize_vec(cross_vec(e1, e2));
        proof {
            assert(vw(n) == tri_normal_spec(cx@, cz@, t as int));
        }
        let s0: Vec3Fx = sums[i0];
        sums[i0] = Vec3Fx { x: s0.x + n.x, y: s0.y + n.y, z: s0.z + n.z };
        let c0: i64 = counts[i0];
        counts[i0] = c0 + 1;
        let s1: Vec3Fx = sums[i1];
        sums[i1] = Vec3Fx { x: s1.x + n.x, y: s1.y + n.y, z: s1.z + n.z };
        let c1: i64 = counts[i1];
        counts[i1] = c1 + 1;
        let s2: Vec3Fx = sums[i2];
        sums[i2] = Vec3Fx { x: s2.x + n.x, y: s2.y + n.y, z: s2.z + n.z };
        let c2: i64 = counts[i2];
        counts[i2] = c2 + 1;
        proof {
            assert forall|vi: int| 0 <= vi < VERTEX_COUNT implies vw(#[trigger] sums@[vi])
                == normal_sum_upto(cx@, cz@, vi, (t + 1) as nat) && counts@[vi]
                == normal_count_upto(vi, (t + 1) as nat) by {
                if vi == i0 || vi == i1 || vi == i2 {
                    assert(tri_has(t as int, vi));
                } else {
                    assert(!tri_has(t as int, vi));
                }
            }
        }
        t = t + 1;
    }
    let mut normals: Vec<Vec3Fx> = Vec::new();
    let mut vi: usize = 0;
    while vi < VERTEX_COUNT
        invariant
            normals@.len() == vi,
            vi <= VERTEX_COUNT,
            sums@.len() == VERTEX_COUNT,
            counts@.len() == VERTEX_COUNT,
            forall|j: int|
                0 <= j < VERTEX_COUNT ==> vw(#[trigger] sums@[j]) == normal_sum_upto(
                    cx@,
                    cz@,
                    j,
                    TRI_COUNT as nat,
                ),
            forall|j: int|
                0 <= j < VERTEX_COUNT ==> (#[trigger] counts@[j]) == normal_count_upto(
                    j,
                    TRI_COUNT as nat,
                ),
            forall|j: int|
                0 <= j < VERTEX_COUNT ==> (#[trigger] sums@[j]).bounded(65536 * (TRI_COUNT as int)),
            forall|j: int| 0 <= j < VERTEX_COUNT ==> 0 <= #[trigger] counts@[j] <= TRI_COUNT as int,
            forall|j: int|
                0 <= j < vi ==> vw(#[trigger] normals@[j]) == vertex_normal_spec(cx@, cz@, j),
            forall|j: int| 0 <= j < vi ==> (#[trigger] normals@[j]).bounded(FX_ONE as int),
        decreases VERTEX_COUNT - vi,
    {
        let c: i64 = counts[vi];
        if c > 0 {
            let s: Vec3Fx = sums[vi];
            let ax: i64 = mul_div(s.x, 1, c);
            let ay: i64 = mul_div(s.y, 1, c);
            let az: i64 = mul_div(s.z, 1, c);
            let n: Vec3Fx = normalize_vec(Vec3Fx { x: ax, y: ay, z: az });
            normals.push(n);
        } else {
            normals.push(Vec3Fx { x: 0, y: FX_ONE, z: 0 });
        }
        vi = vi + 1;
    }
    normals
}

/// The procedurally generated mesh of chunk (cx, cz): a vertex grid with
/// world-sampled heights, grid-fraction texture coordinates, averaged vertex
/// normals, and two fixed-winding triangles per grid cell.
pub fn create_terrain_mesh(chunk_x: i64, chunk_z: i64) -> (r: MeshData)
    requires
        -CHUNK_COORD_LIM <= chunk_x <= CHUNK_COORD_LIM,
        -CHUNK_COORD_LIM <= chunk_z <= CHUNK_COORD_LIM,
    ensures
        mesh_is_for(r, chunk_x as int, chunk_z as int),
{
    let (positions, uvs): (Vec<Vec3Fx>, Vec<UvFx>) = build_grid(chunk_x, chunk_z);
    let indices: Vec<u32> = build_indices();
    let normals: Vec<Vec3Fx> = build_normals(
        &positions,
        Ghost(chunk_x as int),
        Ghost(chunk_z as int),
    );
    MeshData { positions, normals, uvs, indices }
}

} // verus!
