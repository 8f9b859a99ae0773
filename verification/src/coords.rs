//! Coordinate types and the voxel-to-chunk coordinate transforms.

use vstd::prelude::*;

verus! {

/// A chunk coordinate on the 2D chunk grid: `(cx, cz)`.
#[derive(Clone, Copy, PartialEq, Eq, Structural, Hash, Debug)]
pub struct Vec2(pub i32, pub i32);

/// A global voxel coordinate: `(vx, vy, vz)`.
#[derive(Clone, Copy, PartialEq, Eq, Structural, Hash, Debug)]
pub struct Vec3(pub i32, pub i32, pub i32);

/// Floor division of a voxel coordinate by a (small, positive) chunk size.
/// In specifications, `/` on `int` is Euclidean division, which coincides
/// with floor division for a positive divisor.
pub fn floor_div(a: i32, b: u32) -> (q: i32)
    requires
        1 <= b <= 256,
    ensures
        q == a as int / b as int,
{
    if a >= 0 {
        let q0: u32 = (a as u32) / b;
        q0 as i32
    } else {
        let mag: u64 = (-(a as i64)) as u64;
        let qm: u64 = (mag + (b as u64) - 1) / (b as u64);
        proof {
            lemma_neg_floor_div(a as int, b as int, qm as int);
        }
        (-(qm as i64)) as i32
    }
}

/// For `a < 0 < b`, the Euclidean quotient `a / b` is `-ceil(-a / b)`,
/// and `ceil(-a / b) == (-a + b - 1) / b`.
proof fn lemma_neg_floor_div(a: int, b: int, qm: int)
    requires
        a < 0,
        1 <= b,
        qm == (-a + b - 1) / b,
    ensures
        a / b == -qm,
        -qm >= a,
{
    assert(a / b == -qm && -qm >= a) by (nonlinear_arith)
        requires
            a < 0,
            1 <= b,
            qm == (-a + b - 1) / b,
    {
    }
}

/// Euclidean remainder of a voxel coordinate by the chunk size: the
/// chunk-local offset, always in `[0, b)`.
pub fn floor_mod(a: i32, b: u32) -> (r: u32)
    requires
        1 <= b <= 256,
    ensures
        r == a as int % b as int,
        r < b,
{
    let q = floor_div(a, b);
    proof {
        vstd::arithmetic::div_mod::lemma_fundamental_div_mod(a as int, b as int);
        vstd::arithmetic::div_mod::lemma_mod_bound(a as int, b as int);
        assert(q as int * b as int == b as int * (a as int / b as int)) by (nonlinear_arith)
            requires
                q == a as int / b as int,
        {
        }
    }
    (a as i64 - (q as i64) * (b as i64)) as u32
}

/// Static helpers for the voxel-to-chunk coordinate transform.
pub struct ChunkUtils;

impl ChunkUtils {
    /// The chunk coordinate owning a global voxel coordinate:
    /// `cx = floor(vx / chunk_size)`, `cz = floor(vz / chunk_size)`.
    pub fn map_voxel_to_chunk(vx: i32, vy: i32, vz: i32, chunk_size: u32) -> (c: Vec2)
        requires
            1 <= chunk_size <= 256,
        ensures
            c.0 == vx as int / chunk_size as int,
            c.1 == vz as int / chunk_size as int,
    {
        let _ = vy;
        Vec2(floor_div(vx, chunk_size), floor_div(vz, chunk_size))
    }

    /// The chunk-local offsets of a global voxel coordinate. The vertical
    /// axis is not chunked, so the local y equals the global y.
    pub fn map_voxel_to_chunk_local(vx: i32, vy: i32, vz: i32, chunk_size: u32) -> (l: Vec3)
        requires
            1 <= chunk_size <= 256,
        ensures
            l.0 == vx as int % chunk_size as int,
            l.1 == vy,
            l.2 == vz as int % chunk_size as int,
            0 <= l.0 < chunk_size,
            0 <= l.2 < chunk_size,
    {
        let lx = floor_mod(vx, chunk_size);
        let lz = floor_mod(vz, chunk_size);
        Vec3(lx as i32, vy, lz as i32)
    }
}

} // verus!
