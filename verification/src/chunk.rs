//! The single chunk storage unit: a dense voxel array, a parallel
//! height-map array, a dirty-level list and a lifecycle status.

use vstd::prelude::*;
use crate::config::CHUNK_COORD_LIMIT;
use crate::coords::{Vec2, Vec3};
use crate::lights::{LightUtils, VoxelPacker};

verus! {

/// Lifecycle of a chunk: created as `Generating`, moved to `Meshing` once
/// the pipeline (or a decoded persisted file) has filled it, and to `Ready`
/// once a mesh has been registered for it.
#[derive(Clone, Copy, PartialEq, Eq, Structural, Debug)]
pub enum ChunkStatus {
    Generating,
    Meshing,
    Ready,
}

/// The dimensions a chunk is built with.
#[derive(Clone, Copy, PartialEq, Eq, Structural, Debug)]
pub struct ChunkOptions {
    /// Horizontal edge length, in voxels.
    pub size: u32,
    /// Height, in voxels.
    pub max_height: u32,
    /// Number of vertical sub-chunks for dirty-level tracking.
    pub sub_chunks: u32,
}

impl ChunkOptions {
    pub open spec fn wf(self) -> bool {
        &&& 1 <= self.size <= 256
        &&& 1 <= self.max_height <= 1024
        &&& 1 <= self.sub_chunks <= self.max_height
        &&& self.max_height as int % self.sub_chunks as int == 0
    }
}

/// One storage unit of the world: the voxels of a `size x max_height x size`
/// box at a chunk coordinate, stored in a flat row-major array
/// (`x`, then `y`, then `z`), with one height-map entry per `(x, z)` column.
pub struct Chunk {
    /// Identifier carried through persistence.
    pub id: String,
    /// The chunk coordinate `(cx, cz)`.
    pub coords: Vec2,
    /// Smallest voxel coordinate covered (inclusive).
    pub min: Vec3,
    /// Largest voxel coordinate covered (exclusive).
    pub max: Vec3,
    /// Packed voxel words, `size * size * max_height` of them.
    pub voxels: Vec<u32>,
    /// Per-column height entries, `size * size` of them.
    pub height_map: Vec<u32>,
    /// Vertical sub-chunk levels needing relight or remesh.
    pub updated_levels: Vec<u32>,
    /// Lifecycle status.
    pub status: ChunkStatus,
    /// The dimensions this chunk was built with.
    pub options: ChunkOptions,
}

impl Chunk {
    /// Shape invariant: the arrays have the advertised lengths and the
    /// voxel-space bounds match the chunk coordinate.
    pub open spec fn wf(self) -> bool {
        &&& self.options.wf()
        &&& -CHUNK_COORD_LIMIT <= self.coords.0 <= CHUNK_COORD_LIMIT
        &&& -CHUNK_COORD_LIMIT <= self.coords.1 <= CHUNK_COORD_LIMIT
        &&& self.voxels@.len() == self.options.size * self.options.size * self.options.max_height
        &&& self.height_map@.len() == self.options.size * self.options.size
        &&& self.min.0 == self.coords.0 * self.options.size
        &&& self.min.1 == 0
        &&& self.min.2 == self.coords.1 * self.options.size
        &&& self.max.0 == (self.coords.0 + 1) * self.options.size
        &&& self.max.1 == self.options.max_height
        &&& self.max.2 == (self.coords.1 + 1) * self.options.size
    }

    /// The chunk-local x offset of a global voxel x.
    pub open spec fn local_x(self, vx: int) -> int {
        vx - self.coords.0 * self.options.size
    }

    /// The chunk-local z offset of a global voxel z.
    pub open spec fn local_z(self, vz: int) -> int {
        vz - self.coords.1 * self.options.size
    }

    /// Whether a local offset triple lies inside the stored box.
    pub open spec fn has_local(self, lx: int, ly: int, lz: int) -> bool {
        &&& 0 <= lx < self.options.size
        &&& 0 <= ly < self.options.max_height
        &&& 0 <= lz < self.options.size
    }

    /// Whether a global voxel coordinate lies inside the stored box.
    pub open spec fn contains_voxel(self, vx: int, vy: int, vz: int) -> bool {
        self.has_local(self.local_x(vx), vy, self.local_z(vz))
    }

    /// Whether a global column lies inside the stored footprint.
    pub open spec fn contains_column(self, vx: int, vz: int) -> bool {
        &&& 0 <= self.local_x(vx) < self.options.size
        &&& 0 <= self.local_z(vz) < self.options.size
    }

    /// Flat index of a local offset triple in the voxel array.
    pub open spec fn voxel_index(self, lx: int, ly: int, lz: int) -> int {
        (lx * self.options.max_height + ly) * self.options.size + lz
    }

    /// Flat index of a local column in the height-map array.
    pub open spec fn column_index(self, lx: int, lz: int) -> int {
        lx * self.options.size + lz
    }

    /// The stored voxel word at a local offset triple.
    pub open spec fn voxel_at(self, lx: int, ly: int, lz: int) -> u32 {
        self.voxels@[self.voxel_index(lx, ly, lz)]
    }

    /// What `get_raw_voxel` returns: the stored word inside the box, the
    /// air word 0 outside it.
    pub open spec fn spec_get_raw_voxel(self, vx: int, vy: int, vz: int) -> u32 {
        if self.contains_voxel(vx, vy, vz) {
            self.voxel_at(self.local_x(vx), vy, self.local_z(vz))
        } else {
            0
        }
    }

    /// What `get_raw_light` returns: the light half of the stored word
    /// inside the box, 0 outside it.
    pub open spec fn spec_get_raw_light(self, vx: int, vy: int, vz: int) -> u32 {
        VoxelPacker::spec_extract_light(self.spec_get_raw_voxel(vx, vy, vz))
    }

    /// What `get_sunlight` returns: the sunlight nibble of the stored
    /// light word, 0 outside the box.
    pub open spec fn spec_get_sunlight(self, vx: int, vy: int, vz: int) -> u32 {
        LightUtils::spec_extract_sunlight(self.spec_get_raw_light(vx, vy, vz))
    }

    /// What `get_max_height` returns: the height entry of the column, 0
    /// outside the footprint.
    pub open spec fn spec_get_max_height(self, vx: int, vz: int) -> u32 {
        if self.contains_column(vx, vz) {
            self.height_map@[self.column_index(self.local_x(vx), self.local_z(vz))]
        } else {
            0
        }
    }

    /// The fields that no voxel or light mutation touches agree between
    /// two chunk values.
    pub open spec fn same_shape(self, other: Chunk) -> bool {
        &&& other.id@ == self.id@
        &&& other.coords == self.coords
        &&& other.min == self.min
        &&& other.max == self.max
        &&& other.status == self.status
        &&& other.options == self.options
    }

    /// The height entry of a local column is synchronized with the voxels:
    /// everything at or above it is air, and the voxel right below it (if
    /// any) is not air.
    pub open spec fn column_height_ok(self, lx: int, lz: int) -> bool {
        let h = self.height_map@[self.column_index(lx, lz)] as int;
        &&& 0 <= h <= self.options.max_height
        &&& forall|y: int|
            h <= y < self.options.max_height ==> VoxelPacker::spec_extract_id(
                #[trigger] self.voxel_at(lx, y, lz),
            ) == 0
        &&& h > 0 ==> VoxelPacker::spec_extract_id(self.voxel_at(lx, h - 1, lz)) != 0
    }

    /// The voxel array after a raw voxel write at a global coordinate:
    /// the word replaced inside the box, untouched outside it.
    pub open spec fn spec_voxels_after_set(self, vx: int, vy: int, vz: int, word: u32) -> Seq<u32> {
        if self.contains_voxel(vx, vy, vz) {
            self.voxels@.update(self.voxel_index(self.local_x(vx), vy, self.local_z(vz)), word)
        } else {
            self.voxels@
        }
    }

    /// The voxel array after a raw light write at a global coordinate: the
    /// light half of the word replaced inside the box, untouched outside.
    pub open spec fn spec_voxels_after_light(self, vx: int, vy: int, vz: int, level: u32) -> Seq<
        u32,
    > {
        if self.contains_voxel(vx, vy, vz) {
            let idx = self.voxel_index(self.local_x(vx), vy, self.local_z(vz));
            self.voxels@.update(idx, VoxelPacker::spec_insert_light(self.voxels@[idx], level))
        } else {
            self.voxels@
        }
    }

    /// The height-map array after a height write at a global column: the
    /// entry replaced inside the footprint, untouched outside it.
    pub open spec fn spec_heights_after_set(self, vx: int, vz: int, h: u32) -> Seq<u32> {
        if self.contains_column(vx, vz) {
            self.height_map@.update(self.column_index(self.local_x(vx), self.local_z(vz)), h)
        } else {
            self.height_map@
        }
    }

    /// The sub-chunk level a voxel y falls into.
    pub open spec fn spec_level_of(self, vy: int) -> int {
        vy / (self.options.max_height as int / self.options.sub_chunks as int)
    }
}

/// A dirty-level list with one level added, unless it is already marked.
pub open spec fn spec_add_level(levels: Seq<u32>, level: u32) -> Seq<u32> {
    if levels.contains(level) {
        levels
    } else {
        levels.push(level)
    }
}

/// An in-bounds local offset triple's flat index lies inside the array.
pub proof fn lemma_voxel_index_bounds(c: Chunk, lx: int, ly: int, lz: int)
    requires
        c.wf(),
        c.has_local(lx, ly, lz),
    ensures
        0 <= c.voxel_index(lx, ly, lz) < c.voxels@.len(),
{
    let mh = c.options.max_height as int;
    let sz = c.options.size as int;
    assert(0 <= (lx * mh + ly) * sz + lz && (lx * mh + ly) * sz + lz < (sz * sz * mh))
        by (nonlinear_arith)
        requires
            0 <= lx < sz,
            0 <= ly < mh,
            0 <= lz < sz,
    {
    }
}

/// Every flat index in the voxel array is the index of exactly one
/// in-bounds local offset triple.
pub proof fn lemma_index_to_coords(c: Chunk, i: int)
    requires
        c.wf(),
        0 <= i < c.voxels@.len(),
    ensures
        exists|lx: int, ly: int, lz: int|
            c.has_local(lx, ly, lz) && i == #[trigger] c.voxel_index(lx, ly, lz),
{
    let sz = c.options.size as int;
    let mh = c.options.max_height as int;
    let lz = i % sz;
    let q = i / sz;
    let ly = q % mh;
    let lx = q / mh;
    vstd::arithmetic::div_mod::lemma_fundamental_div_mod(i, sz);
    vstd::arithmetic::div_mod::lemma_mod_bound(i, sz);
    vstd::arithmetic::div_mod::lemma_fundamental_div_mod(q, mh);
    vstd::arithmetic::div_mod::lemma_mod_bound(q, mh);
    assert(0 <= q && q < (sz * mh)) by (nonlinear_arith)
        requires
            0 <= i < (sz * sz * mh),
            i == sz * q + lz,
            0 <= lz < sz,
            1 <= sz,
            1 <= mh,
    {
    }
    assert(0 <= lx && lx < sz) by (nonlinear_arith)
        requires
            0 <= q < (sz * mh),
            q == mh * lx + ly,
            0 <= ly < mh,
            1 <= sz,
            1 <= mh,
    {
    }
    assert(i == (lx * mh + ly) * sz + lz) by (nonlinear_arith)
        requires
            i == sz * q + lz,
            q == mh * lx + ly,
    {
    }
    assert(c.has_local(lx, ly, lz) && i == c.voxel_index(lx, ly, lz));
}

/// An in-bounds local column's flat index lies inside the height map.
pub proof fn lemma_column_index_bounds(c: Chunk, lx: int, lz: int)
    requires
        c.wf(),
        0 <= lx < c.options.size,
        0 <= lz < c.options.size,
    ensures
        0 <= c.column_index(lx, lz) < c.height_map@.len(),
{
    let sz = c.options.size as int;
    assert(0 <= lx * sz + lz && lx * sz + lz < (sz * sz)) by (nonlinear_arith)
        requires
            0 <= lx < sz,
            0 <= lz < sz,
    {
    }
}

/// Every flat index in the height-map array is the index of exactly one
/// in-bounds local column.
pub proof fn lemma_col_to_coords(c: Chunk, i: int)
    requires
        c.wf(),
        0 <= i < c.height_map@.len(),
    ensures
        exists|lx: int, lz: int|
            0 <= lx < c.options.size && 0 <= lz < c.options.size && i == #[trigger] c.column_index(
                lx,
                lz,
            ),
{
    let sz = c.options.size as int;
    let lz = i % sz;
    let lx = i / sz;
    vstd::arithmetic::div_mod::lemma_fundamental_div_mod(i, sz);
    vstd::arithmetic::div_mod::lemma_mod_bound(i, sz);
    assert(0 <= lx && lx < sz) by (nonlinear_arith)
        requires
            0 <= i < (sz * sz),
            i == sz * lx + lz,
            0 <= lz < sz,
            1 <= sz,
    {
    }
    assert(i == c.column_index(lx, lz));
}

/// A column's voxels admit one synchronized height: whatever value sits
/// above only air and directly on a non-air voxel is the stored one.
pub proof fn lemma_column_height_value(c: Chunk, lx: int, lz: int, h: int)
    requires
        c.wf(),
        0 <= lx < c.options.size,
        0 <= lz < c.options.size,
        c.column_height_ok(lx, lz),
        0 <= h <= c.options.max_height,
        forall|y: int|
            h <= y < c.options.max_height ==> VoxelPacker::spec_extract_id(
                #[trigger] c.voxel_at(lx, y, lz),
            ) == 0,
        h > 0 ==> VoxelPacker::spec_extract_id(c.voxel_at(lx, h - 1, lz)) != 0,
    ensures
        c.height_map@[c.column_index(lx, lz)] == h,
{
    let hs = c.height_map@[c.column_index(lx, lz)] as int;
    if hs < h {
        assert(VoxelPacker::spec_extract_id(c.voxel_at(lx, h - 1, lz)) == 0);
    } else if hs > h {
        assert(VoxelPacker::spec_extract_id(c.voxel_at(lx, hs - 1, lz)) == 0);
    }
}

/// A synchronized column stays synchronized when a voxel in a different
/// column is replaced and its height entry is untouched.
pub proof fn lemma_column_sync_preserved(
    prev: Chunk,
    cur: Chunk,
    lx: int,
    vy: int,
    lz: int,
    ax: int,
    az: int,
    word: u32,
)
    requires
        prev.wf(),
        cur.wf(),
        cur.options == prev.options,
        prev.has_local(lx, vy, lz),
        0 <= ax < prev.options.size,
        0 <= az < prev.options.size,
        !(ax == lx && az == lz),
        cur.voxels@ == prev.voxels@.update(prev.voxel_index(lx, vy, lz), word),
        cur.height_map@[prev.column_index(ax, az)] == prev.height_map@[prev.column_index(ax, az)],
        prev.column_height_ok(ax, az),
    ensures
        cur.column_height_ok(ax, az),
{
    lemma_voxel_index_bounds(prev, lx, vy, lz);
    assert forall|y: int| 0 <= y < prev.options.max_height implies cur.voxel_at(ax, y, az)
        == prev.voxel_at(ax, y, az) by {
        lemma_voxel_index_injective(prev, ax, y, az, lx, vy, lz);
        lemma_voxel_index_bounds(prev, ax, y, az);
        assert(cur.voxel_index(ax, y, az) == prev.voxel_index(ax, y, az));
        assert(cur.voxel_at(ax, y, az) == cur.voxels@[prev.voxel_index(ax, y, az)]);
    }
    let h = cur.height_map@[cur.column_index(ax, az)] as int;
    assert forall|y: int| h <= y < cur.options.max_height implies VoxelPacker::spec_extract_id(
        #[trigger] cur.voxel_at(ax, y, az),
    ) == 0 by {
        assert(cur.voxel_at(ax, y, az) == prev.voxel_at(ax, y, az));
    }
    if h > 0 {
        assert(cur.voxel_at(ax, h - 1, az) == prev.voxel_at(ax, h - 1, az));
    }
}

/// Two distinct in-bounds local offset triples never share a flat index.
pub proof fn lemma_voxel_index_injective(
    c: Chunk,
    lx1: int,
    ly1: int,
    lz1: int,
    lx2: int,
    ly2: int,
    lz2: int,
)
    requires
        c.wf(),
        c.has_local(lx1, ly1, lz1),
        c.has_local(lx2, ly2, lz2),
        !(lx1 == lx2 && ly1 == ly2 && lz1 == lz2),
    ensures
        c.voxel_index(lx1, ly1, lz1) != c.voxel_index(lx2, ly2, lz2),
{
    let mh = c.options.max_height as int;
    let sz = c.options.size as int;
    assert((lx1 * mh + ly1) * sz + lz1 != (lx2 * mh + ly2) * sz + lz2) by (nonlinear_arith)
        requires
            0 <= lx1 < sz,
            0 <= ly1 < mh,
            0 <= lz1 < sz,
            0 <= lx2 < sz,
            0 <= ly2 < mh,
            0 <= lz2 < sz,
            !(lx1 == lx2 && ly1 == ly2 && lz1 == lz2),
    {
    }
}

/// Two distinct in-bounds local columns never share a height-map index.
pub proof fn lemma_column_index_injective(c: Chunk, lx1: int, lz1: int, lx2: int, lz2: int)
    requires
        c.wf(),
        0 <= lx1 < c.options.size,
        0 <= lz1 < c.options.size,
        0 <= lx2 < c.options.size,
        0 <= lz2 < c.options.size,
        !(lx1 == lx2 && lz1 == lz2),
    ensures
        c.column_index(lx1, lz1) != c.column_index(lx2, lz2),
{
    let sz = c.options.size as int;
    assert(lx1 * sz + lz1 != lx2 * sz + lz2) by (nonlinear_arith)
        requires
            0 <= lx1 < sz,
            0 <= lz1 < sz,
            0 <= lx2 < sz,
            0 <= lz2 < sz,
            !(lx1 == lx2 && lz1 == lz2),
    {
    }
}

/// A vector of `n` zeroed words.
fn zeros(n: usize) -> (v: Vec<u32>)
    ensures
        v@.len() == n,
        forall|i: int| 0 <= i < n ==> v@[i] == 0u32,
{
    let mut v: Vec<u32> = Vec::new();
    while v.len() < n
        invariant
            v@.len() <= n,
            forall|i: int| 0 <= i < v@.len() ==> v@[i] == 0u32,
        decreases n - v@.len(),
    {
        v.push(0);
    }
    v
}

/// Whether a word list holds a given word.
pub fn vec_contains_u32(v: &Vec<u32>, x: u32) -> (b: bool)
    ensures
        b == v@.contains(x),
{
    let mut i: usize = 0;
    while i < v.len()
        invariant
            i <= v@.len(),
            forall|j: int| 0 <= j < i ==> v@[j] != x,
        decreases v@.len() - i,
    {
        if v[i] == x {
            assert(v@[i as int] == x);
            return true;
        }
        i += 1;
    }
    false
}

impl Chunk {
    /// A fresh chunk at `(cx, cz)`: all voxels air, all heights zero, no
    /// dirty levels, status `Generating`.
    pub fn new(id: &str, cx: i32, cz: i32, options: &ChunkOptions) -> (c: Chunk)
        requires
            options.wf(),
            -CHUNK_COORD_LIMIT <= cx <= CHUNK_COORD_LIMIT,
            -CHUNK_COORD_LIMIT <= cz <= CHUNK_COORD_LIMIT,
        ensures
            c.wf(),
            c.id@ == id@,
            c.coords == (Vec2 { 0: cx, 1: cz }),
            c.status == ChunkStatus::Generating,
            c.options == *options,
            forall|i: int| 0 <= i < c.voxels@.len() ==> c.voxels@[i] == 0u32,
            forall|i: int| 0 <= i < c.height_map@.len() ==> c.height_map@[i] == 0u32,
            c.updated_levels@ == Seq::<u32>::empty(),
    {
        let size = options.size;
        let mh = options.max_height;
        proof {
            assert(0 <= ((size as int) * (size as int) * (mh as int))
                && ((size as int) * (size as int) * (mh as int)) <= 0x4000000
                && ((size as int) * (size as int)) <= 0x10000) by (nonlinear_arith)
                requires
                    1 <= size <= 256,
                    1 <= mh <= 1024,
            {
            }
            assert(-0x7F000000 <= (cx as int) * (size as int) <= 0x7F000000
                && -0x7F000000 <= (cz as int) * (size as int) <= 0x7F000000
                && -0x7F000000 <= (cx as int + 1) * (size as int) <= 0x7F000000
                && -0x7F000000 <= (cz as int + 1) * (size as int) <= 0x7F000000)
                by (nonlinear_arith)
                requires
                    1 <= size <= 256,
                    -CHUNK_COORD_LIMIT <= cx <= CHUNK_COORD_LIMIT,
                    -CHUNK_COORD_LIMIT <= cz <= CHUNK_COORD_LIMIT,
            {
            }
        }
        let n_vox: usize = (size as usize) * (size as usize) * (mh as usize);
        let n_col: usize = (size as usize) * (size as usize);
        let min_x = ((cx as i64) * (size as i64)) as i32;
        let min_z = ((cz as i64) * (size as i64)) as i32;
        let max_x = (((cx as i64) + 1) * (size as i64)) as i32;
        let max_z = (((cz as i64) + 1) * (size as i64)) as i32;
        Chunk {
            id: id.to_owned(),
            coords: Vec2(cx, cz),
            min: Vec3(min_x, 0, min_z),
            max: Vec3(max_x, mh as i32, max_z),
            voxels: zeros(n_vox),
            height_map: zeros(n_col),
            updated_levels: Vec::new(),
            status: ChunkStatus::Generating,
            options: *options,
        }
    }

    /// The local offsets of a global voxel coordinate, when it lies inside
    /// this chunk's box.
    fn local_of(&self, vx: i32, vy: i32, vz: i32) -> (r: Option<(usize, usize, usize)>)
        requires
            self.wf(),
        ensures
            r is Some <==> self.contains_voxel(vx as int, vy as int, vz as int),
            r matches Some(l) ==> l.0 == self.local_x(vx as int) && l.1 == vy as int && l.2
                == self.local_z(vz as int),
    {
        proof {
            lemma_origin_in_range(self.coords.0 as int, self.options.size as int);
            lemma_origin_in_range(self.coords.1 as int, self.options.size as int);
        }
        let sx = self.options.size as i64;
        let lx = vx as i64 - (self.coords.0 as i64) * sx;
        let lz = vz as i64 - (self.coords.1 as i64) * sx;
        if 0 <= lx && lx < sx && 0 <= lz && lz < sx && 0 <= vy && vy < self.options.max_height
            as i32 {
            Some((lx as usize, vy as usize, lz as usize))
        } else {
            None
        }
    }

    /// The local offsets of a global column, when it lies inside this
    /// chunk's footprint.
    fn local_column_of(&self, vx: i32, vz: i32) -> (r: Option<(usize, usize)>)
        requires
            self.wf(),
        ensures
            r is Some <==> self.contains_column(vx as int, vz as int),
            r matches Some(l) ==> l.0 == self.local_x(vx as int) && l.1 == self.local_z(vz as int),
    {
        proof {
            lemma_origin_in_range(self.coords.0 as int, self.options.size as int);
            lemma_origin_in_range(self.coords.1 as int, self.options.size as int);
        }
        let sx = self.options.size as i64;
        let lx = vx as i64 - (self.coords.0 as i64) * sx;
        let lz = vz as i64 - (self.coords.1 as i64) * sx;
        if 0 <= lx && lx < sx && 0 <= lz && lz < sx {
            Some((lx as usize, lz as usize))
        } else {
            None
        }
    }

    /// The flat voxel-array index of an in-bounds local offset triple.
    fn voxel_index_of(&self, lx: usize, ly: usize, lz: usize) -> (i: usize)
        requires
            self.wf(),
            self.has_local(lx as int, ly as int, lz as int),
        ensures
            i == self.voxel_index(lx as int, ly as int, lz as int),
            i < self.voxels@.len(),
    {
        proof {
            let szi = self.options.size as int;
            let mhi = self.options.max_height as int;
            let lxi = lx as int;
            let lyi = ly as int;
            let lzi = lz as int;
            assert(0 <= (lxi * mhi + lyi) * szi + lzi
                && (lxi * mhi + lyi) * szi + lzi < (szi * szi * mhi)
                && (szi * szi * mhi) <= 0x4000000
                && 0 <= lxi * mhi
                && lxi * mhi + lyi <= 0x40000
                && (lxi * mhi + lyi) * szi <= 0x4000000) by (nonlinear_arith)
                requires
                    0 <= lxi < szi,
                    0 <= lyi < mhi,
                    0 <= lzi < szi,
                    1 <= szi <= 256,
                    1 <= mhi <= 1024,
            {
            }
        }
        (lx * self.options.max_height as usize + ly) * self.options.size as usize + lz
    }

    /// The flat height-map index of an in-bounds local column.
    fn column_index_of(&self, lx: usize, lz: usize) -> (i: usize)
        requires
            self.wf(),
            0 <= lx < self.options.size,
            0 <= lz < self.options.size,
        ensures
            i == self.column_index(lx as int, lz as int),
            i < self.height_map@.len(),
    {
        proof {
            let szi = self.options.size as int;
            let lxi = lx as int;
            let lzi = lz as int;
            assert(0 <= lxi * szi + lzi && lxi * szi + lzi < (szi * szi)
                && (szi * szi) <= 0x10000) by (nonlinear_arith)
                requires
                    0 <= lxi < szi,
                    0 <= lzi < szi,
                    1 <= szi <= 256,
            {
            }
        }
        lx * self.options.size as usize + lz
    }

    /// The packed voxel word at a global coordinate; 0 outside the box.
    pub fn get_raw_voxel(&self, vx: i32, vy: i32, vz: i32) -> (r: u32)
        requires
            self.wf(),
        ensures
            r == self.spec_get_raw_voxel(vx as int, vy as int, vz as int),
    {
        if let Some(l) = self.local_of(vx, vy, vz) {
            let i = self.voxel_index_of(l.0, l.1, l.2);
            self.voxels[i]
        } else {
            0
        }
    }

    /// Replace the packed voxel word at a global coordinate; false when the
    /// coordinate lies outside the box and nothing is applied. This raw
    /// path leaves the height map alone; `set_voxel` is the
    /// height-synchronizing mutation.
    pub fn set_raw_voxel(&mut self, vx: i32, vy: i32, vz: i32, word: u32) -> (r: bool)
        requires
            old(self).wf(),
        ensures
            r == old(self).contains_voxel(vx as int, vy as int, vz as int),
            old(self).same_shape(*final(self)),
            final(self).wf(),
            final(self).updated_levels@ == old(self).updated_levels@,
            final(self).height_map@ == old(self).height_map@,
            r ==> final(self).voxels@ == old(self).voxels@.update(
                old(self).voxel_index(
                    old(self).local_x(vx as int),
                    vy as int,
                    old(self).local_z(vz as int),
                ),
                word,
            ),
            !r ==> *final(self) == *old(self),
    {
        if let Some(l) = self.local_of(vx, vy, vz) {
            let i = self.voxel_index_of(l.0, l.1, l.2);
            self.voxels[i] = word;
            true
        } else {
            false
        }
    }

    /// The block id at a global coordinate; 0 (air) outside the box.
    pub fn get_voxel(&self, vx: i32, vy: i32, vz: i32) -> (r: u32)
        requires
            self.wf(),
        ensures
            r == VoxelPacker::spec_extract_id(self.spec_get_raw_voxel(vx as int, vy as int, vz as int)),
    {
        VoxelPacker::extract_id(self.get_raw_voxel(vx, vy, vz))
    }

    /// Set the block id at a global coordinate, keeping the light half of
    /// the word, and resynchronize the column's height entry; false when
    /// the coordinate lies outside the box.
    pub fn set_voxel(&mut self, vx: i32, vy: i32, vz: i32, id: u32) -> (r: bool)
        requires
            old(self).wf(),
        ensures
            r == old(self).contains_voxel(vx as int, vy as int, vz as int),
            old(self).same_shape(*final(self)),
            final(self).wf(),
            final(self).updated_levels@ == old(self).updated_levels@,
            !r ==> *final(self) == *old(self),
            r ==> ({
                let lx = old(self).local_x(vx as int);
                let lz = old(self).local_z(vz as int);
                let idx = old(self).voxel_index(lx, vy as int, lz);
                let col = old(self).column_index(lx, lz);
                &&& final(self).voxels@ == old(self).voxels@.update(
                    idx,
                    VoxelPacker::spec_insert_id(old(self).voxels@[idx], id),
                )
                &&& final(self).height_map@.len() == old(self).height_map@.len()
                &&& forall|c: int|
                    0 <= c < old(self).height_map@.len() && c != col ==> final(self).height_map@[c] == old(self).height_map@[c]
                &&& final(self).column_height_ok(lx, lz)
            }),
    {
        let l = match self.local_of(vx, vy, vz) {
            Some(l) => l,
            None => {
                return false;
            },
        };
        let (lx, ly, lz) = l;
        let i = self.voxel_index_of(lx, ly, lz);
        let w = self.voxels[i];
        self.voxels[i] = VoxelPacker::insert_id(w, id);
        let mut h: u32 = self.options.max_height;
        while h > 0 && VoxelPacker::extract_id(
            self.voxels[self.voxel_index_of(lx, (h - 1) as usize, lz)],
        ) == 0
            invariant
                self.wf(),
                h <= self.options.max_height,
                self.has_local(lx as int, 0, lz as int),
                forall|y: int|
                    h <= y < self.options.max_height ==> VoxelPacker::spec_extract_id(
                        #[trigger] self.voxel_at(lx as int, y, lz as int),
                    ) == 0,
            decreases h,
        {
            h = h - 1;
        }
        let ghost pre = *self;
        let c = self.column_index_of(lx, lz);
        self.height_map[c] = h;
        proof {
            assert forall|y: int| h <= y < self.options.max_height implies
                VoxelPacker::spec_extract_id(#[trigger] self.voxel_at(lx as int, y, lz as int))
                    == 0 by {
                assert(self.voxel_at(lx as int, y, lz as int) == pre.voxel_at(
                    lx as int,
                    y,
                    lz as int,
                ));
            }
        }
        true
    }

    /// The packed light word at a global coordinate; 0 outside the box.
    pub fn get_raw_light(&self, vx: i32, vy: i32, vz: i32) -> (r: u32)
        requires
            self.wf(),
        ensures
            r == self.spec_get_raw_light(vx as int, vy as int, vz as int),
    {
        VoxelPacker::extract_light(self.get_raw_voxel(vx, vy, vz))
    }

    /// Replace the packed light word at a global coordinate, keeping the
    /// block id; false when the coordinate lies outside the box and
    /// nothing is applied.
    pub fn set_raw_light(&mut self, vx: i32, vy: i32, vz: i32, level: u32) -> (r: bool)
        requires
            old(self).wf(),
        ensures
            r == old(self).contains_voxel(vx as int, vy as int, vz as int),
            old(self).same_shape(*final(self)),
            final(self).wf(),
            final(self).updated_levels@ == old(self).updated_levels@,
            final(self).height_map@ == old(self).height_map@,
            r ==> final(self).voxels@ == old(self).voxels@.update(
                old(self).voxel_index(
                    old(self).local_x(vx as int),
                    vy as int,
                    old(self).local_z(vz as int),
                ),
                VoxelPacker::spec_insert_light(
                    old(self).voxels@[old(self).voxel_index(
                        old(self).local_x(vx as int),
                        vy as int,
                        old(self).local_z(vz as int),
                    )],
                    level,
                ),
            ),
            !r ==> *final(self) == *old(self),
    {
        if let Some(l) = self.local_of(vx, vy, vz) {
            let i = self.voxel_index_of(l.0, l.1, l.2);
            let w = self.voxels[i];
            self.voxels[i] = VoxelPacker::insert_light(w, level);
            true
        } else {
            false
        }
    }

    /// The sunlight nibble at a global coordinate; 0 outside the box.
    pub fn get_sunlight(&self, vx: i32, vy: i32, vz: i32) -> (r: u32)
        requires
            self.wf(),
        ensures
            r == self.spec_get_sunlight(vx as int, vy as int, vz as int),
            r <= 15,
    {
        LightUtils::extract_sunlight(self.get_raw_light(vx, vy, vz))
    }

    /// The height entry of a global column; 0 outside the footprint.
    pub fn get_max_height(&self, vx: i32, vz: i32) -> (r: u32)
        requires
            self.wf(),
        ensures
            r == self.spec_get_max_height(vx as int, vz as int),
    {
        if let Some(l) = self.local_column_of(vx, vz) {
            let i = self.column_index_of(l.0, l.1);
            self.height_map[i]
        } else {
            0
        }
    }

    /// Replace the height entry of a global column; false when the column
    /// lies outside the footprint.
    pub fn set_max_height(&mut self, vx: i32, vz: i32, height: u32) -> (r: bool)
        requires
            old(self).wf(),
        ensures
            r == old(self).contains_column(vx as int, vz as int),
            old(self).same_shape(*final(self)),
            final(self).wf(),
            final(self).updated_levels@ == old(self).updated_levels@,
            final(self).voxels@ == old(self).voxels@,
            r ==> final(self).height_map@ == old(self).height_map@.update(
                old(self).column_index(old(self).local_x(vx as int), old(self).local_z(vz as int)),
                height,
            ),
            !r ==> *final(self) == *old(self),
    {
        if let Some(l) = self.local_column_of(vx, vz) {
            let i = self.column_index_of(l.0, l.1);
            self.height_map[i] = height;
            true
        } else {
            false
        }
    }

    /// Whether this chunk's box covers a global voxel coordinate.
    pub fn contains(&self, vx: i32, vy: i32, vz: i32) -> (r: bool)
        requires
            self.wf(),
        ensures
            r == self.contains_voxel(vx as int, vy as int, vz as int),
    {
        self.local_of(vx, vy, vz).is_some()
    }

    /// Mark the sub-chunk level containing a voxel y as needing relight or
    /// remesh; a y outside the chunk's vertical range is ignored.
    pub fn add_updated_level(&mut self, vy: i32)
        requires
            old(self).wf(),
        ensures
            old(self).same_shape(*final(self)),
            final(self).wf(),
            final(self).voxels@ == old(self).voxels@,
            final(self).height_map@ == old(self).height_map@,
            0 <= vy < old(self).options.max_height ==> final(self).updated_levels@
                == spec_add_level(
                old(self).updated_levels@,
                old(self).spec_level_of(vy as int) as u32,
            ),
            !(0 <= vy < old(self).options.max_height) ==> final(self).updated_levels@ == old(self).updated_levels@,
    {
        if 0 <= vy && vy < self.options.max_height as i32 {
            let unit = self.options.max_height / self.options.sub_chunks;
            proof {
                assert(self.options.max_height as int / self.options.sub_chunks as int >= 1)
                    by (nonlinear_arith)
                    requires
                        1 <= self.options.sub_chunks <= self.options.max_height,
                {
                }
            }
            let level = (vy as u32) / unit;
            if !vec_contains_u32(&self.updated_levels, level) {
                self.updated_levels.push(level);
            }
        }
    }
}

/// A chunk origin (`coordinate * size`) stays well inside `i32`.
proof fn lemma_origin_in_range(c: int, size: int)
    requires
        -CHUNK_COORD_LIMIT <= c <= CHUNK_COORD_LIMIT,
        1 <= size <= 256,
    ensures
        -0x7F000000 <= c * size <= 0x7F000000,
{
    assert(-0x7F000000 <= c * size <= 0x7F000000) by (nonlinear_arith)
        requires
            -CHUNK_COORD_LIMIT <= c <= CHUNK_COORD_LIMIT,
            1 <= size <= 256,
    {
    }
}

} // verus!
