//! The generation pipeline contract: ordered, named transformation units
//! that declare the shared resources they need, consume a chunk by value
//! and return it by value. A stage's output is pinned by a relation it
//! must prove functional, so running a stage twice on structurally
//! identical input provably yields byte-identical output.

use vstd::prelude::*;
use crate::chunk::{lemma_col_to_coords, lemma_column_height_value, lemma_column_sync_preserved, lemma_index_to_coords, lemma_voxel_index_bounds, lemma_voxel_index_injective, Chunk};
use crate::config::WorldConfig;
use crate::lights::VoxelPacker;
use crate::space::{chunk_data_eq, Space};

verus! {

/// The shared resources a stage asks the driver to resolve; unused ones
/// are never constructed.
#[derive(Clone, Copy, PartialEq, Eq, Structural, Debug)]
pub struct ResourceRequirements {
    pub needs_registry: bool,
    pub needs_config: bool,
    pub needs_noise: bool,
}

/// The load-time-validated interned block table, consumed as a resource:
/// a block's id is its index.
pub struct BlockRegistry {
    pub names: Vec<String>,
}

impl BlockRegistry {
    /// The id of a named block: the first index carrying the name, or
    /// nothing when the name was never interned — never an abort.
    pub fn get_block_id(&self, name: &String) -> (r: Option<u32>)
        requires
            self.names@.len() <= 0xFFFF,
        ensures
            r is Some <==> exists|i: int| 0 <= i < self.names@.len() && self.names@[i]@ == name@,
            r matches Some(id) ==> id < self.names@.len() && self.names@[id as int]@ == name@
                && forall|j: int| 0 <= j < id ==> self.names@[j]@ != name@,
    {
        let mut i: usize = 0;
        while i < self.names.len()
            invariant
                self.names@.len() <= 0xFFFF,
                i <= self.names@.len(),
                forall|j: int| 0 <= j < i ==> self.names@[j]@ != name@,
            decreases self.names@.len() - i,
        {
            if self.names[i].eq(name) {
                assert(self.names@[i as int]@ == name@);
                return Some(i as u32);
            }
            i += 1;
        }
        None
    }
}

/// The resources a driver resolved for one stage: each present exactly
/// when the stage declared it.
pub struct ResourceResults {
    pub registry: Option<BlockRegistry>,
    pub config: Option<WorldConfig>,
    pub noise_seed: Option<u64>,
}

/// Resolve exactly the requested resources, handing each through
/// untouched and constructing nothing for the rest.
pub fn resolve_resources(
    needs: ResourceRequirements,
    registry: BlockRegistry,
    config: WorldConfig,
    noise_seed: u64,
) -> (r: ResourceResults)
    ensures
        r.registry == (if needs.needs_registry {
            Some(registry)
        } else {
            None::<BlockRegistry>
        }),
        r.config == (if needs.needs_config {
            Some(config)
        } else {
            None::<WorldConfig>
        }),
        r.noise_seed == (if needs.needs_noise {
            Some(noise_seed)
        } else {
            None::<u64>
        }),
{
    ResourceResults {
        registry: if needs.needs_registry {
            Some(registry)
        } else {
            None
        },
        config: if needs.needs_config {
            Some(config)
        } else {
            None
        },
        noise_seed: if needs.needs_noise {
            Some(noise_seed)
        } else {
            None
        },
    }
}

/// The space contents a stage was handed, as a value.
pub open spec fn spec_space_of(space: Option<&Space>) -> Option<Space> {
    match space {
        Some(sp) => Some(*sp),
        None => None,
    }
}

/// One named transformation unit of the generation pipeline.
///
/// `stage_rel` is the stage's contract: it relates the input — the chunk,
/// the resolved resources and the space contents — to the produced chunk,
/// and `lemma_functional` obliges every implementation to prove the
/// relation functional up to the chunks' data. `process` must then land
/// in the relation, so a stage is deterministic: identical input can only
/// yield byte-identical output.
pub trait ChunkStage {
    /// The stage's display name.
    spec fn spec_name(&self) -> Seq<char>;

    /// The resources the stage declares.
    spec fn spec_needs(&self) -> ResourceRequirements;

    /// What the stage asks of its input.
    spec fn spec_pre(&self, chunk: Chunk, resources: ResourceResults, space: Option<Space>) -> bool;

    /// What the stage guarantees of its output.
    spec fn stage_rel(
        &self,
        chunk: Chunk,
        resources: ResourceResults,
        space: Option<Space>,
        out: Chunk,
    ) -> bool;

    /// The output relation admits one output, up to the chunks' data —
    /// also across structurally identical inputs: two input chunks with
    /// the same data, whether or not they are the same value, can only
    /// relate to outputs with the same data.
    proof fn lemma_functional(
        &self,
        c1: Chunk,
        c2: Chunk,
        resources: ResourceResults,
        space: Option<Space>,
        r1: Chunk,
        r2: Chunk,
    )
        requires
            c1.wf(),
            c2.wf(),
            chunk_data_eq(c1, c2),
            self.spec_pre(c1, resources, space),
            self.spec_pre(c2, resources, space),
            self.stage_rel(c1, resources, space, r1),
            self.stage_rel(c2, resources, space, r2),
        ensures
            chunk_data_eq(r1, r2),
    ;

    fn name(&self) -> (r: String)
        ensures
            r@ == self.spec_name(),
    ;

    fn needs_resources(&self) -> (r: ResourceRequirements)
        ensures
            r == self.spec_needs(),
    ;

    fn process(&self, chunk: Chunk, resources: &ResourceResults, space: Option<&Space>) -> (r:
        Chunk)
        requires
            chunk.wf(),
            self.spec_pre(chunk, *resources, spec_space_of(space)),
        ensures
            r.wf(),
            self.stage_rel(chunk, *resources, spec_space_of(space), r),
    ;
}

/// Pipeline determinism: running a stage twice on structurally identical
/// input — input chunks with the same data, the same resolved resources,
/// the same space — produces byte-identical output chunks.
pub proof fn lemma_pipeline_determinism<S: ChunkStage>(
    stage: &S,
    c1: Chunk,
    c2: Chunk,
    resources: ResourceResults,
    space: Option<Space>,
    r1: Chunk,
    r2: Chunk,
)
    requires
        c1.wf(),
        c2.wf(),
        chunk_data_eq(c1, c2),
        stage.spec_pre(c1, resources, space),
        stage.spec_pre(c2, resources, space),
        stage.stage_rel(c1, resources, space, r1),
        stage.stage_rel(c2, resources, space, r2),
    ensures
        chunk_data_eq(r1, r2),
{
    stage.lemma_functional(c1, c2, resources, space, r1, r2);
}

/// The word a flat fill leaves at a local offset: the fill id inserted
/// below the fill level, the original word above it.
pub open spec fn flat_word(chunk: Chunk, bid: u32, level: u32, lx: int, ly: int, lz: int) -> u32 {
    if ly < level {
        VoxelPacker::spec_insert_id(chunk.voxel_at(lx, ly, lz), bid)
    } else {
        chunk.voxel_at(lx, ly, lz)
    }
}

/// An example pipeline stage: fill the chunk's whole footprint with one
/// block id below a fixed level, keeping light data and resynchronizing
/// every column's height entry. It needs no shared resources and no
/// neighbor context.
pub struct FlatLandStage {
    /// Fill below this voxel y.
    pub level: u32,
    /// The block id to fill with.
    pub block_id: u32,
}

impl FlatLandStage {
    /// The relation `process` lands in, written out once.
    pub open spec fn spec_flat_rel(self, chunk: Chunk, out: Chunk) -> bool {
        if self.level == 0 {
            chunk_data_eq(chunk, out)
        } else {
            &&& chunk.same_shape(out)
            &&& out.updated_levels@ == chunk.updated_levels@
            &&& out.voxels@.len() == chunk.voxels@.len()
            &&& out.height_map@.len() == chunk.height_map@.len()
            &&& forall|lx: int, ly: int, lz: int|
                chunk.has_local(lx, ly, lz) ==> #[trigger] out.voxel_at(lx, ly, lz) == flat_word(
                    chunk,
                    self.block_id,
                    self.level,
                    lx,
                    ly,
                    lz,
                )
            &&& forall|lx: int, lz: int|
                0 <= lx < chunk.options.size && 0 <= lz < chunk.options.size
                    ==> #[trigger] out.column_height_ok(lx, lz)
        }
    }
}

impl ChunkStage for FlatLandStage {
    open spec fn spec_name(&self) -> Seq<char> {
        "flat_land"@
    }

    open spec fn spec_needs(&self) -> ResourceRequirements {
        ResourceRequirements { needs_registry: false, needs_config: false, needs_noise: false }
    }

    open spec fn spec_pre(
        &self,
        chunk: Chunk,
        resources: ResourceResults,
        space: Option<Space>,
    ) -> bool {
        true
    }

    open spec fn stage_rel(
        &self,
        chunk: Chunk,
        resources: ResourceResults,
        space: Option<Space>,
        out: Chunk,
    ) -> bool {
        self.spec_flat_rel(chunk, out)
    }

    proof fn lemma_functional(
        &self,
        c1: Chunk,
        c2: Chunk,
        resources: ResourceResults,
        space: Option<Space>,
        r1: Chunk,
        r2: Chunk,
    ) {
        if self.level == 0 {
        } else {
            assert(r1.voxels@ =~= r2.voxels@) by {
                assert forall|i: int| 0 <= i < r1.voxels@.len() implies r1.voxels@[i]
                    == r2.voxels@[i] by {
                    lemma_index_to_coords(c1, i);
                    let (lx, ly, lz) = choose|lx: int, ly: int, lz: int|
                        c1.has_local(lx, ly, lz) && i == #[trigger] c1.voxel_index(lx, ly, lz);
                    assert(c2.voxel_index(lx, ly, lz) == c1.voxel_index(lx, ly, lz));
                    assert(c2.voxel_at(lx, ly, lz) == c1.voxel_at(lx, ly, lz));
                    assert(r1.voxel_at(lx, ly, lz) == flat_word(
                        c1,
                        self.block_id,
                        self.level,
                        lx,
                        ly,
                        lz,
                    ));
                    assert(r2.voxel_at(lx, ly, lz) == flat_word(
                        c2,
                        self.block_id,
                        self.level,
                        lx,
                        ly,
                        lz,
                    ));
                }
            }
            assert(r1.height_map@ =~= r2.height_map@) by {
                assert forall|i: int| 0 <= i < r1.height_map@.len() implies r1.height_map@[i]
                    == r2.height_map@[i] by {
                    lemma_col_to_coords(c1, i);
                    let (lx, lz) = choose|lx: int, lz: int|
                        0 <= lx < c1.options.size && 0 <= lz < c1.options.size && i
                            == #[trigger] c1.column_index(lx, lz);
                    let h1 = r1.height_map@[i] as int;
                    assert(r1.column_height_ok(lx, lz));
                    assert(r2.column_height_ok(lx, lz));
                    assert forall|y: int| 0 <= y < r2.options.max_height implies r2.voxel_at(
                        lx,
                        y,
                        lz,
                    ) == r1.voxel_at(lx, y, lz) by {
                        lemma_voxel_index_bounds(c1, lx, y, lz);
                        assert(r1.voxel_index(lx, y, lz) == c1.voxel_index(lx, y, lz));
                        assert(r2.voxel_index(lx, y, lz) == c1.voxel_index(lx, y, lz));
                    }
                    assert forall|y: int| h1 <= y < r2.options.max_height implies
                        VoxelPacker::spec_extract_id(#[trigger] r2.voxel_at(lx, y, lz)) == 0 by {
                        assert(VoxelPacker::spec_extract_id(r1.voxel_at(lx, y, lz)) == 0);
                    }
                    if h1 > 0 {
                        assert(VoxelPacker::spec_extract_id(r2.voxel_at(lx, h1 - 1, lz))
                            == VoxelPacker::spec_extract_id(r1.voxel_at(lx, h1 - 1, lz)));
                    }
                    assert(r2.column_index(lx, lz) == c1.column_index(lx, lz));
                    lemma_column_height_value(r2, lx, lz, h1);
                }
            }
        }
    }

    fn name(&self) -> (r: String) {
        "flat_land".to_owned()
    }

    fn needs_resources(&self) -> (r: ResourceRequirements) {
        ResourceRequirements { needs_registry: false, needs_config: false, needs_noise: false }
    }

    fn process(&self, chunk: Chunk, resources: &ResourceResults, space: Option<&Space>) -> (r:
        Chunk) {
        let mut c = chunk;
        if self.level == 0 {
            return c;
        }
        let ghost orig = chunk;
        let size = c.options.size;
        let mh = c.options.max_height;
        let lvl = if self.level < mh {
            self.level
        } else {
            mh
        };
        let mut lx: u32 = 0;
        while lx < size
            invariant
                orig.wf(),
                c.wf(),
                orig.same_shape(c),
                c.options == orig.options,
                size == orig.options.size,
                mh == orig.options.max_height,
                1 <= self.level,
                lvl == (if self.level < mh {
                    self.level as int
                } else {
                    mh as int
                }),
                lx <= size,
                c.updated_levels@ == orig.updated_levels@,
                c.voxels@.len() == orig.voxels@.len(),
                c.height_map@.len() == orig.height_map@.len(),
                forall|ax: int, ay: int, az: int|
                    orig.has_local(ax, ay, az) && ax < lx ==> #[trigger] c.voxel_at(ax, ay, az)
                        == flat_word(orig, self.block_id, self.level, ax, ay, az),
                forall|ax: int, ay: int, az: int|
                    orig.has_local(ax, ay, az) && ax >= lx ==> #[trigger] c.voxel_at(ax, ay, az)
                        == orig.voxel_at(ax, ay, az),
                forall|ax: int, az: int|
                    0 <= ax < size && 0 <= az < size && ax < lx
                        ==> #[trigger] c.column_height_ok(ax, az),
                forall|ax: int, az: int|
                    0 <= ax < size && 0 <= az < size && ax >= lx ==> c.height_map@[
                        #[trigger] orig.column_index(ax, az)] == orig.height_map@[orig.column_index(
                        ax,
                        az,
                    )],
            decreases size - lx,
        {
            let mut lz: u32 = 0;
            while lz < size
                invariant
                    orig.wf(),
                    c.wf(),
                    orig.same_shape(c),
                    c.options == orig.options,
                    size == orig.options.size,
                    mh == orig.options.max_height,
                    1 <= self.level,
                    lvl == (if self.level < mh {
                        self.level as int
                    } else {
                        mh as int
                    }),
                    lx < size,
                    lz <= size,
                    c.updated_levels@ == orig.updated_levels@,
                    c.voxels@.len() == orig.voxels@.len(),
                    c.height_map@.len() == orig.height_map@.len(),
                    forall|ax: int, ay: int, az: int|
                        orig.has_local(ax, ay, az) && (ax < lx || (ax == lx && az < lz))
                            ==> #[trigger] c.voxel_at(ax, ay, az) == flat_word(
                            orig,
                            self.block_id,
                            self.level,
                            ax,
                            ay,
                            az,
                        ),
                    forall|ax: int, ay: int, az: int|
                        orig.has_local(ax, ay, az) && !(ax < lx || (ax == lx && az < lz))
                            ==> #[trigger] c.voxel_at(ax, ay, az) == orig.voxel_at(ax, ay, az),
                    forall|ax: int, az: int|
                        0 <= ax < size && 0 <= az < size && (ax < lx || (ax == lx && az < lz))
                            ==> #[trigger] c.column_height_ok(ax, az),
                    forall|ax: int, az: int|
                        0 <= ax < size && 0 <= az < size && !(ax < lx || (ax == lx && az < lz))
                            ==> c.height_map@[#[trigger] orig.column_index(ax, az)]
                            == orig.height_map@[orig.column_index(ax, az)],
                decreases size - lz,
            {
                let mut vy: u32 = 0;
                while vy < lvl
                    invariant
                        orig.wf(),
                        c.wf(),
                        orig.same_shape(c),
                        c.options == orig.options,
                        size == orig.options.size,
                        mh == orig.options.max_height,
                        1 <= self.level,
                        lvl == (if self.level < mh {
                            self.level as int
                        } else {
                            mh as int
                        }),
                        lx < size,
                        lz < size,
                        vy <= lvl,
                        c.updated_levels@ == orig.updated_levels@,
                        c.voxels@.len() == orig.voxels@.len(),
                        c.height_map@.len() == orig.height_map@.len(),
                        forall|ax: int, ay: int, az: int|
                            orig.has_local(ax, ay, az) && (ax < lx || (ax == lx && az < lz) || (ax
                                == lx && az == lz && ay < vy)) ==> #[trigger] c.voxel_at(
                                ax,
                                ay,
                                az,
                            ) == flat_word(orig, self.block_id, self.level, ax, ay, az),
                        forall|ax: int, ay: int, az: int|
                            orig.has_local(ax, ay, az) && !(ax < lx || (ax == lx && az < lz) || (
                            ax == lx && az == lz && ay < vy)) ==> #[trigger] c.voxel_at(ax, ay, az)
                                == orig.voxel_at(ax, ay, az),
                        forall|ax: int, az: int|
                            0 <= ax < size && 0 <= az < size && (ax < lx || (ax == lx && az < lz)
                                || (ax == lx && az == lz && vy > 0)) ==> #[trigger] c.column_height_ok(
                                ax,
                                az,
                            ),
                        forall|ax: int, az: int|
                            0 <= ax < size && 0 <= az < size && !(ax < lx || (ax == lx && az < lz)
                                || (ax == lx && az == lz && vy > 0)) ==> c.height_map@[
                                #[trigger] orig.column_index(ax, az)] == orig.height_map@[
                                orig.column_index(ax, az)],
                    decreases lvl - vy,
                {
                    proof {
                        assert(-0x7F000000 <= (c.coords.0 as int) * (c.options.size as int)
                            && (c.coords.0 as int) * (c.options.size as int) <= 0x7F000000
                            && -0x7F000000 <= (c.coords.1 as int) * (c.options.size as int)
                            && (c.coords.1 as int) * (c.options.size as int) <= 0x7F000000)
                            by (nonlinear_arith)
                            requires
                                -8000000 <= c.coords.0 <= 8000000,
                                -8000000 <= c.coords.1 <= 8000000,
                                1 <= c.options.size <= 256,
                        {
                        }
                    }
                    let vx = c.min.0 + lx as i32;
                    let vz = c.min.2 + lz as i32;
                    let ghost prev = c;
                    proof {
                        assert(prev.local_x(vx as int) == lx as int);
                        assert(prev.local_z(vz as int) == lz as int);
                        assert(prev.contains_voxel(vx as int, vy as int, vz as int));
                    }
                    c.set_voxel(vx, vy as i32, vz, self.block_id);
                    proof {
                        let lxi = lx as int;
                        let lzi = lz as int;
                        let vyi = vy as int;
                        let idx = prev.voxel_index(lxi, vyi, lzi);
                        lemma_voxel_index_bounds(prev, lxi, vyi, lzi);
                        assert(c.voxels@ == prev.voxels@.update(
                            idx,
                            VoxelPacker::spec_insert_id(prev.voxels@[idx], self.block_id),
                        ));
                        assert forall|ax: int, ay: int, az: int|
                            orig.has_local(ax, ay, az) implies #[trigger] c.voxel_at(ax, ay, az)
                            == (if ax == lxi && ay == vyi && az == lzi {
                                flat_word(orig, self.block_id, self.level, ax, ay, az)
                            } else {
                                prev.voxel_at(ax, ay, az)
                            }) by {
                            lemma_voxel_index_bounds(prev, ax, ay, az);
                            assert(c.voxel_index(ax, ay, az) == prev.voxel_index(ax, ay, az));
                            if ax == lxi && ay == vyi && az == lzi {
                                assert(prev.voxel_at(ax, ay, az) == orig.voxel_at(ax, ay, az));
                                assert(c.voxel_at(ax, ay, az) == VoxelPacker::spec_insert_id(
                                    orig.voxel_at(ax, ay, az),
                                    self.block_id,
                                ));
                            } else {
                                lemma_voxel_index_injective(prev, ax, ay, az, lxi, vyi, lzi);
                                assert(c.voxel_at(ax, ay, az) == c.voxels@[prev.voxel_index(
                                    ax,
                                    ay,
                                    az,
                                )]);
                            }
                        }
                        assert forall|ax: int, az: int|
                            0 <= ax < size && 0 <= az < size && (ax < lxi || (ax == lxi && az
                                < lzi)) implies #[trigger] c.column_height_ok(ax, az) by {
                            crate::chunk::lemma_column_index_injective(prev, ax, az, lxi, lzi);
                            crate::chunk::lemma_column_index_bounds(prev, ax, az);
                            crate::chunk::lemma_column_index_bounds(prev, lxi, lzi);
                            lemma_column_sync_preserved(
                                prev,
                                c,
                                lxi,
                                vyi,
                                lzi,
                                ax,
                                az,
                                VoxelPacker::spec_insert_id(prev.voxels@[idx], self.block_id),
                            );
                        }
                        assert(c.column_height_ok(lxi, lzi));
                        assert forall|ax: int, az: int|
                            0 <= ax < size && 0 <= az < size && !(ax < lxi || (ax == lxi && az
                                < lzi) || (ax == lxi && az == lzi)) implies c.height_map@[
                            #[trigger] orig.column_index(ax, az)] == orig.height_map@[
                        orig.column_index(ax, az)] by {
                            crate::chunk::lemma_column_index_injective(prev, ax, az, lxi, lzi);
                            crate::chunk::lemma_column_index_bounds(prev, ax, az);
                            crate::chunk::lemma_column_index_bounds(prev, lxi, lzi);
                        }
                    }
                    vy += 1;
                }
                proof {
                    let lxi = lx as int;
                    let lzi = lz as int;
                    assert forall|ax: int, ay: int, az: int|
                        orig.has_local(ax, ay, az) && (ax < lxi || (ax == lxi && az < lzi + 1))
                            implies #[trigger] c.voxel_at(ax, ay, az) == flat_word(
                        orig,
                        self.block_id,
                        self.level,
                        ax,
                        ay,
                        az,
                    ) by {
                        if ax == lxi && az == lzi && ay >= lvl {
                            assert(c.voxel_at(ax, ay, az) == orig.voxel_at(ax, ay, az));
                            assert(ay >= self.level);
                        }
                    }
                }
                lz += 1;
            }
            lx += 1;
        }
        c
    }
}

/// The scenario law behind a flat fill of an all-air chunk: the height
/// map afterwards reads the fill level in every one of the columns.
pub proof fn lemma_flat_land_heights(
    stage: FlatLandStage,
    chunk: Chunk,
    resources: ResourceResults,
    space: Option<Space>,
    out: Chunk,
)
    requires
        chunk.wf(),
        stage.stage_rel(chunk, resources, space, out),
        1 <= stage.level <= chunk.options.max_height,
        stage.block_id & 0xFFFF != 0,
        forall|i: int| 0 <= i < chunk.voxels@.len() ==> chunk.voxels@[i] == 0,
    ensures
        forall|i: int| 0 <= i < out.height_map@.len() ==> out.height_map@[i] == stage.level,
{
    let bid = stage.block_id;
    assert(VoxelPacker::spec_extract_id(VoxelPacker::spec_insert_id(0u32, bid)) == (bid & 0xFFFF)
        && VoxelPacker::spec_extract_id(0u32) == 0) by (bit_vector);
    assert forall|i: int| 0 <= i < out.height_map@.len() implies out.height_map@[i]
        == stage.level by {
        lemma_col_to_coords(chunk, i);
        let (lx, lz) = choose|lx: int, lz: int|
            0 <= lx < chunk.options.size && 0 <= lz < chunk.options.size && i
                == #[trigger] chunk.column_index(lx, lz);
        assert forall|y: int| 0 <= y < out.options.max_height implies #[trigger] out.voxel_at(
            lx,
            y,
            lz,
        ) == flat_word(chunk, bid, stage.level, lx, y, lz) && chunk.voxel_at(lx, y, lz) == 0 by {
            lemma_voxel_index_bounds(chunk, lx, y, lz);
            assert(out.voxel_at(lx, y, lz) == flat_word(chunk, bid, stage.level, lx, y, lz));
        }
        assert forall|y: int| stage.level <= y < out.options.max_height implies
            VoxelPacker::spec_extract_id(#[trigger] out.voxel_at(lx, y, lz)) == 0 by {
            assert(out.voxel_at(lx, y, lz) == chunk.voxel_at(lx, y, lz));
        }
        assert(out.voxel_at(lx, stage.level - 1, lz) == VoxelPacker::spec_insert_id(0u32, bid));
        assert(VoxelPacker::spec_extract_id(out.voxel_at(lx, stage.level - 1, lz)) != 0);
        assert(out.column_height_ok(lx, lz));
        assert(out.column_index(lx, lz) == i);
        lemma_column_height_value(out, lx, lz, stage.level as int);
    }
}

} // verus!
