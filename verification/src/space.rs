//! An ephemeral bounded view: one target chunk plus a margin of neighbor
//! chunks, materialized on demand from the registry for pipeline stages
//! and systems that need neighbor context.

use vstd::prelude::*;
use crate::chunk::Chunk;
use crate::chunks::{lemma_coord_key_injective, spec_coord_key, Chunks};
use crate::coords::{ChunkUtils, Vec2};
use crate::lights::{LightUtils, VoxelPacker};

verus! {

/// The dimensions and limits a space is built with.
#[derive(Clone, Copy, PartialEq, Eq, Structural, Debug)]
pub struct SpaceOptions {
    /// Chunks of extra border in each direction.
    pub margin: usize,
    /// Horizontal edge length of a chunk, in voxels.
    pub chunk_size: u32,
    /// Number of vertical sub-chunks.
    pub sub_chunks: u32,
    /// Height of a chunk, in voxels.
    pub max_height: u32,
    /// Largest light level a voxel can carry.
    pub max_light_level: u32,
}

/// Whether a chunk coordinate lies in the square window of the given
/// margin around a center.
pub open spec fn spec_in_window(center: Vec2, margin: int, c: Vec2) -> bool {
    &&& -margin <= c.0 - center.0 <= margin
    &&& -margin <= c.1 - center.1 <= margin
}

/// The first chunk with the given coordinate in a list, if any.
pub open spec fn seq_chunk_at(s: Seq<Chunk>, c: Vec2) -> Option<Chunk>
    decreases s.len(),
{
    if s.len() == 0 {
        None
    } else if s[0].coords == c {
        Some(s[0])
    } else {
        seq_chunk_at(s.drop_first(), c)
    }
}

/// A found chunk is an element of the list with that coordinate, and a
/// coordinate no element carries is not found.
pub proof fn lemma_seq_chunk_at(s: Seq<Chunk>, c: Vec2)
    ensures
        seq_chunk_at(s, c) is Some <==> exists|i: int|
            0 <= i < s.len() && (#[trigger] s[i]).coords == c,
        seq_chunk_at(s, c) matches Some(ch) ==> exists|i: int|
            0 <= i < s.len() && #[trigger] s[i] == ch && s[i].coords == c,
    decreases s.len(),
{
    if s.len() > 0 {
        lemma_seq_chunk_at(s.drop_first(), c);
        if s[0].coords == c {
        } else {
            if seq_chunk_at(s, c) is Some {
                let i = choose|i: int|
                    0 <= i < s.drop_first().len() && (#[trigger] s.drop_first()[i]).coords == c;
                assert(s[i + 1].coords == c);
                let ch = seq_chunk_at(s, c).unwrap();
                let j = choose|j: int|
                    0 <= j < s.drop_first().len() && #[trigger] s.drop_first()[j] == ch
                        && s.drop_first()[j].coords == c;
                assert(s[j + 1] == ch);
            } else {
                assert forall|i: int| 0 <= i < s.len() implies (#[trigger] s[i]).coords != c by {
                    if i > 0 {
                        assert(s.drop_first()[i - 1] == s[i]);
                    }
                }
            }
        }
    }
}

/// Two chunk values holding the same data, field for field.
pub open spec fn chunk_data_eq(a: Chunk, b: Chunk) -> bool {
    &&& a.id@ == b.id@
    &&& a.coords == b.coords
    &&& a.min == b.min
    &&& a.max == b.max
    &&& a.voxels@ == b.voxels@
    &&& a.height_map@ == b.height_map@
    &&& a.updated_levels@ == b.updated_levels@
    &&& a.status == b.status
    &&& a.options == b.options
}

/// A bounded multi-chunk view: copies of every present chunk in the
/// window, answering voxel reads with safe defaults anywhere else.
pub struct Space {
    /// The target chunk coordinate the window is centered on.
    pub coords: Vec2,
    /// The dimensions the space was built with.
    pub options: SpaceOptions,
    /// The materialized chunks of the window, one per coordinate.
    pub chunks: Vec<Chunk>,
    /// Whether voxel data was requested.
    pub needs_voxels: bool,
    /// Whether light data was requested.
    pub needs_lights: bool,
    /// Whether height-map data was requested.
    pub needs_height_maps: bool,
}

impl Space {
    /// Every materialized chunk is well-formed, lies in the window, and no
    /// coordinate appears twice.
    pub open spec fn wf(self) -> bool {
        &&& 1 <= self.options.chunk_size <= 256
        &&& 1 <= self.options.max_height <= 1024
        &&& self.options.max_light_level <= 15
        &&& self.options.margin <= 256
        &&& forall|i: int|
            0 <= i < self.chunks@.len() ==> (#[trigger] self.chunks@[i]).wf() && spec_in_window(
                self.coords,
                self.options.margin as int,
                self.chunks@[i].coords,
            ) && self.chunks@[i].options.size == self.options.chunk_size
                && self.chunks@[i].options.max_height == self.options.max_height
        &&& forall|i: int, j: int|
            0 <= i < j < self.chunks@.len() ==> (#[trigger] self.chunks@[i]).coords != (
            #[trigger] self.chunks@[j]).coords
    }

    /// The materialized chunk at a coordinate, if any.
    pub open spec fn spec_chunk_at(self, c: Vec2) -> Option<Chunk> {
        seq_chunk_at(self.chunks@, c)
    }

    /// The chunk coordinate owning a global voxel coordinate.
    pub open spec fn spec_voxel_owner(self, vx: int, vz: int) -> Vec2 {
        Vec2(
            (vx / self.options.chunk_size as int) as i32,
            (vz / self.options.chunk_size as int) as i32,
        )
    }

    /// What `get_raw_voxel` returns: the materialized owning chunk's word
    /// when voxels were requested, 0 anywhere else.
    pub open spec fn spec_get_raw_voxel(self, vx: int, vy: int, vz: int) -> u32 {
        if !self.needs_voxels {
            0
        } else {
            match self.spec_chunk_at(self.spec_voxel_owner(vx, vz)) {
                Some(c) => c.spec_get_raw_voxel(vx, vy, vz),
                None => 0,
            }
        }
    }

    /// What `get_raw_light` returns: full sunlight at or above the space
    /// height; the materialized owning chunk's light word when lights were
    /// requested, 0 anywhere else.
    pub open spec fn spec_get_raw_light(self, vx: int, vy: int, vz: int) -> u32 {
        if vy >= self.options.max_height {
            LightUtils::spec_insert_sunlight(0, self.options.max_light_level)
        } else if !self.needs_lights {
            0
        } else {
            match self.spec_chunk_at(self.spec_voxel_owner(vx, vz)) {
                Some(c) => c.spec_get_raw_light(vx, vy, vz),
                None => 0,
            }
        }
    }

    /// What `get_sunlight` returns.
    pub open spec fn spec_get_sunlight(self, vx: int, vy: int, vz: int) -> u32 {
        if vy >= self.options.max_height {
            self.options.max_light_level
        } else if !self.needs_lights {
            if vy < 0 {
                0
            } else {
                self.options.max_light_level
            }
        } else {
            match self.spec_chunk_at(self.spec_voxel_owner(vx, vz)) {
                Some(c) => c.spec_get_sunlight(vx, vy, vz),
                None => if vy < 0 {
                    0
                } else {
                    self.options.max_light_level
                },
            }
        }
    }

    /// What `get_max_height` returns: the materialized owning chunk's
    /// column entry when height maps were requested, 0 anywhere else.
    pub open spec fn spec_get_max_height(self, vx: int, vz: int) -> u32 {
        if !self.needs_height_maps {
            0
        } else {
            match self.spec_chunk_at(self.spec_voxel_owner(vx, vz)) {
                Some(c) => c.spec_get_max_height(vx, vz),
                None => 0,
            }
        }
    }

    /// Find the materialized chunk owning a voxel coordinate.
    fn find_chunk(&self, vx: i32, vz: i32) -> (r: Option<&Chunk>)
        requires
            self.wf(),
        ensures
            r is Some <==> self.spec_chunk_at(self.spec_voxel_owner(vx as int, vz as int)) is Some,
            r matches Some(c) ==> Some(*c) == self.spec_chunk_at(
                self.spec_voxel_owner(vx as int, vz as int),
            ) && (*c).wf(),
    {
        let owner = ChunkUtils::map_voxel_to_chunk(vx, 0, vz, self.options.chunk_size);
        proof {
            assert(owner == self.spec_voxel_owner(vx as int, vz as int));
            assert(self.chunks@.skip(0) =~= self.chunks@);
        }
        let mut i: usize = 0;
        while i < self.chunks.len()
            invariant
                self.wf(),
                i <= self.chunks@.len(),
                owner == self.spec_voxel_owner(vx as int, vz as int),
                seq_chunk_at(self.chunks@, owner) == seq_chunk_at(self.chunks@.skip(i as int), owner),
            decreases self.chunks@.len() - i,
        {
            proof {
                assert(self.chunks@.skip(i as int)[0] == self.chunks@[i as int]);
                assert(self.chunks@.skip(i as int).drop_first() =~= self.chunks@.skip(i as int + 1));
            }
            if self.chunks[i].coords == owner {
                proof {
                    assert(seq_chunk_at(self.chunks@.skip(i as int), owner) == Some(
                        self.chunks@[i as int],
                    ));
                }
                return Some(&self.chunks[i]);
            }
            i += 1;
        }
        proof {
            assert(self.chunks@.skip(self.chunks@.len() as int) =~= Seq::<Chunk>::empty());
        }
        None
    }

    /// The packed voxel word at a global coordinate; 0 outside the
    /// materialized window or when voxels were not requested — reads
    /// beyond the window resolve to the default, they never fail.
    pub fn get_raw_voxel(&self, vx: i32, vy: i32, vz: i32) -> (r: u32)
        requires
            self.wf(),
        ensures
            r == self.spec_get_raw_voxel(vx as int, vy as int, vz as int),
    {
        if !self.needs_voxels {
            return 0;
        }
        if let Some(c) = self.find_chunk(vx, vz) {
            c.get_raw_voxel(vx, vy, vz)
        } else {
            0
        }
    }

    /// The packed light word at a global coordinate; full sunlight at or
    /// above the space height, 0 outside the materialized data.
    pub fn get_raw_light(&self, vx: i32, vy: i32, vz: i32) -> (r: u32)
        requires
            self.wf(),
        ensures
            r == self.spec_get_raw_light(vx as int, vy as int, vz as int),
    {
        if vy >= 0 && vy >= self.options.max_height as i32 {
            return LightUtils::insert_sunlight(0, self.options.max_light_level);
        }
        if !self.needs_lights {
            return 0;
        }
        if let Some(c) = self.find_chunk(vx, vz) {
            c.get_raw_light(vx, vy, vz)
        } else {
            0
        }
    }

    /// The sunlight level at a global coordinate, with the same defaults
    /// as the registry: the maximum above the height or above ground for
    /// missing data, darkness below ground.
    pub fn get_sunlight(&self, vx: i32, vy: i32, vz: i32) -> (r: u32)
        requires
            self.wf(),
        ensures
            r == self.spec_get_sunlight(vx as int, vy as int, vz as int),
    {
        if vy >= 0 && vy >= self.options.max_height as i32 {
            return self.options.max_light_level;
        }
        if !self.needs_lights {
            return if vy < 0 {
                0
            } else {
                self.options.max_light_level
            };
        }
        if let Some(c) = self.find_chunk(vx, vz) {
            c.get_sunlight(vx, vy, vz)
        } else {
            if vy < 0 {
                0
            } else {
                self.options.max_light_level
            }
        }
    }

    /// The height entry of a global column; 0 outside the materialized
    /// data.
    pub fn get_max_height(&self, vx: i32, vz: i32) -> (r: u32)
        requires
            self.wf(),
        ensures
            r == self.spec_get_max_height(vx as int, vz as int),
    {
        if !self.needs_height_maps {
            return 0;
        }
        if let Some(c) = self.find_chunk(vx, vz) {
            c.get_max_height(vx, vz)
        } else {
            0
        }
    }

    /// Whether a materialized chunk owns this voxel coordinate.
    pub fn contains(&self, vx: i32, vy: i32, vz: i32) -> (r: bool)
        requires
            self.wf(),
        ensures
            r == (self.spec_chunk_at(self.spec_voxel_owner(vx as int, vz as int)) is Some),
    {
        let _ = vy;
        self.find_chunk(vx, vz).is_some()
    }
}

impl Space {
    /// Find the index of the materialized chunk owning a voxel coordinate.
    fn find_chunk_index(&self, vx: i32, vz: i32) -> (r: Option<usize>)
        requires
            self.wf(),
        ensures
            r is Some <==> self.spec_chunk_at(self.spec_voxel_owner(vx as int, vz as int)) is Some,
            r matches Some(i) ==> i < self.chunks@.len() && Some(self.chunks@[i as int])
                == self.spec_chunk_at(self.spec_voxel_owner(vx as int, vz as int)),
    {
        let owner = ChunkUtils::map_voxel_to_chunk(vx, 0, vz, self.options.chunk_size);
        proof {
            assert(owner == self.spec_voxel_owner(vx as int, vz as int));
            assert(self.chunks@.skip(0) =~= self.chunks@);
        }
        let mut i: usize = 0;
        while i < self.chunks.len()
            invariant
                self.wf(),
                i <= self.chunks@.len(),
                owner == self.spec_voxel_owner(vx as int, vz as int),
                seq_chunk_at(self.chunks@, owner) == seq_chunk_at(self.chunks@.skip(i as int), owner),
            decreases self.chunks@.len() - i,
        {
            proof {
                assert(self.chunks@.skip(i as int)[0] == self.chunks@[i as int]);
                assert(self.chunks@.skip(i as int).drop_first() =~= self.chunks@.skip(i as int + 1));
            }
            if self.chunks[i].coords == owner {
                proof {
                    assert(seq_chunk_at(self.chunks@.skip(i as int), owner) == Some(
                        self.chunks@[i as int],
                    ));
                }
                return Some(i);
            }
            i += 1;
        }
        proof {
            assert(self.chunks@.skip(self.chunks@.len() as int) =~= Seq::<Chunk>::empty());
        }
        None
    }

    /// Write the packed voxel word at a global coordinate into the
    /// materialized owning chunk; true only when the chunk is
    /// materialized and the write was applied — a write addressed at a
    /// missing chunk, outside the window, or at a vertical coordinate
    /// outside `[0, max_height)` is a no-op returning false.
    pub fn set_raw_voxel(&mut self, vx: i32, vy: i32, vz: i32, id: u32) -> (r: bool)
        requires
            old(self).wf(),
        ensures
            final(self).wf(),
            r == (match old(self).spec_chunk_at(
                old(self).spec_voxel_owner(vx as int, vz as int),
            ) {
                Some(c) => c.contains_voxel(vx as int, vy as int, vz as int),
                None => false,
            }),
            !r ==> final(self).chunks@ == old(self).chunks@,
            final(self).coords == old(self).coords,
            final(self).options == old(self).options,
            final(self).needs_voxels == old(self).needs_voxels,
            final(self).needs_lights == old(self).needs_lights,
            final(self).needs_height_maps == old(self).needs_height_maps,
            r ==> final(self).chunks@.len() == old(self).chunks@.len() && (exists|i: int|
                0 <= i < old(self).chunks@.len() && Some(#[trigger] old(self).chunks@[i]) == old(self).spec_chunk_at(old(self).spec_voxel_owner(vx as int, vz as int)) && final(self).chunks@[i].voxels@ == old(self).chunks@[i].spec_voxels_after_set(
                    vx as int,
                    vy as int,
                    vz as int,
                    id,
                ) && final(self).chunks@[i].height_map@ == old(self).chunks@[i].height_map@
                    && final(self).chunks@[i].updated_levels@ == old(self).chunks@[i].updated_levels@ && old(self).chunks@[i].same_shape(
                    final(self).chunks@[i],
                ) && (forall|j: int|
                    0 <= j < old(self).chunks@.len() && j != i ==> final(self).chunks@[j] == old(self).chunks@[j])),
    {
        let idx = match self.find_chunk_index(vx, vz) {
            Some(i) => i,
            None => {
                return false;
            },
        };
        let mut c = self.chunks.remove(idx);
        let applied = c.set_raw_voxel(vx, vy, vz, id);
        self.chunks.insert(idx, c);
        if applied {
            proof {
                assert(self.chunks@ =~= old(self).chunks@.update(
                    idx as int,
                    self.chunks@[idx as int],
                ));
            }
            true
        } else {
            proof {
                assert(self.chunks@ =~= old(self).chunks@);
            }
            false
        }
    }

    /// Write the packed light word at a global coordinate into the
    /// materialized owning chunk; true only when the chunk is
    /// materialized and the write was applied — a write addressed at a
    /// missing chunk, outside the window, or at a vertical coordinate
    /// outside `[0, max_height)` is a no-op returning false.
    pub fn set_raw_light(&mut self, vx: i32, vy: i32, vz: i32, level: u32) -> (r: bool)
        requires
            old(self).wf(),
        ensures
            final(self).wf(),
            r == (match old(self).spec_chunk_at(
                old(self).spec_voxel_owner(vx as int, vz as int),
            ) {
                Some(c) => c.contains_voxel(vx as int, vy as int, vz as int),
                None => false,
            }),
            !r ==> final(self).chunks@ == old(self).chunks@,
            final(self).coords == old(self).coords,
            final(self).options == old(self).options,
            final(self).needs_voxels == old(self).needs_voxels,
            final(self).needs_lights == old(self).needs_lights,
            final(self).needs_height_maps == old(self).needs_height_maps,
            r ==> final(self).chunks@.len() == old(self).chunks@.len() && (exists|i: int|
                0 <= i < old(self).chunks@.len() && Some(#[trigger] old(self).chunks@[i]) == old(self).spec_chunk_at(old(self).spec_voxel_owner(vx as int, vz as int)) && final(self).chunks@[i].voxels@ == old(self).chunks@[i].spec_voxels_after_light(
                    vx as int,
                    vy as int,
                    vz as int,
                    level,
                ) && final(self).chunks@[i].height_map@ == old(self).chunks@[i].height_map@
                    && final(self).chunks@[i].updated_levels@ == old(self).chunks@[i].updated_levels@ && old(self).chunks@[i].same_shape(
                    final(self).chunks@[i],
                ) && (forall|j: int|
                    0 <= j < old(self).chunks@.len() && j != i ==> final(self).chunks@[j] == old(self).chunks@[j])),
    {
        let idx = match self.find_chunk_index(vx, vz) {
            Some(i) => i,
            None => {
                return false;
            },
        };
        let mut c = self.chunks.remove(idx);
        let applied = c.set_raw_light(vx, vy, vz, level);
        self.chunks.insert(idx, c);
        if applied {
            proof {
                assert(self.chunks@ =~= old(self).chunks@.update(
                    idx as int,
                    self.chunks@[idx as int],
                ));
            }
            true
        } else {
            proof {
                assert(self.chunks@ =~= old(self).chunks@);
            }
            false
        }
    }

    /// Write the height entry of a global column into the materialized
    /// owning chunk; a write addressed at a missing chunk or outside the
    /// window is a no-op returning false.
    pub fn set_max_height(&mut self, vx: i32, vz: i32, height: u32) -> (r: bool)
        requires
            old(self).wf(),
        ensures
            final(self).wf(),
            r == (old(self).spec_chunk_at(
                old(self).spec_voxel_owner(vx as int, vz as int),
            ) is Some),
            !r ==> *final(self) == *old(self),
            final(self).coords == old(self).coords,
            final(self).options == old(self).options,
            final(self).needs_voxels == old(self).needs_voxels,
            final(self).needs_lights == old(self).needs_lights,
            final(self).needs_height_maps == old(self).needs_height_maps,
            r ==> final(self).chunks@.len() == old(self).chunks@.len() && (exists|i: int|
                0 <= i < old(self).chunks@.len() && Some(#[trigger] old(self).chunks@[i]) == old(self).spec_chunk_at(old(self).spec_voxel_owner(vx as int, vz as int)) && final(self).chunks@[i].height_map@ == old(self).chunks@[i].spec_heights_after_set(
                    vx as int,
                    vz as int,
                    height,
                ) && final(self).chunks@[i].voxels@ == old(self).chunks@[i].voxels@ && final(self).chunks@[i].updated_levels@ == old(self).chunks@[i].updated_levels@ && old(self).chunks@[i].same_shape(final(self).chunks@[i]) && (forall|j: int|
                    0 <= j < old(self).chunks@.len() && j != i ==> final(self).chunks@[j] == old(self).chunks@[j])),
    {
        let idx = match self.find_chunk_index(vx, vz) {
            Some(i) => i,
            None => {
                return false;
            },
        };
        let mut c = self.chunks.remove(idx);
        c.set_max_height(vx, vz, height);
        self.chunks.insert(idx, c);
        proof {
            assert(self.chunks@ =~= old(self).chunks@.update(idx as int, self.chunks@[idx as int]));
        }
        true
    }
}

/// Looking a chunk up in a grown list: an already-found coordinate stays
/// found unchanged, and a fresh one is found exactly when the appended
/// chunk carries it.
proof fn lemma_seq_chunk_at_push(s: Seq<Chunk>, ch: Chunk, c: Vec2)
    ensures
        seq_chunk_at(s.push(ch), c) == (if seq_chunk_at(s, c) is Some {
            seq_chunk_at(s, c)
        } else if ch.coords == c {
            Some(ch)
        } else {
            None
        }),
    decreases s.len(),
{
    if s.len() == 0 {
        assert(s.push(ch)[0] == ch);
        assert(s.push(ch).drop_first() =~= Seq::<Chunk>::empty());
    } else {
        assert(s.push(ch)[0] == s[0]);
        assert(s.push(ch).drop_first() =~= s.drop_first().push(ch));
        lemma_seq_chunk_at_push(s.drop_first(), ch, c);
    }
}

/// Copy a list of words.
fn copy_words(v: &Vec<u32>) -> (r: Vec<u32>)
    ensures
        r@ == v@,
{
    let mut out: Vec<u32> = Vec::new();
    let mut i: usize = 0;
    while i < v.len()
        invariant
            i <= v@.len(),
            out@ == v@.take(i as int),
        decreases v@.len() - i,
    {
        out.push(v[i]);
        proof {
            assert(out@ =~= v@.take(i as int + 1));
        }
        i += 1;
    }
    proof {
        assert(v@.take(v@.len() as int) =~= v@);
    }
    out
}

/// Copy a chunk, data field for data field.
fn copy_chunk(c: &Chunk) -> (r: Chunk)
    ensures
        chunk_data_eq(*c, r),
        c.wf() ==> r.wf(),
{
    Chunk {
        id: c.id.clone(),
        coords: c.coords,
        min: c.min,
        max: c.max,
        voxels: copy_words(&c.voxels),
        height_map: copy_words(&c.height_map),
        updated_levels: copy_words(&c.updated_levels),
        status: c.status,
        options: c.options,
    }
}

/// Why a space could not be built: in strict mode, some chunk of the
/// window is absent or not yet ready, and the caller must defer.
#[derive(Clone, Copy, PartialEq, Eq, Structural, Debug)]
pub enum SpaceError {
    Unavailable,
}

/// Collects what a space will hold before it is materialized: the caller
/// toggles the data classes and strictness it needs, then builds.
pub struct SpaceBuilder {
    /// The target chunk coordinate.
    pub coords: Vec2,
    /// The dimensions the space will carry.
    pub options: SpaceOptions,
    /// Whether voxel data will be served.
    pub needs_voxels: bool,
    /// Whether light data will be served.
    pub needs_lights: bool,
    /// Whether height-map data will be served.
    pub needs_height_maps: bool,
    /// Whether a missing or unready window chunk fails the build.
    pub strict: bool,
}

impl SpaceBuilder {
    /// Request voxel data.
    pub fn needs_voxels(self) -> (r: SpaceBuilder)
        ensures
            r == (SpaceBuilder { needs_voxels: true, ..self }),
    {
        SpaceBuilder { needs_voxels: true, ..self }
    }

    /// Request light data.
    pub fn needs_lights(self) -> (r: SpaceBuilder)
        ensures
            r == (SpaceBuilder { needs_lights: true, ..self }),
    {
        SpaceBuilder { needs_lights: true, ..self }
    }

    /// Request height-map data.
    pub fn needs_height_maps(self) -> (r: SpaceBuilder)
        ensures
            r == (SpaceBuilder { needs_height_maps: true, ..self }),
    {
        SpaceBuilder { needs_height_maps: true, ..self }
    }

    /// Fail the build unless every window chunk is present and ready.
    pub fn strict(self) -> (r: SpaceBuilder)
        ensures
            r == (SpaceBuilder { strict: true, ..self }),
    {
        SpaceBuilder { strict: true, ..self }
    }

    /// Materialize the window from the registry: every present chunk of
    /// the square `[cx - margin, cx + margin] x [cz - margin, cz + margin]`
    /// inside the world bounds is copied in. In strict mode the build
    /// fails unless each such chunk exists and is ready.
    pub fn build(&self, chunks: &Chunks) -> (r: Result<Space, SpaceError>)
        requires
            chunks.wf(),
            self.options.chunk_size == chunks.config.chunk_size,
            self.options.max_height == chunks.config.max_height,
            self.options.sub_chunks == chunks.config.sub_chunks,
            self.options.max_light_level == chunks.config.max_light_level,
            self.options.margin <= 256,
        ensures
            r is Ok <==> (!self.strict || forall|c: Vec2|
                (spec_in_window(self.coords, self.options.margin as int, c)
                    && chunks.spec_is_within_world(c)) ==> #[trigger] chunks.spec_is_chunk_ready(
                    c,
                )),
            r matches Ok(sp) ==> ({
                &&& sp.wf()
                &&& sp.coords == self.coords
                &&& sp.options == self.options
                &&& sp.needs_voxels == self.needs_voxels
                &&& sp.needs_lights == self.needs_lights
                &&& sp.needs_height_maps == self.needs_height_maps
                &&& forall|c: Vec2|
                    #![trigger sp.spec_chunk_at(c)]
                    {
                        if spec_in_window(self.coords, self.options.margin as int, c)
                            && chunks.spec_is_within_world(c) && chunks.spec_chunk_of(c) is Some {
                            sp.spec_chunk_at(c) is Some && chunk_data_eq(
                                chunks.spec_chunk_of(c).unwrap(),
                                sp.spec_chunk_at(c).unwrap(),
                            )
                        } else {
                            sp.spec_chunk_at(c) is None
                        }
                    }
            }),
    {
        let m = self.options.margin as i64;
        let cx = self.coords.0 as i64;
        let cz = self.coords.1 as i64;
        let mut list: Vec<Chunk> = Vec::new();
        let mut available = true;
        let mut dx: i64 = -m;
        while dx <= m
            invariant
                chunks.wf(),
                self.options.chunk_size == chunks.config.chunk_size,
                self.options.max_height == chunks.config.max_height,
                self.options.max_light_level == chunks.config.max_light_level,
                0 <= m <= 256,
                m == self.options.margin,
                cx == self.coords.0,
                cz == self.coords.1,
                -m <= dx <= m + 1,
                available == (forall|c: Vec2|
                    (spec_in_window(self.coords, m as int, c) && chunks.spec_is_within_world(c)
                        && c.0 - cx < dx) ==> #[trigger] chunks.spec_is_chunk_ready(c)),
                forall|c: Vec2|
                    #![trigger seq_chunk_at(list@, c)]
                    {
                        if spec_in_window(self.coords, m as int, c) && chunks.spec_is_within_world(
                            c,
                        ) && chunks.spec_chunk_of(c) is Some && c.0 - cx < dx {
                            seq_chunk_at(list@, c) is Some && chunk_data_eq(
                                chunks.spec_chunk_of(c).unwrap(),
                                seq_chunk_at(list@, c).unwrap(),
                            )
                        } else {
                            seq_chunk_at(list@, c) is None
                        }
                    },
                forall|i: int|
                    0 <= i < list@.len() ==> (#[trigger] list@[i]).wf() && spec_in_window(
                        self.coords,
                        m as int,
                        list@[i].coords,
                    ) && list@[i].options.size == self.options.chunk_size
                        && list@[i].options.max_height == self.options.max_height,
                forall|i: int, j: int|
                    0 <= i < j < list@.len() ==> (#[trigger] list@[i]).coords != (
                    #[trigger] list@[j]).coords,
            decreases m + 1 - dx,
        {
            let mut dz: i64 = -m;
            while dz <= m
                invariant
                    chunks.wf(),
                    self.options.chunk_size == chunks.config.chunk_size,
                    self.options.max_height == chunks.config.max_height,
                    self.options.max_light_level == chunks.config.max_light_level,
                    0 <= m <= 256,
                    m == self.options.margin,
                    cx == self.coords.0,
                    cz == self.coords.1,
                    -m <= dx <= m,
                    -m <= dz <= m + 1,
                    available == (forall|c: Vec2|
                        (spec_in_window(self.coords, m as int, c) && chunks.spec_is_within_world(c)
                            && (c.0 - cx < dx || (c.0 - cx == dx && c.1 - cz < dz)))
                            ==> #[trigger] chunks.spec_is_chunk_ready(c)),
                    forall|c: Vec2|
                        #![trigger seq_chunk_at(list@, c)]
                        {
                            if spec_in_window(self.coords, m as int, c)
                                && chunks.spec_is_within_world(c) && chunks.spec_chunk_of(c)
                                is Some && (c.0 - cx < dx || (c.0 - cx == dx && c.1 - cz < dz)) {
                                seq_chunk_at(list@, c) is Some && chunk_data_eq(
                                    chunks.spec_chunk_of(c).unwrap(),
                                    seq_chunk_at(list@, c).unwrap(),
                                )
                            } else {
                                seq_chunk_at(list@, c) is None
                            }
                        },
                    forall|i: int|
                        0 <= i < list@.len() ==> (#[trigger] list@[i]).wf() && spec_in_window(
                            self.coords,
                            m as int,
                            list@[i].coords,
                        ) && list@[i].options.size == self.options.chunk_size
                            && list@[i].options.max_height == self.options.max_height,
                    forall|i: int, j: int|
                        0 <= i < j < list@.len() ==> (#[trigger] list@[i]).coords != (
                        #[trigger] list@[j]).coords,
                decreases m + 1 - dz,
            {
                let x = cx + dx;
                let z = cz + dz;
                let within = x >= chunks.config.min_chunk.0 as i64 && x
                    <= chunks.config.max_chunk.0 as i64 && z >= chunks.config.min_chunk.1 as i64
                    && z <= chunks.config.max_chunk.1 as i64;
                if within {
                    let cand = Vec2(x as i32, z as i32);
                    if !chunks.is_chunk_ready(&cand) {
                        available = false;
                    }
                    let ghost prev = list@;
                    match chunks.raw(&cand) {
                        Some(ch) => {
                            let copy = copy_chunk(ch);
                            proof {
                                assert(chunks.map@.contains_key(spec_coord_key(cand)));
                                lemma_coord_key_injective(
                                    chunks.map@[spec_coord_key(cand)].coords,
                                    cand,
                                );
                                assert(copy.coords == cand);
                                lemma_seq_chunk_at_push(prev, copy, cand);
                                assert(seq_chunk_at(prev, cand) is None);
                                lemma_push_unique(prev, copy);
                            }
                            list.push(copy);
                            proof {
                                assert forall|c: Vec2|
                                    #![trigger seq_chunk_at(list@, c)]
                                    ({
                                        if spec_in_window(self.coords, m as int, c)
                                            && chunks.spec_is_within_world(c)
                                            && chunks.spec_chunk_of(c) is Some && (c.0 - cx < dx
                                            || (c.0 - cx == dx && c.1 - cz < dz + 1)) {
                                            seq_chunk_at(list@, c) is Some && chunk_data_eq(
                                                chunks.spec_chunk_of(c).unwrap(),
                                                seq_chunk_at(list@, c).unwrap(),
                                            )
                                        } else {
                                            seq_chunk_at(list@, c) is None
                                        }
                                    }) by {
                                    lemma_seq_chunk_at_push(prev, copy, c);
                                    if c.0 - cx == dx && c.1 - cz == dz {
                                        assert(c == cand);
                                    }
                                }
                            }
                        },
                        None => {
                            proof {
                                assert forall|c: Vec2|
                                    #![trigger seq_chunk_at(list@, c)]
                                    ({
                                        if spec_in_window(self.coords, m as int, c)
                                            && chunks.spec_is_within_world(c)
                                            && chunks.spec_chunk_of(c) is Some && (c.0 - cx < dx
                                            || (c.0 - cx == dx && c.1 - cz < dz + 1)) {
                                            seq_chunk_at(list@, c) is Some && chunk_data_eq(
                                                chunks.spec_chunk_of(c).unwrap(),
                                                seq_chunk_at(list@, c).unwrap(),
                                            )
                                        } else {
                                            seq_chunk_at(list@, c) is None
                                        }
                                    }) by {
                                    if c.0 - cx == dx && c.1 - cz == dz {
                                        assert(c == cand);
                                    }
                                }
                            }
                        },
                    }
                } else {
                    proof {
                        assert forall|c: Vec2|
                            #![trigger seq_chunk_at(list@, c)]
                            ({
                                if spec_in_window(self.coords, m as int, c)
                                    && chunks.spec_is_within_world(c) && chunks.spec_chunk_of(c)
                                    is Some && (c.0 - cx < dx || (c.0 - cx == dx && c.1 - cz < dz
                                    + 1)) {
                                    seq_chunk_at(list@, c) is Some && chunk_data_eq(
                                        chunks.spec_chunk_of(c).unwrap(),
                                        seq_chunk_at(list@, c).unwrap(),
                                    )
                                } else {
                                    seq_chunk_at(list@, c) is None
                                }
                            }) by {
                        }
                    }
                }
                dz = dz + 1;
            }
            dx = dx + 1;
        }
        if self.strict && !available {
            return Err(SpaceError::Unavailable);
        }
        Ok(
            Space {
                coords: self.coords,
                options: self.options,
                chunks: list,
                needs_voxels: self.needs_voxels,
                needs_lights: self.needs_lights,
                needs_height_maps: self.needs_height_maps,
            },
        )
    }
}

/// A chunk list stays duplicate-free when the appended chunk's coordinate
/// is fresh.
proof fn lemma_push_unique(s: Seq<Chunk>, ch: Chunk)
    requires
        forall|i: int, j: int|
            0 <= i < j < s.len() ==> (#[trigger] s[i]).coords != (#[trigger] s[j]).coords,
        seq_chunk_at(s, ch.coords) is None,
    ensures
        forall|i: int, j: int|
            0 <= i < j < s.push(ch).len() ==> (#[trigger] s.push(ch)[i]).coords != (
            #[trigger] s.push(ch)[j]).coords,
{
    lemma_seq_chunk_at(s, ch.coords);
    assert forall|i: int, j: int| 0 <= i < j < s.push(ch).len() implies (#[trigger] s.push(
        ch,
    )[i]).coords != (#[trigger] s.push(ch)[j]).coords by {
        if j == s.len() {
            assert(s.push(ch)[i] == s[i]);
            assert(s[i].coords != ch.coords);
        }
    }
}

/// Build a space around a chunk coordinate, carrying this registry's
/// configured dimensions; the caller toggles data classes and strictness
/// on the returned builder, then materializes it against the registry.
impl Chunks {
    pub fn make_space(&self, coords: &Vec2, margin: usize) -> (r: SpaceBuilder)
        ensures
            r.coords == *coords,
            r.options == (SpaceOptions {
                margin,
                chunk_size: self.config.chunk_size,
                sub_chunks: self.config.sub_chunks,
                max_height: self.config.max_height,
                max_light_level: self.config.max_light_level,
            }),
            !r.needs_voxels && !r.needs_lights && !r.needs_height_maps && !r.strict,
    {
        SpaceBuilder {
            coords: *coords,
            options: SpaceOptions {
                margin,
                chunk_size: self.config.chunk_size,
                sub_chunks: self.config.sub_chunks,
                max_height: self.config.max_height,
                max_light_level: self.config.max_light_level,
            },
            needs_voxels: false,
            needs_lights: false,
            needs_height_maps: false,
            strict: false,
        }
    }
}

/// Reads addressed outside the materialized window resolve to the safe
/// default — never to another chunk's data, and never to a failure.
pub proof fn lemma_space_out_of_window_default(sp: Space, vx: int, vy: int, vz: int)
    requires
        sp.wf(),
        !spec_in_window(sp.coords, sp.options.margin as int, sp.spec_voxel_owner(vx, vz)),
    ensures
        sp.spec_get_raw_voxel(vx, vy, vz) == 0,
        sp.spec_get_max_height(vx, vz) == 0,
{
    let owner = sp.spec_voxel_owner(vx, vz);
    lemma_seq_chunk_at(sp.chunks@, owner);
    if sp.spec_chunk_at(owner) is Some {
        let i = choose|i: int|
            0 <= i < sp.chunks@.len() && (#[trigger] sp.chunks@[i]).coords == owner;
    }
}

} // verus!
