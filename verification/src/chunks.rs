//! The chunk registry: the authoritative map of chunks, the voxel-update
//! queue, the send and save queues, listeners, and the per-tick cache of
//! mutably touched chunks.

use vstd::prelude::*;
use std::collections::HashMap;
use std::collections::HashSet;
use crate::chunk::{spec_add_level, Chunk, ChunkOptions, ChunkStatus};
use crate::codec::{decode_words, encode_words, encoded_words, le_bytes_of, spec_decoded_bytes, ChunkFileData};
use crate::config::{WorldConfig, CHUNK_COORD_LIMIT};
use crate::coords::{ChunkUtils, Vec2, Vec3};
use crate::lights::LightUtils;
use crate::messages::MessageType;

verus! {

broadcast use vstd::std_specs::hash::group_hash_axioms;

/// The key a chunk coordinate is filed under: both halves side by side in
/// one 64-bit word.
pub open spec fn spec_coord_key(c: Vec2) -> u64 {
    (((c.0 as u32) as u64) << 32) | ((c.1 as u32) as u64)
}

/// Distinct chunk coordinates are filed under distinct keys.
pub proof fn lemma_coord_key_injective(a: Vec2, b: Vec2)
    requires
        spec_coord_key(a) == spec_coord_key(b),
    ensures
        a == b,
{
    let a0 = a.0;
    let a1 = a.1;
    let b0 = b.0;
    let b1 = b.1;
    assert(((((a0 as u32) as u64) << 32) | ((a1 as u32) as u64)) == ((((b0 as u32) as u64) << 32)
        | ((b1 as u32) as u64)) ==> a0 == b0 && a1 == b1) by (bit_vector);
}

/// Compute the map key of a chunk coordinate.
pub fn coord_key(c: &Vec2) -> (k: u64)
    ensures
        k == spec_coord_key(*c),
{
    ((#[verifier::truncate] (c.0 as u32)) as u64) << 32 | ((#[verifier::truncate] (c.1 as u32))
        as u64)
}

/// The entries a queue drops when a new update at `v` arrives.
pub open spec fn upd_drop(v: Vec3) -> spec_fn((Vec3, u32)) -> bool {
    |e: (Vec3, u32)| e.0 == v
}

/// The entries a list drops when a voxel at `v` is marked active again.
pub open spec fn act_drop(v: Vec3) -> spec_fn((u64, Vec3)) -> bool {
    |e: (u64, Vec3)| e.1 == v
}

/// A sequence with every entry matching the predicate dropped, keeping the
/// order of the rest.
pub open spec fn drop_matching<T>(q: Seq<T>, dropit: spec_fn(T) -> bool) -> Seq<T>
    decreases q.len(),
{
    if q.len() == 0 {
        Seq::empty()
    } else if dropit(q.last()) {
        drop_matching(q.drop_last(), dropit)
    } else {
        drop_matching(q.drop_last(), dropit).push(q.last())
    }
}

/// A voxel-update queue with every entry at a coordinate dropped.
pub open spec fn spec_remove_update(q: Seq<(Vec3, u32)>, v: Vec3) -> Seq<(Vec3, u32)> {
    drop_matching(q, upd_drop(v))
}

/// A voxel-update queue after one `update_voxel` call: any older entry at
/// the coordinate is dropped and the new value queued at the back.
pub open spec fn spec_after_update(q: Seq<(Vec3, u32)>, v: Vec3, val: u32) -> Seq<(Vec3, u32)> {
    spec_remove_update(q, v).push((v, val))
}

/// An active-voxel list with every entry at a coordinate dropped.
pub open spec fn spec_remove_active(q: Seq<(u64, Vec3)>, v: Vec3) -> Seq<(u64, Vec3)> {
    drop_matching(q, act_drop(v))
}

/// No coordinate appears twice.
pub open spec fn coords_unique(s: Seq<Vec2>) -> bool {
    forall|i: int, j: int| 0 <= i < j < s.len() ==> s[i] != s[j]
}

/// No queued update coordinate appears twice.
pub open spec fn update_coords_unique(s: Seq<(Vec3, u32)>) -> bool {
    forall|i: int, j: int| 0 <= i < j < s.len() ==> (#[trigger] s[i]).0 != (#[trigger] s[j]).0
}

/// No send-queue coordinate appears twice.
pub open spec fn send_coords_unique(s: Seq<(Vec2, MessageType)>) -> bool {
    forall|i: int, j: int| 0 <= i < j < s.len() ==> (#[trigger] s[i]).0 != (#[trigger] s[j]).0
}

/// No active-voxel coordinate appears twice.
pub open spec fn active_coords_unique(s: Seq<(u64, Vec3)>) -> bool {
    forall|i: int, j: int| 0 <= i < j < s.len() ==> (#[trigger] s[i]).1 != (#[trigger] s[j]).1
}

/// Whether a send queue holds an entry for a coordinate.
pub open spec fn spec_send_queued(q: Seq<(Vec2, MessageType)>, c: Vec2) -> bool {
    exists|i: int| 0 <= i < q.len() && (#[trigger] q[i]).0 == c
}

/// The manager of all chunks in a world.
pub struct Chunks {
    /// The authoritative map: one chunk per coordinate, keyed by
    /// `spec_coord_key` of its coordinate.
    pub map: HashMap<u64, Chunk>,
    /// Voxel updates waiting to be processed; at most one per coordinate.
    pub updates: Vec<(Vec3, u32)>,
    /// Chunks done meshing, waiting to be sent; front entries first.
    pub to_send: Vec<(Vec2, MessageType)>,
    /// Chunks waiting to be saved; front entries first.
    pub to_save: Vec<Vec2>,
    /// Voxels scheduled for a timed effect, with their activation stamp.
    pub active_voxels: Vec<(u64, Vec3)>,
    /// For each chunk, the dependent chunk coordinates to notify when it
    /// is ready.
    pub listeners: HashMap<u64, Vec<Vec2>>,
    /// The chunks mutably touched since the last tick, cleared each tick.
    pub cache: HashSet<u64>,
    /// Voxels with an associated simulation entity, by its plain id.
    pub block_entities: Vec<(Vec3, u64)>,
    /// The world's configuration.
    pub config: WorldConfig,
}

impl Chunks {
    /// The chunk dimensions every stored chunk was built with.
    pub open spec fn spec_chunk_options(self) -> ChunkOptions {
        ChunkOptions {
            size: self.config.chunk_size,
            max_height: self.config.max_height,
            sub_chunks: self.config.sub_chunks,
        }
    }

    /// Registry invariant: the configuration is well-formed, every stored
    /// chunk is well-formed, filed under the key of its own coordinate and
    /// built with the configured dimensions, and the queues hold at most
    /// one entry per coordinate.
    pub open spec fn wf(self) -> bool {
        &&& self.config.wf()
        &&& forall|k: u64|
            #[trigger] self.map@.contains_key(k) ==> self.map@[k].wf() && spec_coord_key(
                self.map@[k].coords,
            ) == k && self.map@[k].options == self.spec_chunk_options()
        &&& update_coords_unique(self.updates@)
        &&& send_coords_unique(self.to_send@)
        &&& coords_unique(self.to_save@)
        &&& active_coords_unique(self.active_voxels@)
    }

    /// The queue, listener, cache and configuration state agrees between
    /// two registry values; only the chunk map may differ.
    pub open spec fn same_aux(self, other: Chunks) -> bool {
        &&& other.updates@ == self.updates@
        &&& other.to_send@ == self.to_send@
        &&& other.to_save@ == self.to_save@
        &&& other.active_voxels@ == self.active_voxels@
        &&& other.listeners@ == self.listeners@
        &&& other.cache@ == self.cache@
        &&& other.block_entities@ == self.block_entities@
        &&& other.config == self.config
    }

    /// As `same_aux`, without the per-tick cache.
    pub open spec fn same_aux_but_cache(self, other: Chunks) -> bool {
        &&& other.updates@ == self.updates@
        &&& other.to_send@ == self.to_send@
        &&& other.to_save@ == self.to_save@
        &&& other.active_voxels@ == self.active_voxels@
        &&& other.listeners@ == self.listeners@
        &&& other.block_entities@ == self.block_entities@
        &&& other.config == self.config
    }

    /// Whether a chunk coordinate lies inside the configured world bounds,
    /// inclusive on both axes.
    pub open spec fn spec_is_within_world(self, c: Vec2) -> bool {
        &&& self.config.min_chunk.0 <= c.0 <= self.config.max_chunk.0
        &&& self.config.min_chunk.1 <= c.1 <= self.config.max_chunk.1
    }

    /// The chunk stored at a coordinate, if any.
    pub open spec fn spec_chunk_of(self, c: Vec2) -> Option<Chunk> {
        if self.map@.contains_key(spec_coord_key(c)) {
            Some(self.map@[spec_coord_key(c)])
        } else {
            None
        }
    }

    /// Whether the chunk at a coordinate exists and is `Ready`.
    pub open spec fn spec_is_chunk_ready(self, c: Vec2) -> bool {
        &&& self.spec_is_within_world(c)
        &&& match self.spec_chunk_of(c) {
            Some(ch) => ch.status == ChunkStatus::Ready,
            None => false,
        }
    }

    /// A fresh registry for a world configuration: no chunks, empty queues.
    pub fn new(config: &WorldConfig) -> (s: Chunks)
        requires
            config.wf(),
        ensures
            s.wf(),
            s.config == *config,
            s.map@ == Map::<u64, Chunk>::empty(),
            s.updates@.len() == 0,
            s.to_send@.len() == 0,
            s.to_save@.len() == 0,
            s.active_voxels@.len() == 0,
            s.listeners@ == Map::<u64, Vec<Vec2>>::empty(),
            s.cache@ == Set::<u64>::empty(),
            s.block_entities@.len() == 0,
    {
        Chunks {
            map: HashMap::new(),
            updates: Vec::new(),
            to_send: Vec::new(),
            to_save: Vec::new(),
            active_voxels: Vec::new(),
            listeners: HashMap::new(),
            cache: HashSet::new(),
            block_entities: Vec::new(),
            config: *config,
        }
    }

    /// Whether a chunk coordinate lies inside the world's min/max bounds.
    pub fn is_within_world(&self, coords: &Vec2) -> (r: bool)
        ensures
            r == self.spec_is_within_world(*coords),
    {
        coords.0 >= self.config.min_chunk.0 && coords.0 <= self.config.max_chunk.0 && coords.1
            >= self.config.min_chunk.1 && coords.1 <= self.config.max_chunk.1
    }

    /// The stored chunk at a coordinate, whatever its status; `None`
    /// outside the world bounds.
    pub fn raw(&self, coords: &Vec2) -> (r: Option<&Chunk>)
        requires
            self.wf(),
        ensures
            r is Some <==> (self.spec_is_within_world(*coords) && self.spec_chunk_of(*coords)
                is Some),
            r matches Some(c) ==> Some(*c) == self.spec_chunk_of(*coords),
    {
        if !self.is_within_world(coords) {
            return None;
        }
        let k = coord_key(coords);
        self.map.get(&k)
    }

    /// Guard for chunk access: true only when the chunk exists and has
    /// finished meshing.
    pub fn is_chunk_ready(&self, coords: &Vec2) -> (r: bool)
        requires
            self.wf(),
        ensures
            r == self.spec_is_chunk_ready(*coords),
    {
        if let Some(chunk) = self.raw(coords) {
            chunk.status == ChunkStatus::Ready
        } else {
            false
        }
    }

    /// The stored chunk at a coordinate, only once it is `Ready`.
    pub fn get(&self, coords: &Vec2) -> (r: Option<&Chunk>)
        requires
            self.wf(),
        ensures
            r is Some <==> self.spec_is_chunk_ready(*coords),
            r matches Some(c) ==> Some(*c) == self.spec_chunk_of(*coords),
    {
        if !self.is_within_world(coords) || !self.is_chunk_ready(coords) {
            return None;
        }
        let k = coord_key(coords);
        self.map.get(&k)
    }

    /// Replace the chunk filed at the incoming chunk's coordinate. With
    /// `renew_mesh_only` the stored chunk keeps its data and only takes the
    /// incoming status; a full renew replaces the whole entry.
    pub fn renew(&mut self, chunk: Chunk, renew_mesh_only: bool)
        requires
            old(self).wf(),
            chunk.wf(),
            chunk.options == old(self).spec_chunk_options(),
        ensures
            final(self).wf(),
            old(self).same_aux(*final(self)),
            ({
                let key = spec_coord_key(chunk.coords);
                if renew_mesh_only {
                    if old(self).map@.contains_key(key) {
                        final(self).map@ == old(self).map@.insert(
                            key,
                            (Chunk { status: chunk.status, ..old(self).map@[key] }),
                        )
                    } else {
                        final(self).map@ == old(self).map@
                    }
                } else {
                    final(self).map@ == old(self).map@.insert(key, chunk)
                }
            }),
    {
        let key = coord_key(&chunk.coords);
        if renew_mesh_only {
            if let Some(mut old_chunk) = self.map.remove(&key) {
                proof {
                    lemma_coord_key_injective(old(self).map@[key].coords, chunk.coords);
                }
                old_chunk.status = chunk.status;
                self.map.insert(key, old_chunk);
                proof {
                    assert(self.map@ =~= old(self).map@.insert(
                        key,
                        (Chunk { status: chunk.status, ..old(self).map@[key] }),
                    ));
                }
            }
            return;
        }
        self.map.remove(&key);
        self.map.insert(key, chunk);
        proof {
            assert(self.map@ =~= old(self).map@.insert(key, chunk));
        }
    }

    /// Add a new chunk; a synonym for a full `renew`.
    pub fn add(&mut self, chunk: Chunk)
        requires
            old(self).wf(),
            chunk.wf(),
            chunk.options == old(self).spec_chunk_options(),
        ensures
            final(self).wf(),
            old(self).same_aux(*final(self)),
            final(self).map@ == old(self).map@.insert(spec_coord_key(chunk.coords), chunk),
    {
        self.renew(chunk, false);
    }

    /// Forget which chunks were touched this tick.
    pub fn clear_cache(&mut self)
        requires
            old(self).wf(),
        ensures
            final(self).wf(),
            old(self).same_aux_but_cache(*final(self)),
            final(self).map@ == old(self).map@,
            final(self).cache@ == Set::<u64>::empty(),
    {
        self.cache.clear();
    }

    /// Queue a voxel update, superseding any queued update at the same
    /// coordinate: last write wins, and the queue stays bounded under
    /// bursty edits at one spot.
    pub fn update_voxel(&mut self, voxel: &Vec3, val: u32)
        requires
            old(self).wf(),
        ensures
            final(self).wf(),
            final(self).map@ == old(self).map@,
            final(self).cache@ == old(self).cache@,
            final(self).to_send@ == old(self).to_send@,
            final(self).to_save@ == old(self).to_save@,
            final(self).active_voxels@ == old(self).active_voxels@,
            final(self).listeners@ == old(self).listeners@,
            final(self).block_entities@ == old(self).block_entities@,
            final(self).config == old(self).config,
            final(self).updates@ == spec_after_update(old(self).updates@, *voxel, val),
    {
        let mut kept: Vec<(Vec3, u32)> = Vec::new();
        let mut i: usize = 0;
        while i < self.updates.len()
            invariant
                i <= self.updates@.len(),
                kept@ == spec_remove_update(self.updates@.take(i as int), *voxel),
                *self == *old(self),
            decreases self.updates@.len() - i,
        {
            let e = self.updates[i];
            proof {
                let q = self.updates@;
                let vv = *voxel;
                assert(q.take(i as int + 1).drop_last() =~= q.take(i as int));
                assert(q.take(i as int + 1).last() == q[i as int]);
                assert(upd_drop(vv)(q[i as int]) == (q[i as int].0 == vv));
                assert(spec_remove_update(q.take(i as int + 1), vv) == (if q[i as int].0 == vv {
                    spec_remove_update(q.take(i as int), vv)
                } else {
                    spec_remove_update(q.take(i as int), vv).push(q[i as int])
                }));
            }
            if !(e.0 == *voxel) {
                kept.push(e);
            }
            i += 1;
        }
        proof {
            assert(self.updates@.take(self.updates@.len() as int) =~= self.updates@);
        }
        kept.push((*voxel, val));
        self.updates = kept;
        proof {
            lemma_remove_update_unique(old(self).updates@, *voxel);
        }
    }

    /// Queue several voxel updates in order.
    pub fn update_voxels(&mut self, voxels: &Vec<(Vec3, u32)>)
        requires
            old(self).wf(),
        ensures
            final(self).wf(),
            final(self).map@ == old(self).map@,
            final(self).cache@ == old(self).cache@,
            final(self).to_send@ == old(self).to_send@,
            final(self).to_save@ == old(self).to_save@,
            final(self).active_voxels@ == old(self).active_voxels@,
            final(self).listeners@ == old(self).listeners@,
            final(self).block_entities@ == old(self).block_entities@,
            final(self).config == old(self).config,
            final(self).updates@ == spec_after_updates(old(self).updates@, voxels@),
    {
        let mut i: usize = 0;
        while i < voxels.len()
            invariant
                i <= voxels@.len(),
                self.wf(),
                self.map@ == old(self).map@,
                self.cache@ == old(self).cache@,
                self.to_send@ == old(self).to_send@,
                self.to_save@ == old(self).to_save@,
                self.active_voxels@ == old(self).active_voxels@,
                self.listeners@ == old(self).listeners@,
                self.block_entities@ == old(self).block_entities@,
                self.config == old(self).config,
                self.updates@ == spec_after_updates(old(self).updates@, voxels@.take(i as int)),
            decreases voxels@.len() - i,
        {
            let (v, val) = voxels[i];
            self.update_voxel(&v, val);
            proof {
                assert(voxels@.take(i as int + 1).drop_last() =~= voxels@.take(i as int));
                assert(voxels@.take(i as int + 1).last() == voxels@[i as int]);
            }
            i += 1;
        }
        proof {
            assert(voxels@.take(voxels@.len() as int) =~= voxels@);
        }
    }

    /// Schedule a timed effect for a voxel; a newer stamp supersedes any
    /// queued one for the same coordinate.
    pub fn mark_voxel_active(&mut self, voxel: &Vec3, active_at: u64)
        requires
            old(self).wf(),
        ensures
            final(self).wf(),
            final(self).map@ == old(self).map@,
            final(self).cache@ == old(self).cache@,
            final(self).to_send@ == old(self).to_send@,
            final(self).to_save@ == old(self).to_save@,
            final(self).updates@ == old(self).updates@,
            final(self).listeners@ == old(self).listeners@,
            final(self).block_entities@ == old(self).block_entities@,
            final(self).config == old(self).config,
            final(self).active_voxels@ == spec_remove_active(old(self).active_voxels@, *voxel).push(
                (active_at, *voxel),
            ),
    {
        let mut kept: Vec<(u64, Vec3)> = Vec::new();
        let mut i: usize = 0;
        while i < self.active_voxels.len()
            invariant
                i <= self.active_voxels@.len(),
                kept@ == spec_remove_active(self.active_voxels@.take(i as int), *voxel),
                *self == *old(self),
            decreases self.active_voxels@.len() - i,
        {
            let e = self.active_voxels[i];
            proof {
                let q = self.active_voxels@;
                let vv = *voxel;
                assert(q.take(i as int + 1).drop_last() =~= q.take(i as int));
                assert(q.take(i as int + 1).last() == q[i as int]);
                assert(act_drop(vv)(q[i as int]) == (q[i as int].1 == vv));
                assert(spec_remove_active(q.take(i as int + 1), vv) == (if q[i as int].1 == vv {
                    spec_remove_active(q.take(i as int), vv)
                } else {
                    spec_remove_active(q.take(i as int), vv).push(q[i as int])
                }));
            }
            if !(e.1 == *voxel) {
                kept.push(e);
            }
            i += 1;
        }
        proof {
            assert(self.active_voxels@.take(self.active_voxels@.len() as int)
                =~= self.active_voxels@);
        }
        kept.push((active_at, *voxel));
        self.active_voxels = kept;
        proof {
            lemma_remove_active_unique(old(self).active_voxels@, *voxel);
        }
    }

    /// Queue a chunk to be saved, once: a queued coordinate is not queued
    /// again. A prioritized chunk goes to the front of the queue.
    pub fn add_chunk_to_save(&mut self, coords: &Vec2, prioritized: bool)
        requires
            old(self).wf(),
        ensures
            final(self).wf(),
            final(self).map@ == old(self).map@,
            final(self).cache@ == old(self).cache@,
            final(self).to_send@ == old(self).to_send@,
            final(self).updates@ == old(self).updates@,
            final(self).active_voxels@ == old(self).active_voxels@,
            final(self).listeners@ == old(self).listeners@,
            final(self).block_entities@ == old(self).block_entities@,
            final(self).config == old(self).config,
            final(self).to_save@ == (if old(self).to_save@.contains(*coords) {
                old(self).to_save@
            } else if prioritized {
                old(self).to_save@.insert(0, *coords)
            } else {
                old(self).to_save@.push(*coords)
            }),
    {
        if !vec_contains_vec2(&self.to_save, coords) {
            if prioritized {
                self.to_save.insert(0, *coords);
            } else {
                self.to_save.push(*coords);
            }
        }
    }

    /// Queue a chunk to be sent under a message tag, once per coordinate.
    /// A prioritized chunk goes to the front of the queue.
    pub fn add_chunk_to_send(&mut self, coords: &Vec2, mtype: &MessageType, prioritized: bool)
        requires
            old(self).wf(),
        ensures
            final(self).wf(),
            final(self).map@ == old(self).map@,
            final(self).cache@ == old(self).cache@,
            final(self).to_save@ == old(self).to_save@,
            final(self).updates@ == old(self).updates@,
            final(self).active_voxels@ == old(self).active_voxels@,
            final(self).listeners@ == old(self).listeners@,
            final(self).block_entities@ == old(self).block_entities@,
            final(self).config == old(self).config,
            final(self).to_send@ == (if spec_send_queued(old(self).to_send@, *coords) {
                old(self).to_send@
            } else if prioritized {
                old(self).to_send@.insert(0, (*coords, *mtype))
            } else {
                old(self).to_send@.push((*coords, *mtype))
            }),
    {
        let mut queued = false;
        let mut i: usize = 0;
        while i < self.to_send.len()
            invariant
                i <= self.to_send@.len(),
                queued == exists|j: int|
                    0 <= j < i && (#[trigger] self.to_send@[j]).0 == *coords,
                *self == *old(self),
            decreases self.to_send@.len() - i,
        {
            if self.to_send[i].0 == *coords {
                queued = true;
            }
            i += 1;
        }
        if !queued {
            if prioritized {
                self.to_send.insert(0, (*coords, *mtype));
            } else {
                self.to_send.push((*coords, *mtype));
            }
        }
    }

    /// Record that a dependent chunk wants to be notified when the chunk
    /// at a coordinate is done generating or meshing.
    pub fn add_listener(&mut self, coords: &Vec2, listener: &Vec2)
        requires
            old(self).wf(),
        ensures
            final(self).wf(),
            final(self).map@ == old(self).map@,
            final(self).cache@ == old(self).cache@,
            final(self).to_save@ == old(self).to_save@,
            final(self).to_send@ == old(self).to_send@,
            final(self).updates@ == old(self).updates@,
            final(self).active_voxels@ == old(self).active_voxels@,
            final(self).block_entities@ == old(self).block_entities@,
            final(self).config == old(self).config,
            ({
                let key = spec_coord_key(*coords);
                &&& final(self).listeners@.dom() == old(self).listeners@.dom().insert(key)
                &&& final(self).listeners@[key]@ == (if old(self).listeners@.contains_key(key) {
                    old(self).listeners@[key]@
                } else {
                    Seq::<Vec2>::empty()
                }).push(*listener)
                &&& forall|k: u64|
                    k != key && #[trigger] old(self).listeners@.contains_key(k) ==> final(self).listeners@[k] == old(self).listeners@[k]
            }),
    {
        let key = coord_key(coords);
        let mut list = match self.listeners.remove(&key) {
            Some(v) => v,
            None => Vec::new(),
        };
        list.push(*listener);
        self.listeners.insert(key, list);
        proof {
            assert(final(self).listeners@.dom() =~= old(self).listeners@.dom().insert(key));
        }
    }

    /// The chunk coordinate owning a global voxel coordinate.
    pub open spec fn spec_voxel_owner(self, vx: int, vz: int) -> Vec2 {
        Vec2(
            (vx / self.config.chunk_size as int) as i32,
            (vz / self.config.chunk_size as int) as i32,
        )
    }

    /// The stored chunk owning a global voxel coordinate, whatever its
    /// status; `None` outside the world bounds.
    pub open spec fn spec_raw_chunk_by_voxel(self, vx: int, vz: int) -> Option<Chunk> {
        if self.spec_is_within_world(self.spec_voxel_owner(vx, vz)) {
            self.spec_chunk_of(self.spec_voxel_owner(vx, vz))
        } else {
            None
        }
    }

    /// What `get_raw_voxel` returns over the whole world: the owning
    /// chunk's word, or 0 when no chunk holds the coordinate.
    pub open spec fn spec_get_raw_voxel(self, vx: int, vy: int, vz: int) -> u32 {
        match self.spec_raw_chunk_by_voxel(vx, vz) {
            Some(c) => c.spec_get_raw_voxel(vx, vy, vz),
            None => 0,
        }
    }

    /// What `get_raw_light` returns over the whole world: full sunlight at
    /// or above the world height, the owning chunk's light word otherwise,
    /// 0 when no chunk holds the coordinate.
    pub open spec fn spec_get_raw_light(self, vx: int, vy: int, vz: int) -> u32 {
        if vy >= self.config.max_height {
            LightUtils::spec_insert_sunlight(0, self.config.max_light_level)
        } else {
            match self.spec_raw_chunk_by_voxel(vx, vz) {
                Some(c) => c.spec_get_raw_light(vx, vy, vz),
                None => 0,
            }
        }
    }

    /// What `get_sunlight` returns over the whole world: the configured
    /// maximum above the world height and (by sign of y) for absent
    /// chunks, the stored nibble otherwise.
    pub open spec fn spec_get_sunlight(self, vx: int, vy: int, vz: int) -> u32 {
        if vy >= self.config.max_height {
            self.config.max_light_level
        } else {
            match self.spec_raw_chunk_by_voxel(vx, vz) {
                Some(c) => c.spec_get_sunlight(vx, vy, vz),
                None => if vy < 0 {
                    0
                } else {
                    self.config.max_light_level
                },
            }
        }
    }

    /// What `get_max_height` returns over the whole world: the owning
    /// chunk's column entry, or 0 when no chunk holds the column.
    pub open spec fn spec_get_max_height(self, vx: int, vz: int) -> u32 {
        match self.spec_raw_chunk_by_voxel(vx, vz) {
            Some(c) => c.spec_get_max_height(vx, vz),
            None => 0,
        }
    }

    /// The stored chunk at a coordinate for mutation, whatever its status;
    /// `None` outside the world bounds. Looking one up records the
    /// coordinate in the per-tick cache.
    pub fn raw_mut(&mut self, coords: &Vec2) -> (r: Option<&mut Chunk>)
        requires
            old(self).wf(),
        ensures
            r is Some <==> (old(self).spec_is_within_world(*coords) && old(self).spec_chunk_of(
                *coords,
            ) is Some),
            !old(self).spec_is_within_world(*coords) ==> *final(self) == *old(self),
            old(self).spec_is_within_world(*coords) ==> ({
                let key = spec_coord_key(*coords);
                &&& final(self).cache@ == old(self).cache@.insert(key)
                &&& final(self).updates@ == old(self).updates@
                &&& final(self).to_send@ == old(self).to_send@
                &&& final(self).to_save@ == old(self).to_save@
                &&& final(self).active_voxels@ == old(self).active_voxels@
                &&& final(self).listeners@ == old(self).listeners@
                &&& final(self).block_entities@ == old(self).block_entities@
                &&& final(self).config == old(self).config
                &&& (r is Some ==> *r.unwrap() == old(self).map@[key] && final(self).map@ == old(
                    self,
                ).map@.insert(key, *final(r.unwrap())))
                &&& (r is None ==> final(self).map@ == old(self).map@)
            }),
            r is None ==> final(self).wf(),
            r is Some ==> ((*final(r.unwrap())).wf() && (*final(r.unwrap())).coords == old(
                self,
            ).map@[spec_coord_key(*coords)].coords && (*final(r.unwrap())).options == old(
                self,
            ).spec_chunk_options() ==> final(self).wf()),
    {
        if !self.is_within_world(coords) {
            return None;
        }
        let k = coord_key(coords);
        self.cache.insert(k);
        map_get_mut(&mut self.map, k)
    }

    /// The stored chunk at a coordinate for mutation, only once it is
    /// `Ready`. Looking one up records the coordinate in the per-tick
    /// cache.
    pub fn get_mut(&mut self, coords: &Vec2) -> (r: Option<&mut Chunk>)
        requires
            old(self).wf(),
        ensures
            r is Some <==> old(self).spec_is_chunk_ready(*coords),
            !old(self).spec_is_chunk_ready(*coords) ==> *final(self) == *old(self),
            old(self).spec_is_chunk_ready(*coords) ==> ({
                let key = spec_coord_key(*coords);
                &&& final(self).cache@ == old(self).cache@.insert(key)
                &&& final(self).updates@ == old(self).updates@
                &&& final(self).to_send@ == old(self).to_send@
                &&& final(self).to_save@ == old(self).to_save@
                &&& final(self).active_voxels@ == old(self).active_voxels@
                &&& final(self).listeners@ == old(self).listeners@
                &&& final(self).block_entities@ == old(self).block_entities@
                &&& final(self).config == old(self).config
                &&& (r is Some ==> *r.unwrap() == old(self).map@[key] && final(self).map@ == old(
                    self,
                ).map@.insert(key, *final(r.unwrap())))
            }),
            r is None ==> final(self).wf(),
            r is Some ==> ((*final(r.unwrap())).wf() && (*final(r.unwrap())).coords == old(
                self,
            ).map@[spec_coord_key(*coords)].coords && (*final(r.unwrap())).options == old(
                self,
            ).spec_chunk_options() ==> final(self).wf()),
    {
        if !self.is_within_world(coords) {
            return None;
        }
        if !self.is_chunk_ready(coords) {
            return None;
        }
        let k = coord_key(coords);
        self.cache.insert(k);
        map_get_mut(&mut self.map, k)
    }

    /// The stored chunk owning a voxel coordinate, whatever its status.
    pub fn raw_chunk_by_voxel(&self, vx: i32, vy: i32, vz: i32) -> (r: Option<&Chunk>)
        requires
            self.wf(),
        ensures
            r is Some <==> self.spec_raw_chunk_by_voxel(vx as int, vz as int) is Some,
            r matches Some(c) ==> Some(*c) == self.spec_raw_chunk_by_voxel(vx as int, vz as int),
    {
        let _ = vy;
        let coords = ChunkUtils::map_voxel_to_chunk(vx, vy, vz, self.config.chunk_size);
        self.raw(&coords)
    }

    /// The stored chunk owning a voxel coordinate, for mutation. Looking
    /// one up records its coordinate in the per-tick cache.
    pub fn raw_chunk_by_voxel_mut(&mut self, vx: i32, vy: i32, vz: i32) -> (r: Option<&mut Chunk>)
        requires
            old(self).wf(),
        ensures
            ({
                let owner = old(self).spec_voxel_owner(vx as int, vz as int);
                let key = spec_coord_key(owner);
                &&& (r is Some <==> old(self).spec_raw_chunk_by_voxel(vx as int, vz as int)
                    is Some)
                &&& (!old(self).spec_is_within_world(owner) ==> *final(self) == *old(self))
                &&& (old(self).spec_is_within_world(owner) ==> {
                    &&& final(self).cache@ == old(self).cache@.insert(key)
                    &&& final(self).updates@ == old(self).updates@
                    &&& final(self).to_send@ == old(self).to_send@
                    &&& final(self).to_save@ == old(self).to_save@
                    &&& final(self).active_voxels@ == old(self).active_voxels@
                    &&& final(self).listeners@ == old(self).listeners@
                    &&& final(self).block_entities@ == old(self).block_entities@
                    &&& final(self).config == old(self).config
                    &&& (r is Some ==> *r.unwrap() == old(self).map@[key] && final(self).map@
                        == old(self).map@.insert(key, *final(r.unwrap())))
                    &&& (r is None ==> final(self).map@ == old(self).map@)
                })
                &&& (r is None ==> final(self).wf())
                &&& (r is Some ==> ((*final(r.unwrap())).wf() && (*final(r.unwrap())).coords
                    == old(self).map@[key].coords && (*final(r.unwrap())).options == old(
                    self,
                ).spec_chunk_options() ==> final(self).wf()))
            }),
    {
        let coords = ChunkUtils::map_voxel_to_chunk(vx, vy, vz, self.config.chunk_size);
        self.raw_mut(&coords)
    }

    /// The packed voxel word at a global coordinate; 0 when no chunk in
    /// the world holds it, in particular for every coordinate whose chunk
    /// lies outside the world bounds.
    pub fn get_raw_voxel(&self, vx: i32, vy: i32, vz: i32) -> (r: u32)
        requires
            self.wf(),
        ensures
            r == self.spec_get_raw_voxel(vx as int, vy as int, vz as int),
            !self.spec_is_within_world(self.spec_voxel_owner(vx as int, vz as int)) ==> r == 0,
    {
        if let Some(chunk) = self.raw_chunk_by_voxel(vx, vy, vz) {
            chunk.get_raw_voxel(vx, vy, vz)
        } else {
            0
        }
    }

    /// The packed light word at a global coordinate: full sunlight at or
    /// above the world height, 0 when no chunk holds the coordinate.
    pub fn get_raw_light(&self, vx: i32, vy: i32, vz: i32) -> (r: u32)
        requires
            self.wf(),
        ensures
            r == self.spec_get_raw_light(vx as int, vy as int, vz as int),
    {
        if vy >= 0 && vy >= self.config.max_height as i32 {
            return LightUtils::insert_sunlight(0, self.config.max_light_level);
        }
        if let Some(chunk) = self.raw_chunk_by_voxel(vx, vy, vz) {
            chunk.get_raw_light(vx, vy, vz)
        } else {
            0
        }
    }

    /// The sunlight level at a global coordinate: the configured maximum
    /// above the world height; for an absent chunk, the maximum above
    /// ground level and darkness below it.
    pub fn get_sunlight(&self, vx: i32, vy: i32, vz: i32) -> (r: u32)
        requires
            self.wf(),
        ensures
            r == self.spec_get_sunlight(vx as int, vy as int, vz as int),
    {
        if vy >= 0 && vy >= self.config.max_height as i32 {
            return self.config.max_light_level;
        }
        if let Some(chunk) = self.raw_chunk_by_voxel(vx, vy, vz) {
            chunk.get_sunlight(vx, vy, vz)
        } else {
            if vy < 0 {
                0
            } else {
                self.config.max_light_level
            }
        }
    }

    /// The height entry of a global column; 0 when no chunk holds it.
    pub fn get_max_height(&self, vx: i32, vz: i32) -> (r: u32)
        requires
            self.wf(),
        ensures
            r == self.spec_get_max_height(vx as int, vz as int),
    {
        if let Some(chunk) = self.raw_chunk_by_voxel(vx, 0, vz) {
            chunk.get_max_height(vx, vz)
        } else {
            0
        }
    }

    /// Whether some stored chunk owns this voxel coordinate.
    pub fn contains(&self, vx: i32, vy: i32, vz: i32) -> (r: bool)
        requires
            self.wf(),
        ensures
            r == (self.spec_raw_chunk_by_voxel(vx as int, vz as int) is Some),
    {
        self.raw_chunk_by_voxel(vx, vy, vz).is_some()
    }

    /// Whether a chunk must be marked for relight/remesh after an edit at
    /// a global voxel column `(vx, vz)`: the owning chunk always; an edge
    /// column also marks the touching neighbor on that side, and a corner
    /// column additionally the diagonal neighbor; always restricted to the
    /// world bounds.
    pub open spec fn spec_affects(self, vx: int, vz: int, c: Vec2) -> bool {
        let s = self.config.chunk_size as int;
        let cx = vx / s;
        let cz = vz / s;
        let lx = vx % s;
        let lz = vz % s;
        &&& self.spec_is_within_world(c)
        &&& (c.0 == cx || (lx == 0 && c.0 == cx - 1) || (lx == s - 1 && c.0 == cx + 1))
        &&& (c.1 == cz || (lz == 0 && c.1 == cz - 1) || (lz == s - 1 && c.1 == cz + 1))
    }

    /// Every chunk whose footprint borders a voxel coordinate: exactly the
    /// chunks that must be marked for relight/remesh after an edit there.
    #[verifier::rlimit(100)]
    pub fn voxel_affected_chunks(&self, vx: i32, vy: i32, vz: i32) -> (r: Vec<Vec2>)
        requires
            self.wf(),
        ensures
            coords_unique(r@),
            forall|c: Vec2| r@.contains(c) <==> self.spec_affects(vx as int, vz as int, c),
    {
        let _ = vy;
        let size = self.config.chunk_size;
        let center = ChunkUtils::map_voxel_to_chunk(vx, vy, vz, size);
        let l = ChunkUtils::map_voxel_to_chunk_local(vx, vy, vz, size);
        let cx = center.0 as i64;
        let cz = center.1 as i64;
        let a = l.0 == 0;
        let b = l.2 == 0;
        let c = l.0 == size as i32 - 1;
        let d = l.2 == size as i32 - 1;
        let mut r: Vec<Vec2> = Vec::new();
        self.push_if_within(&mut r, cx, cz);
        if a {
            self.push_if_within(&mut r, cx - 1, cz);
        }
        if b {
            self.push_if_within(&mut r, cx, cz - 1);
        }
        if c {
            self.push_if_within(&mut r, cx + 1, cz);
        }
        if d {
            self.push_if_within(&mut r, cx, cz + 1);
        }
        if a && b {
            self.push_if_within(&mut r, cx - 1, cz - 1);
        }
        if a && d {
            self.push_if_within(&mut r, cx - 1, cz + 1);
        }
        if b && c {
            self.push_if_within(&mut r, cx + 1, cz - 1);
        }
        if c && d {
            self.push_if_within(&mut r, cx + 1, cz + 1);
        }
        r
    }

    /// Whether a (possibly out-of-`i32`) chunk coordinate pair lies inside
    /// the world bounds.
    pub open spec fn spec_within_wide(self, x: int, z: int) -> bool {
        &&& self.config.min_chunk.0 <= x <= self.config.max_chunk.0
        &&& self.config.min_chunk.1 <= z <= self.config.max_chunk.1
    }

    /// Append a candidate chunk coordinate when it lies inside the world
    /// bounds.
    fn push_if_within(&self, r: &mut Vec<Vec2>, x: i64, z: i64)
        requires
            self.config.wf(),
        ensures
            self.spec_within_wide(x as int, z as int) ==> final(r)@ == old(r)@.push(
                Vec2(x as i32, z as i32),
            ),
            !self.spec_within_wide(x as int, z as int) ==> final(r)@ == old(r)@,
            forall|c: Vec2|
                final(r)@.contains(c) <==> (old(r)@.contains(c) || (self.spec_within_wide(
                    x as int,
                    z as int,
                ) && c == Vec2(x as i32, z as i32))),
            coords_unique(old(r)@) && !old(r)@.contains(Vec2(x as i32, z as i32)) ==> coords_unique(
                final(r)@,
            ),
    {
        if x >= self.config.min_chunk.0 as i64 && x <= self.config.max_chunk.0 as i64 && z
            >= self.config.min_chunk.1 as i64 && z <= self.config.max_chunk.1 as i64 {
            proof {
                lemma_push_contains(r@, Vec2(x as i32, z as i32));
            }
            r.push(Vec2(x as i32, z as i32));
        }
    }

    /// Whether light from a chunk can ever reach another chunk: within the
    /// square radius `ceil(max_light_level / chunk_size)`, inside world
    /// bounds.
    pub open spec fn spec_light_traversed(self, center: Vec2, c: Vec2) -> bool {
        let e = (self.config.max_light_level + self.config.chunk_size - 1) as int
            / self.config.chunk_size as int;
        &&& self.spec_is_within_world(c)
        &&& -e <= c.0 - center.0 <= e
        &&& -e <= c.1 - center.1 <= e
    }

    /// Every chunk a light change in the given chunk could ever propagate
    /// into: the square of chunks within the light-traversal radius,
    /// restricted to the world bounds.
    pub fn light_traversed_chunks(&self, coords: &Vec2) -> (r: Vec<Vec2>)
        requires
            self.wf(),
        ensures
            coords_unique(r@),
            forall|c: Vec2| r@.contains(c) <==> self.spec_light_traversed(*coords, c),
    {
        let e = ((self.config.max_light_level + self.config.chunk_size - 1)
            / self.config.chunk_size) as i64;
        let cx = coords.0 as i64;
        let cz = coords.1 as i64;
        proof {
            assert(0 <= (self.config.max_light_level + self.config.chunk_size - 1) as int
                / self.config.chunk_size as int
                && (self.config.max_light_level + self.config.chunk_size - 1) as int
                / self.config.chunk_size as int <= 15) by (nonlinear_arith)
                requires
                    0 <= self.config.max_light_level <= 15,
                    1 <= self.config.chunk_size <= 256,
            {
            }
        }
        let mut r: Vec<Vec2> = Vec::new();
        let mut x: i64 = -e;
        while x <= e
            invariant
                self.wf(),
                -e <= x <= e + 1,
                e == (self.config.max_light_level + self.config.chunk_size - 1) as int
                    / self.config.chunk_size as int,
                0 <= e <= 15,
                cx == coords.0,
                cz == coords.1,
                coords_unique(r@),
                forall|c: Vec2|
                    r@.contains(c) <==> (self.spec_light_traversed(*coords, c) && c.0 - cx < x),
            decreases e + 1 - x,
        {
            let mut z: i64 = -e;
            while z <= e
                invariant
                    self.wf(),
                    -e <= x <= e,
                    -e <= z <= e + 1,
                    e == (self.config.max_light_level + self.config.chunk_size - 1) as int
                        / self.config.chunk_size as int,
                    0 <= e <= 15,
                    cx == coords.0,
                    cz == coords.1,
                    coords_unique(r@),
                    forall|c: Vec2|
                        r@.contains(c) <==> (self.spec_light_traversed(*coords, c) && (c.0 - cx < x
                            || (c.0 - cx == x && c.1 - cz < z))),
                decreases e + 1 - z,
            {
                self.push_if_within(&mut r, cx + x, cz + z);
                z = z + 1;
            }
            x = x + 1;
        }
        r
    }

    /// Mark, in every chunk the boundary rule names for this voxel, the
    /// sub-chunk level of its y as needing relight/remesh, and record
    /// those chunks in the per-tick cache.
    fn add_updated_level_at(&mut self, vx: i32, vy: i32, vz: i32)
        requires
            old(self).wf(),
        ensures
            final(self).wf(),
            final(self).map@.dom() == old(self).map@.dom(),
            final(self).updates@ == old(self).updates@,
            final(self).to_send@ == old(self).to_send@,
            final(self).to_save@ == old(self).to_save@,
            final(self).active_voxels@ == old(self).active_voxels@,
            final(self).listeners@ == old(self).listeners@,
            final(self).block_entities@ == old(self).block_entities@,
            final(self).config == old(self).config,
            forall|k: u64|
                #[trigger] old(self).map@.contains_key(k) ==> ({
                    let oc = old(self).map@[k];
                    let fc = final(self).map@[k];
                    &&& oc.same_shape(fc)
                    &&& fc.voxels@ == oc.voxels@
                    &&& fc.height_map@ == oc.height_map@
                    &&& fc.updated_levels@ == (if old(self).spec_affects(
                        vx as int,
                        vz as int,
                        oc.coords,
                    ) && 0 <= vy < oc.options.max_height {
                        spec_add_level(oc.updated_levels@, oc.spec_level_of(vy as int) as u32)
                    } else {
                        oc.updated_levels@
                    })
                }),
            forall|kk: u64|
                final(self).cache@.contains(kk) <==> (old(self).cache@.contains(kk) || exists|
                    a: Vec2,
                |
                    old(self).spec_affects(vx as int, vz as int, a) && kk == spec_coord_key(a)),
    {
        let affected = self.voxel_affected_chunks(vx, vy, vz);
        let ghost aff = affected@;
        let mut i: usize = 0;
        while i < affected.len()
            invariant
                self.wf(),
                aff == affected@,
                coords_unique(aff),
                forall|c: Vec2| aff.contains(c) <==> old(self).spec_affects(vx as int, vz as int, c),
                i <= aff.len(),
                self.map@.dom() == old(self).map@.dom(),
                self.updates@ == old(self).updates@,
                self.to_send@ == old(self).to_send@,
                self.to_save@ == old(self).to_save@,
                self.active_voxels@ == old(self).active_voxels@,
                self.listeners@ == old(self).listeners@,
                self.block_entities@ == old(self).block_entities@,
                self.config == old(self).config,
                forall|k: u64|
                    #[trigger] old(self).map@.contains_key(k) ==> ({
                        let oc = old(self).map@[k];
                        let fc = self.map@[k];
                        &&& oc.same_shape(fc)
                        &&& fc.voxels@ == oc.voxels@
                        &&& fc.height_map@ == oc.height_map@
                        &&& fc.updated_levels@ == (if aff.take(i as int).contains(oc.coords) && 0
                            <= vy < oc.options.max_height {
                            spec_add_level(oc.updated_levels@, oc.spec_level_of(vy as int) as u32)
                        } else {
                            oc.updated_levels@
                        })
                    }),
                forall|kk: u64|
                    self.cache@.contains(kk) <==> (old(self).cache@.contains(kk) || exists|j: int|
                        0 <= j < i && kk == spec_coord_key(aff[j])),
            decreases aff.len() - i,
        {
            let a = affected[i];
            let k = coord_key(&a);
            self.cache.insert(k);
            proof {
                assert(!aff.take(i as int).contains(aff[i as int])) by {
                    if aff.take(i as int).contains(aff[i as int]) {
                        let j = choose|j: int|
                            0 <= j < i && aff.take(i as int)[j] == aff[i as int];
                        assert(aff[j] == aff[i as int]);
                    }
                }
            }
            let ghost prevmap = self.map@;
            match self.map.remove(&k) {
                Some(mut ch) => {
                    proof {
                        lemma_coord_key_injective(ch.coords, a);
                    }
                    ch.add_updated_level(vy);
                    self.map.insert(k, ch);
                    proof {
                        assert(self.map@ =~= prevmap.insert(k, ch));
                        assert(self.map@.dom() =~= prevmap.dom());
                    }
                },
                None => {
                    proof {
                        assert(self.map@ =~= prevmap);
                    }
                },
            }
            proof {
                assert(aff.take(i as int + 1) =~= aff.take(i as int).push(aff[i as int]));
                lemma_push_contains(aff.take(i as int), aff[i as int]);
            }
            i += 1;
        }
        proof {
            assert(aff.take(aff.len() as int) =~= aff);
            assert forall|kk: u64|
                self.cache@.contains(kk) <==> (old(self).cache@.contains(kk) || exists|a: Vec2|
                    old(self).spec_affects(vx as int, vz as int, a) && kk == spec_coord_key(
                        a,
                    )) by {
                if self.cache@.contains(kk) && !old(self).cache@.contains(kk) {
                    let j = choose|j: int| 0 <= j < aff.len() && kk == spec_coord_key(aff[j]);
                    assert(aff.contains(aff[j]));
                    assert(old(self).spec_affects(vx as int, vz as int, aff[j]) && kk
                        == spec_coord_key(aff[j]));
                }
                if exists|a: Vec2|
                    old(self).spec_affects(vx as int, vz as int, a) && kk == spec_coord_key(a) {
                    let a = choose|a: Vec2|
                        old(self).spec_affects(vx as int, vz as int, a) && kk == spec_coord_key(a);
                    assert(aff.contains(a));
                    let j = choose|j: int| 0 <= j < aff.len() && aff[j] == a;
                    assert(0 <= j < aff.len() && kk == spec_coord_key(aff[j]));
                }
            }
        }
    }

    /// Write the packed voxel word at a global coordinate through the
    /// registry, and mark the boundary rule's chunks for relight/remesh;
    /// true only when a chunk owns the coordinate and the write was
    /// applied — a vertical coordinate outside `[0, max_height)` applies
    /// nothing and answers false. As at the chunk level, this raw path
    /// leaves height maps alone; heights resync through `Chunk::set_voxel`.
    pub fn set_raw_voxel(&mut self, vx: i32, vy: i32, vz: i32, id: u32) -> (r: bool)
        requires
            old(self).wf(),
        ensures
            final(self).wf(),
            r == (match old(self).spec_raw_chunk_by_voxel(vx as int, vz as int) {
                Some(c) => c.contains_voxel(vx as int, vy as int, vz as int),
                None => false,
            }),
            ({
                let owner = old(self).spec_voxel_owner(vx as int, vz as int);
                let key = spec_coord_key(owner);
                &&& (!old(self).spec_is_within_world(owner) ==> *final(self) == *old(self))
                &&& (old(self).spec_is_within_world(owner) && !r ==> final(self).map@ == old(
                    self,
                ).map@ && final(self).cache@ == old(self).cache@.insert(key) && old(
                    self,
                ).same_aux_but_cache(*final(self)))
                &&& (r ==> {
                    &&& final(self).map@.dom() == old(self).map@.dom()
                    &&& final(self).updates@ == old(self).updates@
                    &&& final(self).to_send@ == old(self).to_send@
                    &&& final(self).to_save@ == old(self).to_save@
                    &&& final(self).active_voxels@ == old(self).active_voxels@
                    &&& final(self).listeners@ == old(self).listeners@
                    &&& final(self).block_entities@ == old(self).block_entities@
                    &&& final(self).config == old(self).config
                    &&& (forall|k: u64|
                        #[trigger] old(self).map@.contains_key(k) ==> ({
                            let oc = old(self).map@[k];
                            let fc = final(self).map@[k];
                            &&& oc.same_shape(fc)
                            &&& fc.height_map@ == oc.height_map@
                            &&& fc.voxels@ == (if k == key {
                                oc.spec_voxels_after_set(vx as int, vy as int, vz as int, id)
                            } else {
                                oc.voxels@
                            })
                            &&& fc.updated_levels@ == (if old(self).spec_affects(
                                vx as int,
                                vz as int,
                                oc.coords,
                            ) && 0 <= vy < oc.options.max_height {
                                spec_add_level(
                                    oc.updated_levels@,
                                    oc.spec_level_of(vy as int) as u32,
                                )
                            } else {
                                oc.updated_levels@
                            })
                        }))
                    &&& (forall|kk: u64|
                        final(self).cache@.contains(kk) <==> (old(self).cache@.contains(kk) || kk
                            == key || (exists|a: Vec2|
                            old(self).spec_affects(vx as int, vz as int, a) && kk
                                == spec_coord_key(a))))
                })
            }),
    {
        let coords = ChunkUtils::map_voxel_to_chunk(vx, vy, vz, self.config.chunk_size);
        if !self.is_within_world(&coords) {
            return false;
        }
        let k = coord_key(&coords);
        self.cache.insert(k);
        let ghost prevmap = self.map@;
        match self.map.remove(&k) {
            None => {
                proof {
                    assert(self.map@ =~= prevmap);
                }
                false
            },
            Some(mut ch) => {
                proof {
                    lemma_coord_key_injective(ch.coords, coords);
                }
                let applied = ch.set_raw_voxel(vx, vy, vz, id);
                self.map.insert(k, ch);
                if applied {
                    proof {
                        assert(self.map@ =~= old(self).map@.insert(k, ch));
                        assert(self.map@.dom() =~= old(self).map@.dom());
                    }
                    self.add_updated_level_at(vx, vy, vz);
                    true
                } else {
                    proof {
                        assert(self.map@ =~= old(self).map@);
                    }
                    false
                }
            },
        }
    }

    /// Write the packed light word at a global coordinate through the
    /// registry, and mark the boundary rule's chunks for relight/remesh;
    /// true only when a chunk owns the coordinate and the write was
    /// applied — a vertical coordinate outside `[0, max_height)` applies
    /// nothing and answers false.
    pub fn set_raw_light(&mut self, vx: i32, vy: i32, vz: i32, level: u32) -> (r: bool)
        requires
            old(self).wf(),
        ensures
            final(self).wf(),
            r == (match old(self).spec_raw_chunk_by_voxel(vx as int, vz as int) {
                Some(c) => c.contains_voxel(vx as int, vy as int, vz as int),
                None => false,
            }),
            ({
                let owner = old(self).spec_voxel_owner(vx as int, vz as int);
                let key = spec_coord_key(owner);
                &&& (!old(self).spec_is_within_world(owner) ==> *final(self) == *old(self))
                &&& (old(self).spec_is_within_world(owner) && !r ==> final(self).map@ == old(
                    self,
                ).map@ && final(self).cache@ == old(self).cache@.insert(key) && old(
                    self,
                ).same_aux_but_cache(*final(self)))
                &&& (r ==> {
                    &&& final(self).map@.dom() == old(self).map@.dom()
                    &&& final(self).updates@ == old(self).updates@
                    &&& final(self).to_send@ == old(self).to_send@
                    &&& final(self).to_save@ == old(self).to_save@
                    &&& final(self).active_voxels@ == old(self).active_voxels@
                    &&& final(self).listeners@ == old(self).listeners@
                    &&& final(self).block_entities@ == old(self).block_entities@
                    &&& final(self).config == old(self).config
                    &&& (forall|k: u64|
                        #[trigger] old(self).map@.contains_key(k) ==> ({
                            let oc = old(self).map@[k];
                            let fc = final(self).map@[k];
                            &&& oc.same_shape(fc)
                            &&& fc.height_map@ == oc.height_map@
                            &&& fc.voxels@ == (if k == key {
                                oc.spec_voxels_after_light(vx as int, vy as int, vz as int, level)
                            } else {
                                oc.voxels@
                            })
                            &&& fc.updated_levels@ == (if old(self).spec_affects(
                                vx as int,
                                vz as int,
                                oc.coords,
                            ) && 0 <= vy < oc.options.max_height {
                                spec_add_level(
                                    oc.updated_levels@,
                                    oc.spec_level_of(vy as int) as u32,
                                )
                            } else {
                                oc.updated_levels@
                            })
                        }))
                    &&& (forall|kk: u64|
                        final(self).cache@.contains(kk) <==> (old(self).cache@.contains(kk) || kk
                            == key || (exists|a: Vec2|
                            old(self).spec_affects(vx as int, vz as int, a) && kk
                                == spec_coord_key(a))))
                })
            }),
    {
        let coords = ChunkUtils::map_voxel_to_chunk(vx, vy, vz, self.config.chunk_size);
        if !self.is_within_world(&coords) {
            return false;
        }
        let k = coord_key(&coords);
        self.cache.insert(k);
        let ghost prevmap = self.map@;
        match self.map.remove(&k) {
            None => {
                proof {
                    assert(self.map@ =~= prevmap);
                }
                false
            },
            Some(mut ch) => {
                proof {
                    lemma_coord_key_injective(ch.coords, coords);
                }
                let applied = ch.set_raw_light(vx, vy, vz, level);
                self.map.insert(k, ch);
                if applied {
                    proof {
                        assert(self.map@ =~= old(self).map@.insert(k, ch));
                        assert(self.map@.dom() =~= old(self).map@.dom());
                    }
                    self.add_updated_level_at(vx, vy, vz);
                    true
                } else {
                    proof {
                        assert(self.map@ =~= old(self).map@);
                    }
                    false
                }
            },
        }
    }

    /// Write the height entry of a global column through the registry;
    /// false when no chunk in the world owns the column.
    pub fn set_max_height(&mut self, vx: i32, vz: i32, height: u32) -> (r: bool)
        requires
            old(self).wf(),
        ensures
            final(self).wf(),
            r == (old(self).spec_raw_chunk_by_voxel(vx as int, vz as int) is Some),
            ({
                let owner = old(self).spec_voxel_owner(vx as int, vz as int);
                let key = spec_coord_key(owner);
                &&& (!old(self).spec_is_within_world(owner) ==> *final(self) == *old(self))
                &&& (old(self).spec_is_within_world(owner) && !old(self).map@.contains_key(key)
                    ==> final(self).map@ == old(self).map@ && final(self).cache@ == old(
                    self,
                ).cache@.insert(key) && old(self).same_aux_but_cache(*final(self)))
                &&& (old(self).spec_is_within_world(owner) && old(self).map@.contains_key(key)
                    ==> {
                    &&& final(self).cache@ == old(self).cache@.insert(key)
                    &&& old(self).same_aux_but_cache(*final(self))
                    &&& final(self).map@.dom() == old(self).map@.dom()
                    &&& (forall|k: u64|
                        #[trigger] old(self).map@.contains_key(k) ==> ({
                            let oc = old(self).map@[k];
                            let fc = final(self).map@[k];
                            &&& oc.same_shape(fc)
                            &&& fc.voxels@ == oc.voxels@
                            &&& fc.updated_levels@ == oc.updated_levels@
                            &&& fc.height_map@ == (if k == key {
                                oc.spec_heights_after_set(vx as int, vz as int, height)
                            } else {
                                oc.height_map@
                            })
                        }))
                })
            }),
    {
        let coords = ChunkUtils::map_voxel_to_chunk(vx, 0, vz, self.config.chunk_size);
        if !self.is_within_world(&coords) {
            return false;
        }
        let k = coord_key(&coords);
        self.cache.insert(k);
        let ghost prevmap = self.map@;
        match self.map.remove(&k) {
            None => {
                proof {
                    assert(self.map@ =~= prevmap);
                }
                false
            },
            Some(mut ch) => {
                proof {
                    lemma_coord_key_injective(ch.coords, coords);
                }
                ch.set_max_height(vx, vz, height);
                self.map.insert(k, ch);
                proof {
                    assert(self.map@ =~= old(self).map@.insert(k, ch));
                    assert(self.map@.dom() =~= old(self).map@.dom());
                }
                true
            },
        }
    }

    /// What `try_load` owes: any file whose payloads are the encodings of
    /// arrays of the configured sizes is decoded back to exactly those
    /// arrays, in a chunk at the requested coordinate with status
    /// `Meshing`.
    pub open spec fn load_recovers(
        self,
        coords: Vec2,
        d: ChunkFileData,
        r: Result<Option<Chunk>, LoadError>,
    ) -> bool {
        forall|vs: Seq<u32>, hs: Seq<u32>|
            #![trigger encoded_words(vs), encoded_words(hs)]
            (d.voxels@ == encoded_words(vs) && d.height_map@ == encoded_words(hs) && vs.len()
                == self.config.chunk_size * self.config.chunk_size * self.config.max_height
                && hs.len() == self.config.chunk_size * self.config.chunk_size) ==> (r matches Ok(
                oc,
            ) && oc is Some && ({
                let c = oc.unwrap();
                &&& c.wf()
                &&& c.coords == coords
                &&& c.status == ChunkStatus::Meshing
                &&& c.options == self.spec_chunk_options()
                &&& c.voxels@ == vs
                &&& c.height_map@ == hs
                &&& c.id@ == d.id@
            }))
    }

    /// Whether a file's payloads decode — through base64 and then ZLIB —
    /// to arrays of exactly the configured sizes.
    pub open spec fn spec_payloads_fit(self, d: ChunkFileData) -> bool {
        &&& (match spec_decoded_bytes(d.voxels@) {
            Some(b) => b.len() == 4 * (self.config.chunk_size * self.config.chunk_size
                * self.config.max_height),
            None => false,
        })
        &&& (match spec_decoded_bytes(d.height_map@) {
            Some(b) => b.len() == 4 * (self.config.chunk_size * self.config.chunk_size),
            None => false,
        })
    }

    /// Decode a persisted chunk file into a chunk ready for meshing.
    /// Nothing to load — persistence off, no file found, or a coordinate
    /// outside the world — is `Ok(None)`, so the caller falls back to
    /// fresh generation; exactly the payloads that decode to no arrays of
    /// the configured sizes are reported as corrupt rather than aborting,
    /// and a returned chunk holds exactly the decoded arrays.
    pub fn try_load(&self, coords: &Vec2, file: Option<&ChunkFileData>) -> (r: Result<
        Option<Chunk>,
        LoadError,
    >)
        requires
            self.wf(),
        ensures
            !self.config.saving ==> r == Result::<Option<Chunk>, LoadError>::Ok(None),
            self.config.saving && file is None ==> r == Result::<Option<Chunk>, LoadError>::Ok(
                None,
            ),
            !self.spec_is_within_world(*coords) ==> r == Result::<Option<Chunk>, LoadError>::Ok(
                None,
            ),
            self.config.saving && self.spec_is_within_world(*coords) ==> (file matches Some(d)
                ==> self.load_recovers(*coords, *d, r)),
            self.config.saving && self.spec_is_within_world(*coords) ==> (file matches Some(d)
                ==> {
                &&& (r is Err <==> !self.spec_payloads_fit(*d))
                &&& (r is Err ==> r == Result::<Option<Chunk>, LoadError>::Err(LoadError::Corrupt))
                &&& (self.spec_payloads_fit(*d) ==> (r matches Ok(oc) && oc is Some && ({
                    let c = oc.unwrap();
                    &&& Some(le_bytes_of(c.voxels@)) == spec_decoded_bytes(d.voxels@)
                    &&& Some(le_bytes_of(c.height_map@)) == spec_decoded_bytes(d.height_map@)
                })))
            }),
            r is Ok && r->Ok_0 is Some ==> ({
                let c = r->Ok_0.unwrap();
                &&& c.wf()
                &&& c.coords == *coords
                &&& c.status == ChunkStatus::Meshing
                &&& c.options == self.spec_chunk_options()
            }),
    {
        if !self.config.saving {
            return Ok(None);
        }
        if !self.is_within_world(coords) {
            return Ok(None);
        }
        let d = match file {
            Some(d) => d,
            None => {
                return Ok(None);
            },
        };
        proof {
            lemma_four_multiples(self.config.chunk_size as int, self.config.max_height as int);
        }
        let vs = match decode_words(d.voxels.as_str()) {
            Some(v) => v,
            None => {
                return Err(LoadError::Corrupt);
            },
        };
        let hs = match decode_words(d.height_map.as_str()) {
            Some(v) => v,
            None => {
                return Err(LoadError::Corrupt);
            },
        };
        proof {
            vstd::arithmetic::div_mod::lemma_mod_multiples_basic(vs@.len() as int, 4);
            crate::codec::lemma_le_bytes_len(vs@);
            crate::codec::lemma_le_bytes_len(hs@);
        }
        let opts = ChunkOptions {
            size: self.config.chunk_size,
            max_height: self.config.max_height,
            sub_chunks: self.config.sub_chunks,
        };
        let mut chunk = Chunk::new(d.id.as_str(), coords.0, coords.1, &opts);
        if vs.len() != chunk.voxels.len() || hs.len() != chunk.height_map.len() {
            return Err(LoadError::Corrupt);
        }
        chunk.voxels = vs;
        chunk.height_map = hs;
        chunk.status = ChunkStatus::Meshing;
        Ok(Some(chunk))
    }

    /// Encode a ready chunk's two payloads for its persisted file. With
    /// persistence disabled the call is a configuration misuse and is
    /// rejected before any work — as a returned error, never an abort —
    /// and without a ready chunk at the coordinate there is nothing to
    /// save.
    pub fn save(&self, coords: &Vec2) -> (r: Result<ChunkFileData, SaveError>)
        requires
            self.wf(),
        ensures
            !self.config.saving ==> r == Result::<ChunkFileData, SaveError>::Err(
                SaveError::SavingDisabled,
            ),
            self.config.saving && !self.spec_is_chunk_ready(*coords) ==> r == Result::<
                ChunkFileData,
                SaveError,
            >::Err(SaveError::ChunkMissing),
            self.config.saving && self.spec_is_chunk_ready(*coords) ==> (r matches Ok(d) && ({
                let c = self.spec_chunk_of(*coords).unwrap();
                &&& d.id@ == c.id@
                &&& d.voxels@ == encoded_words(c.voxels@)
                &&& d.height_map@ == encoded_words(c.height_map@)
            })),
    {
        if !self.config.saving {
            return Err(SaveError::SavingDisabled);
        }
        let chunk = match self.get(coords) {
            Some(c) => c,
            None => {
                return Err(SaveError::ChunkMissing);
            },
        };
        Ok(
            ChunkFileData {
                id: chunk.id.clone(),
                voxels: encode_words(&chunk.voxels),
                height_map: encode_words(&chunk.height_map),
            },
        )
    }
}

/// The configured array byte sizes are whole multiples of four, so a
/// payload of a fitting size always parses into whole words.
proof fn lemma_four_multiples(sz: int, mh: int)
    ensures
        (4 * (sz * sz * mh)) % 4 == 0,
        (4 * (sz * sz)) % 4 == 0,
{
    vstd::arithmetic::div_mod::lemma_mod_multiples_basic(sz * sz * mh, 4);
    vstd::arithmetic::div_mod::lemma_mod_multiples_basic(sz * sz, 4);
}

/// Why a chunk could not be saved: persistence is switched off, or no
/// ready chunk stands at the coordinate.
#[derive(Clone, Copy, PartialEq, Eq, Structural, Debug)]
pub enum SaveError {
    SavingDisabled,
    ChunkMissing,
}

/// Why a persisted chunk file could not be loaded: its payloads decode to
/// no arrays of the configured sizes.
#[derive(Clone, Copy, PartialEq, Eq, Structural, Debug)]
pub enum LoadError {
    Corrupt,
}

/// Round trip: loading a file that holds exactly what `save` encodes from
/// a chunk yields that chunk's arrays back, bit for bit.
pub proof fn lemma_save_load_roundtrip(
    cs: Chunks,
    coords: Vec2,
    c: Chunk,
    d: ChunkFileData,
    r: Result<Option<Chunk>, LoadError>,
)
    requires
        cs.wf(),
        c.wf(),
        c.options == cs.spec_chunk_options(),
        d.voxels@ == encoded_words(c.voxels@),
        d.height_map@ == encoded_words(c.height_map@),
        cs.load_recovers(coords, d, r),
    ensures
        r is Ok && r->Ok_0 is Some,
        r->Ok_0.unwrap().voxels@ == c.voxels@,
        r->Ok_0.unwrap().height_map@ == c.height_map@,
{
    assert(c.voxels@.len() == cs.config.chunk_size * cs.config.chunk_size * cs.config.max_height);
    assert(c.height_map@.len() == cs.config.chunk_size * cs.config.chunk_size);
    assert(encoded_words(c.voxels@) == d.voxels@ && encoded_words(c.height_map@)
        == d.height_map@);
}

/// Update coalescing: queuing a second update at a coordinate replaces the
/// first, so the queue holds exactly one entry for it — the later value,
/// at the back.
pub proof fn lemma_update_coalescing(q: Seq<(Vec3, u32)>, v: Vec3, a: u32, b: u32)
    ensures
        spec_after_update(spec_after_update(q, v, a), v, b) == spec_after_update(q, v, b),
        spec_after_update(q, v, b).last() == (v, b),
        forall|i: int|
            0 <= i < spec_after_update(q, v, b).len() - 1 ==> (#[trigger] spec_after_update(
                q,
                v,
                b,
            )[i]).0 != v,
{
    let dropit = upd_drop(v);
    let f = drop_matching(q, dropit);
    lemma_drop_matching_props(q, dropit);
    assert((f.push((v, a))).drop_last() =~= f);
    assert(dropit((v, a)));
    assert(drop_matching(f.push((v, a)), dropit) == drop_matching(f, dropit));
    assert(forall|i: int|
        0 <= i < spec_after_update(q, v, b).len() - 1 ==> spec_after_update(q, v, b)[i] == f[i]);
}

/// A sequence with one coordinate appended holds exactly the old ones and
/// the new one, and stays duplicate-free when the new one is fresh.
proof fn lemma_push_contains(s: Seq<Vec2>, v: Vec2)
    ensures
        forall|c: Vec2| s.push(v).contains(c) <==> (s.contains(c) || c == v),
        coords_unique(s) && !s.contains(v) ==> coords_unique(s.push(v)),
{
    assert forall|c: Vec2| #[trigger] s.push(v).contains(c) implies (s.contains(c) || c == v) by {
        let i = choose|i: int| 0 <= i < s.push(v).len() && s.push(v)[i] == c;
        if i < s.len() {
            assert(s[i] == c);
        }
    }
    assert forall|c: Vec2| s.contains(c) || c == v implies #[trigger] s.push(v).contains(c) by {
        if s.contains(c) {
            let i = choose|i: int| 0 <= i < s.len() && s[i] == c;
            assert(s.push(v)[i] == c);
        } else {
            assert(s.push(v)[s.len() as int] == c);
        }
    }
    if coords_unique(s) && !s.contains(v) {
        assert forall|i: int, j: int| 0 <= i < j < s.push(v).len() implies s.push(v)[i] != s.push(
            v,
        )[j] by {
            if j == s.len() {
                if s.push(v)[i] == v {
                    assert(s[i] == v);
                    assert(s.contains(v));
                }
            }
        }
    }
}

/// The boundary neighbor rule, at its extremes: an edit in a corner
/// column marks the owner and the three chunks meeting at that corner,
/// and an edit in an interior column marks the owner alone — always
/// restricted to the world bounds.
pub proof fn lemma_neighbor_rule(cs: Chunks, vx: int, vz: int, c: Vec2)
    requires
        cs.wf(),
    ensures
        ({
            let s = cs.config.chunk_size as int;
            let cx = vx / s;
            let cz = vz / s;
            &&& ((s > 1 && vx % s == 0 && vz % s == 0) ==> (cs.spec_affects(vx, vz, c)
                <==> (cs.spec_is_within_world(c) && ((c.0 == cx || c.0 == cx - 1) && (c.1 == cz
                || c.1 == cz - 1)))))
            &&& ((0 < vx % s && vx % s < s - 1 && 0 < vz % s && vz % s < s - 1) ==> (
            cs.spec_affects(vx, vz, c) <==> (cs.spec_is_within_world(c) && c.0 == cx && c.1
                == cz)))
        }),
{
}

/// Relies on std's `HashMap::get_mut`: a mutable borrow of the entry for a
/// key, present exactly when the key is filed; the map afterwards holds
/// whatever the borrow was left as.
#[verifier::external_body]
fn map_get_mut(m: &mut HashMap<u64, Chunk>, k: u64) -> (r: Option<&mut Chunk>)
    ensures
        r.is_some() <==> old(m)@.contains_key(k),
        r.is_some() ==> *r.unwrap() == old(m)@[k] && final(m)@ == old(m)@.insert(
            k,
            *final(r.unwrap()),
        ),
        r.is_none() ==> final(m)@ == old(m)@,
{
    m.get_mut(&k)
}

/// Whether a coordinate list holds a coordinate.
pub fn vec_contains_vec2(v: &Vec<Vec2>, c: &Vec2) -> (b: bool)
    ensures
        b == v@.contains(*c),
{
    let mut i: usize = 0;
    while i < v.len()
        invariant
            i <= v@.len(),
            forall|j: int| 0 <= j < i ==> v@[j] != *c,
        decreases v@.len() - i,
    {
        if v[i] == *c {
            assert(v@[i as int] == *c);
            return true;
        }
        i += 1;
    }
    false
}

/// A queue of updates after a whole batch is queued in order.
pub open spec fn spec_after_updates(q: Seq<(Vec3, u32)>, batch: Seq<(Vec3, u32)>) -> Seq<
    (Vec3, u32),
>
    decreases batch.len(),
{
    if batch.len() == 0 {
        q
    } else {
        spec_after_update(
            spec_after_updates(q, batch.drop_last()),
            batch.last().0,
            batch.last().1,
        )
    }
}

/// What `drop_matching` keeps: nothing that matches, each entry one of
/// the original's, never more entries than the original, and dropping
/// again changes nothing.
pub proof fn lemma_drop_matching_props<T>(q: Seq<T>, dropit: spec_fn(T) -> bool)
    ensures
        forall|i: int|
            0 <= i < drop_matching(q, dropit).len() ==> !dropit(
                #[trigger] drop_matching(q, dropit)[i],
            ),
        drop_matching(drop_matching(q, dropit), dropit) == drop_matching(q, dropit),
        forall|i: int|
            0 <= i < drop_matching(q, dropit).len() ==> exists|k: int|
                0 <= k < q.len() && q[k] == #[trigger] drop_matching(q, dropit)[i],
        drop_matching(q, dropit).len() <= q.len(),
    decreases q.len(),
{
    if q.len() == 0 {
    } else {
        let q0 = q.drop_last();
        lemma_drop_matching_props(q0, dropit);
        if !dropit(q.last()) {
            let f = drop_matching(q0, dropit).push(q.last());
            assert(drop_matching(q, dropit) == f);
            assert(f.drop_last() =~= drop_matching(q0, dropit));
            assert(drop_matching(f, dropit) == drop_matching(q0, dropit).push(q.last()));
            assert forall|i: int| 0 <= i < f.len() implies exists|k: int|
                0 <= k < q.len() && q[k] == #[trigger] f[i] by {
                if i == f.len() - 1 {
                    assert(q[q.len() - 1] == f[i]);
                } else {
                    let k = choose|k: int|
                        0 <= k < q0.len() && q0[k] == drop_matching(q0, dropit)[i];
                    assert(q[k] == f[i]);
                }
            }
        } else {
            assert forall|i: int| 0 <= i < drop_matching(q, dropit).len() implies exists|k: int|
                0 <= k < q.len() && q[k] == #[trigger] drop_matching(q, dropit)[i] by {
                let k = choose|k: int|
                    0 <= k < q0.len() && q0[k] == drop_matching(q0, dropit)[i];
                assert(q[k] == drop_matching(q, dropit)[i]);
            }
        }
    }
}

/// Dropping a coordinate's entries keeps the update queue's coordinates
/// unique and rids the queue of that coordinate.
proof fn lemma_remove_update_unique(q: Seq<(Vec3, u32)>, v: Vec3)
    requires
        update_coords_unique(q),
    ensures
        update_coords_unique(spec_remove_update(q, v)),
        forall|i: int|
            0 <= i < spec_remove_update(q, v).len() ==> (#[trigger] spec_remove_update(q, v)[i]).0
                != v,
    decreases q.len(),
{
    let dropit = upd_drop(v);
    lemma_drop_matching_props(q, dropit);
    if q.len() == 0 {
    } else {
        let q0 = q.drop_last();
        assert(update_coords_unique(q0)) by {
            assert(forall|i: int| 0 <= i < q0.len() ==> q0[i] == q[i]);
        }
        lemma_remove_update_unique(q0, v);
        lemma_drop_matching_props(q0, dropit);
        if !dropit(q.last()) {
            let f = drop_matching(q0, dropit).push(q.last());
            assert(spec_remove_update(q, v) == f);
            assert forall|i: int, j: int| 0 <= i < j < f.len() implies (#[trigger] f[i]).0
                != (#[trigger] f[j]).0 by {
                if j == f.len() - 1 {
                    let e = drop_matching(q0, dropit)[i];
                    let k = choose|k: int| 0 <= k < q0.len() && q0[k] == e;
                    assert(q[k] == e);
                    assert(q[q.len() - 1] == q.last());
                }
            }
        }
    }
}

/// As `lemma_remove_update_unique`, for the active-voxel list.
proof fn lemma_remove_active_unique(q: Seq<(u64, Vec3)>, v: Vec3)
    requires
        active_coords_unique(q),
    ensures
        active_coords_unique(spec_remove_active(q, v)),
        forall|i: int|
            0 <= i < spec_remove_active(q, v).len() ==> (#[trigger] spec_remove_active(q, v)[i]).1
                != v,
    decreases q.len(),
{
    let dropit = act_drop(v);
    lemma_drop_matching_props(q, dropit);
    if q.len() == 0 {
    } else {
        let q0 = q.drop_last();
        assert(active_coords_unique(q0)) by {
            assert(forall|i: int| 0 <= i < q0.len() ==> q0[i] == q[i]);
        }
        lemma_remove_active_unique(q0, v);
        lemma_drop_matching_props(q0, dropit);
        if !dropit(q.last()) {
            let f = drop_matching(q0, dropit).push(q.last());
            assert(spec_remove_active(q, v) == f);
            assert forall|i: int, j: int| 0 <= i < j < f.len() implies (#[trigger] f[i]).1
                != (#[trigger] f[j]).1 by {
                if j == f.len() - 1 {
                    let e = drop_matching(q0, dropit)[i];
                    let k = choose|k: int| 0 <= k < q0.len() && q0[k] == e;
                    assert(q[k] == e);
                    assert(q[q.len() - 1] == q.last());
                }
            }
        }
    }
}

} // verus!
