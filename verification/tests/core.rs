use voxelize::chunk::{Chunk, ChunkOptions, ChunkStatus};
use voxelize::chunks::{Chunks, SaveError};
use voxelize::config::WorldConfig;
use voxelize::coords::{ChunkUtils, Vec2, Vec3};
use voxelize::lights::{LightUtils, VoxelPacker};
use voxelize::messages::MessageType;

fn test_config() -> WorldConfig {
    WorldConfig {
        min_chunk: Vec2(-8, -8),
        max_chunk: Vec2(8, 8),
        chunk_size: 16,
        sub_chunks: 4,
        max_height: 128,
        max_light_level: 15,
        saving: true,
    }
}

fn test_options() -> ChunkOptions {
    ChunkOptions {
        size: 16,
        max_height: 128,
        sub_chunks: 4,
    }
}

#[test]
fn map_voxel_to_chunk_negative_coords() {
    let c = ChunkUtils::map_voxel_to_chunk(-1, 5, -17, 16);
    assert_eq!(c, Vec2(-1, -2));
    let c2 = ChunkUtils::map_voxel_to_chunk(16, 0, 15, 16);
    assert_eq!(c2, Vec2(1, 0));
}

#[test]
fn map_voxel_to_chunk_local_wraps() {
    let l = ChunkUtils::map_voxel_to_chunk_local(-1, 7, -16, 16);
    assert_eq!(l, Vec3(15, 7, 0));
    let l2 = ChunkUtils::map_voxel_to_chunk_local(33, 0, 2, 16);
    assert_eq!(l2, Vec3(1, 0, 2));
}

#[test]
fn light_nibbles_round_trip() {
    let w = LightUtils::insert_sunlight(0, 15);
    assert_eq!(LightUtils::extract_sunlight(w), 15);
    let w = LightUtils::insert_red(w, 7);
    let w = LightUtils::insert_green(w, 3);
    let w = LightUtils::insert_blue(w, 9);
    assert_eq!(LightUtils::extract_sunlight(w), 15);
    assert_eq!(LightUtils::extract_red(w), 7);
    assert_eq!(LightUtils::extract_green(w), 3);
    assert_eq!(LightUtils::extract_blue(w), 9);
    assert_eq!(w, 0xF739);
}

#[test]
fn voxel_word_packs_id_and_light() {
    let w = VoxelPacker::insert_id(0, 42);
    let w = VoxelPacker::insert_light(w, 0xF000);
    assert_eq!(VoxelPacker::extract_id(w), 42);
    assert_eq!(VoxelPacker::extract_light(w), 0xF000);
    assert_eq!(w, 0xF000_002A);
}

#[test]
fn chunk_set_and_get_raw_voxel() {
    let mut c = Chunk::new("c00", 0, 0, &test_options());
    assert_eq!(c.status, ChunkStatus::Generating);
    assert!(c.set_raw_voxel(3, 20, 5, 77));
    assert_eq!(c.get_raw_voxel(3, 20, 5), 77);
    assert_eq!(c.get_raw_voxel(3, 21, 5), 0);
    // outside the chunk's box: rejected, read as air
    assert!(!c.set_raw_voxel(16, 0, 0, 1));
    assert_eq!(c.get_raw_voxel(-1, 0, 0), 0);
    assert_eq!(c.get_raw_voxel(0, 128, 0), 0);
}

#[test]
fn chunk_set_voxel_tracks_height() {
    let mut c = Chunk::new("c00", 0, 0, &test_options());
    assert_eq!(c.get_max_height(4, 4), 0);
    assert!(c.set_voxel(4, 9, 4, 2));
    assert_eq!(c.get_max_height(4, 4), 10);
    assert!(c.set_voxel(4, 3, 4, 2));
    assert_eq!(c.get_max_height(4, 4), 10);
    // clearing the top voxel drops the column back to the next block
    assert!(c.set_voxel(4, 9, 4, 0));
    assert_eq!(c.get_max_height(4, 4), 4);
    assert!(c.set_voxel(4, 3, 4, 0));
    assert_eq!(c.get_max_height(4, 4), 0);
}

#[test]
fn chunk_light_preserves_id() {
    let mut c = Chunk::new("c11", 1, 1, &test_options());
    assert!(c.set_voxel(20, 50, 17, 9));
    assert!(c.set_raw_light(20, 50, 17, 0xABCD));
    assert_eq!(c.get_raw_light(20, 50, 17), 0xABCD);
    assert_eq!(VoxelPacker::extract_id(c.get_raw_voxel(20, 50, 17)), 9);
    assert_eq!(c.get_sunlight(20, 50, 17), 0xA);
}

#[test]
fn chunk_negative_chunk_coordinates() {
    let mut c = Chunk::new("cm1", -1, -1, &test_options());
    assert!(c.set_raw_voxel(-1, 0, -16, 5));
    assert_eq!(c.get_raw_voxel(-1, 0, -16), 5);
    assert!(!c.set_raw_voxel(0, 0, 0, 5));
}

#[test]
fn registry_gates_on_status_and_bounds() {
    let cfg = test_config();
    let mut cs = Chunks::new(&cfg);
    let mut c = Chunk::new("c00", 0, 0, &test_options());
    c.status = ChunkStatus::Meshing;
    cs.add(c);
    let at = Vec2(0, 0);
    assert!(cs.raw(&at).is_some());
    assert!(cs.get(&at).is_none());
    assert!(!cs.is_chunk_ready(&at));
    let mut done = Chunk::new("c00", 0, 0, &test_options());
    done.status = ChunkStatus::Ready;
    cs.renew(done, true);
    assert!(cs.is_chunk_ready(&at));
    assert!(cs.get(&at).is_some());
    // a coordinate outside the world bounds is never served
    assert!(cs.raw(&Vec2(9, 0)).is_none());
    assert!(!cs.is_within_world(&Vec2(0, -9)));
    assert!(cs.is_within_world(&Vec2(8, -8)));
}

#[test]
fn registry_mesh_only_renew_keeps_data() {
    let cfg = test_config();
    let mut cs = Chunks::new(&cfg);
    let mut c = Chunk::new("c00", 0, 0, &test_options());
    c.set_raw_voxel(1, 1, 1, 123);
    cs.add(c);
    let mut fresh = Chunk::new("other", 0, 0, &test_options());
    fresh.status = ChunkStatus::Ready;
    cs.renew(fresh, true);
    let kept = cs.raw(&Vec2(0, 0)).unwrap();
    assert_eq!(kept.status, ChunkStatus::Ready);
    assert_eq!(kept.get_raw_voxel(1, 1, 1), 123);
    assert_eq!(kept.id, "c00");
}

#[test]
fn raw_voxel_outside_world_is_zero() {
    let cfg = test_config();
    let cs = Chunks::new(&cfg);
    // the owning chunk of this coordinate lies outside [min_chunk, max_chunk]
    assert_eq!(cs.get_raw_voxel(16 * 9, 0, 0), 0);
    assert_eq!(cs.get_raw_voxel(-10_000, 5, 40_000), 0);
    assert_eq!(cs.get_raw_voxel(i32::MAX, i32::MAX, i32::MIN), 0);
}

#[test]
fn registry_set_raw_voxel_reaches_chunk() {
    let cfg = test_config();
    let mut cs = Chunks::new(&cfg);
    cs.add(Chunk::new("c00", 0, 0, &test_options()));
    assert!(cs.set_raw_voxel(3, 4, 5, 11));
    assert_eq!(cs.get_raw_voxel(3, 4, 5), 11);
    // no chunk loaded there: rejected
    assert!(!cs.set_raw_voxel(30, 4, 5, 11));
}

#[test]
fn setters_answer_false_when_nothing_applies() {
    let cfg = test_config();
    let mut cs = Chunks::new(&cfg);
    cs.add(Chunk::new("c00", 0, 0, &test_options()));
    // the chunk is present, but these vertical coordinates lie outside
    // its storage: nothing is applied, so the write reports false
    assert!(!cs.set_raw_voxel(3, 128, 5, 11));
    assert!(!cs.set_raw_voxel(3, -1, 5, 11));
    assert_eq!(cs.get_raw_voxel(3, 127, 5), 0);
    assert!(!cs.set_raw_light(3, 128, 5, 0xF000));
    assert!(cs.set_raw_light(3, 127, 5, 0xF000));
}

#[test]
fn registry_sunlight_defaults() {
    let cfg = test_config();
    let cs = Chunks::new(&cfg);
    assert_eq!(cs.get_sunlight(0, 128, 0), 15);
    assert_eq!(cs.get_sunlight(0, 50, 0), 15);
    assert_eq!(cs.get_sunlight(0, -1, 0), 0);
    assert_eq!(
        cs.get_raw_light(0, 130, 0),
        LightUtils::insert_sunlight(0, 15)
    );
}

#[test]
fn update_voxel_coalesces_last_write() {
    let cfg = test_config();
    let mut cs = Chunks::new(&cfg);
    let at = Vec3(1, 2, 3);
    cs.update_voxel(&at, 7);
    cs.update_voxel(&Vec3(9, 9, 9), 1);
    cs.update_voxel(&at, 8);
    assert_eq!(cs.updates.len(), 2);
    let mine: Vec<&(Vec3, u32)> = cs.updates.iter().filter(|e| e.0 == at).collect();
    assert_eq!(mine.len(), 1);
    assert_eq!(mine[0].1, 8);
    // the coalesced entry moves to the back of the queue
    assert_eq!(cs.updates[1], (at, 8));
}

#[test]
fn update_voxels_batch() {
    let cfg = test_config();
    let mut cs = Chunks::new(&cfg);
    cs.update_voxels(&vec![(Vec3(0, 0, 0), 1), (Vec3(1, 0, 0), 2), (Vec3(0, 0, 0), 3)]);
    assert_eq!(cs.updates.len(), 2);
    assert_eq!(cs.updates[1], (Vec3(0, 0, 0), 3));
}

#[test]
fn mark_voxel_active_supersedes() {
    let cfg = test_config();
    let mut cs = Chunks::new(&cfg);
    let at = Vec3(5, 5, 5);
    cs.mark_voxel_active(&at, 100);
    cs.mark_voxel_active(&at, 250);
    assert_eq!(cs.active_voxels.len(), 1);
    assert_eq!(cs.active_voxels[0], (250, at));
}

#[test]
fn save_queue_is_idempotent_with_priority() {
    let cfg = test_config();
    let mut cs = Chunks::new(&cfg);
    cs.add_chunk_to_save(&Vec2(0, 0), false);
    cs.add_chunk_to_save(&Vec2(1, 0), false);
    cs.add_chunk_to_save(&Vec2(0, 0), true);
    assert_eq!(cs.to_save, vec![Vec2(0, 0), Vec2(1, 0)]);
    cs.add_chunk_to_save(&Vec2(2, 0), true);
    assert_eq!(cs.to_save, vec![Vec2(2, 0), Vec2(0, 0), Vec2(1, 0)]);
}

#[test]
fn send_queue_is_idempotent_with_priority() {
    let cfg = test_config();
    let mut cs = Chunks::new(&cfg);
    cs.add_chunk_to_send(&Vec2(0, 0), &MessageType::Load, false);
    cs.add_chunk_to_send(&Vec2(0, 0), &MessageType::Update, true);
    assert_eq!(cs.to_send.len(), 1);
    assert_eq!(cs.to_send[0], (Vec2(0, 0), MessageType::Load));
    cs.add_chunk_to_send(&Vec2(1, 1), &MessageType::Load, true);
    assert_eq!(cs.to_send[0], (Vec2(1, 1), MessageType::Load));
}

#[test]
fn listeners_accumulate() {
    let cfg = test_config();
    let mut cs = Chunks::new(&cfg);
    cs.add_listener(&Vec2(0, 0), &Vec2(1, 0));
    cs.add_listener(&Vec2(0, 0), &Vec2(0, 1));
    let key = voxelize::chunks::coord_key(&Vec2(0, 0));
    assert_eq!(cs.listeners.get(&key).unwrap(), &vec![Vec2(1, 0), Vec2(0, 1)]);
}

#[test]
fn neighbor_rule_corner_and_interior() {
    let cfg = test_config();
    let mut cs = Chunks::new(&cfg);
    cs.add(Chunk::new("c00", 0, 0, &test_options()));
    // local (0, 0) of chunk (0, 0): owner plus west, south and the corner
    let corner = cs.voxel_affected_chunks(0, 5, 0);
    assert_eq!(corner.len(), 4);
    for c in [Vec2(0, 0), Vec2(-1, 0), Vec2(0, -1), Vec2(-1, -1)] {
        assert!(corner.contains(&c));
    }
    // an interior coordinate touches only the owner
    let interior = cs.voxel_affected_chunks(5, 5, 5);
    assert_eq!(interior, vec![Vec2(0, 0)]);
    // an edge (not corner) coordinate touches two chunks
    let edge = cs.voxel_affected_chunks(15, 5, 5);
    assert_eq!(edge.len(), 2);
    assert!(edge.contains(&Vec2(0, 0)) && edge.contains(&Vec2(1, 0)));
}

#[test]
fn neighbor_rule_clipped_by_world_bounds() {
    let cfg = test_config();
    let cs = Chunks::new(&cfg);
    // the corner of the world's minimum chunk: out-of-world neighbors drop out
    let at_min = cs.voxel_affected_chunks(-8 * 16, 0, -8 * 16);
    assert_eq!(at_min, vec![Vec2(-8, -8)]);
}

#[test]
fn edits_mark_affected_chunks_dirty() {
    let cfg = test_config();
    let mut cs = Chunks::new(&cfg);
    cs.add(Chunk::new("c00", 0, 0, &test_options()));
    cs.add(Chunk::new("cm10", -1, 0, &test_options()));
    assert!(cs.set_raw_voxel(0, 40, 5, 7));
    let west = cs.raw(&Vec2(-1, 0)).unwrap();
    // vy = 40 falls in sub-chunk level 1 of 4 (128 / 4 = 32 per level)
    assert_eq!(west.updated_levels, vec![1]);
    let owner = cs.raw(&Vec2(0, 0)).unwrap();
    assert_eq!(owner.updated_levels, vec![1]);
    let key = voxelize::chunks::coord_key(&Vec2(-1, 0));
    assert!(cs.cache.contains(&key));
}

#[test]
fn light_traversed_chunks_radius() {
    let cfg = test_config();
    let cs = Chunks::new(&cfg);
    // ceil(15 / 16) = 1: a 3 x 3 square
    let list = cs.light_traversed_chunks(&Vec2(0, 0));
    assert_eq!(list.len(), 9);
    // clipped at the world's corner
    let clipped = cs.light_traversed_chunks(&Vec2(-8, -8));
    assert_eq!(clipped.len(), 4);
}

#[test]
fn clear_cache_forgets_touches() {
    let cfg = test_config();
    let mut cs = Chunks::new(&cfg);
    cs.add(Chunk::new("c00", 0, 0, &test_options()));
    cs.raw_mut(&Vec2(0, 0));
    assert!(!cs.cache.is_empty());
    cs.clear_cache();
    assert!(cs.cache.is_empty());
}

#[test]
fn save_requires_persistence_and_ready_chunk() {
    let mut cfg = test_config();
    cfg.saving = false;
    let cs = Chunks::new(&cfg);
    assert!(matches!(cs.save(&Vec2(0, 0)), Err(SaveError::SavingDisabled)));
    let cfg2 = test_config();
    let cs2 = Chunks::new(&cfg2);
    assert!(matches!(cs2.save(&Vec2(0, 0)), Err(SaveError::ChunkMissing)));
}
