use voxelize::chunk::{Chunk, ChunkOptions, ChunkStatus};
use voxelize::chunks::{Chunks, LoadError};
use voxelize::codec::{bytes_to_words, decode_words, encode_words, words_to_bytes, ChunkFileData};
use voxelize::config::WorldConfig;
use voxelize::coords::{Vec2, Vec3};
use voxelize::messages::{ClientFilter, MessageType};
use voxelize::space::SpaceError;
use voxelize::stage::{
    resolve_resources, BlockRegistry, ChunkStage, FlatLandStage, ResourceRequirements,
};
use voxelize::JsonComp;
use voxelize::VoxelAccess;

fn test_config() -> WorldConfig {
    WorldConfig {
        min_chunk: Vec2(-8, -8),
        max_chunk: Vec2(8, 8),
        chunk_size: 16,
        sub_chunks: 4,
        max_height: 128,
        max_light_level: 15,
        saving: true,
    }
}

fn test_options() -> ChunkOptions {
    ChunkOptions {
        size: 16,
        max_height: 128,
        sub_chunks: 4,
    }
}

#[test]
fn le_words_round_trip() {
    let ws = vec![0u32, 1, 0xDEADBEEF, u32::MAX, 0x00010203];
    let bytes = words_to_bytes(&ws);
    assert_eq!(bytes.len(), 20);
    assert_eq!(&bytes[0..4], &[0, 0, 0, 0]);
    assert_eq!(&bytes[4..8], &[1, 0, 0, 0]);
    assert_eq!(&bytes[8..12], &[0xEF, 0xBE, 0xAD, 0xDE]);
    let back = bytes_to_words(&bytes).unwrap();
    assert_eq!(back, ws);
    assert!(bytes_to_words(&vec![1u8, 2, 3]).is_none());
}

#[test]
fn encoded_words_round_trip() {
    let ws = vec![7u32, 0, 0, 42, 0xFFFF_FFFF, 13, 13, 13];
    let text = encode_words(&ws);
    // the payload is compressed and base64-coded, not the raw bytes
    assert!(text.chars().all(|ch| ch.is_ascii_alphanumeric() || ch == '+' || ch == '/' || ch == '='));
    let back = decode_words(&text).unwrap();
    assert_eq!(back, ws);
}

#[test]
fn decode_rejects_garbage() {
    assert!(decode_words("&&& not base64 &&&").is_none());
    // valid base64, but no ZLIB stream inside
    assert!(decode_words("AAAA").is_none());
}

#[test]
fn save_and_load_round_trip() {
    let cfg = test_config();
    let mut cs = Chunks::new(&cfg);
    let mut c = Chunk::new("c12", 1, 2, &test_options());
    c.set_voxel(20, 9, 40, 3);
    c.set_raw_light(21, 60, 35, 0xBEEF);
    c.status = ChunkStatus::Ready;
    let saved_voxels = c.voxels.clone();
    let saved_heights = c.height_map.clone();
    cs.add(c);
    let data = cs.save(&Vec2(1, 2)).unwrap();
    assert_eq!(data.id, "c12");
    let loaded = cs.try_load(&Vec2(1, 2), Some(&data)).unwrap().unwrap();
    assert_eq!(loaded.status, ChunkStatus::Meshing);
    assert_eq!(loaded.coords, Vec2(1, 2));
    assert_eq!(loaded.voxels, saved_voxels);
    assert_eq!(loaded.height_map, saved_heights);
    assert_eq!(loaded.get_raw_voxel(20, 9, 40), 3);
    assert_eq!(loaded.get_raw_light(21, 60, 35), 0xBEEF);
    assert_eq!(loaded.get_max_height(20, 40), 10);
}

#[test]
fn load_rejects_corrupt_payloads() {
    let cfg = test_config();
    let cs = Chunks::new(&cfg);
    let bad = ChunkFileData {
        id: String::from("x"),
        voxels: String::from("???"),
        height_map: String::from("???"),
    };
    assert!(matches!(cs.try_load(&Vec2(0, 0), Some(&bad)), Err(LoadError::Corrupt)));
    // a decodable payload of the wrong size is corrupt too
    let short = encode_words(&vec![1u32, 2, 3]);
    let wrong = ChunkFileData {
        id: String::from("x"),
        voxels: short.clone(),
        height_map: short,
    };
    assert!(matches!(cs.try_load(&Vec2(0, 0), Some(&wrong)), Err(LoadError::Corrupt)));
}

#[test]
fn load_without_file_or_persistence_is_no_chunk() {
    let mut off = test_config();
    off.saving = false;
    let cs = Chunks::new(&off);
    assert!(matches!(cs.try_load(&Vec2(0, 0), None), Ok(None)));
    let cs2 = Chunks::new(&test_config());
    assert!(matches!(cs2.try_load(&Vec2(0, 0), None), Ok(None)));
}

#[test]
fn space_margin_one_window() {
    let cfg = test_config();
    let mut cs = Chunks::new(&cfg);
    for cx in -1..=1 {
        for cz in -1..=1 {
            let mut c = Chunk::new("n", cx, cz, &test_options());
            // a marker voxel at the chunk's own origin column
            c.set_raw_voxel(cx * 16, 0, cz * 16, (10 + (cx + 1) * 3 + (cz + 1)) as u32);
            c.status = ChunkStatus::Ready;
            cs.add(c);
        }
    }
    let space = cs.make_space(&Vec2(0, 0), 1).needs_voxels().build(&cs).unwrap();
    for cx in -1..=1i32 {
        for cz in -1..=1i32 {
            let expect = (10 + (cx + 1) * 3 + (cz + 1)) as u32;
            assert_eq!(space.get_raw_voxel(cx * 16, 0, cz * 16), expect);
        }
    }
    // outside the materialized window: the default, never a failure
    assert_eq!(space.get_raw_voxel(2 * 16, 0, 0), 0);
    assert_eq!(space.get_raw_voxel(-100_000, 3, 77), 0);
    assert!(!space.contains(2 * 16, 0, 0));
}

#[test]
fn space_strict_fails_on_missing_neighbor() {
    let cfg = test_config();
    let mut cs = Chunks::new(&cfg);
    let mut c = Chunk::new("c00", 0, 0, &test_options());
    c.status = ChunkStatus::Ready;
    cs.add(c);
    // margin 1 needs all nine chunks; only the center exists
    let r = cs.make_space(&Vec2(0, 0), 1).needs_voxels().strict().build(&cs);
    assert_eq!(r.err(), Some(SpaceError::Unavailable));
    // non-strict succeeds and serves defaults for the absent neighbors
    let space = cs.make_space(&Vec2(0, 0), 1).needs_voxels().build(&cs).unwrap();
    assert_eq!(space.get_raw_voxel(-1, 0, 0), 0);
    // strict with margin 0 sees only the ready center
    assert!(cs.make_space(&Vec2(0, 0), 0).strict().build(&cs).is_ok());
}

#[test]
fn space_write_out_of_range_is_rejected() {
    let cfg = test_config();
    let mut cs = Chunks::new(&cfg);
    let mut c = Chunk::new("c00", 0, 0, &test_options());
    c.status = ChunkStatus::Ready;
    cs.add(c);
    let mut space = cs.make_space(&Vec2(0, 0), 0).needs_voxels().build(&cs).unwrap();
    assert!(space.set_raw_voxel(1, 1, 1, 9));
    assert_eq!(space.get_raw_voxel(1, 1, 1), 9);
    // materialized chunk, but the vertical coordinate is outside storage
    assert!(!space.set_raw_voxel(1, 128, 1, 9));
    assert!(!space.set_raw_light(1, -1, 1, 0xF000));
    // no chunk materialized there at all
    assert!(!space.set_raw_voxel(40, 1, 1, 9));
}

#[test]
fn space_unrequested_data_reads_default() {
    let cfg = test_config();
    let mut cs = Chunks::new(&cfg);
    let mut c = Chunk::new("c00", 0, 0, &test_options());
    c.set_voxel(1, 1, 1, 5);
    c.status = ChunkStatus::Ready;
    cs.add(c);
    let space = cs.make_space(&Vec2(0, 0), 0).needs_height_maps().build(&cs).unwrap();
    assert_eq!(space.get_raw_voxel(1, 1, 1), 0);
    assert_eq!(space.get_max_height(1, 1), 2);
}

#[test]
fn flat_land_stage_fills_and_heights() {
    // chunk_size 16 and max_height 128: filling id 1 below 64 leaves every
    // one of the 256 columns with height 64
    let stage = FlatLandStage { level: 64, block_id: 1 };
    let chunk = Chunk::new("c00", 0, 0, &test_options());
    let needs = stage.needs_resources();
    assert_eq!(
        needs,
        ResourceRequirements { needs_registry: false, needs_config: false, needs_noise: false }
    );
    let resources = resolve_resources(
        needs,
        BlockRegistry { names: vec![] },
        test_config(),
        0,
    );
    let out = stage.process(chunk, &resources, None);
    for lx in 0..16 {
        for lz in 0..16 {
            assert_eq!(out.get_max_height(lx, lz), 64);
            assert_eq!(out.get_voxel(lx, 63, lz), 1);
            assert_eq!(out.get_voxel(lx, 64, lz), 0);
        }
    }
}

#[test]
fn stage_runs_deterministically() {
    let stage = FlatLandStage { level: 10, block_id: 4 };
    let resources = resolve_resources(
        stage.needs_resources(),
        BlockRegistry { names: vec![] },
        test_config(),
        0,
    );
    let a = stage.process(Chunk::new("c", 2, -3, &test_options()), &resources, None);
    let b = stage.process(Chunk::new("c", 2, -3, &test_options()), &resources, None);
    assert_eq!(a.voxels, b.voxels);
    assert_eq!(a.height_map, b.height_map);
    assert_eq!(a.coords, b.coords);
    assert_eq!(a.status, b.status);
}

#[test]
fn stage_name_and_resource_resolution() {
    let stage = FlatLandStage { level: 1, block_id: 1 };
    assert_eq!(stage.name(), "flat_land");
    let needs = ResourceRequirements { needs_registry: true, needs_config: false, needs_noise: true };
    let r = resolve_resources(needs, BlockRegistry { names: vec![String::from("stone")] }, test_config(), 99);
    assert!(r.registry.is_some());
    assert!(r.config.is_none());
    assert_eq!(r.noise_seed, Some(99));
}

#[test]
fn block_registry_lookup() {
    let reg = BlockRegistry {
        names: vec![String::from("air"), String::from("stone"), String::from("dirt")],
    };
    assert_eq!(reg.get_block_id(&String::from("stone")), Some(1));
    assert_eq!(reg.get_block_id(&String::from("air")), Some(0));
    assert_eq!(reg.get_block_id(&String::from("water")), None);
}

#[test]
fn client_filter_decides() {
    let all = ClientFilter::All;
    assert!(all.allows(&String::from("anyone")));
    let only = ClientFilter::Include(vec![String::from("a"), String::from("b")]);
    assert!(only.allows(&String::from("a")));
    assert!(!only.allows(&String::from("c")));
    let exclude = ClientFilter::Exclude(vec![String::from("a")]);
    assert!(!exclude.allows(&String::from("a")));
    assert!(exclude.allows(&String::from("c")));
}

#[test]
fn message_type_routing() {
    assert_eq!(MessageType::from_i32(0), Some(MessageType::Peer));
    assert_eq!(MessageType::from_i32(2), Some(MessageType::Chunk));
    assert_eq!(MessageType::from_i32(4), Some(MessageType::Update));
    assert_eq!(MessageType::from_i32(99), None);
}

#[test]
fn json_comp_starts_empty() {
    let j = JsonComp::new();
    assert_eq!(j.0, "");
}

fn probe<A: VoxelAccess>(a: &A, vx: i32, vy: i32, vz: i32) -> u32 {
    a.get_raw_voxel(vx, vy, vz)
}

#[test]
fn voxel_access_capability_is_uniform() {
    let mut chunk = Chunk::new("c00", 0, 0, &test_options());
    chunk.set_raw_voxel(1, 2, 3, 55);
    chunk.status = ChunkStatus::Ready;
    assert_eq!(probe(&chunk, 1, 2, 3), 55);
    let mut cs = Chunks::new(&test_config());
    cs.add(chunk);
    assert_eq!(probe(&cs, 1, 2, 3), 55);
    let space = cs.make_space(&Vec2(0, 0), 0).needs_voxels().build(&cs).unwrap();
    assert_eq!(probe(&space, 1, 2, 3), 55);
}
