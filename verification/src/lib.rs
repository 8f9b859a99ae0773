//! Server-side world model for a voxel multiplayer environment: an unbounded
//! 2D grid of fixed-size 3D chunks, each holding packed voxel data, mutated
//! through a staged generation pipeline and exposed to gameplay systems
//! through a uniform voxel access capability.

pub mod access;
pub mod chunk;
pub mod chunks;
pub mod codec;
pub mod config;
pub mod coords;
pub mod json_comp;
pub mod lights;
pub mod messages;
pub mod space;
pub mod stage;

pub use access::VoxelAccess;
pub use chunk::{Chunk, ChunkOptions, ChunkStatus};
pub use chunks::Chunks;
pub use codec::ChunkFileData;
pub use config::WorldConfig;
pub use coords::{ChunkUtils, Vec2, Vec3};
pub use json_comp::JsonComp;
pub use messages::{ClientFilter, MessageType};
pub use space::{Space, SpaceBuilder, SpaceError, SpaceOptions};
pub use stage::{BlockRegistry, ChunkStage, ResourceRequirements, ResourceResults};
pub use lights::{LightUtils, VoxelPacker};
