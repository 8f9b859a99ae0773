//! Packing of voxel words and light words.
//!
//! Each voxel is one 32-bit word: the block id occupies the low 16 bits and
//! the light word the high 16 bits. The light word packs four nibbles:
//! sunlight (bits 12..16) and the red, green and blue torchlight channels
//! (bits 8..12, 4..8 and 0..4).

use vstd::prelude::*;

verus! {

/// Static helpers for reading and writing the packed light nibbles.
pub struct LightUtils;

impl LightUtils {
    pub open spec fn spec_extract_sunlight(light: u32) -> u32 {
        (light >> 12) & 0xF
    }

    pub open spec fn spec_insert_sunlight(light: u32, level: u32) -> u32 {
        (light & 0xFFFF0FFF) | ((level & 0xF) << 12)
    }

    pub open spec fn spec_extract_red(light: u32) -> u32 {
        (light >> 8) & 0xF
    }

    pub open spec fn spec_insert_red(light: u32, level: u32) -> u32 {
        (light & 0xFFFFF0FF) | ((level & 0xF) << 8)
    }

    pub open spec fn spec_extract_green(light: u32) -> u32 {
        (light >> 4) & 0xF
    }

    pub open spec fn spec_insert_green(light: u32, level: u32) -> u32 {
        (light & 0xFFFFFF0F) | ((level & 0xF) << 4)
    }

    pub open spec fn spec_extract_blue(light: u32) -> u32 {
        light & 0xF
    }

    pub open spec fn spec_insert_blue(light: u32, level: u32) -> u32 {
        (light & 0xFFFFFFF0) | (level & 0xF)
    }

    pub fn extract_sunlight(light: u32) -> (r: u32)
        ensures
            r == Self::spec_extract_sunlight(light),
            r <= 15,
    {
        proof {
            assert((light >> 12) & 0xF <= 15) by (bit_vector);
        }
        (light >> 12) & 0xF
    }

    pub fn insert_sunlight(light: u32, level: u32) -> (r: u32)
        ensures
            r == Self::spec_insert_sunlight(light, level),
    {
        (light & 0xFFFF0FFF) | ((level & 0xF) << 12)
    }

    pub fn extract_red(light: u32) -> (r: u32)
        ensures
            r == Self::spec_extract_red(light),
            r <= 15,
    {
        proof {
            assert((light >> 8) & 0xF <= 15) by (bit_vector);
        }
        (light >> 8) & 0xF
    }

    pub fn insert_red(light: u32, level: u32) -> (r: u32)
        ensures
            r == Self::spec_insert_red(light, level),
    {
        (light & 0xFFFFF0FF) | ((level & 0xF) << 8)
    }

    pub fn extract_green(light: u32) -> (r: u32)
        ensures
            r == Self::spec_extract_green(light),
            r <= 15,
    {
        proof {
            assert((light >> 4) & 0xF <= 15) by (bit_vector);
        }
        (light >> 4) & 0xF
    }

    pub fn insert_green(light: u32, level: u32) -> (r: u32)
        ensures
            r == Self::spec_insert_green(light, level),
    {
        (light & 0xFFFFFF0F) | ((level & 0xF) << 4)
    }

    pub fn extract_blue(light: u32) -> (r: u32)
        ensures
            r == Self::spec_extract_blue(light),
            r <= 15,
    {
        proof {
            assert(light & 0xF <= 15) by (bit_vector);
        }
        light & 0xF
    }

    pub fn insert_blue(light: u32, level: u32) -> (r: u32)
        ensures
            r == Self::spec_insert_blue(light, level),
    {
        (light & 0xFFFFFFF0) | (level & 0xF)
    }
}

/// Inserting a level and extracting it again gives the level back, and the
/// other channels are untouched; shown here for sunlight, the widest channel.
pub proof fn lemma_sunlight_insert_extract(light: u32, level: u32)
    requires
        level <= 15,
    ensures
        LightUtils::spec_extract_sunlight(LightUtils::spec_insert_sunlight(light, level)) == level,
        LightUtils::spec_extract_red(LightUtils::spec_insert_sunlight(light, level))
            == LightUtils::spec_extract_red(light),
        LightUtils::spec_extract_green(LightUtils::spec_insert_sunlight(light, level))
            == LightUtils::spec_extract_green(light),
        LightUtils::spec_extract_blue(LightUtils::spec_insert_sunlight(light, level))
            == LightUtils::spec_extract_blue(light),
{
    assert(level <= 15 ==> {
        let w = (light & 0xFFFF0FFF) | ((level & 0xF) << 12);
        &&& (w >> 12) & 0xF == level
        &&& (w >> 8) & 0xF == (light >> 8) & 0xF
        &&& (w >> 4) & 0xF == (light >> 4) & 0xF
        &&& w & 0xF == light & 0xF
    }) by (bit_vector);
}

/// Decomposing a 16-bit light word into its four nibbles and re-inserting
/// them rebuilds the word exactly: the packing is a lossless bijection.
pub proof fn lemma_light_word_roundtrip(light: u32)
    requires
        light < 0x10000,
    ensures
        LightUtils::spec_insert_sunlight(
            LightUtils::spec_insert_red(
                LightUtils::spec_insert_green(
                    LightUtils::spec_insert_blue(0, LightUtils::spec_extract_blue(light)),
                    LightUtils::spec_extract_green(light),
                ),
                LightUtils::spec_extract_red(light),
            ),
            LightUtils::spec_extract_sunlight(light),
        ) == light,
{
    assert(light < 0x10000 ==> {
        let b = (0u32 & 0xFFFFFFF0) | ((light & 0xF) & 0xF);
        let g = (b & 0xFFFFFF0F) | ((((light >> 4) & 0xF) & 0xF) << 4);
        let r = (g & 0xFFFFF0FF) | ((((light >> 8) & 0xF) & 0xF) << 8);
        let s = (r & 0xFFFF0FFF) | ((((light >> 12) & 0xF) & 0xF) << 12);
        s == light
    }) by (bit_vector);
}

/// Static helpers for the two halves of a packed voxel word.
pub struct VoxelPacker;

impl VoxelPacker {
    /// The block id: the low 16 bits of the voxel word.
    pub open spec fn spec_extract_id(word: u32) -> u32 {
        word & 0xFFFF
    }

    /// The light word: the high 16 bits of the voxel word.
    pub open spec fn spec_extract_light(word: u32) -> u32 {
        word >> 16
    }

    pub open spec fn spec_insert_id(word: u32, id: u32) -> u32 {
        (word & 0xFFFF0000) | (id & 0xFFFF)
    }

    pub open spec fn spec_insert_light(word: u32, light: u32) -> u32 {
        (word & 0x0000FFFF) | ((light & 0xFFFF) << 16)
    }

    pub fn extract_id(word: u32) -> (r: u32)
        ensures
            r == Self::spec_extract_id(word),
            r < 0x10000,
    {
        proof {
            assert(word & 0xFFFF < 0x10000) by (bit_vector);
        }
        word & 0xFFFF
    }

    pub fn extract_light(word: u32) -> (r: u32)
        ensures
            r == Self::spec_extract_light(word),
            r < 0x10000,
    {
        proof {
            assert(word >> 16 < 0x10000) by (bit_vector);
        }
        word >> 16
    }

    pub fn insert_id(word: u32, id: u32) -> (r: u32)
        ensures
            r == Self::spec_insert_id(word, id),
    {
        (word & 0xFFFF0000) | (id & 0xFFFF)
    }

    pub fn insert_light(word: u32, light: u32) -> (r: u32)
        ensures
            r == Self::spec_insert_light(word, light),
    {
        (word & 0x0000FFFF) | ((light & 0xFFFF) << 16)
    }
}

/// Splitting a voxel word into its id and light halves and re-packing them
/// rebuilds the word exactly, for every 32-bit word: the packing is a
/// lossless bijection.
pub proof fn lemma_voxel_word_roundtrip(word: u32)
    ensures
        VoxelPacker::spec_insert_light(
            VoxelPacker::spec_insert_id(0, VoxelPacker::spec_extract_id(word)),
            VoxelPacker::spec_extract_light(word),
        ) == word,
{
    assert({
        let i = (0u32 & 0xFFFF0000) | ((word & 0xFFFF) & 0xFFFF);
        let w = (i & 0x0000FFFF) | (((word >> 16) & 0xFFFF) << 16);
        w == word
    }) by (bit_vector);
}

} // verus!
