//! The uniform voxel access capability: one get/set surface, addressed in
//! global voxel coordinates, shared by a single chunk, the whole registry
//! and a bounded space, so a downstream algorithm can be written once
//! against it.

use vstd::prelude::*;
use crate::chunk::Chunk;
use crate::chunks::Chunks;
use crate::space::Space;

verus! {

/// Uniform get/set for the packed voxel word, the packed light word, the
/// sunlight nibble, the column height and an existence probe. Each
/// implementor pins its getters to its own view functions; its setters
/// keep it well-formed, and their exact effect is stated on the
/// implementor's own methods.
pub trait VoxelAccess {
    /// The implementor's well-formedness.
    spec fn access_wf(&self) -> bool;

    /// What `get_raw_voxel` answers.
    spec fn view_raw_voxel(&self, vx: int, vy: int, vz: int) -> u32;

    /// What `get_raw_light` answers.
    spec fn view_raw_light(&self, vx: int, vy: int, vz: int) -> u32;

    /// What `get_sunlight` answers.
    spec fn view_sunlight(&self, vx: int, vy: int, vz: int) -> u32;

    /// What `get_max_height` answers.
    spec fn view_max_height(&self, vx: int, vz: int) -> u32;

    fn get_raw_voxel(&self, vx: i32, vy: i32, vz: i32) -> (r: u32)
        requires
            self.access_wf(),
        ensures
            r == self.view_raw_voxel(vx as int, vy as int, vz as int),
    ;

    fn set_raw_voxel(&mut self, vx: i32, vy: i32, vz: i32, word: u32) -> (r: bool)
        requires
            old(self).access_wf(),
        ensures
            final(self).access_wf(),
    ;

    fn get_raw_light(&self, vx: i32, vy: i32, vz: i32) -> (r: u32)
        requires
            self.access_wf(),
        ensures
            r == self.view_raw_light(vx as int, vy as int, vz as int),
    ;

    fn set_raw_light(&mut self, vx: i32, vy: i32, vz: i32, level: u32) -> (r: bool)
        requires
            old(self).access_wf(),
        ensures
            final(self).access_wf(),
    ;

    fn get_sunlight(&self, vx: i32, vy: i32, vz: i32) -> (r: u32)
        requires
            self.access_wf(),
        ensures
            r == self.view_sunlight(vx as int, vy as int, vz as int),
    ;

    fn get_max_height(&self, vx: i32, vz: i32) -> (r: u32)
        requires
            self.access_wf(),
        ensures
            r == self.view_max_height(vx as int, vz as int),
    ;

    fn set_max_height(&mut self, vx: i32, vz: i32, height: u32) -> (r: bool)
        requires
            old(self).access_wf(),
        ensures
            final(self).access_wf(),
    ;

    fn contains(&self, vx: i32, vy: i32, vz: i32) -> (r: bool)
        requires
            self.access_wf(),
    ;
}

impl VoxelAccess for Chunk {
    open spec fn access_wf(&self) -> bool {
        self.wf()
    }

    open spec fn view_raw_voxel(&self, vx: int, vy: int, vz: int) -> u32 {
        self.spec_get_raw_voxel(vx, vy, vz)
    }

    open spec fn view_raw_light(&self, vx: int, vy: int, vz: int) -> u32 {
        self.spec_get_raw_light(vx, vy, vz)
    }

    open spec fn view_sunlight(&self, vx: int, vy: int, vz: int) -> u32 {
        self.spec_get_sunlight(vx, vy, vz)
    }

    open spec fn view_max_height(&self, vx: int, vz: int) -> u32 {
        self.spec_get_max_height(vx, vz)
    }

    fn get_raw_voxel(&self, vx: i32, vy: i32, vz: i32) -> (r: u32) {
        Chunk::get_raw_voxel(self, vx, vy, vz)
    }

    fn set_raw_voxel(&mut self, vx: i32, vy: i32, vz: i32, word: u32) -> (r: bool) {
        Chunk::set_raw_voxel(self, vx, vy, vz, word)
    }

    fn get_raw_light(&self, vx: i32, vy: i32, vz: i32) -> (r: u32) {
        Chunk::get_raw_light(self, vx, vy, vz)
    }

    fn set_raw_light(&mut self, vx: i32, vy: i32, vz: i32, level: u32) -> (r: bool) {
        Chunk::set_raw_light(self, vx, vy, vz, level)
    }

    fn get_sunlight(&self, vx: i32, vy: i32, vz: i32) -> (r: u32) {
        Chunk::get_sunlight(self, vx, vy, vz)
    }

    fn get_max_height(&self, vx: i32, vz: i32) -> (r: u32) {
        Chunk::get_max_height(self, vx, vz)
    }

    fn set_max_height(&mut self, vx: i32, vz: i32, height: u32) -> (r: bool) {
        Chunk::set_max_height(self, vx, vz, height)
    }

    fn contains(&self, vx: i32, vy: i32, vz: i32) -> (r: bool) {
        Chunk::contains(self, vx, vy, vz)
    }
}

impl VoxelAccess for Chunks {
    open spec fn access_wf(&self) -> bool {
        self.wf()
    }

    open spec fn view_raw_voxel(&self, vx: int, vy: int, vz: int) -> u32 {
        self.spec_get_raw_voxel(vx, vy, vz)
    }

    open spec fn view_raw_light(&self, vx: int, vy: int, vz: int) -> u32 {
        self.spec_get_raw_light(vx, vy, vz)
    }

    open spec fn view_sunlight(&self, vx: int, vy: int, vz: int) -> u32 {
        self.spec_get_sunlight(vx, vy, vz)
    }

    open spec fn view_max_height(&self, vx: int, vz: int) -> u32 {
        self.spec_get_max_height(vx, vz)
    }

    fn get_raw_voxel(&self, vx: i32, vy: i32, vz: i32) -> (r: u32) {
        Chunks::get_raw_voxel(self, vx, vy, vz)
    }

    fn set_raw_voxel(&mut self, vx: i32, vy: i32, vz: i32, word: u32) -> (r: bool) {
        Chunks::set_raw_voxel(self, vx, vy, vz, word)
    }

    fn get_raw_light(&self, vx: i32, vy: i32, vz: i32) -> (r: u32) {
        Chunks::get_raw_light(self, vx, vy, vz)
    }

    fn set_raw_light(&mut self, vx: i32, vy: i32, vz: i32, level: u32) -> (r: bool) {
        Chunks::set_raw_light(self, vx, vy, vz, level)
    }

    fn get_sunlight(&self, vx: i32, vy: i32, vz: i32) -> (r: u32) {
        Chunks::get_sunlight(self, vx, vy, vz)
    }

    fn get_max_height(&self, vx: i32, vz: i32) -> (r: u32) {
        Chunks::get_max_height(self, vx, vz)
    }

    fn set_max_height(&mut self, vx: i32, vz: i32, height: u32) -> (r: bool) {
        Chunks::set_max_height(self, vx, vz, height)
    }

    fn contains(&self, vx: i32, vy: i32, vz: i32) -> (r: bool) {
        Chunks::contains(self, vx, vy, vz)
    }
}

impl VoxelAccess for Space {
    open spec fn access_wf(&self) -> bool {
        self.wf()
    }

    open spec fn view_raw_voxel(&self, vx: int, vy: int, vz: int) -> u32 {
        self.spec_get_raw_voxel(vx, vy, vz)
    }

    open spec fn view_raw_light(&self, vx: int, vy: int, vz: int) -> u32 {
        self.spec_get_raw_light(vx, vy, vz)
    }

    open spec fn view_sunlight(&self, vx: int, vy: int, vz: int) -> u32 {
        self.spec_get_sunlight(vx, vy, vz)
    }

    open spec fn view_max_height(&self, vx: int, vz: int) -> u32 {
        self.spec_get_max_height(vx, vz)
    }

    fn get_raw_voxel(&self, vx: i32, vy: i32, vz: i32) -> (r: u32) {
        Space::get_raw_voxel(self, vx, vy, vz)
    }

    fn set_raw_voxel(&mut self, vx: i32, vy: i32, vz: i32, word: u32) -> (r: bool) {
        Space::set_raw_voxel(self, vx, vy, vz, word)
    }

    fn get_raw_light(&self, vx: i32, vy: i32, vz: i32) -> (r: u32) {
        Space::get_raw_light(self, vx, vy, vz)
    }

    fn set_raw_light(&mut self, vx: i32, vy: i32, vz: i32, level: u32) -> (r: bool) {
        Space::set_raw_light(self, vx, vy, vz, level)
    }

    fn get_sunlight(&self, vx: i32, vy: i32, vz: i32) -> (r: u32) {
        Space::get_sunlight(self, vx, vy, vz)
    }

    fn get_max_height(&self, vx: i32, vz: i32) -> (r: u32) {
        Space::get_max_height(self, vx, vz)
    }

    fn set_max_height(&mut self, vx: i32, vz: i32, height: u32) -> (r: bool) {
        Space::set_max_height(self, vx, vz, height)
    }

    fn contains(&self, vx: i32, vy: i32, vz: i32) -> (r: bool) {
        Space::contains(self, vx, vy, vz)
    }
}

} // verus!
