//! The material registry: translates macroscopic material constants into
//! voxel-scale derived properties at a fixed voxel edge length, and maps
//! names to dense integer ids assigned in registration order.

use vstd::prelude::*;

use crate::errors::HeatError;
use crate::string_utils::str_eq;
use crate::types::{Length, MaterialId, PhysicsMaterial, VoxelMaterial, EDGE_LIMIT};

verus! {

/// Registry of derived voxel materials, looked up by `MaterialId` or by
/// name.  Constructed once by a setup collaborator and treated as
/// immutable shared data during a simulation run.
pub struct VoxelMaterialLookup {
    /// Voxel edge length, fixed for the registry's lifetime.
    pub length: Length,
    /// Name of each registered material; entry `i` names the material
    /// with id `i`.
    pub names: Vec<&'static str>,
    /// Derived properties of each registered material, indexed by id.
    pub materials: Vec<VoxelMaterial>,
}

impl VoxelMaterialLookup {
    /// Names pair up with materials one to one, no name repeats, every id
    /// fits in a `MaterialId`, and every entry was derived within the
    /// exact-arithmetic limits.
    pub open spec fn wf(self) -> bool {
        &&& self.length <= EDGE_LIMIT
        &&& self.names@.len() == self.materials@.len()
        &&& self.materials@.len() <= u32::MAX
        &&& forall|i: int, j: int|
            0 <= i < j < self.names@.len() ==> self.names@[i]@ != self.names@[j]@
        &&& forall|i: int|
            0 <= i < self.materials@.len() ==> (#[trigger] self.materials@[i]).wf()
    }

    /// Whether some material is registered under `name`.
    pub open spec fn spec_contains_name(self, name: Seq<char>) -> bool {
        exists|i: int| 0 <= i < self.names@.len() && self.names@[i]@ == name
    }

    /// The id registered under `name` (meaningful when
    /// `spec_contains_name` holds; unique because names never repeat).
    pub open spec fn spec_id_of(self, name: Seq<char>) -> int {
        choose|i: int| 0 <= i < self.names@.len() && self.names@[i]@ == name
    }

    /// Start with an empty table at voxel edge length `length`.
    pub fn new(length: Length) -> (r: VoxelMaterialLookup)
        requires
            length <= EDGE_LIMIT,
        ensures
            r.wf(),
            r.length == length,
            r.names@.len() == 0,
            r.materials@.len() == 0,
    {
        VoxelMaterialLookup { length, names: Vec::new(), materials: Vec::new() }
    }

    /// The id registered under `name`, or `UnknownMaterial` if that name
    /// was never registered.
    pub fn id(&self, name: &str) -> (r: Result<MaterialId, HeatError>)
        requires
            self.wf(),
        ensures
            match r {
                Ok(id) => {
                    &&& id < self.names@.len()
                    &&& self.names@[id as int]@ == name@
                    &&& id == self.spec_id_of(name@)
                },
                Err(e) => e == HeatError::UnknownMaterial && !self.spec_contains_name(name@),
            },
    {
        let mut i: usize = 0;
        while i < self.names.len()
            invariant
                self.wf(),
                i <= self.names@.len(),
                forall|j: int| 0 <= j < i ==> self.names@[j]@ != name@,
            decreases self.names@.len() - i,
        {
            if str_eq(self.names[i], name) {
                proof {
                    assert(self.spec_contains_name(name@));
                    let c = self.spec_id_of(name@);
                    assert(0 <= c < self.names@.len() && self.names@[c]@ == name@);
                    if c != i {
                        assert(self.names@[c]@ != self.names@[i as int]@);
                    }
                }
                return Ok(i as MaterialId);
            }
            i = i + 1;
        }
        Err(HeatError::UnknownMaterial)
    }

    /// Register a material: its derived properties are appended and its id
    /// is the insertion index, so ids are dense and assigned in
    /// registration order.  Reusing an already registered name is reported
    /// as `DuplicateMaterial` and changes nothing.
    pub fn add(&mut self, mat: PhysicsMaterial) -> (r: Result<MaterialId, HeatError>)
        requires
            old(self).wf(),
            old(self).materials@.len() < u32::MAX,
            mat.wf(),
        ensures
            final(self).wf(),
            final(self).length == old(self).length,
            match r {
                Ok(id) => {
                    &&& !old(self).spec_contains_name(mat.name@)
                    &&& id == old(self).materials@.len()
                    &&& final(self).names@ == old(self).names@.push(mat.name)
                    &&& final(self).materials@ == old(self).materials@.push(
                        mat.spec_derived(old(self).length as int),
                    )
                },
                Err(e) => {
                    &&& e == HeatError::DuplicateMaterial
                    &&& old(self).spec_contains_name(mat.name@)
                    &&& *final(self) == *old(self)
                },
            },
    {
        match self.id(mat.name) {
            Ok(_) => Err(HeatError::DuplicateMaterial),
            Err(_) => {
                let id = self.materials.len() as MaterialId;
                let derived = mat.to_voxel_material(self.length);
                self.names.push(mat.name);
                self.materials.push(derived);
                proof {
                    assert forall|i: int, j: int| 0 <= i < j < self.names@.len()
                        implies self.names@[i]@ != self.names@[j]@ by {
                        if j == self.names@.len() - 1 {
                            assert(!old(self).spec_contains_name(mat.name@));
                            assert(old(self).names@[i]@ != mat.name@);
                        }
                    }
                }
                Ok(id)
            },
        }
    }
}

} // verus!
