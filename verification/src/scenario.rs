//! Scenario authoring: the setup collaborator's helpers that write the
//! initial material and temperature fields for the demonstration runs.

use vstd::prelude::*;

use crate::errors::HeatError;
use crate::kelvin;
use crate::types::{MaterialId, Temperature};
use crate::volume::{lemma_cell_index_in_range, lemma_cell_index_injective, Size, Volume};
use crate::voxel_material_lookup::VoxelMaterialLookup;

verus! {

/// How many of the three axes place `(x, y, z)` on the grid boundary.
pub open spec fn spec_edge_count(s: Size, x: int, y: int, z: int) -> int {
    (if x == 0 || x + 1 == s.x {
        1int
    } else {
        0int
    }) + (if y == 0 || y + 1 == s.y {
        1int
    } else {
        0int
    }) + (if z == 0 || z + 1 == s.z {
        1int
    } else {
        0int
    })
}

/// Material id the test fill assigns at `(x, y, z)`: `frame` wherever two
/// or more axes touch the boundary (the grid's edges and corners),
/// `interior` everywhere else.
pub open spec fn spec_test_fill_id(
    s: Size,
    frame: MaterialId,
    interior: MaterialId,
    x: int,
    y: int,
    z: int,
) -> MaterialId {
    if spec_edge_count(s, x, y, z) >= 2 {
        frame
    } else {
        interior
    }
}

/// The test fill is complete for every cell whose linear index lies
/// below `bound`.
spec fn spec_fill_done_below(
    v: Volume<MaterialId>,
    frame: MaterialId,
    interior: MaterialId,
    bound: int,
) -> bool {
    forall|x: int, y: int, z: int|
        v.size.contains(x, y, z) && v.size.cell_index(x, y, z) < bound
            ==> #[trigger] v.spec_at(x, y, z) == spec_test_fill_id(
            v.size,
            frame,
            interior,
            x,
            y,
            z,
        )
}

/// Assign iron to every voxel on the grid's frame (two or more boundary
/// axes) and hardwood to the rest.  Both materials must already be
/// registered; a missing name is reported and leaves the field untouched.
pub fn fill_volume_with_test_material(
    volume: &mut Volume<MaterialId>,
    lookup: &VoxelMaterialLookup,
) -> (r: Result<(), HeatError>)
    requires
        old(volume).wf(),
        lookup.wf(),
    ensures
        final(volume).wf(),
        final(volume).size == old(volume).size,
        match r {
            Ok(()) => {
                &&& lookup.spec_contains_name("Iron"@)
                &&& lookup.spec_contains_name("Hardwood"@)
                &&& forall|x: int, y: int, z: int|
                    old(volume).size.contains(x, y, z) ==> #[trigger] final(volume).spec_at(
                        x,
                        y,
                        z,
                    ) == spec_test_fill_id(
                        old(volume).size,
                        lookup.spec_id_of("Iron"@) as MaterialId,
                        lookup.spec_id_of("Hardwood"@) as MaterialId,
                        x,
                        y,
                        z,
                    )
            },
            Err(e) => {
                &&& e == HeatError::UnknownMaterial
                &&& (!lookup.spec_contains_name("Iron"@) || !lookup.spec_contains_name(
                    "Hardwood"@,
                ))
                &&& *final(volume) == *old(volume)
            },
        },
{
    let iron = match lookup.id("Iron") {
        Ok(id) => id,
        Err(e) => {
            return Err(e);
        },
    };
    let wood = match lookup.id("Hardwood") {
        Ok(id) => id,
        Err(e) => {
            return Err(e);
        },
    };
    let s = volume.size;
    proof {
        assert(s.cell_index(0, 0, 0) == 0) by (nonlinear_arith);
        assert forall|x2: int, y2: int, z2: int| s.contains(x2, y2, z2)
            implies s.cell_index(x2, y2, z2) >= 0 by {
            lemma_cell_index_in_range(s, x2, y2, z2);
        }
    }
    let mut z: usize = 0;
    while z < s.z
        invariant
            volume.wf(),
            volume.size == s,
            z <= s.z,
            iron == lookup.spec_id_of("Iron"@),
            wood == lookup.spec_id_of("Hardwood"@),
            spec_fill_done_below(*volume, iron, wood, s.cell_index(0, 0, z as int)),
        decreases s.z - z,
    {
        let mut y: usize = 0;
        while y < s.y
            invariant
                volume.wf(),
                volume.size == s,
                z < s.z,
                y <= s.y,
                iron == lookup.spec_id_of("Iron"@),
                wood == lookup.spec_id_of("Hardwood"@),
                spec_fill_done_below(*volume, iron, wood, s.cell_index(0, y as int, z as int)),
            decreases s.y - y,
        {
            let mut x: usize = 0;
            while x < s.x
                invariant
                    volume.wf(),
                    volume.size == s,
                    z < s.z,
                    y < s.y,
                    x <= s.x,
                    iron == lookup.spec_id_of("Iron"@),
                    wood == lookup.spec_id_of("Hardwood"@),
                    spec_fill_done_below(
                        *volume,
                        iron,
                        wood,
                        s.cell_index(x as int, y as int, z as int),
                    ),
                decreases s.x - x,
            {
                let x_edge: u32 = if x == 0 || x + 1 == s.x {
                    1
                } else {
                    0
                };
                let y_edge: u32 = if y == 0 || y + 1 == s.y {
                    1
                } else {
                    0
                };
                let z_edge: u32 = if z == 0 || z + 1 == s.z {
                    1
                } else {
                    0
                };
                let edges = x_edge + y_edge + z_edge;
                let material_id = if edges >= 2 {
                    iron
                } else {
                    wood
                };
                volume.set(x, y, z, material_id);
                proof {
                    lemma_cell_index_in_range(s, x as int, y as int, z as int);
                    assert forall|x2: int, y2: int, z2: int|
                        s.contains(x2, y2, z2) && s.cell_index(x2, y2, z2) < s.cell_index(
                            x as int,
                            y as int,
                            z as int,
                        ) + 1 implies #[trigger] volume.spec_at(x2, y2, z2) == spec_test_fill_id(
                        s,
                        iron,
                        wood,
                        x2,
                        y2,
                        z2,
                    ) by {
                        if s.cell_index(x2, y2, z2) == s.cell_index(x as int, y as int, z as int) {
                            lemma_cell_index_injective(
                                s,
                                x2,
                                y2,
                                z2,
                                x as int,
                                y as int,
                                z as int,
                            );
                        }
                    }
                    assert(s.cell_index(x as int + 1, y as int, z as int) == s.cell_index(
                        x as int,
                        y as int,
                        z as int,
                    ) + 1);
                }
                x = x + 1;
            }
            proof {
                assert(s.cell_index(s.x as int, y as int, z as int) == s.cell_index(
                    0,
                    y as int + 1,
                    z as int,
                )) by (nonlinear_arith);
            }
            y = y + 1;
        }
        proof {
            assert(s.cell_index(0, s.y as int, z as int) == s.cell_index(0, 0, z as int + 1))
                by (nonlinear_arith);
        }
        z = z + 1;
    }
    proof {
        assert forall|x2: int, y2: int, z2: int| s.contains(x2, y2, z2)
            implies #[trigger] volume.spec_at(x2, y2, z2) == spec_test_fill_id(
            s,
            iron,
            wood,
            x2,
            y2,
            z2,
        ) by {
            lemma_cell_index_in_range(s, x2, y2, z2);
            assert(s.cell_index(0, 0, s.z as int) == s.spec_product()) by (nonlinear_arith);
        }
    }
    Ok(())
}

/// Pin the first and last voxels: both become the infinite-heat-capacity
/// boundary material, every temperature is reset to room temperature,
/// and the two pinned voxels are set very hot and very cold.  The
/// boundary material must already be registered; a missing name is
/// reported and leaves both fields untouched.
pub fn fill_with_heat_source_and_sink(
    material: &mut Volume<MaterialId>,
    temperature: &mut Volume<Temperature>,
    lookup: &VoxelMaterialLookup,
) -> (r: Result<(), HeatError>)
    requires
        old(material).wf(),
        old(temperature).wf(),
        lookup.wf(),
        old(temperature).data@.len() == old(material).data@.len(),
        old(material).data@.len() > 0,
    ensures
        final(material).wf(),
        final(material).size == old(material).size,
        final(temperature).wf(),
        final(temperature).size == old(temperature).size,
        match r {
            Ok(()) => {
                &&& lookup.spec_contains_name("Infinite Heat Sink"@)
                &&& final(material).data@ == old(material).data@.update(
                    old(material).data@.len() - 1,
                    lookup.spec_id_of("Infinite Heat Sink"@) as MaterialId,
                ).update(0, lookup.spec_id_of("Infinite Heat Sink"@) as MaterialId)
                &&& final(temperature).data@ == Seq::new(
                    old(temperature).data@.len(),
                    |i: int| kelvin::ROOM_TEMPERATURE,
                ).update(old(temperature).data@.len() - 1, kelvin::TUNGSTEN_MELTING).update(
                    0,
                    kelvin::ABSOLUTE_ZERO,
                )
            },
            Err(e) => {
                &&& e == HeatError::UnknownMaterial
                &&& !lookup.spec_contains_name("Infinite Heat Sink"@)
                &&& *final(material) == *old(material)
                &&& *final(temperature) == *old(temperature)
            },
        },
{
    let infinite = match lookup.id("Infinite Heat Sink") {
        Ok(id) => id,
        Err(e) => {
            return Err(e);
        },
    };
    let hot = material.data.len() - 1;
    material.data[hot] = infinite;
    material.data[0] = infinite;
    let n = temperature.data.len();
    let mut i: usize = 0;
    while i < n
        invariant
            i <= n,
            n == temperature.data@.len(),
            temperature.size == old(temperature).size,
            forall|j: int|
                0 <= j < i ==> #[trigger] temperature.data@[j] == kelvin::ROOM_TEMPERATURE,
        decreases n - i,
    {
        temperature.data[i] = kelvin::ROOM_TEMPERATURE;
        i = i + 1;
    }
    proof {
        assert(temperature.data@ =~= Seq::new(
            old(temperature).data@.len(),
            |j: int| kelvin::ROOM_TEMPERATURE,
        ));
    }
    temperature.data[n - 1] = kelvin::TUNGSTEN_MELTING;
    temperature.data[0] = kelvin::ABSOLUTE_ZERO;
    Ok(())
}

} // verus!
