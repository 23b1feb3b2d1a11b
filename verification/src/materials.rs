//! A standard set of macroscopic materials.
//!
//! Coefficients are fixed-point integers in ten-thousandths of the usual
//! units (J/kg·K for specific heat capacity, W/m·K for conductivity,
//! g/cm³ for density, centipoise for viscosity), lengths are in
//! millimeters, and temperatures in micro-kelvin, so that every value
//! below is exact.

use vstd::prelude::*;

use crate::types::{Coefficient, PhysicsMaterial, PhysicsPhase};
use crate::voxel_material_lookup::VoxelMaterialLookup;

verus! {

/// Air: 1006 J/kg·K, 0.024 W/m·K, 0.0012 g/cm³, 0.0181 cP.
pub open spec fn spec_air() -> PhysicsMaterial {
    PhysicsMaterial {
        name: "Air",
        phase: PhysicsPhase::Gas,
        specific_heat_capacity: Coefficient::Finite(10_060_000),
        thermal_conductivity: 240,
        density: 12,
        viscosity: Coefficient::Finite(181),
    }
}

/// Water: 4200 J/kg·K, 0.66 W/m·K, 0.997 g/cm³, 1.0 cP.
pub open spec fn spec_water() -> PhysicsMaterial {
    PhysicsMaterial {
        name: "Water",
        phase: PhysicsPhase::Liquid,
        specific_heat_capacity: Coefficient::Finite(42_000_000),
        thermal_conductivity: 6_600,
        density: 9_970,
        viscosity: Coefficient::Finite(10_000),
    }
}

/// Rock: 800 J/kg·K, 4.0 W/m·K, 2.65 g/cm³.
pub open spec fn spec_rock() -> PhysicsMaterial {
    PhysicsMaterial {
        name: "Rock",
        phase: PhysicsPhase::Solid,
        specific_heat_capacity: Coefficient::Finite(8_000_000),
        thermal_conductivity: 40_000,
        density: 26_500,
        viscosity: Coefficient::Infinite,
    }
}

/// Ice: 2040 J/kg·K, 2.18 W/m·K, 0.997 g/cm³.
pub open spec fn spec_ice() -> PhysicsMaterial {
    PhysicsMaterial {
        name: "Ice",
        phase: PhysicsPhase::Solid,
        specific_heat_capacity: Coefficient::Finite(20_400_000),
        thermal_conductivity: 21_800,
        density: 9_970,
        viscosity: Coefficient::Infinite,
    }
}

/// Iron: 460 J/kg·K, 50 W/m·K, 7.874 g/cm³.
pub open spec fn spec_iron() -> PhysicsMaterial {
    PhysicsMaterial {
        name: "Iron",
        phase: PhysicsPhase::Solid,
        specific_heat_capacity: Coefficient::Finite(4_600_000),
        thermal_conductivity: 500_000,
        density: 78_740,
        viscosity: Coefficient::Infinite,
    }
}

/// Dirt: 800 J/kg·K, 0.25 W/m·K, 1.51 g/cm³.
pub open spec fn spec_dirt() -> PhysicsMaterial {
    PhysicsMaterial {
        name: "Dirt",
        phase: PhysicsPhase::Solid,
        specific_heat_capacity: Coefficient::Finite(8_000_000),
        thermal_conductivity: 2_500,
        density: 15_100,
        viscosity: Coefficient::Infinite,
    }
}

/// Sand: 830 J/kg·K, 0.2 W/m·K, 2.1 g/cm³.
pub open spec fn spec_sand() -> PhysicsMaterial {
    PhysicsMaterial {
        name: "Sand",
        phase: PhysicsPhase::Grain,
        specific_heat_capacity: Coefficient::Finite(8_300_000),
        thermal_conductivity: 2_000,
        density: 21_000,
        viscosity: Coefficient::Infinite,
    }
}

/// Hardwood: 2000 J/kg·K, 0.16 W/m·K, 0.65 g/cm³.
pub open spec fn spec_wood_hard() -> PhysicsMaterial {
    PhysicsMaterial {
        name: "Hardwood",
        phase: PhysicsPhase::Solid,
        specific_heat_capacity: Coefficient::Finite(20_000_000),
        thermal_conductivity: 1_600,
        density: 6_500,
        viscosity: Coefficient::Infinite,
    }
}

/// Softwood: 2300 J/kg·K, 0.12 W/m·K, 0.49 g/cm³.
pub open spec fn spec_wood_soft() -> PhysicsMaterial {
    PhysicsMaterial {
        name: "Softwood",
        phase: PhysicsPhase::Solid,
        specific_heat_capacity: Coefficient::Finite(23_000_000),
        thermal_conductivity: 1_200,
        density: 4_900,
        viscosity: Coefficient::Infinite,
    }
}

/// A boundary-condition material: its infinite specific heat capacity
/// pins a voxel's temperature (100 W/m·K, 10 g/cm³).
pub open spec fn spec_infinite_heat_capacity() -> PhysicsMaterial {
    PhysicsMaterial {
        name: "Infinite Heat Sink",
        phase: PhysicsPhase::Solid,
        specific_heat_capacity: Coefficient::Infinite,
        thermal_conductivity: 1_000_000,
        density: 100_000,
        viscosity: Coefficient::Infinite,
    }
}

pub fn air() -> (r: PhysicsMaterial)
    ensures
        r == spec_air(),
{
    PhysicsMaterial {
        name: "Air",
        phase: PhysicsPhase::Gas,
        specific_heat_capacity: Coefficient::Finite(10_060_000),
        thermal_conductivity: 240,
        density: 12,
        viscosity: Coefficient::Finite(181),
    }
}

pub fn water() -> (r: PhysicsMaterial)
    ensures
        r == spec_water(),
{
    PhysicsMaterial {
        name: "Water",
        phase: PhysicsPhase::Liquid,
        specific_heat_capacity: Coefficient::Finite(42_000_000),
        thermal_conductivity: 6_600,
        density: 9_970,
        viscosity: Coefficient::Finite(10_000),
    }
}

pub fn rock() -> (r: PhysicsMaterial)
    ensures
        r == spec_rock(),
{
    PhysicsMaterial {
        name: "Rock",
        phase: PhysicsPhase::Solid,
        specific_heat_capacity: Coefficient::Finite(8_000_000),
        thermal_conductivity: 40_000,
        density: 26_500,
        viscosity: Coefficient::Infinite,
    }
}

pub fn ice() -> (r: PhysicsMaterial)
    ensures
        r == spec_ice(),
{
    PhysicsMaterial {
        name: "Ice",
        phase: PhysicsPhase::Solid,
        specific_heat_capacity: Coefficient::Finite(20_400_000),
        thermal_conductivity: 21_800,
        density: 9_970,
        viscosity: Coefficient::Infinite,
    }
}

pub fn iron() -> (r: PhysicsMaterial)
    ensures
        r == spec_iron(),
{
    PhysicsMaterial {
        name: "Iron",
        phase: PhysicsPhase::Solid,
        specific_heat_capacity: Coefficient::Finite(4_600_000),
        thermal_conductivity: 500_000,
        density: 78_740,
        viscosity: Coefficient::Infinite,
    }
}

pub fn dirt() -> (r: PhysicsMaterial)
    ensures
        r == spec_dirt(),
{
    PhysicsMaterial {
        name: "Dirt",
        phase: PhysicsPhase::Solid,
        specific_heat_capacity: Coefficient::Finite(8_000_000),
        thermal_conductivity: 2_500,
        density: 15_100,
        viscosity: Coefficient::Infinite,
    }
}

pub fn sand() -> (r: PhysicsMaterial)
    ensures
        r == spec_sand(),
{
    PhysicsMaterial {
        name: "Sand",
        phase: PhysicsPhase::Grain,
        specific_heat_capacity: Coefficient::Finite(8_300_000),
        thermal_conductivity: 2_000,
        density: 21_000,
        viscosity: Coefficient::Infinite,
    }
}

pub fn wood_hard() -> (r: PhysicsMaterial)
    ensures
        r == spec_wood_hard(),
{
    PhysicsMaterial {
        name: "Hardwood",
        phase: PhysicsPhase::Solid,
        specific_heat_capacity: Coefficient::Finite(20_000_000),
        thermal_conductivity: 1_600,
        density: 6_500,
        viscosity: Coefficient::Infinite,
    }
}

pub fn wood_soft() -> (r: PhysicsMaterial)
    ensures
        r == spec_wood_soft(),
{
    PhysicsMaterial {
        name: "Softwood",
        phase: PhysicsPhase::Solid,
        specific_heat_capacity: Coefficient::Finite(23_000_000),
        thermal_conductivity: 1_200,
        density: 4_900,
        viscosity: Coefficient::Infinite,
    }
}

pub fn infinite_heat_capacity() -> (r: PhysicsMaterial)
    ensures
        r == spec_infinite_heat_capacity(),
{
    PhysicsMaterial {
        name: "Infinite Heat Sink",
        phase: PhysicsPhase::Solid,
        specific_heat_capacity: Coefficient::Infinite,
        thermal_conductivity: 1_000_000,
        density: 100_000,
        viscosity: Coefficient::Infinite,
    }
}

/// A registry holding all ten standard materials at a voxel edge length
/// of 4000 length units (4 m at the millimeter scale), ids assigned in
/// registration order.
pub fn create_test_materials() -> (lookup: VoxelMaterialLookup)
    ensures
        lookup.wf(),
        lookup.length == 4000,
        lookup.names@.len() == 10,
        lookup.materials@.len() == 10,
        lookup.names@[0]@ == "Air"@ && lookup.materials@[0] == spec_air().spec_derived(4000),
        lookup.names@[1]@ == "Hardwood"@ && lookup.materials@[1] == spec_wood_hard().spec_derived(
            4000,
        ),
        lookup.names@[2]@ == "Softwood"@ && lookup.materials@[2] == spec_wood_soft().spec_derived(
            4000,
        ),
        lookup.names@[3]@ == "Iron"@ && lookup.materials@[3] == spec_iron().spec_derived(4000),
        lookup.names@[4]@ == "Ice"@ && lookup.materials@[4] == spec_ice().spec_derived(4000),
        lookup.names@[5]@ == "Dirt"@ && lookup.materials@[5] == spec_dirt().spec_derived(4000),
        lookup.names@[6]@ == "Rock"@ && lookup.materials@[6] == spec_rock().spec_derived(4000),
        lookup.names@[7]@ == "Sand"@ && lookup.materials@[7] == spec_sand().spec_derived(4000),
        lookup.names@[8]@ == "Water"@ && lookup.materials@[8] == spec_water().spec_derived(4000),
        lookup.names@[9]@ == "Infinite Heat Sink"@ && lookup.materials@[9]
            == spec_infinite_heat_capacity().spec_derived(4000),
{
    proof {
        reveal_strlit("Air");
        reveal_strlit("Hardwood");
        reveal_strlit("Softwood");
        reveal_strlit("Iron");
        reveal_strlit("Ice");
        reveal_strlit("Dirt");
        reveal_strlit("Rock");
        reveal_strlit("Sand");
        reveal_strlit("Water");
        reveal_strlit("Infinite Heat Sink");
        assert("Air"@.len() == 3 && "Ice"@.len() == 3 && "Air"@[0] == 'A' && "Ice"@[0] == 'I');
        assert("Hardwood"@.len() == 8 && "Softwood"@.len() == 8 && "Hardwood"@[0] == 'H'
            && "Softwood"@[0] == 'S');
        assert("Iron"@.len() == 4 && "Dirt"@.len() == 4 && "Rock"@.len() == 4 && "Sand"@.len()
            == 4);
        assert("Iron"@[0] == 'I' && "Dirt"@[0] == 'D' && "Rock"@[0] == 'R' && "Sand"@[0] == 'S');
        assert("Water"@.len() == 5 && "Infinite Heat Sink"@.len() == 18);
    }
    let mut lookup = VoxelMaterialLookup::new(4000);
    let r0 = lookup.add(air());
    proof {
        assert(r0 is Ok);
    }
    proof {
        assert forall|i: int| 0 <= i < lookup.names@.len()
            implies lookup.names@[i]@ != "Hardwood"@ by {}
    }
    let r1 = lookup.add(wood_hard());
    proof {
        assert(r1 is Ok);
    }
    proof {
        assert forall|i: int| 0 <= i < lookup.names@.len()
            implies lookup.names@[i]@ != "Softwood"@ by {}
    }
    let r2 = lookup.add(wood_soft());
    proof {
        assert(r2 is Ok);
    }
    proof {
        assert forall|i: int| 0 <= i < lookup.names@.len()
            implies lookup.names@[i]@ != "Iron"@ by {}
    }
    let r3 = lookup.add(iron());
    proof {
        assert(r3 is Ok);
    }
    proof {
        assert forall|i: int| 0 <= i < lookup.names@.len()
            implies lookup.names@[i]@ != "Ice"@ by {}
    }
    let r4 = lookup.add(ice());
    proof {
        assert(r4 is Ok);
    }
    proof {
        assert forall|i: int| 0 <= i < lookup.names@.len()
            implies lookup.names@[i]@ != "Dirt"@ by {}
    }
    let r5 = lookup.add(dirt());
    proof {
        assert(r5 is Ok);
    }
    proof {
        assert forall|i: int| 0 <= i < lookup.names@.len()
            implies lookup.names@[i]@ != "Rock"@ by {}
    }
    let r6 = lookup.add(rock());
    proof {
        assert(r6 is Ok);
    }
    proof {
        assert forall|i: int| 0 <= i < lookup.names@.len()
            implies lookup.names@[i]@ != "Sand"@ by {}
    }
    let r7 = lookup.add(sand());
    proof {
        assert(r7 is Ok);
    }
    proof {
        assert forall|i: int| 0 <= i < lookup.names@.len()
            implies lookup.names@[i]@ != "Water"@ by {}
    }
    let r8 = lookup.add(water());
    proof {
        assert(r8 is Ok);
    }
    proof {
        assert forall|i: int| 0 <= i < lookup.names@.len()
            implies lookup.names@[i]@ != "Infinite Heat Sink"@ by {}
    }
    let r9 = lookup.add(infinite_heat_capacity());
    proof {
        assert(r9 is Ok);
    }
    lookup
}

} // verus!
