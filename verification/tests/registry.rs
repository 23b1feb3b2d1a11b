use voxel_heat::errors::HeatError;
use voxel_heat::materials;
use voxel_heat::types::{Coefficient, HeatCapacity, PhysicsMaterial, PhysicsPhase};
use voxel_heat::voxel_material_lookup::VoxelMaterialLookup;

#[test]
fn derived_properties_follow_the_formulas() {
    // volume = 4000^3, mass = density * volume,
    // reciprocal resistance = 2 * conductivity * edge,
    // heat capacity = mass * specific heat capacity
    let m = materials::iron().to_voxel_material(4000);
    assert_eq!(m.mass, 78_740u128 * 64_000_000_000);
    assert_eq!(m.thermal_resistance.reciprocal, 2 * 500_000 * 4000);
    assert_eq!(
        m.heat_capacity,
        HeatCapacity::Finite(5_039_360_000_000_000u128 * 4_600_000)
    );
    assert_eq!(m.phase, PhysicsPhase::Solid);
}

#[test]
fn vacuum_material_has_zero_mass() {
    let vacuum = PhysicsMaterial {
        name: "Vacuum",
        phase: PhysicsPhase::Gas,
        specific_heat_capacity: Coefficient::Finite(10),
        thermal_conductivity: 5,
        density: 0,
        viscosity: Coefficient::Finite(0),
    };
    let m = vacuum.to_voxel_material(100);
    assert_eq!(m.mass, 0);
    assert_eq!(m.heat_capacity, HeatCapacity::Finite(0));
}

#[test]
fn zero_conductivity_means_infinite_resistance() {
    let insulator = PhysicsMaterial {
        name: "Insulator",
        phase: PhysicsPhase::Solid,
        specific_heat_capacity: Coefficient::Finite(100),
        thermal_conductivity: 0,
        density: 5,
        viscosity: Coefficient::Infinite,
    };
    let m = insulator.to_voxel_material(100);
    assert_eq!(m.thermal_resistance.reciprocal, 0);
}

#[test]
fn infinite_specific_heat_gives_infinite_capacity() {
    let m = materials::infinite_heat_capacity().to_voxel_material(4000);
    assert_eq!(m.heat_capacity, HeatCapacity::Infinite);
}

#[test]
fn registry_assigns_dense_ids_in_registration_order() {
    let lookup = materials::create_test_materials();
    assert_eq!(lookup.materials.len(), 10);
    assert_eq!(lookup.names.len(), 10);
    assert_eq!(lookup.id("Air"), Ok(0));
    assert_eq!(lookup.id("Hardwood"), Ok(1));
    assert_eq!(lookup.id("Softwood"), Ok(2));
    assert_eq!(lookup.id("Iron"), Ok(3));
    assert_eq!(lookup.id("Ice"), Ok(4));
    assert_eq!(lookup.id("Water"), Ok(8));
    assert_eq!(lookup.id("Infinite Heat Sink"), Ok(9));
}

#[test]
fn unknown_material_name_is_reported() {
    let lookup = materials::create_test_materials();
    assert_eq!(lookup.id("Unobtainium"), Err(HeatError::UnknownMaterial));
    assert_eq!(
        VoxelMaterialLookup::new(1).id("Air"),
        Err(HeatError::UnknownMaterial)
    );
}

#[test]
fn duplicate_registration_is_reported() {
    let mut lookup = VoxelMaterialLookup::new(4000);
    assert_eq!(lookup.add(materials::water()), Ok(0));
    assert_eq!(
        lookup.add(materials::water()),
        Err(HeatError::DuplicateMaterial)
    );
    assert_eq!(lookup.materials.len(), 1);
    assert_eq!(lookup.id("Water"), Ok(0));
}
