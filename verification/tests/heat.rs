use voxel_heat::errors::HeatError;
use voxel_heat::heat_transfer::{
    apply_heat_to_volume, calculate_heat_transfer_voxel, calculate_heat_transfer_volume,
    run_simulation, simulation_tick, temps_within_limit,
};
use voxel_heat::kelvin;
use voxel_heat::materials;
use voxel_heat::scenario::{fill_volume_with_test_material, fill_with_heat_source_and_sink};
use voxel_heat::types::{Coefficient, MaterialId, PhysicsMaterial, PhysicsPhase, Temperature};
use voxel_heat::volume::{Size, Volume};
use voxel_heat::voxel_material_lookup::VoxelMaterialLookup;

fn two_voxels(
    mat: PhysicsMaterial,
    t0: Temperature,
    t1: Temperature,
) -> (
    Volume<MaterialId>,
    Volume<Temperature>,
    Volume<Temperature>,
    VoxelMaterialLookup,
) {
    let size = Size { x: 2, y: 1, z: 1 };
    let mut lookup = VoxelMaterialLookup::new(4000);
    lookup.add(mat).unwrap();
    let material = Volume::new(size, 0);
    let mut temperature = Volume::new(size, 0);
    temperature.set(0, 0, 0, t0);
    temperature.set(1, 0, 0, t1);
    let heat = Volume::new(size, 0);
    (material, temperature, heat, lookup)
}

#[test]
fn pair_rate_matches_the_resistance_formula() {
    // same material: reciprocal g = 2 * 500_000 * 4000, combined
    // resistance 2/g, rate = (from - to) * g / 2
    let m = materials::iron().to_voxel_material(4000);
    assert_eq!(
        calculate_heat_transfer_voxel(&m, 300_000, &m, 100_000),
        200_000 * 2_000_000_000
    );
    assert_eq!(
        calculate_heat_transfer_voxel(&m, 100_000, &m, 300_000),
        -200_000 * 2_000_000_000
    );
    // unequal materials: rate = diff * gf * gt / (gf + gt), truncated
    let w = materials::wood_hard().to_voxel_material(4000);
    let gi: i128 = 4_000_000_000;
    let gw: i128 = 12_800_000;
    assert_eq!(
        calculate_heat_transfer_voxel(&w, 1, &m, 0),
        gi * gw / (gi + gw)
    );
}

#[test]
fn adjacent_contributions_are_antisymmetric() {
    let (material, temperature, mut heat, lookup) =
        two_voxels(materials::iron(), 200_000, 100_000);
    calculate_heat_transfer_volume(&material, &temperature, &mut heat, &lookup);
    let f0 = heat.get(0, 0, 0);
    let f1 = heat.get(1, 0, 0);
    assert_eq!(f0, -f1);
    assert_eq!(f0, -100_000 * 2_000_000_000);
}

#[test]
fn vacuum_neighbor_contributes_exactly_zero() {
    let vacuum = PhysicsMaterial {
        name: "Vacuum",
        phase: PhysicsPhase::Gas,
        specific_heat_capacity: Coefficient::Finite(10),
        thermal_conductivity: 500_000,
        density: 0,
        viscosity: Coefficient::Finite(0),
    };
    let size = Size { x: 2, y: 1, z: 1 };
    let mut lookup = VoxelMaterialLookup::new(4000);
    lookup.add(materials::iron()).unwrap();
    lookup.add(vacuum).unwrap();
    let mut material = Volume::new(size, 0);
    material.set(1, 0, 0, 1);
    let mut temperature = Volume::new(size, 0);
    temperature.set(0, 0, 0, 500_000);
    temperature.set(1, 0, 0, -500_000);
    let mut heat = Volume::new(size, 123);
    calculate_heat_transfer_volume(&material, &temperature, &mut heat, &lookup);
    assert_eq!(heat.get(0, 0, 0), 0);
    assert_eq!(heat.get(1, 0, 0), 0);
}

#[test]
fn center_voxel_sums_all_six_neighbor_contributions() {
    let size = Size { x: 3, y: 3, z: 3 };
    let mut lookup = VoxelMaterialLookup::new(4000);
    lookup.add(materials::iron()).unwrap();
    let material = Volume::new(size, 0);
    let mut temperature = Volume::new(size, 0);
    temperature.set(1, 1, 1, 600_000);
    let mut heat = Volume::new(size, 0);
    calculate_heat_transfer_volume(&material, &temperature, &mut heat, &lookup);
    // each of the six face neighbors pulls (0 - 600_000) * 2e9 watts
    assert_eq!(heat.get(1, 1, 1), 6 * -600_000 * 2_000_000_000);
    // a face neighbor sees only the hot center
    assert_eq!(heat.get(1, 1, 0), 600_000 * 2_000_000_000);
    assert_eq!(heat.get(1, 1, 2), 600_000 * 2_000_000_000);
    // a corner shares no face with the center
    assert_eq!(heat.get(0, 0, 0), 0);
}

#[test]
fn integrator_divides_energy_by_heat_capacity() {
    let (material, mut temperature, heat, lookup) = two_voxels(materials::iron(), 40, -40);
    let mut flux = heat;
    flux.set(0, 0, 0, 1_000_000_000_000_000_000_000_000);
    flux.set(1, 0, 0, -500_000_000_000_000_000_000_000);
    apply_heat_to_volume(&material, &mut temperature, &flux, &lookup, 100);
    // capacity of one iron voxel: 5_039_360_000_000_000 * 4_600_000
    let capacity: i128 = 23_181_056_000_000_000_000_000;
    assert_eq!(
        temperature.get(0, 0, 0),
        40 + 100_000_000_000_000_000_000_000_000 / capacity
    );
    assert_eq!(
        temperature.get(1, 0, 0),
        -40 - 50_000_000_000_000_000_000_000_000 / capacity
    );
}

#[test]
fn one_tick_integrates_flux_over_capacity() {
    let (material, mut temperature, mut heat, lookup) =
        two_voxels(materials::iron(), 1_000_000, 0);
    simulation_tick(&material, &mut temperature, &mut heat, &lookup, 1_000_000_000);
    // flux into the cold voxel: 1_000_000 * 2e9 = 2e15 W; energy over the
    // tick: 2e24 J; capacity: 78_740 * 64e9 * 4_600_000 ~ 2.3181056e22;
    // the temperature steps by the truncated quotient, 86.
    let capacity: i128 = 5_039_360_000_000_000 * 4_600_000;
    let delta = 2_000_000_000_000_000_000_000_000 / capacity;
    assert_eq!(delta, 86);
    assert_eq!(temperature.get(1, 0, 0), 86);
    assert_eq!(temperature.get(0, 0, 0), 1_000_000 - 86);
}

#[test]
fn pinned_voxel_temperature_never_changes() {
    // middle voxel pinned between a hot and a cold iron voxel
    let size = Size { x: 3, y: 1, z: 1 };
    let mut lookup = VoxelMaterialLookup::new(4000);
    lookup.add(materials::iron()).unwrap();
    lookup.add(materials::infinite_heat_capacity()).unwrap();
    let mut material = Volume::new(size, 0);
    material.set(1, 0, 0, 1);
    let mut temperature = Volume::new(size, 0);
    temperature.set(0, 0, 0, 900_000);
    temperature.set(1, 0, 0, 123_456);
    temperature.set(2, 0, 0, -900_000);
    let mut heat = Volume::new(size, 0);
    run_simulation(&material, &mut temperature, &mut heat, &lookup, 1_000_000_000, 500).unwrap();
    assert_eq!(temperature.get(1, 0, 0), 123_456);
    assert_ne!(temperature.get(0, 0, 0), 900_000);
}

#[test]
fn bounded_interior_on_the_demo_grid() {
    let size = Size { x: 5, y: 4, z: 3 };
    let lookup = materials::create_test_materials();
    let mut material = Volume::new(size, 0);
    let mut temperature = Volume::new(size, 0);
    fill_volume_with_test_material(&mut material, &lookup).unwrap();
    fill_with_heat_source_and_sink(&mut material, &mut temperature, &lookup).unwrap();
    let mut heat = Volume::new(size, 0);
    for _ in 0..200 {
        simulation_tick(&material, &mut temperature, &mut heat, &lookup, 1_000_000_000);
        for z in 0..3 {
            for y in 0..4 {
                for x in 0..5 {
                    let t = temperature.get(x, y, z);
                    assert!(kelvin::ABSOLUTE_ZERO <= t && t <= kelvin::TUNGSTEN_MELTING);
                }
            }
        }
    }
    assert_eq!(temperature.get(0, 0, 0), kelvin::ABSOLUTE_ZERO);
    assert_eq!(temperature.get(4, 3, 2), kelvin::TUNGSTEN_MELTING);
}

#[test]
fn two_voxels_approach_equilibrium_monotonically() {
    let (material, mut temperature, mut heat, lookup) =
        two_voxels(materials::iron(), 1_000_000, 0);
    let mut prev_gap: i128 = 1_000_000;
    for _ in 0..100 {
        simulation_tick(&material, &mut temperature, &mut heat, &lookup, 1_000_000_000);
        let a = temperature.get(0, 0, 0);
        let b = temperature.get(1, 0, 0);
        assert_eq!(a + b, 1_000_000);
        assert!(b <= a);
        let gap = a - b;
        assert!(gap <= prev_gap);
        prev_gap = gap;
    }
    assert!(prev_gap < 1_000_000);
}

#[test]
fn run_simulation_matches_repeated_ticks() {
    let (material, mut t_run, mut h_run, lookup) = two_voxels(materials::water(), 750_000, -250_000);
    let (_, mut t_tick, mut h_tick, _) = two_voxels(materials::water(), 750_000, -250_000);
    run_simulation(&material, &mut t_run, &mut h_run, &lookup, 500_000, 4).unwrap();
    for _ in 0..4 {
        simulation_tick(&material, &mut t_tick, &mut h_tick, &lookup, 500_000);
    }
    assert_eq!(t_run.get(0, 0, 0), t_tick.get(0, 0, 0));
    assert_eq!(t_run.get(1, 0, 0), t_tick.get(1, 0, 0));
}

#[test]
fn runaway_step_is_reported() {
    // a nearly massless but highly conductive foil is unstable at the
    // largest time step: the run stops with an explicit report
    let foil = PhysicsMaterial {
        name: "Foil",
        phase: PhysicsPhase::Solid,
        specific_heat_capacity: Coefficient::Finite(1),
        thermal_conductivity: 500_000,
        density: 1,
        viscosity: Coefficient::Infinite,
    };
    let (material, mut temperature, mut heat, lookup) =
        two_voxels(foil, 1_000_000_000_000, -1_000_000_000_000);
    let r = run_simulation(&material, &mut temperature, &mut heat, &lookup, 1_000_000_000, 5);
    assert_eq!(r, Err(HeatError::TemperatureOutOfRange));
    assert!(!temps_within_limit(&temperature));
}

#[test]
fn test_fill_assigns_iron_frame_and_wood_interior() {
    let size = Size { x: 5, y: 4, z: 3 };
    let lookup = materials::create_test_materials();
    let mut material = Volume::new(size, 0);
    fill_volume_with_test_material(&mut material, &lookup).unwrap();
    let iron = 3;
    let wood = 1;
    assert_eq!(material.get(0, 0, 0), iron); // corner: three boundary axes
    assert_eq!(material.get(0, 0, 1), iron); // edge: two boundary axes
    assert_eq!(material.get(2, 1, 0), wood); // face: one boundary axis
    assert_eq!(material.get(2, 1, 1), wood); // interior
    assert_eq!(
        fill_volume_with_test_material(&mut material, &VoxelMaterialLookup::new(1)),
        Err(HeatError::UnknownMaterial)
    );
}

#[test]
fn heat_source_and_sink_pin_the_extreme_cells() {
    let size = Size { x: 5, y: 4, z: 3 };
    let lookup = materials::create_test_materials();
    let mut material = Volume::new(size, 0);
    let mut temperature = Volume::new(size, 0);
    fill_volume_with_test_material(&mut material, &lookup).unwrap();
    fill_with_heat_source_and_sink(&mut material, &mut temperature, &lookup).unwrap();
    assert_eq!(material.get(0, 0, 0), 9);
    assert_eq!(material.get(4, 3, 2), 9);
    assert_eq!(temperature.get(0, 0, 0), kelvin::ABSOLUTE_ZERO);
    assert_eq!(temperature.get(4, 3, 2), kelvin::TUNGSTEN_MELTING);
    assert_eq!(temperature.get(2, 1, 1), kelvin::ROOM_TEMPERATURE);
}
