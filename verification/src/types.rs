//! Scalar units and material descriptions.
//!
//! Every physical quantity is a fixed-point integer in a unit scale chosen
//! consistently by the caller (for instance millimeters for lengths and
//! micro-kelvin for temperatures).  The limits below bound the inputs so
//! that every derived quantity and every stencil term is computed exactly,
//! with no possibility of overflow.

use vstd::prelude::*;

verus! {

/// Kelvin (fixed-point, caller's scale).
pub type Temperature = i128;

/// Joules per second.
pub type Power = i128;

/// Joules per second flowing into a voxel.
pub type HeatTransferRate = Power;

/// Seconds (fixed-point, caller's scale).
pub type Time = u64;

/// Meters (fixed-point, caller's scale).
pub type Length = u64;

/// Mass per unit volume.
pub type Density = u64;

/// Watts per meter-kelvin.
pub type ThermalConductivity = u64;

/// Mass of one voxel.
pub type Mass = u128;

/// Index into the material registry's derived-property table.
pub type MaterialId = u32;

/// Largest accepted voxel edge length.
pub const EDGE_LIMIT: u64 = 100_000;

/// Largest accepted thermal conductivity.
pub const CONDUCTIVITY_LIMIT: u64 = 10_000_000;

/// Largest accepted density.
pub const DENSITY_LIMIT: u64 = 1_000_000_000;

/// Largest accepted finite specific heat capacity.
pub const SPECIFIC_HEAT_LIMIT: u64 = 1_000_000_000;

/// Largest reciprocal resistance a registered material can have; equal to
/// `2 * CONDUCTIVITY_LIMIT * EDGE_LIMIT`.
pub const RECIPROCAL_LIMIT: u64 = 2_000_000_000_000;

/// Largest finite heat capacity a registered material can have; equal to
/// `DENSITY_LIMIT * EDGE_LIMIT * EDGE_LIMIT * EDGE_LIMIT * SPECIFIC_HEAT_LIMIT`.
pub const CAPACITY_LIMIT: u128 = 1_000_000_000_000_000_000_000_000_000_000_000;

/// Largest temperature magnitude on which the stencil arithmetic is exact.
pub const TEMPERATURE_LIMIT: i128 = 1_000_000_000_000;

/// Largest accepted time step.
pub const TIME_LIMIT: u64 = 1_000_000_000;

/// The phase a material is in.
#[derive(Clone, Copy, Debug, PartialEq, Eq, Structural)]
pub enum PhysicsPhase {
    Solid,
    Grain,
    Liquid,
    Gas,
}

/// A physical coefficient that is either a finite fixed-point scalar or
/// infinite.  Infinity is an intentional modeling device: an infinite
/// specific heat capacity pins a voxel's temperature.
#[derive(Clone, Copy, Debug, PartialEq, Eq, Structural)]
pub enum Coefficient {
    Finite(u64),
    Infinite,
}

/// Joules per kilogram-kelvin.
pub type SpecificHeatCapacity = Coefficient;

/// Centipoise; carried for completeness, unused by the solver.
pub type Viscosity = Coefficient;

/// Immutable macroscopic description of a material, supplied by
/// configuration.
#[derive(Clone, Copy, Debug)]
pub struct PhysicsMaterial {
    pub name: &'static str,
    pub phase: PhysicsPhase,
    pub specific_heat_capacity: SpecificHeatCapacity,
    pub thermal_conductivity: ThermalConductivity,
    pub density: Density,
    pub viscosity: Viscosity,
}

/// Thermal resistance across half a voxel's width, in kelvin per watt,
/// held exactly by its reciprocal in watts per kelvin: the value is
/// `1 / reciprocal`, and `reciprocal == 0` encodes the infinite resistance
/// of a zero-conductivity material (a perfect insulator).
#[derive(Clone, Copy, Debug, PartialEq, Eq, Structural)]
pub struct ThermalResistance {
    pub reciprocal: u64,
}

/// Joules per kelvin for one voxel; `Infinite` pins the voxel's
/// temperature (a fixed-temperature boundary condition).
#[derive(Clone, Copy, Debug, PartialEq, Eq, Structural)]
pub enum HeatCapacity {
    Finite(u128),
    Infinite,
}

/// Voxel-scale material properties, derived once from a `PhysicsMaterial`
/// at a fixed voxel edge length and immutable afterward.
#[derive(Clone, Copy, Debug, PartialEq, Eq, Structural)]
pub struct VoxelMaterial {
    pub phase: PhysicsPhase,
    pub mass: Mass,
    pub thermal_resistance: ThermalResistance,
    pub heat_capacity: HeatCapacity,
}

impl VoxelMaterial {
    /// Derived properties lie in the range on which the stencil
    /// arithmetic is exact; established by `to_voxel_material` for every
    /// well-formed macroscopic material.
    pub open spec fn wf(self) -> bool {
        &&& self.thermal_resistance.reciprocal <= RECIPROCAL_LIMIT
        &&& match self.heat_capacity {
            HeatCapacity::Finite(c) => c <= CAPACITY_LIMIT,
            HeatCapacity::Infinite => true,
        }
    }
}

impl PhysicsMaterial {
    /// The macroscopic constants lie within the accepted ranges.
    pub open spec fn wf(self) -> bool {
        &&& self.density <= DENSITY_LIMIT
        &&& self.thermal_conductivity <= CONDUCTIVITY_LIMIT
        &&& match self.specific_heat_capacity {
            Coefficient::Finite(c) => c <= SPECIFIC_HEAT_LIMIT,
            Coefficient::Infinite => true,
        }
    }

    /// The derived heat capacity: `mass * specific_heat_capacity`, where an
    /// infinite specific heat capacity yields an infinite capacity as long
    /// as there is any mass at all (a massless voxel never stores energy,
    /// so its capacity is zero whatever the coefficient says).
    pub open spec fn spec_derived_capacity(self, mass: int) -> HeatCapacity {
        match self.specific_heat_capacity {
            Coefficient::Infinite => if mass == 0 {
                HeatCapacity::Finite(0)
            } else {
                HeatCapacity::Infinite
            },
            Coefficient::Finite(c) => HeatCapacity::Finite((mass * c) as u128),
        }
    }

    /// The record that `to_voxel_material` computes, as a value.
    pub open spec fn spec_derived(self, length: int) -> VoxelMaterial {
        let mass = self.density * length * length * length;
        VoxelMaterial {
            phase: self.phase,
            mass: mass as u128,
            thermal_resistance: ThermalResistance {
                reciprocal: (2 * self.thermal_conductivity * length) as u64,
            },
            heat_capacity: self.spec_derived_capacity(mass),
        }
    }

    /// Derive voxel-scale properties at edge length `length`:
    /// `volume = length^3`, `mass = density * volume`,
    /// `thermal_resistance = 1 / (2 * thermal_conductivity * length)` (held
    /// by its reciprocal, exactly), and
    /// `heat_capacity = mass * specific_heat_capacity`.
    pub fn to_voxel_material(&self, length: Length) -> (m: VoxelMaterial)
        requires
            self.wf(),
            length <= EDGE_LIMIT,
        ensures
            m.phase == self.phase,
            m.mass == self.density * length * length * length,
            m.thermal_resistance.reciprocal == 2 * self.thermal_conductivity * length,
            m.heat_capacity == self.spec_derived_capacity(m.mass as int),
            m == self.spec_derived(length as int),
            m.wf(),
    {
        proof {
            assert(length * length <= EDGE_LIMIT * EDGE_LIMIT && length * length * length
                <= EDGE_LIMIT * EDGE_LIMIT * EDGE_LIMIT) by (nonlinear_arith)
                requires
                    length <= EDGE_LIMIT,
            {
            }
            assert(self.density * (length * length * length) <= DENSITY_LIMIT * (EDGE_LIMIT
                * EDGE_LIMIT * EDGE_LIMIT)) by (nonlinear_arith)
                requires
                    length * length * length <= EDGE_LIMIT * EDGE_LIMIT * EDGE_LIMIT,
                    self.density <= DENSITY_LIMIT,
            {
            }
            assert(self.density * (length * length * length) == self.density * length * length
                * length) by (nonlinear_arith);
            assert(2 * self.thermal_conductivity * length <= RECIPROCAL_LIMIT)
                by (nonlinear_arith)
                requires
                    self.thermal_conductivity <= CONDUCTIVITY_LIMIT,
                    length <= EDGE_LIMIT,
                    RECIPROCAL_LIMIT == 2 * CONDUCTIVITY_LIMIT * EDGE_LIMIT,
            {
            }
        }
        let volume: u64 = length * length * length;
        let mass: u128 = (self.density as u128) * (volume as u128);
        let heat_capacity = match self.specific_heat_capacity {
            Coefficient::Infinite => if mass == 0 {
                HeatCapacity::Finite(0)
            } else {
                HeatCapacity::Infinite
            },
            Coefficient::Finite(c) => {
                proof {
                    assert(mass * c <= 1_000_000_000_000_000_000_000_000u128
                        * SPECIFIC_HEAT_LIMIT) by (nonlinear_arith)
                        requires
                            mass <= 1_000_000_000_000_000_000_000_000u128,
                            c <= SPECIFIC_HEAT_LIMIT,
                    {
                    }
                }
                HeatCapacity::Finite(mass * (c as u128))
            },
        };
        VoxelMaterial {
            phase: self.phase,
            mass,
            thermal_resistance: ThermalResistance { reciprocal: 2 * self.thermal_conductivity * length },
            heat_capacity,
        }
    }
}

} // verus!
