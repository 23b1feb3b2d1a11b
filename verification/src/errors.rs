//! Error conditions surfaced by the simulator.

use vstd::prelude::*;

verus! {

/// Everything that a caller can be told explicitly instead of a crash:
/// a coordinate outside the grid, a material name that was never
/// registered, a second registration under an existing name, and a
/// temperature leaving the range on which the solver's fixed-width
/// arithmetic is exact.
#[derive(Clone, Copy, Debug, PartialEq, Eq, Structural)]
pub enum HeatError {
    /// A grid access used a coordinate outside the grid's dimensions.
    OutOfBounds,
    /// A registry lookup used a name that was never registered.
    UnknownMaterial,
    /// A registration reused a name that is already registered.
    DuplicateMaterial,
    /// An integration step drove some voxel's temperature outside the
    /// representable range.
    TemperatureOutOfRange,
}

} // verus!
