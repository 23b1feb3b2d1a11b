//! Reference temperatures, in micro-kelvin (the temperature scale the
//! example scenarios and materials use).

use vstd::prelude::*;

use crate::types::Temperature;

verus! {

/// 0 K.
pub const ABSOLUTE_ZERO: Temperature = 0;

/// 293.15 K (20 degrees Celsius).
pub const ROOM_TEMPERATURE: Temperature = 293_150_000;

/// 3695 K, the melting point of tungsten.
pub const TUNGSTEN_MELTING: Temperature = 3_695_000_000;

} // verus!
