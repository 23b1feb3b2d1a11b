//! The heat-diffusion stencil: a pure flux calculation over the current
//! material and temperature fields, an in-place integration step that
//! applies a flux field over a time step, and the two-phase simulation
//! loop that alternates them.
//!
//! The phases never interleave at voxel granularity: the whole flux field
//! for a tick is computed from one stable temperature snapshot before the
//! first temperature cell is touched.

use vstd::prelude::*;
use vstd::arithmetic::div_mod::{
    lemma_div_is_ordered, lemma_div_multiples_vanish, lemma_div_pos_is_pos,
    lemma_fundamental_div_mod,
};

use crate::errors::HeatError;
use crate::types::{
    HeatCapacity, HeatTransferRate, MaterialId, Temperature, Time, VoxelMaterial,
    RECIPROCAL_LIMIT, TEMPERATURE_LIMIT, TIME_LIMIT,
};
use crate::volume::{
    lemma_cell_index_in_range, lemma_cell_index_injective, lemma_index_of_coords, Size, Volume,
};
use crate::voxel_material_lookup::VoxelMaterialLookup;

verus! {

/// Largest magnitude of one neighbor's heat-transfer-rate contribution;
/// equal to `2 * TEMPERATURE_LIMIT * RECIPROCAL_LIMIT`.
pub const PAIR_RATE_LIMIT: i128 = 4_000_000_000_000_000_000_000_000;

/// Largest magnitude of a whole voxel's net heat-transfer rate, six
/// contributions; equal to `6 * PAIR_RATE_LIMIT`.
pub const RATE_LIMIT: i128 = 24_000_000_000_000_000_000_000_000;

/// Integer division rounded toward zero (for a positive divisor), the
/// rounding the executable arithmetic uses.
pub open spec fn div_toward_zero(a: int, b: int) -> int {
    if a >= 0 {
        a / b
    } else {
        -((-a) / b)
    }
}

/// Truncation toward zero is an odd function of the dividend.
pub proof fn lemma_div_toward_zero_neg(a: int, b: int)
    requires
        0 < b,
    ensures
        div_toward_zero(-a, b) == -div_toward_zero(a, b),
{
}

/// Instantaneous heat-transfer rate contributed by an adjacent voxel of
/// material `from` at temperature `from_t` to a voxel of material `to` at
/// temperature `to_t`.  It is exactly zero when either voxel is massless
/// (a vacuum conducts nothing) or perfectly insulating (infinite
/// resistance); otherwise it is
/// `(from_t - to_t) / (resistance(from) + resistance(to))`, evaluated
/// exactly over the resistances' reciprocals `gf` and `gt` as
/// `(from_t - to_t) * gf * gt / (gf + gt)`, truncated toward zero.
pub open spec fn spec_pair_rate(
    from: VoxelMaterial,
    from_t: int,
    to: VoxelMaterial,
    to_t: int,
) -> int {
    let gf = from.thermal_resistance.reciprocal as int;
    let gt = to.thermal_resistance.reciprocal as int;
    if from.mass == 0 || to.mass == 0 || gf == 0 || gt == 0 {
        0
    } else {
        div_toward_zero((from_t - to_t) * gf * gt, gf + gt)
    }
}

/// The contribution from a voxel to its neighbor and the contribution
/// from the neighbor back are exact negatives of each other: the combined
/// resistance is the same and the temperature difference changes sign.
pub proof fn lemma_pair_rate_antisymmetric(a: VoxelMaterial, ta: int, b: VoxelMaterial, tb: int)
    ensures
        spec_pair_rate(a, ta, b, tb) == -spec_pair_rate(b, tb, a, ta),
{
    let ga = a.thermal_resistance.reciprocal as int;
    let gb = b.thermal_resistance.reciprocal as int;
    if a.mass != 0 && b.mass != 0 && ga != 0 && gb != 0 {
        assert((ta - tb) * ga * gb == -((tb - ta) * gb * ga)) by (nonlinear_arith);
        lemma_div_toward_zero_neg((tb - ta) * gb * ga, gb + ga);
    }
}

/// A massless (vacuum) voxel neither gives nor receives any flux: with a
/// zero mass on either side the contribution is exactly zero.
pub proof fn lemma_zero_mass_no_rate(a: VoxelMaterial, ta: int, b: VoxelMaterial, tb: int)
    requires
        a.mass == 0 || b.mass == 0,
    ensures
        spec_pair_rate(a, ta, b, tb) == 0,
{
}

/// When both temperatures lie in `[lo, hi]`, the contribution received by
/// the `to` voxel lies between `(lo - to_t)` and `(hi - to_t)` times the
/// `to` material's reciprocal resistance.
pub proof fn lemma_pair_rate_bounds(
    from: VoxelMaterial,
    from_t: int,
    to: VoxelMaterial,
    to_t: int,
    lo: int,
    hi: int,
)
    requires
        lo <= from_t <= hi,
        lo <= to_t <= hi,
    ensures
        (lo - to_t) * to.thermal_resistance.reciprocal <= spec_pair_rate(from, from_t, to, to_t)
            <= (hi - to_t) * to.thermal_resistance.reciprocal,
{
    let gf = from.thermal_resistance.reciprocal as int;
    let gt = to.thermal_resistance.reciprocal as int;
    let r = spec_pair_rate(from, from_t, to, to_t);
    if from.mass == 0 || to.mass == 0 || gf == 0 || gt == 0 {
        assert((lo - to_t) * gt <= 0 <= (hi - to_t) * gt) by (nonlinear_arith)
            requires
                lo - to_t <= 0 <= hi - to_t,
                gt >= 0,
        {
        }
    } else {
        let d = from_t - to_t;
        if d >= 0 {
            let num = d * gf * gt;
            assert(num >= 0 && num <= (d * gt) * (gf + gt)) by (nonlinear_arith)
                requires
                    d >= 0,
                    gf > 0,
                    gt > 0,
                    num == d * gf * gt,
            {
            }
            lemma_div_pos_is_pos(num, gf + gt);
            lemma_div_is_ordered(num, (d * gt) * (gf + gt), gf + gt);
            lemma_div_multiples_vanish(d * gt, gf + gt);
            assert((d * gt) * (gf + gt) == (gf + gt) * (d * gt)) by (nonlinear_arith);
            assert(r <= d * gt);
            assert(d * gt <= (hi - to_t) * gt) by (nonlinear_arith)
                requires
                    d <= hi - to_t,
                    gt > 0,
            {
            }
            assert((lo - to_t) * gt <= 0) by (nonlinear_arith)
                requires
                    lo - to_t <= 0,
                    gt > 0,
            {
            }
        } else {
            let num = (-d) * gf * gt;
            assert(num >= 0 && num <= ((-d) * gt) * (gf + gt) && (-((from_t - to_t) * gf * gt))
                == num) by (nonlinear_arith)
                requires
                    d < 0,
                    gf > 0,
                    gt > 0,
                    num == (-d) * gf * gt,
                    d == from_t - to_t,
            {
            }
            lemma_div_pos_is_pos(num, gf + gt);
            lemma_div_is_ordered(num, ((-d) * gt) * (gf + gt), gf + gt);
            lemma_div_multiples_vanish((-d) * gt, gf + gt);
            assert(((-d) * gt) * (gf + gt) == (gf + gt) * ((-d) * gt)) by (nonlinear_arith);
            assert(r == -(num / (gf + gt)));
            assert(r >= -((-d) * gt));
            assert(-((-d) * gt) == d * gt) by (nonlinear_arith);
            assert((lo - to_t) * gt <= d * gt) by (nonlinear_arith)
                requires
                    lo - to_t <= d,
                    gt > 0,
            {
            }
            assert((hi - to_t) * gt >= 0) by (nonlinear_arith)
                requires
                    hi - to_t >= 0,
                    gt > 0,
            {
            }
        }
    }
}

/// Heat-transfer rate between two adjacent voxels, the exact value of
/// `spec_pair_rate`.
pub fn calculate_heat_transfer_voxel(
    from_mat: &VoxelMaterial,
    from_temp: Temperature,
    to_mat: &VoxelMaterial,
    to_temp: Temperature,
) -> (r: HeatTransferRate)
    requires
        from_mat.wf(),
        to_mat.wf(),
        -TEMPERATURE_LIMIT <= from_temp <= TEMPERATURE_LIMIT,
        -TEMPERATURE_LIMIT <= to_temp <= TEMPERATURE_LIMIT,
    ensures
        r == spec_pair_rate(*from_mat, from_temp as int, *to_mat, to_temp as int),
        -PAIR_RATE_LIMIT <= r <= PAIR_RATE_LIMIT,
{
    let gf = from_mat.thermal_resistance.reciprocal;
    let gt = to_mat.thermal_resistance.reciprocal;
    if from_mat.mass == 0 || to_mat.mass == 0 || gf == 0 || gt == 0 {
        return 0;
    }
    let diff: i128 = from_temp - to_temp;
    let mag: u128 = if diff >= 0 {
        diff as u128
    } else {
        (-diff) as u128
    };
    proof {
        assert((gf as u128) * (gt as u128) <= RECIPROCAL_LIMIT * RECIPROCAL_LIMIT)
            by (nonlinear_arith)
            requires
                0 < gf <= RECIPROCAL_LIMIT,
                0 < gt <= RECIPROCAL_LIMIT,
        {
        }
    }
    let prod: u128 = (gf as u128) * (gt as u128);
    proof {
        assert(mag * prod <= (2 * TEMPERATURE_LIMIT) * (RECIPROCAL_LIMIT * RECIPROCAL_LIMIT))
            by (nonlinear_arith)
            requires
                prod <= RECIPROCAL_LIMIT * RECIPROCAL_LIMIT,
                0 <= mag <= 2 * TEMPERATURE_LIMIT,
        {
        }
    }
    let num: u128 = mag * prod;
    let combined: u128 = (gf as u128) + (gt as u128);
    let q: u128 = num / combined;
    proof {
        lemma_fundamental_div_mod(num as int, combined as int);
        lemma_div_pos_is_pos(num as int, combined as int);
        assert(q <= PAIR_RATE_LIMIT) by (nonlinear_arith)
            requires
                num == mag * prod,
                prod == (gf as u128) * (gt as u128),
                0 <= mag <= 2 * TEMPERATURE_LIMIT,
                0 < gf <= RECIPROCAL_LIMIT,
                0 < gt <= RECIPROCAL_LIMIT,
                q >= 0,
                num == combined * q + (num as int % combined as int),
                num as int % combined as int >= 0,
                combined == gf + gt,
                PAIR_RATE_LIMIT == 4_000_000_000_000_000_000_000_000,
                TEMPERATURE_LIMIT == 1_000_000_000_000,
                RECIPROCAL_LIMIT == 2_000_000_000_000,
        {
            assert(q * gf <= q * combined);
            assert(q * combined <= num);
            assert(num == (mag * gt) * gf);
            assert(mag * gt <= (2 * 1_000_000_000_000) * 2_000_000_000_000);
        }
        if diff >= 0 {
            assert(num == (from_temp - to_temp) * gf * gt) by (nonlinear_arith)
                requires
                    num == mag * prod,
                    prod == (gf as u128) * (gt as u128),
                    mag == from_temp - to_temp,
            {
            }
        } else {
            assert(num == -((from_temp - to_temp) * gf * gt) && (from_temp - to_temp) * gf * gt
                < 0) by (nonlinear_arith)
                requires
                    num == mag * prod,
                    prod == (gf as u128) * (gt as u128),
                    mag == -(from_temp - to_temp),
                    from_temp - to_temp < 0,
                    gf > 0,
                    gt > 0,
            {
            }
        }
    }
    if diff >= 0 {
        q as i128
    } else {
        -(q as i128)
    }
}

/// Derived material of the voxel at linear cell index `i`.
pub open spec fn spec_material_at(
    lookup: VoxelMaterialLookup,
    material: Volume<MaterialId>,
    i: int,
) -> VoxelMaterial {
    lookup.materials@[material.data@[i] as int]
}

/// Every cell of the material field names a registered material.
pub open spec fn spec_ids_valid(material: Volume<MaterialId>, lookup: VoxelMaterialLookup) -> bool {
    forall|i: int|
        0 <= i < material.data@.len() ==> (#[trigger] material.data@[i]) < lookup.materials@.len()
}

/// Every temperature lies within the exact-arithmetic range.
pub open spec fn spec_temps_bounded(temps: Seq<i128>) -> bool {
    forall|i: int|
        0 <= i < temps.len() ==> -TEMPERATURE_LIMIT <= #[trigger] temps[i] <= TEMPERATURE_LIMIT
}

/// Every heat-transfer rate lies within the range a single stencil
/// evaluation can produce.
pub open spec fn spec_rates_bounded(rates: Seq<i128>) -> bool {
    forall|i: int| 0 <= i < rates.len() ==> -RATE_LIMIT <= #[trigger] rates[i] <= RATE_LIMIT
}

/// Heat-transfer rate flowing from the voxel at `(fx, fy, fz)` into the
/// voxel at `(tx, ty, tz)`.
pub open spec fn spec_rate_between(
    lookup: VoxelMaterialLookup,
    material: Volume<MaterialId>,
    temps: Seq<i128>,
    fx: int,
    fy: int,
    fz: int,
    tx: int,
    ty: int,
    tz: int,
) -> int {
    let s = material.size;
    spec_pair_rate(
        spec_material_at(lookup, material, s.cell_index(fx, fy, fz)),
        temps[s.cell_index(fx, fy, fz)] as int,
        spec_material_at(lookup, material, s.cell_index(tx, ty, tz)),
        temps[s.cell_index(tx, ty, tz)] as int,
    )
}

/// Net instantaneous heat-transfer rate into the voxel at `(x, y, z)`:
/// the sum of the contributions from its up-to-six in-bounds axis
/// neighbors.  Voxels on a grid boundary simply receive fewer terms (an
/// insulated boundary, neither wraparound nor mirrored).
pub open spec fn spec_flux_at(
    lookup: VoxelMaterialLookup,
    material: Volume<MaterialId>,
    temps: Seq<i128>,
    x: int,
    y: int,
    z: int,
) -> int {
    let s = material.size;
    (if x > 0 {
        spec_rate_between(lookup, material, temps, x - 1, y, z, x, y, z)
    } else {
        0
    }) + (if x + 1 < s.x {
        spec_rate_between(lookup, material, temps, x + 1, y, z, x, y, z)
    } else {
        0
    }) + (if y > 0 {
        spec_rate_between(lookup, material, temps, x, y - 1, z, x, y, z)
    } else {
        0
    }) + (if y + 1 < s.y {
        spec_rate_between(lookup, material, temps, x, y + 1, z, x, y, z)
    } else {
        0
    }) + (if z > 0 {
        spec_rate_between(lookup, material, temps, x, y, z - 1, x, y, z)
    } else {
        0
    }) + (if z + 1 < s.z {
        spec_rate_between(lookup, material, temps, x, y, z + 1, x, y, z)
    } else {
        0
    })
}

/// `heat` holds, for every in-bounds voxel, exactly the net rate that the
/// stencil computes from `material` and `temps`.
pub open spec fn spec_is_flux_field(
    heat: Volume<HeatTransferRate>,
    lookup: VoxelMaterialLookup,
    material: Volume<MaterialId>,
    temps: Seq<i128>,
) -> bool {
    forall|x: int, y: int, z: int|
        material.size.contains(x, y, z) ==> #[trigger] heat.spec_at(x, y, z) == spec_flux_at(
            lookup,
            material,
            temps,
            x,
            y,
            z,
        )
}

/// The flux field is fully computed for every cell whose linear index
/// lies below `bound` (the calculator's progress measure).
spec fn spec_flux_done_below(
    heat: Volume<HeatTransferRate>,
    lookup: VoxelMaterialLookup,
    material: Volume<MaterialId>,
    temps: Seq<i128>,
    bound: int,
) -> bool {
    forall|x: int, y: int, z: int|
        material.size.contains(x, y, z) && material.size.cell_index(x, y, z) < bound
            ==> #[trigger] heat.spec_at(x, y, z) == spec_flux_at(lookup, material, temps, x, y, z)
            && -RATE_LIMIT <= heat.spec_at(x, y, z) <= RATE_LIMIT
}

/// Fully recompute (overwrite, not accumulate) the flux field from the
/// current material and temperature fields.  Reads both input fields,
/// writes only `heat`, and populates every cell before any integration
/// step may consume it.
pub fn calculate_heat_transfer_volume(
    material: &Volume<MaterialId>,
    temperature: &Volume<Temperature>,
    heat: &mut Volume<HeatTransferRate>,
    lookup: &VoxelMaterialLookup,
)
    requires
        material.wf(),
        temperature.wf(),
        old(heat).wf(),
        lookup.wf(),
        temperature.size == material.size,
        old(heat).size == material.size,
        spec_ids_valid(*material, *lookup),
        spec_temps_bounded(temperature.data@),
    ensures
        final(heat).wf(),
        final(heat).size == material.size,
        spec_is_flux_field(*final(heat), *lookup, *material, temperature.data@),
        spec_rates_bounded(final(heat).data@),
{
    let s = material.size;
    proof {
        assert(s.cell_index(0, 0, 0) == 0) by (nonlinear_arith);
        assert forall|x2: int, y2: int, z2: int| s.contains(x2, y2, z2)
            implies s.cell_index(x2, y2, z2) >= 0 by {
            lemma_cell_index_in_range(s, x2, y2, z2);
        }
    }
    let mut z: usize = 0;
    while z < s.z
        invariant
            material.wf(),
            temperature.wf(),
            heat.wf(),
            lookup.wf(),
            material.size == s,
            temperature.size == s,
            heat.size == s,
            spec_ids_valid(*material, *lookup),
            spec_temps_bounded(temperature.data@),
            z <= s.z,
            spec_flux_done_below(
                *heat,
                *lookup,
                *material,
                temperature.data@,
                s.cell_index(0, 0, z as int),
            ),
        decreases s.z - z,
    {
        let mut y: usize = 0;
        while y < s.y
            invariant
                material.wf(),
                temperature.wf(),
                heat.wf(),
                lookup.wf(),
                material.size == s,
                temperature.size == s,
                heat.size == s,
                spec_ids_valid(*material, *lookup),
                spec_temps_bounded(temperature.data@),
                z < s.z,
                y <= s.y,
                spec_flux_done_below(
                    *heat,
                    *lookup,
                    *material,
                    temperature.data@,
                    s.cell_index(0, y as int, z as int),
                ),
            decreases s.y - y,
        {
            let mut x: usize = 0;
            while x < s.x
                invariant
                    material.wf(),
                    temperature.wf(),
                    heat.wf(),
                    lookup.wf(),
                    material.size == s,
                    temperature.size == s,
                    heat.size == s,
                    spec_ids_valid(*material, *lookup),
                    spec_temps_bounded(temperature.data@),
                    z < s.z,
                    y < s.y,
                    x <= s.x,
                    spec_flux_done_below(
                        *heat,
                        *lookup,
                        *material,
                        temperature.data@,
                        s.cell_index(x as int, y as int, z as int),
                    ),
                decreases s.x - x,
            {
                let rate = flux_for_voxel(material, temperature, lookup, x, y, z);
                heat.set(x, y, z, rate);
                proof {
                    lemma_cell_index_in_range(s, x as int, y as int, z as int);
                    assert forall|x2: int, y2: int, z2: int|
                        s.contains(x2, y2, z2) && s.cell_index(x2, y2, z2) < s.cell_index(
                            x as int,
                            y as int,
                            z as int,
                        ) + 1 implies #[trigger] heat.spec_at(x2, y2, z2) == spec_flux_at(
                        *lookup,
                        *material,
                        temperature.data@,
                        x2,
                        y2,
                        z2,
                    ) && -RATE_LIMIT <= heat.spec_at(x2, y2, z2) <= RATE_LIMIT by {
                        if s.cell_index(x2, y2, z2) == s.cell_index(x as int, y as int, z as int) {
                            lemma_cell_index_injective(
                                s,
                                x2,
                                y2,
                                z2,
                                x as int,
                                y as int,
                                z as int,
                            );
                        }
                    }
                    assert(s.cell_index(x as int + 1, y as int, z as int) == s.cell_index(
                        x as int,
                        y as int,
                        z as int,
                    ) + 1);
                }
                x = x + 1;
            }
            proof {
                assert(s.cell_index(s.x as int, y as int, z as int) == s.cell_index(
                    0,
                    y as int + 1,
                    z as int,
                )) by (nonlinear_arith);
            }
            y = y + 1;
        }
        proof {
            assert(s.cell_index(0, s.y as int, z as int) == s.cell_index(0, 0, z as int + 1))
                by (nonlinear_arith);
        }
        z = z + 1;
    }
    proof {
        assert forall|x2: int, y2: int, z2: int| s.contains(x2, y2, z2)
            implies #[trigger] heat.spec_at(x2, y2, z2) == spec_flux_at(
            *lookup,
            *material,
            temperature.data@,
            x2,
            y2,
            z2,
        ) by {
            lemma_cell_index_in_range(s, x2, y2, z2);
            assert(s.cell_index(0, 0, s.z as int) == s.spec_product()) by (nonlinear_arith);
        }
        assert forall|i: int| 0 <= i < heat.data@.len() implies -RATE_LIMIT
            <= #[trigger] heat.data@[i] <= RATE_LIMIT by {
            lemma_index_of_coords(s, i);
            assert(s.cell_index(0, 0, s.z as int) == s.spec_product()) by (nonlinear_arith);
            assert(heat.spec_at(s.coord_x(i), s.coord_y(i), s.coord_z(i)) == heat.data@[i]);
        }
    }
}

/// New temperature of one voxel after receiving heat at `rate` for `dt`
/// seconds: the absorbed energy is `rate * dt` joules, and the
/// temperature changes by `energy / heat_capacity`, truncated toward
/// zero.  A voxel with infinite heat capacity keeps its temperature
/// exactly — the sole mechanism for pinning a boundary voxel — and so
/// does the degenerate zero capacity of a massless voxel (which receives
/// no flux anyway).
pub open spec fn spec_apply_cell(t: int, rate: int, cap: HeatCapacity, dt: int) -> int {
    match cap {
        HeatCapacity::Infinite => t,
        HeatCapacity::Finite(c) => if c == 0 {
            t
        } else {
            t + div_toward_zero(rate * dt, c as int)
        },
    }
}

/// Advance the temperature field by one time step `time`, in place,
/// consuming a fully computed flux field: for every voxel,
/// `temperature += (flux * time) / heat_capacity`, with pinned
/// (infinite-capacity) voxels left exactly unchanged.
pub fn apply_heat_to_volume(
    material: &Volume<MaterialId>,
    temperature: &mut Volume<Temperature>,
    heat: &Volume<HeatTransferRate>,
    material_lookup: &VoxelMaterialLookup,
    time: Time,
)
    requires
        material.wf(),
        old(temperature).wf(),
        heat.wf(),
        material_lookup.wf(),
        old(temperature).size == material.size,
        heat.size == material.size,
        spec_ids_valid(*material, *material_lookup),
        spec_temps_bounded(old(temperature).data@),
        spec_rates_bounded(heat.data@),
        time <= TIME_LIMIT,
    ensures
        final(temperature).wf(),
        final(temperature).size == material.size,
        forall|i: int|
            0 <= i < old(temperature).data@.len() ==> #[trigger] final(temperature).data@[i]
                == spec_apply_cell(
                old(temperature).data@[i] as int,
                heat.data@[i] as int,
                spec_material_at(*material_lookup, *material, i).heat_capacity,
                time as int,
            ),
{
    let n = temperature.data.len();
    let mut i: usize = 0;
    while i < n
        invariant
            material.wf(),
            temperature.wf(),
            heat.wf(),
            material_lookup.wf(),
            temperature.size == material.size,
            heat.size == material.size,
            spec_ids_valid(*material, *material_lookup),
            spec_temps_bounded(old(temperature).data@),
            spec_rates_bounded(heat.data@),
            time <= TIME_LIMIT,
            n == temperature.data@.len(),
            temperature.data@.len() == old(temperature).data@.len(),
            i <= n,
            forall|j: int|
                0 <= j < i ==> #[trigger] temperature.data@[j] == spec_apply_cell(
                    old(temperature).data@[j] as int,
                    heat.data@[j] as int,
                    spec_material_at(*material_lookup, *material, j).heat_capacity,
                    time as int,
                ),
            forall|j: int|
                i <= j < n ==> #[trigger] temperature.data@[j] == old(temperature).data@[j],
        decreases n - i,
    {
        let id = material.data[i];
        let mat = material_lookup.materials[id as usize];
        match mat.heat_capacity {
            HeatCapacity::Infinite => {},
            HeatCapacity::Finite(c) => if c > 0 {
                let rate = heat.data[i];
                proof {
                    assert(-(RATE_LIMIT * TIME_LIMIT) <= rate * (time as i128) <= RATE_LIMIT
                        * TIME_LIMIT) by (nonlinear_arith)
                        requires
                            -RATE_LIMIT <= rate <= RATE_LIMIT,
                            0 <= time <= TIME_LIMIT,
                    {
                    }
                }
                let energy: i128 = rate * (time as i128);
                let mag: u128 = if energy >= 0 {
                    energy as u128
                } else {
                    (-energy) as u128
                };
                let q: u128 = mag / c;
                proof {
                    lemma_fundamental_div_mod(mag as int, c as int);
                    lemma_div_pos_is_pos(mag as int, c as int);
                    assert(q <= mag) by (nonlinear_arith)
                        requires
                            mag == c * q + (mag as int % c as int),
                            mag as int % c as int >= 0,
                            q >= 0,
                            c >= 1,
                    {
                    }
                }
                let dtemp: i128 = if energy >= 0 {
                    q as i128
                } else {
                    -(q as i128)
                };
                let t = temperature.data[i];
                temperature.data[i] = t + dtemp;
            },
        }
        i = i + 1;
    }
}

/// The temperature field after one calculate-then-apply tick on the
/// snapshot `temps`.
pub open spec fn spec_tick(
    lookup: VoxelMaterialLookup,
    material: Volume<MaterialId>,
    temps: Seq<i128>,
    dt: int,
) -> Seq<i128> {
    Seq::new(
        temps.len(),
        |i: int|
            {
                let s = material.size;
                spec_apply_cell(
                    temps[i] as int,
                    spec_flux_at(lookup, material, temps, s.coord_x(i), s.coord_y(i), s.coord_z(i)),
                    spec_material_at(lookup, material, i).heat_capacity,
                    dt,
                ) as i128
            },
    )
}

/// The temperature field after `n` complete ticks.
pub open spec fn spec_run(
    lookup: VoxelMaterialLookup,
    material: Volume<MaterialId>,
    temps: Seq<i128>,
    dt: int,
    n: nat,
) -> Seq<i128>
    decreases n,
{
    if n == 0 {
        temps
    } else {
        spec_tick(lookup, material, spec_run(lookup, material, temps, dt, (n - 1) as nat), dt)
    }
}

/// One simulation tick: fully refresh the flux field from the current
/// temperature snapshot, then apply it to the temperature field over
/// `time` seconds.  The calculate phase and the apply phase never
/// overlap: every flux cell is computed against the same stable snapshot
/// before the first temperature cell is written.
pub fn simulation_tick(
    material: &Volume<MaterialId>,
    temperature: &mut Volume<Temperature>,
    heat: &mut Volume<HeatTransferRate>,
    lookup: &VoxelMaterialLookup,
    time: Time,
)
    requires
        material.wf(),
        old(temperature).wf(),
        old(heat).wf(),
        lookup.wf(),
        old(temperature).size == material.size,
        old(heat).size == material.size,
        spec_ids_valid(*material, *lookup),
        spec_temps_bounded(old(temperature).data@),
        time <= TIME_LIMIT,
    ensures
        final(temperature).wf(),
        final(temperature).size == material.size,
        final(heat).wf(),
        final(heat).size == material.size,
        spec_is_flux_field(*final(heat), *lookup, *material, old(temperature).data@),
        final(temperature).data@ == spec_tick(
            *lookup,
            *material,
            old(temperature).data@,
            time as int,
        ),
{
    calculate_heat_transfer_volume(material, temperature, heat, lookup);
    apply_heat_to_volume(material, temperature, heat, lookup, time);
    proof {
        let s = material.size;
        let t0 = old(temperature).data@;
        let result = spec_tick(*lookup, *material, t0, time as int);
        assert forall|i: int| 0 <= i < t0.len() implies temperature.data@[i] == result[i] by {
            lemma_index_of_coords(s, i);
            assert(heat.spec_at(s.coord_x(i), s.coord_y(i), s.coord_z(i)) == heat.data@[i]);
        }
        assert(temperature.data@ =~= result);
    }
}

/// Whether every temperature lies within the exact-arithmetic range.
pub fn temps_within_limit(temperature: &Volume<Temperature>) -> (r: bool)
    ensures
        r == spec_temps_bounded(temperature.data@),
{
    let n = temperature.data.len();
    let mut i: usize = 0;
    while i < n
        invariant
            i <= n,
            n == temperature.data@.len(),
            forall|j: int|
                0 <= j < i ==> -TEMPERATURE_LIMIT <= #[trigger] temperature.data@[j]
                    <= TEMPERATURE_LIMIT,
        decreases n - i,
    {
        let t = temperature.data[i];
        if t < -TEMPERATURE_LIMIT || t > TEMPERATURE_LIMIT {
            proof {
                assert(!(-TEMPERATURE_LIMIT <= temperature.data@[i as int] <= TEMPERATURE_LIMIT));
            }
            return false;
        }
        i = i + 1;
    }
    true
}

/// Drive the simulation for `ticks` ticks, alternating the flux
/// calculation and the integration step.  This is explicit forward-Euler
/// integration: numerical stability depends on the caller choosing a
/// `time` step small enough for the grid and materials, and no stability
/// check or adaptive control is performed.  What is checked, after every
/// tick, is that each temperature still lies in the exact-arithmetic
/// range; a violation stops the run and is reported, never silently
/// mitigated.
pub fn run_simulation(
    material: &Volume<MaterialId>,
    temperature: &mut Volume<Temperature>,
    heat: &mut Volume<HeatTransferRate>,
    lookup: &VoxelMaterialLookup,
    time: Time,
    ticks: usize,
) -> (r: Result<(), HeatError>)
    requires
        material.wf(),
        old(temperature).wf(),
        old(heat).wf(),
        lookup.wf(),
        old(temperature).size == material.size,
        old(heat).size == material.size,
        spec_ids_valid(*material, *lookup),
        spec_temps_bounded(old(temperature).data@),
        time <= TIME_LIMIT,
    ensures
        final(temperature).wf(),
        final(temperature).size == material.size,
        final(heat).wf(),
        final(heat).size == material.size,
        match r {
            Ok(()) => {
                &&& final(temperature).data@ == spec_run(
                    *lookup,
                    *material,
                    old(temperature).data@,
                    time as int,
                    ticks as nat,
                )
                &&& forall|k: nat|
                    k <= ticks ==> spec_temps_bounded(
                        #[trigger] spec_run(
                            *lookup,
                            *material,
                            old(temperature).data@,
                            time as int,
                            k,
                        ),
                    )
                &&& ticks == 0 ==> *final(heat) == *old(heat)
                &&& ticks > 0 ==> spec_is_flux_field(
                    *final(heat),
                    *lookup,
                    *material,
                    spec_run(
                        *lookup,
                        *material,
                        old(temperature).data@,
                        time as int,
                        (ticks - 1) as nat,
                    ),
                )
            },
            Err(e) => {
                &&& e == HeatError::TemperatureOutOfRange
                &&& exists|k: nat|
                    {
                        &&& k < ticks
                        &&& final(temperature).data@ == #[trigger] spec_run(
                            *lookup,
                            *material,
                            old(temperature).data@,
                            time as int,
                            (k + 1) as nat,
                        )
                        &&& !spec_temps_bounded(
                            spec_run(
                                *lookup,
                                *material,
                                old(temperature).data@,
                                time as int,
                                (k + 1) as nat,
                            ),
                        )
                        &&& forall|j: nat|
                            j <= k ==> spec_temps_bounded(
                                #[trigger] spec_run(
                                    *lookup,
                                    *material,
                                    old(temperature).data@,
                                    time as int,
                                    j,
                                ),
                            )
                    }
            },
        },
{
    let mut k: usize = 0;
    while k < ticks
        invariant
            material.wf(),
            temperature.wf(),
            heat.wf(),
            lookup.wf(),
            temperature.size == material.size,
            heat.size == material.size,
            spec_ids_valid(*material, *lookup),
            spec_temps_bounded(old(temperature).data@),
            time <= TIME_LIMIT,
            k <= ticks,
            temperature.data@ == spec_run(
                *lookup,
                *material,
                old(temperature).data@,
                time as int,
                k as nat,
            ),
            spec_temps_bounded(temperature.data@),
            forall|j: nat|
                j <= k ==> spec_temps_bounded(
                    #[trigger] spec_run(*lookup, *material, old(temperature).data@, time as int, j),
                ),
            k == 0 ==> *heat == *old(heat),
            k > 0 ==> spec_is_flux_field(
                *heat,
                *lookup,
                *material,
                spec_run(*lookup, *material, old(temperature).data@, time as int, (k - 1) as nat),
            ),
        decreases ticks - k,
    {
        simulation_tick(material, temperature, heat, lookup, time);
        k = k + 1;
        proof {
            assert(temperature.data@ == spec_run(
                *lookup,
                *material,
                old(temperature).data@,
                time as int,
                k as nat,
            ));
        }
        if !temps_within_limit(temperature) {
            proof {
                let ghost kk: nat = (k - 1) as nat;
                assert((kk + 1) as nat == k as nat);
                assert(temperature.data@ == spec_run(
                    *lookup,
                    *material,
                    old(temperature).data@,
                    time as int,
                    (kk + 1) as nat,
                ));
            }
            return Err(HeatError::TemperatureOutOfRange);
        }
    }
    Ok(())
}

/// Ticks preserve the temperature field's length.
pub proof fn lemma_run_len(
    lookup: VoxelMaterialLookup,
    material: Volume<MaterialId>,
    temps: Seq<i128>,
    dt: int,
    n: nat,
)
    ensures
        spec_run(lookup, material, temps, dt, n).len() == temps.len(),
    decreases n,
{
    if n > 0 {
        lemma_run_len(lookup, material, temps, dt, (n - 1) as nat);
    }
}

/// A voxel of an infinite-heat-capacity material retains its initial
/// temperature exactly, unchanged, after any number of ticks, regardless
/// of neighboring flux: the sole mechanism for pinning a boundary
/// temperature.
pub proof fn lemma_pinned_voxel_invariant(
    lookup: VoxelMaterialLookup,
    material: Volume<MaterialId>,
    temps: Seq<i128>,
    dt: int,
    n: nat,
    i: int,
)
    requires
        0 <= i < temps.len(),
        spec_material_at(lookup, material, i).heat_capacity is Infinite,
    ensures
        spec_run(lookup, material, temps, dt, n)[i] == temps[i],
    decreases n,
{
    if n > 0 {
        lemma_pinned_voxel_invariant(lookup, material, temps, dt, (n - 1) as nat, i);
        lemma_run_len(lookup, material, temps, dt, (n - 1) as nat);
        let prev = spec_run(lookup, material, temps, dt, (n - 1) as nat);
        assert(spec_tick(lookup, material, prev, dt)[i] == (prev[i] as int) as i128);
    }
}

/// A material is stable for a time step `dt` when its heat capacity is
/// at least `6 * dt` times its reciprocal resistance.  Under that bound
/// the heat a voxel can exchange with its six neighbors in one tick never
/// overshoots the temperature band of its surroundings (the explicit
/// forward-Euler stability condition for this stencil).
pub open spec fn spec_stable_material(m: VoxelMaterial, dt: int) -> bool {
    match m.heat_capacity {
        HeatCapacity::Infinite => true,
        HeatCapacity::Finite(c) => c >= 6 * dt * m.thermal_resistance.reciprocal,
    }
}

/// One cell's integration step stays inside `[lo, hi]` when its flux is
/// bounded by its surroundings' band and its material is stable.
proof fn lemma_apply_cell_bounded(
    t: int,
    flux: int,
    cap: HeatCapacity,
    g: int,
    dt: int,
    lo: int,
    hi: int,
)
    requires
        lo <= t <= hi,
        g >= 0,
        dt >= 0,
        6 * (lo - t) * g <= flux <= 6 * (hi - t) * g,
        cap matches HeatCapacity::Finite(c) ==> c >= 6 * dt * g,
    ensures
        lo <= spec_apply_cell(t, flux, cap, dt) <= hi,
{
    match cap {
        HeatCapacity::Infinite => {},
        HeatCapacity::Finite(c) => {
            if c > 0 {
                let e = flux * dt;
                if flux >= 0 {
                    assert(0 <= e && e <= (hi - t) * c) by (nonlinear_arith)
                        requires
                            e == flux * dt,
                            0 <= flux <= 6 * (hi - t) * g,
                            dt >= 0,
                            g >= 0,
                            c >= 6 * dt * g,
                            hi - t >= 0,
                    {
                        assert(e <= (6 * (hi - t) * g) * dt);
                        assert((6 * (hi - t) * g) * dt == (hi - t) * (6 * dt * g));
                        assert((hi - t) * (6 * dt * g) <= (hi - t) * c);
                    }
                    lemma_div_pos_is_pos(e, c as int);
                    lemma_fundamental_div_mod(e, c as int);
                    let q = e / (c as int);
                    assert(q <= hi - t) by (nonlinear_arith)
                        requires
                            e == (c as int) * q + e % (c as int),
                            e % (c as int) >= 0,
                            e <= (hi - t) * c,
                            c > 0,
                            q >= 0,
                    {
                        assert(q * c <= e);
                        assert(q * c <= (hi - t) * c);
                    }
                    assert(spec_apply_cell(t, flux, cap, dt) == t + q);
                } else {
                    let m = -e;
                    assert(0 <= m && m <= (t - lo) * c) by (nonlinear_arith)
                        requires
                            m == -(flux * dt),
                            6 * (lo - t) * g <= flux < 0,
                            dt >= 0,
                            g >= 0,
                            c >= 6 * dt * g,
                            t - lo >= 0,
                    {
                        assert(-flux <= -(6 * (lo - t) * g));
                        assert(-(6 * (lo - t) * g) == 6 * (t - lo) * g);
                        assert(m == (-flux) * dt);
                        assert(m <= (6 * (t - lo) * g) * dt);
                        assert((6 * (t - lo) * g) * dt == (t - lo) * (6 * dt * g));
                        assert((t - lo) * (6 * dt * g) <= (t - lo) * c);
                    }
                    lemma_div_pos_is_pos(m, c as int);
                    lemma_fundamental_div_mod(m, c as int);
                    let q = m / (c as int);
                    assert(q <= t - lo) by (nonlinear_arith)
                        requires
                            m == (c as int) * q + m % (c as int),
                            m % (c as int) >= 0,
                            m <= (t - lo) * c,
                            c > 0,
                            q >= 0,
                    {
                        assert(q * c <= m);
                        assert(q * c <= (t - lo) * c);
                    }
                    assert(spec_apply_cell(t, flux, cap, dt) == t - q);
                }
            }
        },
    }
}

/// The net flux into an in-bounds voxel lies within six times its own
/// reciprocal resistance times the surrounding temperature band.
proof fn lemma_flux_bounded(
    lookup: VoxelMaterialLookup,
    material: Volume<MaterialId>,
    temps: Seq<i128>,
    lo: int,
    hi: int,
    x: int,
    y: int,
    z: int,
)
    requires
        temps.len() == material.size.spec_product(),
        material.data@.len() == material.size.spec_product(),
        spec_ids_valid(material, lookup),
        material.size.contains(x, y, z),
        forall|i: int| 0 <= i < temps.len() ==> lo <= #[trigger] temps[i] <= hi,
    ensures
        ({
            let s = material.size;
            let t = temps[s.cell_index(x, y, z)] as int;
            let g = spec_material_at(
                lookup,
                material,
                s.cell_index(x, y, z),
            ).thermal_resistance.reciprocal as int;
            6 * (lo - t) * g <= spec_flux_at(lookup, material, temps, x, y, z) <= 6 * (hi - t) * g
        }),
{
    let s = material.size;
    lemma_cell_index_in_range(s, x, y, z);
    let i = s.cell_index(x, y, z);
    let t = temps[i] as int;
    let to = spec_material_at(lookup, material, i);
    let g = to.thermal_resistance.reciprocal as int;
    assert(lo <= t <= hi);
    assert forall|fx: int, fy: int, fz: int| s.contains(fx, fy, fz) implies (lo - t) * g
        <= #[trigger] spec_rate_between(lookup, material, temps, fx, fy, fz, x, y, z)
        && spec_rate_between(
        lookup,
        material,
        temps,
        fx,
        fy,
        fz,
        x,
        y,
        z,
    ) <= (hi - t) * g by {
        lemma_cell_index_in_range(s, fx, fy, fz);
        lemma_pair_rate_bounds(
            spec_material_at(lookup, material, s.cell_index(fx, fy, fz)),
            temps[s.cell_index(fx, fy, fz)] as int,
            to,
            t,
            lo,
            hi,
        );
    }
    assert((lo - t) * g <= 0 <= (hi - t) * g) by (nonlinear_arith)
        requires
            lo - t <= 0 <= hi - t,
            g >= 0,
    {
    }
    let r1 = if x > 0 {
        spec_rate_between(lookup, material, temps, x - 1, y, z, x, y, z)
    } else {
        0
    };
    let r2 = if x + 1 < s.x {
        spec_rate_between(lookup, material, temps, x + 1, y, z, x, y, z)
    } else {
        0
    };
    let r3 = if y > 0 {
        spec_rate_between(lookup, material, temps, x, y - 1, z, x, y, z)
    } else {
        0
    };
    let r4 = if y + 1 < s.y {
        spec_rate_between(lookup, material, temps, x, y + 1, z, x, y, z)
    } else {
        0
    };
    let r5 = if z > 0 {
        spec_rate_between(lookup, material, temps, x, y, z - 1, x, y, z)
    } else {
        0
    };
    let r6 = if z + 1 < s.z {
        spec_rate_between(lookup, material, temps, x, y, z + 1, x, y, z)
    } else {
        0
    };
    assert(spec_flux_at(lookup, material, temps, x, y, z) == r1 + r2 + r3 + r4 + r5 + r6);
    assert((lo - t) * g <= r1 <= (hi - t) * g);
    assert((lo - t) * g <= r2 <= (hi - t) * g);
    assert((lo - t) * g <= r3 <= (hi - t) * g);
    assert((lo - t) * g <= r4 <= (hi - t) * g);
    assert((lo - t) * g <= r5 <= (hi - t) * g);
    assert((lo - t) * g <= r6 <= (hi - t) * g);
    assert(6 * (lo - t) * g == 6 * ((lo - t) * g) && 6 * (hi - t) * g == 6 * ((hi - t) * g))
        by (nonlinear_arith);
}

/// Bounded-interior invariant for one tick: when every temperature lies
/// in `[lo, hi]` and every voxel's material is stable for `dt`, no
/// temperature leaves `[lo, hi]`.  In particular, a grid whose extremes
/// are pinned voxels keeps every voxel between the pinned values.
pub proof fn lemma_tick_bounded(
    lookup: VoxelMaterialLookup,
    material: Volume<MaterialId>,
    temps: Seq<i128>,
    dt: int,
    lo: int,
    hi: int,
)
    requires
        temps.len() == material.size.spec_product(),
        material.data@.len() == material.size.spec_product(),
        spec_ids_valid(material, lookup),
        dt >= 0,
        -TEMPERATURE_LIMIT <= lo <= hi <= TEMPERATURE_LIMIT,
        forall|i: int| 0 <= i < temps.len() ==> lo <= #[trigger] temps[i] <= hi,
        forall|i: int|
            0 <= i < temps.len() ==> spec_stable_material(
                #[trigger] spec_material_at(lookup, material, i),
                dt,
            ),
    ensures
        forall|i: int|
            0 <= i < temps.len() ==> lo <= #[trigger] spec_tick(lookup, material, temps, dt)[i]
                <= hi,
{
    let s = material.size;
    assert forall|i: int| 0 <= i < temps.len() implies lo <= #[trigger] spec_tick(
        lookup,
        material,
        temps,
        dt,
    )[i] <= hi by {
        lemma_index_of_coords(s, i);
        let x = s.coord_x(i);
        let y = s.coord_y(i);
        let z = s.coord_z(i);
        lemma_flux_bounded(lookup, material, temps, lo, hi, x, y, z);
        let cap = spec_material_at(lookup, material, i).heat_capacity;
        let g = spec_material_at(lookup, material, i).thermal_resistance.reciprocal as int;
        lemma_apply_cell_bounded(
            temps[i] as int,
            spec_flux_at(lookup, material, temps, x, y, z),
            cap,
            g,
            dt,
            lo,
            hi,
        );
        assert(spec_tick(lookup, material, temps, dt)[i] == spec_apply_cell(
            temps[i] as int,
            spec_flux_at(lookup, material, temps, x, y, z),
            cap,
            dt,
        ) as i128);
    }
}

/// Bounded-interior invariant for a whole run: under the same stability
/// condition, any number of ticks keeps every temperature within the
/// initial band `[lo, hi]` — for instance within `[min_pinned,
/// max_pinned]` when the extremes are pinned boundary voxels.
pub proof fn lemma_run_bounded(
    lookup: VoxelMaterialLookup,
    material: Volume<MaterialId>,
    temps: Seq<i128>,
    dt: int,
    lo: int,
    hi: int,
    n: nat,
)
    requires
        temps.len() == material.size.spec_product(),
        material.data@.len() == material.size.spec_product(),
        spec_ids_valid(material, lookup),
        dt >= 0,
        -TEMPERATURE_LIMIT <= lo <= hi <= TEMPERATURE_LIMIT,
        forall|i: int| 0 <= i < temps.len() ==> lo <= #[trigger] temps[i] <= hi,
        forall|i: int|
            0 <= i < temps.len() ==> spec_stable_material(
                #[trigger] spec_material_at(lookup, material, i),
                dt,
            ),
    ensures
        forall|i: int|
            0 <= i < temps.len() ==> lo <= #[trigger] spec_run(lookup, material, temps, dt, n)[i]
                <= hi,
    decreases n,
{
    if n > 0 {
        lemma_run_bounded(lookup, material, temps, dt, lo, hi, (n - 1) as nat);
        lemma_run_len(lookup, material, temps, dt, (n - 1) as nat);
        lemma_tick_bounded(
            lookup,
            material,
            spec_run(lookup, material, temps, dt, (n - 1) as nat),
            dt,
            lo,
            hi,
        );
    }
}

/// Core step bound for a symmetric exchange: the truncated temperature
/// change is nonnegative and at most half the gap.
proof fn lemma_half_gap_step(ta: int, tb: int, f: int, c: int, g: int, dt: int)
    requires
        ta <= tb,
        0 <= f <= (tb - ta) * g,
        g >= 0,
        dt >= 0,
        c >= 6 * dt * g,
        c > 0,
    ensures
        0 <= div_toward_zero(f * dt, c),
        2 * div_toward_zero(f * dt, c) <= tb - ta,
{
    let e = f * dt;
    assert(0 <= e && 6 * e <= (tb - ta) * c) by (nonlinear_arith)
        requires
            e == f * dt,
            0 <= f <= (tb - ta) * g,
            g >= 0,
            dt >= 0,
            c >= 6 * dt * g,
            ta <= tb,
    {
        assert(e <= ((tb - ta) * g) * dt);
        assert(6 * e <= 6 * (((tb - ta) * g) * dt));
        assert(6 * (((tb - ta) * g) * dt) == (tb - ta) * (6 * dt * g));
        assert((tb - ta) * (6 * dt * g) <= (tb - ta) * c);
    }
    lemma_div_pos_is_pos(e, c);
    lemma_fundamental_div_mod(e, c);
    let q = e / c;
    assert(6 * q <= tb - ta) by (nonlinear_arith)
        requires
            e == c * q + e % c,
            e % c >= 0,
            6 * e <= (tb - ta) * c,
            c > 0,
            q >= 0,
    {
        assert(q * c <= e);
        assert(6 * (q * c) <= (tb - ta) * c);
        assert((6 * q) * c <= (tb - ta) * c);
    }
}

/// Two-voxel equilibrium, one tick: on a 2-by-1-by-1 grid whose two
/// voxels share one (stable) material, a tick conserves the sum of the
/// two temperatures exactly, moves each temperature toward the other,
/// and never lets them cross — monotone approach to the average with no
/// oscillation.
pub proof fn lemma_two_voxel_tick(
    lookup: VoxelMaterialLookup,
    material: Volume<MaterialId>,
    temps: Seq<i128>,
    dt: int,
)
    requires
        material.size == (Size { x: 2, y: 1, z: 1 }),
        material.data@.len() == 2,
        temps.len() == 2,
        spec_ids_valid(material, lookup),
        material.data@[0] == material.data@[1],
        spec_stable_material(spec_material_at(lookup, material, 0), dt),
        dt >= 0,
        -TEMPERATURE_LIMIT <= temps[0] <= TEMPERATURE_LIMIT,
        -TEMPERATURE_LIMIT <= temps[1] <= TEMPERATURE_LIMIT,
    ensures
        ({
            let after = spec_tick(lookup, material, temps, dt);
            &&& after.len() == 2
            &&& after[0] + after[1] == temps[0] + temps[1]
            &&& temps[0] <= temps[1] ==> temps[0] <= after[0] && after[0] <= after[1] && after[1]
                <= temps[1]
            &&& temps[1] <= temps[0] ==> temps[1] <= after[1] && after[1] <= after[0] && after[0]
                <= temps[0]
        }),
{
    let s = material.size;
    let m = spec_material_at(lookup, material, 0);
    let cap = m.heat_capacity;
    let g = m.thermal_resistance.reciprocal as int;
    let t0 = temps[0] as int;
    let t1 = temps[1] as int;
    assert(s.cell_index(0, 0, 0) == 0 && s.cell_index(1, 0, 0) == 1) by (nonlinear_arith)
        requires
            s == (Size { x: 2usize, y: 1usize, z: 1usize }),
    {
    }
    assert(s.coord_x(0) == 0 && s.coord_y(0) == 0 && s.coord_z(0) == 0 && s.coord_x(1) == 1
        && s.coord_y(1) == 0 && s.coord_z(1) == 0) by (nonlinear_arith)
        requires
            s == (Size { x: 2usize, y: 1usize, z: 1usize }),
    {
    }
    let f0 = spec_flux_at(lookup, material, temps, 0, 0, 0);
    let f1 = spec_flux_at(lookup, material, temps, 1, 0, 0);
    assert(f0 == spec_pair_rate(m, t1, m, t0));
    assert(f1 == spec_pair_rate(m, t0, m, t1));
    lemma_pair_rate_antisymmetric(m, t0, m, t1);
    let after = spec_tick(lookup, material, temps, dt);
    assert(after[0] == spec_apply_cell(t0, f0, cap, dt) as i128);
    assert(after[1] == spec_apply_cell(t1, f1, cap, dt) as i128);
    match cap {
        HeatCapacity::Infinite => {},
        HeatCapacity::Finite(c) => {
            if c > 0 {
                assert((-f0) * dt == -(f0 * dt)) by (nonlinear_arith);
                lemma_div_toward_zero_neg(f0 * dt, c as int);
                if t0 <= t1 {
                    lemma_pair_rate_bounds(m, t1, m, t0, t0, t1);
                    assert((t0 - t0) * g == 0) by (nonlinear_arith);
                    lemma_half_gap_step(t0, t1, f0, c as int, g, dt);
                } else {
                    lemma_pair_rate_bounds(m, t0, m, t1, t1, t0);
                    assert((t1 - t1) * g == 0) by (nonlinear_arith);
                    lemma_half_gap_step(t1, t0, f1, c as int, g, dt);
                    assert(f1 * dt == -(f0 * dt)) by (nonlinear_arith)
                        requires
                            f1 == -f0,
                    {
                    }
                }
            }
        },
    }
}

/// Two-voxel equilibrium over a whole run: at every tick count the sum
/// of the two temperatures is still the initial sum, both temperatures
/// lie between the initial pair, their ordering never flips, and the
/// next tick moves each of them (weakly) closer to the other.
pub proof fn lemma_two_voxel_run(
    lookup: VoxelMaterialLookup,
    material: Volume<MaterialId>,
    temps: Seq<i128>,
    dt: int,
    n: nat,
)
    requires
        material.size == (Size { x: 2, y: 1, z: 1 }),
        material.data@.len() == 2,
        temps.len() == 2,
        spec_ids_valid(material, lookup),
        material.data@[0] == material.data@[1],
        spec_stable_material(spec_material_at(lookup, material, 0), dt),
        dt >= 0,
        -TEMPERATURE_LIMIT <= temps[0] <= TEMPERATURE_LIMIT,
        -TEMPERATURE_LIMIT <= temps[1] <= TEMPERATURE_LIMIT,
    ensures
        ({
            let after = spec_run(lookup, material, temps, dt, n);
            let next = spec_run(lookup, material, temps, dt, n + 1);
            &&& after.len() == 2
            &&& after[0] + after[1] == temps[0] + temps[1]
            &&& temps[0] <= temps[1] ==> temps[0] <= after[0] && after[0] <= next[0] && next[0]
                <= next[1] && next[1] <= after[1] && after[1] <= temps[1]
            &&& temps[1] <= temps[0] ==> temps[1] <= after[1] && after[1] <= next[1] && next[1]
                <= next[0] && next[0] <= after[0] && after[0] <= temps[0]
        }),
    decreases n,
{
    let after = spec_run(lookup, material, temps, dt, n);
    if n == 0 {
        lemma_two_voxel_tick(lookup, material, temps, dt);
        assert(spec_run(lookup, material, temps, dt, 1) == spec_tick(
            lookup,
            material,
            spec_run(lookup, material, temps, dt, 0),
            dt,
        ));
    } else {
        let prev = spec_run(lookup, material, temps, dt, (n - 1) as nat);
        lemma_two_voxel_run(lookup, material, temps, dt, (n - 1) as nat);
        assert(after == spec_tick(lookup, material, prev, dt));
        lemma_two_voxel_tick(lookup, material, prev, dt);
        lemma_two_voxel_tick(lookup, material, after, dt);
        assert(spec_run(lookup, material, temps, dt, n + 1) == spec_tick(
            lookup,
            material,
            after,
            dt,
        ));
    }
}

/// Net heat-transfer rate into the voxel at `(x, y, z)`, the exact value
/// of `spec_flux_at`.
#[verifier::rlimit(60)]
fn flux_for_voxel(
    material: &Volume<MaterialId>,
    temperature: &Volume<Temperature>,
    lookup: &VoxelMaterialLookup,
    x: usize,
    y: usize,
    z: usize,
) -> (rate: HeatTransferRate)
    requires
        material.wf(),
        temperature.wf(),
        lookup.wf(),
        temperature.size == material.size,
        spec_ids_valid(*material, *lookup),
        spec_temps_bounded(temperature.data@),
        material.size.contains(x as int, y as int, z as int),
    ensures
        rate == spec_flux_at(*lookup, *material, temperature.data@, x as int, y as int, z as int),
        -RATE_LIMIT <= rate <= RATE_LIMIT,
{
    let s = material.size;
    proof {
        lemma_cell_index_in_range(s, x as int, y as int, z as int);
    }
    let to_mat = lookup.materials[material.get(x, y, z) as usize];
    let to_temp = temperature.get(x, y, z);
    let mut rate: i128 = 0;
    if x > 0 {
        proof {
            lemma_cell_index_in_range(s, x as int - 1, y as int, z as int);
        }
        let from_mat = lookup.materials[material.get(x - 1, y, z) as usize];
        let from_temp = temperature.get(x - 1, y, z);
        rate = rate + calculate_heat_transfer_voxel(&from_mat, from_temp, &to_mat, to_temp);
    }
    if x + 1 < s.x {
        proof {
            lemma_cell_index_in_range(s, x as int + 1, y as int, z as int);
        }
        let from_mat = lookup.materials[material.get(x + 1, y, z) as usize];
        let from_temp = temperature.get(x + 1, y, z);
        rate = rate + calculate_heat_transfer_voxel(&from_mat, from_temp, &to_mat, to_temp);
    }
    if y > 0 {
        proof {
            lemma_cell_index_in_range(s, x as int, y as int - 1, z as int);
        }
        let from_mat = lookup.materials[material.get(x, y - 1, z) as usize];
        let from_temp = temperature.get(x, y - 1, z);
        rate = rate + calculate_heat_transfer_voxel(&from_mat, from_temp, &to_mat, to_temp);
    }
    if y + 1 < s.y {
        proof {
            lemma_cell_index_in_range(s, x as int, y as int + 1, z as int);
        }
        let from_mat = lookup.materials[material.get(x, y + 1, z) as usize];
        let from_temp = temperature.get(x, y + 1, z);
        rate = rate + calculate_heat_transfer_voxel(&from_mat, from_temp, &to_mat, to_temp);
    }
    if z > 0 {
        proof {
            lemma_cell_index_in_range(s, x as int, y as int, z as int - 1);
        }
        let from_mat = lookup.materials[material.get(x, y, z - 1) as usize];
        let from_temp = temperature.get(x, y, z - 1);
        rate = rate + calculate_heat_transfer_voxel(&from_mat, from_temp, &to_mat, to_temp);
    }
    if z + 1 < s.z {
        proof {
            lemma_cell_index_in_range(s, x as int, y as int, z as int + 1);
        }
        let from_mat = lookup.materials[material.get(x, y, z + 1) as usize];
        let from_temp = temperature.get(x, y, z + 1);
        rate = rate + calculate_heat_transfer_voxel(&from_mat, from_temp, &to_mat, to_temp);
    }
    rate
}

} // verus!
