//! Generic dense 3-dimensional storage with linear indexing.
//!
//! A `Volume<T>` is a flat vector of `size.x * size.y * size.z` cells.
//! Coordinate `(x, y, z)` lives at linear index `(z * size.y + y) * size.x + x`,
//! a bijection between in-bounds coordinates and `[0, size.x * size.y * size.z)`.

use vstd::prelude::*;
use vstd::arithmetic::div_mod::{
    lemma_fundamental_div_mod_converse_div, lemma_fundamental_div_mod_converse_mod,
};

use crate::errors::HeatError;

verus! {

/// Grid dimensions along the three axes.
#[derive(Clone, Copy, Debug, PartialEq, Eq, Structural)]
pub struct Size {
    pub x: usize,
    pub y: usize,
    pub z: usize,
}

impl Size {
    /// Number of cells in a grid with these dimensions.
    pub open spec fn spec_product(self) -> int {
        self.x * self.y * self.z
    }

    /// The cell count and its intermediate product fit in `usize`, so the
    /// linear index of every in-bounds coordinate is computable.
    pub open spec fn wf(self) -> bool {
        &&& self.x * self.y <= usize::MAX
        &&& self.x * self.y * self.z <= usize::MAX
    }

    /// Whether `(x, y, z)` lies inside a grid with these dimensions.
    pub open spec fn contains(self, x: int, y: int, z: int) -> bool {
        &&& 0 <= x < self.x
        &&& 0 <= y < self.y
        &&& 0 <= z < self.z
    }

    /// Linear index of coordinate `(x, y, z)`.
    pub open spec fn cell_index(self, x: int, y: int, z: int) -> int {
        (z * self.y + y) * self.x + x
    }

    /// X coordinate of the cell at linear index `i` (dimensions positive).
    pub open spec fn coord_x(self, i: int) -> int {
        i % (self.x as int)
    }

    /// Y coordinate of the cell at linear index `i` (dimensions positive).
    pub open spec fn coord_y(self, i: int) -> int {
        (i / (self.x as int)) % (self.y as int)
    }

    /// Z coordinate of the cell at linear index `i` (dimensions positive).
    pub open spec fn coord_z(self, i: int) -> int {
        i / (self.x * self.y)
    }

    /// Total number of cells.
    pub fn product(&self) -> (r: usize)
        requires
            self.wf(),
        ensures
            r == self.spec_product(),
    {
        self.x * self.y * self.z
    }
}

/// Every in-bounds coordinate maps to a linear index inside the grid.
pub proof fn lemma_cell_index_in_range(s: Size, x: int, y: int, z: int)
    requires
        s.contains(x, y, z),
    ensures
        0 <= s.cell_index(x, y, z) < s.spec_product(),
{
    assert(0 <= (z * s.y + y) * s.x + x < s.x * s.y * s.z) by (nonlinear_arith)
        requires
            0 <= x < s.x,
            0 <= y < s.y,
            0 <= z < s.z,
    {
    }
}

/// No two distinct in-bounds coordinates share a linear index: together
/// with `lemma_cell_index_in_range` and `lemma_coords_of_index`, the
/// indexing formula is a bijection onto `[0, size.x * size.y * size.z)`.
pub proof fn lemma_cell_index_injective(
    s: Size,
    x1: int,
    y1: int,
    z1: int,
    x2: int,
    y2: int,
    z2: int,
)
    requires
        s.contains(x1, y1, z1),
        s.contains(x2, y2, z2),
        s.cell_index(x1, y1, z1) == s.cell_index(x2, y2, z2),
    ensures
        x1 == x2,
        y1 == y2,
        z1 == z2,
{
    let i = s.cell_index(x1, y1, z1);
    lemma_fundamental_div_mod_converse_mod(i, s.x as int, z1 * s.y + y1, x1);
    lemma_fundamental_div_mod_converse_mod(i, s.x as int, z2 * s.y + y2, x2);
    lemma_fundamental_div_mod_converse_div(i, s.x as int, z1 * s.y + y1, x1);
    lemma_fundamental_div_mod_converse_div(i, s.x as int, z2 * s.y + y2, x2);
    let q = i / (s.x as int);
    lemma_fundamental_div_mod_converse_mod(q, s.y as int, z1, y1);
    lemma_fundamental_div_mod_converse_mod(q, s.y as int, z2, y2);
    lemma_fundamental_div_mod_converse_div(q, s.y as int, z1, y1);
    lemma_fundamental_div_mod_converse_div(q, s.y as int, z2, y2);
}

/// The linear index inverts back to the coordinates it was built from.
pub proof fn lemma_coords_of_index(s: Size, x: int, y: int, z: int)
    requires
        s.contains(x, y, z),
    ensures
        s.coord_x(s.cell_index(x, y, z)) == x,
        s.coord_y(s.cell_index(x, y, z)) == y,
        s.coord_z(s.cell_index(x, y, z)) == z,
{
    let i = s.cell_index(x, y, z);
    lemma_fundamental_div_mod_converse_mod(i, s.x as int, z * s.y + y, x);
    lemma_fundamental_div_mod_converse_div(i, s.x as int, z * s.y + y, x);
    let q = i / (s.x as int);
    lemma_fundamental_div_mod_converse_mod(q, s.y as int, z, y);
    lemma_fundamental_div_mod_converse_div(q, s.y as int, z, y);
    assert(i == z * (s.x * s.y) + (y * s.x + x)) by (nonlinear_arith)
        requires
            i == (z * s.y + y) * s.x + x,
    {
    }
    assert(0 <= y * s.x + x < s.x * s.y) by (nonlinear_arith)
        requires
            0 <= x < s.x,
            0 <= y < s.y,
    {
    }
    lemma_fundamental_div_mod_converse_div(i, s.x * s.y, z, y * s.x + x);
}

/// Every linear index inside the grid comes from an in-bounds coordinate.
pub proof fn lemma_index_of_coords(s: Size, i: int)
    requires
        0 <= i < s.spec_product(),
    ensures
        s.contains(s.coord_x(i), s.coord_y(i), s.coord_z(i)),
        s.cell_index(s.coord_x(i), s.coord_y(i), s.coord_z(i)) == i,
{
    assert(s.x > 0 && s.y > 0 && s.z > 0) by (nonlinear_arith)
        requires
            0 <= i < s.x * s.y * s.z,
    {
    }
    let x = s.coord_x(i);
    let q = i / (s.x as int);
    let y = s.coord_y(i);
    let z = i / (s.x * s.y);
    vstd::arithmetic::div_mod::lemma_fundamental_div_mod(i, s.x as int);
    vstd::arithmetic::div_mod::lemma_mod_bound(i, s.x as int);
    vstd::arithmetic::div_mod::lemma_fundamental_div_mod(q, s.y as int);
    vstd::arithmetic::div_mod::lemma_mod_bound(q, s.y as int);
    vstd::arithmetic::div_mod::lemma_fundamental_div_mod(i, s.x * s.y);
    vstd::arithmetic::div_mod::lemma_mod_bound(i, s.x * s.y);
    assert(i == (q / (s.y as int) * s.y + y) * s.x + x) by (nonlinear_arith)
        requires
            i == (s.x as int) * q + x,
            q == q / (s.y as int) * s.y + y,
    {
    }
    assert(q / (s.y as int) == z && z < s.z) by (nonlinear_arith)
        requires
            i == (s.x as int) * q + x,
            0 <= x < s.x,
            q == q / (s.y as int) * s.y + y,
            0 <= y < s.y,
            i == (s.x * s.y) * z + i % (s.x * s.y),
            0 <= i % (s.x * s.y) < s.x * s.y,
            0 <= i < s.x * s.y * s.z,
            s.x > 0,
            s.y > 0,
            s.z > 0,
    {
    }
}

/// Stepping one cell in z moves the linear index by exactly
/// `size.x * size.y`; the analogous strides in y and x are `size.x` and `1`.
pub proof fn lemma_neighbor_strides(s: Size, x: int, y: int, z: int)
    ensures
        s.cell_index(x + 1, y, z) == s.cell_index(x, y, z) + 1,
        s.cell_index(x, y + 1, z) == s.cell_index(x, y, z) + s.x,
        s.cell_index(x, y, z + 1) == s.cell_index(x, y, z) + s.x * s.y,
{
    assert((z * s.y + (y + 1)) * s.x + x == (z * s.y + y) * s.x + x + s.x) by (nonlinear_arith);
    assert(((z + 1) * s.y + y) * s.x + x == (z * s.y + y) * s.x + x + s.x * s.y)
        by (nonlinear_arith);
}

/// Generic dense 3-D array with linear indexing.  The flat `data` vector
/// always holds exactly `size.x * size.y * size.z` cells; it is created
/// once with a fill value, mutated only through single-cell writes, and
/// never resized.
#[derive(Debug, Clone)]
pub struct Volume<T> {
    pub size: Size,
    pub data: Vec<T>,
}

impl<T: Copy> Volume<T> {
    /// The flat storage matches the dimensions exactly.
    pub open spec fn wf(self) -> bool {
        &&& self.size.wf()
        &&& self.data@.len() == self.size.spec_product()
    }

    /// Cell value at in-bounds coordinate `(x, y, z)`.
    pub open spec fn spec_at(self, x: int, y: int, z: int) -> T {
        self.data@[self.size.cell_index(x, y, z)]
    }

    /// Create a grid with every cell set to `initial_value`.
    pub fn new(size: Size, initial_value: T) -> (r: Self)
        requires
            size.wf(),
        ensures
            r.wf(),
            r.size == size,
            forall|i: int| 0 <= i < r.data@.len() ==> r.data@[i] == initial_value,
    {
        let n = size.product();
        let mut data: Vec<T> = Vec::new();
        while data.len() < n
            invariant
                data@.len() <= n,
                forall|i: int| 0 <= i < data@.len() ==> data@[i] == initial_value,
            decreases n - data@.len(),
        {
            data.push(initial_value);
        }
        Volume { size, data }
    }

    /// Linear index of in-bounds coordinate `(x, y, z)`.
    pub fn index(&self, x: usize, y: usize, z: usize) -> (i: usize)
        requires
            self.wf(),
            self.size.contains(x as int, y as int, z as int),
        ensures
            i == self.size.cell_index(x as int, y as int, z as int),
            i < self.data@.len(),
    {
        proof {
            lemma_cell_index_in_range(self.size, x as int, y as int, z as int);
            assert(z * self.size.y + y < self.size.y * self.size.z
                <= self.size.x * self.size.y * self.size.z) by (nonlinear_arith)
                requires
                    x < self.size.x,
                    y < self.size.y,
                    z < self.size.z,
            {
            }
        }
        (z * self.size.y + y) * self.size.x + x
    }

    /// Copy of the value at in-bounds coordinate `(x, y, z)`.
    pub fn get(&self, x: usize, y: usize, z: usize) -> (v: T)
        requires
            self.wf(),
            self.size.contains(x as int, y as int, z as int),
        ensures
            v == self.spec_at(x as int, y as int, z as int),
    {
        let i = self.index(x, y, z);
        self.data[i]
    }

    /// Overwrite the value at in-bounds coordinate `(x, y, z)`; every other
    /// cell is untouched.
    pub fn set(&mut self, x: usize, y: usize, z: usize, value: T)
        requires
            old(self).wf(),
            old(self).size.contains(x as int, y as int, z as int),
        ensures
            final(self).wf(),
            final(self).size == old(self).size,
            final(self).data@ == old(self).data@.update(
                old(self).size.cell_index(x as int, y as int, z as int),
                value,
            ),
            final(self).spec_at(x as int, y as int, z as int) == value,
            forall|x2: int, y2: int, z2: int|
                old(self).size.contains(x2, y2, z2) && (x2 != x || y2 != y || z2 != z)
                    ==> #[trigger] final(self).spec_at(x2, y2, z2) == old(self).spec_at(
                    x2,
                    y2,
                    z2,
                ),
    {
        let i = self.index(x, y, z);
        self.data[i] = value;
        proof {
            assert forall|x2: int, y2: int, z2: int|
                old(self).size.contains(x2, y2, z2) && (x2 != x || y2 != y || z2 != z)
                    implies #[trigger] self.spec_at(x2, y2, z2) == old(self).spec_at(
                x2,
                y2,
                z2,
            ) by {
                lemma_cell_index_in_range(old(self).size, x2, y2, z2);
                if old(self).size.cell_index(x2, y2, z2) == i {
                    lemma_cell_index_injective(
                        old(self).size,
                        x2,
                        y2,
                        z2,
                        x as int,
                        y as int,
                        z as int,
                    );
                }
            }
        }
    }

    /// Checked read: an out-of-range coordinate is reported instead of
    /// violating a precondition, for callers outside verified code.
    pub fn try_get(&self, x: usize, y: usize, z: usize) -> (r: Result<T, HeatError>)
        requires
            self.wf(),
        ensures
            match r {
                Ok(v) => self.size.contains(x as int, y as int, z as int) && v == self.spec_at(
                    x as int,
                    y as int,
                    z as int,
                ),
                Err(e) => e == HeatError::OutOfBounds && !self.size.contains(
                    x as int,
                    y as int,
                    z as int,
                ),
            },
    {
        if x < self.size.x && y < self.size.y && z < self.size.z {
            Ok(self.get(x, y, z))
        } else {
            Err(HeatError::OutOfBounds)
        }
    }

    /// Checked write, the counterpart of `try_get`.
    pub fn try_set(&mut self, x: usize, y: usize, z: usize, value: T) -> (r: Result<
        (),
        HeatError,
    >)
        requires
            old(self).wf(),
        ensures
            final(self).wf(),
            final(self).size == old(self).size,
            match r {
                Ok(()) => old(self).size.contains(x as int, y as int, z as int)
                    && final(self).data@ == old(self).data@.update(
                    old(self).size.cell_index(x as int, y as int, z as int),
                    value,
                ),
                Err(e) => e == HeatError::OutOfBounds && !old(self).size.contains(
                    x as int,
                    y as int,
                    z as int,
                ) && *final(self) == *old(self),
            },
    {
        if x < self.size.x && y < self.size.y && z < self.size.z {
            self.set(x, y, z, value);
            Ok(())
        } else {
            Err(HeatError::OutOfBounds)
        }
    }
}

} // verus!
