//! Flat addressing of the dense world grid.
//!
//! The grid is one buffer of `WORLD_CELLS` cells, addressed by a computed
//! linear index from `(x, y, z)`; these helpers and lemmas relate the linear
//! index to the coordinates.

use vstd::prelude::*;
use vstd::arithmetic::div_mod::lemma_fundamental_div_mod;
use vstd::arithmetic::div_mod::lemma_fundamental_div_mod_converse_div;
use vstd::arithmetic::div_mod::lemma_fundamental_div_mod_converse_mod;
use vstd::arithmetic::div_mod::lemma_mod_division_less_than_divisor;

verus! {

/// Number of cells in the world grid.
pub const WORLD_CELLS: usize = 128 * 64 * 128;

/// Number of columns in the world grid.
pub const WORLD_COLS: usize = 128 * 128;

/// Whether `(x, y, z)` lies inside the world bounds.
pub open spec fn in_bounds(x: int, y: int, z: int) -> bool {
    0 <= x < 128 && 0 <= y < 64 && 0 <= z < 128
}

/// Linear index of the column `(x, z)` in a column-indexed buffer.
pub open spec fn col_index(x: int, z: int) -> int {
    x * 128 + z
}

/// Linear index of the cell `(x, y, z)` in the world buffer.
pub open spec fn cell_index(x: int, y: int, z: int) -> int {
    x * 8192 + y * 128 + z
}

/// The x coordinate of the cell at linear index `i`.
pub open spec fn cell_x(i: int) -> int {
    i / 8192
}

/// The y coordinate of the cell at linear index `i`.
pub open spec fn cell_y(i: int) -> int {
    (i / 128) % 64
}

/// The z coordinate of the cell at linear index `i`.
pub open spec fn cell_z(i: int) -> int {
    i % 128
}

/// The linear index of an in-bounds cell is in range and recovers its
/// coordinates.
pub proof fn lemma_cell_index_coords(x: int, y: int, z: int)
    requires
        in_bounds(x, y, z),
    ensures
        0 <= cell_index(x, y, z) < WORLD_CELLS,
        cell_x(cell_index(x, y, z)) == x,
        cell_y(cell_index(x, y, z)) == y,
        cell_z(cell_index(x, y, z)) == z,
{
    let i = cell_index(x, y, z);
    lemma_fundamental_div_mod_converse_div(i, 8192, x, y * 128 + z);
    lemma_fundamental_div_mod_converse_div(i, 128, x * 64 + y, z);
    lemma_fundamental_div_mod_converse_mod(i, 128, x * 64 + y, z);
    lemma_fundamental_div_mod_converse_mod(x * 64 + y, 64, x, y);
}

/// Every linear index in range is the index of the in-bounds cell whose
/// coordinates it recovers.
pub proof fn lemma_coords_cell_index(i: int)
    requires
        0 <= i < WORLD_CELLS,
    ensures
        in_bounds(cell_x(i), cell_y(i), cell_z(i)),
        cell_index(cell_x(i), cell_y(i), cell_z(i)) == i,
{
    let q1 = i / 128;
    let r1 = i % 128;
    lemma_fundamental_div_mod(i, 128);
    lemma_mod_division_less_than_divisor(i, 128);
    let x = q1 / 64;
    let y = q1 % 64;
    lemma_fundamental_div_mod(q1, 64);
    lemma_mod_division_less_than_divisor(q1, 64);
    assert(i == x * 8192 + (y * 128 + r1));
    lemma_fundamental_div_mod_converse_div(i, 8192, x, y * 128 + r1);
}

/// The column index of an in-bounds column is in range and recovers its
/// coordinates by division and remainder.
pub proof fn lemma_col_index_coords(x: int, z: int)
    requires
        0 <= x < 128,
        0 <= z < 128,
    ensures
        0 <= col_index(x, z) < WORLD_COLS,
        col_index(x, z) / 128 == x,
        col_index(x, z) % 128 == z,
{
    lemma_fundamental_div_mod_converse_div(col_index(x, z), 128, x, z);
    lemma_fundamental_div_mod_converse_mod(col_index(x, z), 128, x, z);
}

/// Executable form of `cell_index`, bounds-checked by its contract.
pub fn cell_at(x: usize, y: usize, z: usize) -> (i: usize)
    requires
        in_bounds(x as int, y as int, z as int),
    ensures
        i == cell_index(x as int, y as int, z as int),
        i < WORLD_CELLS,
{
    proof {
        lemma_cell_index_coords(x as int, y as int, z as int);
    }
    x * 8192 + y * 128 + z
}

/// Executable form of `col_index`, bounds-checked by its contract.
pub fn col_at(x: usize, z: usize) -> (i: usize)
    requires
        x < 128,
        z < 128,
    ensures
        i == col_index(x as int, z as int),
        i < WORLD_COLS,
{
    x * 128 + z
}

} // verus!
