//! Cell indexing of the 3-D FDTD validator grid: cells are stored with `z`
//! varying fastest, then `y`, then `x`.

use vstd::prelude::*;
use vstd::arithmetic::div_mod::lemma_fundamental_div_mod;
use vstd::arithmetic::div_mod::lemma_fundamental_div_mod_converse;

verus! {

/// The storage position of cell `(x, y, z)` in a grid of `ny * nz` cells per `x`-slice.
pub open spec fn cell_index(ny: int, nz: int, x: int, y: int, z: int) -> int {
    x * ny * nz + y * nz + z
}

/// The cell stored at position `i`.
pub open spec fn cell_coords(ny: int, nz: int, i: int) -> (int, int, int) {
    (i / (ny * nz), (i % (ny * nz)) / nz, i % nz)
}

/// Storage position of cell `(x, y, z)`.
pub fn grid_index(ny: usize, nz: usize, x: usize, y: usize, z: usize) -> (r: usize)
    requires
        x * ny <= usize::MAX,
        y * nz <= usize::MAX,
        cell_index(ny as int, nz as int, x as int, y as int, z as int) <= usize::MAX,
    ensures
        r == cell_index(ny as int, nz as int, x as int, y as int, z as int),
{
    assert(0 <= x * ny * nz) by (nonlinear_arith);
    assert(0 <= y * nz) by (nonlinear_arith);
    assert(x * ny * nz <= usize::MAX);
    x * ny * nz + y * nz + z
}

/// The cell stored at position `i`, as the absorbing boundary computes it.
pub fn grid_coords(ny: usize, nz: usize, i: usize) -> (r: (usize, usize, usize))
    requires
        ny > 0,
        nz > 0,
        ny * nz <= usize::MAX,
    ensures
        (r.0 as int, r.1 as int, r.2 as int) == cell_coords(ny as int, nz as int, i as int),
{
    assert(ny * nz > 0) by (nonlinear_arith)
        requires
            ny > 0,
            nz > 0,
    ;
    let slice = ny * nz;
    (i / slice, (i % slice) / nz, i % nz)
}

/// Reading back the cell at the position of `(x, y, z)` gives `(x, y, z)`.
pub proof fn lemma_coords_of_index(ny: int, nz: int, x: int, y: int, z: int)
    requires
        0 <= x,
        0 <= y < ny,
        0 <= z < nz,
    ensures
        cell_coords(ny, nz, cell_index(ny, nz, x, y, z)) == (x, y, z),
{
    let i = cell_index(ny, nz, x, y, z);
    let rest = y * nz + z;
    assert(0 <= rest < ny * nz) by (nonlinear_arith)
        requires
            0 <= y < ny,
            0 <= z < nz,
            rest == y * nz + z,
    ;
    assert(i == x * (ny * nz) + rest) by (nonlinear_arith)
        requires
            i == x * ny * nz + y * nz + z,
            rest == y * nz + z,
    ;
    lemma_fundamental_div_mod_converse(i, ny * nz, x, rest);
    lemma_fundamental_div_mod_converse(rest, nz, y, z);
    assert(i == (x * ny + y) * nz + z) by (nonlinear_arith)
        requires
            i == x * ny * nz + y * nz + z,
    ;
    lemma_fundamental_div_mod_converse(i, nz, x * ny + y, z);
}

/// The position of the cell read back at position `i` is `i`.
pub proof fn lemma_index_of_coords(ny: int, nz: int, i: int)
    requires
        ny > 0,
        nz > 0,
        i >= 0,
    ensures
        ({
            let c = cell_coords(ny, nz, i);
            cell_index(ny, nz, c.0, c.1, c.2) == i
        }),
{
    assert(ny * nz > 0) by (nonlinear_arith)
        requires
            ny > 0,
            nz > 0,
    ;
    let q = i / (ny * nz);
    let r = i % (ny * nz);
    lemma_fundamental_div_mod(i, ny * nz);
    lemma_fundamental_div_mod(r, nz);
    let y = r / nz;
    let z = r % nz;
    // i % nz == r % nz because i = q * ny * nz + r
    assert(i == (q * ny) * nz + r) by (nonlinear_arith)
        requires
            i == (ny * nz) * q + r,
    ;
    vstd::arithmetic::div_mod::lemma_mod_multiples_vanish(q * ny, r, nz);
    assert((nz * (q * ny) + r) % nz == r % nz);
    assert(nz * (q * ny) == (q * ny) * nz) by (nonlinear_arith);
    assert(cell_index(ny, nz, q, y, z) == i) by (nonlinear_arith)
        requires
            i == (ny * nz) * q + r,
            r == nz * y + z,
    ;
}

/// A cell inside an `nx * ny * nz` grid is stored inside the grid's storage.
pub proof fn lemma_index_in_range(nx: int, ny: int, nz: int, x: int, y: int, z: int)
    requires
        0 <= x < nx,
        0 <= y < ny,
        0 <= z < nz,
    ensures
        0 <= cell_index(ny, nz, x, y, z) < nx * ny * nz,
{
    assert(0 <= cell_index(ny, nz, x, y, z) < nx * ny * nz) by (nonlinear_arith)
        requires
            0 <= x < nx,
            0 <= y < ny,
            0 <= z < nz,
    ;
}

} // verus!
