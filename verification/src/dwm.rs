//! Junction indexing of the digital waveguide meshes: junctions are stored
//! with `x` varying fastest, then `y`, then `z`.

use vstd::prelude::*;
use vstd::arithmetic::div_mod::lemma_fundamental_div_mod_converse;

verus! {

/// The storage position of junction `(x, y)` in a mesh `width` junctions wide.
pub open spec fn junction_index_2d(width: int, x: int, y: int) -> int {
    x + y * width
}

/// The storage position of junction `(x, y, z)` in an `nx * ny * nz` mesh.
pub open spec fn junction_index_3d(nx: int, ny: int, x: int, y: int, z: int) -> int {
    x + y * nx + z * nx * ny
}

/// Storage position of junction `(x, y)` of a 2-D mesh.
pub fn mesh_index_2d(width: usize, x: usize, y: usize) -> (r: usize)
    requires
        junction_index_2d(width as int, x as int, y as int) <= usize::MAX,
    ensures
        r == junction_index_2d(width as int, x as int, y as int),
{
    assert(0 <= y * width) by (nonlinear_arith);
    x + y * width
}

/// Storage position of junction `(x, y, z)` of a 3-D mesh.
pub fn mesh_index_3d(nx: usize, ny: usize, x: usize, y: usize, z: usize) -> (r: usize)
    requires
        z * nx <= usize::MAX,
        junction_index_3d(nx as int, ny as int, x as int, y as int, z as int) <= usize::MAX,
    ensures
        r == junction_index_3d(nx as int, ny as int, x as int, y as int, z as int),
{
    assert(0 <= y * nx) by (nonlinear_arith);
    assert(0 <= z * nx * ny) by (nonlinear_arith);
    x + y * nx + z * nx * ny
}

/// Each junction inside a 2-D mesh has its own storage position, inside the
/// mesh's storage.
pub proof fn lemma_index_2d_layout(width: int, height: int, x: int, y: int)
    requires
        0 <= x < width,
        0 <= y < height,
    ensures
        0 <= junction_index_2d(width, x, y) < width * height,
        junction_index_2d(width, x, y) % width == x,
        junction_index_2d(width, x, y) / width == y,
{
    assert(0 <= junction_index_2d(width, x, y) < width * height) by (nonlinear_arith)
        requires
            0 <= x < width,
            0 <= y < height,
    ;
    lemma_fundamental_div_mod_converse(junction_index_2d(width, x, y), width, y, x);
}

/// Each junction inside a 3-D mesh has its own storage position, inside the
/// mesh's storage.
pub proof fn lemma_index_3d_layout(nx: int, ny: int, nz: int, x: int, y: int, z: int)
    requires
        0 <= x < nx,
        0 <= y < ny,
        0 <= z < nz,
    ensures
        0 <= junction_index_3d(nx, ny, x, y, z) < nx * ny * nz,
        junction_index_3d(nx, ny, x, y, z) % nx == x,
        (junction_index_3d(nx, ny, x, y, z) / nx) % ny == y,
        junction_index_3d(nx, ny, x, y, z) / (nx * ny) == z,
{
    let i = junction_index_3d(nx, ny, x, y, z);
    assert(0 <= i < nx * ny * nz) by (nonlinear_arith)
        requires
            i == x + y * nx + z * nx * ny,
            0 <= x < nx,
            0 <= y < ny,
            0 <= z < nz,
    ;
    assert(i == (y + z * ny) * nx + x) by (nonlinear_arith)
        requires
            i == x + y * nx + z * nx * ny,
    ;
    lemma_fundamental_div_mod_converse(i, nx, y + z * ny, x);
    lemma_fundamental_div_mod_converse(y + z * ny, ny, z, y);
    assert(0 <= x + y * nx < nx * ny) by (nonlinear_arith)
        requires
            0 <= x < nx,
            0 <= y < ny,
    ;
    assert(i == z * (nx * ny) + (x + y * nx)) by (nonlinear_arith)
        requires
            i == x + y * nx + z * nx * ny,
    ;
    lemma_fundamental_div_mod_converse(i, nx * ny, z, x + y * nx);
}

} // verus!
