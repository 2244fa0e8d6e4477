//! Triangulation of a chunk's heightmap grid.
//!
//! Vertex `i` of the mesh is grid sample `i`. Every cell not on the last row
//! or column becomes two triangles over its quad `(i, i+1, i+S, i+S+1)`, with
//! `S = CHUNK_SIZE`, both wound the same way.

use vstd::prelude::*;
use vstd::arithmetic::div_mod::lemma_fundamental_div_mod_converse;
use crate::grid::{CHUNK_SIZE, CHUNK_SQSIZE};

verus! {

/// Number of cells that carry triangles: all but the last row and column.
pub const CELL_COUNT: usize = 3969;

/// Length of the triangle index list: three indices per triangle, two
/// triangles per cell.
pub const INDEX_COUNT: usize = 23814;

/// Vertex of the cell's lower corner for cell number `c`, cells being numbered
/// row by row over the `(CHUNK_SIZE - 1)`-wide grid of cells.
pub open spec fn cell_base(c: int) -> int {
    c % (CHUNK_SIZE - 1) + (c / (CHUNK_SIZE - 1)) * CHUNK_SIZE
}

/// The `j`-th index (of six) that cell with lower corner `b` contributes:
/// triangles `(b+1, b, b+S)` and `(b+1, b+S, b+S+1)`.
pub open spec fn cell_corner(b: int, j: int) -> int {
    if j == 0 {
        b + 1
    } else if j == 1 {
        b
    } else if j == 2 {
        b + CHUNK_SIZE
    } else if j == 3 {
        b + 1
    } else if j == 4 {
        b + CHUNK_SIZE
    } else {
        b + CHUNK_SIZE + 1
    }
}

/// Entry `k` of the triangle index list.
pub open spec fn mesh_index(k: int) -> int {
    cell_corner(cell_base(k / 6), k % 6)
}

/// The triangle index list of a chunk mesh, three vertex indices per triangle.
pub fn triangle_indices() -> (r: Vec<u32>)
    ensures
        r@.len() == INDEX_COUNT,
        forall|k: int| 0 <= k < INDEX_COUNT ==> #[trigger] r@[k] as int == mesh_index(k),
        forall|k: int| 0 <= k < INDEX_COUNT ==> #[trigger] r@[k] < CHUNK_SQSIZE,
{
    let mut r: Vec<u32> = Vec::new();
    let side: u32 = CHUNK_SIZE as u32;
    let mut z: u32 = 0;
    while z < side - 1
        invariant
            side == CHUNK_SIZE,
            z <= side - 1,
            r@.len() == 6 * (z * (side - 1)),
            forall|k: int| 0 <= k < r@.len() ==> #[trigger] r@[k] as int == mesh_index(k),
            forall|k: int| 0 <= k < r@.len() ==> #[trigger] r@[k] < CHUNK_SQSIZE,
        decreases side - 1 - z,
    {
        let mut x: u32 = 0;
        while x < side - 1
            invariant
                side == CHUNK_SIZE,
                z < side - 1,
                x <= side - 1,
                r@.len() == 6 * (z * (side - 1) + x),
                forall|k: int| 0 <= k < r@.len() ==> #[trigger] r@[k] as int == mesh_index(k),
                forall|k: int| 0 <= k < r@.len() ==> #[trigger] r@[k] < CHUNK_SQSIZE,
            decreases side - 1 - x,
        {
            let i: u32 = x + z * side;
            let ghost c: int = z * (side - 1) + x;
            let ghost n0: int = r@.len() as int;
            proof {
                lemma_fundamental_div_mod_converse(c, (CHUNK_SIZE - 1) as int, z as int, x as int);
                assert(cell_base(c) == i);
                assert forall|j: int| 0 <= j < 6 implies #[trigger] ((6 * c + j) / 6) == c && (6 * c + j) % 6
                    == j by {
                    lemma_fundamental_div_mod_converse(6 * c + j, 6, c, j);
                }
                assert(i + side + 1 < CHUNK_SQSIZE) by (nonlinear_arith)
                    requires
                        x < 63,
                        z < 63,
                        i == x + z * 64,
                        side == 64,
                ;
            }
            r.push(i + 1);
            r.push(i);
            r.push(i + side);
            r.push(i + 1);
            r.push(i + side);
            r.push(i + side + 1);
            proof {
                assert forall|k: int| 0 <= k < r@.len() implies #[trigger] r@[k] as int == mesh_index(k) by {
                    if k >= n0 {
                        let j = k - n0;
                        assert((6 * c + j) / 6 == c && (6 * c + j) % 6 == j);
                    }
                }
            }
            x = x + 1;
        }
        assert(6 * (z * (side - 1) + x) == 6 * ((z + 1) * (side - 1))) by (nonlinear_arith)
            requires
                x == side - 1,
        ;
        z = z + 1;
    }
    r
}

/// Every vertex belongs to at least one triangle, so each accumulated vertex
/// normal has a contribution and no vertex is left isolated.
pub proof fn lemma_every_vertex_in_a_triangle(v: int)
    requires
        0 <= v < CHUNK_SQSIZE,
    ensures
        exists|k: int| 0 <= k < INDEX_COUNT && #[trigger] mesh_index(k) == v,
{
    let x = v % (CHUNK_SIZE as int);
    let z = v / (CHUNK_SIZE as int);
    let cx = if x == CHUNK_SIZE - 1 { x - 1 } else { x };
    let cz = if z == CHUNK_SIZE - 1 { z - 1 } else { z };
    let c = cz * (CHUNK_SIZE - 1) + cx;
    let j = if x == CHUNK_SIZE - 1 {
        if z == CHUNK_SIZE - 1 { 5int } else { 0int }
    } else {
        if z == CHUNK_SIZE - 1 { 2int } else { 1int }
    };
    let k = 6 * c + j;
    lemma_fundamental_div_mod_converse(c, (CHUNK_SIZE - 1) as int, cz, cx);
    lemma_fundamental_div_mod_converse(k, 6, c, j);
    assert(c < CELL_COUNT) by (nonlinear_arith)
        requires
            0 <= cx < 63,
            0 <= cz < 63,
            c == cz * 63 + cx,
    ;
    assert(v == x + z * CHUNK_SIZE);
    assert(mesh_index(k) == v);
}

} // verus!
