//! Chunk coordinates and the row-major sample grid of one chunk.

use vstd::prelude::*;
use vstd::arithmetic::div_mod::lemma_fundamental_div_mod_converse;

verus! {

/// Side length of a chunk, in heightmap samples.
pub const CHUNK_SIZE: usize = 64;

/// Number of samples in one chunk grid.
pub const CHUNK_SQSIZE: usize = 4096;

/// Position of a chunk in chunk-size units; the unique key of streaming state.
#[derive(Clone, Copy, PartialEq, Eq, Structural, Debug, Hash)]
pub struct ChunkCoord {
    pub x: i32,
    pub y: i32,
}

/// Row-major index of the grid sample at column `x` and row `y`.
pub open spec fn grid_index(x: int, y: int) -> int {
    x + y * CHUNK_SIZE
}

/// Column of the sample at row-major index `i`.
pub open spec fn grid_x(i: int) -> int {
    i % (CHUNK_SIZE as int)
}

/// Row of the sample at row-major index `i`.
pub open spec fn grid_y(i: int) -> int {
    i / (CHUNK_SIZE as int)
}

/// Splits a row-major sample index into its column and row.
pub fn grid_coords(i: usize) -> (r: (usize, usize))
    requires
        i < CHUNK_SQSIZE,
    ensures
        r.0 == grid_x(i as int),
        r.1 == grid_y(i as int),
        r.0 < CHUNK_SIZE,
        r.1 < CHUNK_SIZE,
        grid_index(r.0 as int, r.1 as int) == i,
{
    (i % CHUNK_SIZE, i / CHUNK_SIZE)
}

/// World coordinate, on one axis, of the sample at local position `local` of
/// the chunk at `chunk` on that axis. Neighbouring chunks share their border
/// samples: a chunk spans `CHUNK_SIZE - 1` sample steps.
pub open spec fn world_coord(chunk: int, local: int) -> int {
    chunk * (CHUNK_SIZE - 1) + local
}

/// Where one heightmap sample is taken: its place in the chunk grid (also the
/// numerators, over `CHUNK_SIZE`, of its region blend factors) and its
/// position in the world's sample lattice, at which the height noise is read.
#[derive(Clone, Copy, PartialEq, Eq, Structural, Debug)]
pub struct SamplePoint {
    pub local_x: usize,
    pub local_y: usize,
    pub world_x: i64,
    pub world_y: i64,
}

/// The sample point of row-major index `i` in chunk `c`.
pub open spec fn sample_at(c: ChunkCoord, i: int) -> SamplePoint {
    SamplePoint {
        local_x: grid_x(i) as usize,
        local_y: grid_y(i) as usize,
        world_x: world_coord(c.x as int, grid_x(i)) as i64,
        world_y: world_coord(c.y as int, grid_y(i)) as i64,
    }
}

/// The sample point of row-major index `i` in chunk `c`.
pub fn sample_point(c: ChunkCoord, i: usize) -> (r: SamplePoint)
    requires
        i < CHUNK_SQSIZE,
    ensures
        r == sample_at(c, i as int),
        r.local_x as int == grid_x(i as int),
        r.local_y as int == grid_y(i as int),
        r.world_x as int == world_coord(c.x as int, grid_x(i as int)),
        r.world_y as int == world_coord(c.y as int, grid_y(i as int)),
{
    let (x, y) = grid_coords(i);
    let side: i64 = CHUNK_SIZE as i64 - 1;
    proof {
        assert(-0x8000_0000 * 63 <= c.x * 63 <= 0x7fff_ffff * 63) by (nonlinear_arith)
            requires
                -0x8000_0000 <= c.x <= 0x7fff_ffff,
        ;
        assert(-0x8000_0000 * 63 <= c.y * 63 <= 0x7fff_ffff * 63) by (nonlinear_arith)
            requires
                -0x8000_0000 <= c.y <= 0x7fff_ffff,
        ;
    }
    SamplePoint {
        local_x: x,
        local_y: y,
        world_x: c.x as i64 * side + x as i64,
        world_y: c.y as i64 * side + y as i64,
    }
}

/// The sample points of chunk `c`, in row-major order: where the heightmap
/// generator reads its noise, sample by sample. A function of `c` alone.
pub fn sample_points(c: ChunkCoord) -> (r: Vec<SamplePoint>)
    ensures
        r@.len() == CHUNK_SQSIZE,
        forall|i: int| 0 <= i < CHUNK_SQSIZE ==> #[trigger] r@[i] == sample_at(c, i),
{
    let mut r: Vec<SamplePoint> = Vec::new();
    let mut i: usize = 0;
    while i < CHUNK_SQSIZE
        invariant
            i <= CHUNK_SQSIZE,
            r@.len() == i,
            forall|j: int| 0 <= j < i ==> #[trigger] r@[j] == sample_at(c, j),
        decreases CHUNK_SQSIZE - i,
    {
        r.push(sample_point(c, i));
        i = i + 1;
    }
    r
}

/// World position of the sample from which the region descriptor of chunk
/// `(cx, cy)` is drawn: the chunk coordinate scaled by `CHUNK_SIZE`.
pub open spec fn region_origin(cx: int, cy: int) -> (int, int) {
    (cx * CHUNK_SIZE, cy * CHUNK_SIZE)
}

/// Region sampling points of the four chunks whose descriptors a heightmap of
/// chunk `c` blends, in the order: the chunk, its `+x`, `+y` and `+x+y`
/// neighbours.
pub fn region_corners(c: ChunkCoord) -> (r: [(i64, i64); 4])
    ensures
        r@[0].0 == region_origin(c.x as int, c.y as int).0,
        r@[0].1 == region_origin(c.x as int, c.y as int).1,
        r@[1].0 == region_origin(c.x + 1, c.y as int).0,
        r@[1].1 == region_origin(c.x + 1, c.y as int).1,
        r@[2].0 == region_origin(c.x as int, c.y + 1).0,
        r@[2].1 == region_origin(c.x as int, c.y + 1).1,
        r@[3].0 == region_origin(c.x + 1, c.y + 1).0,
        r@[3].1 == region_origin(c.x + 1, c.y + 1).1,
{
    let side: i64 = CHUNK_SIZE as i64;
    let x0: i64 = c.x as i64 * side;
    let y0: i64 = c.y as i64 * side;
    [(x0, y0), (x0 + side, y0), (x0, y0 + side), (x0 + side, y0 + side)]
}

/// The forward 2x2 neighbourhood `[o, o+x, o+y, o+x+y]` of sample `i`, from
/// which its slope is derived; `None` on the last row and column, whose slope
/// stays zero.
pub fn slope_window(i: usize) -> (r: Option<[usize; 4]>)
    requires
        i < CHUNK_SQSIZE,
    ensures
        r is None <==> (grid_x(i as int) == CHUNK_SIZE - 1 || grid_y(i as int) == CHUNK_SIZE - 1),
        r is Some ==> r->0@ == seq![i, (i + 1) as usize, (i + CHUNK_SIZE) as usize, (i + CHUNK_SIZE + 1) as usize],
{
    let (x, y) = grid_coords(i);
    if x == CHUNK_SIZE - 1 || y == CHUNK_SIZE - 1 {
        None
    } else {
        let w = [i, i + 1, i + CHUNK_SIZE, i + CHUNK_SIZE + 1];
        assert(w@ =~= seq![i, (i + 1) as usize, (i + CHUNK_SIZE) as usize, (i + CHUNK_SIZE + 1) as usize]);
        Some(w)
    }
}

/// Adjacent chunks share their border samples and region descriptors: the last
/// column of chunk `a` is read at the same world positions as the first column
/// of its `+x` neighbour, the last row of `a` as the first row of its `+y`
/// neighbour, and the far corner descriptors of `a` are those the neighbours
/// draw for themselves.
pub proof fn lemma_seam_shared_samples(a: ChunkCoord, k: int)
    requires
        0 <= k < CHUNK_SIZE,
    ensures
        a.x < i32::MAX ==> ({
            let b = ChunkCoord { x: (a.x + 1) as i32, y: a.y };
            &&& world_coord(a.x as int, CHUNK_SIZE - 1) == world_coord(b.x as int, 0)
            &&& sample_at(a, grid_index(CHUNK_SIZE - 1, k)).world_x == sample_at(b, grid_index(0, k)).world_x
            &&& sample_at(a, grid_index(CHUNK_SIZE - 1, k)).world_y == sample_at(b, grid_index(0, k)).world_y
            &&& region_origin(a.x + 1, a.y as int) == region_origin(b.x as int, b.y as int)
        }),
        a.y < i32::MAX ==> ({
            let b = ChunkCoord { x: a.x, y: (a.y + 1) as i32 };
            &&& world_coord(a.y as int, CHUNK_SIZE - 1) == world_coord(b.y as int, 0)
            &&& sample_at(a, grid_index(k, CHUNK_SIZE - 1)).world_x == sample_at(b, grid_index(k, 0)).world_x
            &&& sample_at(a, grid_index(k, CHUNK_SIZE - 1)).world_y == sample_at(b, grid_index(k, 0)).world_y
            &&& region_origin(a.x as int, a.y + 1) == region_origin(b.x as int, b.y as int)
        }),
{
    lemma_fundamental_div_mod_converse(grid_index(CHUNK_SIZE - 1, k), CHUNK_SIZE as int, k, CHUNK_SIZE - 1);
    lemma_fundamental_div_mod_converse(grid_index(0, k), CHUNK_SIZE as int, k, 0);
    lemma_fundamental_div_mod_converse(grid_index(k, CHUNK_SIZE - 1), CHUNK_SIZE as int, CHUNK_SIZE - 1, k);
    lemma_fundamental_div_mod_converse(grid_index(k, 0), CHUNK_SIZE as int, 0, k);
    assert forall|t: int| world_coord(t, CHUNK_SIZE - 1) == #[trigger] world_coord(t + 1, 0) by {
        assert(t * 63 + 63 == (t + 1) * 63) by (nonlinear_arith);
    }
}

} // verus!
