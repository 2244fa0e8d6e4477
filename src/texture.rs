//! Addressing of a chunk texture: for each output pixel, the heightmap samples
//! it interpolates between, its interpolation fractions and where it reads its
//! biome image; and the rules that pick the biome.

use vstd::prelude::*;
use vstd::arithmetic::div_mod::{lemma_fundamental_div_mod_converse, lemma_mod_multiples_vanish};
use crate::grid::{CHUNK_SIZE, ChunkCoord, grid_index, world_coord};

verus! {

/// Texture pixels per heightmap sample step, on each axis.
pub const PIXELS_PER_POINT: usize = 4;

/// Side length of a chunk texture, in pixels.
pub const PIXELS_PER_CHUNK: usize = 256;

/// Number of pixels in a chunk texture.
pub const TEXTURE_PIXELS: usize = 65536;

/// Side length of each biome image, in pixels.
pub const ASSET_SIZE: usize = 16;

/// Bytes per pixel of the biome images and of the chunk texture (RGBA8).
pub const BYTES_PER_PIXEL: usize = 4;

/// Column of texture pixel `p`.
pub open spec fn pixel_x(p: int) -> int {
    p % (PIXELS_PER_CHUNK as int)
}

/// Row of texture pixel `p`.
pub open spec fn pixel_y(p: int) -> int {
    p / (PIXELS_PER_CHUNK as int)
}

/// World pixel position, on one axis, of pixel `px` of the chunk at `chunk`:
/// the chunk's first sample, scaled to pixels, plus `px`.
pub open spec fn world_pixel(chunk: int, px: int) -> int {
    world_coord(chunk, 0) * PIXELS_PER_POINT + px
}

/// Byte offset into a biome image of the pixel that world pixel `(wx, wy)`
/// shows: biome images tile the world, so the offset depends on the world
/// position modulo the image size only.
pub open spec fn tile_offset(wx: int, wy: int) -> int {
    ((wx % (ASSET_SIZE as int)) + (wy % (ASSET_SIZE as int)) * ASSET_SIZE) * BYTES_PER_PIXEL
}

/// Next sample on one axis, held at the far edge.
pub open spec fn next_clamped(g: int) -> int {
    if g + 1 < CHUNK_SIZE {
        g + 1
    } else {
        g
    }
}

/// Sample nearest, on one axis, to a pixel `f` quarters past sample `g`; a
/// pixel halfway between two samples takes the next one.
pub open spec fn nearest_on_axis(g: int, f: int) -> int {
    if 2 * f >= PIXELS_PER_POINT {
        next_clamped(g)
    } else {
        g
    }
}

/// What one texture pixel reads: the four heightmap samples around it (at the
/// far edge the next sample is held at the edge), its fractional position
/// between them as numerators over `PIXELS_PER_POINT`, the one of the four
/// nearest to it (whose slope decides between stone and grass), and the byte
/// offset of its colour in the biome image.
#[derive(Clone, Copy, PartialEq, Eq, Structural, Debug)]
pub struct Texel {
    pub point: usize,
    pub point_x: usize,
    pub point_y: usize,
    pub point_xy: usize,
    pub nearest: usize,
    pub frac_x: usize,
    pub frac_y: usize,
    pub tile: usize,
}

/// The texel of pixel `p` of the texture of chunk `c`.
pub open spec fn texel_at(c: ChunkCoord, p: int) -> Texel {
    let px = pixel_x(p);
    let py = pixel_y(p);
    let gx = px / (PIXELS_PER_POINT as int);
    let gy = py / (PIXELS_PER_POINT as int);
    Texel {
        point: grid_index(gx, gy) as usize,
        point_x: grid_index(next_clamped(gx), gy) as usize,
        point_y: grid_index(gx, next_clamped(gy)) as usize,
        point_xy: grid_index(next_clamped(gx), next_clamped(gy)) as usize,
        nearest: grid_index(
            nearest_on_axis(gx, px % (PIXELS_PER_POINT as int)),
            nearest_on_axis(gy, py % (PIXELS_PER_POINT as int)),
        ) as usize,
        frac_x: (px % (PIXELS_PER_POINT as int)) as usize,
        frac_y: (py % (PIXELS_PER_POINT as int)) as usize,
        tile: tile_offset(world_pixel(c.x as int, px), world_pixel(c.y as int, py)) as usize,
    }
}

/// `(chunk * (CHUNK_SIZE - 1) * PIXELS_PER_POINT + px) % ASSET_SIZE`, for
/// every `i32` chunk coordinate.
fn tile_phase(chunk: i32, px: usize) -> (r: usize)
    requires
        px < PIXELS_PER_CHUNK,
    ensures
        r as int == world_pixel(chunk as int, px as int) % (ASSET_SIZE as int),
        r < ASSET_SIZE,
{
    // Shifting by 2^31 keeps the value non-negative and is a multiple of the
    // image size, so the phase is unchanged.
    let shifted: u64 = (chunk as i64 + 0x8000_0000) as u64;
    let span: u64 = ((CHUNK_SIZE - 1) * PIXELS_PER_POINT) as u64;
    proof {
        assert(shifted * span <= 0xffff_ffff * 252) by (nonlinear_arith)
            requires
                shifted <= 0xffff_ffff,
                span == 252,
        ;
        assert(shifted * span + px == 16 * (0x800_0000 * 252) + world_pixel(chunk as int, px as int))
            by (nonlinear_arith)
            requires
                shifted == chunk + 0x8000_0000,
                span == 252,
                world_pixel(chunk as int, px as int) == chunk * 63 * 4 + px,
        ;
        lemma_mod_multiples_vanish(0x800_0000int * 252, world_pixel(chunk as int, px as int), 16);
    }
    ((shifted * span + px as u64) % (ASSET_SIZE as u64)) as usize
}

/// The texel of pixel `p` of the texture of chunk `c`.
pub fn texel(c: ChunkCoord, p: usize) -> (r: Texel)
    requires
        p < TEXTURE_PIXELS,
    ensures
        r == texel_at(c, p as int),
        r.point < crate::grid::CHUNK_SQSIZE,
        r.point_x < crate::grid::CHUNK_SQSIZE,
        r.point_y < crate::grid::CHUNK_SQSIZE,
        r.point_xy < crate::grid::CHUNK_SQSIZE,
        r.nearest < crate::grid::CHUNK_SQSIZE,
        r.frac_x < PIXELS_PER_POINT,
        r.frac_y < PIXELS_PER_POINT,
        r.tile + BYTES_PER_PIXEL <= ASSET_SIZE * ASSET_SIZE * BYTES_PER_PIXEL,
{
    let px = p % PIXELS_PER_CHUNK;
    let py = p / PIXELS_PER_CHUNK;
    let gx = px / PIXELS_PER_POINT;
    let gy = py / PIXELS_PER_POINT;
    let gx1 = if gx + 1 < CHUNK_SIZE { gx + 1 } else { gx };
    let gy1 = if gy + 1 < CHUNK_SIZE { gy + 1 } else { gy };
    let fx = px % PIXELS_PER_POINT;
    let fy = py % PIXELS_PER_POINT;
    let nx = if 2 * fx >= PIXELS_PER_POINT { gx1 } else { gx };
    let ny = if 2 * fy >= PIXELS_PER_POINT { gy1 } else { gy };
    let tx = tile_phase(c.x, px);
    let ty = tile_phase(c.y, py);
    proof {
        assert(world_pixel(c.x as int, px as int) % 16 == tx);
    }
    Texel {
        point: gx + gy * CHUNK_SIZE,
        point_x: gx1 + gy * CHUNK_SIZE,
        point_y: gx + gy1 * CHUNK_SIZE,
        point_xy: gx1 + gy1 * CHUNK_SIZE,
        nearest: nx + ny * CHUNK_SIZE,
        frac_x: fx,
        frac_y: fy,
        tile: (tx + ty * ASSET_SIZE) * BYTES_PER_PIXEL,
    }
}

/// Adjacent chunk textures stay in phase: the pixels of chunk `a` that lie
/// past its last sample column (or row) and the first pixels of its `+x` (or
/// `+y`) neighbour show the same world pixels, and read the same place of the
/// biome image.
pub proof fn lemma_texture_tiling_seam(a: ChunkCoord, q: int, k: int)
    requires
        0 <= q < PIXELS_PER_CHUNK - (CHUNK_SIZE - 1) * PIXELS_PER_POINT,
        0 <= k < PIXELS_PER_CHUNK,
    ensures
        a.x < i32::MAX ==> ({
            let b = ChunkCoord { x: (a.x + 1) as i32, y: a.y };
            texel_at(a, (CHUNK_SIZE - 1) * PIXELS_PER_POINT + q + k * PIXELS_PER_CHUNK).tile == texel_at(
                b,
                q + k * PIXELS_PER_CHUNK,
            ).tile
        }),
        a.y < i32::MAX ==> ({
            let b = ChunkCoord { x: a.x, y: (a.y + 1) as i32 };
            texel_at(a, k + ((CHUNK_SIZE - 1) * PIXELS_PER_POINT + q) * PIXELS_PER_CHUNK).tile == texel_at(
                b,
                k + q * PIXELS_PER_CHUNK,
            ).tile
        }),
{
    let edge = (CHUNK_SIZE - 1) * PIXELS_PER_POINT;
    let n = PIXELS_PER_CHUNK as int;
    lemma_fundamental_div_mod_converse(edge + q + k * n, n, k, edge + q);
    lemma_fundamental_div_mod_converse(q + k * n, n, k, q);
    lemma_fundamental_div_mod_converse(k + (edge + q) * n, n, edge + q, k);
    lemma_fundamental_div_mod_converse(k + q * n, n, q, k);
    assert forall|t: int| world_pixel(t, edge + q) == #[trigger] world_pixel(t + 1, q) by {
        assert(t * 63 * 4 + 252 + q == (t + 1) * 63 * 4 + q) by (nonlinear_arith);
    }
}

/// The five biomes, each drawn from its own image.
#[derive(Clone, Copy, PartialEq, Eq, Structural, Debug)]
pub enum Biome {
    Grass,
    Water,
    Sand,
    Snow,
    Stone,
}

impl Biome {
    /// The biome's name.
    pub fn name(&self) -> (r: &'static str)
        ensures
            *self == Biome::Grass ==> r@ == "grass"@,
            *self == Biome::Water ==> r@ == "water"@,
            *self == Biome::Sand ==> r@ == "sand"@,
            *self == Biome::Snow ==> r@ == "snow"@,
            *self == Biome::Stone ==> r@ == "stone"@,
    {
        match self {
            Biome::Grass => "grass",
            Biome::Water => "water",
            Biome::Sand => "sand",
            Biome::Snow => "snow",
            Biome::Stone => "stone",
        }
    }

    /// File name of the biome's image.
    pub fn asset_name(&self) -> (r: &'static str)
        ensures
            *self == Biome::Grass ==> r@ == "grass16.png"@,
            *self == Biome::Water ==> r@ == "water16.png"@,
            *self == Biome::Sand ==> r@ == "sand16.png"@,
            *self == Biome::Snow ==> r@ == "snow16.png"@,
            *self == Biome::Stone ==> r@ == "stone16.png"@,
    {
        match self {
            Biome::Grass => "grass16.png",
            Biome::Water => "water16.png",
            Biome::Sand => "sand16.png",
            Biome::Snow => "snow16.png",
            Biome::Stone => "stone16.png",
        }
    }
}

/// Elevation band of an interpolated height, highest first. Each band includes
/// its lower threshold: a height exactly at a threshold belongs to the higher
/// band.
#[derive(Clone, Copy, PartialEq, Eq, Structural, Debug)]
pub enum ElevationBand {
    Snow,
    Land,
    Shore,
    Underwater,
}

/// The biome of a pixel in `band`; on land, `rough` (slope above the
/// roughness threshold) makes it stone rather than grass.
pub fn biome_for(band: ElevationBand, rough: bool) -> (r: Biome)
    ensures
        band == ElevationBand::Snow ==> r == Biome::Snow,
        band == ElevationBand::Land && rough ==> r == Biome::Stone,
        band == ElevationBand::Land && !rough ==> r == Biome::Grass,
        band == ElevationBand::Shore ==> r == Biome::Sand,
        band == ElevationBand::Underwater ==> r == Biome::Water,
{
    match band {
        ElevationBand::Snow => Biome::Snow,
        ElevationBand::Land => if rough {
            Biome::Stone
        } else {
            Biome::Grass
        },
        ElevationBand::Shore => Biome::Sand,
        ElevationBand::Underwater => Biome::Water,
    }
}

/// Position of each biome's image in the order in which they are looked up:
/// grass, water, sand, snow, stone.
pub open spec fn asset_slot(b: Biome) -> int {
    match b {
        Biome::Grass => 0,
        Biome::Water => 1,
        Biome::Sand => 2,
        Biome::Snow => 3,
        Biome::Stone => 4,
    }
}

/// The biome whose image is at position `k` of the lookup order.
pub open spec fn biome_in_slot(k: int) -> Biome {
    if k == 0 {
        Biome::Grass
    } else if k == 1 {
        Biome::Water
    } else if k == 2 {
        Biome::Sand
    } else if k == 3 {
        Biome::Snow
    } else {
        Biome::Stone
    }
}

impl Biome {
    /// Position of the biome's image in the lookup order.
    pub fn slot(&self) -> (r: usize)
        ensures
            r == asset_slot(*self),
    {
        match self {
            Biome::Grass => 0,
            Biome::Water => 1,
            Biome::Sand => 2,
            Biome::Snow => 3,
            Biome::Stone => 4,
        }
    }
}

/// The biomes in the order in which their images are looked up.
pub fn asset_lookup_order() -> (r: [Biome; 5])
    ensures
        forall|k: int| 0 <= k < 5 ==> #[trigger] r@[k] == biome_in_slot(k) && asset_slot(r@[k]) == k,
{
    [Biome::Grass, Biome::Water, Biome::Sand, Biome::Snow, Biome::Stone]
}

/// Whether a chunk texture can be synthesised, given which biome images are
/// loaded (`loaded[asset_slot(b)]` for biome `b`): `None` when all five are,
/// else the first missing one in lookup order.
pub fn first_missing(loaded: &[bool; 5]) -> (r: Option<Biome>)
    ensures
        r is None <==> (forall|k: int| 0 <= k < 5 ==> #[trigger] loaded@[k]),
        r is Some ==> !loaded@[asset_slot(r->0)] && (forall|k: int|
            0 <= k < asset_slot(r->0) ==> #[trigger] loaded@[k]),
{
    let mut k: usize = 0;
    while k < 5
        invariant
            k <= 5,
            forall|j: int| 0 <= j < k ==> #[trigger] loaded@[j],
        decreases 5 - k,
    {
        if !loaded[k] {
            let b = asset_lookup_order()[k];
            return Some(b);
        }
        k = k + 1;
    }
    None
}

} // verus!
