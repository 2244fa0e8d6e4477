use terrain::grid::ChunkCoord;
use terrain::texture::{
    asset_lookup_order, biome_for, first_missing, texel, Biome, ElevationBand, Texel, PIXELS_PER_CHUNK, TEXTURE_PIXELS,
};

fn at(x: i32, y: i32) -> ChunkCoord {
    ChunkCoord { x, y }
}

#[test]
fn texel_of_the_first_pixel() {
    assert_eq!(
        texel(at(0, 0), 0),
        Texel { point: 0, point_x: 1, point_y: 64, point_xy: 65, nearest: 0, frac_x: 0, frac_y: 0, tile: 0 }
    );
}

#[test]
fn texel_fractions_and_samples_inside_a_cell() {
    // Pixel (6, 9): sample (1, 2), two and one quarters past it.
    let t = texel(at(0, 0), 6 + 9 * PIXELS_PER_CHUNK);
    assert_eq!((t.point, t.point_x, t.point_y, t.point_xy), (129, 130, 193, 194));
    assert_eq!((t.frac_x, t.frac_y), (2, 1));
    // Halfway along x rounds to the next sample; a quarter along y stays.
    assert_eq!(t.nearest, 130);
    assert_eq!(texel(at(0, 0), 5 + 11 * PIXELS_PER_CHUNK).nearest, 1 + 3 * 64);
    assert_eq!(t.tile, (6 + 9 * 16) * 4);
}

#[test]
fn texel_clamps_at_the_far_edge() {
    let t = texel(at(0, 0), TEXTURE_PIXELS - 1);
    assert_eq!((t.point, t.point_x, t.point_y, t.point_xy), (4095, 4095, 4095, 4095));
    assert_eq!((t.frac_x, t.frac_y), (3, 3));
    assert_eq!(t.nearest, 4095);
    assert_eq!(t.tile, 1020);
    // Last column, first row: the x neighbour is held, not taken from the next row.
    let t = texel(at(0, 0), 255);
    assert_eq!((t.point, t.point_x, t.point_y, t.point_xy), (63, 63, 127, 127));
    assert_eq!(t.nearest, 63);
}

#[test]
fn tiling_follows_the_world_position() {
    // Chunk -1 starts at world pixel -252, which is 4 modulo 16.
    assert_eq!(texel(at(-1, 0), 0).tile, 16);
    assert_eq!(texel(at(0, -1), 0).tile, 4 * 16 * 4);
    // Chunk 1 starts at world pixel 252, which is 12 modulo 16.
    assert_eq!(texel(at(1, 0), 0).tile, 48);
    assert_eq!(texel(at(i32::MIN, 0), 0).tile, 0);
    assert_eq!(texel(at(i32::MAX, 0), 0).tile, 4 * 4);
}

#[test]
fn adjacent_textures_stay_in_phase() {
    for q in 0..4 {
        for k in [0, 5, 255] {
            let a = texel(at(0, 0), 252 + q + k * PIXELS_PER_CHUNK);
            let b = texel(at(1, 0), q + k * PIXELS_PER_CHUNK);
            assert_eq!(a.tile, b.tile);
            let a = texel(at(-3, 2), k + (252 + q) * PIXELS_PER_CHUNK);
            let b = texel(at(-3, 3), k + q * PIXELS_PER_CHUNK);
            assert_eq!(a.tile, b.tile);
        }
    }
    assert_eq!(texel(at(0, 0), 253 + 5 * 256).tile, 372);
}

#[test]
fn biome_follows_band_and_roughness() {
    assert_eq!(biome_for(ElevationBand::Snow, false), Biome::Snow);
    assert_eq!(biome_for(ElevationBand::Snow, true), Biome::Snow);
    assert_eq!(biome_for(ElevationBand::Land, false), Biome::Grass);
    assert_eq!(biome_for(ElevationBand::Land, true), Biome::Stone);
    assert_eq!(biome_for(ElevationBand::Shore, true), Biome::Sand);
    assert_eq!(biome_for(ElevationBand::Underwater, true), Biome::Water);
}

#[test]
fn first_missing_asset_in_lookup_order() {
    assert_eq!(first_missing(&[true; 5]), None);
    assert_eq!(first_missing(&[false; 5]), Some(Biome::Grass));
    assert_eq!(first_missing(&[true, true, false, false, true]), Some(Biome::Sand));
    assert_eq!(first_missing(&[true, false, true, true, true]), Some(Biome::Water));
    assert_eq!(first_missing(&[true, true, true, false, true]), Some(Biome::Snow));
    assert_eq!(first_missing(&[true, true, true, true, false]), Some(Biome::Stone));
}

#[test]
fn biome_names() {
    assert_eq!(Biome::Grass.name(), "grass");
    assert_eq!(Biome::Water.name(), "water");
    assert_eq!(Biome::Sand.name(), "sand");
    assert_eq!(Biome::Snow.name(), "snow");
    assert_eq!(Biome::Stone.name(), "stone");
}

#[test]
fn asset_names() {
    assert_eq!(Biome::Grass.asset_name(), "grass16.png");
    assert_eq!(Biome::Water.asset_name(), "water16.png");
    assert_eq!(Biome::Sand.asset_name(), "sand16.png");
    assert_eq!(Biome::Snow.asset_name(), "snow16.png");
    assert_eq!(Biome::Stone.asset_name(), "stone16.png");
}

#[test]
fn lookup_order_matches_slots() {
    let order = asset_lookup_order();
    assert_eq!(order, [Biome::Grass, Biome::Water, Biome::Sand, Biome::Snow, Biome::Stone]);
    for (k, b) in order.iter().enumerate() {
        assert_eq!(b.slot(), k);
    }
}
