use voxel_world::block::BlockType;
use voxel_world::noise::{sample2, sample3};
use voxel_world::settings::{NoiseLayer, NoiseSettings};
use voxel_world::terrain::{
    generate, terrain_height, BASE_HEIGHT, CARVE_THRESHOLD, CAVE_FREQ, CAVE_SEED, CEILING_THRESHOLD,
    RIDGE_FREQ, RIDGE_SEED,
};
use voxel_world::ChunkCoord;

fn flat_settings() -> NoiseSettings {
    let mut s = NoiseSettings::default();
    for i in 0..s.layers.len() {
        s.adjust_amplitude(i, -100000);
    }
    s
}

#[test]
fn generate_is_deterministic_full_detail() {
    let settings = NoiseSettings::default();
    let c = ChunkCoord { x: 0, y: 1, z: 0 };
    let a = generate(c, 1, &settings);
    let b = generate(c, 1, &settings);
    assert_eq!(a.n, b.n);
    assert_eq!(a.cells, b.cells);
}

#[test]
fn generate_is_deterministic_half_detail() {
    let settings = NoiseSettings::default();
    let c = ChunkCoord { x: -3, y: 0, z: 7 };
    let a = generate(c, 2, &settings);
    let b = generate(c, 2, &settings);
    assert_eq!(a.cells, b.cells);
}

#[test]
fn generate_differs_between_coordinates() {
    let settings = NoiseSettings::default();
    let a = generate(ChunkCoord { x: 0, y: 1, z: 0 }, 1, &settings);
    let b = generate(ChunkCoord { x: 5, y: 1, z: 5 }, 1, &settings);
    assert!(a.cells != b.cells);
}

#[test]
fn grid_dimensions_follow_detail_level() {
    let settings = NoiseSettings::default();
    let a = generate(ChunkCoord { x: 0, y: 0, z: 0 }, 1, &settings);
    assert_eq!(a.n, 35);
    assert_eq!(a.cells.len(), 35 * 35 * 35);
    let b = generate(ChunkCoord { x: 0, y: 0, z: 0 }, 2, &settings);
    assert_eq!(b.n, 19);
    assert_eq!(b.cells.len(), 19 * 19 * 19);
}

/// Flat configuration: the height is exactly the base height plus the
/// ridge contribution, for every column.
#[test]
fn flat_config_height_formula() {
    let settings = flat_settings();
    for &(wx, wz) in &[(0i64, 0i64), (5, -9), (1000, 1000), (-32, 64)] {
        let u = sample2(RIDGE_SEED, RIDGE_FREQ, wx, wz) as i64;
        let ridge = (u - 1000).abs() * 20 / 1000;
        let expected = (BASE_HEIGHT as i64 + ridge).clamp(1, 255) as i32;
        assert_eq!(terrain_height(&settings, wx, wz), expected);
    }
}

/// Flat configuration at half detail (no decorations): wherever the
/// ridge contributes nothing and the cave field neither carves nor
/// touches its disabled sub-ceiling branch, the column is exactly stone
/// below, dirt one block under the surface, grass at the surface, and
/// empty above.
#[test]
fn flat_config_column_layering() {
    let settings = flat_settings();
    // The chunk one layer up holds the surface: world rows 32..64.
    let coord = ChunkCoord { x: 1, y: 1, z: 0 };
    let g = generate(coord, 2, &settings);
    let mut checked = 0;
    for x in 1usize..=16 {
        for z in 1usize..=16 {
            let wx = 32 + 2 * (x as i64 - 1);
            let wz = 2 * (z as i64 - 1);
            if terrain_height(&settings, wx, wz) != BASE_HEIGHT {
                continue;
            }
            let mut clean = true;
            for wy in 0..=48i64 {
                let cave = sample3(CAVE_SEED, CAVE_FREQ, wx, wy, wz);
                if cave > CARVE_THRESHOLD || cave < CEILING_THRESHOLD {
                    clean = false;
                }
            }
            if !clean {
                continue;
            }
            checked += 1;
            for y in 1usize..=17 {
                // Cell y covers world rows 32 + 2(y-1) and 32 + 2(y-1) + 1.
                let got = g.cells[x + y * 19 + z * 19 * 19];
                let expected = if y <= 3 {
                    BlockType::Stone
                } else if y == 4 {
                    BlockType::Dirt
                } else if y == 5 {
                    BlockType::Grass
                } else {
                    BlockType::Empty
                };
                assert_eq!(got, expected, "column ({x},{z}) cell {y}");
            }
        }
    }
    assert!(checked > 0, "no carve-free flat column in the probe chunk");
}

#[test]
fn heights_stay_clamped() {
    let settings = NoiseSettings::default();
    for i in -20i64..20 {
        let h = terrain_height(&settings, i * 97, i * 13);
        assert!(1 <= h && h <= 255);
    }
}

#[test]
fn amplitudes_raise_terrain() {
    // The default configuration must differ from the flat one somewhere.
    let settings = NoiseSettings::default();
    let flat = flat_settings();
    let mut differs = false;
    for i in 0i64..64 {
        if terrain_height(&settings, i * 31, i * 17) != terrain_height(&flat, i * 31, i * 17) {
            differs = true;
        }
    }
    assert!(differs);
}

#[test]
fn default_layers_are_preserved_by_generation() {
    // Generation snapshots its settings: the caller's value is unchanged.
    let settings = NoiseSettings::default();
    let before = settings.layers.clone();
    let _ = generate(ChunkCoord { x: 1, y: 1, z: 1 }, 2, &settings);
    assert_eq!(settings.layers, before);
}

#[test]
fn layer_seed_changes_terrain() {
    let a = NoiseSettings::default();
    let mut b = NoiseSettings::default();
    b.layers[0] = NoiseLayer { seed: 12345, frequency: b.layers[0].frequency, amplitude: b.layers[0].amplitude };
    let mut differs = false;
    for i in 0i64..64 {
        if terrain_height(&a, i * 23, i * 41) != terrain_height(&b, i * 23, i * 41) {
            differs = true;
        }
    }
    assert!(differs);
}

/// Full-detail generation places decorations: somewhere near the probe
/// area a tree trunk or canopy is stamped into the grid.
#[test]
fn full_detail_chunks_contain_decorations() {
    let settings = NoiseSettings::default();
    let mut wood_or_leaf = 0usize;
    for cx in -3i32..=-1 {
        for cz in -3i32..=-1 {
            for cy in 1i32..=2 {
                let g = generate(ChunkCoord { x: cx, y: cy, z: cz }, 1, &settings);
                wood_or_leaf += g
                    .cells
                    .iter()
                    .filter(|b| **b == BlockType::Wood || **b == BlockType::Leaf)
                    .count();
            }
        }
    }
    assert!(wood_or_leaf > 0, "no tree stamped anywhere in the probe area");
}

/// Half detail never places decorations.
#[test]
fn half_detail_chunks_have_no_decorations() {
    let settings = NoiseSettings::default();
    for cx in -3i32..=-1 {
        for cz in -3i32..=-1 {
            let g = generate(ChunkCoord { x: cx, y: 1, z: cz }, 2, &settings);
            assert!(g.cells.iter().all(|b| *b != BlockType::Wood && *b != BlockType::Leaf));
        }
    }
}
