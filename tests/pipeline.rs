use terrain_synth::color::{parse_hex_color, Rgb};
use terrain_synth::fixed::isqrt;
use terrain_synth::height_grid::{height_grid, noise_queries};
use terrain_synth::relief::{column_height, falloff, fractal_noise, piecewise_linear, NoiseQuery};
use terrain_synth::terrain_configuration::{configure_terrain, TerrainConfiguration};
use terrain_synth::voxel_mesh::{cubes_to_voxel_mesh, Column, Point3};

fn base_color() -> Rgb {
    Rgb { red: 0x30, green: 0x46, blue: 0x30 }
}

fn flat_terrain(width: i32, depth: i32) -> TerrainConfiguration {
    TerrainConfiguration::new(width, depth, 7, 1000, base_color(), 0, u32::MAX, 0, 1, 500, 2000)
}

#[test]
fn two_by_two_flat_footprint_gives_four_single_cubes() {
    let t = flat_terrain(2000, 2000);
    let samples = vec![300, -200, 900, 0];
    let mesh = configure_terrain(&t, &samples);
    assert_eq!(mesh.indices.len() / 3, 48);
    assert_eq!(mesh.positions.len(), 32);
    assert_eq!(mesh.colors.len(), 32);
    let grid = height_grid(&t, &samples);
    assert_eq!(grid.len(), 4);
    for column in &grid {
        assert_eq!(column.height, 1000);
    }
    assert_eq!(grid[1], Column { x: 0, y: 1000, height: 1000 });
    assert_eq!(grid[2], Column { x: 1000, y: 0, height: 1000 });
}

#[test]
fn empty_footprint_gives_empty_mesh() {
    let mesh = configure_terrain(&flat_terrain(0, 2000), &vec![]);
    assert!(mesh.positions.is_empty());
    assert!(mesh.indices.is_empty());
    let mesh = configure_terrain(&flat_terrain(3000, -5), &vec![]);
    assert!(mesh.positions.is_empty());
    let mesh = configure_terrain(&flat_terrain(1, 1), &vec![0]);
    assert_eq!(mesh.positions.len(), 8);
}

#[test]
fn regeneration_is_deterministic() {
    let t = TerrainConfiguration::new(3000, 2000, 99, 500, base_color(), 4000, 25000, 0, 3, 500, 2000);
    let samples: Vec<i32> = (0..72).map(|i| (i * 137) % 2001 - 1000).collect();
    let a = configure_terrain(&t, &samples);
    let b = configure_terrain(&t, &samples);
    assert_eq!(a.positions, b.positions);
    assert_eq!(a.indices, b.indices);
    assert_eq!(a.colors, b.colors);
    assert!(a.positions.len() >= 8 * 24);
}

#[test]
fn column_with_remainder_gets_a_partial_top_cube() {
    let t = flat_terrain(1000, 1000);
    let mesh = cubes_to_voxel_mesh(&vec![Column { x: 0, y: 0, height: 2500 }], &t);
    assert_eq!(mesh.indices.len() / 3, 3 * 12);
    assert_eq!(mesh.positions[16], Point3 { x: 0, y: 2000, z: 0 });
    assert_eq!(mesh.positions[18], Point3 { x: 1000, y: 2500, z: 0 });
    let mesh = cubes_to_voxel_mesh(&vec![Column { x: 0, y: 0, height: 2000 }], &t);
    assert_eq!(mesh.indices.len() / 3, 2 * 12);
    let mesh = cubes_to_voxel_mesh(&vec![Column { x: 0, y: 0, height: 400 }], &t);
    assert_eq!(mesh.indices.len() / 3, 12);
    assert_eq!(mesh.positions[2], Point3 { x: 1000, y: 400, z: 0 });
}

#[test]
fn cube_corners_and_winding() {
    let t = flat_terrain(1000, 1000);
    let mesh = cubes_to_voxel_mesh(&vec![Column { x: 3000, y: 5000, height: 1000 }], &t);
    assert_eq!(
        mesh.positions,
        vec![
            Point3 { x: 3000, y: 0, z: 5000 },
            Point3 { x: 4000, y: 0, z: 5000 },
            Point3 { x: 4000, y: 1000, z: 5000 },
            Point3 { x: 3000, y: 1000, z: 5000 },
            Point3 { x: 3000, y: 0, z: 6000 },
            Point3 { x: 4000, y: 0, z: 6000 },
            Point3 { x: 4000, y: 1000, z: 6000 },
            Point3 { x: 3000, y: 1000, z: 6000 },
        ]
    );
    assert_eq!(
        mesh.indices,
        vec![
            0, 2, 1, 0, 3, 2, 4, 5, 6, 4, 6, 7, 4, 3, 0, 4, 7, 3, 1, 6, 5, 1, 2, 6, 3, 6, 2, 3, 7,
            6, 4, 1, 5, 4, 0, 1
        ]
    );
    let second = cubes_to_voxel_mesh(
        &vec![Column { x: 0, y: 0, height: 1000 }, Column { x: 0, y: 1000, height: 1000 }],
        &t,
    );
    assert_eq!(second.indices[36], 8);
    assert_eq!(second.indices[71], 9);
}

#[test]
fn colors_lighten_toward_the_top() {
    let t = flat_terrain(1000, 1000);
    let mesh = cubes_to_voxel_mesh(&vec![Column { x: 0, y: 0, height: 1000 }], &t);
    assert_eq!(mesh.colors[0], Rgb { red: 0x30 + 60, green: 0x46 + 60, blue: 0x30 + 60 });
    let mesh = cubes_to_voxel_mesh(&vec![Column { x: 0, y: 0, height: 1500 }], &t);
    assert_eq!(mesh.colors[0], Rgb { red: 0x30 + 30, green: 0x46 + 30, blue: 0x30 + 30 });
    assert_eq!(mesh.colors[8], Rgb { red: 0x30 + 60, green: 0x46 + 60, blue: 0x30 + 60 });
    let bright = TerrainConfiguration::new(1000, 1000, 7, 1000, Rgb { red: 250, green: 0, blue: 195 }, 0, 1, 0, 1, 500, 2000);
    let mesh = cubes_to_voxel_mesh(&vec![Column { x: 0, y: 0, height: 1000 }], &bright);
    assert_eq!(mesh.colors[7], Rgb { red: 255, green: 60, blue: 255 });
}

#[test]
fn remap_curve_values() {
    assert_eq!(piecewise_linear(0), 0);
    assert_eq!(piecewise_linear(1000), 1000);
    assert_eq!(piecewise_linear(200), 20);
    assert_eq!(piecewise_linear(250), 35);
    assert_eq!(piecewise_linear(500), 150);
    assert_eq!(piecewise_linear(900), 700);
    assert_eq!(piecewise_linear(5000), 1000);
    let mut previous = 0;
    for x in 0..=1000u64 {
        let y = piecewise_linear(x);
        assert!(y >= previous);
        previous = y;
    }
}

#[test]
fn fractal_sum_is_normalized() {
    let t = TerrainConfiguration::new(1000, 1000, 1, 1000, base_color(), 1000, 1000, 0, 2, 500, 2000);
    assert_eq!(fractal_noise(&t, &vec![1000, 1000], 0), 1000);
    assert_eq!(fractal_noise(&t, &vec![0, 0], 0), 500);
    assert_eq!(fractal_noise(&t, &vec![-1000, 0], 0), 166);
    assert_eq!(fractal_noise(&t, &vec![-1000, -1000], 0), 0);
    assert_eq!(fractal_noise(&t, &vec![5, 0, 0, 7], 1), 500);
}

#[test]
fn falloff_flattens_far_columns() {
    assert_eq!(falloff(0, 0), 0);
    assert_eq!(falloff(500, 1000), 500);
    assert_eq!(falloff(1000, 1000), 0);
    assert_eq!(falloff(0, 1000), 1000);
    let t = TerrainConfiguration::new(100000, 100000, 1, 1000, base_color(), 50000, 5000, 0, 1, 500, 2000);
    assert_eq!(column_height(&t, 3000, 4000, &vec![1000], 0), 1000);
    assert_eq!(column_height(&t, 30000, 0, &vec![1000], 0), 1000);
    assert_eq!(column_height(&t, 0, 0, &vec![1000], 0), 51000);
    assert_eq!(column_height(&t, 3000, 0, &vec![1000], 0), 21000);
}

#[test]
fn integer_square_root() {
    assert_eq!(isqrt(0), 0);
    assert_eq!(isqrt(15), 3);
    assert_eq!(isqrt(16), 4);
    assert_eq!(isqrt(25_000_000), 5000);
    assert_eq!(isqrt(u64::MAX), 4294967295);
}

#[test]
fn noise_queries_follow_the_grid() {
    let t = TerrainConfiguration::new(2000, 1000, 5, 1000, base_color(), 0, 0, 77, 2, 500, 2000);
    let queries = noise_queries(&t);
    assert_eq!(
        queries,
        vec![
            NoiseQuery { seed: 5, x: 0, y: 0, z: 77 },
            NoiseQuery { seed: 5, x: 0, y: 0, z: 77 },
            NoiseQuery { seed: 5, x: 1000, y: 0, z: 77 },
            NoiseQuery { seed: 5, x: 2000, y: 0, z: 77 },
        ]
    );
}

#[test]
fn negative_gain_alternates_octave_signs() {
    let t = TerrainConfiguration::new(1000, 1000, 1, 1000, base_color(), 1000, 1000, 0, 2, -500, 2000);
    assert_eq!(fractal_noise(&t, &vec![1000, 1000], 0), 666);
    assert_eq!(fractal_noise(&t, &vec![1000, -1000], 0), 1000);
}

#[test]
fn frequencies_do_not_drift() {
    let t = TerrainConfiguration::new(2_000_000, 1, 5, 1_000_000, base_color(), 0, 0, 0, 4, 500, 333);
    let queries = noise_queries(&t);
    assert_eq!(queries.len(), 8);
    assert_eq!(queries[5], NoiseQuery { seed: 5, x: 333_000, y: 0, z: 0 });
    assert_eq!(queries[6], NoiseQuery { seed: 5, x: 110_889, y: 0, z: 0 });
    assert_eq!(queries[7], NoiseQuery { seed: 5, x: 36_926, y: 0, z: 0 });
}

#[test]
fn negative_lacunarity_mirrors_coordinates() {
    let t = TerrainConfiguration::new(2000, 1, 5, 1000, base_color(), 0, 0, 0, 2, 500, -2000);
    let queries = noise_queries(&t);
    assert_eq!(queries[3], NoiseQuery { seed: 5, x: -2000, y: 0, z: 0 });
}

#[test]
fn hex_colors() {
    assert_eq!(parse_hex_color("304630"), Some(Rgb { red: 0x30, green: 0x46, blue: 0x30 }));
    assert_eq!(parse_hex_color("4955FF"), Some(Rgb { red: 0x49, green: 0x55, blue: 0xff }));
    assert_eq!(parse_hex_color("12345"), None);
    assert_eq!(parse_hex_color("1234567"), None);
    assert_eq!(parse_hex_color("zz0000"), None);
    assert_eq!(parse_hex_color("+f0000"), None);
}
