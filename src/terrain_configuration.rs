//! The terrain parameter snapshot and how an edit replaces one of its fields.
use vstd::prelude::*;
use crate::color::Rgb;
use crate::configuration::{field_of, in_domain, ConfigurationMessage};
use crate::height_grid::{
    columns_along, height_grid, height_grid_of, lemma_grid_position_bounds, sample_count,
};
use crate::relief::{lemma_column_height_bounds, lemma_falloff_boundary};
use crate::voxel_mesh::{
    column_voxels, cubes_to_voxel_mesh, graded_color, grid_voxels, lemma_grid_voxel_count,
    lemma_mesh_sizes, mesh_positions, point, Voxel, VoxelMesh,
};
use vstd::arithmetic::div_mod::lemma_div_pos_is_pos;

verus! {

/// Parameters of the generated terrain. Lengths and heights are fixed-point
/// thousandths of a unit, and so are `fractal_amplitude` (the gain: amplitude
/// factor from one octave to the next) and `fractal_frequency` (the
/// lacunarity: frequency factor from one octave to the next).
#[derive(Clone, Copy, Debug, PartialEq, Eq, Structural)]
pub struct TerrainConfiguration {
    /// Extent of the footprint along x; no column when it is not positive.
    pub tot_width: i32,
    /// Extent of the footprint along the depth axis.
    pub tot_depth: i32,
    pub seed: i64,
    /// Edge of one voxel.
    pub cube_size: u32,
    pub color: Rgb,
    pub max_height: u32,
    /// Falloff radius: columns at least this far from the origin stay flat.
    pub failoff: u32,
    /// Fixed depth coordinate in noise space.
    pub z: i64,
    pub fractal_octaves: u32,
    pub fractal_amplitude: i32,
    pub fractal_frequency: i32,
}

impl TerrainConfiguration {
    /// A usable snapshot: voxels have a positive edge and there is at least
    /// one octave.
    pub open spec fn wf(&self) -> bool {
        self.cube_size > 0 && self.fractal_octaves >= 1
    }

    pub fn new(
        tot_width: i32,
        tot_depth: i32,
        seed: i64,
        cube_size: u32,
        color: Rgb,
        max_height: u32,
        failoff: u32,
        z: i64,
        fractal_octaves: u32,
        fractal_amplitude: i32,
        fractal_frequency: i32,
    ) -> (r: Self)
        ensures
            r == (TerrainConfiguration {
                tot_width,
                tot_depth,
                seed,
                cube_size,
                color,
                max_height,
                failoff,
                z,
                fractal_octaves,
                fractal_amplitude,
                fractal_frequency,
            }),
    {
        TerrainConfiguration {
            tot_width,
            tot_depth,
            seed,
            cube_size,
            color,
            max_height,
            failoff,
            z,
            fractal_octaves,
            fractal_amplitude,
            fractal_frequency,
        }
    }
}

/// The snapshot after one optional edit. Edits of camera fields, and values
/// outside a field's domain (see `in_domain`), leave it as it is.
pub open spec fn terrain_after(t: TerrainConfiguration, msg: Option<ConfigurationMessage>) -> TerrainConfiguration {
    match msg {
        Some(ConfigurationMessage::TerrainWidth(v)) => TerrainConfiguration { tot_width: v, ..t },
        Some(ConfigurationMessage::TerrainDepth(v)) => TerrainConfiguration { tot_depth: v, ..t },
        Some(ConfigurationMessage::TerrainSeed(v)) => TerrainConfiguration { seed: v, ..t },
        Some(ConfigurationMessage::TerrainCubeSize(v)) => if v > 0 {
            TerrainConfiguration { cube_size: v as u32, ..t }
        } else {
            t
        },
        Some(ConfigurationMessage::TerrainColor(v)) => TerrainConfiguration { color: v, ..t },
        Some(ConfigurationMessage::TerrainMaxHeight(v)) => if v >= 0 {
            TerrainConfiguration { max_height: v as u32, ..t }
        } else {
            t
        },
        Some(ConfigurationMessage::TerrainFailoff(v)) => if v >= 0 {
            TerrainConfiguration { failoff: v as u32, ..t }
        } else {
            t
        },
        Some(ConfigurationMessage::TerrainZ(v)) => TerrainConfiguration { z: v, ..t },
        Some(ConfigurationMessage::TerrainFractalOctaves(v)) => if v >= 1 {
            TerrainConfiguration { fractal_octaves: v as u32, ..t }
        } else {
            t
        },
        Some(ConfigurationMessage::TerrainFractalAmplitude(v)) => TerrainConfiguration {
            fractal_amplitude: v,
            ..t
        },
        Some(ConfigurationMessage::TerrainFractalFrequency(v)) => TerrainConfiguration {
            fractal_frequency: v,
            ..t
        },
        _ => t,
    }
}

/// Applies one optional edit to the terrain snapshot.
pub fn update_configuration(
    terrain_configuration: TerrainConfiguration,
    msg: Option<ConfigurationMessage>,
) -> (r: TerrainConfiguration)
    ensures
        r == terrain_after(terrain_configuration, msg),
        terrain_configuration.wf() ==> r.wf(),
        msg is Some && !in_domain(msg->Some_0) ==> r == terrain_configuration,
{
    let t = terrain_configuration;
    match msg {
        Some(ConfigurationMessage::TerrainWidth(v)) => TerrainConfiguration { tot_width: v, ..t },
        Some(ConfigurationMessage::TerrainDepth(v)) => TerrainConfiguration { tot_depth: v, ..t },
        Some(ConfigurationMessage::TerrainSeed(v)) => TerrainConfiguration { seed: v, ..t },
        Some(ConfigurationMessage::TerrainCubeSize(v)) => if v > 0 {
            TerrainConfiguration { cube_size: v as u32, ..t }
        } else {
            t
        },
        Some(ConfigurationMessage::TerrainColor(v)) => TerrainConfiguration { color: v, ..t },
        Some(ConfigurationMessage::TerrainMaxHeight(v)) => if v >= 0 {
            TerrainConfiguration { max_height: v as u32, ..t }
        } else {
            t
        },
        Some(ConfigurationMessage::TerrainFailoff(v)) => if v >= 0 {
            TerrainConfiguration { failoff: v as u32, ..t }
        } else {
            t
        },
        Some(ConfigurationMessage::TerrainZ(v)) => TerrainConfiguration { z: v, ..t },
        Some(ConfigurationMessage::TerrainFractalOctaves(v)) => if v >= 1 {
            TerrainConfiguration { fractal_octaves: v as u32, ..t }
        } else {
            t
        },
        Some(ConfigurationMessage::TerrainFractalAmplitude(v)) => TerrainConfiguration {
            fractal_amplitude: v,
            ..t
        },
        Some(ConfigurationMessage::TerrainFractalFrequency(v)) => TerrainConfiguration {
            fractal_frequency: v,
            ..t
        },
        _ => t,
    }
}

/// With no edit pending, the snapshot is returned unchanged.
pub proof fn lemma_no_update_is_identity(t: TerrainConfiguration)
    ensures
        terrain_after(t, None) == t,
{
}

/// Edits of two different fields give the same snapshot in either order.
pub proof fn lemma_independent_updates_commute(
    t: TerrainConfiguration,
    a: ConfigurationMessage,
    b: ConfigurationMessage,
)
    requires
        field_of(a) != field_of(b),
    ensures
        terrain_after(terrain_after(t, Some(a)), Some(b)) == terrain_after(
            terrain_after(t, Some(b)),
            Some(a),
        ),
{
}

/// Of two edits of the same field, the later one decides the result when its
/// value is in the field's domain.
pub proof fn lemma_later_update_wins(
    t: TerrainConfiguration,
    a: ConfigurationMessage,
    b: ConfigurationMessage,
)
    requires
        field_of(a) == field_of(b),
        in_domain(b),
    ensures
        terrain_after(terrain_after(t, Some(a)), Some(b)) == terrain_after(t, Some(b)),
{
}

/// The voxels of the whole terrain: the columns of the height grid, each as
/// its stack of voxels.
pub open spec fn terrain_voxels(t: TerrainConfiguration, samples: Seq<i32>) -> Seq<Voxel> {
    grid_voxels(height_grid_of(t, samples), t.cube_size as int, t.color)
}

/// Regenerates the terrain mesh from the configuration and the noise samples
/// of its columns (`fractal_octaves` per column, in grid order).
pub fn configure_terrain(terrain_configuration: &TerrainConfiguration, samples: &Vec<i32>) -> (r:
    VoxelMesh)
    requires
        terrain_configuration.wf(),
        samples.len() == sample_count(*terrain_configuration),
    ensures
        r.holds(terrain_voxels(*terrain_configuration, samples@)),
{
    let terrain = height_grid(terrain_configuration, samples);
    cubes_to_voxel_mesh(&terrain, terrain_configuration)
}

/// The mesh has vertices exactly when the footprint is positive both ways.
pub proof fn lemma_mesh_nonempty_iff_footprint(t: TerrainConfiguration, samples: Seq<i32>)
    requires
        t.wf(),
        samples.len() == sample_count(t),
    ensures
        (mesh_positions(terrain_voxels(t, samples)).len() > 0) == (t.tot_width > 0 && t.tot_depth
            > 0),
{
    let size = t.cube_size as int;
    let grid = height_grid_of(t, samples);
    let nx = columns_along(t.tot_width as int, size);
    let ny = columns_along(t.tot_depth as int, size);
    if t.tot_width > 0 {
        lemma_div_pos_is_pos(t.tot_width - 1, size);
    }
    if t.tot_depth > 0 {
        lemma_div_pos_is_pos(t.tot_depth - 1, size);
    }
    assert(nx >= 0 && ny >= 0);
    assert((nx * ny > 0) == (nx > 0 && ny > 0)) by (nonlinear_arith)
        requires
            nx >= 0,
            ny >= 0,
    ;
    assert forall|i: int| 0 <= i < grid.len() implies (#[trigger] grid[i]).height >= size by {
        let n = ny;
        let x = (i / n) * size;
        let y = (i % n) * size;
        lemma_column_height_bounds(
            t,
            x,
            y,
            samples.subrange(i * t.fractal_octaves, i * t.fractal_octaves + t.fractal_octaves),
        );
    }
    lemma_grid_voxel_count(grid, size, t.color);
    lemma_mesh_sizes(terrain_voxels(t, samples));
    if grid.len() == 0 {
        assert(grid =~= Seq::<crate::voxel_mesh::Column>::empty());
        assert(terrain_voxels(t, samples).len() == 0);
    }
}

/// Two meshes built from the same configuration and the same samples are
/// identical, buffer for buffer.
pub proof fn lemma_regeneration_is_deterministic(
    t: TerrainConfiguration,
    samples: Seq<i32>,
    first: VoxelMesh,
    second: VoxelMesh,
)
    requires
        first.holds(terrain_voxels(t, samples)),
        second.holds(terrain_voxels(t, samples)),
    ensures
        first.positions@ == second.positions@,
        first.indices@ == second.indices@,
        first.colors@ == second.colors@,
{
}

/// A grid column at least `failoff` from the origin is, whatever its noise
/// samples, one whole voxel: a cube of edge `cube_size` standing on the
/// ground.
pub proof fn lemma_far_column_is_one_voxel(t: TerrainConfiguration, samples: Seq<i32>, c: int)
    requires
        t.wf(),
        0 <= c < height_grid_of(t, samples).len(),
        ({
            let col = height_grid_of(t, samples)[c];
            col.x * col.x + col.y * col.y >= t.failoff * t.failoff
        }),
    ensures
        column_voxels(height_grid_of(t, samples)[c], t.cube_size as int, t.color) == seq![
            Voxel {
                corner: point(height_grid_of(t, samples)[c].x as int, 0, height_grid_of(t, samples)[c].y as int),
                size: t.cube_size as u64,
                height: t.cube_size as u64,
                color: graded_color(t.color, 0, 1),
            },
        ],
{
    let size = t.cube_size as int;
    let n = columns_along(t.tot_depth as int, size);
    let x = (c / n) * size;
    let y = (c % n) * size;
    let col = height_grid_of(t, samples)[c];
    let column = samples.subrange(c * t.fractal_octaves, c * t.fractal_octaves + t.fractal_octaves);
    lemma_column_height_bounds(t, x, y, column);
    lemma_grid_position_bounds(t, c);
    assert(col.x as int == x && col.y as int == y);
    lemma_falloff_boundary(t, x, y, column);
    assert(col.height == size);
    assert(size / size == 1 && size % size == 0) by (nonlinear_arith)
        requires
            size > 0,
    ;
    assert(column_voxels(col, size, t.color) =~= seq![
        Voxel {
            corner: point(col.x as int, 0, col.y as int),
            size: t.cube_size as u64,
            height: t.cube_size as u64,
            color: graded_color(t.color, 0, 1),
        },
    ]);
}

} // verus!
