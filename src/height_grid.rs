//! The grid of columns laid over the terrain's footprint, and the height of
//! each.
use vstd::prelude::*;
use vstd::arithmetic::div_mod::{lemma_fundamental_div_mod, lemma_fundamental_div_mod_converse};
use crate::relief::{
    column_height, column_height_of, lemma_octave_frequency_bounds, next_frequency, octave_frequency,
    octave_query, scale_coordinate, NoiseQuery, FREQUENCY_ONE,
};
use crate::terrain_configuration::TerrainConfiguration;
use crate::voxel_mesh::{column_in_range, Column};

verus! {

/// Number of columns along an axis of length `extent`: the `i >= 0` with
/// `i * size < extent`.
pub open spec fn columns_along(extent: int, size: int) -> int {
    if extent <= 0 {
        0
    } else {
        (extent - 1) / size + 1
    }
}

/// Number of columns of the footprint.
pub open spec fn column_total(t: TerrainConfiguration) -> int {
    columns_along(t.tot_width as int, t.cube_size as int) * columns_along(
        t.tot_depth as int,
        t.cube_size as int,
    )
}

/// Number of noise samples the terrain needs: one per octave per column.
pub open spec fn sample_count(t: TerrainConfiguration) -> int {
    column_total(t) * t.fractal_octaves
}

/// The samples of column `c`: one per octave, in octave order.
pub open spec fn column_samples(t: TerrainConfiguration, samples: Seq<i32>, c: int) -> Seq<i32> {
    samples.subrange(c * t.fractal_octaves, c * t.fractal_octaves + t.fractal_octaves)
}

/// Column `c` of the grid. Columns run along the depth axis first: column
/// `c` stands at `x = (c / n) * size`, `y = (c % n) * size`, where `n` is the
/// number of columns along the depth axis.
pub open spec fn grid_column(t: TerrainConfiguration, samples: Seq<i32>, c: int) -> Column {
    let size = t.cube_size as int;
    let n = columns_along(t.tot_depth as int, size);
    let x = (c / n) * size;
    let y = (c % n) * size;
    Column {
        x: x as i64,
        y: y as i64,
        height: column_height_of(t, x, y, column_samples(t, samples, c)) as u64,
    }
}

/// The whole height grid.
pub open spec fn height_grid_of(t: TerrainConfiguration, samples: Seq<i32>) -> Seq<Column> {
    Seq::new(column_total(t) as nat, |c: int| grid_column(t, samples, c))
}

proof fn lemma_columns_along(extent: int, size: int, i: int)
    requires
        size > 0,
        i >= 0,
    ensures
        (i * size < extent) == (i < columns_along(extent, size)),
        columns_along(extent, size) >= 0,
{
    assert(i * size >= 0) by (nonlinear_arith)
        requires
            i >= 0,
            size > 0,
    ;
    if extent > 0 {
        let q = (extent - 1) / size;
        let r = (extent - 1) % size;
        lemma_fundamental_div_mod(extent - 1, size);
        assert(q >= 0) by (nonlinear_arith)
            requires
                extent - 1 == size * q + r,
                0 <= r < size,
                extent - 1 >= 0,
        ;
        if i <= q {
            assert(i * size < extent) by (nonlinear_arith)
                requires
                    i <= q,
                    size > 0,
                    extent - 1 == size * q + r,
                    0 <= r,
            ;
        } else {
            assert(i * size >= extent) by (nonlinear_arith)
                requires
                    i >= q + 1,
                    size > 0,
                    extent - 1 == size * q + r,
                    r < size,
            ;
        }
    }
}

proof fn lemma_column_total_nonneg(t: TerrainConfiguration)
    requires
        t.wf(),
    ensures
        columns_along(t.tot_width as int, t.cube_size as int) >= 0,
        columns_along(t.tot_depth as int, t.cube_size as int) >= 0,
        column_total(t) >= 0,
{
    lemma_columns_along(t.tot_width as int, t.cube_size as int, 0);
    lemma_columns_along(t.tot_depth as int, t.cube_size as int, 0);
    let a = columns_along(t.tot_width as int, t.cube_size as int);
    let b = columns_along(t.tot_depth as int, t.cube_size as int);
    assert(a * b >= 0) by (nonlinear_arith)
        requires
            a >= 0,
            b >= 0,
    ;
}

/// Computes the height of every column of the footprint from the noise
/// samples, `fractal_octaves` of them per column, columns in grid order.
pub fn height_grid(terrain_configuration: &TerrainConfiguration, samples: &Vec<i32>) -> (r: Vec<
    Column,
>)
    requires
        terrain_configuration.wf(),
        samples.len() == sample_count(*terrain_configuration),
    ensures
        r@ == height_grid_of(*terrain_configuration, samples@),
        forall|c: int| 0 <= c < r.len() ==> column_in_range(#[trigger] r[c]),
{
    let t = terrain_configuration;
    let size = t.cube_size as i64;
    let octaves = t.fractal_octaves as usize;
    let ghost nx = columns_along(t.tot_width as int, size as int);
    let ghost ny = columns_along(t.tot_depth as int, size as int);
    let ghost spec_grid = height_grid_of(*t, samples@);
    proof {
        lemma_column_total_nonneg(*t);
    }
    let mut grid: Vec<Column> = Vec::new();
    let mut x: i64 = 0;
    let ghost mut i: int = 0;
    assert(spec_grid.take(0) =~= grid@);
    while x < t.tot_width as i64
        invariant
            t == terrain_configuration,
            t.wf(),
            size == t.cube_size,
            octaves == t.fractal_octaves,
            samples.len() == sample_count(*t),
            nx == columns_along(t.tot_width as int, size as int),
            ny == columns_along(t.tot_depth as int, size as int),
            nx >= 0,
            ny >= 0,
            spec_grid == height_grid_of(*t, samples@),
            0 <= i <= nx,
            x == i * size,
            0 <= x <= 6442450944,
            grid.len() == i * ny,
            grid@ == spec_grid.take(i * ny),
            forall|c: int| 0 <= c < grid.len() ==> column_in_range(#[trigger] grid[c]),
        decreases nx - i,
    {
        proof {
            lemma_columns_along(t.tot_width as int, size as int, i);
        }
        let mut y: i64 = 0;
        let ghost mut j: int = 0;
        while y < t.tot_depth as i64
            invariant
                t == terrain_configuration,
                t.wf(),
                size == t.cube_size,
                octaves == t.fractal_octaves,
                samples.len() == sample_count(*t),
                nx == columns_along(t.tot_width as int, size as int),
                ny == columns_along(t.tot_depth as int, size as int),
                spec_grid == height_grid_of(*t, samples@),
                0 <= i < nx,
                0 <= x < t.tot_width,
                x == i * size,
                0 <= j <= ny,
                y == j * size,
                0 <= y <= 6442450944,
                grid.len() == i * ny + j,
                grid@ == spec_grid.take(i * ny + j),
                forall|c: int| 0 <= c < grid.len() ==> column_in_range(#[trigger] grid[c]),
            decreases ny - j,
        {
            proof {
                lemma_columns_along(t.tot_depth as int, size as int, j);
                assert((i * ny + j) * octaves + octaves <= nx * ny * octaves) by (nonlinear_arith)
                    requires
                        0 <= i < nx,
                        0 <= j < ny,
                        octaves >= 0,
                ;
                lemma_fundamental_div_mod_converse(i * ny + j, ny, i, j);
                assert(i * ny + j < nx * ny) by (nonlinear_arith)
                    requires
                        0 <= i < nx,
                        0 <= j < ny,
                ;
            }
            let c = grid.len();
            let start = c * octaves;
            let height = column_height(t, x, y, samples, start);
            let col = Column { x, y, height };
            assert(col == spec_grid[c as int]);
            grid.push(col);
            assert(grid@ =~= spec_grid.take(i * ny + j + 1));
            y = y + size;
            proof {
                j = j + 1;
                assert(y == j * size) by (nonlinear_arith)
                    requires
                        y == (j - 1) * size + size,
                ;
            }
        }
        proof {
            lemma_columns_along(t.tot_depth as int, size as int, j);
            assert((i + 1) * ny == i * ny + ny) by (nonlinear_arith);
        }
        x = x + size;
        proof {
            i = i + 1;
            assert(x == i * size) by (nonlinear_arith)
                requires
                    x == (i - 1) * size + size,
            ;
        }
    }
    proof {
        lemma_columns_along(t.tot_width as int, size as int, i);
    }
    assert(grid@ =~= spec_grid);
    grid
}

/// Query `q` of the terrain: octave `q % fractal_octaves` of grid column
/// `q / fractal_octaves`, so that the queries line up with the samples that
/// `height_grid` reads.
pub open spec fn noise_query_of(t: TerrainConfiguration, q: int) -> NoiseQuery {
    let col = grid_position(t, q / t.fractal_octaves as int);
    octave_query(t, col.0, col.1, (q % t.fractal_octaves as int) as nat)
}

/// Ground coordinates of grid column `c`.
pub open spec fn grid_position(t: TerrainConfiguration, c: int) -> (int, int) {
    let size = t.cube_size as int;
    let n = columns_along(t.tot_depth as int, size);
    ((c / n) * size, (c % n) * size)
}

fn columns_along_exec(extent: i32, size: u32) -> (r: u64)
    requires
        size > 0,
    ensures
        r == columns_along(extent as int, size as int),
        r <= 2147483647,
{
    if extent <= 0 {
        0
    } else {
        assert((extent - 1) / (size as int) <= extent - 1) by (nonlinear_arith)
            requires
                extent - 1 >= 0,
                size >= 1,
        ;
        ((extent - 1) as u64) / (size as u64) + 1
    }
}

/// Lists every noise lookup the terrain needs, in the order in which
/// `height_grid` and `configure_terrain` take the samples.
pub fn noise_queries(terrain_configuration: &TerrainConfiguration) -> (r: Vec<NoiseQuery>)
    requires
        terrain_configuration.wf(),
        sample_count(*terrain_configuration) <= usize::MAX,
    ensures
        r@ == Seq::new(
            sample_count(*terrain_configuration) as nat,
            |q: int| noise_query_of(*terrain_configuration, q),
        ),
{
    let t = terrain_configuration;
    let size = t.cube_size as u64;
    let octaves = t.fractal_octaves as u64;
    let lacunarity = t.fractal_frequency;
    let nx = columns_along_exec(t.tot_width, t.cube_size);
    let ny = columns_along_exec(t.tot_depth, t.cube_size);
    let ghost total = sample_count(*t);
    let ghost spec_queries = Seq::new(total as nat, |q: int| noise_query_of(*t, q));
    assert(nx * ny <= 2147483647 * 2147483647) by (nonlinear_arith)
        requires
            nx <= 2147483647,
            ny <= 2147483647,
    ;
    let columns = nx * ny;
    let mut queries: Vec<NoiseQuery> = Vec::new();
    let mut c: u64 = 0;
    assert(queries@ =~= spec_queries.take(0));
    while c < columns
        invariant
            t == terrain_configuration,
            t.wf(),
            size == t.cube_size,
            octaves == t.fractal_octaves,
            lacunarity == t.fractal_frequency,
            nx == columns_along(t.tot_width as int, size as int),
            ny == columns_along(t.tot_depth as int, size as int),
            nx <= 2147483647,
            ny <= 2147483647,
            columns == nx * ny,
            total == sample_count(*t),
            total == columns * octaves,
            total <= usize::MAX,
            spec_queries == Seq::new(total as nat, |q: int| noise_query_of(*t, q)),
            c <= columns,
            queries.len() == c * octaves,
            queries@ == spec_queries.take(c * octaves),
        decreases columns - c,
    {
        proof {
            lemma_fundamental_div_mod(c as int, ny as int);
            assert(c / ny < nx) by (nonlinear_arith)
                requires
                    c < nx * ny,
                    c == ny * (c / ny) + c % ny,
                    c % ny >= 0,
                    ny > 0,
            ;
            lemma_columns_along(t.tot_width as int, size as int, (c / ny) as int);
            lemma_columns_along(t.tot_depth as int, size as int, (c % ny) as int);
            assert(c * octaves + octaves <= total) by (nonlinear_arith)
                requires
                    c < columns,
                    total == columns * octaves,
                    octaves >= 0,
            ;
        }
        let x = (c / ny) * size;
        let y = (c % ny) * size;
        let mut frequency: i128 = FREQUENCY_ONE;
        let mut k: u64 = 0;
        while k < octaves
            invariant
                t == terrain_configuration,
                octaves == t.fractal_octaves,
                octaves >= 1,
                lacunarity == t.fractal_frequency,
                x <= 2147483647,
                y <= 2147483647,
                x == grid_position(*t, c as int).0,
                y == grid_position(*t, c as int).1,
                spec_queries == Seq::new(total as nat, |q: int| noise_query_of(*t, q)),
                c * octaves + octaves <= total,
                total <= usize::MAX,
                k <= octaves,
                frequency == octave_frequency(lacunarity as int, k as nat),
                queries.len() == c * octaves + k,
                queries@ == spec_queries.take(c * octaves + k),
            decreases octaves - k,
        {
            proof {
                lemma_octave_frequency_bounds(lacunarity as int, k as nat);
            }
            let query = NoiseQuery {
                seed: t.seed,
                x: scale_coordinate(x as i64, frequency),
                y: scale_coordinate(y as i64, frequency),
                z: t.z,
            };
            proof {
                let q = c * octaves + k;
                lemma_fundamental_div_mod_converse(q as int, octaves as int, c as int, k as int);
                assert(query == spec_queries[q as int]);
            }
            queries.push(query);
            assert(queries@ =~= spec_queries.take(c * octaves + k + 1));
            frequency = next_frequency(frequency, lacunarity);
            k = k + 1;
        }
        assert(c * octaves + octaves == (c + 1) * octaves) by (nonlinear_arith);
        c = c + 1;
    }
    assert(queries@ =~= spec_queries);
    queries
}

/// Number of noise samples the terrain needs, when it fits in a `usize`.
pub fn sample_total(terrain_configuration: &TerrainConfiguration) -> (r: Option<usize>)
    requires
        terrain_configuration.wf(),
    ensures
        r == if sample_count(*terrain_configuration) <= usize::MAX {
            Some(sample_count(*terrain_configuration) as usize)
        } else {
            None
        },
{
    let t = terrain_configuration;
    let nx = columns_along_exec(t.tot_width, t.cube_size);
    let ny = columns_along_exec(t.tot_depth, t.cube_size);
    assert(nx * ny <= 2147483647 * 2147483647) by (nonlinear_arith)
        requires
            nx <= 2147483647,
            ny <= 2147483647,
    ;
    assert(nx * ny * t.fractal_octaves <= 2147483647 * 2147483647 * 4294967295) by (nonlinear_arith)
        requires
            nx <= 2147483647,
            ny <= 2147483647,
            t.fractal_octaves <= 4294967295,
    ;
    let total = (nx as u128) * (ny as u128) * (t.fractal_octaves as u128);
    if total <= usize::MAX as u128 {
        Some(total as usize)
    } else {
        None
    }
}

/// Every grid column stands inside the footprint.
pub proof fn lemma_grid_position_bounds(t: TerrainConfiguration, c: int)
    requires
        t.wf(),
        0 <= c < column_total(t),
    ensures
        0 <= grid_position(t, c).0 < t.tot_width,
        0 <= grid_position(t, c).1 < t.tot_depth,
{
    let size = t.cube_size as int;
    let nx = columns_along(t.tot_width as int, size);
    let ny = columns_along(t.tot_depth as int, size);
    lemma_column_total_nonneg(t);
    assert(ny > 0) by (nonlinear_arith)
        requires
            0 <= c < nx * ny,
            nx >= 0,
            ny >= 0,
    ;
    lemma_fundamental_div_mod(c, ny);
    assert(0 <= c / ny < nx) by (nonlinear_arith)
        requires
            c < nx * ny,
            c >= 0,
            c == ny * (c / ny) + c % ny,
            0 <= c % ny < ny,
    ;
    lemma_columns_along(t.tot_width as int, size, c / ny);
    lemma_columns_along(t.tot_depth as int, size, c % ny);
    assert((c / ny) * size >= 0 && (c % ny) * size >= 0) by (nonlinear_arith)
        requires
            c / ny >= 0,
            c % ny >= 0,
            size > 0,
    ;
}

} // verus!
