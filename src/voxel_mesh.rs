//! Turning a grid of column heights into a mesh of stacked cubes.
use vstd::prelude::*;
use vstd::arithmetic::div_mod::{lemma_div_is_ordered, lemma_div_multiples_vanish, lemma_fundamental_div_mod};
use crate::color::Rgb;
use crate::terrain_configuration::TerrainConfiguration;

verus! {

/// A vertex position; `y` is the vertical axis.
#[derive(Clone, Copy, Debug, PartialEq, Eq, Structural)]
pub struct Point3 {
    pub x: i64,
    pub y: i64,
    pub z: i64,
}

/// One cell of the height grid: the column standing on `(x, y)` of the
/// ground plane, `height` high.
#[derive(Clone, Copy, Debug, PartialEq, Eq, Structural)]
pub struct Column {
    pub x: i64,
    pub y: i64,
    pub height: u64,
}

/// One axis-aligned box of a column: `size` wide and deep, `height` high,
/// standing on its lowest corner `corner`.
#[derive(Clone, Copy, Debug, PartialEq, Eq, Structural)]
pub struct Voxel {
    pub corner: Point3,
    pub size: u64,
    pub height: u64,
    pub color: Rgb,
}

/// Triangle mesh: vertex positions, three indices into `positions` per
/// triangle, and one color per vertex.
pub struct VoxelMesh {
    pub positions: Vec<Point3>,
    pub indices: Vec<usize>,
    pub colors: Vec<Rgb>,
}

pub open spec fn point(x: int, y: int, z: int) -> Point3 {
    Point3 { x: x as i64, y: y as i64, z: z as i64 }
}

/// The eight corners of a voxel: the four of its front face (bottom left,
/// bottom right, top right, top left), then the same four of its back face.
pub open spec fn voxel_corners(v: Voxel) -> Seq<Point3> {
    let x = v.corner.x as int;
    let y = v.corner.y as int;
    let z = v.corner.z as int;
    let s = v.size as int;
    let h = v.height as int;
    seq![
        point(x, y, z),
        point(x + s, y, z),
        point(x + s, y + h, z),
        point(x, y + h, z),
        point(x, y, z + s),
        point(x + s, y, z + s),
        point(x + s, y + h, z + s),
        point(x, y + h, z + s),
    ]
}

pub open spec fn triangle(start: int, a: int, b: int, c: int) -> Seq<usize> {
    seq![(start + a) as usize, (start + b) as usize, (start + c) as usize]
}

/// The twelve triangles of a voxel whose corners begin at index `start`, two
/// per face, front, back, left, right, top, bottom; each is wound
/// counter-clockwise seen from outside, so that its right-hand normal points
/// out of the voxel (see `lemma_voxel_faces_point_outward`).
pub open spec fn voxel_indices(start: int) -> Seq<usize> {
    triangle(start, 0, 2, 1) + triangle(start, 0, 3, 2) + triangle(start, 4, 5, 6) + triangle(
        start,
        4,
        6,
        7,
    ) + triangle(start, 4, 3, 0) + triangle(start, 4, 7, 3) + triangle(start, 1, 6, 5)
        + triangle(start, 1, 2, 6) + triangle(start, 3, 6, 2) + triangle(start, 3, 7, 6)
        + triangle(start, 4, 1, 5) + triangle(start, 4, 0, 1)
}

pub open spec fn voxel_colors(v: Voxel) -> Seq<Rgb> {
    Seq::new(8, |i: int| v.color)
}

pub open spec fn mesh_positions(voxels: Seq<Voxel>) -> Seq<Point3>
    decreases voxels.len(),
{
    if voxels.len() == 0 {
        Seq::empty()
    } else {
        mesh_positions(voxels.drop_last()) + voxel_corners(voxels.last())
    }
}

pub open spec fn mesh_indices(voxels: Seq<Voxel>) -> Seq<usize>
    decreases voxels.len(),
{
    if voxels.len() == 0 {
        Seq::empty()
    } else {
        mesh_indices(voxels.drop_last()) + voxel_indices(8 * (voxels.len() - 1))
    }
}

pub open spec fn mesh_colors(voxels: Seq<Voxel>) -> Seq<Rgb>
    decreases voxels.len(),
{
    if voxels.len() == 0 {
        Seq::empty()
    } else {
        mesh_colors(voxels.drop_last()) + voxel_colors(voxels.last())
    }
}

impl VoxelMesh {
    /// The mesh is exactly the voxels `voxels`, in that order.
    pub open spec fn holds(&self, voxels: Seq<Voxel>) -> bool {
        &&& self.positions@ == mesh_positions(voxels)
        &&& self.indices@ == mesh_indices(voxels)
        &&& self.colors@ == mesh_colors(voxels)
    }
}

/// Each voxel brings eight vertices, eight colors and twelve triangles.
pub proof fn lemma_mesh_sizes(voxels: Seq<Voxel>)
    ensures
        mesh_positions(voxels).len() == 8 * voxels.len(),
        mesh_colors(voxels).len() == 8 * voxels.len(),
        mesh_indices(voxels).len() == 36 * voxels.len(),
    decreases voxels.len(),
{
    if voxels.len() > 0 {
        lemma_mesh_sizes(voxels.drop_last());
        assert(voxel_indices(8 * (voxels.len() - 1)).len() == 36);
    }
}

/// Largest coordinate of a column on the ground plane.
pub const GROUND_LIMIT: i64 = 2147483648;

/// Largest column height the mesher takes.
pub const HEIGHT_LIMIT: u64 = 17179869184;

pub open spec fn voxel_in_range(v: Voxel) -> bool {
    &&& 0 <= v.corner.x <= GROUND_LIMIT
    &&& 0 <= v.corner.z <= GROUND_LIMIT
    &&& 0 <= v.corner.y
    &&& v.corner.y + v.height <= 2 * HEIGHT_LIMIT
    &&& v.size <= u32::MAX
}

fn push_triangle(indices: &mut Vec<usize>, start: usize, a: usize, b: usize, c: usize)
    requires
        start + 8 <= usize::MAX,
        a < 8,
        b < 8,
        c < 8,
    ensures
        final(indices)@ == old(indices)@ + triangle(start as int, a as int, b as int, c as int),
{
    indices.push(start + a);
    indices.push(start + b);
    indices.push(start + c);
    assert(final(indices)@ =~= old(indices)@ + triangle(start as int, a as int, b as int, c as int));
}

/// Appends one voxel to the mesh.
fn add_cube(mesh: &mut VoxelMesh, v: Voxel, Ghost(voxels): Ghost<Seq<Voxel>>)
    requires
        old(mesh).holds(voxels),
        voxel_in_range(v),
    ensures
        final(mesh).holds(voxels.push(v)),
{
    proof {
        lemma_mesh_sizes(voxels);
        assert(voxels.push(v).drop_last() =~= voxels);
    }
    let x = v.corner.x;
    let y = v.corner.y;
    let z = v.corner.z;
    let s = v.size as i64;
    let h = v.height as i64;
    mesh.positions.push(Point3 { x, y, z });
    mesh.positions.push(Point3 { x: x + s, y, z });
    mesh.positions.push(Point3 { x: x + s, y: y + h, z });
    mesh.positions.push(Point3 { x, y: y + h, z });
    mesh.positions.push(Point3 { x, y, z: z + s });
    mesh.positions.push(Point3 { x: x + s, y, z: z + s });
    mesh.positions.push(Point3 { x: x + s, y: y + h, z: z + s });
    mesh.positions.push(Point3 { x, y: y + h, z: z + s });
    assert(mesh.positions@ =~= mesh_positions(voxels.push(v)));
    let start = mesh.positions.len() - 8;
    let ghost before = mesh.indices@;
    push_triangle(&mut mesh.indices, start, 0, 2, 1);
    push_triangle(&mut mesh.indices, start, 0, 3, 2);
    push_triangle(&mut mesh.indices, start, 4, 5, 6);
    push_triangle(&mut mesh.indices, start, 4, 6, 7);
    push_triangle(&mut mesh.indices, start, 4, 3, 0);
    push_triangle(&mut mesh.indices, start, 4, 7, 3);
    push_triangle(&mut mesh.indices, start, 1, 6, 5);
    push_triangle(&mut mesh.indices, start, 1, 2, 6);
    push_triangle(&mut mesh.indices, start, 3, 6, 2);
    push_triangle(&mut mesh.indices, start, 3, 7, 6);
    push_triangle(&mut mesh.indices, start, 4, 1, 5);
    push_triangle(&mut mesh.indices, start, 4, 0, 1);
    assert(mesh.indices@ =~= before + voxel_indices(start as int));
    assert(mesh.indices@ == mesh_indices(voxels.push(v)));
    let mut k: usize = 0;
    while k < 8
        invariant
            k <= 8,
            mesh.positions@ == mesh_positions(voxels.push(v)),
            mesh.indices@ == mesh_indices(voxels.push(v)),
            mesh.colors@ == mesh_colors(voxels) + Seq::new(k as nat, |i: int| v.color),
        decreases 8 - k,
    {
        mesh.colors.push(v.color);
        k = k + 1;
        assert(mesh.colors@ =~= mesh_colors(voxels) + Seq::new(k as nat, |i: int| v.color));
    }
    assert(mesh.colors@ =~= mesh_colors(voxels.push(v)));
}

/// Lightening of the top voxel of a column, in color steps.
pub const COLOR_GRADIENT: u64 = 60;

/// How much the voxel at `level` of a column of `count` voxels is lightened:
/// the gradient times the share of the column up to and including it.
pub open spec fn color_bias(level: int, count: int) -> int {
    COLOR_GRADIENT * (level + 1) / count
}

pub open spec fn lighten(channel: u8, bias: int) -> u8 {
    if channel + bias > 255 {
        255
    } else {
        (channel + bias) as u8
    }
}

/// Color of the voxel at `level` of a column of `count` voxels: each channel
/// of the base color raised by the bias, at most to 255.
pub open spec fn graded_color(base: Rgb, level: int, count: int) -> Rgb {
    let bias = color_bias(level, count);
    Rgb {
        red: lighten(base.red, bias),
        green: lighten(base.green, bias),
        blue: lighten(base.blue, bias),
    }
}

/// Number of voxels in a column: the whole voxels, and one more for a
/// remainder.
pub open spec fn level_count(height: int, size: int) -> int {
    height / size + if height % size > 0 {
        1int
    } else {
        0int
    }
}

/// The voxels of one column, bottom up: whole voxels of edge `size`, then
/// one of the remaining height if there is any.
pub open spec fn column_voxels(col: Column, size: int, base: Rgb) -> Seq<Voxel> {
    let count = level_count(col.height as int, size);
    Seq::new(
        count as nat,
        |level: int|
            Voxel {
                corner: point(col.x as int, level * size, col.y as int),
                size: size as u64,
                height: if level < (col.height as int) / size {
                    size as u64
                } else {
                    ((col.height as int) % size) as u64
                },
                color: graded_color(base, level, count),
            },
    )
}

/// The voxels of all columns, column after column.
pub open spec fn grid_voxels(cols: Seq<Column>, size: int, base: Rgb) -> Seq<Voxel>
    decreases cols.len(),
{
    if cols.len() == 0 {
        Seq::empty()
    } else {
        grid_voxels(cols.drop_last(), size, base) + column_voxels(cols.last(), size, base)
    }
}

pub open spec fn column_in_range(c: Column) -> bool {
    &&& 0 <= c.x <= GROUND_LIMIT
    &&& 0 <= c.y <= GROUND_LIMIT
    &&& c.height <= HEIGHT_LIMIT
}

fn lighten_channel(channel: u8, bias: u64) -> (r: u8)
    ensures
        r == lighten(channel, bias as int),
{
    if bias > 255 || channel as u64 + bias > 255 {
        255
    } else {
        channel + bias as u8
    }
}

fn graded(base: Rgb, level: u64, count: u64) -> (r: Rgb)
    requires
        level < count <= HEIGHT_LIMIT,
    ensures
        r == graded_color(base, level as int, count as int),
{
    let bias = COLOR_GRADIENT * (level + 1) / count;
    Rgb {
        red: lighten_channel(base.red, bias),
        green: lighten_channel(base.green, bias),
        blue: lighten_channel(base.blue, bias),
    }
}

/// Builds the mesh of the columns `cubes`, in order, each as a stack of
/// voxels of edge `cube_size` graded from the base color.
pub fn cubes_to_voxel_mesh(
    cubes: &Vec<Column>,
    terrain_configuration: &TerrainConfiguration,
) -> (r: VoxelMesh)
    requires
        terrain_configuration.wf(),
        forall|i: int| 0 <= i < cubes.len() ==> column_in_range(#[trigger] cubes[i]),
    ensures
        r.holds(
            grid_voxels(
                cubes@,
                terrain_configuration.cube_size as int,
                terrain_configuration.color,
            ),
        ),
{
    let size = terrain_configuration.cube_size as u64;
    let base = terrain_configuration.color;
    let ghost sz = size as int;
    let mut mesh = VoxelMesh { positions: Vec::new(), indices: Vec::new(), colors: Vec::new() };
    let mut c: usize = 0;
    assert(cubes@.subrange(0, 0) =~= Seq::<Column>::empty());
    while c < cubes.len()
        invariant
            c <= cubes.len(),
            size == terrain_configuration.cube_size,
            size > 0,
            sz == size,
            base == terrain_configuration.color,
            forall|i: int| 0 <= i < cubes.len() ==> column_in_range(#[trigger] cubes[i]),
            mesh.holds(grid_voxels(cubes@.subrange(0, c as int), sz, base)),
        decreases cubes.len() - c,
    {
        let col = cubes[c];
        let ghost done = grid_voxels(cubes@.subrange(0, c as int), sz, base);
        let ghost stack = column_voxels(col, sz, base);
        let full = col.height / size;
        let rem = col.height % size;
        let count = if rem > 0 {
            full + 1
        } else {
            full
        };
        proof {
            lemma_fundamental_div_mod(col.height as int, sz);
            assert(full * size <= col.height) by (nonlinear_arith)
                requires
                    col.height == size * full + rem,
                    rem >= 0,
            ;
            assert(count <= col.height) by (nonlinear_arith)
                requires
                    col.height == size * full + rem,
                    size >= 1,
                    full >= 0,
                    rem >= 0,
                    count == full || (count == full + 1 && rem >= 1),
            ;
        }
        let mut level: u64 = 0;
        assert(stack.take(0) =~= Seq::<Voxel>::empty());
        assert(done + stack.take(0) =~= done);
        while level < count
            invariant
                level <= count,
                count == level_count(col.height as int, sz),
                full == col.height / size,
                rem == col.height % size,
                col.height == size * full + rem,
                full * size <= col.height,
                count <= HEIGHT_LIMIT,
                column_in_range(col),
                size == terrain_configuration.cube_size,
                size > 0,
                sz == size,
                stack == column_voxels(col, sz, base),
                mesh.holds(done + stack.take(level as int)),
            decreases count - level,
        {
            let height = if level < full {
                size
            } else {
                rem
            };
            proof {
                if level < full {
                    assert(level * size + size <= col.height) by (nonlinear_arith)
                        requires
                            level + 1 <= full,
                            full * size <= col.height,
                            size > 0,
                    ;
                } else {
                    assert(level * size + rem == col.height) by (nonlinear_arith)
                        requires
                            level == full,
                            col.height == size * full + rem,
                    ;
                }
            }
            let v = Voxel {
                corner: Point3 { x: col.x, y: (level * size) as i64, z: col.y },
                size,
                height,
                color: graded(base, level, count),
            };
            assert(v == stack[level as int]);
            add_cube(&mut mesh, v, Ghost(done + stack.take(level as int)));
            assert((done + stack.take(level as int)).push(v) =~= done + stack.take(level + 1));
            level = level + 1;
        }
        assert(stack.take(count as int) =~= stack);
        assert(cubes@.subrange(0, c + 1).drop_last() =~= cubes@.subrange(0, c as int));
        c = c + 1;
    }
    assert(cubes@.subrange(0, cubes.len() as int) =~= cubes@);
    mesh
}

/// A column of height `k * size + r` brings `(k + 1) * 12` triangles when
/// `r > 0`, and `k * 12` when `r == 0`.
pub proof fn lemma_column_triangle_count(col: Column, size: int, base: Rgb)
    requires
        size > 0,
    ensures
        mesh_indices(column_voxels(col, size, base)).len() == 3 * if (col.height as int) % size > 0 {
            ((col.height as int) / size + 1) * 12
        } else {
            ((col.height as int) / size) * 12
        },
{
    lemma_mesh_sizes(column_voxels(col, size, base));
}

/// The lightening grows with the level, and in a column of two voxels or
/// more the top voxel is strictly lighter than the bottom one.
pub proof fn lemma_color_bias_grows(a: int, b: int, count: int)
    requires
        0 <= a <= b < count,
    ensures
        color_bias(a, count) <= color_bias(b, count),
        count >= 2 ==> color_bias(0, count) < color_bias(count - 1, count),
{
    assert(COLOR_GRADIENT * (a + 1) <= COLOR_GRADIENT * (b + 1)) by (nonlinear_arith)
        requires
            a <= b,
    ;
    lemma_div_is_ordered(COLOR_GRADIENT * (a + 1), COLOR_GRADIENT * (b + 1), count);
    lemma_div_multiples_vanish(COLOR_GRADIENT as int, count);
    if count >= 2 {
        assert(COLOR_GRADIENT * count == count * COLOR_GRADIENT);
        assert((COLOR_GRADIENT as int) / count < COLOR_GRADIENT) by (nonlinear_arith)
            requires
                count >= 2,
        ;
    }
}

/// Every column at least one voxel high brings at least one voxel, and no
/// column brings none.
pub proof fn lemma_grid_voxel_count(cols: Seq<Column>, size: int, base: Rgb)
    requires
        size > 0,
        forall|i: int| 0 <= i < cols.len() ==> (#[trigger] cols[i]).height >= size,
    ensures
        grid_voxels(cols, size, base).len() >= cols.len(),
    decreases cols.len(),
{
    if cols.len() > 0 {
        let rest = cols.drop_last();
        assert forall|i: int| 0 <= i < rest.len() implies (#[trigger] rest[i]).height >= size by {
            assert(rest[i] == cols[i]);
        }
        lemma_grid_voxel_count(rest, size, base);
        let h = cols.last().height as int;
        assert(cols.last() == cols[cols.len() - 1]);
        lemma_div_is_ordered(size, h, size);
        lemma_div_multiples_vanish(1, size);
        assert(size * 1 == size);
    }
}

/// Right-hand normal `(q - p) x (r - p)` of the triangle `p, q, r`.
pub open spec fn triangle_normal(p: Point3, q: Point3, r: Point3) -> (int, int, int) {
    let ux = q.x - p.x;
    let uy = q.y - p.y;
    let uz = q.z - p.z;
    let vx = r.x - p.x;
    let vy = r.y - p.y;
    let vz = r.z - p.z;
    (uy * vz - uz * vy, uz * vx - ux * vz, ux * vy - uy * vx)
}

/// Outward unit direction of the face that triangle `k` of a voxel lies on,
/// two triangles per face: front (smallest z), back, left (smallest x),
/// right, top (largest y), bottom.
pub open spec fn face_outward(k: int) -> (int, int, int) {
    if k < 2 {
        (0, 0, -1)
    } else if k < 4 {
        (0, 0, 1)
    } else if k < 6 {
        (-1, 0, 0)
    } else if k < 8 {
        (1, 0, 0)
    } else if k < 10 {
        (0, 1, 0)
    } else {
        (0, -1, 0)
    }
}

/// `n` is a positive multiple of the direction `d`.
pub open spec fn points_along(n: (int, int, int), d: (int, int, int)) -> bool {
    &&& n.0 * d.1 == n.1 * d.0
    &&& n.1 * d.2 == n.2 * d.1
    &&& n.0 * d.2 == n.2 * d.0
    &&& n.0 * d.0 + n.1 * d.1 + n.2 * d.2 > 0
}

/// Triangle `k` of voxel `v`, as corners of `v`.
pub open spec fn voxel_triangle_normal(v: Voxel, k: int) -> (int, int, int) {
    let corners = voxel_corners(v);
    let idx = voxel_indices(0);
    triangle_normal(
        corners[idx[3 * k] as int],
        corners[idx[3 * k + 1] as int],
        corners[idx[3 * k + 2] as int],
    )
}

/// Every triangle of a voxel with positive edge and height has its normal
/// pointing out of the voxel, through the face it lies on.
pub proof fn lemma_voxel_faces_point_outward(v: Voxel)
    requires
        v.size > 0,
        v.height > 0,
        voxel_in_range(v),
    ensures
        forall|k: int| 0 <= k < 12 ==> points_along(#[trigger] voxel_triangle_normal(v, k), face_outward(k)),
{
    let s = v.size as int;
    let h = v.height as int;
    assert(s * h > 0) by (nonlinear_arith)
        requires
            s > 0,
            h > 0,
    ;
    assert(s * s > 0) by (nonlinear_arith)
        requires
            s > 0,
    ;
    assert(voxel_indices(0) =~= seq![
        0usize, 2, 1, 0, 3, 2, 4, 5, 6, 4, 6, 7, 4, 3, 0, 4, 7, 3, 1, 6, 5, 1, 2, 6, 3, 6, 2, 3,
        7, 6, 4, 1, 5, 4, 0, 1,
    ]);
    let x = v.corner.x as int;
    let y = v.corner.y as int;
    let z = v.corner.z as int;
    let c = voxel_corners(v);
    assert(c[0].x == x && c[0].y == y && c[0].z == z);
    assert(c[1].x == x + s && c[1].y == y && c[1].z == z);
    assert(c[2].x == x + s && c[2].y == y + h && c[2].z == z);
    assert(c[3].x == x && c[3].y == y + h && c[3].z == z);
    assert(c[4].x == x && c[4].y == y && c[4].z == z + s);
    assert(c[5].x == x + s && c[5].y == y && c[5].z == z + s);
    assert(c[6].x == x + s && c[6].y == y + h && c[6].z == z + s);
    assert(c[7].x == x && c[7].y == y + h && c[7].z == z + s);
    assert(h * s == s * h && h * (-s) == -(s * h) && (-s) * s == -(s * s)) by (nonlinear_arith);
    assert forall|k: int| 0 <= k < 12 implies points_along(
        #[trigger] voxel_triangle_normal(v, k),
        face_outward(k),
    ) by {
        if k == 0 {
            lemma_normal_from(c[0], c[2], c[1], s, h, 0, s, 0, 0);
            assert(voxel_triangle_normal(v, k) == triangle_normal(c[0], c[2], c[1]));
            let n = voxel_triangle_normal(v, k);
            assert(n == (0int, 0int, -(s * h)));
            assert(face_outward(k) == (0int, 0int, -1int));
            assert(points_along(n, (0int, 0int, -1int))) by (nonlinear_arith)
                requires
                    n == (0int, 0int, -(s * h)),
                    s > 0,
                    h > 0,
            ;
        } else if k == 1 {
            lemma_normal_from(c[0], c[3], c[2], 0, h, 0, s, h, 0);
            assert(voxel_triangle_normal(v, k) == triangle_normal(c[0], c[3], c[2]));
            let n = voxel_triangle_normal(v, k);
            assert(n == (0int, 0int, -(s * h)));
            assert(face_outward(k) == (0int, 0int, -1int));
            assert(points_along(n, (0int, 0int, -1int))) by (nonlinear_arith)
                requires
                    n == (0int, 0int, -(s * h)),
                    s > 0,
                    h > 0,
            ;
        } else if k == 2 {
            lemma_normal_from(c[4], c[5], c[6], s, 0, 0, s, h, 0);
            assert(voxel_triangle_normal(v, k) == triangle_normal(c[4], c[5], c[6]));
            let n = voxel_triangle_normal(v, k);
            assert(n == (0int, 0int, s * h));
            assert(face_outward(k) == (0int, 0int, 1int));
            assert(points_along(n, (0int, 0int, 1int))) by (nonlinear_arith)
                requires
                    n == (0int, 0int, s * h),
                    s > 0,
                    h > 0,
            ;
        } else if k == 3 {
            lemma_normal_from(c[4], c[6], c[7], s, h, 0, 0, h, 0);
            assert(voxel_triangle_normal(v, k) == triangle_normal(c[4], c[6], c[7]));
            let n = voxel_triangle_normal(v, k);
            assert(n == (0int, 0int, s * h));
            assert(face_outward(k) == (0int, 0int, 1int));
            assert(points_along(n, (0int, 0int, 1int))) by (nonlinear_arith)
                requires
                    n == (0int, 0int, s * h),
                    s > 0,
                    h > 0,
            ;
        } else if k == 4 {
            lemma_normal_from(c[4], c[3], c[0], 0, h, -s, 0, 0, -s);
            assert(voxel_triangle_normal(v, k) == triangle_normal(c[4], c[3], c[0]));
            let n = voxel_triangle_normal(v, k);
            assert(n == (-(s * h), 0int, 0int));
            assert(face_outward(k) == (-1int, 0int, 0int));
            assert(points_along(n, (-1int, 0int, 0int))) by (nonlinear_arith)
                requires
                    n == (-(s * h), 0int, 0int),
                    s > 0,
                    h > 0,
            ;
        } else if k == 5 {
            lemma_normal_from(c[4], c[7], c[3], 0, h, 0, 0, h, -s);
            assert(voxel_triangle_normal(v, k) == triangle_normal(c[4], c[7], c[3]));
            let n = voxel_triangle_normal(v, k);
            assert(n == (-(s * h), 0int, 0int));
            assert(face_outward(k) == (-1int, 0int, 0int));
            assert(points_along(n, (-1int, 0int, 0int))) by (nonlinear_arith)
                requires
                    n == (-(s * h), 0int, 0int),
                    s > 0,
                    h > 0,
            ;
        } else if k == 6 {
            lemma_normal_from(c[1], c[6], c[5], 0, h, s, 0, 0, s);
            assert(voxel_triangle_normal(v, k) == triangle_normal(c[1], c[6], c[5]));
            let n = voxel_triangle_normal(v, k);
            assert(n == (s * h, 0int, 0int));
            assert(face_outward(k) == (1int, 0int, 0int));
            assert(points_along(n, (1int, 0int, 0int))) by (nonlinear_arith)
                requires
                    n == (s * h, 0int, 0int),
                    s > 0,
                    h > 0,
            ;
        } else if k == 7 {
            lemma_normal_from(c[1], c[2], c[6], 0, h, 0, 0, h, s);
            assert(voxel_triangle_normal(v, k) == triangle_normal(c[1], c[2], c[6]));
            let n = voxel_triangle_normal(v, k);
            assert(n == (s * h, 0int, 0int));
            assert(face_outward(k) == (1int, 0int, 0int));
            assert(points_along(n, (1int, 0int, 0int))) by (nonlinear_arith)
                requires
                    n == (s * h, 0int, 0int),
                    s > 0,
                    h > 0,
            ;
        } else if k == 8 {
            lemma_normal_from(c[3], c[6], c[2], s, 0, s, s, 0, 0);
            assert(voxel_triangle_normal(v, k) == triangle_normal(c[3], c[6], c[2]));
            let n = voxel_triangle_normal(v, k);
            assert(n == (0int, s * s, 0int));
            assert(face_outward(k) == (0int, 1int, 0int));
            assert(points_along(n, (0int, 1int, 0int))) by (nonlinear_arith)
                requires
                    n == (0int, s * s, 0int),
                    s > 0,
                    h > 0,
            ;
        } else if k == 9 {
            lemma_normal_from(c[3], c[7], c[6], 0, 0, s, s, 0, s);
            assert(voxel_triangle_normal(v, k) == triangle_normal(c[3], c[7], c[6]));
            let n = voxel_triangle_normal(v, k);
            assert(n == (0int, s * s, 0int));
            assert(face_outward(k) == (0int, 1int, 0int));
            assert(points_along(n, (0int, 1int, 0int))) by (nonlinear_arith)
                requires
                    n == (0int, s * s, 0int),
                    s > 0,
                    h > 0,
            ;
        } else if k == 10 {
            lemma_normal_from(c[4], c[1], c[5], s, 0, -s, s, 0, 0);
            assert(voxel_triangle_normal(v, k) == triangle_normal(c[4], c[1], c[5]));
            let n = voxel_triangle_normal(v, k);
            assert(n == (0int, -(s * s), 0int));
            assert(face_outward(k) == (0int, -1int, 0int));
            assert(points_along(n, (0int, -1int, 0int))) by (nonlinear_arith)
                requires
                    n == (0int, -(s * s), 0int),
                    s > 0,
                    h > 0,
            ;
        } else if k == 11 {
            lemma_normal_from(c[4], c[0], c[1], 0, 0, -s, s, 0, -s);
            assert(voxel_triangle_normal(v, k) == triangle_normal(c[4], c[0], c[1]));
            let n = voxel_triangle_normal(v, k);
            assert(n == (0int, -(s * s), 0int));
            assert(face_outward(k) == (0int, -1int, 0int));
            assert(points_along(n, (0int, -1int, 0int))) by (nonlinear_arith)
                requires
                    n == (0int, -(s * s), 0int),
                    s > 0,
                    h > 0,
            ;
        }
    }
}

proof fn lemma_normal_from(
    p: Point3,
    q: Point3,
    r: Point3,
    ux: int,
    uy: int,
    uz: int,
    wx: int,
    wy: int,
    wz: int,
)
    requires
        q.x - p.x == ux,
        q.y - p.y == uy,
        q.z - p.z == uz,
        r.x - p.x == wx,
        r.y - p.y == wy,
        r.z - p.z == wz,
    ensures
        triangle_normal(p, q, r) == (uy * wz - uz * wy, uz * wx - ux * wz, ux * wy - uy * wx),
{
}
} // verus!
