use vstd::prelude::*;
use crate::cube::{Cube, corner, cube_indices};
use crate::grid::{Grid, Point, cell_count, lemma_coords_of_index, lemma_live_indices_bounds, live_indices, live_points};

verus! {

/// A color given as three fractions with a common denominator: the
/// components are `r / scale`, `g / scale` and `b / scale`.
#[derive(Clone, Copy, Debug, PartialEq, Eq, Structural)]
pub struct Tint {
    pub r: u32,
    pub g: u32,
    pub b: u32,
    pub scale: u32,
}

/// One mesh vertex: a grid-unit position and a color.
#[derive(Clone, Copy, Debug, PartialEq, Eq, Structural)]
pub struct Vertex {
    pub position: Point,
    pub color: Tint,
}

/// The color of a cell: its coordinate divided by the grid's edge length.
pub open spec fn cell_tint(p: Point, width: int) -> Tint {
    Tint { r: p.x, g: p.y, b: p.z, scale: width as u32 }
}

/// The vertex stream of `cubes`: the vertices of each cube in turn.
pub open spec fn mesh_vertices(cubes: Seq<Cube>) -> Seq<Vertex> {
    Seq::new(8 * cubes.len(), |n: int| cubes[n / 8].vertices@[n % 8])
}

/// The index stream of `cubes`: the indices of each cube in turn, those of
/// cube `c` shifted by `8 * c`, the number of vertices before it.
pub open spec fn mesh_indices(cubes: Seq<Cube>) -> Seq<u32> {
    Seq::new(36 * cubes.len(), |n: int| (cubes[n / 36].indices@[n % 36] + 8 * (n / 36)) as u32)
}

/// Every cube has its 8 vertices and 36 in-range indices, and the combined
/// vertex count fits a `u32` index.
pub open spec fn cubes_wf(cubes: Seq<Cube>) -> bool {
    &&& forall|c: int| 0 <= c < cubes.len() ==> (#[trigger] cubes[c]).wf()
    &&& 8 * cubes.len() <= u32::MAX
}

/// True when `cubes` are the unit cubes of the live cells of generation
/// `s` (edge length `width`), in linear index order, each colored by its
/// normalized coordinate.
pub open spec fn shows_generation(cubes: Seq<Cube>, width: int, s: Seq<bool>) -> bool {
    let live = live_points(width, s);
    &&& cubes.len() == live.len()
    &&& forall|c: int| 0 <= c < cubes.len() ==> (#[trigger] cubes[c]).is_cube_at(
        live[c].x as int, live[c].y as int, live[c].z as int, 1, cell_tint(live[c], width))
}

/// The mesh of `k` cubes has exactly `8 * k` vertices and `36 * k` indices.
/// Each index of cube `c` names one of that cube's own vertices
/// `8 * c .. 8 * c + 8`, so the indices of a later cube are all larger and
/// no two cubes share a vertex.
pub proof fn lemma_mesh_size(cubes: Seq<Cube>)
    requires
        cubes_wf(cubes),
    ensures
        mesh_vertices(cubes).len() == 8 * cubes.len(),
        mesh_indices(cubes).len() == 36 * cubes.len(),
        forall|c: int, j: int| 0 <= c < cubes.len() && 0 <= j < 36
            ==> 8 * c <= #[trigger] mesh_indices(cubes)[36 * c + j] < 8 * c + 8,
        forall|c1: int, j1: int, c2: int, j2: int|
            0 <= c1 < c2 < cubes.len() && 0 <= j1 < 36 && 0 <= j2 < 36
                ==> #[trigger] mesh_indices(cubes)[36 * c1 + j1] < #[trigger] mesh_indices(cubes)[36 * c2 + j2],
{
    assert forall|c: int, j: int| 0 <= c < cubes.len() && 0 <= j < 36
        implies 8 * c <= #[trigger] mesh_indices(cubes)[36 * c + j] < 8 * c + 8 by {
        assert((36 * c + j) / 36 == c && (36 * c + j) % 36 == j);
        assert(cubes[c].wf());
    }
    assert forall|c1: int, j1: int, c2: int, j2: int|
        0 <= c1 < c2 < cubes.len() && 0 <= j1 < 36 && 0 <= j2 < 36
            implies #[trigger] mesh_indices(cubes)[36 * c1 + j1] < #[trigger] mesh_indices(cubes)[36 * c2 + j2] by {
        assert(8 * c1 <= mesh_indices(cubes)[36 * c1 + j1] < 8 * c1 + 8);
        assert(8 * c2 <= mesh_indices(cubes)[36 * c2 + j2] < 8 * c2 + 8);
    }
}

/// The mesh of a generation with `k` live cells has `8 * k` vertices and
/// `36 * k` indices.
pub proof fn lemma_generation_mesh_size(cubes: Seq<Cube>, width: int, s: Seq<bool>)
    requires
        cubes_wf(cubes),
        shows_generation(cubes, width, s),
    ensures
        mesh_vertices(cubes).len() == 8 * live_indices(s).len(),
        mesh_indices(cubes).len() == 36 * live_indices(s).len(),
{
    lemma_mesh_size(cubes);
}

/// The vertex stream of the live-cell mesh of generation `s`: eight corners
/// of a unit cube per live cell, in linear index order.
pub open spec fn live_mesh_vertices(width: int, s: Seq<bool>) -> Seq<Vertex> {
    let live = live_points(width, s);
    Seq::new(8 * live.len(), |n: int| {
        let p = live[n / 8];
        corner(p.x as int, p.y as int, p.z as int, 1, cell_tint(p, width), n % 8)
    })
}

/// The index stream of the live-cell mesh of `k` cubes: the cube's triangles
/// once per cube, shifted by eight per cube before it.
pub open spec fn live_mesh_indices(k: int) -> Seq<u32> {
    Seq::new(36 * k as nat, |n: int| (cube_indices()[n % 36] + 8 * (n / 36)) as u32)
}

/// The mesh of the cubes that show a generation is that generation's
/// live-cell mesh.
proof fn lemma_shown_mesh(cubes: Seq<Cube>, width: int, s: Seq<bool>)
    requires
        shows_generation(cubes, width, s),
    ensures
        mesh_vertices(cubes) == live_mesh_vertices(width, s),
        mesh_indices(cubes) == live_mesh_indices(cubes.len() as int),
{
    let live = live_points(width, s);
    assert forall|n: int| 0 <= n < 8 * cubes.len() implies #[trigger] mesh_vertices(cubes)[n]
        == live_mesh_vertices(width, s)[n] by {
        let c = n / 8;
        assert(cubes[c].is_cube_at(live[c].x as int, live[c].y as int, live[c].z as int, 1, cell_tint(live[c], width)));
    }
    assert(mesh_vertices(cubes) =~= live_mesh_vertices(width, s));
    assert forall|n: int| 0 <= n < 36 * cubes.len() implies #[trigger] mesh_indices(cubes)[n]
        == live_mesh_indices(cubes.len() as int)[n] by {
        let c = n / 36;
        assert(cubes[c].is_cube_at(live[c].x as int, live[c].y as int, live[c].z as int, 1, cell_tint(live[c], width)));
    }
    assert(mesh_indices(cubes) =~= live_mesh_indices(cubes.len() as int));
}

/// The live-cell mesh of a generation, ready for a renderer: `8 * k`
/// vertices and `36 * k` indices for `k` live cells.
pub fn live_mesh(grid: &Grid) -> (r: (Vec<Vertex>, Vec<u32>))
    requires
        grid.wf(),
    ensures
        r.0@ == live_mesh_vertices(grid@.width, grid@.cells),
        r.1@ == live_mesh_indices(live_indices(grid@.cells).len() as int),
{
    let mut scene = Scene::from_grid(grid);
    let r = scene.get_vertices_and_indices();
    proof {
        lemma_shown_mesh(scene.cubes@, grid@.width, grid@.cells);
    }
    r
}

/// The cubes of one frame.
pub struct Scene {
    pub cubes: Vec<Cube>,
}

impl Scene {
    pub open spec fn wf(&self) -> bool {
        cubes_wf(self.cubes@)
    }

    /// An empty scene.
    pub fn new() -> (r: Scene)
        ensures
            r.cubes@.len() == 0,
            r.wf(),
    {
        Scene { cubes: Vec::new() }
    }

    /// Four cubes climbing like a staircase, in red, green, blue and light
    /// yellow.
    pub fn new_stairs() -> (r: Scene)
        ensures
            r.wf(),
            r.cubes@.len() == 4,
            r.cubes@[0].is_cube_at(3, 3, 3, 1, (Tint { r: 1, g: 0, b: 0, scale: 1 })),
            r.cubes@[1].is_cube_at(3, 4, 3, 1, (Tint { r: 0, g: 1, b: 0, scale: 1 })),
            r.cubes@[2].is_cube_at(3, 3, 4, 1, (Tint { r: 0, g: 0, b: 1, scale: 1 })),
            r.cubes@[3].is_cube_at(4, 4, 4, 1, (Tint { r: 2, g: 2, b: 1, scale: 2 })),
    {
        let mut scene = Scene::new();
        scene.add_cube(Cube::new(3, 3, 3, 1, Tint { r: 1, g: 0, b: 0, scale: 1 }));
        scene.add_cube(Cube::new(3, 4, 3, 1, Tint { r: 0, g: 1, b: 0, scale: 1 }));
        scene.add_cube(Cube::new(3, 3, 4, 1, Tint { r: 0, g: 0, b: 1, scale: 1 }));
        scene.add_cube(Cube::new(4, 4, 4, 1, Tint { r: 2, g: 2, b: 1, scale: 2 }));
        scene
    }

    /// Twelve red cubes: four rows of three along x, at the corners of a
    /// square in the y-z plane.
    pub fn new_tube() -> (r: Scene)
        ensures
            r.wf(),
            r.cubes@.len() == 12,
            r.cubes@[0].is_cube_at(5, 5, 5, 1, (Tint { r: 1, g: 0, b: 0, scale: 1 })),
            r.cubes@[1].is_cube_at(6, 5, 5, 1, (Tint { r: 1, g: 0, b: 0, scale: 1 })),
            r.cubes@[2].is_cube_at(7, 5, 5, 1, (Tint { r: 1, g: 0, b: 0, scale: 1 })),
            r.cubes@[3].is_cube_at(5, 7, 7, 1, (Tint { r: 1, g: 0, b: 0, scale: 1 })),
            r.cubes@[4].is_cube_at(6, 7, 7, 1, (Tint { r: 1, g: 0, b: 0, scale: 1 })),
            r.cubes@[5].is_cube_at(7, 7, 7, 1, (Tint { r: 1, g: 0, b: 0, scale: 1 })),
            r.cubes@[6].is_cube_at(5, 5, 7, 1, (Tint { r: 1, g: 0, b: 0, scale: 1 })),
            r.cubes@[7].is_cube_at(6, 5, 7, 1, (Tint { r: 1, g: 0, b: 0, scale: 1 })),
            r.cubes@[8].is_cube_at(7, 5, 7, 1, (Tint { r: 1, g: 0, b: 0, scale: 1 })),
            r.cubes@[9].is_cube_at(5, 7, 5, 1, (Tint { r: 1, g: 0, b: 0, scale: 1 })),
            r.cubes@[10].is_cube_at(6, 7, 5, 1, (Tint { r: 1, g: 0, b: 0, scale: 1 })),
            r.cubes@[11].is_cube_at(7, 7, 5, 1, (Tint { r: 1, g: 0, b: 0, scale: 1 })),
    {
        let mut scene = Scene::new();
        scene.add_cube(Cube::new(5, 5, 5, 1, Tint { r: 1, g: 0, b: 0, scale: 1 }));
        scene.add_cube(Cube::new(6, 5, 5, 1, Tint { r: 1, g: 0, b: 0, scale: 1 }));
        scene.add_cube(Cube::new(7, 5, 5, 1, Tint { r: 1, g: 0, b: 0, scale: 1 }));
        scene.add_cube(Cube::new(5, 7, 7, 1, Tint { r: 1, g: 0, b: 0, scale: 1 }));
        scene.add_cube(Cube::new(6, 7, 7, 1, Tint { r: 1, g: 0, b: 0, scale: 1 }));
        scene.add_cube(Cube::new(7, 7, 7, 1, Tint { r: 1, g: 0, b: 0, scale: 1 }));
        scene.add_cube(Cube::new(5, 5, 7, 1, Tint { r: 1, g: 0, b: 0, scale: 1 }));
        scene.add_cube(Cube::new(6, 5, 7, 1, Tint { r: 1, g: 0, b: 0, scale: 1 }));
        scene.add_cube(Cube::new(7, 5, 7, 1, Tint { r: 1, g: 0, b: 0, scale: 1 }));
        scene.add_cube(Cube::new(5, 7, 5, 1, Tint { r: 1, g: 0, b: 0, scale: 1 }));
        scene.add_cube(Cube::new(6, 7, 5, 1, Tint { r: 1, g: 0, b: 0, scale: 1 }));
        scene.add_cube(Cube::new(7, 7, 5, 1, Tint { r: 1, g: 0, b: 0, scale: 1 }));
        scene
    }

    /// Adds `cube` after the others.
    pub fn add_cube(&mut self, cube: Cube)
        ensures
            final(self).cubes@ == old(self).cubes@.push(cube),
    {
        self.cubes.push(cube);
    }

    /// The vertex and index streams of the scene: the vertices of each cube
    /// in turn, and its indices shifted by the number of vertices before it.
    pub fn get_vertices_and_indices(&mut self) -> (r: (Vec<Vertex>, Vec<u32>))
        requires
            old(self).wf(),
        ensures
            *final(self) == *old(self),
            r.0@ == mesh_vertices(old(self).cubes@),
            r.1@ == mesh_indices(old(self).cubes@),
    {
        let mut vertices: Vec<Vertex> = Vec::new();
        let mut indices: Vec<u32> = Vec::new();
        let mut running_index: u32 = 0;
        let mut c: usize = 0;
        while c < self.cubes.len()
            invariant
                self.wf(),
                0 <= c <= self.cubes@.len(),
                running_index == 8 * c,
                vertices@ == mesh_vertices(self.cubes@.take(c as int)),
                indices@ == mesh_indices(self.cubes@.take(c as int)),
            decreases self.cubes@.len() - c,
        {
            let cube = &self.cubes[c];
            assert(cube.wf());
            let ghost done = self.cubes@.take(c as int);
            let ghost next = self.cubes@.take(c as int + 1);
            let mut j: usize = 0;
            while j < 8
                invariant
                    cube.wf(),
                    0 <= j <= 8,
                    vertices@ == mesh_vertices(done) + cube.vertices@.take(j as int),
                decreases 8 - j,
            {
                vertices.push(cube.vertices[j]);
                j += 1;
                assert(vertices@ =~= mesh_vertices(done) + cube.vertices@.take(j as int));
            }
            let mut j: usize = 0;
            while j < 36
                invariant
                    cube.wf(),
                    running_index == 8 * c,
                    8 * c + 8 <= u32::MAX,
                    0 <= j <= 36,
                    indices@ == mesh_indices(done) + cube.indices@.take(j as int).map_values(
                        |i: u32| (i + running_index) as u32),
                decreases 36 - j,
            {
                indices.push(cube.indices[j] + running_index);
                j += 1;
                assert(indices@ =~= mesh_indices(done) + cube.indices@.take(j as int).map_values(
                    |i: u32| (i + running_index) as u32));
            }
            assert(vertices@ =~= mesh_vertices(next)) by {
                assert(cube.vertices@.take(8) =~= cube.vertices@);
                assert(next[c as int] == *cube);
                assert forall|n: int| 0 <= n < 8 * c + 8 implies #[trigger] vertices@[n] == mesh_vertices(next)[n] by {
                    if n < 8 * c {
                        assert(next[n / 8] == done[n / 8]);
                    }
                }
            }
            assert(indices@ =~= mesh_indices(next)) by {
                assert(cube.indices@.take(36) =~= cube.indices@);
                assert(next[c as int] == *cube);
                assert forall|n: int| 0 <= n < 36 * c + 36 implies #[trigger] indices@[n] == mesh_indices(next)[n] by {
                    if n < 36 * c {
                        assert(next[n / 36] == done[n / 36]);
                    }
                }
            }
            running_index += 8;
            c += 1;
        }
        assert(self.cubes@.take(c as int) =~= self.cubes@);
        (vertices, indices)
    }

    /// The live-cell mesh of a generation: a unit cube at each live cell, in
    /// linear index order, colored by the cell's coordinate over the width.
    pub fn from_grid(grid: &Grid) -> (r: Scene)
        requires
            grid.wf(),
        ensures
            r.wf(),
            shows_generation(r.cubes@, grid@.width, grid@.cells),
    {
        let width = grid.width();
        let live = grid.live_cells();
        proof {
            let s = grid@.cells;
            lemma_live_indices_bounds(s);
            assert(8 * cell_count(width as int) <= u32::MAX) by (nonlinear_arith)
                requires 1 <= width <= 812;
            assert forall|k: int| 0 <= k < live@.len() implies (#[trigger] live@[k]).x < width
                && live@[k].y < width && live@[k].z < width by {
                lemma_coords_of_index(width as int, live_indices(s)[k]);
            }
        }
        let mut scene = Scene::new();
        let mut c: usize = 0;
        while c < live.len()
            invariant
                grid.wf(),
                width == grid@.width,
                live@ == live_points(width as int, grid@.cells),
                8 * live@.len() <= u32::MAX,
                forall|k: int| 0 <= k < live@.len() ==> (#[trigger] live@[k]).x < width
                    && live@[k].y < width && live@[k].z < width,
                0 <= c <= live@.len(),
                scene.cubes@.len() == c,
                forall|k: int| 0 <= k < c ==> (#[trigger] scene.cubes@[k]).wf(),
                forall|k: int| 0 <= k < c ==> (#[trigger] scene.cubes@[k]).is_cube_at(
                    live@[k].x as int, live@[k].y as int, live@[k].z as int, 1, cell_tint(live@[k], width as int)),
            decreases live@.len() - c,
        {
            let p = live[c];
            let tint = Tint { r: p.x, g: p.y, b: p.z, scale: width };
            scene.add_cube(Cube::new(p.x, p.y, p.z, 1, tint));
            c += 1;
        }
        scene
    }
}

} // verus!
