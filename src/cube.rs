use vstd::prelude::*;
use crate::scene::{Tint, Vertex};
use crate::grid::Point;

verus! {

/// The triangles of a cube, three vertex numbers each. Vertex number `k`
/// is the corner `(k / 4, k / 2 % 2, k % 2)` of the cube.
pub open spec fn cube_indices() -> Seq<u32> {
    seq![
        0, 2, 3, 0, 3, 1, 0, 6, 2, 0, 4, 6, 0, 1, 5, 0, 5, 4,
        7, 3, 2, 7, 2, 6, 7, 4, 5, 7, 6, 4, 7, 5, 1, 7, 1, 3,
    ]
}

/// Corner number `k` of the cube with lowest corner `(x, y, z)` and edge
/// `w`, colored `color`.
pub open spec fn corner(x: int, y: int, z: int, w: int, color: Tint, k: int) -> Vertex {
    Vertex {
        position: Point {
            x: (x + (k / 4) * w) as u32,
            y: (y + (k / 2 % 2) * w) as u32,
            z: (z + (k % 2) * w) as u32,
        },
        color,
    }
}

/// An axis-aligned cube: 8 corner vertices and 12 triangles.
pub struct Cube {
    pub x: u32,
    pub y: u32,
    pub z: u32,
    pub vertices: Vec<Vertex>,
    pub indices: Vec<u32>,
}

impl Cube {
    /// Eight vertices, and 36 indices that each name one of them.
    pub open spec fn wf(&self) -> bool {
        &&& self.vertices@.len() == 8
        &&& self.indices@.len() == 36
        &&& forall|j: int| 0 <= j < 36 ==> #[trigger] self.indices@[j] < 8
    }

    /// True when this is the cube that `Cube::new(x, y, z, w, color)` builds.
    pub open spec fn is_cube_at(&self, x: int, y: int, z: int, w: int, color: Tint) -> bool {
        &&& self.x == x
        &&& self.y == y
        &&& self.z == z
        &&& self.vertices@.len() == 8
        &&& forall|k: int| 0 <= k < 8 ==> #[trigger] self.vertices@[k] == corner(x, y, z, w, color, k)
        &&& self.indices@ == cube_indices()
    }

    /// The cube with lowest corner `(x, y, z)` and edge `width`, every
    /// vertex colored `color`.
    pub fn new(x: u32, y: u32, z: u32, width: u32, color: Tint) -> (r: Cube)
        requires
            x + width <= u32::MAX,
            y + width <= u32::MAX,
            z + width <= u32::MAX,
        ensures
            r.is_cube_at(x as int, y as int, z as int, width as int, color),
            r.wf(),
    {
        let mut vertices: Vec<Vertex> = Vec::new();
        let mut k: u32 = 0;
        while k < 8
            invariant
                0 <= k <= 8,
                vertices@.len() == k,
                forall|j: int| 0 <= j < k ==> #[trigger] vertices@[j]
                    == corner(x as int, y as int, z as int, width as int, color, j),
                x + width <= u32::MAX,
                y + width <= u32::MAX,
                z + width <= u32::MAX,
            decreases 8 - k,
        {
            let ox: u32 = if k / 4 == 1 { width } else { 0 };
            let oy: u32 = if k / 2 % 2 == 1 { width } else { 0 };
            let oz: u32 = if k % 2 == 1 { width } else { 0 };
            proof {
                let (w, i) = (width as int, k as int);
                assert((i / 4) * w == ox && (i / 2 % 2) * w == oy && (i % 2) * w == oz) by (nonlinear_arith)
                    requires
                        0 <= i < 8,
                        ox == (if i / 4 == 1 { w } else { 0 }),
                        oy == (if i / 2 % 2 == 1 { w } else { 0 }),
                        oz == (if i % 2 == 1 { w } else { 0 });
            }
            let position = Point { x: x + ox, y: y + oy, z: z + oz };
            vertices.push(Vertex { position, color });
            k += 1;
        }
        let indices: Vec<u32> = vec![
            0, 2, 3, 0, 3, 1, 0, 6, 2, 0, 4, 6, 0, 1, 5, 0, 5, 4,
            7, 3, 2, 7, 2, 6, 7, 4, 5, 7, 6, 4, 7, 5, 1, 7, 1, 3,
        ];
        assert(indices@ =~= cube_indices());
        Cube { x, y, z, vertices, indices }
    }
}

} // verus!
