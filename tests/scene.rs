use life3d::cube::Cube;
use life3d::grid::{Grid, Point};
use life3d::scene::{live_mesh, Scene, Tint, Vertex};

const TRIANGLES: [u32; 36] = [
    0, 2, 3, 0, 3, 1, 0, 6, 2, 0, 4, 6, 0, 1, 5, 0, 5, 4, 7, 3, 2, 7, 2, 6, 7, 4, 5, 7, 6, 4, 7, 5, 1,
    7, 1, 3,
];

fn red() -> Tint {
    Tint { r: 1, g: 0, b: 0, scale: 1 }
}

#[test]
fn cube_corners() {
    let c = Cube::new(3, 4, 5, 2, red());
    assert_eq!((c.x, c.y, c.z), (3, 4, 5));
    assert_eq!(c.vertices.len(), 8);
    let expected = [
        (3, 4, 5),
        (3, 4, 7),
        (3, 6, 5),
        (3, 6, 7),
        (5, 4, 5),
        (5, 4, 7),
        (5, 6, 5),
        (5, 6, 7),
    ];
    for (k, &(x, y, z)) in expected.iter().enumerate() {
        assert_eq!(c.vertices[k], Vertex { position: Point { x, y, z }, color: red() });
    }
    assert_eq!(c.indices, TRIANGLES.to_vec());
}

#[test]
fn indices_offset_per_cube() {
    let mut scene = Scene::new();
    scene.add_cube(Cube::new(0, 0, 0, 1, red()));
    scene.add_cube(Cube::new(5, 5, 5, 1, red()));
    scene.add_cube(Cube::new(9, 0, 1, 1, red()));
    let (vertices, indices) = scene.get_vertices_and_indices();
    assert_eq!(vertices.len(), 24);
    assert_eq!(indices.len(), 108);
    assert_eq!(vertices[8].position, Point { x: 5, y: 5, z: 5 });
    assert_eq!(vertices[23].position, Point { x: 10, y: 1, z: 2 });
    for c in 0..3u32 {
        for j in 0..36 {
            assert_eq!(indices[(36 * c) as usize + j], TRIANGLES[j] + 8 * c);
        }
    }
    assert_eq!(scene.cubes.len(), 3);
}

#[test]
fn mesh_size_law() {
    let w = 4u32;
    let mut cells = vec![false; 64];
    for i in [0usize, 5, 17, 33, 63] {
        cells[i] = true;
    }
    let g = Grid::new(w, cells).unwrap();
    let (vertices, indices) = live_mesh(&g);
    assert_eq!(vertices.len(), 8 * 5);
    assert_eq!(indices.len(), 36 * 5);
    for c in 0..5usize {
        for j in 0..36 {
            let v = indices[36 * c + j] as usize;
            assert!(8 * c <= v && v < 8 * c + 8);
        }
    }
    // The last live cell is (3, 3, 3): its color is 3/4 on every channel.
    assert_eq!(vertices[32].position, Point { x: 3, y: 3, z: 3 });
    assert_eq!(vertices[39].position, Point { x: 4, y: 4, z: 4 });
    assert_eq!(vertices[39].color, Tint { r: 3, g: 3, b: 3, scale: 4 });
}

#[test]
fn empty_generation_has_empty_mesh() {
    let g = Grid::new(3, vec![false; 27]).unwrap();
    let (vertices, indices) = live_mesh(&g);
    assert!(vertices.is_empty());
    assert!(indices.is_empty());
    assert_eq!(Scene::from_grid(&g).cubes.len(), 0);
}

#[test]
fn scene_from_grid_colors_by_coordinate() {
    let mut cells = vec![false; 27];
    cells[5] = true; // (0, 1, 2)
    let g = Grid::new(3, cells).unwrap();
    let scene = Scene::from_grid(&g);
    assert_eq!(scene.cubes.len(), 1);
    let c = &scene.cubes[0];
    assert_eq!((c.x, c.y, c.z), (0, 1, 2));
    assert_eq!(c.vertices[7].position, Point { x: 1, y: 2, z: 3 });
    assert_eq!(c.vertices[0].color, Tint { r: 0, g: 1, b: 2, scale: 3 });
}

#[test]
fn preset_scenes() {
    let mut stairs = Scene::new_stairs();
    assert_eq!(stairs.cubes.len(), 4);
    assert_eq!((stairs.cubes[3].x, stairs.cubes[3].y, stairs.cubes[3].z), (4, 4, 4));
    assert_eq!(stairs.cubes[3].vertices[0].color, Tint { r: 2, g: 2, b: 1, scale: 2 });
    let (v, i) = stairs.get_vertices_and_indices();
    assert_eq!((v.len(), i.len()), (32, 144));
    let tube = Scene::new_tube();
    assert_eq!(tube.cubes.len(), 12);
    assert_eq!((tube.cubes[11].x, tube.cubes[11].y, tube.cubes[11].z), (7, 7, 5));
}
