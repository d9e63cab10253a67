use life3d::grid::Point;
use life3d::record::{encode_records, Cell, DecodeError};
use life3d::grid::{Grid, GridError};
use life3d::simulation::{current, decode_generation, scratch, ConfigError, ReadbackError, Simulation};

fn seed(w: u32, alive: &[(u32, u32, u32)]) -> Vec<bool> {
    let mut cells = vec![false; (w * w * w) as usize];
    for &(x, y, z) in alive {
        cells[((x * w + y) * w + z) as usize] = true;
    }
    cells
}

#[test]
fn three_cells_fill_their_block() {
    // Three mutually adjacent cells each see two live neighbors and survive;
    // the five other cells of their 2x2x2 block each see all three and are
    // born; every other cell sees at most two and stays dead.
    let trio = [(0, 0, 0), (0, 0, 1), (0, 1, 0)];
    let mut sim = Simulation::from_seed(3, &vec![3], &vec![2, 3], seed(3, &trio)).unwrap();
    let (vertices, indices) = sim.advance_and_collect();
    let live = sim.current_grid().live_cells();
    let mut expected = Vec::new();
    for x in 0..2 {
        for y in 0..2 {
            for z in 0..2 {
                expected.push(Point { x, y, z });
            }
        }
    }
    assert_eq!(live, expected);
    assert_eq!(vertices.len(), 64);
    assert_eq!(indices.len(), 288);
}

#[test]
fn readback_mesh_has_one_cube_per_alive_record() {
    let g = Grid::new(3, seed(3, &[(0, 2, 1), (2, 0, 0)])).unwrap();
    let bytes = encode_records(&g.to_records());
    let decoded = decode_generation(3, &bytes).unwrap();
    let scene = life3d::scene::Scene::from_grid(&decoded);
    let at: Vec<(u32, u32, u32)> = scene.cubes.iter().map(|c| (c.x, c.y, c.z)).collect();
    assert_eq!(at, vec![(0, 2, 1), (2, 0, 0)]);
}

#[test]
fn buffer_roles_alternate() {
    assert_eq!(current(0), 0);
    assert_eq!(current(1), 1);
    assert_eq!(current(6), 0);
    assert_eq!(scratch(0), 1);
    assert_eq!(scratch(7), 0);
    let mut sim = Simulation::from_seed(3, &vec![4], &vec![4], vec![false; 27]).unwrap();
    for f in 0..5u64 {
        assert_eq!(sim.frame(), f);
        sim.advance_and_collect();
    }
    assert_eq!(sim.frame(), 5);
    assert_eq!(current(sim.frame()), 1);
}

#[test]
fn generations_follow_rules() {
    // Birth at one neighbor only: a single cell in the middle of a 3-wide
    // grid gives birth to all 26 cells around it and dies; then every cell
    // sees more than one live neighbor and the grid empties.
    let mut sim = Simulation::from_seed(3, &vec![1], &vec![], seed(3, &[(1, 1, 1)])).unwrap();
    let (v, _) = sim.advance_and_collect();
    assert_eq!(v.len(), 26 * 8);
    assert!(!sim.current_grid().is_alive(1, 1, 1));
    assert!(sim.current_grid().is_alive(0, 0, 0));
    let (v, _) = sim.advance_and_collect();
    assert_eq!(v.len(), 0);
}

#[test]
fn configuration_errors() {
    assert!(matches!(
        Simulation::from_seed(0, &vec![3], &vec![2], vec![]),
        Err(ConfigError::WidthOutOfRange)
    ));
    assert!(matches!(
        Simulation::initialize(813, &vec![3], &vec![2]),
        Err(ConfigError::WidthOutOfRange)
    ));
    assert!(matches!(
        Simulation::from_seed(2, &vec![3, 30], &vec![2], vec![false; 8]),
        Err(ConfigError::CountOutOfRange { value: 30 })
    ));
    assert!(matches!(
        Simulation::from_seed(2, &vec![], &vec![], vec![false; 8]),
        Err(ConfigError::EmptyRules)
    ));
    assert!(matches!(
        Simulation::from_seed(2, &vec![3], &vec![], vec![false; 9]),
        Err(ConfigError::WrongSeedLength)
    ));
    assert!(matches!(
        Simulation::from_seed(2, &vec![27], &vec![], vec![false; 9]),
        Err(ConfigError::CountOutOfRange { value: 27 })
    ));
}

#[test]
fn random_start_has_equal_buffers() {
    let mut sim = Simulation::initialize(15, &vec![4, 5, 6, 7, 8, 9, 10], &vec![4, 5, 6, 7, 8]).unwrap();
    assert_eq!(sim.frame(), 0);
    assert_eq!(sim.current_grid().cells().len(), 3375);
    let before = sim.current_grid().duplicate();
    sim.advance_and_collect();
    // The first step reads buffer 0 and writes buffer 1, which becomes
    // current.
    let mut expected = Grid::new(15, vec![false; 3375]).unwrap();
    let rules = life3d::rules::RuleSet::new(&vec![4, 5, 6, 7, 8, 9, 10], &vec![4, 5, 6, 7, 8]).unwrap();
    before.step_into(&rules, &mut expected);
    assert_eq!(sim.current_grid().cells(), expected.cells());
}

#[test]
fn readback_decodes_generation() {
    let g = Grid::new(2, seed(2, &[(1, 1, 0)])).unwrap();
    let bytes = encode_records(&g.to_records());
    let back = decode_generation(2, &bytes).unwrap();
    assert_eq!(back.cells(), g.cells());
    assert!(matches!(
        decode_generation(2, &bytes[..100]),
        Err(ReadbackError::Decode(DecodeError::Truncated))
    ));
    assert!(matches!(decode_generation(3, &bytes), Err(ReadbackError::Layout(GridError::WrongCellCount))));
    let mut moved = g.to_records();
    moved[2] = Cell { alive: true, x: 1, y: 1, z: 1 };
    assert!(matches!(
        decode_generation(2, &encode_records(&moved)),
        Err(ReadbackError::Layout(GridError::Misplaced { index: 2 }))
    ));
    let mut bad = bytes.clone();
    bad[16 * 4] = 9;
    assert!(matches!(
        decode_generation(2, &bad),
        Err(ReadbackError::Decode(DecodeError::BadState { index: 4 }))
    ));
}
