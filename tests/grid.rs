use life3d::grid::{Grid, GridError, Point, MAX_WIDTH};
use life3d::record::Cell;
use life3d::rules::RuleSet;

fn index(w: u32, x: u32, y: u32, z: u32) -> usize {
    ((x * w + y) * w + z) as usize
}

fn grid_with(w: u32, alive: &[(u32, u32, u32)]) -> Grid {
    let mut cells = vec![false; (w * w * w) as usize];
    for &(x, y, z) in alive {
        cells[index(w, x, y, z)] = true;
    }
    Grid::new(w, cells).unwrap()
}

#[test]
fn grid_new_checks_width_and_length() {
    assert!(matches!(Grid::new(0, vec![]), Err(GridError::WidthOutOfRange)));
    assert!(matches!(Grid::new(MAX_WIDTH + 1, vec![]), Err(GridError::WidthOutOfRange)));
    assert!(matches!(Grid::new(2, vec![false; 7]), Err(GridError::WrongCellCount)));
    let g = Grid::new(2, vec![false; 8]).unwrap();
    assert_eq!(g.width(), 2);
    assert_eq!(g.cells().len(), 8);
}

#[test]
fn linear_layout_x_outermost() {
    let g = grid_with(3, &[(1, 2, 0)]);
    assert!(g.is_alive(1, 2, 0));
    assert!(g.cells()[15]);
    assert_eq!(g.live_cells(), vec![Point { x: 1, y: 2, z: 0 }]);
}

#[test]
fn full_grid_neighbor_counts() {
    let g = Grid::new(3, vec![true; 27]).unwrap();
    assert_eq!(g.neighbor_count(1, 1, 1), 26);
    assert_eq!(g.neighbor_count(0, 0, 0), 7);
    assert_eq!(g.neighbor_count(2, 2, 2), 7);
    assert_eq!(g.neighbor_count(0, 2, 0), 7);
    assert_eq!(g.neighbor_count(1, 0, 0), 11);
    assert_eq!(g.neighbor_count(1, 1, 0), 17);
}

#[test]
fn corner_never_counts_more_than_seven() {
    let g = Grid::new(4, vec![true; 64]).unwrap();
    for &x in &[0u32, 3] {
        for &y in &[0u32, 3] {
            for &z in &[0u32, 3] {
                assert_eq!(g.neighbor_count(x, y, z), 7);
            }
        }
    }
}

#[test]
fn isolated_corner_follows_count_zero() {
    let g = grid_with(3, &[(0, 0, 0)]);
    assert_eq!(g.neighbor_count(0, 0, 0), 0);
    let born = RuleSet::new(&vec![0], &vec![]).unwrap();
    let kept = RuleSet::new(&vec![3], &vec![0]).unwrap();
    let killed = RuleSet::new(&vec![3], &vec![2]).unwrap();
    let i = index(3, 0, 0, 0);
    assert!(g.next_state(&born, i));
    assert!(g.next_state(&kept, i));
    assert!(!g.next_state(&killed, i));
    let far = index(3, 2, 2, 2);
    assert!(g.next_state(&born, far));
    assert!(!g.next_state(&kept, far));
}

#[test]
fn dead_grid_stays_dead() {
    let g = Grid::new(4, vec![false; 64]).unwrap();
    let rules = RuleSet::new(&vec![1, 2, 3], &vec![0, 1]).unwrap();
    let mut next = Grid::new(4, vec![true; 64]).unwrap();
    g.step_into(&rules, &mut next);
    assert!(next.cells().iter().all(|&a| !a));
}

#[test]
fn dead_grid_with_birth_at_zero_fills() {
    let g = Grid::new(2, vec![false; 8]).unwrap();
    let rules = RuleSet::new(&vec![0], &vec![]).unwrap();
    let mut next = Grid::new(2, vec![false; 8]).unwrap();
    g.step_into(&rules, &mut next);
    assert!(next.cells().iter().all(|&a| a));
}

#[test]
fn step_line_of_three() {
    // A line of three; every cell with exactly two live neighbors is alive
    // next, whatever it was.
    let g = grid_with(3, &[(1, 0, 1), (1, 1, 1), (1, 2, 1)]);
    let rules = RuleSet::new(&vec![2], &vec![]).unwrap();
    let mut next = Grid::new(3, vec![false; 27]).unwrap();
    g.step_into(&rules, &mut next);
    // The middle cell has two live neighbors and stays; the ends have one
    // and die.
    assert!(next.is_alive(1, 1, 1));
    assert!(!next.is_alive(1, 0, 1));
    assert!(!next.is_alive(1, 2, 1));
    for x in 0..3 {
        for y in 0..3 {
            for z in 0..3 {
                let n = g.neighbor_count(x, y, z);
                assert_eq!(next.is_alive(x, y, z), n == 2, "({}, {}, {})", x, y, z);
            }
        }
    }
}

#[test]
fn records_carry_coordinates() {
    let g = grid_with(2, &[(1, 0, 1)]);
    let records = g.to_records();
    assert_eq!(records.len(), 8);
    assert_eq!(records[5], Cell { alive: true, x: 1, y: 0, z: 1 });
    assert_eq!(records[6], Cell { alive: false, x: 1, y: 1, z: 0 });
    let back = Grid::from_records(2, &records).unwrap();
    assert_eq!(back.cells(), g.cells());
}

#[test]
fn misplaced_record_is_reported() {
    let g = grid_with(2, &[]);
    let mut records = g.to_records();
    records[3].z = 0;
    assert!(matches!(Grid::from_records(2, &records), Err(GridError::Misplaced { index: 3 })));
    assert!(matches!(Grid::from_records(3, &records), Err(GridError::WrongCellCount)));
    assert!(matches!(Grid::from_records(0, &records), Err(GridError::WidthOutOfRange)));
}

#[test]
fn random_grid_has_every_cell() {
    let g = Grid::random(5).unwrap();
    assert_eq!(g.cells().len(), 125);
    assert_eq!(g.width(), 5);
    assert!(matches!(Grid::random(0), Err(GridError::WidthOutOfRange)));
}

#[test]
fn duplicate_is_equal() {
    let g = grid_with(3, &[(0, 1, 2), (2, 2, 2)]);
    let d = g.duplicate();
    assert_eq!(d.cells(), g.cells());
    assert_eq!(d.width(), 3);
}

#[test]
fn live_cells_in_linear_order() {
    let g = grid_with(3, &[(2, 0, 0), (0, 0, 2), (1, 1, 1)]);
    assert_eq!(
        g.live_cells(),
        vec![Point { x: 0, y: 0, z: 2 }, Point { x: 1, y: 1, z: 1 }, Point { x: 2, y: 0, z: 0 }]
    );
}
