use world_sim::grid::{CellRange, GridIndex};

fn range(min_column: usize, max_column: usize, min_row: usize, max_row: usize) -> CellRange {
    CellRange {
        min_column,
        max_column,
        min_row,
        max_row,
    }
}

#[test]
fn zero_dimensions_stand_for_one_cell() {
    let grid = GridIndex::build(0, 0, &Vec::new());
    assert_eq!(grid.columns(), 1);
    assert_eq!(grid.rows(), 1);
    assert!(grid.cell_walls(0, 0).unwrap().is_empty());
}

#[test]
fn walls_are_listed_in_every_covered_cell() {
    let grid = GridIndex::build(4, 3, &vec![range(0, 1, 0, 0), range(1, 3, 0, 2)]);
    assert_eq!(grid.cell_walls(0, 0).unwrap(), &vec![0]);
    assert_eq!(grid.cell_walls(1, 0).unwrap(), &vec![0, 1]);
    assert_eq!(grid.cell_walls(3, 2).unwrap(), &vec![1]);
    assert!(grid.cell_walls(0, 2).unwrap().is_empty());
}

#[test]
fn cells_outside_the_grid_are_absent() {
    let grid = GridIndex::build(4, 3, &Vec::new());
    assert!(grid.cell_walls(-1, 0).is_none());
    assert!(grid.cell_walls(0, -1).is_none());
    assert!(grid.cell_walls(4, 0).is_none());
    assert!(grid.cell_walls(0, 3).is_none());
    assert!(grid.cell_walls(3, 2).is_some());
}

#[test]
fn indices_past_the_grid_clamp_to_the_last_cell() {
    let grid = GridIndex::build(4, 3, &vec![range(10, 20, 5, 9)]);
    assert_eq!(grid.column_index(10), 3);
    assert_eq!(grid.row_index(2), 2);
    assert_eq!(grid.row_index(7), 2);
    assert_eq!(grid.cell_walls(3, 2).unwrap(), &vec![0]);
    assert!(grid.cell_walls(2, 2).unwrap().is_empty());
}

#[test]
fn query_visits_cells_row_by_row() {
    let grid = GridIndex::build(
        3,
        2,
        &vec![range(0, 0, 0, 0), range(2, 2, 0, 0), range(0, 2, 1, 1), range(1, 1, 0, 1)],
    );
    assert_eq!(grid.walls_in(range(0, 2, 0, 1)), vec![0, 3, 1, 2, 2, 3, 2]);
    assert_eq!(grid.walls_in(range(1, 2, 1, 1)), vec![2, 3, 2]);
}

#[test]
fn query_reports_exactly_the_overlapping_walls() {
    let ranges = vec![range(0, 1, 0, 1), range(5, 7, 5, 7), range(2, 2, 0, 9)];
    let grid = GridIndex::build(8, 8, &ranges);
    let mut found = grid.walls_in(range(1, 2, 1, 1));
    found.sort();
    found.dedup();
    assert_eq!(found, vec![0, 2]);
}

#[test]
fn reversed_query_range_reports_nothing() {
    let grid = GridIndex::build(4, 4, &vec![range(0, 3, 0, 3)]);
    assert!(grid.walls_in(range(3, 1, 0, 3)).is_empty());
    assert!(grid.walls_in(range(0, 3, 3, 1)).is_empty());
}
