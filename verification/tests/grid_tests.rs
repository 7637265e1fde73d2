use space_structures::cells::{cell_key, CellSet};
use space_structures::grid::{detect_grid_updates, CellType, Grid, GridCell, PlayerGridChangeEvent};

#[test]
fn cell_key_packs_both_parts() {
    assert_eq!(cell_key(i32::MIN, i32::MIN), 0);
    assert_eq!(cell_key(0, 0), 0x8000_0000_8000_0000);
    assert_eq!(cell_key(1, 2), 0x8000_0001_8000_0002);
    assert_eq!(cell_key(-1, -1), 0x7fff_ffff_7fff_ffff);
    assert_eq!(cell_key(i32::MAX, i32::MAX), u64::MAX);
    assert_ne!(cell_key(1, 2), cell_key(2, 1));
}

#[test]
fn cell_set_holds_what_was_inserted() {
    let mut cells = CellSet::new();
    assert!(cells.is_empty());
    assert_eq!(cells.len(), 0);
    assert!(cells.insert(3, -4));
    assert!(!cells.insert(3, -4));
    assert!(cells.insert(-4, 3));
    assert!(cells.contains(3, -4));
    assert!(cells.contains(-4, 3));
    assert!(!cells.contains(3, 4));
    assert!(!cells.contains(-3, -4));
    assert_eq!(cells.len(), 2);
    assert!(!cells.is_empty());
}

#[test]
fn cell_set_takes_the_extremes() {
    let mut cells = CellSet::new();
    assert!(cells.insert(i32::MIN, i32::MAX));
    assert!(cells.insert(i32::MAX, i32::MIN));
    assert!(cells.contains(i32::MIN, i32::MAX));
    assert!(cells.contains(i32::MAX, i32::MIN));
    assert!(!cells.contains(i32::MIN, i32::MIN));
    assert_eq!(cells.len(), 2);
}

#[test]
fn new_grid_is_all_outer_space() {
    let grid = Grid::new(4, 3);
    assert_eq!(grid.width(), 4);
    assert_eq!(grid.height(), 3);
    for x in 0..4 {
        for y in 0..3 {
            assert_eq!(grid.get(x, y), Some(&GridCell { data: None, cell_type: CellType::OuterSpace }));
        }
    }
}

#[test]
fn default_cell_and_grid() {
    assert_eq!(CellType::default(), CellType::OuterSpace);
    assert_eq!(GridCell::default(), GridCell { data: None, cell_type: CellType::OuterSpace });
    let grid = Grid::default();
    assert_eq!(grid.width(), 0);
    assert_eq!(grid.height(), 0);
    assert_eq!(grid.get(0, 0), None);
}

#[test]
fn out_of_range_queries_are_absent() {
    let grid = Grid::new(4, 3);
    assert_eq!(grid.get(-1, 0), None);
    assert_eq!(grid.get(0, -1), None);
    assert_eq!(grid.get(4, 0), None);
    assert_eq!(grid.get(0, 3), None);
    assert_eq!(grid.get(i32::MAX, i32::MAX), None);
    assert_eq!(grid.get(i32::MIN, i32::MIN), None);
    assert!(grid.contains_coord(3, 2));
    assert!(!grid.contains_coord(4, 2));
    assert!(!grid.contains_coord(3, 3));
    assert!(!grid.contains_coord(-1, 0));
}

#[test]
fn empty_grid_has_no_cell() {
    let grid = Grid::new(0, 5);
    assert_eq!(grid.get(0, 0), None);
    let grid = Grid::new(5, 0);
    assert_eq!(grid.get(0, 0), None);
}

#[test]
fn insert_sets_the_fill_and_clears_the_occupant() {
    let mut grid = Grid::new(3, 3);
    grid.insert_new(1, 1, 77);
    assert_eq!(grid.get(1, 1), Some(&GridCell { data: Some(77), cell_type: CellType::OuterSpace }));
    grid.insert(1, 1, CellType::Module);
    assert_eq!(grid.get(1, 1), Some(&GridCell { data: None, cell_type: CellType::Module }));
    grid.insert(2, 0, CellType::Wall);
    assert_eq!(grid.get(2, 0), Some(&GridCell { data: None, cell_type: CellType::Wall }));
    assert_eq!(grid.get(0, 0), Some(&GridCell { data: None, cell_type: CellType::OuterSpace }));
}

#[test]
fn insert_outside_the_bounds_is_ignored() {
    let mut grid = Grid::new(2, 2);
    grid.insert(2, 0, CellType::Module);
    grid.insert(-1, 0, CellType::Module);
    grid.insert_new(0, 2, 5);
    assert_eq!(grid.get(2, 0), None);
    assert_eq!(grid.get(-1, 0), None);
    assert_eq!(grid.get(0, 2), None);
    assert_eq!(grid.width(), 2);
    assert_eq!(grid.height(), 2);
}

#[test]
fn set_cell_type_to_empty_keeps_the_occupant() {
    let mut grid = Grid::new(3, 3);
    grid.insert(1, 2, CellType::Module);
    grid.insert_entity_in_cell(1, 2, 9);
    grid.set_cell_type_to_empty(1, 2);
    assert_eq!(grid.get(1, 2), Some(&GridCell { data: Some(9), cell_type: CellType::Empty }));
    grid.set_cell_type_to_empty(1, 2);
    assert_eq!(grid.get(1, 2), Some(&GridCell { data: Some(9), cell_type: CellType::Empty }));
    grid.set_cell_type_to_empty(7, 7);
    assert_eq!(grid.get(7, 7), None);
}

#[test]
fn occupants_come_and_go() {
    let mut grid = Grid::new(3, 3);
    grid.insert(0, 0, CellType::Empty);
    grid.insert_entity_in_cell(0, 0, 41);
    assert_eq!(grid.get(0, 0), Some(&GridCell { data: Some(41), cell_type: CellType::Empty }));
    grid.remove_entity_from_cell(0, 0);
    assert_eq!(grid.get(0, 0), Some(&GridCell { data: None, cell_type: CellType::Empty }));
    grid.insert_entity_in_cell(5, 5, 41);
    assert_eq!(grid.get(5, 5), None);
    grid.remove_entity_from_cell(5, 5);
    assert_eq!(grid.get(5, 5), None);
}

#[test]
fn update_data_position_moves_the_occupant() {
    let mut grid = Grid::new(3, 3);
    grid.insert_entity_in_cell(0, 0, 12);
    grid.update_data_position(12, 1, 0, 0, 0);
    assert_eq!(grid.get(0, 0).unwrap().data, None);
    assert_eq!(grid.get(1, 0).unwrap().data, Some(12));
    // Leaving the grid empties the old cell and fills none.
    grid.update_data_position(12, 3, 0, 1, 0);
    assert_eq!(grid.get(1, 0).unwrap().data, None);
    assert_eq!(grid.get(3, 0), None);
    // Moving onto the same cell leaves the occupant in it.
    grid.insert_entity_in_cell(2, 2, 12);
    grid.update_data_position(12, 2, 2, 2, 2);
    assert_eq!(grid.get(2, 2).unwrap().data, Some(12));
}

#[test]
fn detect_grid_updates_reports_a_change_of_cell() {
    let mut grid = Grid::new(3, 3);
    grid.insert_entity_in_cell(0, 0, 5);
    let change = detect_grid_updates(&mut grid, 5, (0, 0), (1, 1));
    assert_eq!(change, Some(PlayerGridChangeEvent { entity: 5, old_cell: (0, 0), new_cell: (1, 1) }));
    assert_eq!(grid.get(0, 0).unwrap().data, None);
    assert_eq!(grid.get(1, 1).unwrap().data, Some(5));
}

#[test]
fn detect_grid_updates_is_silent_without_a_change() {
    let mut grid = Grid::new(3, 3);
    grid.insert_entity_in_cell(1, 1, 5);
    let change = detect_grid_updates(&mut grid, 5, (1, 1), (1, 1));
    assert_eq!(change, None);
    assert_eq!(grid.get(1, 1).unwrap().data, Some(5));
}

#[test]
fn every_level_character_is_outer_space() {
    assert_eq!(CellType::from('#'), CellType::OuterSpace);
    assert_eq!(CellType::from(' '), CellType::OuterSpace);
    assert_eq!(CellType::from('W'), CellType::OuterSpace);
}
