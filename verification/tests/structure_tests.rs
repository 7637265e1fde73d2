use space_structures::cells::CellSet;
use space_structures::grid::{CellType, Grid, GridCell};
use space_structures::layout::{build_structure_from_layout, LayoutError, StructurePlan};
use space_structures::modules::{
    spawn_module, Module, ModuleBlueprint, ModuleMaterialType, ModuleType,
};
use space_structures::player::PlayerResource;
use space_structures::control::{control_command_center, ControlChange};
use space_structures::structures::{
    build_pressurization, detect_player_inside_structure, touched_by, Pressurization, Structure,
    StructureInteractionEvent,
};

fn rows(lines: &[&str]) -> Vec<String> {
    lines.iter().map(|line| line.to_string()).collect()
}

fn plan(lines: &[&str]) -> StructurePlan {
    build_structure_from_layout(&rows(lines)).unwrap()
}

fn members(cells: &CellSet, width: i32, height: i32) -> Vec<(i32, i32)> {
    let mut found = Vec::new();
    for y in -1..=height {
        for x in -1..=width {
            if cells.contains(x, y) {
                found.push((x, y));
            }
        }
    }
    assert_eq!(found.len(), cells.len());
    found
}

#[test]
fn solid_block_exposes_nothing() {
    let plan = plan(&["WWW", "WWW", "WWW"]);
    let exposed = plan.structure.check_pressurization();
    assert!(exposed.is_empty());
    assert_eq!(exposed.len(), 0);
}

#[test]
fn sealed_hole_is_not_exposed() {
    let plan = plan(&["WWW", "W W", "WWW"]);
    let exposed = plan.structure.check_pressurization();
    assert!(exposed.is_empty());
    assert!(!exposed.contains(1, 1));
}

#[test]
fn gap_in_the_border_is_exposed() {
    let plan = plan(&["W W", "WWW", "WWW"]);
    let exposed = plan.structure.check_pressurization();
    assert!(exposed.contains(1, 0));
    assert_eq!(members(&exposed, 3, 3), vec![(1, 0)]);
}

#[test]
fn gap_lets_space_into_the_room_behind() {
    let plan = plan(&["W WWW", "W   W", "WWW W", "W W W", "WWWWW"]);
    let exposed = plan.structure.check_pressurization();
    assert_eq!(members(&exposed, 5, 5), vec![(1, 0), (1, 1), (2, 1), (3, 1), (3, 2), (3, 3)]);
    // The room at (1, 3) is cut off by modules on all four sides.
    assert!(!exposed.contains(1, 3));
}

#[test]
fn exposure_does_not_spread_diagonally() {
    let plan = plan(&[" W", "W "]);
    let exposed = plan.structure.check_pressurization();
    assert_eq!(members(&exposed, 2, 2), vec![(0, 0), (1, 1)]);
    let plan = plan_with_sealed_corner();
    let exposed = plan.structure.check_pressurization();
    assert!(exposed.contains(0, 0));
    assert!(!exposed.contains(1, 1));
}

fn plan_with_sealed_corner() -> StructurePlan {
    plan(&[" WW", "W W", "WWW"])
}

#[test]
fn open_grid_is_exposed_everywhere() {
    let structure = Structure { grid: Grid::new(3, 2) };
    let exposed = structure.check_pressurization();
    assert_eq!(exposed.len(), 6);
    assert_eq!(members(&exposed, 3, 2), vec![(0, 0), (1, 0), (2, 0), (0, 1), (1, 1), (2, 1)]);
}

#[test]
fn structure_without_cells_exposes_nothing() {
    let structure = Structure::new();
    assert_eq!(structure.grid.width(), 0);
    assert_eq!(structure.grid.height(), 0);
    assert!(structure.check_pressurization().is_empty());
    assert!(Structure { grid: Grid::new(0, 4) }.check_pressurization().is_empty());
    assert!(Structure { grid: Grid::new(4, 0) }.check_pressurization().is_empty());
}

#[test]
fn single_row_and_single_cell() {
    let plan_row = plan(&["W W"]);
    assert_eq!(members(&plan_row.structure.check_pressurization(), 3, 1), vec![(1, 0)]);
    let plan_cell = plan(&[" "]);
    assert_eq!(members(&plan_cell.structure.check_pressurization(), 1, 1), vec![(0, 0)]);
    let plan_module = plan(&["E"]);
    assert!(plan_module.structure.check_pressurization().is_empty());
}

#[test]
fn repeated_evaluation_gives_the_same_cells() {
    let plan = plan(&["W WWW", "W   W", "WWW W", "W W W", "WWWWW"]);
    let first = plan.structure.check_pressurization();
    let second = plan.structure.check_pressurization();
    assert_eq!(members(&first, 5, 5), members(&second, 5, 5));
}

#[test]
fn bounds_are_a_plain_range_check() {
    let structure = Structure { grid: Grid::new(4, 2) };
    assert!(structure.is_within_grid_bounds(0, 0));
    assert!(structure.is_within_grid_bounds(3, 1));
    assert!(!structure.is_within_grid_bounds(4, 1));
    assert!(!structure.is_within_grid_bounds(3, 2));
    assert!(!structure.is_within_grid_bounds(-1, 0));
    assert!(!structure.is_within_grid_bounds(0, -1));
    assert!(!structure.is_within_grid_bounds(i32::MAX, 0));
    assert!(!structure.is_within_grid_bounds(0, i32::MIN));
}

#[test]
fn adjacent_cells_come_top_left_bottom_right() {
    let structure = Structure { grid: Grid::new(3, 3) };
    assert_eq!(structure.get_adjacent_cells((1, 1)), vec![(1, 0), (0, 1), (1, 2), (2, 1)]);
    assert_eq!(structure.get_adjacent_cells((0, 0)), vec![(0, 1), (1, 0)]);
    assert_eq!(structure.get_adjacent_cells((2, 2)), vec![(2, 1), (1, 2)]);
    assert_eq!(structure.get_adjacent_cells((1, 0)), vec![(0, 0), (1, 1), (2, 0)]);
    assert_eq!(structure.get_adjacent_cells((3, 1)), vec![(2, 1)]);
    assert_eq!(structure.get_adjacent_cells((5, 5)), Vec::<(i32, i32)>::new());
    assert_eq!(structure.get_adjacent_cells((i32::MAX, i32::MAX)), Vec::<(i32, i32)>::new());
    assert_eq!(structure.get_adjacent_cells((i32::MIN, i32::MIN)), Vec::<(i32, i32)>::new());
    assert_eq!(structure.get_adjacent_cells((-1, 0)), vec![(0, 0)]);
}

#[test]
fn neighbors_of_exposed_cells_are_the_modules_beside_them() {
    let plan = plan(&["W WW", "WWWW", "W  W", "WWWW"]);
    let exposed = plan.structure.check_pressurization();
    assert_eq!(members(&exposed, 4, 4), vec![(1, 0)]);
    let hull = plan.structure.find_neighbors_of_exposed_modules(&exposed);
    assert_eq!(members(&hull, 4, 4), vec![(0, 0), (2, 0), (1, 1)]);
    let none = plan.structure.find_neighbors_of_exposed_modules(&CellSet::new());
    assert!(none.is_empty());
}

#[test]
fn neighbors_are_found_for_cells_outside_the_grid_too() {
    let plan = plan(&["WW", "WW"]);
    let mut outside = CellSet::new();
    outside.insert(-1, 0);
    outside.insert(1, 2);
    let hull = plan.structure.find_neighbors_of_exposed_modules(&outside);
    assert_eq!(members(&hull, 2, 2), vec![(0, 0), (1, 1)]);
}

#[test]
fn touched_by_looks_at_the_four_direct_neighbours() {
    let mut cells = CellSet::new();
    cells.insert(2, 2);
    assert!(touched_by(&cells, 1, 2));
    assert!(touched_by(&cells, 3, 2));
    assert!(touched_by(&cells, 2, 1));
    assert!(touched_by(&cells, 2, 3));
    assert!(!touched_by(&cells, 2, 2));
    assert!(!touched_by(&cells, 1, 1));
    assert!(!touched_by(&cells, 3, 3));
    assert!(!touched_by(&cells, i32::MAX, i32::MAX));
    assert!(!touched_by(&cells, i32::MIN, i32::MIN));
}

#[test]
fn layout_without_rows_is_refused() {
    assert_eq!(build_structure_from_layout(&rows(&[])).unwrap_err(), LayoutError::NoRows);
}

#[test]
fn layout_with_empty_first_row_is_refused() {
    assert_eq!(build_structure_from_layout(&rows(&[""])).unwrap_err(), LayoutError::EmptyRow);
    assert_eq!(build_structure_from_layout(&rows(&["", "WW"])).unwrap_err(), LayoutError::EmptyRow);
}

#[test]
fn layout_with_uneven_rows_is_refused() {
    assert_eq!(
        build_structure_from_layout(&rows(&["WWW", "WW", "W"])).unwrap_err(),
        LayoutError::RaggedRow { row: 1 }
    );
    assert_eq!(
        build_structure_from_layout(&rows(&["WW", "WW", "WWW"])).unwrap_err(),
        LayoutError::RaggedRow { row: 2 }
    );
    assert_eq!(build_structure_from_layout(&rows(&["WW", ""])).unwrap_err(), LayoutError::RaggedRow { row: 1 });
}

#[test]
fn layout_rows_are_measured_in_characters() {
    // Both rows have three characters, though not the same number of bytes.
    let plan = plan(&["WéW", "W W"]);
    assert_eq!(plan.structure.grid.width(), 3);
    assert_eq!(plan.structure.grid.height(), 2);
    assert_eq!(plan.structure.grid.get(1, 0).unwrap().cell_type, CellType::Empty);
    assert_eq!(plan.modules.len(), 4);
}

#[test]
fn layout_gives_grid_and_blueprints() {
    let plan = plan(&["WE!", "C.w"]);
    let grid = &plan.structure.grid;
    assert_eq!(grid.width(), 3);
    assert_eq!(grid.height(), 2);
    let module = GridCell { data: None, cell_type: CellType::Module };
    let room = GridCell { data: None, cell_type: CellType::Empty };
    assert_eq!(grid.get(0, 0), Some(&module));
    assert_eq!(grid.get(1, 0), Some(&module));
    assert_eq!(grid.get(2, 0), Some(&module));
    assert_eq!(grid.get(0, 1), Some(&module));
    assert_eq!(grid.get(1, 1), Some(&room));
    assert_eq!(grid.get(2, 1), Some(&room));
    let blueprint = |module_type, x, y, material_type, rigid| ModuleBlueprint {
        module: Module { entity_connected: None, module_type, inner_grid_pos: (x, y) },
        material_type,
        rigid,
    };
    assert_eq!(
        plan.modules,
        vec![
            blueprint(ModuleType::Wall, 0, 0, ModuleMaterialType::Steel, true),
            blueprint(ModuleType::Engine, 1, 0, ModuleMaterialType::Steel, true),
            blueprint(ModuleType::Cannon, 2, 0, ModuleMaterialType::Aluminum, true),
            blueprint(ModuleType::CommandCenter, 0, 1, ModuleMaterialType::Steel, false),
        ]
    );
}

#[test]
fn layout_of_free_room_has_no_module() {
    let plan = plan(&["  ", "  ", "  "]);
    assert!(plan.modules.is_empty());
    assert_eq!(plan.structure.grid.width(), 2);
    assert_eq!(plan.structure.grid.height(), 3);
    assert_eq!(plan.structure.grid.get(1, 2), Some(&GridCell { data: None, cell_type: CellType::Empty }));
    assert_eq!(plan.structure.check_pressurization().len(), 6);
}

#[test]
fn spawn_module_marks_the_cell() {
    let mut structure = Structure { grid: Grid::new(2, 2) };
    let blueprint = spawn_module(&mut structure, ModuleType::Cannon, (1, 0), false, ModuleMaterialType::Wood);
    assert_eq!(
        blueprint,
        ModuleBlueprint {
            module: Module { entity_connected: None, module_type: ModuleType::Cannon, inner_grid_pos: (1, 0) },
            material_type: ModuleMaterialType::Wood,
            rigid: true,
        }
    );
    assert_eq!(structure.grid.get(1, 0), Some(&GridCell { data: None, cell_type: CellType::Module }));
    assert_eq!(structure.grid.get(0, 0), Some(&GridCell { data: None, cell_type: CellType::OuterSpace }));
    let outside = spawn_module(&mut structure, ModuleType::CommandCenter, (2, 0), true, ModuleMaterialType::Steel);
    assert!(!outside.rigid);
    assert_eq!(outside.module.inner_grid_pos, (2, 0));
    assert_eq!(structure.grid.get(2, 0), None);
}

#[test]
fn module_defaults() {
    assert_eq!(ModuleType::default(), ModuleType::CommandCenter);
    assert_eq!(ModuleMaterialType::default(), ModuleMaterialType::Steel);
    assert_eq!(
        Module::default(),
        Module { entity_connected: None, module_type: ModuleType::CommandCenter, inner_grid_pos: (0, 0) }
    );
    assert_eq!(
        PlayerResource::default(),
        PlayerResource { grid_position: (0, 0), is_controlling_structure: false, inside_structure: None }
    );
}

#[test]
fn build_pressurization_starts_from_nothing() {
    let plan = plan(&["W W", "WWW"]);
    let pressurization = build_pressurization(&plan.structure);
    assert_eq!(members(&pressurization.exposed_cells, 3, 2), vec![(1, 0)]);
    assert!(pressurization.exposed_before.is_empty());
    let fresh = Pressurization::new();
    assert!(fresh.exposed_cells.is_empty());
    assert!(fresh.exposed_before.is_empty());
}

#[test]
fn reevaluate_keeps_the_state_before() {
    let mut plan = plan(&["W W", "WWW"]);
    let mut pressurization = build_pressurization(&plan.structure);
    plan.structure.grid.set_cell_type_to_empty(0, 0);
    pressurization.reevaluate(&plan.structure);
    assert_eq!(members(&pressurization.exposed_cells, 3, 2), vec![(0, 0), (1, 0)]);
    assert_eq!(members(&pressurization.exposed_before, 3, 2), vec![(1, 0)]);
}

fn command_center(x: i32, y: i32) -> Module {
    Module { entity_connected: None, module_type: ModuleType::CommandCenter, inner_grid_pos: (x, y) }
}

#[test]
fn control_is_taken_and_released_by_the_same_player() {
    let plan = plan(&["WWW", "WCW", "WWW"]);
    let mut module = command_center(1, 1);
    let mut player = PlayerResource::default();
    let change = control_command_center(&plan.structure, &mut module, &mut player, 7, (1, 1));
    assert_eq!(change, ControlChange::Taken);
    assert_eq!(module.entity_connected, Some(7));
    assert!(player.is_controlling_structure);
    let change = control_command_center(&plan.structure, &mut module, &mut player, 7, (1, 1));
    assert_eq!(change, ControlChange::Released);
    assert_eq!(module.entity_connected, None);
    assert!(!player.is_controlling_structure);
}

#[test]
fn control_is_exclusive() {
    let plan = plan(&["WWW", "WCW", "WWW"]);
    let mut module = command_center(1, 1);
    let mut first = PlayerResource::default();
    let mut second = PlayerResource::default();
    assert_eq!(control_command_center(&plan.structure, &mut module, &mut first, 7, (1, 1)), ControlChange::Taken);
    let change = control_command_center(&plan.structure, &mut module, &mut second, 8, (1, 1));
    assert_eq!(change, ControlChange::Unchanged);
    assert_eq!(module.entity_connected, Some(7));
    assert!(!second.is_controlling_structure);
    assert!(first.is_controlling_structure);
}

#[test]
fn control_needs_the_player_at_the_command_center() {
    let plan = plan(&["WWW", "WCW", "WWW"]);
    let mut player = PlayerResource { grid_position: (4, 4), is_controlling_structure: false, inside_structure: Some(3) };
    // Standing in another cell.
    let mut module = command_center(1, 1);
    assert_eq!(control_command_center(&plan.structure, &mut module, &mut player, 7, (0, 1)), ControlChange::Unchanged);
    assert_eq!(module.entity_connected, None);
    // Standing in the cell of a module that is no command centre.
    let mut engine = Module { entity_connected: None, module_type: ModuleType::Engine, inner_grid_pos: (1, 1) };
    assert_eq!(control_command_center(&plan.structure, &mut engine, &mut player, 7, (1, 1)), ControlChange::Unchanged);
    assert_eq!(engine.entity_connected, None);
    // A command centre recorded outside the grid cannot be worked.
    let mut far = command_center(5, 5);
    assert_eq!(control_command_center(&plan.structure, &mut far, &mut player, 7, (5, 5)), ControlChange::Unchanged);
    assert_eq!(far.entity_connected, None);
    assert_eq!(
        player,
        PlayerResource { grid_position: (4, 4), is_controlling_structure: false, inside_structure: Some(3) }
    );
}

#[test]
fn entering_and_leaving_are_reported_once() {
    let structure = Structure { grid: Grid::new(3, 3) };
    let mut player = PlayerResource::default();
    let event = detect_player_inside_structure(&structure, 30, 7, (1, 1), &mut player);
    assert_eq!(event, Some(StructureInteractionEvent::PlayerEntered { player_entity: 7, structure_entity: 30 }));
    assert_eq!(player.inside_structure, Some(30));
    assert_eq!(detect_player_inside_structure(&structure, 30, 7, (2, 1), &mut player), None);
    let event = detect_player_inside_structure(&structure, 30, 7, (3, 1), &mut player);
    assert_eq!(event, Some(StructureInteractionEvent::PlayerExited { player_entity: 7, structure_entity: 30 }));
    assert_eq!(player.inside_structure, None);
    assert_eq!(detect_player_inside_structure(&structure, 30, 7, (3, 1), &mut player), None);
    assert_eq!(player.inside_structure, None);
}

#[test]
fn being_outside_one_structure_does_not_leave_another() {
    let structure = Structure { grid: Grid::new(3, 3) };
    let mut player = PlayerResource { grid_position: (0, 0), is_controlling_structure: true, inside_structure: Some(31) };
    assert_eq!(detect_player_inside_structure(&structure, 30, 7, (-1, 0), &mut player), None);
    assert_eq!(player.inside_structure, Some(31));
    let event = detect_player_inside_structure(&structure, 30, 7, (0, 0), &mut player);
    assert_eq!(event, Some(StructureInteractionEvent::PlayerEntered { player_entity: 7, structure_entity: 30 }));
    assert_eq!(player.inside_structure, Some(30));
    assert!(player.is_controlling_structure);
}

#[test]
fn layout_wider_than_a_grid_can_be_is_refused() {
    let wide = vec!["W".repeat(0x8000_0000)];
    assert_eq!(build_structure_from_layout(&wide).unwrap_err(), LayoutError::TooLarge);
}
