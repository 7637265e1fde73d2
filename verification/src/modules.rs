//! The modules a structure is built from.

use crate::grid::{CellType, GridCell};
use crate::structures::Structure;
use vstd::prelude::*;

verus! {

/// What a module does.
#[derive(Clone, Copy, Debug, PartialEq, Eq, Structural)]
pub enum ModuleType {
    CommandCenter,
    Engine,
    Wall,
    Cannon,
}

impl Default for ModuleType {
    fn default() -> (t: ModuleType)
        ensures
            t == ModuleType::CommandCenter,
    {
        ModuleType::CommandCenter
    }
}

/// What a module is made of.
#[derive(Clone, Copy, Debug, PartialEq, Eq, Structural)]
pub enum ModuleMaterialType {
    Steel,
    Wood,
    Aluminum,
}

impl Default for ModuleMaterialType {
    fn default() -> (t: ModuleMaterialType)
        ensures
            t == ModuleMaterialType::Steel,
    {
        ModuleMaterialType::Steel
    }
}

/// A module of a structure. `entity_connected` is the agent at its controls
/// and is set on command centres only.
#[derive(Clone, Copy, Debug, PartialEq, Eq)]
pub struct Module {
    pub entity_connected: Option<u64>,
    pub module_type: ModuleType,
    pub inner_grid_pos: (i32, i32),
}

impl Default for Module {
    fn default() -> (m: Module)
        ensures
            m == (Module { entity_connected: None, module_type: ModuleType::CommandCenter, inner_grid_pos: (0, 0) }),
    {
        Module { entity_connected: None, module_type: ModuleType::CommandCenter, inner_grid_pos: (0, 0) }
    }
}

/// A module ran out of structural points and is gone.
#[derive(Clone, Copy, Debug, PartialEq, Eq)]
pub struct ModuleDestroyedEvent {
    pub destroyed_entity: u64,
    pub inner_grid_pos: (i32, i32),
}

/// What has to be created for a module that was placed in a structure.
/// `rigid` tells whether it is a solid body that can be hit; a module that
/// agents walk into is not.
#[derive(Clone, Copy, Debug, PartialEq, Eq)]
pub struct ModuleBlueprint {
    pub module: Module,
    pub material_type: ModuleMaterialType,
    pub rigid: bool,
}

/// The blueprint of a module of the given kind at `grid_pos`, with nobody at
/// its controls.
pub open spec fn spec_blueprint(
    module_type: ModuleType,
    grid_pos: (i32, i32),
    interactable: bool,
    material_type: ModuleMaterialType,
) -> ModuleBlueprint {
    ModuleBlueprint {
        module: Module { entity_connected: None, module_type, inner_grid_pos: grid_pos },
        material_type,
        rigid: !interactable,
    }
}

/// Places a module in the structure: the cell at `grid_pos` becomes a module
/// cell with nobody in it (a position outside the grid leaves the grid as it
/// is), and the blueprint of the module is returned.
pub fn spawn_module(
    structure_component: &mut Structure,
    module_type: ModuleType,
    grid_pos: (i32, i32),
    interactable: bool,
    material_type: ModuleMaterialType,
) -> (blueprint: ModuleBlueprint)
    ensures
        blueprint == spec_blueprint(module_type, grid_pos, interactable, material_type),
        final(structure_component).grid.width() == old(structure_component).grid.width(),
        final(structure_component).grid.height() == old(structure_component).grid.height(),
        final(structure_component).grid@ == if old(structure_component).grid.in_bounds(
            (grid_pos.0 as int, grid_pos.1 as int),
        ) {
            old(structure_component).grid@.insert(
                (grid_pos.0 as int, grid_pos.1 as int),
                (GridCell { data: None, cell_type: CellType::Module }),
            )
        } else {
            old(structure_component).grid@
        },
{
    structure_component.grid.insert(grid_pos.0, grid_pos.1, CellType::Module);
    ModuleBlueprint {
        module: Module { entity_connected: None, module_type, inner_grid_pos: grid_pos },
        material_type,
        rigid: !interactable,
    }
}

} // verus!
