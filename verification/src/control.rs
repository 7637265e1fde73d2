//! Piloting: who sits at the controls of a command centre.

use crate::modules::{Module, ModuleType};
use crate::player::PlayerResource;
use crate::structures::Structure;
use vstd::prelude::*;

verus! {

/// What pressing the control key did to a command centre.
#[derive(Clone, Copy, Debug, PartialEq, Eq, Structural)]
pub enum ControlChange {
    /// The player took the controls.
    Taken,
    /// The player let go of the controls.
    Released,
    /// Nothing changed.
    Unchanged,
}

/// Whether a player standing in `player_cell` can work the controls of
/// `module`: the cell lies inside the grid of the structure, and the module is
/// a command centre in that very cell.
pub open spec fn at_controls(structure: &Structure, module: Module, player_cell: (i32, i32)) -> bool {
    &&& structure.grid.in_bounds((player_cell.0 as int, player_cell.1 as int))
    &&& module.module_type == ModuleType::CommandCenter
    &&& module.inner_grid_pos == player_cell
}

/// Tells whether a player standing in `player_cell` can work the controls of
/// `module`.
pub fn is_at_controls(structure: &Structure, module: &Module, player_cell: (i32, i32)) -> (able: bool)
    ensures
        able == at_controls(structure, *module, player_cell),
{
    let in_seat_cell = module.inner_grid_pos.0 == player_cell.0 && module.inner_grid_pos.1 == player_cell.1;
    let is_command_center = match module.module_type {
        ModuleType::CommandCenter => true,
        _ => false,
    };
    structure.is_within_grid_bounds(player_cell.0, player_cell.1) && is_command_center && in_seat_cell
}

/// Who is at the controls after `player_entity` pressed the control key at
/// them: a free seat is taken, one's own seat is given up, another's seat
/// stays as it is.
pub open spec fn seat_after_press(seat: Option<u64>, player_entity: u64) -> Option<u64> {
    match seat {
        None => Some(player_entity),
        Some(holder) => if holder == player_entity {
            None
        } else {
            Some(holder)
        },
    }
}

/// What a press of the control key by `player_entity` did to a seat.
pub open spec fn change_by_press(seat: Option<u64>, player_entity: u64) -> ControlChange {
    match seat {
        None => ControlChange::Taken,
        Some(holder) => if holder == player_entity {
            ControlChange::Released
        } else {
            ControlChange::Unchanged
        },
    }
}

/// A seat has at most one holder, and nobody else can take it from them:
/// while `holder` has the seat, a press by any other agent changes nothing.
pub proof fn lemma_control_is_exclusive(holder: u64, other: u64)
    requires
        holder != other,
    ensures
        seat_after_press(Some(holder), other) == Some(holder),
        change_by_press(Some(holder), other) == ControlChange::Unchanged,
{
}

/// Who presses first at a free seat has it, and keeps it when another
/// presses after them.
pub proof fn lemma_first_press_wins(first: u64, second: u64)
    requires
        first != second,
    ensures
        seat_after_press(None, first) == Some(first),
        change_by_press(None, first) == ControlChange::Taken,
        seat_after_press(seat_after_press(None, first), second) == Some(first),
        change_by_press(seat_after_press(None, first), second) == ControlChange::Unchanged,
{
}

/// Pressing the control key twice gives the seat back as it was free before.
pub proof fn lemma_control_toggles(player_entity: u64)
    ensures
        seat_after_press(seat_after_press(None, player_entity), player_entity) == None::<u64>,
{
}

/// Handles one press of the control key by the player standing in
/// `player_cell`. Where the player is at the controls of `module`, a free
/// seat is taken and the player's own seat is released, and the player
/// record says whether a structure is piloted; in every other case nothing
/// changes. In particular a press at a seat that another agent holds is
/// without effect.
pub fn control_command_center(
    structure: &Structure,
    module: &mut Module,
    player_resource: &mut PlayerResource,
    player_entity: u64,
    player_cell: (i32, i32),
) -> (change: ControlChange)
    ensures
        final(module).module_type == old(module).module_type,
        final(module).inner_grid_pos == old(module).inner_grid_pos,
        final(player_resource).grid_position == old(player_resource).grid_position,
        final(player_resource).inside_structure == old(player_resource).inside_structure,
        at_controls(structure, *old(module), player_cell) ==> {
            &&& change == change_by_press(old(module).entity_connected, player_entity)
            &&& final(module).entity_connected == seat_after_press(old(module).entity_connected, player_entity)
        },
        !at_controls(structure, *old(module), player_cell) ==> {
            &&& change == ControlChange::Unchanged
            &&& final(module).entity_connected == old(module).entity_connected
        },
        final(player_resource).is_controlling_structure == match change {
            ControlChange::Taken => true,
            ControlChange::Released => false,
            ControlChange::Unchanged => old(player_resource).is_controlling_structure,
        },
        old(module).entity_connected is Some && old(module).entity_connected != Some(player_entity) ==> {
            &&& change == ControlChange::Unchanged
            &&& *final(module) == *old(module)
            &&& *final(player_resource) == *old(player_resource)
        },
{
    if is_at_controls(structure, module, player_cell) {
        match module.entity_connected {
            None => {
                module.entity_connected = Some(player_entity);
                player_resource.is_controlling_structure = true;
                ControlChange::Taken
            },
            Some(holder) => {
                if holder == player_entity {
                    module.entity_connected = None;
                    player_resource.is_controlling_structure = false;
                    ControlChange::Released
                } else {
                    ControlChange::Unchanged
                }
            },
        }
    } else {
        ControlChange::Unchanged
    }
}

} // verus!
