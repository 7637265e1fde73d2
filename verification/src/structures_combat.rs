//! Combat on structures: which collisions are hits, what a hit leads to, and
//! how the loss of a module can open a structure to space.

use crate::cells::{adjacent, CellSet};
use crate::grid::{with_fill, CellType, Grid, GridCell};
use crate::modules::{Module, ModuleDestroyedEvent, ModuleType};
use crate::structures::{touched_by, touches, Pressurization, Structure, StructureDepressurizationEvent};
use vstd::prelude::*;

verus! {

/// A projectile struck a module.
#[derive(Clone, Copy, Debug, PartialEq, Eq, Structural)]
pub struct StructureHitEvent {
    pub projectile_entity: u64,
    pub module_entity: u64,
}

/// The first of two entities that matches a query, given for each whether it
/// matches; `None` where neither does.
pub fn find_matching_entity(entity1: u64, entity2: u64, first_matches: bool, second_matches: bool) -> (found:
    Option<u64>)
    ensures
        found == if first_matches {
            Some(entity1)
        } else if second_matches {
            Some(entity2)
        } else {
            None
        },
{
    if first_matches {
        Some(entity1)
    } else if second_matches {
        Some(entity2)
    } else {
        None
    }
}

/// The entity to remove from the world: `entity` itself where it is still
/// `alive` there, nothing where it is gone already.
pub fn despawn_entity(entity: u64, alive: bool) -> (removed: Option<u64>)
    ensures
        removed == if alive {
            Some(entity)
        } else {
            None
        },
{
    if alive {
        Some(entity)
    } else {
        None
    }
}

/// The hit that a collision of `entity1` with `entity2` is, given what each
/// of them is: a hit where one is a projectile and the other a module, the
/// first entity being tried as the projectile first. Every other pair is no
/// hit.
pub open spec fn spec_hit(
    entity1: u64,
    entity2: u64,
    first_is_projectile: bool,
    second_is_projectile: bool,
    first_is_module: bool,
    second_is_module: bool,
) -> Option<StructureHitEvent> {
    if first_is_projectile && second_is_module {
        Some(StructureHitEvent { projectile_entity: entity1, module_entity: entity2 })
    } else if second_is_projectile && first_is_module {
        Some(StructureHitEvent { projectile_entity: entity2, module_entity: entity1 })
    } else {
        None
    }
}

/// Tells whether a collision is a projectile striking a module.
pub fn detect_structure_hit_by_projectile(
    entity1: u64,
    entity2: u64,
    first_is_projectile: bool,
    second_is_projectile: bool,
    first_is_module: bool,
    second_is_module: bool,
) -> (hit: Option<StructureHitEvent>)
    ensures
        hit == spec_hit(
            entity1,
            entity2,
            first_is_projectile,
            second_is_projectile,
            first_is_module,
            second_is_module,
        ),
{
    let as_first = first_is_projectile && second_is_module;
    let as_second = second_is_projectile && first_is_module;
    match find_matching_entity(entity1, entity2, as_first, as_second) {
        Some(projectile_entity) => {
            let module_entity = if as_first {
                entity2
            } else {
                entity1
            };
            Some(StructureHitEvent { projectile_entity, module_entity })
        },
        None => None,
    }
}

/// What follows from a hit.
#[derive(Clone, Copy, Debug, PartialEq, Eq)]
pub struct HitOutcome {
    /// The projectile, which is used up by the hit.
    pub spent_projectile: u64,
    /// Set where the module is destroyed.
    pub destroyed: Option<ModuleDestroyedEvent>,
    /// Whether to report that the module took damage and survived.
    pub took_damage: bool,
}

/// Settles a hit on `module`, given whether the damage used up its
/// structural points. The projectile is spent either way; a destroyed module
/// is reported with its place in the grid, a surviving one as damaged.
pub fn projectile_hit(event: &StructureHitEvent, module: &Module, is_destroyed: bool) -> (outcome: HitOutcome)
    ensures
        outcome.spent_projectile == event.projectile_entity,
        outcome.took_damage == !is_destroyed,
        outcome.destroyed == if is_destroyed {
            Some(ModuleDestroyedEvent { destroyed_entity: event.module_entity, inner_grid_pos: module.inner_grid_pos })
        } else {
            None
        },
{
    let destroyed = if is_destroyed {
        Some(ModuleDestroyedEvent { destroyed_entity: event.module_entity, inner_grid_pos: module.inner_grid_pos })
    } else {
        None
    };
    HitOutcome { spent_projectile: event.projectile_entity, destroyed, took_damage: !is_destroyed }
}

/// Whether `c` is a cell of free room that `exposed` does not hold: a cell
/// of a sealed room.
pub open spec fn is_sealed_room(grid: &Grid, exposed: Set<(int, int)>, c: (int, int)) -> bool {
    &&& grid@.contains_key(c)
    &&& grid@[c].cell_type == CellType::Empty
    &&& !exposed.contains(c)
}

/// Whether a direct neighbour of `c` is a cell of a sealed room.
pub open spec fn opens_sealed_room(grid: &Grid, exposed: Set<(int, int)>, c: (int, int)) -> bool {
    ||| is_sealed_room(grid, exposed, (c.0, c.1 - 1))
    ||| is_sealed_room(grid, exposed, (c.0 - 1, c.1))
    ||| is_sealed_room(grid, exposed, (c.0, c.1 + 1))
    ||| is_sealed_room(grid, exposed, (c.0 + 1, c.1))
}

/// Whether `(x, y)` is a cell of a sealed room.
fn sealed_room_at(grid: &Grid, exposed: &CellSet, x: i32, y: i32) -> (b: bool)
    ensures
        b == is_sealed_room(grid, exposed@, (x as int, y as int)),
{
    if exposed.contains(x, y) {
        false
    } else {
        match grid.get(x, y) {
            Some(cell) => cell.cell_type == CellType::Empty,
            None => false,
        }
    }
}

/// Takes a destroyed module out of its structure.
///
/// The cell of the module becomes free room, for good: no module is in it
/// afterwards, and no cell becomes a module cell. The exposure of the
/// structure is evaluated anew. The structure is reported as depressurized
/// where a direct neighbour of the cell was free room that had been sealed
/// until now.
pub fn handle_module_destroyed(
    structure: &mut Structure,
    pressurization: &mut Pressurization,
    structure_entity: u64,
    event: &ModuleDestroyedEvent,
) -> (depressurization: Option<StructureDepressurizationEvent>)
    ensures
        final(structure).grid.width() == old(structure).grid.width(),
        final(structure).grid.height() == old(structure).grid.height(),
        final(structure).grid@ == with_fill(
            old(structure).grid@,
            (event.inner_grid_pos.0 as int, event.inner_grid_pos.1 as int),
            CellType::Empty,
        ),
        !final(structure).grid.is_module((event.inner_grid_pos.0 as int, event.inner_grid_pos.1 as int)),
        old(structure).grid.decays_into(&final(structure).grid),
        final(pressurization).exposed_before@ == old(pressurization).exposed_cells@,
        final(pressurization).exposed_cells@ == final(structure).grid.exposed_cells(),
        depressurization == if opens_sealed_room(
            &final(structure).grid,
            old(pressurization).exposed_cells@,
            (event.inner_grid_pos.0 as int, event.inner_grid_pos.1 as int),
        ) {
            Some(StructureDepressurizationEvent { depressurized_structure: structure_entity })
        } else {
            None
        },
{
    let x = event.inner_grid_pos.0;
    let y = event.inner_grid_pos.1;
    let ghost before = structure.grid;
    structure.grid.set_cell_type_to_empty(x, y);
    proof {
        before.lemma_emptying_is_decay(&structure.grid, (x as int, y as int));
    }
    let adjacent_cells = structure.get_adjacent_cells(event.inner_grid_pos);
    let ghost at = (x as int, y as int);
    let ghost exposed = pressurization.exposed_cells@;
    let mut any_exposed = false;
    let mut k: usize = 0;
    while k < adjacent_cells.len()
        invariant
            0 <= k <= adjacent_cells@.len(),
            exposed == pressurization.exposed_cells@,
            adjacent_cells@ == structure.spec_adjacent_cells(event.inner_grid_pos),
            any_exposed ==> opens_sealed_room(&structure.grid, exposed, at),
            !any_exposed ==> forall|j: int|
                0 <= j < k ==> !is_sealed_room(
                    &structure.grid,
                    exposed,
                    ((#[trigger] adjacent_cells@[j]).0 as int, adjacent_cells@[j].1 as int),
                ),
            at == (event.inner_grid_pos.0 as int, event.inner_grid_pos.1 as int),
        decreases adjacent_cells@.len() - k,
    {
        let adjacent_cell = adjacent_cells[k];
        if sealed_room_at(&structure.grid, &pressurization.exposed_cells, adjacent_cell.0, adjacent_cell.1) {
            proof {
                structure.lemma_adjacent_cells(event.inner_grid_pos);
                assert(adjacent(at, ((adjacent_cells@[k as int]).0 as int, adjacent_cells@[k as int].1 as int)));
            }
            any_exposed = true;
        }
        k = k + 1;
    }
    proof {
        if !any_exposed {
            structure.lemma_adjacent_cells(event.inner_grid_pos);
            structure.grid.lemma_view_in_bounds();
            assert forall|c: (int, int)| #[trigger] adjacent(at, c) implies !is_sealed_room(
                &structure.grid,
                exposed,
                c,
            ) by {
                if structure.grid.in_bounds(c) {
                    let j = choose|j: int|
                        0 <= j < adjacent_cells@.len() && (#[trigger] adjacent_cells@[j]).0 == c.0
                            && adjacent_cells@[j].1 == c.1;
                    assert(!is_sealed_room(
                        &structure.grid,
                        exposed,
                        ((adjacent_cells@[j]).0 as int, adjacent_cells@[j].1 as int),
                    ));
                }
            }
            assert(adjacent(at, (at.0, at.1 - 1)));
            assert(adjacent(at, (at.0 - 1, at.1)));
            assert(adjacent(at, (at.0, at.1 + 1)));
            assert(adjacent(at, (at.0 + 1, at.1)));
        }
    }
    pressurization.reevaluate(structure);
    if any_exposed {
        Some(StructureDepressurizationEvent { depressurized_structure: structure_entity })
    } else {
        None
    }
}

/// Whether the module cell `c` is blown off when the exposure of a structure
/// has changed from `exposed_before` to `exposed`: a module now takes the
/// cell, the cell has an exposed direct neighbour, and it had none before.
pub open spec fn is_blown_off(
    grid: &Grid,
    exposed: Set<(int, int)>,
    exposed_before: Set<(int, int)>,
    c: (int, int),
) -> bool {
    &&& grid.is_module(c)
    &&& touches(exposed, c)
    &&& !touches(exposed_before, c)
}

/// Whether one of `modules` stands in the cell `c`.
pub open spec fn has_module_at(modules: Seq<Module>, c: (int, int)) -> bool {
    exists|i: int|
        0 <= i < modules.len() && (#[trigger] modules[i]).inner_grid_pos.0 == c.0 && modules[i].inner_grid_pos.1
            == c.1
}

/// `m` with every cell of `gone` turned into free room.
pub open spec fn emptied(m: Map<(int, int), GridCell>, gone: Set<(int, int)>) -> Map<(int, int), GridCell> {
    Map::new(
        |c: (int, int)| m.contains_key(c),
        |c: (int, int)|
            if gone.contains(c) {
                GridCell { data: m[c].data, cell_type: CellType::Empty }
            } else {
                m[c]
            },
    )
}

/// The cell that a module stands in.
pub open spec fn cell_of(module: Module) -> (int, int) {
    (module.inner_grid_pos.0 as int, module.inner_grid_pos.1 as int)
}

/// A breach acts only where it is: a module that is blown off has a direct
/// neighbour that is exposed now and was not before. Modules away from the
/// newly exposed cells stay where they are.
pub proof fn lemma_breach_is_local(
    grid: &Grid,
    exposed: Set<(int, int)>,
    exposed_before: Set<(int, int)>,
    c: (int, int),
)
    requires
        is_blown_off(grid, exposed, exposed_before, c),
    ensures
        touches(exposed.difference(exposed_before), c),
{
}

/// A module that was sealed and now has an exposed direct neighbour is blown
/// off, whichever cell of the hull gave way.
pub proof fn lemma_breach_reaches_sealed(
    grid: &Grid,
    exposed: Set<(int, int)>,
    exposed_before: Set<(int, int)>,
    c: (int, int),
)
    requires
        grid.is_module(c),
        !touches(exposed_before, c),
        touches(exposed.difference(exposed_before), c),
    ensures
        is_blown_off(grid, exposed, exposed_before, c),
{
}

/// Lets a depressurized structure go to pieces where it was breached.
///
/// Of `modules`, the modules of the structure, those are detached whose cell
/// is blown off: a module cell with an exposed direct neighbour that had none
/// at the evaluation before. Their indices are returned in rising order.
/// Their cells become free room, no other cell changes, and the exposure is
/// evaluated anew.
pub fn handle_depressurization(
    structure: &mut Structure,
    pressurization: &mut Pressurization,
    modules: &Vec<Module>,
) -> (detached: Vec<usize>)
    ensures
        final(structure).grid.width() == old(structure).grid.width(),
        final(structure).grid.height() == old(structure).grid.height(),
        final(structure).grid@ == emptied(
            old(structure).grid@,
            Set::new(
                |c: (int, int)|
                    is_blown_off(
                        &old(structure).grid,
                        old(pressurization).exposed_cells@,
                        old(pressurization).exposed_before@,
                        c,
                    ) && has_module_at(modules@, c),
            ),
        ),
        old(structure).grid.decays_into(&final(structure).grid),
        forall|i: int|
            0 <= i < modules@.len() ==> (detached@.contains(i as usize) <==> is_blown_off(
                &old(structure).grid,
                old(pressurization).exposed_cells@,
                old(pressurization).exposed_before@,
                cell_of(#[trigger] modules@[i]),
            )),
        forall|k: int| 0 <= k < detached@.len() ==> (#[trigger] detached@[k]) < modules@.len(),
        forall|j: int, k: int| 0 <= j < k < detached@.len() ==> (#[trigger] detached@[j]) < (#[trigger] detached@[k]),
        final(pressurization).exposed_before@ == old(pressurization).exposed_cells@,
        final(pressurization).exposed_cells@ == final(structure).grid.exposed_cells(),
{
    let hull = structure.find_neighbors_of_exposed_modules(&pressurization.exposed_cells);
    let mut detached: Vec<usize> = Vec::new();
    let ghost before = structure.grid;
    let ghost exposed = pressurization.exposed_cells@;
    let ghost exposed_before = pressurization.exposed_before@;
    let ghost mut gone: Set<(int, int)> = Set::empty();
    proof {
        assert(structure.grid@ =~= emptied(before@, gone));
    }
    let mut i: usize = 0;
    while i < modules.len()
        invariant
            0 <= i <= modules@.len(),
            exposed == pressurization.exposed_cells@,
            exposed_before == pressurization.exposed_before@,
            forall|c: (int, int)| hull@.contains(c) <==> before.is_module(c) && touches(exposed, c),
            structure.grid.width() == before.width(),
            structure.grid.height() == before.height(),
            structure.grid@ == emptied(before@, gone),
            forall|c: (int, int)|
                gone.contains(c) ==> is_blown_off(&before, exposed, exposed_before, c) && has_module_at(modules@, c),
            forall|j: int|
                0 <= j < i && is_blown_off(&before, exposed, exposed_before, cell_of(#[trigger] modules@[j]))
                    ==> gone.contains(cell_of(modules@[j])) && detached@.contains(j as usize),
            forall|k: int|
                0 <= k < detached@.len() ==> (#[trigger] detached@[k]) < i && is_blown_off(
                    &before,
                    exposed,
                    exposed_before,
                    cell_of(modules@[detached@[k] as int]),
                ),
            forall|j: int, k: int|
                0 <= j < k < detached@.len() ==> (#[trigger] detached@[j]) < (#[trigger] detached@[k]),
        decreases modules@.len() - i,
    {
        let pos = modules[i].inner_grid_pos;
        let ghost c = (pos.0 as int, pos.1 as int);
        if hull.contains(pos.0, pos.1) && !touched_by(&pressurization.exposed_before, pos.0, pos.1) {
            let ghost listed = detached@;
            detached.push(i);
            structure.grid.set_cell_type_to_empty(pos.0, pos.1);
            proof {
                assert(has_module_at(modules@, c)) by {
                    assert(modules@[i as int].inner_grid_pos.0 == c.0);
                }
                gone = gone.insert(c);
                assert(structure.grid@ =~= emptied(before@, gone));
                assert(detached@[listed.len() as int] == i);
                assert forall|j: int|
                    0 <= j < i + 1 && is_blown_off(
                        &before,
                        exposed,
                        exposed_before,
                        cell_of(#[trigger] modules@[j]),
                    ) implies gone.contains(cell_of(modules@[j])) && detached@.contains(j as usize) by {
                    if j < i {
                        let k = choose|k: int| 0 <= k < listed.len() && listed[k] == j as usize;
                        assert(detached@[k] == listed[k]);
                    }
                }
                assert forall|k: int| 0 <= k < detached@.len() implies (#[trigger] detached@[k]) < i + 1
                    && is_blown_off(&before, exposed, exposed_before, cell_of(modules@[detached@[k] as int])) by {
                    if k < listed.len() {
                        assert(detached@[k] == listed[k]);
                    }
                }
                assert forall|j: int, k: int| 0 <= j < k < detached@.len() implies (#[trigger] detached@[j]) < (
                #[trigger] detached@[k]) by {
                    assert(detached@[j] == listed[j]);
                    if k < listed.len() {
                        assert(detached@[k] == listed[k]);
                    }
                }
            }
        }
        i = i + 1;
    }
    proof {
        let wanted = Set::new(
            |c: (int, int)| is_blown_off(&before, exposed, exposed_before, c) && has_module_at(modules@, c),
        );
        assert forall|c: (int, int)| wanted.contains(c) implies gone.contains(c) by {
            let j = choose|j: int|
                0 <= j < modules@.len() && (#[trigger] modules@[j]).inner_grid_pos.0 == c.0
                    && modules@[j].inner_grid_pos.1 == c.1;
            assert(cell_of(modules@[j]) == c);
        }
        assert(gone =~= wanted);
        assert(before.decays_into(&structure.grid)) by {
            assert(structure.grid@.dom() =~= before@.dom());
        }
        assert forall|i: int| 0 <= i < modules@.len() implies (detached@.contains(i as usize) <==> is_blown_off(
            &before,
            exposed,
            exposed_before,
            cell_of(#[trigger] modules@[i]),
        )) by {
            if detached@.contains(i as usize) {
                let k = choose|k: int| 0 <= k < detached@.len() && detached@[k] == i as usize;
                assert(detached@[k] as int == i);
            }
        }
    }
    pressurization.reevaluate(structure);
    detached
}

/// The modules of a structure that can fire: the indices of the cannons among
/// `modules`, in rising order.
pub fn cannon_modules(modules: &Vec<Module>) -> (cannons: Vec<usize>)
    ensures
        forall|i: int|
            0 <= i < modules@.len() ==> (cannons@.contains(i as usize) <==> (#[trigger] modules@[i]).module_type
                == ModuleType::Cannon),
        forall|k: int| 0 <= k < cannons@.len() ==> (#[trigger] cannons@[k]) < modules@.len(),
        forall|j: int, k: int| 0 <= j < k < cannons@.len() ==> (#[trigger] cannons@[j]) < (#[trigger] cannons@[k]),
{
    let mut cannons: Vec<usize> = Vec::new();
    let mut i: usize = 0;
    while i < modules.len()
        invariant
            0 <= i <= modules@.len(),
            forall|j: int|
                0 <= j < i ==> (cannons@.contains(j as usize) <==> (#[trigger] modules@[j]).module_type
                    == ModuleType::Cannon),
            forall|k: int| 0 <= k < cannons@.len() ==> (#[trigger] cannons@[k]) < i,
            forall|j: int, k: int|
                0 <= j < k < cannons@.len() ==> (#[trigger] cannons@[j]) < (#[trigger] cannons@[k]),
        decreases modules@.len() - i,
    {
        let ghost listed = cannons@;
        let is_cannon = match modules[i].module_type {
            ModuleType::Cannon => true,
            _ => false,
        };
        if is_cannon {
            cannons.push(i);
        }
        proof {
            assert forall|j: int| 0 <= j < i + 1 implies (cannons@.contains(j as usize) <==> (
            #[trigger] modules@[j]).module_type == ModuleType::Cannon) by {
                if listed.contains(j as usize) {
                    let k = choose|k: int| 0 <= k < listed.len() && listed[k] == j as usize;
                    assert(cannons@[k] == listed[k]);
                }
                if cannons@.contains(j as usize) {
                    let k = choose|k: int| 0 <= k < cannons@.len() && cannons@[k] == j as usize;
                    if k < listed.len() {
                        assert(listed[k] == cannons@[k]);
                    }
                }
                if is_cannon && j == i {
                    assert(cannons@[listed.len() as int] == i);
                }
            }
            assert forall|k: int| 0 <= k < cannons@.len() implies (#[trigger] cannons@[k]) < i + 1 by {
                if k < listed.len() {
                    assert(cannons@[k] == listed[k]);
                }
            }
            assert forall|j: int, k: int| 0 <= j < k < cannons@.len() implies (#[trigger] cannons@[j]) < (
            #[trigger] cannons@[k]) by {
                assert(cannons@[j] == listed[j]);
                if k < listed.len() {
                    assert(cannons@[k] == listed[k]);
                }
            }
        }
        i = i + 1;
    }
    cannons
}

/// Whether a structure can move under its own power: whether one of
/// `modules` is an engine.
pub fn has_engine(modules: &Vec<Module>) -> (able_to_move: bool)
    ensures
        able_to_move <==> exists|i: int|
            0 <= i < modules@.len() && (#[trigger] modules@[i]).module_type == ModuleType::Engine,
{
    let mut i: usize = 0;
    while i < modules.len()
        invariant
            0 <= i <= modules@.len(),
            forall|j: int| 0 <= j < i ==> (#[trigger] modules@[j]).module_type != ModuleType::Engine,
        decreases modules@.len() - i,
    {
        let is_engine = match modules[i].module_type {
            ModuleType::Engine => true,
            _ => false,
        };
        if is_engine {
            return true;
        }
        i = i + 1;
    }
    false
}

} // verus!
