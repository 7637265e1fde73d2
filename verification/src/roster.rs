//! The modules of a structure against its grid: every module cell belongs to
//! exactly one module that is alive.

use crate::grid::{with_fill, CellType, Grid};
use crate::layout::{plan_matches, StructurePlan};
use crate::modules::{Module, ModuleBlueprint};
use crate::structures_combat::{cell_of, emptied, has_module_at};
use vstd::prelude::*;

verus! {

/// Whether `modules` are the modules of `grid`: each stands in a module cell
/// of its own, and no module cell is without one.
pub open spec fn is_roster_of(grid: &Grid, modules: Seq<Module>) -> bool {
    &&& forall|i: int| 0 <= i < modules.len() ==> grid.is_module(cell_of(#[trigger] modules[i]))
    &&& forall|i: int, j: int|
        0 <= i < j < modules.len() ==> cell_of(#[trigger] modules[i]) != cell_of(#[trigger] modules[j])
    &&& forall|c: (int, int)| #[trigger] grid.is_module(c) ==> has_module_at(modules, c)
}

/// The modules that a list of blueprints describes, in the same order.
pub open spec fn planned_modules(blueprints: Seq<ModuleBlueprint>) -> Seq<Module> {
    Seq::new(blueprints.len(), |i: int| blueprints[i].module)
}

/// A structure is built with its roster: the modules of a plan are the
/// modules of its grid.
pub proof fn lemma_plan_has_its_roster(plan: &StructurePlan, rows: Seq<String>)
    requires
        0 < rows.len() <= 0x7fff_ffff,
        0 < rows[0]@.len() <= 0x7fff_ffff,
        plan_matches(plan, rows),
    ensures
        is_roster_of(&plan.structure.grid, planned_modules(plan.modules@)),
{
    let grid = plan.structure.grid;
    let blueprints = plan.modules@;
    let modules = planned_modules(blueprints);
    grid.lemma_view_in_bounds();
    assert forall|i: int| 0 <= i < modules.len() implies grid.is_module(cell_of(#[trigger] modules[i])) by {
        let pos = blueprints[i].module.inner_grid_pos;
        assert(grid@[(pos.0 as int, pos.1 as int)].cell_type == CellType::Module);
    }
    assert forall|i: int, j: int| 0 <= i < j < modules.len() implies cell_of(#[trigger] modules[i]) != cell_of(
        #[trigger] modules[j],
    ) by {
        assert(crate::layout::reads_before(blueprints[i].module.inner_grid_pos, blueprints[j].module.inner_grid_pos));
    }
    assert forall|c: (int, int)| #[trigger] grid.is_module(c) implies has_module_at(modules, c) by {
        assert(grid@[c].cell_type == CellType::Module);
        assert(crate::layout::glyph_blueprint(rows[c.1]@[c.0], (c.0 as i32, c.1 as i32)) is Some);
        let i = choose|i: int|
            0 <= i < blueprints.len() && (#[trigger] blueprints[i]).module.inner_grid_pos == (c.0 as i32, c.1 as i32);
        assert(modules[i].inner_grid_pos.0 == c.0 && modules[i].inner_grid_pos.1 == c.1);
    }
}

/// A destroyed module leaves the roster with its cell: where the cell of
/// the module at `index` has become free room, the other modules are the
/// modules of the grid.
pub proof fn lemma_roster_without_destroyed(before: &Grid, after: &Grid, modules: Seq<Module>, index: int)
    requires
        is_roster_of(before, modules),
        0 <= index < modules.len(),
        after@ == with_fill(before@, cell_of(modules[index]), CellType::Empty),
    ensures
        is_roster_of(after, modules.remove(index)),
{
    let gone = cell_of(modules[index]);
    let rest = modules.remove(index);
    assert(before.is_module(gone));
    assert forall|i: int| 0 <= i < rest.len() implies after.is_module(cell_of(#[trigger] rest[i])) by {
        let k = if i < index {
            i
        } else {
            i + 1
        };
        assert(rest[i] == modules[k]);
        assert(before.is_module(cell_of(modules[k])));
        if k < index {
            assert(cell_of(modules[k]) != cell_of(modules[index]));
        } else {
            assert(cell_of(modules[index]) != cell_of(modules[k]));
        }
    }
    assert forall|i: int, j: int| 0 <= i < j < rest.len() implies cell_of(#[trigger] rest[i]) != cell_of(
        #[trigger] rest[j],
    ) by {
        let ki = if i < index {
            i
        } else {
            i + 1
        };
        let kj = if j < index {
            j
        } else {
            j + 1
        };
        assert(rest[i] == modules[ki] && rest[j] == modules[kj]);
        assert(cell_of(modules[ki]) != cell_of(modules[kj]));
    }
    assert forall|c: (int, int)| #[trigger] after.is_module(c) implies has_module_at(rest, c) by {
        assert(before.is_module(c));
        assert(c != gone);
        let k = choose|k: int|
            0 <= k < modules.len() && (#[trigger] modules[k]).inner_grid_pos.0 == c.0 && modules[k].inner_grid_pos.1
                == c.1;
        assert(k != index);
        let i = if k < index {
            k
        } else {
            k - 1
        };
        assert(rest[i] == modules[k]);
    }
}

/// Detached modules leave the roster with their cells: where the cells of
/// `gone` have become free room, the modules that stand in none of them are
/// the modules of the grid. `survivors` are those modules, in any order.
pub proof fn lemma_roster_without_detached(
    before: &Grid,
    after: &Grid,
    modules: Seq<Module>,
    gone: Set<(int, int)>,
    survivors: Seq<Module>,
)
    requires
        is_roster_of(before, modules),
        after@ == emptied(before@, gone),
        forall|i: int| 0 <= i < survivors.len() ==> modules.contains(#[trigger] survivors[i]) && !gone.contains(
            cell_of(survivors[i]),
        ),
        forall|i: int|
            0 <= i < modules.len() && !gone.contains(cell_of(#[trigger] modules[i])) ==> survivors.contains(
                modules[i],
            ),
        forall|i: int, j: int|
            0 <= i < j < survivors.len() ==> cell_of(#[trigger] survivors[i]) != cell_of(#[trigger] survivors[j]),
    ensures
        is_roster_of(after, survivors),
{
    assert forall|i: int| 0 <= i < survivors.len() implies after.is_module(cell_of(#[trigger] survivors[i])) by {
        let k = choose|k: int| 0 <= k < modules.len() && modules[k] == survivors[i];
        assert(before.is_module(cell_of(modules[k])));
    }
    assert forall|c: (int, int)| #[trigger] after.is_module(c) implies has_module_at(survivors, c) by {
        assert(before.is_module(c));
        assert(!gone.contains(c));
        let k = choose|k: int|
            0 <= k < modules.len() && (#[trigger] modules[k]).inner_grid_pos.0 == c.0 && modules[k].inner_grid_pos.1
                == c.1;
        assert(cell_of(modules[k]) == c);
        let i = choose|i: int| 0 <= i < survivors.len() && survivors[i] == modules[k];
        assert(survivors[i].inner_grid_pos.0 == c.0);
    }
}

} // verus!
