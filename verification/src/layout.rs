//! Building a structure from its textual layout.
//!
//! A layout is a rectangle of characters, one string per row from the top.
//! `E` stands for an engine, `C` for a command centre, `W` for a wall and `!`
//! for a cannon; every other character is free room.

use crate::grid::{CellType, Grid, GridCell};
use crate::modules::{spawn_module, spec_blueprint, ModuleBlueprint, ModuleMaterialType, ModuleType};
use crate::structures::Structure;
use vstd::prelude::*;

verus! {

/// Why a layout cannot be built.
#[derive(Clone, Copy, Debug, PartialEq, Eq, Structural)]
pub enum LayoutError {
    /// The layout has no row at all.
    NoRows,
    /// The first row has no character.
    EmptyRow,
    /// The row with this index is not as long as the first.
    RaggedRow { row: usize },
    /// The layout has more rows or columns than a grid can address.
    TooLarge,
}

/// A structure that was built, and the modules to create for it, row by row
/// from the top and from left to right in each row.
#[derive(Debug)]
pub struct StructurePlan {
    pub structure: Structure,
    pub modules: Vec<ModuleBlueprint>,
}

/// The module that `glyph` stands for, placed at `pos`; `None` for free room.
pub open spec fn glyph_blueprint(glyph: char, pos: (i32, i32)) -> Option<ModuleBlueprint> {
    if glyph == 'E' {
        Some(spec_blueprint(ModuleType::Engine, pos, false, ModuleMaterialType::Steel))
    } else if glyph == 'W' {
        Some(spec_blueprint(ModuleType::Wall, pos, false, ModuleMaterialType::Steel))
    } else if glyph == 'C' {
        Some(spec_blueprint(ModuleType::CommandCenter, pos, true, ModuleMaterialType::Steel))
    } else if glyph == '!' {
        Some(spec_blueprint(ModuleType::Cannon, pos, false, ModuleMaterialType::Aluminum))
    } else {
        None
    }
}

/// The grid cell that `glyph` stands for.
pub open spec fn glyph_cell(glyph: char) -> GridCell {
    if glyph == 'E' || glyph == 'W' || glyph == 'C' || glyph == '!' {
        GridCell { data: None, cell_type: CellType::Module }
    } else {
        GridCell { data: None, cell_type: CellType::Empty }
    }
}

/// Whether every row is as long as the first.
pub open spec fn is_rectangular(rows: Seq<String>) -> bool {
    forall|i: int| 0 <= i < rows.len() ==> (#[trigger] rows[i])@.len() == rows[0]@.len()
}

/// Whether `a` comes before `b` when cells are read row by row from the top,
/// each row from the left.
pub open spec fn reads_before(a: (i32, i32), b: (i32, i32)) -> bool {
    a.1 < b.1 || (a.1 == b.1 && a.0 < b.0)
}

/// Whether `plan` is what the layout `rows` describes: a complete grid of the
/// size of the layout in which each cell is the one its character stands for,
/// and exactly one blueprint for each character that stands for a module, in
/// reading order.
pub open spec fn plan_matches(plan: &StructurePlan, rows: Seq<String>) -> bool {
    let grid = plan.structure.grid;
    let modules = plan.modules@;
    &&& grid.width() == rows[0]@.len()
    &&& grid.height() == rows.len()
    &&& forall|x: int, y: int|
        0 <= x < rows[0]@.len() && 0 <= y < rows.len() ==> grid@.contains_key((x, y)) && #[trigger] grid@[(x, y)]
            == glyph_cell(rows[y]@[x])
    &&& forall|i: int|
        0 <= i < modules.len() ==> {
            let pos = (#[trigger] modules[i]).module.inner_grid_pos;
            &&& 0 <= pos.0 < rows[0]@.len()
            &&& 0 <= pos.1 < rows.len()
            &&& glyph_blueprint(rows[pos.1 as int]@[pos.0 as int], pos) == Some(modules[i])
        }
    &&& forall|x: int, y: int|
        0 <= x < rows[0]@.len() && 0 <= y < rows.len() && (#[trigger] glyph_blueprint(
            rows[y]@[x],
            (x as i32, y as i32),
        )) is Some ==> exists|i: int|
            0 <= i < modules.len() && (#[trigger] modules[i]).module.inner_grid_pos == (x as i32, y as i32)
    &&& forall|i: int, j: int|
        0 <= i < j < modules.len() ==> reads_before(
            (#[trigger] modules[i]).module.inner_grid_pos,
            (#[trigger] modules[j]).module.inner_grid_pos,
        )
}

/// Whether `r` is the first row that is not as long as the first row.
pub open spec fn is_first_ragged_row(rows: Seq<String>, r: int) -> bool {
    &&& 0 <= r < rows.len()
    &&& rows[r]@.len() != rows[0]@.len()
    &&& forall|i: int| 0 <= i < r ==> (#[trigger] rows[i])@.len() == rows[0]@.len()
}

/// Whether the cell `(x, y)` has been read when reading has come to `(at_x, at_y)`.
spec fn read(x: int, y: int, at_x: int, at_y: int) -> bool {
    y < at_y || (y == at_y && x < at_x)
}

/// What holds of a plan under construction when reading has come to
/// `(at_x, at_y)`: it matches the layout in every cell read so far.
spec fn built_upto(grid: Grid, modules: Seq<ModuleBlueprint>, rows: Seq<String>, at_x: int, at_y: int) -> bool {
    &&& grid.width() == rows[0]@.len()
    &&& grid.height() == rows.len()
    &&& grid.is_complete()
    &&& forall|x: int, y: int|
        0 <= x < rows[0]@.len() && 0 <= y < rows.len() && read(x, y, at_x, at_y) ==> #[trigger] grid@[(x, y)]
            == glyph_cell(rows[y]@[x])
    &&& forall|i: int|
        0 <= i < modules.len() ==> {
            let pos = (#[trigger] modules[i]).module.inner_grid_pos;
            &&& 0 <= pos.0 < rows[0]@.len()
            &&& 0 <= pos.1 < rows.len()
            &&& read(pos.0 as int, pos.1 as int, at_x, at_y)
            &&& glyph_blueprint(rows[pos.1 as int]@[pos.0 as int], pos) == Some(modules[i])
        }
    &&& forall|x: int, y: int|
        0 <= x < rows[0]@.len() && 0 <= y < rows.len() && read(x, y, at_x, at_y) && (#[trigger] glyph_blueprint(
            rows[y]@[x],
            (x as i32, y as i32),
        )) is Some ==> exists|i: int|
            0 <= i < modules.len() && (#[trigger] modules[i]).module.inner_grid_pos == (x as i32, y as i32)
    &&& forall|i: int, j: int|
        0 <= i < j < modules.len() ==> reads_before(
            (#[trigger] modules[i]).module.inner_grid_pos,
            (#[trigger] modules[j]).module.inner_grid_pos,
        )
}

/// Reading one more cell keeps the plan in step with the layout: the cell was
/// set to what its character stands for, and its blueprint, if it has one,
/// was added at the end.
proof fn lemma_step(
    before: Grid,
    after: Grid,
    modules: Seq<ModuleBlueprint>,
    rows: Seq<String>,
    x: int,
    y: int,
)
    requires
        rows.len() <= 0x7fff_ffff,
        rows[0]@.len() <= 0x7fff_ffff,
        0 <= x < rows[0]@.len(),
        0 <= y < rows.len(),
        rows[y]@.len() == rows[0]@.len(),
        built_upto(before, modules, rows, x, y),
        after.width() == before.width(),
        after.height() == before.height(),
        after@ == before@.insert((x, y), glyph_cell(rows[y]@[x])),
    ensures
        built_upto(
            after,
            match glyph_blueprint(rows[y]@[x], (x as i32, y as i32)) {
                Some(blueprint) => modules.push(blueprint),
                None => modules,
            },
            rows,
            x + 1,
            y,
        ),
{
    let glyph = rows[y]@[x];
    let pos = (x as i32, y as i32);
    let longer = match glyph_blueprint(glyph, pos) {
        Some(blueprint) => modules.push(blueprint),
        None => modules,
    };
    assert(after.is_complete()) by {
        assert forall|c: (int, int)| after.in_bounds(c) implies #[trigger] after@.contains_key(c) by {
            assert(before.in_bounds(c));
            assert(before@.contains_key(c));
        }
    }
    assert forall|i: int| 0 <= i < modules.len() implies longer[i] == modules[i] by {}
    assert forall|a: int, b: int|
        0 <= a < rows[0]@.len() && 0 <= b < rows.len() && read(a, b, x + 1, y) && (#[trigger] glyph_blueprint(
            rows[b]@[a],
            (a as i32, b as i32),
        )) is Some implies exists|i: int|
        0 <= i < longer.len() && (#[trigger] longer[i]).module.inner_grid_pos == (a as i32, b as i32) by {
        if read(a, b, x, y) {
            let i = choose|i: int|
                0 <= i < modules.len() && (#[trigger] modules[i]).module.inner_grid_pos == (a as i32, b as i32);
            assert(longer[i] == modules[i]);
        } else {
            assert(a == x && b == y);
            assert(longer[modules.len() as int].module.inner_grid_pos == pos);
        }
    }
    assert forall|i: int, j: int| 0 <= i < j < longer.len() implies reads_before(
        (#[trigger] longer[i]).module.inner_grid_pos,
        (#[trigger] longer[j]).module.inner_grid_pos,
    ) by {
        assert(longer[i] == modules[i]);
        if j < modules.len() {
            assert(longer[j] == modules[j]);
        }
    }
}

/// Builds the structure that the layout `rows` describes.
///
/// The layout is refused where it has no row, where its first row is empty,
/// where a row is not as long as the first (the first such row is named), or
/// where it is larger than a grid can be; the reasons are tried in this
/// order, so each layout has exactly one outcome. Every other layout gives
/// the plan that matches it.
pub fn build_structure_from_layout(rows: &Vec<String>) -> (result: Result<StructurePlan, LayoutError>)
    ensures
        match result {
            Ok(plan) => {
                &&& rows@.len() > 0
                &&& rows@[0]@.len() > 0
                &&& is_rectangular(rows@)
                &&& rows@[0]@.len() <= 0x7fff_ffff
                &&& rows@.len() <= 0x7fff_ffff
                &&& plan_matches(&plan, rows@)
            },
            Err(LayoutError::NoRows) => rows@.len() == 0,
            Err(LayoutError::EmptyRow) => rows@.len() > 0 && rows@[0]@.len() == 0,
            Err(LayoutError::RaggedRow { row }) => {
                &&& rows@.len() > 0
                &&& rows@[0]@.len() > 0
                &&& is_first_ragged_row(rows@, row as int)
            },
            Err(LayoutError::TooLarge) => {
                &&& rows@.len() > 0
                &&& rows@[0]@.len() > 0
                &&& is_rectangular(rows@)
                &&& (rows@[0]@.len() > 0x7fff_ffff || rows@.len() > 0x7fff_ffff)
            },
        },
{
    let height: usize = rows.len();
    if height == 0 {
        return Err(LayoutError::NoRows);
    }
    let width: usize = rows[0].as_str().unicode_len();
    if width == 0 {
        return Err(LayoutError::EmptyRow);
    }
    let mut r: usize = 1;
    while r < height
        invariant
            1 <= r <= height,
            height == rows@.len(),
            width == rows@[0]@.len(),
            width > 0,
            forall|i: int| 0 <= i < r ==> (#[trigger] rows@[i])@.len() == width,
        decreases height - r,
    {
        if rows[r].as_str().unicode_len() != width {
            return Err(LayoutError::RaggedRow { row: r });
        }
        r = r + 1;
    }
    if width > 0x7fff_ffff || height > 0x7fff_ffff {
        return Err(LayoutError::TooLarge);
    }
    let mut structure = Structure::new();
    structure.grid = Grid::new(width as u32, height as u32);
    let mut modules: Vec<ModuleBlueprint> = Vec::new();
    let mut y: usize = 0;
    while y < height
        invariant
            0 <= y <= height,
            height == rows@.len(),
            width == rows@[0]@.len(),
            0 < width <= 0x7fff_ffff,
            0 < height <= 0x7fff_ffff,
            is_rectangular(rows@),
            built_upto(structure.grid, modules@, rows@, 0, y as int),
        decreases height - y,
    {
        let row = rows[y].as_str();
        let mut x: usize = 0;
        while x < width
            invariant
                0 <= x <= width,
                0 <= y < height,
                height == rows@.len(),
                width == rows@[0]@.len(),
                0 < width <= 0x7fff_ffff,
                0 < height <= 0x7fff_ffff,
                is_rectangular(rows@),
                row@ == rows@[y as int]@,
                built_upto(structure.grid, modules@, rows@, x as int, y as int),
            decreases width - x,
        {
            let glyph = row.get_char(x);
            let pos: (i32, i32) = (x as i32, y as i32);
            let ghost before = structure.grid;
            let ghost listed = modules@;
            if glyph == 'E' {
                let blueprint = spawn_module(
                    &mut structure,
                    ModuleType::Engine,
                    pos,
                    false,
                    ModuleMaterialType::Steel,
                );
                modules.push(blueprint);
            } else if glyph == 'W' {
                let blueprint = spawn_module(&mut structure, ModuleType::Wall, pos, false, ModuleMaterialType::Steel);
                modules.push(blueprint);
            } else if glyph == 'C' {
                let blueprint = spawn_module(
                    &mut structure,
                    ModuleType::CommandCenter,
                    pos,
                    true,
                    ModuleMaterialType::Steel,
                );
                modules.push(blueprint);
            } else if glyph == '!' {
                let blueprint = spawn_module(
                    &mut structure,
                    ModuleType::Cannon,
                    pos,
                    false,
                    ModuleMaterialType::Aluminum,
                );
                modules.push(blueprint);
            } else {
                structure.grid.insert(pos.0, pos.1, CellType::Empty);
            }
            proof {
                lemma_step(before, structure.grid, listed, rows@, x as int, y as int);
            }
            x = x + 1;
        }
        y = y + 1;
    }
    let plan = StructurePlan { structure, modules };
    proof {
        assert forall|x: int, y: int| 0 <= x < rows@[0]@.len() && 0 <= y < rows@.len() implies plan.structure.grid@.contains_key(
            (x, y),
        ) by {
            assert(plan.structure.grid.in_bounds((x, y)));
        }
    }
    Ok(plan)
}

/// Whether the level `world` has a character for the cell `c`.
pub open spec fn level_has(world: Seq<String>, c: (int, int)) -> bool {
    0 <= c.1 < world.len() && 0 <= c.0 < world[c.1]@.len()
}

/// The cell that the level `world` describes at `c`.
pub open spec fn level_cell(world: Seq<String>, c: (int, int)) -> GridCell {
    GridCell { data: None, cell_type: <CellType as vstd::std_specs::convert::FromSpec<char>>::from_spec(world[c.1]@[c.0]) }
}

/// Builds the grid of a level of the given size from its description, one
/// string per row from the top. The grid holds a cell wherever the
/// description has a character inside the bounds, and no other; rows need
/// not be of one length.
pub fn build_grid_from_level(width: u32, height: u32, world: &Vec<String>) -> (grid: Grid)
    ensures
        grid.width() == width,
        grid.height() == height,
        forall|c: (int, int)| #[trigger] grid@.contains_key(c) <==> grid.in_bounds(c) && level_has(world@, c),
        forall|c: (int, int)| grid@.contains_key(c) ==> #[trigger] grid@[c] == level_cell(world@, c),
{
    let mut grid = Grid::empty(width, height);
    let rows: usize = if world.len() > 0x7fff_ffff {
        0x8000_0000
    } else {
        world.len()
    };
    let mut y: usize = 0;
    while y < rows
        invariant
            0 <= y <= rows <= 0x8000_0000,
            rows == if world@.len() > 0x7fff_ffff { 0x8000_0000 } else { world@.len() as int },
            grid.width() == width,
            grid.height() == height,
            forall|c: (int, int)| #[trigger]
                grid@.contains_key(c) <==> grid.in_bounds(c) && level_has(world@, c) && c.1 < y,
            forall|c: (int, int)| grid@.contains_key(c) ==> #[trigger] grid@[c] == level_cell(world@, c),
        decreases rows - y,
    {
        let row = world[y].as_str();
        let length = row.unicode_len();
        let columns: usize = if length > 0x7fff_ffff {
            0x8000_0000
        } else {
            length
        };
        let mut x: usize = 0;
        while x < columns
            invariant
                0 <= x <= columns <= 0x8000_0000,
                0 <= y < rows <= 0x8000_0000,
                rows == if world@.len() > 0x7fff_ffff { 0x8000_0000 } else { world@.len() as int },
                row@ == world@[y as int]@,
                columns == if row@.len() > 0x7fff_ffff { 0x8000_0000 } else { row@.len() as int },
                grid.width() == width,
                grid.height() == height,
                forall|c: (int, int)| #[trigger]
                    grid@.contains_key(c) <==> grid.in_bounds(c) && level_has(world@, c) && read(
                        c.0,
                        c.1,
                        x as int,
                        y as int,
                    ),
                forall|c: (int, int)| grid@.contains_key(c) ==> #[trigger] grid@[c] == level_cell(world@, c),
            decreases columns - x,
        {
            let cell_type = CellType::from(row.get_char(x));
            grid.insert(x as i32, y as i32, cell_type);
            x = x + 1;
        }
        y = y + 1;
    }
    grid
}

} // verus!
