//! The cell grid of a structure: which cells exist, what fills them, and who
//! stands in them.

use crate::cells::{cell_key, is_coord, lemma_key_injective, lemma_key_roundtrip, spec_cell_key};
use std::collections::HashMap;
use vstd::prelude::*;
use vstd::std_specs::hash::*;

verus! {

/// What fills a cell.
#[derive(Clone, Copy, Debug, PartialEq, Eq, Structural)]
pub enum CellType {
    /// Open space around a structure.
    OuterSpace,
    /// Free room inside a structure.
    Empty,
    /// A cell taken by a module of the structure.
    Module,
    /// A cell set aside for a wall. A wall that is built of modules fills its
    /// cells as `Module`; this fill by itself holds nothing back.
    Wall,
}

impl Default for CellType {
    fn default() -> (t: CellType)
        ensures
            t == CellType::OuterSpace,
    {
        CellType::OuterSpace
    }
}

impl From<char> for CellType {
    /// The fill that a character of a level description stands for.
    fn from(c: char) -> (t: CellType) {
        match c {
            '#' => CellType::OuterSpace,
            _ => CellType::OuterSpace,
        }
    }
}

impl vstd::std_specs::convert::FromSpecImpl<char> for CellType {
    open spec fn obeys_from_spec() -> bool {
        true
    }

    open spec fn from_spec(c: char) -> CellType {
        CellType::OuterSpace
    }
}

/// One square of a grid: its fill, and the entity standing in it, if any.
#[derive(Clone, Copy, Debug, PartialEq, Eq, Structural)]
pub struct GridCell {
    pub data: Option<u64>,
    pub cell_type: CellType,
}

impl Default for GridCell {
    fn default() -> (c: GridCell)
        ensures
            c == spec_default_cell(),
    {
        GridCell { data: None, cell_type: CellType::OuterSpace }
    }
}

/// The cell that a fresh grid holds everywhere: open space, nobody in it.
pub open spec fn spec_default_cell() -> GridCell {
    GridCell { data: None, cell_type: CellType::OuterSpace }
}

/// `v` cut to what an `i32` can hold.
pub open spec fn clip(v: int) -> int {
    if v < -0x8000_0000 {
        -0x8000_0000
    } else if v > 0x7fff_ffff {
        0x7fff_ffff
    } else {
        v
    }
}

/// Half of `v`, rounded down.
fn halve(v: i128) -> (half: i128)
    requires
        -0x1_0000_0000_0000_0000 <= v <= 0x1_0000_0000_0000_0000,
    ensures
        half == v / 2,
{
    if v >= 0 {
        v / 2
    } else {
        -((1 - v) / 2)
    }
}

/// `v` cut to what an `i32` can hold.
fn to_coordinate(v: i128) -> (c: i32)
    ensures
        c == clip(v as int),
{
    if v < -0x8000_0000 {
        -0x8000_0000
    } else if v > 0x7fff_ffff {
        0x7fff_ffff
    } else {
        v as i32
    }
}

/// `m` with the occupant of `c` replaced, where `c` is a cell of `m`.
pub open spec fn with_occupant(m: Map<(int, int), GridCell>, c: (int, int), data: Option<u64>) -> Map<
    (int, int),
    GridCell,
> {
    if m.contains_key(c) {
        m.insert(c, (GridCell { data, cell_type: m[c].cell_type }))
    } else {
        m
    }
}

/// `m` with the fill of `c` replaced, where `c` is a cell of `m`.
pub open spec fn with_fill(m: Map<(int, int), GridCell>, c: (int, int), cell_type: CellType) -> Map<
    (int, int),
    GridCell,
> {
    if m.contains_key(c) {
        m.insert(c, (GridCell { data: m[c].data, cell_type }))
    } else {
        m
    }
}

/// A grid of `width` by `height` cells, addressed by column and row from the
/// top left corner. Only coordinates inside these bounds ever hold a cell.
#[derive(Debug)]
pub struct Grid {
    width: u32,
    height: u32,
    cells: HashMap<u64, GridCell>,
}

impl View for Grid {
    type V = Map<(int, int), GridCell>;

    /// The cells inside the bounds, by coordinate.
    closed spec fn view(&self) -> Map<(int, int), GridCell> {
        Map::new(
            |c: (int, int)| self.in_bounds(c) && self.cells@.contains_key(spec_cell_key(c.0, c.1) as u64),
            |c: (int, int)| self.cells@[spec_cell_key(c.0, c.1) as u64],
        )
    }
}

impl Default for Grid {
    fn default() -> (g: Grid)
        ensures
            g.width() == 0,
            g.height() == 0,
            g@ == Map::<(int, int), GridCell>::empty(),
    {
        let g = Grid { width: 0, height: 0, cells: HashMap::new() };
        assert(g@ =~= Map::<(int, int), GridCell>::empty());
        g
    }
}

impl Grid {
    /// The number of columns.
    pub closed spec fn spec_width(&self) -> u32 {
        self.width
    }

    /// The number of rows.
    pub closed spec fn spec_height(&self) -> u32 {
        self.height
    }

    /// The number of columns.
    #[verifier::when_used_as_spec(spec_width)]
    pub fn width(&self) -> (w: u32)
        ensures
            w == self.width(),
    {
        self.width
    }

    /// The number of rows.
    #[verifier::when_used_as_spec(spec_height)]
    pub fn height(&self) -> (h: u32)
        ensures
            h == self.height(),
    {
        self.height
    }

    /// Whether `c` lies inside the bounds: `0 <= x < width` and `0 <= y < height`.
    pub open spec fn in_bounds(&self, c: (int, int)) -> bool {
        is_coord(c) && 0 <= c.0 < self.width() && 0 <= c.1 < self.height()
    }

    /// Whether every coordinate inside the bounds holds a cell.
    pub open spec fn is_complete(&self) -> bool {
        forall|c: (int, int)| self.in_bounds(c) ==> #[trigger] self@.contains_key(c)
    }

    /// Whether the cell at `c` exists and is taken by a module.
    pub open spec fn is_module(&self, c: (int, int)) -> bool {
        self@.contains_key(c) && self@[c].cell_type == CellType::Module
    }

    /// Whether `later` can come of this grid by destruction alone: the size and
    /// the cells are the same, and every module cell of `later` is one of this
    /// grid. A module that is gone never comes back.
    pub open spec fn decays_into(&self, later: &Grid) -> bool {
        &&& later.width() == self.width()
        &&& later.height() == self.height()
        &&& later@.dom() == self@.dom()
        &&& forall|c: (int, int)| later.is_module(c) ==> self.is_module(c)
    }

    /// Decay goes one way: what holds from a first state to a second and from
    /// the second to a third holds from the first to the third.
    pub proof fn lemma_decay_is_transitive(&self, second: &Grid, third: &Grid)
        requires
            self.decays_into(second),
            second.decays_into(third),
        ensures
            self.decays_into(third),
    {
    }

    /// Turning a cell into free room is decay.
    pub proof fn lemma_emptying_is_decay(&self, later: &Grid, c: (int, int))
        requires
            later.width() == self.width(),
            later.height() == self.height(),
            later@ == with_fill(self@, c, CellType::Empty),
        ensures
            self.decays_into(later),
            !later.is_module(c),
    {
        assert(later@.dom() =~= self@.dom());
    }

    /// The view never reaches beyond the bounds.
    pub proof fn lemma_view_in_bounds(&self)
        ensures
            forall|c: (int, int)| #[trigger] self@.contains_key(c) ==> self.in_bounds(c),
    {
    }

    /// Where the centre of the cell `c` lies as seen from the centre of the
    /// grid, counted in half cells: to the right, and upwards.
    pub open spec fn spec_center_offset(&self, c: (int, int)) -> (int, int) {
        (2 * c.0 + 1 - self.width(), self.height() - 2 * c.1 - 1)
    }

    /// Every cell but the one in the very middle of the grid lies off its
    /// centre, so that a direction leads from the centre out to it.
    pub proof fn lemma_offset_points_outward(&self, c: (int, int))
        ensures
            self.spec_center_offset(c) == (0int, 0int) <==> 2 * c.0 + 1 == self.width() && 2 * c.1 + 1
                == self.height(),
            self.spec_center_offset(c).0 > 0 <==> 2 * c.0 + 1 > self.width(),
            self.spec_center_offset(c).1 > 0 <==> 2 * c.1 + 1 < self.height(),
    {
    }

    /// Where the centre of the cell `(x, y)` lies as seen from the centre of
    /// the grid, in half cells. Times half the size of a cell, this is the
    /// position of the cell in the frame of the grid.
    pub fn center_offset(&self, x: i32, y: i32) -> (offset: (i64, i64))
        ensures
            (offset.0 as int, offset.1 as int) == self.spec_center_offset((x as int, y as int)),
    {
        (2 * (x as i64) + 1 - self.width as i64, self.height as i64 - 2 * (y as i64) - 1)
    }

    /// The cell that a point falls into, given where the point lies as seen
    /// from the centre of the grid, in half cells: `right` is how far to the
    /// right of the centre it lies, rounded down, and `up` how far above the
    /// centre, rounded up. Each part of the cell is the column or row in
    /// which the point lies, cut to what an `i32` can hold.
    pub open spec fn spec_cell_at_offset(&self, right: int, up: int) -> (int, int) {
        (clip((right + self.width()) / 2), clip((self.height() - up) / 2))
    }

    /// From a cell to its centre and back: the centre of every cell of the
    /// grid falls into that cell, and so does every point less than half a
    /// cell away from the centre along each axis.
    pub proof fn lemma_offset_roundtrip(&self, c: (int, int))
        requires
            self.in_bounds(c),
        ensures
            self.spec_cell_at_offset(self.spec_center_offset(c).0, self.spec_center_offset(c).1) == c,
            self.spec_cell_at_offset(self.spec_center_offset(c).0 - 1, self.spec_center_offset(c).1) == c,
            self.spec_cell_at_offset(self.spec_center_offset(c).0, self.spec_center_offset(c).1 + 1) == c,
            self.spec_cell_at_offset(self.spec_center_offset(c).0 - 1, self.spec_center_offset(c).1 + 1) == c,
    {
    }

    /// The cell that a point falls into, given where the point lies as seen
    /// from the centre of the grid, in half cells: `right` rounded down, `up`
    /// rounded up. A point on the line between two cells belongs to the cell
    /// to its right, or below it.
    pub fn cell_at_offset(&self, right: i64, up: i64) -> (cell: (i32, i32))
        ensures
            (cell.0 as int, cell.1 as int) == self.spec_cell_at_offset(right as int, up as int),
    {
        let column: i128 = halve(right as i128 + self.width as i128);
        let row: i128 = halve(self.height as i128 - up as i128);
        (to_coordinate(column), to_coordinate(row))
    }

    /// A grid of the given size without any cell.
    pub fn empty(width: u32, height: u32) -> (g: Grid)
        ensures
            g.width() == width,
            g.height() == height,
            g@ == Map::<(int, int), GridCell>::empty(),
    {
        let g = Grid { width, height, cells: HashMap::new() };
        assert(g@ =~= Map::<(int, int), GridCell>::empty());
        g
    }

    /// A grid of the given size in which every cell is open space with nobody in it.
    pub fn new(width: u32, height: u32) -> (g: Grid)
        ensures
            g.width() == width,
            g.height() == height,
            g.is_complete(),
            forall|c: (int, int)| #[trigger] g@.contains_key(c) <==> g.in_bounds(c),
            forall|c: (int, int)| g@.contains_key(c) ==> #[trigger] g@[c] == spec_default_cell(),
    {
        broadcast use group_hash_axioms;
        let mut g = Grid { width, height, cells: HashMap::new() };
        let w: i64 = if width > 0x7fff_ffff { 0x8000_0000 } else { width as i64 };
        let h: i64 = if height > 0x7fff_ffff { 0x8000_0000 } else { height as i64 };
        let mut x: i64 = 0;
        while x < w
            invariant
                0 <= x <= w,
                w == if width > 0x7fff_ffff { 0x8000_0000 } else { width as int },
                h == if height > 0x7fff_ffff { 0x8000_0000 } else { height as int },
                g.width() == width,
                g.height() == height,
                forall|c: (int, int)| g.in_bounds(c) && c.0 < x ==> #[trigger] g@.contains_key(c),
                forall|c: (int, int)| g@.contains_key(c) ==> #[trigger] g@[c] == spec_default_cell(),
            decreases w - x,
        {
            let mut y: i64 = 0;
            while y < h
                invariant
                    0 <= x < w,
                    0 <= y <= h,
                    w == if width > 0x7fff_ffff { 0x8000_0000 } else { width as int },
                    h == if height > 0x7fff_ffff { 0x8000_0000 } else { height as int },
                    g.width() == width,
                    g.height() == height,
                    forall|c: (int, int)|
                        g.in_bounds(c) && (c.0 < x || (c.0 == x && c.1 < y)) ==> #[trigger] g@.contains_key(c),
                    forall|c: (int, int)| g@.contains_key(c) ==> #[trigger] g@[c] == spec_default_cell(),
                decreases h - y,
            {
                g.put(x as i32, y as i32, GridCell::default());
                y = y + 1;
            }
            x = x + 1;
        }
        g
    }

    /// Whether `(x, y)` lies inside the bounds.
    pub fn contains_coord(&self, x: i32, y: i32) -> (b: bool)
        ensures
            b == self.in_bounds((x as int, y as int)),
    {
        x >= 0 && (x as u32) < self.width() && y >= 0 && (y as u32) < self.height()
    }

    /// Stores `cell` at `(x, y)` where that lies inside the bounds.
    fn put(&mut self, x: i32, y: i32, cell: GridCell)
        ensures
            final(self).width() == old(self).width(),
            final(self).height() == old(self).height(),
            final(self)@ == if old(self).in_bounds((x as int, y as int)) {
                old(self)@.insert((x as int, y as int), cell)
            } else {
                old(self)@
            },
    {
        broadcast use group_hash_axioms;
        if self.contains_coord(x, y) {
            let k = cell_key(x, y);
            self.cells.insert(k, cell);
            proof {
                let at = (x as int, y as int);
                lemma_key_roundtrip(at.0, at.1);
                assert forall|c: (int, int)| is_coord(c) && c != at implies spec_cell_key(c.0, c.1) as u64
                    != k by {
                    lemma_key_roundtrip(c.0, c.1);
                    if spec_cell_key(c.0, c.1) == spec_cell_key(at.0, at.1) {
                        lemma_key_injective(c, at);
                    }
                }
                assert(self@ =~= old(self)@.insert(at, cell));
            }
        } else {
            assert(self@ =~= old(self)@);
        }
    }

    /// Puts `data` into the cell at `(x, y)` and resets its fill to open space.
    /// A coordinate outside the bounds is ignored. Superseded by [`Grid::insert`]
    /// and [`Grid::update_data_position`].
    pub fn insert_new(&mut self, x: i32, y: i32, data: u64)
        ensures
            final(self).width() == old(self).width(),
            final(self).height() == old(self).height(),
            final(self)@ == if old(self).in_bounds((x as int, y as int)) {
                old(self)@.insert(
                    (x as int, y as int),
                    (GridCell { data: Some(data), cell_type: CellType::OuterSpace }),
                )
            } else {
                old(self)@
            },
    {
        self.put(x, y, GridCell { data: Some(data), cell_type: CellType::OuterSpace });
    }

    /// Sets the cell at `(x, y)` to the given fill, with nobody in it. A
    /// coordinate outside the bounds is ignored.
    pub fn insert(&mut self, x: i32, y: i32, cell_type: CellType)
        ensures
            final(self).width() == old(self).width(),
            final(self).height() == old(self).height(),
            final(self)@ == if old(self).in_bounds((x as int, y as int)) {
                old(self)@.insert((x as int, y as int), (GridCell { data: None, cell_type }))
            } else {
                old(self)@
            },
    {
        self.put(x, y, GridCell { data: None, cell_type });
    }

    /// The cell at `(x, y)`; `None` where there is none, as for every
    /// coordinate outside the bounds.
    pub fn get(&self, x: i32, y: i32) -> (cell: Option<&GridCell>)
        ensures
            cell is Some <==> self@.contains_key((x as int, y as int)),
            cell is Some ==> *cell->0 == self@[(x as int, y as int)],
            !self.in_bounds((x as int, y as int)) ==> cell is None,
    {
        broadcast use group_hash_axioms;
        if self.contains_coord(x, y) {
            let k = cell_key(x, y);
            proof {
                lemma_key_roundtrip(x as int, y as int);
            }
            self.cells.get(&k)
        } else {
            None
        }
    }

    /// Turns the cell at `(x, y)` into free room; its occupant stays. Nothing
    /// changes where there is no such cell.
    pub fn set_cell_type_to_empty(&mut self, x: i32, y: i32)
        ensures
            final(self).width() == old(self).width(),
            final(self).height() == old(self).height(),
            final(self)@ == with_fill(old(self)@, (x as int, y as int), CellType::Empty),
    {
        let found: Option<GridCell> = match self.get(x, y) {
            Some(cell) => Some(*cell),
            None => None,
        };
        if let Some(cell) = found {
            self.put(x, y, GridCell { data: cell.data, cell_type: CellType::Empty });
        }
    }

    /// Takes the occupant out of the cell at `(x, y)`, where there is such a cell.
    pub fn remove_entity_from_cell(&mut self, x: i32, y: i32)
        ensures
            final(self).width() == old(self).width(),
            final(self).height() == old(self).height(),
            final(self)@ == with_occupant(old(self)@, (x as int, y as int), None),
    {
        let found: Option<GridCell> = match self.get(x, y) {
            Some(cell) => Some(*cell),
            None => None,
        };
        if let Some(cell) = found {
            self.put(x, y, GridCell { data: None, cell_type: cell.cell_type });
        }
    }

    /// Makes `data` the occupant of the cell at `(x, y)`, where there is such a cell.
    pub fn insert_entity_in_cell(&mut self, x: i32, y: i32, data: u64)
        ensures
            final(self).width() == old(self).width(),
            final(self).height() == old(self).height(),
            final(self)@ == with_occupant(old(self)@, (x as int, y as int), Some(data)),
    {
        let found: Option<GridCell> = match self.get(x, y) {
            Some(cell) => Some(*cell),
            None => None,
        };
        if let Some(cell) = found {
            self.put(x, y, GridCell { data: Some(data), cell_type: cell.cell_type });
        }
    }

    /// Moves `data` from the cell at `(old_x, old_y)` to the one at
    /// `(new_x, new_y)`: the first loses its occupant, then the second gets
    /// `data`. Either step is skipped where its cell does not exist.
    pub fn update_data_position(&mut self, data: u64, new_x: i32, new_y: i32, old_x: i32, old_y: i32)
        ensures
            final(self).width() == old(self).width(),
            final(self).height() == old(self).height(),
            final(self)@ == with_occupant(
                with_occupant(old(self)@, (old_x as int, old_y as int), None),
                (new_x as int, new_y as int),
                Some(data),
            ),
    {
        self.remove_entity_from_cell(old_x, old_y);
        self.insert_entity_in_cell(new_x, new_y, data);
    }
}

/// A player stepped from one cell of the level grid into another.
#[derive(Clone, Copy, Debug, PartialEq, Eq)]
pub struct PlayerGridChangeEvent {
    pub entity: u64,
    pub old_cell: (i32, i32),
    pub new_cell: (i32, i32),
}

/// Records where a player stands now. Where the cell differs from the one
/// known so far, the player is moved there in `grid` and the change is
/// reported; otherwise nothing happens.
pub fn detect_grid_updates(grid: &mut Grid, entity: u64, known_cell: (i32, i32), current_cell: (i32, i32)) -> (change:
    Option<PlayerGridChangeEvent>)
    ensures
        final(grid).width() == old(grid).width(),
        final(grid).height() == old(grid).height(),
        known_cell == current_cell ==> change is None && final(grid)@ == old(grid)@,
        known_cell != current_cell ==> change == Some(
            PlayerGridChangeEvent { entity, old_cell: known_cell, new_cell: current_cell },
        ) && final(grid)@ == with_occupant(
            with_occupant(old(grid)@, (known_cell.0 as int, known_cell.1 as int), None),
            (current_cell.0 as int, current_cell.1 as int),
            Some(entity),
        ),
{
    if known_cell.0 != current_cell.0 || known_cell.1 != current_cell.1 {
        grid.update_data_position(entity, current_cell.0, current_cell.1, known_cell.0, known_cell.1);
        Some(PlayerGridChangeEvent { entity, old_cell: known_cell, new_cell: current_cell })
    } else {
        None
    }
}

} // verus!
