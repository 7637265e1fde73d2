//! A structure: a grid of modules with the rules for hull breaches and for
//! piloting.

use crate::cells::{adjacent, CellSet};
use crate::grid::{CellType, Grid, GridCell};
use crate::player::PlayerResource;
use std::collections::VecDeque;
use vstd::prelude::*;

verus! {

broadcast use vstd::std_specs::vecdeque::axiom_spec_len;

/// The cells with `0 <= x < w` and `0 <= y < h`.
spec fn rectangle(w: int, h: int) -> Set<(int, int)> {
    Set::new(|c: (int, int)| 0 <= c.0 < w && 0 <= c.1 < h)
}

/// A rectangle has finitely many cells.
proof fn lemma_rectangle_finite(w: int, h: int)
    requires
        0 <= h,
    ensures
        rectangle(w, h).finite(),
    decreases w,
{
    if w <= 0 {
        assert(rectangle(w, h) =~= Set::empty());
    } else {
        lemma_rectangle_finite(w - 1, h);
        let rows = vstd::set_lib::set_int_range(0, h);
        let place = |y: int| (w - 1, y);
        vstd::set_lib::lemma_int_range(0, h);
        rows.lemma_map_finite(place);
        let column = rows.map(place);
        assert forall|c: (int, int)| rectangle(w, h).contains(c) implies rectangle(w - 1, h).union(column).contains(
            c,
        ) by {
            if c.0 == w - 1 {
                assert(rows.contains(c.1) && place(c.1) == c);
            }
        }
        assert(rectangle(w, h).subset_of(rectangle(w - 1, h).union(column)));
        vstd::set_lib::lemma_set_subset_finite(rectangle(w - 1, h).union(column), rectangle(w, h));
    }
}

/// Whether some entry of `queue` is the cell `c`.
spec fn queue_has(queue: Seq<(i32, i32)>, c: (int, int)) -> bool {
    exists|i: int| 0 <= i < queue.len() && (#[trigger] queue[i]).0 == c.0 && queue[i].1 == c.1
}

/// A queue still has what it had after an entry is put at its back, and it
/// has that entry.
proof fn lemma_push_keeps(queue: Seq<(i32, i32)>, p: (i32, i32))
    ensures
        queue_has(queue.push(p), (p.0 as int, p.1 as int)),
        forall|c: (int, int)| queue_has(queue, c) ==> queue_has(queue.push(p), c),
{
    let longer = queue.push(p);
    assert(longer[queue.len() as int] == p);
    assert forall|c: (int, int)| queue_has(queue, c) implies queue_has(longer, c) by {
        let i = choose|i: int| 0 <= i < queue.len() && (#[trigger] queue[i]).0 == c.0 && queue[i].1 == c.1;
        assert(longer[i] == queue[i]);
    }
}

/// What a queue has is its front entry, or the queue still has it when the
/// front entry is taken off.
proof fn lemma_pop_keeps(queue: Seq<(i32, i32)>)
    requires
        queue.len() > 0,
    ensures
        forall|c: (int, int)|
            queue_has(queue, c) ==> (c.0 == queue[0].0 && c.1 == queue[0].1) || queue_has(
                queue.subrange(1, queue.len() as int),
                c,
            ),
{
    let rest = queue.subrange(1, queue.len() as int);
    assert forall|c: (int, int)| queue_has(queue, c) && !(c.0 == queue[0].0 && c.1 == queue[0].1) implies queue_has(
        rest,
        c,
    ) by {
        let i = choose|i: int| 0 <= i < queue.len() && (#[trigger] queue[i]).0 == c.0 && queue[i].1 == c.1;
        assert(rest[i - 1] == queue[i]);
    }
}

/// A player walked into a structure or out of it.
#[derive(Clone, Copy, Debug, PartialEq, Eq, Structural)]
pub enum StructureInteractionEvent {
    PlayerEntered { player_entity: u64, structure_entity: u64 },
    PlayerExited { player_entity: u64, structure_entity: u64 },
}

/// A sealed room of a structure was opened to space.
#[derive(Clone, Copy, Debug, PartialEq, Eq, Structural)]
pub struct StructureDepressurizationEvent {
    pub depressurized_structure: u64,
}

/// The cells of a structure that are open to space, as of the last
/// evaluation, and as of the one before it.
#[derive(Debug)]
pub struct Pressurization {
    pub exposed_cells: CellSet,
    pub exposed_before: CellSet,
}

/// Whether one of the four direct neighbours of `c` is a member of `s`.
pub open spec fn touches(s: Set<(int, int)>, c: (int, int)) -> bool {
    ||| s.contains((c.0 - 1, c.1))
    ||| s.contains((c.0 + 1, c.1))
    ||| s.contains((c.0, c.1 - 1))
    ||| s.contains((c.0, c.1 + 1))
}

/// Whether `(x, y)` is a member of `s`.
fn holds(s: &CellSet, x: i64, y: i64) -> (b: bool)
    ensures
        b == s@.contains((x as int, y as int)),
{
    proof {
        s.lemma_members();
    }
    if -0x8000_0000 <= x && x <= 0x7fff_ffff && -0x8000_0000 <= y && y <= 0x7fff_ffff {
        s.contains(x as i32, y as i32)
    } else {
        false
    }
}

/// Whether one of the four direct neighbours of `(x, y)` is a member of `s`.
pub fn touched_by(s: &CellSet, x: i32, y: i32) -> (b: bool)
    ensures
        b == touches(s@, (x as int, y as int)),
{
    holds(s, x as i64 - 1, y as i64) || holds(s, x as i64 + 1, y as i64) || holds(s, x as i64, y as i64 - 1)
        || holds(s, x as i64, y as i64 + 1)
}

/// A structure and the grid its modules stand in.
#[derive(Debug)]
pub struct Structure {
    pub grid: Grid,
}

impl Structure {
    /// A structure without any cell.
    pub fn new() -> (s: Structure)
        ensures
            s.grid.width() == 0,
            s.grid.height() == 0,
            s.grid@ == Map::<(int, int), GridCell>::empty(),
    {
        Structure { grid: Grid::default() }
    }

    /// Whether `(grid_x, grid_y)` lies inside the grid: `0 <= grid_x < width`
    /// and `0 <= grid_y < height`.
    pub fn is_within_grid_bounds(&self, grid_x: i32, grid_y: i32) -> (inside: bool)
        ensures
            inside == self.grid.in_bounds((grid_x as int, grid_y as int)),
    {
        self.grid.contains_coord(grid_x, grid_y)
    }

    /// `(x, y)` as a one-element sequence if it lies inside the grid, the
    /// empty sequence otherwise.
    pub open spec fn kept(&self, x: int, y: int) -> Seq<(i32, i32)> {
        if self.grid.in_bounds((x, y)) {
            seq![(x as i32, y as i32)]
        } else {
            Seq::empty()
        }
    }

    /// The direct neighbours of `p` that lie inside the grid, in the order
    /// top, left, bottom, right.
    pub open spec fn spec_adjacent_cells(&self, p: (i32, i32)) -> Seq<(i32, i32)> {
        self.kept(p.0 as int, p.1 - 1) + self.kept(p.0 - 1, p.1 as int) + self.kept(p.0 as int, p.1 + 1)
            + self.kept(p.0 + 1, p.1 as int)
    }

    /// What the adjacent cells of `p` are: each of them is a direct neighbour
    /// of `p` inside the grid, and each direct neighbour of `p` inside the
    /// grid is among them.
    pub proof fn lemma_adjacent_cells(&self, p: (i32, i32))
        ensures
            forall|k: int|
                0 <= k < self.spec_adjacent_cells(p).len() ==> {
                    let c = #[trigger] self.spec_adjacent_cells(p)[k];
                    self.grid.in_bounds((c.0 as int, c.1 as int)) && adjacent(
                        (p.0 as int, p.1 as int),
                        (c.0 as int, c.1 as int),
                    )
                },
            forall|c: (int, int)|
                self.grid.in_bounds(c) && #[trigger] adjacent((p.0 as int, p.1 as int), c) ==> exists|k: int|
                    0 <= k < self.spec_adjacent_cells(p).len() && (#[trigger] self.spec_adjacent_cells(p)[k]).0
                        == c.0 && self.spec_adjacent_cells(p)[k].1 == c.1,
    {
        let top = self.kept(p.0 as int, p.1 - 1);
        let left = self.kept(p.0 - 1, p.1 as int);
        let bottom = self.kept(p.0 as int, p.1 + 1);
        let right = self.kept(p.0 + 1, p.1 as int);
        let all = self.spec_adjacent_cells(p);
        assert(all == top + left + bottom + right);
        assert forall|k: int| 0 <= k < all.len() implies {
            let c = #[trigger] all[k];
            self.grid.in_bounds((c.0 as int, c.1 as int)) && adjacent(
                (p.0 as int, p.1 as int),
                (c.0 as int, c.1 as int),
            )
        } by {
            if k < top.len() {
                assert(all[k] == top[k]);
            } else if k < top.len() + left.len() {
                assert(all[k] == left[k - top.len()]);
            } else if k < top.len() + left.len() + bottom.len() {
                assert(all[k] == bottom[k - top.len() - left.len()]);
            } else {
                assert(all[k] == right[k - top.len() - left.len() - bottom.len()]);
            }
        }
        assert forall|c: (int, int)|
            self.grid.in_bounds(c) && #[trigger] adjacent((p.0 as int, p.1 as int), c) implies exists|k: int|
            0 <= k < all.len() && (#[trigger] all[k]).0 == c.0 && all[k].1 == c.1 by {
            if c == (p.0 as int, p.1 - 1) {
                assert(all[0] == top[0]);
            } else if c == (p.0 - 1, p.1 as int) {
                assert(all[top.len() as int] == left[0]);
            } else if c == (p.0 as int, p.1 + 1) {
                assert(all[(top.len() + left.len()) as int] == bottom[0]);
            } else {
                assert(c == (p.0 + 1, p.1 as int));
                assert(all[(top.len() + left.len() + bottom.len()) as int] == right[0]);
            }
        }
    }

    /// The module cells that have a member of `exposed` as a direct neighbour.
    pub open spec fn spec_neighbors_of_exposed(&self, exposed: Set<(int, int)>) -> Set<(int, int)> {
        Set::new(|c: (int, int)| self.grid.is_module(c) && touches(exposed, c))
    }

    /// Adds `(x, y)` to `cells` where it lies inside the grid.
    fn keep(&self, cells: &mut Vec<(i32, i32)>, x: i64, y: i64)
        ensures
            final(cells)@ == old(cells)@ + self.kept(x as int, y as int),
    {
        if -0x8000_0000 <= x && x <= 0x7fff_ffff && -0x8000_0000 <= y && y <= 0x7fff_ffff
            && self.is_within_grid_bounds(x as i32, y as i32) {
            cells.push((x as i32, y as i32));
            assert(cells@ =~= old(cells)@ + self.kept(x as int, y as int));
        } else {
            assert(cells@ =~= old(cells)@ + self.kept(x as int, y as int));
        }
    }

    /// The direct neighbours of `grid_pos` that lie inside the grid, in the
    /// order top, left, bottom, right.
    pub fn get_adjacent_cells(&self, grid_pos: (i32, i32)) -> (adjacent_cells: Vec<(i32, i32)>)
        ensures
            adjacent_cells@ == self.spec_adjacent_cells(grid_pos),
    {
        let col: i64 = grid_pos.0 as i64;
        let row: i64 = grid_pos.1 as i64;
        let mut adjacent_cells: Vec<(i32, i32)> = Vec::new();
        assert(adjacent_cells@ =~= Seq::empty());
        self.keep(&mut adjacent_cells, col, row - 1);
        self.keep(&mut adjacent_cells, col - 1, row);
        self.keep(&mut adjacent_cells, col, row + 1);
        self.keep(&mut adjacent_cells, col + 1, row);
        assert(adjacent_cells@ =~= self.spec_adjacent_cells(grid_pos));
        adjacent_cells
    }

    /// The modules at the edge of the exposed region: every module cell that
    /// has a member of `exposed_cells` as a direct neighbour.
    pub fn find_neighbors_of_exposed_modules(&self, exposed_cells: &CellSet) -> (neighboring_modules: CellSet)
        ensures
            neighboring_modules@ == self.spec_neighbors_of_exposed(exposed_cells@),
    {
        let mut neighboring_modules = CellSet::new();
        let width: i64 = if self.grid.width() > 0x7fff_ffff { 0x8000_0000 } else { self.grid.width() as i64 };
        let height: i64 = if self.grid.height() > 0x7fff_ffff { 0x8000_0000 } else { self.grid.height() as i64 };
        let ghost wanted = self.spec_neighbors_of_exposed(exposed_cells@);
        proof {
            self.grid.lemma_view_in_bounds();
        }
        let mut x: i64 = 0;
        while x < width
            invariant
                0 <= x <= width,
                width == if self.grid.width() > 0x7fff_ffff { 0x8000_0000 } else { self.grid.width() as int },
                height == if self.grid.height() > 0x7fff_ffff { 0x8000_0000 } else { self.grid.height() as int },
                wanted == self.spec_neighbors_of_exposed(exposed_cells@),
                forall|c: (int, int)| #[trigger] self.grid@.contains_key(c) ==> self.grid.in_bounds(c),
                forall|c: (int, int)| #[trigger] neighboring_modules@.contains(c) <==> wanted.contains(c) && c.0 < x,
            decreases width - x,
        {
            let mut y: i64 = 0;
            while y < height
                invariant
                    0 <= x < width,
                    0 <= y <= height,
                    width == if self.grid.width() > 0x7fff_ffff { 0x8000_0000 } else { self.grid.width() as int },
                    height == if self.grid.height() > 0x7fff_ffff { 0x8000_0000 } else { self.grid.height() as int },
                    wanted == self.spec_neighbors_of_exposed(exposed_cells@),
                    forall|c: (int, int)| #[trigger] self.grid@.contains_key(c) ==> self.grid.in_bounds(c),
                    forall|c: (int, int)| #[trigger]
                        neighboring_modules@.contains(c) <==> wanted.contains(c) && (c.0 < x || (c.0 == x && c.1
                            < y)),
                decreases height - y,
            {
                let cx: i32 = x as i32;
                let cy: i32 = y as i32;
                let is_module = match self.grid.get(cx, cy) {
                    Some(cell) => cell.cell_type == CellType::Module,
                    None => false,
                };
                if is_module && touched_by(exposed_cells, cx, cy) {
                    neighboring_modules.insert(cx, cy);
                }
                y = y + 1;
            }
            x = x + 1;
        }
        assert(neighboring_modules@ =~= wanted);
        neighboring_modules
    }

    /// Puts `(x, y)` at the back of `queue` where it is an open cell that has
    /// not been visited.
    fn offer(&self, queue: &mut VecDeque<(i32, i32)>, visited: &CellSet, x: i64, y: i64)
        requires
            forall|i: int|
                0 <= i < old(queue)@.len() ==> self.grid.is_exposed(
                    ((#[trigger] old(queue)@[i]).0 as int, old(queue)@[i].1 as int),
                ),
            self.grid.is_open((x as int, y as int)) ==> self.grid.is_exposed((x as int, y as int)),
        ensures
            forall|i: int|
                0 <= i < final(queue)@.len() ==> self.grid.is_exposed(
                    ((#[trigger] final(queue)@[i]).0 as int, final(queue)@[i].1 as int),
                ),
            forall|c: (int, int)| queue_has(old(queue)@, c) ==> queue_has(final(queue)@, c),
            self.grid.is_open((x as int, y as int)) ==> visited@.contains((x as int, y as int)) || queue_has(
                final(queue)@,
                (x as int, y as int),
            ),
            final(queue)@.len() <= old(queue)@.len() + 1,
    {
        proof {
            self.grid.lemma_view_in_bounds();
        }
        if -0x8000_0000 <= x && x <= 0x7fff_ffff && -0x8000_0000 <= y && y <= 0x7fff_ffff {
            let cx: i32 = x as i32;
            let cy: i32 = y as i32;
            if let Some(cell) = self.grid.get(cx, cy) {
                if cell.cell_type != CellType::Module && !visited.contains(cx, cy) {
                    proof {
                        lemma_push_keeps(queue@, (cx, cy));
                    }
                    queue.push_back((cx, cy));
                }
            }
        }
    }

    /// Finds by flood fill the cells that are open to space: every cell that no
    /// module takes and that can be reached from the border of the grid through
    /// such cells, stepping to direct neighbours only.
    pub fn check_pressurization(&self) -> (exposed: CellSet)
        ensures
            exposed@ == self.grid.exposed_cells(),
    {
        let mut visited = CellSet::new();
        let mut queue: VecDeque<(i32, i32)> = VecDeque::new();
        let width: i64 = self.grid.width() as i64;
        let height: i64 = self.grid.height() as i64;

        proof {
            self.grid.lemma_view_in_bounds();
        }
        // The top and the bottom row.
        let mut x: i64 = 0;
        while x < width
            invariant
                0 <= x <= width,
                width == self.grid.width(),
                height == self.grid.height(),
                visited@ == Set::<(int, int)>::empty(),
                forall|i: int|
                    0 <= i < queue@.len() ==> self.grid.is_exposed(((#[trigger] queue@[i]).0 as int, queue@[i].1 as int)),
                forall|c: (int, int)|
                    self.grid.is_open(c) && c.0 < x && (c.1 == 0 || c.1 == height - 1) ==> queue_has(queue@, c),
            decreases width - x,
        {
            proof {
                self.grid.lemma_view_in_bounds();
                if self.grid.is_open((x as int, 0)) {
                    self.grid.lemma_border_exposed((x as int, 0));
                }
                if self.grid.is_open((x as int, height - 1)) {
                    self.grid.lemma_border_exposed((x as int, height - 1));
                }
            }
            self.offer(&mut queue, &visited, x, 0);
            self.offer(&mut queue, &visited, x, height - 1);
            x = x + 1;
        }

        // The first and the last column.
        let mut y: i64 = 0;
        while y < height
            invariant
                0 <= y <= height,
                width == self.grid.width(),
                height == self.grid.height(),
                visited@ == Set::<(int, int)>::empty(),
                forall|i: int|
                    0 <= i < queue@.len() ==> self.grid.is_exposed(((#[trigger] queue@[i]).0 as int, queue@[i].1 as int)),
                forall|c: (int, int)|
                    self.grid.is_open(c) && (c.1 == 0 || c.1 == height - 1) ==> queue_has(queue@, c),
                forall|c: (int, int)|
                    self.grid.is_open(c) && c.1 < y && (c.0 == 0 || c.0 == width - 1) ==> queue_has(queue@, c),
            decreases height - y,
        {
            proof {
                self.grid.lemma_view_in_bounds();
                if self.grid.is_open((0, y as int)) {
                    self.grid.lemma_border_exposed((0, y as int));
                }
                if self.grid.is_open((width - 1, y as int)) {
                    self.grid.lemma_border_exposed((width - 1, y as int));
                }
            }
            self.offer(&mut queue, &visited, 0, y);
            self.offer(&mut queue, &visited, width - 1, y);
            y = y + 1;
        }

        let ghost mut unvisited: Set<(int, int)> = Set::new(|c: (int, int)| self.grid.in_bounds(c));
        proof {
            self.grid.lemma_view_in_bounds();
            lemma_rectangle_finite(width as int, height as int);
            assert(unvisited.subset_of(rectangle(width as int, height as int)));
            vstd::set_lib::lemma_set_subset_finite(rectangle(width as int, height as int), unvisited);
        }

        while queue.len() > 0
            invariant
                unvisited.finite(),
                forall|c: (int, int)| self.grid.in_bounds(c) && !visited@.contains(c) ==> unvisited.contains(c),
                forall|c: (int, int)| visited@.contains(c) ==> self.grid.is_exposed(c),
                forall|i: int|
                    0 <= i < queue@.len() ==> self.grid.is_exposed(((#[trigger] queue@[i]).0 as int, queue@[i].1 as int)),
                forall|c: (int, int)|
                    self.grid.is_open(c) && self.grid.on_border(c) ==> visited@.contains(c) || queue_has(queue@, c),
                forall|a: (int, int), b: (int, int)|
                    visited@.contains(a) && adjacent(a, b) && self.grid.is_open(b) ==> visited@.contains(b)
                        || queue_has(queue@, b),
            decreases unvisited.len(), queue@.len(),
        {
            let ghost before = queue@;
            let ghost seen = visited@;
            let at = queue.pop_front();
            let (x, y) = at.unwrap();
            let ghost c = (x as int, y as int);
            proof {
                lemma_pop_keeps(before);
                assert(self.grid.is_exposed(((before[0]).0 as int, before[0].1 as int)));
                assert forall|i: int| 0 <= i < queue@.len() implies self.grid.is_exposed(
                    ((#[trigger] queue@[i]).0 as int, queue@[i].1 as int),
                ) by {
                    assert(queue@[i] == before[i + 1]);
                }
            }
            if !visited.contains(x, y) {
                visited.insert(x, y);
                proof {
                    self.grid.lemma_exposed_is_open(c);
                    vstd::set::axiom_set_remove_len(unvisited, c);
                    vstd::set::axiom_set_remove_finite(unvisited, c);
                    unvisited = unvisited.remove(c);
                    let left = (c.0 - 1, c.1);
                    let right = (c.0 + 1, c.1);
                    let up = (c.0, c.1 - 1);
                    let down = (c.0, c.1 + 1);
                    if self.grid.is_open(left) {
                        self.grid.lemma_exposure_spreads(c, left);
                    }
                    if self.grid.is_open(right) {
                        self.grid.lemma_exposure_spreads(c, right);
                    }
                    if self.grid.is_open(up) {
                        self.grid.lemma_exposure_spreads(c, up);
                    }
                    if self.grid.is_open(down) {
                        self.grid.lemma_exposure_spreads(c, down);
                    }
                }
                self.offer(&mut queue, &visited, x as i64 - 1, y as i64);
                self.offer(&mut queue, &visited, x as i64 + 1, y as i64);
                self.offer(&mut queue, &visited, x as i64, y as i64 - 1);
                self.offer(&mut queue, &visited, x as i64, y as i64 + 1);
                proof {
                    assert forall|a: (int, int), b: (int, int)|
                        visited@.contains(a) && adjacent(a, b) && self.grid.is_open(b) implies visited@.contains(b)
                        || queue_has(queue@, b) by {
                        if a == c {
                            assert(b == (c.0 - 1, c.1) || b == (c.0 + 1, c.1) || b == (c.0, c.1 - 1) || b == (
                                c.0,
                                c.1 + 1,
                            ));
                        } else {
                            assert(seen.contains(a));
                        }
                    }
                }
            }
        }

        proof {
            assert forall|c: (int, int)| !queue_has(queue@, c) by {}
            self.grid.lemma_closed_set_holds_exposed(visited@);
            assert(visited@ =~= self.grid.exposed_cells());
        }
        visited
    }
}

impl Pressurization {
    /// Nothing exposed, now or before.
    pub fn new() -> (p: Pressurization)
        ensures
            p.exposed_cells@ == Set::<(int, int)>::empty(),
            p.exposed_before@ == Set::<(int, int)>::empty(),
    {
        Pressurization { exposed_cells: CellSet::new(), exposed_before: CellSet::new() }
    }

    /// Evaluates the exposure of `structure` anew. What was exposed so far is
    /// kept as the state before.
    pub fn reevaluate(&mut self, structure: &Structure)
        ensures
            final(self).exposed_cells@ == structure.grid.exposed_cells(),
            final(self).exposed_before@ == old(self).exposed_cells@,
    {
        let mut cells = structure.check_pressurization();
        std::mem::swap(&mut self.exposed_cells, &mut cells);
        self.exposed_before = cells;
    }
}

/// Evaluates the exposure of a structure that was just built: the exposed
/// cells are those of its grid, and none counts as exposed before.
pub fn build_pressurization(structure: &Structure) -> (pressurization: Pressurization)
    ensures
        pressurization.exposed_cells@ == structure.grid.exposed_cells(),
        pressurization.exposed_before@ == Set::<(int, int)>::empty(),
{
    let mut pressurization = Pressurization::new();
    pressurization.reevaluate(structure);
    pressurization
}

/// Notes whether the player standing in `player_cell` is inside the
/// structure. Entering is reported once, when the player record does not name
/// this structure yet; leaving is reported once, when it does. The record is
/// updated with each report.
pub fn detect_player_inside_structure(
    structure: &Structure,
    structure_entity: u64,
    player_entity: u64,
    player_cell: (i32, i32),
    player_resource: &mut PlayerResource,
) -> (event: Option<StructureInteractionEvent>)
    ensures
        final(player_resource).grid_position == old(player_resource).grid_position,
        final(player_resource).is_controlling_structure == old(player_resource).is_controlling_structure,
        ({
            let inside = structure.grid.in_bounds((player_cell.0 as int, player_cell.1 as int));
            let known = old(player_resource).inside_structure == Some(structure_entity);
            if inside && !known {
                &&& event == Some(StructureInteractionEvent::PlayerEntered { player_entity, structure_entity })
                &&& final(player_resource).inside_structure == Some(structure_entity)
            } else if !inside && known {
                &&& event == Some(StructureInteractionEvent::PlayerExited { player_entity, structure_entity })
                &&& final(player_resource).inside_structure == None::<u64>
            } else {
                &&& event is None
                &&& final(player_resource).inside_structure == old(player_resource).inside_structure
            }
        }),
{
    let known = match player_resource.inside_structure {
        Some(e) => e == structure_entity,
        None => false,
    };
    if structure.is_within_grid_bounds(player_cell.0, player_cell.1) {
        if !known {
            player_resource.inside_structure = Some(structure_entity);
            Some(StructureInteractionEvent::PlayerEntered { player_entity, structure_entity })
        } else {
            None
        }
    } else {
        if known {
            player_resource.inside_structure = None;
            Some(StructureInteractionEvent::PlayerExited { player_entity, structure_entity })
        } else {
            None
        }
    }
}

} // verus!
