//! What it means for a cell to be open to space.
//!
//! A cell is exposed when a chain of cells that no module takes, each a direct
//! neighbour of the one before, leads to it from the border of the grid.

use crate::cells::adjacent;
use crate::grid::{CellType, Grid};
use vstd::prelude::*;

verus! {

impl Grid {
    /// Whether the cell at `c` exists and no module takes it.
    pub open spec fn is_open(&self, c: (int, int)) -> bool {
        self@.contains_key(c) && self@[c].cell_type != CellType::Module
    }

    /// Whether `c` lies in the first or last column or row.
    pub open spec fn on_border(&self, c: (int, int)) -> bool {
        c.0 == 0 || c.0 == self.width() - 1 || c.1 == 0 || c.1 == self.height() - 1
    }

    /// Whether `path` starts on the border and runs through open cells only,
    /// from each to a direct neighbour.
    pub open spec fn is_leak(&self, path: Seq<(int, int)>) -> bool {
        &&& path.len() > 0
        &&& self.on_border(path[0])
        &&& forall|i: int| 0 <= i < path.len() ==> self.is_open(#[trigger] path[i])
        &&& forall|i: int| 0 <= i < path.len() - 1 ==> adjacent(#[trigger] path[i], path[i + 1])
    }

    /// Whether `c` can be reached from the border without crossing a module.
    pub open spec fn is_exposed(&self, c: (int, int)) -> bool {
        exists|path: Seq<(int, int)>| self.is_leak(path) && path.last() == c
    }

    /// All exposed cells.
    pub open spec fn exposed_cells(&self) -> Set<(int, int)> {
        Set::new(|c: (int, int)| self.is_exposed(c))
    }

    /// An exposed cell is an open cell of the grid.
    pub proof fn lemma_exposed_is_open(&self, c: (int, int))
        requires
            self.is_exposed(c),
        ensures
            self.is_open(c),
            self.in_bounds(c),
    {
        let path = choose|path: Seq<(int, int)>| self.is_leak(path) && path.last() == c;
        assert(self.is_open(path[path.len() - 1]));
        self.lemma_view_in_bounds();
    }

    /// An open cell on the border is exposed.
    pub proof fn lemma_border_exposed(&self, c: (int, int))
        requires
            self.is_open(c),
            self.on_border(c),
        ensures
            self.is_exposed(c),
    {
        let path = seq![c];
        assert(self.is_leak(path) && path.last() == c);
    }

    /// Exposure spreads from a cell to each open direct neighbour.
    pub proof fn lemma_exposure_spreads(&self, a: (int, int), b: (int, int))
        requires
            self.is_exposed(a),
            adjacent(a, b),
            self.is_open(b),
        ensures
            self.is_exposed(b),
    {
        let path = choose|path: Seq<(int, int)>| self.is_leak(path) && path.last() == a;
        let longer = path.push(b);
        assert forall|i: int| 0 <= i < longer.len() implies self.is_open(#[trigger] longer[i]) by {
            if i < path.len() {
                assert(longer[i] == path[i]);
            }
        }
        assert forall|i: int| 0 <= i < longer.len() - 1 implies adjacent(#[trigger] longer[i], longer[i + 1]) by {
            assert(longer[i] == path[i]);
            if i < path.len() - 1 {
                assert(longer[i + 1] == path[i + 1]);
            }
        }
        assert(longer[0] == path[0]);
        assert(self.is_leak(longer) && longer.last() == b);
    }

    /// Every cell of a leak lies in a set that holds the open border cells
    /// and, with each member, its open direct neighbours.
    proof fn lemma_leak_stays_inside(&self, s: Set<(int, int)>, path: Seq<(int, int)>, i: int)
        requires
            self.is_leak(path),
            0 <= i < path.len(),
            forall|c: (int, int)| self.is_open(c) && self.on_border(c) ==> s.contains(c),
            forall|a: (int, int), b: (int, int)|
                s.contains(a) && adjacent(a, b) && self.is_open(b) ==> s.contains(b),
        ensures
            s.contains(path[i]),
        decreases i,
    {
        if i == 0 {
            assert(self.is_open(path[0]));
        } else {
            self.lemma_leak_stays_inside(s, path, i - 1);
            assert(adjacent(path[i - 1], path[i - 1 + 1]));
            assert(self.is_open(path[i]));
        }
    }

    /// A set that holds the open border cells and, with each member, its open
    /// direct neighbours, holds every exposed cell.
    pub proof fn lemma_closed_set_holds_exposed(&self, s: Set<(int, int)>)
        requires
            forall|c: (int, int)| self.is_open(c) && self.on_border(c) ==> s.contains(c),
            forall|a: (int, int), b: (int, int)|
                s.contains(a) && adjacent(a, b) && self.is_open(b) ==> s.contains(b),
        ensures
            self.exposed_cells().subset_of(s),
    {
        assert forall|c: (int, int)| self.exposed_cells().contains(c) implies s.contains(c) by {
            let path = choose|path: Seq<(int, int)>| self.is_leak(path) && path.last() == c;
            self.lemma_leak_stays_inside(s, path, path.len() - 1);
        }
    }

    /// A hull without a gap seals everything: where no border cell is open,
    /// no cell is exposed, whatever lies inside.
    pub proof fn lemma_sealed_hull(&self)
        requires
            forall|c: (int, int)| self.on_border(c) ==> !self.is_open(c),
        ensures
            self.exposed_cells() == Set::<(int, int)>::empty(),
    {
        self.lemma_closed_set_holds_exposed(Set::<(int, int)>::empty());
        assert(self.exposed_cells() =~= Set::<(int, int)>::empty());
    }

    /// Exposure is a matter of the size and the cells alone: two grids that
    /// agree in both have the same exposed cells, so that evaluating anew
    /// what has not changed gives what was there.
    pub proof fn lemma_same_cells_same_exposure(&self, other: &Grid)
        requires
            self.width() == other.width(),
            self.height() == other.height(),
            self@ == other@,
        ensures
            self.exposed_cells() == other.exposed_cells(),
    {
        assert forall|c: (int, int)| self.is_exposed(c) <==> other.is_exposed(c) by {
            if self.is_exposed(c) {
                self.lemma_exposure_grows(other, c);
            }
            if other.is_exposed(c) {
                other.lemma_exposure_grows(self, c);
            }
        }
        assert(self.exposed_cells() =~= other.exposed_cells());
    }

    /// Destruction never seals a cell: what was exposed stays exposed in every
    /// grid that this one decays into.
    pub proof fn lemma_decay_keeps_exposure(&self, later: &Grid)
        requires
            self.decays_into(later),
        ensures
            self.exposed_cells().subset_of(later.exposed_cells()),
    {
        assert forall|c: (int, int)| self.exposed_cells().contains(c) implies later.exposed_cells().contains(c) by {
            assert forall|d: (int, int)| self.is_open(d) implies later.is_open(d) by {
                assert(later@.dom().contains(d));
                assert(later.is_module(d) ==> self.is_module(d));
            }
            self.lemma_exposure_grows(later, c);
        }
    }

    /// Opening cells never seals any: a cell exposed in this grid is exposed
    /// in every grid of the same size in which at least the same cells are open.
    pub proof fn lemma_exposure_grows(&self, later: &Grid, c: (int, int))
        requires
            self.width() == later.width(),
            self.height() == later.height(),
            forall|d: (int, int)| self.is_open(d) ==> later.is_open(d),
            self.is_exposed(c),
        ensures
            later.is_exposed(c),
    {
        let path = choose|path: Seq<(int, int)>| self.is_leak(path) && path.last() == c;
        assert forall|i: int| 0 <= i < path.len() implies later.is_open(#[trigger] path[i]) by {
            assert(self.is_open(path[i]));
        }
        assert(later.is_leak(path) && path.last() == c);
    }
}

} // verus!
