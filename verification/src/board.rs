//! The board: a 10-by-10 grid of cell markers, stored densely with
//! `Ship::Empty` standing for open water. The view of a board is the flat
//! sequence of its hundred cells, row after row.

use vstd::prelude::*;
use crate::ship::Ship;

verus! {

/// Number of columns and of rows of the grid.
pub const SIDE: u8 = 10;

/// Number of cells of the grid.
pub const AREA: usize = 100;

/// Index of the cell at `col`, `row` in the flat cell sequence.
pub open spec fn cell_index(col: int, row: int) -> int {
    row * 10 + col
}

/// Cells of `b` that hold any marker (everything but `Empty`).
pub open spec fn occupied(b: Seq<Ship>) -> nat
    decreases b.len(),
{
    if b.len() == 0 {
        0
    } else {
        occupied(b.drop_last()) + if b.last() == Ship::Empty { 0nat } else { 1nat }
    }
}

/// No cell of `b` holds a ship kind.
pub open spec fn no_ships(b: Seq<Ship>) -> bool {
    forall|i: int| 0 <= i < b.len() ==> !(#[trigger] b[i]).is_ship()
}

/// Some cell of `b` holds the marker `s`.
pub open spec fn has_marker(b: Seq<Ship>, s: Ship) -> bool {
    exists|i: int| 0 <= i < b.len() && b[i] == s
}

/// One player's 10-by-10 grid.
pub struct Board {
    pub cells: Vec<Ship>,
}

impl View for Board {
    type V = Seq<Ship>;

    open spec fn view(&self) -> Seq<Ship> {
        self.cells@
    }
}

impl Board {
    /// A board value is well formed when it holds one cell for each grid
    /// position.
    pub open spec fn wf(self) -> bool {
        self@.len() == 100
    }

    /// An all-water board.
    pub fn new() -> (r: Board)
        ensures
            r.wf(),
            forall|i: int| 0 <= i < 100 ==> r@[i] == Ship::Empty,
    {
        let mut cells: Vec<Ship> = Vec::new();
        let mut i: usize = 0;
        while i < AREA
            invariant
                i <= 100,
                cells@.len() == i,
                forall|j: int| 0 <= j < i ==> cells@[j] == Ship::Empty,
            decreases 100 - i,
        {
            cells.push(Ship::Empty);
            i = i + 1;
        }
        Board { cells }
    }

    /// The marker at `col`, `row`.
    pub fn at(&self, col: u8, row: u8) -> (r: Ship)
        requires
            self.wf(),
            col < SIDE,
            row < SIDE,
        ensures
            r == self@[cell_index(col as int, row as int)],
    {
        self.cells[(row as usize) * 10 + (col as usize)]
    }

    /// Overwrite the marker at `col`, `row`.
    pub(crate) fn set_cell(&mut self, col: u8, row: u8, s: Ship)
        requires
            old(self).wf(),
            col < SIDE,
            row < SIDE,
        ensures
            final(self)@ == old(self)@.update(cell_index(col as int, row as int), s),
            final(self).wf(),
    {
        self.cells.set((row as usize) * 10 + (col as usize), s);
    }

    /// Whether any cell of the board holds the marker `ship`.
    pub fn contains(&self, ship: Ship) -> (r: bool)
        ensures
            r == has_marker(self@, ship),
    {
        let n = self.cells.len();
        let mut i: usize = 0;
        while i < n
            invariant
                n == self@.len(),
                i <= n,
                forall|j: int| 0 <= j < i ==> self@[j] != ship,
            decreases n - i,
        {
            if self.cells[i] == ship {
                return true;
            }
            i = i + 1;
        }
        false
    }

    /// Whether any cell still holds an intact ship kind.
    pub fn any_ship(&self) -> (r: bool)
        ensures
            r == !no_ships(self@),
    {
        let n = self.cells.len();
        let mut i: usize = 0;
        while i < n
            invariant
                n == self@.len(),
                i <= n,
                forall|j: int| 0 <= j < i ==> !(#[trigger] self@[j]).is_ship(),
            decreases n - i,
        {
            if self.cells[i].is_ship_kind() {
                return true;
            }
            i = i + 1;
        }
        false
    }

    /// A fresh board with the same cells.
    pub fn duplicate(&self) -> (r: Board)
        ensures
            r@ == self@,
    {
        let n = self.cells.len();
        let mut cells: Vec<Ship> = Vec::new();
        let mut i: usize = 0;
        while i < n
            invariant
                n == self@.len(),
                i <= n,
                cells@.len() == i,
                forall|j: int| 0 <= j < i ==> cells@[j] == self@[j],
            decreases n - i,
        {
            cells.push(self.cells[i]);
            i = i + 1;
        }
        proof {
            assert(cells@ =~= self@);
        }
        Board { cells }
    }
}

/// Changing one cell changes the occupied count by the difference the two
/// markers make.
pub proof fn lemma_occupied_update(b: Seq<Ship>, i: int, s: Ship)
    requires
        0 <= i < b.len(),
    ensures
        occupied(b.update(i, s)) == occupied(b) + (if s == Ship::Empty { 0nat } else { 1nat })
            - (if b[i] == Ship::Empty { 0nat } else { 1nat }),
    decreases b.len(),
{
    let b2 = b.update(i, s);
    if i == b.len() - 1 {
        assert(b2.drop_last() =~= b.drop_last());
        assert(b2.last() == s);
    } else {
        assert(b2.drop_last() =~= b.drop_last().update(i, s));
        assert(b2.last() == b.last());
        lemma_occupied_update(b.drop_last(), i, s);
    }
}

/// An all-water board has no occupied cell.
pub proof fn lemma_occupied_all_empty(b: Seq<Ship>)
    requires
        forall|i: int| 0 <= i < b.len() ==> b[i] == Ship::Empty,
    ensures
        occupied(b) == 0,
    decreases b.len(),
{
    if b.len() > 0 {
        lemma_occupied_all_empty(b.drop_last());
    }
}

} // verus!
