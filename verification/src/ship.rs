//! The ship catalog: five ship kinds with fixed lengths, plus the two
//! shot markers (`Miss`, `Hit`) and the empty-water marker, all carried by
//! one cell-marker enum as the board stores them side by side.

use vstd::prelude::*;
use crate::board::{Board, cell_index, lemma_occupied_update, occupied, SIDE};

verus! {

/// A board cell marker: one of the five ship kinds, a recorded shot
/// (`Miss` / `Hit`), or `Empty` for open water.
#[derive(Clone, Copy, Debug, PartialEq, Eq, Structural)]
pub enum Ship {
    Empty,
    Miss,
    Hit,
    Carrier,
    Battleship,
    Cruiser,
    Submarine,
    Destroyer,
}

impl Ship {
    /// Length in cells of a ship kind; the markers have length zero.
    pub open spec fn len_spec(self) -> u8 {
        match self {
            Ship::Carrier => 5,
            Ship::Battleship => 4,
            Ship::Cruiser | Ship::Submarine => 3,
            Ship::Destroyer => 2,
            _ => 0,
        }
    }

    /// True of the five ship kinds only, never of `Empty`, `Miss` or `Hit`.
    pub open spec fn is_ship(self) -> bool {
        match self {
            Ship::Carrier | Ship::Battleship | Ship::Cruiser | Ship::Submarine
                | Ship::Destroyer => true,
            _ => false,
        }
    }

    /// Cells occupied by every kind placed strictly before `self` in the
    /// fixed placement order.
    pub open spec fn placed_before(self) -> nat {
        match self {
            Ship::Carrier => 0,
            Ship::Battleship => 5,
            Ship::Cruiser => 9,
            Ship::Submarine => 12,
            Ship::Destroyer => 15,
            _ => 0,
        }
    }

    /// The kind that follows `self` in the placement order, or `None` after
    /// the last one.
    pub open spec fn next_kind(self) -> Option<Ship> {
        match self {
            Ship::Carrier => Some(Ship::Battleship),
            Ship::Battleship => Some(Ship::Cruiser),
            Ship::Cruiser => Some(Ship::Submarine),
            Ship::Submarine => Some(Ship::Destroyer),
            _ => None,
        }
    }

    /// The fixed placement order of the five kinds.
    pub open spec fn order() -> Seq<Ship> {
        seq![Ship::Carrier, Ship::Battleship, Ship::Cruiser, Ship::Submarine, Ship::Destroyer]
    }

    pub fn len(&self) -> (r: u8)
        ensures
            r == self.len_spec(),
    {
        match self {
            Ship::Carrier => 5,
            Ship::Battleship => 4,
            Ship::Cruiser | Ship::Submarine => 3,
            Ship::Destroyer => 2,
            _ => 0,
        }
    }

    pub fn is_empty(&self) -> (r: bool)
        ensures
            r == (self.len_spec() == 0),
    {
        self.len() == 0
    }

    /// True at run time exactly when `self` is one of the five ship kinds.
    pub fn is_ship_kind(&self) -> (r: bool)
        ensures
            r == self.is_ship(),
    {
        match self {
            Ship::Carrier | Ship::Battleship | Ship::Cruiser | Ship::Submarine
                | Ship::Destroyer => true,
            _ => false,
        }
    }

    /// Place this kind on `board` with its top-left cell at `pos`
    /// (column, row), growing rightwards, or downwards when `v` is set.
    ///
    /// The check runs in two passes — bounds and overlap first, then the
    /// commit — so a failed placement returns `false` with the board
    /// untouched.
    pub fn place(&self, board: &mut Board, pos: (u8, u8), v: bool) -> (r: bool)
        requires
            old(board).wf(),
        ensures
            final(board).wf(),
            r == can_place(old(board)@, *self, pos, v),
            r ==> final(board)@ == place_spec(old(board)@, *self, pos, v),
            !r ==> *final(board) == *old(board),
    {
        let len = self.len();
        if len > 0 {
            if pos.0 >= SIDE || pos.1 >= SIDE {
                return false;
            }
            if v {
                if (pos.1 as u16) + (len as u16) > 10 {
                    return false;
                }
            } else {
                if (pos.0 as u16) + (len as u16) > 10 {
                    return false;
                }
            }
        }
        // First pass: every span cell must be open water.
        let mut i: u8 = 0;
        while i < len
            invariant
                board.wf(),
                *board == *old(board),
                len == self.len_spec(),
                fits(*self, pos, v),
                i <= len,
                forall|k: int| 0 <= k < i ==> board@[span_index(pos, v, k)] == Ship::Empty,
            decreases len - i,
        {
            let (c, rr) = if v { (pos.0, pos.1 + i) } else { (pos.0 + i, pos.1) };
            if board.at(c, rr) != Ship::Empty {
                proof {
                    assert(!span_free(board@, *self, pos, v)) by {
                        if span_free(board@, *self, pos, v) {
                            assert(board@[span_index(pos, v, i as int)] == Ship::Empty);
                        }
                    }
                }
                return false;
            }
            i = i + 1;
        }
        // Second pass: commit the span.
        let ghost b0 = board@;
        let mut i: u8 = 0;
        while i < len
            invariant
                board.wf(),
                board@ == place_n(b0, *self, pos, v, i as int),
                len == self.len_spec(),
                fits(*self, pos, v),
                i <= len,
            decreases len - i,
        {
            let (c, rr) = if v { (pos.0, pos.1 + i) } else { (pos.0 + i, pos.1) };
            board.set_cell(c, rr, *self);
            i = i + 1;
        }
        true
    }

    /// The character a cell marker renders as.
    pub open spec fn symbol_spec(self) -> char {
        match self {
            Ship::Empty => ' ',
            Ship::Miss => '?',
            Ship::Hit => 'X',
            Ship::Carrier => 'C',
            Ship::Battleship => 'B',
            Ship::Cruiser => 'R',
            Ship::Submarine => 'S',
            Ship::Destroyer => 'D',
        }
    }

    /// The one-character string a cell marker renders as.
    pub fn symbol_str(&self) -> (r: &str)
        ensures
            r@ == seq![self.symbol_spec()],
    {
        match self {
            Ship::Empty => {
                let s = " ";
                proof {
                    reveal_strlit(" ");
                    assert(s@ =~= seq![' ']);
                }
                s
            },
            Ship::Miss => {
                let s = "?";
                proof {
                    reveal_strlit("?");
                    assert(s@ =~= seq!['?']);
                }
                s
            },
            Ship::Hit => {
                let s = "X";
                proof {
                    reveal_strlit("X");
                    assert(s@ =~= seq!['X']);
                }
                s
            },
            Ship::Carrier => {
                let s = "C";
                proof {
                    reveal_strlit("C");
                    assert(s@ =~= seq!['C']);
                }
                s
            },
            Ship::Battleship => {
                let s = "B";
                proof {
                    reveal_strlit("B");
                    assert(s@ =~= seq!['B']);
                }
                s
            },
            Ship::Cruiser => {
                let s = "R";
                proof {
                    reveal_strlit("R");
                    assert(s@ =~= seq!['R']);
                }
                s
            },
            Ship::Submarine => {
                let s = "S";
                proof {
                    reveal_strlit("S");
                    assert(s@ =~= seq!['S']);
                }
                s
            },
            Ship::Destroyer => {
                let s = "D";
                proof {
                    reveal_strlit("D");
                    assert(s@ =~= seq!['D']);
                }
                s
            },
        }
    }

    /// The five kinds in placement order.
    pub fn into_iter() -> (r: Vec<Ship>)
        ensures
            r@ == Ship::order(),
    {
        let mut v: Vec<Ship> = Vec::new();
        v.push(Ship::Carrier);
        v.push(Ship::Battleship);
        v.push(Ship::Cruiser);
        v.push(Ship::Submarine);
        v.push(Ship::Destroyer);
        proof {
            assert(v@ =~= Ship::order());
        }
        v
    }
}

/// Flat index of the `k`-th cell of a span starting at `pos`, advancing
/// along the row, or down the column when `v` is set.
pub open spec fn span_index(pos: (u8, u8), v: bool, k: int) -> int {
    if v {
        cell_index(pos.0 as int, pos.1 + k)
    } else {
        cell_index(pos.0 + k, pos.1 as int)
    }
}

/// The span of `kind` starting at `pos` lies inside the grid. An empty
/// span (a zero-length marker) fits anywhere.
pub open spec fn fits(kind: Ship, pos: (u8, u8), v: bool) -> bool {
    kind.len_spec() == 0 || {
        &&& pos.0 < 10
        &&& pos.1 < 10
        &&& if v {
            pos.1 + kind.len_spec() <= 10
        } else {
            pos.0 + kind.len_spec() <= 10
        }
    }
}

/// Every cell of the span is open water.
pub open spec fn span_free(b: Seq<Ship>, kind: Ship, pos: (u8, u8), v: bool) -> bool {
    forall|k: int| 0 <= k < kind.len_spec() ==> b[#[trigger] span_index(pos, v, k)] == Ship::Empty
}

/// The placement is accepted: in bounds and without overlap.
pub open spec fn can_place(b: Seq<Ship>, kind: Ship, pos: (u8, u8), v: bool) -> bool {
    fits(kind, pos, v) && span_free(b, kind, pos, v)
}

/// The board after writing the first `n` span cells.
pub open spec fn place_n(b: Seq<Ship>, kind: Ship, pos: (u8, u8), v: bool, n: int) -> Seq<Ship>
    decreases n,
{
    if n <= 0 {
        b
    } else {
        place_n(b, kind, pos, v, n - 1).update(span_index(pos, v, n - 1), kind)
    }
}

/// The board after a successful placement of `kind` at `pos`.
pub open spec fn place_spec(b: Seq<Ship>, kind: Ship, pos: (u8, u8), v: bool) -> Seq<Ship> {
    place_n(b, kind, pos, v, kind.len_spec() as int)
}

/// Cell `j` is among the first `n` span cells.
pub open spec fn in_span(pos: (u8, u8), v: bool, n: int, j: int) -> bool {
    exists|k: int| 0 <= k < n && span_index(pos, v, k) == j
}

/// Two distinct steps of one span land on distinct cells.
pub proof fn lemma_span_index_distinct(pos: (u8, u8), v: bool, j: int, k: int)
    requires
        j != k,
    ensures
        span_index(pos, v, j) != span_index(pos, v, k),
{
}

/// Inside a fitting span, every step lands inside the grid.
pub proof fn lemma_span_index_bounds(kind: Ship, pos: (u8, u8), v: bool, k: int)
    requires
        fits(kind, pos, v),
        0 <= k < kind.len_spec(),
    ensures
        0 <= span_index(pos, v, k) < 100,
{
}

/// What each cell holds after the first `n` span cells are written: `kind`
/// on the span, the old marker elsewhere.
pub proof fn lemma_place_n_cells(b: Seq<Ship>, kind: Ship, pos: (u8, u8), v: bool, n: int)
    requires
        b.len() == 100,
        fits(kind, pos, v),
        0 <= n <= kind.len_spec(),
    ensures
        place_n(b, kind, pos, v, n).len() == 100,
        forall|k: int| 0 <= k < n ==> place_n(b, kind, pos, v, n)[#[trigger] span_index(
            pos, v, k)] == kind,
        forall|j: int| 0 <= j < 100 && !in_span(pos, v, n, j) ==> place_n(b, kind, pos, v, n)[j]
            == b[j],
    decreases n,
{
    if n > 0 {
        lemma_place_n_cells(b, kind, pos, v, n - 1);
        lemma_span_index_bounds(kind, pos, v, n - 1);
        let cur = place_n(b, kind, pos, v, n);
        assert forall|k: int| 0 <= k < n implies cur[#[trigger] span_index(pos, v, k)]
            == kind by {
            if k < n - 1 {
                lemma_span_index_distinct(pos, v, k, n - 1);
            }
        }
        assert forall|j: int| 0 <= j < 100 && !in_span(pos, v, n, j) implies cur[j] == b[j] by {
            assert(!in_span(pos, v, n - 1, j));
            assert(span_index(pos, v, n - 1) != j);
        }
    }
}

/// A successful placement raises the occupied-cell count by the length of
/// the kind placed.
pub proof fn lemma_place_occupied(b: Seq<Ship>, kind: Ship, pos: (u8, u8), v: bool)
    requires
        b.len() == 100,
        can_place(b, kind, pos, v),
    ensures
        occupied(place_spec(b, kind, pos, v)) == occupied(b) + kind.len_spec(),
{
    lemma_place_n_occupied(b, kind, pos, v, kind.len_spec() as int);
}

proof fn lemma_place_n_occupied(b: Seq<Ship>, kind: Ship, pos: (u8, u8), v: bool, n: int)
    requires
        b.len() == 100,
        can_place(b, kind, pos, v),
        0 <= n <= kind.len_spec(),
    ensures
        occupied(place_n(b, kind, pos, v, n)) == occupied(b) + n,
    decreases n,
{
    if n > 0 {
        lemma_place_n_occupied(b, kind, pos, v, n - 1);
        lemma_place_n_cells(b, kind, pos, v, n - 1);
        lemma_span_index_bounds(kind, pos, v, n - 1);
        let prev = place_n(b, kind, pos, v, n - 1);
        let at = span_index(pos, v, n - 1);
        assert(!in_span(pos, v, n - 1, at)) by {
            if in_span(pos, v, n - 1, at) {
                let k = choose|k: int| 0 <= k < n - 1 && span_index(pos, v, k) == at;
                lemma_span_index_distinct(pos, v, k, n - 1);
            }
        }
        assert(prev[at] == b[at]);
        assert(b[at] == Ship::Empty);
        lemma_occupied_update(prev, at, kind);
    }
}

} // verus!
