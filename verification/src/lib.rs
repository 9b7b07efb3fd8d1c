//! Two-player networked battleship: the synchronization engine.
//!
//! The crate holds the verified core of the game — the ship catalog, the
//! board, the wire-message codec and the phase/turn state machine — while a
//! front-end supplies the transport and drives one exchange at a time.

use vstd::prelude::*;
use vstd::string::StringExecFns;

pub mod board;
pub mod flow;
pub mod net;
pub mod ship;
pub mod ui;

use board::Board;
use ship::Ship;

verus! {

/// The coarse session stage. `Placing` carries the kind that must be
/// placed next; `Done` carries whether the local player won.
#[derive(Clone, Copy, Debug, PartialEq, Eq, Structural)]
pub enum Phase {
    Connecting,
    Placing(Ship),
    Playing,
    Done(bool),
}

/// One peer's whole mirrored view of the session.
///
/// `fleet` is the player's own ship layout, the ground truth that incoming
/// fire is judged against. `tracking` is the player's accumulated hit/miss
/// record of shots fired at the opponent; it never holds a ship kind. The
/// turn flag is compared against `you` to decide who may fire: both peers
/// start with the flag set, and the peer created as the server starts with
/// `you` set, so exactly one side moves first.
pub struct Game {
    pub fleet: Board,
    pub tracking: Board,
    pub turn: bool,
    pub you: bool,
    pub phase: Phase,
}

/// The letter that labels a row of the rendered grids.
pub open spec fn row_letter(r: int) -> char {
    if r == 0 {
        'A'
    } else if r == 1 {
        'B'
    } else if r == 2 {
        'C'
    } else if r == 3 {
        'D'
    } else if r == 4 {
        'E'
    } else if r == 5 {
        'F'
    } else if r == 6 {
        'G'
    } else if r == 7 {
        'H'
    } else if r == 8 {
        'I'
    } else {
        'J'
    }
}

/// The ten cell characters of row `r` of a board, leftmost column first.
pub open spec fn board_row_chars(b: Seq<Ship>, r: int) -> Seq<char> {
    Seq::new(10, |c: int| b[board::cell_index(c, r)].symbol_spec())
}

/// One rendered row: its letter, then the own fleet fully visible, then
/// the tracking view of the opponent, the three columns fenced by bars.
pub open spec fn render_row(g: Game, r: int) -> Seq<char> {
    seq![row_letter(r), '|'] + board_row_chars(g.fleet@, r) + seq!['|'] + board_row_chars(
        g.tracking@, r) + seq!['|', '\n']
}

/// The first `n` rendered rows.
pub open spec fn render_rows(g: Game, n: int) -> Seq<char>
    decreases n,
{
    if n <= 0 {
        Seq::empty()
    } else {
        render_rows(g, n - 1) + render_row(g, n - 1)
    }
}

/// The two header lines above the grids.
pub open spec fn render_header() -> Seq<char> {
    " | YOU      | THEM     |\n"@ + " |0123456789|0123456789|\n"@
}

/// The full rendering: header lines, then the ten rows.
pub open spec fn render_spec(g: Game) -> Seq<char> {
    render_header() + render_rows(g, 10)
}

/// Visibility asymmetry at the display: the enemy side of a rendering
/// draws only open water, recorded misses and recorded hits — never a ship
/// letter the local player has not been told of.
pub proof fn lemma_render_hides_ships(g: Game, r: int, c: int)
    requires
        g.wf(),
        0 <= r < 10,
        0 <= c < 10,
    ensures
        board_row_chars(g.tracking@, r)[c] == ' ' || board_row_chars(g.tracking@, r)[c] == '?'
            || board_row_chars(g.tracking@, r)[c] == 'X',
{
    assert(!g.tracking@[board::cell_index(c, r)].is_ship());
}

fn row_letter_str<'a>(row: u8) -> (r: &'a str)
    requires
        row < 10,
    ensures
        r@ == seq![row_letter(row as int)],
{
    if row == 0 {
        let s = "A";
        proof {
            reveal_strlit("A");
            assert(s@ =~= seq!['A']);
        }
        s
    } else if row == 1 {
        let s = "B";
        proof {
            reveal_strlit("B");
            assert(s@ =~= seq!['B']);
        }
        s
    } else if row == 2 {
        let s = "C";
        proof {
            reveal_strlit("C");
            assert(s@ =~= seq!['C']);
        }
        s
    } else if row == 3 {
        let s = "D";
        proof {
            reveal_strlit("D");
            assert(s@ =~= seq!['D']);
        }
        s
    } else if row == 4 {
        let s = "E";
        proof {
            reveal_strlit("E");
            assert(s@ =~= seq!['E']);
        }
        s
    } else if row == 5 {
        let s = "F";
        proof {
            reveal_strlit("F");
            assert(s@ =~= seq!['F']);
        }
        s
    } else if row == 6 {
        let s = "G";
        proof {
            reveal_strlit("G");
            assert(s@ =~= seq!['G']);
        }
        s
    } else if row == 7 {
        let s = "H";
        proof {
            reveal_strlit("H");
            assert(s@ =~= seq!['H']);
        }
        s
    } else if row == 8 {
        let s = "I";
        proof {
            reveal_strlit("I");
            assert(s@ =~= seq!['I']);
        }
        s
    } else {
        let s = "J";
        proof {
            reveal_strlit("J");
            assert(s@ =~= seq!['J']);
        }
        s
    }
}

impl Game {
    /// Render both boards as parallel grids: the own fleet fully visible
    /// on the left, the opponent view on the right limited to what the
    /// tracking board holds — unguessed ship positions are never drawn.
    pub fn to_string(&self) -> (out: String)
        requires
            self.wf(),
        ensures
            out@ == render_spec(*self),
    {
        let mut out = String::new();
        out.append(" | YOU      | THEM     |\n");
        out.append(" |0123456789|0123456789|\n");
        proof {
            assert(out@ =~= render_header());
        }
        let mut row: u8 = 0;
        while row < 10
            invariant
                self.wf(),
                row <= 10,
                out@ == render_header() + render_rows(*self, row as int),
            decreases 10 - row,
        {
            let ghost done = render_header() + render_rows(*self, row as int);
            out.append(row_letter_str(row));
            out.append("|");
            proof {
                reveal_strlit("|");
                assert(out@ =~= done + seq![row_letter(row as int), '|'] + board_row_chars(
                    self.fleet@, row as int).take(0));
            }
            let mut col: u8 = 0;
            while col < 10
                invariant
                    self.wf(),
                    col <= 10,
                    row < 10,
                    out@ == done + seq![row_letter(row as int), '|'] + board_row_chars(
                        self.fleet@, row as int).take(col as int),
                decreases 10 - col,
            {
                let s = self.fleet.at(col, row);
                out.append(s.symbol_str());
                proof {
                    assert(board_row_chars(self.fleet@, row as int).take(col as int + 1) =~=
                        board_row_chars(self.fleet@, row as int).take(col as int).push(
                        s.symbol_spec()));
                    assert(out@ =~= done + seq![row_letter(row as int), '|'] + board_row_chars(
                        self.fleet@, row as int).take(col as int + 1));
                }
                col = col + 1;
            }
            out.append("|");
            let ghost left = done + seq![row_letter(row as int), '|'] + board_row_chars(
                self.fleet@, row as int) + seq!['|'];
            proof {
                reveal_strlit("|");
                assert(board_row_chars(self.fleet@, row as int).take(10) =~= board_row_chars(
                    self.fleet@, row as int));
                assert(out@ =~= left + board_row_chars(self.tracking@, row as int).take(0));
            }
            let mut col: u8 = 0;
            while col < 10
                invariant
                    self.wf(),
                    col <= 10,
                    row < 10,
                    out@ == left + board_row_chars(self.tracking@, row as int).take(col as int),
                decreases 10 - col,
            {
                let s = self.tracking.at(col, row);
                out.append(s.symbol_str());
                proof {
                    assert(board_row_chars(self.tracking@, row as int).take(col as int + 1) =~=
                        board_row_chars(self.tracking@, row as int).take(col as int).push(
                        s.symbol_spec()));
                    assert(out@ =~= left + board_row_chars(self.tracking@, row as int).take(
                        col as int + 1));
                }
                col = col + 1;
            }
            out.append("|\n");
            proof {
                reveal_strlit("|\n");
                assert(board_row_chars(self.tracking@, row as int).take(10) =~= board_row_chars(
                    self.tracking@, row as int));
                assert("|\n"@ =~= seq!['|', '\n']);
                assert(out@ =~= render_header() + render_rows(*self, row as int + 1));
            }
            row = row + 1;
        }
        out
    }
}

} // verus!
