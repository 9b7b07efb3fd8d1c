//! The flow engine: the phase and turn state machine that keeps the two
//! peers' mirrored views consistent.
//!
//! Every decision of the protocol lives here as a step function on
//! [`Game`]: a step takes the messages the transport received and yields
//! the messages to send, so a front-end only moves bytes. The strict order
//! of one exchange is: the firing peer sends `Fire` and then consumes
//! `DidHit`, `Sunk` and `Finished`/`NotFinished`; the receiving peer
//! consumes `Fire` and produces those three replies.

use vstd::prelude::*;
use crate::{Game, Phase};
use crate::board::{
    Board, cell_index, has_marker, lemma_occupied_all_empty, lemma_occupied_update, no_ships,
    occupied,
};
use crate::net::Msg;
use crate::ship::{
    in_span, lemma_place_n_cells, lemma_place_occupied, can_place, place_n, place_spec,
    span_index, Ship,
};

verus! {

/// The protocol version a peer announces in its `Hello`; the two constants
/// must match bit for bit.
pub const VERSION: u64 = 1;

/// The error taxonomy. Only `InvalidPlacement` and `OutOfOrder` are meant
/// for caller retry; every other condition ends the session.
#[derive(Clone, Copy, Debug, PartialEq, Eq, Structural)]
pub enum GameFlowError {
    /// The transport failed.
    Network,
    /// A structurally valid message arrived where the protocol expected
    /// another variant: the peers are out of sync.
    BadMessage(Msg),
    /// The requested span leaves the grid or overlaps a placed ship.
    InvalidPlacement,
    /// The call does not match the current phase or turn.
    OutOfOrder,
    /// Bytes on the wire did not decode to any message.
    MalformedMessage,
    /// The two peers announced different protocol versions.
    Mismatch(u64, u64),
}

/// What one completed exchange reported, as both peers see it.
#[derive(Clone, Copy, Debug, PartialEq, Eq)]
pub struct TurnResults {
    /// The cell fired at.
    pub aim: (u8, u8),
    /// For the firing peer, `Hit` when the shot struck; for the receiving
    /// peer, the kind that was struck.
    pub hit: Option<Ship>,
    /// The kind whose last cell this shot struck, if any.
    pub sunk: Option<Ship>,
    /// Whether this exchange ended the game.
    pub won: bool,
}

/// The local `Hello` a peer opens the handshake with.
pub fn hello_msg() -> (r: Msg)
    ensures
        r == Msg::Hello(VERSION),
{
    Msg::Hello(VERSION)
}

/// The tracking board after recording a shot at `pos`: `Hit` when the peer
/// reported a hit, `Miss` otherwise — and a cell once `Hit` is never
/// overwritten.
pub open spec fn mark_tracking(t: Seq<Ship>, pos: (u8, u8), h: bool) -> Seq<Ship> {
    let i = cell_index(pos.0 as int, pos.1 as int);
    if t[i] == Ship::Hit {
        t
    } else {
        t.update(i, if h { Ship::Hit } else { Ship::Miss })
    }
}

impl Game {
    /// The invariant every session state keeps:
    /// the two boards cover the whole grid; the tracking board never holds
    /// a ship kind (the privacy contract); the fleet board never holds a
    /// `Miss`, so its entries are exactly intact ship cells and `Hit`
    /// cells; and the occupied cells of the fleet count the kinds placed so
    /// far — all seventeen once play begins.
    pub open spec fn wf(self) -> bool {
        &&& self.fleet@.len() == 100
        &&& self.tracking@.len() == 100
        &&& forall|i: int| 0 <= i < 100 ==> !(#[trigger] self.tracking@[i]).is_ship()
        &&& forall|i: int| 0 <= i < 100 ==> #[trigger] self.fleet@[i] != Ship::Miss
        &&& match self.phase {
            Phase::Connecting => true,
            Phase::Placing(k) => k.is_ship() && occupied(self.fleet@) == k.placed_before(),
            Phase::Playing => occupied(self.fleet@) == 17,
            Phase::Done(_) => occupied(self.fleet@) == 17,
        }
    }

    /// Whether the local player may fire.
    pub open spec fn my_turn_spec(self) -> bool {
        self.turn == self.you
    }

    pub fn my_turn(&self) -> (r: bool)
        ensures
            r == self.my_turn_spec(),
    {
        self.turn == self.you
    }

    pub fn phase(&self) -> (r: Phase)
        ensures
            r == self.phase,
    {
        self.phase
    }

    /// Judge the peer's `Hello` and, when the versions match, produce the
    /// starting session state: empty boards, the first kind to place, and
    /// the turn flag set on both sides so that exactly the server-side
    /// peer moves first. On any mismatch no state is produced.
    pub fn start(serve: bool, remote: Msg) -> (r: Result<Game, GameFlowError>)
        ensures
            match r {
                Ok(g) => {
                    &&& remote == Msg::Hello(VERSION)
                    &&& g.wf()
                    &&& g.you == serve
                    &&& g.turn
                    &&& g.phase == Phase::Placing(Ship::Carrier)
                    &&& forall|i: int| 0 <= i < 100 ==> #[trigger] g.fleet@[i] == Ship::Empty
                    &&& forall|i: int| 0 <= i < 100 ==> #[trigger] g.tracking@[i] == Ship::Empty
                },
                Err(e) => match remote {
                    Msg::Hello(v) => v != VERSION && e == GameFlowError::Mismatch(VERSION, v),
                    _ => e == GameFlowError::BadMessage(remote),
                },
            },
    {
        match remote {
            Msg::Hello(v) => {
                if v != VERSION {
                    return Err(GameFlowError::Mismatch(VERSION, v));
                }
            },
            m => {
                return Err(GameFlowError::BadMessage(m));
            },
        }
        let fleet = Board::new();
        let tracking = Board::new();
        proof {
            lemma_occupied_all_empty(fleet@);
        }
        Ok(Game { fleet, tracking, turn: true, you: serve, phase: Phase::Placing(Ship::Carrier) })
    }

    /// Place `ship` on the own fleet board. Fails `OutOfOrder` unless the
    /// phase demands exactly this kind; fails `InvalidPlacement` when the
    /// span leaves the grid or overlaps. Any failure leaves the whole
    /// state unchanged; success advances the phase to the next kind, or to
    /// `Playing` after the last one.
    pub fn place_ship(&mut self, ship: Ship, pos: (u8, u8), v: bool) -> (r: Result<
        (),
        GameFlowError,
    >)
        requires
            old(self).wf(),
        ensures
            final(self).wf(),
            final(self).turn == old(self).turn,
            final(self).you == old(self).you,
            final(self).tracking@ == old(self).tracking@,
            match r {
                Ok(()) => {
                    &&& old(self).phase == Phase::Placing(ship)
                    &&& can_place(old(self).fleet@, ship, pos, v)
                    &&& final(self).fleet@ == place_spec(old(self).fleet@, ship, pos, v)
                    &&& final(self).phase == (match ship.next_kind() {
                        Some(k) => Phase::Placing(k),
                        None => Phase::Playing,
                    })
                },
                Err(GameFlowError::OutOfOrder) => {
                    &&& old(self).phase != Phase::Placing(ship)
                    &&& *final(self) == *old(self)
                },
                Err(GameFlowError::InvalidPlacement) => {
                    &&& old(self).phase == Phase::Placing(ship)
                    &&& !can_place(old(self).fleet@, ship, pos, v)
                    &&& *final(self) == *old(self)
                },
                _ => false,
            },
    {
        let proceed = match self.phase {
            Phase::Placing(s) => s == ship,
            _ => false,
        };
        if !proceed {
            return Err(GameFlowError::OutOfOrder);
        }
        if ship.place(&mut self.fleet, pos, v) {
            proof {
                let b0 = old(self).fleet@;
                let n = ship.len_spec() as int;
                lemma_place_occupied(b0, ship, pos, v);
                lemma_place_n_cells(b0, ship, pos, v, n);
                assert(ship.is_ship());
                assert forall|j: int| 0 <= j < 100 implies #[trigger] self.fleet@[j]
                    != Ship::Miss by {
                    if in_span(pos, v, n, j) {
                        let k = choose|k: int| 0 <= k < n && span_index(pos, v, k) == j;
                        assert(place_n(b0, ship, pos, v, n)[span_index(pos, v, k)] == ship);
                        assert(self.fleet@[j] == ship);
                    } else {
                        assert(place_n(b0, ship, pos, v, n)[j] == b0[j]);
                        assert(b0[j] != Ship::Miss);
                    }
                }
            }
            self.phase = match ship {
                Ship::Carrier => Phase::Placing(Ship::Battleship),
                Ship::Battleship => Phase::Placing(Ship::Cruiser),
                Ship::Cruiser => Phase::Placing(Ship::Submarine),
                Ship::Submarine => Phase::Placing(Ship::Destroyer),
                _ => Phase::Playing,
            };
            Ok(())
        } else {
            Err(GameFlowError::InvalidPlacement)
        }
    }

    /// Open one exchange as the firing peer: yields the `Fire` frame to
    /// send, without touching the state. Fails `OutOfOrder` unless the
    /// session is in play and it is the local turn.
    pub fn fire_aim(&self, pos: (u8, u8)) -> (r: Result<Msg, GameFlowError>)
        requires
            pos.0 < 10,
            pos.1 < 10,
        ensures
            match r {
                Ok(m) => {
                    &&& self.phase == Phase::Playing
                    &&& self.my_turn_spec()
                    &&& m == Msg::Fire(pos.0, pos.1)
                },
                Err(e) => {
                    &&& e == GameFlowError::OutOfOrder
                    &&& !(self.phase == Phase::Playing && self.my_turn_spec())
                },
            },
    {
        if self.phase == Phase::Playing && self.my_turn() {
            Ok(Msg::Fire(pos.0, pos.1))
        } else {
            Err(GameFlowError::OutOfOrder)
        }
    }

    /// Close one exchange as the firing peer, judging the three replies in
    /// their strict order. On success the tracking board records the shot
    /// (`Hit` stays forever), a `Finished` reply ends the game as a win,
    /// and the turn flag toggles. Any unexpected reply variant fails with
    /// that message and leaves the state unchanged.
    pub fn fire_outcome(
        &mut self,
        pos: (u8, u8),
        hit_reply: Msg,
        sunk_reply: Msg,
        fin_reply: Msg,
    ) -> (r: Result<TurnResults, GameFlowError>)
        requires
            old(self).wf(),
            pos.0 < 10,
            pos.1 < 10,
        ensures
            final(self).wf(),
            final(self).fleet@ == old(self).fleet@,
            final(self).you == old(self).you,
            match r {
                Ok(t) => {
                    &&& old(self).phase == Phase::Playing && old(self).my_turn_spec()
                    &&& hit_reply matches Msg::DidHit(h) && {
                        &&& sunk_reply matches Msg::Sunk(sk) && {
                            &&& fin_reply == Msg::Finished || fin_reply == Msg::NotFinished
                            &&& t.aim == pos
                            &&& t.hit == (if h {
                                Some(Ship::Hit)
                            } else {
                                None::<Ship>
                            })
                            &&& t.sunk == (if sk == Ship::Empty {
                                None::<Ship>
                            } else {
                                Some(sk)
                            })
                            &&& t.won == (fin_reply == Msg::Finished)
                            &&& final(self).tracking@ == mark_tracking(
                                old(self).tracking@, pos, h)
                            &&& final(self).turn == !old(self).turn
                            &&& final(self).phase == (if t.won {
                                Phase::Done(true)
                            } else {
                                Phase::Playing
                            })
                        }
                    }
                },
                Err(e) => {
                    &&& *final(self) == *old(self)
                    &&& if !(old(self).phase == Phase::Playing && old(self).my_turn_spec()) {
                        e == GameFlowError::OutOfOrder
                    } else if !(hit_reply is DidHit) {
                        e == GameFlowError::BadMessage(hit_reply)
                    } else if !(sunk_reply is Sunk) {
                        e == GameFlowError::BadMessage(sunk_reply)
                    } else if !(fin_reply is Finished || fin_reply is NotFinished) {
                        e == GameFlowError::BadMessage(fin_reply)
                    } else {
                        false
                    }
                },
            },
    {
        if !(self.phase == Phase::Playing && self.my_turn()) {
            return Err(GameFlowError::OutOfOrder);
        }
        let h = match hit_reply {
            Msg::DidHit(b) => b,
            m => {
                return Err(GameFlowError::BadMessage(m));
            },
        };
        let sk = match sunk_reply {
            Msg::Sunk(s) => s,
            m => {
                return Err(GameFlowError::BadMessage(m));
            },
        };
        let fin = match fin_reply {
            Msg::Finished => true,
            Msg::NotFinished => false,
            m => {
                return Err(GameFlowError::BadMessage(m));
            },
        };
        let cur = self.tracking.at(pos.0, pos.1);
        if cur != Ship::Hit {
            self.tracking.set_cell(pos.0, pos.1, if h {
                Ship::Hit
            } else {
                Ship::Miss
            });
        }
        if fin {
            self.phase = Phase::Done(true);
        }
        self.turn = !self.turn;
        Ok(
            TurnResults {
                aim: pos,
                hit: if h {
                    Some(Ship::Hit)
                } else {
                    None
                },
                sunk: if sk == Ship::Empty {
                    None
                } else {
                    Some(sk)
                },
                won: fin,
            },
        )
    }

    /// Run one whole exchange as the receiving peer: judge the incoming
    /// `Fire` against the fleet board, record a hit by overwriting the
    /// struck cell with `Hit` (a miss stores nothing), and report back.
    /// The replies owed to the peer follow from the result via
    /// [`reply_msgs`]. When every ship cell has been struck the game ends
    /// as a loss. The turn flag toggles; any unexpected or off-grid
    /// message fails with `BadMessage` and leaves the state unchanged.
    pub fn receive_step(&mut self, incoming: Msg) -> (r: Result<TurnResults, GameFlowError>)
        requires
            old(self).wf(),
        ensures
            final(self).wf(),
            final(self).tracking@ == old(self).tracking@,
            final(self).you == old(self).you,
            match r {
                Ok(t) => {
                    &&& old(self).phase == Phase::Playing && !old(self).my_turn_spec()
                    &&& incoming matches Msg::Fire(x, y) && x < 10 && y < 10 && {
                        let i = cell_index(x as int, y as int);
                        let k = old(self).fleet@[i];
                        &&& t.aim == (x, y)
                        &&& t.hit == (if k.is_ship() {
                            Some(k)
                        } else {
                            None::<Ship>
                        })
                        &&& final(self).fleet@ == (if k.is_ship() {
                            old(self).fleet@.update(i, Ship::Hit)
                        } else {
                            old(self).fleet@
                        })
                        &&& t.sunk == (if k.is_ship() && !has_marker(final(self).fleet@, k) {
                            Some(k)
                        } else {
                            None::<Ship>
                        })
                        &&& t.won == no_ships(final(self).fleet@)
                        &&& final(self).phase == (if t.won {
                            Phase::Done(false)
                        } else {
                            Phase::Playing
                        })
                        &&& final(self).turn == !old(self).turn
                    }
                },
                Err(e) => {
                    &&& *final(self) == *old(self)
                    &&& if !(old(self).phase == Phase::Playing && !old(self).my_turn_spec()) {
                        e == GameFlowError::OutOfOrder
                    } else {
                        match incoming {
                            Msg::Fire(x, y) => (x >= 10 || y >= 10) && e
                                == GameFlowError::BadMessage(incoming),
                            _ => e == GameFlowError::BadMessage(incoming),
                        }
                    }
                },
            },
    {
        if !(self.phase == Phase::Playing && !self.my_turn()) {
            return Err(GameFlowError::OutOfOrder);
        }
        let (x, y) = match incoming {
            Msg::Fire(a, b) => (a, b),
            m => {
                return Err(GameFlowError::BadMessage(m));
            },
        };
        if x >= 10 || y >= 10 {
            return Err(GameFlowError::BadMessage(incoming));
        }
        let prev = self.fleet.at(x, y);
        let hit = prev.is_ship_kind();
        if hit {
            proof {
                lemma_occupied_update(self.fleet@, cell_index(x as int, y as int), Ship::Hit);
            }
            self.fleet.set_cell(x, y, Ship::Hit);
        }
        let sunk_flag = hit && !self.fleet.contains(prev);
        let won = !self.fleet.any_ship();
        if won {
            self.phase = Phase::Done(false);
        }
        self.turn = !self.turn;
        Ok(
            TurnResults {
                aim: (x, y),
                hit: if hit {
                    Some(prev)
                } else {
                    None
                },
                sunk: if sunk_flag {
                    Some(prev)
                } else {
                    None
                },
                won,
            },
        )
    }

    /// A read-only snapshot: the tracking board when `enemy` is set, the
    /// own fleet board otherwise.
    pub fn board(&self, enemy: bool) -> (r: Board)
        ensures
            r@ == (if enemy {
                self.tracking@
            } else {
                self.fleet@
            }),
    {
        if enemy {
            self.tracking.duplicate()
        } else {
            self.fleet.duplicate()
        }
    }
}

/// The three replies the receiving peer owes after one exchange, in their
/// strict order on the wire.
pub fn reply_msgs(t: &TurnResults) -> (r: (Msg, Msg, Msg))
    ensures
        r.0 == Msg::DidHit(t.hit is Some),
        r.1 == Msg::Sunk(match t.sunk {
            Some(s) => s,
            None => Ship::Empty,
        }),
        r.2 == (if t.won {
            Msg::Finished
        } else {
            Msg::NotFinished
        }),
{
    let hit = Msg::DidHit(t.hit.is_some());
    let sunk = Msg::Sunk(match t.sunk {
        Some(s) => s,
        None => Ship::Empty,
    });
    let fin = if t.won {
        Msg::Finished
    } else {
        Msg::NotFinished
    };
    (hit, sunk, fin)
}

/// Once `Hit`, never reverted: however a later shot at any cell is
/// recorded, every hit already on the tracking board stays.
pub proof fn lemma_hit_never_reverted(t: Seq<Ship>, pos: (u8, u8), h: bool, i: int)
    requires
        t.len() == 100,
        pos.0 < 10,
        pos.1 < 10,
        0 <= i < t.len(),
        t[i] == Ship::Hit,
    ensures
        mark_tracking(t, pos, h)[i] == Ship::Hit,
{
}

/// Fleet cell count: from the moment play begins — and from then on, since
/// a hit only overwrites a ship cell with `Hit` — exactly seventeen cells
/// of the fleet board are occupied, the summed lengths of the five kinds.
pub proof fn lemma_fleet_cell_count(g: Game)
    requires
        g.wf(),
        g.phase is Playing || g.phase is Done,
    ensures
        occupied(g.fleet@) == 17,
{
}

/// Visibility asymmetry: in every well-formed state the tracking board —
/// all a rendering of the enemy side may draw from — holds no ship kind,
/// only `Hit`, `Miss` and open water the local player has been told of.
pub proof fn lemma_tracking_hides_ships(g: Game)
    requires
        g.wf(),
    ensures
        forall|i: int| 0 <= i < 100 ==> !(#[trigger] g.tracking@[i]).is_ship(),
{
}

/// Two session states describe the two ends of one correctly paired
/// session: opposite roles, and turn flags that moved in lockstep.
pub open spec fn paired(a: Game, b: Game) -> bool {
    a.you == !b.you && a.turn == b.turn
}

/// Turn asymmetry: across a paired session it is never the turn of both
/// peers, nor of neither.
pub proof fn lemma_turn_asymmetry(a: Game, b: Game)
    requires
        paired(a, b),
    ensures
        a.my_turn_spec() == !b.my_turn_spec(),
{
}

/// Turn alternation: when one exchange toggles the turn flag on both ends
/// — as `fire_outcome` and `receive_step` ensure — the pairing survives
/// and the side that may fire strictly alternates.
pub proof fn lemma_turn_alternation(a1: Game, a2: Game, b1: Game, b2: Game)
    requires
        paired(a1, b1),
        a2.turn == !a1.turn,
        b2.turn == !b1.turn,
        a2.you == a1.you,
        b2.you == b1.you,
    ensures
        paired(a2, b2),
        a2.my_turn_spec() == !a1.my_turn_spec(),
{
}

} // verus!
