//! What a front end needs to draw the board: per cell, who stands or stood
//! there, what they did from there, and what arrives there.

use vstd::prelude::*;

use crate::board::{Stamp, TileView, LENGTH, SIZE};
use crate::game::PlayerStatus;
use crate::player::PlayerAction;
use crate::replay::{attacked, Entry};

verus! {

/// The drawable cells of the whole timeline, indexed by slice, row and column.
pub type DisplayData = [[[TileDisplayData; SIZE]; SIZE]; LENGTH];

/// An arrival on a cell: who acted, what was submitted, and whether it is an
/// attack rather than the player's own motion.
pub type Arrival = (u8, PlayerAction, bool);

/// What one drawable cell holds, as contracts see it.
pub struct CellView {
    /// Who is shown here, whether this is where the player stands now, and
    /// the vitals on display.
    pub player: Option<(u8, bool, PlayerStatus)>,
    /// Whether an attack has marked the cell.
    pub hazard: bool,
    /// The action taken from this cell.
    pub outgoing: Option<PlayerAction>,
    /// The actions that arrive at this cell, in the order they were logged.
    pub incoming: Seq<Arrival>,
}

impl CellView {
    /// A cell with nothing to draw.
    pub open spec fn blank() -> CellView {
        CellView { player: None, hazard: false, outgoing: None, incoming: Seq::empty() }
    }

    /// The attacks among the arrivals, without their flag.
    pub open spec fn attacks(self) -> Seq<(u8, PlayerAction)> {
        strikes(self.incoming)
    }
}

/// The arrival without its flag if it is an attack.
pub open spec fn strike(a: Arrival) -> Option<(u8, PlayerAction)> {
    if a.2 {
        Some((a.0, a.1))
    } else {
        None
    }
}

/// The attacks among `arrivals`, in order and without their flag.
pub open spec fn strikes(arrivals: Seq<Arrival>) -> Seq<(u8, PlayerAction)> {
    arrivals.filter_map(|a: Arrival| strike(a))
}

/// What is drawn on one cell.
#[derive(Debug, Clone, PartialEq, Eq)]
pub struct TileDisplayData {
    player: Option<(u8, bool, PlayerStatus)>,
    hazard: bool,
    outgoing: Option<PlayerAction>,
    incoming: Vec<(u8, PlayerAction, bool)>,
}

impl View for TileDisplayData {
    type V = CellView;

    closed spec fn view(&self) -> CellView {
        CellView {
            player: self.player,
            hazard: self.hazard,
            outgoing: self.outgoing,
            incoming: self.incoming@,
        }
    }
}

impl TileDisplayData {
    pub fn new() -> (r: Self)
        ensures
            r@ == CellView::blank(),
    {
        Self { player: None, hazard: false, outgoing: None, incoming: Vec::new() }
    }

    /// A cell made of the given parts, for callers that rebuild one from a
    /// received message.
    pub fn from_parts(
        player: Option<(u8, bool, PlayerStatus)>,
        hazard: bool,
        outgoing: Option<PlayerAction>,
        incoming: Vec<(u8, PlayerAction, bool)>,
    ) -> (r: Self)
        ensures
            r@ == (CellView { player, hazard, outgoing, incoming: incoming@ }),
    {
        Self { player, hazard, outgoing, incoming }
    }

    /// Marks who is shown on the cell. A cell shows one player at most: a
    /// second marker is refused and changes nothing.
    pub fn set_player(&mut self, player_id: u8, active: bool, status: PlayerStatus) -> (r: Result<
        (),
        (),
    >)
        ensures
            (r is Ok) == (old(self)@.player is None),
            r is Ok ==> final(self)@ == (CellView {
                player: Some((player_id, active, status)),
                ..old(self)@
            }),
            r is Err ==> *final(self) == *old(self),
    {
        if self.player.is_some() {
            return Err(());
        }
        self.player = Some((player_id, active, status));
        Ok(())
    }

    /// Marks the action taken from the cell. A cell has one at most: a second
    /// one is refused and changes nothing.
    pub fn set_outgoing(&mut self, action: PlayerAction) -> (r: Result<(), ()>)
        ensures
            (r is Ok) == (old(self)@.outgoing is None),
            r is Ok ==> final(self)@ == (CellView { outgoing: Some(action), ..old(self)@ }),
            r is Err ==> *final(self) == *old(self),
    {
        if self.outgoing.is_some() {
            return Err(());
        }
        self.outgoing = Some(action);
        Ok(())
    }

    pub fn add_incoming_move(&mut self, player_id: u8, action: PlayerAction)
        ensures
            final(self)@ == (CellView {
                incoming: old(self)@.incoming.push((player_id, action, false)),
                ..old(self)@
            }),
    {
        self.add_incoming(player_id, action, false);
    }

    pub fn add_incoming_attack(&mut self, player_id: u8, action: PlayerAction)
        ensures
            final(self)@ == (CellView {
                incoming: old(self)@.incoming.push((player_id, action, true)),
                hazard: true,
                ..old(self)@
            }),
    {
        self.add_incoming(player_id, action, true);
        self.hazard = true;
    }

    pub fn add_incoming(&mut self, player_id: u8, action: PlayerAction, attack: bool)
        ensures
            final(self)@ == (CellView {
                incoming: old(self)@.incoming.push((player_id, action, attack)),
                ..old(self)@
            }),
    {
        self.incoming.push((player_id, action, attack));
    }

    pub fn player(&self) -> (r: Option<(u8, bool, PlayerStatus)>)
        ensures
            r == self@.player,
    {
        self.player
    }

    pub fn outgoing(&self) -> (r: Option<PlayerAction>)
        ensures
            r == self@.outgoing,
    {
        self.outgoing
    }

    pub fn incoming(&self) -> (r: &Vec<(u8, PlayerAction, bool)>)
        ensures
            r@ == self@.incoming,
    {
        &self.incoming
    }

    pub fn is_empty(&self) -> (r: bool)
        ensures
            r == (self@.player is None),
    {
        self.player.is_none()
    }

    pub fn is_attacked(&self) -> (r: bool)
        ensures
            r == self@.hazard,
    {
        self.hazard
    }

    pub fn incoming_attacks(&self) -> (r: Vec<(u8, PlayerAction)>)
        ensures
            r@ == self@.attacks(),
    {
        let mut out: Vec<(u8, PlayerAction)> = Vec::new();
        let mut k: usize = 0;
        while k < self.incoming.len()
            invariant
                k <= self.incoming.len(),
                out@ == strikes(self.incoming@.take(k as int)),
            decreases self.incoming.len() - k,
        {
            let ghost before = out@;
            let (id, action, attack) = self.incoming[k];
            if attack {
                out.push((id, action));
            }
            proof {
                self.incoming@.lemma_filter_map_take_succ(|a: Arrival| strike(a), k as int);
                if attack {
                    assert(out@ =~= before + seq![(id, action)]);
                } else {
                    assert(out@ =~= before + Seq::<(u8, PlayerAction)>::empty());
                }
            }
            k += 1;
        }
        proof {
            assert(self.incoming@.take(k as int) =~= self.incoming@);
        }
        out
    }
}

/// The drawable cell of `data` at `at`.
pub open spec fn cell_at(data: DisplayData, at: Stamp) -> CellView {
    data[at.t as int][at.y as int][at.x as int]@
}

/// The action taken from `at` according to `h`: that of the latest entry
/// whose source is `at`.
pub open spec fn outgoing_of(h: Seq<Entry>, at: Stamp) -> Option<PlayerAction>
    decreases h.len(),
{
    if h.len() == 0 {
        None
    } else if h.last().0 == at {
        Some(h.last().1)
    } else {
        outgoing_of(h.drop_last(), at)
    }
}

/// The arrivals at `at` according to `h`, oldest first. Every entry brings
/// its player's own motion to the destination, and an attack brings a strike
/// to the marked cell as well.
pub open spec fn incoming_of(h: Seq<Entry>, at: Stamp) -> Seq<Arrival>
    decreases h.len(),
{
    if h.len() == 0 {
        Seq::empty()
    } else {
        let e = h.last();
        let before = incoming_of(h.drop_last(), at);
        let moved = if e.2.player.0 == at {
            before.push((e.2.player.1, e.1, false))
        } else {
            before
        };
        if e.2.attack == Some(at) {
            moved.push((e.2.player.1, e.1, true))
        } else {
            moved
        }
    }
}

/// The cell `c` at `at` after the log `h` of player `player_id` has been
/// drawn over it. A cell the player left shows the player as gone, with the
/// vitals the board recorded there, and the action taken from it.
pub open spec fn trace(
    c: CellView,
    b: Map<Stamp, TileView>,
    h: Seq<Entry>,
    player_id: u8,
    at: Stamp,
) -> CellView {
    CellView {
        player: if outgoing_of(h, at) is Some {
            Some((player_id, false, b[at].status->0))
        } else {
            c.player
        },
        hazard: c.hazard || attacked(h, at),
        outgoing: if outgoing_of(h, at) is Some {
            outgoing_of(h, at)
        } else {
            c.outgoing
        },
        incoming: c.incoming + incoming_of(h, at),
    }
}

/// The cell `c` at `at` after the live location `loc` of player `player_id`
/// has been drawn over it.
pub open spec fn mark(c: CellView, loc: Stamp, player_id: u8, status: PlayerStatus, at: Stamp)
    -> CellView {
    if at == loc {
        CellView { player: Some((player_id, true, status)), ..c }
    } else {
        c
    }
}

/// What is drawn at `at`: the traces of both logs, player 0 first, and then
/// the two live locations.
pub open spec fn projected_cell(
    b: Map<Stamp, TileView>,
    h0: Seq<Entry>,
    h1: Seq<Entry>,
    loc0: Stamp,
    loc1: Stamp,
    status0: PlayerStatus,
    status1: PlayerStatus,
    at: Stamp,
) -> CellView {
    let traced = trace(trace(CellView::blank(), b, h0, 0, at), b, h1, 1, at);
    mark(mark(traced, loc0, 0, status0, at), loc1, 1, status1, at)
}

/// No entry of `h` starts at `at` exactly if `h` shows no action taken from
/// there.
pub proof fn lemma_outgoing_of(h: Seq<Entry>, at: Stamp)
    ensures
        (outgoing_of(h, at) is None) == (forall|k: int|
            0 <= k < h.len() ==> (#[trigger] h[k]).0 != at),
    decreases h.len(),
{
    if h.len() > 0 {
        lemma_outgoing_of(h.drop_last(), at);
        if h.last().0 != at {
            if outgoing_of(h, at) is None {
                assert forall|k: int| 0 <= k < h.len() implies (#[trigger] h[k]).0 != at by {
                    if k < h.len() - 1 {
                        assert(h.drop_last()[k] == h[k]);
                    }
                }
            } else {
                let k = choose|k: int|
                    0 <= k < h.drop_last().len() && (#[trigger] h.drop_last()[k]).0 == at;
                assert(h[k].0 == at);
            }
        }
    }
}

/// With distinct sources, the action shown on a source is the one logged
/// with it.
pub proof fn lemma_outgoing_at(h: Seq<Entry>, k: int)
    requires
        0 <= k < h.len(),
        forall|i: int, j: int| 0 <= i < j < h.len() ==> (#[trigger] h[i]).0 != (#[trigger] h[j]).0,
    ensures
        outgoing_of(h, h[k].0) == Some(h[k].1),
    decreases h.len(),
{
    if k < h.len() - 1 {
        let front = h.drop_last();
        assert(h[k].0 != h[h.len() - 1].0);
        assert forall|i: int, j: int| 0 <= i < j < front.len() implies (#[trigger] front[i]).0 != (
        #[trigger] front[j]).0 by {
            assert(front[i] == h[i] && front[j] == h[j]);
        }
        lemma_outgoing_at(front, k);
    }
}

} // verus!
