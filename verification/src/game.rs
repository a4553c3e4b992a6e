//! The match: board, logs, vitals and locations, with the resolution of a
//! tick and the projection for drawing.

use vstd::prelude::*;

use crate::board::{resolve, Board, Error, Impact, Stamp, TileView, SIZE};
use crate::display::{
    cell_at, incoming_of, lemma_outgoing_of, projected_cell, trace, CellView, DisplayData,
    TileDisplayData,
};
use crate::player::PlayerAction;
use crate::replay::{
    apply_history, consistent, distinct_sources, entries_in_bounds, final_status,
    lemma_attacked_push, lemma_replay_consistent, lemma_status_time, lemma_turn_consistent,
    record, record_history, replayed_board, same_hazards, settled, status_before, Entry,
};

verus! {

/// The verdict on a pair of simultaneous actions. Each is judged against the
/// board as it stands, player 0 first, and not against the other's pending
/// move; two actions that end on the same cell are both turned down.
pub open spec fn turn(
    b: Map<Stamp, TileView>,
    loc0: Stamp,
    loc1: Stamp,
    action0: PlayerAction,
    action1: PlayerAction,
) -> Result<(Impact, Impact), Seq<char>> {
    match resolve(b, 0, action0, loc0) {
        Err(reason) => Err(reason),
        Ok(impact0) => match resolve(b, 1, action1, loc1) {
            Err(reason) => Err(reason),
            Ok(impact1) => if impact0.player.0 == impact1.player.0 {
                Err("collision"@)
            } else {
                Ok((impact0, impact1))
            },
        },
    }
}

/// The whole state of one match.
pub struct GameStatus {
    pub board: Board,
    /// The log of accepted actions of each player, oldest first.
    pub player_actions: [Vec<(Stamp, PlayerAction, Impact)>; 2],
    pub player_stati: [PlayerStatus; 2],
    /// Where each player stands now.
    pub player_locations: [Stamp; 2],
}

/// Writes every impact of `log` onto `board`.
fn apply_log(board: &mut Board, log: &Vec<(Stamp, PlayerAction, Impact)>)
    requires
        entries_in_bounds(log@),
    ensures
        final(board)@ == apply_history(old(board)@, log@),
{
    let ghost start = board@;
    let mut k: usize = 0;
    while k < log.len()
        invariant
            k <= log.len(),
            entries_in_bounds(log@),
            board@ == apply_history(start, log@.take(k as int)),
        decreases log.len() - k,
    {
        let (_source, _action, impact) = log[k];
        board.process_impact(impact);
        proof {
            assert(log@.take(k + 1).drop_last() =~= log@.take(k as int));
        }
        k += 1;
    }
    proof {
        assert(log@.take(k as int) =~= log@);
    }
}

/// One damage check: a hazard under the player hurts, the vitals are
/// recorded on the cell, and a tick passes if asked for.
fn check_damage(board: &mut Board, status: &mut PlayerStatus, stamp: Stamp, tick: bool)
    requires
        stamp.in_bounds(),
        tick ==> old(status).time < usize::MAX,
    ensures
        final(board)@ == record(
            old(board)@,
            stamp,
            old(status).checked(old(board)@[stamp].hazard),
        ),
        *final(status) == (if tick {
            old(status).checked(old(board)@[stamp].hazard).ticked()
        } else {
            old(status).checked(old(board)@[stamp].hazard)
        }),
{
    if let Ok(tile) = board.get(stamp) {
        if tile.is_hazard() {
            status.damage();
        }
    }
    board.set_status(stamp, Some(*status));
    if tick {
        status.tick();
    }
}

/// Walks `log` from the start, checking for damage on every source, and
/// gives the vitals with which the player arrives at the present.
fn walk_log(
    board: &mut Board,
    log: &Vec<(Stamp, PlayerAction, Impact)>,
    Ghost(hz): Ghost<Map<Stamp, TileView>>,
) -> (status: PlayerStatus)
    requires
        entries_in_bounds(log@),
        same_hazards(old(board)@, hz),
    ensures
        status == status_before(hz, log@, log@.len()),
        final(board)@ == record_history(old(board)@, hz, log@, log@.len()),
        same_hazards(final(board)@, hz),
{
    let ghost start = board@;
    let mut status = PlayerStatus::new();
    let mut k: usize = 0;
    while k < log.len()
        invariant
            k <= log.len(),
            entries_in_bounds(log@),
            same_hazards(board@, hz),
            status == status_before(hz, log@, k as nat),
            board@ == record_history(start, hz, log@, k as nat),
        decreases log.len() - k,
    {
        let (source, _action, _impact) = log[k];
        proof {
            lemma_status_time(hz, log@, k as nat);
        }
        check_damage(board, &mut status, source, true);
        k += 1;
    }
    status
}

/// A row of cells with nothing to draw.
fn blank_row() -> (r: [TileDisplayData; SIZE])
    ensures
        forall|x: int| 0 <= x < SIZE ==> (#[trigger] r[x])@ == CellView::blank(),
{
    [
        TileDisplayData::new(),
        TileDisplayData::new(),
        TileDisplayData::new(),
        TileDisplayData::new(),
        TileDisplayData::new(),
        TileDisplayData::new(),
        TileDisplayData::new(),
    ]
}

/// A slice of cells with nothing to draw.
fn blank_slice() -> (r: [[TileDisplayData; SIZE]; SIZE])
    ensures
        forall|x: int, y: int|
            0 <= x < SIZE && 0 <= y < SIZE ==> (#[trigger] r[y][x])@ == CellView::blank(),
{
    [
        blank_row(),
        blank_row(),
        blank_row(),
        blank_row(),
        blank_row(),
        blank_row(),
        blank_row(),
    ]
}

/// Draws one player's log over `data`: every source shows the player as
/// gone and the action taken, every destination and every attacked cell gets
/// its arrival.
fn trace_log(
    data: &mut DisplayData,
    board: &Board,
    log: &Vec<(Stamp, PlayerAction, Impact)>,
    player_id: u8,
)
    requires
        entries_in_bounds(log@),
        distinct_sources(log@),
        forall|k: int|
            0 <= k < log@.len() ==> {
                &&& board@[(#[trigger] log@[k]).0].status is Some
                &&& cell_at(*old(data), log@[k].0).player is None
                &&& cell_at(*old(data), log@[k].0).outgoing is None
            },
    ensures
        forall|at: Stamp|
            at.in_bounds() ==> #[trigger] cell_at(*final(data), at) == trace(
                cell_at(*old(data), at),
                board@,
                log@,
                player_id,
                at,
            ),
{
    let ghost start = *data;
    let mut k: usize = 0;
    proof {
        assert forall|at: Stamp| at.in_bounds() implies #[trigger] cell_at(*data, at) == trace(
            cell_at(start, at),
            board@,
            log@.take(0),
            player_id,
            at,
        ) by {
            assert(cell_at(start, at).incoming + incoming_of(log@.take(0), at) =~= cell_at(
                start,
                at,
            ).incoming);
        }
    }
    while k < log.len()
        invariant
            k <= log.len(),
            entries_in_bounds(log@),
            distinct_sources(log@),
            forall|j: int|
                0 <= j < log@.len() ==> {
                    &&& board@[(#[trigger] log@[j]).0].status is Some
                    &&& cell_at(start, log@[j].0).player is None
                    &&& cell_at(start, log@[j].0).outgoing is None
                },
            forall|at: Stamp|
                at.in_bounds() ==> #[trigger] cell_at(*data, at) == trace(
                    cell_at(start, at),
                    board@,
                    log@.take(k as int),
                    player_id,
                    at,
                ),
        decreases log.len() - k,
    {
        let ghost before = *data;
        let ghost done = log@.take(k as int);
        let ghost next = log@.take(k + 1);
        let (source, action, impact) = log[k];
        proof {
            assert(log@[k as int] == (source, action, impact));
            assert(next.drop_last() =~= done);
            assert(next.last() == log@[k as int]);
            lemma_outgoing_of(done, source);
            assert forall|j: int| 0 <= j < done.len() implies (#[trigger] done[j]).0 != source by {
                assert(done[j] == log@[j]);
            }
            assert(cell_at(before, source) == trace(
                cell_at(start, source),
                board@,
                done,
                player_id,
                source,
            ));
        }
        let status = board.get(source).unwrap().status().unwrap();
        let current_tile = &mut data[source.t][source.y][source.x];
        current_tile.set_player(player_id, false, status).unwrap();
        current_tile.set_outgoing(action).unwrap();

        let (target, mover) = impact.player;
        let moved_tile = &mut data[target.t][target.y][target.x];
        moved_tile.add_incoming_move(mover, action);

        if let Some(attack) = impact.attack {
            let attacked_tile = &mut data[attack.t][attack.y][attack.x];
            attacked_tile.add_incoming_attack(mover, action);
        }
        proof {
            assert forall|at: Stamp| at.in_bounds() implies #[trigger] cell_at(*data, at) == trace(
                cell_at(start, at),
                board@,
                next,
                player_id,
                at,
            ) by {
                let was = cell_at(before, at);
                let base = cell_at(start, at);
                assert(was == trace(base, board@, done, player_id, at));
                lemma_attacked_push(done, log@[k as int], at);
                assert(done.push(log@[k as int]) =~= next);
                let now = cell_at(*data, at);
                let want = trace(base, board@, next, player_id, at);
                assert(now.incoming =~= want.incoming);
            }
        }
        k += 1;
    }
    proof {
        assert(log@.take(k as int) =~= log@);
    }
}

impl GameStatus {
    /// Whether every stamp the state holds names a cell of the board.
    pub open spec fn wf(&self) -> bool {
        &&& entries_in_bounds(self.player_actions[0]@)
        &&& entries_in_bounds(self.player_actions[1]@)
        &&& self.player_locations[0].in_bounds()
        &&& self.player_locations[1].in_bounds()
    }

    /// Whether the board bears out the logs, as it does in every state that
    /// a match can reach.
    pub open spec fn consistent(&self) -> bool {
        consistent(
            self.board@,
            self.player_actions[0]@,
            self.player_actions[1]@,
            self.player_locations[0],
            self.player_locations[1],
        )
    }

    /// Whether this is the state in which every match starts: both players
    /// on their spawns, nothing logged, full vitals.
    pub open spec fn is_fresh(&self) -> bool {
        &&& self.board@ == Board::fresh()
        &&& self.player_actions[0]@ == Seq::<Entry>::empty()
        &&& self.player_actions[1]@ == Seq::<Entry>::empty()
        &&& self.player_stati[0] == PlayerStatus::fresh()
        &&& self.player_stati[1] == PlayerStatus::fresh()
        &&& self.player_locations[0] == Board::spawn(0)
        &&& self.player_locations[1] == Board::spawn(1)
    }

    /// Whether `after` and `r` are what resolving one tick from this state
    /// gives. A rejected turn reports the reason and leaves the state as it
    /// is. An accepted turn logs each action with its source and impact,
    /// moves both players, replays both logs and reports the outcome.
    pub open spec fn resolves_to(
        &self,
        action0: PlayerAction,
        action1: PlayerAction,
        after: GameStatus,
        r: Result<Option<GameResult>, Error>,
    ) -> bool {
        match turn(
            self.board@,
            self.player_locations[0],
            self.player_locations[1],
            action0,
            action1,
        ) {
            Err(reason) => {
                &&& r matches Err(Error::InvalidMove(text))
                &&& text@ == reason
                &&& after == *self
            },
            Ok((impact0, impact1)) => {
                let h0 = self.player_actions[0]@.push((self.player_locations[0], action0, impact0));
                let h1 = self.player_actions[1]@.push((self.player_locations[1], action1, impact1));
                let hz = settled(self.board@, h0, h1);
                &&& after.player_actions[0]@ == h0
                &&& after.player_actions[1]@ == h1
                &&& after.player_locations[0] == impact0.player.0
                &&& after.player_locations[1] == impact1.player.0
                &&& after.board@ == replayed_board(
                    self.board@,
                    h0,
                    h1,
                    impact0.player.0,
                    impact1.player.0,
                )
                &&& after.player_stati[0] == final_status(hz, h0, impact0.player.0)
                &&& after.player_stati[1] == final_status(hz, h1, impact1.player.0)
                &&& r == Ok::<Option<GameResult>, Error>(
                    outcome(after.player_stati[0].health, after.player_stati[1].health),
                )
            },
        }
    }

    /// What a front end draws at `at`.
    pub open spec fn cell(&self, at: Stamp) -> CellView {
        projected_cell(
            self.board@,
            self.player_actions[0]@,
            self.player_actions[1]@,
            self.player_locations[0],
            self.player_locations[1],
            self.player_stati[0],
            self.player_stati[1],
            at,
        )
    }

    pub fn initial() -> (r: Self)
        ensures
            r.is_fresh(),
            r.wf(),
            r.consistent(),
    {
        Self {
            board: Board::initial(),
            player_actions: [Vec::new(), Vec::new()],
            player_stati: [PlayerStatus::new(); 2],
            player_locations: Board::spawns(),
        }
    }

    /// Resolves one tick. Both actions are judged against the board as it
    /// stands. If either is turned down, or both end on the same cell, the
    /// turn is rejected and nothing changes. Otherwise both are logged, both
    /// players move, and the logs are replayed.
    pub fn push_actions(&mut self, actions: [PlayerAction; 2]) -> (r: Result<
        Option<GameResult>,
        Error,
    >)
        requires
            old(self).wf(),
        ensures
            final(self).wf(),
            old(self).consistent() ==> final(self).consistent(),
            old(self).resolves_to(actions[0], actions[1], *final(self), r),
    {
        let first = self.board.calculate_action(0, actions[0], self.player_locations[0]);
        let (source0, impact0) = match first {
            Ok(accepted) => accepted,
            Err(e) => {
                return Err(e);
            },
        };
        let second = self.board.calculate_action(1, actions[1], self.player_locations[1]);
        let (source1, impact1) = match second {
            Ok(accepted) => accepted,
            Err(e) => {
                return Err(e);
            },
        };
        if impact0.player.0 == impact1.player.0 {
            // both would fill the same tile
            return Err(Error::InvalidMove("collision"));
        }
        proof {
            if self.consistent() {
                lemma_turn_consistent(
                    self.board@,
                    self.player_actions[0]@,
                    self.player_actions[1]@,
                    source0,
                    source1,
                    actions[0],
                    actions[1],
                    impact0,
                    impact1,
                );
            }
        }
        self.player_actions[0].push((source0, actions[0], impact0));
        self.player_locations[0] = impact0.player.0;
        self.player_actions[1].push((source1, actions[1], impact1));
        self.player_locations[1] = impact1.player.0;
        self.evaluate_actions()
    }

    /// Replays both logs: writes every logged impact onto the board, resets
    /// the vitals, walks each log in order with a damage check and a tick per
    /// entry, and ends with a damage check without a tick where each player
    /// stands. The outcome follows from the two final health values.
    pub fn evaluate_actions(&mut self) -> (r: Result<Option<GameResult>, Error>)
        requires
            old(self).wf(),
        ensures
            final(self).wf(),
            old(self).consistent() ==> final(self).consistent(),
            final(self).player_actions == old(self).player_actions,
            final(self).player_locations == old(self).player_locations,
            final(self).board@ == replayed_board(
                old(self).board@,
                old(self).player_actions[0]@,
                old(self).player_actions[1]@,
                old(self).player_locations[0],
                old(self).player_locations[1],
            ),
            final(self).player_stati[0] == final_status(
                settled(
                    old(self).board@,
                    old(self).player_actions[0]@,
                    old(self).player_actions[1]@,
                ),
                old(self).player_actions[0]@,
                old(self).player_locations[0],
            ),
            final(self).player_stati[1] == final_status(
                settled(
                    old(self).board@,
                    old(self).player_actions[0]@,
                    old(self).player_actions[1]@,
                ),
                old(self).player_actions[1]@,
                old(self).player_locations[1],
            ),
            r == Ok::<Option<GameResult>, Error>(
                outcome(final(self).player_stati[0].health, final(self).player_stati[1].health),
            ),
    {
        proof {
            if self.consistent() {
                lemma_replay_consistent(
                    self.board@,
                    self.player_actions[0]@,
                    self.player_actions[1]@,
                    self.player_locations[0],
                    self.player_locations[1],
                );
            }
        }
        // Follow each timeline to find effects on each tile
        apply_log(&mut self.board, &self.player_actions[0]);
        apply_log(&mut self.board, &self.player_actions[1]);
        let ghost hz = self.board@;

        // Follow each timeline again to process effects on each player
        let mut status0 = walk_log(&mut self.board, &self.player_actions[0], Ghost(hz));
        let mut status1 = walk_log(&mut self.board, &self.player_actions[1], Ghost(hz));
        check_damage(&mut self.board, &mut status0, self.player_locations[0], false);
        check_damage(&mut self.board, &mut status1, self.player_locations[1], false);
        self.player_stati = [status0, status1];

        let result = if status0.health == 0 && status1.health == 0 {
            Some(GameResult::Draw)
        } else if status0.health == 0 {
            Some(GameResult::Win(1))
        } else if status1.health == 0 {
            Some(GameResult::Win(0))
        } else {
            None
        };
        Ok(result)
    }

    /// Projects the state onto drawable cells. Every cell a player left shows
    /// that player as gone with the vitals recorded there and the action
    /// taken; every destination and attacked cell lists what arrived; the
    /// two live locations show their players as present with their current
    /// vitals. No cell gets a second occupant or a second outgoing action.
    pub fn display(&self) -> (data: DisplayData)
        requires
            self.consistent(),
        ensures
            forall|at: Stamp| at.in_bounds() ==> #[trigger] cell_at(data, at) == self.cell(at),
    {
        let mut data: DisplayData = [
            blank_slice(),
            blank_slice(),
            blank_slice(),
            blank_slice(),
            blank_slice(),
        ];
        let ghost b = self.board@;
        let ghost h0 = self.player_actions[0]@;
        let ghost h1 = self.player_actions[1]@;
        proof {
            assert forall|at: Stamp| at.in_bounds() implies #[trigger] cell_at(data, at)
                == CellView::blank() by {
                assert(data[at.t as int][at.y as int][at.x as int]@ == CellView::blank());
            }
        }
        trace_log(&mut data, &self.board, &self.player_actions[0], 0);
        let ghost traced0 = data;
        proof {
            assert forall|k: int| 0 <= k < h1.len() implies {
                &&& cell_at(data, (#[trigger] h1[k]).0).player is None
                &&& cell_at(data, h1[k].0).outgoing is None
            } by {
                lemma_outgoing_of(h0, h1[k].0);
            }
        }
        trace_log(&mut data, &self.board, &self.player_actions[1], 1);
        let ghost traced1 = data;
        let loc0 = self.player_locations[0];
        let loc1 = self.player_locations[1];
        proof {
            lemma_outgoing_of(h0, loc0);
            lemma_outgoing_of(h1, loc0);
            lemma_outgoing_of(h0, loc1);
            lemma_outgoing_of(h1, loc1);
            assert(cell_at(traced0, loc0) == trace(CellView::blank(), b, h0, 0, loc0));
            assert(cell_at(traced0, loc1) == trace(CellView::blank(), b, h0, 0, loc1));
            assert(cell_at(data, loc0).player is None);
            assert(cell_at(data, loc1).player is None);
        }
        data[loc0.t][loc0.y][loc0.x].set_player(0, true, self.player_stati[0]).unwrap();
        data[loc1.t][loc1.y][loc1.x].set_player(1, true, self.player_stati[1]).unwrap();
        proof {
            assert forall|at: Stamp| at.in_bounds() implies #[trigger] cell_at(data, at)
                == self.cell(at) by {
                assert(cell_at(traced0, at) == trace(CellView::blank(), b, h0, 0, at));
                assert(cell_at(traced1, at) == trace(cell_at(traced0, at), b, h1, 1, at));
            }
        }
        data
    }
}

/// Whose turn it is, for front ends that show one.
pub enum TurnStatus {
    Active(u8),
}

/// A player's vitals. They are rebuilt from the action log on every accepted
/// turn and never patched in place.
#[derive(Debug, Copy, Clone, PartialEq, Eq, Structural)]
pub struct PlayerStatus {
    /// Remaining hit points; a player at zero is defeated.
    pub health: u8,
    /// Ticks during which no further damage is taken.
    pub iframes: u8,
    /// Ticks lived through so far.
    pub time: usize,
}

impl PlayerStatus {
    /// The vitals every player starts a replay with.
    pub open spec fn fresh() -> PlayerStatus {
        PlayerStatus { health: 3, iframes: 0, time: 0 }
    }

    /// The vitals after standing on a hazard: a vulnerable player loses one
    /// hit point, as long as any is left, and becomes invulnerable for three
    /// ticks; an invulnerable player is unaffected.
    pub open spec fn damaged(self) -> PlayerStatus {
        if self.iframes == 0 {
            PlayerStatus {
                health: if self.health > 0 { (self.health - 1) as u8 } else { 0 },
                iframes: 3,
                time: self.time,
            }
        } else {
            self
        }
    }

    /// The vitals one tick later.
    pub open spec fn ticked(self) -> PlayerStatus {
        PlayerStatus {
            health: self.health,
            iframes: if self.iframes > 0 { (self.iframes - 1) as u8 } else { 0 },
            time: (self.time + 1) as usize,
        }
    }

    /// The vitals after a damage check on a cell whose hazard flag is `hazard`.
    pub open spec fn checked(self, hazard: bool) -> PlayerStatus {
        if hazard {
            self.damaged()
        } else {
            self
        }
    }

    pub fn new() -> (r: Self)
        ensures
            r == Self::fresh(),
    {
        Self { health: 3, iframes: 0, time: 0 }
    }

    pub fn is_vulnerable(&self) -> (r: bool)
        ensures
            r == (self.iframes == 0),
    {
        self.iframes == 0
    }

    pub fn is_defeated(&self) -> (r: bool)
        ensures
            r == (self.health == 0),
    {
        self.health == 0
    }

    /// Applies one damage event. Health never drops below zero.
    pub fn damage(&mut self)
        ensures
            *final(self) == old(self).damaged(),
    {
        if self.is_vulnerable() {
            if self.health > 0 {
                self.health -= 1;
            }
            self.iframes = 3;
        }
    }

    /// Lets one tick pass.
    pub fn tick(&mut self)
        requires
            old(self).time < usize::MAX,
        ensures
            *final(self) == old(self).ticked(),
    {
        if self.iframes > 0 {
            self.iframes -= 1
        }
        self.time += 1
    }
}

/// The terminal outcome of a match.
#[derive(Debug, Copy, Clone, PartialEq, Eq, Structural)]
pub enum GameResult {
    Win(u8),
    Draw,
}

/// The outcome that two final health values stand for: both at zero is a
/// draw, exactly one at zero is a win for the other player, and otherwise the
/// match goes on.
pub open spec fn outcome(health0: u8, health1: u8) -> Option<GameResult> {
    if health0 == 0 && health1 == 0 {
        Some(GameResult::Draw)
    } else if health0 == 0 {
        Some(GameResult::Win(1))
    } else if health1 == 0 {
        Some(GameResult::Win(0))
    } else {
        None
    }
}

} // verus!
