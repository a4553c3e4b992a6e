//! What holds of every match, proved from the contracts of the engine.

use vstd::prelude::*;

use crate::board::{apply_impact, resolve, Error, Impact, Stamp, TileView};
use crate::game::{GameResult, GameStatus, PlayerStatus};
use crate::player::PlayerAction;
use crate::display::{incoming_of, lemma_outgoing_at, lemma_outgoing_of, projected_cell};
use crate::replay::{
    attacked, distinct_visits, final_status, lemma_record_history, lemma_record_history_at,
    lemma_replayed_board, lemma_settled, lemma_status_by_hazards, record_history, replayed_board,
    same_hazards, settled, status_at, status_before, visited, Entry,
};

verus! {

/// Whether `action`, taken from `source`, is a move onto a cell of the board
/// on which a player has stood.
pub open spec fn moves_onto_occupied(b: Map<Stamp, TileView>, action: PlayerAction, source: Stamp)
    -> bool {
    &&& action.action_type is Move
    &&& source.target(action.direction) matches Some(target)
    &&& b[target].player is Some
}

/// Rejection is atomic: a tick in which either player moves onto an occupied
/// cell is turned down, and board, logs, locations and vitals stay exactly as
/// they were.
pub proof fn law_occupied_move_changes_nothing(
    before: GameStatus,
    action0: PlayerAction,
    action1: PlayerAction,
    after: GameStatus,
    r: Result<Option<GameResult>, Error>,
)
    requires
        before.resolves_to(action0, action1, after, r),
        moves_onto_occupied(before.board@, action0, before.player_locations[0])
            || moves_onto_occupied(before.board@, action1, before.player_locations[1]),
    ensures
        r is Err,
        after == before,
        after.board@ == before.board@,
        after.player_actions == before.player_actions,
        after.player_locations == before.player_locations,
{
}

/// Every rejected tick, whatever the reason, leaves the state untouched.
pub proof fn law_rejection_changes_nothing(
    before: GameStatus,
    action0: PlayerAction,
    action1: PlayerAction,
    after: GameStatus,
    r: Result<Option<GameResult>, Error>,
)
    requires
        before.resolves_to(action0, action1, after, r),
        r is Err,
    ensures
        after == before,
{
}

/// Replaying is idempotent and deterministic: a second replay of the same
/// logs finds the same hazards on every cell and gives both players the same
/// vitals as the first.
pub proof fn law_replay_idempotent(
    b: Map<Stamp, TileView>,
    h0: Seq<Entry>,
    h1: Seq<Entry>,
    loc0: Stamp,
    loc1: Stamp,
)
    ensures
        ({
            let once = replayed_board(b, h0, h1, loc0, loc1);
            let twice = replayed_board(once, h0, h1, loc0, loc1);
            &&& same_hazards(twice, once)
            &&& final_status(settled(once, h0, h1), h0, loc0) == final_status(
                settled(b, h0, h1),
                h0,
                loc0,
            )
            &&& final_status(settled(once, h0, h1), h1, loc1) == final_status(
                settled(b, h0, h1),
                h1,
                loc1,
            )
        }),
{
    let once = replayed_board(b, h0, h1, loc0, loc1);
    let twice = replayed_board(once, h0, h1, loc0, loc1);
    let first = settled(b, h0, h1);
    let second = settled(once, h0, h1);
    assert forall|at: Stamp| (#[trigger] second[at]).hazard == first[at].hazard by {
        lemma_settled(b, h0, h1, at);
        lemma_settled(once, h0, h1, at);
        lemma_replayed_board(b, h0, h1, loc0, loc1, at);
    }
    assert forall|at: Stamp| (#[trigger] twice[at]).hazard == once[at].hazard by {
        lemma_replayed_board(b, h0, h1, loc0, loc1, at);
        lemma_replayed_board(once, h0, h1, loc0, loc1, at);
        assert(second[at].hazard == first[at].hazard);
    }
    lemma_status_by_hazards(second, first, h0, h0.len());
    lemma_status_by_hazards(second, first, h1, h1.len());
    assert(second[loc0].hazard == first[loc0].hazard);
    assert(second[loc1].hazard == first[loc1].hazard);
}

/// Hazards are sticky: a replay never clears one.
pub proof fn law_hazards_stay(
    b: Map<Stamp, TileView>,
    h0: Seq<Entry>,
    h1: Seq<Entry>,
    loc0: Stamp,
    loc1: Stamp,
    at: Stamp,
)
    requires
        b[at].hazard,
    ensures
        replayed_board(b, h0, h1, loc0, loc1)[at].hazard,
{
    lemma_settled(b, h0, h1, at);
    lemma_replayed_board(b, h0, h1, loc0, loc1, at);
}

/// Writing an impact never clears a hazard, never frees a cell and never
/// touches recorded vitals.
pub proof fn law_impact_only_sets(b: Map<Stamp, TileView>, impact: Impact, at: Stamp)
    ensures
        b[at].hazard ==> apply_impact(b, impact)[at].hazard,
        b[at].player is Some ==> apply_impact(b, impact)[at].player is Some,
        apply_impact(b, impact)[at].status == b[at].status,
{
}

/// Writing an impact is idempotent: the second time changes nothing.
pub proof fn law_impact_idempotent(b: Map<Stamp, TileView>, impact: Impact)
    ensures
        apply_impact(apply_impact(b, impact), impact) == apply_impact(b, impact),
{
    assert(apply_impact(apply_impact(b, impact), impact) =~= apply_impact(b, impact));
}

/// A damage event costs a vulnerable player exactly one hit point and makes
/// the player invulnerable for exactly three ticks; an invulnerable player is
/// left as is; health never rises and never drops below zero. A tick lowers
/// invulnerability by at most one and leaves health alone.
///
/// The hit point is only taken where one is left: a vulnerable player at zero
/// health stays at zero.
pub proof fn law_damage_and_tick(s: PlayerStatus)
    ensures
        s.iframes == 0 && s.health > 0 ==> s.damaged().health == s.health - 1,
        s.iframes == 0 ==> s.damaged().iframes == 3,
        s.iframes != 0 ==> s.damaged() == s,
        0 <= s.damaged().health <= s.health,
        s.damaged().time == s.time,
        s.ticked().health == s.health,
        s.iframes - 1 <= s.ticked().iframes <= s.iframes,
        s.iframes > 0 ==> s.ticked().iframes == s.iframes - 1,
{
}

/// Along a replay health only ever goes down, from three, by at most one per
/// entry, and a player hurt at one entry is safe at the next two.
pub proof fn law_replay_health(hz: Map<Stamp, TileView>, h: Seq<Entry>, k: nat)
    ensures
        status_before(hz, h, k).health <= 3,
        status_before(hz, h, k).iframes <= 2,
        status_at(hz, h, k).health <= status_before(hz, h, k).health,
        status_before(hz, h, k).health - 1 <= status_at(hz, h, k).health,
        status_before(hz, h, k + 1).health == status_at(hz, h, k).health,
        status_at(hz, h, k).health < status_before(hz, h, k).health ==> {
            &&& status_at(hz, h, k + 1).health == status_at(hz, h, k).health
            &&& status_at(hz, h, k + 2).health == status_at(hz, h, k).health
        },
    decreases k,
{
    if k > 0 {
        law_replay_health(hz, h, (k - 1) as nat);
    }
    assert(status_before(hz, h, k + 1) == status_at(hz, h, k).ticked());
    assert(status_before(hz, h, k + 2) == status_at(hz, h, k + 1).ticked());
}

/// Two players never end a tick on the same cell: if both actions pass on
/// their own and their destinations coincide, the tick is rejected as a
/// collision and nobody moves.
pub proof fn law_collision_rejected(
    before: GameStatus,
    action0: PlayerAction,
    action1: PlayerAction,
    impact0: Impact,
    impact1: Impact,
    after: GameStatus,
    r: Result<Option<GameResult>, Error>,
)
    requires
        before.resolves_to(action0, action1, after, r),
        resolve(before.board@, 0, action0, before.player_locations[0]) == Ok::<
            Impact,
            Seq<char>,
        >(impact0),
        resolve(before.board@, 1, action1, before.player_locations[1]) == Ok::<
            Impact,
            Seq<char>,
        >(impact1),
        impact0.player.0 == impact1.player.0,
    ensures
        r matches Err(Error::InvalidMove(text)) && text@ == "collision"@,
        after.player_locations == before.player_locations,
        after == before,
{
}

/// After an accepted tick the two players stand on different cells, each on
/// the destination of its own action.
pub proof fn law_accepted_turn_moves_both(
    before: GameStatus,
    action0: PlayerAction,
    action1: PlayerAction,
    after: GameStatus,
    r: Result<Option<GameResult>, Error>,
)
    requires
        before.resolves_to(action0, action1, after, r),
        r is Ok,
    ensures
        after.player_locations[0] != after.player_locations[1],
        resolve(before.board@, 0, action0, before.player_locations[0]) matches Ok(impact)
            && after.player_locations[0] == impact.player.0,
        resolve(before.board@, 1, action1, before.player_locations[1]) matches Ok(impact)
            && after.player_locations[1] == impact.player.0,
        after.player_actions[0]@.len() == before.player_actions[0]@.len() + 1,
        after.player_actions[1]@.len() == before.player_actions[1]@.len() + 1,
{
}

/// Where no cell was visited twice, a replay leaves on every source the
/// vitals the player had there after the damage check, on every live
/// location the player's final vitals, and on every other cell what was
/// recorded before.
pub proof fn law_replay_records(
    b: Map<Stamp, TileView>,
    h0: Seq<Entry>,
    h1: Seq<Entry>,
    loc0: Stamp,
    loc1: Stamp,
)
    requires
        distinct_visits(h0, h1, loc0, loc1),
    ensures
        ({
            let after = replayed_board(b, h0, h1, loc0, loc1);
            let hz = settled(b, h0, h1);
            &&& forall|k: int|
                0 <= k < h0.len() ==> after[(#[trigger] h0[k]).0].status == Some(
                    status_at(hz, h0, k as nat),
                )
            &&& forall|k: int|
                0 <= k < h1.len() ==> after[(#[trigger] h1[k]).0].status == Some(
                    status_at(hz, h1, k as nat),
                )
            &&& after[loc0].status == Some(final_status(hz, h0, loc0))
            &&& after[loc1].status == Some(final_status(hz, h1, loc1))
            &&& forall|at: Stamp|
                !visited(h0, h1, loc0, loc1, at) ==> (#[trigger] after[at]).status == b[at].status
        }),
{
    let after = replayed_board(b, h0, h1, loc0, loc1);
    let hz = settled(b, h0, h1);
    let walked0 = record_history(hz, hz, h0, h0.len());
    let walked1 = record_history(walked0, hz, h1, h1.len());
    assert forall|k: int| 0 <= k < h0.len() implies after[(#[trigger] h0[k]).0].status == Some(
        status_at(hz, h0, k as nat),
    ) by {
        lemma_record_history_at(hz, hz, h0, h0.len(), k);
        lemma_record_history(walked0, hz, h1, h1.len(), h0[k].0);
    }
    assert forall|k: int| 0 <= k < h1.len() implies after[(#[trigger] h1[k]).0].status == Some(
        status_at(hz, h1, k as nat),
    ) by {
        lemma_record_history_at(walked0, hz, h1, h1.len(), k);
    }
    assert forall|at: Stamp| !visited(h0, h1, loc0, loc1, at) implies (#[trigger] after[at]).status
        == b[at].status by {
        lemma_record_history(hz, hz, h0, h0.len(), at);
        lemma_record_history(walked0, hz, h1, h1.len(), at);
        lemma_settled(b, h0, h1, at);
    }
}

/// What the projection shows, where no cell was visited twice. A live
/// location shows its player as present with the current vitals and no
/// action taken. A source shows its player as gone, with the vitals the
/// board recorded there, and the action logged with it. Any other cell shows
/// nobody and no action. A cell is drawn as attacked exactly if a logged
/// attack marked it, and its arrivals are those of player 0 followed by those
/// of player 1.
pub proof fn law_projection(
    b: Map<Stamp, TileView>,
    h0: Seq<Entry>,
    h1: Seq<Entry>,
    loc0: Stamp,
    loc1: Stamp,
    status0: PlayerStatus,
    status1: PlayerStatus,
    at: Stamp,
)
    requires
        distinct_visits(h0, h1, loc0, loc1),
    ensures
        ({
            let c = projected_cell(b, h0, h1, loc0, loc1, status0, status1, at);
            &&& at == loc0 ==> c.player == Some((0u8, true, status0)) && c.outgoing is None
            &&& at == loc1 ==> c.player == Some((1u8, true, status1)) && c.outgoing is None
            &&& forall|k: int|
                0 <= k < h0.len() && (#[trigger] h0[k]).0 == at ==> c.player == Some(
                    (0u8, false, b[at].status->0),
                ) && c.outgoing == Some(h0[k].1)
            &&& forall|k: int|
                0 <= k < h1.len() && (#[trigger] h1[k]).0 == at ==> c.player == Some(
                    (1u8, false, b[at].status->0),
                ) && c.outgoing == Some(h1[k].1)
            &&& !visited(h0, h1, loc0, loc1, at) ==> c.player is None && c.outgoing is None
            &&& c.hazard == (attacked(h0, at) || attacked(h1, at))
            &&& c.incoming == incoming_of(h0, at) + incoming_of(h1, at)
        }),
{
    let c = projected_cell(b, h0, h1, loc0, loc1, status0, status1, at);
    lemma_outgoing_of(h0, at);
    lemma_outgoing_of(h1, at);
    assert forall|k: int| 0 <= k < h0.len() && (#[trigger] h0[k]).0 == at implies c.player == Some(
        (0u8, false, b[at].status->0),
    ) && c.outgoing == Some(h0[k].1) by {
        lemma_outgoing_at(h0, k);
    }
    assert forall|k: int| 0 <= k < h1.len() && (#[trigger] h1[k]).0 == at implies c.player == Some(
        (1u8, false, b[at].status->0),
    ) && c.outgoing == Some(h1[k].1) by {
        lemma_outgoing_at(h1, k);
    }
    assert(c.incoming =~= incoming_of(h0, at) + incoming_of(h1, at));
}

} // verus!
