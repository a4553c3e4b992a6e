//! What a replay of the action logs yields, stated over plain values.
//!
//! A replay first writes every logged impact onto the board, which settles
//! occupants and hazards, and then walks each player's log from the start to
//! derive vitals from the hazards on the cells the player left behind.

use vstd::prelude::*;

use crate::board::{apply_impact, resolve, Impact, Stamp, TileView};
use crate::game::PlayerStatus;
use crate::player::PlayerAction;

verus! {

/// One line of a player's log: where the player stood, what was submitted and
/// what it did.
pub type Entry = (Stamp, PlayerAction, Impact);

/// Whether every stamp in the log names a cell of the board.
pub open spec fn entries_in_bounds(h: Seq<Entry>) -> bool {
    forall|k: int| 0 <= k < h.len() ==> (#[trigger] h[k]).0.in_bounds() && h[k].2.in_bounds()
}

/// The board after every impact of `h`, in order.
pub open spec fn apply_history(b: Map<Stamp, TileView>, h: Seq<Entry>) -> Map<Stamp, TileView>
    decreases h.len(),
{
    if h.len() == 0 {
        b
    } else {
        apply_impact(apply_history(b, h.drop_last()), h.last().2)
    }
}

/// The board with the impacts of both logs written onto it.
pub open spec fn settled(b: Map<Stamp, TileView>, h0: Seq<Entry>, h1: Seq<Entry>) -> Map<
    Stamp,
    TileView,
> {
    apply_history(apply_history(b, h0), h1)
}

/// Whether some attack in `h` marked `at`.
pub open spec fn attacked(h: Seq<Entry>, at: Stamp) -> bool {
    exists|k: int| 0 <= k < h.len() && (#[trigger] h[k]).2.attack == Some(at)
}

/// Whether some action in `h` put its player on `at`.
pub open spec fn entered(h: Seq<Entry>, at: Stamp) -> bool {
    exists|k: int| 0 <= k < h.len() && (#[trigger] h[k]).2.player.0 == at
}

/// The vitals with which a player arrives at the source of entry `k`, before
/// the damage check there. Each earlier source costs a damage check and a tick.
pub open spec fn status_before(hz: Map<Stamp, TileView>, h: Seq<Entry>, k: nat) -> PlayerStatus
    decreases k, 0nat,
{
    if k == 0 {
        PlayerStatus::fresh()
    } else {
        status_at(hz, h, (k - 1) as nat).ticked()
    }
}

/// The vitals recorded on the source of entry `k`: those after the damage
/// check there and before the tick.
pub open spec fn status_at(hz: Map<Stamp, TileView>, h: Seq<Entry>, k: nat) -> PlayerStatus
    decreases k, 1nat,
{
    status_before(hz, h, k).checked(hz[h[k as int].0].hazard)
}

/// The vitals of a player who has walked all of `h` and now stands on `loc`.
/// Standing there costs a damage check but no tick.
pub open spec fn final_status(hz: Map<Stamp, TileView>, h: Seq<Entry>, loc: Stamp) -> PlayerStatus {
    status_before(hz, h, h.len()).checked(hz[loc].hazard)
}

/// The board with `status` recorded on `stamp`.
pub open spec fn record(b: Map<Stamp, TileView>, stamp: Stamp, status: PlayerStatus) -> Map<
    Stamp,
    TileView,
> {
    b.insert(stamp, TileView { status: Some(status), ..b[stamp] })
}

/// The board `b` after the vitals of the first `k` entries of `h` have been
/// recorded on their sources. The vitals follow from the hazards of `hz`.
pub open spec fn record_history(
    b: Map<Stamp, TileView>,
    hz: Map<Stamp, TileView>,
    h: Seq<Entry>,
    k: nat,
) -> Map<Stamp, TileView>
    decreases k,
{
    if k == 0 {
        b
    } else {
        record(
            record_history(b, hz, h, (k - 1) as nat),
            h[k - 1].0,
            status_at(hz, h, (k - 1) as nat),
        )
    }
}

/// The board after a full replay: impacts written, then vitals recorded along
/// the first log, along the second, and on both live locations.
pub open spec fn replayed_board(
    b: Map<Stamp, TileView>,
    h0: Seq<Entry>,
    h1: Seq<Entry>,
    loc0: Stamp,
    loc1: Stamp,
) -> Map<Stamp, TileView> {
    let hz = settled(b, h0, h1);
    let walked0 = record_history(hz, hz, h0, h0.len());
    let walked1 = record_history(walked0, hz, h1, h1.len());
    record(record(walked1, loc0, final_status(hz, h0, loc0)), loc1, final_status(hz, h1, loc1))
}

/// Whether two boards agree on which cells are hazards.
pub open spec fn same_hazards(a: Map<Stamp, TileView>, b: Map<Stamp, TileView>) -> bool {
    forall|s: Stamp| (#[trigger] a[s]).hazard == b[s].hazard
}

/// Writing impacts only ever sets flags: a cell is a hazard afterwards exactly
/// if it was one or an attack of the log marked it, it is occupied exactly if
/// it was or an action of the log entered it, and recorded vitals stay as
/// they were.
pub proof fn lemma_apply_history(b: Map<Stamp, TileView>, h: Seq<Entry>, at: Stamp)
    ensures
        apply_history(b, h)[at].hazard == (b[at].hazard || attacked(h, at)),
        (apply_history(b, h)[at].player is Some) == (b[at].player is Some || entered(h, at)),
        !entered(h, at) ==> apply_history(b, h)[at].player == b[at].player,
        apply_history(b, h)[at].status == b[at].status,
    decreases h.len(),
{
    if h.len() > 0 {
        let front = h.drop_last();
        lemma_apply_history(b, front, at);
        assert(front.push(h.last()) =~= h);
        lemma_attacked_push(front, h.last(), at);
        lemma_entered_push(front, h.last(), at);
    }
}

/// Recording vitals leaves occupants and hazards alone, and never erases a
/// record.
pub proof fn lemma_record_history(
    b: Map<Stamp, TileView>,
    hz: Map<Stamp, TileView>,
    h: Seq<Entry>,
    k: nat,
    at: Stamp,
)
    requires
        k <= h.len(),
    ensures
        record_history(b, hz, h, k)[at].hazard == b[at].hazard,
        record_history(b, hz, h, k)[at].player == b[at].player,
        b[at].status is Some ==> record_history(b, hz, h, k)[at].status is Some,
        (exists|j: int| 0 <= j < k && (#[trigger] h[j]).0 == at) ==> record_history(
            b,
            hz,
            h,
            k,
        )[at].status is Some,
        (forall|j: int| 0 <= j < k ==> (#[trigger] h[j]).0 != at) ==> record_history(
            b,
            hz,
            h,
            k,
        )[at].status == b[at].status,
    decreases k,
{
    if k > 0 {
        lemma_record_history(b, hz, h, (k - 1) as nat, at);
        if h[k - 1].0 != at && exists|j: int| 0 <= j < k && (#[trigger] h[j]).0 == at {
            let j = choose|j: int| 0 <= j < k && (#[trigger] h[j]).0 == at;
            assert(0 <= j < k - 1);
        }
    }
}

/// With distinct sources, the vitals found on the source of entry `j` after
/// recording are those of entry `j`.
pub proof fn lemma_record_history_at(
    b: Map<Stamp, TileView>,
    hz: Map<Stamp, TileView>,
    h: Seq<Entry>,
    k: nat,
    j: int,
)
    requires
        k <= h.len(),
        0 <= j < k,
        forall|i: int, l: int| 0 <= i < l < h.len() ==> (#[trigger] h[i]).0 != (#[trigger] h[l]).0,
    ensures
        record_history(b, hz, h, k)[h[j].0].status == Some(status_at(hz, h, j as nat)),
    decreases k,
{
    if j < k - 1 {
        lemma_record_history_at(b, hz, h, (k - 1) as nat, j);
        assert(h[j].0 != h[k - 1].0);
    }
}

/// Vitals depend on the board only through its hazards.
pub proof fn lemma_status_by_hazards(
    a: Map<Stamp, TileView>,
    b: Map<Stamp, TileView>,
    h: Seq<Entry>,
    k: nat,
)
    requires
        same_hazards(a, b),
    ensures
        status_before(a, h, k) == status_before(b, h, k),
        status_at(a, h, k) == status_at(b, h, k),
    decreases k,
{
    if k > 0 {
        lemma_status_by_hazards(a, b, h, (k - 1) as nat);
    }
}

/// Every tick of a walk advances the clock by one.
pub proof fn lemma_status_time(hz: Map<Stamp, TileView>, h: Seq<Entry>, k: nat)
    requires
        k <= usize::MAX,
    ensures
        status_before(hz, h, k).time == k,
        status_at(hz, h, k).time == k,
    decreases k,
{
    if k > 0 {
        lemma_status_time(hz, h, (k - 1) as nat);
    }
}

/// Whether no two entries of the log start from the same cell.
pub open spec fn distinct_sources(h: Seq<Entry>) -> bool {
    forall|i: int, j: int| 0 <= i < j < h.len() ==> (#[trigger] h[i]).0 != (#[trigger] h[j]).0
}

/// Whether some entry of the log starts from `at`.
pub open spec fn departed(h: Seq<Entry>, at: Stamp) -> bool {
    exists|k: int| 0 <= k < h.len() && (#[trigger] h[k]).0 == at
}

/// Whether a player stands on `at` now or has left from it.
pub open spec fn visited(h0: Seq<Entry>, h1: Seq<Entry>, loc0: Stamp, loc1: Stamp, at: Stamp)
    -> bool {
    departed(h0, at) || departed(h1, at) || at == loc0 || at == loc1
}

/// Whether every stamp of the logs and both live locations are on the board.
pub open spec fn all_in_bounds(h0: Seq<Entry>, h1: Seq<Entry>, loc0: Stamp, loc1: Stamp) -> bool {
    &&& entries_in_bounds(h0)
    &&& entries_in_bounds(h1)
    &&& loc0.in_bounds()
    &&& loc1.in_bounds()
}

/// Whether no cell was visited twice, by either player: the sources of both
/// logs and the two live locations are pairwise different.
pub open spec fn distinct_visits(h0: Seq<Entry>, h1: Seq<Entry>, loc0: Stamp, loc1: Stamp) -> bool {
    &&& distinct_sources(h0)
    &&& distinct_sources(h1)
    &&& forall|i: int, j: int|
        0 <= i < h0.len() && 0 <= j < h1.len() ==> (#[trigger] h0[i]).0 != (#[trigger] h1[j]).0
    &&& !departed(h0, loc0)
    &&& !departed(h0, loc1)
    &&& !departed(h1, loc0)
    &&& !departed(h1, loc1)
    &&& loc0 != loc1
}

/// Whether the board bears out the logs: everything is on the board, no cell
/// was visited twice, every visited cell is occupied, and every cell a player
/// left carries recorded vitals. This holds at the start of a match and after
/// every turn, accepted or not.
pub open spec fn consistent(
    b: Map<Stamp, TileView>,
    h0: Seq<Entry>,
    h1: Seq<Entry>,
    loc0: Stamp,
    loc1: Stamp,
) -> bool {
    &&& all_in_bounds(h0, h1, loc0, loc1)
    &&& distinct_visits(h0, h1, loc0, loc1)
    &&& forall|at: Stamp| #[trigger] visited(h0, h1, loc0, loc1, at) ==> b[at].player is Some
    &&& forall|k: int| 0 <= k < h0.len() ==> b[(#[trigger] h0[k]).0].status is Some
    &&& forall|k: int| 0 <= k < h1.len() ==> b[(#[trigger] h1[k]).0].status is Some
}

/// A replay changes neither occupants nor hazards after the impacts are
/// written, and leaves recorded vitals on every visited cell.
pub proof fn lemma_replayed_board(
    b: Map<Stamp, TileView>,
    h0: Seq<Entry>,
    h1: Seq<Entry>,
    loc0: Stamp,
    loc1: Stamp,
    at: Stamp,
)
    ensures
        replayed_board(b, h0, h1, loc0, loc1)[at].hazard == settled(b, h0, h1)[at].hazard,
        replayed_board(b, h0, h1, loc0, loc1)[at].player == settled(b, h0, h1)[at].player,
        visited(h0, h1, loc0, loc1, at) ==> replayed_board(b, h0, h1, loc0, loc1)[at].status
            is Some,
{
    let hz = settled(b, h0, h1);
    let walked0 = record_history(hz, hz, h0, h0.len());
    let walked1 = record_history(walked0, hz, h1, h1.len());
    lemma_record_history(hz, hz, h0, h0.len(), at);
    lemma_record_history(walked0, hz, h1, h1.len(), at);
}

/// What the impacts of both logs leave on a cell.
pub proof fn lemma_settled(b: Map<Stamp, TileView>, h0: Seq<Entry>, h1: Seq<Entry>, at: Stamp)
    ensures
        settled(b, h0, h1)[at].hazard == (b[at].hazard || attacked(h0, at) || attacked(h1, at)),
        (settled(b, h0, h1)[at].player is Some) == (b[at].player is Some || entered(h0, at)
            || entered(h1, at)),
        settled(b, h0, h1)[at].status == b[at].status,
{
    lemma_apply_history(b, h0, at);
    lemma_apply_history(apply_history(b, h0), h1, at);
}

/// A replay makes the board bear out the logs, provided that everything is on
/// the board, no cell was visited twice, and every visited cell is occupied
/// or entered by a logged action.
pub proof fn lemma_replay_consistent(
    b: Map<Stamp, TileView>,
    h0: Seq<Entry>,
    h1: Seq<Entry>,
    loc0: Stamp,
    loc1: Stamp,
)
    requires
        all_in_bounds(h0, h1, loc0, loc1),
        distinct_visits(h0, h1, loc0, loc1),
        forall|at: Stamp| #[trigger]
            visited(h0, h1, loc0, loc1, at) ==> b[at].player is Some || entered(h0, at) || entered(
                h1,
                at,
            ),
    ensures
        consistent(replayed_board(b, h0, h1, loc0, loc1), h0, h1, loc0, loc1),
{
    let after = replayed_board(b, h0, h1, loc0, loc1);
    assert forall|at: Stamp| #[trigger] visited(h0, h1, loc0, loc1, at) implies after[at].player
        is Some by {
        lemma_replayed_board(b, h0, h1, loc0, loc1, at);
        lemma_settled(b, h0, h1, at);
    }
    assert forall|k: int| 0 <= k < h0.len() implies after[(#[trigger] h0[k]).0].status is Some by {
        lemma_replayed_board(b, h0, h1, loc0, loc1, h0[k].0);
    }
    assert forall|k: int| 0 <= k < h1.len() implies after[(#[trigger] h1[k]).0].status is Some by {
        lemma_replayed_board(b, h0, h1, loc0, loc1, h1[k].0);
    }
}

/// An accepted turn keeps the board in line with the logs: once both
/// verdicts are in and the destinations differ, logging both actions, moving
/// both players and replaying gives a consistent state again.
pub proof fn lemma_turn_consistent(
    b: Map<Stamp, TileView>,
    h0: Seq<Entry>,
    h1: Seq<Entry>,
    loc0: Stamp,
    loc1: Stamp,
    action0: PlayerAction,
    action1: PlayerAction,
    impact0: Impact,
    impact1: Impact,
)
    requires
        consistent(b, h0, h1, loc0, loc1),
        resolve(b, 0, action0, loc0) == Ok::<Impact, Seq<char>>(impact0),
        resolve(b, 1, action1, loc1) == Ok::<Impact, Seq<char>>(impact1),
        impact0.player.0 != impact1.player.0,
    ensures
        consistent(
            replayed_board(
                b,
                h0.push((loc0, action0, impact0)),
                h1.push((loc1, action1, impact1)),
                impact0.player.0,
                impact1.player.0,
            ),
            h0.push((loc0, action0, impact0)),
            h1.push((loc1, action1, impact1)),
            impact0.player.0,
            impact1.player.0,
        ),
{
    let g0 = h0.push((loc0, action0, impact0));
    let g1 = h1.push((loc1, action1, impact1));
    let n0 = impact0.player.0;
    let n1 = impact1.player.0;
    assert(b[n0].player is None);
    assert(b[n1].player is None);
    assert(visited(h0, h1, loc0, loc1, loc0));
    assert(visited(h0, h1, loc0, loc1, loc1));
    assert forall|at: Stamp| departed(g0, at) == (departed(h0, at) || at == loc0) by {
        lemma_departed_push(h0, (loc0, action0, impact0), at);
    }
    assert forall|at: Stamp| departed(g1, at) == (departed(h1, at) || at == loc1) by {
        lemma_departed_push(h1, (loc1, action1, impact1), at);
    }
    assert(entered(g0, n0)) by {
        assert(g0[h0.len() as int].2.player.0 == n0);
    }
    assert(entered(g1, n1)) by {
        assert(g1[h1.len() as int].2.player.0 == n1);
    }
    assert(!visited(h0, h1, loc0, loc1, n0));
    assert(!visited(h0, h1, loc0, loc1, n1));
    assert(distinct_sources(g0)) by {
        assert forall|i: int, j: int| 0 <= i < j < g0.len() implies (#[trigger] g0[i]).0 != (
        #[trigger] g0[j]).0 by {
            assert(g0[i] == h0[i]);
            if j < h0.len() {
                assert(g0[j] == h0[j]);
            }
        }
    }
    assert(distinct_sources(g1)) by {
        assert forall|i: int, j: int| 0 <= i < j < g1.len() implies (#[trigger] g1[i]).0 != (
        #[trigger] g1[j]).0 by {
            assert(g1[i] == h1[i]);
            if j < h1.len() {
                assert(g1[j] == h1[j]);
            }
        }
    }
    assert forall|i: int, j: int| 0 <= i < g0.len() && 0 <= j < g1.len() implies (
    #[trigger] g0[i]).0 != (#[trigger] g1[j]).0 by {
        if i < h0.len() {
            assert(g0[i] == h0[i]);
        }
        if j < h1.len() {
            assert(g1[j] == h1[j]);
        }
    }
    assert(entries_in_bounds(g0)) by {
        assert forall|k: int| 0 <= k < g0.len() implies (#[trigger] g0[k]).0.in_bounds()
            && g0[k].2.in_bounds() by {
            if k < h0.len() {
                assert(g0[k] == h0[k]);
            }
        }
    }
    assert(entries_in_bounds(g1)) by {
        assert forall|k: int| 0 <= k < g1.len() implies (#[trigger] g1[k]).0.in_bounds()
            && g1[k].2.in_bounds() by {
            if k < h1.len() {
                assert(g1[k] == h1[k]);
            }
        }
    }
    assert forall|at: Stamp| #[trigger] visited(g0, g1, n0, n1, at) implies b[at].player is Some
        || entered(g0, at) || entered(g1, at) by {
        if at != n0 && at != n1 {
            assert(visited(h0, h1, loc0, loc1, at));
        }
    }
    lemma_replay_consistent(b, g0, g1, n0, n1);
}

/// A cell is a source of a log with one more entry exactly if it was a source
/// before or is the source of the new entry.
pub proof fn lemma_departed_push(h: Seq<Entry>, e: Entry, at: Stamp)
    ensures
        departed(h.push(e), at) == (departed(h, at) || e.0 == at),
{
    let g = h.push(e);
    if departed(h, at) {
        let k = choose|k: int| 0 <= k < h.len() && (#[trigger] h[k]).0 == at;
        assert(g[k] == h[k]);
    }
    if e.0 == at {
        assert(g[h.len() as int] == e);
    }
    if departed(g, at) {
        let k = choose|k: int| 0 <= k < g.len() && (#[trigger] g[k]).0 == at;
        if k < h.len() {
            assert(g[k] == h[k]);
        }
    }
}

/// A cell is marked by an attack of a log with one more entry exactly if
/// it was marked before or the new entry marks it.
pub proof fn lemma_attacked_push(h: Seq<Entry>, e: Entry, at: Stamp)
    ensures
        attacked(h.push(e), at) == (attacked(h, at) || e.2.attack == Some(at)),
{
    let g = h.push(e);
    if attacked(h, at) {
        let k = choose|k: int| 0 <= k < h.len() && (#[trigger] h[k]).2.attack == Some(at);
        assert(g[k] == h[k]);
    }
    if e.2.attack == Some(at) {
        assert(g[h.len() as int] == e);
    }
    if attacked(g, at) {
        let k = choose|k: int| 0 <= k < g.len() && (#[trigger] g[k]).2.attack == Some(at);
        if k < h.len() {
            assert(g[k] == h[k]);
        }
    }
}

/// A cell is entered by an action of a log with one more entry exactly if
/// it was entered before or the new entry ends on it.
pub proof fn lemma_entered_push(h: Seq<Entry>, e: Entry, at: Stamp)
    ensures
        entered(h.push(e), at) == (entered(h, at) || e.2.player.0 == at),
{
    let g = h.push(e);
    if entered(h, at) {
        let k = choose|k: int| 0 <= k < h.len() && (#[trigger] h[k]).2.player.0 == at;
        assert(g[k] == h[k]);
    }
    if e.2.player.0 == at {
        assert(g[h.len() as int] == e);
    }
    if entered(g, at) {
        let k = choose|k: int| 0 <= k < g.len() && (#[trigger] g[k]).2.player.0 == at;
        if k < h.len() {
            assert(g[k] == h[k]);
        }
    }
}

} // verus!
