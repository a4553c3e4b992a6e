//! The decisions of a session around one match: who sits where, when a tick
//! is resolved, and what each participant is told. Reading and sending
//! messages is left to the caller.

use vstd::prelude::*;

use crate::board::{Error, Stamp};
use crate::display::{cell_at, DisplayData};
use crate::game::{GameResult, GameStatus, PlayerStatus};
use crate::network::NetBlob;
use crate::player::{ActionType, PlayerAction};
use crate::space::{Direction, SpatialDirection, TemporalDirection};

verus! {

/// The seat a newcomer gets: the lowest one that is free.
pub open spec fn first_free(seated: [bool; 2]) -> Option<u8> {
    if !seated[0] {
        Some(0u8)
    } else if !seated[1] {
        Some(1u8)
    } else {
        None
    }
}

/// One match with its two seats. An action waits in its player's slot until
/// both slots are filled; then the tick is resolved.
pub struct Server {
    game_status: GameStatus,
    inputs: [Option<PlayerAction>; 2],
    needs_send: [bool; 2],
    player: [bool; 2],
    result: Option<GameResult>,
}

/// What a session decides on one message of a participant.
pub struct Reaction {
    /// The seat the connection holds from now on.
    pub seat: Option<u8>,
    /// What to send back at once.
    pub reply: Option<NetBlob>,
    /// How the tick was resolved, if the message filled the second slot.
    pub resolved: Option<Result<Option<GameResult>, Error>>,
}

impl Server {
    /// Whether the match is in a state that play can reach. Every session
    /// starts so and stays so.
    pub closed spec fn wf(&self) -> bool {
        self.game_status.consistent()
    }

    /// The match being played.
    pub closed spec fn game(&self) -> GameStatus {
        self.game_status
    }

    /// The action waiting in each player's slot.
    pub closed spec fn pending(&self) -> [Option<PlayerAction>; 2] {
        self.inputs
    }

    /// Whether each player is still owed the news of the latest tick.
    pub closed spec fn unsent(&self) -> [bool; 2] {
        self.needs_send
    }

    /// Whether each seat is taken.
    pub closed spec fn seated(&self) -> [bool; 2] {
        self.player
    }

    /// The outcome of the match, once there is one.
    pub closed spec fn verdict(&self) -> Option<GameResult> {
        self.result
    }

    /// Two sessions with the same parts are the same session.
    pub proof fn lemma_parts_determine(a: Server, b: Server)
        requires
            a.game() == b.game(),
            a.pending() == b.pending(),
            a.unsent() == b.unsent(),
            a.seated() == b.seated(),
            a.verdict() == b.verdict(),
        ensures
            a == b,
    {
    }

    /// Whether `after` and `r` are what seating a newcomer gives: the lowest
    /// free seat is taken and named, or nothing happens when both are taken.
    pub open spec fn joins(&self, after: Server, r: Option<u8>) -> bool {
        &&& r == first_free(self.seated())
        &&& r matches Some(id) ==> after.seated()@ == self.seated()@.update(id as int, true)
        &&& r is None ==> after.seated() == self.seated()
        &&& after.game() == self.game()
        &&& after.pending() == self.pending()
        &&& after.unsent() == self.unsent()
        &&& after.verdict() == self.verdict()
    }

    /// Whether `after` is this session with the seat of `player_id` freed.
    pub open spec fn leaves(&self, player_id: u8, after: Server) -> bool {
        &&& after.seated()@ == self.seated()@.update(player_id as int, false)
        &&& after.game() == self.game()
        &&& after.pending() == self.pending()
        &&& after.unsent() == self.unsent()
        &&& after.verdict() == self.verdict()
    }

    /// Whether `after` and `r` are what one player's action for the tick
    /// gives. While the other slot is empty the action waits and `r` is
    /// `None`. Once both slots are filled the tick is resolved: an accepted
    /// turn sets the verdict and owes both players the news, with the slots
    /// left filled until the news is fetched; a rejected turn empties both
    /// slots and changes nothing else.
    pub open spec fn submits(
        &self,
        player_id: u8,
        action: PlayerAction,
        after: Server,
        r: Option<Result<Option<GameResult>, Error>>,
    ) -> bool {
        let filled = self.pending()@.update(player_id as int, Some(action));
        &&& after.seated() == self.seated()
        &&& if filled[0] is Some && filled[1] is Some {
            &&& r matches Some(res)
            &&& self.game().resolves_to(filled[0]->0, filled[1]->0, after.game(), res)
            &&& match res {
                Ok(verdict) => {
                    &&& after.verdict() == verdict
                    &&& after.unsent()@ == seq![true, true]
                    &&& after.pending()@ == filled
                },
                Err(_) => {
                    &&& after.verdict() == self.verdict()
                    &&& after.unsent() == self.unsent()
                    &&& after.pending()@ == seq![None::<PlayerAction>, None::<PlayerAction>]
                },
            }
        } else {
            &&& r is None
            &&& after.pending()@ == filled
            &&& after.game() == self.game()
            &&& after.unsent() == self.unsent()
            &&& after.verdict() == self.verdict()
        }
    }

    /// Whether a session can take in `blob`. The other kinds are for the
    /// participants only.
    pub open spec fn expects(blob: NetBlob) -> bool {
        blob is Join || blob is Action || blob is Leave
    }

    /// Whether `after` and `r` are what the message `blob`, received on a
    /// connection that holds `seat`, gives. A request to join is answered
    /// with the seat, if one is free, and the connection holds it from then
    /// on. An action counts for the seat the connection holds, and for
    /// nothing on a connection without one. Leaving frees the seat.
    pub open spec fn reacts(&self, seat: Option<u8>, blob: NetBlob, after: Server, r: Reaction)
        -> bool {
        match blob {
            NetBlob::Join => {
                let got = first_free(self.seated());
                &&& self.joins(after, got)
                &&& r.seat == (if got is Some {
                    got
                } else {
                    seat
                })
                &&& r.reply == (match got {
                    Some(id) => Some(NetBlob::Assign(id)),
                    None => None,
                })
                &&& r.resolved is None
            },
            NetBlob::Action(action) => {
                &&& r.seat == seat
                &&& r.reply is None
                &&& match seat {
                    Some(id) => self.submits(id, action, after, r.resolved),
                    None => after == *self && r.resolved is None,
                }
            },
            NetBlob::Leave => {
                &&& r.seat is None
                &&& r.reply is None
                &&& r.resolved is None
                &&& match seat {
                    Some(id) => self.leaves(id, after),
                    None => after == *self,
                }
            },
            _ => false,
        }
    }

    /// A session about to start: a fresh match, empty seats and slots, and
    /// both players owed a first look at the board.
    pub fn new() -> (r: Self)
        ensures
            r.wf(),
            r.game().is_fresh(),
            r.pending()@ == seq![None::<PlayerAction>, None::<PlayerAction>],
            r.unsent()@ == seq![true, true],
            r.seated()@ == seq![false, false],
            r.verdict() is None,
    {
        let r = Self {
            game_status: GameStatus::initial(),
            inputs: [None; 2],
            needs_send: [true; 2],
            player: [false; 2],
            result: None,
        };
        assert(r.inputs@ =~= seq![None::<PlayerAction>, None::<PlayerAction>]);
        assert(r.needs_send@ =~= seq![true, true]);
        assert(r.player@ =~= seq![false, false]);
        r
    }

    /// Puts `action` into the slot of `player_id`, replacing what waited there.
    pub fn set_input(&mut self, player_id: u8, action: PlayerAction)
        requires
            old(self).wf(),
            player_id < 2,
        ensures
            final(self).wf(),
            final(self).pending()@ == old(self).pending()@.update(player_id as int, Some(action)),
            final(self).game() == old(self).game(),
            final(self).unsent() == old(self).unsent(),
            final(self).seated() == old(self).seated(),
            final(self).verdict() == old(self).verdict(),
    {
        self.inputs[player_id as usize] = Some(action);
    }

    /// Seats a newcomer on the lowest free seat and says which it is, or
    /// `None` when both are taken.
    pub fn join(&mut self) -> (r: Option<u8>)
        requires
            old(self).wf(),
        ensures
            final(self).wf(),
            old(self).joins(*final(self), r),
    {
        if !self.player[0] {
            self.player[0] = true;
            Some(0)
        } else if !self.player[1] {
            self.player[1] = true;
            Some(1)
        } else {
            None
        }
    }

    /// Frees the seat of `player_id`.
    pub fn leave(&mut self, player_id: u8)
        requires
            old(self).wf(),
            player_id < 2,
        ensures
            final(self).wf(),
            old(self).leaves(player_id, *final(self)),
    {
        self.player[player_id as usize] = false;
    }

    /// Takes one player's action for the tick, and resolves the tick once
    /// both slots are filled.
    pub fn submit(&mut self, player_id: u8, action: PlayerAction) -> (r: Option<
        Result<Option<GameResult>, Error>,
    >)
        requires
            old(self).wf(),
            player_id < 2,
        ensures
            final(self).wf(),
            old(self).submits(player_id, action, *final(self), r),
    {
        self.set_input(player_id, action);
        let (first, second) = match (self.inputs[0], self.inputs[1]) {
            (Some(first), Some(second)) => (first, second),
            _ => {
                return None;
            },
        };
        let res = self.game_status.push_actions([first, second]);
        match res {
            Ok(game_result) => {
                self.result = game_result;
                self.needs_send = [true; 2];
                assert(self.needs_send@ =~= seq![true, true]);
            },
            Err(_) => {
                self.inputs = [None; 2];
                assert(self.inputs@ =~= seq![None::<PlayerAction>, None::<PlayerAction>]);
            },
        }
        Some(res)
    }

    /// Decides on one message received on a connection that holds `seat`.
    pub fn handle(&mut self, seat: Option<u8>, blob: NetBlob) -> (r: Reaction)
        requires
            old(self).wf(),
            seat matches Some(id) ==> id < 2,
            Self::expects(blob),
        ensures
            final(self).wf(),
            old(self).reacts(seat, blob, *final(self), r),
    {
        match blob {
            NetBlob::Join => {
                match self.join() {
                    Some(id) => Reaction {
                        seat: Some(id),
                        reply: Some(NetBlob::Assign(id)),
                        resolved: None,
                    },
                    None => Reaction { seat, reply: None, resolved: None },
                }
            },
            NetBlob::Action(action) => {
                let resolved = match seat {
                    Some(id) => self.submit(id, action),
                    None => None,
                };
                Reaction { seat, reply: None, resolved }
            },
            _ => {
                if let Some(id) = seat {
                    self.leave(id);
                }
                Reaction { seat: None, reply: None, resolved: None }
            },
        }
    }

    /// Decides on one message like `handle`, after making sure that the
    /// message is one for a session and that the seat exists. Where either
    /// is not so, nothing changes and `None` comes back.
    pub fn try_handle(&mut self, seat: Option<u8>, blob: NetBlob) -> (r: Option<Reaction>)
        requires
            old(self).wf(),
        ensures
            final(self).wf(),
            (r is Some) == (Self::expects(blob) && (seat matches Some(id) ==> id < 2)),
            r matches Some(reaction) ==> old(self).reacts(seat, blob, *final(self), reaction),
            r is None ==> *final(self) == *old(self),
    {
        let seat_exists = match seat {
            Some(id) => id < 2,
            None => true,
        };
        let expected = match &blob {
            NetBlob::Join => true,
            NetBlob::Action(_) => true,
            NetBlob::Leave => true,
            _ => false,
        };
        if seat_exists && expected {
            Some(self.handle(seat, blob))
        } else {
            None
        }
    }

    /// The news owed to `player_id`, in the order to send it: the drawable
    /// board, both players' vitals, the verdict if there is one, and the
    /// start of the next tick. Fetching it settles the debt and empties the
    /// player's slot. Nothing is owed twice.
    pub fn outbox(&mut self, player_id: u8) -> (r: Vec<NetBlob>)
        requires
            old(self).wf(),
            player_id < 2,
        ensures
            final(self).wf(),
            final(self).game() == old(self).game(),
            final(self).seated() == old(self).seated(),
            final(self).verdict() == old(self).verdict(),
            !old(self).unsent()[player_id as int] ==> r@.len() == 0 && *final(self) == *old(self),
            old(self).unsent()[player_id as int] ==> {
                &&& final(self).unsent()@ == old(self).unsent()@.update(player_id as int, false)
                &&& final(self).pending()@ == old(self).pending()@.update(player_id as int, None)
                &&& r@.len() == (if old(self).verdict() is Some {
                    4nat
                } else {
                    3nat
                })
                &&& r@[0] matches NetBlob::Display(data)
                &&& forall|at: Stamp|
                    at.in_bounds() ==> #[trigger] cell_at(data, at) == old(self).game().cell(at)
                &&& r@[1] == NetBlob::Stati(old(self).game().player_stati)
                &&& old(self).verdict() matches Some(verdict) ==> r@[2] == NetBlob::Result(verdict)
                &&& r@[r@.len() - 1] == NetBlob::Start
            },
    {
        let mut out: Vec<NetBlob> = Vec::new();
        if self.needs_send[player_id as usize] {
            out.push(NetBlob::Display(self.game_status.display()));
            out.push(NetBlob::Stati(self.game_status.player_stati));
            if let Some(result) = self.result {
                out.push(NetBlob::Result(result));
            }
            out.push(NetBlob::Start);
            self.needs_send[player_id as usize] = false;
            self.inputs[player_id as usize] = None;
        }
        out
    }
}

/// What one player has keyed in for the next tick.
#[derive(Debug, Copy, Clone)]
pub struct Input {
    pub player_id: u8,
    pub spatial: Option<SpatialDirection>,
    pub temporal: Option<TemporalDirection>,
    pub action: Option<ActionType>,
    pub confirmed: bool,
}

impl Default for Input {
    fn default() -> (r: Self)
        ensures
            r == Input::blank(0),
    {
        Input::new(0)
    }
}

impl Input {
    /// The input of `player_id` with nothing keyed in.
    pub open spec fn blank(player_id: u8) -> Input {
        Input { player_id, spatial: None, temporal: None, action: None, confirmed: false }
    }

    /// The action the input stands for: it must be confirmed and complete.
    pub open spec fn chosen(&self) -> Option<PlayerAction> {
        if self.confirmed && self.spatial is Some && self.temporal is Some && self.action is Some {
            Some(
                PlayerAction {
                    direction: Direction { spatial: self.spatial->0, temporal: self.temporal->0 },
                    action_type: self.action->0,
                },
            )
        } else {
            None
        }
    }

    pub fn new(player_id: u8) -> (r: Self)
        ensures
            r == Self::blank(player_id),
    {
        Self { player_id, spatial: None, temporal: None, action: None, confirmed: false }
    }

    pub fn evaluate(&self) -> (r: Option<PlayerAction>)
        ensures
            r == self.chosen(),
    {
        if self.confirmed {
            Some(
                PlayerAction {
                    direction: Direction { spatial: self.spatial?, temporal: self.temporal? },
                    action_type: self.action?,
                },
            )
        } else {
            None
        }
    }

    pub fn clear(&mut self)
        ensures
            *final(self) == Self::blank(old(self).player_id),
    {
        self.spatial = None;
        self.temporal = None;
        self.action = None;
        self.confirmed = false;
    }
}

/// What a participant knows of the match: the latest news and the inputs
/// being keyed in.
#[derive(Debug, Clone)]
pub struct Info {
    pub display: Option<DisplayData>,
    pub player_stati: Option<[PlayerStatus; 2]>,
    pub inputs: [Option<Input>; 2],
    pub result: Option<GameResult>,
}

impl Info {
    /// Nothing known yet.
    pub fn new() -> (r: Self)
        ensures
            r.display is None,
            r.player_stati is None,
            r.inputs[0] is None,
            r.inputs[1] is None,
            r.result is None,
    {
        Self { display: None, player_stati: None, inputs: [None; 2], result: None }
    }

    /// The action to send, if the first input is confirmed and complete.
    /// Taking it clears that input for the next tick.
    pub fn take_action(&mut self) -> (r: Option<PlayerAction>)
        ensures
            r == (match old(self).inputs[0] {
                Some(input) => input.chosen(),
                None => None,
            }),
            final(self).inputs[0] == (match old(self).inputs[0] {
                Some(input) => Some(
                    if r is Some {
                        Input::blank(input.player_id)
                    } else {
                        input
                    },
                ),
                None => None,
            }),
            final(self).inputs[1] == old(self).inputs[1],
            final(self).display == old(self).display,
            final(self).player_stati == old(self).player_stati,
            final(self).result == old(self).result,
    {
        match self.inputs[0] {
            Some(mut input) => {
                let action = input.evaluate();
                if action.is_some() {
                    input.clear();
                    self.inputs[0] = Some(input);
                }
                action
            },
            None => None,
        }
    }

    /// Whether a participant can take in `blob`. The other kinds are for the
    /// session only.
    pub open spec fn accepts(blob: NetBlob) -> bool {
        blob is Assign || blob is Display || blob is Stati || blob is Result || blob is Start
    }

    /// Takes in one message like `receive`, after making sure that it is one
    /// for a participant. Any other is refused and changes nothing.
    pub fn try_receive(&mut self, blob: NetBlob) -> (r: bool)
        ensures
            r == Self::accepts(blob),
            r ==> old(self).receives(blob, *final(self)),
            !r ==> *final(self) == *old(self),
    {
        let accepted = match &blob {
            NetBlob::Assign(_) => true,
            NetBlob::Display(_) => true,
            NetBlob::Stati(_) => true,
            NetBlob::Result(_) => true,
            NetBlob::Start => true,
            _ => false,
        };
        if accepted {
            self.receive(blob);
        }
        accepted
    }

    /// Whether `after` is what taking in `blob` gives: a seat starts a blank
    /// input, a board, vitals or a verdict replace what was known, and the
    /// start of a tick changes nothing.
    pub open spec fn receives(&self, blob: NetBlob, after: Info) -> bool {
        &&& after.inputs[0] == (match blob {
            NetBlob::Assign(id) => Some(Input::blank(id)),
            _ => self.inputs[0],
        })
        &&& after.inputs[1] == self.inputs[1]
        &&& after.display == (match blob {
            NetBlob::Display(data) => Some(data),
            _ => self.display,
        })
        &&& after.player_stati == (match blob {
            NetBlob::Stati(stati) => Some(stati),
            _ => self.player_stati,
        })
        &&& after.result == (match blob {
            NetBlob::Result(result) => Some(result),
            _ => self.result,
        })
    }

    /// Takes in one message from the session: a seat starts a blank input, a
    /// board, vitals or a verdict replace what was known, and the start of a
    /// tick changes nothing.
    pub fn receive(&mut self, blob: NetBlob)
        requires
            Self::accepts(blob),
        ensures
            old(self).receives(blob, *final(self)),
    {
        match blob {
            NetBlob::Assign(id) => {
                self.inputs[0] = Some(Input::new(id));
            },
            NetBlob::Display(data) => {
                self.display = Some(data);
            },
            NetBlob::Stati(stati) => {
                self.player_stati = Some(stati);
            },
            NetBlob::Result(result) => {
                self.result = Some(result);
            },
            _ => {},
        }
    }
}

} // verus!
