//! The board: one grid of cells per slice of the timeline, the stamps that
//! name its cells, and the verdict on a single action.

use vstd::prelude::*;
use vstd::std_specs::ops::AddSpec;
use vstd::string::StringExecFns;

use crate::game::PlayerStatus;
use crate::player::{ActionType, PlayerAction};
use crate::space::{Direction, SpatialDirection, TemporalDirection};

verus! {

/// Cells along each side of the grid.
pub const SIZE: usize = 7;

/// Slices in the timeline.
pub const LENGTH: usize = 5;

/// What one cell of one slice holds, as contracts see it.
pub struct TileView {
    /// The player who has stood here, if any.
    pub player: Option<u8>,
    /// The vitals recorded for the occupant by the latest replay.
    pub status: Option<PlayerStatus>,
    /// Whether standing here hurts. Once set it stays set.
    pub hazard: bool,
}

impl TileView {
    /// A cell nobody has touched.
    pub open spec fn empty() -> TileView {
        TileView { player: None, status: None, hazard: false }
    }

    /// A fresh cell on which `player_id` stands.
    pub open spec fn occupied_by(player_id: u8) -> TileView {
        TileView { player: Some(player_id), status: None, hazard: false }
    }

    /// The character that stands for the cell in a printed board: `E` for an
    /// empty cell, the first decimal digit of the occupant's number for an
    /// occupied one, and `X` for a bare hazard.
    pub open spec fn glyph(self) -> char {
        if self.player is None && !self.hazard {
            'E'
        } else if let Some(p) = self.player {
            leading_digit(p)
        } else {
            'X'
        }
    }
}

/// The first character of `p` written in decimal.
pub open spec fn leading_digit(p: u8) -> char {
    let d: int = if p >= 100 {
        p as int / 100
    } else if p >= 10 {
        p as int / 10
    } else {
        p as int
    };
    ((d + 48) as u8) as char
}

/// Appends `c` to `text` by `String::push`. Trusted: the text afterwards is
/// the text before followed by `c`, as the standard library documents.
#[verifier::external_body]
fn push_char(text: &mut String, c: char)
    ensures
        final(text)@ == old(text)@.push(c),
{
    text.push(c);
}

/// One cell of one slice.
#[derive(Debug, Copy, Clone)]
pub struct TileState {
    player: Option<u8>,
    player_status: Option<PlayerStatus>,
    hazard: bool,
}

impl View for TileState {
    type V = TileView;

    closed spec fn view(&self) -> TileView {
        TileView { player: self.player, status: self.player_status, hazard: self.hazard }
    }
}

impl Default for TileState {
    fn default() -> (r: Self)
        ensures
            r@ == TileView::empty(),
    {
        TileState { player: None, player_status: None, hazard: false }
    }
}

impl TileState {
    /// Two tiles with the same view are the same tile.
    pub proof fn lemma_view_determines(a: TileState, b: TileState)
        requires
            a@ == b@,
        ensures
            a == b,
    {
    }

    pub fn is_empty(&self) -> (r: bool)
        ensures
            r == (self@.player is None && !self@.hazard),
    {
        self.player.is_none() && self.hazard == false
    }

    pub fn is_movable(&self) -> (r: bool)
        ensures
            r == (self@.player is None),
    {
        self.player.is_none()
    }

    pub fn is_hazard(&self) -> (r: bool)
        ensures
            r == self@.hazard,
    {
        self.hazard
    }

    pub fn status(&self) -> (r: Option<PlayerStatus>)
        ensures
            r == self@.status,
    {
        self.player_status
    }

    pub fn set_status(&mut self, status: Option<PlayerStatus>)
        ensures
            final(self)@ == (TileView { status, ..old(self)@ }),
    {
        self.player_status = status;
    }

    pub fn char(&self) -> (c: char)
        ensures
            c == self@.glyph(),
    {
        if self.is_empty() {
            'E'
        } else if let Some(player) = self.player {
            let d: u8 = if player >= 100 {
                player / 100
            } else if player >= 10 {
                player / 10
            } else {
                player
            };
            (d + 48) as char
        } else {
            'X'
        }
    }

    pub(crate) fn player(player_id: u8) -> (r: Self)
        ensures
            r@ == TileView::occupied_by(player_id),
    {
        TileState { player: Some(player_id), player_status: None, hazard: false }
    }
}

/// The grid at one slice of the timeline, indexed by row and then column.
#[derive(Debug, Clone)]
pub struct BoardState {
    tiles: [[TileState; SIZE]; SIZE],
}

impl View for BoardState {
    type V = Seq<Seq<TileView>>;

    /// The rows of the grid from top to bottom, each from left to right.
    open spec fn view(&self) -> Seq<Seq<TileView>> {
        Seq::new(SIZE as nat, |y: int| Seq::new(SIZE as nat, |x: int| self.tile(x, y)))
    }
}

impl BoardState {
    /// The cell in column `x` of row `y`.
    pub closed spec fn tile(&self, x: int, y: int) -> TileView {
        self.tiles[y][x]@
    }

    /// A grid of untouched cells.
    pub open spec fn blank() -> Seq<Seq<TileView>> {
        Seq::new(SIZE as nat, |y: int| Seq::new(SIZE as nat, |x: int| TileView::empty()))
    }

    /// The grid printed row by row, each row ended by a line feed.
    pub open spec fn text(&self) -> Seq<char> {
        Seq::new(
            (SIZE * (SIZE + 1)) as nat,
            |i: int|
                if i % (SIZE + 1) == SIZE as int {
                    '\n'
                } else {
                    self@[i / (SIZE + 1)][i % (SIZE + 1)].glyph()
                },
        )
    }

    pub fn empty() -> (r: Self)
        ensures
            r@ == Self::blank(),
    {
        let r = Self { tiles: [[TileState::default(); SIZE]; SIZE] };
        assert(r@ =~~= Self::blank());
        r
    }

    pub fn get(&self, x: usize, y: usize) -> (r: Result<TileState, ()>)
        ensures
            x < SIZE && y < SIZE ==> (r matches Ok(tile) && tile@ == self@[y as int][x as int]),
            !(x < SIZE && y < SIZE) ==> r is Err,
    {
        if x < SIZE && y < SIZE {
            return Ok(self.tiles[y][x]);
        }
        Err(())
    }

    pub fn get_mut(&mut self, x: usize, y: usize) -> (r: Result<&mut TileState, ()>)
        ensures
            (r is Ok) == (x < SIZE && y < SIZE),
            r matches Ok(tile) ==> tile@ == old(self)@[y as int][x as int] && final(self)@
                == old(self)@.update(y as int, old(self)@[y as int].update(x as int, final(tile)@)),
            r is Err ==> *final(self) == *old(self),
    {
        if x < SIZE && y < SIZE {
            let ghost before = self@;
            let tile = &mut self.tiles[y][x];
            proof {
                assert(after_borrow(self)@ =~~= before.update(
                    y as int,
                    before[y as int].update(x as int, final(tile)@),
                ));
            }
            return Ok(tile);
        }
        Err(())
    }

    pub fn set(&mut self, x: usize, y: usize, state: TileState) -> (r: bool)
        ensures
            r == (x < SIZE && y < SIZE),
            r ==> final(self)@ == old(self)@.update(
                y as int,
                old(self)@[y as int].update(x as int, state@),
            ),
            !r ==> *final(self) == *old(self),
    {
        if x < SIZE && y < SIZE {
            self.tiles[y][x] = state;
            assert(self@ =~~= old(self)@.update(
                y as int,
                old(self)@[y as int].update(x as int, state@),
            ));
            return true;
        }
        false
    }

    /// Prints the grid: one line per row, one character per cell.
    pub fn render(&self) -> (r: String)
        ensures
            r@ == self.text(),
    {
        let mut out = String::new();
        let mut y: usize = 0;
        while y < SIZE
            invariant
                y <= SIZE,
                out@ == self.text().take(8 * y),
            decreases SIZE - y,
        {
            let mut x: usize = 0;
            while x < SIZE
                invariant
                    y < SIZE,
                    x <= SIZE,
                    out@ == self.text().take(8 * y + x),
                decreases SIZE - x,
            {
                let ghost n: int = 8 * y + x;
                let c = self.tiles[y][x].char();
                proof {
                    assert(n / 8 == y && n % 8 == x);
                    assert(self.text()[n] == c);
                    assert(self.text().take(n).push(c) =~= self.text().take(n + 1));
                }
                push_char(&mut out, c);
                x += 1;
            }
            proof {
                let n: int = 8 * y + 7;
                assert(n / 8 == y && n % 8 == 7);
                assert(self.text()[n] == '\n');
                assert(self.text().take(n).push('\n') =~= self.text().take(n + 1));
            }
            push_char(&mut out, '\n');
            y += 1;
        }
        proof {
            assert(self.text().take(56) =~= self.text());
        }
        out
    }

    pub fn tiles(&self) -> (r: &[[TileState; SIZE]; SIZE])
        ensures
            forall|x: int, y: int|
                0 <= x < SIZE && 0 <= y < SIZE ==> (#[trigger] r[y][x])@ == self@[y][x],
    {
        &self.tiles
    }
}

/// One cell at one moment: column, row and slice.
#[derive(Debug, Copy, Clone, PartialEq, Eq, Structural)]
pub struct Stamp {
    pub x: usize,
    pub y: usize,
    pub t: usize,
}

impl Stamp {
    /// Whether the stamp names a cell of the board.
    pub open spec fn in_bounds(self) -> bool {
        self.x < SIZE && self.y < SIZE && self.t < LENGTH
    }

    /// The stamp `dx` columns, `dy` rows and `dt` slices away, if that is a
    /// cell of the board.
    pub open spec fn shifted(self, dx: int, dy: int, dt: int) -> Option<Stamp> {
        if 0 <= self.x + dx < SIZE && 0 <= self.y + dy < SIZE && 0 <= self.t + dt < LENGTH {
            Some(
                Stamp {
                    x: (self.x + dx) as usize,
                    y: (self.y + dy) as usize,
                    t: (self.t + dt) as usize,
                },
            )
        } else {
            None
        }
    }

    /// The stamp one step of `dir` away on both axes, if it is on the board.
    pub open spec fn target(self, dir: Direction) -> Option<Stamp> {
        self.shifted(dir.spatial.dx(), dir.spatial.dy(), dir.temporal.dt())
    }

    /// The same cell one slice along `dir`, if it is on the board.
    pub open spec fn drifted(self, dir: TemporalDirection) -> Option<Stamp> {
        self.shifted(0, 0, dir.dt())
    }

    /// `self + rhs`, or `None` where a coordinate would leave the range of
    /// `usize`. The result may still lie off the board.
    pub fn checked_add(self, rhs: Direction) -> (r: Option<Stamp>)
        ensures
            r == (if self.add_req(rhs) {
                Some(self.add_spec(rhs))
            } else {
                None
            }),
    {
        let spatial_fits = match rhs.spatial {
            SpatialDirection::Left => self.x > 0,
            SpatialDirection::Right => self.x < usize::MAX,
            SpatialDirection::Up => self.y > 0,
            SpatialDirection::Down => self.y < usize::MAX,
        };
        let temporal_fits = match rhs.temporal {
            TemporalDirection::Forward => self.t < usize::MAX,
            TemporalDirection::Backward => self.t > 0,
        };
        if spatial_fits && temporal_fits {
            Some(self + rhs)
        } else {
            None
        }
    }
}

impl core::ops::Add<SpatialDirection> for Stamp {
    type Output = Self;

    fn add(self, rhs: SpatialDirection) -> (out: Self) {
        let mut out = self;
        match rhs {
            SpatialDirection::Left => out.x -= 1,
            SpatialDirection::Right => out.x += 1,
            SpatialDirection::Up => out.y -= 1,
            SpatialDirection::Down => out.y += 1,
        };
        out
    }
}

impl vstd::std_specs::ops::AddSpecImpl<SpatialDirection> for Stamp {
    open spec fn obeys_add_spec() -> bool {
        true
    }

    /// The step must stay within the range of `usize`.
    open spec fn add_req(self, rhs: SpatialDirection) -> bool {
        0 <= self.x + rhs.dx() <= usize::MAX && 0 <= self.y + rhs.dy() <= usize::MAX
    }

    open spec fn add_spec(self, rhs: SpatialDirection) -> Stamp {
        Stamp { x: (self.x + rhs.dx()) as usize, y: (self.y + rhs.dy()) as usize, t: self.t }
    }
}

impl core::ops::Add<TemporalDirection> for Stamp {
    type Output = Self;

    fn add(self, rhs: TemporalDirection) -> (out: Self) {
        let mut out = self;
        match rhs {
            TemporalDirection::Forward => out.t += 1,
            TemporalDirection::Backward => out.t -= 1,
        };
        out
    }
}

impl vstd::std_specs::ops::AddSpecImpl<TemporalDirection> for Stamp {
    open spec fn obeys_add_spec() -> bool {
        true
    }

    /// The step must stay within the range of `usize`.
    open spec fn add_req(self, rhs: TemporalDirection) -> bool {
        0 <= self.t + rhs.dt() <= usize::MAX
    }

    open spec fn add_spec(self, rhs: TemporalDirection) -> Stamp {
        Stamp { x: self.x, y: self.y, t: (self.t + rhs.dt()) as usize }
    }
}

impl core::ops::Add<Direction> for Stamp {
    type Output = Self;

    fn add(self, rhs: Direction) -> (out: Self) {
        self + rhs.spatial + rhs.temporal
    }
}

impl vstd::std_specs::ops::AddSpecImpl<Direction> for Stamp {
    open spec fn obeys_add_spec() -> bool {
        true
    }

    /// Both steps must stay within the range of `usize`.
    open spec fn add_req(self, rhs: Direction) -> bool {
        &&& 0 <= self.x + rhs.spatial.dx() <= usize::MAX
        &&& 0 <= self.y + rhs.spatial.dy() <= usize::MAX
        &&& 0 <= self.t + rhs.temporal.dt() <= usize::MAX
    }

    open spec fn add_spec(self, rhs: Direction) -> Stamp {
        Stamp {
            x: (self.x + rhs.spatial.dx()) as usize,
            y: (self.y + rhs.spatial.dy()) as usize,
            t: (self.t + rhs.temporal.dt()) as usize,
        }
    }
}

/// Why a turn was turned down. The caller discards both inputs and asks
/// again; nothing was changed.
#[derive(Debug, Copy, Clone, PartialEq, Eq)]
pub enum Error {
    InvalidMove(&'static str),
}

/// What one accepted action does to the board.
#[derive(Debug, Copy, Clone, PartialEq, Eq)]
pub struct Impact {
    /// Where the player ends up, and who it is.
    pub player: (Stamp, u8),
    /// The cell that an attack turns into a hazard.
    pub attack: Option<Stamp>,
}

impl Impact {
    /// Whether every stamp of the impact names a cell of the board.
    pub open spec fn in_bounds(self) -> bool {
        &&& self.player.0.in_bounds()
        &&& self.attack matches Some(a) ==> a.in_bounds()
    }
}

/// The board after `impact`: its destination is occupied by the moving
/// player, the attacked cell, if any, is a hazard, and no other cell differs.
pub open spec fn apply_impact(b: Map<Stamp, TileView>, impact: Impact) -> Map<Stamp, TileView> {
    let stepped = b.insert(
        impact.player.0,
        TileView { player: Some(impact.player.1), ..b[impact.player.0] },
    );
    match impact.attack {
        Some(a) => stepped.insert(a, TileView { hazard: true, ..stepped[a] }),
        None => stepped,
    }
}

/// The verdict on one player's action, taken against the board alone.
///
/// A move goes to the cell one step away on both axes, which must be free. An
/// attack keeps the player in place while moving one slice in time, to a cell
/// which must be free, and marks the cell one step away on both axes. Hazards
/// never block. A stamp off the board is turned down like an occupied one.
pub open spec fn resolve(
    b: Map<Stamp, TileView>,
    player_id: usize,
    action: PlayerAction,
    source: Stamp,
) -> Result<Impact, Seq<char>> {
    match source.target(action.direction) {
        None => Err("out of bounds"@),
        Some(target) => match action.action_type {
            ActionType::Move => if b[target].player is None {
                Ok(Impact { player: (target, player_id as u8), attack: None })
            } else {
                Err("target occupied"@)
            },
            ActionType::Attack => match source.drifted(action.direction.temporal) {
                None => Err("out of bounds"@),
                Some(dest) => if b[dest].player is None {
                    Ok(Impact { player: (dest, player_id as u8), attack: Some(target) })
                } else {
                    Err("target occupied (stationary)"@)
                },
            },
        },
    }
}

/// The whole timeline: one grid per slice.
#[derive(Debug, Clone)]
pub struct Board {
    states: [BoardState; LENGTH],
}

impl View for Board {
    type V = Map<Stamp, TileView>;

    /// The cells of the board by stamp. The domain is the stamps on the board.
    open spec fn view(&self) -> Map<Stamp, TileView> {
        Map::new(
            |s: Stamp| s.in_bounds(),
            |s: Stamp| self.slice(s.t as int)@[s.y as int][s.x as int],
        )
    }
}

impl Board {
    /// The grid at slice `t`.
    pub closed spec fn slice(&self, t: int) -> BoardState {
        self.states[t]
    }

    /// Where player `i` starts: the middle column, one row in from the top
    /// for player 0 and from the bottom for player 1, at the first slice.
    pub open spec fn spawn(i: int) -> Stamp {
        if i == 0 {
            Stamp { x: 3, y: 1, t: 0 }
        } else {
            Stamp { x: 3, y: 5, t: 0 }
        }
    }

    /// A board of untouched cells.
    pub open spec fn blank() -> Map<Stamp, TileView> {
        Map::new(|s: Stamp| s.in_bounds(), |s: Stamp| TileView::empty())
    }

    /// The board at the start of a match.
    pub open spec fn fresh() -> Map<Stamp, TileView> {
        Self::blank().insert(Self::spawn(0), TileView::occupied_by(0)).insert(
            Self::spawn(1),
            TileView::occupied_by(1),
        )
    }

    /// Where the two players start.
    pub fn spawns() -> (r: [Stamp; 2])
        ensures
            r[0] == Self::spawn(0),
            r[1] == Self::spawn(1),
    {
        [Stamp { x: SIZE / 2, y: 1, t: 0 }, Stamp { x: SIZE / 2, y: SIZE - 2, t: 0 }]
    }

    /// The timeline printed slice by slice, each followed by an empty line
    /// and one more line feed.
    pub open spec fn text(&self) -> Seq<char> {
        Seq::new(
            (LENGTH * (SIZE * (SIZE + 1) + 2)) as nat,
            |i: int|
                if i % (SIZE * (SIZE + 1) + 2) < SIZE * (SIZE + 1) {
                    self.slice(i / (SIZE * (SIZE + 1) + 2)).text()[i % (SIZE * (SIZE + 1) + 2)]
                } else {
                    '\n'
                },
        )
    }

    /// Prints the whole timeline.
    pub fn render(&self) -> (r: String)
        ensures
            r@ == self.text(),
    {
        let mut out = String::new();
        let mut t: usize = 0;
        while t < LENGTH
            invariant
                t <= LENGTH,
                out@ == self.text().take(58 * t),
            decreases LENGTH - t,
        {
            let state = self.states[t].render();
            let ghost before = out@;
            out.append(state.as_str());
            push_char(&mut out, '\n');
            push_char(&mut out, '\n');
            proof {
                let want = self.text().take(58 * (t + 1));
                assert(out@.len() == want.len());
                assert forall|i: int| 0 <= i < want.len() implies out@[i] == want[i] by {
                    if i >= 58 * t {
                        let j = i - 58 * t;
                        assert(i / 58 == t && i % 58 == j);
                    } else {
                        assert(out@[i] == before[i]);
                    }
                }
                assert(out@ =~= want);
            }
            t += 1;
        }
        proof {
            assert(self.text().take(290) =~= self.text());
        }
        out
    }

    pub fn initial() -> (r: Self)
        ensures
            r@ == Self::fresh(),
    {
        let mut board = Self {
            states: [
                BoardState::empty(),
                BoardState::empty(),
                BoardState::empty(),
                BoardState::empty(),
                BoardState::empty(),
            ],
        };
        assert(board@ =~= Self::blank());
        let spawns = Self::spawns();
        board.set(spawns[0], TileState::player(0));
        board.set(spawns[1], TileState::player(1));
        board
    }

    pub fn get(&self, stamp: Stamp) -> (r: Result<TileState, ()>)
        ensures
            stamp.in_bounds() ==> (r matches Ok(tile) && tile@ == self@[stamp]),
            !stamp.in_bounds() ==> r is Err,
    {
        if stamp.t < LENGTH {
            return self.states[stamp.t].get(stamp.x, stamp.y);
        }
        Err(())
    }

    fn get_mut(&mut self, stamp: Stamp) -> (r: Result<&mut TileState, ()>)
        ensures
            (r is Ok) == stamp.in_bounds(),
            r matches Ok(tile) ==> tile@ == old(self)@[stamp] && final(self)@ == old(self)@.insert(
                stamp,
                final(tile)@,
            ),
            r is Err ==> *final(self) == *old(self),
    {
        if stamp.t < LENGTH {
            let ghost before = self@;
            return match self.states[stamp.t].get_mut(stamp.x, stamp.y) {
                Ok(tile) => {
                    proof {
                        assert(after_borrow(self)@ =~= before.insert(stamp, final(tile)@));
                    }
                    Ok(tile)
                },
                Err(e) => {
                    proof {
                        assert(after_borrow(self).states =~= old(self).states);
                    }
                    Err(e)
                },
            };
        }
        Err(())
    }

    fn set(&mut self, stamp: Stamp, state: TileState) -> (r: bool)
        ensures
            r == stamp.in_bounds(),
            r ==> final(self)@ == old(self)@.insert(stamp, state@),
            !r ==> *final(self) == *old(self),
    {
        if stamp.t < LENGTH {
            let r = self.states[stamp.t].set(stamp.x, stamp.y, state);
            assert(r ==> self@ =~= old(self)@.insert(stamp, state@));
            assert(!r ==> self.states =~= old(self).states);
            return r;
        }
        false
    }

    /// Overwrites the vitals recorded on one cell. Occupant and hazard stay.
    pub fn set_status(&mut self, stamp: Stamp, status: Option<PlayerStatus>)
        ensures
            stamp.in_bounds() ==> final(self)@ == old(self)@.insert(
                stamp,
                TileView { status, ..old(self)@[stamp] },
            ),
            !stamp.in_bounds() ==> *final(self) == *old(self),
    {
        if stamp.t < LENGTH {
            if let Ok(tile) = self.states[stamp.t].get_mut(stamp.x, stamp.y) {
                tile.set_status(status);
            };
            assert(stamp.in_bounds() ==> self@ =~= old(self)@.insert(
                stamp,
                TileView { status, ..old(self)@[stamp] },
            ));
            assert(!stamp.in_bounds() ==> self.states =~= old(self).states);
        }
    }

    pub fn states(&self) -> (r: &[BoardState; LENGTH])
        ensures
            forall|t: int| 0 <= t < LENGTH ==> #[trigger] r[t] == self.slice(t),
    {
        &self.states
    }

    /// Writes one accepted action onto the board. Doing so twice changes
    /// nothing more.
    pub fn process_impact(&mut self, impact: Impact)
        requires
            impact.in_bounds(),
        ensures
            final(self)@ == apply_impact(old(self)@, impact),
    {
        let Impact { player: (player_stamp, player_id), attack } = impact;
        if let Ok(player_target_tile) = self.get_mut(player_stamp) {
            player_target_tile.player = Some(player_id);
        }
        if let Some(attack_stamp) = attack {
            if let Ok(attack_target_tile) = self.get_mut(attack_stamp) {
                attack_target_tile.hazard = true;
            }
        }
    }

    /// Judges one player's action against the board as it stands, and gives
    /// back the source with the impact, or the reason for turning it down.
    pub fn calculate_action(&self, player_id: usize, action: PlayerAction, source: Stamp) -> (r:
        Result<(Stamp, Impact), Error>)
        ensures
            match resolve(self@, player_id, action, source) {
                Ok(impact) => r == Ok::<(Stamp, Impact), Error>((source, impact)),
                Err(reason) => r matches Err(Error::InvalidMove(text)) && text@ == reason,
            },
    {
        let id = #[verifier::truncate]
        (player_id as u8);
        let target = match source.checked_add(action.direction) {
            Some(target) => target,
            None => {
                return Err(Error::InvalidMove("out of bounds"));
            },
        };
        let state = match self.get(target) {
            Ok(state) => state,
            Err(_) => {
                return Err(Error::InvalidMove("out of bounds"));
            },
        };
        match action.action_type {
            ActionType::Move => {
                if state.is_movable() {
                    Ok((source, Impact { player: (target, id), attack: None }))
                } else {
                    Err(Error::InvalidMove("target occupied"))
                }
            },
            ActionType::Attack => {
                let player_dest = source + action.direction.temporal;
                match self.get(player_dest) {
                    Ok(dest_state) => {
                        if !dest_state.is_movable() {
                            return Err(Error::InvalidMove("target occupied (stationary)"));
                        }
                        Ok((source, Impact { player: (player_dest, id), attack: Some(target) }))
                    },
                    Err(_) => Err(Error::InvalidMove("out of bounds")),
                }
            },
        }
    }
}

} // verus!
