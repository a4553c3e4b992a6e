use neurojam24_core::{
    ActionType, Direction, Error, GameResult, GameStatus, Impact, PlayerAction, PlayerStatus,
    SpatialDirection, Stamp, TemporalDirection, LENGTH, SIZE,
};

fn action(spatial: SpatialDirection, temporal: TemporalDirection, kind: ActionType) -> PlayerAction {
    PlayerAction { direction: Direction { spatial, temporal }, action_type: kind }
}

fn step(spatial: SpatialDirection) -> PlayerAction {
    action(spatial, TemporalDirection::Forward, ActionType::Move)
}

fn stamp(x: usize, y: usize, t: usize) -> Stamp {
    Stamp { x, y, t }
}

fn status(health: u8, iframes: u8, time: usize) -> PlayerStatus {
    PlayerStatus { health, iframes, time }
}

fn hazards(game: &GameStatus) -> Vec<Stamp> {
    let mut out = Vec::new();
    for t in 0..LENGTH {
        for y in 0..SIZE {
            for x in 0..SIZE {
                if game.board.get(stamp(x, y, t)).unwrap().is_hazard() {
                    out.push(stamp(x, y, t));
                }
            }
        }
    }
    out
}

/// A log of `n` entries that all start from `source` and go nowhere new.
fn standing_log(source: Stamp, id: u8, n: usize) -> Vec<(Stamp, PlayerAction, Impact)> {
    let a = step(SpatialDirection::Right);
    (0..n).map(|_| (source, a, Impact { player: (source, id), attack: None })).collect()
}

#[test]
fn new_status_is_three_zero_zero() {
    let s = PlayerStatus::new();
    assert_eq!(s, status(3, 0, 0));
    assert!(s.is_vulnerable());
    assert!(!s.is_defeated());
}

#[test]
fn damage_takes_one_and_grants_three_ticks() {
    let mut s = PlayerStatus::new();
    s.damage();
    assert_eq!(s, status(2, 3, 0));
    assert!(!s.is_vulnerable());
}

#[test]
fn damage_while_invulnerable_does_nothing() {
    let mut s = status(2, 1, 5);
    s.damage();
    assert_eq!(s, status(2, 1, 5));
}

#[test]
fn damage_never_takes_health_below_zero() {
    let mut s = status(1, 0, 0);
    s.damage();
    assert_eq!(s, status(0, 3, 0));
    assert!(s.is_defeated());
    let mut gone = status(0, 0, 4);
    gone.damage();
    assert_eq!(gone, status(0, 3, 4));
}

#[test]
fn tick_lowers_invulnerability_and_advances_time() {
    let mut s = status(2, 3, 0);
    s.tick();
    assert_eq!(s, status(2, 2, 1));
    s.tick();
    s.tick();
    assert_eq!(s, status(2, 0, 3));
    s.tick();
    assert_eq!(s, status(2, 0, 4));
}

#[test]
fn hazard_hurts_once_then_spares_the_invulnerable() {
    let mut s = PlayerStatus::new();
    s.damage();
    assert_eq!(s.health, 2);
    assert_eq!(s.iframes, 3);
    s.tick();
    s.damage();
    assert_eq!(s, status(2, 2, 1));
}

#[test]
fn initial_game_is_at_the_spawns() {
    let game = GameStatus::initial();
    assert_eq!(game.player_locations, [stamp(3, 1, 0), stamp(3, 5, 0)]);
    assert_eq!(game.player_stati, [status(3, 0, 0); 2]);
    assert!(game.player_actions[0].is_empty());
    assert!(game.player_actions[1].is_empty());
    assert!(!game.board.get(stamp(3, 1, 0)).unwrap().is_movable());
    assert!(!game.board.get(stamp(3, 5, 0)).unwrap().is_movable());
    assert!(hazards(&game).is_empty());
}

#[test]
fn move_right_forward_is_accepted() {
    let mut game = GameStatus::initial();
    let a0 = step(SpatialDirection::Right);
    let a1 = step(SpatialDirection::Left);
    let r = game.push_actions([a0, a1]);
    assert_eq!(r, Ok(None));
    assert_eq!(game.player_locations[0], stamp(4, 1, 1));
    assert_eq!(game.player_locations[1], stamp(2, 5, 1));
    assert_eq!(game.player_stati[0].health, 3);
    assert_eq!(game.player_stati, [status(3, 0, 1), status(3, 0, 1)]);
    assert_eq!(
        game.player_actions[0],
        vec![(stamp(3, 1, 0), a0, Impact { player: (stamp(4, 1, 1), 0), attack: None })]
    );
    assert_eq!(
        game.player_actions[1],
        vec![(stamp(3, 5, 0), a1, Impact { player: (stamp(2, 5, 1), 1), attack: None })]
    );
    assert!(!game.board.get(stamp(4, 1, 1)).unwrap().is_movable());
    assert!(!game.board.get(stamp(3, 1, 0)).unwrap().is_movable());
    assert_eq!(game.board.get(stamp(3, 1, 0)).unwrap().status(), Some(status(3, 0, 0)));
    assert_eq!(game.board.get(stamp(4, 1, 1)).unwrap().status(), Some(status(3, 0, 1)));
}

#[test]
fn attack_up_forward_keeps_the_cell_and_marks_above() {
    let mut game = GameStatus::initial();
    let a0 = action(SpatialDirection::Up, TemporalDirection::Forward, ActionType::Attack);
    let a1 = step(SpatialDirection::Left);
    assert_eq!(game.push_actions([a0, a1]), Ok(None));
    assert_eq!(game.player_locations[0], stamp(3, 1, 1));
    assert_eq!(hazards(&game), vec![stamp(3, 0, 1)]);
    assert_eq!(
        game.player_actions[0][0].2,
        Impact { player: (stamp(3, 1, 1), 0), attack: Some(stamp(3, 0, 1)) }
    );
    assert!(game.board.get(stamp(3, 0, 1)).unwrap().is_movable());
}

#[test]
fn standing_on_a_hazard_costs_one_health() {
    let mut game = GameStatus::initial();
    game.board.process_impact(Impact { player: (stamp(3, 5, 0), 1), attack: Some(stamp(3, 1, 0)) });
    assert_eq!(game.evaluate_actions(), Ok(None));
    assert_eq!(game.player_stati[0], status(2, 3, 0));
    assert_eq!(game.player_stati[1], status(3, 0, 0));
    assert_eq!(game.board.get(stamp(3, 1, 0)).unwrap().status(), Some(status(2, 3, 0)));
}

#[test]
fn hazard_on_consecutive_ticks_hurts_once() {
    let mut game = GameStatus::initial();
    game.board.process_impact(Impact { player: (stamp(3, 5, 0), 1), attack: Some(stamp(3, 1, 0)) });
    game.board.process_impact(Impact { player: (stamp(3, 5, 0), 1), attack: Some(stamp(4, 1, 1)) });
    assert_eq!(
        game.push_actions([step(SpatialDirection::Right), step(SpatialDirection::Left)]),
        Ok(None)
    );
    // hurt on the spawn, one tick later on the next hazard but invulnerable
    assert_eq!(game.player_stati[0], status(2, 2, 1));
    assert_eq!(game.board.get(stamp(3, 1, 0)).unwrap().status(), Some(status(2, 3, 0)));
    assert_eq!(game.board.get(stamp(4, 1, 1)).unwrap().status(), Some(status(2, 2, 1)));
    assert_eq!(
        game.push_actions([step(SpatialDirection::Right), step(SpatialDirection::Left)]),
        Ok(None)
    );
    assert_eq!(game.player_stati[0], status(2, 1, 2));
    assert_eq!(game.player_stati[1], status(3, 0, 2));
    assert_eq!(game.player_locations, [stamp(5, 1, 2), stamp(1, 5, 2)]);
}

#[test]
fn invulnerability_runs_out_after_three_ticks() {
    let mut game = GameStatus::initial();
    let h = stamp(0, 0, 0);
    game.board.process_impact(Impact { player: (h, 0), attack: Some(h) });
    game.player_actions[0] = standing_log(h, 0, 4);
    assert_eq!(game.evaluate_actions(), Ok(None));
    // hurt at entry 0, safe at 1 and 2, hurt again at 3
    assert_eq!(game.player_stati[0], status(1, 2, 4));
    assert_eq!(game.board.get(h).unwrap().status(), Some(status(1, 3, 3)));
}

#[test]
fn win_goes_to_the_survivor() {
    let h = stamp(0, 0, 0);
    let mut game = GameStatus::initial();
    game.board.process_impact(Impact { player: (h, 0), attack: Some(h) });
    game.player_actions[0] = standing_log(h, 0, 7);
    assert_eq!(game.evaluate_actions(), Ok(Some(GameResult::Win(1))));
    assert_eq!(game.player_stati, [status(0, 2, 7), status(3, 0, 0)]);

    let mut other = GameStatus::initial();
    other.board.process_impact(Impact { player: (h, 1), attack: Some(h) });
    other.player_actions[1] = standing_log(h, 1, 7);
    assert_eq!(other.evaluate_actions(), Ok(Some(GameResult::Win(0))));
    assert_eq!(other.player_stati, [status(3, 0, 0), status(0, 2, 7)]);
}

#[test]
fn both_at_zero_is_a_draw() {
    let h = stamp(0, 0, 0);
    let mut game = GameStatus::initial();
    game.board.process_impact(Impact { player: (h, 0), attack: Some(h) });
    game.player_actions[0] = standing_log(h, 0, 7);
    game.player_actions[1] = standing_log(h, 1, 7);
    assert_eq!(game.evaluate_actions(), Ok(Some(GameResult::Draw)));
    assert!(game.player_stati[0].is_defeated());
    assert!(game.player_stati[1].is_defeated());
}

#[test]
fn six_hazardous_entries_leave_one_health() {
    let h = stamp(0, 0, 0);
    let mut game = GameStatus::initial();
    game.board.process_impact(Impact { player: (h, 0), attack: Some(h) });
    game.player_actions[0] = standing_log(h, 0, 6);
    assert_eq!(game.evaluate_actions(), Ok(None));
    assert_eq!(game.player_stati[0], status(1, 0, 6));
}

#[test]
fn defeated_player_stays_at_zero() {
    let h = stamp(0, 0, 0);
    let mut game = GameStatus::initial();
    game.board.process_impact(Impact { player: (h, 0), attack: Some(h) });
    game.player_actions[0] = standing_log(h, 0, 10);
    assert_eq!(game.evaluate_actions(), Ok(Some(GameResult::Win(1))));
    assert_eq!(game.player_stati[0], status(0, 2, 10));
}

#[test]
fn live_location_is_checked_without_a_tick() {
    let mut game = GameStatus::initial();
    game.board.process_impact(Impact { player: (stamp(3, 5, 0), 1), attack: Some(stamp(4, 1, 1)) });
    assert_eq!(
        game.push_actions([step(SpatialDirection::Right), step(SpatialDirection::Left)]),
        Ok(None)
    );
    assert_eq!(game.player_stati[0], status(2, 3, 1));
    assert_eq!(game.board.get(stamp(3, 1, 0)).unwrap().status(), Some(status(3, 0, 0)));
    assert_eq!(game.board.get(stamp(4, 1, 1)).unwrap().status(), Some(status(2, 3, 1)));
}

fn snapshot(game: &GameStatus) -> (String, Vec<Stamp>, [usize; 2], [Stamp; 2], [PlayerStatus; 2]) {
    (
        game.board.render(),
        hazards(game),
        [game.player_actions[0].len(), game.player_actions[1].len()],
        game.player_locations,
        game.player_stati,
    )
}

#[test]
fn rejected_move_into_occupied_cell_changes_nothing() {
    let mut game = GameStatus::initial();
    assert_eq!(
        game.push_actions([step(SpatialDirection::Right), step(SpatialDirection::Left)]),
        Ok(None)
    );
    // player 0 tries to go back onto its own trail: (4,1,1) -> (3,1,0)
    let back = action(SpatialDirection::Left, TemporalDirection::Backward, ActionType::Move);
    let before = snapshot(&game);
    let statuses_before = game.board.get(stamp(3, 1, 0)).unwrap().status();
    let r = game.push_actions([back, step(SpatialDirection::Left)]);
    assert_eq!(r, Err(Error::InvalidMove("target occupied")));
    assert_eq!(snapshot(&game), before);
    assert_eq!(game.board.get(stamp(3, 1, 0)).unwrap().status(), statuses_before);
    assert_eq!(game.player_actions[0].len(), 1);
}

#[test]
fn rejection_of_the_second_player_holds_back_the_first() {
    let mut game = GameStatus::initial();
    let before = snapshot(&game);
    let off = action(SpatialDirection::Left, TemporalDirection::Backward, ActionType::Move);
    let r = game.push_actions([step(SpatialDirection::Right), off]);
    assert_eq!(r, Err(Error::InvalidMove("out of bounds")));
    assert_eq!(snapshot(&game), before);
    assert!(game.board.get(stamp(4, 1, 1)).unwrap().is_movable());
}

#[test]
fn stationary_attacker_blocked_by_own_destination() {
    let mut game = GameStatus::initial();
    game.board.process_impact(Impact { player: (stamp(3, 1, 1), 1), attack: None });
    let before = snapshot(&game);
    let attack = action(SpatialDirection::Down, TemporalDirection::Forward, ActionType::Attack);
    let r = game.push_actions([attack, step(SpatialDirection::Left)]);
    assert_eq!(r, Err(Error::InvalidMove("target occupied (stationary)")));
    assert_eq!(snapshot(&game), before);
}

#[test]
fn coinciding_destinations_are_a_collision() {
    let mut game = GameStatus::initial();
    game.player_locations = [stamp(2, 3, 0), stamp(4, 3, 0)];
    let before = snapshot(&game);
    let r = game.push_actions([step(SpatialDirection::Right), step(SpatialDirection::Left)]);
    assert_eq!(r, Err(Error::InvalidMove("collision")));
    assert_eq!(game.player_locations, [stamp(2, 3, 0), stamp(4, 3, 0)]);
    assert_eq!(snapshot(&game), before);
    assert!(game.board.get(stamp(3, 3, 1)).unwrap().is_movable());
}

#[test]
fn attacker_and_mover_collide_on_the_attackers_cell() {
    let mut game = GameStatus::initial();
    game.player_locations = [stamp(2, 3, 0), stamp(3, 3, 0)];
    let attack = action(SpatialDirection::Right, TemporalDirection::Forward, ActionType::Attack);
    let before = snapshot(&game);
    // player 0 moves onto (3,3,1), where the attacking player 1 stays
    let r = game.push_actions([step(SpatialDirection::Right), attack]);
    assert_eq!(r, Err(Error::InvalidMove("collision")));
    assert_eq!(snapshot(&game), before);
}

#[test]
fn after_a_rejection_fresh_actions_are_accepted() {
    let mut game = GameStatus::initial();
    let off = action(SpatialDirection::Right, TemporalDirection::Backward, ActionType::Move);
    assert!(game.push_actions([off, off]).is_err());
    assert_eq!(
        game.push_actions([step(SpatialDirection::Down), step(SpatialDirection::Up)]),
        Ok(None)
    );
    assert_eq!(game.player_locations, [stamp(3, 2, 1), stamp(3, 4, 1)]);
}

#[test]
fn replaying_twice_gives_the_same_vitals_and_hazards() {
    let mut game = GameStatus::initial();
    let strike_down = action(SpatialDirection::Down, TemporalDirection::Forward, ActionType::Attack);
    let strike_up = action(SpatialDirection::Up, TemporalDirection::Forward, ActionType::Attack);
    assert_eq!(game.push_actions([strike_down, strike_up]), Ok(None));
    assert_eq!(game.push_actions([step(SpatialDirection::Down), step(SpatialDirection::Up)]), Ok(None));
    let stati = game.player_stati;
    let marked = hazards(&game);
    let text = game.board.render();
    assert_eq!(marked, vec![stamp(3, 2, 1), stamp(3, 4, 1)]);
    let first = game.evaluate_actions();
    assert_eq!(game.player_stati, stati);
    assert_eq!(hazards(&game), marked);
    let second = game.evaluate_actions();
    assert_eq!(first, second);
    assert_eq!(game.player_stati, stati);
    assert_eq!(hazards(&game), marked);
    assert_eq!(game.board.render(), text);
}

#[test]
fn walking_into_a_struck_cell_hurts() {
    let mut game = GameStatus::initial();
    let strike_down = action(SpatialDirection::Down, TemporalDirection::Forward, ActionType::Attack);
    // player 1 strikes (3,6,1) and stays at (3,5,1); player 0 strikes (3,2,1), stays at (3,1,1)
    assert_eq!(game.push_actions([strike_down, strike_down]), Ok(None));
    assert_eq!(hazards(&game), vec![stamp(3, 2, 1), stamp(3, 6, 1)]);
    // player 0 goes back in time below its own strike, then forward into it
    let down_back = action(SpatialDirection::Down, TemporalDirection::Backward, ActionType::Move);
    assert_eq!(game.push_actions([down_back, step(SpatialDirection::Left)]), Ok(None));
    assert_eq!(game.player_locations[0], stamp(3, 2, 0));
    let stay = action(SpatialDirection::Left, TemporalDirection::Forward, ActionType::Attack);
    assert_eq!(game.push_actions([stay, step(SpatialDirection::Left)]), Ok(None));
    assert_eq!(game.player_locations[0], stamp(3, 2, 1));
    assert_eq!(game.player_stati[0], status(2, 3, 3));
    assert_eq!(game.player_stati[1], status(3, 0, 3));
}

#[test]
fn histories_only_grow() {
    let mut game = GameStatus::initial();
    let a0 = step(SpatialDirection::Right);
    let a1 = step(SpatialDirection::Left);
    game.push_actions([a0, a1]).unwrap();
    let first0 = game.player_actions[0][0];
    game.push_actions([a0, a1]).unwrap();
    assert_eq!(game.player_actions[0].len(), 2);
    assert_eq!(game.player_actions[0][0], first0);
    assert_eq!(game.player_actions[0][1].0, stamp(4, 1, 1));
    assert_eq!(game.player_actions[1][1].0, stamp(2, 5, 1));
}
