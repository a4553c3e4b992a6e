use neurojam24_core::{
    ActionType, Board, BoardState, Direction, Error, Impact, PlayerAction, PlayerStatus,
    SpatialDirection, Stamp, TemporalDirection, TileState, LENGTH, SIZE,
};

fn action(spatial: SpatialDirection, temporal: TemporalDirection, kind: ActionType) -> PlayerAction {
    PlayerAction { direction: Direction { spatial, temporal }, action_type: kind }
}

fn stamp(x: usize, y: usize, t: usize) -> Stamp {
    Stamp { x, y, t }
}

#[test]
fn constants_are_seven_by_seven_by_five() {
    assert_eq!(SIZE, 7);
    assert_eq!(LENGTH, 5);
}

#[test]
fn spawns_are_symmetric_at_slice_zero() {
    let spawns = Board::spawns();
    assert_eq!(spawns[0], stamp(3, 1, 0));
    assert_eq!(spawns[1], stamp(3, 5, 0));
}

#[test]
fn default_tile_is_empty() {
    let tile = TileState::default();
    assert!(tile.is_empty());
    assert!(tile.is_movable());
    assert!(!tile.is_hazard());
    assert_eq!(tile.status(), None);
    assert_eq!(tile.char(), 'E');
}

#[test]
fn tile_set_status_keeps_occupancy() {
    let mut tile = TileState::default();
    let status = PlayerStatus { health: 2, iframes: 3, time: 4 };
    tile.set_status(Some(status));
    assert_eq!(tile.status(), Some(status));
    assert!(tile.is_empty());
    assert!(!tile.is_hazard());
    tile.set_status(None);
    assert_eq!(tile.status(), None);
}

#[test]
fn board_state_get_and_set() {
    let mut grid = BoardState::empty();
    assert!(grid.get(0, 0).unwrap().is_empty());
    assert!(grid.get(6, 6).unwrap().is_empty());
    assert_eq!(grid.get(7, 0).map(|_| ()), Err(()));
    assert_eq!(grid.get(0, 7).map(|_| ()), Err(()));

    let mut tile = TileState::default();
    tile.set_status(Some(PlayerStatus::new()));
    assert!(grid.set(2, 5, tile));
    assert_eq!(grid.get(2, 5).unwrap().status(), Some(PlayerStatus::new()));
    assert_eq!(grid.get(5, 2).unwrap().status(), None);
    assert!(!grid.set(7, 5, tile));
    assert!(!grid.set(2, 7, tile));
    assert_eq!(grid.tiles()[5][2].status(), Some(PlayerStatus::new()));
    assert_eq!(grid.tiles()[2][5].status(), None);
}

#[test]
fn board_state_get_mut_writes_through() {
    let mut grid = BoardState::empty();
    assert!(grid.get_mut(7, 0).is_err());
    assert!(grid.get_mut(0, 7).is_err());
    let status = PlayerStatus { health: 1, iframes: 0, time: 9 };
    grid.get_mut(4, 3).unwrap().set_status(Some(status));
    assert_eq!(grid.get(4, 3).unwrap().status(), Some(status));
    assert_eq!(grid.get(3, 4).unwrap().status(), None);
}

#[test]
fn initial_board_holds_both_players() {
    let board = Board::initial();
    let first = board.get(stamp(3, 1, 0)).unwrap();
    let second = board.get(stamp(3, 5, 0)).unwrap();
    assert!(!first.is_movable());
    assert!(!second.is_movable());
    assert_eq!(first.char(), '0');
    assert_eq!(second.char(), '1');
    assert!(!first.is_hazard());
    assert_eq!(first.status(), None);
    let mut occupied = 0;
    for t in 0..LENGTH {
        for y in 0..SIZE {
            for x in 0..SIZE {
                if !board.get(stamp(x, y, t)).unwrap().is_movable() {
                    occupied += 1;
                }
            }
        }
    }
    assert_eq!(occupied, 2);
    assert_eq!(board.states().len(), LENGTH);
    assert!(!board.states()[0].get(3, 1).unwrap().is_movable());
    assert!(board.states()[1].get(3, 1).unwrap().is_movable());
}

#[test]
fn board_get_rejects_stamps_off_the_board() {
    let board = Board::initial();
    assert!(board.get(stamp(7, 0, 0)).is_err());
    assert!(board.get(stamp(0, 7, 0)).is_err());
    assert!(board.get(stamp(0, 0, 5)).is_err());
    assert!(board.get(stamp(usize::MAX, 0, 0)).is_err());
    assert!(board.get(stamp(6, 6, 4)).is_ok());
}

#[test]
fn board_set_status_touches_one_cell_only() {
    let mut board = Board::initial();
    let status = PlayerStatus { health: 2, iframes: 3, time: 0 };
    board.set_status(stamp(3, 1, 0), Some(status));
    let tile = board.get(stamp(3, 1, 0)).unwrap();
    assert_eq!(tile.status(), Some(status));
    assert!(!tile.is_movable());
    assert!(!tile.is_hazard());
    assert_eq!(board.get(stamp(3, 5, 0)).unwrap().status(), None);
    board.set_status(stamp(9, 9, 9), Some(status));
    assert_eq!(board.get(stamp(3, 5, 0)).unwrap().status(), None);
}

#[test]
fn process_impact_marks_occupant_and_hazard() {
    let mut board = Board::initial();
    let impact = Impact { player: (stamp(2, 2, 1), 0), attack: Some(stamp(2, 1, 1)) };
    board.process_impact(impact);
    assert!(!board.get(stamp(2, 2, 1)).unwrap().is_movable());
    assert!(!board.get(stamp(2, 2, 1)).unwrap().is_hazard());
    assert!(board.get(stamp(2, 1, 1)).unwrap().is_hazard());
    assert!(board.get(stamp(2, 1, 1)).unwrap().is_movable());
    assert_eq!(board.get(stamp(2, 1, 1)).unwrap().char(), 'X');
    assert_eq!(board.get(stamp(2, 2, 1)).unwrap().char(), '0');
    assert!(board.get(stamp(2, 3, 1)).unwrap().is_empty());
}

#[test]
fn process_impact_twice_changes_nothing_more() {
    let mut once = Board::initial();
    let mut twice = Board::initial();
    let impact = Impact { player: (stamp(4, 4, 2), 1), attack: Some(stamp(4, 3, 2)) };
    once.process_impact(impact);
    twice.process_impact(impact);
    twice.process_impact(impact);
    assert_eq!(once.render(), twice.render());
    for t in 0..LENGTH {
        for y in 0..SIZE {
            for x in 0..SIZE {
                let a = once.get(stamp(x, y, t)).unwrap();
                let b = twice.get(stamp(x, y, t)).unwrap();
                assert_eq!(a.is_hazard(), b.is_hazard());
                assert_eq!(a.is_movable(), b.is_movable());
                assert_eq!(a.status(), b.status());
            }
        }
    }
}

#[test]
fn hazard_survives_a_player_stepping_on_it() {
    let mut board = Board::initial();
    board.process_impact(Impact { player: (stamp(1, 1, 1), 0), attack: Some(stamp(5, 5, 1)) });
    board.process_impact(Impact { player: (stamp(5, 5, 1), 1), attack: None });
    let tile = board.get(stamp(5, 5, 1)).unwrap();
    assert!(tile.is_hazard());
    assert!(!tile.is_movable());
    assert_eq!(tile.char(), '1');
}

#[test]
fn tile_char_shows_first_decimal_digit() {
    let mut board = Board::initial();
    board.process_impact(Impact { player: (stamp(0, 0, 0), 7), attack: None });
    board.process_impact(Impact { player: (stamp(1, 0, 0), 42), attack: None });
    board.process_impact(Impact { player: (stamp(2, 0, 0), 255), attack: None });
    board.process_impact(Impact { player: (stamp(3, 0, 0), 100), attack: None });
    assert_eq!(board.get(stamp(0, 0, 0)).unwrap().char(), '7');
    assert_eq!(board.get(stamp(1, 0, 0)).unwrap().char(), '4');
    assert_eq!(board.get(stamp(2, 0, 0)).unwrap().char(), '2');
    assert_eq!(board.get(stamp(3, 0, 0)).unwrap().char(), '1');
}

#[test]
fn board_state_render_prints_rows() {
    let empty = BoardState::empty();
    assert_eq!(empty.render(), "EEEEEEE\n".repeat(7));
    let board = Board::initial();
    let expected = "EEEEEEE\nEEE0EEE\nEEEEEEE\nEEEEEEE\nEEEEEEE\nEEE1EEE\nEEEEEEE\n";
    assert_eq!(board.states()[0].render(), expected);
}

#[test]
fn board_render_prints_every_slice() {
    let mut board = Board::initial();
    board.process_impact(Impact { player: (stamp(0, 0, 1), 0), attack: Some(stamp(6, 6, 4)) });
    let first = "EEEEEEE\nEEE0EEE\nEEEEEEE\nEEEEEEE\nEEEEEEE\nEEE1EEE\nEEEEEEE\n";
    let second = "0EEEEEE\nEEEEEEE\nEEEEEEE\nEEEEEEE\nEEEEEEE\nEEEEEEE\nEEEEEEE\n";
    let blank = "EEEEEEE\n".repeat(7);
    let last = "EEEEEEE\nEEEEEEE\nEEEEEEE\nEEEEEEE\nEEEEEEE\nEEEEEEE\nEEEEEEX\n";
    let expected = format!("{first}\n\n{second}\n\n{blank}\n\n{blank}\n\n{last}\n\n");
    let text = board.render();
    assert_eq!(text.chars().count(), 290);
    assert_eq!(text, expected);
}

#[test]
fn stamp_addition_follows_directions() {
    let origin = stamp(3, 3, 2);
    assert_eq!(origin + SpatialDirection::Left, stamp(2, 3, 2));
    assert_eq!(origin + SpatialDirection::Right, stamp(4, 3, 2));
    assert_eq!(origin + SpatialDirection::Up, stamp(3, 2, 2));
    assert_eq!(origin + SpatialDirection::Down, stamp(3, 4, 2));
    assert_eq!(origin + TemporalDirection::Forward, stamp(3, 3, 3));
    assert_eq!(origin + TemporalDirection::Backward, stamp(3, 3, 1));
    let both = Direction { spatial: SpatialDirection::Up, temporal: TemporalDirection::Backward };
    assert_eq!(origin + both, stamp(3, 2, 1));
}

#[test]
fn checked_add_refuses_to_leave_the_numbers() {
    let left_back = Direction { spatial: SpatialDirection::Left, temporal: TemporalDirection::Backward };
    let right_fwd = Direction { spatial: SpatialDirection::Right, temporal: TemporalDirection::Forward };
    let up_fwd = Direction { spatial: SpatialDirection::Up, temporal: TemporalDirection::Forward };
    let down_fwd = Direction { spatial: SpatialDirection::Down, temporal: TemporalDirection::Forward };
    assert_eq!(stamp(0, 3, 3).checked_add(left_back), None);
    assert_eq!(stamp(3, 3, 0).checked_add(left_back), None);
    assert_eq!(stamp(1, 3, 1).checked_add(left_back), Some(stamp(0, 3, 0)));
    assert_eq!(stamp(usize::MAX, 0, 0).checked_add(right_fwd), None);
    assert_eq!(stamp(0, 0, usize::MAX).checked_add(right_fwd), None);
    assert_eq!(stamp(3, 0, 0).checked_add(up_fwd), None);
    assert_eq!(stamp(3, usize::MAX, 0).checked_add(down_fwd), None);
    assert_eq!(stamp(6, 6, 4).checked_add(right_fwd), Some(stamp(7, 6, 5)));
}

#[test]
fn move_goes_to_the_full_offset() {
    let board = Board::initial();
    let a = action(SpatialDirection::Right, TemporalDirection::Forward, ActionType::Move);
    let source = stamp(3, 1, 0);
    assert_eq!(
        board.calculate_action(0, a, source),
        Ok((source, Impact { player: (stamp(4, 1, 1), 0), attack: None }))
    );
}

#[test]
fn attack_moves_in_time_only_and_strikes_the_offset() {
    let board = Board::initial();
    let a = action(SpatialDirection::Up, TemporalDirection::Forward, ActionType::Attack);
    let source = stamp(3, 5, 0);
    assert_eq!(
        board.calculate_action(1, a, source),
        Ok((source, Impact { player: (stamp(3, 5, 1), 1), attack: Some(stamp(3, 4, 1)) }))
    );
}

#[test]
fn move_onto_occupied_cell_is_rejected() {
    let mut board = Board::initial();
    board.process_impact(Impact { player: (stamp(4, 1, 1), 1), attack: None });
    let a = action(SpatialDirection::Right, TemporalDirection::Forward, ActionType::Move);
    assert_eq!(
        board.calculate_action(0, a, stamp(3, 1, 0)),
        Err(Error::InvalidMove("target occupied"))
    );
}

#[test]
fn attack_with_occupied_own_destination_is_rejected() {
    let mut board = Board::initial();
    board.process_impact(Impact { player: (stamp(3, 1, 1), 1), attack: None });
    let a = action(SpatialDirection::Right, TemporalDirection::Forward, ActionType::Attack);
    assert_eq!(
        board.calculate_action(0, a, stamp(3, 1, 0)),
        Err(Error::InvalidMove("target occupied (stationary)"))
    );
}

#[test]
fn attack_on_occupied_target_is_allowed() {
    let mut board = Board::initial();
    board.process_impact(Impact { player: (stamp(4, 1, 1), 1), attack: None });
    let a = action(SpatialDirection::Right, TemporalDirection::Forward, ActionType::Attack);
    assert_eq!(
        board.calculate_action(0, a, stamp(3, 1, 0)),
        Ok((stamp(3, 1, 0), Impact { player: (stamp(3, 1, 1), 0), attack: Some(stamp(4, 1, 1)) }))
    );
}

#[test]
fn hazard_does_not_block_a_move() {
    let mut board = Board::initial();
    board.process_impact(Impact { player: (stamp(0, 0, 4), 1), attack: Some(stamp(4, 1, 1)) });
    let a = action(SpatialDirection::Right, TemporalDirection::Forward, ActionType::Move);
    assert_eq!(
        board.calculate_action(0, a, stamp(3, 1, 0)),
        Ok((stamp(3, 1, 0), Impact { player: (stamp(4, 1, 1), 0), attack: None }))
    );
}

#[test]
fn stepping_off_the_grid_is_an_invalid_move() {
    let board = Board::initial();
    let oob = Err(Error::InvalidMove("out of bounds"));
    let left = action(SpatialDirection::Left, TemporalDirection::Forward, ActionType::Move);
    let right = action(SpatialDirection::Right, TemporalDirection::Forward, ActionType::Move);
    let up = action(SpatialDirection::Up, TemporalDirection::Forward, ActionType::Move);
    let down = action(SpatialDirection::Down, TemporalDirection::Forward, ActionType::Move);
    assert_eq!(board.calculate_action(0, left, stamp(0, 3, 0)), oob);
    assert_eq!(board.calculate_action(0, right, stamp(6, 3, 0)), oob);
    assert_eq!(board.calculate_action(0, up, stamp(3, 0, 0)), oob);
    assert_eq!(board.calculate_action(0, down, stamp(3, 6, 0)), oob);
    let up_attack = action(SpatialDirection::Up, TemporalDirection::Forward, ActionType::Attack);
    assert_eq!(board.calculate_action(0, up_attack, stamp(3, 0, 0)), oob);
}

#[test]
fn stepping_off_the_timeline_is_an_invalid_move() {
    let board = Board::initial();
    let oob = Err(Error::InvalidMove("out of bounds"));
    let back = action(SpatialDirection::Right, TemporalDirection::Backward, ActionType::Move);
    let forward = action(SpatialDirection::Right, TemporalDirection::Forward, ActionType::Move);
    assert_eq!(board.calculate_action(0, back, stamp(3, 1, 0)), oob);
    assert_eq!(board.calculate_action(0, forward, stamp(3, 1, 4)), oob);
    let back_attack = action(SpatialDirection::Right, TemporalDirection::Backward, ActionType::Attack);
    assert_eq!(board.calculate_action(1, back_attack, stamp(3, 5, 0)), oob);
}

#[test]
fn source_off_the_board_is_an_invalid_move() {
    let board = Board::initial();
    let oob = Err(Error::InvalidMove("out of bounds"));
    let left_attack = action(SpatialDirection::Left, TemporalDirection::Forward, ActionType::Attack);
    // the struck cell is on the board, the attacker's own destination is not
    assert_eq!(board.calculate_action(0, left_attack, stamp(7, 3, 0)), oob);
    let right = action(SpatialDirection::Right, TemporalDirection::Forward, ActionType::Move);
    assert_eq!(board.calculate_action(0, right, stamp(usize::MAX, 3, 0)), oob);
    assert_eq!(board.calculate_action(0, right, stamp(3, 3, usize::MAX)), oob);
}

#[test]
fn calculate_action_does_not_touch_the_board() {
    let board = Board::initial();
    let before = board.render();
    let a = action(SpatialDirection::Down, TemporalDirection::Forward, ActionType::Attack);
    let _ = board.calculate_action(0, a, stamp(3, 1, 0));
    assert_eq!(board.render(), before);
}

#[test]
fn player_id_is_cut_to_a_byte() {
    let board = Board::initial();
    let a = action(SpatialDirection::Right, TemporalDirection::Forward, ActionType::Move);
    let r = board.calculate_action(257, a, stamp(3, 1, 0)).unwrap();
    assert_eq!(r.1.player.1, 1);
}
