use tictactoe::Coordinates;
use tictactoe::Game;
use tictactoe::GameOutcome;
use tictactoe::Indices;
use tictactoe::MoveError;
use tictactoe::Notification;
use tictactoe::NotificationMessage;
use tictactoe::NotificationType;
use tictactoe::TileDisplayState;
use tictactoe::TileOccupationState;

fn coord(column: char, row: usize) -> Coordinates {
    Coordinates { column, row }
}

fn play(game: &mut Game, column: char, row: usize) {
    let mover = game.get_current_turn_player();
    game.apply_move(coord(column, row), mover).unwrap();
}

#[test]
fn new_game_is_empty_in_progress_at_turn_one() {
    for n in 3..=8usize {
        let game = Game::new(n).unwrap();
        assert_eq!(game.grid_dimensions, n);
        assert_eq!(game.board.dimension, n);
        assert_eq!(game.board.tiles.len(), n * n);
        for tile in &game.board.tiles {
            assert!(matches!(tile.occupation_state, TileOccupationState::Empty));
            assert!(matches!(tile.display_state, TileDisplayState::Normal));
        }
        assert_eq!(game.outcome, GameOutcome::InProgress);
        assert_eq!(game.turn_number, 1);
        assert!(game.notification.is_none());
        assert_eq!(game.players.len(), 2);
        assert_eq!(game.players[0].number, 1);
        assert_eq!(game.players[0].mark, 'X');
        assert_eq!(game.players[1].number, 2);
        assert_eq!(game.players[1].mark, 'O');
    }
}

#[test]
fn new_game_rejects_dimension_outside_supported_range() {
    let e = Game::new(2).unwrap_err();
    assert_eq!(e.dimension, 2);
    let e = Game::new(9).unwrap_err();
    assert_eq!(e.dimension, 9);
    assert!(Game::new(0).is_err());
}

#[test]
fn current_player_alternates_with_turns() {
    let mut game = Game::new(3).unwrap();
    assert_eq!(game.get_current_turn_player().mark, 'X');
    play(&mut game, 'A', 1);
    assert_eq!(game.turn_number, 2);
    assert_eq!(game.get_current_turn_player().mark, 'O');
    play(&mut game, 'B', 1);
    assert_eq!(game.turn_number, 3);
    assert_eq!(game.get_current_turn_player().mark, 'X');
}

#[test]
fn successful_move_claims_exactly_one_tile() {
    let mut game = Game::new(3).unwrap();
    play(&mut game, 'B', 2);
    let tile = game.board.get(&coord('B', 2)).unwrap();
    match tile.occupation_state {
        TileOccupationState::Occupied(p) => assert_eq!(p.mark, 'X'),
        TileOccupationState::Empty => panic!("tile was not claimed"),
    }
    assert!(matches!(tile.display_state, TileDisplayState::NewlyCreated));
    let mut claimed = 0;
    for tile in &game.board.tiles {
        if matches!(tile.occupation_state, TileOccupationState::Occupied(_)) {
            claimed += 1;
        }
    }
    assert_eq!(claimed, 1);
}

#[test]
fn move_on_taken_tile_names_occupant_and_changes_nothing() {
    let mut game = Game::new(3).unwrap();
    play(&mut game, 'A', 1);
    let turn_before = game.turn_number;
    let o = game.get_current_turn_player();
    let result = game.apply_move(coord('A', 1), o);
    match result {
        Err(MoveError::TileTaken(p)) => {
            assert_eq!(p.number, 1);
            assert_eq!(p.mark, 'X');
        },
        other => panic!("expected a taken-tile failure, got {:?}", other),
    }
    assert_eq!(game.turn_number, turn_before);
    assert_eq!(game.outcome, GameOutcome::InProgress);
    let tile = game.board.get(&coord('A', 1)).unwrap();
    match tile.occupation_state {
        TileOccupationState::Occupied(p) => assert_eq!(p.mark, 'X'),
        TileOccupationState::Empty => panic!("occupation was lost"),
    }
}

#[test]
fn move_out_of_bounds_fails_and_changes_nothing() {
    let mut game = Game::new(3).unwrap();
    let x = game.get_current_turn_player();
    for bad in [coord('Z', 1), coord('A', 0), coord('A', 9), coord('D', 1)] {
        let result = game.apply_move(bad, x);
        assert!(matches!(result, Err(MoveError::OutOfBounds)));
        assert_eq!(game.turn_number, 1);
        assert_eq!(game.outcome, GameOutcome::InProgress);
        for tile in &game.board.tiles {
            assert!(matches!(tile.occupation_state, TileOccupationState::Empty));
        }
    }
}

#[test]
fn column_victory_scenario_marks_the_winning_line() {
    let mut game = Game::new(3).unwrap();
    play(&mut game, 'A', 1);
    play(&mut game, 'B', 1);
    play(&mut game, 'A', 2);
    play(&mut game, 'B', 2);
    play(&mut game, 'A', 3);
    match game.outcome {
        GameOutcome::Victory(p) => {
            assert_eq!(p.number, 1);
            assert_eq!(p.mark, 'X');
        },
        other => panic!("expected a victory, got {:?}", other),
    }
    for winning in ['A'].iter().flat_map(|c| (1..=3usize).map(move |r| coord(*c, r))) {
        let tile = game.board.get(&winning).unwrap();
        assert!(matches!(tile.display_state, TileDisplayState::Victory));
    }
    for other in [coord('B', 1), coord('B', 2), coord('B', 3), coord('C', 1), coord('C', 2)] {
        let tile = game.board.get(&other).unwrap();
        assert!(!matches!(tile.display_state, TileDisplayState::Victory));
    }
    assert!(matches!(
        game.notification,
        Some(Notification {
            message: NotificationMessage::PlayerWins(_),
            notification_type: NotificationType::Success,
        })
    ));
}

#[test]
fn row_victory_marks_exactly_that_row() {
    let mut game = Game::new(3).unwrap();
    play(&mut game, 'A', 1);
    play(&mut game, 'A', 2);
    play(&mut game, 'B', 1);
    play(&mut game, 'B', 2);
    play(&mut game, 'C', 1);
    assert!(matches!(game.outcome, GameOutcome::Victory(p) if p.mark == 'X'));
    for winning in [coord('A', 1), coord('B', 1), coord('C', 1)] {
        let tile = game.board.get(&winning).unwrap();
        assert!(matches!(tile.display_state, TileDisplayState::Victory));
    }
    for other in [coord('A', 2), coord('B', 2), coord('C', 2), coord('A', 3)] {
        let tile = game.board.get(&other).unwrap();
        assert!(!matches!(tile.display_state, TileDisplayState::Victory));
    }
}

#[test]
fn main_diagonal_victory_is_detected() {
    let mut game = Game::new(3).unwrap();
    play(&mut game, 'A', 1);
    play(&mut game, 'B', 1);
    play(&mut game, 'B', 2);
    play(&mut game, 'C', 1);
    play(&mut game, 'C', 3);
    assert!(matches!(game.outcome, GameOutcome::Victory(p) if p.mark == 'X'));
    for winning in [coord('A', 1), coord('B', 2), coord('C', 3)] {
        let tile = game.board.get(&winning).unwrap();
        assert!(matches!(tile.display_state, TileDisplayState::Victory));
    }
}

#[test]
fn anti_diagonal_victory_is_detected() {
    let mut game = Game::new(3).unwrap();
    play(&mut game, 'C', 1);
    play(&mut game, 'A', 1);
    play(&mut game, 'B', 2);
    play(&mut game, 'B', 1);
    play(&mut game, 'A', 3);
    assert!(matches!(game.outcome, GameOutcome::Victory(p) if p.mark == 'X'));
    for winning in [coord('C', 1), coord('B', 2), coord('A', 3)] {
        let tile = game.board.get(&winning).unwrap();
        assert!(matches!(tile.display_state, TileDisplayState::Victory));
    }
}

#[test]
fn second_player_can_win() {
    let mut game = Game::new(3).unwrap();
    play(&mut game, 'A', 1);
    play(&mut game, 'C', 1);
    play(&mut game, 'A', 2);
    play(&mut game, 'C', 2);
    play(&mut game, 'B', 2);
    play(&mut game, 'C', 3);
    match game.outcome {
        GameOutcome::Victory(p) => assert_eq!(p.mark, 'O'),
        other => panic!("expected a victory for the second player, got {:?}", other),
    }
}

#[test]
fn terminal_victory_freezes_the_turn_counter() {
    let mut game = Game::new(3).unwrap();
    play(&mut game, 'A', 1);
    play(&mut game, 'B', 1);
    play(&mut game, 'A', 2);
    play(&mut game, 'B', 2);
    let turn_before = game.turn_number;
    play(&mut game, 'A', 3);
    assert_eq!(game.turn_number, turn_before);
}

#[test]
fn full_board_without_winner_is_a_draw() {
    let mut game = Game::new(3).unwrap();
    play(&mut game, 'B', 2);
    play(&mut game, 'A', 1);
    play(&mut game, 'C', 1);
    play(&mut game, 'A', 3);
    play(&mut game, 'A', 2);
    play(&mut game, 'C', 2);
    play(&mut game, 'B', 1);
    play(&mut game, 'B', 3);
    let turn_before = game.turn_number;
    play(&mut game, 'C', 3);
    assert_eq!(game.outcome, GameOutcome::Draw);
    assert_eq!(game.turn_number, turn_before);
    assert!(matches!(
        game.notification,
        Some(Notification {
            message: NotificationMessage::GameDrawn,
            notification_type: NotificationType::Info,
        })
    ));
    // No candidate line — row, column, or diagonal — is owned by one player.
    let n = game.grid_dimensions;
    let mut lines: Vec<Vec<Indices>> = Vec::new();
    for r in 0..n {
        lines.push((0..n).map(|c| Indices { row: r, column: c }).collect());
    }
    for c in 0..n {
        lines.push((0..n).map(|r| Indices { row: r, column: c }).collect());
    }
    lines.push((0..n).map(|i| Indices { row: i, column: i }).collect());
    lines.push((0..n).map(|i| Indices { row: n - 1 - i, column: i }).collect());
    for line in &lines {
        assert!(game.single_player_occupying_indices(line).is_none());
    }
}

#[test]
fn draw_fills_every_tile() {
    let mut game = Game::new(3).unwrap();
    let moves = [
        ('B', 2),
        ('A', 1),
        ('C', 1),
        ('A', 3),
        ('A', 2),
        ('C', 2),
        ('B', 1),
        ('B', 3),
        ('C', 3),
    ];
    for (column, row) in moves {
        play(&mut game, column, row);
    }
    assert!(game.board.all_tiles_occupied());
}

#[test]
fn move_error_notification_marks_the_offending_tile() {
    let mut game = Game::new(3).unwrap();
    play(&mut game, 'A', 1);
    let o = game.get_current_turn_player();
    let error = game.apply_move(coord('A', 1), o).unwrap_err();
    game.note_move_error(error, coord('A', 1));
    match &game.notification {
        Some(Notification {
            message: NotificationMessage::TileAlreadyOccupied(c, p),
            notification_type: NotificationType::Error,
        }) => {
            assert_eq!(*c, coord('A', 1));
            assert_eq!(p.mark, 'X');
        },
        other => panic!("unexpected notification {:?}", other),
    }
    let tile = game.board.get(&coord('A', 1)).unwrap();
    assert!(matches!(tile.display_state, TileDisplayState::Error));
}

#[test]
fn out_of_bounds_error_notification_leaves_board_unchanged() {
    let mut game = Game::new(3).unwrap();
    let x = game.get_current_turn_player();
    let error = game.apply_move(coord('Z', 1), x).unwrap_err();
    game.note_move_error(error, coord('Z', 1));
    assert!(matches!(
        &game.notification,
        Some(Notification {
            message: NotificationMessage::CoordinatesNotFound(_),
            notification_type: NotificationType::Error,
        })
    ));
    for tile in &game.board.tiles {
        assert!(matches!(tile.display_state, TileDisplayState::Normal));
    }
}

#[test]
fn parse_error_notification_carries_the_text() {
    let mut game = Game::new(3).unwrap();
    let error = Coordinates::from_user_input(" 12 ").unwrap_err();
    game.note_parse_error(error);
    match &game.notification {
        Some(Notification {
            message: NotificationMessage::CouldNotParse(text),
            notification_type: NotificationType::Error,
        }) => assert_eq!(text, "12"),
        other => panic!("unexpected notification {:?}", other),
    }
}

#[test]
fn clearing_the_notification_removes_it() {
    let mut game = Game::new(3).unwrap();
    let error = Coordinates::from_user_input("??").unwrap_err();
    game.note_parse_error(error);
    assert!(game.notification.is_some());
    game.clear_notification();
    assert!(game.notification.is_none());
}

#[test]
fn a_move_resets_stale_display_annotations() {
    let mut game = Game::new(3).unwrap();
    play(&mut game, 'A', 1);
    let o = game.get_current_turn_player();
    let error = game.apply_move(coord('A', 1), o).unwrap_err();
    game.note_move_error(error, coord('A', 1));
    play(&mut game, 'B', 2);
    let first = game.board.get(&coord('A', 1)).unwrap();
    assert!(matches!(first.display_state, TileDisplayState::Normal));
    let second = game.board.get(&coord('B', 2)).unwrap();
    assert!(matches!(second.display_state, TileDisplayState::NewlyCreated));
}

#[test]
fn board_get_distinguishes_missing_coordinates() {
    let game = Game::new(3).unwrap();
    assert!(game.board.get(&coord('A', 1)).is_some());
    assert!(game.board.get(&coord('C', 3)).is_some());
    assert!(game.board.get(&coord('D', 1)).is_none());
    assert!(game.board.get(&coord('A', 4)).is_none());
    assert!(game.board.get(&coord('A', 0)).is_none());
}

#[test]
fn largest_board_plays_a_full_column() {
    let mut game = Game::new(8).unwrap();
    for row in 1..=7usize {
        play(&mut game, 'H', row);
        play(&mut game, 'A', row);
    }
    play(&mut game, 'H', 8);
    assert!(matches!(game.outcome, GameOutcome::Victory(p) if p.mark == 'X'));
    for row in 1..=8usize {
        let tile = game.board.get(&coord('H', row)).unwrap();
        assert!(matches!(tile.display_state, TileDisplayState::Victory));
    }
}
#[test]
fn parsed_coordinates_beyond_the_board_fail_as_out_of_bounds() {
    let mut game = Game::new(3).unwrap();
    let x = game.get_current_turn_player();
    let coords = Coordinates::from_user_input("H8").unwrap();
    let result = game.apply_move(coords, x);
    assert!(matches!(result, Err(MoveError::OutOfBounds)));
    assert_eq!(game.outcome, GameOutcome::InProgress);
    assert_eq!(game.turn_number, 1);
}
