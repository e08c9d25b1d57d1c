use kuboble_core::level_run::{
    Action, Direction, LevelRun, LevelRunState, Move, OldActivePiece, PiecesChanged, MAX_MOVES,
};
use kuboble_core::level_select::{LevelInfo, LevelStatus};
use kuboble_core::{Level, LevelRating, Piece, Space, Vector};

fn level_one() -> Level {
    Level::from_rows(
        &["#####", "#   #", "#   #", "#OG #", "#####"],
        &[Vector::new(1, 1), Vector::new(2, 1)],
        5,
    )
    .unwrap()
}

fn info(level: &Level) -> LevelInfo<'_> {
    LevelInfo { index: 0, rating: LevelRating::default(), level }
}

fn positions(run: &LevelRun) -> Vec<Vector<u8>> {
    let map = run.piece_positions();
    map.pieces().into_iter().map(|p| map.get(p)).collect()
}

#[test]
fn direction_basics() {
    assert_eq!(Direction::from_char('U'), Some(Direction::Up));
    assert_eq!(Direction::from_char('R'), Some(Direction::Right));
    assert_eq!(Direction::from_char('x'), None);
    assert_eq!(Direction::Left.as_char(), 'L');
    assert_eq!(Direction::Up.as_vector(), Vector::new(0, -1));
    assert_eq!(Direction::Right.as_vector(), Vector::new(1, 0));
    assert!(Direction::Left.is_horizontal());
    assert!(!Direction::Down.is_horizontal());
    assert!(Direction::Down.is_forward());
    assert!(!Direction::Left.is_forward());
    assert_eq!(Direction::Up.opposite(), Direction::Down);
    let m = Move::new(Piece::Blue, Direction::Left);
    assert_eq!(m.inverse(), Move::new(Piece::Blue, Direction::Right));
}

#[test]
fn slide_goes_as_far_as_it_can() {
    let level = level_one();
    let mut state = LevelRunState::new(&level);
    let slid = state.attempt_move(Move::new(Piece::Green, Direction::Down)).unwrap();
    assert_eq!(state.piece_position(Piece::Green), Vector::new(1, 3));
    assert_eq!(slid.slide_distance(), 2);
    assert_eq!(slid.starting_position(), Vector::new(1, 1));
    assert_eq!(slid.strip_top_left, Vector::new(1, 1));
    assert_eq!(slid.strip_spaces, vec![Space::Free, Space::Free, Space::Goal(Piece::Orange)]);
}

#[test]
fn blocked_slide_changes_nothing() {
    let level = level_one();
    let mut state = LevelRunState::new(&level);
    assert!(state.attempt_move(Move::new(Piece::Green, Direction::Up)).is_none());
    assert!(state.attempt_move(Move::new(Piece::Green, Direction::Right)).is_none());
    assert!(state.attempt_move(Move::new(Piece::Orange, Direction::Left)).is_none());
    assert_eq!(state.piece_position(Piece::Green), Vector::new(1, 1));
    assert_eq!(state.piece_position(Piece::Orange), Vector::new(2, 1));
}

#[test]
fn backward_slide_strip_starts_at_its_end() {
    let level = level_one();
    let mut state = LevelRunState::new(&level);
    state.teleport_piece(Piece::Orange, Vector::new(3, 3));
    state.teleport_piece(Piece::Green, Vector::new(3, 2));
    let slid = state.attempt_move(Move::new(Piece::Orange, Direction::Left)).unwrap();
    assert_eq!(state.piece_position(Piece::Orange), Vector::new(1, 3));
    assert_eq!(slid.strip_top_left, Vector::new(1, 3));
    assert_eq!(slid.slide_distance(), 2);
    assert_eq!(slid.starting_position(), Vector::new(3, 3));
    assert_eq!(
        slid.strip_spaces,
        vec![Space::Goal(Piece::Orange), Space::Goal(Piece::Green), Space::Free]
    );
    let inverse = slid.invert();
    assert_eq!(inverse.muv, Move::new(Piece::Orange, Direction::Right));
    assert_eq!(inverse.strip_top_left, Vector::new(1, 3));
}

#[test]
fn winning_needs_every_piece_on_its_goal() {
    let level = level_one();
    let mut state = LevelRunState::new(&level);
    assert!(!state.is_winning());
    state.teleport_piece(Piece::Green, Vector::new(2, 3));
    assert!(!state.is_winning());
    state.teleport_piece(Piece::Orange, Vector::new(1, 3));
    assert!(state.is_winning());
    state.teleport_piece(Piece::Green, Vector::new(1, 3));
    state.teleport_piece(Piece::Orange, Vector::new(2, 3));
    assert!(!state.is_winning());
}

#[test]
fn solving_in_par_is_optimal_then_undo_and_restart() {
    let level = level_one();
    let mut run = LevelRun::new(&info(&level));
    assert_eq!(run.level_num(), 1);
    let script = [
        Action::Move(Direction::Down),
        Action::Move(Direction::Right),
        Action::ChangeActivePiece,
        Action::Move(Direction::Down),
        Action::Move(Direction::Left),
        Action::ChangeActivePiece,
    ];
    for action in script {
        let change = run.execute_action(action);
        assert!(change.winning_status.is_none());
    }
    let change = run.execute_action(Action::Move(Direction::Left));
    assert_eq!(change.num_moves_changed, Some(5));
    match change.winning_status {
        Some(LevelStatus::Optimal(moves)) => assert_eq!(
            moves,
            vec![
                Move::new(Piece::Green, Direction::Down),
                Move::new(Piece::Green, Direction::Right),
                Move::new(Piece::Orange, Direction::Down),
                Move::new(Piece::Orange, Direction::Left),
                Move::new(Piece::Green, Direction::Left),
            ]
        ),
        other => panic!("expected an optimal status, got {:?}", other),
    }
    assert!(run.is_winning());

    let change = run.execute_action(Action::UndoMove);
    assert_eq!(change.num_moves_changed, Some(4));
    assert!(change.winning_status.is_none());
    assert_eq!(run.num_moves(), 4);
    assert!(!run.is_winning());
    assert_eq!(positions(&run), vec![Vector::new(3, 3), Vector::new(1, 3)]);

    let change = run.execute_action(Action::Restart);
    assert_eq!(change.num_moves_changed, Some(0));
    assert_eq!(run.num_moves(), 0);
    assert_eq!(run.active_piece(), Piece::Green);
    assert_eq!(positions(&run), vec![Vector::new(1, 1), Vector::new(2, 1)]);
    match change.pieces_changed {
        Some(PiecesChanged::Moved(moved)) => {
            assert_eq!(moved.len(), 2);
            assert_eq!(moved[0].piece, Piece::Green);
            assert_eq!(moved[0].from, Vector::new(3, 3));
            assert_eq!(moved[0].from_space, Space::Free);
            assert_eq!(moved[0].to, Vector::new(1, 1));
            assert!(moved[0].is_active);
            assert_eq!(moved[1].from, Vector::new(1, 3));
            assert_eq!(moved[1].from_space, Space::Goal(Piece::Orange));
            assert_eq!(moved[1].to, Vector::new(2, 1));
            assert!(!moved[1].is_active);
        }
        other => panic!("expected moved pieces, got {:?}", other),
    }
}

#[test]
fn finishing_over_par_rates_the_run() {
    let level = level_one();
    let mut run = LevelRun::new(&info(&level));
    for action in [
        Action::Move(Direction::Down),
        Action::Move(Direction::Up),
        Action::Move(Direction::Down),
        Action::Move(Direction::Right),
        Action::ChangeActivePiece,
        Action::Move(Direction::Down),
        Action::Move(Direction::Left),
        Action::ChangeActivePiece,
    ] {
        run.execute_action(action);
    }
    let change = run.execute_action(Action::Move(Direction::Left));
    assert_eq!(change.num_moves_changed, Some(7));
    match change.winning_status {
        Some(LevelStatus::Complete(rating)) => assert_eq!(rating.num_stars(), 3),
        other => panic!("expected a complete status, got {:?}", other),
    }
}

#[test]
fn blocked_active_piece_hands_over_to_another() {
    let level = level_one();
    let mut run = LevelRun::new(&info(&level));
    run.execute_action(Action::Move(Direction::Down));
    let change = run.execute_action(Action::Move(Direction::Down));
    assert_eq!(run.active_piece(), Piece::Orange);
    assert_eq!(change.num_moves_changed, Some(2));
    match change.pieces_changed {
        Some(PiecesChanged::Slid { piece_slid, is_active, old_active_piece }) => {
            assert!(is_active);
            assert_eq!(piece_slid.muv, Move::new(Piece::Orange, Direction::Down));
            assert_eq!(piece_slid.starting_position(), Vector::new(2, 1));
            assert_eq!(
                old_active_piece,
                Some(OldActivePiece { piece: Piece::Green, position: Vector::new(1, 3) })
            );
        }
        other => panic!("expected a slide, got {:?}", other),
    }
    assert_eq!(positions(&run), vec![Vector::new(1, 3), Vector::new(2, 3)]);
}

#[test]
fn no_piece_can_move_is_a_no_op() {
    let level = level_one();
    let mut run = LevelRun::new(&info(&level));
    let change = run.execute_action(Action::Move(Direction::Up));
    assert!(change.pieces_changed.is_none());
    assert!(change.num_moves_changed.is_none());
    assert!(!change.at_max_moves);
    assert_eq!(run.num_moves(), 0);
    assert_eq!(run.active_piece(), Piece::Green);
}

#[test]
fn full_history_rejects_the_move() {
    let level = level_one();
    let mut run = LevelRun::new(&info(&level));
    for i in 0..MAX_MOVES {
        let direction = if i % 2 == 0 { Direction::Down } else { Direction::Up };
        let change = run.execute_action(Action::Move(direction));
        assert_eq!(change.num_moves_changed, Some(i as u8 + 1));
        assert_eq!(change.at_max_moves, i + 1 == MAX_MOVES);
    }
    let before = positions(&run);
    let change = run.execute_action(Action::Move(Direction::Down));
    assert!(change.pieces_changed.is_none());
    assert!(change.num_moves_changed.is_none());
    assert!(change.at_max_moves);
    assert_eq!(positions(&run), before);
    assert_eq!(run.num_moves(), MAX_MOVES as u8);
    assert_eq!(run.active_piece(), Piece::Green);
    let change = run.execute_action(Action::Move(Direction::Right));
    assert!(change.pieces_changed.is_none());
    assert_eq!(run.active_piece(), Piece::Green);
    let change = run.execute_action(Action::UndoMove);
    assert_eq!(change.num_moves_changed, Some(MAX_MOVES as u8 - 1));
    assert!(!change.at_max_moves);
}

#[test]
fn undo_restores_positions() {
    let level = level_one();
    let mut run = LevelRun::new(&info(&level));
    let empty = run.execute_action(Action::UndoMove);
    assert!(empty.pieces_changed.is_none() && empty.num_moves_changed.is_none());
    run.execute_action(Action::Move(Direction::Down));
    let before = positions(&run);
    run.execute_action(Action::Move(Direction::Right));
    assert_ne!(positions(&run), before);
    let change = run.execute_action(Action::UndoMove);
    assert_eq!(positions(&run), before);
    match change.pieces_changed {
        Some(PiecesChanged::Slid { piece_slid, is_active, old_active_piece }) => {
            assert_eq!(piece_slid.muv, Move::new(Piece::Green, Direction::Left));
            assert!(is_active);
            assert!(old_active_piece.is_none());
        }
        other => panic!("expected a slide, got {:?}", other),
    }
}

#[test]
fn change_active_piece_cycles() {
    let level = level_one();
    let mut run = LevelRun::new(&info(&level));
    let change = run.execute_action(Action::ChangeActivePiece);
    assert_eq!(run.active_piece(), Piece::Orange);
    match change.pieces_changed {
        Some(PiecesChanged::ActivePiece { active_piece, positions }) => {
            assert_eq!(active_piece, Piece::Orange);
            assert_eq!(positions.get(Piece::Green), Vector::new(1, 1));
        }
        other => panic!("expected an active piece change, got {:?}", other),
    }
    run.execute_action(Action::ChangeActivePiece);
    assert_eq!(run.active_piece(), Piece::Green);
    let change = run.execute_action(Action::Restart);
    assert!(change.pieces_changed.is_none());
}

#[test]
fn move_codes_round_trip() {
    for piece in [Piece::Green, Piece::Orange, Piece::Blue] {
        for direction in [Direction::Up, Direction::Down, Direction::Left, Direction::Right] {
            let m = Move::new(piece, direction);
            let (p, d) = m.as_chars();
            assert_eq!(Move::parse(&format!("{p}{d}")), Some(m));
        }
    }
    assert_eq!(Move::as_chars(&Move::new(Piece::Green, Direction::Down)), ('G', 'D'));
    assert_eq!(Move::parse("OL"), Some(Move::new(Piece::Orange, Direction::Left)));
    assert_eq!(Move::parse("G"), None);
    assert_eq!(Move::parse("GDX"), None);
    assert_eq!(Move::parse("XD"), None);
    assert_eq!(Move::parse("GX"), None);
}

#[test]
fn strip_start_plus_distance_is_the_end() {
    let level = level_one();
    let mut state = LevelRunState::new(&level);
    for (piece, direction) in [
        (Piece::Green, Direction::Down),
        (Piece::Green, Direction::Right),
        (Piece::Orange, Direction::Down),
        (Piece::Green, Direction::Up),
        (Piece::Orange, Direction::Left),
    ] {
        let before = state.piece_position(piece);
        let slid = state.attempt_move(Move::new(piece, direction)).unwrap();
        let after = state.piece_position(piece);
        let v = direction.as_vector();
        let distance = slid.slide_distance() as i16;
        assert_eq!(slid.starting_position(), before);
        assert_eq!(before.x as i16 + v.x as i16 * distance, after.x as i16);
        assert_eq!(before.y as i16 + v.y as i16 * distance, after.y as i16);
        assert_eq!(slid.strip_spaces.len(), slid.slide_distance() as usize + 1);
    }
}
