use kuboble_core::{Level, LevelRating, Piece, Space, Vector};

const LEVEL_ONE: [&str; 5] = ["#####", "#   #", "#   #", "#OG #", "#####"];

fn level_one() -> Level {
    Level::from_rows(&LEVEL_ONE, &[Vector::new(1, 1), Vector::new(2, 1)], 5).unwrap()
}

#[test]
fn level_rating() {
    let goal = 6;
    assert_eq!(LevelRating::new(goal, goal).num_stars(), 5);
    assert_eq!(LevelRating::new(goal, goal + 1).num_stars(), 4);
    assert_eq!(LevelRating::new(goal, goal + 2).num_stars(), 3);
    assert_eq!(LevelRating::new(goal, goal + 3).num_stars(), 2);
    assert_eq!(LevelRating::new(goal, goal + 4).num_stars(), 1);
    assert_eq!(LevelRating::new(goal, goal + 50).num_stars(), 1);
    assert_eq!(LevelRating::new(goal, u8::MAX).num_stars(), 1);
}

#[test]
fn rating_is_maximal_exactly_up_to_par() {
    assert_eq!(LevelRating::new(5, 0).num_stars(), 5);
    assert_eq!(LevelRating::new(5, 3).num_stars(), 5);
    assert!(LevelRating::new(5, 5).is_optimal());
    assert!(!LevelRating::new(5, 6).is_optimal());
    assert_eq!(LevelRating::new(0, 0).num_stars(), 5);
    assert_eq!(LevelRating::new(0, 1).num_stars(), 4);
    assert_eq!(LevelRating::new(254, 255).num_stars(), 4);
    assert_eq!(LevelRating::new(255, 255).num_stars(), 5);
}

#[test]
fn rating_never_rises_and_floors_at_one() {
    for par in [0u8, 3, 20, 250] {
        let mut previous = LevelRating::new(par, 0).num_stars();
        for moves in 0..=u8::MAX {
            let stars = LevelRating::new(par, moves).num_stars();
            assert!(stars <= previous);
            assert!(stars >= 1);
            assert_eq!(stars == 5, moves <= par);
            previous = stars;
        }
    }
}

#[test]
fn rating_defaults() {
    assert_eq!(LevelRating::default().num_stars(), 0);
    assert!(!LevelRating::default().is_complete());
    assert!(LevelRating::new(3, 9).is_complete());
    assert_eq!(LevelRating::maximum_possible().num_stars(), 5);
    assert_eq!(LevelRating::incomplete().num_stars(), 0);
}

#[test]
fn pieces_and_spaces_from_chars() {
    assert_eq!(Piece::from_char('G'), Some(Piece::Green));
    assert_eq!(Piece::from_char('O'), Some(Piece::Orange));
    assert_eq!(Piece::from_char('B'), Some(Piece::Blue));
    assert_eq!(Piece::from_char('x'), None);
    assert_eq!(Space::from_char('_'), Some(Space::Void));
    assert_eq!(Space::from_char('#'), Some(Space::Wall));
    assert_eq!(Space::from_char(' '), Some(Space::Free));
    assert_eq!(Space::from_char('B'), Some(Space::Goal(Piece::Blue)));
    assert_eq!(Space::from_char('?'), None);
    for c in ['_', '#', ' ', 'G', 'O', 'B'] {
        assert_eq!(Space::from_char(c).unwrap().as_char(), c);
    }
    assert_eq!(Piece::Orange.index(), 1);
    assert_eq!(Piece::from_index(2), Some(Piece::Blue));
    assert_eq!(Piece::from_index(3), None);
}

#[test]
fn level_from_rows_reads_the_grid() {
    let level = level_one();
    assert_eq!(level.size(), Vector::new(5, 5));
    assert_eq!(level.user_size(), Vector::new(3, 3));
    assert_eq!(level.num_pieces(), 2);
    assert_eq!(level.all_pieces(), vec![Piece::Green, Piece::Orange]);
    assert_eq!(level.optimal_moves(), 5);
    assert_eq!(level.starting_positions(), &[Vector::new(1, 1), Vector::new(2, 1)]);
    assert_eq!(level.get_space(Vector::new(0, 0)), Space::Wall);
    assert_eq!(level.get_space(Vector::new(1, 1)), Space::Free);
    assert_eq!(level.get_space(Vector::new(1, 3)), Space::Goal(Piece::Orange));
    assert_eq!(level.get_space(Vector::new(2, 3)), Space::Goal(Piece::Green));
    let cells = level.all_positions();
    assert_eq!(cells.len(), 25);
    assert_eq!(cells[0], Vector::new(0, 0));
    assert_eq!(cells[7], Vector::new(2, 1));
    assert_eq!(cells[24], Vector::new(4, 4));
}

#[test]
fn level_from_rows_rejects_bad_levels() {
    let starts = [Vector::new(1, 1), Vector::new(2, 1)];
    let empty: [&str; 0] = [];
    assert!(Level::from_rows(&empty, &starts, 5).is_none());
    assert!(Level::from_rows(&["#####", "#  #", "#####"], &starts, 5).is_none());
    assert!(Level::from_rows(&["#####", "# x #", "#####"], &starts, 5).is_none());
    assert!(Level::from_rows(&LEVEL_ONE, &[Vector::new(1, 1)], 5).is_none());
    let four = [Vector::new(1, 1), Vector::new(2, 1), Vector::new(3, 1), Vector::new(1, 2)];
    assert!(Level::from_rows(&LEVEL_ONE, &four, 5).is_none());
    assert!(Level::from_rows(&LEVEL_ONE, &[Vector::new(0, 0), Vector::new(2, 1)], 5).is_none());
    assert!(Level::from_rows(&LEVEL_ONE, &[Vector::new(9, 1), Vector::new(2, 1)], 5).is_none());
    assert!(Level::from_rows(&LEVEL_ONE, &starts, 55).is_none());
    assert!(Level::from_rows(&LEVEL_ONE, &starts, 54).is_some());
    let voided = ["_###_", "## ##", "#G O#", "#####"];
    assert!(Level::from_rows(&voided, &[Vector::new(0, 0), Vector::new(2, 1)], 3).is_none());
    let level = Level::from_rows(&voided, &[Vector::new(2, 1), Vector::new(2, 2)], 3).unwrap();
    assert_eq!(level.get_space(Vector::new(0, 0)), Space::Void);
    assert_eq!(level.size(), Vector::new(5, 4));
}
