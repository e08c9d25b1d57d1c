use kuboble_core::level_run::{Direction as MoveDirection, Move};
use kuboble_core::level_select::{
    Action, Direction, Filter, LevelProgress, LevelSelector, LevelSlotInfo, LevelStatus,
    WindowPosition,
};
use kuboble_core::{Level, LevelRating, Piece, Vector};

fn catalogue(n: usize) -> Vec<Level> {
    (0..n)
        .map(|_| {
            Level::from_rows(
                &["#####", "#   #", "#   #", "#OG #", "#####"],
                &[Vector::new(1, 1), Vector::new(2, 1)],
                5,
            )
            .unwrap()
        })
        .collect()
}

fn complete(stars: u8) -> LevelStatus {
    LevelStatus::Complete(LevelRating::new(5, 10 - stars))
}

fn optimal() -> LevelStatus {
    LevelStatus::Optimal(vec![Move::new(Piece::Green, MoveDirection::Down)])
}

fn check_window<const W: usize>(selector: &LevelSelector<W>) {
    let visible = selector
        .level_progress()
        .filtered_indices(selector.active_filter(), 30)
        .len();
    match selector.position() {
        Some(p) => {
            assert!(p.top_idx <= p.cursor_idx);
            assert!(p.cursor_idx <= p.top_idx + W - 1);
            assert!(p.cursor_idx < visible);
            assert!(p.top_idx < visible);
        }
        None => assert_eq!(visible, 0),
    }
}

#[test]
fn status_order() {
    assert!(complete(1) > LevelStatus::Incomplete);
    assert!(complete(3) > complete(2));
    assert!(optimal() > complete(4));
    assert!(LevelStatus::Incomplete < optimal());
    assert_eq!(complete(2), complete(2));
    assert_ne!(complete(2), complete(3));
    assert_eq!(optimal(), LevelStatus::Optimal(vec![]));
    assert_eq!(complete(4).rating().num_stars(), 4);
    assert_eq!(optimal().rating().num_stars(), 5);
    assert_eq!(LevelStatus::Incomplete.rating().num_stars(), 0);
    assert!(!LevelStatus::Incomplete.is_complete());
    assert!(complete(1).is_complete());
}

#[test]
fn filters_cycle_and_select() {
    assert_eq!(Filter::All.next(), Filter::Incomplete);
    assert_eq!(Filter::Optimal.next(), Filter::All);
    assert_eq!(Filter::All.previous(), Filter::Optimal);
    assert_eq!(Filter::Incomplete.previous(), Filter::All);
    assert!(Filter::All.passes(&LevelStatus::Incomplete));
    assert!(Filter::Incomplete.passes(&LevelStatus::Incomplete));
    assert!(!Filter::Incomplete.passes(&complete(3)));
    assert!(Filter::PartiallyComplete.passes(&complete(3)));
    assert!(!Filter::PartiallyComplete.passes(&optimal()));
    assert!(Filter::Optimal.passes(&optimal()));
    assert!(!Filter::Optimal.passes(&complete(4)));
}

#[test]
fn progress_only_improves() {
    let mut progress = LevelProgress::new();
    assert!(progress.attempt_status_update(3, complete(2)));
    assert_eq!(progress.level_statuses().len(), 4);
    assert_eq!(progress.level_statuses()[0], LevelStatus::Incomplete);
    assert!(!progress.attempt_status_update(3, complete(2)));
    assert!(!progress.attempt_status_update(3, complete(1)));
    assert!(!progress.attempt_status_update(3, LevelStatus::Incomplete));
    assert_eq!(progress.level_statuses()[3].rating().num_stars(), 2);
    assert!(progress.attempt_status_update(3, complete(4)));
    assert!(progress.attempt_status_update(3, optimal()));
    assert!(!progress.attempt_status_update(3, optimal()));
    assert!(!progress.attempt_status_update(3, complete(4)));
    assert!(!progress.attempt_status_update(9, LevelStatus::Incomplete));
    assert_eq!(progress.level_statuses().len(), 4);
    assert_eq!(progress.level_statuses()[3].rating().num_stars(), 5);
}

#[test]
fn unlocking_follows_completion() {
    let mut progress = LevelProgress::new();
    assert_eq!(progress.num_unlocked_levels(30), 10);
    assert_eq!(progress.num_locked_levels(30), 20);
    assert_eq!(progress.num_unlocked_levels(7), 7);
    assert_eq!(progress.num_locked_levels(7), 0);
    progress.attempt_status_update(0, complete(1));
    progress.attempt_status_update(4, optimal());
    assert_eq!(progress.num_unlocked_levels(30), 12);
    assert_eq!(progress.filtered_indices(Filter::All, 30), (0..12).collect::<Vec<_>>());
    assert_eq!(progress.filtered_indices(Filter::Incomplete, 30).len(), 10);
    assert_eq!(progress.filtered_indices(Filter::PartiallyComplete, 30), vec![0]);
    assert_eq!(progress.filtered_indices(Filter::Optimal, 30), vec![4]);
    let levels = catalogue(30);
    let info = progress.level_info(&levels, 4);
    assert_eq!(info.index, 4);
    assert_eq!(info.user_num(), 5);
    assert_eq!(info.rating.num_stars(), 5);
    assert_eq!(progress.level_info(&levels, 20).rating.num_stars(), 0);
}

#[test]
fn selector_moves_cursor_and_pages() {
    let levels = catalogue(30);
    let mut selector: LevelSelector<4> = LevelSelector::new(LevelProgress::new(), &levels);
    assert_eq!(selector.position(), Some(WindowPosition::new(0, 0)));
    assert_eq!(selector.active_level_info().unwrap().index, 0);
    assert!(selector
        .execute_action(Action::ChangeActiveLevel(Direction::Previous))
        .is_none());
    let change = selector
        .execute_action(Action::ChangeActiveLevel(Direction::Next))
        .unwrap();
    assert_eq!(change.slots_change.len(), 2);
    match &change.slots_change[0] {
        LevelSlotInfo::Level { level_info, position, is_active } => {
            assert_eq!(level_info.index, 0);
            assert_eq!(*position, 0);
            assert!(!is_active);
        }
        other => panic!("expected a level slot, got {:?}", other),
    }
    match &change.slots_change[1] {
        LevelSlotInfo::Level { level_info, position, is_active } => {
            assert_eq!(level_info.index, 1);
            assert_eq!(*position, 1);
            assert!(is_active);
        }
        other => panic!("expected a level slot, got {:?}", other),
    }
    for _ in 0..3 {
        selector.execute_action(Action::ChangeActiveLevel(Direction::Next));
        check_window(&selector);
    }
    assert_eq!(selector.position(), Some(WindowPosition::new(1, 4)));
    let change = selector
        .execute_action(Action::ChangePage(Direction::Next))
        .unwrap();
    assert_eq!(change.slots_change.len(), 4);
    assert_eq!(selector.position(), Some(WindowPosition::new(5, 8)));
    let change = selector
        .execute_action(Action::ChangePage(Direction::Next))
        .unwrap();
    assert_eq!(change.slots_change.len(), 4);
    assert_eq!(selector.position(), Some(WindowPosition::new(6, 9)));
    assert!(selector
        .execute_action(Action::ChangePage(Direction::Next))
        .is_none());
    check_window(&selector);
}

#[test]
fn selector_filters_remember_positions() {
    let levels = catalogue(30);
    let mut progress = LevelProgress::new();
    progress.attempt_status_update(2, complete(3));
    let mut selector: LevelSelector<4> = LevelSelector::new(progress, &levels);
    selector.execute_action(Action::ChangeActiveLevel(Direction::Next));
    selector.execute_action(Action::ChangeActiveLevel(Direction::Next));
    assert_eq!(selector.active_level_info().unwrap().index, 2);
    let change = selector
        .execute_action(Action::ChangeActiveFilter(Direction::Previous))
        .unwrap();
    assert_eq!(selector.active_filter(), Filter::Optimal);
    assert_eq!(change.slots_change.len(), 4);
    assert!(change
        .slots_change
        .iter()
        .all(|s| matches!(s, LevelSlotInfo::Empty(_))));
    assert!(selector.position().is_none());
    assert!(selector.active_rating().is_none());
    assert!(selector
        .execute_action(Action::ChangeActiveLevel(Direction::Next))
        .is_none());
    selector.execute_action(Action::ChangeActiveFilter(Direction::Previous));
    assert_eq!(selector.active_filter(), Filter::PartiallyComplete);
    assert_eq!(selector.active_level_info().unwrap().index, 2);
    assert_eq!(selector.active_rating().unwrap().num_stars(), 3);
    selector.execute_action(Action::ChangeActiveFilter(Direction::Next));
    selector.execute_action(Action::ChangeActiveFilter(Direction::Next));
    assert_eq!(selector.active_filter(), Filter::All);
    assert_eq!(selector.position(), Some(WindowPosition::new(0, 2)));
    check_window(&selector);
}

#[test]
fn completing_a_level_updates_and_unlocks() {
    let levels = catalogue(30);
    let mut selector: LevelSelector<4> = LevelSelector::new(LevelProgress::new(), &levels);
    selector.execute_action(Action::ChangeActiveFilter(Direction::Next));
    assert_eq!(selector.active_filter(), Filter::Incomplete);
    let change = selector
        .execute_action(Action::ActiveLevelCompleted(complete(4)))
        .unwrap();
    assert_eq!(change.num_locked_change, Some(19));
    assert_eq!(change.slots_change.len(), 1);
    match &change.slots_change[0] {
        LevelSlotInfo::Level { level_info, position, is_active } => {
            assert_eq!(level_info.index, 0);
            assert_eq!(level_info.rating.num_stars(), 4);
            assert_eq!(*position, 0);
            assert!(is_active);
        }
        other => panic!("expected a level slot, got {:?}", other),
    }
    assert_eq!(selector.active_level_info().unwrap().index, 1);
    assert!(selector
        .execute_action(Action::ActiveLevelCompleted(LevelStatus::Incomplete))
        .is_none());
    check_window(&selector);
    let progress = selector.into_progress();
    assert_eq!(progress.num_unlocked_levels(30), 11);
    assert_eq!(progress.level_statuses()[0].rating().num_stars(), 4);
}
