use jeopardy::errors::Error;
use jeopardy::game::board::{
    accepts_multiplier, Category, Clue, JeopardyBoard, Location, Square, SquareState, CATEGORY_HEIGHT,
    MAX_VALUE_MULTIPLIER,
};
use jeopardy::seed::Seed;

fn square(name: &str) -> Square {
    Square::new(
        Clue { text: Some(format!("clue {}", name)), link: None },
        format!("answer {}", name),
    )
}

fn category(title: &str) -> Category {
    Category {
        title: title.to_string(),
        commentary: None,
        air_year: 1999,
        squares: [
            square(&format!("{} 0", title)),
            square(&format!("{} 1", title)),
            square(&format!("{} 2", title)),
            square(&format!("{} 3", title)),
            square(&format!("{} 4", title)),
        ],
    }
}

fn board(categories: usize, multiplier: i64) -> JeopardyBoard {
    let categories = (0..categories).map(|c| category(&format!("cat{}", c))).collect();
    JeopardyBoard::new(categories, multiplier, 7, Seed::with_seed(11))
}

#[test]
fn location_has_five_rows() {
    assert_eq!(Location::new(3, 0), Some(Location { category: 3, row: 0 }));
    assert_eq!(Location::new(0, 4), Some(Location { category: 0, row: 4 }));
    assert_eq!(Location::new(0, 5), None);
    assert_eq!(Location::new(0, usize::MAX), None);
    assert_eq!(CATEGORY_HEIGHT, 5);
}

#[test]
fn new_square_is_untouched() {
    let s = square("x");
    assert_eq!(s.state, SquareState::Normal);
    assert!(!s.is_daily_double);
    assert_eq!(s.answer, "answer x");
    assert_eq!(s.clue.text.as_deref(), Some("clue x"));
}

#[test]
fn new_board_starts_at_etag_zero() {
    let b = board(2, 200);
    assert_eq!(b.etag(), 0);
    assert_eq!(b.id(), 7);
    assert_eq!(b.seed(), Seed::with_seed(11));
    assert_eq!(b.value_multiplier(), 200);
    assert_eq!(b.category_count(), 2);
    assert_eq!(b.categories()[1].title, "cat1");
}

#[test]
fn board_knows_its_squares() {
    let b = board(2, 200);
    assert!(b.contains(&Location { category: 1, row: 4 }));
    assert!(!b.contains(&Location { category: 2, row: 0 }));
    assert!(!b.contains(&Location { category: 0, row: 5 }));
    assert_eq!(b.get_square(&Location { category: 1, row: 3 }).answer, "answer cat1 3");
    assert!(!b.is_daily_double(&Location { category: 1, row: 3 }));
}

#[test]
fn square_value_is_multiplier_times_row_counted_from_one() {
    let b = board(1, 200);
    for row in 0..5 {
        assert_eq!(b.get_square_value(&Location { category: 0, row }), 200 * (row as i64 + 1));
    }
    let negative = board(1, -3);
    assert_eq!(negative.get_square_value(&Location { category: 0, row: 4 }), -15);
    let largest = board(1, MAX_VALUE_MULTIPLIER);
    assert_eq!(
        largest.get_square_value(&Location { category: 0, row: 4 }),
        MAX_VALUE_MULTIPLIER * 5
    );
    let beyond = board(1, i64::MAX / 3);
    assert!(beyond.square_value_fits(&Location { category: 0, row: 2 }));
    assert!(!beyond.square_value_fits(&Location { category: 0, row: 3 }));
    assert_eq!(beyond.get_square_value(&Location { category: 0, row: 2 }), (i64::MAX / 3) * 3);
    assert!(board(1, i64::MIN).square_value_fits(&Location { category: 0, row: 0 }));
    assert!(!board(1, i64::MIN).square_value_fits(&Location { category: 0, row: 1 }));
}

#[test]
fn largest_multiplier_leaves_room_for_the_wager_ceiling() {
    assert_eq!(MAX_VALUE_MULTIPLIER, i64::MAX / 50);
    assert!(MAX_VALUE_MULTIPLIER.checked_mul(50).is_some());
    assert!(accepts_multiplier(MAX_VALUE_MULTIPLIER) && accepts_multiplier(-MAX_VALUE_MULTIPLIER));
    assert!(!accepts_multiplier(MAX_VALUE_MULTIPLIER + 1));
    assert!(!accepts_multiplier(-MAX_VALUE_MULTIPLIER - 1));
    assert!(accepts_multiplier(0));
    assert!((MAX_VALUE_MULTIPLIER + 1).checked_mul(50).is_none());
}

#[test]
fn every_mutable_access_advances_the_etag() {
    let mut b = board(2, 100);
    let location = Location { category: 1, row: 2 };
    let _ = b.get_square_mut(&location);
    assert_eq!(b.etag(), 1);
    b.get_square_mut(&location).set_flip_state(SquareState::Finished);
    assert_eq!(b.etag(), 2);
    assert_eq!(b.get_square(&location).state, SquareState::Finished);
    assert_eq!(b.get_square(&Location { category: 1, row: 1 }).state, SquareState::Normal);
    assert_eq!(b.id(), 7);
}

#[test]
fn flip_turns_a_normal_square_over() {
    let mut s = square("x");
    assert_eq!(s.flip(), Ok(()));
    assert_eq!(s.state, SquareState::Flipped);
    let mut d = square("y");
    d.is_daily_double = true;
    assert_eq!(d.flip(), Ok(()));
    assert_eq!(d.state, SquareState::DailyDoubleRevealed);
}

#[test]
fn flip_fails_on_a_square_that_is_not_normal() {
    for state in [SquareState::Flipped, SquareState::DailyDoubleRevealed, SquareState::Finished] {
        let mut s = square("x");
        s.set_flip_state(state);
        assert_eq!(s.flip(), Err(Error::InvalidSquareStateTransition));
        assert_eq!(s.state, state);
    }
}

#[test]
fn finish_closes_an_open_square() {
    for state in [SquareState::Flipped, SquareState::DailyDoubleRevealed] {
        let mut s = square("x");
        s.set_flip_state(state);
        assert_eq!(s.finish(), Ok(()));
        assert_eq!(s.state, SquareState::Finished);
    }
}

#[test]
fn finish_fails_on_a_square_that_is_not_open() {
    for state in [SquareState::Normal, SquareState::Finished] {
        let mut s = square("x");
        s.set_flip_state(state);
        assert_eq!(s.finish(), Err(Error::InvalidSquareStateTransition));
        assert_eq!(s.state, state);
    }
}

#[test]
fn square_states_have_names() {
    assert_eq!(SquareState::Normal.name(), "Normal");
    assert_eq!(SquareState::DailyDoubleRevealed.name(), "DailyDoubleRevealed");
    assert_eq!(SquareState::Flipped.name(), "Flipped");
    assert_eq!(SquareState::Finished.name(), "Finished");
}

#[test]
fn copies_keep_every_field() {
    let c = category("copy");
    let d = c.clone();
    assert_eq!(d.title, c.title);
    assert_eq!(d.air_year, c.air_year);
    for row in 0..5 {
        assert_eq!(d.squares[row].answer, c.squares[row].answer);
        assert_eq!(d.squares[row].clue.text, c.squares[row].clue.text);
        assert_eq!(d.squares[row].state, c.squares[row].state);
    }
}

#[test]
fn squares_are_shown_by_audience_and_state() {
    let mut s = square("x");
    s.is_daily_double = true;
    let moderator = s.serialize(true, false);
    assert!(moderator.clue.is_some());
    assert_eq!(moderator.answer.as_deref(), Some("answer x"));
    assert_eq!(moderator.is_daily_double, Some(true));

    let normal = s.serialize(false, true);
    assert_eq!(normal.state, SquareState::Normal);
    assert!(normal.clue.is_none() && normal.answer.is_none() && normal.is_daily_double.is_none());

    s.set_flip_state(SquareState::DailyDoubleRevealed);
    let waiting = s.serialize(false, false);
    assert!(waiting.clue.is_none() && waiting.answer.is_none());
    let entered = s.serialize(false, true);
    assert!(entered.clue.is_some() && entered.answer.is_none());

    s.set_flip_state(SquareState::Flipped);
    let flipped = s.serialize(false, false);
    assert!(flipped.clue.is_some() && flipped.answer.is_none());

    s.set_flip_state(SquareState::Finished);
    let finished = s.serialize(false, false);
    assert!(finished.clue.is_some());
    assert_eq!(finished.answer.as_deref(), Some("answer x"));
    assert!(finished.is_daily_double.is_none());
}

#[test]
fn boards_are_shown_category_by_category() {
    let mut b = board(2, 300);
    b.get_square_mut(&Location { category: 1, row: 0 }).set_flip_state(SquareState::Finished);
    let shown = b.serialize(false, true);
    assert_eq!(shown.value_multiplier, 300);
    assert_eq!(shown.etag, 1);
    assert_eq!(shown.id, 7);
    assert_eq!(shown.seed, Seed::with_seed(11));
    assert_eq!(shown.categories.len(), 2);
    assert_eq!(shown.categories[1].title, "cat1");
    assert_eq!(shown.categories[1].air_year, 1999);
    assert_eq!(shown.categories[1].squares.len(), 5);
    assert_eq!(shown.categories[1].squares[0].answer.as_deref(), Some("answer cat1 0"));
    assert!(shown.categories[0].squares[0].answer.is_none());
    assert_eq!(Location { category: 4, row: 2 }.serialize(), (4, 2));
    let clue = Clue { text: None, link: Some("l".to_string()) };
    assert_eq!(clue.serialize().link.as_deref(), Some("l"));
}
