use jeopardy::clock::Timestamp;
use jeopardy::data::FinalJeopardyQuestion;
use jeopardy::errors::Error;
use jeopardy::game::board::{Category, Clue, Location, Square, SquareState};
use jeopardy::game::{AnswerType, FinalJeopardyInfoType, Game, GameState, Player, PlayerType};
use jeopardy::seed::Seed;
use jeopardy::{AuthToken, PlayerId};

const P: PlayerId = PlayerId(1);
const Q: PlayerId = PlayerId(2);
const R: PlayerId = PlayerId(3);
const MODERATOR: PlayerId = PlayerId(100);

fn category(title: &str) -> Category {
    let square = |row: usize| {
        Square::new(
            Clue { text: Some(format!("{} clue {}", title, row)), link: None },
            format!("{} answer {}", title, row),
        )
    };
    Category {
        title: title.to_string(),
        commentary: Some("note".to_string()),
        air_year: 2001,
        squares: [square(0), square(1), square(2), square(3), square(4)],
    }
}

fn player(name: &str, token: u128) -> Player {
    Player::with_auth(name.to_string(), format!("avatars/{}.png", name), AuthToken(token))
}

fn new_game() -> Game {
    Game::with_identity(
        player("host", 1000),
        MODERATOR,
        7,
        8,
        Timestamp { seconds: 1_600_000_000, nanos: 0 },
    )
}

/// A game with the players `ids` on a board of `categories` categories whose
/// first `daily_doubles` squares, counted down the first category, are daily
/// doubles.
fn game_on_board(ids: &[PlayerId], categories: usize, multiplier: i64, daily_doubles: usize) -> Game {
    let mut game = new_game();
    for id in ids {
        game.add_player_with_id(*id, player(&format!("p{}", id.0), id.0 + 500));
    }
    let given = (0..categories).map(|c| category(&format!("c{}", c))).collect();
    let keys: Vec<u64> = (0..categories * 5).map(|i| 1000 - i as u64).collect();
    assert_eq!(game.load_new_board(multiplier, daily_doubles, given, Seed::with_seed(5), &keys), Ok(()));
    game
}

fn controller(game: &Game) -> Option<PlayerId> {
    match game.state() {
        GameState::WaitingForSquareSelection { controller, .. } => *controller,
        GameState::WaitingForEnableBuzzer { controller, .. }
        | GameState::WaitingForDailyDoubleWager { controller, .. }
        | GameState::WaitingForBuzzer { controller, .. }
        | GameState::WaitingForAnswer { controller, .. } => Some(*controller),
        _ => None,
    }
}

fn square_state(game: &Game, location: Location) -> SquareState {
    match game.state() {
        GameState::WaitingForSquareSelection { board, .. }
        | GameState::WaitingForEnableBuzzer { board, .. }
        | GameState::WaitingForDailyDoubleWager { board, .. }
        | GameState::WaitingForBuzzer { board, .. }
        | GameState::WaitingForAnswer { board, .. } => board.get_square(&location).state,
        _ => panic!("no board"),
    }
}

fn etag(game: &Game) -> usize {
    match game.state() {
        GameState::WaitingForSquareSelection { board, .. }
        | GameState::WaitingForEnableBuzzer { board, .. }
        | GameState::WaitingForDailyDoubleWager { board, .. }
        | GameState::WaitingForBuzzer { board, .. }
        | GameState::WaitingForAnswer { board, .. } => board.etag(),
        _ => panic!("no board"),
    }
}

fn score(game: &Game, id: PlayerId) -> i64 {
    game.get_player(&id).unwrap().score()
}

fn loc(category: usize, row: usize) -> Location {
    Location { category, row }
}

/// Brings a game with the one player `P` to the open buzzer on `location`.
fn at_buzzer(multiplier: i64, location: Location) -> Game {
    let mut game = game_on_board(&[P], 2, multiplier, 0);
    assert_eq!(game.select_square(&location), Ok(()));
    assert_eq!(game.enable_buzzer(), Ok(()));
    game
}

fn question() -> FinalJeopardyQuestion {
    FinalJeopardyQuestion {
        category: "finale".to_string(),
        clue: Clue { text: Some("the last clue".to_string()), link: None },
        answer: "the last answer".to_string(),
    }
}

#[test]
fn a_new_game_has_no_board_and_no_players() {
    let game = new_game();
    assert!(matches!(game.state(), GameState::NoBoard));
    assert!(game.get_player_ids().is_empty());
    assert!(game.get_player_names().is_empty());
    assert_eq!(game.next_board_id(), 0);
    assert!(!game.is_ended());
    assert_eq!(game.moderator_id(), MODERATOR);
    assert_eq!(game.get_moderator_name(), "host");
    assert_eq!(game.get_moderator_avatar_url(), "avatars/host.png");
    assert_eq!(game.time_started(), Timestamp { seconds: 1_600_000_000, nanos: 0 });
    assert_eq!(game.moderator_state_channel(), "jpdy.chan.00000000-0000-0000-0000-000000000007");
    assert_eq!(game.player_state_channel(), "jpdy.chan.00000000-0000-0000-0000-000000000008");
}

#[test]
fn a_game_made_at_random_has_its_own_channels() {
    let game = Game::new(Player::new("host".to_string(), "a".to_string()));
    assert!(game.moderator_state_channel().starts_with("jpdy.chan."));
    assert_eq!(game.moderator_state_channel().len(), "jpdy.chan.".len() + 36);
    assert_ne!(game.moderator_state_channel(), game.player_state_channel());
    assert!(matches!(game.state(), GameState::NoBoard));
    assert!(game.time_started().seconds > 1_600_000_000);
}

#[test]
fn a_new_player_has_no_points_and_a_token() {
    let p = player("ann", 77);
    assert_eq!(p.name(), "ann");
    assert_eq!(p.score(), 0);
    assert_eq!(p.avatar_url(), "avatars/ann.png");
    assert_eq!(p.get_auth(), AuthToken(77));
    assert!(p.check_auth(&AuthToken(77)));
    assert!(!p.check_auth(&AuthToken(78)));
    let info = p.final_jeopardy_info();
    assert!(info.wager.is_none() && info.answer.is_none());
    assert!(!info.wager_revealed && !info.answer_revealed);
    let random = Player::new("bob".to_string(), "b".to_string());
    assert_ne!(random.get_auth(), Player::new("bob".to_string(), "b".to_string()).get_auth());
}

#[test]
fn roles_go_by_identifier_and_token() {
    let mut game = new_game();
    game.add_player_with_id(P, player("ann", 77));
    assert!(matches!(
        game.auth_and_get_player_type(&MODERATOR, &AuthToken(1000)),
        Some(PlayerType::Moderator)
    ));
    assert!(matches!(game.auth_and_get_player_type(&P, &AuthToken(77)), Some(PlayerType::Player)));
    assert!(game.auth_and_get_player_type(&MODERATOR, &AuthToken(77)).is_none());
    assert!(game.auth_and_get_player_type(&P, &AuthToken(1000)).is_none());
    assert!(game.auth_and_get_player_type(&Q, &AuthToken(77)).is_none());
}

#[test]
fn joining_puts_a_player_on_the_roster() {
    let mut game = new_game();
    game.add_player_with_id(P, player("ann", 1));
    let id = game.add_player(player("bob", 2));
    assert!(game.has_player(&P) && game.has_player(&id));
    assert!(!game.has_player(&R));
    let mut names = game.get_player_names();
    names.sort();
    assert_eq!(names, vec!["ann", "bob"]);
    let mut ids = game.get_player_ids();
    ids.sort_by_key(|id| id.0);
    let mut expected = vec![P, id];
    expected.sort_by_key(|id| id.0);
    assert_eq!(ids, expected);
    assert!(matches!(game.state(), GameState::NoBoard));
}

#[test]
fn first_joiner_takes_a_board_without_controller() {
    let mut game = game_on_board(&[], 1, 100, 0);
    assert_eq!(controller(&game), None);
    game.add_player_with_id(P, player("ann", 1));
    assert_eq!(controller(&game), Some(P));
    game.add_player_with_id(Q, player("bob", 2));
    assert_eq!(controller(&game), Some(P));
}

#[test]
fn loading_a_board_waits_for_a_selection() {
    let game = game_on_board(&[P], 3, 200, 2);
    match game.state() {
        GameState::WaitingForSquareSelection { board, controller } => {
            assert_eq!(*controller, Some(P));
            assert_eq!(board.id(), 1);
            assert_eq!(board.etag(), 2);
            assert_eq!(board.value_multiplier(), 200);
            assert_eq!(board.seed(), Seed::with_seed(5));
            assert_eq!(board.category_count(), 3);
            for c in 0..3 {
                assert_eq!(board.categories()[c].title, format!("c{}", c));
                for r in 0..5 {
                    let square = board.get_square(&loc(c, r));
                    assert_eq!(square.is_daily_double, c == 0 && r < 2);
                    assert_eq!(square.state, SquareState::Normal);
                    assert_eq!(square.answer, format!("c{} answer {}", c, r));
                }
            }
        }
        _ => panic!("wrong state"),
    }
    assert_eq!(game.next_board_id(), 1);
}

#[test]
fn loading_a_board_works_from_every_state() {
    let mut game = at_buzzer(100, loc(0, 0));
    let keys = vec![1; 5];
    assert_eq!(game.load_new_board(50, 1, vec![category("x")], Seed::with_seed(9), &keys), Ok(()));
    assert!(matches!(game.state(), GameState::WaitingForSquareSelection { .. }));
    assert_eq!(game.next_board_id(), 2);
    assert_eq!(etag(&game), 1);
    game.begin_final_jeopardy(question());
    assert_eq!(game.load_new_board(50, 0, vec![category("y")], Seed::with_seed(9), &keys), Ok(()));
    assert!(matches!(game.state(), GameState::WaitingForSquareSelection { .. }));
    assert_eq!(game.next_board_id(), 3);
}

#[test]
fn too_many_daily_doubles_fail_and_still_count_the_board() {
    let mut game = game_on_board(&[P], 1, 100, 0);
    let keys = vec![1; 5];
    assert_eq!(
        game.load_new_board(100, 6, vec![category("x")], Seed::with_seed(9), &keys),
        Err(Error::TooManyDailyDoubles)
    );
    assert_eq!(game.next_board_id(), 2);
    match game.state() {
        GameState::WaitingForSquareSelection { board, .. } => assert_eq!(board.id(), 1),
        _ => panic!("wrong state"),
    }
    assert_eq!(game.load_new_board(100, 5, vec![category("x")], Seed::with_seed(9), &keys), Ok(()));
    assert_eq!(game.next_board_id(), 3);
}

#[test]
fn a_fresh_board_goes_to_a_player_with_the_lowest_score() {
    for _ in 0..20 {
        let mut game = new_game();
        game.add_player_with_id(P, player("ann", 1));
        game.add_player_with_id(Q, player("bob", 2));
        game.add_player_with_id(R, player("cy", 3));
        game.set_player_score(&P, 10).unwrap();
        game.set_player_score(&Q, -5).unwrap();
        game.set_player_score(&R, 10).unwrap();
        let keys = vec![1; 5];
        game.load_new_board(100, 0, vec![category("x")], Seed::with_seed(1), &keys).unwrap();
        assert_eq!(controller(&game), Some(Q));
        game.set_player_score(&Q, 10).unwrap();
        game.set_player_score(&R, 11).unwrap();
        game.load_new_board(100, 0, vec![category("x")], Seed::with_seed(1), &keys).unwrap();
        let chosen = controller(&game).unwrap();
        assert!(chosen == P || chosen == Q);
        assert_eq!(game.get_random_player_with_lowest_score().map(|id| id != R), Some(true));
    }
}

#[test]
fn ties_for_the_lowest_score_are_broken_at_random() {
    let mut game = new_game();
    game.add_player_with_id(P, player("ann", 1));
    game.add_player_with_id(Q, player("bob", 2));
    let mut seen_p = false;
    let mut seen_q = false;
    for _ in 0..200 {
        match game.get_random_player_with_lowest_score() {
            Some(id) if id == P => seen_p = true,
            Some(id) if id == Q => seen_q = true,
            other => panic!("unexpected {:?}", other),
        }
    }
    assert!(seen_p && seen_q);
    assert_eq!(new_game().get_random_player_with_lowest_score(), None);
}

#[test]
fn selection_flips_the_square_and_waits_for_the_buzzer() {
    let mut game = game_on_board(&[P], 2, 100, 0);
    assert_eq!(game.select_square(&loc(1, 3)), Ok(()));
    match game.state() {
        GameState::WaitingForEnableBuzzer { board, location, controller } => {
            assert_eq!(*location, loc(1, 3));
            assert_eq!(*controller, P);
            assert_eq!(board.get_square(&loc(1, 3)).state, SquareState::Flipped);
            assert_eq!(board.etag(), 1);
        }
        _ => panic!("wrong state"),
    }
}

#[test]
fn selection_of_a_daily_double_waits_for_the_wager() {
    let mut game = game_on_board(&[P], 2, 100, 1);
    assert_eq!(game.select_square(&loc(0, 0)), Ok(()));
    match game.state() {
        GameState::WaitingForDailyDoubleWager { board, location, controller } => {
            assert_eq!(*location, loc(0, 0));
            assert_eq!(*controller, P);
            assert_eq!(board.get_square(&loc(0, 0)).state, SquareState::DailyDoubleRevealed);
        }
        _ => panic!("wrong state"),
    }
}

#[test]
fn selection_needs_a_controller() {
    let mut game = game_on_board(&[], 1, 100, 0);
    assert_eq!(game.select_square(&loc(0, 0)), Err(Error::InvalidStateForOperation));
    assert_eq!(square_state(&game, loc(0, 0)), SquareState::Normal);
    assert_eq!(etag(&game), 0);
}

#[test]
fn selection_outside_the_board_is_an_invalid_square() {
    let mut game = game_on_board(&[P], 2, 100, 0);
    assert_eq!(game.select_square(&loc(2, 0)), Err(Error::InvalidSquare));
    assert_eq!(game.select_square(&loc(0, 5)), Err(Error::InvalidSquare));
    assert!(matches!(game.state(), GameState::WaitingForSquareSelection { .. }));
    assert_eq!(etag(&game), 0);
}

#[test]
fn selection_of_a_played_square_fails_and_touches_the_board() {
    let mut game = game_on_board(&[P], 2, 100, 0);
    game.set_square_state(&loc(0, 0), SquareState::Finished).unwrap();
    assert_eq!(etag(&game), 1);
    assert_eq!(game.select_square(&loc(0, 0)), Err(Error::InvalidSquareStateTransition));
    assert!(matches!(game.state(), GameState::WaitingForSquareSelection { .. }));
    assert_eq!(square_state(&game, loc(0, 0)), SquareState::Finished);
    assert_eq!(etag(&game), 2);
    assert_eq!(controller(&game), Some(P));
}

#[test]
fn selection_is_refused_outside_its_state() {
    let mut game = new_game();
    assert_eq!(game.select_square(&loc(0, 0)), Err(Error::InvalidStateForOperation));
    let mut game = at_buzzer(100, loc(0, 0));
    assert_eq!(game.select_square(&loc(0, 1)), Err(Error::InvalidStateForOperation));
    assert!(matches!(game.state(), GameState::WaitingForBuzzer { .. }));
}

#[test]
fn buzzer_opens_only_after_a_selection() {
    let mut game = game_on_board(&[P], 1, 100, 0);
    assert_eq!(game.enable_buzzer(), Err(Error::InvalidStateForOperation));
    game.select_square(&loc(0, 2)).unwrap();
    assert_eq!(game.enable_buzzer(), Ok(()));
    match game.state() {
        GameState::WaitingForBuzzer { location, controller, .. } => {
            assert_eq!(*location, loc(0, 2));
            assert_eq!(*controller, P);
        }
        _ => panic!("wrong state"),
    }
    assert_eq!(game.enable_buzzer(), Err(Error::InvalidStateForOperation));
}

#[test]
fn buzzing_makes_the_player_answer_for_the_value_of_the_square() {
    let mut game = game_on_board(&[P, Q], 2, 200, 0);
    let first = controller(&game).unwrap();
    game.select_square(&loc(1, 3)).unwrap();
    assert_eq!(game.buzz(Q), Err(Error::InvalidStateForOperation));
    game.enable_buzzer().unwrap();
    assert_eq!(game.buzz(R), Err(Error::NoSuchPlayer));
    assert!(matches!(game.state(), GameState::WaitingForBuzzer { .. }));
    assert_eq!(game.buzz(Q), Ok(()));
    match game.state() {
        GameState::WaitingForAnswer { location, controller, active_player, value, .. } => {
            assert_eq!(*location, loc(1, 3));
            assert_eq!(*controller, first);
            assert_eq!(*active_player, Q);
            assert_eq!(*value, 800);
        }
        _ => panic!("wrong state"),
    }
    assert_eq!(game.buzz(P), Err(Error::InvalidStateForOperation));
}

#[test]
fn correct_answer_is_only_accepted_while_an_answer_is_awaited() {
    let mut no_board = new_game();
    assert_eq!(no_board.answer(AnswerType::Correct), Err(Error::InvalidStateForOperation));
    assert!(matches!(no_board.state(), GameState::NoBoard));

    let mut selecting = game_on_board(&[P], 1, 100, 1);
    assert_eq!(selecting.answer(AnswerType::Correct), Err(Error::InvalidStateForOperation));
    assert!(matches!(selecting.state(), GameState::WaitingForSquareSelection { .. }));
    assert_eq!(etag(&selecting), 1);

    let mut wagering = game_on_board(&[P], 1, 100, 1);
    wagering.select_square(&loc(0, 0)).unwrap();
    assert_eq!(wagering.answer(AnswerType::Correct), Err(Error::InvalidStateForOperation));
    assert!(matches!(wagering.state(), GameState::WaitingForDailyDoubleWager { .. }));

    let mut enabling = game_on_board(&[P], 1, 100, 0);
    enabling.select_square(&loc(0, 0)).unwrap();
    assert_eq!(enabling.answer(AnswerType::Correct), Err(Error::InvalidStateForOperation));
    assert!(matches!(enabling.state(), GameState::WaitingForEnableBuzzer { .. }));

    let mut buzzing = at_buzzer(100, loc(0, 0));
    assert_eq!(buzzing.answer(AnswerType::Correct), Err(Error::InvalidStateForOperation));
    assert_eq!(buzzing.answer(AnswerType::Incorrect), Err(Error::InvalidStateForOperation));
    assert!(matches!(buzzing.state(), GameState::WaitingForBuzzer { .. }));
    assert_eq!(score(&buzzing, P), 0);
    assert_eq!(etag(&buzzing), 1);

    let mut finale = game_on_board(&[P], 1, 100, 0);
    finale.begin_final_jeopardy(question());
    assert_eq!(finale.answer(AnswerType::Correct), Err(Error::InvalidStateForOperation));
    assert_eq!(finale.answer(AnswerType::Skip), Err(Error::InvalidStateForOperation));
    assert!(matches!(finale.state(), GameState::FinalJeopardy { .. }));

    let mut answering = at_buzzer(100, loc(0, 0));
    answering.buzz(P).unwrap();
    assert_eq!(answering.answer(AnswerType::Correct), Ok(()));
}

#[test]
fn correct_answer_credits_the_value_of_the_square() {
    let mut game = at_buzzer(200, loc(1, 2));
    assert_eq!(score(&game, P), 0);
    assert_eq!(game.buzz(P), Ok(()));
    assert_eq!(game.answer(AnswerType::Correct), Ok(()));
    assert_eq!(score(&game, P), 600);
    assert!(matches!(game.state(), GameState::WaitingForSquareSelection { .. }));
    assert_eq!(controller(&game), Some(P));
    assert_eq!(square_state(&game, loc(1, 2)), SquareState::Finished);
}

#[test]
fn incorrect_answer_debits_the_value_and_reopens_the_buzzer() {
    let mut game = at_buzzer(200, loc(1, 2));
    assert_eq!(game.buzz(P), Ok(()));
    assert_eq!(game.answer(AnswerType::Incorrect), Ok(()));
    assert_eq!(score(&game, P), -600);
    match game.state() {
        GameState::WaitingForBuzzer { location, controller, board } => {
            assert_eq!(*location, loc(1, 2));
            assert_eq!(*controller, P);
            assert_eq!(board.get_square(&loc(1, 2)).state, SquareState::Flipped);
        }
        _ => panic!("wrong state"),
    }
    // Nothing keeps the same player from buzzing again.
    assert_eq!(game.buzz(P), Ok(()));
    assert_eq!(game.answer(AnswerType::Correct), Ok(()));
    assert_eq!(score(&game, P), 0);
}

#[test]
fn correct_answer_hands_the_board_to_the_answering_player() {
    let mut game = game_on_board(&[P, Q], 1, 100, 0);
    let first = controller(&game).unwrap();
    let other = if first == P { Q } else { P };
    game.select_square(&loc(0, 1)).unwrap();
    game.enable_buzzer().unwrap();
    game.buzz(other).unwrap();
    game.answer(AnswerType::Correct).unwrap();
    assert_eq!(controller(&game), Some(other));
    assert_eq!(score(&game, other), 200);
    assert_eq!(score(&game, first), 0);
}

#[test]
fn skip_closes_the_square_without_scoring() {
    let mut answering = game_on_board(&[P, Q], 1, 100, 0);
    let first = controller(&answering).unwrap();
    let other = if first == P { Q } else { P };
    answering.select_square(&loc(0, 1)).unwrap();
    answering.enable_buzzer().unwrap();
    answering.buzz(other).unwrap();
    assert_eq!(answering.answer(AnswerType::Skip), Ok(()));
    assert_eq!(controller(&answering), Some(first));
    assert_eq!(score(&answering, P), 0);
    assert_eq!(score(&answering, Q), 0);
    assert_eq!(square_state(&answering, loc(0, 1)), SquareState::Finished);
    assert!(matches!(answering.state(), GameState::WaitingForSquareSelection { .. }));

    let mut buzzing = at_buzzer(100, loc(0, 3));
    assert_eq!(buzzing.answer(AnswerType::Skip), Ok(()));
    assert!(matches!(buzzing.state(), GameState::WaitingForSquareSelection { .. }));
    assert_eq!(square_state(&buzzing, loc(0, 3)), SquareState::Finished);

    let mut wagering = game_on_board(&[P], 1, 100, 1);
    wagering.select_square(&loc(0, 0)).unwrap();
    assert_eq!(wagering.answer(AnswerType::Skip), Ok(()));
    assert!(matches!(wagering.state(), GameState::WaitingForSquareSelection { .. }));
    assert_eq!(square_state(&wagering, loc(0, 0)), SquareState::Finished);
    assert_eq!(controller(&wagering), Some(P));

    let mut enabling = game_on_board(&[P], 1, 100, 0);
    enabling.select_square(&loc(0, 0)).unwrap();
    assert_eq!(enabling.answer(AnswerType::Skip), Err(Error::InvalidStateForOperation));
}

#[test]
fn verdict_on_a_square_that_was_reset_fails_after_scoring() {
    let mut game = at_buzzer(100, loc(0, 1));
    game.buzz(P).unwrap();
    game.set_square_state(&loc(0, 1), SquareState::Normal).unwrap();
    let before = etag(&game);
    assert_eq!(game.answer(AnswerType::Correct), Err(Error::InvalidSquareStateTransition));
    assert!(matches!(game.state(), GameState::WaitingForAnswer { .. }));
    assert_eq!(score(&game, P), 200);
    assert_eq!(etag(&game), before + 1);
    assert_eq!(square_state(&game, loc(0, 1)), SquareState::Normal);
    assert_eq!(game.answer(AnswerType::Skip), Err(Error::InvalidSquareStateTransition));
    assert_eq!(score(&game, P), 200);
}

#[test]
fn daily_double_wager_is_bounded_by_score_and_multiplier() {
    let setup = |points: i64| {
        let mut game = game_on_board(&[P], 1, 200, 1);
        game.set_player_score(&P, points).unwrap();
        game.select_square(&loc(0, 0)).unwrap();
        game
    };
    let mut game = setup(100);
    assert_eq!(game.submit_wager(&P, 10001), Err(Error::DailyDoubleWagerOutOfRange));
    assert!(matches!(game.state(), GameState::WaitingForDailyDoubleWager { .. }));
    assert_eq!(game.submit_wager(&P, 10000), Ok(()));
    match game.state() {
        GameState::WaitingForAnswer { value, active_player, controller, location, .. } => {
            assert_eq!(*value, 10000);
            assert_eq!(*active_player, P);
            assert_eq!(*controller, P);
            assert_eq!(*location, loc(0, 0));
        }
        _ => panic!("wrong state"),
    }
    game.answer(AnswerType::Correct).unwrap();
    assert_eq!(score(&game, P), 10100);

    let mut rich = setup(20_000);
    assert_eq!(rich.submit_wager(&P, 20_001), Err(Error::DailyDoubleWagerOutOfRange));
    assert_eq!(rich.submit_wager(&P, 20_000), Ok(()));
    rich.answer(AnswerType::Incorrect).unwrap();
    assert_eq!(score(&rich, P), 0);
    assert!(matches!(rich.state(), GameState::WaitingForBuzzer { .. }));

    let mut low = setup(100);
    assert_eq!(low.submit_wager(&P, 4), Err(Error::DailyDoubleWagerOutOfRange));
    assert_eq!(low.submit_wager(&P, -1), Err(Error::DailyDoubleWagerOutOfRange));
    assert_eq!(low.submit_wager(&P, 5), Ok(()));
}

#[test]
fn daily_double_wager_comes_from_the_controller() {
    let mut game = game_on_board(&[P, Q], 1, 200, 1);
    let first = controller(&game).unwrap();
    let other = if first == P { Q } else { P };
    game.select_square(&loc(0, 0)).unwrap();
    assert_eq!(game.submit_wager(&other, 100), Err(Error::InvalidStateForOperation));
    assert_eq!(game.submit_wager(&R, 100), Err(Error::InvalidStateForOperation));
    assert_eq!(game.submit_wager(&first, 100), Ok(()));
    assert_eq!(game.submit_wager(&first, 100), Err(Error::InvalidStateForOperation));
}

#[test]
fn wagers_are_refused_where_none_is_awaited() {
    let mut game = game_on_board(&[P], 1, 200, 0);
    assert_eq!(game.submit_wager(&P, 100), Err(Error::InvalidStateForOperation));
    let mut none = new_game();
    assert_eq!(none.submit_wager(&P, 100), Err(Error::InvalidStateForOperation));
}

#[test]
fn controller_passes_on_when_the_controller_leaves() {
    let mut game = game_on_board(&[P], 1, 100, 0);
    game.add_player_with_id(Q, player("bob", 2));
    assert_eq!(controller(&game), Some(P));
    assert!(game.remove_player(P));
    assert_eq!(controller(&game), Some(Q));
    assert!(game.remove_player(Q));
    assert_eq!(controller(&game), None);
    assert!(matches!(game.state(), GameState::WaitingForSquareSelection { .. }));
    assert!(!game.remove_player(Q));
    game.add_player_with_id(R, player("cy", 3));
    assert_eq!(controller(&game), Some(R));
}

#[test]
fn controller_stays_when_somebody_else_leaves() {
    let mut game = game_on_board(&[P], 1, 100, 0);
    game.add_player_with_id(Q, player("bob", 2));
    assert!(game.remove_player(Q));
    assert_eq!(controller(&game), Some(P));
    assert!(!game.has_player(&Q));
    assert_eq!(etag(&game), 0);
}

#[test]
fn leaving_a_game_without_board_changes_the_roster_only() {
    let mut game = new_game();
    game.add_player_with_id(P, player("ann", 1));
    assert!(!game.remove_player(Q));
    assert!(game.remove_player(P));
    assert!(game.get_player_ids().is_empty());
    assert!(matches!(game.state(), GameState::NoBoard));
}

#[test]
fn leaving_at_the_buzzer_hands_over_or_closes_the_square() {
    for enabled in [false, true] {
        let mut game = game_on_board(&[P], 1, 100, 0);
        game.add_player_with_id(Q, player("bob", 2));
        game.select_square(&loc(0, 1)).unwrap();
        if enabled {
            game.enable_buzzer().unwrap();
        }
        assert!(game.remove_player(P));
        assert_eq!(controller(&game), Some(Q));
        if enabled {
            assert!(matches!(game.state(), GameState::WaitingForBuzzer { .. }));
        } else {
            assert!(matches!(game.state(), GameState::WaitingForEnableBuzzer { .. }));
        }
        assert_eq!(square_state(&game, loc(0, 1)), SquareState::Flipped);
        assert!(game.remove_player(Q));
        assert!(matches!(game.state(), GameState::WaitingForSquareSelection { .. }));
        assert_eq!(controller(&game), None);
        assert_eq!(square_state(&game, loc(0, 1)), SquareState::Finished);
        assert_eq!(etag(&game), 2);
    }
}

#[test]
fn leaving_during_a_daily_double_closes_the_square() {
    let mut game = game_on_board(&[P], 1, 100, 1);
    game.add_player_with_id(Q, player("bob", 2));
    game.select_square(&loc(0, 0)).unwrap();
    assert!(game.remove_player(Q));
    assert!(matches!(game.state(), GameState::WaitingForDailyDoubleWager { .. }));
    game.add_player_with_id(Q, player("bob", 2));
    assert!(game.remove_player(P));
    assert!(matches!(game.state(), GameState::WaitingForSquareSelection { .. }));
    assert_eq!(controller(&game), Some(Q));
    assert_eq!(square_state(&game, loc(0, 0)), SquareState::Finished);
}

#[test]
fn leaving_while_answering_closes_the_square() {
    let mut game = game_on_board(&[P], 1, 100, 0);
    game.add_player_with_id(Q, player("bob", 2));
    game.select_square(&loc(0, 2)).unwrap();
    game.enable_buzzer().unwrap();
    game.buzz(Q).unwrap();
    assert!(game.remove_player(Q));
    assert!(matches!(game.state(), GameState::WaitingForSquareSelection { .. }));
    assert_eq!(controller(&game), Some(P));
    assert_eq!(square_state(&game, loc(0, 2)), SquareState::Finished);
}

#[test]
fn leaving_controller_is_replaced_while_another_answers() {
    let mut game = game_on_board(&[P], 1, 100, 0);
    game.add_player_with_id(Q, player("bob", 2));
    game.select_square(&loc(0, 2)).unwrap();
    game.enable_buzzer().unwrap();
    game.buzz(Q).unwrap();
    assert!(game.remove_player(P));
    match game.state() {
        GameState::WaitingForAnswer { controller, active_player, value, location, .. } => {
            assert_eq!(*controller, Q);
            assert_eq!(*active_player, Q);
            assert_eq!(*value, 300);
            assert_eq!(*location, loc(0, 2));
        }
        _ => panic!("wrong state"),
    }
    assert_eq!(square_state(&game, loc(0, 2)), SquareState::Flipped);
}

#[test]
fn last_player_leaving_while_answering_leaves_no_controller() {
    let mut game = at_buzzer(100, loc(0, 0));
    game.buzz(P).unwrap();
    assert!(game.remove_player(P));
    assert!(matches!(game.state(), GameState::WaitingForSquareSelection { .. }));
    assert_eq!(controller(&game), None);
    assert_eq!(square_state(&game, loc(0, 0)), SquareState::Finished);
}

#[test]
fn moderator_can_force_a_square_state() {
    let mut game = game_on_board(&[P], 2, 100, 0);
    assert_eq!(game.set_square_state(&loc(1, 4), SquareState::Finished), Ok(()));
    assert_eq!(square_state(&game, loc(1, 4)), SquareState::Finished);
    assert_eq!(etag(&game), 1);
    assert_eq!(game.set_square_state(&loc(1, 4), SquareState::Normal), Ok(()));
    assert_eq!(square_state(&game, loc(1, 4)), SquareState::Normal);
    assert_eq!(game.set_square_state(&loc(2, 0), SquareState::Normal), Err(Error::InvalidSquare));
    assert_eq!(etag(&game), 2);
    game.select_square(&loc(0, 0)).unwrap();
    assert_eq!(
        game.set_square_state(&loc(0, 1), SquareState::Finished),
        Err(Error::InvalidStateForOperation)
    );
    game.enable_buzzer().unwrap();
    assert_eq!(game.set_square_state(&loc(0, 1), SquareState::Finished), Ok(()));
    game.buzz(P).unwrap();
    assert_eq!(game.set_square_state(&loc(0, 2), SquareState::Finished), Ok(()));
    assert!(matches!(game.state(), GameState::WaitingForAnswer { .. }));
    let mut none = new_game();
    assert_eq!(
        none.set_square_state(&loc(0, 0), SquareState::Finished),
        Err(Error::InvalidStateForOperation)
    );
    let mut wagering = game_on_board(&[P], 1, 100, 1);
    wagering.select_square(&loc(0, 0)).unwrap();
    assert_eq!(wagering.set_square_state(&loc(0, 3), SquareState::Flipped), Ok(()));
    let mut finale = game_on_board(&[P], 1, 100, 0);
    finale.begin_final_jeopardy(question());
    assert_eq!(
        finale.set_square_state(&loc(0, 0), SquareState::Finished),
        Err(Error::InvalidStateForOperation)
    );
}

#[test]
fn moderator_can_force_a_score() {
    let mut game = new_game();
    game.add_player_with_id(P, player("ann", 1));
    assert_eq!(game.set_player_score(&P, -250), Ok(()));
    assert_eq!(score(&game, P), -250);
    assert_eq!(game.set_player_score(&Q, 1), Err(Error::NoSuchPlayer));
    assert_eq!(game.get_player(&P).unwrap().name(), "ann");
    assert!(game.get_player(&Q).is_none());
}

#[test]
fn final_round_starts_from_any_state_and_clears_records() {
    let mut game = game_on_board(&[P, Q], 1, 100, 0);
    game.begin_final_jeopardy(question());
    game.set_player_score(&P, 500).unwrap();
    game.submit_wager(&P, 300).unwrap();
    game.submit_final_jeopardy_answer(&P, "what").unwrap();
    game.reveal_final_jeopardy_info(&P, FinalJeopardyInfoType::Wager).unwrap();
    game.begin_final_jeopardy(question());
    match game.state() {
        GameState::FinalJeopardy {
            category_name,
            question,
            answer,
            question_revealed,
            answers_locked,
        } => {
            assert_eq!(category_name, "finale");
            assert_eq!(question.text.as_deref(), Some("the last clue"));
            assert_eq!(answer, "the last answer");
            assert!(!question_revealed && !answers_locked);
        }
        _ => panic!("wrong state"),
    }
    let info = game.get_player(&P).unwrap().final_jeopardy_info();
    assert!(info.wager.is_none() && info.answer.is_none());
    assert!(!info.wager_revealed && !info.answer_revealed);
    assert_eq!(score(&game, P), 500);
    assert!(game.has_player(&Q));
}

#[test]
fn final_round_wager_is_bounded_by_the_score() {
    let mut game = game_on_board(&[P], 1, 100, 0);
    game.set_player_score(&P, 500).unwrap();
    game.begin_final_jeopardy(question());
    assert_eq!(game.submit_wager(&P, 501), Err(Error::FinalJeopardyWagerOutOfRange));
    assert_eq!(game.submit_wager(&P, -1), Err(Error::FinalJeopardyWagerOutOfRange));
    assert!(game.get_player(&P).unwrap().final_jeopardy_info().wager.is_none());
    assert_eq!(game.submit_wager(&P, 500), Ok(()));
    assert_eq!(game.get_player(&P).unwrap().final_jeopardy_info().wager, Some(500));
    assert_eq!(game.submit_wager(&P, 0), Ok(()));
    assert_eq!(game.get_player(&P).unwrap().final_jeopardy_info().wager, Some(0));
    // A wager of somebody who is no player is accepted and forgotten.
    assert_eq!(game.submit_wager(&Q, 10), Ok(()));
    assert_eq!(game.reveal_final_jeopardy_question(), Ok(()));
    assert_eq!(game.submit_wager(&P, 10), Err(Error::InvalidStateForOperation));
    assert_eq!(game.get_player(&P).unwrap().final_jeopardy_info().wager, Some(0));
}

#[test]
fn final_round_answers_are_taken_until_locked() {
    let mut game = game_on_board(&[P], 1, 100, 0);
    assert_eq!(game.submit_final_jeopardy_answer(&P, "x"), Err(Error::InvalidStateForOperation));
    game.begin_final_jeopardy(question());
    assert_eq!(game.submit_final_jeopardy_answer(&P, "first"), Ok(()));
    assert_eq!(game.submit_final_jeopardy_answer(&P, "second"), Ok(()));
    assert_eq!(game.submit_final_jeopardy_answer(&Q, "nobody"), Ok(()));
    assert_eq!(
        game.get_player(&P).unwrap().final_jeopardy_info().answer.as_deref(),
        Some("second")
    );
    assert_eq!(game.lock_final_jeopardy_answers(), Ok(()));
    assert_eq!(game.submit_final_jeopardy_answer(&P, "late"), Err(Error::InvalidStateForOperation));
    assert_eq!(
        game.get_player(&P).unwrap().final_jeopardy_info().answer.as_deref(),
        Some("second")
    );
    match game.state() {
        GameState::FinalJeopardy { answers_locked, question_revealed, .. } => {
            assert!(*answers_locked && !*question_revealed);
        }
        _ => panic!("wrong state"),
    }
}

#[test]
fn final_round_flags_need_the_final_round() {
    let mut game = game_on_board(&[P], 1, 100, 0);
    assert_eq!(game.reveal_final_jeopardy_question(), Err(Error::InvalidStateForOperation));
    assert_eq!(game.lock_final_jeopardy_answers(), Err(Error::InvalidStateForOperation));
    assert_eq!(
        game.reveal_final_jeopardy_info(&P, FinalJeopardyInfoType::Wager),
        Err(Error::InvalidStateForOperation)
    );
    assert_eq!(
        game.evaluate_final_jeopardy_answer(&P, AnswerType::Correct),
        Err(Error::InvalidStateForOperation)
    );
    assert!(matches!(game.state(), GameState::WaitingForSquareSelection { .. }));
    game.begin_final_jeopardy(question());
    assert_eq!(game.reveal_final_jeopardy_question(), Ok(()));
    assert_eq!(game.reveal_final_jeopardy_question(), Ok(()));
    match game.state() {
        GameState::FinalJeopardy { answers_locked, question_revealed, .. } => {
            assert!(!*answers_locked && *question_revealed);
        }
        _ => panic!("wrong state"),
    }
}

#[test]
fn final_round_reveals_one_part_of_one_record() {
    let mut game = game_on_board(&[P, Q], 1, 100, 0);
    game.begin_final_jeopardy(question());
    assert_eq!(game.reveal_final_jeopardy_info(&P, FinalJeopardyInfoType::Answer), Ok(()));
    let info = game.get_player(&P).unwrap().final_jeopardy_info();
    assert!(info.answer_revealed && !info.wager_revealed);
    assert_eq!(game.reveal_final_jeopardy_info(&P, FinalJeopardyInfoType::Wager), Ok(()));
    let info = game.get_player(&P).unwrap().final_jeopardy_info();
    assert!(info.answer_revealed && info.wager_revealed);
    let other = game.get_player(&Q).unwrap().final_jeopardy_info();
    assert!(!other.answer_revealed && !other.wager_revealed);
    assert_eq!(game.reveal_final_jeopardy_info(&R, FinalJeopardyInfoType::Wager), Ok(()));
}

#[test]
fn final_round_verdict_moves_the_wager() {
    let mut game = game_on_board(&[P, Q], 1, 100, 0);
    game.set_player_score(&P, 1000).unwrap();
    game.begin_final_jeopardy(question());
    game.submit_wager(&P, 400).unwrap();
    assert_eq!(game.evaluate_final_jeopardy_answer(&P, AnswerType::Correct), Ok(()));
    assert_eq!(score(&game, P), 1400);
    assert_eq!(game.evaluate_final_jeopardy_answer(&P, AnswerType::Incorrect), Ok(()));
    assert_eq!(score(&game, P), 1000);
    assert_eq!(game.evaluate_final_jeopardy_answer(&P, AnswerType::Skip), Ok(()));
    assert_eq!(score(&game, P), 1000);
    // Without a wager nothing is at stake.
    assert_eq!(game.evaluate_final_jeopardy_answer(&Q, AnswerType::Incorrect), Ok(()));
    assert_eq!(score(&game, Q), 0);
    assert_eq!(game.evaluate_final_jeopardy_answer(&R, AnswerType::Correct), Ok(()));
    assert!(matches!(game.state(), GameState::FinalJeopardy { .. }));
}

#[test]
fn leaving_the_final_round_changes_the_roster_only() {
    let mut game = game_on_board(&[P, Q], 1, 100, 0);
    game.begin_final_jeopardy(question());
    assert!(game.remove_player(P));
    assert!(matches!(game.state(), GameState::FinalJeopardy { .. }));
    assert!(!game.has_player(&P) && game.has_player(&Q));
}

#[test]
fn ending_a_game_sets_the_flag() {
    let mut game = game_on_board(&[P], 1, 100, 0);
    game.end();
    assert!(game.is_ended());
    assert!(matches!(game.state(), GameState::WaitingForSquareSelection { .. }));
    assert!(game.has_player(&P));
}

#[test]
fn verdicts_and_parts_are_read_from_their_names() {
    assert_eq!(AnswerType::parse("Correct"), Some(AnswerType::Correct));
    assert_eq!(AnswerType::parse("Incorrect"), Some(AnswerType::Incorrect));
    assert_eq!(AnswerType::parse("Skip"), Some(AnswerType::Skip));
    assert_eq!(AnswerType::parse("correct"), None);
    assert_eq!(AnswerType::parse(""), None);
    assert_eq!("Skip".parse::<AnswerType>(), Ok(AnswerType::Skip));
    assert_eq!("skip".parse::<AnswerType>(), Err(()));
    assert_eq!(FinalJeopardyInfoType::parse("Wager"), Some(FinalJeopardyInfoType::Wager));
    assert_eq!(FinalJeopardyInfoType::parse("Answer"), Some(FinalJeopardyInfoType::Answer));
    assert_eq!(FinalJeopardyInfoType::parse("Other"), None);
    assert_eq!("Answer".parse::<FinalJeopardyInfoType>(), Ok(FinalJeopardyInfoType::Answer));
    assert_eq!("".parse::<FinalJeopardyInfoType>(), Err(()));
}

#[test]
fn range_checks_tell_when_arithmetic_fits() {
    let mut game = at_buzzer(100, loc(0, 0));
    assert!(game.has_etag_room());
    assert!(game.has_board_id_room());
    assert!(game.answer_fits(AnswerType::Correct));
    game.buzz(P).unwrap();
    game.set_player_score(&P, i64::MAX).unwrap();
    assert!(!game.answer_fits(AnswerType::Correct));
    assert!(game.answer_fits(AnswerType::Incorrect));
    assert!(game.answer_fits(AnswerType::Skip));
    game.set_player_score(&P, i64::MIN).unwrap();
    assert!(game.answer_fits(AnswerType::Correct));
    assert!(!game.answer_fits(AnswerType::Incorrect));

    let mut finale = game_on_board(&[P], 1, 100, 0);
    finale.set_player_score(&P, i64::MAX).unwrap();
    finale.begin_final_jeopardy(question());
    assert!(finale.evaluation_fits(&P, AnswerType::Correct));
    finale.submit_wager(&P, 1).unwrap();
    assert!(!finale.evaluation_fits(&P, AnswerType::Correct));
    assert!(finale.evaluation_fits(&P, AnswerType::Incorrect));
    assert!(finale.evaluation_fits(&Q, AnswerType::Correct));
    assert!(new_game().has_etag_room());
    assert!(new_game().answer_has_room(AnswerType::Correct));
    assert!(at_buzzer(100, loc(0, 0)).answer_has_room(AnswerType::Skip));
}

#[test]
fn any_multiplier_loads_and_amounts_are_tested_where_they_are_reckoned() {
    let mut game = game_on_board(&[P], 1, i64::MAX, 1);
    assert!(matches!(game.state(), GameState::WaitingForSquareSelection { .. }));
    game.select_square(&loc(0, 0)).unwrap();
    assert!(game.wager_fits(&P, 4));
    assert!(game.wager_fits(&Q, 100));
    assert!(!game.wager_fits(&P, 5));
    assert_eq!(game.submit_wager(&P, 4), Err(Error::DailyDoubleWagerOutOfRange));
    assert_eq!(game.submit_wager(&Q, 100), Err(Error::InvalidStateForOperation));
    game.answer(AnswerType::Skip).unwrap();
    game.select_square(&loc(0, 1)).unwrap();
    assert!(game.buzz_fits(&P));
    game.enable_buzzer().unwrap();
    assert!(!game.buzz_fits(&P));
    assert!(game.buzz_fits(&Q));
    assert_eq!(game.buzz(Q), Err(Error::NoSuchPlayer));

    let mut fifth = game_on_board(&[P], 1, i64::MAX / 5, 0);
    fifth.select_square(&loc(0, 4)).unwrap();
    fifth.enable_buzzer().unwrap();
    assert!(fifth.buzz_fits(&P));
    fifth.buzz(P).unwrap();
    match fifth.state() {
        GameState::WaitingForAnswer { value, .. } => assert_eq!(*value, (i64::MAX / 5) * 5),
        _ => panic!("wrong state"),
    }

    let mut usual = game_on_board(&[P], 1, 200, 1);
    usual.select_square(&loc(0, 0)).unwrap();
    assert!(usual.wager_fits(&P, 5));
}
