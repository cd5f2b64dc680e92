use vstd::prelude::*;

use super::board::{BoardView, Category, Location, Square, SquareState, CATEGORY_HEIGHT};
use super::loading::is_hit;
use super::sampler::{flat_indices, is_selection, lemma_drawing_is_fixed_by_keys, precedes};
use crate::seed::Seed;
use super::{AnswerType, Game, GameState, GameView};
use crate::errors::Error;
use crate::ids::PlayerId;

verus! {

/// A verdict of "correct" is accepted only while an answer is awaited: in
/// every other state it fails as invalid for the state and changes nothing.
pub proof fn lemma_correct_needs_awaited_answer(
    pre: GameView,
    post: GameView,
    result: Result<(), Error>,
)
    requires
        Game::answered(pre, post, AnswerType::Correct, result),
        !(pre.state is WaitingForAnswer),
    ensures
        result == Err::<(), Error>(Error::InvalidStateForOperation),
        post == pre,
{
}

/// While an answer is awaited for a square that was turned over, a verdict
/// of "correct" is accepted, and play returns to the selection of a square
/// with the answering player in control.
pub proof fn lemma_correct_is_accepted(pre: GameView, post: GameView, result: Result<(), Error>)
    requires
        Game::answered(pre, post, AnswerType::Correct, result),
        pre.state matches GameState::WaitingForAnswer { board, location, .. } && Square::is_open(
            board@.square(location).state,
        ),
    ensures
        result is Ok,
        post.state is WaitingForSquareSelection,
        post.state.controller() == pre.state.active_player(),
{
}

/// A player who buzzes and is judged right gains the value of the square in
/// play, the board's multiplier times the number of the row counted from
/// one; a player judged wrong loses the same, and the buzzer is open again
/// for the same square under the same controller.
pub proof fn lemma_buzz_then_verdict(
    pre: GameView,
    buzzed: GameView,
    post: GameView,
    id: PlayerId,
    answer: AnswerType,
    first: Result<(), Error>,
    second: Result<(), Error>,
)
    requires
        pre.wf(),
        Game::buzz_in_range(pre, id),
        Game::buzzed(pre, buzzed, id, first),
        first is Ok,
        Game::answer_in_range(buzzed, answer),
        Game::answered(buzzed, post, answer, second),
    ensures
        pre.state matches GameState::WaitingForBuzzer { board, location, .. } && {
            let value = board@.value_multiplier * (location.row + 1);
            &&& answer == AnswerType::Correct ==> post.players[id].score == pre.players[id].score
                + value
            &&& answer == AnswerType::Incorrect ==> post.players[id].score == pre.players[id].score
                - value && second is Ok && post.state == pre.state
            &&& answer == AnswerType::Skip ==> post.players == pre.players
        },
{
    assert(pre.players.contains_key(id));
}

/// Where the controller leaves while a square is being selected and one
/// other player is there, that player takes control.
pub proof fn lemma_controller_handoff(
    pre: GameView,
    post: GameView,
    leaving: PlayerId,
    staying: PlayerId,
    heir: Option<PlayerId>,
)
    requires
        pre.state matches GameState::WaitingForSquareSelection { controller, .. } && controller
            == Some(leaving),
        leaving != staying,
        forall|id: PlayerId| pre.players.contains_key(id) <==> id == leaving || id == staying,
        post.is_heir(heir),
        Game::left(pre, post, leaving, heir),
    ensures
        post.state is WaitingForSquareSelection,
        post.state.controller() == Some(staying),
        post.state.board() == pre.state.board(),
{
    assert(post.players.contains_key(staying));
}

/// Where the controller leaves while a square is being selected and nobody
/// else is there, nobody is in control.
pub proof fn lemma_last_controller_leaves(
    pre: GameView,
    post: GameView,
    leaving: PlayerId,
    heir: Option<PlayerId>,
)
    requires
        pre.state matches GameState::WaitingForSquareSelection { controller, .. } && controller
            == Some(leaving),
        forall|id: PlayerId| pre.players.contains_key(id) <==> id == leaving,
        post.is_heir(heir),
        Game::left(pre, post, leaving, heir),
    ensures
        post.state is WaitingForSquareSelection,
        post.state.controller() is None,
        post.state.board() == pre.state.board(),
{
    if heir is Some {
        assert(post.players.contains_key(heir.unwrap()));
    }
}

/// The largest wager that is accepted on a daily double is the larger of
/// fifty times the board's multiplier and the controller's score: that
/// amount is accepted, and one more is refused.
pub proof fn lemma_daily_double_ceiling(
    pre: GameView,
    post: GameView,
    wager: i64,
    result: Result<(), Error>,
)
    requires
        pre.state matches GameState::WaitingForDailyDoubleWager { controller, .. } && Game::wagered(
            pre,
            post,
            controller,
            wager,
            result,
        ),
        wager >= super::MIN_DAILY_DOUBLE_WAGER,
    ensures
        pre.state matches GameState::WaitingForDailyDoubleWager { board, controller, .. } && {
            let ceiling = super::max_daily_double_wager(
                board@.value_multiplier,
                pre.players[controller].score,
            );
            &&& wager <= ceiling ==> result is Ok && post.state.value() == Some(wager)
            &&& wager > ceiling ==> result == Err::<(), Error>(Error::DailyDoubleWagerOutOfRange)
                && post == pre
        },
{
}


/// How far a square has been played, as a number: untouched, turned over,
/// finished.
pub open spec fn progress(state: SquareState) -> int {
    match state {
        SquareState::Normal => 0,
        SquareState::DailyDoubleRevealed => 1,
        SquareState::Flipped => 1,
        SquareState::Finished => 2,
    }
}

/// Whether `after` is the board `before` further on in play: the same
/// squares, none of them played less far than before, and a change counter
/// that has not gone back.
pub open spec fn played_on(before: BoardView, after: BoardView) -> bool {
    &&& after.id == before.id
    &&& after.seed == before.seed
    &&& after.value_multiplier == before.value_multiplier
    &&& after.etag >= before.etag
    &&& after.categories.len() == before.categories.len()
    &&& forall|location: Location|
        before.contains(location) ==> {
            let was = before.square(location);
            let is = #[trigger] after.square(location);
            &&& is.clue == was.clue
            &&& is.answer == was.answer
            &&& is.is_daily_double == was.is_daily_double
            &&& progress(is.state) >= progress(was.state)
        }
}

/// Whether play has gone on from `pre` to `post` on the same board, where
/// there was one.
pub open spec fn play_went_on(pre: GameState, post: GameState) -> bool {
    pre.board() matches Some(before) ==> post.board() matches Some(after) && played_on(
        before@,
        after@,
    )
}

/// A mutating access that leaves a square no less far played than it was
/// leaves the board further on in play.
proof fn lemma_touch_plays_on(before: BoardView, after: BoardView, location: Location, square: Square)
    requires
        before.contains(location),
        before.touched(after, location, square),
        square.clue == before.square(location).clue,
        square.answer == before.square(location).answer,
        square.is_daily_double == before.square(location).is_daily_double,
        progress(square.state) >= progress(before.square(location).state),
    ensures
        played_on(before, after),
{
    assert forall|other: Location| before.contains(other) implies {
        let was = before.square(other);
        let is = #[trigger] after.square(other);
        &&& is.clue == was.clue
        &&& is.answer == was.answer
        &&& is.is_daily_double == was.is_daily_double
        &&& progress(is.state) >= progress(was.state)
    } by {
        let c = other.category as int;
        assert(after.categories[c].squares@ == if c == location.category {
            before.categories[c].squares@.update(location.row as int, square)
        } else {
            before.categories[c].squares@
        });
    }
}

/// Selecting a square never turns a square back: whether the selection is
/// accepted or not, every square is played as far as before or further.
pub proof fn lemma_selection_plays_on(
    pre: GameView,
    post: GameView,
    location: Location,
    result: Result<(), Error>,
)
    requires
        pre.wf(),
        Game::selected(pre, post, location, result),
    ensures
        play_went_on(pre.state, post.state),
{
    match pre.state {
        GameState::WaitingForSquareSelection { board, controller: Some(controller) } => {
            if board@.contains(location) {
                let square = board@.square(location);
                let after = post.state.board().unwrap();
                if square.state == SquareState::Normal {
                    lemma_touch_plays_on(
                        board@,
                        after@,
                        location,
                        square.with_state(Square::flipped_state(square.is_daily_double)),
                    );
                } else {
                    lemma_touch_plays_on(board@, after@, location, square);
                }
            } else {
                lemma_same_board_plays_on(board@);
            }
        },
        _ => {
            if pre.state.board() is Some {
                lemma_same_board_plays_on(pre.state.board().unwrap()@);
            }
        },
    }
}

/// A board that has not changed is as far on in play as it was.
proof fn lemma_same_board_plays_on(board: BoardView)
    ensures
        played_on(board, board),
{
}

/// A verdict never turns a square back: whether it is accepted or not,
/// every square is played as far as before or further.
pub proof fn lemma_verdict_plays_on(
    pre: GameView,
    post: GameView,
    answer: AnswerType,
    result: Result<(), Error>,
)
    requires
        pre.wf(),
        Game::answered(pre, post, answer, result),
    ensures
        play_went_on(pre.state, post.state),
{
    if pre.state.board() is Some {
        let board = pre.state.board().unwrap();
        lemma_same_board_plays_on(board@);
        if pre.state.location() is Some && post.state.board() is Some {
            let location = pre.state.location().unwrap();
            let square = board@.square(location);
            let after = post.state.board().unwrap();
            if board@.touched(after@, location, square) {
                lemma_touch_plays_on(board@, after@, location, square);
            }
            if board@.touched(after@, location, square.with_state(SquareState::Finished)) {
                lemma_touch_plays_on(
                    board@,
                    after@,
                    location,
                    square.with_state(SquareState::Finished),
                );
            }
        }
    }
}

/// A player's departure never turns a square back: every square is played
/// as far as before or further.
pub proof fn lemma_departure_plays_on(
    pre: GameView,
    post: GameView,
    id: PlayerId,
    heir: Option<PlayerId>,
)
    requires
        pre.wf(),
        Game::left(pre, post, id, heir),
    ensures
        play_went_on(pre.state, post.state),
{
    if pre.state.board() is Some {
        let board = pre.state.board().unwrap();
        lemma_same_board_plays_on(board@);
        if pre.state.location() is Some && post.state.board() is Some {
            let location = pre.state.location().unwrap();
            let square = board@.square(location);
            let after = post.state.board().unwrap();
            if board@.touched(after@, location, square.with_state(SquareState::Finished)) {
                lemma_touch_plays_on(
                    board@,
                    after@,
                    location,
                    square.with_state(SquareState::Finished),
                );
            }
        }
    }
}


/// A board is fixed by what it is made from: two boards made from the same
/// categories under the same keys, with the same number of daily doubles,
/// are the same board, daily doubles and all.
pub proof fn lemma_board_is_fixed_by_keys(
    first: BoardView,
    second: BoardView,
    multiplier: i64,
    daily_double_count: usize,
    categories: Seq<Category>,
    id: usize,
    seed: Seed,
    keys: Seq<u64>,
)
    requires
        Game::is_random_board(first, multiplier, daily_double_count, categories, id, seed, keys),
        Game::is_random_board(second, multiplier, daily_double_count, categories, id, seed, keys),
    ensures
        first == second,
{
    let a = choose|drawn: Seq<Location>|
        {
            &&& is_selection(keys, daily_double_count as nat, flat_indices(drawn))
            &&& #[trigger] Game::is_fresh_board(first, multiplier, categories, id, seed, drawn)
        };
    let b = choose|drawn: Seq<Location>|
        {
            &&& is_selection(keys, daily_double_count as nat, flat_indices(drawn))
            &&& #[trigger] Game::is_fresh_board(second, multiplier, categories, id, seed, drawn)
        };
    assert(flat_indices(a).len() == a.len());
    assert(flat_indices(b).len() == b.len());
    lemma_drawing_is_fixed_by_keys(keys, daily_double_count as nat, a, b);
    assert forall|c: int| 0 <= c < categories.len() implies first.categories[c]
        == second.categories[c] by {
        assert forall|r: int| 0 <= r < CATEGORY_HEIGHT implies first.categories[c].squares@[r]
            == second.categories[c].squares@[r] by {
            assert(first.categories[c].squares[r] == second.categories[c].squares[r]);
        }
        assert(first.categories[c].squares =~= second.categories[c].squares);
    }
    assert(first.categories =~= second.categories);
}

/// On a board made from categories without daily doubles, the daily doubles
/// are the squares that were drawn: as many as were asked for, no square
/// twice, every one of them on the board.
pub proof fn lemma_daily_doubles_are_the_drawn(
    board: BoardView,
    multiplier: i64,
    daily_double_count: usize,
    categories: Seq<Category>,
    id: usize,
    seed: Seed,
    keys: Seq<u64>,
)
    requires
        Game::is_random_board(board, multiplier, daily_double_count, categories, id, seed, keys),
        forall|c: int, r: int|
            0 <= c < categories.len() && 0 <= r < CATEGORY_HEIGHT
                ==> !(#[trigger] categories[c].squares[r]).is_daily_double,
    ensures
        exists|drawn: Seq<Location>|
            {
                &&& drawn.len() == daily_double_count
                &&& drawn.no_duplicates()
                &&& forall|p: int| 0 <= p < drawn.len() ==> board.contains(#[trigger] drawn[p])
                &&& forall|location: Location|
                    board.contains(location) ==> (#[trigger] board.square(
                        location,
                    ).is_daily_double <==> drawn.contains(location))
            },
{
    let drawn = choose|drawn: Seq<Location>|
        {
            &&& is_selection(keys, daily_double_count as nat, flat_indices(drawn))
            &&& #[trigger] Game::is_fresh_board(board, multiplier, categories, id, seed, drawn)
        };
    let picks = flat_indices(drawn);
    assert(picks.len() == drawn.len());
    assert forall|p: int, q: int| 0 <= p < drawn.len() && 0 <= q < drawn.len() && p != q implies drawn[p]
        != drawn[q] by {
        assert(picks[p] == drawn[p].flat_index() && picks[q] == drawn[q].flat_index());
        if p < q {
            assert(precedes(keys, picks[p], picks[q]));
        } else {
            assert(precedes(keys, picks[q], picks[p]));
        }
    }
    assert forall|location: Location| board.contains(location) implies (#[trigger] board.square(
        location,
    ).is_daily_double <==> drawn.contains(location)) by {
        let c = location.category as int;
        let r = location.row as int;
        assert(board.categories[c].squares[r] == (Square {
            is_daily_double: categories[c].squares[r].is_daily_double || is_hit(
                drawn,
                drawn.len() as int,
                c,
                r,
            ),
            ..categories[c].squares[r]
        }));
        if is_hit(drawn, drawn.len() as int, c, r) {
            let p = choose|p: int|
                0 <= p < drawn.len() && (#[trigger] drawn[p]).category == c && drawn[p].row == r;
            assert(drawn[p] == location);
        }
        if drawn.contains(location) {
            let p = choose|p: int| 0 <= p < drawn.len() && drawn[p] == location;
            assert(drawn[p].category == c && drawn[p].row == r);
            assert(is_hit(drawn, drawn.len() as int, c, r));
        }
    }
    assert forall|p: int| 0 <= p < drawn.len() implies board.contains(#[trigger] drawn[p]) by {
        assert(drawn[p].row < CATEGORY_HEIGHT && drawn[p].category < categories.len());
    }
}

} // verus!
