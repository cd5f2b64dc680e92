use vstd::prelude::*;

use super::board::{BoardView, Category, JeopardyBoard, Location, Square, CATEGORY_HEIGHT};
use super::sampler::{flat_indices, is_selection};
use super::{Game, GameState, GameView};
use crate::errors::Error;
use crate::seed::Seed;

verus! {

/// Whether the square in row `row` of category `category` is among the
/// first `upto` locations of `drawn`.
pub open spec fn is_hit(drawn: Seq<Location>, upto: int, category: int, row: int) -> bool {
    exists|p: int|
        0 <= p < upto && (#[trigger] drawn[p]).category == category && drawn[p].row == row
}

/// Whether `marked` are the categories `given` with the squares at the first
/// `upto` locations of `drawn` made daily doubles, and nothing else changed.
pub open spec fn marks_daily_doubles(
    given: Seq<Category>,
    marked: Seq<Category>,
    drawn: Seq<Location>,
    upto: int,
) -> bool {
    &&& marked.len() == given.len()
    &&& forall|c: int|
        0 <= c < given.len() ==> {
            &&& (#[trigger] marked[c]).title == given[c].title
            &&& marked[c].commentary == given[c].commentary
            &&& marked[c].air_year == given[c].air_year
        }
    &&& forall|c: int, r: int|
        0 <= c < given.len() && 0 <= r < CATEGORY_HEIGHT ==> #[trigger] marked[c].squares[r] == (
        Square {
            is_daily_double: given[c].squares[r].is_daily_double || is_hit(drawn, upto, c, r),
            ..given[c].squares[r]
        })
}

/// Makes the squares at the locations `drawn` daily doubles.
fn mark_daily_doubles(board: &mut JeopardyBoard, drawn: &Vec<Location>)
    requires
        old(board)@.etag == 0,
        forall|p: int| 0 <= p < drawn@.len() ==> old(board)@.contains(#[trigger] drawn@[p]),
    ensures
        final(board)@.value_multiplier == old(board)@.value_multiplier,
        final(board)@.id == old(board)@.id,
        final(board)@.seed == old(board)@.seed,
        final(board)@.etag == drawn@.len(),
        marks_daily_doubles(
            old(board)@.categories,
            final(board)@.categories,
            drawn@,
            drawn@.len() as int,
        ),
{
    let ghost given = board@.categories;
    let mut position: usize = 0;
    while position < drawn.len()
        invariant
            position <= drawn@.len(),
            forall|p: int|
                0 <= p < drawn@.len() ==> (#[trigger] drawn@[p]).row < CATEGORY_HEIGHT
                    && drawn@[p].category < given.len(),
            board@.value_multiplier == old(board)@.value_multiplier,
            board@.id == old(board)@.id,
            board@.seed == old(board)@.seed,
            board@.etag == position,
            marks_daily_doubles(given, board@.categories, drawn@, position as int),
        decreases drawn@.len() - position,
    {
        let location = drawn[position];
        let ghost before = board@;
        let square = board.get_square_mut(&location);
        square.is_daily_double = true;
        proof {
            let after = board@;
            let hit = Square { is_daily_double: true, ..before.square(location) };
            assert(before.touched(after, location, hit));
            assert forall|c: int, r: int|
                0 <= c < given.len() && 0 <= r < CATEGORY_HEIGHT implies #[trigger] after.categories[c].squares[r]
                == (Square {
                is_daily_double: given[c].squares[r].is_daily_double || is_hit(
                    drawn@,
                    position + 1,
                    c,
                    r,
                ),
                ..given[c].squares[r]
            }) by {
                lemma_mark_step(given, before, after, drawn@, position as int, c, r);
            }
        }
        position += 1;
    }
}

/// One step of marking: what the square in row `r` of category `c` is after
/// the square at position `position` of `drawn` was made a daily double.
proof fn lemma_mark_step(
    given: Seq<Category>,
    before: BoardView,
    after: BoardView,
    drawn: Seq<Location>,
    position: int,
    c: int,
    r: int,
)
    requires
        0 <= position < drawn.len(),
        0 <= c < given.len(),
        0 <= r < CATEGORY_HEIGHT,
        before.contains(drawn[position]),
        marks_daily_doubles(given, before.categories, drawn, position),
        before.touched(
            after,
            drawn[position],
            Square { is_daily_double: true, ..before.square(drawn[position]) },
        ),
    ensures
        after.categories[c].squares[r] == (Square {
            is_daily_double: given[c].squares[r].is_daily_double || is_hit(
                drawn,
                position + 1,
                c,
                r,
            ),
            ..given[c].squares[r]
        }),
{
    let location = drawn[position];
    let hit = Square { is_daily_double: true, ..before.square(location) };
    let old_square = before.categories[c].squares[r];
    assert(old_square == (Square {
        is_daily_double: given[c].squares[r].is_daily_double || is_hit(drawn, position, c, r),
        ..given[c].squares[r]
    }));
    assert(after.categories[c].squares@ == if c == location.category {
        before.categories[c].squares@.update(location.row as int, hit)
    } else {
        before.categories[c].squares@
    });
    if c == location.category && r == location.row {
        assert(after.categories[c].squares@[r] == hit);
        assert(drawn[position].category == c && drawn[position].row == r);
        assert(is_hit(drawn, position + 1, c, r));
    } else {
        assert(after.categories[c].squares@[r] == before.categories[c].squares@[r]);
        if is_hit(drawn, position + 1, c, r) {
            let p = choose|p: int|
                0 <= p < position + 1 && (#[trigger] drawn[p]).category == c && drawn[p].row == r;
            assert(p < position);
            assert(is_hit(drawn, position, c, r));
        }
        if is_hit(drawn, position, c, r) {
            let p = choose|p: int|
                0 <= p < position && (#[trigger] drawn[p]).category == c && drawn[p].row == r;
            assert(is_hit(drawn, position + 1, c, r));
        }
    }
}

impl Game {
    /// What a board is that was made from `categories` with the squares at
    /// `drawn` as its daily doubles.
    pub open spec fn is_fresh_board(
        board: BoardView,
        multiplier: i64,
        categories: Seq<Category>,
        id: usize,
        seed: Seed,
        drawn: Seq<Location>,
    ) -> bool {
        &&& board.value_multiplier == multiplier
        &&& board.id == id
        &&& board.seed == seed
        &&& board.etag == drawn.len()
        &&& forall|p: int|
            0 <= p < drawn.len() ==> (#[trigger] drawn[p]).row < CATEGORY_HEIGHT
                && drawn[p].category < categories.len()
        &&& marks_daily_doubles(categories, board.categories, drawn, drawn.len() as int)
    }

    /// What a board is that was made from `categories` with as many daily
    /// doubles as asked for, placed on the squares that `keys` draw first.
    pub open spec fn is_random_board(
        board: BoardView,
        multiplier: i64,
        daily_double_count: usize,
        categories: Seq<Category>,
        id: usize,
        seed: Seed,
        keys: Seq<u64>,
    ) -> bool {
        exists|drawn: Seq<Location>|
            {
                &&& is_selection(keys, daily_double_count as nat, flat_indices(drawn))
                &&& #[trigger] Self::is_fresh_board(board, multiplier, categories, id, seed, drawn)
            }
    }

    /// A board over `categories` on which `daily_double_count` squares are
    /// daily doubles: those with the largest of the `keys`, one key for each
    /// square by flat index. Fails where the board has fewer squares than
    /// that.
    pub fn make_random_board(
        multiplier: i64,
        daily_double_count: usize,
        categories: Vec<Category>,
        id: usize,
        seed: Seed,
        keys: &Vec<u64>,
    ) -> (made: Option<JeopardyBoard>)
        requires
            keys@.len() == categories@.len() * CATEGORY_HEIGHT,
        ensures
            daily_double_count > categories@.len() * CATEGORY_HEIGHT ==> made is None,
            daily_double_count <= categories@.len() * CATEGORY_HEIGHT ==> {
                &&& made matches Some(board)
                &&& Self::is_random_board(
                    board@,
                    multiplier,
                    daily_double_count,
                    categories@,
                    id,
                    seed,
                    keys@,
                )
            },
    {
        let count = categories.len();
        let mut board = JeopardyBoard::new(categories, multiplier, id, seed);
        let drawn = match Location::gen_random_locations(keys, daily_double_count, count) {
            Some(drawn) => drawn,
            None => {
                return None;
            },
        };
        mark_daily_doubles(&mut board, &drawn);
        proof {
            assert(Self::is_fresh_board(board@, multiplier, categories@, id, seed, drawn@));
            assert(Self::is_random_board(
                board@,
                multiplier,
                daily_double_count,
                categories@,
                id,
                seed,
                keys@,
            ));
        }
        Some(board)
    }

    /// What a game is after an attempt to load a fresh board.
    pub open spec fn board_loaded(
        pre: GameView,
        post: GameView,
        multiplier: i64,
        daily_double_count: usize,
        categories: Seq<Category>,
        seed: Seed,
        keys: Seq<u64>,
        result: Result<(), Error>,
    ) -> bool {
        &&& pre.same_session(post)
        &&& post.players == pre.players
        &&& post.next_board_id == pre.next_board_id + 1
        &&& if daily_double_count > categories.len() * CATEGORY_HEIGHT {
            result == Err::<(), Error>(Error::TooManyDailyDoubles) && post.state == pre.state
        } else {
            &&& result is Ok
            &&& post.state matches GameState::WaitingForSquareSelection { board, controller }
            &&& pre.is_first_controller(controller)
            &&& Self::is_random_board(
                board@,
                multiplier,
                daily_double_count,
                categories,
                post.next_board_id,
                seed,
                keys,
            )
        }
    }

    /// Puts a fresh board in play, whatever the state was: a board over
    /// `categories` with `daily_double_count` daily doubles placed by `keys`,
    /// numbered one higher than the last, in the hands of one of the players
    /// with the lowest score. The board number advances even where the board
    /// cannot be made.
    pub fn load_new_board(
        &mut self,
        multiplier: i64,
        daily_double_count: usize,
        categories: Vec<Category>,
        seed: Seed,
        keys: &Vec<u64>,
    ) -> (result: Result<(), Error>)
        requires
            old(self).wf(),
            old(self)@.next_board_id < usize::MAX,
            keys@.len() == categories@.len() * CATEGORY_HEIGHT,
        ensures
            final(self).wf(),
            Self::board_loaded(
                old(self)@,
                final(self)@,
                multiplier,
                daily_double_count,
                categories@,
                seed,
                keys@,
                result,
            ),
    {
        self.next_board_id += 1;
        let board = match Self::make_random_board(
            multiplier,
            daily_double_count,
            categories,
            self.next_board_id,
            seed,
            keys,
        ) {
            Some(board) => board,
            None => {
                return Err(Error::TooManyDailyDoubles);
            },
        };
        let controller = self.get_random_player_with_lowest_score();
        assert(old(self)@.is_first_controller(controller)) by {
            assert(self@.players == old(self)@.players);
        }
        self.state = GameState::WaitingForSquareSelection { board, controller };
        Ok(())
    }
}

} // verus!
