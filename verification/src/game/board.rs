use vstd::prelude::*;

use crate::errors::Error;
use crate::seed::Seed;

verus! {

/// Number of squares in every category.
pub const CATEGORY_HEIGHT: usize = 5;

/// Largest magnitude of a value multiplier for which the default ceiling of
/// a daily-double wager, fifty times the multiplier, fits in `i64`.
pub const MAX_VALUE_MULTIPLIER: i64 = 184467440737095516;

/// A position on the board: `category` counts columns from the left, `row`
/// counts squares from the top, both from zero.
#[derive(Debug, Clone, Copy, Hash, PartialEq, Eq, Structural)]
pub struct Location {
    pub category: usize,
    pub row: usize,
}

impl Location {
    /// The location, unless `row` lies below the last square of a category.
    pub fn new(category: usize, row: usize) -> (location: Option<Self>)
        ensures
            row < CATEGORY_HEIGHT ==> location == Some(Location { category, row }),
            row >= CATEGORY_HEIGHT ==> location is None,
    {
        if row < CATEGORY_HEIGHT {
            Some(Location { category, row })
        } else {
            None
        }
    }

    /// Position of this location when squares are counted down each category
    /// in turn.
    pub open spec fn flat_index(self) -> int {
        self.category * CATEGORY_HEIGHT + self.row
    }
}

/// How far a square has been played.
#[derive(Debug, Clone, Copy, PartialEq, Eq, Structural)]
pub enum SquareState {
    Normal,
    DailyDoubleRevealed,
    Flipped,
    Finished,
}

impl SquareState {
    /// The name under which clients know the state.
    pub fn name(&self) -> (name: &'static str)
        ensures
            name@ == match *self {
                SquareState::Normal => "Normal"@,
                SquareState::DailyDoubleRevealed => "DailyDoubleRevealed"@,
                SquareState::Flipped => "Flipped"@,
                SquareState::Finished => "Finished"@,
            },
    {
        match self {
            SquareState::Normal => "Normal",
            SquareState::DailyDoubleRevealed => "DailyDoubleRevealed",
            SquareState::Flipped => "Flipped",
            SquareState::Finished => "Finished",
        }
    }
}

/// What is shown for a square: either part may be absent.
#[derive(Debug)]
pub struct Clue {
    pub text: Option<String>,
    pub link: Option<String>,
}

/// A copy of an optional text.
pub fn clone_text(text: &Option<String>) -> (copy: Option<String>)
    ensures
        copy == *text,
{
    match text {
        Some(t) => Some(t.clone()),
        None => None,
    }
}

impl Clone for Clue {
    fn clone(&self) -> (copy: Self)
        ensures
            copy == *self,
    {
        Clue { text: clone_text(&self.text), link: clone_text(&self.link) }
    }
}

#[derive(Debug)]
pub struct Square {
    pub clue: Clue,
    pub state: SquareState,
    pub answer: String,
    pub is_daily_double: bool,
}

impl Clone for Square {
    fn clone(&self) -> (copy: Self)
        ensures
            copy == *self,
    {
        Square {
            clue: self.clue.clone(),
            state: self.state,
            answer: self.answer.clone(),
            is_daily_double: self.is_daily_double,
        }
    }
}

impl Square {
    /// A square nobody has touched yet, and no daily double.
    pub fn new(clue: Clue, answer: String) -> (square: Self)
        ensures
            square == (Square { clue, answer, state: SquareState::Normal, is_daily_double: false }),
    {
        Square { clue, answer, state: SquareState::Normal, is_daily_double: false }
    }

    /// The state a square in state `Normal` takes when it is selected.
    pub open spec fn flipped_state(is_daily_double: bool) -> SquareState {
        if is_daily_double {
            SquareState::DailyDoubleRevealed
        } else {
            SquareState::Flipped
        }
    }

    /// Whether a square in `state` can be finished.
    pub open spec fn is_open(state: SquareState) -> bool {
        state == SquareState::Flipped || state == SquareState::DailyDoubleRevealed
    }

    /// This square in another state.
    pub open spec fn with_state(self, state: SquareState) -> Square {
        Square { state, ..self }
    }

    /// Turns an untouched square over.
    pub fn flip(&mut self) -> (result: Result<(), Error>)
        ensures
            old(self).state == SquareState::Normal ==> result is Ok && *final(self) == old(
                self,
            ).with_state(Self::flipped_state(old(self).is_daily_double)),
            old(self).state != SquareState::Normal ==> result == Err::<(), Error>(
                Error::InvalidSquareStateTransition,
            ) && *final(self) == *old(self),
    {
        match self.state {
            SquareState::Normal => {
                if self.is_daily_double {
                    self.state = SquareState::DailyDoubleRevealed;
                } else {
                    self.state = SquareState::Flipped;
                }
                Ok(())
            },
            _ => Err(Error::InvalidSquareStateTransition),
        }
    }

    /// Closes a square that was turned over.
    pub fn finish(&mut self) -> (result: Result<(), Error>)
        ensures
            Self::is_open(old(self).state) ==> result is Ok && *final(self) == old(
                self,
            ).with_state(SquareState::Finished),
            !Self::is_open(old(self).state) ==> result == Err::<(), Error>(
                Error::InvalidSquareStateTransition,
            ) && *final(self) == *old(self),
    {
        match self.state {
            SquareState::Flipped | SquareState::DailyDoubleRevealed => {
                self.state = SquareState::Finished;
                Ok(())
            },
            _ => Err(Error::InvalidSquareStateTransition),
        }
    }

    /// Puts the square in `state`, whatever state it was in.
    pub fn set_flip_state(&mut self, state: SquareState)
        ensures
            *final(self) == old(self).with_state(state),
    {
        self.state = state;
    }
}

#[derive(Debug)]
pub struct Category {
    pub title: String,
    pub commentary: Option<String>,
    pub air_year: u16,
    pub squares: [Square; 5],
}

impl Clone for Category {
    fn clone(&self) -> (copy: Self)
        ensures
            copy == *self,
    {
        let squares = [
            self.squares[0].clone(),
            self.squares[1].clone(),
            self.squares[2].clone(),
            self.squares[3].clone(),
            self.squares[4].clone(),
        ];
        assert(squares =~= self.squares);
        Category {
            title: self.title.clone(),
            commentary: clone_text(&self.commentary),
            air_year: self.air_year,
            squares,
        }
    }
}

/// What a board is, as contracts see it.
pub struct BoardView {
    pub categories: Seq<Category>,
    pub value_multiplier: i64,
    pub etag: usize,
    pub id: usize,
    pub seed: Seed,
}

impl BoardView {
    /// Whether `location` names a square of this board.
    pub open spec fn contains(self, location: Location) -> bool {
        location.category < self.categories.len() && location.row < CATEGORY_HEIGHT
    }

    /// The square at `location`.
    pub open spec fn square(self, location: Location) -> Square {
        self.categories[location.category as int].squares[location.row as int]
    }

    /// What the square at `location` is worth.
    pub open spec fn square_value(self, location: Location) -> int {
        self.value_multiplier * (location.row + 1)
    }

    /// Whether what the square at `location` is worth fits in `i64`.
    pub open spec fn square_value_fits(self, location: Location) -> bool {
        i64::MIN <= self.square_value(location) <= i64::MAX
    }

    /// Whether `post` is this board after one mutating access that left the
    /// square at `location` as `square` and every other square as it was.
    pub open spec fn touched(self, post: BoardView, location: Location, square: Square) -> bool {
        &&& post.value_multiplier == self.value_multiplier
        &&& post.id == self.id
        &&& post.seed == self.seed
        &&& post.etag == self.etag + 1
        &&& post.categories.len() == self.categories.len()
        &&& forall|c: int|
            0 <= c < self.categories.len() ==> {
                &&& (#[trigger] post.categories[c]).title == self.categories[c].title
                &&& post.categories[c].commentary == self.categories[c].commentary
                &&& post.categories[c].air_year == self.categories[c].air_year
                &&& post.categories[c].squares@ == if c == location.category {
                    self.categories[c].squares@.update(location.row as int, square)
                } else {
                    self.categories[c].squares@
                }
            }
    }
}

/// The grid of categories with its bookkeeping: a change counter that every
/// mutating access to a square advances, the number of the board within its
/// game, and the seed that the board was made from.
#[derive(Debug)]
pub struct JeopardyBoard {
    categories: Vec<Category>,
    value_multiplier: i64,
    etag: usize,
    id: usize,
    seed: Seed,
}

impl View for JeopardyBoard {
    type V = BoardView;

    closed spec fn view(&self) -> BoardView {
        BoardView {
            categories: self.categories@,
            value_multiplier: self.value_multiplier,
            etag: self.etag,
            id: self.id,
            seed: self.seed,
        }
    }
}

/// Whether the default ceiling of a daily-double wager under `multiplier`
/// fits in `i64`.
pub open spec fn multiplier_in_range(multiplier: i64) -> bool {
    -MAX_VALUE_MULTIPLIER <= multiplier <= MAX_VALUE_MULTIPLIER
}

/// Whether the default ceiling of a daily-double wager under `multiplier`
/// fits in `i64`.
pub fn accepts_multiplier(multiplier: i64) -> (accepted: bool)
    ensures
        accepted == multiplier_in_range(multiplier),
{
    -MAX_VALUE_MULTIPLIER <= multiplier && multiplier <= MAX_VALUE_MULTIPLIER
}

impl JeopardyBoard {
    /// A fresh board over `categories`, with its change counter at zero.
    pub fn new(categories: Vec<Category>, value_multiplier: i64, id: usize, seed: Seed) -> (board:
        Self)
        ensures
            board@ == (BoardView {
                categories: categories@,
                value_multiplier,
                etag: 0,
                id,
                seed,
            }),
    {
        JeopardyBoard { categories, value_multiplier, etag: 0, id, seed }
    }

    pub fn value_multiplier(&self) -> (multiplier: i64)
        ensures
            multiplier == self@.value_multiplier,
    {
        self.value_multiplier
    }

    pub fn etag(&self) -> (etag: usize)
        ensures
            etag == self@.etag,
    {
        self.etag
    }

    pub fn id(&self) -> (id: usize)
        ensures
            id == self@.id,
    {
        self.id
    }

    pub fn seed(&self) -> (seed: Seed)
        ensures
            seed == self@.seed,
    {
        self.seed
    }

    pub fn category_count(&self) -> (count: usize)
        ensures
            count == self@.categories.len(),
    {
        self.categories.len()
    }

    pub fn categories(&self) -> (categories: &Vec<Category>)
        ensures
            categories@ == self@.categories,
    {
        &self.categories
    }

    /// Whether `location` names a square of this board.
    pub fn contains(&self, location: &Location) -> (inside: bool)
        ensures
            inside == self@.contains(*location),
    {
        location.category < self.categories.len() && location.row < CATEGORY_HEIGHT
    }

    pub fn get_square(&self, location: &Location) -> (square: &Square)
        requires
            self@.contains(*location),
        ensures
            *square == self@.square(*location),
    {
        &self.categories[location.category].squares[location.row]
    }

    /// Hands out the square at `location` for change and advances the change
    /// counter, whether or not the caller then changes the square.
    pub fn get_square_mut(&mut self, location: &Location) -> (square: &mut Square)
        requires
            old(self)@.contains(*location),
            old(self)@.etag < usize::MAX,
        ensures
            *square == old(self)@.square(*location),
            old(self)@.touched(final(self)@, *location, *final(square)),
    {
        self.etag += 1;
        &mut self.categories[location.category].squares[location.row]
    }

    /// Whether the value of the square at `location` fits in `i64`.
    pub fn square_value_fits(&self, location: &Location) -> (fits: bool)
        requires
            location.row < CATEGORY_HEIGHT,
        ensures
            fits == self@.square_value_fits(*location),
    {
        let rows: i64 = 1 + (location.row as i64);
        self.value_multiplier.checked_mul(rows).is_some()
    }

    pub fn get_square_value(&self, location: &Location) -> (value: i64)
        requires
            location.row < CATEGORY_HEIGHT,
            self@.square_value_fits(*location),
        ensures
            value == self@.square_value(*location),
    {
        let rows: i64 = 1 + (location.row as i64);
        self.value_multiplier * rows
    }

    pub fn is_daily_double(&self, location: &Location) -> (daily_double: bool)
        requires
            self@.contains(*location),
        ensures
            daily_double == self@.square(*location).is_daily_double,
    {
        self.categories[location.category].squares[location.row].is_daily_double
    }
}

} // verus!
