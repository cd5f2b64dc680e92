use vstd::prelude::*;

use super::board::{clone_text, Category, Clue, JeopardyBoard, Location, Square, SquareState};
use super::roster::roster;
use super::{
    player_views, FinalJeopardyInfoView, Game, GameState, GameView, Player, PlayerView,
};
use crate::data::JeopardyData;
use crate::ids::PlayerId;
use crate::seed::Seed;

verus! {

/// What one audience is shown of a square.
#[derive(Debug)]
pub struct SquareSnapshot {
    pub state: SquareState,
    pub clue: Option<Clue>,
    pub answer: Option<String>,
    pub is_daily_double: Option<bool>,
}

/// What one audience is shown of a category.
#[derive(Debug)]
pub struct CategorySnapshot {
    pub title: String,
    pub air_year: u16,
    pub commentary: Option<String>,
    pub squares: Vec<SquareSnapshot>,
}

/// What one audience is shown of a board.
#[derive(Debug)]
pub struct BoardSnapshot {
    pub value_multiplier: i64,
    pub etag: usize,
    pub id: usize,
    pub seed: Seed,
    pub categories: Vec<CategorySnapshot>,
}

/// What one audience is shown of a player's final-round record. A part that
/// is shown may still be empty: the player has not handed it in.
#[derive(Debug)]
pub struct FinalJeopardyInfoSnapshot {
    pub wager: Option<Option<i64>>,
    pub answer: Option<Option<String>>,
    pub wager_revealed: Option<bool>,
    pub answer_revealed: Option<bool>,
}

/// What one audience is shown of a player. The token is shown to nobody.
#[derive(Debug)]
pub struct PlayerSnapshot {
    pub name: String,
    pub score: i64,
    pub avatar_url: String,
    pub final_jeopardy_info: FinalJeopardyInfoSnapshot,
}

/// What one audience is shown of where play stands. The value of an
/// awaited answer is shown to nobody.
#[derive(Debug)]
#[allow(inconsistent_fields)]
pub enum StateSnapshot {
    NoBoard,
    WaitingForSquareSelection { board: BoardSnapshot, controller: Option<PlayerId> },
    WaitingForEnableBuzzer { board: BoardSnapshot, controller: PlayerId, location: Location },
    WaitingForDailyDoubleWager { board: BoardSnapshot, controller: PlayerId, location: Location },
    WaitingForBuzzer { board: BoardSnapshot, controller: PlayerId, location: Location },
    WaitingForAnswer {
        board: BoardSnapshot,
        controller: PlayerId,
        location: Location,
        active_player: PlayerId,
    },
    FinalJeopardy {
        category: String,
        answers_locked: bool,
        question_revealed: bool,
        question: Option<Clue>,
        answer: Option<String>,
    },
}

/// What one audience is shown of a game.
#[derive(Debug)]
pub struct GameSnapshot {
    pub is_ended: bool,
    pub players: Vec<(PlayerId, PlayerSnapshot)>,
    pub state: StateSnapshot,
    pub is_moderator: bool,
    pub moderator: String,
    pub min_year: u16,
    pub max_year: u16,
}

impl Location {
    /// The location as clients are shown it: the category, then the row.
    pub fn serialize(&self) -> (shown: (usize, usize))
        ensures
            shown == (self.category, self.row),
    {
        (self.category, self.row)
    }
}

impl Clue {
    /// The clue as clients are shown it.
    pub fn serialize(&self) -> (shown: Clue)
        ensures
            shown == *self,
    {
        self.clone()
    }
}

impl Square {
    /// Whether players are shown the clue of a square in `state`: once the
    /// square is turned over and, on a daily double, once the wager is made.
    pub open spec fn clue_is_public(state: SquareState, daily_double_entered: bool) -> bool {
        match state {
            SquareState::Normal => false,
            SquareState::DailyDoubleRevealed => daily_double_entered,
            SquareState::Flipped => true,
            SquareState::Finished => true,
        }
    }

    /// What is shown of this square: everything to the moderator; to players
    /// the clue once it is public, and the answer once the square is
    /// finished.
    pub open spec fn shown(self, for_moderator: bool, daily_double_entered: bool) -> SquareSnapshot {
        SquareSnapshot {
            state: self.state,
            clue: if for_moderator || Self::clue_is_public(self.state, daily_double_entered) {
                Some(self.clue)
            } else {
                None
            },
            answer: if for_moderator || self.state == SquareState::Finished {
                Some(self.answer)
            } else {
                None
            },
            is_daily_double: if for_moderator {
                Some(self.is_daily_double)
            } else {
                None
            },
        }
    }

    pub fn serialize(&self, for_moderator: bool, daily_double_entered: bool) -> (snapshot:
        SquareSnapshot)
        ensures
            snapshot == self.shown(for_moderator, daily_double_entered),
    {
        if for_moderator {
            SquareSnapshot {
                state: self.state,
                clue: Some(self.clue.clone()),
                answer: Some(self.answer.clone()),
                is_daily_double: Some(self.is_daily_double),
            }
        } else {
            match (self.state, daily_double_entered) {
                (SquareState::Normal, _) | (SquareState::DailyDoubleRevealed, false) => {
                    SquareSnapshot {
                        state: self.state,
                        clue: None,
                        answer: None,
                        is_daily_double: None,
                    }
                },
                (SquareState::Flipped, _) | (SquareState::DailyDoubleRevealed, true) => {
                    SquareSnapshot {
                        state: self.state,
                        clue: Some(self.clue.clone()),
                        answer: None,
                        is_daily_double: None,
                    }
                },
                (SquareState::Finished, _) => SquareSnapshot {
                    state: self.state,
                    clue: Some(self.clue.clone()),
                    answer: Some(self.answer.clone()),
                    is_daily_double: None,
                },
            }
        }
    }
}

impl Category {
    /// Whether `snapshot` is what is shown of this category.
    pub open spec fn is_shown_as(
        self,
        snapshot: CategorySnapshot,
        for_moderator: bool,
        daily_double_entered: bool,
    ) -> bool {
        &&& snapshot.title == self.title
        &&& snapshot.air_year == self.air_year
        &&& snapshot.commentary == self.commentary
        &&& snapshot.squares@.len() == self.squares@.len()
        &&& forall|row: int|
            0 <= row < self.squares@.len() ==> #[trigger] snapshot.squares@[row]
                == self.squares@[row].shown(for_moderator, daily_double_entered)
    }

    pub fn serialize(&self, for_moderator: bool, daily_double_entered: bool) -> (snapshot:
        CategorySnapshot)
        ensures
            self.is_shown_as(snapshot, for_moderator, daily_double_entered),
    {
        let mut squares: Vec<SquareSnapshot> = Vec::new();
        let mut row: usize = 0;
        while row < 5
            invariant
                row <= 5,
                squares@.len() == row,
                forall|r: int|
                    0 <= r < row ==> #[trigger] squares@[r] == self.squares@[r].shown(
                        for_moderator,
                        daily_double_entered,
                    ),
            decreases 5 - row,
        {
            squares.push(self.squares[row].serialize(for_moderator, daily_double_entered));
            row += 1;
        }
        CategorySnapshot {
            title: self.title.clone(),
            air_year: self.air_year,
            commentary: clone_text(&self.commentary),
            squares,
        }
    }
}

impl JeopardyBoard {
    /// Whether `snapshot` is what is shown of this board.
    pub open spec fn is_shown_as(
        &self,
        snapshot: BoardSnapshot,
        for_moderator: bool,
        daily_double_entered: bool,
    ) -> bool {
        &&& snapshot.value_multiplier == self@.value_multiplier
        &&& snapshot.etag == self@.etag
        &&& snapshot.id == self@.id
        &&& snapshot.seed == self@.seed
        &&& snapshot.categories@.len() == self@.categories.len()
        &&& forall|c: int|
            0 <= c < self@.categories.len() ==> self@.categories[c].is_shown_as(
                #[trigger] snapshot.categories@[c],
                for_moderator,
                daily_double_entered,
            )
    }

    pub fn serialize(&self, for_moderator: bool, daily_double_entered: bool) -> (snapshot:
        BoardSnapshot)
        ensures
            self.is_shown_as(snapshot, for_moderator, daily_double_entered),
    {
        let given = self.categories();
        let mut categories: Vec<CategorySnapshot> = Vec::new();
        let mut index: usize = 0;
        while index < given.len()
            invariant
                index <= given@.len(),
                given@ == self@.categories,
                categories@.len() == index,
                forall|c: int|
                    0 <= c < index ==> given@[c].is_shown_as(
                        #[trigger] categories@[c],
                        for_moderator,
                        daily_double_entered,
                    ),
            decreases given@.len() - index,
        {
            categories.push(given[index].serialize(for_moderator, daily_double_entered));
            index += 1;
        }
        BoardSnapshot {
            value_multiplier: self.value_multiplier(),
            etag: self.etag(),
            id: self.id(),
            seed: self.seed(),
            categories,
        }
    }
}

/// The characters of an optional text.
pub open spec fn text_view(text: Option<String>) -> Option<Seq<char>> {
    match text {
        Some(t) => Some(t@),
        None => None,
    }
}

impl FinalJeopardyInfoView {
    /// Whether `snapshot` is what is shown of this record: to the moderator
    /// all of it; to players the wager and the answer once each is revealed,
    /// and nothing of what is revealed and what is not.
    pub open spec fn is_shown_as(
        self,
        snapshot: FinalJeopardyInfoSnapshot,
        for_moderator: bool,
    ) -> bool {
        &&& snapshot.wager == if self.wager_revealed || for_moderator {
            Some(self.wager)
        } else {
            None
        }
        &&& match snapshot.answer {
            Some(answer) => (self.answer_revealed || for_moderator) && text_view(answer)
                == self.answer,
            None => !(self.answer_revealed || for_moderator),
        }
        &&& snapshot.wager_revealed == if for_moderator {
            Some(self.wager_revealed)
        } else {
            None
        }
        &&& snapshot.answer_revealed == if for_moderator {
            Some(self.answer_revealed)
        } else {
            None
        }
    }
}

impl PlayerView {
    /// Whether `snapshot` is what is shown of this player.
    pub open spec fn is_shown_as(self, snapshot: PlayerSnapshot, for_moderator: bool) -> bool {
        &&& snapshot.name@ == self.name
        &&& snapshot.score == self.score
        &&& snapshot.avatar_url@ == self.avatar_url
        &&& self.final_jeopardy_info.is_shown_as(snapshot.final_jeopardy_info, for_moderator)
    }
}

impl Player {
    pub fn serialize(&self, for_moderator: bool) -> (snapshot: PlayerSnapshot)
        ensures
            self@.is_shown_as(snapshot, for_moderator),
    {
        let info = &self.final_jeopardy_info;
        PlayerSnapshot {
            name: self.name.clone(),
            score: self.score,
            avatar_url: self.avatar_url.clone(),
            final_jeopardy_info: FinalJeopardyInfoSnapshot {
                wager: if info.wager_revealed || for_moderator {
                    Some(info.wager)
                } else {
                    None
                },
                answer: if info.answer_revealed || for_moderator {
                    Some(clone_text(&info.answer))
                } else {
                    None
                },
                wager_revealed: if for_moderator {
                    Some(info.wager_revealed)
                } else {
                    None
                },
                answer_revealed: if for_moderator {
                    Some(info.answer_revealed)
                } else {
                    None
                },
            },
        }
    }
}

impl GameState {
    /// Whether `snapshot` is what is shown of this state. While a
    /// daily-double wager is awaited, players are not shown the clue of the
    /// square in play. In the final round the question is shown to players
    /// once it is revealed, and the answer to the moderator only.
    pub open spec fn is_shown_as(self, snapshot: StateSnapshot, for_moderator: bool) -> bool {
        let entered = !(self is WaitingForDailyDoubleWager);
        match self {
            GameState::NoBoard => snapshot is NoBoard,
            GameState::WaitingForSquareSelection { board, controller } => {
                &&& snapshot matches StateSnapshot::WaitingForSquareSelection {
                    board: shown,
                    controller: c,
                }
                &&& c == controller
                &&& board.is_shown_as(shown, for_moderator, entered)
            },
            GameState::WaitingForEnableBuzzer { board, location, controller } => {
                &&& snapshot matches StateSnapshot::WaitingForEnableBuzzer {
                    board: shown,
                    controller: c,
                    location: l,
                }
                &&& c == controller
                &&& l == location
                &&& board.is_shown_as(shown, for_moderator, entered)
            },
            GameState::WaitingForDailyDoubleWager { board, location, controller } => {
                &&& snapshot matches StateSnapshot::WaitingForDailyDoubleWager {
                    board: shown,
                    controller: c,
                    location: l,
                }
                &&& c == controller
                &&& l == location
                &&& board.is_shown_as(shown, for_moderator, entered)
            },
            GameState::WaitingForBuzzer { board, location, controller } => {
                &&& snapshot matches StateSnapshot::WaitingForBuzzer {
                    board: shown,
                    controller: c,
                    location: l,
                }
                &&& c == controller
                &&& l == location
                &&& board.is_shown_as(shown, for_moderator, entered)
            },
            GameState::WaitingForAnswer { board, location, controller, active_player, .. } => {
                &&& snapshot matches StateSnapshot::WaitingForAnswer {
                    board: shown,
                    controller: c,
                    location: l,
                    active_player: a,
                }
                &&& c == controller
                &&& l == location
                &&& a == active_player
                &&& board.is_shown_as(shown, for_moderator, entered)
            },
            GameState::FinalJeopardy {
                category_name,
                question,
                answer,
                question_revealed,
                answers_locked,
            } => snapshot == (StateSnapshot::FinalJeopardy {
                category: category_name,
                answers_locked,
                question_revealed,
                question: if question_revealed || for_moderator {
                    Some(question)
                } else {
                    None
                },
                answer: if for_moderator {
                    Some(answer)
                } else {
                    None
                },
            }),
        }
    }

    pub fn serialize(&self, for_moderator: bool) -> (snapshot: StateSnapshot)
        ensures
            self.is_shown_as(snapshot, for_moderator),
    {
        match self {
            GameState::NoBoard => StateSnapshot::NoBoard,
            GameState::WaitingForSquareSelection { board, controller } => {
                StateSnapshot::WaitingForSquareSelection {
                    board: board.serialize(for_moderator, true),
                    controller: *controller,
                }
            },
            GameState::WaitingForEnableBuzzer { board, location, controller } => {
                StateSnapshot::WaitingForEnableBuzzer {
                    board: board.serialize(for_moderator, true),
                    controller: *controller,
                    location: *location,
                }
            },
            GameState::WaitingForDailyDoubleWager { board, location, controller } => {
                StateSnapshot::WaitingForDailyDoubleWager {
                    board: board.serialize(for_moderator, false),
                    controller: *controller,
                    location: *location,
                }
            },
            GameState::WaitingForBuzzer { board, location, controller } => {
                StateSnapshot::WaitingForBuzzer {
                    board: board.serialize(for_moderator, true),
                    controller: *controller,
                    location: *location,
                }
            },
            GameState::WaitingForAnswer { board, location, controller, active_player, .. } => {
                StateSnapshot::WaitingForAnswer {
                    board: board.serialize(for_moderator, true),
                    controller: *controller,
                    location: *location,
                    active_player: *active_player,
                }
            },
            GameState::FinalJeopardy {
                category_name,
                question,
                answer,
                question_revealed,
                answers_locked,
            } => StateSnapshot::FinalJeopardy {
                category: category_name.clone(),
                answers_locked: *answers_locked,
                question_revealed: *question_revealed,
                question: if *question_revealed || for_moderator {
                    Some(question.clone())
                } else {
                    None
                },
                answer: if for_moderator {
                    Some(answer.clone())
                } else {
                    None
                },
            },
        }
    }
}

impl GameView {
    /// Whether `snapshot` is what one audience is shown of this game, with
    /// the span of years that the database covers: every player once, in no
    /// particular order.
    pub open spec fn is_shown_as(
        self,
        snapshot: GameSnapshot,
        for_moderator: bool,
        min_year: u16,
        max_year: u16,
    ) -> bool {
        &&& snapshot.is_ended == self.is_ended
        &&& snapshot.is_moderator == for_moderator
        &&& snapshot.moderator@ == self.moderator.name
        &&& snapshot.min_year == min_year
        &&& snapshot.max_year == max_year
        &&& self.state.is_shown_as(snapshot.state, for_moderator)
        &&& forall|i: int, j: int|
            0 <= i < j < snapshot.players@.len() ==> snapshot.players@[i].0
                != snapshot.players@[j].0
        &&& forall|i: int|
            0 <= i < snapshot.players@.len() ==> {
                &&& self.players.contains_key((#[trigger] snapshot.players@[i]).0)
                &&& self.players[snapshot.players@[i].0].is_shown_as(
                    snapshot.players@[i].1,
                    for_moderator,
                )
            }
        &&& forall|id: PlayerId|
            self.players.contains_key(id) ==> exists|i: int|
                0 <= i < snapshot.players@.len() && (#[trigger] snapshot.players@[i]).0 == id
    }
}

impl Game {
    /// What the moderator, or else the players, are shown of this game.
    pub fn serialize(&self, for_moderator: bool, data: &JeopardyData) -> (snapshot: GameSnapshot)
        ensures
            self@.is_shown_as(snapshot, for_moderator, data.min_year, data.max_year),
    {
        let ids = roster(&self.players);
        let mut players: Vec<(PlayerId, PlayerSnapshot)> = Vec::new();
        let mut index: usize = 0;
        while index < ids.len()
            invariant
                index <= ids@.len(),
                players@.len() == index,
                ids@.no_duplicates(),
                forall|id: PlayerId| ids@.contains(id) <==> self.players@.contains_key(id.0),
                forall|i: int|
                    0 <= i < index ==> (#[trigger] players@[i]).0 == ids@[i] && player_views(
                        self.players@,
                    )[ids@[i]].is_shown_as(players@[i].1, for_moderator),
            decreases ids@.len() - index,
        {
            let id = ids[index];
            assert(ids@.contains(id));
            match self.players.get(&id.0) {
                Some(player) => {
                    players.push((id, player.serialize(for_moderator)));
                },
                None => {
                    vstd::pervasive::unreached::<()>();
                },
            }
            index += 1;
        }
        proof {
            assert forall|id: PlayerId| self@.players.contains_key(id) implies exists|i: int|
                0 <= i < players@.len() && (#[trigger] players@[i]).0 == id by {
                assert(ids@.contains(id));
                let i = choose|i: int| 0 <= i < ids@.len() && ids@[i] == id;
                assert(players@[i].0 == id);
            }
            assert forall|i: int| 0 <= i < players@.len() implies self@.players.contains_key(
                (#[trigger] players@[i]).0,
            ) by {
                assert(ids@.contains(ids@[i]));
            }
        }
        GameSnapshot {
            is_ended: self.is_ended,
            players,
            state: self.state.serialize(for_moderator),
            is_moderator: for_moderator,
            moderator: self.moderator.name.clone(),
            min_year: data.min_year,
            max_year: data.max_year,
        }
    }
}

} // verus!
