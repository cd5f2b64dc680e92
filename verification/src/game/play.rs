use vstd::prelude::*;

use super::board::{
    accepts_multiplier, multiplier_in_range, JeopardyBoard, Location, Square, SquareState,
};
use super::roster::{any_player, change_info, change_score};
use super::{
    lemma_views_remove, AnswerType, FinalJeopardyInfoView, Game, GameState, GameView,
    MIN_DAILY_DOUBLE_WAGER, MIN_MAX_DAILY_DOUBLE_WAGER_FACTOR,
};
use crate::errors::Error;
use crate::ids::PlayerId;

verus! {

broadcast use vstd::std_specs::hash::group_hash_axioms;

impl Game {
    /// Whether `after` is what play comes to when the square at `location`
    /// of `board` is closed by force and `controller` takes over: a
    /// selection on the same board with that one square finished.
    pub open spec fn force_finished(
        board: JeopardyBoard,
        location: Location,
        controller: Option<PlayerId>,
        after: GameState,
    ) -> bool {
        &&& after matches GameState::WaitingForSquareSelection { board: next, controller: c }
        &&& c == controller
        &&& board@.touched(
            next@,
            location,
            board@.square(location).with_state(SquareState::Finished),
        )
    }

    /// What a game is after the player `id` has left it, where `heir` is the
    /// one who takes over what the player held.
    pub open spec fn left(pre: GameView, post: GameView, id: PlayerId, heir: Option<PlayerId>) -> bool {
        &&& pre.same_frame(post)
        &&& post.players == pre.players.remove(id)
        &&& match pre.state {
            GameState::NoBoard => post.state == pre.state,
            GameState::FinalJeopardy { .. } => post.state == pre.state,
            GameState::WaitingForSquareSelection { board, controller } => post.state == (
            GameState::WaitingForSquareSelection {
                board,
                controller: if controller == Some(id) {
                    heir
                } else {
                    controller
                },
            }),
            GameState::WaitingForBuzzer { board, location, controller } => if controller != id {
                post.state == pre.state
            } else {
                match heir {
                    Some(next) => post.state == (GameState::WaitingForBuzzer {
                        board,
                        location,
                        controller: next,
                    }),
                    None => Self::force_finished(board, location, None, post.state),
                }
            },
            GameState::WaitingForEnableBuzzer { board, location, controller } => if controller
                != id {
                post.state == pre.state
            } else {
                match heir {
                    Some(next) => post.state == (GameState::WaitingForEnableBuzzer {
                        board,
                        location,
                        controller: next,
                    }),
                    None => Self::force_finished(board, location, None, post.state),
                }
            },
            GameState::WaitingForDailyDoubleWager { board, location, controller } => if controller
                != id {
                post.state == pre.state
            } else {
                Self::force_finished(board, location, heir, post.state)
            },
            GameState::WaitingForAnswer { board, location, controller, active_player, value } => {
                let successor = if controller == id {
                    heir
                } else {
                    Some(controller)
                };
                if active_player == id {
                    Self::force_finished(board, location, successor, post.state)
                } else {
                    &&& successor matches Some(next)
                    &&& post.state == (GameState::WaitingForAnswer {
                        board,
                        location,
                        controller: next,
                        active_player,
                        value,
                    })
                }
            },
        }
    }

    /// Takes the player `id` off the roster and keeps play going without
    /// them. Returns whether there was such a player.
    pub fn remove_player(&mut self, player_id: PlayerId) -> (removed: bool)
        requires
            old(self).wf(),
            old(self)@.can_touch(),
        ensures
            final(self).wf(),
            removed == old(self)@.players.contains_key(player_id),
            !removed ==> final(self)@ == old(self)@,
            removed ==> exists|heir: Option<PlayerId>|
                final(self)@.is_heir(heir) && #[trigger] Self::left(
                    old(self)@,
                    final(self)@,
                    player_id,
                    heir,
                ),
    {
        if !self.players.contains_key(&player_id.0) {
            return false;
        }
        proof {
            lemma_views_remove(self.players@, player_id);
        }
        self.players.remove(&player_id.0);
        let heir = any_player(&self.players);
        let mut state = GameState::NoBoard;
        core::mem::swap(&mut self.state, &mut state);
        self.state = match state {
            GameState::NoBoard => GameState::NoBoard,
            GameState::WaitingForSquareSelection { board, controller } => {
                let was_controller = match controller {
                    Some(c) => c == player_id,
                    None => false,
                };
                GameState::WaitingForSquareSelection {
                    board,
                    controller: if was_controller {
                        heir
                    } else {
                        controller
                    },
                }
            },
            GameState::WaitingForBuzzer { board, location, controller } => {
                if controller != player_id {
                    GameState::WaitingForBuzzer { board, location, controller }
                } else {
                    match heir {
                        Some(next) => GameState::WaitingForBuzzer {
                            board,
                            location,
                            controller: next,
                        },
                        None => {
                            let mut board = board;
                            board.get_square_mut(&location).set_flip_state(SquareState::Finished);
                            GameState::WaitingForSquareSelection { board, controller: None }
                        },
                    }
                }
            },
            GameState::WaitingForEnableBuzzer { board, location, controller } => {
                if controller != player_id {
                    GameState::WaitingForEnableBuzzer { board, location, controller }
                } else {
                    match heir {
                        Some(next) => GameState::WaitingForEnableBuzzer {
                            board,
                            location,
                            controller: next,
                        },
                        None => {
                            let mut board = board;
                            board.get_square_mut(&location).set_flip_state(SquareState::Finished);
                            GameState::WaitingForSquareSelection { board, controller: None }
                        },
                    }
                }
            },
            GameState::WaitingForAnswer { board, location, controller, active_player, value } => {
                let successor = if controller == player_id {
                    heir
                } else {
                    Some(controller)
                };
                if active_player == player_id {
                    let mut board = board;
                    board.get_square_mut(&location).set_flip_state(SquareState::Finished);
                    GameState::WaitingForSquareSelection { board, controller: successor }
                } else {
                    match successor {
                        Some(next) => GameState::WaitingForAnswer {
                            board,
                            location,
                            controller: next,
                            active_player,
                            value,
                        },
                        None => {
                            proof {
                                assert(self.players@.contains_key(active_player.0));
                            }
                            vstd::pervasive::unreached()
                        },
                    }
                }
            },
            GameState::WaitingForDailyDoubleWager { board, location, controller } => {
                if controller == player_id {
                    let mut board = board;
                    board.get_square_mut(&location).set_flip_state(SquareState::Finished);
                    GameState::WaitingForSquareSelection { board, controller: heir }
                } else {
                    GameState::WaitingForDailyDoubleWager { board, location, controller }
                }
            },
            GameState::FinalJeopardy {
                category_name,
                question,
                answer,
                question_revealed,
                answers_locked,
            } => GameState::FinalJeopardy {
                category_name,
                question,
                answer,
                question_revealed,
                answers_locked,
            },
        };
        proof {
            assert(self@.is_heir(heir));
            assert(Self::left(old(self)@, self@, player_id, heir));
        }
        true
    }
}

/// The most that a player with `score` may wager on a daily double of a
/// board with `multiplier`.
pub open spec fn max_daily_double_wager(multiplier: i64, score: i64) -> int {
    if MIN_MAX_DAILY_DOUBLE_WAGER_FACTOR * multiplier >= score {
        MIN_MAX_DAILY_DOUBLE_WAGER_FACTOR * multiplier
    } else {
        score as int
    }
}

impl Game {
    /// What a game is after an attempt to select the square at `location`.
    pub open spec fn selected(
        pre: GameView,
        post: GameView,
        location: Location,
        result: Result<(), Error>,
    ) -> bool {
        &&& pre.same_cast(post)
        &&& match pre.state {
            GameState::WaitingForSquareSelection { board, controller: Some(controller) } => {
                let square = board@.square(location);
                if !board@.contains(location) {
                    result == Err::<(), Error>(Error::InvalidSquare) && post.state == pre.state
                } else if square.state != SquareState::Normal {
                    &&& result == Err::<(), Error>(Error::InvalidSquareStateTransition)
                    &&& pre.state.touched(post.state, location, square)
                } else {
                    &&& result is Ok
                    &&& if square.is_daily_double {
                        post.state is WaitingForDailyDoubleWager
                    } else {
                        post.state is WaitingForEnableBuzzer
                    }
                    &&& post.state.location() == Some(location)
                    &&& post.state.controller() == Some(controller)
                    &&& post.state.board() matches Some(next)
                    &&& board@.touched(
                        next@,
                        location,
                        square.with_state(Square::flipped_state(square.is_daily_double)),
                    )
                }
            },
            _ => result == Err::<(), Error>(Error::InvalidStateForOperation) && post.state
                == pre.state,
        }
    }

    /// The controller's choice of a square: the square is turned over, and
    /// play goes on to the wager where it is a daily double, to the buzzer
    /// otherwise.
    pub fn select_square(&mut self, location: &Location) -> (result: Result<(), Error>)
        requires
            old(self).wf(),
            old(self)@.can_touch(),
        ensures
            final(self).wf(),
            Self::selected(old(self)@, final(self)@, *location, result),
    {
        let mut state = GameState::NoBoard;
        core::mem::swap(&mut self.state, &mut state);
        match state {
            GameState::WaitingForSquareSelection { board, controller: Some(controller) } => {
                let mut board = board;
                if !board.contains(location) {
                    self.state = GameState::WaitingForSquareSelection {
                        board,
                        controller: Some(controller),
                    };
                    return Err(Error::InvalidSquare);
                }
                let outcome = board.get_square_mut(location).flip();
                match outcome {
                    Ok(()) => {
                        if board.get_square(location).is_daily_double {
                            self.state = GameState::WaitingForDailyDoubleWager {
                                board,
                                location: *location,
                                controller,
                            };
                        } else {
                            self.state = GameState::WaitingForEnableBuzzer {
                                board,
                                location: *location,
                                controller,
                            };
                        }
                        Ok(())
                    },
                    Err(error) => {
                        self.state = GameState::WaitingForSquareSelection {
                            board,
                            controller: Some(controller),
                        };
                        Err(error)
                    },
                }
            },
            other => {
                self.state = other;
                Err(Error::InvalidStateForOperation)
            },
        }
    }

    /// What a game is after an attempt to open the buzzer.
    pub open spec fn buzzer_enabled(pre: GameView, post: GameView, result: Result<(), Error>) -> bool {
        &&& pre.same_cast(post)
        &&& match pre.state {
            GameState::WaitingForEnableBuzzer { board, location, controller } => {
                &&& result is Ok
                &&& post.state == (GameState::WaitingForBuzzer { board, location, controller })
            },
            _ => result == Err::<(), Error>(Error::InvalidStateForOperation) && post.state
                == pre.state,
        }
    }

    /// The moderator opens the buzzer for the square in play.
    pub fn enable_buzzer(&mut self) -> (result: Result<(), Error>)
        requires
            old(self).wf(),
        ensures
            final(self).wf(),
            Self::buzzer_enabled(old(self)@, final(self)@, result),
    {
        let mut state = GameState::NoBoard;
        core::mem::swap(&mut self.state, &mut state);
        match state {
            GameState::WaitingForEnableBuzzer { board, location, controller } => {
                self.state = GameState::WaitingForBuzzer { board, location, controller };
                Ok(())
            },
            other => {
                self.state = other;
                Err(Error::InvalidStateForOperation)
            },
        }
    }

    /// Whether the value of the square that the player `id` buzzes for fits
    /// in `i64`.
    pub open spec fn buzz_in_range(pre: GameView, id: PlayerId) -> bool {
        pre.state matches GameState::WaitingForBuzzer { board, location, .. }
            ==> pre.players.contains_key(id) ==> board@.square_value_fits(location)
    }

    /// What a game is after the player `id` has tried to buzz.
    pub open spec fn buzzed(
        pre: GameView,
        post: GameView,
        id: PlayerId,
        result: Result<(), Error>,
    ) -> bool {
        &&& pre.same_cast(post)
        &&& match pre.state {
            GameState::WaitingForBuzzer { board, location, controller } => {
                if !pre.players.contains_key(id) {
                    result == Err::<(), Error>(Error::NoSuchPlayer) && post.state == pre.state
                } else {
                    &&& result is Ok
                    &&& post.state == (GameState::WaitingForAnswer {
                        board,
                        location,
                        controller,
                        active_player: id,
                        value: board@.square_value(location) as i64,
                    })
                }
            },
            _ => result == Err::<(), Error>(Error::InvalidStateForOperation) && post.state
                == pre.state,
        }
    }

    /// The player `id` buzzes: they are now the one to answer, for the value
    /// of the square in play.
    pub fn buzz(&mut self, id: PlayerId) -> (result: Result<(), Error>)
        requires
            old(self).wf(),
            Self::buzz_in_range(old(self)@, id),
        ensures
            final(self).wf(),
            Self::buzzed(old(self)@, final(self)@, id, result),
    {
        let mut state = GameState::NoBoard;
        core::mem::swap(&mut self.state, &mut state);
        match state {
            GameState::WaitingForBuzzer { board, location, controller } => {
                if !self.players.contains_key(&id.0) {
                    self.state = GameState::WaitingForBuzzer { board, location, controller };
                    return Err(Error::NoSuchPlayer);
                }
                let value = board.get_square_value(&location);
                self.state = GameState::WaitingForAnswer {
                    board,
                    location,
                    controller,
                    active_player: id,
                    value,
                };
                Ok(())
            },
            other => {
                self.state = other;
                Err(Error::InvalidStateForOperation)
            },
        }
    }

    /// Whether the verdict `answer` reaches for a square of the board: a
    /// verdict of correct or a skip while an answer is awaited, and a skip
    /// while the buzzer is open or a daily-double wager is awaited.
    pub open spec fn answer_touches(pre: GameView, answer: AnswerType) -> bool {
        match pre.state {
            GameState::WaitingForAnswer { .. } => answer != AnswerType::Incorrect,
            GameState::WaitingForBuzzer { .. } => answer == AnswerType::Skip,
            GameState::WaitingForDailyDoubleWager { .. } => answer == AnswerType::Skip,
            _ => false,
        }
    }

    /// Whether the score that `answer` leads to fits in `i64`.
    pub open spec fn answer_in_range(pre: GameView, answer: AnswerType) -> bool {
        pre.state matches GameState::WaitingForAnswer { active_player, value, .. } ==> {
            let score = pre.players[active_player].score;
            match answer {
                AnswerType::Correct => i64::MIN <= score + value <= i64::MAX,
                AnswerType::Incorrect => i64::MIN <= score - value <= i64::MAX,
                AnswerType::Skip => true,
            }
        }
    }

    /// What play comes to when the square at `location` is closed and
    /// `controller` picks next: a selection on the board with that square
    /// finished or, where the square was not open, the same step again with
    /// nothing but the board's change counter advanced.
    pub open spec fn closed(
        before: GameState,
        after: GameState,
        board: JeopardyBoard,
        location: Location,
        controller: PlayerId,
        result: Result<(), Error>,
    ) -> bool {
        let square = board@.square(location);
        if Square::is_open(square.state) {
            &&& result is Ok
            &&& Self::force_finished(board, location, Some(controller), after)
        } else {
            &&& result == Err::<(), Error>(Error::InvalidSquareStateTransition)
            &&& before.touched(after, location, square)
        }
    }

    /// What a game is after the moderator's verdict `answer`.
    pub open spec fn answered(
        pre: GameView,
        post: GameView,
        answer: AnswerType,
        result: Result<(), Error>,
    ) -> bool {
        let refused = result == Err::<(), Error>(Error::InvalidStateForOperation) && post.state
            == pre.state && post.players == pre.players;
        &&& pre.same_frame(post)
        &&& match pre.state {
            GameState::WaitingForAnswer { board, location, controller, active_player, value } => {
                let player = pre.players[active_player];
                match answer {
                    AnswerType::Correct => {
                        &&& post.players == pre.players.insert(
                            active_player,
                            player.with_score((player.score + value) as i64),
                        )
                        &&& Self::closed(
                            pre.state,
                            post.state,
                            board,
                            location,
                            active_player,
                            result,
                        )
                    },
                    AnswerType::Incorrect => {
                        &&& post.players == pre.players.insert(
                            active_player,
                            player.with_score((player.score - value) as i64),
                        )
                        &&& result is Ok
                        &&& post.state == (GameState::WaitingForBuzzer {
                            board,
                            location,
                            controller,
                        })
                    },
                    AnswerType::Skip => {
                        &&& post.players == pre.players
                        &&& Self::closed(pre.state, post.state, board, location, controller, result)
                    },
                }
            },
            GameState::WaitingForBuzzer { board, location, controller } => if answer
                == AnswerType::Skip {
                &&& post.players == pre.players
                &&& Self::closed(pre.state, post.state, board, location, controller, result)
            } else {
                refused
            },
            GameState::WaitingForDailyDoubleWager { board, location, controller } => if answer
                == AnswerType::Skip {
                &&& post.players == pre.players
                &&& Self::closed(pre.state, post.state, board, location, controller, result)
            } else {
                refused
            },
            _ => refused,
        }
    }

    /// The moderator's verdict on the answer in play. A correct answer adds
    /// the value to the answering player's score, closes the square and hands
    /// them the board. An incorrect answer takes the value off their score
    /// and opens the buzzer again. A skip closes the square and leaves scores
    /// and controller as they are; it is also accepted while the buzzer is
    /// open or a daily-double wager is awaited.
    pub fn answer(&mut self, answer: AnswerType) -> (result: Result<(), Error>)
        requires
            old(self).wf(),
            Self::answer_touches(old(self)@, answer) ==> old(self)@.can_touch(),
            Self::answer_in_range(old(self)@, answer),
        ensures
            final(self).wf(),
            Self::answered(old(self)@, final(self)@, answer, result),
    {
        let mut state = GameState::NoBoard;
        core::mem::swap(&mut self.state, &mut state);
        match state {
            GameState::WaitingForAnswer { board, location, controller, active_player, value } => {
                let mut board = board;
                match answer {
                    AnswerType::Correct => {
                        let score = match self.players.get(&active_player.0) {
                            Some(player) => player.score,
                            None => vstd::pervasive::unreached(),
                        };
                        change_score(&mut self.players, active_player, score + value);
                        let outcome = board.get_square_mut(&location).finish();
                        match outcome {
                            Ok(()) => {
                                self.state = GameState::WaitingForSquareSelection {
                                    board,
                                    controller: Some(active_player),
                                };
                                Ok(())
                            },
                            Err(error) => {
                                self.state = GameState::WaitingForAnswer {
                                    board,
                                    location,
                                    controller,
                                    active_player,
                                    value,
                                };
                                Err(error)
                            },
                        }
                    },
                    AnswerType::Incorrect => {
                        let score = match self.players.get(&active_player.0) {
                            Some(player) => player.score,
                            None => vstd::pervasive::unreached(),
                        };
                        change_score(&mut self.players, active_player, score - value);
                        self.state = GameState::WaitingForBuzzer { board, location, controller };
                        Ok(())
                    },
                    AnswerType::Skip => {
                        let outcome = board.get_square_mut(&location).finish();
                        match outcome {
                            Ok(()) => {
                                self.state = GameState::WaitingForSquareSelection {
                                    board,
                                    controller: Some(controller),
                                };
                                Ok(())
                            },
                            Err(error) => {
                                self.state = GameState::WaitingForAnswer {
                                    board,
                                    location,
                                    controller,
                                    active_player,
                                    value,
                                };
                                Err(error)
                            },
                        }
                    },
                }
            },
            GameState::WaitingForBuzzer { board, location, controller } => {
                if answer != AnswerType::Skip {
                    self.state = GameState::WaitingForBuzzer { board, location, controller };
                    return Err(Error::InvalidStateForOperation);
                }
                let mut board = board;
                let outcome = board.get_square_mut(&location).finish();
                match outcome {
                    Ok(()) => {
                        self.state = GameState::WaitingForSquareSelection {
                            board,
                            controller: Some(controller),
                        };
                        Ok(())
                    },
                    Err(error) => {
                        self.state = GameState::WaitingForBuzzer { board, location, controller };
                        Err(error)
                    },
                }
            },
            GameState::WaitingForDailyDoubleWager { board, location, controller } => {
                if answer != AnswerType::Skip {
                    self.state = GameState::WaitingForDailyDoubleWager {
                        board,
                        location,
                        controller,
                    };
                    return Err(Error::InvalidStateForOperation);
                }
                let mut board = board;
                let outcome = board.get_square_mut(&location).finish();
                match outcome {
                    Ok(()) => {
                        self.state = GameState::WaitingForSquareSelection {
                            board,
                            controller: Some(controller),
                        };
                        Ok(())
                    },
                    Err(error) => {
                        self.state = GameState::WaitingForDailyDoubleWager {
                            board,
                            location,
                            controller,
                        };
                        Err(error)
                    },
                }
            },
            other => {
                self.state = other;
                Err(Error::InvalidStateForOperation)
            },
        }
    }

    /// Whether the ceiling that the wager `wager` of the player `caller` is
    /// held against fits in `i64`.
    pub open spec fn wager_in_range(pre: GameView, caller: PlayerId, wager: i64) -> bool {
        pre.state matches GameState::WaitingForDailyDoubleWager { board, controller, .. }
            ==> controller == caller && wager >= MIN_DAILY_DOUBLE_WAGER ==> multiplier_in_range(
            board@.value_multiplier,
        )
    }

    /// What a game is after the player `caller` has tried to wager `wager`.
    pub open spec fn wagered(
        pre: GameView,
        post: GameView,
        caller: PlayerId,
        wager: i64,
        result: Result<(), Error>,
    ) -> bool {
        let refused = result == Err::<(), Error>(Error::InvalidStateForOperation) && post.state
            == pre.state && post.players == pre.players;
        &&& pre.same_frame(post)
        &&& match pre.state {
            GameState::WaitingForDailyDoubleWager { board, location, controller } => {
                if controller != caller {
                    refused
                } else if wager < MIN_DAILY_DOUBLE_WAGER || wager > max_daily_double_wager(
                    board@.value_multiplier,
                    pre.players[controller].score,
                ) {
                    &&& result == Err::<(), Error>(Error::DailyDoubleWagerOutOfRange)
                    &&& post.state == pre.state
                    &&& post.players == pre.players
                } else {
                    &&& result is Ok
                    &&& post.players == pre.players
                    &&& post.state == (GameState::WaitingForAnswer {
                        board,
                        location,
                        controller,
                        active_player: controller,
                        value: wager,
                    })
                }
            },
            GameState::FinalJeopardy { question_revealed, .. } => {
                if question_revealed {
                    refused
                } else if !pre.players.contains_key(caller) {
                    result is Ok && post.state == pre.state && post.players == pre.players
                } else if wager < 0 || wager > pre.players[caller].score {
                    &&& result == Err::<(), Error>(Error::FinalJeopardyWagerOutOfRange)
                    &&& post.state == pre.state
                    &&& post.players == pre.players
                } else {
                    let player = pre.players[caller];
                    &&& result is Ok
                    &&& post.state == pre.state
                    &&& post.players == pre.players.insert(
                        caller,
                        player.with_info(
                            FinalJeopardyInfoView {
                                wager: Some(wager),
                                ..player.final_jeopardy_info
                            },
                        ),
                    )
                }
            },
            _ => refused,
        }
    }

    /// A wager. On a daily double it comes from the controller, lies between
    /// the smallest wager and the larger of the player's score and fifty
    /// times the board's multiplier, and starts the answer. In the final
    /// round, while the question is hidden, it lies between nothing and the
    /// player's score and is kept on the player's record.
    pub fn submit_wager(&mut self, caller_id: &PlayerId, wager: i64) -> (result: Result<(), Error>)
        requires
            old(self).wf(),
            Self::wager_in_range(old(self)@, *caller_id, wager),
        ensures
            final(self).wf(),
            Self::wagered(old(self)@, final(self)@, *caller_id, wager, result),
    {
        let mut state = GameState::NoBoard;
        core::mem::swap(&mut self.state, &mut state);
        match state {
            GameState::WaitingForDailyDoubleWager { board, location, controller } => {
                if controller != *caller_id {
                    self.state = GameState::WaitingForDailyDoubleWager {
                        board,
                        location,
                        controller,
                    };
                    return Err(Error::InvalidStateForOperation);
                }
                if wager < MIN_DAILY_DOUBLE_WAGER {
                    self.state = GameState::WaitingForDailyDoubleWager {
                        board,
                        location,
                        controller,
                    };
                    return Err(Error::DailyDoubleWagerOutOfRange);
                }
                let score = match self.players.get(&controller.0) {
                    Some(player) => player.score,
                    None => vstd::pervasive::unreached(),
                };
                let multiplier = board.value_multiplier();
                assert(i64::MIN <= MIN_MAX_DAILY_DOUBLE_WAGER_FACTOR * multiplier <= i64::MAX);
                let default_ceiling = MIN_MAX_DAILY_DOUBLE_WAGER_FACTOR * multiplier;
                let ceiling = if default_ceiling >= score {
                    default_ceiling
                } else {
                    score
                };
                if wager > ceiling {
                    self.state = GameState::WaitingForDailyDoubleWager {
                        board,
                        location,
                        controller,
                    };
                    return Err(Error::DailyDoubleWagerOutOfRange);
                }
                self.state = GameState::WaitingForAnswer {
                    board,
                    location,
                    controller,
                    active_player: controller,
                    value: wager,
                };
                Ok(())
            },
            GameState::FinalJeopardy {
                category_name,
                question,
                answer,
                question_revealed,
                answers_locked,
            } => {
                self.state = GameState::FinalJeopardy {
                    category_name,
                    question,
                    answer,
                    question_revealed,
                    answers_locked,
                };
                if question_revealed {
                    return Err(Error::InvalidStateForOperation);
                }
                let (score, info) = match self.players.get(&caller_id.0) {
                    Some(player) => (player.score, player.final_jeopardy_info.clone()),
                    None => {
                        return Ok(());
                    },
                };
                if wager < 0 || wager > score {
                    return Err(Error::FinalJeopardyWagerOutOfRange);
                }
                let mut info = info;
                info.wager = Some(wager);
                change_info(&mut self.players, *caller_id, info);
                Ok(())
            },
            other => {
                self.state = other;
                Err(Error::InvalidStateForOperation)
            },
        }
    }

    /// What a game is after the moderator's attempt to put the square at
    /// `location` in the state `state`.
    pub open spec fn square_state_set(
        pre: GameView,
        post: GameView,
        location: Location,
        state: SquareState,
        result: Result<(), Error>,
    ) -> bool {
        let open_to_change = pre.state is WaitingForSquareSelection || pre.state
            is WaitingForDailyDoubleWager || pre.state is WaitingForBuzzer || pre.state
            is WaitingForAnswer;
        &&& pre.same_cast(post)
        &&& if !open_to_change {
            result == Err::<(), Error>(Error::InvalidStateForOperation) && post.state == pre.state
        } else if !pre.state.board().unwrap()@.contains(location) {
            result == Err::<(), Error>(Error::InvalidSquare) && post.state == pre.state
        } else {
            &&& result is Ok
            &&& pre.state.touched(
                post.state,
                location,
                pre.state.board().unwrap()@.square(location).with_state(state),
            )
        }
    }

    /// The moderator's override of one square's state, accepted while a
    /// square is being selected, a wager or an answer is awaited, or the
    /// buzzer is open.
    pub fn set_square_state(&mut self, location: &Location, state: SquareState) -> (result: Result<
        (),
        Error,
    >)
        requires
            old(self).wf(),
            old(self)@.can_touch(),
        ensures
            final(self).wf(),
            Self::square_state_set(old(self)@, final(self)@, *location, state, result),
    {
        let mut current = GameState::NoBoard;
        core::mem::swap(&mut self.state, &mut current);
        match current {
            GameState::WaitingForSquareSelection { board, controller } => {
                let mut board = board;
                let inside = board.contains(location);
                if inside {
                    board.get_square_mut(location).set_flip_state(state);
                }
                self.state = GameState::WaitingForSquareSelection { board, controller };
                if inside {
                    Ok(())
                } else {
                    Err(Error::InvalidSquare)
                }
            },
            GameState::WaitingForDailyDoubleWager { board, location: in_play, controller } => {
                let mut board = board;
                let inside = board.contains(location);
                if inside {
                    board.get_square_mut(location).set_flip_state(state);
                }
                self.state = GameState::WaitingForDailyDoubleWager {
                    board,
                    location: in_play,
                    controller,
                };
                if inside {
                    Ok(())
                } else {
                    Err(Error::InvalidSquare)
                }
            },
            GameState::WaitingForBuzzer { board, location: in_play, controller } => {
                let mut board = board;
                let inside = board.contains(location);
                if inside {
                    board.get_square_mut(location).set_flip_state(state);
                }
                self.state = GameState::WaitingForBuzzer { board, location: in_play, controller };
                if inside {
                    Ok(())
                } else {
                    Err(Error::InvalidSquare)
                }
            },
            GameState::WaitingForAnswer {
                board,
                location: in_play,
                controller,
                active_player,
                value,
            } => {
                let mut board = board;
                let inside = board.contains(location);
                if inside {
                    board.get_square_mut(location).set_flip_state(state);
                }
                self.state = GameState::WaitingForAnswer {
                    board,
                    location: in_play,
                    controller,
                    active_player,
                    value,
                };
                if inside {
                    Ok(())
                } else {
                    Err(Error::InvalidSquare)
                }
            },
            other => {
                self.state = other;
                Err(Error::InvalidStateForOperation)
            },
        }
    }

    /// What a game is after the moderator's attempt to give the player `id`
    /// the score `score`.
    pub open spec fn player_score_set(
        pre: GameView,
        post: GameView,
        id: PlayerId,
        score: i64,
        result: Result<(), Error>,
    ) -> bool {
        &&& pre.same_frame(post)
        &&& post.state == pre.state
        &&& if pre.players.contains_key(id) {
            &&& result is Ok
            &&& post.players == pre.players.insert(id, pre.players[id].with_score(score))
        } else {
            result == Err::<(), Error>(Error::NoSuchPlayer) && post.players == pre.players
        }
    }

    /// The moderator's override of one player's score.
    pub fn set_player_score(&mut self, player: &PlayerId, score: i64) -> (result: Result<(), Error>)
        requires
            old(self).wf(),
        ensures
            final(self).wf(),
            Self::player_score_set(old(self)@, final(self)@, *player, score, result),
    {
        if !self.players.contains_key(&player.0) {
            return Err(Error::NoSuchPlayer);
        }
        change_score(&mut self.players, *player, score);
        Ok(())
    }

    /// Whether the value of the square that the player `id` buzzes for fits
    /// in `i64`.
    pub fn buzz_fits(&self, id: &PlayerId) -> (fits: bool)
        requires
            self.wf(),
        ensures
            fits == Self::buzz_in_range(self@, *id),
    {
        match &self.state {
            GameState::WaitingForBuzzer { board, location, .. } => {
                !self.players.contains_key(&id.0) || board.square_value_fits(location)
            },
            _ => true,
        }
    }

    /// Whether the ceiling that the wager `wager` of the player `caller` is
    /// held against fits in `i64`.
    pub fn wager_fits(&self, caller: &PlayerId, wager: i64) -> (fits: bool)
        ensures
            fits == Self::wager_in_range(self@, *caller, wager),
    {
        match &self.state {
            GameState::WaitingForDailyDoubleWager { board, controller, .. } => {
                *controller != *caller || wager < MIN_DAILY_DOUBLE_WAGER || accepts_multiplier(
                    board.value_multiplier(),
                )
            },
            _ => true,
        }
    }

    /// Whether the verdict `answer` leaves the board alone, or else finds
    /// room in its change counter.
    pub fn answer_has_room(&self, answer: AnswerType) -> (room: bool)
        ensures
            room == (Self::answer_touches(self@, answer) ==> self@.can_touch()),
    {
        match &self.state {
            GameState::WaitingForAnswer { board, .. } => {
                answer == AnswerType::Incorrect || board.etag() < usize::MAX
            },
            GameState::WaitingForBuzzer { board, .. } => {
                answer != AnswerType::Skip || board.etag() < usize::MAX
            },
            GameState::WaitingForDailyDoubleWager { board, .. } => {
                answer != AnswerType::Skip || board.etag() < usize::MAX
            },
            _ => true,
        }
    }

    /// Whether the score that `answer` leads to fits in `i64`.
    pub fn answer_fits(&self, answer: AnswerType) -> (fits: bool)
        requires
            self.wf(),
        ensures
            fits == Self::answer_in_range(self@, answer),
    {
        match &self.state {
            GameState::WaitingForAnswer { active_player, value, .. } => {
                let score = match self.players.get(&active_player.0) {
                    Some(player) => player.score,
                    None => vstd::pervasive::unreached(),
                };
                match answer {
                    AnswerType::Correct => score.checked_add(*value).is_some(),
                    AnswerType::Incorrect => score.checked_sub(*value).is_some(),
                    AnswerType::Skip => true,
                }
            },
            _ => true,
        }
    }
}

} // verus!
