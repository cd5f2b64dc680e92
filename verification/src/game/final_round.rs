use vstd::prelude::*;
use vstd::string::*;

use super::roster::{change_info, change_score, roster};
use super::{
    player_views, AnswerType, FinalJeopardyInfo, FinalJeopardyInfoType, FinalJeopardyInfoView,
    Game, GameState, GameView, PlayerView,
};
use crate::data::{FinalJeopardyQuestion, JeopardyData};
use crate::errors::Error;
use crate::ids::PlayerId;
use crate::rng::{drawn_position, seeded_generator};
use crate::seed::{seed_bytes, Seed};

verus! {

broadcast use vstd::std_specs::hash::group_hash_axioms;

impl Game {
    /// What a game is after the player `id` has tried to hand in `answer`
    /// for the final round.
    pub open spec fn final_answer_submitted(
        pre: GameView,
        post: GameView,
        id: PlayerId,
        answer: Seq<char>,
        result: Result<(), Error>,
    ) -> bool {
        &&& pre.same_frame(post)
        &&& post.state == pre.state
        &&& match pre.state {
            GameState::FinalJeopardy { answers_locked: false, .. } => {
                &&& result is Ok
                &&& post.players == if pre.players.contains_key(id) {
                    let player = pre.players[id];
                    pre.players.insert(
                        id,
                        player.with_info(
                            FinalJeopardyInfoView {
                                answer: Some(answer),
                                ..player.final_jeopardy_info
                            },
                        ),
                    )
                } else {
                    pre.players
                }
            },
            _ => result == Err::<(), Error>(Error::InvalidStateForOperation) && post.players
                == pre.players,
        }
    }

    /// A player's answer for the final round, accepted until the moderator
    /// locks the answers. An answer for somebody who is no player changes
    /// nothing.
    pub fn submit_final_jeopardy_answer(&mut self, id: &PlayerId, answer: &str) -> (result: Result<
        (),
        Error,
    >)
        requires
            old(self).wf(),
        ensures
            final(self).wf(),
            Self::final_answer_submitted(old(self)@, final(self)@, *id, answer@, result),
    {
        match &self.state {
            GameState::FinalJeopardy { answers_locked: false, .. } => {
                let info = match self.players.get(&id.0) {
                    Some(player) => player.final_jeopardy_info.clone(),
                    None => {
                        return Ok(());
                    },
                };
                let mut info = info;
                info.answer = Some(String::from_str(answer));
                change_info(&mut self.players, *id, info);
                Ok(())
            },
            _ => Err(Error::InvalidStateForOperation),
        }
    }

    /// What a game is after an attempt to change the final round's flags:
    /// each flag that is asked for is set, the other is left as it was.
    pub open spec fn final_round_flagged(
        pre: GameView,
        post: GameView,
        reveal_question: bool,
        lock_answers: bool,
        result: Result<(), Error>,
    ) -> bool {
        &&& pre.same_cast(post)
        &&& match pre.state {
            GameState::FinalJeopardy {
                category_name,
                question,
                answer,
                question_revealed,
                answers_locked,
            } => {
                &&& result is Ok
                &&& post.state == (GameState::FinalJeopardy {
                    category_name,
                    question,
                    answer,
                    question_revealed: question_revealed || reveal_question,
                    answers_locked: answers_locked || lock_answers,
                })
            },
            _ => result == Err::<(), Error>(Error::InvalidStateForOperation) && post.state
                == pre.state,
        }
    }

    /// The moderator shows the final round's question to the players.
    pub fn reveal_final_jeopardy_question(&mut self) -> (result: Result<(), Error>)
        requires
            old(self).wf(),
        ensures
            final(self).wf(),
            Self::final_round_flagged(old(self)@, final(self)@, true, false, result),
    {
        let mut state = GameState::NoBoard;
        core::mem::swap(&mut self.state, &mut state);
        match state {
            GameState::FinalJeopardy { category_name, question, answer, answers_locked, .. } => {
                self.state = GameState::FinalJeopardy {
                    category_name,
                    question,
                    answer,
                    question_revealed: true,
                    answers_locked,
                };
                Ok(())
            },
            other => {
                self.state = other;
                Err(Error::InvalidStateForOperation)
            },
        }
    }

    /// The moderator closes the final round to further answers.
    pub fn lock_final_jeopardy_answers(&mut self) -> (result: Result<(), Error>)
        requires
            old(self).wf(),
        ensures
            final(self).wf(),
            Self::final_round_flagged(old(self)@, final(self)@, false, true, result),
    {
        let mut state = GameState::NoBoard;
        core::mem::swap(&mut self.state, &mut state);
        match state {
            GameState::FinalJeopardy { category_name, question, answer, question_revealed, .. } => {
                self.state = GameState::FinalJeopardy {
                    category_name,
                    question,
                    answer,
                    question_revealed,
                    answers_locked: true,
                };
                Ok(())
            },
            other => {
                self.state = other;
                Err(Error::InvalidStateForOperation)
            },
        }
    }

    /// What a game is after an attempt to show the audience one part of the
    /// final-round record of the player `id`.
    pub open spec fn final_info_revealed(
        pre: GameView,
        post: GameView,
        id: PlayerId,
        info_type: FinalJeopardyInfoType,
        result: Result<(), Error>,
    ) -> bool {
        &&& pre.same_frame(post)
        &&& post.state == pre.state
        &&& match pre.state {
            GameState::FinalJeopardy { .. } => {
                &&& result is Ok
                &&& post.players == if pre.players.contains_key(id) {
                    let player = pre.players[id];
                    let info = player.final_jeopardy_info;
                    pre.players.insert(
                        id,
                        player.with_info(
                            match info_type {
                                FinalJeopardyInfoType::Answer => FinalJeopardyInfoView {
                                    answer_revealed: true,
                                    ..info
                                },
                                FinalJeopardyInfoType::Wager => FinalJeopardyInfoView {
                                    wager_revealed: true,
                                    ..info
                                },
                            },
                        ),
                    )
                } else {
                    pre.players
                }
            },
            _ => result == Err::<(), Error>(Error::InvalidStateForOperation) && post.players
                == pre.players,
        }
    }

    /// The moderator shows the audience one player's wager or answer for the
    /// final round. Asking for somebody who is no player changes nothing.
    pub fn reveal_final_jeopardy_info(
        &mut self,
        player_id: &PlayerId,
        info_type: FinalJeopardyInfoType,
    ) -> (result: Result<(), Error>)
        requires
            old(self).wf(),
        ensures
            final(self).wf(),
            Self::final_info_revealed(old(self)@, final(self)@, *player_id, info_type, result),
    {
        match &self.state {
            GameState::FinalJeopardy { .. } => {
                let info = match self.players.get(&player_id.0) {
                    Some(player) => player.final_jeopardy_info.clone(),
                    None => {
                        return Ok(());
                    },
                };
                let mut info = info;
                match info_type {
                    FinalJeopardyInfoType::Answer => {
                        info.answer_revealed = true;
                    },
                    FinalJeopardyInfoType::Wager => {
                        info.wager_revealed = true;
                    },
                }
                change_info(&mut self.players, *player_id, info);
                Ok(())
            },
            _ => Err(Error::InvalidStateForOperation),
        }
    }

    /// The score that the verdict `answer` on the final round gives a player
    /// with `score` who wagered `wager`; no wager counts as a wager of
    /// nothing.
    pub open spec fn final_score(score: i64, wager: Option<i64>, answer: AnswerType) -> int {
        let stake = match wager {
            Some(w) => w,
            None => 0,
        };
        match answer {
            AnswerType::Correct => score + stake,
            AnswerType::Incorrect => score - stake,
            AnswerType::Skip => score as int,
        }
    }

    /// Whether the score that `answer` gives the player `id` in the final
    /// round fits in `i64`.
    pub open spec fn evaluation_in_range(pre: GameView, id: PlayerId, answer: AnswerType) -> bool {
        pre.state is FinalJeopardy && pre.players.contains_key(id) ==> {
            let player = pre.players[id];
            i64::MIN <= Self::final_score(player.score, player.final_jeopardy_info.wager, answer)
                <= i64::MAX
        }
    }

    /// What a game is after the verdict `answer` on the final-round answer
    /// of the player `id`.
    pub open spec fn final_answer_evaluated(
        pre: GameView,
        post: GameView,
        id: PlayerId,
        answer: AnswerType,
        result: Result<(), Error>,
    ) -> bool {
        &&& pre.same_frame(post)
        &&& post.state == pre.state
        &&& match pre.state {
            GameState::FinalJeopardy { .. } => {
                &&& result is Ok
                &&& post.players == if pre.players.contains_key(id) {
                    let player = pre.players[id];
                    pre.players.insert(
                        id,
                        player.with_score(
                            Self::final_score(
                                player.score,
                                player.final_jeopardy_info.wager,
                                answer,
                            ) as i64,
                        ),
                    )
                } else {
                    pre.players
                }
            },
            _ => result == Err::<(), Error>(Error::InvalidStateForOperation) && post.players
                == pre.players,
        }
    }

    /// The moderator's verdict on one player's answer for the final round:
    /// the player's wager is added to their score, taken off it, or left out
    /// of it. A verdict on somebody who is no player changes nothing.
    pub fn evaluate_final_jeopardy_answer(&mut self, player_id: &PlayerId, answer_type: AnswerType) -> (result:
        Result<(), Error>)
        requires
            old(self).wf(),
            Self::evaluation_in_range(old(self)@, *player_id, answer_type),
        ensures
            final(self).wf(),
            Self::final_answer_evaluated(old(self)@, final(self)@, *player_id, answer_type, result),
    {
        match &self.state {
            GameState::FinalJeopardy { .. } => {
                let (score, wager) = match self.players.get(&player_id.0) {
                    Some(player) => (player.score, player.final_jeopardy_info.wager),
                    None => {
                        return Ok(());
                    },
                };
                let stake = wager.unwrap_or(0);
                let score = match answer_type {
                    AnswerType::Correct => score + stake,
                    AnswerType::Incorrect => score - stake,
                    AnswerType::Skip => score,
                };
                change_score(&mut self.players, *player_id, score);
                proof {
                    assert(self@.players =~= old(self)@.players.insert(
                        *player_id,
                        old(self)@.players[*player_id].with_score(score),
                    ));
                }
                Ok(())
            },
            _ => Err(Error::InvalidStateForOperation),
        }
    }

    /// What a game is once the final round has begun with `question`.
    pub open spec fn final_round_begun(
        pre: GameView,
        post: GameView,
        question: FinalJeopardyQuestion,
    ) -> bool {
        &&& pre.same_frame(post)
        &&& post.state == (GameState::FinalJeopardy {
            category_name: question.category,
            question: question.clue,
            answer: question.answer,
            question_revealed: false,
            answers_locked: false,
        })
        &&& post.players == pre.players.map_values(
            |player: PlayerView| player.with_info(FinalJeopardyInfoView::empty()),
        )
    }

    /// Begins the final round with `question`, whatever the state was, and
    /// clears every player's final-round record.
    pub fn begin_final_jeopardy(&mut self, question: FinalJeopardyQuestion)
        requires
            old(self).wf(),
        ensures
            final(self).wf(),
            Self::final_round_begun(old(self)@, final(self)@, question),
    {
        let FinalJeopardyQuestion { category, clue, answer } = question;
        self.state = GameState::FinalJeopardy {
            category_name: category,
            question: clue,
            answer,
            question_revealed: false,
            answers_locked: false,
        };
        let ids = roster(&self.players);
        let mut index: usize = 0;
        while index < ids.len()
            invariant
                index <= ids@.len(),
                ids@.no_duplicates(),
                forall|id: PlayerId| ids@.contains(id) <==> old(self).players@.contains_key(id.0),
                self.players@.dom() == old(self).players@.dom(),
                forall|j: int|
                    0 <= j < ids@.len() ==> player_views(self.players@)[#[trigger] ids@[j]] == if j
                        < index {
                        player_views(old(self).players@)[ids@[j]].with_info(
                            FinalJeopardyInfoView::empty(),
                        )
                    } else {
                        player_views(old(self).players@)[ids@[j]]
                    },
                self.moderator_id == old(self).moderator_id,
                self.moderator == old(self).moderator,
                self.next_board_id == old(self).next_board_id,
                self.time_started == old(self).time_started,
                self.moderator_state_channel == old(self).moderator_state_channel,
                self.player_state_channel == old(self).player_state_channel,
                self.is_ended == old(self).is_ended,
                self.state == (GameState::FinalJeopardy {
                    category_name: question.category,
                    question: question.clue,
                    answer: question.answer,
                    question_revealed: false,
                    answers_locked: false,
                }),
            decreases ids@.len() - index,
        {
            let id = ids[index];
            assert(ids@.contains(id));
            let ghost before = self.players@;
            change_info(&mut self.players, id, FinalJeopardyInfo::empty());
            proof {
                assert(self.players@.dom() =~= before.dom()) by {
                    assert forall|key: u128| self.players@.contains_key(key) <==> before.contains_key(
                        key,
                    ) by {
                        assert(player_views(self.players@).contains_key(PlayerId(key))
                            <==> self.players@.contains_key(key));
                        assert(player_views(before).contains_key(PlayerId(key))
                            <==> before.contains_key(key));
                    }
                }
                assert forall|j: int| 0 <= j < ids@.len() implies player_views(
                    self.players@,
                )[#[trigger] ids@[j]] == if j < index + 1 {
                    player_views(old(self).players@)[ids@[j]].with_info(
                        FinalJeopardyInfoView::empty(),
                    )
                } else {
                    player_views(old(self).players@)[ids@[j]]
                } by {
                    if j != index {
                        assert(ids@[j] != id);
                    }
                }
            }
            index += 1;
        }
        proof {
            assert(self@.players =~= old(self)@.players.map_values(
                |player: PlayerView| player.with_info(FinalJeopardyInfoView::empty()),
            )) by {
                assert forall|id: PlayerId| self@.players.contains_key(id) implies self@.players[id]
                    == old(self)@.players[id].with_info(FinalJeopardyInfoView::empty()) by {
                    assert(ids@.contains(id));
                    let j = choose|j: int| 0 <= j < ids@.len() && ids@[j] == id;
                    assert(player_views(self.players@)[ids@[j]] == player_views(
                        old(self).players@,
                    )[ids@[j]].with_info(FinalJeopardyInfoView::empty()));
                }
            }
        }
    }

    /// The question of `data` that the generator for `seed` draws first.
    pub open spec fn question_for(seed: Seed, data: JeopardyData) -> FinalJeopardyQuestion {
        data.final_jeopardy_questions@[drawn_position(
            seeded_generator(seed_bytes(seed.value)),
            data.final_jeopardy_questions@.len(),
        ) as int]
    }

    /// Begins the final round, whatever the state was, with the question of
    /// `data` that the generator for `seed` draws first, and clears every
    /// player's final-round record.
    pub fn start_final_jeopardy(&mut self, seed: Seed, data: &JeopardyData) -> (result: Result<
        (),
        Error,
    >)
        requires
            old(self).wf(),
            data.final_jeopardy_questions@.len() > 0,
        ensures
            final(self).wf(),
            result is Ok,
            Self::final_round_begun(old(self)@, final(self)@, Self::question_for(seed, *data)),
    {
        let mut rng = seed.to_rng();
        let question = data.get_random_final_jeopardy(&mut rng);
        self.begin_final_jeopardy(question);
        Ok(())
    }

    /// Whether the score that `answer` gives the player `id` in the final
    /// round fits in `i64`.
    pub fn evaluation_fits(&self, id: &PlayerId, answer: AnswerType) -> (fits: bool)
        ensures
            fits == Self::evaluation_in_range(self@, *id, answer),
    {
        match &self.state {
            GameState::FinalJeopardy { .. } => {
                match self.players.get(&id.0) {
                    Some(player) => {
                        let stake = player.final_jeopardy_info.wager.unwrap_or(0);
                        match answer {
                            AnswerType::Correct => player.score.checked_add(stake).is_some(),
                            AnswerType::Incorrect => player.score.checked_sub(stake).is_some(),
                            AnswerType::Skip => true,
                        }
                    },
                    None => true,
                }
            },
            _ => true,
        }
    }
}

} // verus!
