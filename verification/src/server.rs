use vstd::prelude::*;

use crate::data::JeopardyData;
use crate::errors::Error;
use crate::game::board::{Category, Location, SquareState, CATEGORY_HEIGHT};
use crate::game::snapshot::GameSnapshot;
use crate::game::{
    AnswerType, FinalJeopardyInfoType, FinalJeopardyInfoView, Game, GameState, GameView, Player,
    PlayerType, PlayerView,
};
use crate::ids::{AuthToken, GameId, PlayerId};
use crate::seed::Seed;

verus! {

/// Whether `id`, showing `auth`, acts as the moderator of the game.
pub open spec fn is_moderator(game: GameView, id: PlayerId, auth: AuthToken) -> bool {
    game.player_type(id, auth) == Some(PlayerType::Moderator)
}

/// Whether `id`, showing `auth`, acts as a player of the game.
pub open spec fn is_player(game: GameView, id: PlayerId, auth: AuthToken) -> bool {
    game.player_type(id, auth) == Some(PlayerType::Player)
}

/// Whether an operation was turned away for want of the right role, and
/// changed nothing.
pub open spec fn refused(pre: GameView, post: GameView, result: Result<(), Error>) -> bool {
    result == Err::<(), Error>(Error::NotAllowed) && post == pre
}

/// Starts a game for a moderator called `player_name`. Returns the game
/// with its identifier, and the identifier and the token by which the
/// moderator is known.
pub fn make_game(player_name: String, avatar_url: String) -> (made: (
    Game,
    GameId,
    PlayerId,
    AuthToken,
))
    ensures
        made.0.wf(),
        made.0@.state == GameState::NoBoard,
        made.0@.no_players(),
        made.0@.next_board_id == 0,
        !made.0@.is_ended,
        made.0@.moderator.name == player_name@,
        made.0@.moderator.avatar_url == avatar_url@,
        made.0@.moderator.score == 0,
        made.2 == made.0@.moderator_id,
        made.3 == made.0@.moderator.auth,
        is_moderator(made.0@, made.2, made.3),
{
    let game_id = GameId::generate();
    let moderator = Player::new(player_name, avatar_url);
    let auth = moderator.get_auth();
    let game = Game::new(moderator);
    let moderator_id = game.moderator_id();
    (game, game_id, moderator_id, auth)
}

/// Lets a player called `player_name` join the game. Returns the
/// identifier and the token by which the player is known.
pub fn join_game(game: &mut Game, player_name: String, avatar_url: String) -> (joined: (
    PlayerId,
    AuthToken,
))
    requires
        old(game).wf(),
    ensures
        final(game).wf(),
        Game::joined(
            old(game)@,
            final(game)@,
            joined.0,
            PlayerView {
                name: player_name@,
                score: 0,
                auth: joined.1,
                avatar_url: avatar_url@,
                final_jeopardy_info: FinalJeopardyInfoView::empty(),
            },
        ),
{
    let player = Player::new(player_name, avatar_url);
    let auth = player.get_auth();
    let id = game.add_player(player);
    (id, auth)
}

/// Whether `id`, showing `auth`, may take `target` out of the game: the
/// moderator may remove anybody, a player only themselves.
pub open spec fn may_remove(game: GameView, id: PlayerId, auth: AuthToken, target: PlayerId) -> bool {
    is_moderator(game, id, auth) || (is_player(game, id, auth) && id == target)
}

/// Takes `target` out of the game on behalf of `player_id`. Succeeds also
/// where there is no such player to take out.
pub fn leave_game(game: &mut Game, player_id: &PlayerId, auth: &AuthToken, target: PlayerId) -> (result:
    Result<(), Error>)
    requires
        old(game).wf(),
        may_remove(old(game)@, *player_id, *auth, target) ==> old(game)@.can_touch(),
    ensures
        final(game).wf(),
        !may_remove(old(game)@, *player_id, *auth, target) ==> refused(
            old(game)@,
            final(game)@,
            result,
        ),
        may_remove(old(game)@, *player_id, *auth, target) ==> {
            &&& result is Ok
            &&& !old(game)@.players.contains_key(target) ==> final(game)@ == old(game)@
            &&& old(game)@.players.contains_key(target) ==> exists|heir: Option<PlayerId>|
                final(game)@.is_heir(heir) && #[trigger] Game::left(
                    old(game)@,
                    final(game)@,
                    target,
                    heir,
                )
        },
{
    match game.auth_and_get_player_type(player_id, auth) {
        Some(PlayerType::Moderator) => {
            game.remove_player(target);
            Ok(())
        },
        Some(PlayerType::Player) => {
            if *player_id == target {
                game.remove_player(target);
                Ok(())
            } else {
                Err(Error::NotAllowed)
            }
        },
        None => Err(Error::NotAllowed),
    }
}

/// What `player_id`, showing `auth`, is shown of the game: the moderator's
/// view for the moderator, the players' view for everybody else.
pub fn get_game_state(game: &Game, player_id: &PlayerId, auth: &AuthToken, data: &JeopardyData) -> (snapshot:
    GameSnapshot)
    ensures
        game@.is_shown_as(
            snapshot,
            is_moderator(game@, *player_id, *auth),
            data.min_year,
            data.max_year,
        ),
{
    match game.auth_and_get_player_type(player_id, auth) {
        Some(PlayerType::Moderator) => game.serialize(true, data),
        _ => game.serialize(false, data),
    }
}

/// The moderator ends the game.
pub fn end_game(game: &mut Game, player_id: &PlayerId, auth: &AuthToken) -> (result: Result<
    (),
    Error,
>)
    requires
        old(game).wf(),
    ensures
        final(game).wf(),
        !is_moderator(old(game)@, *player_id, *auth) ==> refused(
            old(game)@,
            final(game)@,
            result,
        ),
        is_moderator(old(game)@, *player_id, *auth) ==> result is Ok && final(game)@ == (GameView {
            is_ended: true,
            ..old(game)@
        }),
{
    match game.auth_and_get_player_type(player_id, auth) {
        Some(PlayerType::Moderator) => {
            game.end();
            Ok(())
        },
        _ => Err(Error::NotAllowed),
    }
}

/// The moderator enters the controller's choice of a square.
pub fn select_square(
    game: &mut Game,
    player_id: &PlayerId,
    auth: &AuthToken,
    category: usize,
    row: usize,
) -> (result: Result<(), Error>)
    requires
        old(game).wf(),
        is_moderator(old(game)@, *player_id, *auth) ==> old(game)@.can_touch(),
    ensures
        final(game).wf(),
        !is_moderator(old(game)@, *player_id, *auth) ==> refused(
            old(game)@,
            final(game)@,
            result,
        ),
        is_moderator(old(game)@, *player_id, *auth) ==> if row < CATEGORY_HEIGHT {
            Game::selected(old(game)@, final(game)@, Location { category, row }, result)
        } else {
            result == Err::<(), Error>(Error::InvalidSquare) && final(game)@ == old(game)@
        },
{
    match game.auth_and_get_player_type(player_id, auth) {
        Some(PlayerType::Moderator) => {
            match Location::new(category, row) {
                Some(location) => game.select_square(&location),
                None => Err(Error::InvalidSquare),
            }
        },
        _ => Err(Error::NotAllowed),
    }
}

/// The moderator's verdict on the answer in play.
pub fn answer(game: &mut Game, player_id: &PlayerId, auth: &AuthToken, verdict: AnswerType) -> (result:
    Result<(), Error>)
    requires
        old(game).wf(),
        is_moderator(old(game)@, *player_id, *auth) ==> {
            &&& Game::answer_touches(old(game)@, verdict) ==> old(game)@.can_touch()
            &&& Game::answer_in_range(old(game)@, verdict)
        },
    ensures
        final(game).wf(),
        !is_moderator(old(game)@, *player_id, *auth) ==> refused(
            old(game)@,
            final(game)@,
            result,
        ),
        is_moderator(old(game)@, *player_id, *auth) ==> Game::answered(
            old(game)@,
            final(game)@,
            verdict,
            result,
        ),
{
    match game.auth_and_get_player_type(player_id, auth) {
        Some(PlayerType::Moderator) => game.answer(verdict),
        _ => Err(Error::NotAllowed),
    }
}

/// The moderator puts a fresh board in play.
pub fn new_board(
    game: &mut Game,
    player_id: &PlayerId,
    auth: &AuthToken,
    multiplier: i64,
    daily_doubles: usize,
    categories: Vec<Category>,
    seed: Seed,
    keys: &Vec<u64>,
) -> (result: Result<(), Error>)
    requires
        old(game).wf(),
        is_moderator(old(game)@, *player_id, *auth) ==> old(game)@.next_board_id < usize::MAX,
        keys@.len() == categories@.len() * CATEGORY_HEIGHT,
    ensures
        final(game).wf(),
        !is_moderator(old(game)@, *player_id, *auth) ==> refused(
            old(game)@,
            final(game)@,
            result,
        ),
        is_moderator(old(game)@, *player_id, *auth) ==> Game::board_loaded(
            old(game)@,
            final(game)@,
            multiplier,
            daily_doubles,
            categories@,
            seed,
            keys@,
            result,
        ),
{
    match game.auth_and_get_player_type(player_id, auth) {
        Some(PlayerType::Moderator) => game.load_new_board(
            multiplier,
            daily_doubles,
            categories,
            seed,
            keys,
        ),
        _ => Err(Error::NotAllowed),
    }
}

/// The moderator begins the final round.
pub fn start_final_jeopardy(
    game: &mut Game,
    player_id: &PlayerId,
    auth: &AuthToken,
    seed: Seed,
    data: &JeopardyData,
) -> (result: Result<(), Error>)
    requires
        old(game).wf(),
        is_moderator(old(game)@, *player_id, *auth) ==> data.final_jeopardy_questions@.len() > 0,
    ensures
        final(game).wf(),
        !is_moderator(old(game)@, *player_id, *auth) ==> refused(
            old(game)@,
            final(game)@,
            result,
        ),
        is_moderator(old(game)@, *player_id, *auth) ==> result is Ok && Game::final_round_begun(
            old(game)@,
            final(game)@,
            Game::question_for(seed, *data),
        ),
{
    match game.auth_and_get_player_type(player_id, auth) {
        Some(PlayerType::Moderator) => game.start_final_jeopardy(seed, data),
        _ => Err(Error::NotAllowed),
    }
}

/// The moderator shows the final round's question to the players.
pub fn reveal_final_jeopardy_question(game: &mut Game, player_id: &PlayerId, auth: &AuthToken) -> (result:
    Result<(), Error>)
    requires
        old(game).wf(),
    ensures
        final(game).wf(),
        !is_moderator(old(game)@, *player_id, *auth) ==> refused(
            old(game)@,
            final(game)@,
            result,
        ),
        is_moderator(old(game)@, *player_id, *auth) ==> Game::final_round_flagged(
            old(game)@,
            final(game)@,
            true,
            false,
            result,
        ),
{
    match game.auth_and_get_player_type(player_id, auth) {
        Some(PlayerType::Moderator) => game.reveal_final_jeopardy_question(),
        _ => Err(Error::NotAllowed),
    }
}

/// The moderator closes the final round to further answers.
pub fn lock_final_jeopardy_answers(game: &mut Game, player_id: &PlayerId, auth: &AuthToken) -> (result:
    Result<(), Error>)
    requires
        old(game).wf(),
    ensures
        final(game).wf(),
        !is_moderator(old(game)@, *player_id, *auth) ==> refused(
            old(game)@,
            final(game)@,
            result,
        ),
        is_moderator(old(game)@, *player_id, *auth) ==> Game::final_round_flagged(
            old(game)@,
            final(game)@,
            false,
            true,
            result,
        ),
{
    match game.auth_and_get_player_type(player_id, auth) {
        Some(PlayerType::Moderator) => game.lock_final_jeopardy_answers(),
        _ => Err(Error::NotAllowed),
    }
}

/// The moderator shows the audience the wager or the answer of `target`
/// for the final round.
pub fn reveal_final_jeopardy_info(
    game: &mut Game,
    player_id: &PlayerId,
    auth: &AuthToken,
    target: &PlayerId,
    info_type: FinalJeopardyInfoType,
) -> (result: Result<(), Error>)
    requires
        old(game).wf(),
    ensures
        final(game).wf(),
        !is_moderator(old(game)@, *player_id, *auth) ==> refused(
            old(game)@,
            final(game)@,
            result,
        ),
        is_moderator(old(game)@, *player_id, *auth) ==> Game::final_info_revealed(
            old(game)@,
            final(game)@,
            *target,
            info_type,
            result,
        ),
{
    match game.auth_and_get_player_type(player_id, auth) {
        Some(PlayerType::Moderator) => game.reveal_final_jeopardy_info(target, info_type),
        _ => Err(Error::NotAllowed),
    }
}

/// The moderator's verdict on the final-round answer of `target`.
pub fn evaluate_final_jeopardy_answer(
    game: &mut Game,
    player_id: &PlayerId,
    auth: &AuthToken,
    target: &PlayerId,
    answer: AnswerType,
) -> (result: Result<(), Error>)
    requires
        old(game).wf(),
        is_moderator(old(game)@, *player_id, *auth) ==> Game::evaluation_in_range(
            old(game)@,
            *target,
            answer,
        ),
    ensures
        final(game).wf(),
        !is_moderator(old(game)@, *player_id, *auth) ==> refused(
            old(game)@,
            final(game)@,
            result,
        ),
        is_moderator(old(game)@, *player_id, *auth) ==> Game::final_answer_evaluated(
            old(game)@,
            final(game)@,
            *target,
            answer,
            result,
        ),
{
    match game.auth_and_get_player_type(player_id, auth) {
        Some(PlayerType::Moderator) => game.evaluate_final_jeopardy_answer(target, answer),
        _ => Err(Error::NotAllowed),
    }
}

/// The state that the moderator asks for when overriding a square: ready to
/// be played again, or done with.
pub open spec fn overriding_state(ready: bool) -> SquareState {
    if ready {
        SquareState::Normal
    } else {
        SquareState::Finished
    }
}

/// The moderator's override of one square's state.
pub fn change_square_state(
    game: &mut Game,
    player_id: &PlayerId,
    auth: &AuthToken,
    category: usize,
    row: usize,
    new_state: bool,
) -> (result: Result<(), Error>)
    requires
        old(game).wf(),
        is_moderator(old(game)@, *player_id, *auth) ==> old(game)@.can_touch(),
    ensures
        final(game).wf(),
        !is_moderator(old(game)@, *player_id, *auth) ==> refused(
            old(game)@,
            final(game)@,
            result,
        ),
        is_moderator(old(game)@, *player_id, *auth) ==> if row < CATEGORY_HEIGHT {
            Game::square_state_set(
                old(game)@,
                final(game)@,
                Location { category, row },
                overriding_state(new_state),
                result,
            )
        } else {
            result == Err::<(), Error>(Error::InvalidSquare) && final(game)@ == old(game)@
        },
{
    match game.auth_and_get_player_type(player_id, auth) {
        Some(PlayerType::Moderator) => {
            match Location::new(category, row) {
                Some(location) => game.set_square_state(
                    &location,
                    if new_state {
                        SquareState::Normal
                    } else {
                        SquareState::Finished
                    },
                ),
                None => Err(Error::InvalidSquare),
            }
        },
        _ => Err(Error::NotAllowed),
    }
}

/// The moderator's override of the score of `target`.
pub fn change_player_score(
    game: &mut Game,
    player_id: &PlayerId,
    auth: &AuthToken,
    target: &PlayerId,
    new_score: i64,
) -> (result: Result<(), Error>)
    requires
        old(game).wf(),
    ensures
        final(game).wf(),
        !is_moderator(old(game)@, *player_id, *auth) ==> refused(
            old(game)@,
            final(game)@,
            result,
        ),
        is_moderator(old(game)@, *player_id, *auth) ==> Game::player_score_set(
            old(game)@,
            final(game)@,
            *target,
            new_score,
            result,
        ),
{
    match game.auth_and_get_player_type(player_id, auth) {
        Some(PlayerType::Moderator) => game.set_player_score(target, new_score),
        _ => Err(Error::NotAllowed),
    }
}

/// The moderator opens the buzzer for the square in play.
pub fn enable_buzzer(game: &mut Game, player_id: &PlayerId, auth: &AuthToken) -> (result: Result<
    (),
    Error,
>)
    requires
        old(game).wf(),
    ensures
        final(game).wf(),
        !is_moderator(old(game)@, *player_id, *auth) ==> refused(
            old(game)@,
            final(game)@,
            result,
        ),
        is_moderator(old(game)@, *player_id, *auth) ==> Game::buzzer_enabled(
            old(game)@,
            final(game)@,
            result,
        ),
{
    match game.auth_and_get_player_type(player_id, auth) {
        Some(PlayerType::Moderator) => game.enable_buzzer(),
        _ => Err(Error::NotAllowed),
    }
}

/// A player buzzes.
pub fn buzz(game: &mut Game, player_id: &PlayerId, auth: &AuthToken) -> (result: Result<(), Error>)
    requires
        old(game).wf(),
        is_player(old(game)@, *player_id, *auth) ==> Game::buzz_in_range(old(game)@, *player_id),
    ensures
        final(game).wf(),
        !is_player(old(game)@, *player_id, *auth) ==> refused(old(game)@, final(game)@, result),
        is_player(old(game)@, *player_id, *auth) ==> Game::buzzed(
            old(game)@,
            final(game)@,
            *player_id,
            result,
        ),
{
    match game.auth_and_get_player_type(player_id, auth) {
        Some(PlayerType::Player) => game.buzz(*player_id),
        _ => Err(Error::NotAllowed),
    }
}

/// A player hands in a wager.
pub fn submit_wager(game: &mut Game, player_id: &PlayerId, auth: &AuthToken, wager: i64) -> (result:
    Result<(), Error>)
    requires
        old(game).wf(),
        is_player(old(game)@, *player_id, *auth) ==> Game::wager_in_range(
            old(game)@,
            *player_id,
            wager,
        ),
    ensures
        final(game).wf(),
        !is_player(old(game)@, *player_id, *auth) ==> refused(old(game)@, final(game)@, result),
        is_player(old(game)@, *player_id, *auth) ==> Game::wagered(
            old(game)@,
            final(game)@,
            *player_id,
            wager,
            result,
        ),
{
    match game.auth_and_get_player_type(player_id, auth) {
        Some(PlayerType::Player) => game.submit_wager(player_id, wager),
        _ => Err(Error::NotAllowed),
    }
}

/// A player hands in an answer for the final round.
pub fn submit_final_jeopardy_answer(
    game: &mut Game,
    player_id: &PlayerId,
    auth: &AuthToken,
    answer: &str,
) -> (result: Result<(), Error>)
    requires
        old(game).wf(),
    ensures
        final(game).wf(),
        !is_player(old(game)@, *player_id, *auth) ==> refused(old(game)@, final(game)@, result),
        is_player(old(game)@, *player_id, *auth) ==> Game::final_answer_submitted(
            old(game)@,
            final(game)@,
            *player_id,
            answer@,
            result,
        ),
{
    match game.auth_and_get_player_type(player_id, auth) {
        Some(PlayerType::Player) => game.submit_final_jeopardy_answer(player_id, answer),
        _ => Err(Error::NotAllowed),
    }
}

} // verus!
