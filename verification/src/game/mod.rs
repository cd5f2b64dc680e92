use std::collections::HashMap;

use vstd::prelude::*;
use vstd::std_specs::hash::*;
use vstd::string::*;

use crate::clock::Timestamp;
use crate::ids::{channel_name, make_channel_name, random_identifier, AuthToken, PlayerId};
use crate::text::text_eq;

pub mod board;
pub mod final_round;
pub mod laws;
pub mod loading;
pub mod play;
pub mod roster;
pub mod sampler;
pub mod snapshot;

use board::{Clue, JeopardyBoard, Location, Square};

pub use loading::{is_hit, marks_daily_doubles};
pub use play::max_daily_double_wager;

verus! {

broadcast use vstd::std_specs::hash::group_hash_axioms;

/// Smallest wager on a daily double.
pub const MIN_DAILY_DOUBLE_WAGER: i64 = 5;

/// A daily-double wager may always go up to this many times the board's
/// multiplier, however little the player has.
pub const MIN_MAX_DAILY_DOUBLE_WAGER_FACTOR: i64 = 50;

/// The moderator's verdict on an answer.
#[derive(Debug, Clone, Copy, PartialEq, Eq, Structural)]
pub enum AnswerType {
    Correct,
    Incorrect,
    Skip,
}

impl AnswerType {
    /// The verdict that `text` names.
    pub open spec fn parsed(text: Seq<char>) -> Option<AnswerType> {
        if text == "Correct"@ {
            Some(AnswerType::Correct)
        } else if text == "Incorrect"@ {
            Some(AnswerType::Incorrect)
        } else if text == "Skip"@ {
            Some(AnswerType::Skip)
        } else {
            None
        }
    }

    /// Reads a verdict as a client wrote it.
    pub fn parse(text: &str) -> (verdict: Option<AnswerType>)
        ensures
            verdict == Self::parsed(text@),
    {
        if text_eq(text, "Correct") {
            Some(AnswerType::Correct)
        } else if text_eq(text, "Incorrect") {
            Some(AnswerType::Incorrect)
        } else if text_eq(text, "Skip") {
            Some(AnswerType::Skip)
        } else {
            None
        }
    }
}

impl std::str::FromStr for AnswerType {
    type Err = ();

    fn from_str(text: &str) -> (verdict: Result<Self, ()>)
        ensures
            verdict == match AnswerType::parsed(text@) {
                Some(named) => Ok::<AnswerType, ()>(named),
                None => Err::<AnswerType, ()>(()),
            },
    {
        match AnswerType::parse(text) {
            Some(verdict) => Ok(verdict),
            None => Err(()),
        }
    }
}

/// The two roles in a game.
#[derive(Debug, Clone, Copy, PartialEq, Eq, Structural)]
pub enum PlayerType {
    Moderator,
    Player,
}

/// The part of a player's final-round record that the moderator can reveal.
#[derive(Debug, Clone, Copy, PartialEq, Eq, Structural)]
pub enum FinalJeopardyInfoType {
    Wager,
    Answer,
}

impl FinalJeopardyInfoType {
    /// The part that `text` names.
    pub open spec fn parsed(text: Seq<char>) -> Option<FinalJeopardyInfoType> {
        if text == "Wager"@ {
            Some(FinalJeopardyInfoType::Wager)
        } else if text == "Answer"@ {
            Some(FinalJeopardyInfoType::Answer)
        } else {
            None
        }
    }

    /// Reads the name of a part as a client wrote it.
    pub fn parse(text: &str) -> (part: Option<FinalJeopardyInfoType>)
        ensures
            part == Self::parsed(text@),
    {
        if text_eq(text, "Wager") {
            Some(FinalJeopardyInfoType::Wager)
        } else if text_eq(text, "Answer") {
            Some(FinalJeopardyInfoType::Answer)
        } else {
            None
        }
    }
}

impl std::str::FromStr for FinalJeopardyInfoType {
    type Err = ();

    fn from_str(text: &str) -> (part: Result<Self, ()>)
        ensures
            part == match FinalJeopardyInfoType::parsed(text@) {
                Some(named) => Ok::<FinalJeopardyInfoType, ()>(named),
                None => Err::<FinalJeopardyInfoType, ()>(()),
            },
    {
        match FinalJeopardyInfoType::parse(text) {
            Some(part) => Ok(part),
            None => Err(()),
        }
    }
}

/// What one player has handed in for the final round, and what of it the
/// audience may see.
#[derive(Debug)]
pub struct FinalJeopardyInfo {
    pub wager: Option<i64>,
    pub answer: Option<String>,
    pub wager_revealed: bool,
    pub answer_revealed: bool,
}

/// A final-round record, as contracts see it.
pub struct FinalJeopardyInfoView {
    pub wager: Option<i64>,
    pub answer: Option<Seq<char>>,
    pub wager_revealed: bool,
    pub answer_revealed: bool,
}

impl FinalJeopardyInfoView {
    /// The record of a player who has handed in nothing.
    pub open spec fn empty() -> FinalJeopardyInfoView {
        FinalJeopardyInfoView {
            wager: None,
            answer: None,
            wager_revealed: false,
            answer_revealed: false,
        }
    }
}

impl View for FinalJeopardyInfo {
    type V = FinalJeopardyInfoView;

    open spec fn view(&self) -> FinalJeopardyInfoView {
        FinalJeopardyInfoView {
            wager: self.wager,
            answer: match self.answer {
                Some(answer) => Some(answer@),
                None => None,
            },
            wager_revealed: self.wager_revealed,
            answer_revealed: self.answer_revealed,
        }
    }
}

impl FinalJeopardyInfo {
    /// The record of a player who has handed in nothing.
    pub fn empty() -> (info: Self)
        ensures
            info@ == FinalJeopardyInfoView::empty(),
    {
        FinalJeopardyInfo { wager: None, answer: None, wager_revealed: false, answer_revealed: false }
    }
}

impl Clone for FinalJeopardyInfo {
    fn clone(&self) -> (copy: Self)
        ensures
            copy == *self,
    {
        FinalJeopardyInfo {
            wager: self.wager,
            answer: board::clone_text(&self.answer),
            wager_revealed: self.wager_revealed,
            answer_revealed: self.answer_revealed,
        }
    }
}

/// A participant, as contracts see one.
pub struct PlayerView {
    pub name: Seq<char>,
    pub score: i64,
    pub auth: AuthToken,
    pub avatar_url: Seq<char>,
    pub final_jeopardy_info: FinalJeopardyInfoView,
}

impl PlayerView {
    /// This player with another score.
    pub open spec fn with_score(self, score: i64) -> PlayerView {
        PlayerView { score, ..self }
    }

    /// This player with another final-round record.
    pub open spec fn with_info(self, info: FinalJeopardyInfoView) -> PlayerView {
        PlayerView { final_jeopardy_info: info, ..self }
    }
}

/// A participant: the moderator or a contestant.
#[derive(Debug)]
pub struct Player {
    name: String,
    score: i64,
    auth: AuthToken,
    avatar_url: String,
    final_jeopardy_info: FinalJeopardyInfo,
}

impl View for Player {
    type V = PlayerView;

    closed spec fn view(&self) -> PlayerView {
        PlayerView {
            name: self.name@,
            score: self.score,
            auth: self.auth,
            avatar_url: self.avatar_url@,
            final_jeopardy_info: self.final_jeopardy_info@,
        }
    }
}

impl Clone for Player {
    fn clone(&self) -> (copy: Self)
        ensures
            copy == *self,
    {
        Player {
            name: self.name.clone(),
            score: self.score,
            auth: self.auth,
            avatar_url: self.avatar_url.clone(),
            final_jeopardy_info: self.final_jeopardy_info.clone(),
        }
    }
}

impl Player {
    /// A player without points who has handed in nothing, known by `auth`.
    pub fn with_auth(name: String, avatar_url: String, auth: AuthToken) -> (player: Self)
        ensures
            player@ == (PlayerView {
                name: name@,
                score: 0,
                auth,
                avatar_url: avatar_url@,
                final_jeopardy_info: FinalJeopardyInfoView::empty(),
            }),
    {
        Player { name, score: 0, auth, avatar_url, final_jeopardy_info: FinalJeopardyInfo::empty() }
    }

    /// A player without points who has handed in nothing, with a token drawn
    /// at random.
    pub fn new(name: String, avatar_url: String) -> (player: Self)
        ensures
            player@ == (PlayerView {
                name: name@,
                score: 0,
                auth: player@.auth,
                avatar_url: avatar_url@,
                final_jeopardy_info: FinalJeopardyInfoView::empty(),
            }),
            crate::ids::is_random_identifier(player@.auth.0),
    {
        let auth = AuthToken::generate();
        Player::with_auth(name, avatar_url, auth)
    }

    pub fn get_auth(&self) -> (auth: AuthToken)
        ensures
            auth == self@.auth,
    {
        self.auth
    }

    pub fn check_auth(&self, auth: &AuthToken) -> (matches: bool)
        ensures
            matches == (self@.auth == *auth),
    {
        self.auth == *auth
    }

    pub fn name(&self) -> (name: &str)
        ensures
            name@ == self@.name,
    {
        self.name.as_str()
    }

    pub fn score(&self) -> (score: i64)
        ensures
            score == self@.score,
    {
        self.score
    }

    pub fn avatar_url(&self) -> (url: &str)
        ensures
            url@ == self@.avatar_url,
    {
        self.avatar_url.as_str()
    }

    pub fn final_jeopardy_info(&self) -> (info: &FinalJeopardyInfo)
        ensures
            info@ == self@.final_jeopardy_info,
    {
        &self.final_jeopardy_info
    }
}

/// Where a game stands in its turn protocol.
#[derive(Debug)]
#[allow(inconsistent_fields)]
pub enum GameState {
    NoBoard,
    WaitingForSquareSelection { board: JeopardyBoard, controller: Option<PlayerId> },
    WaitingForEnableBuzzer { board: JeopardyBoard, location: Location, controller: PlayerId },
    WaitingForDailyDoubleWager { board: JeopardyBoard, location: Location, controller: PlayerId },
    WaitingForBuzzer { board: JeopardyBoard, location: Location, controller: PlayerId },
    WaitingForAnswer {
        board: JeopardyBoard,
        location: Location,
        controller: PlayerId,
        active_player: PlayerId,
        value: i64,
    },
    FinalJeopardy {
        category_name: String,
        question: Clue,
        answer: String,
        question_revealed: bool,
        answers_locked: bool,
    },
}

impl GameState {
    /// The board in play, if there is one.
    pub open spec fn board(self) -> Option<JeopardyBoard> {
        match self {
            GameState::NoBoard => None,
            GameState::WaitingForSquareSelection { board, .. } => Some(board),
            GameState::WaitingForEnableBuzzer { board, .. } => Some(board),
            GameState::WaitingForDailyDoubleWager { board, .. } => Some(board),
            GameState::WaitingForBuzzer { board, .. } => Some(board),
            GameState::WaitingForAnswer { board, .. } => Some(board),
            GameState::FinalJeopardy { .. } => None,
        }
    }

    /// The square in play, if there is one.
    pub open spec fn location(self) -> Option<Location> {
        match self {
            GameState::WaitingForEnableBuzzer { location, .. } => Some(location),
            GameState::WaitingForDailyDoubleWager { location, .. } => Some(location),
            GameState::WaitingForBuzzer { location, .. } => Some(location),
            GameState::WaitingForAnswer { location, .. } => Some(location),
            _ => None,
        }
    }

    /// The player who picks the next square or makes the next wager, if
    /// there is one.
    pub open spec fn controller(self) -> Option<PlayerId> {
        match self {
            GameState::WaitingForSquareSelection { controller, .. } => controller,
            GameState::WaitingForEnableBuzzer { controller, .. } => Some(controller),
            GameState::WaitingForDailyDoubleWager { controller, .. } => Some(controller),
            GameState::WaitingForBuzzer { controller, .. } => Some(controller),
            GameState::WaitingForAnswer { controller, .. } => Some(controller),
            _ => None,
        }
    }

    /// The player who is answering, if there is one.
    pub open spec fn active_player(self) -> Option<PlayerId> {
        match self {
            GameState::WaitingForAnswer { active_player, .. } => Some(active_player),
            _ => None,
        }
    }

    /// What the answer in play is worth, if one is awaited.
    pub open spec fn value(self) -> Option<i64> {
        match self {
            GameState::WaitingForAnswer { value, .. } => Some(value),
            _ => None,
        }
    }

    /// Whether `other` is the same step of the same turn: the same kind of
    /// state, with the same square, players and value, whatever the board.
    pub open spec fn same_turn(self, other: GameState) -> bool {
        let same_kind = match (self, other) {
            (GameState::NoBoard, GameState::NoBoard) => true,
            (
                GameState::WaitingForSquareSelection { .. },
                GameState::WaitingForSquareSelection { .. },
            ) => true,
            (
                GameState::WaitingForEnableBuzzer { .. },
                GameState::WaitingForEnableBuzzer { .. },
            ) => true,
            (
                GameState::WaitingForDailyDoubleWager { .. },
                GameState::WaitingForDailyDoubleWager { .. },
            ) => true,
            (GameState::WaitingForBuzzer { .. }, GameState::WaitingForBuzzer { .. }) => true,
            (GameState::WaitingForAnswer { .. }, GameState::WaitingForAnswer { .. }) => true,
            (GameState::FinalJeopardy { .. }, GameState::FinalJeopardy { .. }) => self == other,
            _ => false,
        };
        same_kind && self.location() == other.location() && self.controller()
            == other.controller() && self.active_player() == other.active_player() && self.value()
            == other.value()
    }

    /// Whether `other` is the same step of the same turn after one mutating
    /// access to the board that left the square at `location` as `square`.
    pub open spec fn touched(self, other: GameState, location: Location, square: Square) -> bool {
        &&& self.same_turn(other)
        &&& self.board() matches Some(before)
        &&& other.board() matches Some(after)
        &&& before@.touched(after@, location, square)
    }
}

/// A game, as contracts see it.
pub struct GameView {
    pub moderator_id: PlayerId,
    pub moderator: PlayerView,
    pub players: Map<PlayerId, PlayerView>,
    pub state: GameState,
    pub next_board_id: usize,
    pub time_started: Timestamp,
    pub moderator_state_channel: Seq<char>,
    pub player_state_channel: Seq<char>,
    pub is_ended: bool,
}

impl GameView {
    /// The state is legal: a square in play lies on the board, and whoever
    /// controls the board or is answering is a player.
    pub open spec fn wf(self) -> bool {
        &&& self.state.location() matches Some(location) ==> self.state.board().unwrap()@.contains(
            location,
        )
        &&& self.state.controller() matches Some(controller) ==> self.players.contains_key(
            controller,
        )
        &&& self.state.active_player() matches Some(active) ==> self.players.contains_key(
            active,
        )
    }

    /// The change counter of a board in play can still advance.
    pub open spec fn can_touch(self) -> bool {
        self.state.board() matches Some(board) ==> board@.etag < usize::MAX
    }

    /// Nobody has joined, or everybody has left.
    pub open spec fn no_players(self) -> bool {
        forall|id: PlayerId| !self.players.contains_key(id)
    }

    /// Whether `post` is the same session under the same moderator.
    pub open spec fn same_session(self, post: GameView) -> bool {
        &&& post.moderator_id == self.moderator_id
        &&& post.moderator == self.moderator
        &&& post.time_started == self.time_started
        &&& post.moderator_state_channel == self.moderator_state_channel
        &&& post.player_state_channel == self.player_state_channel
        &&& post.is_ended == self.is_ended
    }

    /// Whether `post` differs from this game in nothing but the state and
    /// the players.
    pub open spec fn same_frame(self, post: GameView) -> bool {
        &&& post.moderator_id == self.moderator_id
        &&& post.moderator == self.moderator
        &&& post.next_board_id == self.next_board_id
        &&& post.time_started == self.time_started
        &&& post.moderator_state_channel == self.moderator_state_channel
        &&& post.player_state_channel == self.player_state_channel
        &&& post.is_ended == self.is_ended
    }

    /// Whether `post` is this game with another state reached by the same
    /// players.
    pub open spec fn same_cast(self, post: GameView) -> bool {
        self.same_frame(post) && post.players == self.players
    }

    /// The role in which `id` may act when it shows `auth`.
    pub open spec fn player_type(self, id: PlayerId, auth: AuthToken) -> Option<PlayerType> {
        if id == self.moderator_id && self.moderator.auth == auth {
            Some(PlayerType::Moderator)
        } else if self.players.contains_key(id) && self.players[id].auth == auth {
            Some(PlayerType::Player)
        } else {
            None
        }
    }

    /// Whether `heir` can take over from a player who left: any player who is
    /// still there, and nobody only where nobody is left.
    pub open spec fn is_heir(self, heir: Option<PlayerId>) -> bool {
        match heir {
            Some(id) => self.players.contains_key(id),
            None => self.no_players(),
        }
    }
}

/// The players of a game by their identifiers, as contracts see them.
pub closed spec fn player_views(players: Map<u128, Player>) -> Map<PlayerId, PlayerView> {
    Map::new(|id: PlayerId| players.contains_key(id.0), |id: PlayerId| players[id.0]@)
}

proof fn lemma_views_insert(players: Map<u128, Player>, id: PlayerId, player: Player)
    ensures
        player_views(players.insert(id.0, player)) == player_views(players).insert(id, player@),
{
    assert(player_views(players.insert(id.0, player)) =~= player_views(players).insert(
        id,
        player@,
    ));
}

proof fn lemma_views_remove(players: Map<u128, Player>, id: PlayerId)
    ensures
        player_views(players.remove(id.0)) == player_views(players).remove(id),
{
    assert(player_views(players.remove(id.0)) =~= player_views(players).remove(id));
}

/// One session: the moderator, the players, where play stands, and what the
/// registry needs to know of the game.
#[derive(Debug)]
pub struct Game {
    moderator_id: PlayerId,
    moderator: Player,
    players: HashMap<u128, Player>,
    state: GameState,
    next_board_id: usize,
    time_started: Timestamp,
    moderator_state_channel: String,
    player_state_channel: String,
    is_ended: bool,
}

impl View for Game {
    type V = GameView;

    closed spec fn view(&self) -> GameView {
        GameView {
            moderator_id: self.moderator_id,
            moderator: self.moderator@,
            players: player_views(self.players@),
            state: self.state,
            next_board_id: self.next_board_id,
            time_started: self.time_started,
            moderator_state_channel: self.moderator_state_channel@,
            player_state_channel: self.player_state_channel@,
            is_ended: self.is_ended,
        }
    }
}

impl Game {
    /// The game is in a legal state.
    pub open spec fn wf(&self) -> bool {
        self@.wf()
    }

    /// A game without board or players, with the identity it is given.
    pub fn with_identity(
        moderator: Player,
        moderator_id: PlayerId,
        moderator_channel: u128,
        player_channel: u128,
        time_started: Timestamp,
    ) -> (game: Self)
        ensures
            game.wf(),
            game@.moderator_id == moderator_id,
            game@.moderator == moderator@,
            game@.no_players(),
            game@.state == GameState::NoBoard,
            game@.next_board_id == 0,
            game@.time_started == time_started,
            game@.moderator_state_channel == channel_name(moderator_channel),
            game@.player_state_channel == channel_name(player_channel),
            !game@.is_ended,
    {
        Game {
            moderator_id,
            moderator,
            players: HashMap::new(),
            state: GameState::NoBoard,
            next_board_id: 0,
            time_started,
            moderator_state_channel: make_channel_name(moderator_channel),
            player_state_channel: make_channel_name(player_channel),
            is_ended: false,
        }
    }

    /// A game without board or players that starts now, with a moderator
    /// identifier and two channel names drawn at random.
    pub fn new(moderator: Player) -> (game: Self)
        ensures
            game.wf(),
            game@.moderator == moderator@,
            game@.no_players(),
            game@.state == GameState::NoBoard,
            game@.next_board_id == 0,
            !game@.is_ended,
            crate::ids::is_random_identifier(game@.moderator_id.0),
            exists|identifier: u128| game@.moderator_state_channel == channel_name(identifier),
            exists|identifier: u128| game@.player_state_channel == channel_name(identifier),
    {
        let moderator_id = PlayerId::generate();
        let time_started = Timestamp::now();
        let moderator_channel = random_identifier();
        let player_channel = random_identifier();
        Game::with_identity(
            moderator,
            moderator_id,
            moderator_channel,
            player_channel,
            time_started,
        )
    }

    pub fn moderator_id(&self) -> (id: PlayerId)
        ensures
            id == self@.moderator_id,
    {
        self.moderator_id
    }

    pub fn time_started(&self) -> (time: Timestamp)
        ensures
            time == self@.time_started,
    {
        self.time_started
    }

    pub fn moderator_state_channel(&self) -> (channel: &str)
        ensures
            channel@ == self@.moderator_state_channel,
    {
        self.moderator_state_channel.as_str()
    }

    pub fn player_state_channel(&self) -> (channel: &str)
        ensures
            channel@ == self@.player_state_channel,
    {
        self.player_state_channel.as_str()
    }

    pub fn is_ended(&self) -> (ended: bool)
        ensures
            ended == self@.is_ended,
    {
        self.is_ended
    }

    /// Marks the game as over, so that the registry drops it.
    pub fn end(&mut self)
        ensures
            final(self)@ == (GameView { is_ended: true, ..old(self)@ }),
    {
        self.is_ended = true;
    }

    pub fn state(&self) -> (state: &GameState)
        ensures
            *state == self@.state,
    {
        &self.state
    }

    pub fn next_board_id(&self) -> (id: usize)
        ensures
            id == self@.next_board_id,
    {
        self.next_board_id
    }

    pub fn get_moderator(&self) -> (moderator: &Player)
        ensures
            moderator@ == self@.moderator,
    {
        &self.moderator
    }

    pub fn get_moderator_name(&self) -> (name: &str)
        ensures
            name@ == self@.moderator.name,
    {
        self.moderator.name.as_str()
    }

    pub fn get_moderator_avatar_url(&self) -> (url: &str)
        ensures
            url@ == self@.moderator.avatar_url,
    {
        self.moderator.avatar_url.as_str()
    }

    /// The player known as `id`, if there is one.
    pub fn get_player(&self, id: &PlayerId) -> (player: Option<&Player>)
        ensures
            match player {
                Some(p) => self@.players.contains_key(*id) && self@.players[*id] == p@,
                None => !self@.players.contains_key(*id),
            },
    {
        self.players.get(&id.0)
    }

    pub fn has_player(&self, id: &PlayerId) -> (present: bool)
        ensures
            present == self@.players.contains_key(*id),
    {
        self.players.contains_key(&id.0)
    }

    /// The role in which `id` may act when it shows `auth`: moderator,
    /// player, or none where the token does not belong to the identifier.
    pub fn auth_and_get_player_type(&self, id: &PlayerId, auth: &AuthToken) -> (role: Option<
        PlayerType,
    >)
        ensures
            role == self@.player_type(*id, *auth),
    {
        if *id == self.moderator_id && self.moderator.check_auth(auth) {
            return Some(PlayerType::Moderator);
        }
        match self.players.get(&id.0) {
            Some(player) => {
                if player.check_auth(auth) {
                    Some(PlayerType::Player)
                } else {
                    None
                }
            },
            None => None,
        }
    }

    /// What a game is after `player` has joined it as `id`: the player is on
    /// the roster, and controls the board where nobody did.
    pub open spec fn joined(pre: GameView, post: GameView, id: PlayerId, player: PlayerView) -> bool {
        &&& pre.same_frame(post)
        &&& post.players == pre.players.insert(id, player)
        &&& post.state == match pre.state {
            GameState::WaitingForSquareSelection { board, controller: None } => {
                GameState::WaitingForSquareSelection { board, controller: Some(id) }
            },
            state => state,
        }
    }

    /// Puts `player` on the roster as `id`.
    pub fn add_player_with_id(&mut self, id: PlayerId, player: Player)
        requires
            old(self).wf(),
        ensures
            final(self).wf(),
            Self::joined(old(self)@, final(self)@, id, player@),
    {
        proof {
            lemma_views_insert(self.players@, id, player);
        }
        self.players.insert(id.0, player);
        let mut state = GameState::NoBoard;
        core::mem::swap(&mut self.state, &mut state);
        self.state = match state {
            GameState::WaitingForSquareSelection { board, controller: None } => {
                GameState::WaitingForSquareSelection { board, controller: Some(id) }
            },
            other => other,
        };
    }

    /// Puts `player` on the roster under an identifier drawn at random, and
    /// returns the identifier.
    pub fn add_player(&mut self, player: Player) -> (id: PlayerId)
        requires
            old(self).wf(),
        ensures
            final(self).wf(),
            crate::ids::is_random_identifier(id.0),
            Self::joined(old(self)@, final(self)@, id, player@),
    {
        let id = PlayerId::generate();
        self.add_player_with_id(id, player);
        id
    }

    /// Whether the change counter of a board in play can still advance.
    pub fn has_etag_room(&self) -> (room: bool)
        ensures
            room == self@.can_touch(),
    {
        match &self.state {
            GameState::NoBoard => true,
            GameState::WaitingForSquareSelection { board, .. } => board.etag() < usize::MAX,
            GameState::WaitingForEnableBuzzer { board, .. } => board.etag() < usize::MAX,
            GameState::WaitingForDailyDoubleWager { board, .. } => board.etag() < usize::MAX,
            GameState::WaitingForBuzzer { board, .. } => board.etag() < usize::MAX,
            GameState::WaitingForAnswer { board, .. } => board.etag() < usize::MAX,
            GameState::FinalJeopardy { .. } => true,
        }
    }

    /// Whether the boards of this game can still be numbered.
    pub fn has_board_id_room(&self) -> (room: bool)
        ensures
            room == (self@.next_board_id < usize::MAX),
    {
        self.next_board_id < usize::MAX
    }
}

} // verus!
