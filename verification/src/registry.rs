use vstd::prelude::*;

use crate::clock::{Timestamp, GC_CLEANUP_THRESHOLD_SECONDS};
use crate::data::JeopardyData;
use crate::game::snapshot::GameSnapshot;
use crate::game::Game;
use crate::ids::{GameId, PlayerId};

verus! {

/// What the lobby is told of one open game.
#[derive(Debug)]
pub struct LobbyEntry {
    pub game_id: GameId,
    pub moderator: String,
    pub moderator_avatar: String,
    pub channel: String,
    pub players: Vec<String>,
}

/// What the lobby is told of the game `game_id`: who moderates it, on which
/// channel its players listen, and the names of its players, one for each
/// player, in no particular order.
pub fn lobby_entry(game_id: GameId, game: &Game) -> (entry: LobbyEntry)
    ensures
        entry.game_id == game_id,
        entry.moderator@ == game@.moderator.name,
        entry.moderator_avatar@ == game@.moderator.avatar_url,
        entry.channel@ == game@.player_state_channel,
        exists|ids: Seq<PlayerId>|
            {
                &&& ids.no_duplicates()
                &&& forall|id: PlayerId| ids.contains(id) <==> game@.players.contains_key(id)
                &&& ids.len() == entry.players@.len()
                &&& forall|j: int|
                    0 <= j < ids.len() ==> (#[trigger] entry.players@[j])@
                        == game@.players[ids[j]].name
            },
{
    let names = game.get_player_names();
    let ghost ids = choose|ids: Seq<PlayerId>|
        {
            &&& ids.no_duplicates()
            &&& forall|id: PlayerId| ids.contains(id) <==> game@.players.contains_key(id)
            &&& ids.len() == names@.len()
            &&& forall|j: int|
                0 <= j < ids.len() ==> (#[trigger] names@[j])@ == game@.players[ids[j]].name
        };
    let mut players: Vec<String> = Vec::new();
    let mut index: usize = 0;
    while index < names.len()
        invariant
            index <= names@.len(),
            players@.len() == index,
            forall|j: int| 0 <= j < index ==> (#[trigger] players@[j])@ == names@[j]@,
        decreases names@.len() - index,
    {
        players.push(names[index].to_owned());
        index += 1;
    }
    proof {
        assert forall|j: int| 0 <= j < ids.len() implies (#[trigger] players@[j])@
            == game@.players[ids[j]].name by {
            assert(players@[j]@ == names@[j]@);
        }
    }
    LobbyEntry {
        game_id,
        moderator: game.get_moderator_name().to_owned(),
        moderator_avatar: game.get_moderator_avatar_url().to_owned(),
        channel: game.player_state_channel().to_owned(),
        players,
    }
}

/// Whether a sweep at `now` removes the game: whether the game was started
/// longer ago than the cleanup threshold.
pub fn should_evict(game: &Game, now: &Timestamp) -> (evict: bool)
    ensures
        evict == (game@.time_started.nanos_until(*now) > GC_CLEANUP_THRESHOLD_SECONDS
            * 1_000_000_000),
{
    game.time_started().is_stale(now)
}

/// What goes out after a change to the game: the moderator's view for the
/// moderator's channel, the players' view for the players' channel, and
/// whether the game is over and leaves the registry.
pub fn broadcast_game_state_update(game: &Game, data: &JeopardyData) -> (update: (
    GameSnapshot,
    GameSnapshot,
    bool,
))
    ensures
        game@.is_shown_as(update.0, true, data.min_year, data.max_year),
        game@.is_shown_as(update.1, false, data.min_year, data.max_year),
        update.2 == game@.is_ended,
{
    let moderator_state = game.serialize(true, data);
    let player_state = game.serialize(false, data);
    (moderator_state, player_state, game.is_ended())
}

} // verus!
