use std::collections::HashMap;

use vstd::prelude::*;
use vstd::std_specs::hash::*;
use vstd::std_specs::iter::IteratorSpec;

use super::{
    lemma_views_insert, player_views, FinalJeopardyInfo, Game, GameView, Player, PlayerView,
};
use crate::ids::PlayerId;
use crate::rng::choose_at_random;

verus! {

broadcast use vstd::std_specs::hash::group_hash_axioms;

/// Some player of the roster, or nobody where the roster is empty.
pub(super) fn any_player(players: &HashMap<u128, Player>) -> (heir: Option<PlayerId>)
    ensures
        match heir {
            Some(id) => players@.contains_key(id.0),
            None => forall|key: u128| !players@.contains_key(key),
        },
{
    for key in keys: players.keys()
        invariant
            keys.index() == 0,
            keys.seq().unref().to_set() == players@.dom(),
            keys.seq().len() == players@.dom().len(),
    {
        proof {
            assert(keys.seq().unref()[0] == *key);
            assert(keys.seq().unref().to_set().contains(*key));
        }
        return Some(PlayerId(*key));
    }
    proof {
        assert(players@.dom().len() == 0);
        assert forall|key: u128| !players@.contains_key(key) by {
            if players@.contains_key(key) {
                assert(players@.dom().contains(key));
                vstd::set_lib::lemma_set_empty_equivalency_len(players@.dom());
            }
        }
    }
    None
}

/// Gives the player `id` the score `score`.
pub(super) fn change_score(players: &mut HashMap<u128, Player>, id: PlayerId, score: i64)
    requires
        old(players)@.contains_key(id.0),
    ensures
        player_views(final(players)@) == player_views(old(players)@).insert(
            id,
            player_views(old(players)@)[id].with_score(score),
        ),
{
    match players.remove(&id.0) {
        Some(player) => {
            let mut player = player;
            player.score = score;
            proof {
                lemma_views_insert(players@, id, player);
                assert(player_views(players@.insert(id.0, player)) =~= player_views(
                    old(players)@,
                ).insert(id, player_views(old(players)@)[id].with_score(score)));
            }
            players.insert(id.0, player);
        },
        None => {},
    }
}

/// Gives the player `id` the final-round record `info`.
pub(super) fn change_info(players: &mut HashMap<u128, Player>, id: PlayerId, info: FinalJeopardyInfo)
    requires
        old(players)@.contains_key(id.0),
    ensures
        player_views(final(players)@) == player_views(old(players)@).insert(
            id,
            player_views(old(players)@)[id].with_info(info@),
        ),
{
    match players.remove(&id.0) {
        Some(player) => {
            let mut player = player;
            player.final_jeopardy_info = info;
            proof {
                lemma_views_insert(players@, id, player);
                assert(player_views(players@.insert(id.0, player)) =~= player_views(
                    old(players)@,
                ).insert(id, player_views(old(players)@)[id].with_info(info@)));
            }
            players.insert(id.0, player);
        },
        None => {},
    }
}

/// The identifiers of all players, each once, in no particular order.
pub(super) fn roster(players: &HashMap<u128, Player>) -> (ids: Vec<PlayerId>)
    ensures
        ids@.no_duplicates(),
        forall|id: PlayerId| ids@.contains(id) <==> players@.contains_key(id.0),
{
    let mut ids: Vec<PlayerId> = Vec::new();
    let ghost all = spec_keys_iter(players).remaining();
    proof {
        axiom_spec_keys_iter(players);
    }
    for key in keys: players.keys()
        invariant
            keys.seq() == all,
            ids@.len() == keys.index(),
            forall|j: int| 0 <= j < ids@.len() ==> ids@[j].0 == *all[j],
    {
        ids.push(PlayerId(*key));
    }
    proof {
        assert forall|i: int, j: int|
            0 <= i < ids@.len() && 0 <= j < ids@.len() && i != j implies ids@[i] != ids@[j] by {
            assert(all[i] != all[j]);
        }
        assert forall|id: PlayerId| ids@.contains(id) <==> players@.contains_key(id.0) by {
            if ids@.contains(id) {
                let j = choose|j: int| 0 <= j < ids@.len() && ids@[j] == id;
                assert(all.unref()[j] == id.0);
                assert(all.unref().to_set().contains(id.0));
            }
            if players@.contains_key(id.0) {
                assert(all.unref().to_set().contains(id.0));
                let j = choose|j: int| 0 <= j < all.unref().len() && all.unref()[j] == id.0;
                assert(ids@[j] == id);
            }
        }
    }
    ids
}

impl Game {
    /// The identifiers of all players, each once, in no particular order.
    pub fn get_player_ids(&self) -> (ids: Vec<PlayerId>)
        ensures
            ids@.no_duplicates(),
            forall|id: PlayerId| ids@.contains(id) <==> self@.players.contains_key(id),
    {
        roster(&self.players)
    }

    /// The names of all players, one for each player, in no particular order.
    pub fn get_player_names(&self) -> (names: Vec<&str>)
        ensures
            exists|ids: Seq<PlayerId>|
                {
                    &&& ids.no_duplicates()
                    &&& forall|id: PlayerId| ids.contains(id) <==> self@.players.contains_key(id)
                    &&& ids.len() == names@.len()
                    &&& forall|j: int|
                        0 <= j < ids.len() ==> (#[trigger] names@[j])@ == self@.players[ids[j]].name
                },
    {
        let ids = roster(&self.players);
        let mut names: Vec<&str> = Vec::new();
        let mut index: usize = 0;
        while index < ids.len()
            invariant
                index <= ids@.len(),
                names@.len() == index,
                forall|id: PlayerId| ids@.contains(id) <==> self.players@.contains_key(id.0),
                forall|j: int|
                    0 <= j < index ==> (#[trigger] names@[j])@ == player_views(
                        self.players@,
                    )[ids@[j]].name,
            decreases ids@.len() - index,
        {
            let id = ids[index];
            assert(ids@.contains(id));
            match self.players.get(&id.0) {
                Some(player) => {
                    names.push(player.name.as_str());
                },
                None => {
                    vstd::pervasive::unreached::<()>();
                },
            }
            index += 1;
        }
        names
    }
}

/// The players with the lowest score of all, each once.
pub(super) fn lowest_score_group(players: &HashMap<u128, Player>) -> (group: Vec<PlayerId>)
    ensures
        forall|id: PlayerId|
            group@.contains(id) <==> GameView::has_lowest_score(player_views(players@), id),
{
    let ids = roster(players);
    let mut lowest = i64::MAX;
    let mut group: Vec<PlayerId> = Vec::new();
    let mut index: usize = 0;
    while index < ids.len()
        invariant
            index <= ids@.len(),
            forall|id: PlayerId| ids@.contains(id) <==> players@.contains_key(id.0),
            forall|j: int| 0 <= j < index ==> players@[(#[trigger] ids@[j]).0].score >= lowest,
            forall|id: PlayerId|
                group@.contains(id) <==> (exists|j: int|
                    0 <= j < index && ids@[j] == id && players@[id.0].score == lowest),
            index > 0 ==> group@.len() > 0,
            index == 0 ==> lowest == i64::MAX,
        decreases ids@.len() - index,
    {
        let id = ids[index];
        assert(ids@.contains(id));
        let score = match players.get(&id.0) {
            Some(player) => player.score,
            None => vstd::pervasive::unreached(),
        };
        let ghost before = group@;
        let ghost lowest_before = lowest;
        if score < lowest {
            group.clear();
            lowest = score;
        }
        let ghost cleared = group@;
        if score == lowest {
            group.push(id);
            proof {
                assert(group@.last() == id);
                assert forall|other: PlayerId| group@.contains(other) <==> (exists|j: int|
                    0 <= j < index + 1 && ids@[j] == other && players@[other.0].score
                        == lowest) by {
                    if group@.contains(other) {
                        let p = choose|p: int| 0 <= p < group@.len() && group@[p] == other;
                        if p < cleared.len() {
                            assert(cleared[p] == other);
                            assert(cleared.contains(other));
                            assert(before.contains(other));
                        } else {
                            assert(ids@[index as int] == other);
                        }
                    }
                    if exists|j: int|
                        0 <= j < index + 1 && ids@[j] == other && players@[other.0].score
                            == lowest {
                        let j = choose|j: int|
                            0 <= j < index + 1 && ids@[j] == other && players@[other.0].score
                                == lowest;
                        if j < index {
                            assert(players@[ids@[j].0].score >= lowest_before);
                            assert(before.contains(other));
                            let p = choose|p: int| 0 <= p < before.len() && before[p] == other;
                            assert(group@[p] == other);
                        } else {
                            assert(group@[group@.len() - 1] == other);
                        }
                    }
                }
            }
        } else {
            proof {
                assert forall|other: PlayerId| group@.contains(other) <==> (exists|j: int|
                    0 <= j < index + 1 && ids@[j] == other && players@[other.0].score
                        == lowest) by {
                    if exists|j: int|
                        0 <= j < index + 1 && ids@[j] == other && players@[other.0].score
                            == lowest {
                        let j = choose|j: int|
                            0 <= j < index + 1 && ids@[j] == other && players@[other.0].score
                                == lowest;
                        assert(j < index);
                    }
                }
            }
        }
        index += 1;
    }
    proof {
        assert forall|id: PlayerId|
            group@.contains(id) <==> GameView::has_lowest_score(player_views(players@), id) by {
            if group@.contains(id) {
                let k = choose|k: int|
                    0 <= k < index && ids@[k] == id && players@[id.0].score == lowest;
                assert(ids@.contains(id));
                assert(player_views(players@)[id].score == lowest);
                assert forall|other: PlayerId|
                    player_views(players@).contains_key(other) implies (#[trigger] player_views(
                    players@,
                )[other]).score >= player_views(players@)[id].score by {
                    assert(ids@.contains(other));
                    let j = choose|j: int| 0 <= j < ids@.len() && ids@[j] == other;
                    assert(players@[ids@[j].0].score >= lowest);
                }
            }
            if GameView::has_lowest_score(player_views(players@), id) {
                assert(ids@.contains(id));
                let j = choose|j: int| 0 <= j < ids@.len() && ids@[j] == id;
                assert(players@[ids@[j].0].score >= lowest);
                if players@[id.0].score > lowest {
                    lemma_lowest_is_reached(players@, ids@, lowest, group@, index as int, id);
                }
            }
        }
    }
    group
}

/// Where all scores seen are at least `lowest` and the group holds those who
/// have just that score, a player above `lowest` is not the lowest if the
/// group is not empty.
proof fn lemma_lowest_is_reached(
    players: Map<u128, Player>,
    ids: Seq<PlayerId>,
    lowest: i64,
    group: Seq<PlayerId>,
    index: int,
    id: PlayerId,
)
    requires
        group.len() > 0,
        forall|other: PlayerId|
            group.contains(other) <==> (exists|j: int|
                0 <= j < index && ids[j] == other && players[other.0].score == lowest),
        forall|other: PlayerId| ids.contains(other) <==> players.contains_key(other.0),
        0 <= index <= ids.len(),
        players.contains_key(id.0),
        players[id.0].score > lowest,
    ensures
        !GameView::has_lowest_score(player_views(players), id),
{
    let member = group[0];
    assert(group.contains(member));
    let j = choose|j: int| 0 <= j < index && ids[j] == member && players[member.0].score == lowest;
    assert(ids.contains(member));
    assert(player_views(players).contains_key(member));
    assert(player_views(players)[member].score == lowest);
    assert(player_views(players)[id].score > lowest);
}

impl GameView {
    /// Whether `id` is a player and no player has fewer points.
    pub open spec fn has_lowest_score(players: Map<PlayerId, PlayerView>, id: PlayerId) -> bool {
        &&& players.contains_key(id)
        &&& forall|other: PlayerId|
            players.contains_key(other) ==> (#[trigger] players[other]).score >= players[id].score
    }

    /// Whether `controller` can be handed a fresh board: one of the players
    /// with the lowest score, and nobody only where there are no players.
    pub open spec fn is_first_controller(self, controller: Option<PlayerId>) -> bool {
        match controller {
            Some(id) => Self::has_lowest_score(self.players, id),
            None => self.no_players(),
        }
    }
}

impl Game {
    /// One of the players with the lowest score, drawn at random, or nobody
    /// where there are no players.
    pub fn get_random_player_with_lowest_score(&self) -> (controller: Option<PlayerId>)
        ensures
            self@.is_first_controller(controller),
    {
        let group = lowest_score_group(&self.players);
        match choose_at_random(&group) {
            Some(id) => {
                assert(group@.contains(*id));
                Some(*id)
            },
            None => {
                proof {
                    assert forall|id: PlayerId| !self@.players.contains_key(id) by {
                        if self@.players.contains_key(id) {
                            lemma_some_player_is_lowest(self@.players, id);
                            let low = choose|low: PlayerId|
                                GameView::has_lowest_score(self@.players, low);
                            assert(group@.contains(low));
                        }
                    }
                }
                None
            },
        }
    }
}

/// Of the players of a roster that is not empty, one has the lowest score.
proof fn lemma_some_player_is_lowest(players: Map<PlayerId, PlayerView>, id: PlayerId)
    requires
        players.contains_key(id),
    ensures
        exists|low: PlayerId| GameView::has_lowest_score(players, low),
{
    lemma_lowest_below(players, id, players[id].score - i64::MIN);
}

/// Induction on how far above the least possible score the player `id`
/// stands: either nobody has less, or somebody with less leads to the lowest.
proof fn lemma_lowest_below(players: Map<PlayerId, PlayerView>, id: PlayerId, height: int)
    requires
        players.contains_key(id),
        height == players[id].score - i64::MIN,
    ensures
        exists|low: PlayerId| GameView::has_lowest_score(players, low),
    decreases height,
{
    if GameView::has_lowest_score(players, id) {
    } else {
        let other = choose|other: PlayerId|
            players.contains_key(other) && !((#[trigger] players[other]).score
                >= players[id].score);
        lemma_lowest_below(players, other, players[other].score - i64::MIN);
    }
}

} // verus!
