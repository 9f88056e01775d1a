//! What a batch of intents makes of each player, told player by player.

use vstd::prelude::*;
use crate::game::gamestate::{
    applied_len, apply, apply_all, as_map, distinct_ids, has_id, index_of, lemma_apply_distinct,
    lemma_with_player, lemma_without_player,
};
use crate::game::player::{lemma_origin_is_finite, Player};
use crate::game::snapshot::snapshot_text;
use crate::server::message::Message;

verus! {

/// The player `id` among the entries, if it is there.
pub open spec fn lookup(s: Seq<(u128, Player)>, id: u128) -> Option<Player> {
    if as_map(s).contains_key(id) {
        Some(as_map(s)[id])
    } else {
        None
    }
}

/// What has become of one player after `msgs`, given what it was before:
/// the last intent that adds or removes it decides whether it is there, and
/// the last update since it was added, if any, where it stands. An update
/// for a player that is not there leaves it absent.
pub open spec fn player_after(before: Option<Player>, msgs: Seq<Message>, id: u128) -> Option<
    Player,
>
    decreases msgs.len(),
{
    if msgs.len() == 0 {
        before
    } else {
        let earlier = player_after(before, msgs.drop_last(), id);
        match msgs.last() {
            Message::AddPlayer { id: who } => if who == id {
                Some(Player::origin())
            } else {
                earlier
            },
            Message::RemovePlayer { id: who } => if who == id {
                None
            } else {
                earlier
            },
            Message::UpdatePlayerPosition { id: who, x, y } => if who == id && earlier.is_some() {
                Some(Player::Active(x, y))
            } else {
                earlier
            },
        }
    }
}

/// One intent changes the player it names and no other.
pub proof fn lemma_apply_one(s: Seq<(u128, Player)>, m: Message, id: u128)
    requires
        distinct_ids(s),
    ensures
        distinct_ids(apply(s, m)),
        lookup(apply(s, m), id) == player_after(lookup(s, id), seq![m], id),
{
    lemma_apply_distinct(s, m);
    let one = seq![m];
    assert(one.drop_last().len() == 0);
    assert(one.last() == m);
    assert(player_after(lookup(s, id), one.drop_last(), id) == lookup(s, id));
    match m {
        Message::AddPlayer { id: who } => {
            lemma_with_player(s, who, Player::origin());
        },
        Message::RemovePlayer { id: who } => {
            lemma_without_player(s, who);
        },
        Message::UpdatePlayerPosition { id: who, x, y } => {
            if has_id(s, who) {
                lemma_with_player(s, who, Player::Active(x, y));
            }
        },
    }
}

/// After any batch the world holds exactly the players that were added and
/// not removed since, each with the position that it was given last.
pub proof fn lemma_players_after_batch(s: Seq<(u128, Player)>, msgs: Seq<Message>, id: u128)
    requires
        distinct_ids(s),
    ensures
        distinct_ids(apply_all(s, msgs)),
        lookup(apply_all(s, msgs), id) == player_after(lookup(s, id), msgs, id),
    decreases msgs.len(),
{
    if msgs.len() > 0 {
        let mid = apply_all(s, msgs.drop_last());
        lemma_players_after_batch(s, msgs.drop_last(), id);
        lemma_apply_one(mid, msgs.last(), id);
        let one = seq![msgs.last()];
        assert(one.drop_last().len() == 0);
        assert(one.last() == msgs.last());
        assert(player_after(lookup(mid, id), one.drop_last(), id) == lookup(mid, id));
    }
}

/// Every player stands at a finite position.
pub open spec fn all_finite(s: Seq<(u128, Player)>) -> bool {
    forall|i: int| 0 <= i < s.len() ==> (#[trigger] s[i]).1.is_finite()
}

/// An intent with finite coordinates leaves every player at a finite
/// position.
pub proof fn lemma_apply_keeps_finite(s: Seq<(u128, Player)>, m: Message)
    requires
        all_finite(s),
        m.is_finite(),
    ensures
        all_finite(apply(s, m)),
{
    lemma_origin_is_finite();
    let t = apply(s, m);
    let id = m.spec_player_id();
    if has_id(s, id) {
        let k = index_of(s, id);
        assert forall|i: int| 0 <= i < t.len() implies (#[trigger] t[i]).1.is_finite() by {
            match m {
                Message::RemovePlayer { .. } => {
                    if i < k {
                        assert(t[i] == s[i]);
                    } else {
                        assert(t[i] == s[i + 1]);
                    }
                },
                _ => {
                    if i != k {
                        assert(t[i] == s[i]);
                    }
                },
            }
        }
    } else {
        assert forall|i: int| 0 <= i < t.len() implies (#[trigger] t[i]).1.is_finite() by {
            if i < s.len() {
                assert(t[i] == s[i]);
            }
        }
    }
}

/// A batch of intents with finite coordinates leaves every player at a
/// finite position.
pub proof fn lemma_batch_keeps_finite(s: Seq<(u128, Player)>, msgs: Seq<Message>)
    requires
        all_finite(s),
        forall|i: int| 0 <= i < msgs.len() ==> (#[trigger] msgs[i]).is_finite(),
    ensures
        all_finite(apply_all(s, msgs)),
    decreases msgs.len(),
{
    if msgs.len() > 0 {
        let init = msgs.drop_last();
        assert forall|i: int| 0 <= i < init.len() implies (#[trigger] init[i]).is_finite() by {
            assert(init[i] == msgs[i]);
        }
        lemma_batch_keeps_finite(s, init);
        assert(msgs.last() == msgs[msgs.len() - 1]);
        lemma_apply_keeps_finite(apply_all(s, init), msgs.last());
    }
}

/// An update for a player that is not there is not applied, and the world
/// stays as it was for every player.
pub proof fn lemma_update_of_missing_player(s: Seq<(u128, Player)>, id: u128, x: u32, y: u32)
    requires
        !has_id(s, id),
    ensures
        applied_len(s, seq![Message::UpdatePlayerPosition { id, x, y }]) == 0,
        apply(s, Message::UpdatePlayerPosition { id, x, y }) == s,
{
    let one = seq![Message::UpdatePlayerPosition { id, x, y }];
    assert(one.drop_last().len() == 0);
    assert(apply_all(s, one.drop_last()) == s);
    assert(applied_len(s, one.drop_last()) == 0);
}

/// An empty batch changes neither the world nor its snapshot: taking the
/// snapshot again gives the same text.
pub proof fn lemma_empty_batch_keeps_snapshot(
    s: Seq<(u128, Player)>,
    coords: Seq<(String, String)>,
)
    ensures
        applied_len(s, Seq::empty()) == 0,
        apply_all(s, Seq::empty()) == s,
        snapshot_text(apply_all(s, Seq::empty()), coords) == snapshot_text(s, coords),
{
}

} // verus!
