//! The world state: the connected players, each with its position.

use std::collections::VecDeque;
use vstd::prelude::*;
use crate::game::history::{lemma_players_after_batch, lookup, player_after};
use crate::game::player::Player;
use crate::game::snapshot::{entries_text, entry_text, snapshot_text};
use crate::ident::id_to_text;
use crate::server::message::Message;

verus! {

/// No id occurs twice among the entries.
pub open spec fn distinct_ids(s: Seq<(u128, Player)>) -> bool {
    forall|i: int, j: int| 0 <= i < j < s.len() ==> (#[trigger] s[i]).0 != (#[trigger] s[j]).0
}

/// Some entry is about `id`.
pub open spec fn has_id(s: Seq<(u128, Player)>, id: u128) -> bool {
    exists|i: int| 0 <= i < s.len() && (#[trigger] s[i]).0 == id
}

/// The place of the entry about `id`.
pub open spec fn index_of(s: Seq<(u128, Player)>, id: u128) -> int {
    choose|i: int| 0 <= i < s.len() && (#[trigger] s[i]).0 == id
}

/// The entries as a mapping from id to player.
pub open spec fn as_map(s: Seq<(u128, Player)>) -> Map<u128, Player> {
    Map::new(|id: u128| has_id(s, id), |id: u128| s[index_of(s, id)].1)
}

/// The entries with `id` set to `p`: in place where `id` is present, at the
/// end where it is not.
pub open spec fn with_player(s: Seq<(u128, Player)>, id: u128, p: Player) -> Seq<(u128, Player)> {
    if has_id(s, id) {
        s.update(index_of(s, id), (id, p))
    } else {
        s.push((id, p))
    }
}

/// The entries without the one about `id`; the others keep their order.
pub open spec fn without_player(s: Seq<(u128, Player)>, id: u128) -> Seq<(u128, Player)> {
    if has_id(s, id) {
        s.remove(index_of(s, id))
    } else {
        s
    }
}

/// Whether `m` can be applied: a position update needs its player.
pub open spec fn applies(s: Seq<(u128, Player)>, m: Message) -> bool {
    match m {
        Message::UpdatePlayerPosition { id, .. } => has_id(s, id),
        _ => true,
    }
}

/// The entries after `m`. An update for a player that is not there changes
/// nothing.
pub open spec fn apply(s: Seq<(u128, Player)>, m: Message) -> Seq<(u128, Player)> {
    match m {
        Message::AddPlayer { id } => with_player(s, id, Player::origin()),
        Message::RemovePlayer { id } => without_player(s, id),
        Message::UpdatePlayerPosition { id, x, y } => if has_id(s, id) {
            with_player(s, id, Player::Active(x, y))
        } else {
            s
        },
    }
}

/// The entries after all of `msgs`, first to last.
pub open spec fn apply_all(s: Seq<(u128, Player)>, msgs: Seq<Message>) -> Seq<(u128, Player)>
    decreases msgs.len(),
{
    if msgs.len() == 0 {
        s
    } else {
        apply(apply_all(s, msgs.drop_last()), msgs.last())
    }
}

/// How many of `msgs` are applied, first to last, before one cannot be: the
/// place of the first update whose player is missing, or the length of `msgs`
/// where there is none.
pub open spec fn applied_len(s: Seq<(u128, Player)>, msgs: Seq<Message>) -> int
    decreases msgs.len(),
{
    if msgs.len() == 0 {
        0
    } else {
        let before = applied_len(s, msgs.drop_last());
        if before == msgs.len() - 1 && applies(apply_all(s, msgs.drop_last()), msgs.last()) {
            msgs.len() as int
        } else {
            before
        }
    }
}

/// What an update says when its player is missing.
pub open spec fn not_found_text() -> Seq<char> {
    "Could not move player as they do not exist."@
}

/// An entry found at place `i` is the one that the mapping holds for its id.
pub proof fn lemma_index_of(s: Seq<(u128, Player)>, i: int)
    requires
        distinct_ids(s),
        0 <= i < s.len(),
    ensures
        has_id(s, s[i].0),
        index_of(s, s[i].0) == i,
        as_map(s).contains_key(s[i].0),
        as_map(s)[s[i].0] == s[i].1,
{
    let id = s[i].0;
    assert(has_id(s, id));
    let j = index_of(s, id);
    assert(0 <= j < s.len() && s[j].0 == id);
    if j != i {
        if j < i {
            assert(s[j].0 != s[i].0);
        } else {
            assert(s[i].0 != s[j].0);
        }
    }
}

/// Setting a player keeps the ids distinct and inserts into the mapping.
pub proof fn lemma_with_player(s: Seq<(u128, Player)>, id: u128, p: Player)
    requires
        distinct_ids(s),
    ensures
        distinct_ids(with_player(s, id, p)),
        as_map(with_player(s, id, p)) == as_map(s).insert(id, p),
{
    let t = with_player(s, id, p);
    let k = if has_id(s, id) { index_of(s, id) } else { s.len() as int };
    assert(t.len() > k >= 0 && t[k] == (id, p));
    assert forall|i: int| 0 <= i < t.len() && i != k implies 0 <= i < s.len() && #[trigger] t[i]
        == s[i] && s[i].0 != id by {
        if s[i].0 == id {
            lemma_index_of(s, i);
        }
    }
    assert forall|i: int, j: int| 0 <= i < j < t.len() implies (#[trigger] t[i]).0 != (
    #[trigger] t[j]).0 by {
        if i != k && j != k {
            assert(s[i].0 != s[j].0);
        }
    }
    lemma_index_of(t, k);
    assert forall|key: u128| #[trigger]
        as_map(t).contains_key(key) <==> as_map(s).insert(id, p).contains_key(key) by {
        if has_id(t, key) && key != id {
            let i = index_of(t, key);
            assert(s[i].0 == key);
        }
        if has_id(s, key) && key != id {
            let i = index_of(s, key);
            assert(t[i].0 == key);
        }
    }
    assert forall|key: u128| #[trigger] as_map(t).contains_key(key) implies as_map(t)[key]
        == as_map(s).insert(id, p)[key] by {
        let i = index_of(t, key);
        lemma_index_of(t, i);
        if key != id {
            lemma_index_of(s, i);
        }
    }
    assert(as_map(t) =~= as_map(s).insert(id, p));
}

/// Taking a player out keeps the ids distinct and removes from the mapping.
pub proof fn lemma_without_player(s: Seq<(u128, Player)>, id: u128)
    requires
        distinct_ids(s),
    ensures
        distinct_ids(without_player(s, id)),
        as_map(without_player(s, id)) == as_map(s).remove(id),
{
    let t = without_player(s, id);
    if has_id(s, id) {
        let k = index_of(s, id);
        assert forall|i: int| 0 <= i < t.len() implies #[trigger] t[i] == s[if i < k {
            i
        } else {
            i + 1
        }] by {}
        assert forall|i: int, j: int| 0 <= i < j < t.len() implies (#[trigger] t[i]).0 != (
        #[trigger] t[j]).0 by {
            let a = if i < k { i } else { i + 1 };
            let b = if j < k { j } else { j + 1 };
            assert(s[a].0 != s[b].0);
        }
        assert forall|key: u128| #[trigger]
            as_map(t).contains_key(key) <==> as_map(s).remove(id).contains_key(key) by {
            if has_id(t, key) {
                let i = index_of(t, key);
                let a = if i < k { i } else { i + 1 };
                assert(s[a].0 == key);
                lemma_index_of(s, a);
            }
            if has_id(s, key) && key != id {
                let a = index_of(s, key);
                let i = if a < k { a } else { a - 1 };
                assert(t[i].0 == key);
            }
        }
        assert forall|key: u128| #[trigger] as_map(t).contains_key(key) implies as_map(t)[key]
            == as_map(s).remove(id)[key] by {
            let i = index_of(t, key);
            let a = if i < k { i } else { i + 1 };
            lemma_index_of(t, i);
            assert(s[a] == t[i]);
            lemma_index_of(s, a);
        }
        assert(as_map(t) =~= as_map(s).remove(id));
    } else {
        assert(as_map(s) =~= as_map(s).remove(id));
    }
}

/// Applying an intent keeps the ids distinct.
pub proof fn lemma_apply_distinct(s: Seq<(u128, Player)>, m: Message)
    requires
        distinct_ids(s),
    ensures
        distinct_ids(apply(s, m)),
{
    match m {
        Message::AddPlayer { id } => lemma_with_player(s, id, Player::origin()),
        Message::RemovePlayer { id } => lemma_without_player(s, id),
        Message::UpdatePlayerPosition { id, x, y } => lemma_with_player(
            s,
            id,
            Player::Active(x, y),
        ),
    }
}

/// Once an intent could not be applied, a longer batch applies no more.
pub proof fn lemma_applied_len_stuck(s: Seq<(u128, Player)>, msgs: Seq<Message>, n: int)
    requires
        0 <= n <= msgs.len(),
        applied_len(s, msgs.take(n)) < n,
    ensures
        applied_len(s, msgs) == applied_len(s, msgs.take(n)),
    decreases msgs.len() - n,
{
    if n == msgs.len() {
        assert(msgs.take(n) =~= msgs);
    } else {
        assert(msgs.take(n + 1).drop_last() =~= msgs.take(n));
        lemma_applied_len_stuck(s, msgs, n + 1);
    }
}

/// The connected players, each with its position. Entries stand in the
/// order in which their players first joined.
pub struct GameState {
    players: Vec<(u128, Player)>,
}

impl View for GameState {
    type V = Map<u128, Player>;

    open spec fn view(&self) -> Map<u128, Player> {
        as_map(self.entries())
    }
}

impl GameState {
    /// The entries, in order.
    pub closed spec fn entries(&self) -> Seq<(u128, Player)> {
        self.players@
    }

    /// No id occurs twice.
    pub open spec fn wf(&self) -> bool {
        distinct_ids(self.entries())
    }

    /// A world without players.
    pub fn new() -> (state: Self)
        ensures
            state.wf(),
            state.entries() == Seq::<(u128, Player)>::empty(),
            state@ == Map::<u128, Player>::empty(),
    {
        let state = Self { players: Vec::new() };
        assert(state@ =~= Map::<u128, Player>::empty());
        state
    }

    /// How many players there are.
    pub fn len(&self) -> (n: usize)
        ensures
            n == self.entries().len(),
    {
        self.players.len()
    }

    /// The entries in order: the id and the two coordinates of each player.
    pub fn players(&self) -> (list: Vec<(u128, u32, u32)>)
        ensures
            list@.len() == self.entries().len(),
            forall|i: int|
                0 <= i < list@.len() ==> #[trigger] list@[i] == (
                    self.entries()[i].0,
                    self.entries()[i].1.spec_position().0,
                    self.entries()[i].1.spec_position().1,
                ),
    {
        let mut list: Vec<(u128, u32, u32)> = Vec::new();
        let mut i: usize = 0;
        while i < self.players.len()
            invariant
                0 <= i <= self.players@.len(),
                list@.len() == i,
                forall|j: int|
                    0 <= j < i ==> #[trigger] list@[j] == (
                        self.players@[j].0,
                        self.players@[j].1.spec_position().0,
                        self.players@[j].1.spec_position().1,
                    ),
            decreases self.players@.len() - i,
        {
            let (x, y) = self.players[i].1.position();
            list.push((self.players[i].0, x, y));
            i += 1;
        }
        list
    }

    /// The place of the entry about `id`, if there is one.
    fn find(&self, id: u128) -> (found: Option<usize>)
        requires
            self.wf(),
        ensures
            match found {
                Some(i) => i < self.entries().len() && self.entries()[i as int].0 == id
                    && has_id(self.entries(), id) && index_of(self.entries(), id) == i,
                None => !has_id(self.entries(), id),
            },
    {
        let mut i: usize = 0;
        while i < self.players.len()
            invariant
                0 <= i <= self.players@.len(),
                self.wf(),
                forall|j: int| 0 <= j < i ==> (#[trigger] self.players@[j]).0 != id,
            decreases self.players@.len() - i,
        {
            if self.players[i].0 == id {
                proof {
                    lemma_index_of(self.players@, i as int);
                }
                return Some(i);
            }
            i += 1;
        }
        None
    }

    /// Whether `id` is a player of this world.
    pub fn contains(&self, id: u128) -> (present: bool)
        requires
            self.wf(),
        ensures
            present == self@.contains_key(id),
    {
        self.find(id).is_some()
    }

    /// The player with this id, if it is there.
    pub fn get(&self, id: u128) -> (player: Option<Player>)
        requires
            self.wf(),
        ensures
            player == (if self@.contains_key(id) {
                Some(self@[id])
            } else {
                None
            }),
    {
        match self.find(id) {
            Some(i) => Some(self.players[i].1),
            None => None,
        }
    }

    /// Sets `id` to `p`, in place or at the end.
    fn put(&mut self, id: u128, p: Player)
        requires
            old(self).wf(),
        ensures
            final(self).wf(),
            final(self).entries() == with_player(old(self).entries(), id, p),
            final(self)@ == old(self)@.insert(id, p),
    {
        proof {
            lemma_with_player(self.players@, id, p);
        }
        match self.find(id) {
            Some(i) => {
                self.players.set(i, (id, p));
            },
            None => {
                self.players.push((id, p));
            },
        }
    }

    /// Adds the player `id` at the origin. A player that is already there is
    /// put back to the origin and keeps its place.
    pub fn add_player(&mut self, id: u128)
        requires
            old(self).wf(),
        ensures
            final(self).wf(),
            final(self).entries() == with_player(old(self).entries(), id, Player::origin()),
            final(self)@ == old(self)@.insert(id, Player::origin()),
    {
        self.put(id, Player::Active(0, 0));
    }

    /// Removes the player `id`. Nothing changes where it is not there.
    pub fn remove_players(&mut self, id: u128)
        requires
            old(self).wf(),
        ensures
            final(self).wf(),
            final(self).entries() == without_player(old(self).entries(), id),
            final(self)@ == old(self)@.remove(id),
    {
        proof {
            lemma_without_player(self.players@, id);
        }
        match self.find(id) {
            Some(i) => {
                self.players.remove(i);
            },
            None => {},
        }
    }

    /// Moves the player `id` to `(x, y)`. Fails, and changes nothing, where
    /// the player is not there.
    pub fn update_player_position(&mut self, id: u128, x: u32, y: u32) -> (result: Result<
        (),
        String,
    >)
        requires
            old(self).wf(),
        ensures
            final(self).wf(),
            result.is_ok() <==> old(self)@.contains_key(id),
            result.is_ok() ==> final(self).entries() == with_player(
                old(self).entries(),
                id,
                Player::Active(x, y),
            ) && final(self)@ == old(self)@.insert(id, Player::Active(x, y)),
            result.is_err() ==> final(self).entries() == old(self).entries()
                && result.unwrap_err()@ == not_found_text(),
            final(self).entries() == apply(
                old(self).entries(),
                Message::UpdatePlayerPosition { id, x, y },
            ),
    {
        match self.find(id) {
            Some(i) => {
                let mut player = self.players[i].1;
                let moved = Player::move_player(&mut player, x, y);
                self.put(id, player);
                moved
            },
            None => Err(String::from_str("Could not move player as they do not exist.")),
        }
    }

    /// The snapshot of this world. `coords` holds, entry by entry and in the
    /// order of `players`, the texts of the two coordinates. Where it does
    /// not match the entries one for one, the snapshot is the empty object.
    pub fn get_state(&self, coords: &Vec<(String, String)>) -> (text: String)
        ensures
            text@ == snapshot_text(self.entries(), coords@),
    {
        proof {
            reveal_strlit("{}");
            reveal_strlit("{");
            reveal_strlit("}");
        }
        if coords.len() != self.players.len() {
            assert("{}"@ =~= seq!['{', '}']);
            return String::from_str("{}");
        }
        let mut text = String::from_str("{");
        assert("{"@ =~= seq!['{']);
        let mut i: usize = 0;
        assert(self.players@.take(0) =~= Seq::empty());
        assert(text@ =~= seq!['{'] + entries_text(self.players@.take(0), coords@.take(0)));
        while i < self.players.len()
            invariant
                0 <= i <= self.players@.len(),
                coords@.len() == self.players@.len(),
                text@ == seq!['{'] + entries_text(
                    self.players@.take(i as int),
                    coords@.take(i as int),
                ),
            decreases self.players@.len() - i,
        {
            let ghost before = text@;
            if i > 0 {
                text.append(",");
            }
            let key = id_to_text(self.players[i].0);
            text.append("\"");
            text.append(key.as_str());
            text.append("\":[");
            text.append(coords[i].0.as_str());
            text.append(",");
            text.append(coords[i].1.as_str());
            text.append("]");
            proof {
                let done = self.players@.take(i + 1);
                let texts = coords@.take(i + 1);
                assert(done.drop_last() =~= self.players@.take(i as int));
                assert(texts.drop_last() =~= coords@.take(i as int));
                assert(done.last() == self.players@[i as int]);
                assert(texts.last() == coords@[i as int]);
                let sep = if i == 0 { Seq::<char>::empty() } else { seq![','] };
                reveal_strlit(",");
                reveal_strlit("\"");
                reveal_strlit("\":[");
                reveal_strlit("]");
                assert(","@ =~= seq![',']);
                assert("\""@ =~= seq!['"']);
                assert("\":["@ =~= seq!['"', ':', '[']);
                assert("]"@ =~= seq![']']);
                assert(text@ =~= before + sep + entry_text(
                    self.players@[i as int].0,
                    coords@[i as int].0@,
                    coords@[i as int].1@,
                ));
                assert(text@ =~= seq!['{'] + entries_text(done, texts));
            }
            i += 1;
        }
        assert(self.players@.take(i as int) =~= self.players@);
        assert(coords@.take(i as int) =~= coords@);
        text.append("}");
        assert("}"@ =~= seq!['}']);
        text
    }

    /// Applies `messages` first to last and stops at the first update whose
    /// player is not there: that one and those after it are not applied.
    pub fn process_messages(&mut self, messages: VecDeque<Message>) -> (result: Result<(), String>)
        requires
            old(self).wf(),
        ensures
            final(self).wf(),
            final(self).entries() == apply_all(
                old(self).entries(),
                messages@.take(applied_len(old(self).entries(), messages@)),
            ),
            result.is_ok() <==> applied_len(old(self).entries(), messages@) == messages@.len(),
            result.is_err() ==> result.unwrap_err()@ == not_found_text(),
            forall|id: u128| #[trigger]
                lookup(final(self).entries(), id) == player_after(
                    lookup(old(self).entries(), id),
                    messages@.take(applied_len(old(self).entries(), messages@)),
                    id,
                ),
    {
        let ghost start = self.entries();
        let mut i: usize = 0;
        assert(messages@.take(0) =~= Seq::empty());
        while i < messages.len()
            invariant
                0 <= i <= messages@.len(),
                self.wf(),
                start == old(self).entries(),
                distinct_ids(start),
                self.entries() == apply_all(start, messages@.take(i as int)),
                applied_len(start, messages@.take(i as int)) == i,
            decreases messages@.len() - i,
        {
            let message = messages[i];
            proof {
                assert(messages@.take(i + 1).drop_last() =~= messages@.take(i as int));
                assert(messages@.take(i + 1).last() == message);
            }
            match message {
                Message::AddPlayer { id } => self.add_player(id),
                Message::RemovePlayer { id } => self.remove_players(id),
                Message::UpdatePlayerPosition { id, x, y } => {
                    match self.update_player_position(id, x, y) {
                        Ok(()) => {},
                        Err(e) => {
                            proof {
                                let upto = messages@.take(i + 1);
                                assert(!applies(apply_all(start, upto.drop_last()), upto.last()));
                                assert(applied_len(start, upto.drop_last()) == i);
                                assert(applied_len(start, upto) == i);
                                lemma_applied_len_stuck(start, messages@, i + 1);
                                assert forall|who: u128| #[trigger]
                                    lookup(self.entries(), who) == player_after(
                                        lookup(start, who),
                                        messages@.take(i as int),
                                        who,
                                    ) by {
                                    lemma_players_after_batch(start, messages@.take(i as int), who);
                                }
                            }
                            return Err(e);
                        },
                    }
                },
            }
            i += 1;
        }
        assert(messages@.take(i as int) =~= messages@);
        assert forall|who: u128| #[trigger]
            lookup(self.entries(), who) == player_after(lookup(start, who), messages@, who) by {
            lemma_players_after_batch(start, messages@, who);
        }
        Ok(())
    }
}

impl Default for GameState {
    fn default() -> (state: Self)
        ensures
            state.wf(),
            state.entries() == Seq::<(u128, Player)>::empty(),
    {
        Self::new()
    }
}

} // verus!
