//! The text of a snapshot: one object with a member per player, the
//! player's id as the key and the pair of its coordinates as the value.

use vstd::prelude::*;
use crate::game::player::Player;
use crate::ident::id_text;

verus! {

/// One member of the snapshot: the quoted id, a colon and the pair of
/// coordinate texts in square brackets.
pub open spec fn entry_text(id: u128, x: Seq<char>, y: Seq<char>) -> Seq<char> {
    seq!['"'] + id_text(id) + seq!['"', ':', '['] + x + seq![','] + y + seq![']']
}

/// The members of the snapshot in the order of `entries`, separated by
/// commas. `coords` holds, entry by entry, the texts of the two coordinates.
pub open spec fn entries_text(
    entries: Seq<(u128, Player)>,
    coords: Seq<(String, String)>,
) -> Seq<char>
    recommends
        coords.len() == entries.len(),
    decreases entries.len(),
{
    if entries.len() == 0 {
        Seq::empty()
    } else {
        let head = entries_text(entries.drop_last(), coords.drop_last());
        let sep = if entries.len() == 1 {
            Seq::empty()
        } else {
            seq![',']
        };
        head + sep + entry_text(entries.last().0, coords.last().0@, coords.last().1@)
    }
}

/// The whole snapshot. Where the coordinate texts do not match the entries
/// one for one, the snapshot is the empty object.
pub open spec fn snapshot_text(
    entries: Seq<(u128, Player)>,
    coords: Seq<(String, String)>,
) -> Seq<char> {
    if coords.len() == entries.len() {
        seq!['{'] + entries_text(entries, coords) + seq!['}']
    } else {
        seq!['{', '}']
    }
}

/// The snapshot of a world without players is the empty object.
pub proof fn lemma_empty_snapshot(coords: Seq<(String, String)>)
    ensures
        snapshot_text(Seq::empty(), coords) == seq!['{', '}'],
{
    let none = Seq::<(u128, Player)>::empty();
    if coords.len() == 0 {
        assert(entries_text(none, coords) == Seq::<char>::empty());
        assert(seq!['{'] + Seq::<char>::empty() + seq!['}'] =~= seq!['{', '}']);
    }
}

} // verus!
