//! The model of the registry: the boards it holds, keyed by their identifiers, and
//! the index from participants to boards that follows from them.

use vstd::prelude::*;
use crate::board::{AccountId, BlockNumber, BoardId, BoardStruct, Error};

verus! {

/// A board together with the name of the deadline task armed for it, if any.
pub struct Match {
    pub board: BoardStruct,
    pub schedule: Option<Seq<u8>>,
}

/// All that the registry holds.
pub struct PalletState {
    /// The value stored last, if any.
    pub something: Option<u32>,
    /// The counter that keeps two board identifiers from being hashed from the same
    /// bytes.
    pub nonce: u64,
    /// The boards, each under its identifier.
    pub matches: Map<BoardId, Match>,
}

impl PalletState {
    /// `who` takes part in one of the boards.
    pub open spec fn has_player(&self, who: AccountId) -> bool {
        exists|id: BoardId| self.matches.contains_key(id) && #[trigger] self.matches[id].board.plays(who)
    }

    /// A board in which `who` takes part.
    pub open spec fn board_of(&self, who: AccountId) -> BoardId {
        choose|id: BoardId| self.matches.contains_key(id) && #[trigger] self.matches[id].board.plays(who)
    }

    /// The index from participants to boards.
    pub open spec fn player_board(&self) -> Map<AccountId, BoardId> {
        Map::new(|who: AccountId| self.has_player(who), |who: AccountId| self.board_of(who))
    }

    /// Every board stands under its own identifier and is one that play can reach,
    /// and no participant takes part in two boards.
    pub open spec fn wf(&self) -> bool {
        &&& forall|id: BoardId| self.matches.contains_key(id) ==> {
            &&& (#[trigger] self.matches[id]).board.id == id
            &&& self.matches[id].board.wf()
        }
        &&& forall|a: BoardId, b: BoardId, who: AccountId|
            self.matches.contains_key(a) && self.matches.contains_key(b)
                && #[trigger] self.matches[a].board.plays(who) && #[trigger] self.matches[b].board.plays(who) ==> a == b
    }

    /// Why a board between `red` and `blue` under the identifier `id` is not
    /// created, if it is not.
    pub open spec fn create_error(&self, red: AccountId, blue: AccountId, id: BoardId) -> Option<Error> {
        if red == blue {
            Some(Error::NoFakePlay)
        } else if self.has_player(red) || self.has_player(blue) {
            Some(Error::PlayerBoardExists)
        } else if self.matches.contains_key(id) {
            Some(Error::WrongLogic)
        } else {
            None
        }
    }

    /// Why a move of `requester` into `column` on the board `id` is turned down, if
    /// it is.
    pub open spec fn move_error(&self, id: BoardId, requester: AccountId, column: u8) -> Option<Error> {
        if !self.matches.contains_key(id) {
            Some(Error::MatchNotFound)
        } else {
            self.matches[id].board.move_error(requester, column)
        }
    }

    /// Why a move of `sender` into `column` on their own board is turned down, if it
    /// is.
    pub open spec fn play_error(&self, sender: AccountId, column: u8) -> Option<Error> {
        if !self.has_player(sender) {
            Some(Error::NoPlayerBoard)
        } else {
            self.move_error(self.board_of(sender), sender, column)
        }
    }

    /// The state with `board` under its identifier and the deadline task `schedule`
    /// noted for it.
    pub open spec fn with_match(&self, board: BoardStruct, schedule: Option<Seq<u8>>) -> PalletState {
        PalletState { matches: self.matches.insert(board.id, Match { board, schedule }), ..*self }
    }

    /// The state after a board between `red` and `blue` has been opened at `now`.
    pub open spec fn created(&self, red: AccountId, blue: AccountId, id: BoardId, now: BlockNumber) -> PalletState {
        self.with_match(BoardStruct::opened(id, red, blue, now), None)
    }

    /// The state after the turn owner of board `id` has moved into `column` at `now`.
    pub open spec fn moved(&self, id: BoardId, column: int, now: BlockNumber) -> PalletState {
        self.with_match(self.matches[id].board.after_move(column, now), None)
    }

    /// The state after the turn owner of board `id` has forfeited at `now`.
    pub open spec fn forfeited(&self, id: BoardId, now: BlockNumber) -> PalletState {
        self.with_match(self.matches[id].board.after_forfeit(now), None)
    }

    /// The state after the deadline task `schedule` has been noted for board `id`.
    pub open spec fn armed(&self, id: BoardId, schedule: Option<Seq<u8>>) -> PalletState {
        self.with_match(self.matches[id].board, schedule)
    }

    /// The state without board `id`.
    pub open spec fn removed(&self, id: BoardId) -> PalletState {
        PalletState { matches: self.matches.remove(id), ..*self }
    }

    /// Why the stored value is not counted up, if it is not.
    pub open spec fn count_error(&self) -> Option<Error> {
        match self.something {
            None => Some(Error::NoneValue),
            Some(value) => if value == u32::MAX {
                Some(Error::StorageOverflow)
            } else {
                None
            },
        }
    }

    /// The state with `value` stored.
    pub open spec fn stored(&self, value: u32) -> PalletState {
        PalletState { something: Some(value), ..*self }
    }

    /// The state after one nonce has been used.
    pub open spec fn nonce_used(&self) -> PalletState {
        PalletState { nonce: next_nonce(self.nonce), ..*self }
    }

    /// Nothing stored, no board.
    pub open spec fn empty() -> PalletState {
        PalletState { something: None, nonce: 0, matches: Map::empty() }
    }
}

/// The nonce that follows `nonce`; after the greatest comes 0.
pub open spec fn next_nonce(nonce: u64) -> u64 {
    if nonce == u64::MAX {
        0
    } else {
        (nonce + 1) as u64
    }
}

/// Some entry of `s` holds the board `id`.
pub open spec fn listed(s: Seq<Match>, id: BoardId) -> bool {
    exists|i: int| 0 <= i < s.len() && (#[trigger] s[i]).board.id == id
}

/// Where `s` holds the board `id`.
pub open spec fn position(s: Seq<Match>, id: BoardId) -> int {
    choose|i: int| 0 <= i < s.len() && (#[trigger] s[i]).board.id == id
}

/// The entries of `s`, each under the identifier of its board.
pub open spec fn as_map(s: Seq<Match>) -> Map<BoardId, Match> {
    Map::new(|id: BoardId| listed(s, id), |id: BoardId| s[position(s, id)])
}

/// No two entries of `s` hold the same board.
pub open spec fn ids_distinct(s: Seq<Match>) -> bool {
    forall|i: int, j: int| 0 <= i < j < s.len() ==> (#[trigger] s[i]).board.id != (#[trigger] s[j]).board.id
}

/// No participant takes part in two entries of `s`.
pub open spec fn players_apart(s: Seq<Match>) -> bool {
    forall|i: int, j: int| 0 <= i < s.len() && 0 <= j < s.len() && i != j ==> {
        &&& !(#[trigger] s[i]).board.plays((#[trigger] s[j]).board.red)
        &&& !s[i].board.plays(s[j].board.blue)
    }
}

/// Every board of `s` is one that play can reach.
pub open spec fn boards_wf(s: Seq<Match>) -> bool {
    forall|i: int| 0 <= i < s.len() ==> (#[trigger] s[i]).board.wf()
}

/// What makes a sequence of entries a registry.
pub open spec fn entries_wf(s: Seq<Match>) -> bool {
    ids_distinct(s) && players_apart(s) && boards_wf(s)
}

/// An entry is found in the map under the identifier of its board.
pub proof fn lemma_entry(s: Seq<Match>, i: int)
    requires
        ids_distinct(s),
        0 <= i < s.len(),
    ensures
        as_map(s).contains_key(s[i].board.id),
        as_map(s)[s[i].board.id] == s[i],
        position(s, s[i].board.id) == i,
{
    let id = s[i].board.id;
    assert(listed(s, id));
    let p = position(s, id);
    assert(0 <= p < s.len() && s[p].board.id == id);
    if p < i {
        assert(s[p].board.id != s[i].board.id);
    } else if i < p {
        assert(s[i].board.id != s[p].board.id);
    }
}

/// What is in the map is an entry.
pub proof fn lemma_listed(s: Seq<Match>, id: BoardId)
    requires
        as_map(s).contains_key(id),
    ensures
        0 <= position(s, id) < s.len(),
        s[position(s, id)].board.id == id,
        as_map(s)[id] == s[position(s, id)],
{
    assert(listed(s, id));
}

/// A new entry at the end is a new key in the map.
pub proof fn lemma_push(s: Seq<Match>, m: Match)
    requires
        ids_distinct(s),
        !listed(s, m.board.id),
    ensures
        ids_distinct(s.push(m)),
        as_map(s.push(m)) == as_map(s).insert(m.board.id, m),
{
    let t = s.push(m);
    assert forall|i: int, j: int| 0 <= i < j < t.len() implies (#[trigger] t[i]).board.id != (#[trigger] t[j]).board.id by {
        if j < s.len() {
            assert(s[i].board.id != s[j].board.id);
        } else {
            assert(s[i].board.id != m.board.id);
        }
    }
    assert forall|id: BoardId| #[trigger] as_map(t).contains_key(id) <==> as_map(s).insert(m.board.id, m).contains_key(id) by {
        if listed(t, id) {
            let i = position(t, id);
            if i < s.len() {
                assert(s[i].board.id == id);
            }
        }
        if listed(s, id) {
            let i = position(s, id);
            assert(t[i].board.id == id);
        }
        if id == m.board.id {
            assert(t[s.len() as int].board.id == id);
        }
    }
    assert forall|id: BoardId| as_map(t).contains_key(id) implies #[trigger] as_map(t)[id] == as_map(s).insert(m.board.id, m)[id] by {
        let i = position(t, id);
        lemma_listed(t, id);
        if i < s.len() {
            assert(s[i] == t[i]);
            lemma_entry(s, i);
        }
    }
    assert(as_map(t) =~= as_map(s).insert(m.board.id, m));
}

/// An entry replaced by one for the same board is a key written over in the map.
pub proof fn lemma_update(s: Seq<Match>, i: int, m: Match)
    requires
        ids_distinct(s),
        0 <= i < s.len(),
        m.board.id == s[i].board.id,
    ensures
        ids_distinct(s.update(i, m)),
        as_map(s.update(i, m)) == as_map(s).insert(m.board.id, m),
{
    let t = s.update(i, m);
    assert forall|a: int, b: int| 0 <= a < b < t.len() implies (#[trigger] t[a]).board.id != (#[trigger] t[b]).board.id by {
        assert(s[a].board.id != s[b].board.id);
    }
    assert forall|id: BoardId| #[trigger] as_map(t).contains_key(id) <==> as_map(s).insert(m.board.id, m).contains_key(id) by {
        if listed(t, id) {
            let k = position(t, id);
            assert(s[k].board.id == id);
        }
        if listed(s, id) {
            let k = position(s, id);
            assert(t[k].board.id == id);
        }
        if id == m.board.id {
            assert(t[i].board.id == id);
        }
    }
    assert forall|id: BoardId| as_map(t).contains_key(id) implies #[trigger] as_map(t)[id] == as_map(s).insert(m.board.id, m)[id] by {
        let k = position(t, id);
        lemma_listed(t, id);
        lemma_entry(t, k);
        if k != i {
            assert(s[k] == t[k]);
            lemma_entry(s, k);
        }
    }
    assert(as_map(t) =~= as_map(s).insert(m.board.id, m));
}

/// An entry taken out is a key taken out of the map.
pub proof fn lemma_remove(s: Seq<Match>, i: int)
    requires
        ids_distinct(s),
        0 <= i < s.len(),
    ensures
        ids_distinct(s.remove(i)),
        as_map(s.remove(i)) == as_map(s).remove(s[i].board.id),
{
    let t = s.remove(i);
    let gone = s[i].board.id;
    assert forall|a: int, b: int| 0 <= a < b < t.len() implies (#[trigger] t[a]).board.id != (#[trigger] t[b]).board.id by {
        let a0 = if a < i { a } else { a + 1 };
        let b0 = if b < i { b } else { b + 1 };
        assert(t[a] == s[a0] && t[b] == s[b0]);
        assert(s[a0].board.id != s[b0].board.id);
    }
    assert forall|id: BoardId| #[trigger] as_map(t).contains_key(id) <==> as_map(s).remove(gone).contains_key(id) by {
        if listed(t, id) {
            let k = position(t, id);
            let k0 = if k < i { k } else { k + 1 };
            assert(t[k] == s[k0]);
            assert(s[k0].board.id == id);
            if k0 < i {
                assert(s[k0].board.id != s[i].board.id);
            } else {
                assert(s[i].board.id != s[k0].board.id);
            }
        }
        if listed(s, id) && id != gone {
            let k = position(s, id);
            let k1 = if k < i { k } else { k - 1 };
            assert(t[k1] == s[k]);
            assert(t[k1].board.id == id);
        }
    }
    assert forall|id: BoardId| as_map(t).contains_key(id) implies #[trigger] as_map(t)[id] == as_map(s).remove(gone)[id] by {
        let k = position(t, id);
        lemma_listed(t, id);
        let k0 = if k < i { k } else { k + 1 };
        assert(t[k] == s[k0]);
        lemma_entry(s, k0);
    }
    assert(as_map(t) =~= as_map(s).remove(gone));
}

/// A board opened between two participants of no entry, under a new identifier, keeps
/// a registry a registry.
pub proof fn lemma_push_wf(s: Seq<Match>, m: Match)
    requires
        entries_wf(s),
        !listed(s, m.board.id),
        m.board.wf(),
        forall|i: int| 0 <= i < s.len() ==> !(#[trigger] s[i]).board.plays(m.board.red) && !s[i].board.plays(m.board.blue),
    ensures
        entries_wf(s.push(m)),
{
    lemma_push(s, m);
    let t = s.push(m);
    assert forall|i: int, j: int| 0 <= i < t.len() && 0 <= j < t.len() && i != j implies {
        &&& !(#[trigger] t[i]).board.plays((#[trigger] t[j]).board.red)
        &&& !t[i].board.plays(t[j].board.blue)
    } by {
        if i < s.len() && j < s.len() {
            assert(!s[i].board.plays(s[j].board.red) && !s[i].board.plays(s[j].board.blue));
        } else if i < s.len() {
            assert(!s[i].board.plays(m.board.red) && !s[i].board.plays(m.board.blue));
        } else {
            assert(!s[j].board.plays(m.board.red) && !s[j].board.plays(m.board.blue));
        }
    }
    assert forall|i: int| 0 <= i < t.len() implies (#[trigger] t[i]).board.wf() by {
        if i < s.len() {
            assert(s[i].board.wf());
        }
    }
}

/// A board replaced by a later stage of itself keeps a registry a registry.
pub proof fn lemma_update_wf(s: Seq<Match>, i: int, m: Match)
    requires
        entries_wf(s),
        0 <= i < s.len(),
        m.board.wf(),
        m.board.id == s[i].board.id,
        m.board.red == s[i].board.red,
        m.board.blue == s[i].board.blue,
    ensures
        entries_wf(s.update(i, m)),
{
    lemma_update(s, i, m);
    let t = s.update(i, m);
    assert forall|a: int, b: int| 0 <= a < t.len() && 0 <= b < t.len() && a != b implies {
        &&& !(#[trigger] t[a]).board.plays((#[trigger] t[b]).board.red)
        &&& !t[a].board.plays(t[b].board.blue)
    } by {
        assert(!s[a].board.plays(s[b].board.red) && !s[a].board.plays(s[b].board.blue));
    }
    assert forall|a: int| 0 <= a < t.len() implies (#[trigger] t[a]).board.wf() by {
        if a != i {
            assert(s[a].board.wf());
        }
    }
}

/// A board taken out keeps a registry a registry.
pub proof fn lemma_remove_wf(s: Seq<Match>, i: int)
    requires
        entries_wf(s),
        0 <= i < s.len(),
    ensures
        entries_wf(s.remove(i)),
{
    lemma_remove(s, i);
    let t = s.remove(i);
    assert forall|a: int, b: int| 0 <= a < t.len() && 0 <= b < t.len() && a != b implies {
        &&& !(#[trigger] t[a]).board.plays((#[trigger] t[b]).board.red)
        &&& !t[a].board.plays(t[b].board.blue)
    } by {
        let a0 = if a < i { a } else { a + 1 };
        let b0 = if b < i { b } else { b + 1 };
        assert(t[a] == s[a0] && t[b] == s[b0]);
        assert(!s[a0].board.plays(s[b0].board.red) && !s[a0].board.plays(s[b0].board.blue));
    }
    assert forall|a: int| 0 <= a < t.len() implies (#[trigger] t[a]).board.wf() by {
        let a0 = if a < i { a } else { a + 1 };
        assert(t[a] == s[a0]);
        assert(s[a0].board.wf());
    }
}

/// The map of a registry is well formed.
pub proof fn lemma_state_wf(s: Seq<Match>, something: Option<u32>, nonce: u64)
    requires
        entries_wf(s),
    ensures
        (PalletState { something, nonce, matches: as_map(s) }).wf(),
{
    let st = PalletState { something, nonce, matches: as_map(s) };
    assert forall|id: BoardId| st.matches.contains_key(id) implies {
        &&& (#[trigger] st.matches[id]).board.id == id
        &&& st.matches[id].board.wf()
    } by {
        lemma_listed(s, id);
    }
    assert forall|a: BoardId, b: BoardId, who: AccountId|
        st.matches.contains_key(a) && st.matches.contains_key(b)
            && #[trigger] st.matches[a].board.plays(who) && #[trigger] st.matches[b].board.plays(who) implies a == b by {
        lemma_listed(s, a);
        lemma_listed(s, b);
        let i = position(s, a);
        let j = position(s, b);
        if i != j {
            assert(!s[i].board.plays(s[j].board.red));
            assert(!s[i].board.plays(s[j].board.blue));
            assert(!s[j].board.plays(s[i].board.red));
            assert(!s[j].board.plays(s[i].board.blue));
        }
    }
}

/// A participant of an entry is in the index, under that entry's board.
pub proof fn lemma_player_listed(s: Seq<Match>, i: int, who: AccountId, something: Option<u32>, nonce: u64)
    requires
        entries_wf(s),
        0 <= i < s.len(),
        s[i].board.plays(who),
    ensures
        (PalletState { something, nonce, matches: as_map(s) }).has_player(who),
        (PalletState { something, nonce, matches: as_map(s) }).board_of(who) == s[i].board.id,
{
    let st = PalletState { something, nonce, matches: as_map(s) };
    lemma_entry(s, i);
    lemma_state_wf(s, something, nonce);
    assert(st.matches.contains_key(s[i].board.id) && st.matches[s[i].board.id].board.plays(who));
}

/// A participant of no entry is not in the index.
pub proof fn lemma_player_absent(s: Seq<Match>, who: AccountId, something: Option<u32>, nonce: u64)
    requires
        forall|i: int| 0 <= i < s.len() ==> !(#[trigger] s[i]).board.plays(who),
    ensures
        !(PalletState { something, nonce, matches: as_map(s) }).has_player(who),
{
    let st = PalletState { something, nonce, matches: as_map(s) };
    if st.has_player(who) {
        let id = st.board_of(who);
        lemma_listed(s, id);
        assert(s[position(s, id)].board.plays(who));
    }
}

} // verus!
