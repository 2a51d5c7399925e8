//! The registry of boards and the operations on it: opening a board, taking a turn,
//! ending a turn whose deadline has passed, and removing a finished board.

use vstd::prelude::*;
use vstd::bytes::{lemma_auto_spec_u64_to_from_le_bytes, spec_u64_to_le_bytes};
use crate::board::{AccountId, BlockNumber, BoardId, BoardStruct, Error, CLEANUP_BOARDS_AFTER, MAX_BLOCKS_PER_TURN};
use crate::encoding::{decode_seed, encode_hash_input, encode_nonce, hash_blake2_256, random_hash};
use crate::registry::{
    as_map, entries_wf, lemma_entry, lemma_player_absent, lemma_player_listed, lemma_push, lemma_push_wf,
    lemma_remove, lemma_remove_wf, lemma_state_wf, lemma_update, lemma_update_wf, listed, Match, PalletState,
};
use crate::schedule::{
    end_turn, name_view, schedule_end_turn, schedule_something, store_later, Event, ForcedEnd, Schedule,
};

verus! {

/// A board as the registry keeps it, with the name of its armed deadline task.
struct Entry {
    board: BoardStruct,
    schedule: Option<Vec<u8>>,
}

impl View for Entry {
    type V = Match;

    closed spec fn view(&self) -> Match {
        Match { board: self.board, schedule: name_view(self.schedule) }
    }
}

/// The registry: every board that is being played or awaits its removal.
pub struct Pallet {
    something: Option<u32>,
    nonce: u64,
    entries: Vec<Entry>,
}

impl View for Pallet {
    type V = PalletState;

    closed spec fn view(&self) -> PalletState {
        PalletState { something: self.something, nonce: self.nonce, matches: as_map(self.listing()) }
    }
}

/// The nonce of a registry that has not hashed an identifier yet.
#[allow(non_snake_case)]
pub fn NonceDefault() -> (nonce: u64)
    ensures
        nonce == 0,
{
    0
}

/// Whether two identifiers are the same.
fn same_id(a: &BoardId, b: &BoardId) -> (same: bool)
    ensures
        same == (*a == *b),
{
    let mut i: usize = 0;
    while i < 32
        invariant
            i <= 32,
            forall|k: int| 0 <= k < i ==> a[k] == b[k],
        decreases 32 - i,
    {
        if a[i] != b[i] {
            return false;
        }
        i += 1;
    }
    assert(*a =~= *b);
    true
}

impl Pallet {
    /// The entries in the order in which they are kept.
    pub closed spec fn listing(&self) -> Seq<Match> {
        Seq::new(self.entries@.len(), |i: int| self.entries@[i]@)
    }

    /// The registry holds no board twice, no participant in two boards, and only
    /// boards that play can reach.
    pub closed spec fn wf(&self) -> bool {
        entries_wf(self.listing())
    }

    /// What `wf` means for the state.
    pub proof fn lemma_wf(&self)
        requires
            self.wf(),
        ensures
            self@.wf(),
    {
        lemma_state_wf(self.listing(), self.something, self.nonce);
    }

    /// A registry without boards.
    pub fn new() -> (pallet: Pallet)
        ensures
            pallet.wf(),
            pallet@ == PalletState::empty(),
    {
        let pallet = Pallet { something: None, nonce: NonceDefault(), entries: Vec::new() };
        proof {
            assert(pallet.listing() =~= Seq::<Match>::empty());
            assert(as_map(pallet.listing()) =~= Map::<BoardId, Match>::empty());
        }
        pallet
    }

    /// Where the board `id` is kept.
    fn find(&self, id: &BoardId) -> (found: Option<usize>)
        ensures
            match found {
                Some(i) => i < self.listing().len() && self.listing()[i as int].board.id == *id,
                None => !listed(self.listing(), *id),
            },
    {
        let mut i: usize = 0;
        while i < self.entries.len()
            invariant
                i <= self.entries@.len(),
                forall|k: int| 0 <= k < i ==> (#[trigger] self.listing()[k]).board.id != *id,
            decreases self.entries@.len() - i,
        {
            if same_id(&self.entries[i].board.id, id) {
                return Some(i);
            }
            i += 1;
        }
        None
    }

    /// Where the board of `who` is kept.
    fn find_player(&self, who: AccountId) -> (found: Option<usize>)
        ensures
            match found {
                Some(i) => i < self.listing().len() && self.listing()[i as int].board.plays(who),
                None => forall|k: int| 0 <= k < self.listing().len() ==> !(#[trigger] self.listing()[k]).board.plays(who),
            },
    {
        let mut i: usize = 0;
        while i < self.entries.len()
            invariant
                i <= self.entries@.len(),
                forall|k: int| 0 <= k < i ==> !(#[trigger] self.listing()[k]).board.plays(who),
            decreases self.entries@.len() - i,
        {
            if self.entries[i].board.red == who || self.entries[i].board.blue == who {
                return Some(i);
            }
            i += 1;
        }
        None
    }

    /// The value stored last, if any.
    pub fn something(&self) -> (value: Option<u32>)
        ensures
            value == self@.something,
    {
        self.something
    }

    /// The board `id`, if the registry holds it.
    pub fn boards(&self, id: &BoardId) -> (board: Option<BoardStruct>)
        requires
            self.wf(),
        ensures
            board == if self@.matches.contains_key(*id) {
                Some(self@.matches[*id].board)
            } else {
                None
            },
    {
        match self.find(id) {
            Some(i) => {
                proof {
                    lemma_entry(self.listing(), i as int);
                }
                Some(self.entries[i].board)
            },
            None => None,
        }
    }

    /// The name of the deadline task armed for board `id`, if there is one.
    pub fn board_schedules(&self, id: &BoardId) -> (name: Option<Vec<u8>>)
        requires
            self.wf(),
        ensures
            name_view(name) == if self@.matches.contains_key(*id) {
                self@.matches[*id].schedule
            } else {
                None
            },
    {
        match self.find(id) {
            Some(i) => {
                proof {
                    lemma_entry(self.listing(), i as int);
                }
                match &self.entries[i].schedule {
                    Some(bytes) => Some(bytes.clone()),
                    None => None,
                }
            },
            None => None,
        }
    }

    /// The board in which `who` takes part, if there is one.
    pub fn player_board(&self, who: AccountId) -> (id: Option<BoardId>)
        requires
            self.wf(),
        ensures
            id == if self@.has_player(who) {
                Some(self@.board_of(who))
            } else {
                None
            },
            id is Some <==> self@.player_board().contains_key(who),
            id is Some ==> self@.player_board()[who] == id->0 && self@.matches.contains_key(id->0),
    {
        match self.find_player(who) {
            Some(i) => {
                proof {
                    lemma_player_listed(self.listing(), i as int, who, self.something, self.nonce);
                    lemma_entry(self.listing(), i as int);
                }
                Some(self.entries[i].board.id)
            },
            None => {
                proof {
                    lemma_player_absent(self.listing(), who, self.something, self.nonce);
                }
                None
            },
        }
    }

    /// Stores `something` on behalf of `who`, and returns the event that tells of it.
    pub fn do_something(&mut self, who: AccountId, something: u32) -> (event: Event)
        ensures
            final(self)@ == old(self)@.stored(something),
            event == Event::SomethingStored(something, who),
            old(self).wf() ==> final(self).wf(),
    {
        self.something = Some(something);
        Event::SomethingStored(something, who)
    }

    /// Counts the stored value up by one. Nothing changes when no value has been
    /// stored or the value cannot grow.
    pub fn cause_error(&mut self) -> (counted: Result<(), Error>)
        ensures
            match counted {
                Ok(()) => {
                    &&& old(self)@.count_error() is None
                    &&& final(self)@ == old(self)@.stored((old(self)@.something->0 + 1) as u32)
                },
                Err(e) => old(self)@.count_error() == Some(e) && final(self)@ == old(self)@,
            },
            old(self).wf() ==> final(self).wf(),
    {
        match self.something {
            None => Err(Error::NoneValue),
            Some(old) => match old.checked_add(1) {
                None => Err(Error::StorageOverflow),
                Some(new) => {
                    self.something = Some(new);
                    Ok(())
                },
            },
        }
    }

    /// Builds the task that stores the number 77 once `delay` blocks have passed
    /// after `now`.
    pub fn test_schedule(now: BlockNumber, delay: BlockNumber) -> (schedule: Schedule)
        requires
            now + delay <= u64::MAX,
        ensures
            schedule@ == store_later(77, (now + delay) as u64),
    {
        let index: u32 = 77;
        let when = now + delay;
        schedule_something(index, when)
    }

    /// Hands out the bytes of the nonce and moves on to the next one.
    pub fn encode_and_update_nonce(&mut self) -> (bytes: Vec<u8>)
        ensures
            bytes@ == spec_u64_to_le_bytes(old(self)@.nonce),
            final(self)@ == old(self)@.nonce_used(),
            old(self).wf() ==> final(self).wf(),
    {
        let nonce = self.nonce;
        self.nonce = nonce.wrapping_add(1);
        encode_nonce(nonce)
    }

    /// Hashes a board identifier from the randomness at hand, the sender and the
    /// nonce, and uses the nonce up.
    pub fn generate_random_hash(&mut self, randomness: &[u8], sender: AccountId) -> (id: BoardId)
        ensures
            id == random_hash(randomness@, sender, old(self)@.nonce),
            final(self)@ == old(self)@.nonce_used(),
            old(self).wf() ==> final(self).wf(),
    {
        let seed = decode_seed(randomness);
        let nonce = self.encode_and_update_nonce();
        proof {
            lemma_auto_spec_u64_to_from_le_bytes();
        }
        let input = encode_hash_input(&seed, sender, &nonce);
        hash_blake2_256(input.as_slice())
    }

    /// Opens the board `board_id` between `red` and `blue` at `now`, unless the two
    /// are the same participant, one of them has a board already, or the identifier
    /// is taken. Returns the event that tells of the board, and the turn deadline to
    /// arm.
    pub fn create_game(&mut self, red: AccountId, blue: AccountId, board_id: BoardId, now: BlockNumber) -> (created:
        Result<(Event, Schedule), Error>)
        requires
            old(self).wf(),
            now + MAX_BLOCKS_PER_TURN <= u64::MAX,
        ensures
            final(self).wf(),
            match created {
                Ok((event, schedule)) => {
                    &&& old(self)@.create_error(red, blue, board_id) is None
                    &&& final(self)@ == old(self)@.created(red, blue, board_id, now)
                    &&& event == Event::NewBoard(board_id)
                    &&& schedule@ == end_turn(None, board_id, now, (now + MAX_BLOCKS_PER_TURN) as u64)
                },
                Err(e) => old(self)@.create_error(red, blue, board_id) == Some(e) && final(self)@ == old(self)@,
            },
    {
        if red == blue {
            return Err(Error::NoFakePlay);
        }
        let red_at = self.find_player(red);
        let blue_at = self.find_player(blue);
        proof {
            match red_at {
                Some(i) => lemma_player_listed(self.listing(), i as int, red, self.something, self.nonce),
                None => lemma_player_absent(self.listing(), red, self.something, self.nonce),
            }
            match blue_at {
                Some(i) => lemma_player_listed(self.listing(), i as int, blue, self.something, self.nonce),
                None => lemma_player_absent(self.listing(), blue, self.something, self.nonce),
            }
        }
        if red_at.is_some() || blue_at.is_some() {
            return Err(Error::PlayerBoardExists);
        }
        match self.find(&board_id) {
            Some(i) => {
                proof {
                    lemma_entry(self.listing(), i as int);
                }
                return Err(Error::WrongLogic);
            },
            None => {},
        }
        let board = BoardStruct::new(board_id, red, blue, now);
        let ghost before = self.listing();
        let ghost fresh = Match { board, schedule: None };
        self.entries.push(Entry { board, schedule: None });
        proof {
            assert(self.listing() =~= before.push(fresh));
            lemma_push(before, fresh);
            lemma_push_wf(before, fresh);
        }
        Ok((Event::NewBoard(board_id), schedule_end_turn(board_id, now, now + MAX_BLOCKS_PER_TURN, None)))
    }

    /// Opens a board between `sender` and `opponent` at `now`, under an identifier
    /// hashed from `randomness`, and returns the event that tells of the board and the
    /// turn deadline to arm. Nothing changes when the two are the same participant or
    /// one of them has a board already; when the identifier is taken, only the nonce
    /// is used up.
    pub fn new_game(&mut self, sender: AccountId, opponent: AccountId, randomness: &[u8], now: BlockNumber) -> (created:
        Result<(Event, Schedule), Error>)
        requires
            old(self).wf(),
            now + MAX_BLOCKS_PER_TURN <= u64::MAX,
        ensures
            final(self).wf(),
            ({
                let id = random_hash(randomness@, sender, old(self)@.nonce);
                match created {
                    Ok((event, schedule)) => {
                        &&& old(self)@.create_error(sender, opponent, id) is None
                        &&& final(self)@ == old(self)@.nonce_used().created(sender, opponent, id, now)
                        &&& event == Event::NewBoard(id)
                        &&& schedule@ == end_turn(None, id, now, (now + MAX_BLOCKS_PER_TURN) as u64)
                    },
                    Err(e) => {
                        &&& old(self)@.create_error(sender, opponent, id) == Some(e)
                        &&& final(self)@ == if e is WrongLogic {
                            old(self)@.nonce_used()
                        } else {
                            old(self)@
                        }
                    },
                }
            }),
    {
        if sender == opponent {
            return Err(Error::NoFakePlay);
        }
        if self.player_board(sender).is_some() || self.player_board(opponent).is_some() {
            return Err(Error::PlayerBoardExists);
        }
        let board_id = self.generate_random_hash(randomness, sender);
        self.create_game(sender, opponent, board_id, now)
    }

    /// Applies a move of `requester` into `column` on board `board_id` at `now`.
    /// Returns the deadline to arm: the turn deadline while the match runs, the
    /// removal deadline once it is finished; the task armed before is to be cancelled.
    pub fn apply_move(&mut self, board_id: &BoardId, requester: AccountId, column: u8, now: BlockNumber) -> (moved:
        Result<Schedule, Error>)
        requires
            old(self).wf(),
            now + CLEANUP_BOARDS_AFTER <= u64::MAX,
        ensures
            final(self).wf(),
            match moved {
                Ok(schedule) => {
                    &&& old(self)@.move_error(*board_id, requester, column) is None
                    &&& final(self)@ == old(self)@.moved(*board_id, column as int, now)
                    &&& schedule@ == end_turn(
                        old(self)@.matches[*board_id].schedule,
                        *board_id,
                        now,
                        (now + final(self)@.matches[*board_id].board.grace()) as u64,
                    )
                },
                Err(e) => old(self)@.move_error(*board_id, requester, column) == Some(e) && final(self)@ == old(self)@,
            },
    {
        let i = match self.find(board_id) {
            Some(i) => i,
            None => {
                return Err(Error::MatchNotFound);
            },
        };
        proof {
            lemma_entry(self.listing(), i as int);
        }
        let next = match self.entries[i].board.play_turn(requester, column, now) {
            Ok(next) => next,
            Err(e) => {
                return Err(e);
            },
        };
        let ghost before = self.listing();
        let ghost after = Match { board: next, schedule: None };
        self.entries[i].board = next;
        let cancel = self.entries[i].schedule.take();
        proof {
            assert(self.listing() =~= before.update(i as int, after));
            lemma_update(before, i as int, after);
            lemma_update_wf(before, i as int, after);
        }
        let end_turn = if next.is_running() {
            now + MAX_BLOCKS_PER_TURN
        } else {
            now + CLEANUP_BOARDS_AFTER
        };
        Ok(schedule_end_turn(*board_id, now, end_turn, cancel))
    }

    /// Applies a move of `sender` into `column` on their own board at `now`, as
    /// `apply_move` does.
    pub fn play_turn(&mut self, sender: AccountId, column: u8, now: BlockNumber) -> (moved: Result<Schedule, Error>)
        requires
            old(self).wf(),
            now + CLEANUP_BOARDS_AFTER <= u64::MAX,
        ensures
            final(self).wf(),
            ({
                let id = old(self)@.board_of(sender);
                match moved {
                    Ok(schedule) => {
                        &&& old(self)@.play_error(sender, column) is None
                        &&& final(self)@ == old(self)@.moved(id, column as int, now)
                        &&& schedule@ == end_turn(
                            old(self)@.matches[id].schedule,
                            id,
                            now,
                            (now + final(self)@.matches[id].board.grace()) as u64,
                        )
                    },
                    Err(e) => old(self)@.play_error(sender, column) == Some(e) && final(self)@ == old(self)@,
                }
            }),
    {
        let board_id = match self.player_board(sender) {
            Some(id) => id,
            None => {
                return Err(Error::NoPlayerBoard);
            },
        };
        self.apply_move(&board_id, sender, column, now)
    }

    /// Handles the deadline armed for the turn taken at `last_turn` on board
    /// `board_id`, fired at `now`. Nothing changes when the board is gone or its last
    /// turn is another one. On a running match the turn owner forfeits, and the
    /// removal deadline is returned; a finished board is removed.
    pub fn force_end_turn(&mut self, board_id: &BoardId, last_turn: BlockNumber, now: BlockNumber) -> (ended: ForcedEnd)
        requires
            old(self).wf(),
            now + CLEANUP_BOARDS_AFTER <= u64::MAX,
        ensures
            final(self).wf(),
            match ended {
                ForcedEnd::NoBoard => !old(self)@.matches.contains_key(*board_id) && final(self)@ == old(self)@,
                ForcedEnd::Superseded => {
                    &&& old(self)@.matches.contains_key(*board_id)
                    &&& old(self)@.matches[*board_id].board.last_turn != last_turn
                    &&& final(self)@ == old(self)@
                },
                ForcedEnd::Forfeited(schedule) => {
                    &&& old(self)@.matches.contains_key(*board_id)
                    &&& old(self)@.matches[*board_id].board.last_turn == last_turn
                    &&& old(self)@.matches[*board_id].board.running()
                    &&& final(self)@ == old(self)@.forfeited(*board_id, now)
                    &&& schedule@ == end_turn(None, *board_id, now, (now + CLEANUP_BOARDS_AFTER) as u64)
                },
                ForcedEnd::Removed => {
                    &&& old(self)@.matches.contains_key(*board_id)
                    &&& old(self)@.matches[*board_id].board.last_turn == last_turn
                    &&& !old(self)@.matches[*board_id].board.running()
                    &&& final(self)@ == old(self)@.removed(*board_id)
                },
            },
    {
        let i = match self.find(board_id) {
            Some(i) => i,
            None => {
                return ForcedEnd::NoBoard;
            },
        };
        proof {
            lemma_entry(self.listing(), i as int);
        }
        if self.entries[i].board.last_turn != last_turn {
            return ForcedEnd::Superseded;
        }
        let ghost before = self.listing();
        match self.entries[i].board.force_end_turn(now) {
            Some(next) => {
                let ghost after = Match { board: next, schedule: None };
                self.entries[i].board = next;
                self.entries[i].schedule = None;
                proof {
                    assert(self.listing() =~= before.update(i as int, after));
                    lemma_update(before, i as int, after);
                    lemma_update_wf(before, i as int, after);
                }
                ForcedEnd::Forfeited(schedule_end_turn(*board_id, now, now + CLEANUP_BOARDS_AFTER, None))
            },
            None => {
                self.remove_at(i);
                ForcedEnd::Removed
            },
        }
    }

    /// Takes out the entry kept at `i`.
    fn remove_at(&mut self, i: usize)
        requires
            old(self).wf(),
            i < old(self).listing().len(),
        ensures
            final(self).wf(),
            final(self)@ == old(self)@.removed(old(self).listing()[i as int].board.id),
    {
        let ghost before = self.listing();
        let _ = self.entries.remove(i);
        proof {
            assert(self.listing() =~= before.remove(i as int));
            lemma_remove(before, i as int);
            lemma_remove_wf(before, i as int);
        }
    }

    /// Removes board `board_id`, and with it both of its participants from the index.
    /// Nothing changes when the registry does not hold the board.
    pub fn remove_match(&mut self, board_id: &BoardId) -> (removed: bool)
        requires
            old(self).wf(),
        ensures
            final(self).wf(),
            removed == old(self)@.matches.contains_key(*board_id),
            final(self)@ == old(self)@.removed(*board_id),
    {
        match self.find(board_id) {
            Some(i) => {
                self.remove_at(i);
                true
            },
            None => {
                assert(self@.matches.remove(*board_id) =~= self@.matches);
                false
            },
        }
    }

    /// Notes what came of arming the deadline for board `board_id`: the name of the
    /// task, or none when the scheduler turned it down, which is reported as an
    /// error.
    pub fn end_turn_scheduled(&mut self, board_id: &BoardId, name: Option<Vec<u8>>) -> (noted: Result<(), Error>)
        requires
            old(self).wf(),
        ensures
            final(self).wf(),
            match noted {
                Ok(()) => {
                    &&& old(self)@.matches.contains_key(*board_id)
                    &&& name is Some
                    &&& final(self)@ == old(self)@.armed(*board_id, name_view(name))
                },
                Err(e) => if old(self)@.matches.contains_key(*board_id) {
                    &&& name is None
                    &&& e == Error::ScheduleError
                    &&& final(self)@ == old(self)@.armed(*board_id, None)
                } else {
                    e == Error::MatchNotFound && final(self)@ == old(self)@
                },
            },
    {
        let i = match self.find(board_id) {
            Some(i) => i,
            None => {
                return Err(Error::MatchNotFound);
            },
        };
        let ghost before = self.listing();
        let ghost after = Match { board: before[i as int].board, schedule: name_view(name) };
        let armed = name.is_some();
        self.entries[i].schedule = name;
        proof {
            lemma_entry(before, i as int);
            assert(self.listing() =~= before.update(i as int, after));
            lemma_update(before, i as int, after);
            lemma_update_wf(before, i as int, after);
        }
        if armed {
            Ok(())
        } else {
            Err(Error::ScheduleError)
        }
    }
}

} // verus!
