//! A single match: its record, its outcome, and the transitions that a move and an
//! elapsed deadline make on it.

use vstd::prelude::*;
use crate::connectfour::{
    cell, dropped, empty_grid, four_in_a_row, grid_wf, is_full, lemma_empty_grid, lemma_empty_grid_open,
    lemma_stone_completes_no_line_of_other, Logic,
};

verus! {

/// Identifies a participant.
pub type AccountId = u64;

/// Logical time, counted in blocks.
pub type BlockNumber = u64;

/// Identifies a board.
pub type BoardId = [u8; 32];

/// The stone of the participant `red`.
pub const PLAYER_1: u8 = 1;

/// The stone of the participant `blue`.
pub const PLAYER_2: u8 = 2;

/// Blocks a participant has for a move before the turn is forfeited.
pub const MAX_BLOCKS_PER_TURN: u64 = 10;

/// Blocks a finished board is kept before it is removed.
pub const CLEANUP_BOARDS_AFTER: u64 = 20;

/// Why a request was turned down.
#[derive(Clone, Copy, PartialEq, Eq, Debug)]
pub enum Error {
    /// No value has been stored yet.
    NoneValue,
    /// The stored value cannot grow any further.
    StorageOverflow,
    /// A deadline could not be armed.
    ScheduleError,
    /// One of the two participants already has a board.
    PlayerBoardExists,
    /// The participant has no board.
    NoPlayerBoard,
    /// A participant cannot play against themself.
    NoFakePlay,
    /// It is the other participant's turn.
    NotPlayerTurn,
    /// An invariant of the registry would break.
    WrongLogic,
    /// No board has this identifier.
    MatchNotFound,
    /// The board is finished already.
    MatchNotRunning,
    /// The column does not exist or is full.
    InvalidMove,
}

/// Where a match stands.
#[derive(Clone, Copy, PartialEq, Eq, Debug)]
pub enum BoardState {
    /// Moves are accepted.
    Running,
    /// The match is over: won by the participant named, or drawn when none is named.
    Finished(Option<AccountId>),
}

/// A match between two participants.
#[derive(Clone, Copy, PartialEq, Eq, Debug)]
pub struct BoardStruct {
    /// The board's identifier.
    pub id: BoardId,
    /// The participant who plays the stones of `PLAYER_1`.
    pub red: AccountId,
    /// The participant who plays the stones of `PLAYER_2`.
    pub blue: AccountId,
    /// The grid.
    pub board: [[u8; 6]; 7],
    /// When the board was created, last moved on, or forfeited.
    pub last_turn: BlockNumber,
    /// Whose turn it is: `PLAYER_1` or `PLAYER_2`.
    pub next_player: u8,
    /// Where the match stands.
    pub board_state: BoardState,
}

/// The stone of the participant who does not play `player`.
pub open spec fn opponent_of(player: u8) -> u8 {
    if player == PLAYER_1 {
        PLAYER_2
    } else {
        PLAYER_1
    }
}

/// Which stone moves first on the board with this identifier.
pub open spec fn first_player(id: BoardId) -> u8 {
    if id[0] < 128 {
        PLAYER_1
    } else {
        PLAYER_2
    }
}

impl BoardStruct {
    /// The record is one that play can reach: two participants, a turn owner, a grid
    /// without floating stones, a winner who takes part, and, while the match runs,
    /// neither a line of four nor a full grid.
    pub open spec fn wf(&self) -> bool {
        &&& self.red != self.blue
        &&& (self.next_player == PLAYER_1 || self.next_player == PLAYER_2)
        &&& grid_wf(self.board)
        &&& match self.board_state {
            BoardState::Finished(Some(winner)) => winner == self.red || winner == self.blue,
            BoardState::Finished(None) => true,
            BoardState::Running => {
                &&& !four_in_a_row(self.board, PLAYER_1)
                &&& !four_in_a_row(self.board, PLAYER_2)
                &&& !is_full(self.board)
            },
        }
    }

    /// The participant who plays the stones of `player`.
    pub open spec fn account_of(&self, player: u8) -> AccountId {
        if player == PLAYER_1 {
            self.red
        } else {
            self.blue
        }
    }

    /// The participant whose turn it is.
    pub open spec fn turn_owner(&self) -> AccountId {
        self.account_of(self.next_player)
    }

    /// `who` is one of the two participants.
    pub open spec fn plays(&self, who: AccountId) -> bool {
        who == self.red || who == self.blue
    }

    /// The match is running.
    pub open spec fn running(&self) -> bool {
        self.board_state == BoardState::Running
    }

    /// A board as it is created: empty grid, running, first turn drawn from the
    /// identifier.
    pub open spec fn opened(id: BoardId, red: AccountId, blue: AccountId, now: BlockNumber) -> BoardStruct {
        BoardStruct {
            id,
            red,
            blue,
            board: empty_grid(),
            last_turn: now,
            next_player: first_player(id),
            board_state: BoardState::Running,
        }
    }

    /// Why a move of `sender` into `column` is turned down, if it is.
    pub open spec fn move_error(&self, sender: AccountId, column: u8) -> Option<Error> {
        if !self.running() {
            Some(Error::MatchNotRunning)
        } else if sender != self.turn_owner() {
            Some(Error::NotPlayerTurn)
        } else if column >= 7 || cell(self.board, column as int, 0) != 0 {
            Some(Error::InvalidMove)
        } else {
            None
        }
    }

    /// How the match stands once the participant with the stones of `mover` has moved
    /// and left `grid`: a win of the mover comes before a draw on a full grid.
    pub open spec fn judged(&self, grid: [[u8; 6]; 7], mover: u8) -> BoardState {
        if four_in_a_row(grid, mover) {
            BoardState::Finished(Some(self.account_of(mover)))
        } else if is_full(grid) {
            BoardState::Finished(None)
        } else {
            BoardState::Running
        }
    }

    /// The record after the turn owner has dropped a stone into `column` at `now`.
    pub open spec fn after_move(&self, column: int, now: BlockNumber) -> BoardStruct {
        let grid = dropped(self.board, column, self.next_player);
        BoardStruct {
            board: grid,
            last_turn: now,
            next_player: opponent_of(self.next_player),
            board_state: self.judged(grid, self.next_player),
            ..*self
        }
    }

    /// The record after the turn owner has let the deadline pass at `now`: the other
    /// participant has won.
    pub open spec fn after_forfeit(&self, now: BlockNumber) -> BoardStruct {
        BoardStruct {
            last_turn: now,
            board_state: BoardState::Finished(Some(self.account_of(opponent_of(self.next_player)))),
            ..*self
        }
    }

    /// How long the deadline that guards this record runs.
    pub open spec fn grace(&self) -> u64 {
        if self.running() {
            MAX_BLOCKS_PER_TURN
        } else {
            CLEANUP_BOARDS_AFTER
        }
    }

    /// Opens a board between `red` and `blue` at `now`.
    pub fn new(id: BoardId, red: AccountId, blue: AccountId, now: BlockNumber) -> (opened: BoardStruct)
        ensures
            opened == Self::opened(id, red, blue, now),
            red != blue ==> opened.wf(),
    {
        let next_player = if id[0] < 128 { PLAYER_1 } else { PLAYER_2 };
        let opened = BoardStruct {
            id,
            red,
            blue,
            board: [[0u8; 6]; 7],
            last_turn: now,
            next_player,
            board_state: BoardState::Running,
        };
        proof {
            lemma_empty_grid();
            lemma_empty_grid_open(PLAYER_1);
            lemma_empty_grid_open(PLAYER_2);
        }
        opened
    }

    /// Whether the match is running.
    pub fn is_running(&self) -> (running: bool)
        ensures
            running == self.running(),
    {
        match self.board_state {
            BoardState::Running => true,
            BoardState::Finished(_) => false,
        }
    }

    /// The participant whose turn it is.
    pub fn current_account(&self) -> (account: AccountId)
        ensures
            account == self.turn_owner(),
    {
        if self.next_player == PLAYER_1 {
            self.red
        } else {
            self.blue
        }
    }

    /// Applies a move of `sender` into `column` at `now`. The turn passes to the other
    /// participant before the move is judged, and the move is judged for the mover.
    pub fn play_turn(&self, sender: AccountId, column: u8, now: BlockNumber) -> (moved: Result<BoardStruct, Error>)
        ensures
            match moved {
                Ok(next) => {
                    &&& self.move_error(sender, column) is None
                    &&& next == self.after_move(column as int, now)
                    &&& self.wf() ==> next.wf()
                },
                Err(e) => self.move_error(sender, column) == Some(e),
            },
    {
        if !self.is_running() {
            return Err(Error::MatchNotRunning);
        }
        let current_player = self.next_player;
        let current_account = self.current_account();
        if sender != current_account {
            return Err(Error::NotPlayerTurn);
        }
        if column >= 7 {
            return Err(Error::InvalidMove);
        }
        let mut next = *self;
        next.next_player = if current_player == PLAYER_1 { PLAYER_2 } else { PLAYER_1 };
        if !Logic::add_stone(&mut next.board, column, current_player) {
            return Err(Error::InvalidMove);
        }
        proof {
            if four_in_a_row(next.board, next.next_player) {
                lemma_stone_completes_no_line_of_other(self.board, column as int, current_player, next.next_player);
            }
        }
        if Logic::evaluate(next.board, current_player) {
            next.board_state = BoardState::Finished(Some(current_account));
        } else if Logic::full(next.board) {
            next.board_state = BoardState::Finished(None);
        }
        next.last_turn = now;
        Ok(next)
    }

    /// Ends the turn that was not taken in time: on a running match the participant
    /// who was not due to move wins at `now`. A finished match has nothing left to
    /// forfeit.
    pub fn force_end_turn(&self, now: BlockNumber) -> (forfeited: Option<BoardStruct>)
        ensures
            forfeited == if self.running() { Some(self.after_forfeit(now)) } else { None },
            self.wf() && forfeited is Some ==> forfeited->0.wf(),
    {
        if !self.is_running() {
            return None;
        }
        let winner = if self.next_player == PLAYER_1 { self.blue } else { self.red };
        let mut next = *self;
        next.board_state = BoardState::Finished(Some(winner));
        next.last_turn = now;
        Some(next)
    }
}

} // verus!
