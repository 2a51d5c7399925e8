//! Deadlines: what the registry asks its caller to arm with the scheduler.
//!
//! The registry never talks to a scheduler itself. Each transition that starts a new
//! waiting period hands back a `Schedule`; the caller cancels and arms as it says and
//! reports the outcome to the registry.

use vstd::prelude::*;
use crate::board::{AccountId, BlockNumber, BoardId};
use crate::encoding::{encode_numbered_name, encode_task_name, numbered_name, task_name};

verus! {

/// The tag under which this registry names its deadline tasks: the bytes of
/// `connect4`.
pub const CONNECTFOUR_ID: [u8; 8] = [99, 111, 110, 110, 101, 99, 116, 52];

/// What the registry has to tell the world.
#[derive(Clone, Copy, PartialEq, Eq, Debug)]
pub enum Event {
    /// A value was stored by the participant named.
    SomethingStored(u32, AccountId),
    /// A board was opened.
    NewBoard(BoardId),
}

/// What a deadline task does when it fires.
#[derive(Clone, Copy, PartialEq, Eq, Debug)]
pub enum Call {
    /// End the turn on the board named, provided its last turn is still the one
    /// named.
    ForceEndTurn(BoardId, BlockNumber),
    /// Store the value named.
    DoSomething(u32),
}

/// A deadline to arm.
#[derive(Clone, PartialEq, Eq, Debug)]
pub struct Schedule {
    /// The task armed earlier for the same board, to be cancelled first. A failure to
    /// cancel is of no consequence.
    pub cancel: Option<Vec<u8>>,
    /// The name of the task; arming replaces any task of the same name.
    pub name: Vec<u8>,
    /// The block at which the task fires.
    pub when: BlockNumber,
    /// What the task does.
    pub call: Call,
}

/// What an elapsed deadline came to.
#[derive(Clone, PartialEq, Eq, Debug)]
pub enum ForcedEnd {
    /// The board is gone; nothing was done.
    NoBoard,
    /// A later turn or forfeit superseded the deadline; nothing was done.
    Superseded,
    /// The turn owner forfeited; the deadline returned gives the finished board its
    /// time before it is removed.
    Forfeited(Schedule),
    /// The finished board was removed.
    Removed,
}

/// A `Schedule` as plain values.
pub struct ScheduleView {
    pub cancel: Option<Seq<u8>>,
    pub name: Seq<u8>,
    pub when: BlockNumber,
    pub call: Call,
}

/// The bytes of a task name that may be absent.
pub open spec fn name_view(name: Option<Vec<u8>>) -> Option<Seq<u8>> {
    match name {
        Some(bytes) => Some(bytes@),
        None => None,
    }
}

impl View for Schedule {
    type V = ScheduleView;

    open spec fn view(&self) -> ScheduleView {
        ScheduleView { cancel: name_view(self.cancel), name: self.name@, when: self.when, call: self.call }
    }
}

/// The deadline that ends the turn taken at `last_turn` on board `board_id`, unless a
/// later turn supersedes it.
pub open spec fn end_turn(
    cancel: Option<Seq<u8>>,
    board_id: BoardId,
    last_turn: BlockNumber,
    end_turn: BlockNumber,
) -> ScheduleView {
    ScheduleView {
        cancel,
        name: task_name(CONNECTFOUR_ID@, board_id@, last_turn),
        when: end_turn,
        call: Call::ForceEndTurn(board_id, last_turn),
    }
}

/// Builds the deadline that ends the turn taken at `last_turn` on board `board_id`
/// when block `end_turn` is reached, and cancels the task `cancel` before.
pub fn schedule_end_turn(
    board_id: BoardId,
    last_turn: BlockNumber,
    end_turn: BlockNumber,
    cancel: Option<Vec<u8>>,
) -> (schedule: Schedule)
    ensures
        schedule@ == self::end_turn(name_view(cancel), board_id, last_turn, end_turn),
{
    let tag = CONNECTFOUR_ID;
    let name = encode_task_name(&tag, &board_id, last_turn);
    Schedule { cancel, name, when: end_turn, call: Call::ForceEndTurn(board_id, last_turn) }
}

/// The task that stores `index` when block `when` is reached.
pub open spec fn store_later(index: u32, when: BlockNumber) -> ScheduleView {
    ScheduleView {
        cancel: None,
        name: numbered_name(CONNECTFOUR_ID@, index),
        when,
        call: Call::DoSomething(index),
    }
}

/// Builds the task that stores `index` when block `when` is reached.
pub fn schedule_something(index: u32, when: BlockNumber) -> (schedule: Schedule)
    ensures
        schedule@ == store_later(index, when),
{
    let tag = CONNECTFOUR_ID;
    let name = encode_numbered_name(&tag, index);
    Schedule { cancel: None, name, when, call: Call::DoSomething(index) }
}

} // verus!
