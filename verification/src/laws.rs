//! What holds of the grid rules, of a match and of the registry, whatever the inputs.

use vstd::prelude::*;
use crate::board::{opponent_of, AccountId, BlockNumber, BoardId, BoardState, BoardStruct, Error};
use crate::connectfour::{
    cell, dropped, four_in_a_row, gravity, in_grid, is_full, lemma_dropped_wf, lemma_empty_grid,
    lemma_empty_grid_open, lemma_six_stones, lemma_stone_completes_no_line_of_other, run_of_four, stones, wins_at,
};
use crate::registry::PalletState;

verus! {

/// `(dx, dy)` is a step to a neighbouring cell: along a row, a column or a diagonal,
/// in either sense.
pub open spec fn is_direction(dx: int, dy: int) -> bool {
    -1 <= dx <= 1 && -1 <= dy <= 1 && !(dx == 0 && dy == 0)
}

/// Four adjacent cells of one player in a line are four in a row: for every player,
/// along a row, a column or either diagonal, and wherever on the grid the line lies.
pub proof fn law_four_adjacent_detected(board: [[u8; 6]; 7], player: u8, x: int, y: int, dx: int, dy: int)
    requires
        is_direction(dx, dy),
        run_of_four(board, player, x, y, dx, dy),
    ensures
        four_in_a_row(board, player),
{
    if (dx == 1 && dy == 0) || (dx == 0 && dy == 1) || (dx == 1 && dy == 1) || (dx == 1 && dy == -1) {
        assert(in_grid(x, y) && wins_at(board, player, x, y));
    } else {
        let ex = x + 3 * dx;
        let ey = y + 3 * dy;
        assert(run_of_four(board, player, ex, ey, -dx, -dy));
        assert(in_grid(ex, ey) && wins_at(board, player, ex, ey));
    }
}

/// A column that holds six stones takes no further stone: its topmost cell is
/// occupied, and dropping a stone into it leaves the grid as it was.
pub proof fn law_full_column_rejects(board: [[u8; 6]; 7], column: int, player: u8)
    requires
        0 <= column < 7,
        stones(board, column) == 6,
    ensures
        cell(board, column, 0) != 0,
        dropped(board, column, player) == board,
{
    lemma_six_stones(board, column);
}

/// A grid without floating stones is full exactly when each of its seven columns
/// holds six stones.
pub proof fn law_full_iff_six_each(board: [[u8; 6]; 7])
    requires
        gravity(board),
    ensures
        is_full(board) <==> (forall|x: int| 0 <= x < 7 ==> stones(board, x) == 6),
{
    assert forall|x: int| 0 <= x < 7 implies (cell(board, x, 0) != 0 <==> #[trigger] stones(board, x) == 6) by {
        lemma_six_stones(board, x);
        if cell(board, x, 0) != 0 {
            assert(cell(board, x, 1) != 0);
            assert(cell(board, x, 2) != 0);
            assert(cell(board, x, 3) != 0);
            assert(cell(board, x, 4) != 0);
            assert(cell(board, x, 5) != 0);
        }
    }
    if is_full(board) {
        assert forall|x: int| 0 <= x < 7 implies stones(board, x) == 6 by {
            assert(cell(board, x, 0) != 0);
        }
    }
    if forall|x: int| 0 <= x < 7 ==> stones(board, x) == 6 {
        assert forall|x: int| 0 <= x < 7 implies cell(board, x, 0) != 0 by {
            assert(stones(board, x) == 6);
        }
    }
}

/// After an accepted move the turn belongs to the other participant: the mover
/// cannot move again, and a second accepted move hands the turn back.
pub proof fn law_turn_alternates(board: BoardStruct, sender: AccountId, column: u8, now: BlockNumber)
    requires
        board.wf(),
        board.move_error(sender, column) is None,
    ensures
        ({
            let next = board.after_move(column as int, now);
            &&& board.turn_owner() == sender
            &&& next.plays(next.turn_owner())
            &&& next.turn_owner() != sender
            &&& forall|again: u8| #[trigger] next.move_error(sender, again) is Some
            &&& forall|reply: int, later: BlockNumber| #[trigger] next.after_move(reply, later).turn_owner() == sender
        }),
{
}

/// An accepted move and a forfeit lead from a record that play can reach to another
/// one, between the same participants and under the same identifier.
pub proof fn law_record_stays_wf(board: BoardStruct, sender: AccountId, column: u8, now: BlockNumber)
    requires
        board.wf(),
    ensures
        board.move_error(sender, column) is None ==> board.after_move(column as int, now).wf(),
        board.running() ==> board.after_forfeit(now).wf() && !board.after_forfeit(now).running(),
        board.after_move(column as int, now).id == board.id && board.after_forfeit(now).id == board.id,
        board.after_move(column as int, now).red == board.red && board.after_forfeit(now).red == board.red,
        board.after_move(column as int, now).blue == board.blue && board.after_forfeit(now).blue == board.blue,
{
    if board.move_error(sender, column) is None {
        let mover = board.next_player;
        let other = opponent_of(mover);
        lemma_dropped_wf(board.board, column as int, mover);
        if four_in_a_row(dropped(board.board, column as int, mover), other) {
            lemma_stone_completes_no_line_of_other(board.board, column as int, mover, other);
        }
    }
}

/// In the registry, an accepted move leaves the index as it is and hands the turn to
/// the other participant: until they have moved, the mover is turned down.
pub proof fn law_turn_passes(state: PalletState, sender: AccountId, column: u8, now: BlockNumber)
    requires
        state.wf(),
        state.play_error(sender, column) is None,
    ensures
        ({
            let id = state.board_of(sender);
            let after = state.moved(id, column as int, now);
            &&& after.wf()
            &&& after.player_board() == state.player_board()
            &&& after.matches[id].board.turn_owner() != sender
            &&& after.matches[id].board.plays(after.matches[id].board.turn_owner())
            &&& forall|again: u8| #[trigger] after.play_error(sender, again) is Some
        }),
{
    let id = state.board_of(sender);
    let board = state.matches[id].board;
    let next = board.after_move(column as int, now);
    let after = state.moved(id, column as int, now);
    assert(state.matches.contains_key(id) && board.plays(sender));
    law_record_stays_wf(board, sender, column, now);
    law_board_replaced_keeps_index(state, next, None);
    assert(after.matches.contains_key(id) && after.matches[id].board.plays(sender));
    assert(after.has_player(sender));
    let found = after.board_of(sender);
    assert(after.matches.contains_key(found) && after.matches[found].board.plays(sender));
    assert(found == id);
}

/// In the registry, a forfeit leaves the index as it is and finishes the match in
/// favour of the participant who was not due to move.
pub proof fn law_forfeit_finishes(state: PalletState, id: BoardId, now: BlockNumber)
    requires
        state.wf(),
        state.matches.contains_key(id),
        state.matches[id].board.running(),
    ensures
        ({
            let before = state.matches[id].board;
            let after = state.forfeited(id, now);
            &&& after.wf()
            &&& after.player_board() == state.player_board()
            &&& after.matches[id].board.board_state == BoardState::Finished(
                Some(if before.turn_owner() == before.red { before.blue } else { before.red }),
            )
            &&& forall|who: AccountId, column: u8| #[trigger]
                after.move_error(id, who, column) == Some(Error::MatchNotRunning)
        }),
{
    let before = state.matches[id].board;
    law_record_stays_wf(before, before.turn_owner(), 0, now);
    law_board_replaced_keeps_index(state, before.after_forfeit(now), None);
}

/// A finished match takes no move, whoever asks and whatever the column.
pub proof fn law_finished_takes_no_move(board: BoardStruct, sender: AccountId, column: u8)
    requires
        !board.running(),
    ensures
        board.move_error(sender, column) == Some(Error::MatchNotRunning),
{
}

/// A move that completes four in a row wins, also when it fills the grid.
pub proof fn law_win_before_draw(board: BoardStruct, column: int, now: BlockNumber)
    requires
        four_in_a_row(dropped(board.board, column, board.next_player), board.next_player),
    ensures
        board.after_move(column, now).board_state == BoardState::Finished(Some(board.turn_owner())),
{
}

/// No board is opened between a participant and themself, nor for a participant who
/// has a board.
pub proof fn law_creation_refused(state: PalletState, red: AccountId, blue: AccountId, id: BoardId)
    ensures
        red == blue ==> state.create_error(red, blue, id) == Some(Error::NoFakePlay),
        red != blue && (state.has_player(red) || state.has_player(blue)) ==> state.create_error(red, blue, id) == Some(
            Error::PlayerBoardExists,
        ),
{
}

/// Opening a board keeps the state well formed and enters both participants into the
/// index under the new board.
pub proof fn law_created_indexed(state: PalletState, red: AccountId, blue: AccountId, id: BoardId, now: BlockNumber)
    requires
        state.wf(),
        state.create_error(red, blue, id) is None,
    ensures
        state.created(red, blue, id, now).wf(),
        state.created(red, blue, id, now).player_board() == state.player_board().insert(red, id).insert(blue, id),
{
    let opened = BoardStruct::opened(id, red, blue, now);
    let after = state.created(red, blue, id, now);
    lemma_empty_grid();
    lemma_empty_grid_open(1);
    lemma_empty_grid_open(2);
    assert(opened.wf());
    assert(after.matches.contains_key(id) && after.matches[id].board == opened);
    assert forall|a: BoardId, b: BoardId, who: AccountId|
        after.matches.contains_key(a) && after.matches.contains_key(b)
            && #[trigger] after.matches[a].board.plays(who) && #[trigger] after.matches[b].board.plays(who) implies a == b by {
        if a != id {
            assert(state.matches.contains_key(a) && state.matches[a].board.plays(who));
        }
        if b != id {
            assert(state.matches.contains_key(b) && state.matches[b].board.plays(who));
        }
    }
    assert(after.wf());
    let index = state.player_board().insert(red, id).insert(blue, id);
    assert forall|who: AccountId| #[trigger] after.player_board().contains_key(who) <==> index.contains_key(who) by {
        if after.has_player(who) {
            let b = after.board_of(who);
            if b != id {
                assert(state.matches.contains_key(b) && state.matches[b].board.plays(who));
            }
        }
        if state.has_player(who) {
            let b = state.board_of(who);
            assert(after.matches.contains_key(b) && after.matches[b].board.plays(who));
        }
        if who == red || who == blue {
            assert(after.matches[id].board.plays(who));
        }
    }
    assert forall|who: AccountId| after.player_board().contains_key(who) implies #[trigger] after.player_board()[who]
        == index[who] by {
        let b = after.board_of(who);
        assert(after.matches.contains_key(b) && after.matches[b].board.plays(who));
        if who == red || who == blue {
            assert(after.matches[id].board.plays(who));
        } else {
            assert(b != id);
            assert(state.matches.contains_key(b) && state.matches[b].board.plays(who));
            let c = state.board_of(who);
            assert(state.matches.contains_key(c) && state.matches[c].board.plays(who));
        }
    }
    assert(after.player_board() =~= index);
}

/// Removing a board keeps the state well formed and takes both participants out of
/// the index: neither has a board afterwards.
pub proof fn law_removed_unindexed(state: PalletState, id: BoardId)
    requires
        state.wf(),
        state.matches.contains_key(id),
    ensures
        state.removed(id).wf(),
        !state.removed(id).has_player(state.matches[id].board.red),
        !state.removed(id).has_player(state.matches[id].board.blue),
        state.removed(id).player_board() == state.player_board().remove(state.matches[id].board.red).remove(
            state.matches[id].board.blue,
        ),
{
    let after = state.removed(id);
    let red = state.matches[id].board.red;
    let blue = state.matches[id].board.blue;
    assert(state.matches[id].board.plays(red) && state.matches[id].board.plays(blue));
    assert(after.wf());
    assert forall|who: AccountId| after.has_player(who) implies state.has_player(who) && who != red && who != blue
        && state.board_of(who) == after.board_of(who) by {
        let b = after.board_of(who);
        assert(state.matches.contains_key(b) && state.matches[b].board.plays(who));
        let c = state.board_of(who);
        assert(state.matches.contains_key(c) && state.matches[c].board.plays(who));
    }
    let index = state.player_board().remove(red).remove(blue);
    assert forall|who: AccountId| #[trigger] after.player_board().contains_key(who) <==> index.contains_key(who) by {
        if state.has_player(who) && who != red && who != blue {
            let c = state.board_of(who);
            assert(state.matches.contains_key(c) && state.matches[c].board.plays(who));
            assert(c != id);
            assert(after.matches.contains_key(c) && after.matches[c].board.plays(who));
        }
    }
    assert(after.player_board() =~= index);
}

/// A move, a forfeit and the noting of a deadline task leave the index as it is.
pub proof fn law_board_replaced_keeps_index(state: PalletState, board: BoardStruct, schedule: Option<Seq<u8>>)
    requires
        state.wf(),
        state.matches.contains_key(board.id),
        board.red == state.matches[board.id].board.red,
        board.blue == state.matches[board.id].board.blue,
        board.wf(),
    ensures
        state.with_match(board, schedule).wf(),
        state.with_match(board, schedule).player_board() == state.player_board(),
{
    let after = state.with_match(board, schedule);
    let id = board.id;
    assert forall|b: BoardId, who: AccountId|
        after.matches.contains_key(b) && #[trigger] after.matches[b].board.plays(who) implies state.matches.contains_key(b)
        && state.matches[b].board.plays(who) by {
    }
    assert forall|b: BoardId, who: AccountId|
        state.matches.contains_key(b) && #[trigger] state.matches[b].board.plays(who) implies after.matches.contains_key(b)
        && after.matches[b].board.plays(who) by {
    }
    assert(after.wf());
    assert forall|who: AccountId| #[trigger] after.player_board().contains_key(who) <==> state.player_board().contains_key(
        who,
    ) by {
        if after.has_player(who) {
            let b = after.board_of(who);
            assert(state.matches.contains_key(b) && state.matches[b].board.plays(who));
        }
        if state.has_player(who) {
            let b = state.board_of(who);
            assert(after.matches.contains_key(b) && after.matches[b].board.plays(who));
        }
    }
    assert forall|who: AccountId| after.player_board().contains_key(who) implies #[trigger] after.player_board()[who]
        == state.player_board()[who] by {
        let b = after.board_of(who);
        assert(state.matches.contains_key(b) && state.matches[b].board.plays(who));
        let c = state.board_of(who);
        assert(state.matches.contains_key(c) && state.matches[c].board.plays(who));
    }
    assert(after.player_board() =~= state.player_board());
}

} // verus!
