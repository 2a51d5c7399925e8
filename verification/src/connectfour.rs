//! The grid rules: dropping a stone, detecting four in a row, detecting a full grid.
//!
//! A grid is `[[u8; 6]; 7]`: seven columns of six cells. Within a column, index 0 is the
//! topmost cell and index 5 the bottom one. A cell holds 0 when empty, otherwise the
//! number of the player who owns it.

use vstd::prelude::*;
use vstd::array::{spec_array_fill_for_copy_type, spec_array_update};

verus! {

/// The cell at column `x`, row `y`; 0 stands for an empty cell.
pub open spec fn cell(board: [[u8; 6]; 7], x: int, y: int) -> u8 {
    board[x][y]
}

/// `(x, y)` names a cell of the grid.
pub open spec fn in_grid(x: int, y: int) -> bool {
    0 <= x < 7 && 0 <= y < 6
}

/// The four cells that start at `(x, y)` and advance by `(dx, dy)` all lie on the grid
/// and all belong to `player`.
pub open spec fn run_of_four(board: [[u8; 6]; 7], player: u8, x: int, y: int, dx: int, dy: int) -> bool {
    &&& in_grid(x, y)
    &&& in_grid(x + 3 * dx, y + 3 * dy)
    &&& cell(board, x, y) == player
    &&& cell(board, x + dx, y + dy) == player
    &&& cell(board, x + 2 * dx, y + 2 * dy) == player
    &&& cell(board, x + 3 * dx, y + 3 * dy) == player
}

/// A run of four of `player` starts at `(x, y)` in one of the four orientations.
pub open spec fn wins_at(board: [[u8; 6]; 7], player: u8, x: int, y: int) -> bool {
    ||| run_of_four(board, player, x, y, 1, 0)
    ||| run_of_four(board, player, x, y, 0, 1)
    ||| run_of_four(board, player, x, y, 1, 1)
    ||| run_of_four(board, player, x, y, 1, -1)
}

/// Somewhere on the grid `player` owns four adjacent cells in a line.
pub open spec fn four_in_a_row(board: [[u8; 6]; 7], player: u8) -> bool {
    exists|x: int, y: int| in_grid(x, y) && #[trigger] wins_at(board, player, x, y)
}

/// Every column's topmost cell is occupied.
pub open spec fn is_full(board: [[u8; 6]; 7]) -> bool {
    forall|x: int| 0 <= x < 7 ==> cell(board, x, 0) != 0
}

/// The lowest empty cell of `column` at or above row `y`; 0 when there is none below
/// row 1.
pub open spec fn lowest_empty_from(board: [[u8; 6]; 7], column: int, y: int) -> int
    decreases y,
{
    if y <= 0 {
        0
    } else if cell(board, column, y) == 0 {
        y
    } else {
        lowest_empty_from(board, column, y - 1)
    }
}

/// The row in which a stone dropped into `column` comes to rest, provided the column's
/// topmost cell is empty.
pub open spec fn landing_row(board: [[u8; 6]; 7], column: int) -> int {
    lowest_empty_from(board, column, 5)
}

/// The grid with the cell at `(column, row)` given to `player`.
pub open spec fn with_stone(board: [[u8; 6]; 7], column: int, row: int, player: u8) -> [[u8; 6]; 7] {
    spec_array_update(board, column, spec_array_update(board[column], row, player))
}

/// The grid after `player` drops a stone into `column`: unchanged when the column's
/// topmost cell is occupied.
pub open spec fn dropped(board: [[u8; 6]; 7], column: int, player: u8) -> [[u8; 6]; 7] {
    if cell(board, column, 0) == 0 {
        with_stone(board, column, landing_row(board, column), player)
    } else {
        board
    }
}

/// The grid without stones.
pub open spec fn empty_grid() -> [[u8; 6]; 7] {
    spec_array_fill_for_copy_type::<[u8; 6], 7>(spec_array_fill_for_copy_type::<u8, 6>(0u8))
}

/// No stone floats: below an occupied cell every cell is occupied.
pub open spec fn gravity(board: [[u8; 6]; 7]) -> bool {
    forall|x: int, y: int| 0 <= x < 7 && 0 <= y < 5 && #[trigger] cell(board, x, y) != 0 ==> cell(board, x, y + 1) != 0
}

/// Every cell is empty or owned by player 1 or player 2.
pub open spec fn cells_known(board: [[u8; 6]; 7]) -> bool {
    forall|x: int, y: int| in_grid(x, y) ==> #[trigger] cell(board, x, y) <= 2
}

/// A grid reachable by play: known cell states and no floating stones.
pub open spec fn grid_wf(board: [[u8; 6]; 7]) -> bool {
    gravity(board) && cells_known(board)
}

/// Number of stones in the topmost `n` cells of column `x`.
pub open spec fn stones_in_top(board: [[u8; 6]; 7], x: int, n: int) -> int
    decreases n,
{
    if n <= 0 {
        0
    } else {
        stones_in_top(board, x, n - 1) + if cell(board, x, n - 1) != 0 { 1int } else { 0int }
    }
}

/// Number of stones in column `x`.
pub open spec fn stones(board: [[u8; 6]; 7], x: int) -> int {
    stones_in_top(board, x, 6)
}

/// The grid rules, as functions over a bare grid.
pub struct Logic {}

impl Logic {
    /// Whether no further stone can be dropped anywhere.
    pub fn full(board: [[u8; 6]; 7]) -> (full: bool)
        ensures
            full == is_full(board),
    {
        let mut x: usize = 0;
        while x < 7
            invariant
                x <= 7,
                forall|k: int| 0 <= k < x ==> cell(board, k, 0) != 0,
            decreases 7 - x,
        {
            if board[x][0] == 0 {
                assert(cell(board, x as int, 0) == 0);
                return false;
            }
            x += 1;
        }
        true
    }

    /// Whether `player` owns four adjacent cells along a row, a column or a diagonal.
    pub fn evaluate(board: [[u8; 6]; 7], player: u8) -> (won: bool)
        ensures
            won == four_in_a_row(board, player),
    {
        let mut x: usize = 0;
        while x < 7
            invariant
                x <= 7,
                forall|i: int, j: int| 0 <= i < x && 0 <= j < 6 ==> !#[trigger] wins_at(board, player, i, j),
            decreases 7 - x,
        {
            let mut y: usize = 0;
            while y < 6
                invariant
                    x < 7,
                    y <= 6,
                    forall|i: int, j: int| 0 <= i < x && 0 <= j < 6 ==> !#[trigger] wins_at(board, player, i, j),
                    forall|j: int| 0 <= j < y ==> !#[trigger] wins_at(board, player, x as int, j),
                decreases 6 - y,
            {
                if run_from(&board, player, x, y) {
                    assert(in_grid(x as int, y as int) && wins_at(board, player, x as int, y as int));
                    return true;
                }
                y += 1;
            }
            x += 1;
        }
        false
    }

    /// Drops a stone of `player` into `column`. Returns false, and leaves the grid as it
    /// was, when the column's topmost cell is occupied; otherwise the stone takes the
    /// lowest empty cell of the column.
    pub fn add_stone(board: &mut [[u8; 6]; 7], column: u8, player: u8) -> (placed: bool)
        requires
            column < 7,
        ensures
            placed == (cell(*old(board), column as int, 0) == 0),
            *final(board) == dropped(*old(board), column as int, player),
            !placed ==> *final(board) == *old(board),
            stones(*old(board), column as int) == 6 ==> !placed,
            grid_wf(*old(board)) && (player == 1 || player == 2) ==> grid_wf(*final(board)),
    {
        let c: usize = column as usize;
        proof {
            lemma_six_stones(*board, c as int);
        }
        if board[c][0] > 0 {
            return false;
        }
        let mut y: usize = 5;
        while board[c][y] > 0
            invariant
                c < 7,
                y <= 5,
                cell(*board, c as int, 0) == 0,
                lowest_empty_from(*board, c as int, 5) == lowest_empty_from(*board, c as int, y as int),
                forall|k: int| y < k < 6 ==> cell(*board, c as int, k) != 0,
            decreases y,
        {
            assert(cell(*board, c as int, y as int) != 0);
            y -= 1;
        }
        assert(cell(*board, c as int, y as int) == 0);
        assert(landing_row(*board, c as int) == y);
        let ghost before = *board;
        board[c][y] = player;
        proof {
            lemma_with_stone(before, c as int, y as int, player);
            assert(*board == with_stone(before, c as int, y as int, player));
        }
        true
    }
}

/// Whether a run of four of `player` starts at `(x, y)`.
fn run_from(board: &[[u8; 6]; 7], player: u8, x: usize, y: usize) -> (found: bool)
    requires
        x < 7,
        y < 6,
    ensures
        found == wins_at(*board, player, x as int, y as int),
{
    if board[x][y] != player {
        return false;
    }
    let right = x + 3 < 7;
    if right && board[x + 1][y] == player && board[x + 2][y] == player && board[x + 3][y] == player {
        return true;
    }
    if y + 3 < 6 && board[x][y + 1] == player && board[x][y + 2] == player && board[x][y + 3] == player {
        return true;
    }
    if right && y + 3 < 6 && board[x + 1][y + 1] == player && board[x + 2][y + 2] == player && board[x + 3][y + 3] == player {
        return true;
    }
    if right && y >= 3 && board[x + 1][y - 1] == player && board[x + 2][y - 2] == player && board[x + 3][y - 3] == player {
        return true;
    }
    false
}

/// What `with_stone` holds: the named cell is the player's, every other cell is as it
/// was.
pub proof fn lemma_with_stone(board: [[u8; 6]; 7], column: int, row: int, player: u8)
    requires
        in_grid(column, row),
    ensures
        cell(with_stone(board, column, row, player), column, row) == player,
        forall|x: int, y: int| in_grid(x, y) && !(x == column && y == row)
            ==> #[trigger] cell(with_stone(board, column, row, player), x, y) == cell(board, x, y),
{
    let inner = spec_array_update(board[column], row, player);
    let outer = spec_array_update(board, column, inner);
    assert(inner@ == board[column]@.update(row, player));
    assert(outer@ == board@.update(column, inner));
    assert forall|x: int, y: int| in_grid(x, y) && !(x == column && y == row)
        implies #[trigger] cell(outer, x, y) == cell(board, x, y) by {
        if x == column {
            assert(outer[x] == inner);
            assert(inner[y] == board[column][y]);
        } else {
            assert(outer[x] == board[x]);
        }
    }
    assert(outer[column] == inner);
    assert(inner[row] == player);
}

/// The grid without stones holds none, and is one that play can reach.
pub proof fn lemma_empty_grid()
    ensures
        grid_wf(empty_grid()),
        forall|x: int, y: int| in_grid(x, y) ==> #[trigger] cell(empty_grid(), x, y) == 0,
{
    let column = spec_array_fill_for_copy_type::<u8, 6>(0u8);
    let grid = spec_array_fill_for_copy_type::<[u8; 6], 7>(column);
    assert forall|x: int, y: int| in_grid(x, y) implies #[trigger] cell(grid, x, y) == 0 by {
        assert(grid@[x] == column);
        assert(column@[y] == 0u8);
    }
}

/// The grid without stones is not full and holds no line of any player.
pub proof fn lemma_empty_grid_open(player: u8)
    requires
        player != 0,
    ensures
        !is_full(empty_grid()),
        !four_in_a_row(empty_grid(), player),
{
    lemma_empty_grid();
    assert(cell(empty_grid(), 0, 0) == 0);
    assert forall|x: int, y: int| in_grid(x, y) implies !#[trigger] wins_at(empty_grid(), player, x, y) by {
        assert(cell(empty_grid(), x, y) == 0);
    }
}

/// Where a dropped stone comes to rest: on the grid, in a cell that was empty.
pub proof fn lemma_landing_row(board: [[u8; 6]; 7], column: int)
    requires
        0 <= column < 7,
        cell(board, column, 0) == 0,
    ensures
        0 <= landing_row(board, column) < 6,
        cell(board, column, landing_row(board, column)) == 0,
{
    reveal_with_fuel(lowest_empty_from, 7);
}

/// A stone of player 1 or 2 dropped into a grid that play can reach leaves such a
/// grid.
pub proof fn lemma_dropped_wf(board: [[u8; 6]; 7], column: int, player: u8)
    requires
        0 <= column < 7,
        grid_wf(board),
        player == 1 || player == 2,
    ensures
        grid_wf(dropped(board, column, player)),
{
    if cell(board, column, 0) == 0 {
        let row = landing_row(board, column);
        lemma_landing_row(board, column);
        lemma_with_stone(board, column, row, player);
        let after = with_stone(board, column, row, player);
        reveal_with_fuel(lowest_empty_from, 7);
        assert forall|x: int, y: int| 0 <= x < 7 && 0 <= y < 5 && #[trigger] cell(after, x, y) != 0 implies cell(
            after,
            x,
            y + 1,
        ) != 0 by {
            if x == column && y + 1 == row {
                assert(cell(after, x, y) == cell(board, x, y));
                assert(cell(board, x, y) != 0);
                assert(cell(board, x, y + 1) != 0);
            } else if x == column && y == row {
                assert(cell(after, x, y + 1) == cell(board, x, y + 1));
            } else {
                assert(cell(after, x, y) == cell(board, x, y));
                assert(cell(after, x, y + 1) == cell(board, x, y + 1));
            }
        }
        assert forall|x: int, y: int| in_grid(x, y) implies #[trigger] cell(after, x, y) <= 2 by {
            if !(x == column && y == row) {
                assert(cell(after, x, y) == cell(board, x, y));
            }
        }
    }
}

/// A stone of one player completes no line of another.
pub proof fn lemma_stone_completes_no_line_of_other(board: [[u8; 6]; 7], column: int, player: u8, other: u8)
    requires
        0 <= column < 7,
        other != player,
        four_in_a_row(dropped(board, column, player), other),
    ensures
        four_in_a_row(board, other),
{
    if cell(board, column, 0) == 0 {
        let row = landing_row(board, column);
        lemma_landing_row(board, column);
        lemma_with_stone(board, column, row, player);
        let after = with_stone(board, column, row, player);
        let (x, y) = choose|x: int, y: int| in_grid(x, y) && #[trigger] wins_at(after, other, x, y);
        assert(cell(after, x, y) == other);
        if run_of_four(after, other, x, y, 1, 0) {
            assert(cell(after, x + 1, y) == other && cell(after, x + 2, y) == other && cell(after, x + 3, y) == other);
            assert(run_of_four(board, other, x, y, 1, 0));
        } else if run_of_four(after, other, x, y, 0, 1) {
            assert(cell(after, x, y + 1) == other && cell(after, x, y + 2) == other && cell(after, x, y + 3) == other);
            assert(run_of_four(board, other, x, y, 0, 1));
        } else if run_of_four(after, other, x, y, 1, 1) {
            assert(cell(after, x + 1, y + 1) == other && cell(after, x + 2, y + 2) == other && cell(after, x + 3, y + 3)
                == other);
            assert(run_of_four(board, other, x, y, 1, 1));
        } else {
            assert(cell(after, x + 1, y - 1) == other && cell(after, x + 2, y - 2) == other && cell(after, x + 3, y - 3)
                == other);
            assert(run_of_four(board, other, x, y, 1, -1));
        }
        assert(in_grid(x, y) && wins_at(board, other, x, y));
    }
}

/// A column holds six stones exactly when none of its cells is empty.
pub proof fn lemma_six_stones(board: [[u8; 6]; 7], x: int)
    ensures
        stones(board, x) == 6 <==> (forall|y: int| 0 <= y < 6 ==> cell(board, x, y) != 0),
        0 <= stones(board, x) <= 6,
{
    reveal_with_fuel(stones_in_top, 8);
    if stones(board, x) == 6 {
        assert(cell(board, x, 0) != 0);
        assert(cell(board, x, 1) != 0);
        assert(cell(board, x, 2) != 0);
        assert(cell(board, x, 3) != 0);
        assert(cell(board, x, 4) != 0);
        assert(cell(board, x, 5) != 0);
    }
}

} // verus!
