use pallet_connectfour::board::{
    BoardState, BoardStruct, Error, CLEANUP_BOARDS_AFTER, MAX_BLOCKS_PER_TURN, PLAYER_1, PLAYER_2,
};
use pallet_connectfour::connectfour::Logic;
use pallet_connectfour::pallet::{NonceDefault, Pallet};
use pallet_connectfour::schedule::{schedule_end_turn, Call, Event, ForcedEnd, Schedule, CONNECTFOUR_ID};
use sp_runtime::traits::BlakeTwo256;

/// A registry together with a clock and a scheduler that fires on demand.
struct Chain {
    pallet: Pallet,
    block: u64,
    agenda: Vec<Schedule>,
    refuse: bool,
}

impl Chain {
    fn new() -> Chain {
        Chain { pallet: Pallet::new(), block: 0, agenda: Vec::new(), refuse: false }
    }

    fn arm(&mut self, schedule: Schedule) -> Option<Vec<u8>> {
        if let Some(old) = &schedule.cancel {
            self.agenda.retain(|task| &task.name != old);
        }
        if self.refuse {
            return None;
        }
        self.agenda.retain(|task| task.name != schedule.name);
        let name = schedule.name.clone();
        self.agenda.push(schedule);
        Some(name)
    }

    fn arm_for(&mut self, schedule: Schedule) -> Result<(), Error> {
        let id = match schedule.call {
            Call::ForceEndTurn(id, _) => id,
            Call::DoSomething(_) => unreachable!(),
        };
        let name = self.arm(schedule);
        self.pallet.end_turn_scheduled(&id, name)
    }

    fn new_game(&mut self, sender: u64, opponent: u64) -> Result<(), Error> {
        let (_, schedule) = self.pallet.new_game(sender, opponent, b"create", self.block)?;
        self.arm_for(schedule)
    }

    fn play_turn(&mut self, sender: u64, column: u8) -> Result<(), Error> {
        let schedule = self.pallet.play_turn(sender, column, self.block)?;
        self.arm_for(schedule)
    }

    fn test_schedule(&mut self, delay: u64) -> Result<(), Error> {
        let schedule = Pallet::test_schedule(self.block, delay);
        match self.arm(schedule) {
            Some(_) => Ok(()),
            None => Err(Error::ScheduleError),
        }
    }

    fn fire(&mut self, call: Call) {
        match call {
            Call::DoSomething(value) => {
                self.pallet.do_something(0, value);
            }
            Call::ForceEndTurn(id, last_turn) => {
                if let ForcedEnd::Forfeited(schedule) = self.pallet.force_end_turn(&id, last_turn, self.block) {
                    let _ = self.arm_for(schedule);
                }
            }
        }
    }

    fn run_to_block(&mut self, n: u64) {
        while self.block < n {
            self.block += 1;
            let now = self.block;
            let due: Vec<Schedule> = self.agenda.iter().filter(|task| task.when == now).cloned().collect();
            self.agenda.retain(|task| task.when != now);
            for task in due {
                self.fire(task.call);
            }
        }
    }

    fn run_next_block(&mut self) {
        let next = self.block + 1;
        self.run_to_block(next);
    }

    fn board_of(&self, who: u64) -> BoardStruct {
        let id = self.pallet.player_board(who).unwrap();
        self.pallet.boards(&id).unwrap()
    }
}

fn task_name(id: &[u8; 32], last_turn: u64) -> Vec<u8> {
    let mut name = b"connect4".to_vec();
    name.extend_from_slice(id);
    name.extend_from_slice(&last_turn.to_le_bytes());
    name
}

fn expected_id(randomness: &[u8], sender: u64, nonce: u64) -> [u8; 32] {
    let mut input = [0u8; 32].to_vec();
    for (i, byte) in randomness.iter().take(32).enumerate() {
        input[i] = *byte;
    }
    input.extend_from_slice(&sender.to_le_bytes());
    input.push(32);
    input.extend_from_slice(&nonce.to_le_bytes());
    let mut id = [0u8; 32];
    id.copy_from_slice(<BlakeTwo256 as sp_runtime::traits::Hash>::hash(&input).as_ref());
    id
}

const DRAWN_GAME: [u8; 42] = [
    1, 0, 1, 0, 1, 0, 0, 1, 0, 1, 0, 1, 3, 2, 3, 2, 3, 2, 2, 3, 2, 3, 2, 3, 5, 4, 5, 4, 5, 4, 4, 6, 4, 6, 4, 6, 6,
    5, 6, 5, 6, 5,
];

#[test]
fn it_works_for_default_value() {
    let mut chain = Chain::new();
    let event = chain.pallet.do_something(1, 42);
    assert_eq!(event, Event::SomethingStored(42, 1));
    assert_eq!(chain.pallet.something(), Some(42));
}

#[test]
fn correct_error_for_none_value() {
    let mut chain = Chain::new();
    assert_eq!(chain.pallet.cause_error(), Err(Error::NoneValue));
    assert_eq!(chain.pallet.something(), None);
}

#[test]
fn test_game_creation() {
    let mut chain = Chain::new();

    assert_eq!(chain.new_game(1, 1), Err(Error::NoFakePlay));
    assert_eq!(chain.pallet.player_board(1), None);

    assert_eq!(chain.new_game(1, 2), Ok(()));
    chain.run_to_block(1);

    let board_id_1 = chain.pallet.player_board(1).unwrap();
    let board_id_2 = chain.pallet.player_board(2).unwrap();

    assert_eq!(board_id_1, board_id_2);

    assert_eq!(chain.new_game(1, 3), Err(Error::PlayerBoardExists));
    assert_eq!(chain.pallet.player_board(3), None);

    assert_eq!(chain.new_game(3, 2), Err(Error::PlayerBoardExists));
    assert_eq!(chain.pallet.player_board(3), None);

    let board = chain.pallet.boards(&board_id_1).unwrap();

    assert_eq!(board.last_turn, 0);
}

#[test]
fn test_game_play() {
    let mut chain = Chain::new();
    let mut current_block: u64 = 100;

    chain.run_to_block(current_block);

    assert_eq!(chain.new_game(PLAYER_1 as u64, PLAYER_2 as u64), Ok(()));
    let board_id = chain.pallet.player_board(PLAYER_1 as u64).unwrap();
    let board = chain.pallet.boards(&board_id).unwrap();
    assert_eq!(board.last_turn, current_block);

    chain.run_next_block();
    current_block = current_block + 1;

    assert_eq!(chain.block, current_block);

    if board.next_player == PLAYER_1 {
        assert_eq!(chain.play_turn(PLAYER_1 as u64, 0), Ok(()));
        let board = chain.pallet.boards(&board_id).unwrap();
        assert!(board.board_state == BoardState::Running);
        assert!(board.next_player == PLAYER_2);
        assert_eq!(board.last_turn, current_block);

        chain.run_next_block();
        current_block = current_block + 1;
    }

    assert_eq!(chain.play_turn(PLAYER_2 as u64, 1), Ok(()));
    let board = chain.pallet.boards(&board_id).unwrap();
    assert_eq!(board.last_turn, current_block);
    assert!(board.board_state == BoardState::Running);
    assert!(board.next_player == PLAYER_1);

    chain.run_next_block();
    current_block = current_block + 1;

    assert_eq!(chain.play_turn(PLAYER_1 as u64, 2), Ok(()));
    let board = chain.pallet.boards(&board_id).unwrap();
    assert!(board.board_state == BoardState::Running);

    chain.run_next_block();
    current_block = current_block + 1;

    assert_eq!(chain.play_turn(PLAYER_2 as u64, 1), Ok(()));
    let board = chain.pallet.boards(&board_id).unwrap();
    assert!(board.board_state == BoardState::Running);

    chain.run_next_block();
    current_block = current_block + 1;

    assert_eq!(chain.play_turn(PLAYER_1 as u64, 3), Ok(()));
    let board = chain.pallet.boards(&board_id).unwrap();
    assert!(board.board_state == BoardState::Running);

    chain.run_next_block();
    current_block = current_block + 1;

    assert_eq!(chain.play_turn(PLAYER_2 as u64, 1), Ok(()));
    let board = chain.pallet.boards(&board_id).unwrap();
    assert!(board.board_state == BoardState::Running);

    chain.run_next_block();
    current_block = current_block + 1;

    assert_eq!(chain.play_turn(PLAYER_1 as u64, 4), Ok(()));
    let board = chain.pallet.boards(&board_id).unwrap();
    assert!(board.board_state == BoardState::Running);

    chain.run_next_block();
    current_block = current_block + 1;

    assert_eq!(chain.play_turn(PLAYER_2 as u64, 1), Ok(()));
    let board = chain.pallet.boards(&board_id).unwrap();
    assert!(board.board_state == BoardState::Finished(Some(board.blue)));
    assert_eq!(board.last_turn, current_block);
}

#[test]
fn test_game_events() {
    let mut chain = Chain::new();
    let blocks_to_pass = 10;
    let mut current_block: u64 = 100;

    chain.run_to_block(current_block);

    assert_eq!(None, chain.pallet.something());

    assert_eq!(chain.test_schedule(blocks_to_pass), Ok(()));

    chain.run_next_block();
    current_block = current_block + 1;

    assert_eq!(None, chain.pallet.something());

    chain.run_to_block(current_block + blocks_to_pass);

    assert_eq!(77, chain.pallet.something().unwrap());
}

#[test]
fn test_force_turn() {
    let mut chain = Chain::new();
    let mut current_block: u64 = 100;

    chain.run_to_block(current_block);

    assert_eq!(chain.new_game(PLAYER_1 as u64, PLAYER_2 as u64), Ok(()));
    let board_id = chain.pallet.player_board(PLAYER_1 as u64).unwrap();
    let board = chain.pallet.boards(&board_id).unwrap();
    assert_eq!(board.last_turn, current_block);

    chain.run_next_block();
    current_block = current_block + 1;

    assert_eq!(chain.block, current_block);

    if board.next_player == PLAYER_1 {
        assert_eq!(chain.play_turn(PLAYER_1 as u64, 0), Ok(()));
        let board = chain.pallet.boards(&board_id).unwrap();
        assert!(board.board_state == BoardState::Running);
        assert!(board.next_player == PLAYER_2);
        assert_eq!(board.last_turn, current_block);

        chain.run_next_block();
        current_block = current_block + 1;
    }

    assert_eq!(chain.play_turn(PLAYER_2 as u64, 1), Ok(()));
    let board = chain.pallet.boards(&board_id).unwrap();
    assert_eq!(board.last_turn, current_block);
    assert!(board.board_state == BoardState::Running);
    assert!(board.next_player == PLAYER_1);

    chain.run_to_block(current_block + 10);
    current_block = current_block + 10;

    let board = chain.pallet.boards(&board_id).unwrap();
    assert_eq!(board.last_turn, current_block);
    assert!(board.board_state == BoardState::Finished(Some(board.blue)));

    assert!(chain.pallet.boards(&board_id).is_some());
    assert!(chain.pallet.player_board(board.red).is_some());
    assert!(chain.pallet.player_board(board.blue).is_some());
    assert!(chain.pallet.board_schedules(&board_id).is_some());

    chain.run_to_block(current_block + 20);

    assert!(chain.pallet.boards(&board_id).is_none());
    assert!(chain.pallet.player_board(board.red).is_none());
    assert!(chain.pallet.player_board(board.blue).is_none());
    assert!(chain.pallet.board_schedules(&board_id).is_none());
}

#[test]
fn new_registry_is_empty() {
    let pallet = Pallet::new();
    assert_eq!(NonceDefault(), 0);
    assert_eq!(pallet.something(), None);
    assert_eq!(pallet.player_board(1), None);
    assert_eq!(pallet.boards(&[0u8; 32]), None);
    assert_eq!(pallet.board_schedules(&[0u8; 32]), None);
}

#[test]
fn stored_value_counts_up_until_it_cannot() {
    let mut pallet = Pallet::new();
    pallet.do_something(7, 41);
    assert_eq!(pallet.cause_error(), Ok(()));
    assert_eq!(pallet.something(), Some(42));
    pallet.do_something(7, u32::MAX);
    assert_eq!(pallet.cause_error(), Err(Error::StorageOverflow));
    assert_eq!(pallet.something(), Some(u32::MAX));
}

#[test]
fn test_task_is_named_and_timed() {
    let schedule = Pallet::test_schedule(100, 10);
    let mut name = b"connect4".to_vec();
    name.extend_from_slice(&[77, 0, 0, 0]);
    assert_eq!(schedule.name, name);
    assert_eq!(schedule.when, 110);
    assert_eq!(schedule.call, Call::DoSomething(77));
    assert_eq!(schedule.cancel, None);
}

#[test]
fn tag_spells_connect4() {
    assert_eq!(&CONNECTFOUR_ID, b"connect4");
}

#[test]
fn nonce_bytes_are_little_endian_and_count_up() {
    let mut pallet = Pallet::new();
    assert_eq!(pallet.encode_and_update_nonce(), vec![0, 0, 0, 0, 0, 0, 0, 0]);
    assert_eq!(pallet.encode_and_update_nonce(), vec![1, 0, 0, 0, 0, 0, 0, 0]);
    for _ in 2..258 {
        pallet.encode_and_update_nonce();
    }
    assert_eq!(pallet.encode_and_update_nonce(), vec![2, 1, 0, 0, 0, 0, 0, 0]);
}

#[test]
fn board_identifier_is_the_digest_of_seed_sender_and_nonce() {
    let mut pallet = Pallet::new();
    assert_eq!(pallet.generate_random_hash(b"create", 1), expected_id(b"create", 1, 0));
    assert_eq!(pallet.generate_random_hash(b"create", 1), expected_id(b"create", 1, 1));
    assert_eq!(pallet.generate_random_hash(b"create", 9), expected_id(b"create", 9, 2));
    let long = [7u8; 40];
    assert_eq!(pallet.generate_random_hash(&long, 9), expected_id(&long, 9, 3));
    assert_eq!(pallet.generate_random_hash(&[], 9), expected_id(&[], 9, 4));
}

#[test]
fn new_game_opens_the_board_and_asks_for_the_turn_deadline() {
    let mut pallet = Pallet::new();
    let (event, schedule) = pallet.new_game(5, 6, b"create", 100).unwrap();
    let id = expected_id(b"create", 5, 0);
    assert_eq!(event, Event::NewBoard(id));
    assert_eq!(schedule.cancel, None);
    assert_eq!(schedule.name, task_name(&id, 100));
    assert_eq!(schedule.when, 100 + MAX_BLOCKS_PER_TURN);
    assert_eq!(schedule.when, 110);
    assert_eq!(schedule.call, Call::ForceEndTurn(id, 100));
    assert_eq!(pallet.player_board(5), Some(id));
    assert_eq!(pallet.player_board(6), Some(id));
    let board = pallet.boards(&id).unwrap();
    assert_eq!(board.id, id);
    assert_eq!(board.red, 5);
    assert_eq!(board.blue, 6);
    assert_eq!(board.board, [[0u8; 6]; 7]);
    assert_eq!(board.last_turn, 100);
    assert_eq!(board.next_player, if id[0] < 128 { PLAYER_1 } else { PLAYER_2 });
    assert_eq!(board.board_state, BoardState::Running);
    assert_eq!(pallet.board_schedules(&id), None);
    assert_eq!(pallet.end_turn_scheduled(&id, Some(schedule.name.clone())), Ok(()));
    assert_eq!(pallet.board_schedules(&id), Some(schedule.name));
}

#[test]
fn first_turn_follows_the_first_byte_of_the_identifier() {
    let mut low = [0u8; 32];
    low[0] = 127;
    let mut high = [0u8; 32];
    high[0] = 128;
    assert_eq!(BoardStruct::new(low, 1, 2, 0).next_player, PLAYER_1);
    assert_eq!(BoardStruct::new(high, 1, 2, 0).next_player, PLAYER_2);
    assert_eq!(BoardStruct::new(low, 1, 2, 0).current_account(), 1);
    assert_eq!(BoardStruct::new(high, 1, 2, 0).current_account(), 2);
}

#[test]
fn create_game_refuses_an_identifier_in_use() {
    let mut pallet = Pallet::new();
    let id = [3u8; 32];
    assert!(pallet.create_game(1, 2, id, 0).is_ok());
    assert_eq!(pallet.create_game(3, 4, id, 0), Err(Error::WrongLogic));
    assert_eq!(pallet.player_board(3), None);
    assert_eq!(pallet.player_board(4), None);
    assert_eq!(pallet.create_game(3, 3, id, 0), Err(Error::NoFakePlay));
    assert_eq!(pallet.create_game(1, 4, [4u8; 32], 0), Err(Error::PlayerBoardExists));
    assert_eq!(pallet.create_game(4, 2, [4u8; 32], 0), Err(Error::PlayerBoardExists));
    assert!(pallet.create_game(3, 4, [4u8; 32], 0).is_ok());
    assert_eq!(pallet.player_board(4), Some([4u8; 32]));
    assert_eq!(pallet.player_board(1), Some(id));
}

#[test]
fn moves_are_refused_with_the_first_reason_that_holds() {
    let mut pallet = Pallet::new();
    let mut id = [0u8; 32];
    id[0] = 1;
    pallet.create_game(1, 2, id, 0).unwrap();
    assert_eq!(pallet.play_turn(3, 0, 1), Err(Error::NoPlayerBoard));
    assert_eq!(pallet.apply_move(&[9u8; 32], 1, 0, 1), Err(Error::MatchNotFound));
    assert_eq!(pallet.play_turn(2, 0, 1), Err(Error::NotPlayerTurn));
    assert_eq!(pallet.play_turn(2, 7, 1), Err(Error::NotPlayerTurn));
    assert_eq!(pallet.apply_move(&id, 3, 0, 1), Err(Error::NotPlayerTurn));
    assert_eq!(pallet.play_turn(1, 7, 1), Err(Error::InvalidMove));
    assert_eq!(pallet.play_turn(1, 255, 1), Err(Error::InvalidMove));
    let untouched = pallet.boards(&id).unwrap();
    assert_eq!(untouched, BoardStruct::new(id, 1, 2, 0));
    for n in 0..6u64 {
        assert!(pallet.play_turn(1 + n % 2, 0, 1).is_ok());
    }
    let before = pallet.boards(&id).unwrap();
    assert_eq!(before.board[0], [2, 1, 2, 1, 2, 1]);
    assert_eq!(pallet.play_turn(1, 0, 2), Err(Error::InvalidMove));
    assert_eq!(pallet.boards(&id).unwrap(), before);
    assert!(pallet.play_turn(1, 1, 3).is_ok());
    assert!(pallet.play_turn(2, 6, 3).is_ok());
    assert!(pallet.play_turn(1, 2, 3).is_ok());
    assert!(pallet.play_turn(2, 6, 3).is_ok());
    assert!(pallet.play_turn(1, 3, 3).is_ok());
    let won = pallet.boards(&id).unwrap();
    assert_eq!(won.board_state, BoardState::Finished(Some(1)));
    assert_eq!(pallet.play_turn(2, 6, 4), Err(Error::MatchNotRunning));
    assert_eq!(pallet.play_turn(1, 6, 4), Err(Error::MatchNotRunning));
    assert_eq!(pallet.boards(&id).unwrap(), won);
}

#[test]
fn turns_alternate_after_every_accepted_move() {
    let mut pallet = Pallet::new();
    let mut id = [0u8; 32];
    id[0] = 200;
    pallet.create_game(10, 20, id, 0).unwrap();
    let mut mover = 20;
    for n in 0..8u8 {
        let board = pallet.boards(&id).unwrap();
        assert_eq!(board.current_account(), mover);
        let other = if mover == 10 { 20 } else { 10 };
        assert_eq!(pallet.play_turn(other, n % 7, 1), Err(Error::NotPlayerTurn));
        assert!(pallet.play_turn(mover, n % 7, 1).is_ok());
        assert_eq!(pallet.boards(&id).unwrap().current_account(), other);
        mover = other;
    }
}

#[test]
fn a_move_cancels_the_old_deadline_and_asks_for_the_next() {
    let mut pallet = Pallet::new();
    let mut id = [0u8; 32];
    id[0] = 1;
    let (_, first) = pallet.create_game(1, 2, id, 100).unwrap();
    assert_eq!(first, schedule_end_turn(id, 100, 110, None));
    pallet.end_turn_scheduled(&id, Some(first.name.clone())).unwrap();
    let second = pallet.play_turn(1, 0, 104).unwrap();
    assert_eq!(second.cancel, Some(first.name));
    assert_eq!(second.name, task_name(&id, 104));
    assert_eq!(second.when, 114);
    assert_eq!(second.call, Call::ForceEndTurn(id, 104));
    assert_eq!(pallet.board_schedules(&id), None);
    assert_eq!(pallet.end_turn_scheduled(&id, None), Err(Error::ScheduleError));
    assert_eq!(pallet.board_schedules(&id), None);
    assert_eq!(pallet.end_turn_scheduled(&[8u8; 32], Some(vec![1])), Err(Error::MatchNotFound));
    let third = pallet.play_turn(2, 0, 105).unwrap();
    assert_eq!(third.cancel, None);
    assert_eq!(third.when, 115);
}

#[test]
fn a_winning_move_asks_for_the_removal_deadline() {
    let mut pallet = Pallet::new();
    let mut id = [0u8; 32];
    id[0] = 1;
    pallet.create_game(1, 2, id, 0).unwrap();
    for column in 0..3u8 {
        assert_eq!(pallet.play_turn(1, column, 50).unwrap().when, 50 + MAX_BLOCKS_PER_TURN);
        assert!(pallet.play_turn(2, column, 50).is_ok());
    }
    let last = pallet.play_turn(1, 3, 60).unwrap();
    assert_eq!(last.when, 60 + CLEANUP_BOARDS_AFTER);
    assert_eq!(last.when, 80);
    assert_eq!(last.call, Call::ForceEndTurn(id, 60));
    let board = pallet.boards(&id).unwrap();
    assert_eq!(board.board_state, BoardState::Finished(Some(1)));
    assert_eq!(board.next_player, PLAYER_2);
    assert_eq!(board.last_turn, 60);
}

#[test]
fn a_full_grid_without_a_line_is_a_draw() {
    let mut chain = Chain::new();
    assert_eq!(chain.new_game(1, 2), Ok(()));
    let first = chain.board_of(1).current_account();
    let second = if first == 1 { 2 } else { 1 };
    for (n, column) in DRAWN_GAME.iter().enumerate() {
        assert_eq!(chain.board_of(1).board_state, BoardState::Running);
        let mover = if n % 2 == 0 { first } else { second };
        assert_eq!(chain.play_turn(mover, *column), Ok(()));
        chain.run_next_block();
    }
    let board = chain.board_of(1);
    assert_eq!(board.board_state, BoardState::Finished(None));
    assert_eq!(board.last_turn, 41);
    for column in board.board.iter() {
        for cell in column.iter() {
            assert!(*cell == PLAYER_1 || *cell == PLAYER_2);
        }
    }
    assert_eq!(chain.play_turn(first, 0), Err(Error::MatchNotRunning));
}

#[test]
fn a_win_on_the_last_cell_is_no_draw() {
    let mut grid = [[0u8; 6]; 7];
    let rows: [[u8; 7]; 6] = [
        [0, 2, 1, 2, 1, 2, 1],
        [1, 1, 1, 2, 1, 2, 1],
        [1, 2, 1, 2, 1, 2, 1],
        [2, 1, 2, 1, 2, 1, 2],
        [2, 1, 2, 1, 2, 1, 2],
        [2, 1, 2, 1, 2, 1, 2],
    ];
    for y in 0..6 {
        for x in 0..7 {
            grid[x][y] = rows[y][x];
        }
    }
    let board = BoardStruct {
        id: [0u8; 32],
        red: 1,
        blue: 2,
        board: grid,
        last_turn: 0,
        next_player: PLAYER_1,
        board_state: BoardState::Running,
    };
    assert!(!Logic::evaluate(grid, PLAYER_1));
    assert!(!Logic::evaluate(grid, PLAYER_2));
    assert!(!Logic::full(grid));
    let after = board.play_turn(1, 0, 9).unwrap();
    assert!(Logic::full(after.board));
    assert_eq!(after.board[0][0], PLAYER_1);
    assert_eq!(after.board_state, BoardState::Finished(Some(1)));
    assert_eq!(after.next_player, PLAYER_2);
    assert_eq!(after.last_turn, 9);
}

#[test]
fn an_elapsed_turn_deadline_forfeits_the_turn_owner() {
    let mut chain = Chain::new();
    chain.run_to_block(100);
    assert_eq!(chain.new_game(1, 2), Ok(()));
    let board = chain.board_of(1);
    let due = board.current_account();
    let other = if due == 1 { 2 } else { 1 };
    chain.run_to_block(109);
    assert_eq!(chain.board_of(1), board);
    chain.run_to_block(110);
    let after = chain.board_of(1);
    assert_eq!(after.board_state, BoardState::Finished(Some(other)));
    assert_eq!(after.last_turn, 110);
    assert_eq!(after.next_player, board.next_player);
    assert_eq!(after.board, board.board);
    assert_eq!(chain.pallet.board_schedules(&board.id), Some(task_name(&board.id, 110)));
    assert_eq!(chain.play_turn(due, 0), Err(Error::MatchNotRunning));
}

#[test]
fn an_elapsed_removal_deadline_removes_the_board() {
    let mut chain = Chain::new();
    chain.run_to_block(100);
    assert_eq!(chain.new_game(1, 2), Ok(()));
    let id = chain.pallet.player_board(1).unwrap();
    chain.run_to_block(110);
    chain.run_to_block(129);
    assert!(chain.pallet.boards(&id).is_some());
    assert_eq!(chain.pallet.player_board(1), Some(id));
    chain.run_to_block(130);
    assert_eq!(chain.pallet.boards(&id), None);
    assert_eq!(chain.pallet.player_board(1), None);
    assert_eq!(chain.pallet.player_board(2), None);
    assert_eq!(chain.pallet.board_schedules(&id), None);
    assert_eq!(chain.play_turn(1, 0), Err(Error::NoPlayerBoard));
    assert_eq!(chain.new_game(2, 1), Ok(()));
}

#[test]
fn a_stale_deadline_is_ignored() {
    let mut pallet = Pallet::new();
    let mut id = [0u8; 32];
    id[0] = 1;
    pallet.create_game(1, 2, id, 100).unwrap();
    assert!(pallet.play_turn(1, 0, 110).is_ok());
    let before = pallet.boards(&id).unwrap();
    assert_eq!(pallet.force_end_turn(&id, 100, 110), ForcedEnd::Superseded);
    let after = pallet.boards(&id).unwrap();
    assert_eq!(after, before);
    assert_eq!(after.board_state, BoardState::Running);
    assert_eq!(after.last_turn, 110);
    assert_eq!(pallet.player_board(1), Some(id));
    assert_eq!(pallet.force_end_turn(&[5u8; 32], 100, 110), ForcedEnd::NoBoard);
    assert_eq!(pallet.boards(&id).unwrap(), before);
}

#[test]
fn a_matching_deadline_forfeits_and_then_removes() {
    let mut pallet = Pallet::new();
    let mut id = [0u8; 32];
    id[0] = 255;
    pallet.create_game(1, 2, id, 100).unwrap();
    pallet.end_turn_scheduled(&id, Some(task_name(&id, 100))).unwrap();
    let ended = pallet.force_end_turn(&id, 100, 110);
    assert_eq!(ended, ForcedEnd::Forfeited(schedule_end_turn(id, 110, 130, None)));
    let board = pallet.boards(&id).unwrap();
    assert_eq!(board.board_state, BoardState::Finished(Some(1)));
    assert_eq!(pallet.board_schedules(&id), None);
    assert_eq!(pallet.force_end_turn(&id, 100, 130), ForcedEnd::Superseded);
    assert_eq!(pallet.force_end_turn(&id, 110, 130), ForcedEnd::Removed);
    assert_eq!(pallet.boards(&id), None);
    assert_eq!(pallet.force_end_turn(&id, 110, 130), ForcedEnd::NoBoard);
}

#[test]
fn a_refused_deadline_is_reported() {
    let mut chain = Chain::new();
    chain.refuse = true;
    assert_eq!(chain.new_game(1, 2), Err(Error::ScheduleError));
    let id = chain.pallet.player_board(1).unwrap();
    assert_eq!(chain.pallet.board_schedules(&id), None);
    assert_eq!(chain.test_schedule(3), Err(Error::ScheduleError));
}

#[test]
fn record_level_forfeit_names_the_waiting_participant() {
    let mut id = [0u8; 32];
    id[0] = 1;
    let board = BoardStruct::new(id, 7, 8, 3);
    assert!(board.is_running());
    let lost = board.force_end_turn(13).unwrap();
    assert_eq!(lost.board_state, BoardState::Finished(Some(8)));
    assert_eq!(lost.last_turn, 13);
    assert!(!lost.is_running());
    assert_eq!(lost.force_end_turn(33), None);
}

#[test]
fn removing_a_board_twice_changes_nothing_the_second_time() {
    let mut pallet = Pallet::new();
    pallet.create_game(1, 2, [1u8; 32], 0).unwrap();
    pallet.create_game(3, 4, [2u8; 32], 0).unwrap();
    assert!(pallet.remove_match(&[1u8; 32]));
    assert_eq!(pallet.boards(&[1u8; 32]), None);
    assert_eq!(pallet.player_board(1), None);
    assert_eq!(pallet.player_board(2), None);
    assert_eq!(pallet.player_board(3), Some([2u8; 32]));
    assert!(!pallet.remove_match(&[1u8; 32]));
    assert_eq!(pallet.player_board(4), Some([2u8; 32]));
    assert!(pallet.boards(&[2u8; 32]).is_some());
}
