use tetrii::board::{Board, Report};
use tetrii::command::{Command, State};
use tetrii::grid::Grid;
use tetrii::piece::{Orientation, Piece};
use tetrii::timer::TimerKind;

const EMPTY10: u32 = 0xFFFF_F003;
const FULL: u32 = 0xFFFF_FFFF;

/// Rows for a 10x20 board: all empty but the given board rows.
fn rows_with(changes: &[(usize, u32)]) -> Vec<u32> {
    let mut rows = vec![EMPTY10; 22];
    rows.push(FULL);
    rows.push(FULL);
    for (row, word) in changes {
        rows[row + 2] = *word;
    }
    rows
}

fn running(first: Piece, second: Piece) -> Board {
    let mut b = Board::with_pieces(10, 20, first, second);
    b.do_command_with(Command::Resume, Piece::Square);
    assert_eq!(b.state(), State::Running);
    b
}

/// Steps down until the piece locks; returns every report on the way.
fn down_until_lock(b: &mut Board, drawn: Piece) -> Vec<Report> {
    let mut reports = Vec::new();
    for _ in 0..100 {
        let r = b.do_command_with(Command::Down, drawn);
        reports.push(r);
        if r.locked {
            return reports;
        }
    }
    panic!("piece never locked");
}

#[test]
fn new_board_is_empty_with_piece_at_spawn() {
    let b = Board::with_pieces(10, 20, Piece::Tee, Piece::El);
    assert_eq!(b.state(), State::Initial);
    assert_eq!(b.position(), (3, -1));
    assert_eq!(b.orientation(), Orientation::North);
    assert_eq!(b.current(), Piece::Tee);
    assert_eq!(b.next(), Piece::El);
    assert!(b.is_fresh());
    assert_eq!(b.score(), (0, 0));
    assert_eq!(b.piece_counts(), &vec![0, 1, 0, 0, 0, 0, 0]);
    assert_eq!(b.timer().kind, TimerKind::Stopped);
    for y in 0..20 {
        for x in 0..10 {
            assert!(!b.grid().occupied(x, y));
        }
    }
    // odd width: the box leans towards column 0
    let odd = Board::with_pieces(11, 20, Piece::Tee, Piece::El);
    assert_eq!(odd.position(), (3, -1));
    let wide = Board::with_pieces(28, 40, Piece::Bar, Piece::El);
    assert_eq!(wide.position(), (12, -1));
}

#[test]
fn end_to_end_bar_locks_on_floor() {
    let mut b = Board::with_pieces(10, 20, Piece::Bar, Piece::Tee);
    b.do_command_with(Command::Cheat(0), Piece::Tee);
    assert_eq!(b.next(), Piece::Bar);
    b.do_command_with(Command::Resume, Piece::Tee);
    for step in 0..3 {
        let r = b.do_command_with(Command::Down, Piece::Tee);
        assert!(r.moved);
        assert_eq!(b.position(), (3, step));
    }
    let reports = down_until_lock(&mut b, Piece::Tee);
    let scored: Vec<&Report> = reports.iter().filter(|r| r.points > 0 || r.lines > 0).collect();
    assert_eq!(scored.len(), 1);
    assert_eq!(scored[0].points, 12);
    assert_eq!(scored[0].lines, 0);
    assert!(!scored[0].finished);
    assert_eq!(b.score(), (12, 0));
    let mut set = Vec::new();
    for y in 0..20 {
        for x in 0..10 {
            if b.grid().occupied(x, y) {
                set.push((x, y));
            }
        }
    }
    assert_eq!(set, vec![(3, 19), (4, 19), (5, 19), (6, 19)]);
    assert_eq!(b.grid().rows()[21], 0xFFFF_F1E3);
    // the Bar that was forced by the cheat is now the active piece
    assert_eq!(b.current(), Piece::Bar);
    assert_eq!(b.next(), Piece::Tee);
    assert_eq!(b.position(), (3, -1));
    assert_eq!(b.piece_counts()[0], 2);
}

#[test]
fn tee_clearing_two_lines_scores_twenty_six() {
    let mut b = running(Piece::Tee, Piece::Square);
    assert!(b.load_grid(&rows_with(&[(18, 0xFFFF_FF1F), (19, 0xFFFF_FFBF)])));
    let reports = down_until_lock(&mut b, Piece::El);
    let last = reports.last().unwrap();
    assert!(last.locked);
    assert_eq!(last.points, 6 + 5 * 2 * 2);
    assert_eq!(last.points, 26);
    assert_eq!(last.lines, 2);
    assert_eq!(b.score(), (26, 2));
    assert_eq!(b.grid().rows(), &rows_with(&[]));
}

#[test]
fn lock_bonus_for_each_line_count() {
    // a vertical Bar dropped into a well clears 1 to 4 lines
    for n in 1..=4usize {
        let mut b = running(Piece::Bar, Piece::Square);
        assert!(b.do_command_with(Command::Clockwise, Piece::Square).moved);
        // the East Bar occupies column x + 1 = 4; leave that column open
        let well = FULL & !(1u32 << 6);
        let changes: Vec<(usize, u32)> = (0..n).map(|i| (19 - i, well)).collect();
        assert!(b.load_grid(&rows_with(&changes)));
        let last = *down_until_lock(&mut b, Piece::Square).last().unwrap();
        assert_eq!(last.lines as usize, n);
        assert_eq!(last.points as usize, 1 + 5 * n * n);
        assert_eq!(b.score(), ((1 + 5 * n * n) as u64, n as u64));
    }
}

#[test]
fn spawn_loss_finishes_and_freezes_board() {
    // column 4 is taken on every row below the top one
    let col4 = EMPTY10 | (1 << 6);
    let changes: Vec<(usize, u32)> = (1..20).map(|y| (y, col4)).collect();
    let mut b = running(Piece::Bar, Piece::Square);
    assert!(b.load_grid(&rows_with(&changes)));
    let r = b.do_command_with(Command::Down, Piece::Tee);
    assert!(r.locked);
    assert!(r.finished);
    assert_eq!(r.points, 12);
    assert_eq!(b.state(), State::Finished);
    assert_eq!(b.timer().kind, TimerKind::Stopped);
    let rows = b.grid().rows().clone();
    let pos = b.position();
    for c in [Command::Left, Command::Right, Command::Down, Command::Clockwise, Command::Drop, Command::Resume, Command::TogglePause] {
        let r = b.do_command_with(c, Piece::Tee);
        assert!(!r.moved && !r.locked);
        assert_eq!(b.grid().rows(), &rows);
        assert_eq!(b.position(), pos);
        assert_eq!(b.state(), State::Finished);
    }
    let g = b.timer().generation;
    assert!(!b.tick_with(g, Piece::Tee).moved);
    assert_eq!(b.grid().rows(), &rows);
}

#[test]
fn rotation_into_collision_is_refused() {
    let mut b = running(Piece::Bar, Piece::Square);
    // the East Bar would cover column 4 on board rows -1 to 2
    assert!(b.load_grid(&rows_with(&[(1, EMPTY10 | (1 << 6))])));
    let before = (b.position(), b.orientation(), b.grid().rows().clone());
    let r = b.do_command_with(Command::Clockwise, Piece::Tee);
    assert!(!r.moved);
    assert_eq!((b.position(), b.orientation(), b.grid().rows().clone()), before);
    assert!(!b.rotate_piece(Command::CounterClockwise));
    assert_eq!(b.orientation(), Orientation::North);
    // on an empty board the same turn is taken, in place
    let mut free = running(Piece::Bar, Piece::Square);
    assert!(free.rotate_piece(Command::Clockwise));
    assert_eq!(free.orientation(), Orientation::East);
    assert_eq!(free.position(), (3, -1));
}

#[test]
fn moves_are_in_grid_coordinates_and_stop_at_walls() {
    let mut b = running(Piece::Square, Piece::Tee);
    // the Square covers box columns 1 and 2
    let mut lefts = 0;
    while b.do_command_with(Command::Left, Piece::Tee).moved {
        lefts += 1;
    }
    assert_eq!(lefts, 4);
    assert_eq!(b.position(), (-1, -1));
    let mut rights = 0;
    while b.do_command_with(Command::Right, Piece::Tee).moved {
        rights += 1;
    }
    assert_eq!(rights, 8);
    assert_eq!(b.position(), (7, -1));
}

#[test]
fn commands_wait_until_started() {
    let mut b = Board::with_pieces(10, 20, Piece::Tee, Piece::El);
    for c in [Command::Left, Command::Right, Command::Down, Command::Clockwise, Command::Drop] {
        let r = b.do_command_with(c, Piece::Bar);
        assert!(!r.moved);
    }
    assert_eq!(b.position(), (3, -1));
    assert!(!b.dropping());
    b.do_command_with(Command::TogglePause, Piece::Bar);
    assert_eq!(b.state(), State::Running);
    assert_eq!(b.timer().kind, TimerKind::Step);
    assert_eq!(b.timer().msecs, 500);
    b.do_command_with(Command::TogglePause, Piece::Bar);
    assert_eq!(b.state(), State::Paused);
    assert_eq!(b.timer().kind, TimerKind::Stopped);
    assert!(!b.do_command_with(Command::Left, Piece::Bar).moved);
    b.do_command_with(Command::Cheat(3), Piece::Bar);
    assert_eq!(b.next(), Piece::Zee);
    b.do_command_with(Command::Cheat(7), Piece::Bar);
    assert_eq!(b.next(), Piece::Zee);
    assert_eq!(b.score(), (0, 0));
}

#[test]
fn stale_drop_tick_after_pause_and_resume_does_nothing() {
    let mut b = running(Piece::Tee, Piece::El);
    let step_generation = b.timer().generation;
    assert!(b.drop_piece());
    assert!(!b.drop_piece());
    let drop_generation = b.timer().generation;
    assert_ne!(drop_generation, step_generation);
    assert_eq!(b.timer().kind, TimerKind::Drop);
    assert_eq!(b.timer().msecs, 50);
    b.do_command_with(Command::Pause, Piece::Bar);
    b.do_command_with(Command::Resume, Piece::Bar);
    assert!(b.dropping());
    assert_eq!(b.timer().kind, TimerKind::Drop);
    let resumed_generation = b.timer().generation;
    assert_ne!(resumed_generation, drop_generation);
    let y = b.position().1;
    // ticks of the cancelled streams do nothing
    for g in [step_generation, drop_generation] {
        let r = b.tick_with(g, Piece::Bar);
        assert!(!r.moved && !r.locked);
        assert_eq!(b.position().1, y);
    }
    // one tick of the current stream: one row, one drop point
    let r = b.tick_with(resumed_generation, Piece::Bar);
    assert!(r.moved);
    assert_eq!(r.points, 1);
    assert_eq!(b.position().1, y + 1);
    assert_eq!(b.score(), (1, 0));
}

#[test]
fn drop_ends_at_lock_and_step_stream_returns() {
    let mut b = running(Piece::Square, Piece::El);
    assert!(b.drop_piece());
    let mut points = 0;
    loop {
        let g = b.timer().generation;
        let r = b.tick_with(g, Piece::Bar);
        points += r.points;
        if r.locked {
            break;
        }
    }
    // eighteen one-point steps, then the Square's four points
    assert_eq!(points, 18 + 4);
    assert_eq!(b.score(), (22, 0));
    assert!(!b.dropping());
    assert_eq!(b.timer().kind, TimerKind::Step);
    assert_eq!(b.current(), Piece::El);
    assert_eq!(b.next(), Piece::Bar);
}

#[test]
fn load_rejects_malformed_rows() {
    let mut b = running(Piece::Tee, Piece::El);
    let before = b.grid().rows().clone();
    // too short
    assert!(!b.load_grid(&vec![EMPTY10; 10]));
    // a border bit cleared
    assert!(!b.load_grid(&rows_with(&[(5, EMPTY10 & !1)])));
    // a floor row not full
    let mut floor = rows_with(&[]);
    floor[23] = EMPTY10;
    assert!(!b.load_grid(&floor));
    // the active piece would overlap
    assert!(!b.load_grid(&rows_with(&[(0, FULL)])));
    assert_eq!(b.grid().rows(), &before);
}

#[test]
fn random_commands_keep_the_board_consistent() {
    let mut b = Board::new(10, 20);
    b.do_command(Command::Resume);
    let commands = [Command::Left, Command::Right, Command::Down, Command::Clockwise, Command::CounterClockwise];
    for i in 0..2000 {
        if b.state() == State::Finished {
            break;
        }
        b.do_command(commands[i % commands.len()]);
        b.do_command(Command::Down);
        let g = b.timer().generation;
        b.tick(g);
    }
    assert!(b.score().0 > 0);
    assert_eq!(b.grid().rows().len(), 24);
    assert_eq!(b.grid().rows()[22], FULL);
    assert_eq!(b.grid().rows()[23], FULL);
    for w in b.grid().rows() {
        assert_eq!(w & !0x0000_0FFC, !0x0000_0FFC);
    }
}

#[test]
fn dumps_of_a_board() {
    let b = Board::with_pieces(10, 20, Piece::Tee, Piece::El);
    let bin = b.dump_binary();
    assert_eq!(bin.len(), 24);
    assert_eq!(bin[0], "11111111111111111111000000000011");
    assert_eq!(bin[23], "11111111111111111111111111111111");
    let hex = b.dump_hex();
    assert_eq!(hex[0], "0xFFFFF003");
    assert_eq!(hex[23], "0xFFFFFFFF");
    let g = Grid::new(8, 10);
    assert_eq!(g.dump_hex()[0], "0xFFFFFC03");
}

#[test]
fn active_piece_cells() {
    let b = Board::with_pieces(10, 20, Piece::Tee, Piece::El);
    // North Tee: three cells on box row 1, one below the middle
    let mut cells = Vec::new();
    for y in -1..3 {
        for x in 0..10 {
            if b.piece_at(x, y) {
                cells.push((x, y));
            }
        }
    }
    assert_eq!(cells, vec![(3, 0), (4, 0), (5, 0), (4, 1)]);
}

#[test]
fn widest_board_clears_against_both_walls() {
    let mut b = Board::with_pieces(28, 40, Piece::Bar, Piece::Tee);
    b.do_command_with(Command::Resume, Piece::Tee);
    // slide the Bar to the right wall: its box reaches columns 24 to 27
    while b.do_command_with(Command::Right, Piece::Tee).moved {}
    assert_eq!(b.position(), (24, -1));
    // bottom row full but for the Bar's four cells
    let mut rows = b.grid().rows().clone();
    rows[41] = FULL & !(0xF << 26);
    assert!(b.load_grid(&rows));
    let last = *down_until_lock(&mut b, Piece::Tee).last().unwrap();
    assert_eq!(last.lines, 1);
    assert_eq!(last.points, 12 + 5);
    assert_eq!(b.grid().rows(), Grid::new(28, 40).rows());
    // and to the left wall
    let mut c = Board::with_pieces(28, 40, Piece::Bar, Piece::Tee);
    c.do_command_with(Command::Resume, Piece::Tee);
    while c.do_command_with(Command::Left, Piece::Tee).moved {}
    assert_eq!(c.position(), (0, -1));
}

#[test]
fn change_state_and_prepare() {
    let mut b = Board::with_pieces(10, 20, Piece::Tee, Piece::El);
    assert!(b.change_state(State::Running));
    assert_eq!(b.state(), State::Running);
    assert_eq!(b.timer().kind, TimerKind::Step);
    assert!(b.change_state(State::Paused));
    assert_eq!(b.state(), State::Paused);
    assert_eq!(b.timer().kind, TimerKind::Stopped);
    assert!(b.change_state(State::Running));
    b.do_command_with(Command::Down, Piece::Bar);
    assert!(b.change_state(State::Finished));
    assert_eq!(b.state(), State::Finished);
    assert!(!b.change_state(State::Running));
    assert_eq!(b.state(), State::Finished);
    b.prepare();
    assert_eq!(b.state(), State::Initial);
    assert_eq!(b.score(), (0, 0));
    assert_eq!(b.position(), (3, -1));
    assert_eq!(b.grid().rows(), Grid::new(10, 20).rows());
}
