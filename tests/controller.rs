use tetrii::command::{Command, State};
use tetrii::controller::Controller;
use tetrii::piece::Piece;

#[test]
fn new_game_and_state_changes() {
    let mut c = Controller::new(3, 10, 20);
    assert_eq!(c.boards_len(), 3);
    assert_eq!(c.state(), State::Initial);
    assert_eq!(c.active_id(), 0);
    assert_eq!(c.score(), (0, 0));
    // moves wait for the start
    let pos = c.board(0).position();
    c.do_command_with(Command::Left, Piece::Bar);
    assert_eq!(c.board(0).position(), pos);
    c.do_command_with(Command::TogglePause, Piece::Bar);
    assert_eq!(c.state(), State::Running);
    for i in 0..3 {
        assert_eq!(c.board(i).state(), State::Running);
    }
    c.do_command_with(Command::Pause, Piece::Bar);
    assert_eq!(c.state(), State::Paused);
    for i in 0..3 {
        assert_eq!(c.board(i).state(), State::Paused);
    }
    c.do_command_with(Command::Resume, Piece::Bar);
    assert_eq!(c.state(), State::Running);
    c.toggle_state();
    assert_eq!(c.state(), State::Paused);
    c.toggle_state();
    assert_eq!(c.state(), State::Running);
}

#[test]
fn commands_go_to_the_active_board() {
    let mut c = Controller::new(2, 10, 20);
    c.set_state(State::Running);
    let (x0, _) = c.board(0).position();
    let (x1, _) = c.board(1).position();
    c.do_command_with(Command::Left, Piece::Bar);
    assert_eq!(c.board(0).position().0, x0 - 1);
    assert_eq!(c.board(1).position().0, x1);
    c.do_command_with(Command::SetBoard(1), Piece::Bar);
    assert_eq!(c.active_id(), 1);
    c.do_command_with(Command::Right, Piece::Bar);
    assert_eq!(c.board(0).position().0, x0 - 1);
    assert_eq!(c.board(1).position().0, x1 + 1);
    c.do_command_with(Command::SetBoard(7), Piece::Bar);
    assert_eq!(c.active_id(), 1);
    c.do_command_with(Command::Cheat(6), Piece::Bar);
    assert_eq!(c.board(1).next(), Piece::ReverseEl);
}

#[test]
fn scores_add_up_over_boards() {
    let mut c = Controller::new(2, 10, 20);
    c.set_state(State::Running);
    for _ in 0..40 {
        c.do_command_with(Command::Down, Piece::Square);
    }
    let (first_points, _) = c.board(0).score();
    assert!(first_points > 0);
    c.set_board(1);
    for _ in 0..40 {
        let g = c.board(1).timer().generation;
        c.tick_with(1, g, Piece::Square);
    }
    let (second_points, _) = c.board(1).score();
    assert!(second_points > 0);
    assert_eq!(c.score(), (first_points + second_points, 0));
    c.piece_crashed(5, 1);
    assert_eq!(c.score(), (first_points + second_points + 5, 1));
    // a tick for a board that does not exist does nothing
    c.tick_with(9, 1, Piece::Bar);
    assert_eq!(c.score(), (first_points + second_points + 5, 1));
}

#[test]
fn a_lost_board_ends_the_game() {
    let mut c = Controller::new(2, 10, 20);
    c.set_state(State::Running);
    for _ in 0..2000 {
        if c.state() == State::Finished {
            break;
        }
        c.do_command(Command::Down);
    }
    assert_eq!(c.state(), State::Finished);
    assert_eq!(c.board(0).state(), State::Finished);
    assert_eq!(c.board(1).state(), State::Finished);
    let score = c.score();
    c.do_command(Command::Down);
    c.do_command(Command::Resume);
    assert_eq!(c.state(), State::Finished);
    assert_eq!(c.score(), score);
    // cheats still reach the active board for inspection
    c.do_command(Command::Cheat(2));
    assert_eq!(c.board(0).next(), Piece::Square);
    assert_eq!(c.score(), score);
    // toggling a finished game starts a new one of the same size
    c.toggle_state();
    assert_eq!(c.state(), State::Initial);
    assert_eq!(c.boards_len(), 2);
    assert_eq!(c.score(), (0, 0));
    assert_eq!(c.board(1).width(), 10);
    assert_eq!(c.board(1).height(), 20);
}

#[test]
fn board_lost_finishes_every_board() {
    let mut c = Controller::new(4, 12, 30);
    c.set_state(State::Running);
    c.board_lost();
    assert_eq!(c.state(), State::Finished);
    for i in 0..4 {
        assert_eq!(c.board(i).state(), State::Finished);
        assert!(!c.board(i).dropping());
    }
}

#[test]
fn initialize_starts_over() {
    let mut c = Controller::new(2, 10, 20);
    c.set_state(State::Running);
    for _ in 0..30 {
        c.do_command_with(Command::Down, Piece::Bar);
    }
    assert!(c.score().0 > 0);
    c.set_board(1);
    c.initialize(3, 9, 12);
    assert_eq!(c.boards_len(), 3);
    assert_eq!(c.state(), State::Initial);
    assert_eq!(c.active_id(), 0);
    assert_eq!(c.score(), (0, 0));
    for i in 0..3 {
        assert_eq!(c.board(i).width(), 9);
        assert_eq!(c.board(i).height(), 12);
        assert_eq!(c.board(i).score(), (0, 0));
    }
}

#[test]
fn loading_rows_goes_to_the_active_board() {
    let mut c = Controller::new(2, 10, 20);
    c.set_board(1);
    let mut rows = c.board(1).grid().rows().clone();
    rows[21] = 0xFFFF_F007;
    assert!(c.load_grid(&rows));
    assert!(c.board(1).grid().occupied(0, 19));
    assert!(!c.board(0).grid().occupied(0, 19));
    rows[21] = 0;
    assert!(!c.load_grid(&rows));
    assert!(c.board(1).grid().occupied(0, 19));
}
