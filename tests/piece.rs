use tetrii::command::{Command, State};
use tetrii::piece::{Orientation, Piece, PIECE_COUNT};
use tetrii::timer::{delay, Timer, TimerKind};

const ALL: [Orientation; 4] = [Orientation::North, Orientation::East, Orientation::South, Orientation::West];

#[test]
fn catalogue_masks_and_points() {
    assert_eq!(Piece::Bar.mask(Orientation::North), 0x00f0);
    assert_eq!(Piece::Bar.mask(Orientation::East), 0x2222);
    assert_eq!(Piece::Tee.mask(Orientation::South), 0x0072);
    assert_eq!(Piece::El.mask(Orientation::South), 0x0071);
    assert_eq!(Piece::ReverseEl.mask(Orientation::East), 0x2230);
    assert_eq!(Piece::Bar.points(Orientation::North), 12);
    assert_eq!(Piece::Bar.points(Orientation::West), 1);
    assert_eq!(Piece::Tee.points(Orientation::East), 5);
    assert_eq!(Piece::El.points(Orientation::East), 6);
    assert_eq!(Piece::ReverseEl.points(Orientation::South), 6);
    for i in 0..PIECE_COUNT {
        let p = Piece::from_index(i).unwrap();
        assert_eq!(p.index(), i);
        // the top and bottom rows of every North box are empty
        assert_eq!(p.mask(Orientation::North) & 0xF00F, 0);
        for o in ALL {
            assert_eq!(p.mask(o).count_ones(), 4);
        }
    }
    assert!(Piece::from_index(7).is_none());
    assert_eq!(Piece::ReverseZee.name(), "ReverseZee");
    assert_eq!(Piece::Square.name(), "Square");
}

#[test]
fn orientation_cycle() {
    for (i, o) in ALL.iter().enumerate() {
        assert_eq!(o.offset(), i);
        assert_eq!(o.rotate(Command::Clockwise), ALL[(i + 1) % 4]);
        assert_eq!(o.rotate(Command::CounterClockwise), ALL[(i + 3) % 4]);
        assert_eq!(o.rotate(Command::Left), *o);
        assert_eq!(o.rotate(Command::Clockwise).rotate(Command::CounterClockwise), *o);
    }
}

#[test]
fn random_pieces_vary() {
    let mut seen = [false; 7];
    for _ in 0..500 {
        seen[Piece::random().index()] = true;
    }
    assert!(seen.iter().filter(|s| **s).count() >= 2);
}

#[test]
fn command_permissions() {
    assert!(Command::Left.allowed(&State::Running));
    assert!(!Command::Left.allowed(&State::Paused));
    assert!(!Command::Left.allowed(&State::Initial));
    assert!(Command::Resume.allowed(&State::Paused));
    assert!(Command::TogglePause.allowed(&State::Initial));
    assert!(Command::Cheat(3).allowed(&State::Paused));
    assert!(!Command::Resume.allowed(&State::Finished));
    assert!(Command::Cheat(3).allowed(&State::Finished));
    assert!(!Command::Down.allowed(&State::Finished));
    assert!(!Command::SetBoard(0).allowed(&State::Paused));
    assert!(Command::Cheat(1).always());
    assert!(!Command::Drop.always());
}

#[test]
fn tick_periods() {
    assert_eq!(delay(0, false), 500);
    assert_eq!(delay(9, false), 500);
    assert_eq!(delay(10, false), 450);
    assert_eq!(delay(25, false), 405);
    assert_eq!(delay(30, false), 364);
    assert_eq!(delay(40, false), 327);
    assert_eq!(delay(0, true), 50);
    assert_eq!(delay(10, true), 45);
    assert_eq!(delay(100_000, false), 0);
    assert_eq!(delay(u64::MAX, true), 0);
}

#[test]
fn timer_generations() {
    let mut t = Timer::new();
    assert!(!t.fires(0));
    t.start(TimerKind::Step, 500);
    assert_eq!(t.generation, 1);
    assert!(t.fires(1));
    assert!(!t.fires(0));
    t.stop();
    assert!(!t.fires(1));
    assert!(!t.fires(2));
    t.start(TimerKind::Drop, 50);
    assert!(t.fires(3));
    assert!(!t.fires(1));
    let mut w = Timer { generation: u64::MAX, kind: TimerKind::Step, msecs: 1 };
    w.start(TimerKind::Step, 1);
    assert_eq!(w.generation, 0);
}
