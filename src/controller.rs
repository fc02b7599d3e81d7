use vstd::prelude::*;

use crate::board::{Board, BoardView, Report, sat_add};
use crate::command::{Command, State, spec_allowed};
use crate::grid::GridView;
use crate::piece::Piece;

verus! {

/// The most boards a game can hold.
pub const MAX_BOARDS: u32 = 5;

/// The abstract state of a game of several boards.
pub struct ControllerView {
    pub boards: Seq<BoardView>,
    /// The board that receives moves, turns, drops and cheats.
    pub active: int,
    pub points: u64,
    pub lines: u64,
    pub state: State,
}

/// Every board with `c` applied; these commands draw no piece.
pub open spec fn all_after(boards: Seq<BoardView>, c: Command) -> Seq<BoardView> {
    boards.map_values(|b: BoardView| b.after_command(c, b.next))
}

/// Every board finished.
pub open spec fn all_finished(boards: Seq<BoardView>) -> Seq<BoardView> {
    boards.map_values(|b: BoardView| b.finished())
}

impl ControllerView {
    pub open spec fn wf(self) -> bool {
        &&& 1 <= self.boards.len() <= MAX_BOARDS
        &&& 0 <= self.active < self.boards.len()
        &&& forall|i: int| 0 <= i < self.boards.len() ==> (#[trigger] self.boards[i]).wf()
    }

    /// The game moved to state `s`: pausing pauses every board, running
    /// starts or resumes every board, finishing finishes every board.
    /// Moving to the state the game is in does nothing.
    pub open spec fn with_state(self, s: State) -> ControllerView {
        if s == self.state {
            self
        } else {
            ControllerView {
                boards: match s {
                    State::Paused => all_after(self.boards, Command::Pause),
                    State::Running => all_after(self.boards, Command::Resume),
                    State::Finished => all_finished(self.boards),
                    State::Initial => self.boards,
                },
                state: s,
                ..self
            }
        }
    }

    /// The game after board `i` became `b` and reported `rep`: its points
    /// and lines are added to the totals, and if it has just finished the
    /// whole game finishes.
    pub open spec fn absorbed(self, i: int, b: BoardView, rep: Report) -> ControllerView {
        let v = ControllerView {
            boards: self.boards.update(i, b),
            points: sat_add(self.points, rep.points as int),
            lines: sat_add(self.lines, rep.lines as int),
            ..self
        };
        if rep.finished {
            v.with_state(State::Finished)
        } else {
            v
        }
    }

    /// The game after a board command for the active board.
    pub open spec fn forwarded(self, c: Command, drawn: Piece) -> ControllerView {
        let b = self.boards[self.active];
        self.absorbed(self.active, b.after_command(c, drawn), b.command_report(c, drawn))
    }

    /// The game after command `c`, with `drawn` as the piece a lock would
    /// draw. Nothing happens to a command the game's state does not allow.
    /// Moves, turns, drops and cheats go to the active board; pausing,
    /// resuming and toggling change the state of the whole game; choosing
    /// an existing board makes it the active one.
    pub open spec fn after_command(self, c: Command, drawn: Piece) -> ControllerView {
        if !spec_allowed(c, self.state) {
            self
        } else {
            match c {
                Command::Pause => self.with_state(State::Paused),
                Command::Resume => self.with_state(State::Running),
                Command::TogglePause => if self.state == State::Running {
                    self.with_state(State::Paused)
                } else {
                    self.with_state(State::Running)
                },
                Command::SetBoard(id) => if id < self.boards.len() {
                    ControllerView { active: id as int, ..self }
                } else {
                    self
                },
                Command::Nop => self,
                _ => self.forwarded(c, drawn),
            }
        }
    }

    /// The game after a tick for board `id` scheduled under `generation`.
    pub open spec fn after_tick(self, id: int, generation: u64, drawn: Piece) -> ControllerView {
        if 0 <= id < self.boards.len() {
            let b = self.boards[id];
            self.absorbed(id, b.after_tick(generation, drawn), b.tick_report(generation, drawn))
        } else {
            self
        }
    }
}

/// When a board reports that it has just finished, the whole game
/// finishes: every board is finished, with no tick stream left running,
/// and the report's points and lines are still added to the totals.
pub proof fn lemma_loss_ends_game(v: ControllerView, i: int, b: BoardView, rep: Report)
    requires
        v.state != State::Finished,
        0 <= i < v.boards.len(),
        rep.finished,
    ensures
        v.absorbed(i, b, rep).state == State::Finished,
        v.absorbed(i, b, rep).boards.len() == v.boards.len(),
        forall|j: int|
            0 <= j < v.boards.len() ==> (#[trigger] v.absorbed(i, b, rep).boards[j]).state == State::Finished
                && v.absorbed(i, b, rep).boards[j].timer.kind == crate::timer::TimerKind::Stopped,
        v.absorbed(i, b, rep).points == sat_add(v.points, rep.points as int),
        v.absorbed(i, b, rep).lines == sat_add(v.lines, rep.lines as int),
{
    let a = v.absorbed(i, b, rep);
    assert forall|j: int| 0 <= j < v.boards.len() implies (#[trigger] a.boards[j]).state == State::Finished
        && a.boards[j].timer.kind == crate::timer::TimerKind::Stopped by {
        assert(a.boards[j] == v.boards.update(i, b)[j].finished());
    }
}

/// A game of one to `MAX_BOARDS` boards played side by side, with one
/// active board receiving the player's moves, and a common score.
#[derive(Debug)]
pub struct Controller {
    boards: Vec<Board>,
    active: u32,
    points: u64,
    lines: u64,
    state: State,
}

impl View for Controller {
    type V = ControllerView;

    closed spec fn view(&self) -> ControllerView {
        ControllerView {
            boards: self.boards@.map_values(|b: Board| b@),
            active: self.active as int,
            points: self.points,
            lines: self.lines,
            state: self.state,
        }
    }
}

impl Controller {
    /// A game of `count` fresh boards, `width` cells wide and `height`
    /// tall, not started yet, with the first board active and no score.
    pub fn new(count: u32, width: u32, height: u32) -> (c: Controller)
        requires
            1 <= count <= MAX_BOARDS,
            8 <= width <= 28,
            10 <= height <= 40,
        ensures
            c@.wf(),
            c@.boards.len() == count,
            forall|i: int|
                0 <= i < count ==> (#[trigger] c@.boards[i]).state == State::Initial
                    && c@.boards[i].grid == crate::grid::Grid::new_view(width, height)
                    && c@.boards[i].points == 0 && c@.boards[i].lines == 0,
            c@.active == 0,
            c@.points == 0,
            c@.lines == 0,
            c@.state == State::Initial,
    {
        let mut boards: Vec<Board> = Vec::new();
        let mut i: u32 = 0;
        while i < count
            invariant
                i <= count <= MAX_BOARDS,
                8 <= width <= 28,
                10 <= height <= 40,
                boards@.len() == i,
                forall|j: int|
                    0 <= j < i ==> (#[trigger] boards@[j])@.wf() && boards@[j]@.state == State::Initial
                        && boards@[j]@.grid == crate::grid::Grid::new_view(width, height)
                        && boards@[j]@.points == 0 && boards@[j]@.lines == 0,
            decreases count - i,
        {
            boards.push(Board::new(width, height));
            i = i + 1;
        }
        Controller { boards, active: 0, points: 0, lines: 0, state: State::Initial }
    }

    /// Starts a new game of `count` fresh boards, `width` cells wide and
    /// `height` tall, with the first board active and no score.
    pub fn initialize(&mut self, count: u32, width: u32, height: u32)
        requires
            1 <= count <= MAX_BOARDS,
            8 <= width <= 28,
            10 <= height <= 40,
        ensures
            final(self)@.wf(),
            final(self)@.boards.len() == count,
            forall|i: int|
                0 <= i < count ==> (#[trigger] final(self)@.boards[i]).state == State::Initial
                    && final(self)@.boards[i].grid == crate::grid::Grid::new_view(width, height)
                    && final(self)@.boards[i].points == 0 && final(self)@.boards[i].lines == 0,
            final(self)@.active == 0,
            final(self)@.points == 0,
            final(self)@.lines == 0,
            final(self)@.state == State::Initial,
    {
        *self = Controller::new(count, width, height);
    }

    /// Applies `c` to board `i` with no piece drawn.
    fn apply_to(&mut self, i: usize, c: Command)
        requires
            old(self)@.wf(),
            i < old(self)@.boards.len(),
            c == Command::Pause || c == Command::Resume,
        ensures
            final(self)@ == (ControllerView {
                boards: old(self)@.boards.update(i as int, old(self)@.boards[i as int].after_command(c, old(self)@.boards[i as int].next)),
                ..old(self)@
            }),
            final(self)@.wf(),
    {
        let mut b = self.boards.remove(i);
        if c == Command::Pause {
            b.pause();
        } else {
            b.start();
        }
        self.boards.insert(i, b);
        assert(self@.boards =~= old(self)@.boards.update(i as int, old(self)@.boards[i as int].after_command(c, old(self)@.boards[i as int].next)));
    }

    /// Finishes board `i`.
    fn finish_board(&mut self, i: usize)
        requires
            old(self)@.wf(),
            i < old(self)@.boards.len(),
        ensures
            final(self)@ == (ControllerView {
                boards: old(self)@.boards.update(i as int, old(self)@.boards[i as int].finished()),
                ..old(self)@
            }),
            final(self)@.wf(),
    {
        let mut b = self.boards.remove(i);
        b.finish();
        self.boards.insert(i, b);
        assert(self@.boards =~= old(self)@.boards.update(i as int, old(self)@.boards[i as int].finished()));
    }

    /// Moves the whole game to state `state`, pausing, resuming or
    /// finishing every board accordingly.
    pub fn set_state(&mut self, state: State)
        requires
            old(self)@.wf(),
        ensures
            final(self)@ == old(self)@.with_state(state),
            final(self)@.wf(),
    {
        if self.state == state {
            return;
        }
        let ghost start = self@;
        let n = self.boards.len();
        let mut i: usize = 0;
        while i < n
            invariant
                start.wf(),
                start.state != state,
                self@.wf(),
                n == start.boards.len(),
                i <= n,
                self@.boards.len() == n,
                self@.active == start.active,
                self@.points == start.points,
                self@.lines == start.lines,
                self@.state == start.state,
                forall|j: int| i <= j < n ==> #[trigger] self@.boards[j] == start.boards[j],
                forall|j: int|
                    0 <= j < i ==> #[trigger] self@.boards[j] == start.with_state(state).boards[j],
            decreases n - i,
        {
            let ghost bi = start.boards[i as int];
            match state {
                State::Paused => {
                    self.apply_to(i, Command::Pause);
                    assert(all_after(start.boards, Command::Pause)[i as int] == bi.after_command(Command::Pause, bi.next));
                },
                State::Running => {
                    self.apply_to(i, Command::Resume);
                    assert(all_after(start.boards, Command::Resume)[i as int] == bi.after_command(Command::Resume, bi.next));
                },
                State::Finished => {
                    self.finish_board(i);
                    assert(all_finished(start.boards)[i as int] == bi.finished());
                },
                State::Initial => {},
            }
            i = i + 1;
        }
        self.state = state;
        assert(self@.boards =~= start.with_state(state).boards);
    }

    /// Starts or resumes a game that is not running, pauses a running one,
    /// and replaces a finished one by a new game of the same size.
    pub fn toggle_state(&mut self)
        requires
            old(self)@.wf(),
        ensures
            old(self)@.state == State::Running ==> final(self)@ == old(self)@.with_state(State::Paused),
            old(self)@.state == State::Initial || old(self)@.state == State::Paused ==> final(self)@
                == old(self)@.with_state(State::Running),
            old(self)@.state == State::Finished ==> final(self)@.boards.len() == old(self)@.boards.len()
                && final(self)@.state == State::Initial && final(self)@.points == 0 && final(self)@.lines == 0
                && final(self)@.active == 0 && forall|i: int|
                0 <= i < final(self)@.boards.len() ==> (#[trigger] final(self)@.boards[i]).state
                    == State::Initial && final(self)@.boards[i].grid == crate::grid::Grid::new_view(
                    old(self)@.boards[0].grid.width,
                    old(self)@.boards[0].grid.height,
                ) && final(self)@.boards[i].points == 0 && final(self)@.boards[i].lines == 0,
            final(self)@.wf(),
    {
        match self.state {
            State::Running => self.set_state(State::Paused),
            State::Finished => {
                let b = &self.boards[0];
                assert(self@.boards[0].wf());
                assert(b@ == self@.boards[0]);
                let (count, width, height) = (self.boards.len() as u32, b.width(), b.height());
                self.initialize(count, width, height);
            },
            _ => self.set_state(State::Running),
        }
    }

    /// Adds the points and lines a board reported, and finishes the game
    /// if that board has just finished.
    fn absorb(&mut self, rep: Report)
        requires
            old(self)@.wf(),
        ensures
            final(self)@ == ({
                let v = ControllerView {
                    points: sat_add(old(self)@.points, rep.points as int),
                    lines: sat_add(old(self)@.lines, rep.lines as int),
                    ..old(self)@
                };
                if rep.finished {
                    v.with_state(State::Finished)
                } else {
                    v
                }
            }),
            final(self)@.wf(),
    {
        self.piece_crashed(rep.points, rep.lines);
        if rep.finished {
            self.board_lost();
        }
    }

    /// Adds points and lines gained on a board to the game's totals.
    pub fn piece_crashed(&mut self, points: u32, lines: u32)
        ensures
            final(self)@ == (ControllerView {
                points: sat_add(old(self)@.points, points as int),
                lines: sat_add(old(self)@.lines, lines as int),
                ..old(self)@
            }),
    {
        self.points = self.points.saturating_add(points as u64);
        self.lines = self.lines.saturating_add(lines as u64);
    }

    /// A board had no room for its next piece: the whole game finishes.
    pub fn board_lost(&mut self)
        requires
            old(self)@.wf(),
        ensures
            final(self)@ == old(self)@.with_state(State::Finished),
            final(self)@.wf(),
    {
        self.set_state(State::Finished);
    }

    /// Makes board `id` the active one, if it exists.
    pub fn set_board(&mut self, id: u32)
        requires
            old(self)@.wf(),
        ensures
            id < old(self)@.boards.len() ==> final(self)@ == (ControllerView { active: id as int, ..old(self)@ }),
            id >= old(self)@.boards.len() ==> final(self)@ == old(self)@,
            final(self)@.wf(),
    {
        if (id as usize) < self.boards.len() {
            self.active = id;
        }
    }

    /// Applies command `c`; `drawn` becomes the next piece of the active
    /// board if the command locks its piece.
    pub fn do_command_with(&mut self, c: Command, drawn: Piece)
        requires
            old(self)@.wf(),
        ensures
            final(self)@ == old(self)@.after_command(c, drawn),
            final(self)@.wf(),
    {
        if !c.allowed(&self.state) {
            return;
        }
        match c {
            Command::Pause => self.set_state(State::Paused),
            Command::Resume => self.set_state(State::Running),
            Command::TogglePause => {
                if self.state == State::Running {
                    self.set_state(State::Paused);
                } else {
                    self.set_state(State::Running);
                }
            },
            Command::SetBoard(id) => self.set_board(id),
            Command::Nop => {},
            _ => self.forward(c, drawn),
        }
    }

    /// Applies a board command to the active board and absorbs its report.
    fn forward(&mut self, c: Command, drawn: Piece)
        requires
            old(self)@.wf(),
        ensures
            final(self)@ == old(self)@.forwarded(c, drawn),
            final(self)@.wf(),
    {
        let i = self.active as usize;
        let mut b = self.boards.remove(i);
        assert(b@ == old(self)@.boards[i as int]);
        let rep = b.do_command_with(c, drawn);
        self.boards.insert(i, b);
        assert(self@.boards =~= old(self)@.boards.update(i as int, b@));
        self.absorb(rep);
    }

    /// Applies command `c`, drawing the active board's next piece at
    /// random if the command locks its piece.
    pub fn do_command(&mut self, c: Command)
        requires
            old(self)@.wf(),
        ensures
            exists|drawn: Piece| final(self)@ == old(self)@.after_command(c, drawn),
            final(self)@.wf(),
    {
        let drawn = Piece::random();
        self.do_command_with(c, drawn);
    }

    /// Handles a tick for board `id` scheduled under `generation`; `drawn`
    /// becomes that board's next piece if the step locks its piece.
    pub fn tick_with(&mut self, id: u32, generation: u64, drawn: Piece)
        requires
            old(self)@.wf(),
        ensures
            final(self)@ == old(self)@.after_tick(id as int, generation, drawn),
            final(self)@.wf(),
    {
        let i = id as usize;
        if i >= self.boards.len() {
            return;
        }
        let mut b = self.boards.remove(i);
        assert(b@ == old(self)@.boards[i as int]);
        let rep = b.tick_with(generation, drawn);
        self.boards.insert(i, b);
        assert(self@.boards =~= old(self)@.boards.update(i as int, b@));
        self.absorb(rep);
    }

    /// Handles a tick for board `id` scheduled under `generation`, drawing
    /// that board's next piece at random if the step locks its piece.
    pub fn tick(&mut self, id: u32, generation: u64)
        requires
            old(self)@.wf(),
        ensures
            exists|drawn: Piece| final(self)@ == old(self)@.after_tick(id as int, generation, drawn),
            final(self)@.wf(),
    {
        let drawn = Piece::random();
        self.tick_with(id, generation, drawn);
    }

    /// Replaces the settled cells of the active board by `rows` when that
    /// board accepts them (see `Board::load_grid`); returns whether it did.
    pub fn load_grid(&mut self, rows: &Vec<u32>) -> (r: bool)
        requires
            old(self)@.wf(),
        ensures
            ({
                let a = old(self)@.boards[old(self)@.active];
                let v = GridView { rows: rows@, width: a.grid.width, height: a.grid.height };
                &&& r == (v.wf() && (a.state == State::Finished || v.fits(a.mask(), a.x, a.y)))
                &&& r ==> final(self)@ == (ControllerView {
                    boards: old(self)@.boards.update(old(self)@.active, BoardView { grid: v, ..a }),
                    ..old(self)@
                })
                &&& !r ==> final(self)@ == old(self)@
            }),
            final(self)@.wf(),
    {
        let i = self.active as usize;
        let mut b = self.boards.remove(i);
        assert(b@ == old(self)@.boards[i as int]);
        let r = b.load_grid(rows);
        self.boards.insert(i, b);
        assert(self@.boards =~= old(self)@.boards.update(i as int, b@));
        if !r {
            assert(self@.boards =~= old(self)@.boards);
        }
        r
    }

    /// The game's state.
    pub fn state(&self) -> (r: State)
        ensures
            r == self@.state,
    {
        self.state
    }

    /// The board that receives moves, turns, drops and cheats.
    pub fn active_id(&self) -> (r: u32)
        ensures
            r == self@.active,
    {
        self.active
    }

    /// Total points and lines of all boards.
    pub fn score(&self) -> (r: (u64, u64))
        ensures
            r == (self@.points, self@.lines),
    {
        (self.points, self.lines)
    }

    /// The number of boards.
    pub fn boards_len(&self) -> (r: usize)
        ensures
            r == self@.boards.len(),
    {
        self.boards.len()
    }

    /// Board `id`.
    pub fn board(&self, id: usize) -> (r: &Board)
        requires
            id < self@.boards.len(),
        ensures
            r@ == self@.boards[id as int],
    {
        &self.boards[id]
    }
}

} // verus!
