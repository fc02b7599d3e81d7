use vstd::prelude::*;

use crate::command::{Command, State};
use crate::grid::{
    Grid, GridView, bit, lemma_cleared_wf, lemma_fits_bounds, lemma_merge_cells, lemma_nibble,
    lemma_nibble_zero, mask_bit, nibble, spec_empty_row,
};
use crate::piece::{
    Orientation, Piece, PIECE_COUNT, spec_index, spec_mask, spec_piece_at, spec_points, spec_rotate,
};
use crate::timer::{Timer, TimerKind, delay, spec_delay};

verus! {

/// `a + b`, or `u64::MAX` when that does not fit.
pub open spec fn sat_add(a: u64, b: int) -> u64 {
    if a + b > u64::MAX {
        u64::MAX
    } else {
        (a + b) as u64
    }
}

/// What a command or a tick did, for the display and the scoreboard.
#[derive(Clone, Copy, Debug, PartialEq, Eq, Structural)]
pub struct Report {
    /// The active piece moved or turned.
    pub moved: bool,
    /// The active piece was locked into the grid.
    pub locked: bool,
    /// Points gained.
    pub points: u32,
    /// Lines cleared.
    pub lines: u32,
    /// The board has just finished: the next piece had no room.
    pub finished: bool,
}

/// A report of a command that gained nothing.
pub open spec fn quiet(moved: bool) -> Report {
    Report { moved, locked: false, points: 0, lines: 0, finished: false }
}

/// The abstract state of a board.
pub struct BoardView {
    pub grid: GridView,
    pub current: Piece,
    pub next: Piece,
    /// Board column of the active piece's box.
    pub x: int,
    /// Board row of the active piece's box; negative above the board.
    pub y: int,
    pub orientation: Orientation,
    /// The active piece has not been drawn anywhere yet.
    pub fresh: bool,
    pub state: State,
    /// A drop is under way.
    pub dropping: bool,
    pub points: u64,
    pub lines: u64,
    /// How many pieces of each shape have entered the board.
    pub counts: Seq<u64>,
    pub timer: Timer,
}

impl BoardView {
    /// The mask of the active piece.
    pub open spec fn mask(self) -> u16 {
        spec_mask(self.current, self.orientation)
    }

    /// Board column where a new piece's box starts: centred, half a column
    /// towards column 0 on odd widths (to the right on a display that
    /// mirrors the columns).
    pub open spec fn spawn_x(self) -> int {
        self.grid.width / 2 - 2
    }

    /// The active piece rests on free cells unless the game is over; a
    /// running board has exactly one stream of ticks, the drop stream while
    /// dropping; a board that is not running has none.
    pub open spec fn wf(self) -> bool {
        &&& self.grid.wf()
        &&& self.counts.len() == PIECE_COUNT
        &&& -5 <= self.x <= 29
        &&& -5 <= self.y <= 41
        &&& self.state != State::Finished ==> self.grid.fits(self.mask(), self.x, self.y)
        &&& self.state == State::Running ==> self.timer.kind != TimerKind::Stopped && (
        self.timer.kind == TimerKind::Drop <==> self.dropping)
        &&& self.state != State::Running ==> self.timer.kind == TimerKind::Stopped
    }

    /// The board after trying to move the active piece by (`dx`, `dy`).
    pub open spec fn translated(self, dx: int, dy: int) -> BoardView {
        if self.grid.fits(self.mask(), self.x + dx, self.y + dy) {
            BoardView { x: self.x + dx, y: self.y + dy, fresh: false, ..self }
        } else {
            self
        }
    }

    /// The board after trying to turn the active piece by a rotation
    /// command, in place: a turn that does not fit is refused.
    pub open spec fn rotated(self, c: Command) -> BoardView {
        let o = spec_rotate(self.orientation, c);
        if self.grid.fits(spec_mask(self.current, o), self.x, self.y) {
            BoardView { orientation: o, fresh: false, ..self }
        } else {
            self
        }
    }

    /// The grid with the active piece merged in, before clearing.
    pub open spec fn merged_grid(self) -> GridView {
        self.grid.merged(self.mask(), self.x, self.y)
    }

    /// Lines that locking the active piece where it stands clears.
    pub open spec fn lock_lines(self) -> nat {
        self.merged_grid().full_rows()
    }

    /// Points that locking the active piece where it stands gains: its
    /// score in its orientation and five times the square of the lines.
    pub open spec fn lock_points(self) -> nat {
        (spec_points(self.current, self.orientation) + 5 * self.lock_lines() * self.lock_lines()) as nat
    }

    /// The next piece has room at the spawn position.
    pub open spec fn spawn_fits(self) -> bool {
        self.grid.fits(spec_mask(self.next, Orientation::North), self.spawn_x(), -1)
    }

    /// The board after promoting the next piece to active, at the spawn
    /// position facing North, with `drawn` as the next piece. If the new
    /// piece has no room the board finishes; otherwise it is counted and
    /// the step stream restarts at the current speed.
    pub open spec fn spawned(self, drawn: Piece) -> BoardView {
        let b = BoardView {
            current: self.next,
            next: drawn,
            orientation: Orientation::North,
            x: self.spawn_x(),
            y: -1,
            dropping: false,
            ..self
        };
        if self.spawn_fits() {
            let i = spec_index(self.next);
            BoardView {
                fresh: true,
                counts: self.counts.update(i, sat_add(self.counts[i], 1)),
                timer: self.timer.started(TimerKind::Step, spec_delay(self.lines, false) as u32),
                ..b
            }
        } else {
            BoardView { state: State::Finished, timer: self.timer.stopped(), ..b }
        }
    }

    /// The board after locking the active piece where it stands: merged
    /// into the grid, full rows cleared, score and lines added, and the
    /// next piece spawned.
    pub open spec fn after_lock(self, drawn: Piece) -> BoardView {
        BoardView {
            grid: self.merged_grid().cleared(),
            points: sat_add(self.points, self.lock_points() as int),
            lines: sat_add(self.lines, self.lock_lines() as int),
            ..self
        }.spawned(drawn)
    }

    /// The report of a lock.
    pub open spec fn lock_report(self, drawn: Piece) -> Report {
        Report {
            moved: false,
            locked: true,
            points: self.lock_points() as u32,
            lines: self.lock_lines() as u32,
            finished: self.after_lock(drawn).state == State::Finished,
        }
    }

    /// The board after one step down: the piece moves down a row, gaining
    /// a point during a drop, or, when it cannot, locks.
    pub open spec fn moved_down(self, drawn: Piece) -> BoardView {
        if self.grid.fits(self.mask(), self.x, self.y + 1) {
            BoardView {
                y: self.y + 1,
                fresh: false,
                points: if self.dropping {
                    sat_add(self.points, 1)
                } else {
                    self.points
                },
                ..self
            }
        } else {
            self.after_lock(drawn)
        }
    }

    /// The report of one step down.
    pub open spec fn down_report(self, drawn: Piece) -> Report {
        if self.grid.fits(self.mask(), self.x, self.y + 1) {
            Report { moved: true, locked: false, points: if self.dropping { 1 } else { 0 }, lines: 0, finished: false }
        } else {
            self.lock_report(drawn)
        }
    }

    /// The board paused: its ticks cancelled.
    pub open spec fn paused(self) -> BoardView {
        BoardView { state: State::Paused, timer: self.timer.stopped(), ..self }
    }

    /// The board running again: the drop stream if a drop was under way,
    /// the step stream otherwise, in a new generation.
    pub open spec fn resumed(self) -> BoardView {
        BoardView {
            state: State::Running,
            timer: self.timer.started(
                if self.dropping {
                    TimerKind::Drop
                } else {
                    TimerKind::Step
                },
                spec_delay(self.lines, self.dropping) as u32,
            ),
            ..self
        }
    }

    /// The board with a drop under way: the fast stream replaces the step
    /// stream.
    pub open spec fn dropped(self) -> BoardView {
        BoardView {
            dropping: true,
            timer: self.timer.started(TimerKind::Drop, spec_delay(self.lines, true) as u32),
            ..self
        }
    }

    /// The board finished from outside: its ticks cancelled for good.
    pub open spec fn finished(self) -> BoardView {
        BoardView { state: State::Finished, dropping: false, timer: self.timer.stopped(), ..self }
    }

    /// The board after command `c`, with `drawn` as the piece that a lock
    /// would draw. Moves, turns and drops act only while running; pausing
    /// and resuming act on any board that is not finished; a cheat with a
    /// shape's catalogue position chooses the next piece, in any state.
    pub open spec fn after_command(self, c: Command, drawn: Piece) -> BoardView {
        let running = self.state == State::Running;
        let waiting = self.state == State::Initial || self.state == State::Paused;
        match c {
            Command::Left => if running { self.translated(-1, 0) } else { self },
            Command::Right => if running { self.translated(1, 0) } else { self },
            Command::Down => if running { self.moved_down(drawn) } else { self },
            Command::Clockwise => if running { self.rotated(c) } else { self },
            Command::CounterClockwise => if running { self.rotated(c) } else { self },
            Command::Drop => if running && !self.dropping { self.dropped() } else { self },
            Command::Pause => if running { self.paused() } else { self },
            Command::Resume => if waiting { self.resumed() } else { self },
            Command::TogglePause => if running {
                self.paused()
            } else if waiting {
                self.resumed()
            } else {
                self
            },
            Command::Cheat(code) => if code < PIECE_COUNT {
                BoardView { next: spec_piece_at(code as int), ..self }
            } else {
                self
            },
            _ => self,
        }
    }

    /// The report of command `c`.
    pub open spec fn command_report(self, c: Command, drawn: Piece) -> Report {
        let running = self.state == State::Running;
        match c {
            Command::Left => quiet(running && self.grid.fits(self.mask(), self.x - 1, self.y)),
            Command::Right => quiet(running && self.grid.fits(self.mask(), self.x + 1, self.y)),
            Command::Down => if running { self.down_report(drawn) } else { quiet(false) },
            Command::Clockwise => quiet(running && self.grid.fits(spec_mask(self.current, spec_rotate(self.orientation, c)), self.x, self.y)),
            Command::CounterClockwise => quiet(running && self.grid.fits(spec_mask(self.current, spec_rotate(self.orientation, c)), self.x, self.y)),
            _ => quiet(false),
        }
    }

    /// The board after a tick scheduled under `generation`: a step down if
    /// that generation is current and a stream runs, nothing otherwise.
    pub open spec fn after_tick(self, generation: u64, drawn: Piece) -> BoardView {
        if self.timer.spec_fires(generation) {
            self.moved_down(drawn)
        } else {
            self
        }
    }

    /// The report of a tick.
    pub open spec fn tick_report(self, generation: u64, drawn: Piece) -> Report {
        if self.timer.spec_fires(generation) {
            self.down_report(drawn)
        } else {
            quiet(false)
        }
    }
}

/// One player's board: its grid, active and next pieces, score and ticks.
#[derive(Debug)]
pub struct Board {
    grid: Grid,
    current: Piece,
    next: Piece,
    x: i32,
    y: i32,
    orientation: Orientation,
    fresh: bool,
    state: State,
    dropping: bool,
    points: u64,
    lines: u64,
    counts: Vec<u64>,
    timer: Timer,
}

impl View for Board {
    type V = BoardView;

    closed spec fn view(&self) -> BoardView {
        BoardView {
            grid: self.grid@,
            current: self.current,
            next: self.next,
            x: self.x as int,
            y: self.y as int,
            orientation: self.orientation,
            fresh: self.fresh,
            state: self.state,
            dropping: self.dropping,
            points: self.points,
            lines: self.lines,
            counts: self.counts@,
            timer: self.timer,
        }
    }
}

/// The North masks have no cell in the top and bottom rows of their box.
proof fn lemma_north_rows(p: Piece, c: int)
    ensures
        !mask_bit(spec_mask(p, Orientation::North), 0, c),
        !mask_bit(spec_mask(p, Orientation::North), 3, c),
{
    let m = spec_mask(p, Orientation::North);
    assert(m < 0x1000 && m % 16 == 0);
    assert(m < 0x1000 && m % 16 == 0 ==> (m >> 0u16) & 0xfu16 == 0 && (m >> 12u16) & 0xfu16 == 0)
        by (bit_vector);
    if 0 <= c < 4 {
        lemma_nibble(m, 0, c as u16);
        lemma_nibble(m, 3, c as u16);
        lemma_nibble_zero((m >> 0u16) & 0xfu16);
        lemma_nibble_zero((m >> 12u16) & 0xfu16);
        assert(nibble(m, 0) == (m >> 0u16) & 0xfu16);
        assert(nibble(m, 3) == (m >> 12u16) & 0xfu16);
    }
}

/// Every piece has room at the spawn position of an empty grid.
proof fn lemma_spawn_fits_empty(g: GridView, p: Piece)
    requires
        g.wf(),
        forall|i: int| 0 <= i < g.height + 2 ==> #[trigger] g.rows[i] == spec_empty_row(g.width),
    ensures
        g.fits(spec_mask(p, Orientation::North), g.width / 2 - 2, -1),
{
    let m = spec_mask(p, Orientation::North);
    let x = g.width / 2 - 2;
    crate::grid::lemma_empty_row(g.width);
    assert forall|r: int, c: int| #[trigger] mask_bit(m, r, c) implies !g.blocked(-1 + 2 + r, x + 2 + c) by {
        lemma_north_rows(p, c);
        assert(r == 1 || r == 2);
        assert(g.rows[1 + r] == spec_empty_row(g.width));
        assert(!bit(spec_empty_row(g.width), (x + 2 + c) as u32));
    }
}

/// Legal moves and turns keep a board well formed, so after any sequence
/// of them the active piece still rests on free cells inside the bitmap.
pub proof fn lemma_moves_keep_wf(b: BoardView, dx: int, dy: int, c: Command)
    requires
        b.wf(),
        b.state != State::Finished,
        -1 <= dx <= 1,
        0 <= dy <= 1,
    ensures
        b.translated(dx, dy).wf(),
        b.rotated(c).wf(),
{
    if b.grid.fits(b.mask(), b.x + dx, b.y + dy) {
        lemma_fits_bounds(b.grid, b.mask(), b.x + dx, b.y + dy);
    }
}

/// Locking keeps a running board well formed, whether or not the next
/// piece has room.
proof fn lemma_lock_keeps_wf(b: BoardView, drawn: Piece)
    requires
        b.wf(),
        b.state == State::Running,
    ensures
        b.after_lock(drawn).wf(),
{
    lemma_merge_cells(b.grid, b.mask(), b.x, b.y);
    lemma_cleared_wf(b.merged_grid());
}

/// Every command keeps a board well formed. With
/// `lemma_lock_stays_inside`, no sequence of commands can make a lock
/// write outside the row array.
pub proof fn lemma_command_keeps_wf(b: BoardView, c: Command, drawn: Piece)
    requires
        b.wf(),
    ensures
        b.after_command(c, drawn).wf(),
{
    if b.state == State::Running {
        lemma_moves_keep_wf(b, -1, 0, c);
        lemma_moves_keep_wf(b, 1, 0, c);
        lemma_moves_keep_wf(b, 0, 1, c);
        if !b.grid.fits(b.mask(), b.x, b.y + 1) {
            lemma_lock_keeps_wf(b, drawn);
        }
    }
}

/// Every tick, current or stale, keeps a board well formed.
pub proof fn lemma_tick_keeps_wf(b: BoardView, generation: u64, drawn: Piece)
    requires
        b.wf(),
    ensures
        b.after_tick(generation, drawn).wf(),
{
    if b.timer.spec_fires(generation) {
        lemma_command_keeps_wf(b, Command::Down, drawn);
    }
}

/// On a board that is not finished, however its piece got where it is,
/// every cell of the active piece lies inside the bitmap on a free cell,
/// so locking it writes only inside the row array and keeps the grid well
/// formed.
pub proof fn lemma_lock_stays_inside(b: BoardView)
    requires
        b.wf(),
        b.state != State::Finished,
    ensures
        forall|r: int, c: int|
            #[trigger] mask_bit(b.mask(), r, c) ==> 0 <= b.y + 2 + r < b.grid.rows.len() && 0 <= b.x + 2
                + c < 32 && !bit(b.grid.rows[b.y + 2 + r], (b.x + 2 + c) as u32),
        b.merged_grid().wf(),
        b.merged_grid().rows.len() == b.grid.rows.len(),
{
    lemma_merge_cells(b.grid, b.mask(), b.x, b.y);
}

/// A finished board ignores every command but a cheat's choice of the
/// next piece, and every tick: its grid, piece, score and state stay.
pub proof fn lemma_finished_is_final(b: BoardView, c: Command, drawn: Piece, generation: u64)
    requires
        b.wf(),
        b.state == State::Finished,
    ensures
        b.after_command(c, drawn) == (BoardView { next: b.after_command(c, drawn).next, ..b }),
        b.after_tick(generation, drawn) == b,
{
}

/// When the piece that follows a lock has no room at the spawn position,
/// the board finishes, and from then on no command or tick changes its
/// grid or its state.
pub proof fn lemma_spawn_loss(b: BoardView, drawn: Piece, c: Command, later: Piece, generation: u64)
    requires
        b.wf(),
        b.state == State::Running,
        !b.grid.fits(b.mask(), b.x, b.y + 1),
        !b.merged_grid().cleared().fits(spec_mask(b.next, Orientation::North), b.spawn_x(), -1),
    ensures
        b.moved_down(drawn).state == State::Finished,
        b.down_report(drawn).finished,
        b.moved_down(drawn).after_command(c, later).grid == b.moved_down(drawn).grid,
        b.moved_down(drawn).after_command(c, later).state == State::Finished,
        b.moved_down(drawn).after_tick(generation, later) == b.moved_down(drawn),
{
}

/// A turn into a position that collides is refused: the board, its
/// orientation and position included, stays exactly as it was, and the
/// command reports no move.
pub proof fn lemma_rotation_rejected(b: BoardView, c: Command, drawn: Piece)
    requires
        c == Command::Clockwise || c == Command::CounterClockwise,
        !b.grid.fits(spec_mask(b.current, spec_rotate(b.orientation, c)), b.x, b.y),
    ensures
        b.rotated(c) == b,
        b.after_command(c, drawn) == b,
        !b.command_report(c, drawn).moved,
{
}

/// Starting a drop, pausing and resuming leaves exactly one stream of
/// ticks, the drop stream in a new generation: a tick of the drop stream
/// scheduled before the pause does nothing, and a tick of the new
/// generation makes one step down.
pub proof fn lemma_stale_tick_after_pause(b: BoardView, drawn: Piece)
    requires
        b.wf(),
        b.state == State::Running,
        !b.dropping,
    ensures
        ({
            let d = b.after_command(Command::Drop, drawn);
            let p = d.after_command(Command::Pause, drawn);
            let r = p.after_command(Command::Resume, drawn);
            &&& d.timer.kind == TimerKind::Drop
            &&& p.timer.kind == TimerKind::Stopped
            &&& r.timer.kind == TimerKind::Drop
            &&& r.state == State::Running
            &&& r.timer.generation != d.timer.generation
            &&& r.after_tick(d.timer.generation, drawn) == r
            &&& r.tick_report(d.timer.generation, drawn) == quiet(false)
            &&& r.after_tick(r.timer.generation, drawn) == r.moved_down(drawn)
        }),
{
}

impl Board {
    /// A fresh board `width` cells wide and `height` tall, with `first` as
    /// the active piece at the spawn position and `second` next. It has not
    /// started yet.
    pub fn with_pieces(width: u32, height: u32, first: Piece, second: Piece) -> (b: Board)
        requires
            8 <= width <= 28,
            10 <= height <= 40,
        ensures
            b@.wf(),
            b@.grid == Grid::new_view(width, height),
            b@.current == first,
            b@.next == second,
            b@.x == width / 2 - 2,
            b@.y == -1,
            b@.orientation == Orientation::North,
            b@.fresh,
            b@.state == State::Initial,
            !b@.dropping,
            b@.points == 0,
            b@.lines == 0,
            b@.counts == Seq::new(PIECE_COUNT as nat, |i: int| 0u64).update(spec_index(first), 1u64),
            b@.timer == (Timer { generation: 0, kind: TimerKind::Stopped, msecs: 0 }),
    {
        let grid = Grid::new(width, height);
        let mut counts: Vec<u64> = Vec::new();
        let mut i: usize = 0;
        while i < PIECE_COUNT
            invariant
                i <= PIECE_COUNT,
                counts@ == Seq::new(i as nat, |j: int| 0u64),
            decreases PIECE_COUNT - i,
        {
            counts.push(0);
            i = i + 1;
            assert(counts@ =~= Seq::new(i as nat, |j: int| 0u64));
        }
        counts.set(first.index(), 1);
        proof {
            lemma_spawn_fits_empty(grid@, first);
        }
        Board {
            grid,
            current: first,
            next: second,
            x: (width / 2 - 2) as i32,
            y: -1,
            orientation: Orientation::North,
            fresh: true,
            state: State::Initial,
            dropping: false,
            points: 0,
            lines: 0,
            counts,
            timer: Timer::new(),
        }
    }

    /// A fresh board `width` cells wide and `height` tall, with its first
    /// two pieces drawn at random. It has not started yet.
    pub fn new(width: u32, height: u32) -> (b: Board)
        requires
            8 <= width <= 28,
            10 <= height <= 40,
        ensures
            b@.wf(),
            b@.grid == Grid::new_view(width, height),
            b@.x == width / 2 - 2,
            b@.y == -1,
            b@.orientation == Orientation::North,
            b@.state == State::Initial,
            !b@.dropping,
            b@.points == 0,
            b@.lines == 0,
    {
        let first = Piece::random();
        let second = Piece::random();
        Board::with_pieces(width, height, first, second)
    }

    fn mask(&self) -> (r: u16)
        ensures
            r == self@.mask(),
    {
        self.current.mask(self.orientation)
    }

    /// Moves the active piece by (`dx`, `dy`) if it fits there; returns
    /// whether it moved.
    pub fn translate_piece(&mut self, dx: i32, dy: i32) -> (r: bool)
        requires
            old(self)@.wf(),
            old(self)@.state != State::Finished,
            -1 <= dx <= 1,
            0 <= dy <= 1,
        ensures
            r == old(self)@.grid.fits(old(self)@.mask(), old(self)@.x + dx, old(self)@.y + dy),
            final(self)@ == old(self)@.translated(dx as int, dy as int),
            final(self)@.wf(),
    {
        let mask = self.mask();
        let nx = self.x + dx;
        let ny = self.y + dy;
        if !self.grid.can_place(mask, nx, ny) {
            return false;
        }
        proof {
            lemma_fits_bounds(self.grid@, mask, nx as int, ny as int);
        }
        self.x = nx;
        self.y = ny;
        self.fresh = false;
        true
    }

    /// Turns the active piece by a rotation command if the turned piece
    /// fits where it stands; returns whether it turned. A refused turn
    /// leaves the board exactly as it was.
    pub fn rotate_piece(&mut self, rotate: Command) -> (r: bool)
        requires
            old(self)@.wf(),
            old(self)@.state != State::Finished,
        ensures
            r == old(self)@.grid.fits(
                spec_mask(old(self)@.current, spec_rotate(old(self)@.orientation, rotate)),
                old(self)@.x,
                old(self)@.y,
            ),
            final(self)@ == old(self)@.rotated(rotate),
            !r ==> final(self)@ == old(self)@,
            final(self)@.wf(),
    {
        let o = self.orientation.rotate(rotate);
        let mask = self.current.mask(o);
        if !self.grid.can_place(mask, self.x, self.y) {
            return false;
        }
        self.orientation = o;
        self.fresh = false;
        true
    }

    /// Makes the next piece active at the spawn position facing North,
    /// with `drawn` next. Finishes the board when the new piece has no
    /// room; otherwise counts it and restarts the step stream. Returns
    /// whether the piece had room.
    fn start_new_piece(&mut self, drawn: Piece) -> (r: bool)
        requires
            old(self)@.grid.wf(),
            old(self)@.counts.len() == PIECE_COUNT,
        ensures
            final(self)@ == old(self)@.spawned(drawn),
            r == old(self)@.spawn_fits(),
    {
        let sx = (self.grid.width() / 2 - 2) as i32;
        let mask = self.next.mask(Orientation::North);
        let fits = self.grid.can_place(mask, sx, -1);
        self.current = self.next;
        self.next = drawn;
        self.orientation = Orientation::North;
        self.x = sx;
        self.y = -1;
        self.dropping = false;
        if fits {
            self.fresh = true;
            let i = self.current.index();
            let c = self.counts[i];
            self.counts.set(i, c.saturating_add(1));
            let ms = delay(self.lines, false);
            self.timer.start(TimerKind::Step, ms);
        } else {
            self.state = State::Finished;
            self.timer.stop();
        }
        fits
    }

    /// Locks the active piece where it stands: merges it into the grid,
    /// clears the full rows, adds its points and five times the square of
    /// the cleared lines, and spawns the next piece.
    fn lock_piece(&mut self, drawn: Piece) -> (r: Report)
        requires
            old(self)@.wf(),
            old(self)@.state == State::Running,
        ensures
            final(self)@ == old(self)@.after_lock(drawn),
            r == old(self)@.lock_report(drawn),
            final(self)@.wf(),
    {
        let ghost b = self@;
        let mask = self.mask();
        let base = self.current.points(self.orientation);
        proof {
            lemma_merge_cells(self.grid@, mask, self.x as int, self.y as int);
        }
        self.grid.merge(mask, self.x, self.y);
        proof {
            lemma_cleared_wf(self.grid@);
        }
        let n = self.grid.scan_and_clear_full_rows();
        assert(n <= 40);
        assert(5 * n * n <= 8000) by (nonlinear_arith)
            requires
                n <= 40,
        ;
        assert(base <= 12);
        let gained: u32 = base + 5 * n * n;
        self.points = self.points.saturating_add(gained as u64);
        self.lines = self.lines.saturating_add(n as u64);
        let fits = self.start_new_piece(drawn);
        Report { moved: false, locked: true, points: gained, lines: n, finished: !fits }
    }

    /// One step down: the piece moves down a row, gaining a point during a
    /// drop; when it cannot, it locks.
    pub fn move_down(&mut self, drawn: Piece) -> (r: Report)
        requires
            old(self)@.wf(),
            old(self)@.state == State::Running,
        ensures
            final(self)@ == old(self)@.moved_down(drawn),
            r == old(self)@.down_report(drawn),
            final(self)@.wf(),
    {
        if self.translate_piece(0, 1) {
            if self.dropping {
                self.points = self.points.saturating_add(1);
                Report { moved: true, locked: false, points: 1, lines: 0, finished: false }
            } else {
                Report { moved: true, locked: false, points: 0, lines: 0, finished: false }
            }
        } else {
            self.lock_piece(drawn)
        }
    }

    /// Starts a drop: the fast stream replaces the step stream until the
    /// piece locks. Returns whether a drop started.
    pub fn drop_piece(&mut self) -> (r: bool)
        requires
            old(self)@.wf(),
        ensures
            r == (old(self)@.state == State::Running && !old(self)@.dropping),
            final(self)@ == old(self)@.after_command(Command::Drop, old(self)@.next),
            final(self)@.wf(),
    {
        if self.state != State::Running || self.dropping {
            return false;
        }
        self.dropping = true;
        let ms = delay(self.lines, true);
        self.timer.start(TimerKind::Drop, ms);
        true
    }

    /// Pauses a running board: its ticks are cancelled.
    pub fn pause(&mut self)
        requires
            old(self)@.wf(),
        ensures
            final(self)@ == old(self)@.after_command(Command::Pause, old(self)@.next),
            final(self)@.wf(),
    {
        if self.state == State::Running {
            self.state = State::Paused;
            self.timer.stop();
        }
    }

    /// Starts or resumes a board that has not started or is paused, with
    /// the stream that matches whether a drop is under way.
    pub fn start(&mut self)
        requires
            old(self)@.wf(),
        ensures
            final(self)@ == old(self)@.after_command(Command::Resume, old(self)@.next),
            final(self)@.wf(),
    {
        if self.state == State::Initial || self.state == State::Paused {
            self.state = State::Running;
            let kind = if self.dropping {
                TimerKind::Drop
            } else {
                TimerKind::Step
            };
            let ms = delay(self.lines, self.dropping);
            self.timer.start(kind, ms);
        }
    }

    /// Ends the game on this board: its ticks are cancelled for good.
    pub fn finish(&mut self)
        requires
            old(self)@.wf(),
        ensures
            final(self)@ == old(self)@.finished(),
            final(self)@.wf(),
    {
        self.state = State::Finished;
        self.dropping = false;
        self.timer.stop();
    }

    /// Starts a new game on this board: an empty grid of the same size,
    /// two new random pieces, no score, not started.
    pub fn prepare(&mut self)
        requires
            old(self)@.wf(),
        ensures
            final(self)@.wf(),
            final(self)@.grid == Grid::new_view(old(self)@.grid.width, old(self)@.grid.height),
            final(self)@.x == old(self)@.grid.width / 2 - 2,
            final(self)@.y == -1,
            final(self)@.orientation == Orientation::North,
            final(self)@.state == State::Initial,
            !final(self)@.dropping,
            final(self)@.points == 0,
            final(self)@.lines == 0,
    {
        let width = self.grid.width();
        let height = self.grid.height();
        *self = Board::new(width, height);
    }

    /// Moves the board to lifecycle state `state`: running starts or
    /// resumes it, paused pauses it, finished ends it; a finished board
    /// stays as it is. Returns whether the board was not finished.
    pub fn change_state(&mut self, state: State) -> (r: bool)
        requires
            old(self)@.wf(),
        ensures
            r == (old(self)@.state != State::Finished),
            !r ==> final(self)@ == old(self)@,
            r && state == State::Running ==> final(self)@ == old(self)@.after_command(Command::Resume, old(self)@.next),
            r && state == State::Paused ==> final(self)@ == old(self)@.after_command(Command::Pause, old(self)@.next),
            r && state == State::Finished ==> final(self)@ == old(self)@.finished(),
            r && state == State::Initial ==> final(self)@ == old(self)@,
            final(self)@.wf(),
    {
        if self.state == State::Finished {
            return false;
        }
        match state {
            State::Running => self.start(),
            State::Paused => self.pause(),
            State::Finished => self.finish(),
            State::Initial => {},
        }
        true
    }

    /// Debugging commands: a catalogue position below `PIECE_COUNT`
    /// chooses the next piece. Score and lines are never touched.
    pub fn cheat(&mut self, code: u32)
        requires
            old(self)@.wf(),
        ensures
            final(self)@ == old(self)@.after_command(Command::Cheat(code), old(self)@.next),
            final(self)@.wf(),
    {
        if let Some(p) = Piece::from_index(code as usize) {
            self.next = p;
        }
    }

    /// Applies command `c`; `drawn` becomes the next piece if the command
    /// locks the active one.
    pub fn do_command_with(&mut self, c: Command, drawn: Piece) -> (r: Report)
        requires
            old(self)@.wf(),
        ensures
            final(self)@ == old(self)@.after_command(c, drawn),
            r == old(self)@.command_report(c, drawn),
            final(self)@.wf(),
    {
        let running = self.state == State::Running;
        match c {
            Command::Left => {
                let moved = running && self.translate_piece(-1, 0);
                Report { moved, locked: false, points: 0, lines: 0, finished: false }
            },
            Command::Right => {
                let moved = running && self.translate_piece(1, 0);
                Report { moved, locked: false, points: 0, lines: 0, finished: false }
            },
            Command::Down => {
                if running {
                    self.move_down(drawn)
                } else {
                    Report { moved: false, locked: false, points: 0, lines: 0, finished: false }
                }
            },
            Command::Clockwise | Command::CounterClockwise => {
                let moved = running && self.rotate_piece(c);
                Report { moved, locked: false, points: 0, lines: 0, finished: false }
            },
            Command::Drop => {
                self.drop_piece();
                Report { moved: false, locked: false, points: 0, lines: 0, finished: false }
            },
            Command::Pause => {
                self.pause();
                Report { moved: false, locked: false, points: 0, lines: 0, finished: false }
            },
            Command::Resume => {
                self.start();
                Report { moved: false, locked: false, points: 0, lines: 0, finished: false }
            },
            Command::TogglePause => {
                if running {
                    self.pause();
                } else {
                    self.start();
                }
                Report { moved: false, locked: false, points: 0, lines: 0, finished: false }
            },
            Command::Cheat(code) => {
                self.cheat(code);
                Report { moved: false, locked: false, points: 0, lines: 0, finished: false }
            },
            _ => Report { moved: false, locked: false, points: 0, lines: 0, finished: false },
        }
    }

    /// Applies command `c`, drawing the next piece at random if the
    /// command locks the active one.
    pub fn do_command(&mut self, c: Command) -> (r: Report)
        requires
            old(self)@.wf(),
        ensures
            exists|drawn: Piece|
                final(self)@ == old(self)@.after_command(c, drawn) && r == old(self)@.command_report(c, drawn),
            final(self)@.wf(),
    {
        let drawn = Piece::random();
        self.do_command_with(c, drawn)
    }

    /// Handles a tick scheduled under `generation`: one step down if that
    /// generation is current and a stream runs; a stale tick does nothing.
    pub fn tick_with(&mut self, generation: u64, drawn: Piece) -> (r: Report)
        requires
            old(self)@.wf(),
        ensures
            final(self)@ == old(self)@.after_tick(generation, drawn),
            r == old(self)@.tick_report(generation, drawn),
            final(self)@.wf(),
    {
        if !self.timer.fires(generation) {
            return Report { moved: false, locked: false, points: 0, lines: 0, finished: false };
        }
        self.move_down(drawn)
    }

    /// Handles a tick scheduled under `generation`, drawing the next piece
    /// at random if the step locks the active one.
    pub fn tick(&mut self, generation: u64) -> (r: Report)
        requires
            old(self)@.wf(),
        ensures
            exists|drawn: Piece|
                final(self)@ == old(self)@.after_tick(generation, drawn) && r == old(self)@.tick_report(generation, drawn),
            final(self)@.wf(),
    {
        let drawn = Piece::random();
        self.tick_with(generation, drawn)
    }
    /// Replaces the settled cells by `rows`, one word per bitmap row, when
    /// they form a well-formed grid of this board's size on which the
    /// active piece still rests on free cells (or the game is over);
    /// otherwise leaves the board as it is. Returns whether the rows were
    /// taken. Score, lines and pieces are not touched.
    pub fn load_grid(&mut self, rows: &Vec<u32>) -> (r: bool)
        requires
            old(self)@.wf(),
        ensures
            r == ({
                let v = GridView { rows: rows@, width: old(self)@.grid.width, height: old(self)@.grid.height };
                v.wf() && (old(self)@.state == State::Finished || v.fits(old(self)@.mask(), old(self)@.x, old(self)@.y))
            }),
            r ==> final(self)@ == (BoardView {
                grid: GridView { rows: rows@, width: old(self)@.grid.width, height: old(self)@.grid.height },
                ..old(self)@
            }),
            !r ==> final(self)@ == old(self)@,
            final(self)@.wf(),
    {
        let ghost b = self@;
        let saved = self.grid.rows().clone();
        assert(saved@ =~= b.grid.rows);
        if !self.grid.load(rows) {
            return false;
        }
        if self.state != State::Finished && !self.grid.can_place(self.mask(), self.x, self.y) {
            let _ = self.grid.load(&saved);
            assert(self@ == b);
            return false;
        }
        true
    }

    /// Each bitmap row as 32 binary digits, most significant first.
    pub fn dump_binary(&self) -> (r: Vec<String>)
        ensures
            r@.len() == self@.grid.rows.len(),
            forall|i: int| 0 <= i < r@.len() ==> (#[trigger] r@[i])@ == crate::grid::binary_digits(self@.grid.rows[i]),
    {
        self.grid.dump_binary()
    }

    /// Each bitmap row as `0x` and eight upper-case hexadecimal digits.
    pub fn dump_hex(&self) -> (r: Vec<String>)
        ensures
            r@.len() == self@.grid.rows.len(),
            forall|i: int| 0 <= i < r@.len() ==> (#[trigger] r@[i])@ == crate::grid::hex_text(self@.grid.rows[i]),
    {
        self.grid.dump_hex()
    }

    /// The settled cells.
    pub fn grid(&self) -> (r: &Grid)
        ensures
            r@ == self@.grid,
    {
        &self.grid
    }

    /// Board width in cells.
    pub fn width(&self) -> (r: u32)
        ensures
            r == self@.grid.width,
    {
        self.grid.width()
    }

    /// Board height in cells.
    pub fn height(&self) -> (r: u32)
        ensures
            r == self@.grid.height,
    {
        self.grid.height()
    }

    /// Lifecycle state.
    pub fn state(&self) -> (r: State)
        ensures
            r == self@.state,
    {
        self.state
    }

    /// Points and cleared lines so far.
    pub fn score(&self) -> (r: (u64, u64))
        ensures
            r == (self@.points, self@.lines),
    {
        (self.points, self.lines)
    }

    /// The active piece.
    pub fn current(&self) -> (r: Piece)
        ensures
            r == self@.current,
    {
        self.current
    }

    /// The piece that comes after the active one.
    pub fn next(&self) -> (r: Piece)
        ensures
            r == self@.next,
    {
        self.next
    }

    /// Board column and row of the active piece's box.
    pub fn position(&self) -> (r: (i32, i32))
        ensures
            r.0 == self@.x,
            r.1 == self@.y,
    {
        (self.x, self.y)
    }

    /// Orientation of the active piece.
    pub fn orientation(&self) -> (r: Orientation)
        ensures
            r == self@.orientation,
    {
        self.orientation
    }

    /// Whether a drop is under way.
    pub fn dropping(&self) -> (r: bool)
        ensures
            r == self@.dropping,
    {
        self.dropping
    }

    /// Whether the active piece has not been drawn anywhere yet.
    pub fn is_fresh(&self) -> (r: bool)
        ensures
            r == self@.fresh,
    {
        self.fresh
    }

    /// The tick scheduling state: ticks must carry its generation.
    pub fn timer(&self) -> (r: Timer)
        ensures
            r == self@.timer,
    {
        self.timer
    }

    /// How many pieces of each shape, by catalogue position, have entered
    /// the board.
    pub fn piece_counts(&self) -> (r: &Vec<u64>)
        ensures
            r@ == self@.counts,
    {
        &self.counts
    }

    /// Whether board cell (`x`, `y`) is covered by the active piece.
    pub fn piece_at(&self, x: i32, y: i32) -> (r: bool)
        requires
            self@.wf(),
        ensures
            r == mask_bit(self@.mask(), y - self@.y, x - self@.x),
    {
        let dx: i64 = x as i64 - self.x as i64;
        let dy: i64 = y as i64 - self.y as i64;
        if dx < 0 || dx >= 4 || dy < 0 || dy >= 4 {
            return false;
        }
        let mask = self.mask();
        let k: u16 = (4 * dy + dx) as u16;
        (mask >> k) & 1 == 1
    }
}

} // verus!
