use vstd::prelude::*;

verus! {

/// Milliseconds between automatic steps at the start of a game.
pub const STARTING_TICK_MS: u32 = 500;

/// Cleared lines between two speed-ups.
pub const LINES_BETWEEN_SPEEDUPS: u64 = 10;

/// A drop ticks this many times faster than the step timer.
pub const DROP_SPEEDUP: u32 = 10;

/// Milliseconds between steps after `k` speed-ups: each speed-up keeps
/// nine tenths of the period, rounded down.
pub open spec fn step_ms(k: nat) -> nat
    decreases k,
{
    if k == 0 {
        STARTING_TICK_MS as nat
    } else {
        step_ms((k - 1) as nat) * 9 / 10
    }
}

/// The tick period for a board that has cleared `lines` lines, for the
/// drop stream when `dropping`.
pub open spec fn spec_delay(lines: u64, dropping: bool) -> nat {
    let ms = step_ms((lines / LINES_BETWEEN_SPEEDUPS) as nat);
    if dropping {
        ms / (DROP_SPEEDUP as nat)
    } else {
        ms
    }
}

proof fn lemma_step_ms_bound(k: nat)
    ensures
        step_ms(k) <= STARTING_TICK_MS,
    decreases k,
{
    if k > 0 {
        lemma_step_ms_bound((k - 1) as nat);
    }
}

/// Once the period reaches zero it stays there.
proof fn lemma_step_ms_zero(j: nat, k: nat)
    requires
        j <= k,
        step_ms(j) == 0,
    ensures
        step_ms(k) == 0,
    decreases k - j,
{
    if j < k {
        lemma_step_ms_zero(j, (k - 1) as nat);
    }
}

/// Milliseconds between ticks for a board that has cleared `lines` lines;
/// the drop stream is `DROP_SPEEDUP` times faster.
pub fn delay(lines: u64, dropping: bool) -> (r: u32)
    ensures
        r == spec_delay(lines, dropping),
{
    let k: u64 = lines / LINES_BETWEEN_SPEEDUPS;
    let mut ms: u32 = STARTING_TICK_MS;
    let mut i: u64 = 0;
    while i < k && ms > 0
        invariant
            i <= k,
            ms == step_ms(i as nat),
            ms <= STARTING_TICK_MS,
        decreases k - i,
    {
        ms = ms * 9 / 10;
        i = i + 1;
    }
    proof {
        if i < k {
            lemma_step_ms_zero(i as nat, k as nat);
        }
    }
    if dropping {
        ms / DROP_SPEEDUP
    } else {
        ms
    }
}

/// Which tick stream a board runs.
#[derive(Clone, Copy, Debug, PartialEq, Eq, Structural)]
pub enum TimerKind {
    /// No stream: the board is not running.
    Stopped,
    /// The periodic automatic step.
    Step,
    /// The fast stream of a drop.
    Drop,
}

/// The scheduling state of a board's ticks.
///
/// Each start or stop moves to a new generation. A tick carries the
/// generation it was scheduled under and acts only if that generation is
/// still the current one and a stream is running; a tick of a cancelled
/// stream does nothing.
#[derive(Clone, Copy, Debug, PartialEq, Eq, Structural)]
pub struct Timer {
    pub generation: u64,
    pub kind: TimerKind,
    pub msecs: u32,
}

impl Timer {
    /// A stopped timer at generation zero.
    pub fn new() -> (t: Timer)
        ensures
            t == (Timer { generation: 0, kind: TimerKind::Stopped, msecs: 0 }),
    {
        Timer { generation: 0, kind: TimerKind::Stopped, msecs: 0 }
    }

    /// Runs stream `kind` with period `msecs`, in a new generation.
    pub fn start(&mut self, kind: TimerKind, msecs: u32)
        ensures
            *final(self) == old(self).started(kind, msecs),
    {
        self.generation = self.generation.wrapping_add(1);
        self.kind = kind;
        self.msecs = msecs;
    }

    /// Cancels the running stream, in a new generation.
    pub fn stop(&mut self)
        ensures
            *final(self) == old(self).stopped(),
    {
        self.generation = self.generation.wrapping_add(1);
        self.kind = TimerKind::Stopped;
    }

    /// Whether a tick scheduled under `generation` should act now.
    pub fn fires(&self, generation: u64) -> (r: bool)
        ensures
            r == self.spec_fires(generation),
    {
        generation == self.generation && self.kind != TimerKind::Stopped
    }

    /// The timer running `kind` with period `msecs`, in the next generation.
    pub open spec fn started(self, kind: TimerKind, msecs: u32) -> Timer {
        Timer { generation: self.generation.wrapping_add(1), kind, msecs }
    }

    /// The timer with no stream running, in the next generation.
    pub open spec fn stopped(self) -> Timer {
        Timer { generation: self.generation.wrapping_add(1), kind: TimerKind::Stopped, msecs: self.msecs }
    }

    /// A tick scheduled under `generation` acts now.
    pub open spec fn spec_fires(self, generation: u64) -> bool {
        generation == self.generation && self.kind != TimerKind::Stopped
    }
}

} // verus!
