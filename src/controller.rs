//! The sync loop: when to run an iteration, how to wait between
//! iterations in short quanta while watching the stop signals, and when to
//! stop (always followed by leaving the presence document).
use vstd::prelude::*;

verus! {

/// Length of one wait quantum, in milliseconds.
pub const WAIT_QUANTUM_MS: u64 = 100;

/// Where the loop stands.
#[derive(Clone, Copy, Debug, PartialEq, Eq, Structural)]
pub enum LoopPhase {
    /// About to start an iteration.
    Ready,
    /// An iteration is running; the next call reports that it ended.
    Running,
    /// Waiting between iterations; `elapsed_ms` of the interval have passed.
    Waiting { elapsed_ms: u64 },
    /// The loop has ended.
    Stopped,
}

/// What the loop's driver must do next.
#[derive(Clone, Copy, Debug, PartialEq, Eq, Structural)]
pub enum LoopAction {
    /// Run iteration number `n` (from 1).
    RunIteration(u64),
    /// Sleep this many milliseconds, then report the signals again.
    Sleep(u64),
    /// Leave the presence document and return.
    Stop,
}

/// The loop's state.
#[derive(Clone, Copy, Debug, PartialEq, Eq, Structural)]
pub struct SyncLoop {
    /// Interval between iterations; zero or less runs a single iteration.
    pub sync_interval_ms: i64,
    /// Iterations started so far.
    pub iteration: u64,
    pub phase: LoopPhase,
}

/// Start an iteration unless a stop signal is present.
pub open spec fn start_next(l: SyncLoop, shutdown: bool, sentinel: bool) -> (SyncLoop, LoopAction) {
    if shutdown || sentinel || l.iteration == u64::MAX {
        (SyncLoop { phase: LoopPhase::Stopped, ..l }, LoopAction::Stop)
    } else {
        let n = (l.iteration + 1) as u64;
        (SyncLoop { iteration: n, phase: LoopPhase::Running, ..l }, LoopAction::RunIteration(n))
    }
}

/// One wait quantum: stop on either signal; sleep while the interval lasts;
/// after it, stop on the process-wide signal or start the next iteration.
pub open spec fn wait_step(l: SyncLoop, elapsed: u64, shutdown: bool, sentinel: bool) -> (SyncLoop, LoopAction) {
    if (elapsed as int) < l.sync_interval_ms {
        if shutdown || sentinel {
            (SyncLoop { phase: LoopPhase::Stopped, ..l }, LoopAction::Stop)
        } else {
            (
                SyncLoop { phase: LoopPhase::Waiting { elapsed_ms: (elapsed + WAIT_QUANTUM_MS) as u64 }, ..l },
                LoopAction::Sleep(WAIT_QUANTUM_MS),
            )
        }
    } else if shutdown {
        (SyncLoop { phase: LoopPhase::Stopped, ..l }, LoopAction::Stop)
    } else {
        start_next(l, shutdown, sentinel)
    }
}

/// The loop's next state and action, given the stop signals seen now: the
/// process-wide shutdown flag and the configuration's sentinel file.
pub open spec fn loop_next(l: SyncLoop, shutdown: bool, sentinel: bool) -> (SyncLoop, LoopAction) {
    match l.phase {
        LoopPhase::Ready => start_next(l, shutdown, sentinel),
        LoopPhase::Running => if l.sync_interval_ms <= 0 {
            (SyncLoop { phase: LoopPhase::Stopped, ..l }, LoopAction::Stop)
        } else {
            wait_step(l, 0, shutdown, sentinel)
        },
        LoopPhase::Waiting { elapsed_ms } => wait_step(l, elapsed_ms, shutdown, sentinel),
        LoopPhase::Stopped => (l, LoopAction::Stop),
    }
}

impl SyncLoop {
    /// A loop that has run nothing yet.
    pub fn new(sync_interval_ms: i64) -> (r: SyncLoop)
        ensures
            r == (SyncLoop { sync_interval_ms, iteration: 0, phase: LoopPhase::Ready }),
    {
        SyncLoop { sync_interval_ms, iteration: 0, phase: LoopPhase::Ready }
    }

    fn start_next(&mut self, shutdown: bool, sentinel: bool) -> (r: LoopAction)
        ensures
            (*final(self), r) == start_next(*old(self), shutdown, sentinel),
    {
        if shutdown || sentinel || self.iteration == u64::MAX {
            self.phase = LoopPhase::Stopped;
            LoopAction::Stop
        } else {
            self.iteration = self.iteration + 1;
            self.phase = LoopPhase::Running;
            LoopAction::RunIteration(self.iteration)
        }
    }

    fn wait_step(&mut self, elapsed: u64, shutdown: bool, sentinel: bool) -> (r: LoopAction)
        requires
            elapsed <= u64::MAX - WAIT_QUANTUM_MS || (elapsed as int) >= old(self).sync_interval_ms,
        ensures
            (*final(self), r) == wait_step(*old(self), elapsed, shutdown, sentinel),
    {
        if (elapsed as i128) < (self.sync_interval_ms as i128) {
            if shutdown || sentinel {
                self.phase = LoopPhase::Stopped;
                LoopAction::Stop
            } else {
                self.phase = LoopPhase::Waiting { elapsed_ms: elapsed + WAIT_QUANTUM_MS };
                LoopAction::Sleep(WAIT_QUANTUM_MS)
            }
        } else if shutdown {
            self.phase = LoopPhase::Stopped;
            LoopAction::Stop
        } else {
            self.start_next(shutdown, sentinel)
        }
    }

    /// Advances the loop given the stop signals seen now and returns what to
    /// do next.
    pub fn next(&mut self, shutdown: bool, sentinel: bool) -> (r: LoopAction)
        ensures
            (*final(self), r) == loop_next(*old(self), shutdown, sentinel),
    {
        match self.phase {
            LoopPhase::Ready => self.start_next(shutdown, sentinel),
            LoopPhase::Running => {
                if self.sync_interval_ms <= 0 {
                    self.phase = LoopPhase::Stopped;
                    LoopAction::Stop
                } else {
                    self.wait_step(0, shutdown, sentinel)
                }
            },
            LoopPhase::Waiting { elapsed_ms } => {
                if elapsed_ms > u64::MAX - WAIT_QUANTUM_MS {
                    // no i64 interval is that long, so the wait is over
                    assert((elapsed_ms as int) >= self.sync_interval_ms);
                }
                self.wait_step(elapsed_ms, shutdown, sentinel)
            },
            LoopPhase::Stopped => LoopAction::Stop,
        }
    }
}

/// Shutdown while waiting: whenever the loop waits between iterations, the
/// shutdown flag stops it at the very next quantum, so at most one quantum
/// of sleep passes between the flag and the stop.
pub proof fn shutdown_stops_wait(l: SyncLoop, sentinel: bool)
    requires
        l.phase is Waiting || (l.phase is Running && l.sync_interval_ms > 0),
    ensures
        loop_next(l, true, sentinel).1 == LoopAction::Stop,
        loop_next(l, true, sentinel).0.phase == LoopPhase::Stopped,
{
}

/// A loop with no interval runs exactly one iteration and then stops.
pub proof fn one_shot_runs_once(sync_interval_ms: i64, shutdown: bool, sentinel: bool)
    requires
        sync_interval_ms <= 0,
    ensures
        ({
            let l0 = SyncLoop { sync_interval_ms, iteration: 0, phase: LoopPhase::Ready };
            let (l1, a1) = loop_next(l0, false, false);
            let (l2, a2) = loop_next(l1, shutdown, sentinel);
            a1 == LoopAction::RunIteration(1) && a2 == LoopAction::Stop && l2.phase == LoopPhase::Stopped
        }),
{
}

} // verus!
