//! The display loop's decision logic: a two-state machine fed by the
//! render callback, and the fixed-timestep accumulator that paces frames
//! at 60 Hz.
//!
//! The loop itself — calling the render step, polling input, reading the
//! clock and sleeping — is host glue and lives outside the library; it
//! feeds elapsed wall-clock time and the callback's action into these
//! functions and obeys what they return.

use vstd::arithmetic::div_mod::lemma_mod_sub_multiples_vanish;
use vstd::arithmetic::div_mod::lemma_small_mod;
use vstd::prelude::*;

verus! {

/// The target frame interval in nanoseconds: one frame at 60 Hz.
pub const FIXED_TIME_STAMP: u64 = 16666667;

/// What the render/poll callback asks of the loop.
#[derive(Copy, Clone, Debug, PartialEq, Eq, Structural)]
pub enum Action {
    Stop,
    Continue,
}

/// The loop's state: it runs until a stop is requested, then never
/// resumes.
#[derive(Copy, Clone, Debug, PartialEq, Eq, Structural)]
pub enum LoopState {
    Running,
    Stopped,
}

impl LoopState {
    /// The transition relation: `Running` stays `Running` on `Continue`
    /// and becomes `Stopped` on `Stop`; `Stopped` is final.
    pub open spec fn spec_step(self, action: Action) -> LoopState {
        match (self, action) {
            (LoopState::Running, Action::Continue) => LoopState::Running,
            _ => LoopState::Stopped,
        }
    }

    /// Advances the state machine by one callback result.
    pub fn step(self, action: Action) -> (next: LoopState)
        ensures
            next == self.spec_step(action),
            next is Stopped <==> (self is Stopped || action is Stop),
    {
        match (self, action) {
            (LoopState::Running, Action::Continue) => LoopState::Running,
            _ => LoopState::Stopped,
        }
    }
}

/// One pacing step of the fixed-timestep accumulator: add the elapsed
/// nanoseconds, consume whole frame intervals, and report how many
/// milliseconds remain until the next frame is due.
///
/// Returns the reduced accumulator and the sleep time in milliseconds.
pub fn advance_frame(accumulator: u64, elapsed_ns: u64) -> (result: (u64, u64))
    requires
        accumulator < FIXED_TIME_STAMP,
        elapsed_ns <= u64::MAX - accumulator,
    ensures
        result.0 as int == (accumulator + elapsed_ns) as int % (FIXED_TIME_STAMP as int),
        result.0 < FIXED_TIME_STAMP,
        result.1 as int == (FIXED_TIME_STAMP - result.0) as int / 1000000,
        result.1 <= 16,
{
    let total = accumulator + elapsed_ns;
    let mut acc = total;
    while acc >= FIXED_TIME_STAMP
        invariant
            acc as int % (FIXED_TIME_STAMP as int) == total as int % (FIXED_TIME_STAMP as int),
        decreases acc,
    {
        proof {
            lemma_mod_sub_multiples_vanish(acc as int, FIXED_TIME_STAMP as int);
        }
        acc = acc - FIXED_TIME_STAMP;
    }
    proof {
        lemma_small_mod(acc as nat, FIXED_TIME_STAMP as nat);
    }
    (acc, (FIXED_TIME_STAMP - acc) / 1000000)
}

} // verus!
