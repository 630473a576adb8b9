use nes_gfx::Action;
use nes_gfx::LoopState;
use nes_gfx::frame::FIXED_TIME_STAMP;
use nes_gfx::frame::advance_frame;

#[test]
fn loop_state_transitions() {
    assert_eq!(
        LoopState::Running.step(Action::Continue),
        LoopState::Running
    );
    assert_eq!(LoopState::Running.step(Action::Stop), LoopState::Stopped);
    assert_eq!(LoopState::Stopped.step(Action::Continue), LoopState::Stopped);
    assert_eq!(LoopState::Stopped.step(Action::Stop), LoopState::Stopped);
}

#[test]
fn frame_accumulator_consumes_whole_intervals() {
    // Exactly one frame interval leaves nothing and a full sleep.
    assert_eq!(advance_frame(0, FIXED_TIME_STAMP), (0, 16));
    // A fast iteration keeps its elapsed time in the accumulator.
    assert_eq!(advance_frame(0, 5_000_000), (5_000_000, 11));
    // A slow iteration sheds whole intervals.
    let (acc, sleep) = advance_frame(1_000_000, 2 * FIXED_TIME_STAMP + 7);
    assert_eq!(acc, 1_000_007);
    assert_eq!(sleep, (FIXED_TIME_STAMP - 1_000_007) / 1_000_000);
    // Nothing elapsed: the accumulator is unchanged.
    assert_eq!(advance_frame(123, 0), (123, 16));
}
