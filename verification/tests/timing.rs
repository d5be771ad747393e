use ecson::plugin::PluginsState;
use ecson::timing::{plan_frame, FrameClock, FramePlan, LoopAction, ServerLoop};

#[test]
fn frame_runs_whole_steps_and_keeps_remainder() {
    assert_eq!(plan_frame(0, 35, 10, 5), FramePlan { fixed_ticks: 3, accumulator: 5, lagged: false });
    assert_eq!(plan_frame(5, 4, 10, 5), FramePlan { fixed_ticks: 0, accumulator: 9, lagged: false });
}

#[test]
fn frame_caps_ticks_and_skips_time() {
    assert_eq!(plan_frame(0, 1000, 10, 5), FramePlan { fixed_ticks: 5, accumulator: 0, lagged: true });
    // reaching the cap exactly also resets the accumulator
    assert_eq!(plan_frame(0, 50, 10, 5), FramePlan { fixed_ticks: 5, accumulator: 0, lagged: true });
}

#[test]
fn zero_tick_limit_still_runs_one_tick() {
    assert_eq!(plan_frame(0, 25, 10, 0), FramePlan { fixed_ticks: 1, accumulator: 0, lagged: true });
    assert_eq!(plan_frame(0, 5, 10, 0), FramePlan { fixed_ticks: 0, accumulator: 5, lagged: false });
}

#[test]
fn zero_step_hits_the_cap() {
    assert_eq!(plan_frame(0, 0, 0, 3), FramePlan { fixed_ticks: 3, accumulator: 0, lagged: true });
}

#[test]
fn clock_accumulates_across_frames() {
    let mut c = FrameClock::start(100, 10, 5);
    assert_eq!(c.advance(107), FramePlan { fixed_ticks: 0, accumulator: 7, lagged: false });
    assert_eq!(c.advance(115), FramePlan { fixed_ticks: 1, accumulator: 5, lagged: false });
    // a clock that goes backwards contributes no time
    assert_eq!(c.advance(90), FramePlan { fixed_ticks: 0, accumulator: 5, lagged: false });
    assert_eq!(c.accumulator(), 5);
}

#[test]
fn server_loop_runs_frames_then_shuts_down() {
    let mut l = ServerLoop::begin(10, 5, 2);
    assert_eq!(l.phase(), PluginsState::Ready);
    // Startup first, whatever the flag says.
    assert_eq!(l.next(3, true), LoopAction::RunStartup);
    assert!(!l.clock_started());
    l.configure_clock(10, 5);
    // The clock starts at the first frame, so startup time is not counted.
    assert_eq!(l.next(100, false), LoopAction::RunFrame(FramePlan { fixed_ticks: 0, accumulator: 0, lagged: false }));
    assert!(l.clock_started());
    assert_eq!(l.next(120, false), LoopAction::RunFrame(FramePlan { fixed_ticks: 2, accumulator: 0, lagged: false }));
    assert_eq!(l.next(125, true), LoopAction::CleanupPlugin(0));
    assert_eq!(l.phase(), PluginsState::Finished);
    assert_eq!(l.next(126, false), LoopAction::CleanupPlugin(1));
    assert_eq!(l.next(130, false), LoopAction::RunShutdown);
    assert_eq!(l.phase(), PluginsState::Cleaned);
    assert_eq!(l.next(140, false), LoopAction::Stopped);
    assert_eq!(l.phase(), PluginsState::Cleaned);
}

#[test]
fn server_loop_without_plugins_and_immediate_shutdown() {
    let mut l = ServerLoop::begin(10, 5, 0);
    assert_eq!(l.next(0, false), LoopAction::RunStartup);
    assert!(l.fits(u128::MAX, false));
    assert_eq!(l.next(1, true), LoopAction::RunShutdown);
    assert_eq!(l.phase(), PluginsState::Cleaned);
    assert_eq!(l.next(2, true), LoopAction::Stopped);
}

#[test]
fn plugins_state_order() {
    assert!(PluginsState::Adding < PluginsState::Ready);
    assert!(PluginsState::Ready < PluginsState::Finished);
    assert!(PluginsState::Finished < PluginsState::Cleaned);
}
