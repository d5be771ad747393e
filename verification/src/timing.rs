//! Frame pacing of the main loop: a fixed-timestep accumulator and the
//! lifecycle of a running server.
//!
//! Times and durations are whole nanoseconds; instants are measured from an
//! arbitrary fixed origin chosen by the caller.
use vstd::prelude::*;
use crate::plugin::PluginsState;

verus! {

/// The largest `std::time::Duration`, in nanoseconds.
pub const MAX_DURATION_NANOS: u128 = 18446744073709551615999999999;

/// Upper bound on fixed ticks per frame: a limit of zero still lets one tick run.
pub open spec fn tick_cap(max_ticks_per_frame: u32) -> nat {
    if max_ticks_per_frame == 0 {
        1
    } else {
        max_ticks_per_frame as nat
    }
}

/// Whether a frame with `total` accumulated time must drop time: it would need
/// more fixed ticks than the cap allows (always so for a zero-length step).
pub open spec fn frame_lags(total: nat, step: nat, max_ticks_per_frame: u32) -> bool {
    step == 0 || total / step >= tick_cap(max_ticks_per_frame)
}

/// Fixed ticks run in a frame with `total` accumulated time.
pub open spec fn frame_ticks(total: nat, step: nat, max_ticks_per_frame: u32) -> nat {
    if frame_lags(total, step, max_ticks_per_frame) {
        tick_cap(max_ticks_per_frame)
    } else {
        total / step
    }
}

/// Time left in the accumulator after the frame: the remainder, or nothing
/// when the frame lagged and time was skipped.
pub open spec fn frame_leftover(total: nat, step: nat, max_ticks_per_frame: u32) -> nat {
    if frame_lags(total, step, max_ticks_per_frame) {
        0
    } else {
        total % step
    }
}

/// What one frame of the main loop runs.
#[derive(Debug, PartialEq, Eq, Clone, Copy)]
pub struct FramePlan {
    /// How many times `FixedUpdate` runs in this frame.
    pub fixed_ticks: u32,
    /// Accumulated time carried to the next frame.
    pub accumulator: u128,
    /// Whether time was skipped because the frame hit the tick cap.
    pub lagged: bool,
}

proof fn lemma_div_at_least(x: int, d: int, q: int)
    requires
        d > 0,
        q >= 0,
        x >= q * d,
    ensures
        x / d >= q,
{
    vstd::arithmetic::div_mod::lemma_fundamental_div_mod(x, d);
    assert(x / d >= q) by (nonlinear_arith)
        requires
            d > 0,
            x >= q * d,
            x == d * (x / d) + x % d,
            0 <= x % d < d,
    ;
}

/// Runs the fixed-timestep accumulator for one frame.
///
/// The frame's elapsed time is added to the accumulator; `FixedUpdate` then runs
/// once per whole `step`, but at most `max_ticks_per_frame` times (at least once
/// when there is a whole step). Hitting the cap resets the accumulator.
pub fn plan_frame(accumulator: u128, delta: u128, step: u128, max_ticks_per_frame: u32) -> (plan: FramePlan)
    requires
        accumulator + delta <= MAX_DURATION_NANOS,
    ensures
        plan.fixed_ticks == frame_ticks((accumulator + delta) as nat, step as nat, max_ticks_per_frame),
        plan.accumulator == frame_leftover((accumulator + delta) as nat, step as nat, max_ticks_per_frame),
        plan.lagged == frame_lags((accumulator + delta) as nat, step as nat, max_ticks_per_frame),
{
    let ghost total0 = (accumulator + delta) as int;
    let ghost cap = tick_cap(max_ticks_per_frame) as int;
    let mut total = accumulator + delta;
    let mut ticks: u32 = 0;
    let mut lagged = false;
    while total >= step
        invariant_except_break
            0 <= ticks < cap,
            cap == tick_cap(max_ticks_per_frame),
            total0 == (accumulator + delta) as int,
            total as int == total0 - ticks as int * step as int,
            !lagged,
        ensures
            lagged ==> ticks as int == cap && total0 >= cap * step as int && total == 0,
            !lagged ==> ticks < cap && total < step && total as int == total0 - ticks as int * step as int,
        decreases cap - ticks,
    {
        total = total - step;
        ticks = ticks + 1;
        assert(total as int == total0 - ticks as int * step as int) by (nonlinear_arith)
            requires
                total as int == total0 - (ticks - 1) as int * step as int - step as int,
        ;
        if ticks >= max_ticks_per_frame {
            assert(total0 >= cap * step as int) by (nonlinear_arith)
                requires
                    ticks as int == cap,
                    total as int == total0 - ticks as int * step as int,
                    total >= 0,
            ;
            total = 0;
            lagged = true;
            break;
        }
    }
    proof {
        if lagged {
            if step > 0 {
                lemma_div_at_least(total0, step as int, cap);
            }
        } else {
            assert(step > 0);
            vstd::arithmetic::div_mod::lemma_fundamental_div_mod_converse(
                total0,
                step as int,
                ticks as int,
                (total0 - ticks as int * step as int),
            );
        }
    }
    FramePlan { fixed_ticks: ticks, accumulator: total, lagged }
}

/// Fixed-step time laws: a frame never runs more fixed ticks than the cap; when
/// it does not lag, every whole step is run and the remainder (less than one
/// step) carries over, so no time is lost; when it lags, the cap is reached.
pub proof fn law_fixed_step_accounting(total: nat, step: nat, max_ticks_per_frame: u32)
    ensures
        frame_ticks(total, step, max_ticks_per_frame) <= tick_cap(max_ticks_per_frame),
        !frame_lags(total, step, max_ticks_per_frame) ==> frame_ticks(total, step, max_ticks_per_frame) * step
            + frame_leftover(total, step, max_ticks_per_frame) == total
            && frame_leftover(total, step, max_ticks_per_frame) < step,
        frame_lags(total, step, max_ticks_per_frame) ==> frame_ticks(total, step, max_ticks_per_frame)
            == tick_cap(max_ticks_per_frame) && frame_leftover(total, step, max_ticks_per_frame) == 0,
{
    if !frame_lags(total, step, max_ticks_per_frame) {
        vstd::arithmetic::div_mod::lemma_fundamental_div_mod(total as int, step as int);
        assert((total / step) * step == step * (total / step)) by (nonlinear_arith);
    }
}

/// Accumulator and clock of the main loop.
pub struct FrameClock {
    step: u128,
    max_ticks_per_frame: u32,
    previous: u128,
    accumulator: u128,
}

/// Mathematical model of a [`FrameClock`].
pub struct FrameClockView {
    pub step: nat,
    pub max_ticks_per_frame: u32,
    pub previous: nat,
    pub accumulator: nat,
}

impl View for FrameClock {
    type V = FrameClockView;

    closed spec fn view(&self) -> FrameClockView {
        FrameClockView {
            step: self.step as nat,
            max_ticks_per_frame: self.max_ticks_per_frame,
            previous: self.previous as nat,
            accumulator: self.accumulator as nat,
        }
    }
}

/// Elapsed time from `earlier` to `later`, zero if `later` is before `earlier`.
pub open spec fn elapsed(earlier: nat, later: nat) -> nat {
    if later >= earlier {
        (later - earlier) as nat
    } else {
        0
    }
}

impl FrameClock {
    /// A clock started at `now` with an empty accumulator.
    pub fn start(now: u128, step: u128, max_ticks_per_frame: u32) -> (c: Self)
        ensures
            c@ == (FrameClockView { step: step as nat, max_ticks_per_frame, previous: now as nat, accumulator: 0 }),
    {
        FrameClock { step, max_ticks_per_frame, previous: now, accumulator: 0 }
    }

    /// Accumulated time not yet consumed by fixed ticks.
    pub fn accumulator(&self) -> (a: u128)
        ensures
            a == self@.accumulator,
    {
        self.accumulator
    }

    /// Sets the fixed step and the tick cap.
    pub fn set_rate(&mut self, step: u128, max_ticks_per_frame: u32)
        ensures
            final(self)@ == (FrameClockView { step: step as nat, max_ticks_per_frame, ..old(self)@ }),
    {
        self.step = step;
        self.max_ticks_per_frame = max_ticks_per_frame;
    }

    /// Restarts the clock at `now` with an empty accumulator.
    pub fn restart(&mut self, now: u128)
        ensures
            final(self)@ == (FrameClockView { previous: now as nat, accumulator: 0, ..old(self)@ }),
    {
        self.previous = now;
        self.accumulator = 0;
    }

    /// Whether a frame can start at `now` without the accumulated time exceeding the largest duration.
    pub fn fits(&self, now: u128) -> (b: bool)
        ensures
            b == (self@.accumulator + elapsed(self@.previous, now as nat) <= MAX_DURATION_NANOS),
    {
        let delta = if now >= self.previous { now - self.previous } else { 0 };
        delta <= MAX_DURATION_NANOS && self.accumulator <= MAX_DURATION_NANOS - delta
    }

    /// Starts a frame at `now`: adds the time elapsed since the previous frame
    /// and plans the fixed ticks.
    pub fn advance(&mut self, now: u128) -> (plan: FramePlan)
        requires
            old(self)@.accumulator + elapsed(old(self)@.previous, now as nat) <= MAX_DURATION_NANOS,
        ensures
            ({
                let total = old(self)@.accumulator + elapsed(old(self)@.previous, now as nat);
                &&& plan.fixed_ticks == frame_ticks(total, old(self)@.step, old(self)@.max_ticks_per_frame)
                &&& plan.lagged == frame_lags(total, old(self)@.step, old(self)@.max_ticks_per_frame)
                &&& plan.accumulator == frame_leftover(total, old(self)@.step, old(self)@.max_ticks_per_frame)
                &&& final(self)@ == FrameClockView { previous: now as nat, accumulator: plan.accumulator as nat, ..old(self)@ }
            }),
    {
        let delta = if now >= self.previous { now - self.previous } else { 0 };
        self.previous = now;
        let plan = plan_frame(self.accumulator, delta, self.step, self.max_ticks_per_frame);
        self.accumulator = plan.accumulator;
        plan
    }
}

/// What the main loop does next.
#[derive(Debug, PartialEq, Eq, Clone, Copy)]
pub enum LoopAction {
    /// Run the `Startup` schedule.
    RunStartup,
    /// Run `Update`, then `FixedUpdate` as planned, then sleep.
    RunFrame(FramePlan),
    /// Shutdown was requested: run the cleanup of the plugin at this position
    /// (plugins are cleaned up in the order they were added).
    CleanupPlugin(usize),
    /// Run the `Shutdown` schedule.
    RunShutdown,
    /// The server has stopped.
    Stopped,
}

/// The main loop of a running server: `Startup` runs once; frames run while no
/// shutdown is requested; then each plugin is cleaned up in order and the
/// `Shutdown` schedule runs.
pub struct ServerLoop {
    phase: PluginsState,
    started: bool,
    clock_started: bool,
    clock: FrameClock,
    plugins: usize,
    cleaned: usize,
}

/// Mathematical model of a [`ServerLoop`].
pub struct LoopView {
    /// Plugins phase.
    pub phase: PluginsState,
    /// Whether `Startup` has been run.
    pub started: bool,
    /// Whether the frame clock has been started (at the first frame after `Startup`).
    pub clock_started: bool,
    /// The frame clock.
    pub clock: FrameClockView,
    /// Number of plugins to clean up.
    pub plugins: nat,
    /// Number of plugins cleaned up so far.
    pub cleaned: nat,
}

impl View for ServerLoop {
    type V = LoopView;

    closed spec fn view(&self) -> LoopView {
        LoopView {
            phase: self.phase,
            started: self.started,
            clock_started: self.clock_started,
            clock: self.clock@,
            plugins: self.plugins as nat,
            cleaned: self.cleaned as nat,
        }
    }
}

/// A loop that has entered the running phase and not yet run `Startup`.
pub open spec fn begun(step: nat, max_ticks_per_frame: u32, plugins: nat) -> LoopView {
    LoopView {
        phase: PluginsState::Ready,
        started: false,
        clock_started: false,
        clock: FrameClockView { step, max_ticks_per_frame, previous: 0, accumulator: 0 },
        plugins,
        cleaned: 0,
    }
}

/// The clock a frame at `now` runs on: the loop's clock, or one started at
/// `now` for the first frame.
pub open spec fn frame_clock_for(l: LoopView, now: nat) -> FrameClockView {
    if l.clock_started {
        l.clock
    } else {
        FrameClockView { previous: now, accumulator: 0, ..l.clock }
    }
}

/// Cleans up the next plugin, or runs `Shutdown` once all are cleaned up.
pub open spec fn cleanup_step(l: LoopView) -> (LoopView, LoopAction) {
    if l.cleaned < l.plugins {
        (LoopView { cleaned: l.cleaned + 1, ..l }, LoopAction::CleanupPlugin(l.cleaned as usize))
    } else {
        (LoopView { phase: PluginsState::Cleaned, ..l }, LoopAction::RunShutdown)
    }
}

/// The loop after one call at `now`, given whether shutdown was requested, and
/// the action it asks for.
pub open spec fn loop_step(l: LoopView, now: nat, shutdown_requested: bool) -> (LoopView, LoopAction) {
    match l.phase {
        PluginsState::Ready => if !l.started {
            (LoopView { started: true, ..l }, LoopAction::RunStartup)
        } else if shutdown_requested {
            cleanup_step(LoopView { phase: PluginsState::Finished, ..l })
        } else {
            let (c1, ticks, lagged) = clock_frame(frame_clock_for(l, now), now);
            (
                LoopView { clock: c1, clock_started: true, ..l },
                LoopAction::RunFrame(
                    FramePlan { fixed_ticks: ticks as u32, accumulator: c1.accumulator as u128, lagged },
                ),
            )
        },
        PluginsState::Finished => cleanup_step(l),
        _ => (l, LoopAction::Stopped),
    }
}

/// Whether a call at `now` can be made without the accumulated time exceeding
/// the largest duration (only a frame adds time).
pub open spec fn loop_step_in_range(l: LoopView, now: nat, shutdown_requested: bool) -> bool {
    (l.phase == PluginsState::Ready && l.started && !shutdown_requested && l.clock_started) ==> l.clock.accumulator
        + elapsed(l.clock.previous, now) <= MAX_DURATION_NANOS
}

impl ServerLoop {
    /// Enters the running phase (`Ready`) for an application with `plugins`
    /// plugins; `Startup` has not run yet.
    pub fn begin(step: u128, max_ticks_per_frame: u32, plugins: usize) -> (l: Self)
        ensures
            l@ == begun(step as nat, max_ticks_per_frame, plugins as nat),
    {
        ServerLoop {
            phase: PluginsState::Ready,
            started: false,
            clock_started: false,
            clock: FrameClock::start(0, step, max_ticks_per_frame),
            plugins,
            cleaned: 0,
        }
    }

    /// Sets the fixed step and the tick cap of the frame clock, before its first frame.
    pub fn configure_clock(&mut self, step: u128, max_ticks_per_frame: u32)
        requires
            !old(self)@.clock_started,
        ensures
            final(self)@ == (LoopView {
                clock: FrameClockView { step: step as nat, max_ticks_per_frame, ..old(self)@.clock },
                ..old(self)@
            }),
    {
        self.clock.set_rate(step, max_ticks_per_frame);
    }

    /// Whether the frame clock has been started, which happens at the first frame.
    pub fn clock_started(&self) -> (b: bool)
        ensures
            b == self@.clock_started,
    {
        self.clock_started
    }

    /// Current plugins phase.
    pub fn phase(&self) -> (p: PluginsState)
        ensures
            p == self@.phase,
    {
        self.phase
    }

    /// Whether [`ServerLoop::next`] may be called at `now`.
    pub fn fits(&self, now: u128, shutdown_requested: bool) -> (b: bool)
        ensures
            b == loop_step_in_range(self@, now as nat, shutdown_requested),
    {
        if self.phase == PluginsState::Ready && self.started && !shutdown_requested && self.clock_started {
            self.clock.fits(now)
        } else {
            true
        }
    }

    fn cleanup_next(&mut self) -> (a: LoopAction)
        ensures
            (final(self)@, a) == cleanup_step(old(self)@),
    {
        if self.cleaned < self.plugins {
            let i = self.cleaned;
            self.cleaned = self.cleaned + 1;
            LoopAction::CleanupPlugin(i)
        } else {
            self.phase = PluginsState::Cleaned;
            LoopAction::RunShutdown
        }
    }

    /// Decides the next step, given the time and whether shutdown was requested.
    pub fn next(&mut self, now: u128, shutdown_requested: bool) -> (a: LoopAction)
        requires
            loop_step_in_range(old(self)@, now as nat, shutdown_requested),
        ensures
            (final(self)@, a) == loop_step(old(self)@, now as nat, shutdown_requested),
    {
        match self.phase {
            PluginsState::Ready => {
                if !self.started {
                    self.started = true;
                    LoopAction::RunStartup
                } else if shutdown_requested {
                    self.phase = PluginsState::Finished;
                    self.cleanup_next()
                } else {
                    if !self.clock_started {
                        self.clock.restart(now);
                        self.clock_started = true;
                    }
                    LoopAction::RunFrame(self.clock.advance(now))
                }
            },
            PluginsState::Finished => self.cleanup_next(),
            _ => LoopAction::Stopped,
        }
    }
}

/// Clock after a frame starting at `now`, with the fixed ticks it runs and whether it lagged.
pub open spec fn clock_frame(c: FrameClockView, now: nat) -> (FrameClockView, nat, bool) {
    let total = c.accumulator + elapsed(c.previous, now);
    (
        FrameClockView {
            previous: now,
            accumulator: frame_leftover(total, c.step, c.max_ticks_per_frame),
            ..c
        },
        frame_ticks(total, c.step, c.max_ticks_per_frame),
        frame_lags(total, c.step, c.max_ticks_per_frame),
    )
}

/// Clock after frames starting at each of `nows`, the fixed ticks run in
/// total, and whether any frame lagged.
pub open spec fn clock_run(c: FrameClockView, nows: Seq<nat>) -> (FrameClockView, nat, bool)
    decreases nows.len(),
{
    if nows.len() == 0 {
        (c, 0, false)
    } else {
        let (c1, t1, l1) = clock_frame(c, nows[0]);
        let (cn, tn, ln) = clock_run(c1, nows.drop_first());
        (cn, t1 + tn, l1 || ln)
    }
}

/// Total time elapsed over frames starting at each of `nows`, from `previous`.
pub open spec fn elapsed_total(previous: nat, nows: Seq<nat>) -> nat
    decreases nows.len(),
{
    if nows.len() == 0 {
        0
    } else {
        elapsed(previous, nows[0]) + elapsed_total(nows[0], nows.drop_first())
    }
}

/// Across any run of frames in which no frame lags, simulated time is
/// conserved: the fixed ticks run, each one step long, plus what is left in
/// the accumulator equal the starting accumulator plus the real time elapsed.
pub proof fn law_time_conservation(c: FrameClockView, nows: Seq<nat>)
    requires
        !clock_run(c, nows).2,
    ensures
        clock_run(c, nows).1 * c.step + clock_run(c, nows).0.accumulator == c.accumulator + elapsed_total(c.previous, nows),
        clock_run(c, nows).0.step == c.step,
    decreases nows.len(),
{
    if nows.len() > 0 {
        let total = c.accumulator + elapsed(c.previous, nows[0]);
        let (c1, t1, l1) = clock_frame(c, nows[0]);
        law_fixed_step_accounting(total, c.step, c.max_ticks_per_frame);
        law_time_conservation(c1, nows.drop_first());
        let (cn, tn, ln) = clock_run(c1, nows.drop_first());
        assert(clock_run(c, nows) == (cn, t1 + tn, l1 || ln));
        assert(!l1 && !ln);
        assert(t1 * c.step + c1.accumulator == total);
        assert(tn * c.step + cn.accumulator == c1.accumulator + elapsed_total(nows[0], nows.drop_first()));
        assert((t1 + tn) * c.step == t1 * c.step + tn * c.step) by (nonlinear_arith);
        assert(elapsed_total(c.previous, nows) == elapsed(c.previous, nows[0]) + elapsed_total(nows[0], nows.drop_first()));
        assert(clock_run(c, nows).1 * c.step + clock_run(c, nows).0.accumulator == (t1 + tn) * c.step + cn.accumulator);
    } else {
        assert(clock_run(c, nows).1 * c.step == 0) by (nonlinear_arith)
            requires
                clock_run(c, nows).1 == 0,
        ;
    }
}

/// Position of a plugins state in the lifecycle order.
pub open spec fn phase_rank(p: PluginsState) -> nat {
    match p {
        PluginsState::Adding => 0,
        PluginsState::Ready => 1,
        PluginsState::Finished => 2,
        PluginsState::Cleaned => 3,
    }
}

/// One step of the main loop never moves the plugins phase back, and
/// `Cleaned` is final.
pub proof fn law_loop_phase_moves_forward(l: LoopView, now: nat, shutdown_requested: bool)
    ensures
        phase_rank(l.phase) <= phase_rank(loop_step(l, now, shutdown_requested).0.phase),
        l.phase == PluginsState::Cleaned ==> loop_step(l, now, shutdown_requested) == (l, LoopAction::Stopped),
{
}

/// Which action may come right after `a` in a loop with `plugins` plugins:
/// after `Startup` or a frame, another frame or the start of the shutdown
/// (the first cleanup, or `Shutdown` when there is no plugin); cleanups follow
/// one another in order and end with `Shutdown`; after `Shutdown` the loop
/// stays stopped.
pub open spec fn may_follow(plugins: nat, a: LoopAction, b: LoopAction) -> bool {
    let starts_shutdown = if plugins > 0 {
        b == LoopAction::CleanupPlugin(0)
    } else {
        b == LoopAction::RunShutdown
    };
    match a {
        LoopAction::RunStartup | LoopAction::RunFrame(_) => b is RunFrame || starts_shutdown,
        LoopAction::CleanupPlugin(k) => if k + 1 < plugins {
            b == LoopAction::CleanupPlugin((k + 1) as usize)
        } else {
            b == LoopAction::RunShutdown
        },
        LoopAction::RunShutdown | LoopAction::Stopped => b == LoopAction::Stopped,
    }
}

/// The actions of a loop over calls at the given times with the given
/// shutdown flags, and the loop afterwards.
pub open spec fn loop_run(l: LoopView, calls: Seq<(nat, bool)>) -> (LoopView, Seq<LoopAction>)
    decreases calls.len(),
{
    if calls.len() == 0 {
        (l, Seq::empty())
    } else {
        let (l1, a) = loop_step(l, calls[0].0, calls[0].1);
        let (ln, acts) = loop_run(l1, calls.drop_first());
        (ln, seq![a] + acts)
    }
}

/// The loop state that goes with its last action.
pub open spec fn consistent(l: LoopView, last: LoopAction) -> bool {
    &&& l.started
    &&& l.cleaned <= l.plugins <= usize::MAX
    &&& match last {
        LoopAction::RunStartup | LoopAction::RunFrame(_) => l.phase == PluginsState::Ready && l.cleaned == 0,
        LoopAction::CleanupPlugin(k) => l.phase == PluginsState::Finished && l.cleaned == k + 1,
        LoopAction::RunShutdown | LoopAction::Stopped => l.phase == PluginsState::Cleaned,
    }
}

proof fn lemma_loop_step_follows(l: LoopView, last: LoopAction, now: nat, shutdown_requested: bool)
    requires
        consistent(l, last),
    ensures
        may_follow(l.plugins, last, loop_step(l, now, shutdown_requested).1),
        consistent(loop_step(l, now, shutdown_requested).0, loop_step(l, now, shutdown_requested).1),
        loop_step(l, now, shutdown_requested).0.plugins == l.plugins,
        loop_step(l, now, shutdown_requested).1 != LoopAction::RunStartup,
{
}

proof fn lemma_loop_run_follows(l: LoopView, last: LoopAction, calls: Seq<(nat, bool)>)
    requires
        consistent(l, last),
    ensures
        loop_run(l, calls).1.len() == calls.len(),
        calls.len() > 0 ==> may_follow(l.plugins, last, loop_run(l, calls).1[0]),
        forall|i: int| 0 <= i < calls.len() - 1 ==> may_follow(l.plugins, #[trigger] loop_run(l, calls).1[i], loop_run(l, calls).1[i + 1]),
        forall|i: int| 0 <= i < calls.len() ==> #[trigger] loop_run(l, calls).1[i] != LoopAction::RunStartup,
    decreases calls.len(),
{
    if calls.len() > 0 {
        let (l1, a) = loop_step(l, calls[0].0, calls[0].1);
        lemma_loop_step_follows(l, last, calls[0].0, calls[0].1);
        lemma_loop_run_follows(l1, a, calls.drop_first());
        let rest = loop_run(l1, calls.drop_first()).1;
        let acts = loop_run(l, calls).1;
        assert(acts == seq![a] + rest);
        assert forall|i: int| 0 <= i < calls.len() - 1 implies may_follow(l.plugins, #[trigger] acts[i], acts[i + 1]) by {
            if i > 0 {
                assert(acts[i] == rest[i - 1]);
            }
            assert(acts[i + 1] == rest[i]);
        }
        assert forall|i: int| 0 <= i < calls.len() implies #[trigger] acts[i] != LoopAction::RunStartup by {
            if i > 0 {
                assert(acts[i] == rest[i - 1]);
            }
        }
    }
}

/// Over any run of a server loop, `Startup` runs exactly once and first; then
/// frames run until shutdown is requested; then every plugin is cleaned up
/// once, in the order the plugins were added, and `Shutdown` runs once, after
/// which the loop stays stopped. (Each action may only be followed as
/// [`may_follow`] allows.)
pub proof fn law_server_run_order(step: nat, max_ticks_per_frame: u32, plugins: nat, calls: Seq<(nat, bool)>)
    requires
        plugins <= usize::MAX,
    ensures
        ({
            let acts = loop_run(begun(step, max_ticks_per_frame, plugins), calls).1;
            &&& acts.len() == calls.len()
            &&& calls.len() > 0 ==> acts[0] == LoopAction::RunStartup
            &&& forall|i: int| 0 < i < acts.len() ==> #[trigger] acts[i] != LoopAction::RunStartup
            &&& forall|i: int| 0 <= i < acts.len() - 1 ==> may_follow(plugins, #[trigger] acts[i], acts[i + 1])
        }),
{
    let l0 = begun(step, max_ticks_per_frame, plugins);
    if calls.len() > 0 {
        let (l1, a) = loop_step(l0, calls[0].0, calls[0].1);
        assert(a == LoopAction::RunStartup);
        assert(consistent(l1, a));
        lemma_loop_run_follows(l1, a, calls.drop_first());
        let rest = loop_run(l1, calls.drop_first()).1;
        let acts = loop_run(l0, calls).1;
        assert(acts == seq![a] + rest);
        assert forall|i: int| 0 < i < acts.len() implies #[trigger] acts[i] != LoopAction::RunStartup by {
            assert(acts[i] == rest[i - 1]);
        }
        assert forall|i: int| 0 <= i < acts.len() - 1 implies may_follow(plugins, #[trigger] acts[i], acts[i + 1]) by {
            if i > 0 {
                assert(acts[i] == rest[i - 1]);
            }
            assert(acts[i + 1] == rest[i]);
        }
    }
}

/// Across any run of frames in which no frame lags, simulated time is
/// conserved (see [`law_time_conservation`]); the clock of a loop starts at
/// its first frame, so the time spent in `Startup` is not counted.
pub proof fn law_first_frame_starts_clock(l: LoopView, now: nat)
    requires
        l.phase == PluginsState::Ready,
        l.started,
        !l.clock_started,
    ensures
        loop_step(l, now, false).1 == LoopAction::RunFrame(
            FramePlan {
                fixed_ticks: frame_ticks(0, l.clock.step, l.clock.max_ticks_per_frame) as u32,
                accumulator: 0,
                lagged: frame_lags(0, l.clock.step, l.clock.max_ticks_per_frame),
            },
        ),
        loop_step(l, now, false).0.clock.previous == now,
{
}

/// One thing an application does that may touch its plugins state: run
/// schedules by hand (startup, one frame, several frames), enter `run` (which
/// begins a server loop), or take one step of that loop.
pub enum AppStep {
    Schedules,
    RunBegins { step: nat, max_ticks_per_frame: u32, plugins: nat },
    LoopStep { now: nat, shutdown_requested: bool },
}

/// An application's plugins state: `Adding` until `run` begins a loop, then the loop's phase.
pub open spec fn app_phase(l: Option<LoopView>) -> PluginsState {
    match l {
        None => PluginsState::Adding,
        Some(v) => v.phase,
    }
}

/// The application's loop after one step.
pub open spec fn after_app_step(l: Option<LoopView>, s: AppStep) -> Option<LoopView> {
    match s {
        AppStep::Schedules => l,
        AppStep::RunBegins { step, max_ticks_per_frame, plugins } => Some(begun(step, max_ticks_per_frame, plugins)),
        AppStep::LoopStep { now, shutdown_requested } => match l {
            Some(v) => Some(loop_step(v, now, shutdown_requested).0),
            None => None,
        },
    }
}

/// Whether `steps` can happen in an application: `run` is entered at most
/// once, and loop steps happen only after it was entered.
pub open spec fn app_steps_ordered(started: bool, steps: Seq<AppStep>) -> bool
    decreases steps.len(),
{
    if steps.len() == 0 {
        true
    } else {
        match steps[0] {
            AppStep::Schedules => app_steps_ordered(started, steps.drop_first()),
            AppStep::RunBegins { .. } => !started && app_steps_ordered(true, steps.drop_first()),
            AppStep::LoopStep { .. } => started && app_steps_ordered(started, steps.drop_first()),
        }
    }
}

/// The plugins states observed along `steps`, starting from loop state `l`.
pub open spec fn app_phases(l: Option<LoopView>, steps: Seq<AppStep>) -> Seq<PluginsState>
    decreases steps.len(),
{
    if steps.len() == 0 {
        seq![app_phase(l)]
    } else {
        seq![app_phase(l)] + app_phases(after_app_step(l, steps[0]), steps.drop_first())
    }
}

proof fn lemma_app_phases_monotone(l: Option<LoopView>, started: bool, steps: Seq<AppStep>)
    requires
        app_steps_ordered(started, steps),
        started ==> l is Some && phase_rank(app_phase(l)) >= 1,
        !started ==> l is None,
    ensures
        app_phases(l, steps).len() == steps.len() + 1,
        forall|i: int| 0 <= i < app_phases(l, steps).len() ==> phase_rank(app_phase(l)) <= phase_rank(#[trigger] app_phases(l, steps)[i]),
        forall|i: int, j: int|
            0 <= i <= j < app_phases(l, steps).len() ==> phase_rank(#[trigger] app_phases(l, steps)[i]) <= phase_rank(
                #[trigger] app_phases(l, steps)[j],
            ),
    decreases steps.len(),
{
    if steps.len() > 0 {
        let q = after_app_step(l, steps[0]);
        let started2 = match steps[0] {
            AppStep::RunBegins { .. } => true,
            _ => started,
        };
        if let AppStep::LoopStep { now, shutdown_requested } = steps[0] {
            law_loop_phase_moves_forward(l->0, now, shutdown_requested);
        }
        lemma_app_phases_monotone(q, started2, steps.drop_first());
        let rest = app_phases(q, steps.drop_first());
        let all = app_phases(l, steps);
        assert(all == seq![app_phase(l)] + rest);
        assert(phase_rank(app_phase(l)) <= phase_rank(app_phase(q)));
        assert forall|i: int| 0 <= i < all.len() implies phase_rank(app_phase(l)) <= phase_rank(#[trigger] all[i]) by {
            if i > 0 {
                assert(all[i] == rest[i - 1]);
            }
        }
        assert forall|i: int, j: int| 0 <= i <= j < all.len() implies phase_rank(#[trigger] all[i]) <= phase_rank(
            #[trigger] all[j],
        ) by {
            if i > 0 {
                assert(all[i] == rest[i - 1]);
                assert(all[j] == rest[j - 1]);
            } else {
                assert(all[i] == app_phase(l));
            }
        }
    }
}

/// An application's plugins state never goes back: it is `Adding` until `run`
/// is entered, and along any sequence of steps in which `run` is entered at
/// most once (schedules run by hand in between leave it unchanged), the states
/// observed only move forward in the order `Adding`, `Ready`, `Finished`, `Cleaned`.
pub proof fn law_plugins_state_never_decreases(steps: Seq<AppStep>)
    requires
        app_steps_ordered(false, steps),
    ensures
        app_phases(None, steps)[0] == PluginsState::Adding,
        forall|i: int, j: int|
            0 <= i <= j < app_phases(None, steps).len() ==> phase_rank(#[trigger] app_phases(None, steps)[i])
                <= phase_rank(#[trigger] app_phases(None, steps)[j]),
{
    lemma_app_phases_monotone(None, false, steps);
}

/// Fixed ticks run by the frames among `acts`.
pub open spec fn ticks_run(acts: Seq<LoopAction>) -> nat
    decreases acts.len(),
{
    if acts.len() == 0 {
        0
    } else {
        (match acts[0] {
            LoopAction::RunFrame(plan) => plan.fixed_ticks as nat,
            _ => 0,
        }) + ticks_run(acts.drop_first())
    }
}

/// The instants of `calls`.
pub open spec fn call_times(calls: Seq<(nat, bool)>) -> Seq<nat> {
    Seq::new(calls.len(), |i: int| calls[i].0)
}

/// Whether no frame among `acts` lagged.
pub open spec fn no_frame_lags(acts: Seq<LoopAction>) -> bool {
    forall|i: int| 0 <= i < acts.len() ==> !(#[trigger] acts[i] matches LoopAction::RunFrame(plan) && plan.lagged)
}

/// The main loop keeps time: across any run of frames of a running loop in
/// which no frame lags and no shutdown is requested, the fixed ticks run, each
/// one step long, plus what the loop's clock carries over equal what it carried
/// before plus the real time elapsed. Time left over after a frame is never
/// thrown away; it counts toward the next fixed tick.
pub proof fn law_loop_conserves_time(l: LoopView, calls: Seq<(nat, bool)>)
    requires
        l.phase == PluginsState::Ready,
        l.started,
        l.clock_started,
        forall|i: int| 0 <= i < calls.len() ==> !(#[trigger] calls[i]).1,
        no_frame_lags(loop_run(l, calls).1),
    ensures
        ticks_run(loop_run(l, calls).1) * l.clock.step + loop_run(l, calls).0.clock.accumulator == l.clock.accumulator
            + elapsed_total(l.clock.previous, call_times(calls)),
        loop_run(l, calls).0.clock.step == l.clock.step,
    decreases calls.len(),
{
    if calls.len() == 0 {
        assert(ticks_run(loop_run(l, calls).1) == 0);
        assert(0 * l.clock.step == 0);
    } else {
        let now = calls[0].0;
        assert(!calls[0].1);
        let (l1, a) = loop_step(l, now, false);
        let total = l.clock.accumulator + elapsed(l.clock.previous, now);
        let t1 = frame_ticks(total, l.clock.step, l.clock.max_ticks_per_frame);
        law_fixed_step_accounting(total, l.clock.step, l.clock.max_ticks_per_frame);
        assert(t1 <= u32::MAX);
        let rest_calls = calls.drop_first();
        let (ln, rest) = loop_run(l1, rest_calls);
        let acts = loop_run(l, calls).1;
        assert(acts == seq![a] + rest);
        assert(acts[0] == a);
        assert(!frame_lags(total, l.clock.step, l.clock.max_ticks_per_frame));
        assert forall|i: int| 0 <= i < rest.len() implies !(#[trigger] rest[i] matches LoopAction::RunFrame(plan)
            && plan.lagged) by {
            assert(rest[i] == acts[i + 1]);
        }
        assert forall|i: int| 0 <= i < rest_calls.len() implies !(#[trigger] rest_calls[i]).1 by {
            assert(rest_calls[i] == calls[i + 1]);
        }
        law_loop_conserves_time(l1, rest_calls);
        assert(acts.drop_first() =~= rest);
        assert(ticks_run(acts) == t1 + ticks_run(rest));
        assert(call_times(calls)[0] == now);
        assert(call_times(calls).drop_first() =~= call_times(rest_calls));
        let tr = ticks_run(rest);
        let st = l.clock.step;
        assert((t1 + tr) * st == t1 * st + tr * st) by (nonlinear_arith);
    }
}

/// The first frame after `Startup` starts the clock: from then on, across any
/// run without lag or shutdown, the fixed ticks run times the step plus what
/// the clock carries over equal the real time elapsed since that first frame.
pub proof fn law_loop_time_from_first_frame(l: LoopView, calls: Seq<(nat, bool)>)
    requires
        l.phase == PluginsState::Ready,
        l.started,
        !l.clock_started,
        calls.len() > 0,
        forall|i: int| 0 <= i < calls.len() ==> !(#[trigger] calls[i]).1,
        no_frame_lags(loop_run(l, calls).1),
    ensures
        ticks_run(loop_run(l, calls).1) * l.clock.step + loop_run(l, calls).0.clock.accumulator == elapsed_total(
            calls[0].0,
            call_times(calls).drop_first(),
        ),
{
    let now = calls[0].0;
    assert(!calls[0].1);
    let (l1, a) = loop_step(l, now, false);
    law_fixed_step_accounting(0, l.clock.step, l.clock.max_ticks_per_frame);
    let rest_calls = calls.drop_first();
    let (ln, rest) = loop_run(l1, rest_calls);
    let acts = loop_run(l, calls).1;
    assert(acts == seq![a] + rest);
    assert(acts[0] == a);
    assert(!frame_lags(0, l.clock.step, l.clock.max_ticks_per_frame));
    assert(frame_ticks(0, l.clock.step, l.clock.max_ticks_per_frame) == 0);
    assert forall|i: int| 0 <= i < rest.len() implies !(#[trigger] rest[i] matches LoopAction::RunFrame(plan)
        && plan.lagged) by {
        assert(rest[i] == acts[i + 1]);
    }
    assert forall|i: int| 0 <= i < rest_calls.len() implies !(#[trigger] rest_calls[i]).1 by {
        assert(rest_calls[i] == calls[i + 1]);
    }
    law_loop_conserves_time(l1, rest_calls);
    assert(acts.drop_first() =~= rest);
    assert(ticks_run(acts) == ticks_run(rest));
    assert(call_times(calls).drop_first() =~= call_times(rest_calls));
}

} // verus!
