//! Per-client message rate limiting.
//!
//! Instants and durations are whole nanoseconds from a fixed origin.
use vstd::prelude::*;

verus! {

/// What happens to a client that exceeds its message budget.
#[derive(Debug, PartialEq, Eq, Clone, Copy, Structural)]
pub enum RateLimitAction {
    /// Report it; the message is still seen by other systems.
    Drop,
    /// Ignore the client's messages for this long and warn it.
    Throttle { duration_nanos: u128 },
    /// Warn the client and disconnect it.
    Disconnect,
}

/// Rate limit settings.
#[derive(Debug, PartialEq, Eq, Clone, Copy, Structural)]
pub struct RateLimitPolicy {
    /// Length of a counting window.
    pub window_nanos: u128,
    /// Messages allowed per window.
    pub max_messages: u32,
    /// Action applied when the budget is exceeded.
    pub action: RateLimitAction,
}

/// Rate tracking state of one client.
#[derive(Debug, PartialEq, Eq, Clone, Copy, Structural)]
pub struct RateLimitState {
    /// Messages counted in the current window.
    pub message_count: u32,
    /// Start of the current window.
    pub window_start: u128,
    /// While throttled, the instant the throttle ends.
    pub throttled_until: Option<u128>,
}

/// The verdict on one incoming message.
#[derive(Debug, PartialEq, Eq, Clone, Copy, Structural)]
pub enum RateVerdict {
    /// Within budget.
    Pass,
    /// The client is throttled: the message is dropped uncounted and reported.
    Throttled,
    /// The message exceeds the budget: it is reported and the action applies.
    Exceeded(RateLimitAction),
}

/// Whether the client is throttled at `now`.
pub open spec fn is_throttled(s: RateLimitState, now: u128) -> bool {
    s.throttled_until matches Some(until) && now < until
}

/// Effect of one incoming message at `now` on the client's state, and the verdict.
pub open spec fn rate_step(s: RateLimitState, now: u128, p: RateLimitPolicy) -> (RateLimitState, RateVerdict) {
    if is_throttled(s, now) {
        (s, RateVerdict::Throttled)
    } else {
        let count = (s.message_count + 1) as u32;
        let counted = RateLimitState { message_count: count, throttled_until: None, ..s };
        if count <= p.max_messages {
            (counted, RateVerdict::Pass)
        } else {
            match p.action {
                RateLimitAction::Throttle { duration_nanos } => (
                    RateLimitState { throttled_until: Some((now + duration_nanos) as u128), ..counted },
                    RateVerdict::Exceeded(p.action),
                ),
                _ => (counted, RateVerdict::Exceeded(p.action)),
            }
        }
    }
}

/// Whether a message at `now` can be judged without overflowing a counter or a clock.
pub open spec fn rate_step_in_range(s: RateLimitState, now: u128, p: RateLimitPolicy) -> bool {
    !is_throttled(s, now) ==> {
        &&& s.message_count < u32::MAX
        &&& (p.action matches RateLimitAction::Throttle { duration_nanos } ==> now + duration_nanos <= u128::MAX)
    }
}

/// Elapsed time from `earlier` to `later`, zero if `later` is before `earlier`.
pub open spec fn elapsed_nanos(earlier: u128, later: u128) -> u128 {
    if later >= earlier {
        (later - earlier) as u128
    } else {
        0
    }
}

impl RateLimitState {
    /// Fresh state of a client that connected at `now`.
    pub fn new(now: u128) -> (s: Self)
        ensures
            s == (RateLimitState { message_count: 0, window_start: now, throttled_until: None }),
    {
        RateLimitState { message_count: 0, window_start: now, throttled_until: None }
    }

    /// Judges one incoming message at `now`: throttled clients are dropped
    /// uncounted; otherwise the message is counted (an expired throttle is
    /// lifted first) and, past the budget, the policy's action applies.
    pub fn on_message(&mut self, now: u128, policy: &RateLimitPolicy) -> (v: RateVerdict)
        requires
            rate_step_in_range(*old(self), now, *policy),
        ensures
            (*final(self), v) == rate_step(*old(self), now, *policy),
    {
        if let Some(until) = self.throttled_until {
            if now < until {
                return RateVerdict::Throttled;
            }
            self.throttled_until = None;
        }
        self.message_count = self.message_count + 1;
        if self.message_count <= policy.max_messages {
            return RateVerdict::Pass;
        }
        match policy.action {
            RateLimitAction::Drop => {},
            RateLimitAction::Throttle { duration_nanos } => {
                self.throttled_until = Some(now + duration_nanos);
            },
            RateLimitAction::Disconnect => {},
        }
        RateVerdict::Exceeded(policy.action)
    }

    /// Whether a message at `now` can be judged without a counter or clock overflow.
    pub fn can_judge(&self, now: u128, policy: &RateLimitPolicy) -> (b: bool)
        ensures
            b == rate_step_in_range(*self, now, *policy),
    {
        if let Some(until) = self.throttled_until {
            if now < until {
                return true;
            }
        }
        self.message_count < u32::MAX && match policy.action {
            RateLimitAction::Throttle { duration_nanos } => now <= u128::MAX - duration_nanos,
            _ => true,
        }
    }

    /// Starts a new window when the current one has lasted `window_nanos`.
    pub fn reset_window(&mut self, now: u128, policy: &RateLimitPolicy) -> (reset: bool)
        ensures
            reset == (elapsed_nanos(old(self).window_start, now) >= policy.window_nanos),
            reset ==> *final(self) == (RateLimitState { message_count: 0, window_start: now, ..*old(self) }),
            !reset ==> *final(self) == *old(self),
    {
        let elapsed = if now >= self.window_start { now - self.window_start } else { 0 };
        if elapsed >= policy.window_nanos {
            self.message_count = 0;
            self.window_start = now;
            true
        } else {
            false
        }
    }
}

impl RateVerdict {
    /// Whether the message is reported as exceeding the limit.
    pub fn is_exceeded(&self) -> (b: bool)
        ensures
            b == !(*self is Pass),
    {
        !matches!(self, RateVerdict::Pass)
    }

    /// Text sent to the client, if any.
    pub fn notice(&self) -> (t: Option<&'static str>)
        ensures
            *self matches RateVerdict::Exceeded(RateLimitAction::Throttle { .. }) ==> t matches Some(m)
                && m@ == "[RateLimit] Too many messages. You are temporarily throttled."@,
            *self matches RateVerdict::Exceeded(RateLimitAction::Disconnect) ==> t matches Some(m)
                && m@ == "[RateLimit] Disconnected due to rate limit violation."@,
            !(*self matches RateVerdict::Exceeded(RateLimitAction::Throttle { .. }))
                && !(*self matches RateVerdict::Exceeded(RateLimitAction::Disconnect)) ==> t is None,
    {
        match self {
            RateVerdict::Exceeded(RateLimitAction::Throttle { .. }) => Some(
                "[RateLimit] Too many messages. You are temporarily throttled.",
            ),
            RateVerdict::Exceeded(RateLimitAction::Disconnect) => Some(
                "[RateLimit] Disconnected due to rate limit violation.",
            ),
            _ => None,
        }
    }
}

/// The states and verdicts produced by a run of messages at instants `nows`.
pub open spec fn rate_run(s: RateLimitState, nows: Seq<u128>, p: RateLimitPolicy) -> (RateLimitState, Seq<RateVerdict>)
    decreases nows.len(),
{
    if nows.len() == 0 {
        (s, Seq::empty())
    } else {
        let (s1, v) = rate_step(s, nows[0], p);
        let (sn, vs) = rate_run(s1, nows.drop_first(), p);
        (sn, seq![v] + vs)
    }
}

/// How many verdicts in `vs` are `Pass`.
pub open spec fn count_passes(vs: Seq<RateVerdict>) -> nat
    decreases vs.len(),
{
    if vs.len() == 0 {
        0
    } else {
        (if vs[0] is Pass { 1nat } else { 0nat }) + count_passes(vs.drop_first())
    }
}

/// Within one window, a client gets at most `max_messages` messages through:
/// over any run of messages without a window reset, the passes plus the count
/// already used never exceed the budget, and no message passes once it is spent.
pub proof fn law_window_budget(s: RateLimitState, nows: Seq<u128>, p: RateLimitPolicy)
    requires
        s.message_count + nows.len() < u32::MAX,
    ensures
        count_passes(rate_run(s, nows, p).1) + (if s.message_count <= p.max_messages { s.message_count as nat } else { p.max_messages as nat })
            <= p.max_messages,
    decreases nows.len(),
{
    if nows.len() > 0 {
        let (s1, v) = rate_step(s, nows[0], p);
        law_window_budget(s1, nows.drop_first(), p);
        let vs = rate_run(s1, nows.drop_first(), p).1;
        assert((seq![v] + vs).drop_first() =~= vs);
        assert((seq![v] + vs)[0] == v);
        assert(rate_run(s, nows, p).1 == seq![v] + vs);
    }
}

/// A throttled client is neither counted nor changed: its message is only reported.
pub proof fn law_throttle_drops_uncounted(s: RateLimitState, now: u128, p: RateLimitPolicy)
    requires
        is_throttled(s, now),
    ensures
        rate_step(s, now, p) == (s, RateVerdict::Throttled),
{
}

/// A throttle holds until the instant it was set to end, whatever the client's
/// count: before that instant every message is dropped uncounted and leaves the
/// state as it was.
pub proof fn law_throttle_holds_until_its_end(s: RateLimitState, now: u128, p: RateLimitPolicy)
    requires
        s.throttled_until matches Some(until) && now < until,
    ensures
        rate_step(s, now, p) == (s, RateVerdict::Throttled),
{
}

/// A throttle lasts its full duration, across window resets: once a message at
/// `t` exceeds the budget under a `Throttle { duration_nanos: d }` policy, any
/// message before `t + d` is throttled, even after the window was restarted
/// (which clears the count and moves the window start only).
pub proof fn law_throttle_lasts_its_duration(
    s: RateLimitState,
    t: u128,
    p: RateLimitPolicy,
    window_start: u128,
    later: u128,
)
    requires
        rate_step_in_range(s, t, p),
        rate_step(s, t, p).1 == RateVerdict::Exceeded(p.action),
        p.action matches RateLimitAction::Throttle { duration_nanos } && t <= later < t + duration_nanos,
    ensures
        rate_step(rate_step(s, t, p).0, later, p).1 == RateVerdict::Throttled,
        rate_step(RateLimitState { message_count: 0, window_start, ..rate_step(s, t, p).0 }, later, p).1
            == RateVerdict::Throttled,
{
}

} // verus!
