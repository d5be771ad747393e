//! Heartbeat: periodic pings, pong tracking and timeout detection per client.
//!
//! Instants and durations are whole nanoseconds from a fixed origin.
use vstd::prelude::*;
use crate::text::{trimmed, trim_equals};
use crate::rate_limit::elapsed_nanos;

verus! {

/// Heartbeat settings.
#[derive(Debug, Clone)]
pub struct HeartbeatPolicy {
    /// Time between pings.
    pub interval_nanos: u128,
    /// Silence after the last pong beyond which a client is considered gone.
    pub timeout_nanos: u128,
    /// Text sent as a ping.
    pub ping_payload: String,
    /// Text that, trimmed, a client answers a ping with.
    pub pong_payload: String,
}

impl HeartbeatPolicy {
    /// Settings with the given timing and the default texts `__ping__` and `__pong__`.
    pub fn new(interval_nanos: u128, timeout_nanos: u128) -> (p: Self)
        ensures
            p.interval_nanos == interval_nanos,
            p.timeout_nanos == timeout_nanos,
            p.ping_payload@ == "__ping__"@,
            p.pong_payload@ == "__pong__"@,
    {
        HeartbeatPolicy {
            interval_nanos,
            timeout_nanos,
            ping_payload: String::from_str("__ping__"),
            pong_payload: String::from_str("__pong__"),
        }
    }

    /// Text of a ping.
    pub fn ping_text(&self) -> (t: &str)
        ensures
            t@ == self.ping_payload@,
    {
        self.ping_payload.as_str()
    }
}

/// Heartbeat state of one client.
#[derive(Debug, PartialEq, Eq, Clone, Copy, Structural)]
pub struct HeartbeatState {
    last_pong_at: u128,
    pending_pings: u32,
    last_ping_at: u128,
}

/// Mathematical model of a [`HeartbeatState`].
pub struct HeartbeatView {
    /// Last pong received (or connection time).
    pub last_pong_at: u128,
    /// Pings sent since the last pong.
    pub pending_pings: u32,
    /// Last ping sent (or connection time).
    pub last_ping_at: u128,
}

impl View for HeartbeatState {
    type V = HeartbeatView;

    closed spec fn view(&self) -> HeartbeatView {
        HeartbeatView {
            last_pong_at: self.last_pong_at,
            pending_pings: self.pending_pings,
            last_ping_at: self.last_ping_at,
        }
    }
}

/// Whether a ping is due at `now`.
pub open spec fn ping_is_due(s: HeartbeatView, now: u128, p: HeartbeatPolicy) -> bool {
    elapsed_nanos(s.last_ping_at, now) >= p.interval_nanos
}

/// State after a ping check at `now`.
pub open spec fn after_ping_check(s: HeartbeatView, now: u128, p: HeartbeatPolicy) -> HeartbeatView {
    if ping_is_due(s, now, p) {
        HeartbeatView { pending_pings: (s.pending_pings + 1) as u32, last_ping_at: now, ..s }
    } else {
        s
    }
}

/// Whether a text message is a pong: trimmed, it is the pong payload.
pub open spec fn is_pong(text: Seq<char>, pong: Seq<char>) -> bool {
    trimmed(text) == pong
}

/// State after a text message at `now`, given the pong payload.
pub open spec fn after_text(s: HeartbeatView, text: Seq<char>, pong: Seq<char>, now: u128) -> HeartbeatView {
    if is_pong(text, pong) {
        HeartbeatView { last_pong_at: now, pending_pings: 0, ..s }
    } else {
        s
    }
}

/// Whether the client has been silent for longer than the timeout.
pub open spec fn has_timed_out(s: HeartbeatView, now: u128, p: HeartbeatPolicy) -> bool {
    elapsed_nanos(s.last_pong_at, now) > p.timeout_nanos
}

impl HeartbeatState {
    /// State of a client that connected at `now`.
    pub fn new(now: u128) -> (s: Self)
        ensures
            s@ == (HeartbeatView { last_pong_at: now, pending_pings: 0, last_ping_at: now }),
    {
        HeartbeatState { last_pong_at: now, pending_pings: 0, last_ping_at: now }
    }

    /// Pings sent since the last pong.
    pub fn pending_pings(&self) -> (n: u32)
        ensures
            n == self@.pending_pings,
    {
        self.pending_pings
    }

    /// Whether a ping check at `now` can record a ping without overflowing the counter.
    pub fn can_check(&self, now: u128, policy: &HeartbeatPolicy) -> (b: bool)
        ensures
            b == (ping_is_due(self@, now, *policy) ==> self@.pending_pings < u32::MAX),
    {
        let elapsed = if now >= self.last_ping_at { now - self.last_ping_at } else { 0 };
        elapsed < policy.interval_nanos || self.pending_pings < u32::MAX
    }

    /// Checks at `now` whether a ping is due; if so records it as sent.
    pub fn ping_due(&mut self, now: u128, policy: &HeartbeatPolicy) -> (due: bool)
        requires
            ping_is_due(old(self)@, now, *policy) ==> old(self)@.pending_pings < u32::MAX,
        ensures
            due == ping_is_due(old(self)@, now, *policy),
            final(self)@ == after_ping_check(old(self)@, now, *policy),
    {
        let elapsed = if now >= self.last_ping_at { now - self.last_ping_at } else { 0 };
        if elapsed >= policy.interval_nanos {
            self.pending_pings = self.pending_pings + 1;
            self.last_ping_at = now;
            true
        } else {
            false
        }
    }

    /// Handles a text message received at `now`; a pong (the policy's pong
    /// payload, surrounding white space ignored) clears the pending pings.
    pub fn on_text(&mut self, text: &str, now: u128, policy: &HeartbeatPolicy) -> (pong: bool)
        ensures
            pong == is_pong(text@, policy.pong_payload@),
            final(self)@ == after_text(old(self)@, text@, policy.pong_payload@, now),
    {
        if trim_equals(text, policy.pong_payload.as_str()) {
            self.last_pong_at = now;
            self.pending_pings = 0;
            true
        } else {
            false
        }
    }

    /// Whether the client has been silent past the timeout at `now`.
    pub fn timed_out(&self, now: u128, policy: &HeartbeatPolicy) -> (t: bool)
        ensures
            t == has_timed_out(self@, now, *policy),
    {
        let elapsed = if now >= self.last_pong_at { now - self.last_pong_at } else { 0 };
        elapsed > policy.timeout_nanos
    }
}

/// Only pongs keep a client alive: sending pings and receiving other messages
/// leave its timeout unchanged, and right after a pong it is alive for the
/// whole timeout.
pub proof fn law_only_pongs_keep_alive(
    s: HeartbeatView,
    text: Seq<char>,
    t0: u128,
    t1: u128,
    p: HeartbeatPolicy,
)
    ensures
        has_timed_out(after_ping_check(s, t0, p), t1, p) == has_timed_out(s, t1, p),
        !is_pong(text, p.pong_payload@) ==> has_timed_out(after_text(s, text, p.pong_payload@, t0), t1, p)
            == has_timed_out(s, t1, p),
        is_pong(text, p.pong_payload@) ==> (has_timed_out(after_text(s, text, p.pong_payload@, t0), t1, p)
            <==> elapsed_nanos(t0, t1) > p.timeout_nanos),
        is_pong(text, p.pong_payload@) ==> after_text(s, text, p.pong_payload@, t0).pending_pings == 0,
{
}

} // verus!
