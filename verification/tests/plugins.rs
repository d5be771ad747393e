use ecson::heartbeat::{HeartbeatPolicy, HeartbeatState};
use ecson::lobby::LobbyPlugin;
use ecson::plugin::{
    address_has_port,
    EcsonWebSocketPlugin, EcsonWebSocketTlsDevPlugin, EcsonWebSocketTlsPlugin, EcsonWebTransportDevPlugin,
    DEFAULT_CLIENT_BUFFER, DEFAULT_ECS_BUFFER,
};
use ecson::presence::{announcement, parse_status_command, PresenceMap, PresenceStatus};
use ecson::rate_limit::{RateLimitAction, RateLimitPolicy, RateLimitState, RateVerdict};

const SEC: u128 = 1_000_000_000;

#[test]
fn websocket_plugin_builder() {
    let p = EcsonWebSocketPlugin::new("127.0.0.1:8080");
    assert_eq!(p.address, "127.0.0.1:8080");
    assert_eq!(p.ecs_buffer_size(), DEFAULT_ECS_BUFFER);
    assert_eq!(p.client_buffer_size(), DEFAULT_CLIENT_BUFFER);
    let p = p.ecs_buffer(8).client_buffer(3);
    assert_eq!((p.ecs_buffer_size(), p.client_buffer_size()), (8, 3));
    assert_eq!(p.listen_address(), "127.0.0.1:8080");
}

#[test]
#[should_panic]
fn inappropriate_address() {
    EcsonWebSocketPlugin::try_new("127.0.0.1:80800").expect("the address names no port");
}

#[test]
fn address_port_check() {
    for ok in ["127.0.0.1:8080", "localhost:0", "[::1]:65535", "0.0.0.0:+80", ":1", "h:007"] {
        assert!(address_has_port(ok), "{ok}");
        assert!(EcsonWebSocketPlugin::try_new(ok).is_some(), "{ok}");
    }
    for bad in ["127.0.0.1:80800", "127.0.0.1", "127.0.0.1:", "h:+", "h:-1", "h:8o", "h:65536", "[::1]"] {
        assert!(!address_has_port(bad), "{bad}");
        assert!(EcsonWebSocketPlugin::try_new(bad).is_none(), "{bad}");
    }
    let p = EcsonWebSocketPlugin::try_new("127.0.0.1:9000").unwrap();
    assert_eq!(p.listen_address(), "127.0.0.1:9000");
    assert_eq!(p.ecs_buffer_size(), DEFAULT_ECS_BUFFER);
}

#[test]
fn tls_plugin_builders() {
    let p = EcsonWebSocketTlsPlugin::new("0.0.0.0:443", "cert.pem", "key.pem").client_buffer(7);
    assert_eq!(p.cert_file(), "cert.pem");
    assert_eq!(p.key_file(), "key.pem");
    assert_eq!(p.client_buffer_size(), 7);
    assert_eq!(p.ecs_buffer_size(), 1024);
    let d = EcsonWebSocketTlsDevPlugin::new("127.0.0.1:8443").ecs_buffer(2);
    assert_eq!(d.ecs_buffer_size(), 2);
    assert_eq!(d.client_buffer_size(), 100);
    let w = EcsonWebTransportDevPlugin::new("127.0.0.1:4433");
    assert_eq!(w.address, "127.0.0.1:4433");
}

#[test]
fn lobby_plugin_builder() {
    assert_eq!(LobbyPlugin::new().default_max_members, 4);
    assert_eq!(LobbyPlugin::new().default_max_members(8).default_max_members, 8);
}

#[test]
fn default_state_has_zero_count() {
    let state = RateLimitState::new(0);
    assert_eq!(state.message_count, 0);
    assert!(state.throttled_until.is_none());
}

#[test]
fn throttle_window_expires() {
    let now = 10 * SEC;
    let mut state = RateLimitState { throttled_until: Some(now - SEC), ..RateLimitState::new(0) };
    let policy = RateLimitPolicy { window_nanos: SEC, max_messages: 30, action: RateLimitAction::Drop };
    assert!(state.throttled_until.unwrap() < now);
    assert_eq!(state.on_message(now, &policy), RateVerdict::Pass);
    assert!(state.throttled_until.is_none());
}

#[test]
fn rate_limit_drop_counts_past_budget() {
    let policy = RateLimitPolicy { window_nanos: SEC, max_messages: 2, action: RateLimitAction::Drop };
    let mut s = RateLimitState::new(0);
    assert_eq!(s.on_message(1, &policy), RateVerdict::Pass);
    assert_eq!(s.on_message(2, &policy), RateVerdict::Pass);
    assert_eq!(s.on_message(3, &policy), RateVerdict::Exceeded(RateLimitAction::Drop));
    assert_eq!(s.message_count, 3);
    assert!(!s.reset_window(SEC - 1, &policy));
    assert!(s.reset_window(SEC, &policy));
    assert_eq!(s.message_count, 0);
    assert_eq!(s.window_start, SEC);
    assert_eq!(s.on_message(SEC + 1, &policy), RateVerdict::Pass);
}

#[test]
fn rate_limit_throttle_drops_uncounted() {
    let action = RateLimitAction::Throttle { duration_nanos: 5 * SEC };
    let policy = RateLimitPolicy { window_nanos: SEC, max_messages: 1, action };
    let mut s = RateLimitState::new(0);
    assert_eq!(s.on_message(1, &policy), RateVerdict::Pass);
    let v = s.on_message(2, &policy);
    assert_eq!(v, RateVerdict::Exceeded(action));
    assert_eq!(v.notice(), Some("[RateLimit] Too many messages. You are temporarily throttled."));
    assert_eq!(s.throttled_until, Some(2 + 5 * SEC));
    assert_eq!(s.on_message(3, &policy), RateVerdict::Throttled);
    assert_eq!(s.message_count, 2);
    assert!(s.on_message(3, &policy).is_exceeded());
    assert_eq!(RateVerdict::Throttled.notice(), None);
}

#[test]
fn rate_limit_disconnect_notice() {
    let policy = RateLimitPolicy { window_nanos: SEC, max_messages: 0, action: RateLimitAction::Disconnect };
    let mut s = RateLimitState::new(0);
    let v = s.on_message(1, &policy);
    assert_eq!(v, RateVerdict::Exceeded(RateLimitAction::Disconnect));
    assert_eq!(v.notice(), Some("[RateLimit] Disconnected due to rate limit violation."));
}

#[test]
fn heartbeat_ping_pong_timeout() {
    let policy = HeartbeatPolicy::new(10 * SEC, 30 * SEC);
    let mut h = HeartbeatState::new(0);
    assert_eq!(policy.ping_text(), "__ping__");
    assert!(h.can_check(5 * SEC, &policy));
    assert!(!h.ping_due(5 * SEC, &policy));
    assert!(h.ping_due(10 * SEC, &policy));
    assert!(!h.ping_due(15 * SEC, &policy));
    assert!(h.ping_due(20 * SEC, &policy));
    assert_eq!(h.pending_pings(), 2);
    assert!(!h.timed_out(30 * SEC, &policy));
    assert!(h.timed_out(31 * SEC, &policy));
    assert!(!h.on_text("hello", 25 * SEC, &policy));
    assert!(!h.on_text("pong", 25 * SEC, &policy));
    assert_eq!(h.pending_pings(), 2);
    assert!(h.on_text("  __pong__\n", 25 * SEC, &policy));
    assert_eq!(h.pending_pings(), 0);
    assert!(!h.timed_out(31 * SEC, &policy));
    assert!(h.timed_out(56 * SEC, &policy));
    assert!(!h.on_text("__ping__", 60 * SEC, &policy));
}

#[test]
fn heartbeat_uses_configured_payloads() {
    let policy = HeartbeatPolicy {
        interval_nanos: SEC,
        timeout_nanos: 5 * SEC,
        ping_payload: "PING?".to_string(),
        pong_payload: "PONG!".to_string(),
    };
    assert_eq!(policy.ping_text(), "PING?");
    let mut h = HeartbeatState::new(0);
    assert!(h.ping_due(SEC, &policy));
    assert!(!h.on_text("__pong__", 2 * SEC, &policy));
    assert!(h.timed_out(6 * SEC + 1, &policy));
    assert!(h.on_text("\tPONG! ", 2 * SEC, &policy));
    assert_eq!(h.pending_pings(), 0);
    assert!(!h.timed_out(6 * SEC + 1, &policy));
}

#[test]
fn presence_commands_and_announcement() {
    assert_eq!(parse_status_command("/status away"), Some(PresenceStatus::Away));
    assert_eq!(parse_status_command("  /status busy \t"), Some(PresenceStatus::Busy));
    assert_eq!(parse_status_command("/status online"), Some(PresenceStatus::Online));
    assert_eq!(parse_status_command("/status  away"), None);
    assert_eq!(parse_status_command("/status sleeping"), None);
    assert_eq!(PresenceStatus::default(), PresenceStatus::Online);
    assert_eq!(PresenceStatus::Busy.as_str(), "busy");
    assert_eq!(announcement(42, PresenceStatus::Away), "42 away");
    assert_eq!(announcement(0, PresenceStatus::Online), "0 online");
    assert_eq!(announcement(u64::MAX, PresenceStatus::Busy), format!("{} busy", u64::MAX));
}

#[test]
fn presence_map_tracks_clients() {
    let mut m = PresenceMap::new();
    m.record(1, PresenceStatus::Online);
    m.record(2, PresenceStatus::Busy);
    m.record(1, PresenceStatus::Away);
    assert_eq!(m.status_of(1), Some(PresenceStatus::Away));
    m.forget(1);
    assert_eq!(m.status_of(1), None);
    assert_eq!(m.status_of(2), Some(PresenceStatus::Busy));
}

#[test]
fn status_commands_round_trip_with_any_padding() {
    for s in [PresenceStatus::Online, PresenceStatus::Away, PresenceStatus::Busy] {
        for (lead, trail) in [("", ""), (" \t", "\n"), ("\u{3000}", "\u{a0} "), ("\r\n", "")] {
            let text = format!("{}/status {}{}", lead, s.as_str(), trail);
            assert_eq!(parse_status_command(&text), Some(s));
        }
    }
}
