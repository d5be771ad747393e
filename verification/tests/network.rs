use ecson::connection::{ConnectionMap, Route};
use ecson::payload::{
    deliver, send_failure, ws_read_step, ClientChannel, NetworkEvent, NetworkPayload, SendFailReason, WsFrame, WsReadAction,
    WsReadEvent,
};
use ecson::peers::{PeerAddr, PeerTable};

#[test]
fn text_payload_goes_out_as_utf8() {
    let bytes = NetworkPayload::Text("héllo".to_string()).into_bytes();
    assert_eq!(bytes, "héllo".as_bytes().to_vec());
    let bytes = NetworkPayload::Binary(vec![1, 2, 3]).into_bytes();
    assert_eq!(bytes, vec![1, 2, 3]);
}

#[test]
fn datagram_classification() {
    match NetworkPayload::from_datagram("hi there".as_bytes().to_vec()) {
        NetworkPayload::Text(t) => assert_eq!(t, "hi there"),
        other => panic!("expected text, got {other:?}"),
    }
    match NetworkPayload::from_datagram(vec![0xff, 0x00, 0x80]) {
        NetworkPayload::Binary(b) => assert_eq!(b, vec![0xff, 0x00, 0x80]),
        other => panic!("expected binary, got {other:?}"),
    }
}

#[test]
fn text_survives_datagram_roundtrip() {
    let p = NetworkPayload::Text("/move 1 2".to_string());
    match NetworkPayload::from_datagram(p.into_bytes()) {
        NetworkPayload::Text(t) => assert_eq!(t, "/move 1 2"),
        other => panic!("expected text, got {other:?}"),
    }
}

#[test]
fn send_failure_maps_outcomes() {
    assert!(send_failure(Ok(())).is_none());
    match send_failure(Err(("channel closed".to_string(), NetworkPayload::Binary(vec![1, 2])))) {
        Some((SendFailReason::ChannelError(m), NetworkPayload::Binary(b))) => {
            assert_eq!(m, "channel closed");
            assert_eq!(b, vec![1, 2]);
        }
        other => panic!("unexpected {other:?}"),
    }
}

#[test]
fn deliver_reaches_channel_and_reports_full_channel() {
    let (tx, mut rx) = tokio::sync::mpsc::channel::<NetworkPayload>(1);
    let mut channel = ClientChannel::new(tx);
    assert!(deliver(&mut channel, NetworkPayload::Text("a".into())).is_none());
    match deliver(&mut channel, NetworkPayload::Text("b".into())) {
        Some((SendFailReason::ChannelError(m), NetworkPayload::Text(t))) => {
            assert_eq!(m, "no available capacity");
            assert_eq!(t, "b");
        }
        other => panic!("unexpected {other:?}"),
    }
    match rx.try_recv() {
        Ok(NetworkPayload::Text(t)) => assert_eq!(t, "a"),
        _ => panic!("first payload missing"),
    }
    assert!(deliver(&mut channel, NetworkPayload::Binary(vec![7])).is_none());
    match rx.try_recv() {
        Ok(NetworkPayload::Binary(b)) => assert_eq!(b, vec![7]),
        _ => panic!("second payload missing"),
    }
    drop(rx);
    match deliver(&mut channel, NetworkPayload::Binary(vec![9])) {
        Some((SendFailReason::ChannelError(m), NetworkPayload::Binary(b))) => {
            assert_eq!(m, "channel closed");
            assert_eq!(b, vec![9]);
        }
        other => panic!("unexpected {other:?}"),
    }
}

#[test]
fn connection_routing_lifecycle() {
    let (tx, _rx) = tokio::sync::mpsc::channel::<NetworkPayload>(1);
    let mut map = ConnectionMap::new();
    let connected = NetworkEvent::Connected { id: 7, sender: tx.clone() };
    assert_eq!(map.route(&connected), Route::Spawn { client_id: 7 });
    map.register(7, 1001);
    assert!(map.contains(7));
    assert_eq!(map.entity_of(7), Some(1001));
    let msg = NetworkEvent::Message { id: 7, payload: NetworkPayload::Text("hi".into()) };
    assert_eq!(map.route(&msg), Route::Deliver { entity: 1001, client_id: 7 });
    assert_eq!(map.route(&connected), Route::Collision { client_id: 7 });
    assert_eq!(map.route(&NetworkEvent::Disconnected { id: 7 }), Route::Disconnect { entity: 1001, client_id: 7 });
    assert!(!map.contains(7));
    assert_eq!(map.route(&msg), Route::Ignore { client_id: 7 });
    assert_eq!(map.route(&NetworkEvent::Disconnected { id: 7 }), Route::Ignore { client_id: 7 });
}

#[test]
fn routing_keeps_other_connections() {
    let mut map = ConnectionMap::new();
    map.register(1, 10);
    map.register(2, 20);
    assert_eq!(map.route(&NetworkEvent::Disconnected { id: 1 }), Route::Disconnect { entity: 10, client_id: 1 });
    assert_eq!(map.entity_of(2), Some(20));
}

#[test]
fn peers_keep_their_virtual_connection() {
    let v4 = |port: u16| PeerAddr { v6: false, ip: 0x7f00_0001, port, flowinfo: 0, scope_id: 0 };
    let mut table = PeerTable::new();
    assert_eq!(table.conn_id(&v4(9000)), None);
    let (tx, _rx) = tokio::sync::mpsc::channel::<NetworkPayload>(4);
    table.open(&v4(9000), 7, tx);
    assert_eq!(table.conn_id(&v4(9000)), Some(7));
    assert_eq!(table.conn_id(&v4(9001)), None);
    let v6_same_bits = PeerAddr { v6: true, ..v4(9000) };
    assert_eq!(table.conn_id(&v6_same_bits), None);
    let scoped = PeerAddr { scope_id: 3, ..v6_same_bits };
    let (tx2, _rx2) = tokio::sync::mpsc::channel::<NetworkPayload>(4);
    table.open(&scoped, 11, tx2);
    assert_eq!(table.conn_id(&scoped), Some(11));
    assert_eq!(table.conn_id(&v6_same_bits), None);
    assert_eq!(table.conn_id(&v4(9000)), Some(7));
}

#[test]
fn websocket_read_steps() {
    match ws_read_step(WsReadEvent::Frame(WsFrame::Text("hi".into()))) {
        WsReadAction::Forward(NetworkPayload::Text(t)) => assert_eq!(t, "hi"),
        _ => panic!("text is forwarded"),
    }
    match ws_read_step(WsReadEvent::Frame(WsFrame::Binary(vec![1, 2]))) {
        WsReadAction::Forward(NetworkPayload::Binary(b)) => assert_eq!(b, vec![1, 2]),
        _ => panic!("binary is forwarded"),
    }
    assert!(matches!(ws_read_step(WsReadEvent::Frame(WsFrame::Close)), WsReadAction::Close));
    assert!(matches!(ws_read_step(WsReadEvent::Frame(WsFrame::Control)), WsReadAction::ReadFrame));
    assert!(matches!(ws_read_step(WsReadEvent::StreamEnded), WsReadAction::Close));
    assert!(matches!(ws_read_step(WsReadEvent::Forwarded), WsReadAction::ReadFrame));
    assert!(matches!(ws_read_step(WsReadEvent::ForwardFailed), WsReadAction::Close));
}
