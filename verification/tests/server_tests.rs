use jeopardy::lobby::{Connect, Disconnect, LobbyMessage};
use jeopardy::messages::{Nanos, ServerMessage};
use jeopardy::server::{
    CloseInfo, Frame, HeartbeatStep, WebsocketConnection, WsAction, CLIENT_TIMEOUT_NANOS,
    HEARTBEAT_INTERVAL_NANOS,
};

fn conn() -> WebsocketConnection {
    WebsocketConnection::player(123456, "Dana".to_string(), 7, 1_000)
}

#[test]
fn timing_constants() {
    assert_eq!(HEARTBEAT_INTERVAL_NANOS, 5_000_000_000);
    assert_eq!(CLIENT_TIMEOUT_NANOS, 10_000_000_000);
}

#[test]
fn connection_names_itself_to_the_lobby() {
    let c = WebsocketConnection::host(42, "Eve".to_string(), 9, 0);
    assert_eq!(
        c.connect_message(),
        Connect { room_code: 42, client_id: 9, client_name: "Eve".to_string(), is_host: true }
    );
    assert_eq!(c.disconnect_message(), Disconnect { room_code: 42, client_id: 9 });
    assert!(!conn().connect_message().is_host);
}

#[test]
fn silent_client_is_dropped_after_the_timeout() {
    let c = conn();
    assert_eq!(c.heartbeat(1_000), HeartbeatStep::Ping);
    assert_eq!(c.heartbeat(1_000 + CLIENT_TIMEOUT_NANOS), HeartbeatStep::Ping);
    assert_eq!(c.heartbeat(1_001 + CLIENT_TIMEOUT_NANOS), HeartbeatStep::Stop);
    assert_eq!(c.heartbeat(0), HeartbeatStep::Ping);
}

#[test]
fn ping_and_pong_keep_the_client_alive() {
    let mut c = conn();
    let late = 50_000_000_000;
    assert_eq!(c.heartbeat(late), HeartbeatStep::Stop);
    assert_eq!(c.handle_frame(Frame::Ping(vec![1, 2]), late), vec![WsAction::Pong(vec![1, 2])]);
    assert_eq!(c.heartbeat(late + 1), HeartbeatStep::Ping);
    let later = 3 * late;
    assert!(c.handle_frame(Frame::Pong(vec![]), later).is_empty());
    assert_eq!(c.heartbeat(later + CLIENT_TIMEOUT_NANOS), HeartbeatStep::Ping);
}

#[test]
fn text_messages_are_forwarded_with_the_sender() {
    let mut c = conn();
    let msg = ServerMessage::BuzzCompleted { at: Nanos(9), response: 2 };
    assert_eq!(
        c.handle_frame(Frame::Text(Some(msg)), 5),
        vec![WsAction::Forward(LobbyMessage { client_id: 7, msg, room_code: 123456 })]
    );
    assert!(c.handle_frame(Frame::Text(None), 5).is_empty());
    assert_eq!(c.heartbeat(1_000 + CLIENT_TIMEOUT_NANOS + 1), HeartbeatStep::Stop);
}

#[test]
fn other_frames() {
    let mut c = conn();
    assert_eq!(c.handle_frame(Frame::Binary(vec![9]), 0), vec![WsAction::Binary(vec![9])]);
    let reason = CloseInfo { code: 1000, description: Some("bye".to_string()) };
    assert_eq!(
        c.handle_frame(Frame::Close(Some(reason)), 0),
        vec![
            WsAction::Close(Some(CloseInfo { code: 1000, description: Some("bye".to_string()) })),
            WsAction::Stop
        ]
    );
    assert_eq!(c.handle_frame(Frame::Close(None), 0), vec![WsAction::Close(None), WsAction::Stop]);
    assert_eq!(c.handle_frame(Frame::Continuation, 0), vec![WsAction::Stop]);
    assert_eq!(c.handle_frame(Frame::ProtocolError, 0), vec![WsAction::Stop]);
    assert!(c.handle_frame(Frame::Nop, 0).is_empty());
}

#[test]
fn silent_client_is_dropped_at_the_first_tick_past_the_timeout() {
    let mut c = WebsocketConnection::host(1, "h".to_string(), 1, 0);
    // text and binary frames do not count as signs of life
    c.handle_frame(Frame::Binary(vec![1]), 3_000_000_000);
    c.handle_frame(Frame::Text(Some(ServerMessage::LockBuzzers)), 7_000_000_000);
    let ticks: Vec<HeartbeatStep> = (1..=4).map(|k| c.heartbeat(k * HEARTBEAT_INTERVAL_NANOS)).collect();
    assert_eq!(
        ticks,
        vec![HeartbeatStep::Ping, HeartbeatStep::Ping, HeartbeatStep::Stop, HeartbeatStep::Stop]
    );
}
