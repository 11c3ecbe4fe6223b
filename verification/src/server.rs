//! One client's websocket connection: what it tells the lobby, how it answers
//! the frames its client sends, and when it gives up on a silent client.
//!
//! Time is given as nanoseconds on the server's monotonic clock.
use vstd::prelude::*;
use crate::ids::ClientId;
use crate::lobby::{Connect, Disconnect, LobbyMessage};
use crate::messages::ServerMessage;

verus! {

/// How often heartbeat pings are sent, in nanoseconds.
pub const HEARTBEAT_INTERVAL_NANOS: u64 = 5_000_000_000u64;

/// How long a client may stay silent before the connection is dropped, in nanoseconds.
pub const CLIENT_TIMEOUT_NANOS: u64 = 10_000_000_000u64;

/// A client's connection to the server.
pub struct WebsocketConnection {
    /// When the client last showed it is alive. The connection is dropped
    /// once it has been silent for longer than [`CLIENT_TIMEOUT_NANOS`].
    last_hb: u64,
    is_host: bool,
    room_code: u32,
    client_id: ClientId,
    client_name: String,
}

/// The model of a connection.
pub struct ConnectionView {
    pub last_hb: u64,
    pub is_host: bool,
    pub room_code: u32,
    pub client_id: ClientId,
    pub client_name: Seq<char>,
}

impl View for WebsocketConnection {
    type V = ConnectionView;

    closed spec fn view(&self) -> ConnectionView {
        ConnectionView {
            last_hb: self.last_hb,
            is_host: self.is_host,
            room_code: self.room_code,
            client_id: self.client_id,
            client_name: self.client_name@,
        }
    }
}

/// The status part of a websocket close frame.
#[derive(Debug, PartialEq, Eq)]
pub struct CloseInfo {
    pub code: u16,
    pub description: Option<String>,
}

/// A frame received from the client.
pub enum Frame {
    Ping(Vec<u8>),
    Pong(Vec<u8>),
    /// A text frame, with the message it holds, or `None` if it holds none.
    Text(Option<ServerMessage>),
    Binary(Vec<u8>),
    Close(Option<CloseInfo>),
    Continuation,
    Nop,
    /// The websocket protocol failed.
    ProtocolError,
}

/// What the connection does in answer to a frame.
#[derive(Debug, PartialEq, Eq)]
pub enum WsAction {
    /// Answers a ping with a pong carrying the same bytes.
    Pong(Vec<u8>),
    /// Hands a client's message on to the lobby.
    Forward(LobbyMessage),
    /// Sends binary data back to the client.
    Binary(Vec<u8>),
    /// Closes the websocket with this status.
    Close(Option<CloseInfo>),
    /// Stops the connection.
    Stop,
}

/// What the periodic heartbeat check does.
#[derive(Clone, Copy, Debug, PartialEq, Eq, Structural)]
pub enum HeartbeatStep {
    /// The client has been silent too long: stop the connection.
    Stop,
    /// Ping the client.
    Ping,
}

/// Nanoseconds from `earlier` to `now`, zero if `now` is earlier.
pub open spec fn elapsed(earlier: u64, now: u64) -> int {
    if now >= earlier {
        now - earlier
    } else {
        0
    }
}

/// The heartbeat step at time `now` for a client last heard from at `last_hb`.
pub open spec fn heartbeat_spec(last_hb: u64, now: u64) -> HeartbeatStep {
    if elapsed(last_hb, now) > CLIENT_TIMEOUT_NANOS {
        HeartbeatStep::Stop
    } else {
        HeartbeatStep::Ping
    }
}

/// The connection after receiving `frame` at time `now`: pings and pongs show
/// that the client is alive.
pub open spec fn after_frame(c: ConnectionView, frame: Frame, now: u64) -> ConnectionView {
    match frame {
        Frame::Ping(_) | Frame::Pong(_) => ConnectionView { last_hb: now, ..c },
        _ => c,
    }
}

/// What the connection does on receiving `frame`.
pub open spec fn frame_actions(c: ConnectionView, frame: Frame) -> Seq<WsAction> {
    match frame {
        Frame::Ping(bytes) => seq![WsAction::Pong(bytes)],
        Frame::Pong(_) => Seq::empty(),
        Frame::Text(Some(msg)) => seq![
            WsAction::Forward(LobbyMessage { client_id: c.client_id, msg, room_code: c.room_code }),
        ],
        Frame::Text(None) => Seq::empty(),
        Frame::Binary(bytes) => seq![WsAction::Binary(bytes)],
        Frame::Close(reason) => seq![WsAction::Close(reason), WsAction::Stop],
        Frame::Continuation => seq![WsAction::Stop],
        Frame::Nop => Seq::empty(),
        Frame::ProtocolError => seq![WsAction::Stop],
    }
}

impl WebsocketConnection {
    /// The connection of a host, opened at time `now`.
    pub fn host(room_code: u32, client_name: String, client_id: ClientId, now: u64) -> (c: Self)
        ensures
            c@ == (ConnectionView { last_hb: now, is_host: true, room_code, client_id, client_name: client_name@ }),
    {
        WebsocketConnection { last_hb: now, is_host: true, room_code, client_id, client_name }
    }

    /// The connection of a player, opened at time `now`.
    pub fn player(room_code: u32, client_name: String, client_id: ClientId, now: u64) -> (c: Self)
        ensures
            c@ == (ConnectionView { last_hb: now, is_host: false, room_code, client_id, client_name: client_name@ }),
    {
        WebsocketConnection { last_hb: now, is_host: false, room_code, client_id, client_name }
    }

    /// The periodic check at time `now`: drop a client that has been silent
    /// too long, ping it otherwise.
    pub fn heartbeat(&self, now: u64) -> (step: HeartbeatStep)
        ensures
            step == heartbeat_spec(self@.last_hb, now),
    {
        let silent = if now >= self.last_hb {
            now - self.last_hb
        } else {
            0
        };
        if silent > CLIENT_TIMEOUT_NANOS {
            HeartbeatStep::Stop
        } else {
            HeartbeatStep::Ping
        }
    }

    /// The message that registers this connection with the lobby when it starts.
    pub fn connect_message(&self) -> (msg: Connect)
        ensures
            msg.room_code == self@.room_code,
            msg.client_id == self@.client_id,
            msg.is_host == self@.is_host,
            msg.client_name@ == self@.client_name,
    {
        Connect {
            room_code: self.room_code,
            client_id: self.client_id,
            is_host: self.is_host,
            client_name: self.client_name.clone(),
        }
    }

    /// The message that tells the lobby this connection is stopping.
    pub fn disconnect_message(&self) -> (msg: Disconnect)
        ensures
            msg == (Disconnect { client_id: self@.client_id, room_code: self@.room_code }),
    {
        Disconnect { client_id: self.client_id, room_code: self.room_code }
    }

    /// Handles a frame that the client sent, received at time `now`.
    pub fn handle_frame(&mut self, frame: Frame, now: u64) -> (actions: Vec<WsAction>)
        ensures
            final(self)@ == after_frame(old(self)@, frame, now),
            actions@ == frame_actions(old(self)@, frame),
    {
        match frame {
            Frame::Ping(bytes) => {
                self.last_hb = now;
                vec![WsAction::Pong(bytes)]
            },
            Frame::Pong(_) => {
                self.last_hb = now;
                Vec::new()
            },
            Frame::Text(Some(msg)) => vec![
                WsAction::Forward(LobbyMessage { client_id: self.client_id, msg, room_code: self.room_code }),
            ],
            Frame::Text(None) => Vec::new(),
            Frame::Binary(bytes) => vec![WsAction::Binary(bytes)],
            Frame::Close(reason) => vec![WsAction::Close(reason), WsAction::Stop],
            Frame::Continuation => vec![WsAction::Stop],
            Frame::Nop => Vec::new(),
            Frame::ProtocolError => vec![WsAction::Stop],
        }
    }
}

} // verus!
