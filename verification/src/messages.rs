//! The messages exchanged with the browser clients over their websockets.
use vstd::prelude::*;
use crate::ids::ClientId;

verus! {

/// A point in time, in nanoseconds, as the clients count it.
#[derive(Clone, Copy, Debug, PartialEq, Eq, Structural)]
pub struct Nanos(pub u128);

/// What the lobby sends to a client.
#[derive(Debug, PartialEq, Eq)]
pub enum ClientMessage {
    /// Locks the buzzer of the client.
    LockBuzzer,
    /// Sent to a client when it is kicked from the lobby.
    Kicked,
    /// Starts the buzzer timer; `round` is the room's round it belongs to.
    StartTimer { start: Nanos, round: u32 },
    PauseTimer { at: Nanos },
    /// Sent to the host once a buzz has been checked against the room's round.
    BuzzCompleted { at: Nanos },
    AddUser { client_name: String, client_id: ClientId },
    RemoveUser { client_id: ClientId },
    /// The room code that a player asked for has no room.
    CodeNotFound,
    NewCode { code: u32 },
}

impl ClientMessage {
    /// An equal copy of this message.
    pub fn duplicate(&self) -> (copy: ClientMessage)
        ensures
            copy == *self,
    {
        match self {
            ClientMessage::LockBuzzer => ClientMessage::LockBuzzer,
            ClientMessage::Kicked => ClientMessage::Kicked,
            ClientMessage::StartTimer { start, round } => ClientMessage::StartTimer {
                start: *start,
                round: *round,
            },
            ClientMessage::PauseTimer { at } => ClientMessage::PauseTimer { at: *at },
            ClientMessage::BuzzCompleted { at } => ClientMessage::BuzzCompleted { at: *at },
            ClientMessage::AddUser { client_name, client_id } => ClientMessage::AddUser {
                client_name: client_name.clone(),
                client_id: *client_id,
            },
            ClientMessage::RemoveUser { client_id } => ClientMessage::RemoveUser {
                client_id: *client_id,
            },
            ClientMessage::CodeNotFound => ClientMessage::CodeNotFound,
            ClientMessage::NewCode { code } => ClientMessage::NewCode { code: *code },
        }
    }
}

/// What a client asks of the lobby.
#[derive(Clone, Copy, Debug, PartialEq, Eq, Structural)]
pub enum ServerMessage {
    /// Locks all the buzzers.
    LockBuzzers,
    /// Kicks the client `uuid`.
    Kick { uuid: ClientId },
    /// Starts the buzzer timer of the room's players and opens a new round.
    StartTimer { start: Nanos },
    PauseTimer { at: Nanos },
    /// A player buzzed at `at`, answering the round `response`.
    BuzzCompleted { at: Nanos, response: u32 },
}

} // verus!
