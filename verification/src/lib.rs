//! Room, lobby and connection logic of a buzzer game server: hosts open
//! rooms under a six-digit code, players join them, and the lobby decides
//! which connected client hears about which event.

pub mod db;
pub mod ids;
pub mod messages;
pub mod lobby;
pub mod server;
pub mod endpoints;
pub mod laws;
