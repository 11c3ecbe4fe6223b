use jeopardy::lobby::{Connect, Disconnect, Lobby, LobbyMessage, Outgoing};
use jeopardy::messages::{ClientMessage, Nanos, ServerMessage};

const ROOM: u32 = 123456;

fn connect(lobby: &mut Lobby, id: u128, name: &str, is_host: bool) -> (u128, Vec<Outgoing>) {
    lobby.handle_connect(Connect {
        room_code: ROOM,
        client_id: id,
        client_name: name.to_string(),
        is_host,
    })
}

fn message(lobby: &mut Lobby, from: u128, msg: ServerMessage) -> Vec<Outgoing> {
    lobby.handle_message(LobbyMessage { client_id: from, msg, room_code: ROOM })
}

fn recipients(outs: &[Outgoing]) -> Vec<u128> {
    let mut to: Vec<u128> = outs
        .iter()
        .map(|o| match o {
            Outgoing::Deliver { to, .. } | Outgoing::Undeliverable { to, .. } => *to,
            Outgoing::Reply { .. } => panic!("unexpected reply"),
        })
        .collect();
    to.sort();
    to
}

/// A room with host 1 and players 2 and 3.
fn game() -> Lobby {
    let mut lobby = Lobby::new();
    assert_eq!(connect(&mut lobby, 1, "host", true), (1, vec![]));
    connect(&mut lobby, 2, "p2", false);
    connect(&mut lobby, 3, "p3", false);
    lobby
}

#[test]
fn host_opens_a_room_at_round_zero() {
    let mut lobby = Lobby::new();
    assert_eq!(lobby.round_of(ROOM), None);
    let (id, outs) = connect(&mut lobby, 1, "host", true);
    assert_eq!(id, 1);
    assert!(outs.is_empty());
    assert_eq!(lobby.round_of(ROOM), Some(0));
}

#[test]
fn player_arrival_is_announced_to_the_others() {
    let mut lobby = game();
    let (id, outs) = connect(&mut lobby, 4, "p4", false);
    assert_eq!(id, 4);
    assert_eq!(recipients(&outs), vec![1, 2, 3]);
    for o in &outs {
        match o {
            Outgoing::Deliver { message, .. } => assert_eq!(
                *message,
                ClientMessage::AddUser { client_name: "p4".to_string(), client_id: 4 }
            ),
            other => panic!("unexpected {:?}", other),
        }
    }
}

#[test]
fn player_asking_for_a_missing_room_gets_code_not_found() {
    let mut lobby = Lobby::new();
    let (id, outs) = connect(&mut lobby, 5, "lost", false);
    assert_eq!(id, 5);
    assert_eq!(outs, vec![Outgoing::Reply { message: ClientMessage::CodeNotFound }]);
    assert_eq!(lobby.round_of(ROOM), None);
}

#[test]
fn player_does_not_join_a_room_without_host() {
    let mut lobby = game();
    message(&mut lobby, 0, ServerMessage::LockBuzzers);
    lobby.handle_disconnect(Disconnect { room_code: ROOM, client_id: 1 });
    // the room is empty now; a new player is told nothing and does not join
    let (_, outs) = connect(&mut lobby, 6, "late", false);
    assert!(outs.is_empty());
    let outs = message(&mut lobby, 6, ServerMessage::LockBuzzers);
    assert!(outs.is_empty());
}

#[test]
fn taken_id_is_kicked_and_replaced() {
    let mut lobby = game();
    let (id, outs) = connect(&mut lobby, 2, "twin", false);
    assert_ne!(id, 2);
    assert_eq!((id >> 76) & 0xf, 4);
    assert_eq!(outs[0], Outgoing::Reply { message: ClientMessage::Kicked });
    assert_eq!(recipients(&outs[1..]), vec![1, 2, 3]);
}

#[test]
fn second_host_is_kicked_but_still_joins() {
    let mut lobby = game();
    let (id, outs) = connect(&mut lobby, 9, "host2", true);
    assert_eq!(id, 9);
    assert_eq!(outs, vec![Outgoing::Reply { message: ClientMessage::Kicked }]);
    let buzz = message(&mut lobby, 2, ServerMessage::BuzzCompleted { at: Nanos(5), response: 0 });
    assert_eq!(recipients(&buzz), vec![1, 9]);
}

#[test]
fn lock_and_timers_go_to_players_only() {
    let mut lobby = game();
    let outs = message(&mut lobby, 1, ServerMessage::LockBuzzers);
    assert_eq!(recipients(&outs), vec![2, 3]);
    assert!(outs.iter().all(|o| matches!(o, Outgoing::Deliver { message: ClientMessage::LockBuzzer, .. })));
    let outs = message(&mut lobby, 1, ServerMessage::PauseTimer { at: Nanos(77) });
    assert_eq!(recipients(&outs), vec![2, 3]);
    assert!(outs.iter().all(|o| matches!(o, Outgoing::Deliver { message: ClientMessage::PauseTimer { at: Nanos(77) }, .. })));
}

#[test]
fn start_timer_opens_the_next_round() {
    let mut lobby = game();
    let outs = message(&mut lobby, 1, ServerMessage::StartTimer { start: Nanos(10) });
    assert_eq!(lobby.round_of(ROOM), Some(1));
    assert_eq!(recipients(&outs), vec![2, 3]);
    assert!(outs.iter().all(|o| matches!(
        o,
        Outgoing::Deliver { message: ClientMessage::StartTimer { start: Nanos(10), round: 1 }, .. }
    )));
    message(&mut lobby, 1, ServerMessage::StartTimer { start: Nanos(20) });
    assert_eq!(lobby.round_of(ROOM), Some(2));
}

#[test]
fn start_timer_in_a_missing_room_does_nothing() {
    let mut lobby = game();
    let outs = lobby.handle_message(LobbyMessage {
        client_id: 1,
        msg: ServerMessage::StartTimer { start: Nanos(1) },
        room_code: 999999,
    });
    assert!(outs.is_empty());
    assert_eq!(lobby.round_of(999999), None);
    assert_eq!(lobby.round_of(ROOM), Some(0));
}

#[test]
fn buzz_reaches_the_host_only_in_the_current_round() {
    let mut lobby = game();
    message(&mut lobby, 1, ServerMessage::StartTimer { start: Nanos(0) });
    let stale = message(&mut lobby, 2, ServerMessage::BuzzCompleted { at: Nanos(3), response: 0 });
    assert!(stale.is_empty());
    let buzz = message(&mut lobby, 2, ServerMessage::BuzzCompleted { at: Nanos(3), response: 1 });
    assert_eq!(buzz, vec![Outgoing::Deliver { to: 1, message: ClientMessage::BuzzCompleted { at: Nanos(3) } }]);
}

#[test]
fn only_a_host_can_kick() {
    let mut lobby = game();
    assert!(message(&mut lobby, 2, ServerMessage::Kick { uuid: 3 }).is_empty());
    assert!(message(&mut lobby, 42, ServerMessage::Kick { uuid: 3 }).is_empty());
    assert_eq!(
        message(&mut lobby, 1, ServerMessage::Kick { uuid: 3 }),
        vec![Outgoing::Deliver { to: 3, message: ClientMessage::Kicked }]
    );
    assert_eq!(
        message(&mut lobby, 1, ServerMessage::Kick { uuid: 77 }),
        vec![Outgoing::Undeliverable { to: 77, message: ClientMessage::Kicked }]
    );
}

#[test]
fn player_leaving_is_announced_and_taken_out_of_the_room() {
    let mut lobby = game();
    let outs = lobby.handle_disconnect(Disconnect { room_code: ROOM, client_id: 2 });
    assert_eq!(recipients(&outs), vec![1, 3]);
    assert!(outs.iter().all(|o| matches!(o, Outgoing::Deliver { message: ClientMessage::RemoveUser { client_id: 2 }, .. })));
    let again = lobby.handle_disconnect(Disconnect { room_code: ROOM, client_id: 2 });
    assert!(again.is_empty());
    // the player is no longer a member: news of a newcomer does not go to it
    let (_, outs) = connect(&mut lobby, 4, "p4", false);
    assert_eq!(recipients(&outs), vec![1, 3]);
    assert!(outs.iter().all(|o| matches!(o, Outgoing::Deliver { .. })));
    assert_eq!(recipients(&message(&mut lobby, 1, ServerMessage::LockBuzzers)), vec![3, 4]);
}

#[test]
fn host_leaving_kicks_everyone_and_empties_the_room() {
    let mut lobby = game();
    message(&mut lobby, 1, ServerMessage::StartTimer { start: Nanos(0) });
    let outs = lobby.handle_disconnect(Disconnect { room_code: ROOM, client_id: 1 });
    assert_eq!(outs.len(), 4);
    assert_eq!(recipients(&outs[..2]), vec![2, 3]);
    assert!(outs[..2].iter().all(|o| matches!(o, Outgoing::Deliver { message: ClientMessage::RemoveUser { client_id: 1 }, .. })));
    assert_eq!(recipients(&outs[2..]), vec![2, 3]);
    assert!(outs[2..].iter().all(|o| matches!(o, Outgoing::Deliver { message: ClientMessage::Kicked, .. })));
    assert_eq!(lobby.round_of(ROOM), Some(1));
    assert!(message(&mut lobby, 2, ServerMessage::LockBuzzers).is_empty());
}

#[test]
fn unknown_client_leaving_changes_nothing() {
    let mut lobby = game();
    assert!(lobby.handle_disconnect(Disconnect { room_code: ROOM, client_id: 100 }).is_empty());
    assert_eq!(recipients(&message(&mut lobby, 1, ServerMessage::LockBuzzers)), vec![2, 3]);
}

#[test]
fn default_lobby_is_empty() {
    let mut lobby = Lobby::default();
    assert_eq!(lobby.round_of(ROOM), None);
    assert!(message(&mut lobby, 1, ServerMessage::LockBuzzers).is_empty());
}

#[test]
fn broadcast_to_others_is_broadcast_to_all_less_one() {
    let lobby = game();
    let all = lobby.broadcast(ClientMessage::LockBuzzer, ROOM);
    let others = lobby.broadcast_others(ClientMessage::LockBuzzer, ROOM, 2);
    assert_eq!(recipients(&all), vec![1, 2, 3]);
    assert_eq!(recipients(&others), vec![1, 3]);
    for o in &others {
        assert!(all.contains(o));
    }
    assert!(lobby.broadcast(ClientMessage::Kicked, 999999).is_empty());
}
