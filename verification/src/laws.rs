//! Properties of the lobby and of the connections that hold across calls.
use vstd::prelude::*;
use crate::ids::ClientId;
use crate::lobby::{
    Audience, Connect, LobbyMessage, LobbyView, Outgoing, after_connect, after_disconnect, after_message,
    assigned_id, audience_of, broadcast_spec, connect_outs, connect_replies, disconnect_outs, fans_out,
    host_present_spec, message_outs, round_fits, rooms_after_connect, send_spec, sent_by_host,
};
use crate::messages::{ClientMessage, ServerMessage};
use crate::endpoints::{RoomCodeError, decimal_value, is_decimal_digit, room_code_spec, unsigned_digits};
use crate::server::{CLIENT_TIMEOUT_NANOS, HEARTBEAT_INTERVAL_NANOS, ConnectionView, Frame, HeartbeatStep, after_frame, frame_actions, heartbeat_spec};

verus! {

/// A broadcast sends each of its messages to a member of its audience, and
/// sends exactly the broadcast message.
pub proof fn lemma_fan_out_stays_in_audience(
    outs: Seq<Outgoing>,
    targets: Set<ClientId>,
    sessions: Map<ClientId, bool>,
    message: ClientMessage,
    i: int,
)
    requires
        fans_out(outs, targets, sessions, message),
        0 <= i < outs.len(),
    ensures
        exists|t: ClientId| targets.contains(t) && outs[i] == send_spec(sessions, t, message),
{
    let order = choose|order: Seq<ClientId>|
        {
            &&& order.no_duplicates()
            &&& #[trigger] order.to_set() == targets
            &&& outs == order.map_values(|t: ClientId| send_spec(sessions, t, message))
        };
    assert(order.to_set().contains(order[i]));
    assert(outs[i] == send_spec(sessions, order[i], message));
}

/// No handler removes a room: every room code known before a call is known after it.
pub proof fn lemma_rooms_are_never_removed(
    v: LobbyView,
    room_code: u32,
    client_id: ClientId,
    is_host: bool,
    replacement: ClientId,
    m: LobbyMessage,
    code: u32,
)
    requires
        v.rooms.contains_key(code),
    ensures
        after_connect(v, room_code, client_id, is_host, replacement).rooms.contains_key(code),
        after_disconnect(v, room_code, client_id).rooms.contains_key(code),
        after_message(v, m).rooms.contains_key(code),
{
}

/// Only a host's connection opens a room, and only the room it asked for.
pub proof fn lemma_only_hosts_open_rooms(
    v: LobbyView,
    room_code: u32,
    client_id: ClientId,
    is_host: bool,
    replacement: ClientId,
    m: LobbyMessage,
    code: u32,
)
    requires
        !v.rooms.contains_key(code),
    ensures
        after_connect(v, room_code, client_id, is_host, replacement).rooms.contains_key(code)
            ==> is_host && code == room_code,
        !after_disconnect(v, room_code, client_id).rooms.contains_key(code),
        !after_message(v, m).rooms.contains_key(code),
{
}

/// A room's round changes only when a `StartTimer` message reaches it, and
/// then it goes up by one; connecting and leaving keep it.
pub proof fn lemma_rounds_only_advance_by_start_timer(
    v: LobbyView,
    room_code: u32,
    client_id: ClientId,
    is_host: bool,
    replacement: ClientId,
    m: LobbyMessage,
    code: u32,
)
    requires
        v.rooms.contains_key(code),
        round_fits(v, m),
    ensures
        after_connect(v, room_code, client_id, is_host, replacement).rooms[code].round == v.rooms[code].round,
        after_disconnect(v, room_code, client_id).rooms[code].round == v.rooms[code].round,
        after_message(v, m).rooms[code].round == if m.msg is StartTimer && m.room_code == code {
            v.rooms[code].round + 1
        } else {
            v.rooms[code].round as int
        },
{
}

/// A connecting client ends up with a session under the identifier it was
/// given, marked host or player as it asked; when its own identifier was
/// taken it is told `Kicked` first and registered under the replacement.
pub proof fn lemma_connect_registers(
    v: LobbyView,
    c: Connect,
    replacement: ClientId,
    outs: Seq<Outgoing>,
)
    requires
        connect_outs(outs, v, c, replacement),
    ensures
        after_connect(v, c.room_code, c.client_id, c.is_host, replacement).sessions.contains_key(
            assigned_id(v, c.client_id, replacement),
        ),
        after_connect(v, c.room_code, c.client_id, c.is_host, replacement).sessions[assigned_id(
            v,
            c.client_id,
            replacement,
        )] == c.is_host,
        v.sessions.contains_key(c.client_id) ==> assigned_id(v, c.client_id, replacement) == replacement
            && outs[0] == (Outgoing::Reply { message: ClientMessage::Kicked }),
        !v.sessions.contains_key(c.client_id) ==> assigned_id(v, c.client_id, replacement) == c.client_id,
{
    let replies = connect_replies(v, c.room_code, c.client_id, c.is_host);
    if v.sessions.contains_key(c.client_id) {
        assert(replies[0] == (Outgoing::Reply { message: ClientMessage::Kicked }));
        assert(outs.take(replies.len() as int)[0] == outs[0]);
    }
}

/// A host that connects to a room that already holds a host is told `Kicked`.
pub proof fn lemma_second_host_is_kicked(v: LobbyView, c: Connect, replacement: ClientId, outs: Seq<Outgoing>)
    requires
        connect_outs(outs, v, c, replacement),
        c.is_host,
        host_present_spec(v, c.room_code),
    ensures
        outs.contains(Outgoing::Reply { message: ClientMessage::Kicked }),
        outs[outs.len() - 1] == (Outgoing::Reply { message: ClientMessage::Kicked }),
{
    let replies = connect_replies(v, c.room_code, c.client_id, c.is_host);
    assert(outs == replies);
    assert(replies[replies.len() - 1] == (Outgoing::Reply { message: ClientMessage::Kicked }));
}

/// A player only joins a room that exists and holds a host; asking for a
/// code without a room is answered `CodeNotFound`.
pub proof fn lemma_players_join_only_hosted_rooms(
    v: LobbyView,
    c: Connect,
    replacement: ClientId,
    outs: Seq<Outgoing>,
)
    requires
        connect_outs(outs, v, c, replacement),
        !c.is_host,
    ensures
        !host_present_spec(v, c.room_code) ==> after_connect(v, c.room_code, c.client_id, c.is_host, replacement).rooms
            == v.rooms,
        host_present_spec(v, c.room_code) ==> after_connect(v, c.room_code, c.client_id, c.is_host, replacement).rooms[c.room_code].clients
            == v.rooms[c.room_code].clients.insert(assigned_id(v, c.client_id, replacement)),
        !v.rooms.contains_key(c.room_code) ==> outs.contains(Outgoing::Reply { message: ClientMessage::CodeNotFound }),
{
    let replies = connect_replies(v, c.room_code, c.client_id, c.is_host);
    if !v.rooms.contains_key(c.room_code) {
        let last = replies.len() - 1;
        assert(replies[last] == (Outgoing::Reply { message: ClientMessage::CodeNotFound }));
        assert(outs.take(replies.len() as int)[last] == outs[last]);
    }
}

/// The news of a player's arrival goes to the other members of its room,
/// never to the player itself.
pub proof fn lemma_arrival_not_echoed(v: LobbyView, c: Connect, replacement: ClientId, outs: Seq<Outgoing>, i: int)
    requires
        connect_outs(outs, v, c, replacement),
        !c.is_host,
        connect_replies(v, c.room_code, c.client_id, c.is_host).len() <= i < outs.len(),
    ensures
        outs[i] matches Outgoing::Deliver { to, message } ==> to != assigned_id(v, c.client_id, replacement)
            && message == (ClientMessage::AddUser { client_name: c.client_name, client_id: assigned_id(v, c.client_id, replacement) }),
        outs[i] matches Outgoing::Undeliverable { to, .. } ==> to != assigned_id(v, c.client_id, replacement),
        !(outs[i] is Reply),
{
    let n = connect_replies(v, c.room_code, c.client_id, c.is_host).len() as int;
    let id = assigned_id(v, c.client_id, replacement);
    let w = LobbyView { sessions: v.sessions, rooms: rooms_after_connect(v, c.room_code, false, id) };
    let msg = ClientMessage::AddUser { client_name: c.client_name, client_id: id };
    lemma_fan_out_stays_in_audience(outs.skip(n), audience_of(w, c.room_code, Audience::AllBut(id)), w.sessions, msg, i - n);
    assert(outs.skip(n)[i - n] == outs[i]);
}

/// A client that leaves loses its session and is no longer a member of its
/// room; if it was a host, its room is left empty, if it was a player, the
/// other members stay. Leaving again changes nothing and sends nothing.
pub proof fn lemma_disconnect(v: LobbyView, room_code: u32, client_id: ClientId, outs: Seq<Outgoing>)
    ensures
        !after_disconnect(v, room_code, client_id).sessions.contains_key(client_id),
        v.sessions.contains_key(client_id) && v.sessions[client_id] && v.rooms.contains_key(room_code)
            ==> after_disconnect(v, room_code, client_id).rooms[room_code].clients.is_empty(),
        v.sessions.contains_key(client_id) && v.rooms.contains_key(room_code)
            ==> !after_disconnect(v, room_code, client_id).rooms[room_code].clients.contains(client_id),
        v.sessions.contains_key(client_id) && !v.sessions[client_id] && v.rooms.contains_key(room_code)
            ==> after_disconnect(v, room_code, client_id).rooms[room_code].clients
            == v.rooms[room_code].clients.remove(client_id),
        after_disconnect(after_disconnect(v, room_code, client_id), room_code, client_id)
            == after_disconnect(v, room_code, client_id),
        disconnect_outs(outs, after_disconnect(v, room_code, client_id), room_code, client_id) ==> outs.len() == 0,
{
    assert(after_disconnect(after_disconnect(v, room_code, client_id), room_code, client_id)
        =~= after_disconnect(v, room_code, client_id));
}

/// The recipient of a message meant for a client, if it is meant for one.
pub open spec fn addressee(out: Outgoing) -> Option<ClientId> {
    match out {
        Outgoing::Reply { .. } => None,
        Outgoing::Deliver { to, .. } => Some(to),
        Outgoing::Undeliverable { to, .. } => Some(to),
    }
}

/// Broadcasting to everyone but `x` sends what broadcasting to the whole room
/// sends, less the message meant for `x`: the audience is the room's members
/// without `x`, and the two broadcasts hold the same messages but that one.
pub proof fn lemma_all_but_one_is_everyone_less_one(
    v: LobbyView,
    room_code: u32,
    x: ClientId,
    message: ClientMessage,
    everyone: Seq<Outgoing>,
    others: Seq<Outgoing>,
)
    requires
        broadcast_spec(everyone, v, room_code, Audience::Everyone, message),
        broadcast_spec(others, v, room_code, Audience::AllBut(x), message),
    ensures
        audience_of(v, room_code, Audience::AllBut(x)) == audience_of(v, room_code, Audience::Everyone).remove(x),
        v.rooms.contains_key(room_code) ==> audience_of(v, room_code, Audience::Everyone) == v.rooms[room_code].clients,
        forall|o: Outgoing| #[trigger] others.contains(o) <==> (everyone.contains(o) && addressee(o) != Some(x)),
{
    let all = audience_of(v, room_code, Audience::Everyone);
    let but = audience_of(v, room_code, Audience::AllBut(x));
    assert(but =~= all.remove(x));
    if v.rooms.contains_key(room_code) {
        assert(all =~= v.rooms[room_code].clients);
    }
    let o1 = choose|order: Seq<ClientId>|
        {
            &&& order.no_duplicates()
            &&& #[trigger] order.to_set() == all
            &&& everyone == order.map_values(|t: ClientId| send_spec(v.sessions, t, message))
        };
    let o2 = choose|order: Seq<ClientId>|
        {
            &&& order.no_duplicates()
            &&& #[trigger] order.to_set() == but
            &&& others == order.map_values(|t: ClientId| send_spec(v.sessions, t, message))
        };
    assert forall|o: Outgoing| #[trigger] others.contains(o) <==> (everyone.contains(o) && addressee(o) != Some(x)) by {
        if others.contains(o) {
            let i = choose|i: int| 0 <= i < others.len() && others[i] == o;
            let t = o2[i];
            assert(o2.to_set().contains(t));
            assert(all.contains(t));
            let j = choose|j: int| 0 <= j < o1.len() && o1[j] == t;
            assert(everyone[j] == o);
        }
        if everyone.contains(o) && addressee(o) != Some(x) {
            let j = choose|j: int| 0 <= j < everyone.len() && everyone[j] == o;
            let t = o1[j];
            assert(o1.to_set().contains(t));
            assert(t != x);
            assert(but.contains(t));
            let i = choose|i: int| 0 <= i < o2.len() && o2[i] == t;
            assert(others[i] == o);
        }
    }
}

/// The connection after receiving `frames`, the `i`-th at time `times[i]`.
pub open spec fn after_frames(c: ConnectionView, frames: Seq<Frame>, times: Seq<u64>) -> ConnectionView
    decreases frames.len(),
{
    if frames.len() == 0 || times.len() == 0 {
        c
    } else {
        after_frames(
            after_frame(c, frames[0], times[0]),
            frames.drop_first(),
            times.drop_first(),
        )
    }
}

/// A client that stops pinging and ponging is dropped on schedule: whatever
/// other frames arrive, the heartbeat check pings at every tick up to
/// `CLIENT_TIMEOUT_NANOS` after the client was last heard from, stops the
/// connection at every tick past it, and the first tick past it comes at most
/// one `HEARTBEAT_INTERVAL_NANOS` later, ticks being one interval apart.
pub proof fn lemma_silent_client_dropped_on_schedule(
    c: ConnectionView,
    frames: Seq<Frame>,
    times: Seq<u64>,
    start: u64,
    k: nat,
)
    requires
        forall|i: int| 0 <= i < frames.len() ==> !(#[trigger] frames[i] is Ping) && !(frames[i] is Pong),
        start + (k + 1) * HEARTBEAT_INTERVAL_NANOS <= u64::MAX,
    ensures
        ({
            let d = after_frames(c, frames, times);
            let tick = (start + k * HEARTBEAT_INTERVAL_NANOS) as u64;
            let next = (start + (k + 1) * HEARTBEAT_INTERVAL_NANOS) as u64;
            let deadline = c.last_hb + CLIENT_TIMEOUT_NANOS;
            &&& d.last_hb == c.last_hb
            &&& (heartbeat_spec(d.last_hb, tick) == HeartbeatStep::Stop <==> tick > deadline)
            &&& (tick <= deadline && next > deadline) ==> heartbeat_spec(d.last_hb, next) == HeartbeatStep::Stop
                && next <= deadline + HEARTBEAT_INTERVAL_NANOS
        }),
    decreases frames.len(),
{
    if frames.len() > 0 && times.len() > 0 {
        let rest = frames.drop_first();
        assert forall|i: int| 0 <= i < rest.len() implies !(#[trigger] rest[i] is Ping) && !(rest[i] is Pong) by {
            assert(rest[i] == frames[i + 1]);
        }
        assert(!(frames[0] is Ping) && !(frames[0] is Pong));
        lemma_silent_client_dropped_on_schedule(after_frame(c, frames[0], times[0]), rest, times.drop_first(), start, k);
    }
}

/// What a leaving client's departure sends never goes to that client.
pub proof fn lemma_departure_not_echoed(v: LobbyView, room_code: u32, client_id: ClientId, outs: Seq<Outgoing>, i: int)
    requires
        disconnect_outs(outs, v, room_code, client_id),
        0 <= i < outs.len(),
    ensures
        outs[i] matches Outgoing::Deliver { to, .. } ==> to != client_id,
        outs[i] matches Outgoing::Undeliverable { to, .. } ==> to != client_id,
        !(outs[i] is Reply),
{
    let left = LobbyView { sessions: v.sessions.remove(client_id), rooms: v.rooms };
    let targets = audience_of(left, room_code, Audience::AllBut(client_id));
    let k = choose|k: int|
        {
            &&& 0 <= k <= outs.len()
            &&& broadcast_spec(
                #[trigger] outs.take(k),
                left,
                room_code,
                Audience::AllBut(client_id),
                ClientMessage::RemoveUser { client_id },
            )
            &&& if v.sessions[client_id] {
                broadcast_spec(outs.skip(k), left, room_code, Audience::AllBut(client_id), ClientMessage::Kicked)
            } else {
                k == outs.len()
            }
        };
    if i < k {
        lemma_fan_out_stays_in_audience(outs.take(k), targets, left.sessions, ClientMessage::RemoveUser { client_id }, i);
        assert(outs.take(k)[i] == outs[i]);
    } else {
        lemma_fan_out_stays_in_audience(outs.skip(k), targets, left.sessions, ClientMessage::Kicked, i - k);
        assert(outs.skip(k)[i - k] == outs[i]);
    }
}

/// Lock and timer messages reach only players of the sender's room, each as
/// a delivery to a live session; a buzz reaches only the hosts of the room,
/// and only when it answers the room's current round; a kick is carried out
/// only for a host.
pub proof fn lemma_message_audiences(v: LobbyView, m: LobbyMessage, outs: Seq<Outgoing>, i: int)
    requires
        message_outs(outs, v, m),
        round_fits(v, m),
        0 <= i < outs.len(),
    ensures
        (m.msg is LockBuzzers || m.msg is StartTimer || m.msg is PauseTimer) ==> {
            &&& outs[i] is Deliver
            &&& v.rooms.contains_key(m.room_code)
            &&& v.rooms[m.room_code].clients.contains(outs[i]->Deliver_to)
            &&& v.sessions.contains_key(outs[i]->Deliver_to)
            &&& !v.sessions[outs[i]->Deliver_to]
        },
        m.msg is BuzzCompleted ==> {
            &&& outs[i] is Deliver
            &&& v.rooms.contains_key(m.room_code)
            &&& v.rooms[m.room_code].round == m.msg->response
            &&& v.rooms[m.room_code].clients.contains(outs[i]->Deliver_to)
            &&& v.sessions.contains_key(outs[i]->Deliver_to)
            &&& v.sessions[outs[i]->Deliver_to]
        },
        m.msg is Kick ==> sent_by_host(v, m.client_id),
{
    let w = after_message(v, m);
    match m.msg {
        ServerMessage::LockBuzzers => {
            lemma_fan_out_stays_in_audience(outs, audience_of(v, m.room_code, Audience::Players), v.sessions, ClientMessage::LockBuzzer, i);
        },
        ServerMessage::StartTimer { start } => {
            let msg = ClientMessage::StartTimer { start, round: w.rooms[m.room_code].round };
            lemma_fan_out_stays_in_audience(outs, audience_of(w, m.room_code, Audience::Players), w.sessions, msg, i);
        },
        ServerMessage::PauseTimer { at } => {
            lemma_fan_out_stays_in_audience(outs, audience_of(v, m.room_code, Audience::Players), v.sessions, ClientMessage::PauseTimer { at }, i);
        },
        ServerMessage::BuzzCompleted { at, response } => {
            lemma_fan_out_stays_in_audience(outs, audience_of(v, m.room_code, Audience::Hosts), v.sessions, ClientMessage::BuzzCompleted { at }, i);
        },
        ServerMessage::Kick { .. } => {},
    }
}

/// A connection that has just heard from its client (a ping or a pong) is
/// not dropped by the heartbeat check at that moment.
pub proof fn lemma_fresh_connection_survives_heartbeat(c: ConnectionView, frame: Frame, now: u64)
    requires
        frame is Ping || frame is Pong,
    ensures
        heartbeat_spec(after_frame(c, frame, now).last_hb, now) == HeartbeatStep::Ping,
{
}

/// Every message a connection hands on to the lobby carries the connection's
/// own client identifier and room code, the ones it connected with.
pub proof fn lemma_forwarded_messages_name_their_sender(c: ConnectionView, frame: Frame, i: int)
    requires
        0 <= i < frame_actions(c, frame).len(),
        frame_actions(c, frame)[i] is Forward,
    ensures
        frame_actions(c, frame)[i]->Forward_0.client_id == c.client_id,
        frame_actions(c, frame)[i]->Forward_0.room_code == c.room_code,
        after_frame(c, frame, 0).client_id == c.client_id,
        after_frame(c, frame, 0).room_code == c.room_code,
{
}


/// A ping or a pong received at time `now` records `now` as the moment the
/// client was last heard from, and changes nothing else; from then on the
/// heartbeat check pings up to `CLIENT_TIMEOUT_NANOS` later and stops the
/// connection at any time past that.
pub proof fn lemma_ping_pong_records_time(c: ConnectionView, frame: Frame, now: u64, t: u64)
    requires
        frame is Ping || frame is Pong,
    ensures
        after_frame(c, frame, now).last_hb == now,
        after_frame(c, frame, now).client_id == c.client_id,
        after_frame(c, frame, now).room_code == c.room_code,
        after_frame(c, frame, now).is_host == c.is_host,
        after_frame(c, frame, now).client_name == c.client_name,
        now <= t ==> (heartbeat_spec(after_frame(c, frame, now).last_hb, t) == HeartbeatStep::Stop
            <==> t - now > 10_000_000_000),
{
}

/// Starting the timer in an existing room moves the room to the next round,
/// and every message it sends is a `StartTimer` carrying that new round
/// number, delivered to a player of the room: the round that later buzzes are
/// compared with.
pub proof fn lemma_start_timer_announces_the_new_round(
    v: LobbyView,
    m: LobbyMessage,
    outs: Seq<Outgoing>,
    i: int,
)
    requires
        m.msg is StartTimer,
        v.rooms.contains_key(m.room_code),
        v.rooms[m.room_code].round < u32::MAX,
        message_outs(outs, v, m),
        0 <= i < outs.len(),
    ensures
        after_message(v, m).rooms[m.room_code].round == v.rooms[m.room_code].round + 1,
        after_message(v, m).rooms[m.room_code].clients == v.rooms[m.room_code].clients,
        outs[i] matches Outgoing::Deliver { to, message } && message == (ClientMessage::StartTimer {
            start: m.msg->start,
            round: (v.rooms[m.room_code].round + 1) as u32,
        }) && v.rooms[m.room_code].clients.contains(to) && v.sessions.contains_key(to) && !v.sessions[to],
{
    let w = after_message(v, m);
    let msg = ClientMessage::StartTimer { start: m.msg->start, round: w.rooms[m.room_code].round };
    lemma_fan_out_stays_in_audience(outs, audience_of(w, m.room_code, Audience::Players), w.sessions, msg, i);
}

/// A connecting host always ends up a member of the room it asked for: the
/// room holds exactly its former members (none if it is new) and the
/// identifier the host was registered under, and keeps its round (0 if new).
pub proof fn lemma_host_joins_its_room(v: LobbyView, room_code: u32, client_id: ClientId, replacement: ClientId)
    ensures
        ({
            let id = if v.sessions.contains_key(client_id) {
                replacement
            } else {
                client_id
            };
            let after = after_connect(v, room_code, client_id, true, replacement);
            &&& after.rooms.contains_key(room_code)
            &&& after.rooms[room_code].clients == (if v.rooms.contains_key(room_code) {
                v.rooms[room_code].clients
            } else {
                Set::<ClientId>::empty()
            }).insert(id)
            &&& after.rooms[room_code].round == (if v.rooms.contains_key(room_code) {
                v.rooms[room_code].round
            } else {
                0u32
            })
            &&& after.sessions == v.sessions.insert(id, true)
            &&& forall|code: u32| code != room_code ==> #[trigger] after.rooms.contains_key(code)
                == v.rooms.contains_key(code) && (v.rooms.contains_key(code) ==> after.rooms[code] == v.rooms[code])
        }),
{
}

/// The answers sent straight to a connecting websocket: `Kicked` first if its
/// identifier is already in use; then, for a host, `Kicked` exactly when a
/// member of the room already has a host's session; for a player,
/// `CodeNotFound` exactly when the room does not exist. Nothing else is
/// answered to it.
pub proof fn lemma_connect_replies(v: LobbyView, c: Connect, replacement: ClientId, outs: Seq<Outgoing>)
    requires
        connect_outs(outs, v, c, replacement),
    ensures
        ({
            let taken: Seq<Outgoing> = if v.sessions.contains_key(c.client_id) {
                seq![Outgoing::Reply { message: ClientMessage::Kicked }]
            } else {
                Seq::empty()
            };
            let host_there = v.rooms.contains_key(c.room_code) && exists|h: ClientId|
                #[trigger] v.rooms[c.room_code].clients.contains(h) && v.sessions.contains_key(h) && v.sessions[h];
            let answer: Seq<Outgoing> = if c.is_host {
                if host_there {
                    seq![Outgoing::Reply { message: ClientMessage::Kicked }]
                } else {
                    Seq::empty()
                }
            } else if !v.rooms.contains_key(c.room_code) {
                seq![Outgoing::Reply { message: ClientMessage::CodeNotFound }]
            } else {
                Seq::empty()
            };
            &&& outs.take((taken + answer).len() as int) == taken + answer
            &&& c.is_host ==> outs == taken + answer
            &&& forall|j: int| (taken + answer).len() <= j < outs.len() ==> !(#[trigger] outs[j] is Reply)
        }),
{
    let replies = connect_replies(v, c.room_code, c.client_id, c.is_host);
    assert forall|j: int| replies.len() <= j < outs.len() implies !(#[trigger] outs[j] is Reply) by {
        let n = replies.len() as int;
        let id = assigned_id(v, c.client_id, replacement);
        let w = LobbyView { sessions: v.sessions, rooms: rooms_after_connect(v, c.room_code, false, id) };
        let msg = ClientMessage::AddUser { client_name: c.client_name, client_id: id };
        lemma_fan_out_stays_in_audience(outs.skip(n), audience_of(w, c.room_code, Audience::AllBut(id)), w.sessions, msg, j - n);
        assert(outs.skip(n)[j - n] == outs[j]);
    }
    if c.is_host {
        assert(outs =~= outs.take(replies.len() as int));
    }
}

/// Six ASCII decimal digits, each of `'0'` to `'9'`, read as a room code give
/// the number they write in decimal.
pub proof fn lemma_six_digits_read_as_their_number(d: Seq<u8>)
    requires
        d.len() == 6,
        forall|i: int| 0 <= i < 6 ==> 48 <= #[trigger] d[i] <= 57,
    ensures
        room_code_spec(d) == Ok::<nat, RoomCodeError>(
            ((d[0] - 48) * 100000 + (d[1] - 48) * 10000 + (d[2] - 48) * 1000 + (d[3] - 48) * 100
                + (d[4] - 48) * 10 + (d[5] - 48)) as nat,
        ),
{
    assert(48 <= d[0] <= 57);
    assert(unsigned_digits(d) == d);
    assert forall|i: int| 0 <= i < d.len() implies #[trigger] is_decimal_digit(d[i]) by {
        assert(48 <= d[i] <= 57);
    }
    let d5 = d.drop_last();
    let d4 = d5.drop_last();
    let d3 = d4.drop_last();
    let d2 = d3.drop_last();
    let d1 = d2.drop_last();
    let d0 = d1.drop_last();
    assert(d0.len() == 0);
    assert(d1.last() == d[0] && d2.last() == d[1] && d3.last() == d[2]);
    assert(d4.last() == d[3] && d5.last() == d[4] && d.last() == d[5]);
    assert(48 <= d[1] <= 57 && 48 <= d[2] <= 57 && 48 <= d[3] <= 57);
    assert(48 <= d[4] <= 57 && 48 <= d[5] <= 57);
    assert(decimal_value(d0) == 0);
    assert(decimal_value(d1) == (d[0] - 48));
    assert(decimal_value(d2) == decimal_value(d1) * 10 + (d[1] - 48));
    assert(decimal_value(d3) == decimal_value(d2) * 10 + (d[2] - 48));
    assert(decimal_value(d4) == decimal_value(d3) * 10 + (d[3] - 48));
    assert(decimal_value(d5) == decimal_value(d4) * 10 + (d[4] - 48));
    assert(decimal_value(d) == decimal_value(d5) * 10 + (d[5] - 48));
}

/// The six-digit decimal writing of `code`, most significant digit first.
pub open spec fn six_digit_text(code: nat) -> Seq<u8> {
    seq![
        (48 + code / 100000 % 10) as u8,
        (48 + code / 10000 % 10) as u8,
        (48 + code / 1000 % 10) as u8,
        (48 + code / 100 % 10) as u8,
        (48 + code / 10 % 10) as u8,
        (48 + code % 10) as u8,
    ]
}

/// Every room code that `new_code` can draw, written in decimal, reads back
/// as itself.
pub proof fn lemma_room_codes_read_back(code: nat)
    requires
        100_000 <= code < 1_000_000,
    ensures
        room_code_spec(six_digit_text(code)) == Ok::<nat, RoomCodeError>(code),
{
    let t = six_digit_text(code);
    assert forall|i: int| 0 <= i < 6 implies 48 <= #[trigger] t[i] <= 57 by {}
    lemma_six_digits_read_as_their_number(t);
    let a = code / 100000 % 10;
    let b = code / 10000 % 10;
    let c = code / 1000 % 10;
    let e = code / 100 % 10;
    let f = code / 10 % 10;
    let g = code % 10;
    assert(a * 100000 + b * 10000 + c * 1000 + e * 100 + f * 10 + g == code) by (nonlinear_arith)
        requires
            100_000 <= code < 1_000_000,
            a == code / 100000 % 10,
            b == code / 10000 % 10,
            c == code / 1000 % 10,
            e == code / 100 % 10,
            f == code / 10 % 10,
            g == code % 10,
    ;
}
} // verus!
