//! The lobby: every connected client and every room, and the decisions on
//! who is told what when clients connect, leave and send messages.
//!
//! The lobby itself sends nothing: each handler returns the messages to send
//! as [`Outgoing`] values, in the order in which they are to be sent.
use vstd::prelude::*;
use std::collections::{HashMap, HashSet};
use vstd::std_specs::hash::*;
use vstd::std_specs::iter::IteratorSpec;
use crate::ids::{ClientId, is_random_v4, random_v4_id};
use crate::messages::{ClientMessage, ServerMessage};

verus! {

broadcast use vstd::std_specs::hash::group_hash_axioms;

/// A room: the clients that joined it and the buzzer round it is at.
pub struct Room {
    clients: HashSet<ClientId>,
    round: u32,
}

/// The model of a room.
#[verifier::ext_equal]
pub struct RoomView {
    pub clients: Set<ClientId>,
    pub round: u32,
}

impl View for Room {
    type V = RoomView;

    closed spec fn view(&self) -> RoomView {
        RoomView { clients: self.clients@, round: self.round }
    }
}

/// Every client and every room of the system.
pub struct Lobby {
    /// Each connected client, with whether it is a host.
    sessions: HashMap<ClientId, bool>,
    /// The rooms, by their code.
    rooms: HashMap<u32, Room>,
}

/// The model of the lobby: for each client whether it is a host, and the rooms.
#[verifier::ext_equal]
pub struct LobbyView {
    pub sessions: Map<ClientId, bool>,
    pub rooms: Map<u32, RoomView>,
}

impl View for Lobby {
    type V = LobbyView;

    closed spec fn view(&self) -> LobbyView {
        LobbyView { sessions: self.sessions@, rooms: self.rooms@.map_values(|r: Room| r@) }
    }
}

impl Default for Lobby {
    /// An empty lobby.
    fn default() -> (lobby: Self)
        ensures
            lobby@.sessions == Map::<ClientId, bool>::empty(),
            lobby@.rooms == Map::<u32, RoomView>::empty(),
    {
        Lobby::new()
    }
}

/// A message that the lobby wants sent.
#[derive(Debug, PartialEq, Eq)]
pub enum Outgoing {
    /// To the websocket that is connecting, whatever identifier it ends up with.
    Reply { message: ClientMessage },
    /// To the connected client `to`.
    Deliver { to: ClientId, message: ClientMessage },
    /// Meant for `to`, which has no session: nobody receives it.
    Undeliverable { to: ClientId, message: ClientMessage },
}

/// Which members of a room a broadcast reaches.
#[derive(Clone, Copy, PartialEq, Eq, Structural)]
pub enum Audience {
    Everyone,
    AllBut(ClientId),
    /// The members whose session is a host's.
    Hosts,
    /// The members whose session is a player's.
    Players,
}

/// Whether the client `id` belongs to `audience`, given the sessions.
pub open spec fn admitted(audience: Audience, sessions: Map<ClientId, bool>, id: ClientId) -> bool {
    match audience {
        Audience::Everyone => true,
        Audience::AllBut(other) => id != other,
        Audience::Hosts => sessions.contains_key(id) && sessions[id],
        Audience::Players => sessions.contains_key(id) && !sessions[id],
    }
}

/// How a message meant for `to` goes out: delivered if `to` has a session.
pub open spec fn send_spec(sessions: Map<ClientId, bool>, to: ClientId, message: ClientMessage) -> Outgoing {
    if sessions.contains_key(to) {
        Outgoing::Deliver { to, message }
    } else {
        Outgoing::Undeliverable { to, message }
    }
}

/// The members of room `room_code` that `audience` reaches (none if there is no such room).
pub open spec fn audience_of(v: LobbyView, room_code: u32, audience: Audience) -> Set<ClientId> {
    if v.rooms.contains_key(room_code) {
        v.rooms[room_code].clients.filter(|id: ClientId| admitted(audience, v.sessions, id))
    } else {
        Set::empty()
    }
}

/// `outs` sends `message` once to each client of `targets`, in some order.
pub open spec fn fans_out(
    outs: Seq<Outgoing>,
    targets: Set<ClientId>,
    sessions: Map<ClientId, bool>,
    message: ClientMessage,
) -> bool {
    exists|order: Seq<ClientId>|
        {
            &&& order.no_duplicates()
            &&& #[trigger] order.to_set() == targets
            &&& outs == order.map_values(|t: ClientId| send_spec(sessions, t, message))
        }
}

/// `outs` is what broadcasting `message` to `audience` in room `room_code` sends.
pub open spec fn broadcast_spec(
    outs: Seq<Outgoing>,
    v: LobbyView,
    room_code: u32,
    audience: Audience,
    message: ClientMessage,
) -> bool {
    fans_out(outs, audience_of(v, room_code, audience), v.sessions, message)
}

/// Whether room `room_code` exists and holds a client whose session is a host's.
pub open spec fn host_present_spec(v: LobbyView, room_code: u32) -> bool {
    &&& v.rooms.contains_key(room_code)
    &&& exists|c: ClientId|
        #[trigger] v.rooms[room_code].clients.contains(c) && v.sessions.contains_key(c)
            && v.sessions[c]
}

/// What a websocket tells the lobby when it connects.
#[derive(Debug, PartialEq, Eq)]
pub struct Connect {
    pub room_code: u32,
    pub client_id: ClientId,
    pub client_name: String,
    pub is_host: bool,
}

/// What a websocket tells the lobby when it goes away.
#[derive(Clone, Copy, Debug, PartialEq, Eq, Structural)]
pub struct Disconnect {
    pub room_code: u32,
    pub client_id: ClientId,
}

/// A message of a client, handed on to the lobby by its websocket.
#[derive(Clone, Copy, Debug, PartialEq, Eq, Structural)]
pub struct LobbyMessage {
    pub client_id: ClientId,
    pub msg: ServerMessage,
    pub room_code: u32,
}

/// The identifier that a connecting client is registered under: its own,
/// unless a session already has it; then `replacement`.
pub open spec fn assigned_id(v: LobbyView, client_id: ClientId, replacement: ClientId) -> ClientId {
    if v.sessions.contains_key(client_id) {
        replacement
    } else {
        client_id
    }
}

/// Room `room_code` with `id` added to it; a new, empty room at round 0 if there was none.
pub open spec fn joined_room(v: LobbyView, room_code: u32, id: ClientId) -> RoomView {
    let room = if v.rooms.contains_key(room_code) {
        v.rooms[room_code]
    } else {
        RoomView { clients: Set::empty(), round: 0 }
    };
    RoomView { clients: room.clients.insert(id), round: room.round }
}

/// The rooms once `id` has connected to room `room_code`: a host always
/// joins it, opening it if needed; a player joins only an existing room
/// that holds a host.
pub open spec fn rooms_after_connect(v: LobbyView, room_code: u32, is_host: bool, id: ClientId) -> Map<u32, RoomView> {
    if is_host || host_present_spec(v, room_code) {
        v.rooms.insert(room_code, joined_room(v, room_code, id))
    } else {
        v.rooms
    }
}

/// The lobby after a client connected; the client's session is recorded last.
pub open spec fn after_connect(
    v: LobbyView,
    room_code: u32,
    client_id: ClientId,
    is_host: bool,
    replacement: ClientId,
) -> LobbyView {
    let id = assigned_id(v, client_id, replacement);
    LobbyView {
        sessions: v.sessions.insert(id, is_host),
        rooms: rooms_after_connect(v, room_code, is_host, id),
    }
}

/// The answers sent straight to a connecting websocket: `Kicked` if its
/// identifier is taken; then, for a host, `Kicked` if the room already holds a
/// host; for a player, `CodeNotFound` if there is no such room.
pub open spec fn connect_replies(v: LobbyView, room_code: u32, client_id: ClientId, is_host: bool) -> Seq<Outgoing> {
    let taken = if v.sessions.contains_key(client_id) {
        seq![Outgoing::Reply { message: ClientMessage::Kicked }]
    } else {
        Seq::<Outgoing>::empty()
    };
    let room = if is_host {
        if host_present_spec(v, room_code) {
            seq![Outgoing::Reply { message: ClientMessage::Kicked }]
        } else {
            Seq::<Outgoing>::empty()
        }
    } else if !v.rooms.contains_key(room_code) {
        seq![Outgoing::Reply { message: ClientMessage::CodeNotFound }]
    } else {
        Seq::<Outgoing>::empty()
    };
    taken + room
}

/// `outs` is what connecting sends: the replies, then, for a player, the news
/// of its arrival to every other member of the room it asked for.
pub open spec fn connect_outs(outs: Seq<Outgoing>, v: LobbyView, c: Connect, replacement: ClientId) -> bool {
    let replies = connect_replies(v, c.room_code, c.client_id, c.is_host);
    let id = assigned_id(v, c.client_id, replacement);
    &&& replies.len() <= outs.len()
    &&& outs.take(replies.len() as int) == replies
    &&& if c.is_host {
        outs.len() == replies.len()
    } else {
        broadcast_spec(
            outs.skip(replies.len() as int),
            LobbyView { sessions: v.sessions, rooms: rooms_after_connect(v, c.room_code, false, id) },
            c.room_code,
            Audience::AllBut(id),
            ClientMessage::AddUser { client_name: c.client_name, client_id: id },
        )
    }
}

/// The lobby after the client `client_id` left room `room_code`: its session
/// ends; a host's room is emptied, a player is taken out of the room (the
/// round stays either way).
pub open spec fn after_disconnect(v: LobbyView, room_code: u32, client_id: ClientId) -> LobbyView {
    if v.sessions.contains_key(client_id) {
        LobbyView {
            sessions: v.sessions.remove(client_id),
            rooms: if !v.rooms.contains_key(room_code) {
                v.rooms
            } else if v.sessions[client_id] {
                v.rooms.insert(room_code, RoomView { clients: Set::empty(), round: v.rooms[room_code].round })
            } else {
                v.rooms.insert(
                    room_code,
                    RoomView {
                        clients: v.rooms[room_code].clients.remove(client_id),
                        round: v.rooms[room_code].round,
                    },
                )
            },
        }
    } else {
        v
    }
}

/// `outs` is what the client `client_id` leaving room `room_code` sends: if it
/// had a session, `RemoveUser` to every other member of the room, then, if it
/// was a host, `Kicked` to every other member; nothing otherwise.
pub open spec fn disconnect_outs(outs: Seq<Outgoing>, v: LobbyView, room_code: u32, client_id: ClientId) -> bool {
    if v.sessions.contains_key(client_id) {
        let left = LobbyView { sessions: v.sessions.remove(client_id), rooms: v.rooms };
        exists|k: int|
            {
                &&& 0 <= k <= outs.len()
                &&& broadcast_spec(
                    #[trigger] outs.take(k),
                    left,
                    room_code,
                    Audience::AllBut(client_id),
                    ClientMessage::RemoveUser { client_id },
                )
                &&& if v.sessions[client_id] {
                    broadcast_spec(outs.skip(k), left, room_code, Audience::AllBut(client_id), ClientMessage::Kicked)
                } else {
                    k == outs.len()
                }
            }
    } else {
        outs.len() == 0
    }
}

/// Whether the sender `client_id` has a host's session.
pub open spec fn sent_by_host(v: LobbyView, client_id: ClientId) -> bool {
    v.sessions.contains_key(client_id) && v.sessions[client_id]
}

/// The lobby after a client's message: `StartTimer` moves an existing room to
/// its next round; nothing else changes the lobby.
pub open spec fn after_message(v: LobbyView, m: LobbyMessage) -> LobbyView {
    match m.msg {
        ServerMessage::StartTimer { .. } => if v.rooms.contains_key(m.room_code) {
            LobbyView {
                sessions: v.sessions,
                rooms: v.rooms.insert(
                    m.room_code,
                    RoomView {
                        clients: v.rooms[m.room_code].clients,
                        round: (v.rooms[m.room_code].round + 1) as u32,
                    },
                ),
            }
        } else {
            v
        },
        _ => v,
    }
}

/// Whether the message `m` can be handled without the round counter of its
/// room overflowing.
pub open spec fn round_fits(v: LobbyView, m: LobbyMessage) -> bool {
    m.msg is StartTimer && v.rooms.contains_key(m.room_code) ==> v.rooms[m.room_code].round < u32::MAX
}

/// `outs` is what handling the client's message `m` sends.
pub open spec fn message_outs(outs: Seq<Outgoing>, v: LobbyView, m: LobbyMessage) -> bool {
    match m.msg {
        ServerMessage::LockBuzzers => broadcast_spec(outs, v, m.room_code, Audience::Players, ClientMessage::LockBuzzer),
        ServerMessage::Kick { uuid } => if sent_by_host(v, m.client_id) {
            outs == seq![send_spec(v.sessions, uuid, ClientMessage::Kicked)]
        } else {
            outs.len() == 0
        },
        ServerMessage::StartTimer { start } => if v.rooms.contains_key(m.room_code) {
            let w = after_message(v, m);
            broadcast_spec(
                outs,
                w,
                m.room_code,
                Audience::Players,
                ClientMessage::StartTimer { start, round: w.rooms[m.room_code].round },
            )
        } else {
            outs.len() == 0
        },
        ServerMessage::PauseTimer { at } => broadcast_spec(outs, v, m.room_code, Audience::Players, ClientMessage::PauseTimer { at }),
        ServerMessage::BuzzCompleted { at, response } => if v.rooms.contains_key(m.room_code)
            && v.rooms[m.room_code].round == response {
            broadcast_spec(outs, v, m.room_code, Audience::Hosts, ClientMessage::BuzzCompleted { at })
        } else {
            outs.len() == 0
        },
    }
}

impl Lobby {
    /// An empty lobby.
    pub fn new() -> (lobby: Lobby)
        ensures
            lobby@.sessions == Map::<ClientId, bool>::empty(),
            lobby@.rooms == Map::<u32, RoomView>::empty(),
    {
        let lobby = Lobby { sessions: HashMap::new(), rooms: HashMap::new() };
        assert(lobby@.rooms =~= Map::<u32, RoomView>::empty());
        lobby
    }

    /// The round that room `room_code` is at, if it exists.
    pub fn round_of(&self, room_code: u32) -> (round: Option<u32>)
        ensures
            round == (if self@.rooms.contains_key(room_code) {
                Some(self@.rooms[room_code].round)
            } else {
                None::<u32>
            }),
    {
        match self.rooms.get(&room_code) {
            Some(room) => Some(room.round),
            None => None,
        }
    }

    fn admits(&self, audience: Audience, id: ClientId) -> (b: bool)
        ensures
            b == admitted(audience, self@.sessions, id),
    {
        match audience {
            Audience::Everyone => true,
            Audience::AllBut(other) => id != other,
            Audience::Hosts => match self.sessions.get(&id) {
                Some(is_host) => *is_host,
                None => false,
            },
            Audience::Players => match self.sessions.get(&id) {
                Some(is_host) => !*is_host,
                None => false,
            },
        }
    }

    /// Addresses `message` to `client_id`: delivered if it has a session.
    fn send_message(&self, message: ClientMessage, client_id: ClientId) -> (out: Outgoing)
        ensures
            out == send_spec(self@.sessions, client_id, message),
    {
        if self.sessions.contains_key(&client_id) {
            Outgoing::Deliver { to: client_id, message }
        } else {
            Outgoing::Undeliverable { to: client_id, message }
        }
    }

    /// Sends `message` to each member of room `room_code` that `audience` admits.
    fn broadcast_filter(&self, message: &ClientMessage, room_code: u32, audience: Audience) -> (outs: Vec<Outgoing>)
        ensures
            broadcast_spec(outs@, self@, room_code, audience, *message),
    {
        let mut outs: Vec<Outgoing> = Vec::new();
        match self.rooms.get(&room_code) {
            None => {
                let ghost order = Seq::<ClientId>::empty();
                assert(order.to_set() =~= audience_of(self@, room_code, audience));
                assert(outs@ =~= order.map_values(|t: ClientId| send_spec(self@.sessions, t, *message)));
                outs
            },
            Some(room) => {
                assert(self@.rooms[room_code] == room@);
                let ghost keys = spec_hash_keys_iter(&room.clients).remaining().unref();
                assert(keys.to_set() == room.clients@ && keys.no_duplicates());
                let ghost mut order = Seq::<ClientId>::empty();
                for id in it: room.clients.iter()
                    invariant
                        it.seq().unref() == keys,
                        keys.to_set() == room.clients@,
                        keys.no_duplicates(),
                        order.no_duplicates(),
                        forall|x: ClientId| #[trigger] order.contains(x) <==> (keys.take(it.index()).contains(x)
                            && admitted(audience, self@.sessions, x)),
                        outs@ == order.map_values(|t: ClientId| send_spec(self@.sessions, t, *message)),
                {
                    let ghost i = it.index();
                    let ghost prev = order;
                    assert(*id == keys[i]);
                    assert(keys.take(i + 1) =~= keys.take(i).push(keys[i]));
                    assert(!keys.take(i).contains(keys[i])) by {
                        if keys.take(i).contains(keys[i]) {
                            let j = choose|j: int| 0 <= j < i && keys.take(i)[j] == keys[i];
                            assert(keys[j] == keys[i]);
                        }
                    }
                    assert(!prev.contains(keys[i]));
                    if self.admits(audience, *id) {
                        let out = self.send_message(message.duplicate(), *id);
                        outs.push(out);
                        proof {
                            order = order.push(*id);
                        }
                        assert(outs@ =~= order.map_values(|t: ClientId| send_spec(self@.sessions, t, *message)));
                    }
                    assert forall|x: ClientId| #[trigger] order.contains(x) <==> (keys.take(i + 1).contains(x)
                        && admitted(audience, self@.sessions, x)) by {
                        if x == keys[i] {
                            assert(keys.take(i + 1)[i] == x);
                            if admitted(audience, self@.sessions, x) {
                                assert(order[prev.len() as int] == x);
                            }
                        } else {
                            if order.contains(x) {
                                let j = choose|j: int| 0 <= j < order.len() && order[j] == x;
                                if j < prev.len() {
                                    assert(prev[j] == x);
                                }
                            }
                            let next = keys.take(i + 1);
                            if next.contains(x) {
                                let j = choose|j: int| 0 <= j < next.len() && next[j] == x;
                                assert(keys.take(i)[j] == x);
                            }
                            if prev.contains(x) {
                                let j = choose|j: int| 0 <= j < prev.len() && prev[j] == x;
                                assert(order[j] == x);
                            }
                        }
                    }
                }
                assert(keys.take(keys.len() as int) =~= keys);
                assert(order.to_set() =~= audience_of(self@, room_code, audience));
                outs
            },
        }
    }

    /// Whether room `room_code` exists and holds a client whose session is a host's.
    fn host_present(&self, room_code: &u32) -> (present: bool)
        ensures
            present == host_present_spec(self@, *room_code),
    {
        match self.rooms.get(room_code) {
            None => false,
            Some(room) => {
                assert(self@.rooms[*room_code] == room@);
                let ghost keys = spec_hash_keys_iter(&room.clients).remaining().unref();
                assert(keys.to_set() == room.clients@);
                let mut any = false;
                for id in it: room.clients.iter()
                    invariant
                        it.seq().unref() == keys,
                        any <==> exists|j: int|
                            0 <= j < it.index() && #[trigger] admitted(Audience::Hosts, self@.sessions, keys[j]),
                {
                    let ghost i = it.index();
                    assert(*id == keys[i]);
                    let is_host = self.admits(Audience::Hosts, *id);
                    any = any || is_host;
                }
                proof {
                    if any {
                        let j = choose|j: int|
                            0 <= j < keys.len() && #[trigger] admitted(Audience::Hosts, self@.sessions, keys[j]);
                        assert(keys.to_set().contains(keys[j]));
                        assert(room.clients@.contains(keys[j]));
                        assert(self@.rooms[*room_code].clients.contains(keys[j]));
                        assert(host_present_spec(self@, *room_code));
                    } else if host_present_spec(self@, *room_code) {
                        // a host among the members would have been seen by the loop
                        let c = choose|c: ClientId|
                            #[trigger] self@.rooms[*room_code].clients.contains(c) && self@.sessions.contains_key(c)
                                && self@.sessions[c];
                        assert(keys.to_set().contains(c));
                        let j = choose|j: int| 0 <= j < keys.len() && keys[j] == c;
                        assert(admitted(Audience::Hosts, self@.sessions, keys[j]));
                        assert(false);
                    }
                }
                any
            },
        }
    }

    /// Sends `message` to every member of room `room_code`.
    pub fn broadcast(&self, message: ClientMessage, room_code: u32) -> (outs: Vec<Outgoing>)
        ensures
            broadcast_spec(outs@, self@, room_code, Audience::Everyone, message),
    {
        self.broadcast_filter(&message, room_code, Audience::Everyone)
    }

    /// Sends `message` to every member of room `room_code` but `our_id`.
    pub fn broadcast_others(&self, message: ClientMessage, room_code: u32, our_id: ClientId) -> (outs: Vec<Outgoing>)
        ensures
            broadcast_spec(outs@, self@, room_code, Audience::AllBut(our_id), message),
    {
        self.broadcast_filter(&message, room_code, Audience::AllBut(our_id))
    }

    /// Sends `message` to the members of room `room_code` that are hosts.
    fn broadcast_host(&self, message: ClientMessage, room_code: u32) -> (outs: Vec<Outgoing>)
        ensures
            broadcast_spec(outs@, self@, room_code, Audience::Hosts, message),
    {
        self.broadcast_filter(&message, room_code, Audience::Hosts)
    }

    /// Sends `message` to the members of room `room_code` that are players.
    fn broadcast_players(&self, message: ClientMessage, room_code: u32) -> (outs: Vec<Outgoing>)
        ensures
            broadcast_spec(outs@, self@, room_code, Audience::Players, message),
    {
        self.broadcast_filter(&message, room_code, Audience::Players)
    }

    /// Registers a connecting client, with `replacement` as the identifier it
    /// gets if its own is already taken. Returns the identifier it was
    /// registered under and the messages to send.
    pub fn connect_as(&mut self, msg: Connect, replacement: ClientId) -> (res: (ClientId, Vec<Outgoing>))
        ensures
            res.0 == assigned_id(old(self)@, msg.client_id, replacement),
            final(self)@ == after_connect(old(self)@, msg.room_code, msg.client_id, msg.is_host, replacement),
            connect_outs(res.1@, old(self)@, msg, replacement),
    {
        let ghost v = self@;
        let mut outs: Vec<Outgoing> = Vec::new();
        let mut client_id = msg.client_id;
        if self.sessions.contains_key(&client_id) {
            client_id = replacement;
            outs.push(Outgoing::Reply { message: ClientMessage::Kicked });
        }
        let ghost taken_len = outs@.len();
        if msg.is_host {
            if self.host_present(&msg.room_code) {
                outs.push(Outgoing::Reply { message: ClientMessage::Kicked });
            }
            let mut room = match self.rooms.remove(&msg.room_code) {
                Some(room) => room,
                None => Room { clients: HashSet::new(), round: 0 },
            };
            room.clients.insert(client_id);
            self.rooms.insert(msg.room_code, room);
            assert(self@.rooms =~= rooms_after_connect(v, msg.room_code, true, client_id));
        } else {
            let present = self.host_present(&msg.room_code);
            match self.rooms.remove(&msg.room_code) {
                Some(room) => {
                    let mut room = room;
                    if present {
                        room.clients.insert(client_id);
                    }
                    self.rooms.insert(msg.room_code, room);
                },
                None => {
                    outs.push(Outgoing::Reply { message: ClientMessage::CodeNotFound });
                },
            }
            assert(self@.rooms =~= rooms_after_connect(v, msg.room_code, false, client_id));
            let ghost replies = outs@;
            let mut added = self.broadcast_others(
                ClientMessage::AddUser { client_name: msg.client_name, client_id },
                msg.room_code,
                client_id,
            );
            let ghost added_seq = added@;
            outs.append(&mut added);
            assert(outs@.skip(replies.len() as int) =~= added_seq);
            assert(outs@.take(replies.len() as int) =~= replies);
        }
        assert(outs@.take(connect_replies(v, msg.room_code, msg.client_id, msg.is_host).len() as int)
            =~= connect_replies(v, msg.room_code, msg.client_id, msg.is_host));
        self.sessions.insert(client_id, msg.is_host);
        assert(self@ =~= after_connect(v, msg.room_code, msg.client_id, msg.is_host, replacement));
        (client_id, outs)
    }


    /// Registers a connecting client. If its identifier is taken, it is
    /// registered under a fresh random one instead. Returns the identifier it
    /// was registered under and the messages to send.
    pub fn handle_connect(&mut self, msg: Connect) -> (res: (ClientId, Vec<Outgoing>))
        ensures
            old(self)@.sessions.contains_key(msg.client_id) ==> is_random_v4(res.0),
            !old(self)@.sessions.contains_key(msg.client_id) ==> res.0 == msg.client_id,
            final(self)@ == after_connect(old(self)@, msg.room_code, msg.client_id, msg.is_host, res.0),
            connect_outs(res.1@, old(self)@, msg, res.0),
    {
        let replacement = if self.sessions.contains_key(&msg.client_id) {
            random_v4_id()
        } else {
            msg.client_id
        };
        self.connect_as(msg, replacement)
    }

    /// Ends the session of a client that went away; returns the messages to send.
    pub fn handle_disconnect(&mut self, msg: Disconnect) -> (outs: Vec<Outgoing>)
        ensures
            final(self)@ == after_disconnect(old(self)@, msg.room_code, msg.client_id),
            disconnect_outs(outs@, old(self)@, msg.room_code, msg.client_id),
    {
        let ghost v = self@;
        let mut outs: Vec<Outgoing> = Vec::new();
        if let Some(is_host) = self.sessions.remove(&msg.client_id) {
            outs = self.broadcast_others(
                ClientMessage::RemoveUser { client_id: msg.client_id },
                msg.room_code,
                msg.client_id,
            );
            let ghost removed = outs@;
            let ghost k = outs@.len() as int;
            if is_host {
                let mut kicked = self.broadcast_others(ClientMessage::Kicked, msg.room_code, msg.client_id);
                let ghost kicked_seq = kicked@;
                outs.append(&mut kicked);
                assert(outs@.skip(k) =~= kicked_seq);
                if let Some(room) = self.rooms.remove(&msg.room_code) {
                    let mut room = room;
                    room.clients.clear();
                    self.rooms.insert(msg.room_code, room);
                }
            } else if let Some(room) = self.rooms.remove(&msg.room_code) {
                let mut room = room;
                room.clients.remove(&msg.client_id);
                self.rooms.insert(msg.room_code, room);
            }
            assert(self@.rooms =~= after_disconnect(v, msg.room_code, msg.client_id).rooms);
            assert(outs@.take(k) =~= removed);
            assert(self@.sessions =~= after_disconnect(v, msg.room_code, msg.client_id).sessions);
            assert(self@ =~= after_disconnect(v, msg.room_code, msg.client_id));
        }
        outs
    }

    /// Handles a message that a client sent to the lobby; returns the messages to send.
    pub fn handle_message(&mut self, msg: LobbyMessage) -> (outs: Vec<Outgoing>)
        requires
            round_fits(old(self)@, msg),
        ensures
            final(self)@ == after_message(old(self)@, msg),
            message_outs(outs@, old(self)@, msg),
    {
        let ghost v = self@;
        match msg.msg {
            ServerMessage::LockBuzzers => self.broadcast_players(ClientMessage::LockBuzzer, msg.room_code),
            ServerMessage::Kick { uuid } => {
                let sender_is_host = match self.sessions.get(&msg.client_id) {
                    Some(is_host) => *is_host,
                    None => false,
                };
                let mut outs: Vec<Outgoing> = Vec::new();
                if sender_is_host {
                    outs.push(self.send_message(ClientMessage::Kicked, uuid));
                }
                outs
            },
            ServerMessage::StartTimer { start } => {
                match self.rooms.remove(&msg.room_code) {
                    Some(room) => {
                        let mut room = room;
                        room.round = room.round + 1;
                        let round = room.round;
                        self.rooms.insert(msg.room_code, room);
                        assert(self@.rooms =~= after_message(v, msg).rooms);
                        assert(self@ =~= after_message(v, msg));
                        self.broadcast_players(ClientMessage::StartTimer { start, round }, msg.room_code)
                    },
                    None => Vec::new(),
                }
            },
            ServerMessage::PauseTimer { at } => self.broadcast_players(ClientMessage::PauseTimer { at }, msg.room_code),
            ServerMessage::BuzzCompleted { at, response } => {
                match self.rooms.get(&msg.room_code) {
                    Some(room) => {
                        if response != room.round {
                            return Vec::new();
                        }
                        self.broadcast_host(ClientMessage::BuzzCompleted { at }, msg.room_code)
                    },
                    None => Vec::new(),
                }
            },
        }
    }

}

} // verus!
