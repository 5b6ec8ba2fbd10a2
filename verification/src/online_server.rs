//! The online server: which sessions are connected, which rooms they are in,
//! which game rooms exist, and who receives each message.
use vstd::prelude::*;
use std::collections::HashSet;
use crate::proto::{game_ready_json, SendParcel};
use crate::random::{random_u32, Draw};

verus! {

broadcast use vstd::std_specs::hash::group_hash_axioms;

/// A text the server sends to one session.
pub struct Message(pub String);

/// Session `id` is gone.
pub struct Disconnect {
    pub id: usize,
}

/// Send `msg` to everyone in `room` but session `id`.
pub struct ClientMessage {
    /// Id of the client session
    pub id: usize,
    /// Peer message
    pub msg: String,
    /// Room name
    pub room: String,
}

/// Session `id` asks how many players are in `room`.
pub struct RoomMessage {
    pub id: usize,
    pub room: String,
}

/// Send `msg` to session `id` alone.
pub struct SingleMessage {
    pub id: usize,
    pub msg: String,
}

/// Queue a frame of controller input in game room `room`.
pub struct AddKeyBuffer {
    pub room: String,
    pub buffer: Vec<u8>,
}

/// Start the game loop of the named game room.
pub struct GameStart(pub String);

/// Stop the game loop of the named game room.
pub struct GameStop(pub String);

/// The name of the room every session joins on connecting.
pub open spec fn main_room() -> Seq<char> {
    "Main"@
}

/// The sessions in one room.
struct RoomSessions {
    name: String,
    members: HashSet<usize>,
}

/// The server's state as a mathematical value.
pub struct ServerView {
    /// Room name to the ids of the sessions in it.
    pub rooms: Map<Seq<char>, Set<usize>>,
    /// The ids of the connected sessions.
    pub sessions: Set<usize>,
    /// The names of the game rooms that have been created.
    pub game_rooms: Set<Seq<char>>,
}

/// Room name to members, the later of two entries with one name winning.
spec fn rooms_map(entries: Seq<RoomSessions>) -> Map<Seq<char>, Set<usize>>
    decreases entries.len(),
{
    if entries.len() == 0 {
        Map::empty()
    } else {
        rooms_map(entries.drop_last()).insert(entries.last().name@, entries.last().members@)
    }
}

pub struct OnLineServer {
    rooms: Vec<RoomSessions>,
    sessions: HashSet<usize>,
    game_rooms: Vec<String>,
}

impl View for OnLineServer {
    type V = ServerView;

    closed spec fn view(&self) -> ServerView {
        ServerView {
            rooms: rooms_map(self.rooms@),
            sessions: self.sessions@,
            game_rooms: self.game_rooms@.map_values(|s: String| s@).to_set(),
        }
    }
}

/// What holds of the server in every state it can reach: the only room is
/// the main room, its members are exactly the connected sessions, and while
/// any session is connected the main game room exists.
pub open spec fn server_inv(v: ServerView) -> bool {
    &&& v.rooms == map![main_room() => v.sessions]
    &&& !v.sessions.is_empty() ==> v.game_rooms.contains(main_room())
    &&& v.sessions.finite()
    &&& v.game_rooms.finite()
}

/// The server as it starts: an empty main room, no sessions, no game room.
pub open spec fn initial_server() -> ServerView {
    ServerView {
        rooms: map![main_room() => Set::empty()],
        sessions: Set::empty(),
        game_rooms: Set::empty(),
    }
}

/// The server after session `id` has connected: it is a session, it is in
/// the main room, and the main game room exists.
pub open spec fn connect_spec(v: ServerView, id: usize) -> ServerView {
    let main = if v.rooms.contains_key(main_room()) {
        v.rooms[main_room()]
    } else {
        Set::empty()
    };
    ServerView {
        rooms: v.rooms.insert(main_room(), main.insert(id)),
        sessions: v.sessions.insert(id),
        game_rooms: v.game_rooms.insert(main_room()),
    }
}

/// The server after session `id` has disconnected: if it was connected, it
/// leaves the sessions and every room; otherwise nothing changes.
pub open spec fn disconnect_spec(v: ServerView, id: usize) -> ServerView {
    if v.sessions.contains(id) {
        ServerView {
            rooms: Map::new(|k: Seq<char>| v.rooms.contains_key(k), |k: Seq<char>| v.rooms[k].remove(id)),
            sessions: v.sessions.remove(id),
            game_rooms: v.game_rooms,
        }
    } else {
        v
    }
}

/// Who gets a message sent to `room` on behalf of `skip`: the room's members
/// that are connected, except `skip`. An unknown room reaches no one.
pub open spec fn recipients_spec(v: ServerView, room: Seq<char>, skip: usize) -> Set<usize> {
    if v.rooms.contains_key(room) {
        v.rooms[room].filter(|x: usize| x != skip && v.sessions.contains(x))
    } else {
        Set::empty()
    }
}

/// The answer session `id` gets to a `RoomMessage` about `room`: the
/// `GameReady` parcel with the room's player count in one byte, if the room
/// exists and the session is connected.
pub open spec fn room_reply(v: ServerView, id: usize, room: Seq<char>) -> Option<Seq<char>> {
    if v.rooms.contains_key(room) && v.sessions.contains(id) {
        Some(game_ready_json((v.rooms[room].len() % 256) as u8))
    } else {
        None
    }
}

/// The text sent to the rest of a room when one of its sessions leaves.
pub open spec fn disconnect_notice() -> Seq<char> {
    "Someone disconnect"@
}

/// `id` is the least id from 1 up that no connected session has. The search
/// starts at 1 because 0 is the sender id of room-wide messages, which a
/// session with id 0 would not receive.
pub open spec fn is_least_free_id(sessions: Set<usize>, id: usize) -> bool {
    &&& id >= 1
    &&& !sessions.contains(id)
    &&& forall|j: usize| 1 <= j < id ==> sessions.contains(j)
}

/// The id a new session gets from a random draw: the drawn number if no
/// connected session has it, otherwise (also when the draw failed) the least
/// free id.
pub open spec fn id_from_draw(sessions: Set<usize>, draw: Option<u32>, id: usize) -> bool {
    if draw matches Some(x) && !sessions.contains(x as usize) {
        id == draw->0 as usize
    } else {
        is_least_free_id(sessions, id)
    }
}

/// A new session's id is the number drawn whenever no session has it;
/// otherwise it is the least free id from 1 up. Either way no session has it
/// yet, and it is 0 only when 0 was drawn.
pub proof fn lemma_id_from_draw(sessions: Set<usize>, draw: Option<u32>, id: usize)
    requires
        id_from_draw(sessions, draw, id),
    ensures
        !sessions.contains(id),
        draw is Some && !sessions.contains(draw->0 as usize) ==> id == draw->0 as usize,
        !(draw is Some && !sessions.contains(draw->0 as usize)) ==> id >= 1 && forall|j: usize|
            1 <= j < id ==> sessions.contains(j),
        id == 0 ==> draw == Some(0u32),
{
}

/// The ids `1..=n`.
pub open spec fn ids_up_to(n: usize) -> Set<usize> {
    Set::new(|j: usize| 1 <= j <= n)
}

/// There are `n` ids in `1..=n`.
pub proof fn lemma_ids_up_to_len(n: usize)
    ensures
        ids_up_to(n).finite(),
        ids_up_to(n).len() == n,
    decreases n,
{
    if n == 0 {
        assert(ids_up_to(n) =~= Set::empty());
    } else {
        let m = (n - 1) as usize;
        lemma_ids_up_to_len(m);
        assert(ids_up_to(n) =~= ids_up_to(m).insert(n));
    }
}

/// What the server does on a connection.
pub struct Connected {
    /// The new session's id.
    pub id: usize,
    /// Whether the main game room has to be created now.
    pub start_main_room: bool,
    /// The random draw the id came from.
    pub draw: Draw,
}

/// What the server does on a disconnection.
pub struct Disconnected {
    /// The text to send to each of `notify`.
    pub notice: String,
    /// The sessions to tell, once for each room they shared with the one that left.
    pub notify: Vec<usize>,
    /// The game rooms to stop, because no session is left.
    pub stop_rooms: Vec<String>,
}

impl OnLineServer {
    /// The representation invariant: one room entry, the main room, holding
    /// exactly the sessions; game room names are distinct.
    pub closed spec fn wf(&self) -> bool {
        &&& self.rooms.len() == 1
        &&& self.rooms[0].name@ == main_room()
        &&& self.rooms[0].members@ == self.sessions@
        &&& self.sessions@.finite()
        &&& !self.sessions@.is_empty() ==> self@.game_rooms.contains(main_room())
        &&& forall|i: int, j: int|
            0 <= i < self.game_rooms.len() && 0 <= j < self.game_rooms.len() && i != j
                ==> self.game_rooms[i]@ != self.game_rooms[j]@
    }

    /// A well-formed server satisfies the server invariant.
    pub proof fn lemma_wf_inv(&self)
        requires
            self.wf(),
        ensures
            server_inv(self@),
    {
        let entries = self.rooms@;
        assert(entries.drop_last().len() == 0);
        assert(rooms_map(entries.drop_last()) =~= Map::empty());
        assert(self@.rooms =~= map![main_room() => self@.sessions]);
        self.lemma_game_rooms_finite();
    }

    proof fn lemma_game_rooms_finite(&self)
        ensures
            self@.game_rooms.finite(),
    {
        let names = self.game_rooms@.map_values(|s: String| s@);
        names.lemma_cardinality_of_set();
    }

    /// The index of the room entry named `name`, if any.
    fn find_room(&self, name: &String) -> (r: Option<usize>)
        ensures
            match r {
                Some(i) => i < self.rooms.len() && self.rooms[i as int].name@ == name@,
                None => forall|i: int| 0 <= i < self.rooms.len() ==> self.rooms[i].name@ != name@,
            },
    {
        let mut i: usize = 0;
        while i < self.rooms.len()
            invariant
                i <= self.rooms.len(),
                forall|j: int| 0 <= j < i ==> self.rooms[j].name@ != name@,
            decreases self.rooms.len() - i,
        {
            if self.rooms[i].name == *name {
                return Some(i);
            }
            i += 1;
        }
        None
    }

    /// Whether a game room named `name` exists.
    pub fn has_game_room(&self, name: &String) -> (b: bool)
        ensures
            b == self@.game_rooms.contains(name@),
    {
        let mut i: usize = 0;
        while i < self.game_rooms.len()
            invariant
                i <= self.game_rooms.len(),
                forall|j: int| 0 <= j < i ==> self.game_rooms[j]@ != name@,
            decreases self.game_rooms.len() - i,
        {
            if self.game_rooms[i] == *name {
                proof {
                    let names = self.game_rooms@.map_values(|s: String| s@);
                    assert(names[i as int] == name@);
                }
                return true;
            }
            i += 1;
        }
        proof {
            let names = self.game_rooms@.map_values(|s: String| s@);
            if names.to_set().contains(name@) {
                let k = choose|k: int| 0 <= k < names.len() && names[k] == name@;
                assert(self.game_rooms[k]@ == name@);
            }
        }
        false
    }

    /// Registers session `id`: it becomes a session and joins the main room,
    /// and the main game room is created if it does not exist yet. Returns
    /// whether it had to be created.
    pub fn connect_with_id(&mut self, id: usize) -> (start_main_room: bool)
        requires
            old(self).wf(),
        ensures
            final(self).wf(),
            server_inv(final(self)@),
            final(self)@ == connect_spec(old(self)@, id),
            start_main_room == !old(self)@.game_rooms.contains(main_room()),
    {
        proof {
            old(self).lemma_wf_inv();
        }
        self.sessions.insert(id);
        let main = "Main".to_owned();
        match self.find_room(&main) {
            Some(i) => {
                self.rooms[i].members.insert(id);
            },
            None => {
                let mut members: HashSet<usize> = HashSet::new();
                members.insert(id);
                self.rooms.push(RoomSessions { name: main.clone(), members });
            },
        }
        let start_main_room = !self.has_game_room(&main);
        if start_main_room {
            self.game_rooms.push(main);
        }
        proof {
            let entries = self.rooms@;
            assert(entries.len() == 1);
            assert(entries.drop_last().len() == 0);
            assert(rooms_map(entries.drop_last()) =~= Map::empty());
            assert(self@.rooms =~= connect_spec(old(self)@, id).rooms);
            let old_names = old(self).game_rooms@.map_values(|s: String| s@);
            let names = self.game_rooms@.map_values(|s: String| s@);
            if start_main_room {
                assert(names =~= old_names.push(main_room()));
                old_names.lemma_push_to_set_commute(main_room());
                assert forall|j: int| 0 <= j < old(self).game_rooms.len() implies
                    old(self).game_rooms[j]@ != main_room() by {
                    if old(self).game_rooms[j]@ == main_room() {
                        assert(old_names[j] == main_room());
                        assert(old_names.to_set().contains(main_room()));
                    }
                }
            } else {
                assert(names =~= old_names);
                assert(old_names.to_set().contains(main_room()));
                assert(names.to_set() =~= old_names.to_set().insert(main_room()));
            }
        }
        start_main_room
    }

    /// The connected members of `room` other than `skip_id`, each once, in
    /// the order the room's set yields them.
    pub fn recipients(&self, room: &String, skip_id: usize) -> (ids: Vec<usize>)
        requires
            self.wf(),
        ensures
            ids@.no_duplicates(),
            ids@.to_set() == recipients_spec(self@, room@, skip_id),
    {
        proof {
            self.lemma_wf_inv();
        }
        let mut ids: Vec<usize> = Vec::new();
        match self.find_room(room) {
            None => {
                proof {
                    assert(ids@.to_set() =~= Set::empty());
                }
                ids
            },
            Some(i) => {
                let members = &self.rooms[i].members;
                let ghost mut seen: Seq<usize> = Seq::empty();
                for id in it: members.iter()
                    invariant
                        ids@.no_duplicates(),
                        it.seq().unref().no_duplicates(),
                        it.seq().unref().to_set() == members@,
                        seen == it.seq().unref().take(it.index()),
                        it.index() == it.seq().len() ==> seen == it.seq().unref(),
                        forall|x: usize|
                            ids@.contains(x) <==> (x != skip_id && self.sessions@.contains(x)
                                && seen.contains(x)),
                {
                    let ghost ids_before = ids@;
                    let ghost seen_before = seen;
                    assert(forall|x: usize| ids_before.contains(x) ==> seen_before.contains(x));
                    proof {
                        assert(it.seq().unref().take(it.index() + 1) =~= seen.push(*id));
                        assert(!seen.contains(*id)) by {
                            if seen.contains(*id) {
                                let k = choose|k: int| 0 <= k < seen.len() && seen[k] == *id;
                                assert(it.seq().unref()[k] == it.seq().unref()[it.index()]);
                            }
                        }
                    }
                    if *id != skip_id && self.sessions.contains(id) {
                        ids.push(*id);
                    }
                    proof {
                        seen = seen.push(*id);
                    }
                    assert(it.index() + 1 == it.seq().len() ==> seen =~= it.seq().unref());
                    assert forall|x: usize| #[trigger] ids@.contains(x) implies
                        (x != skip_id && self.sessions@.contains(x) && seen.contains(x)) by {
                        if x != *id {
                            let k = choose|k: int| 0 <= k < ids@.len() && ids@[k] == x;
                            assert(ids_before[k] == x);
                            assert(ids_before.contains(x));
                            let k2 = choose|k2: int| 0 <= k2 < seen_before.len() && seen_before[k2] == x;
                            assert(seen[k2] == x);
                        } else {
                            assert(seen[seen.len() - 1] == *id);
                        }
                    }
                    assert forall|x: usize|
                        (x != skip_id && self.sessions@.contains(x) && #[trigger] seen.contains(x)) implies ids@.contains(x) by {
                        if x != *id {
                            let k = choose|k: int| 0 <= k < seen.len() && seen[k] == x;
                            assert(seen_before[k] == x);
                            assert(seen_before.contains(x));
                            let k2 = choose|k2: int| 0 <= k2 < ids_before.len() && ids_before[k2] == x;
                            assert(ids@[k2] == x);
                        } else {
                            assert(ids@[ids@.len() - 1] == *id);
                        }
                    }
                }
                proof {
                    assert(ids@.to_set() =~= recipients_spec(self@, room@, skip_id));
                }
                ids
            },
        }
    }

    /// `ClientMessage`: the sessions to pass `msg.msg` on to, i.e. everyone
    /// connected in `msg.room` but the sender.
    pub fn client_message(&self, msg: &ClientMessage) -> (ids: Vec<usize>)
        requires
            self.wf(),
        ensures
            ids@.no_duplicates(),
            ids@.to_set() == recipients_spec(self@, msg.room@, msg.id),
    {
        self.recipients(&msg.room, msg.id)
    }

    /// `RoomMessage`: the `GameReady` parcel with the number of players in
    /// `msg.room` (modulo 256, as it is sent in one byte), for session
    /// `msg.id`; nothing when the room is unknown or the session is gone.
    pub fn room_message(&self, msg: &RoomMessage) -> (reply: Option<String>)
        requires
            self.wf(),
        ensures
            match reply {
                Some(text) => room_reply(self@, msg.id, msg.room@) == Some(text@),
                None => room_reply(self@, msg.id, msg.room@) is None,
            },
    {
        proof {
            self.lemma_wf_inv();
        }
        match self.find_room(&msg.room) {
            None => None,
            Some(i) => {
                let players: usize = self.rooms[i].members.len();
                let count: u8 = (players % 256) as u8;
                let text = SendParcel::GameReady(count).to_json();
                if self.sessions.contains(&msg.id) {
                    Some(text)
                } else {
                    None
                }
            },
        }
    }

    /// `SingleMessage`: whether `msg.msg` reaches session `msg.id`, i.e.
    /// whether that session is connected.
    pub fn single_message(&self, msg: &SingleMessage) -> (deliver: bool)
        requires
            self.wf(),
        ensures
            deliver == self@.sessions.contains(msg.id),
    {
        self.sessions.contains(&msg.id)
    }

    /// `AddKeyBuffer`: whether the frame goes on to the named game room, i.e.
    /// whether that room exists.
    pub fn add_key_buffer(&self, msg: &AddKeyBuffer) -> (forward: bool)
        ensures
            forward == self@.game_rooms.contains(msg.room@),
    {
        self.has_game_room(&msg.room)
    }

    /// `GameStart`: whether the named game room exists and is told to start.
    pub fn game_start(&self, msg: &GameStart) -> (forward: bool)
        ensures
            forward == self@.game_rooms.contains(msg.0@),
    {
        self.has_game_room(&msg.0)
    }

    /// `GameStop`: whether the named game room exists and is told to stop.
    pub fn game_stop(&self, msg: &GameStop) -> (forward: bool)
        ensures
            forward == self@.game_rooms.contains(msg.0@),
    {
        self.has_game_room(&msg.0)
    }

    /// Session `msg.id` is gone: if it was connected it leaves the sessions
    /// and every room it was in, and the rest of each such room is told.
    /// Once no session is left, every game room is told to stop.
    pub fn disconnect(&mut self, msg: &Disconnect) -> (out: Disconnected)
        requires
            old(self).wf(),
        ensures
            final(self).wf(),
            server_inv(final(self)@),
            final(self)@ == disconnect_spec(old(self)@, msg.id),
            out.notice@ == disconnect_notice(),
            out.notify@.no_duplicates(),
            out.notify@.to_set() == (if old(self)@.sessions.contains(msg.id) {
                final(self)@.sessions.remove(0)
            } else {
                Set::empty()
            }),
            out.stop_rooms@.map_values(|s: String| s@).no_duplicates(),
            out.stop_rooms@.map_values(|s: String| s@).to_set() == (if final(self)@.sessions.is_empty() {
                old(self)@.game_rooms
            } else {
                Set::empty()
            }),
    {
        proof {
            old(self).lemma_wf_inv();
        }
        let id: usize = msg.id;
        let mut affected: Vec<String> = Vec::new();
        let was_connected = self.sessions.remove(&id);
        if was_connected {
            let mut i: usize = 0;
            while i < self.rooms.len()
                invariant
                    old(self).wf(),
                    self.rooms.len() == 1,
                    self.rooms[0].name@ == main_room(),
                    i <= 1,
                    i == 0 ==> self.rooms[0].members@ == old(self).sessions@,
                    i == 1 ==> self.rooms[0].members@ == old(self).sessions@.remove(id),
                    old(self).sessions@.contains(id),
                    self.sessions@ == old(self).sessions@.remove(id),
                    self.game_rooms@ == old(self).game_rooms@,
                    affected@.len() == i,
                    forall|k: int| 0 <= k < affected@.len() ==> affected@[k]@ == main_room(),
                decreases self.rooms.len() - i,
            {
                if self.rooms[i].members.remove(&id) {
                    affected.push(self.rooms[i].name.clone());
                }
                i += 1;
            }
        }
        proof {
            let entries = self.rooms@;
            assert(entries.drop_last().len() == 0);
            assert(rooms_map(entries.drop_last()) =~= Map::empty());
            if !was_connected {
                assert(old(self).sessions@.remove(id) =~= old(self).sessions@);
            }
            assert(self@.rooms =~= disconnect_spec(old(self)@, id).rooms);
        }
        let mut notify: Vec<usize> = Vec::new();
        let mut j: usize = 0;
        while j < affected.len()
            invariant
                self.wf(),
                affected@.len() <= 1,
                j <= affected@.len(),
                forall|k: int| 0 <= k < affected@.len() ==> affected@[k]@ == main_room(),
                notify@.no_duplicates(),
                j == 0 ==> notify@.len() == 0,
                notify@.to_set() == (if j == 0 {
                    Set::empty()
                } else {
                    recipients_spec(self@, main_room(), 0)
                }),
            decreases affected@.len() - j,
        {
            let mut reached = self.recipients(&affected[j], 0);
            let ghost reached_ids = reached@;
            notify.append(&mut reached);
            proof {
                assert(notify@ =~= reached_ids);
            }
            j += 1;
        }
        proof {
            self.lemma_wf_inv();
            assert(notify@.to_set() =~= (if old(self)@.sessions.contains(id) {
                self@.sessions.remove(0)
            } else {
                Set::empty()
            }));
        }
        let stop_rooms = if self.sessions.len() == 0 {
            self.game_rooms.clone()
        } else {
            Vec::new()
        };
        proof {
            let names = self.game_rooms@.map_values(|s: String| s@);
            let stops = stop_rooms@.map_values(|s: String| s@);
            if self@.sessions.is_empty() {
                assert(stop_rooms@ =~= self.game_rooms@);
                assert(stops =~= names);
                assert forall|a: int, b: int| 0 <= a < stops.len() && 0 <= b < stops.len() && a != b implies stops[a] != stops[b] by {
                    assert(stops[a] == self.game_rooms[a]@);
                    assert(stops[b] == self.game_rooms[b]@);
                }
            } else {
                assert(stops.to_set() =~= Set::empty());
            }
        }
        Disconnected { notice: "Someone disconnect".to_owned(), notify, stop_rooms }
    }

    /// Whether session `id` is connected.
    pub fn is_session(&self, id: usize) -> (b: bool)
        ensures
            b == self@.sessions.contains(id),
    {
        self.sessions.contains(&id)
    }

    /// The number of connected sessions.
    pub fn session_count(&self) -> (n: usize)
        ensures
            n == self@.sessions.len(),
    {
        self.sessions.len()
    }

    /// Whether session `id` is in the room named `room`.
    pub fn is_room_member(&self, room: &String, id: usize) -> (b: bool)
        requires
            self.wf(),
        ensures
            b == (self@.rooms.contains_key(room@) && self@.rooms[room@].contains(id)),
    {
        proof {
            self.lemma_wf_inv();
        }
        match self.find_room(room) {
            Some(i) => self.rooms[i].members.contains(&id),
            None => false,
        }
    }

    /// The least id from 1 up that no connected session has. There is one
    /// among `1..=n` for `n` sessions.
    fn least_free_id(&self) -> (id: usize)
        requires
            self.wf(),
            self@.sessions.len() < usize::MAX,
        ensures
            is_least_free_id(self@.sessions, id),
            id <= self@.sessions.len() + 1,
    {
        let mut i: usize = 1;
        while self.sessions.contains(&i)
            invariant
                self.wf(),
                self@.sessions.len() < usize::MAX,
                1 <= i <= self@.sessions.len() + 1,
                forall|j: usize| 1 <= j < i ==> self@.sessions.contains(j),
            decreases self@.sessions.len() + 1 - i,
        {
            proof {
                lemma_ids_up_to_len(i);
                assert(ids_up_to(i).subset_of(self@.sessions));
                vstd::set_lib::lemma_len_subset(ids_up_to(i), self@.sessions);
            }
            i = i + 1;
        }
        i
    }

    /// The id a new session gets from a random draw (`None` when drawing
    /// failed): the drawn number if no connected session has it, otherwise
    /// the least free id.
    pub fn choose_id(&self, draw: Option<u32>) -> (id: usize)
        requires
            self.wf(),
            self@.sessions.len() < usize::MAX,
        ensures
            id_from_draw(self@.sessions, draw, id),
            !self@.sessions.contains(id),
            draw is Some && !self@.sessions.contains(draw->0 as usize) ==> id == draw->0 as usize,
            !(draw is Some && !self@.sessions.contains(draw->0 as usize)) ==> id >= 1 && forall|j: usize|
                1 <= j < id ==> self@.sessions.contains(j),
    {
        match draw {
            Some(x) => {
                let candidate: usize = x as usize;
                if !self.sessions.contains(&candidate) {
                    candidate
                } else {
                    self.least_free_id()
                }
            },
            None => self.least_free_id(),
        }
    }

    /// A new session connects. It gets an id no connected session has: a
    /// random number when the draw gives a free one, otherwise the least free
    /// id from 1 up (see `choose_id`). The id is then
    /// registered as by `connect_with_id`. The set of sessions must be
    /// smaller than the address space, as any set in memory is.
    pub fn connect(&mut self) -> (c: Connected)
        requires
            old(self).wf(),
            old(self)@.sessions.len() < usize::MAX,
        ensures
            final(self).wf(),
            server_inv(final(self)@),
            !old(self)@.sessions.contains(c.id),
            id_from_draw(old(self)@.sessions, c.draw.value(), c.id),
            c.draw.value() is Some && !old(self)@.sessions.contains(c.draw.value()->0 as usize)
                ==> c.id == c.draw.value()->0 as usize,
            !(c.draw.value() is Some && !old(self)@.sessions.contains(c.draw.value()->0 as usize))
                ==> c.id >= 1,
            final(self)@ == connect_spec(old(self)@, c.id),
            c.start_main_room == !old(self)@.game_rooms.contains(main_room()),
    {
        let draw = random_u32();
        let id: usize = self.choose_id(draw.number());
        let start_main_room = self.connect_with_id(id);
        Connected { id, start_main_room, draw }
    }
}

impl Default for OnLineServer {
    fn default() -> (server: Self)
        ensures
            server.wf(),
            server_inv(server@),
            server@ == initial_server(),
    {
        let mut rooms: Vec<RoomSessions> = Vec::new();
        rooms.push(RoomSessions { name: "Main".to_owned(), members: HashSet::new() });
        let server = OnLineServer {
            rooms,
            sessions: HashSet::new(),
            game_rooms: Vec::new(),
        };
        proof {
            let entries = server.rooms@;
            assert(entries.drop_last().len() == 0);
            assert(rooms_map(entries.drop_last()) =~= Map::empty());
            assert(server@.rooms =~= initial_server().rooms);
            assert(server@.game_rooms =~= Set::empty());
        }
        server
    }
}

/// The server starts in a state that satisfies its invariant.
pub proof fn lemma_initial_inv()
    ensures
        server_inv(initial_server()),
{
}

/// Connecting keeps the invariant: the new session is in the main room.
pub proof fn lemma_connect_keeps_inv(v: ServerView, id: usize)
    requires
        server_inv(v),
    ensures
        server_inv(connect_spec(v, id)),
        connect_spec(v, id).sessions.contains(id),
        connect_spec(v, id).rooms[main_room()].contains(id),
{
    assert(connect_spec(v, id).rooms =~= map![main_room() => v.sessions.insert(id)]);
}

/// Disconnecting keeps the invariant, and the session is then neither
/// connected nor in any room.
pub proof fn lemma_disconnect_keeps_inv(v: ServerView, id: usize)
    requires
        server_inv(v),
    ensures
        server_inv(disconnect_spec(v, id)),
        !disconnect_spec(v, id).sessions.contains(id),
        forall|room: Seq<char>| #[trigger] disconnect_spec(v, id).rooms.contains_key(room)
            ==> !disconnect_spec(v, id).rooms[room].contains(id),
{
    if v.sessions.contains(id) {
        assert(disconnect_spec(v, id).rooms =~= map![main_room() => v.sessions.remove(id)]);
    }
}

/// Disconnecting a session that has just connected with a fresh id gives
/// back the sessions and rooms from before; the main game room stays.
pub proof fn lemma_connect_then_disconnect(v: ServerView, id: usize)
    requires
        server_inv(v),
        !v.sessions.contains(id),
    ensures
        disconnect_spec(connect_spec(v, id), id).sessions == v.sessions,
        disconnect_spec(connect_spec(v, id), id).rooms == v.rooms,
        disconnect_spec(connect_spec(v, id), id).game_rooms == v.game_rooms.insert(main_room()),
{
    let after = disconnect_spec(connect_spec(v, id), id);
    assert(after.sessions =~= v.sessions);
    assert(after.rooms =~= v.rooms) by {
        assert(v.sessions.insert(id).remove(id) =~= v.sessions);
    }
}

/// A message reaches only connected sessions, never its sender; in the main
/// room it reaches every connected session but the sender.
pub proof fn lemma_recipients(v: ServerView, room: Seq<char>, skip: usize)
    requires
        server_inv(v),
    ensures
        forall|x: usize| #[trigger] recipients_spec(v, room, skip).contains(x)
            ==> x != skip && v.sessions.contains(x),
        recipients_spec(v, main_room(), skip) == v.sessions.remove(skip),
{
    assert(recipients_spec(v, main_room(), skip) =~= v.sessions.remove(skip));
}

/// A connected session that asks about the main room is told how many
/// sessions are connected (in one byte); about any other room, nothing.
pub proof fn lemma_room_reply(v: ServerView, id: usize, room: Seq<char>)
    requires
        server_inv(v),
        v.sessions.contains(id),
    ensures
        room_reply(v, id, main_room()) == Some(game_ready_json((v.sessions.len() % 256) as u8)),
        room != main_room() ==> room_reply(v, id, room) is None,
{
}

} // verus!
