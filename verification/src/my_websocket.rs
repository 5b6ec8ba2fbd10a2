//! One client connection: its heartbeat rule, and what it does with each
//! websocket frame, in particular which request a JSON text becomes.
use vstd::prelude::*;
use crate::online_server::{ClientMessage, Disconnect, RoomMessage, SingleMessage};
use crate::proto::{game_start_json, game_status_json, keyboard_json, ControllerIns, SendParcel};

verus! {

/// How long a client may stay silent before it is dropped, in nanoseconds
/// (ten seconds).
pub const CLIENT_TIMEOUT_NANOS: u128 = 10_000_000_000;

/// Whether `serde_json::from_str::<serde_json::Value>` accepts `text`.
pub uninterp spec fn json_parses(text: Seq<char>) -> bool;

/// For a `text` that parses as JSON: `value[key].as_u64()` on the parsed
/// value, i.e. the member `key` of the top-level object when it is a
/// non-negative integer that fits in a `u64`, and `None` otherwise.
pub uninterp spec fn json_u64_member(text: Seq<char>, key: Seq<char>) -> Option<u64>;

/// For a `text` that parses as JSON: `value[key].to_string()`, the compact
/// JSON text of the member `key` of the top-level object (`null` when there
/// is none).
pub uninterp spec fn json_member_text(text: Seq<char>, key: Seq<char>) -> Seq<char>;

/// For a `text` that parses as JSON: `serde_json::from_value::<Vec<u8>>` on
/// `value[key]`, i.e. the member `key` when it is an array of integers that
/// each fit in a byte, and `None` otherwise.
pub uninterp spec fn json_byte_list_member(text: Seq<char>, key: Seq<char>) -> Option<Seq<u8>>;

/// What a client's JSON text holds that decides what is done with it.
pub struct Inbound {
    /// `mid`: the kind of message.
    pub mid: Option<u64>,
    /// `id`: the session the message is about.
    pub id: Option<u64>,
    /// `json_data`, as JSON text.
    pub json_data: String,
    /// `keys`: controller input.
    pub keys: Option<Vec<u8>>,
}

/// An `Inbound` as a mathematical value.
pub struct InboundView {
    pub mid: Option<u64>,
    pub id: Option<u64>,
    pub json_data: Seq<char>,
    pub keys: Option<Seq<u8>>,
}

impl View for Inbound {
    type V = InboundView;

    open spec fn view(&self) -> InboundView {
        InboundView {
            mid: self.mid,
            id: self.id,
            json_data: self.json_data@,
            keys: match self.keys {
                Some(k) => Some(k@),
                None => None,
            },
        }
    }
}

/// Whether `serde_json::from_str::<serde_json::Value>` accepts `text`.
#[verifier::external_body]
pub(crate) fn is_json(text: &str) -> (b: bool)
    ensures
        b == json_parses(text@),
{
    serde_json::from_str::<serde_json::Value>(text).is_ok()
}

/// Parses `text` with `serde_json::from_str::<serde_json::Value>` and reads
/// `value[key].as_u64()`. For a text that parses, the result is named after
/// the text and the key alone.
#[verifier::external_body]
pub(crate) fn json_u64_at(text: &str, key: &str) -> (r: Option<u64>)
    ensures
        json_parses(text@) ==> r == json_u64_member(text@, key@),
{
    match serde_json::from_str::<serde_json::Value>(text) {
        Ok(value) => value[key].as_u64(),
        Err(_) => None,
    }
}

/// Parses `text` with `serde_json::from_str::<serde_json::Value>` and writes
/// `value[key].to_string()`. For a text that parses, the result is named
/// after the text and the key alone.
#[verifier::external_body]
pub(crate) fn json_text_at(text: &str, key: &str) -> (r: String)
    ensures
        json_parses(text@) ==> r@ == json_member_text(text@, key@),
{
    match serde_json::from_str::<serde_json::Value>(text) {
        Ok(value) => value[key].to_string(),
        Err(_) => String::new(),
    }
}

/// Parses `text` with `serde_json::from_str::<serde_json::Value>` and reads
/// `value[key]` with `serde_json::from_value::<Vec<u8>>`. For a text that
/// parses, the result is named after the text and the key alone.
#[verifier::external_body]
pub(crate) fn json_bytes_at(text: &str, key: &str) -> (r: Option<Vec<u8>>)
    ensures
        json_parses(text@) ==> json_byte_list_member(text@, key@) == match r {
            Some(k) => Some(k@),
            None => None::<Seq<u8>>,
        },
{
    match serde_json::from_str::<serde_json::Value>(text) {
        Ok(value) => serde_json::from_value::<Vec<u8>>(value[key].clone()).ok(),
        Err(_) => None,
    }
}

/// A request from a session to the online server.
pub enum ServerRequest {
    Room(RoomMessage),
    Client(ClientMessage),
    Single(SingleMessage),
}

/// A frame from the client, or the failure to read one.
pub enum WsEvent {
    /// The stream reported a protocol error.
    Failed,
    Ping,
    Pong,
    Text(String),
    Binary,
    Close,
    Continuation,
    Nop,
}

/// What the session does with a frame.
pub enum WsAction {
    /// Stop the session.
    Stop,
    /// Note the client as alive and answer its ping with the same payload.
    Pong,
    /// Note the client as alive.
    Touch,
    /// Send this request to the online server.
    Forward(ServerRequest),
    /// A JSON text with no known `mid`: log it and go on.
    Unrecognized,
    /// Nothing to do.
    Ignore,
    /// Close the connection with the client's reason, and stop.
    CloseAndStop,
    /// A text the session cannot take: not JSON, a `mid` 5 without a numeric
    /// `id`, or a `mid` 10 without a byte list `keys`. The session fails on it.
    Malformed,
}

/// The state of a session as a mathematical value.
pub struct SessionView {
    pub id: usize,
    pub room: Seq<char>,
    pub name: Option<Seq<char>>,
}

/// One client connection.
pub struct MyWebSocket {
    /// unique session id
    id: usize,
    /// joined room
    room: String,
    /// peer name
    name: Option<String>,
}

impl View for MyWebSocket {
    type V = SessionView;

    closed spec fn view(&self) -> SessionView {
        SessionView {
            id: self.id,
            room: self.room@,
            name: match self.name {
                Some(n) => Some(n@),
                None => None,
            },
        }
    }
}

/// Whether the session can act on `inbound` without failing.
pub open spec fn inbound_ok(inbound: InboundView) -> bool {
    &&& inbound.mid == Some(5u64) ==> inbound.id is Some
    &&& inbound.mid == Some(10u64) ==> inbound.keys is Some
}

/// Whether `r` is the request that session `s` makes of `inbound`: `mid` 1
/// asks for the room's player count; 4 announces the game start to the whole
/// room; 5 sends the game status in `json_data` to session `id`; 6 announces
/// the game start to the room but the sender; 10 sends the `keys` to the room
/// but the sender, as one keyboard frame. Any other `mid` makes no request.
pub open spec fn routes_to(s: SessionView, inbound: InboundView, r: Option<ServerRequest>) -> bool {
    match inbound.mid {
        Some(1) => r matches Some(ServerRequest::Room(m)) && m.id == s.id && m.room@ == s.room,
        Some(4) => r matches Some(ServerRequest::Client(m)) && m.id == 0 && m.room@ == s.room
            && m.msg@ == game_start_json(s.id),
        Some(5) => r matches Some(ServerRequest::Single(m)) && inbound.id matches Some(raw)
            && m.id == raw as usize && m.msg@ == game_status_json(inbound.json_data),
        Some(6) => r matches Some(ServerRequest::Client(m)) && m.id == s.id && m.room@ == s.room
            && m.msg@ == game_start_json(s.id),
        Some(10) => r matches Some(ServerRequest::Client(m)) && inbound.keys matches Some(k)
            && m.id == s.id && m.room@ == s.room && m.msg@ == keyboard_json(seq![k]),
        _ => r is None,
    }
}

/// The room a request is for (`None` for a message to one session).
pub open spec fn request_room(q: ServerRequest) -> Option<Seq<char>> {
    match q {
        ServerRequest::Room(m) => Some(m.room@),
        ServerRequest::Client(m) => Some(m.room@),
        ServerRequest::Single(_) => None,
    }
}

/// The session id a request carries: the asker or sender for a room
/// request, the addressee for a message to one session.
pub open spec fn request_id(q: ServerRequest) -> usize {
    match q {
        ServerRequest::Room(m) => m.id,
        ServerRequest::Client(m) => m.id,
        ServerRequest::Single(m) => m.id,
    }
}

/// Every request a session makes for a room (`mid` 1, 4, 6, 10) names the
/// session's own room; it carries the session's own id, except the game start
/// of `mid` 4, which is sent as from no one (id 0) so that the whole room gets
/// it; `mid` 5 goes to the session named by `id`; any other `mid` makes no
/// request.
pub proof fn lemma_requests_name_own_room(s: SessionView, inbound: InboundView, r: Option<ServerRequest>)
    requires
        routes_to(s, inbound, r),
    ensures
        inbound.mid == Some(1u64) || inbound.mid == Some(4u64) || inbound.mid == Some(6u64)
            || inbound.mid == Some(10u64) ==> r is Some && request_room(r->0) == Some(s.room),
        inbound.mid == Some(1u64) || inbound.mid == Some(6u64) || inbound.mid == Some(10u64)
            ==> request_id(r->0) == s.id,
        inbound.mid == Some(4u64) ==> request_id(r->0) == 0,
        inbound.mid == Some(5u64) ==> r is Some && request_room(r->0) is None && inbound.id is Some
            && request_id(r->0) == inbound.id->0 as usize,
        !(inbound.mid == Some(1u64) || inbound.mid == Some(4u64) || inbound.mid == Some(5u64)
            || inbound.mid == Some(6u64) || inbound.mid == Some(10u64)) ==> r is None,
{
}

/// What a client text that parses as JSON holds: its members `mid`, `id`,
/// `json_data` and `keys`.
pub open spec fn text_inbound(text: Seq<char>) -> InboundView {
    InboundView {
        mid: json_u64_member(text, "mid"@),
        id: json_u64_member(text, "id"@),
        json_data: json_member_text(text, "json_data"@),
        keys: json_byte_list_member(text, "keys"@),
    }
}

/// Whether `a` is what session `s` does with the client text `text`: a text
/// that is not JSON, or lacks what its `mid` needs, is malformed; otherwise
/// the session forwards the request it routes to, or finds none.
pub open spec fn text_action(s: SessionView, text: Seq<char>, a: WsAction) -> bool {
    if !json_parses(text) || !inbound_ok(text_inbound(text)) {
        a is Malformed
    } else {
        match a {
            WsAction::Forward(r) => routes_to(s, text_inbound(text), Some(r)),
            WsAction::Unrecognized => routes_to(s, text_inbound(text), None),
            _ => false,
        }
    }
}

impl MyWebSocket {
    /// A fresh connection: id 0 until the server assigns one, in the main
    /// room, without a name.
    pub fn new() -> (ws: MyWebSocket)
        ensures
            ws@ == (SessionView { id: 0, room: "Main"@, name: None }),
    {
        MyWebSocket { id: 0, room: "Main".to_owned(), name: None }
    }

    /// The server's answer to the session's registration: the id it was
    /// given, or `None` when the server could not be reached. Returns whether
    /// the session goes on.
    pub fn on_connect_reply(&mut self, reply: Option<usize>) -> (go_on: bool)
        ensures
            go_on == reply is Some,
            final(self)@ == (match reply {
                Some(id) => SessionView { id, ..old(self)@ },
                None => old(self)@,
            }),
    {
        match reply {
            Some(id) => {
                self.id = id;
                true
            },
            None => false,
        }
    }

    /// The session's id.
    pub fn id(&self) -> (id: usize)
        ensures
            id == self@.id,
    {
        self.id
    }

    /// The room the session is in.
    pub fn room(&self) -> (room: String)
        ensures
            room@ == self@.room,
    {
        self.room.clone()
    }

    /// The message that tells the server this session is gone.
    pub fn disconnect_message(&self) -> (msg: Disconnect)
        ensures
            msg.id == self@.id,
    {
        Disconnect { id: self.id }
    }

    /// The heartbeat check, `elapsed_nanos` after the client was last heard
    /// from: past the timeout the session tells the server it is gone and
    /// stops (`Some`); otherwise it pings the client (`None`).
    pub fn heartbeat(&self, elapsed_nanos: u128) -> (timed_out: Option<Disconnect>)
        ensures
            timed_out is Some <==> elapsed_nanos > CLIENT_TIMEOUT_NANOS,
            timed_out matches Some(d) ==> d.id == self@.id,
    {
        if elapsed_nanos > CLIENT_TIMEOUT_NANOS {
            Some(Disconnect { id: self.id })
        } else {
            None
        }
    }

    /// The request this session makes of a client message, `None` for a
    /// `mid` it does not know.
    pub fn route(&self, inbound: &Inbound) -> (r: Option<ServerRequest>)
        requires
            inbound_ok(inbound@),
        ensures
            routes_to(self@, inbound@, r),
            inbound.mid == Some(1u64) || inbound.mid == Some(4u64) || inbound.mid == Some(6u64)
                || inbound.mid == Some(10u64) ==> r is Some && request_room(r->0) == Some(self@.room),
            inbound.mid == Some(1u64) || inbound.mid == Some(6u64) || inbound.mid == Some(10u64)
                ==> request_id(r->0) == self@.id,
            inbound.mid == Some(4u64) ==> request_id(r->0) == 0,
    {
        match inbound.mid {
            Some(1) => Some(ServerRequest::Room(RoomMessage { id: self.id, room: self.room.clone() })),
            Some(4) => Some(
                ServerRequest::Client(
                    ClientMessage {
                        id: 0,
                        room: self.room.clone(),
                        msg: SendParcel::GameStart(self.id).to_json(),
                    },
                ),
            ),
            Some(5) => {
                let raw: u64 = match inbound.id {
                    Some(raw) => raw,
                    None => 0,
                };
                let status = SendParcel::SendGameStatus(inbound.json_data.clone());
                Some(ServerRequest::Single(SingleMessage { id: raw as usize, msg: status.to_json() }))
            },
            Some(6) => Some(
                ServerRequest::Client(
                    ClientMessage {
                        id: self.id,
                        room: self.room.clone(),
                        msg: SendParcel::GameStart(self.id).to_json(),
                    },
                ),
            ),
            Some(10) => {
                let keys = match &inbound.keys {
                    Some(k) => k.clone(),
                    None => Vec::new(),
                };
                let ins = ControllerIns::new(10, keys);
                let ghost k = ins.key_list();
                let mut rows: Vec<Vec<u8>> = Vec::new();
                rows.push(ins.into_keys());
                proof {
                    assert(rows.deep_view() =~= seq![k]) by {
                        assert(rows[0].deep_view() =~= k);
                    }
                }
                let parcel = SendParcel::SendKeyboard(rows);
                Some(
                    ServerRequest::Client(
                        ClientMessage { id: self.id, room: self.room.clone(), msg: parcel.to_json() },
                    ),
                )
            },
            _ => None,
        }
    }

    /// What the session does with a client text. It reads the members its
    /// `mid` needs: `id` and `json_data` for 5, `keys` for 10.
    pub fn handle_text(&self, text: &str) -> (a: WsAction)
        ensures
            text_action(self@, text@, a),
    {
        if !is_json(text) {
            return WsAction::Malformed;
        }
        let mid = json_u64_at(text, "mid");
        let mut inbound = Inbound { mid, id: None, json_data: String::new(), keys: None };
        if mid == Some(5u64) {
            inbound.id = json_u64_at(text, "id");
            inbound.json_data = json_text_at(text, "json_data");
            if inbound.id.is_none() {
                return WsAction::Malformed;
            }
        } else if mid == Some(10u64) {
            inbound.keys = json_bytes_at(text, "keys");
            if inbound.keys.is_none() {
                return WsAction::Malformed;
            }
        }
        match self.route(&inbound) {
            Some(r) => WsAction::Forward(r),
            None => WsAction::Unrecognized,
        }
    }

    /// What the session does with a frame from the client.
    pub fn handle_event(&self, event: WsEvent) -> (a: WsAction)
        ensures
            match event {
                WsEvent::Failed => a is Stop,
                WsEvent::Ping => a is Pong,
                WsEvent::Pong => a is Touch,
                WsEvent::Text(t) => text_action(self@, t@, a),
                WsEvent::Binary => a is Ignore,
                WsEvent::Close => a is CloseAndStop,
                WsEvent::Continuation => a is Stop,
                WsEvent::Nop => a is Ignore,
            },
    {
        match event {
            WsEvent::Failed => WsAction::Stop,
            WsEvent::Ping => WsAction::Pong,
            WsEvent::Pong => WsAction::Touch,
            WsEvent::Text(t) => self.handle_text(t.as_str()),
            WsEvent::Binary => WsAction::Ignore,
            WsEvent::Close => WsAction::CloseAndStop,
            WsEvent::Continuation => WsAction::Stop,
            WsEvent::Nop => WsAction::Ignore,
        }
    }
}

} // verus!
