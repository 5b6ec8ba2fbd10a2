//! The parcels the server sends to its clients, and the controller input
//! they send to it.
use vstd::prelude::*;
use vstd::string::StringExecFns;
use crate::json::{
    decimal, json_byte_rows, json_of_byte_rows, json_of_string, json_of_u8, json_of_usize,
    json_string_literal,
};

verus! {

/// A message to a client. On the wire it is a JSON object with the variant's
/// name as its single key and the payload as its value.
#[derive(Debug, Clone)]
pub enum SendParcel {
    GameReady(u8),
    SendKeyboard(Vec<Vec<u8>>),
    GetGameStatus(usize),
    SendGameStatus(String),
    GameStart(usize),
}

/// `{"<tag>":<payload>}`
pub open spec fn tagged(tag: Seq<char>, payload: Seq<char>) -> Seq<char> {
    seq!['{', '"'] + tag + seq!['"', ':'] + payload + seq!['}']
}

/// JSON text of `GameReady(n)`.
pub open spec fn game_ready_json(n: u8) -> Seq<char> {
    tagged("GameReady"@, decimal(n as nat))
}

/// JSON text of `SendKeyboard(rows)`.
pub open spec fn keyboard_json(rows: Seq<Seq<u8>>) -> Seq<char> {
    tagged("SendKeyboard"@, json_byte_rows(rows))
}

/// JSON text of `SendGameStatus(status)`.
pub open spec fn game_status_json(status: Seq<char>) -> Seq<char> {
    tagged("SendGameStatus"@, json_string_literal(status))
}

/// JSON text of `GameStart(id)`.
pub open spec fn game_start_json(id: usize) -> Seq<char> {
    tagged("GameStart"@, decimal(id as nat))
}

impl SendParcel {
    /// The JSON text of the parcel.
    pub open spec fn json_text(&self) -> Seq<char> {
        match self {
            SendParcel::GameReady(n) => game_ready_json(*n),
            SendParcel::SendKeyboard(rows) => keyboard_json(rows.deep_view()),
            SendParcel::GetGameStatus(n) => tagged("GetGameStatus"@, decimal(*n as nat)),
            SendParcel::SendGameStatus(s) => game_status_json(s@),
            SendParcel::GameStart(n) => game_start_json(*n),
        }
    }

    /// Serialises the parcel to its JSON text.
    pub fn to_json(&self) -> (text: String)
        ensures
            text@ == self.json_text(),
    {
        let (tag, payload) = match self {
            SendParcel::GameReady(n) => ("GameReady", json_of_u8(*n)),
            SendParcel::SendKeyboard(rows) => ("SendKeyboard", json_of_byte_rows(rows)),
            SendParcel::GetGameStatus(n) => ("GetGameStatus", json_of_usize(*n)),
            SendParcel::SendGameStatus(s) => ("SendGameStatus", json_of_string(s)),
            SendParcel::GameStart(n) => ("GameStart", json_of_usize(*n)),
        };
        let mut text = "{\"".to_owned();
        text.append(tag);
        text.append("\":");
        text.append(payload.as_str());
        text.append("}");
        proof {
            reveal_strlit("{\"");
            reveal_strlit("\":");
            reveal_strlit("}");
            assert(text@ =~= tagged(tag@, payload@));
        }
        text
    }
}

/// Controller input sent by a client: a message id and the keys pressed.
pub struct ControllerIns {
    mid: u8,
    pub keys: Vec<u8>,
}

impl ControllerIns {
    pub fn new(mid: u8, keys: Vec<u8>) -> (c: ControllerIns)
        ensures
            c.mid() == mid,
            c.key_list() == keys@,
    {
        ControllerIns { mid, keys }
    }

    pub closed spec fn mid(&self) -> u8 {
        self.mid
    }

    pub closed spec fn key_list(&self) -> Seq<u8> {
        self.keys@
    }

    /// The keys pressed.
    pub fn into_keys(self) -> (keys: Vec<u8>)
        ensures
            keys@ == self.key_list(),
    {
        self.keys
    }

    /// The message id the input came with.
    pub fn message_id(&self) -> (m: u8)
        ensures
            m == self.mid(),
    {
        self.mid
    }
}

} // verus!
