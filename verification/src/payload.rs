//! Decoding coordinator instructions.
//!
//! An instruction arrives as a JSON envelope (request type, hex payload,
//! metadata); the payload hex decodes to a UTF-8 JSON document whose
//! top-level object holds `input`, an object with the string field
//! `action` and the action's parameters.

use vstd::prelude::*;

use crate::codec::{decode_hex, hex_bytes, strip_0x, strip_hex_prefix, str_eq, valid_hex};
use crate::errors::GameError;

verus! {

/// Whether the bytes parse as one JSON document.
pub uninterp spec fn json_parses(b: Seq<u8>) -> bool;

/// Whether the parsed document is an object with a member `input`.
pub uninterp spec fn json_has_input(b: Seq<u8>) -> bool;

/// The text of the document's `input.action`, when the bytes parse, the
/// `input` member exists, and its `action` member is a string.
pub uninterp spec fn input_action_of(b: Seq<u8>) -> Option<Seq<char>>;

/// The text of the document's `input.name`, under the same conditions.
pub uninterp spec fn input_name_of(b: Seq<u8>) -> Option<Seq<char>>;

/// The text of the document's `input.game_id`, under the same conditions.
pub uninterp spec fn input_game_id_of(b: Seq<u8>) -> Option<Seq<char>>;

/// The text of the document's `input.address`, under the same conditions.
pub uninterp spec fn input_address_of(b: Seq<u8>) -> Option<Seq<char>>;

/// The text of the document's `input.table_id`, under the same conditions.
pub uninterp spec fn input_table_id_of(b: Seq<u8>) -> Option<Seq<char>>;

/// What one payload document frames, as plain values.
pub struct ExtractedInput {
    pub parses: bool,
    pub has_input: bool,
    pub action: Option<String>,
    pub name: Option<String>,
}

/// Relies on `serde_json::from_slice::<Value>`, `Value::get` and
/// `Value::as_str`: parses the bytes as a JSON document and reads the
/// `input` member and its string fields `action` and `name`. `get` yields
/// a member only of an object that has it, and `as_str` yields text only
/// of a string, so a missing level leaves the fields below it `None`; the
/// whole result is a function of the bytes alone, which the names above
/// stand for.
#[verifier::external_body]
fn extract_input(b: &[u8]) -> (r: ExtractedInput)
    ensures
        r.parses == json_parses(b@),
        r.has_input == json_has_input(b@),
        r.action is Some <==> input_action_of(b@) is Some,
        r.action is Some ==> r.action->0@ == input_action_of(b@)->0,
        r.name is Some <==> input_name_of(b@) is Some,
        r.name is Some ==> r.name->0@ == input_name_of(b@)->0,
        r.has_input ==> r.parses,
        r.action is Some ==> r.has_input,
        r.name is Some ==> r.has_input,
{
    let doc = serde_json::from_slice::<serde_json::Value>(b).ok();
    let input = doc.as_ref().and_then(|v| v.get("input"));
    let action = input.and_then(|i| i.get("action")).and_then(|v| v.as_str()).map(String::from);
    let name = input.and_then(|i| i.get("name")).and_then(|v| v.as_str()).map(String::from);
    ExtractedInput { parses: doc.is_some(), has_input: input.is_some(), action, name }
}

/// Relies on the same `serde_json` accessors as `extract_input`, for the
/// remaining parameters: the text of the document's `input.game_id`,
/// `input.address` and `input.table_id`, each a function of the bytes
/// alone.
#[verifier::external_body]
fn extract_params(b: &[u8]) -> (r: (Option<String>, Option<String>, Option<String>))
    ensures
        r.0 is Some <==> input_game_id_of(b@) is Some,
        r.0 is Some ==> r.0->0@ == input_game_id_of(b@)->0,
        r.1 is Some <==> input_address_of(b@) is Some,
        r.1 is Some ==> r.1->0@ == input_address_of(b@)->0,
        r.2 is Some <==> input_table_id_of(b@) is Some,
        r.2 is Some ==> r.2->0@ == input_table_id_of(b@)->0,
{
    let doc = serde_json::from_slice::<serde_json::Value>(b).ok();
    let input = doc.as_ref().and_then(|v| v.get("input"));
    let game_id = input.and_then(|i| i.get("game_id")).and_then(|v| v.as_str()).map(String::from);
    let address = input.and_then(|i| i.get("address")).and_then(|v| v.as_str()).map(String::from);
    let table_id = input.and_then(|i| i.get("table_id")).and_then(|v| v.as_str()).map(String::from);
    (game_id, address, table_id)
}

/// The block metadata the coordinator attaches to an instruction.
pub struct RollupInputDataMetadata {
    pub block_number: u128,
    pub epoch_index: u128,
    pub input_index: u128,
    pub msg_sender: String,
    pub timestamp: u64,
}

/// The data of one instruction: its hex payload and its metadata.
pub struct RollupInputData {
    pub payload: String,
    pub metadata: Option<RollupInputDataMetadata>,
}

/// One instruction as the coordinator frames it.
pub struct RollupInput {
    pub data: RollupInputData,
    pub request_type: String,
}

impl RollupInput {
    /// The payload bytes: hex decoded, one optional `0x` prefix allowed.
    pub fn decoded_payload(&self) -> (r: Option<Vec<u8>>)
        ensures
            r is Some <==> valid_hex(strip_0x(self.data.payload@)),
            r is Some ==> r->0@ == hex_bytes(strip_0x(self.data.payload@)),
    {
        decode_hex(strip_hex_prefix(self.data.payload.as_str()))
    }
}

/// Whether the instruction's payload hex-decodes to a JSON document with
/// a top-level `input` member.
pub fn has_input_inside_input(input: &RollupInput) -> (r: bool)
    ensures
        r == (valid_hex(strip_0x(input.data.payload@)) && json_has_input(
            hex_bytes(strip_0x(input.data.payload@)),
        )),
{
    let bytes = match input.decoded_payload() {
        Some(b) => b,
        None => {
            return false;
        },
    };
    extract_input(bytes.as_slice()).has_input
}

/// Whether an instruction may mutate state or only inspect it.
#[derive(Clone, Copy, PartialEq, Eq, Structural, Debug)]
pub enum RequestKind {
    Advance,
    Inspect,
}

pub open spec fn request_kind_of(s: Seq<char>) -> Option<RequestKind> {
    if s == "advance_state"@ {
        Some(RequestKind::Advance)
    } else if s == "inspect_state"@ {
        Some(RequestKind::Inspect)
    } else {
        None
    }
}

pub fn parse_request_kind(s: &str) -> (r: Option<RequestKind>)
    ensures
        r == request_kind_of(s@),
{
    if str_eq(s, "advance_state") {
        Some(RequestKind::Advance)
    } else if str_eq(s, "inspect_state") {
        Some(RequestKind::Inspect)
    } else {
        None
    }
}

/// The recognized actions, plus a marker for everything else.
#[derive(Clone, Copy, PartialEq, Eq, Structural, Debug)]
pub enum Action {
    NewPlayer,
    JoinGame,
    ShowPlayer,
    ShowGames,
    StartGame,
    StopGame,
    ShowHands,
    ShowWinner,
    Hit,
    Stand,
    DoubleDown,
    Split,
    Surrender,
    Unknown,
}

pub open spec fn action_of(s: Seq<char>) -> Action {
    if s == "new_player"@ {
        Action::NewPlayer
    } else if s == "join_game"@ {
        Action::JoinGame
    } else if s == "show_player"@ {
        Action::ShowPlayer
    } else if s == "show_games"@ {
        Action::ShowGames
    } else if s == "start_game"@ {
        Action::StartGame
    } else if s == "stop_game"@ {
        Action::StopGame
    } else if s == "show_hands"@ {
        Action::ShowHands
    } else if s == "show_winner"@ {
        Action::ShowWinner
    } else if s == "hit"@ {
        Action::Hit
    } else if s == "stand"@ {
        Action::Stand
    } else if s == "double_down"@ {
        Action::DoubleDown
    } else if s == "split"@ {
        Action::Split
    } else if s == "surrender"@ {
        Action::Surrender
    } else {
        Action::Unknown
    }
}

pub fn parse_action(s: &str) -> (r: Action)
    ensures
        r == action_of(s@),
{
    if str_eq(s, "new_player") {
        Action::NewPlayer
    } else if str_eq(s, "join_game") {
        Action::JoinGame
    } else if str_eq(s, "show_player") {
        Action::ShowPlayer
    } else if str_eq(s, "show_games") {
        Action::ShowGames
    } else if str_eq(s, "start_game") {
        Action::StartGame
    } else if str_eq(s, "stop_game") {
        Action::StopGame
    } else if str_eq(s, "show_hands") {
        Action::ShowHands
    } else if str_eq(s, "show_winner") {
        Action::ShowWinner
    } else if str_eq(s, "hit") {
        Action::Hit
    } else if str_eq(s, "stand") {
        Action::Stand
    } else if str_eq(s, "double_down") {
        Action::DoubleDown
    } else if str_eq(s, "split") {
        Action::Split
    } else if str_eq(s, "surrender") {
        Action::Surrender
    } else {
        Action::Unknown
    }
}

/// Read-only actions only inspect; every other recognized action, and an
/// unknown one, counts as state-mutating for the dispatch hardening.
pub open spec fn action_is_read_only(a: Action) -> bool {
    match a {
        Action::ShowPlayer => true,
        Action::ShowGames => true,
        Action::ShowHands => true,
        Action::ShowWinner => true,
        _ => false,
    }
}

pub fn is_read_only(a: Action) -> (r: bool)
    ensures
        r == action_is_read_only(a),
{
    match a {
        Action::ShowPlayer => true,
        Action::ShowGames => true,
        Action::ShowHands => true,
        Action::ShowWinner => true,
        _ => false,
    }
}

/// The action of a decoded payload, with its string parameters.
pub struct PayloadAction {
    pub action: String,
    pub name: Option<String>,
    pub game_id: Option<String>,
    pub address: Option<String>,
    pub table_id: Option<String>,
}

/// Extracts `input.action` and the action's parameters from payload
/// bytes. A document that does not parse is a `DecodeError`; a parsed
/// document without a string `input.action` is a `ValidationError`; any
/// document with one succeeds, carrying the document's own fields.
pub fn parse_payload(bytes: &[u8]) -> (r: Result<PayloadAction, GameError>)
    ensures
        r is Ok <==> json_parses(bytes@) && input_action_of(bytes@) is Some,
        (r == Err::<PayloadAction, GameError>(GameError::DecodeError)) <==> !json_parses(bytes@),
        (r == Err::<PayloadAction, GameError>(GameError::ValidationError)) <==> (json_parses(
            bytes@,
        ) && input_action_of(bytes@) is None),
        r is Ok ==> ({
            let p = r->Ok_0;
            &&& p.action@ == input_action_of(bytes@)->0
            &&& (p.name is Some <==> input_name_of(bytes@) is Some)
            &&& p.name is Some ==> p.name->0@ == input_name_of(bytes@)->0
            &&& (p.game_id is Some <==> input_game_id_of(bytes@) is Some)
            &&& p.game_id is Some ==> p.game_id->0@ == input_game_id_of(bytes@)->0
            &&& (p.address is Some <==> input_address_of(bytes@) is Some)
            &&& p.address is Some ==> p.address->0@ == input_address_of(bytes@)->0
            &&& (p.table_id is Some <==> input_table_id_of(bytes@) is Some)
            &&& p.table_id is Some ==> p.table_id->0@ == input_table_id_of(bytes@)->0
        }),
{
    let ex = extract_input(bytes);
    if !ex.parses {
        return Err(GameError::DecodeError);
    }
    let action = match ex.action {
        Some(a) => a,
        None => {
            return Err(GameError::ValidationError);
        },
    };
    let (game_id, address, table_id) = extract_params(bytes);
    Ok(PayloadAction { action, name: ex.name, game_id, address, table_id })
}

} // verus!
