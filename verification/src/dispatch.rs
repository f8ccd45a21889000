//! Classifying and dispatching instructions against the manager.
//!
//! Every instruction fully applies or fully fails: a failure maps to a
//! `reject` finishing status and leaves the registry untouched. An
//! `inspect_state` instruction is read-only at this layer: a
//! state-mutating action arriving under it is rejected before it can
//! touch anything.

use vstd::prelude::*;

use crate::codec::{
    bs58_encode, bs58_of, dec_value, hex_bytes, parse_u64, strip_0x, strip_hex_prefix, valid_dec,
    valid_hex,
};
use crate::errors::GameError;
use crate::game::{contains_id, find_hand, Game, Table};
use crate::manager::{find_player, find_table, player_join_post, Manager};
use crate::ops::{hit_player_post, stand_player_post, start_game_post};
use crate::payload::{
    action_of, action_is_read_only, input_action_of, input_address_of, input_game_id_of,
    input_name_of, input_table_id_of, is_read_only, json_parses, parse_action, parse_payload,
    parse_request_kind, request_kind_of, Action, PayloadAction, RequestKind, RollupInput,
    RollupInputDataMetadata,
};
use crate::player::Player;
use crate::score::{
    hand_row, is_winner_among, name_or_id, rows_view, sorted_desc, GameSummary, HandReport,
    Scoreboard, ScoreRow,
};

verus! {

/// An instruction's observable output, sent to the coordinator's report
/// channel.
pub enum Report {
    NewPlayer { address: String, encoded_name: String, name: String },
    PlayerInfo { name: String, address: String, joined: Vec<u64>, playing: Vec<u64> },
    Games { games: Vec<GameSummary> },
    Hands { hands: Vec<HandReport> },
    Winner { scoreboard: Scoreboard },
}

/// What a successful `new_player` leaves behind: one more player, keyed
/// by the base58 sender address, and a report echoing the registration.
pub open spec fn new_player_post(
    m0: Manager,
    m1: Manager,
    id: Seq<char>,
    name: Seq<char>,
    r: Result<Option<Report>, GameError>,
) -> bool {
    let idx = find_player(m0.players@, id);
    &&& idx >= 0 ==> r == Err::<Option<Report>, GameError>(GameError::StateError) && m1 == m0
    &&& idx == -1 ==> ({
        &&& m1.games == m0.games
        &&& m1.tables == m0.tables
        &&& m1.players@.len() == m0.players@.len() + 1
        &&& forall|j: int| 0 <= j < m0.players@.len() ==> m1.players@[j] == m0.players@[j]
        &&& m1.players@.last().id@ == id
        &&& m1.players@.last().name@ == name
        &&& r is Ok && r->Ok_0 is Some && (match r->Ok_0->0 {
            Report::NewPlayer { address, encoded_name, name: nm } => address@ == id
                && encoded_name@ == bs58_of(name) && nm@ == name,
            _ => false,
        })
    })
}

/// The validation error, the state untouched.
pub open spec fn rejected(
    m0: Manager,
    m1: Manager,
    r: Result<Option<Report>, GameError>,
    e: GameError,
) -> bool {
    r == Err::<Option<Report>, GameError>(e) && m1 == m0
}

/// The full dispatch postcondition, over the decoded fields of one
/// instruction: the inspect hardening, the read-only guarantee, and one
/// exact clause per action.
pub open spec fn dispatch_post(
    m0: Manager,
    m1: Manager,
    kind: RequestKind,
    action: Seq<char>,
    name_field: Option<Seq<char>>,
    game_id_field: Option<Seq<char>>,
    address_field: Option<Seq<char>>,
    table_id_field: Option<Seq<char>>,
    meta: Option<RollupInputDataMetadata>,
    r: Result<Option<Report>, GameError>,
) -> bool {
    let act = action_of(action);
    &&& kind == RequestKind::Inspect && !action_is_read_only(act) ==> rejected(
        m0,
        m1,
        r,
        GameError::ValidationError,
    )
    &&& action_is_read_only(act) ==> m1 == m0
    &&& act == Action::Unknown && kind == RequestKind::Advance ==> rejected(
        m0,
        m1,
        r,
        GameError::ValidationError,
    )
    &&& (act == Action::DoubleDown || act == Action::Split || act == Action::Surrender)
        && kind == RequestKind::Advance ==> rejected(m0, m1, r, GameError::NotImplemented)
    &&& act == Action::NewPlayer && kind == RequestKind::Advance ==> ({
        &&& (name_field is None || (name_field is Some && name_field->0.len() < 3))
            ==> rejected(m0, m1, r, GameError::ValidationError)
        &&& name_field is Some && name_field->0.len() >= 3 ==> ({
            &&& meta is None ==> rejected(m0, m1, r, GameError::ValidationError)
            &&& meta is Some ==> new_player_post(
                m0,
                m1,
                bs58_of(strip_0x(meta->0.msg_sender@)),
                name_field->0,
                r,
            )
        })
    })
    &&& act == Action::JoinGame && kind == RequestKind::Advance ==> ({
        &&& meta is None ==> rejected(m0, m1, r, GameError::ValidationError)
        &&& meta is Some ==> ({
            &&& (game_id_field is None || !valid_dec(game_id_field->0)) ==> rejected(
                m0,
                m1,
                r,
                GameError::ValidationError,
            )
            &&& game_id_field is Some && valid_dec(game_id_field->0) ==> ({
                let gid = dec_value(game_id_field->0) as u64;
                let pid = bs58_of(strip_0x(meta->0.msg_sender@));
                &&& player_join_post(m0, m1, gid, pid, if r is Ok {
                    Ok(())
                } else {
                    Err(r->Err_0)
                })
                &&& r is Ok ==> r->Ok_0 is None
            })
        })
    })
    &&& act == Action::StartGame && kind == RequestKind::Advance ==> ({
        &&& meta is None ==> rejected(m0, m1, r, GameError::ValidationError)
        &&& meta is Some ==> ({
            &&& (game_id_field is None || !valid_dec(game_id_field->0)) ==> rejected(
                m0,
                m1,
                r,
                GameError::ValidationError,
            )
            &&& game_id_field is Some && valid_dec(game_id_field->0) ==> ({
                let gid = dec_value(game_id_field->0) as u64;
                &&& start_game_post(m0, m1, gid, 2, meta->0.timestamp, if r is Ok {
                    Ok(())
                } else {
                    Err(r->Err_0)
                })
                &&& r is Ok ==> r->Ok_0 is None
            })
        })
    })
    &&& act == Action::StopGame && kind == RequestKind::Advance ==> ({
        &&& (game_id_field is None || !valid_dec(game_id_field->0)) ==> rejected(
            m0,
            m1,
            r,
            GameError::ValidationError,
        )
        &&& game_id_field is Some && valid_dec(game_id_field->0) ==> ({
            let gid = dec_value(game_id_field->0) as u64;
            let idx = find_table(m0.tables@, gid);
            &&& idx == -1 ==> rejected(m0, m1, r, GameError::NotFoundError)
            &&& idx >= 0 ==> r is Ok && r->Ok_0 is None && m1.tables@ == m0.tables@.remove(
                idx,
            ) && m1.games@ == m0.games@.push(m0.tables@[idx].game) && m1.players
                == m0.players
        })
    })
    &&& act == Action::Hit && kind == RequestKind::Advance ==> ({
        &&& meta is None ==> rejected(m0, m1, r, GameError::ValidationError)
        &&& meta is Some ==> ({
            &&& (game_id_field is None || !valid_dec(game_id_field->0)) ==> rejected(
                m0,
                m1,
                r,
                GameError::ValidationError,
            )
            &&& game_id_field is Some && valid_dec(game_id_field->0)
                ==> hit_player_post(
                m0,
                m1,
                dec_value(game_id_field->0) as u64,
                bs58_of(strip_0x(meta->0.msg_sender@)),
                meta->0.timestamp,
                if r is Ok {
                    Ok(())
                } else {
                    Err(r->Err_0)
                },
            ) && (r is Ok ==> r->Ok_0 is None)
        })
    })
    &&& act == Action::Stand && kind == RequestKind::Advance ==> ({
        &&& meta is None ==> rejected(m0, m1, r, GameError::ValidationError)
        &&& meta is Some ==> ({
            &&& (game_id_field is None || !valid_dec(game_id_field->0)) ==> rejected(
                m0,
                m1,
                r,
                GameError::ValidationError,
            )
            &&& game_id_field is Some && valid_dec(game_id_field->0)
                ==> stand_player_post(
                m0,
                m1,
                dec_value(game_id_field->0) as u64,
                bs58_of(strip_0x(meta->0.msg_sender@)),
                meta->0.timestamp,
                if r is Ok {
                    Ok(())
                } else {
                    Err(r->Err_0)
                },
            ) && (r is Ok ==> r->Ok_0 is None)
        })
    })
    &&& act == Action::ShowGames ==> r is Ok && (match r->Ok_0 {
        Some(Report::Games { games }) => games@.len() == m0.games@.len() && (forall|k: int|
            0 <= k < games@.len() ==> (#[trigger] games@[k]).id == m0.games@[k].id
                && games@[k].players == m0.games@[k].players@.len()),
        _ => false,
    })
    &&& act == Action::ShowPlayer ==> ({
        &&& address_field is None ==> r == Err::<Option<Report>, GameError>(
            GameError::ValidationError,
        )
        &&& address_field is Some ==> ({
            let id = bs58_of(strip_0x(address_field->0));
            let idx = find_player(m0.players@, id);
            &&& idx == -1 ==> r == Err::<Option<Report>, GameError>(
                GameError::NotFoundError,
            )
            &&& idx >= 0 ==> r is Ok && (match r->Ok_0 {
                Some(Report::PlayerInfo { name, address, joined, playing }) => name@
                    == m0.players@[idx].name@ && address@ == strip_0x(
                    address_field->0,
                ) && joined@ == m0.games@.filter(
                    |g: Game| contains_id(g.players@, id),
                ).map_values(|g: Game| g.id) && playing@ == m0.tables@.filter(
                    |t: Table| find_hand(t.players_with_hand@, id) >= 0,
                ).map_values(|t: Table| t.game.id),
                _ => false,
            })
        })
    })
    &&& act == Action::ShowHands ==> ({
        &&& (game_id_field is None || !valid_dec(game_id_field->0)) ==> r == Err::<
            Option<Report>,
            GameError,
        >(GameError::ValidationError)
        &&& game_id_field is Some && valid_dec(game_id_field->0) ==> ({
            let gid = dec_value(game_id_field->0) as u64;
            let idx = find_table(m0.tables@, gid);
            &&& idx == -1 ==> r == Err::<Option<Report>, GameError>(
                GameError::NotFoundError,
            )
            &&& idx >= 0 ==> r is Ok && (match r->Ok_0 {
                Some(Report::Hands { hands }) => ({
                    let hs = m0.tables@[idx].players_with_hand@;
                    hands@.len() == hs.len() && (forall|k: int|
                        0 <= k < hs.len() ==> ((#[trigger] hands@[k]).name@ == name_or_id(
                            &m0,
                            hs[k].player_id@,
                        ) && hands@[k].points == hs[k].points && hands@[k].cards@
                            == hs[k].hand.0@))
                }),
                _ => false,
            })
        })
    })
    &&& act == Action::ShowWinner ==> ({
        &&& (game_id_field is None || !valid_dec(game_id_field->0) || table_id_field is None)
            ==> r == Err::<Option<Report>, GameError>(GameError::ValidationError)
        &&& game_id_field is Some && valid_dec(game_id_field->0) && table_id_field is Some
            && !valid_dec(table_id_field->0) ==> r == Err::<Option<Report>, GameError>(
            GameError::NotFoundError,
        )
        &&& game_id_field is Some && valid_dec(game_id_field->0) && table_id_field is Some
            && valid_dec(table_id_field->0) ==> ({
            let gid = dec_value(table_id_field->0) as u64;
            let idx = find_table(m0.tables@, gid);
            &&& idx == -1 ==> r == Err::<Option<Report>, GameError>(
                GameError::NotFoundError,
            )
            &&& idx >= 0 ==> r is Ok && (match r->Ok_0 {
                Some(Report::Winner { scoreboard }) => ({
                    let hands = m0.tables@[idx].players_with_hand@;
                    &&& scoreboard.rows@.len() == hands.len()
                    &&& sorted_desc(scoreboard.rows@)
                    &&& rows_view(scoreboard.rows@).to_multiset() == hands.map_values(
                        |h: crate::player::PlayerHand| hand_row(&m0, h),
                    ).to_multiset()
                    &&& scoreboard.winners@.map_values(|s: String| s@)
                        == scoreboard.rows@.filter(
                        |x: ScoreRow| is_winner_among(scoreboard.rows@, x),
                    ).map_values(|x: ScoreRow| x.player_id@)
                }),
                _ => false,
            })
        })
    })
}

/// An optional string, viewed.
pub open spec fn opt_view(o: Option<String>) -> Option<Seq<char>> {
    match o {
        Some(s) => Some(s@),
        None => None,
    }
}

/// Dispatches one decoded instruction against the manager.
///
/// The dispatch is the single writer: the caller holds the manager
/// exclusively for the whole call, so the instruction applies as one
/// atomic unit in arrival order.
#[verifier::rlimit(60)]
pub fn handle_request_action(
    manager: &mut Manager,
    kind: RequestKind,
    payload: PayloadAction,
    meta: &Option<RollupInputDataMetadata>,
) -> (r: Result<Option<Report>, GameError>)
    requires
        old(manager).wf(),
    ensures
        final(manager).wf(),
        dispatch_post(
            *old(manager),
            *final(manager),
            kind,
            payload.action@,
            opt_view(payload.name),
            opt_view(payload.game_id),
            opt_view(payload.address),
            opt_view(payload.table_id),
            *meta,
            r,
        ),
{
    let action = parse_action(payload.action.as_str());
    if !is_read_only(action) && kind == RequestKind::Inspect {
        return Err(GameError::ValidationError);
    }
    match action {
        Action::NewPlayer => {
            let name = match payload.name {
                Some(n) => n,
                None => {
                    return Err(GameError::ValidationError);
                },
            };
            if name.as_str().unicode_len() < 3 {
                return Err(GameError::ValidationError);
            }
            let md = match meta {
                Some(m) => m,
                None => {
                    return Err(GameError::ValidationError);
                },
            };
            let stripped = strip_hex_prefix(md.msg_sender.as_str());
            let address_encoded = bs58_encode(stripped);
            let encoded_name = bs58_encode(name.as_str());
            let player = Player::new(address_encoded.clone(), name.clone());
            match manager.add_player(player) {
                Ok(_) => {},
                Err(e) => {
                    return Err(e);
                },
            }
            Ok(Some(Report::NewPlayer { address: address_encoded, encoded_name, name }))
        },
        Action::JoinGame => {
            let md = match meta {
                Some(m) => m,
                None => {
                    return Err(GameError::ValidationError);
                },
            };
            let gid = match parse_game_id(&payload.game_id) {
                Some(g) => g,
                None => {
                    return Err(GameError::ValidationError);
                },
            };
            let sender = bs58_encode(strip_hex_prefix(md.msg_sender.as_str()));
            match manager.player_join(gid, sender) {
                Ok(_) => Ok(None),
                Err(e) => Err(e),
            }
        },
        Action::ShowPlayer => {
            let address = match payload.address {
                Some(a) => a,
                None => {
                    return Err(GameError::ValidationError);
                },
            };
            let stripped = strip_hex_prefix(address.as_str());
            let encoded = bs58_encode(stripped);
            let name = match manager.get_player_name(encoded.as_str()) {
                Some(n) => n,
                None => {
                    return Err(GameError::NotFoundError);
                },
            };
            let joined = manager.joined_game_ids(encoded.as_str());
            let playing = manager.playing_table_ids(encoded.as_str());
            proof {
                crate::manager::lemma_find_player_from(manager.players@, encoded@, 0);
            }
            Ok(Some(Report::PlayerInfo { name, address: stripped.to_owned(), joined, playing }))
        },
        Action::ShowGames => Ok(Some(Report::Games { games: manager.games_summary() })),
        Action::StartGame => {
            let md = match meta {
                Some(m) => m,
                None => {
                    return Err(GameError::ValidationError);
                },
            };
            let gid = match parse_game_id(&payload.game_id) {
                Some(g) => g,
                None => {
                    return Err(GameError::ValidationError);
                },
            };
            match manager.start_game(gid, 2, md.timestamp) {
                Ok(_) => Ok(None),
                Err(e) => Err(e),
            }
        },
        Action::StopGame => {
            let gid = match parse_game_id(&payload.game_id) {
                Some(g) => g,
                None => {
                    return Err(GameError::ValidationError);
                },
            };
            match manager.stop_game(gid) {
                Ok(_) => Ok(None),
                Err(e) => Err(e),
            }
        },
        Action::ShowHands => {
            let gid = match parse_game_id(&payload.game_id) {
                Some(g) => g,
                None => {
                    return Err(GameError::ValidationError);
                },
            };
            match manager.hands_report(gid) {
                Ok(hands) => Ok(Some(Report::Hands { hands })),
                Err(e) => Err(e),
            }
        },
        Action::ShowWinner => {
            if parse_game_id(&payload.game_id).is_none() {
                return Err(GameError::ValidationError);
            }
            let table_id = match payload.table_id {
                Some(t) => t,
                None => {
                    return Err(GameError::ValidationError);
                },
            };
            let tid = match parse_u64(table_id.as_str()) {
                Some(t) => t,
                None => {
                    return Err(GameError::NotFoundError);
                },
            };
            match manager.get_scoreboard(tid) {
                Ok(scoreboard) => Ok(Some(Report::Winner { scoreboard })),
                Err(e) => Err(e),
            }
        },
        Action::Hit => {
            let md = match meta {
                Some(m) => m,
                None => {
                    return Err(GameError::ValidationError);
                },
            };
            let gid = match parse_game_id(&payload.game_id) {
                Some(g) => g,
                None => {
                    return Err(GameError::ValidationError);
                },
            };
            let sender = bs58_encode(strip_hex_prefix(md.msg_sender.as_str()));
            match manager.hit_player(gid, sender.as_str(), md.timestamp) {
                Ok(_) => Ok(None),
                Err(e) => Err(e),
            }
        },
        Action::Stand => {
            let md = match meta {
                Some(m) => m,
                None => {
                    return Err(GameError::ValidationError);
                },
            };
            let gid = match parse_game_id(&payload.game_id) {
                Some(g) => g,
                None => {
                    return Err(GameError::ValidationError);
                },
            };
            let sender = bs58_encode(strip_hex_prefix(md.msg_sender.as_str()));
            match manager.stand_player(gid, sender.as_str(), md.timestamp) {
                Ok(_) => Ok(None),
                Err(e) => Err(e),
            }
        },
        Action::DoubleDown => Err(GameError::NotImplemented),
        Action::Split => Err(GameError::NotImplemented),
        Action::Surrender => Err(GameError::NotImplemented),
        Action::Unknown => Err(GameError::ValidationError),
    }
}

/// The numeric lobby id of the `game_id` field, when it parses.
fn parse_game_id(field: &Option<String>) -> (r: Option<u64>)
    ensures
        r is Some <==> (*field) is Some && valid_dec((*field)->0@),
        r is Some ==> r->0 as int == dec_value((*field)->0@),
{
    match field {
        Some(s) => parse_u64(s.as_str()),
        None => None,
    }
}

/// Decodes one framed instruction and dispatches it: request kind, hex
/// payload, JSON action, then the dispatch table. A malformed frame
/// rejects with a decode error and touches nothing; a document without a
/// string `input.action` is a validation error and touches nothing; a
/// decoded instruction meets the dispatch postcondition at the document's
/// own fields; an inspect instruction never changes the registry.
pub fn handle_rollup_input(manager: &mut Manager, input: &RollupInput) -> (r: Result<
    Option<Report>,
    GameError,
>)
    requires
        old(manager).wf(),
    ensures
        final(manager).wf(),
        request_kind_of(input.request_type@) is None ==> r == Err::<Option<Report>, GameError>(
            GameError::DecodeError,
        ) && *final(manager) == *old(manager),
        request_kind_of(input.request_type@) is Some && !valid_hex(strip_0x(input.data.payload@))
            ==> r == Err::<Option<Report>, GameError>(GameError::DecodeError) && *final(manager)
            == *old(manager),
        request_kind_of(input.request_type@) is Some && valid_hex(strip_0x(input.data.payload@))
            ==> ({
            let b = hex_bytes(strip_0x(input.data.payload@));
            &&& !json_parses(b) ==> r == Err::<Option<Report>, GameError>(GameError::DecodeError)
                && *final(manager) == *old(manager)
            &&& json_parses(b) && input_action_of(b) is None ==> r == Err::<
                Option<Report>,
                GameError,
            >(GameError::ValidationError) && *final(manager) == *old(manager)
            &&& json_parses(b) && input_action_of(b) is Some ==> dispatch_post(
                *old(manager),
                *final(manager),
                request_kind_of(input.request_type@)->0,
                input_action_of(b)->0,
                input_name_of(b),
                input_game_id_of(b),
                input_address_of(b),
                input_table_id_of(b),
                input.data.metadata,
                r,
            )
        }),
        request_kind_of(input.request_type@) == Some(RequestKind::Inspect) ==> *final(manager)
            == *old(manager),
{
    let kind = match parse_request_kind(input.request_type.as_str()) {
        Some(k) => k,
        None => {
            return Err(GameError::DecodeError);
        },
    };
    let bytes = match input.decoded_payload() {
        Some(b) => b,
        None => {
            return Err(GameError::DecodeError);
        },
    };
    let payload = match parse_payload(bytes.as_slice()) {
        Ok(p) => p,
        Err(e) => {
            return Err(e);
        },
    };
    let ghost b = bytes@;
    let ghost pl = payload;
    let r = handle_request_action(manager, kind, payload, &input.data.metadata);
    proof {
        assert(opt_view(pl.name) == input_name_of(b));
        assert(opt_view(pl.game_id) == input_game_id_of(b));
        assert(opt_view(pl.address) == input_address_of(b));
        assert(opt_view(pl.table_id) == input_table_id_of(b));
    }
    r
}

} // verus!
