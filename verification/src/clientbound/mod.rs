//! The server-to-client packet union and its state-scoped frame
//! decoder, mirroring the serverbound side with the play-state table
//! this engine sends from.

pub mod login;
pub mod play;
pub mod status;

use crate::buffer::Buffer;
use crate::error::CodecError;
use crate::packet::{Packet, State};
use crate::wire::sp_varint;
use login::{
    DisconnectPacket, DisconnectView, EncryptionRequestPacket, EncryptionRequestView,
    LoginSuccessPacket, LoginSuccessView,
};
use play::{
    DisconnectPlayPacket, DisconnectPlayView, JoinGamePacket, JoinGameView, PlayerAbilitiesPacket,
    PlayerAbilitiesView, PluginMessagePacket, PluginMessageView, ServerDifficultyPacket,
    ServerDifficultyView,
};
use status::{PongPacket, PongView, StatusResponsePacket, StatusResponseView};
use vstd::prelude::*;

verus! {

#[derive(Debug)]
pub enum ClientboundPacket {
    ServerDifficulty(ServerDifficultyPacket),
    PluginMessage(PluginMessagePacket),
    DisconnectPlay(DisconnectPlayPacket),
    JoinGame(JoinGamePacket),
    PlayerAbilities(PlayerAbilitiesPacket),
    StatusResponse(StatusResponsePacket),
    Pong(PongPacket),
    Disconnect(DisconnectPacket),
    EncryptionRequest(EncryptionRequestPacket),
    LoginSuccess(LoginSuccessPacket),
}

/// The mathematical content of a server-to-client packet.
pub enum CbView {
    ServerDifficulty(ServerDifficultyView),
    PluginMessage(PluginMessageView),
    DisconnectPlay(DisconnectPlayView),
    JoinGame(JoinGameView),
    PlayerAbilities(PlayerAbilitiesView),
    StatusResponse(StatusResponseView),
    Pong(PongView),
    Disconnect(DisconnectView),
    EncryptionRequest(EncryptionRequestView),
    LoginSuccess(LoginSuccessView),
}

impl View for ClientboundPacket {
    type V = CbView;

    open spec fn view(&self) -> CbView {
        match self {
            ClientboundPacket::ServerDifficulty(p) => CbView::ServerDifficulty(p@),
            ClientboundPacket::PluginMessage(p) => CbView::PluginMessage(p@),
            ClientboundPacket::DisconnectPlay(p) => CbView::DisconnectPlay(p@),
            ClientboundPacket::JoinGame(p) => CbView::JoinGame(p@),
            ClientboundPacket::PlayerAbilities(p) => CbView::PlayerAbilities(p@),
            ClientboundPacket::StatusResponse(p) => CbView::StatusResponse(p@),
            ClientboundPacket::Pong(p) => CbView::Pong(p@),
            ClientboundPacket::Disconnect(p) => CbView::Disconnect(p@),
            ClientboundPacket::EncryptionRequest(p) => CbView::EncryptionRequest(p@),
            ClientboundPacket::LoginSuccess(p) => CbView::LoginSuccess(p@),
        }
    }
}

impl ClientboundPacket {
    /// The id table: which packet ids are legal in which state.
    pub open spec fn id_known(state: State, id: int) -> bool {
        match state {
            State::Handshake => false,
            State::Play => id == 0x0D || id == 0x19 || id == 0x1B || id == 0x26 || id == 0x32,
            State::Status => id == 0x0 || id == 0x1,
            State::Login => id == 0x0 || id == 0x1 || id == 0x2,
        }
    }

    /// Dispatch on `(state, id)` to the per-variant payload parser; an
    /// id absent from the state's table is `UnknownPacket`.
    pub open spec fn sp_dispatch(s: Seq<u8>, state: State, id: int, payload_len: nat) -> Result<
        (CbView, nat),
        CodecError,
    > {
        match state {
            State::Handshake => Err(CodecError::UnknownPacket),
            State::Play => {
                if id == 0x0D {
                    ServerDifficultyPacket::sp_body(s)
                } else if id == 0x19 {
                    PluginMessagePacket::sp_body(s, payload_len)
                } else if id == 0x1B {
                    DisconnectPlayPacket::sp_body(s)
                } else if id == 0x26 {
                    JoinGamePacket::sp_body(s)
                } else if id == 0x32 {
                    PlayerAbilitiesPacket::sp_body(s)
                } else {
                    Err(CodecError::UnknownPacket)
                }
            },
            State::Status => {
                if id == 0x0 {
                    StatusResponsePacket::sp_body(s)
                } else if id == 0x1 {
                    PongPacket::sp_body(s)
                } else {
                    Err(CodecError::UnknownPacket)
                }
            },
            State::Login => {
                if id == 0x0 {
                    DisconnectPacket::sp_body(s)
                } else if id == 0x1 {
                    EncryptionRequestPacket::sp_body(s)
                } else if id == 0x2 {
                    LoginSuccessPacket::sp_body(s)
                } else {
                    Err(CodecError::UnknownPacket)
                }
            },
        }
    }

    /// The frame parser; the same frame discipline as the serverbound
    /// side.
    pub open spec fn sp_frame(s: Seq<u8>, state: State) -> Result<(CbView, nat), CodecError> {
        match sp_varint(s) {
            Err(e) => {
                if e == CodecError::Truncated {
                    Err(CodecError::Incomplete)
                } else {
                    Err(e)
                }
            },
            Ok((len, n)) => {
                if len < 0 {
                    Err(CodecError::Malformed)
                } else if s.len() - n < len {
                    Err(CodecError::Incomplete)
                } else {
                    match sp_varint(s.skip(n as int)) {
                        Err(e) => {
                            if e == CodecError::Truncated {
                                Err(CodecError::Malformed)
                            } else {
                                Err(e)
                            }
                        },
                        Ok((id, m)) => {
                            if m > len {
                                Err(CodecError::Malformed)
                            } else {
                                match Self::sp_dispatch(
                                    s.skip((n + m) as int),
                                    state,
                                    id as int,
                                    (len - m) as nat,
                                ) {
                                    Err(e) => Err(e),
                                    Ok((pv, k)) => {
                                        if m + k == len {
                                            Ok((pv, (n + m + k) as nat))
                                        } else {
                                            Err(CodecError::Malformed)
                                        }
                                    },
                                }
                            }
                        },
                    }
                }
            },
        }
    }
}

/// Frame round trip, frame plumbing for the server-to-client side:
/// when the payload parser of `(state, id)` accepts a payload exactly,
/// the whole framed packet parses back to the same view, whatever
/// bytes follow the frame, consuming exactly the frame.
#[verifier::rlimit(100)]
pub proof fn lemma_frame_round_trip(
    id: nat,
    payload: Seq<u8>,
    rest: Seq<u8>,
    state: State,
    pv: CbView,
)
    requires
        id < 128,
        1 + payload.len() < 0x8000_0000,
        ClientboundPacket::sp_dispatch(payload + rest, state, id as int, payload.len() as nat)
            == Ok::<(CbView, nat), CodecError>((pv, payload.len() as nat)),
    ensures
        ClientboundPacket::sp_frame(crate::stream::frame_of(id, payload) + rest, state) matches Ok(
            pr,
        ) && pr.0 == pv && pr.1 == crate::stream::frame_of(id, payload).len(),
{
    broadcast use crate::wire::lemma_i32_u32_inverse;

    let wire = crate::wire::var_bytes(id) + payload;
    let frame = crate::stream::frame_of(id, payload);
    let s = frame + rest;
    let ell = wire.len();
    crate::wire::lemma_var_bound_32();
    crate::wire::lemma_var_round_trip(ell, wire + rest, 5, 16);
    assert(s =~= crate::wire::var_bytes(ell) + (wire + rest));
    let n = crate::wire::var_bytes(ell).len();
    assert(crate::wire::sp_varint(s) == Ok::<_, CodecError>((ell as i32, n as nat)));
    assert(crate::wire::var_bytes(id) =~= seq![id as u8]);
    assert(s.skip(n as int) =~= crate::wire::var_bytes(id) + (payload + rest));
    crate::wire::lemma_var_round_trip(id, payload + rest, 5, 16);
    assert(crate::wire::sp_varint(s.skip(n as int)) == Ok::<_, CodecError>(
        (id as i32, 1nat),
    ));
    assert(s.skip(n as int + 1) =~= payload + rest);
    assert(ell == 1 + payload.len());
    assert(s.len() - n >= ell);
    assert(frame.len() == n + ell);
}

/// Frame round trip of the pong packet: one big-endian long, the echo
/// of the ping's payload.
pub proof fn lemma_pong_frame_round_trip(pv: PongView, rest: Seq<u8>)
    ensures
        ({
            let payload = crate::wire::be64(crate::wire::u64_of_i64(pv.payload));
            let frame = crate::stream::frame_of(1, payload);
            ClientboundPacket::sp_frame(frame + rest, State::Status) matches Ok(pr) && pr.0
                == CbView::Pong(pv) && pr.1 == frame.len()
        }),
{
    broadcast use crate::wire::lemma_i64_u64_inverse;

    let payload = crate::wire::be64(crate::wire::u64_of_i64(pv.payload));
    crate::wire::lemma_be64_val_inverse(crate::wire::u64_of_i64(pv.payload));
    assert((payload + rest).take(8) =~= payload);
    assert(PongPacket::sp_body(payload + rest) matches Ok(pr) && pr.0 == CbView::Pong(pv) && pr.1
        == payload.len() as nat);
    lemma_frame_round_trip(1, payload, rest, State::Status, CbView::Pong(pv));
}

/// The join-game payload spelled out over the view's fields, in the
/// serializer's order.
pub open spec fn join_game_payload(jv: JoinGameView) -> Seq<u8> {
    crate::wire::be32(crate::wire::u32_of_i32(jv.entity_id)) + seq![
        JoinGamePacket::gamemode_byte(jv.gamemode, jv.hardcore),
    ] + crate::wire::be32(crate::wire::u32_of_i32(jv.dimension.spec_value())) + crate::wire::be64(
        crate::wire::u64_of_i64(jv.hashed_seed),
    ) + seq![jv.max_players] + crate::wire::spec_str_bytes(jv.level_type.spec_name())
        + crate::wire::var_bytes(crate::wire::u32_of_i32(jv.render_distance) as nat) + seq![
        if jv.reduced_debug_info {
            1u8
        } else {
            0u8
        },
    ] + seq![
        if jv.enable_respawn_screen {
            1u8
        } else {
            0u8
        },
    ]
}

/// The tail of the join-game payload: the level-type name, render
/// distance and the two flags.
pub open spec fn join_game_tail(jv: JoinGameView) -> Seq<u8> {
    crate::wire::spec_str_bytes(jv.level_type.spec_name()) + crate::wire::var_bytes(
        crate::wire::u32_of_i32(jv.render_distance) as nat,
    ) + seq![
        if jv.reduced_debug_info {
            1u8
        } else {
            0u8
        },
    ] + seq![
        if jv.enable_respawn_screen {
            1u8
        } else {
            0u8
        },
    ]
}

/// Parsing the join-game tail recovers its four fields in order.
#[verifier::rlimit(100)]
#[verifier::spinoff_prover]
proof fn lemma_join_game_tail_round_trip(jv: JoinGameView, rest: Seq<u8>)
    ensures
        ({
            let s = join_game_tail(jv) + rest;
            let g = crate::wire::spec_str_bytes(jv.level_type.spec_name()).len();
            let h = crate::wire::var_bytes(
                crate::wire::u32_of_i32(jv.render_distance) as nat,
            ).len();
            &&& crate::wire::sp_string(s) == Ok::<(Seq<char>, nat), CodecError>(
                (jv.level_type.spec_name(), g as nat),
            )
            &&& crate::game::LevelType::spec_from(jv.level_type.spec_name()) == Some(jv.level_type)
            &&& crate::wire::sp_varint(s.skip(g as int)) == Ok::<(i32, nat), CodecError>(
                (jv.render_distance, h as nat),
            )
            &&& crate::wire::sp_bool(s.skip(g as int + h as int)) == Ok::<
                (bool, nat),
                CodecError,
            >((jv.reduced_debug_info, 1nat))
            &&& crate::wire::sp_bool(s.skip(g as int + h as int + 1)) == Ok::<
                (bool, nat),
                CodecError,
            >((jv.enable_respawn_screen, 1nat))
            &&& join_game_tail(jv).len() == g + h + 2
            &&& g <= 12
            &&& 1 <= h <= 5
        }),
{
    broadcast use crate::wire::lemma_i32_u32_inverse;

    let p6 = crate::wire::spec_str_bytes(jv.level_type.spec_name());
    let p7 = crate::wire::var_bytes(crate::wire::u32_of_i32(jv.render_distance) as nat);
    let b1: u8 = if jv.reduced_debug_info {
        1
    } else {
        0
    };
    let b2: u8 = if jv.enable_respawn_screen {
        1
    } else {
        0
    };
    let s = join_game_tail(jv) + rest;
    assert(s =~= p6 + (p7 + seq![b1] + seq![b2] + rest));
    crate::game::lemma_level_type_name_fits(jv.level_type);
    crate::wire::lemma_string_round_trip(
        jv.level_type.spec_name(),
        p7 + seq![b1] + seq![b2] + rest,
    );
    let g = p6.len();
    crate::game::lemma_level_type_name_round_trip(jv.level_type);
    assert(s.skip(g as int) =~= p7 + (seq![b1] + seq![b2] + rest));
    crate::wire::lemma_var_bound_32();
    crate::wire::lemma_var_round_trip(
        crate::wire::u32_of_i32(jv.render_distance) as nat,
        seq![b1] + seq![b2] + rest,
        5,
        16,
    );
    crate::wire::lemma_var_bytes_len(crate::wire::u32_of_i32(jv.render_distance) as nat, 5, 16);
    crate::wire::lemma_var_bytes_shape(crate::wire::u32_of_i32(jv.render_distance) as nat);
    let h = p7.len();
    assert(s.skip(g as int + h as int) =~= seq![b1] + (seq![b2] + rest));
    assert(crate::wire::sp_bool(s.skip(g as int + h as int)) == Ok::<_, CodecError>(
        (jv.reduced_debug_info, 1nat),
    ));
    assert(s.skip(g as int + h as int + 1) =~= seq![b2] + rest);
    assert(crate::wire::sp_bool(s.skip(g as int + h as int + 1)) == Ok::<_, CodecError>(
        (jv.enable_respawn_screen, 1nat),
    ));
    assert(g <= 12) by {
        let el = vstd::utf8::encode_utf8(jv.level_type.spec_name()).len();
        assert(el < 128);
        assert(crate::wire::var_bytes(el).len() == 1);
    }
}

/// The head of the join-game payload: the five fixed-width fields.
pub open spec fn join_game_head(jv: JoinGameView) -> Seq<u8> {
    crate::wire::be32(crate::wire::u32_of_i32(jv.entity_id)) + seq![
        JoinGamePacket::gamemode_byte(jv.gamemode, jv.hardcore),
    ] + crate::wire::be32(crate::wire::u32_of_i32(jv.dimension.spec_value())) + crate::wire::be64(
        crate::wire::u64_of_i64(jv.hashed_seed),
    ) + seq![jv.max_players]
}

/// Parsing the join-game head recovers its five fields in order; the
/// combined gamemode byte splits back into the gamemode and the
/// hardcore flag, and a canonical dimension survives its integer.
#[verifier::rlimit(100)]
#[verifier::spinoff_prover]
proof fn lemma_join_game_head_round_trip(jv: JoinGameView, r: Seq<u8>)
    requires
        jv.dimension.is_canonical(),
    ensures
        ({
            let s = join_game_head(jv) + r;
            let gb = JoinGamePacket::gamemode_byte(jv.gamemode, jv.hardcore);
            &&& crate::wire::sp_i32(s) == Ok::<(i32, nat), CodecError>((jv.entity_id, 4nat))
            &&& crate::wire::sp_u8(s.skip(4)) == Ok::<(u8, nat), CodecError>((gb, 1nat))
            &&& ((gb / 8) % 2 == 1) == jv.hardcore
            &&& crate::game::Gamemode::spec_from(
                if (gb / 8) % 2 == 1 {
                    (gb - 8) as u8
                } else {
                    gb
                },
            ) == Some(jv.gamemode)
            &&& crate::wire::sp_i32(s.skip(5)) == Ok::<(i32, nat), CodecError>(
                (jv.dimension.spec_value(), 4nat),
            )
            &&& crate::game::Dimension::spec_from(jv.dimension.spec_value()) == jv.dimension
            &&& crate::wire::sp_i64(s.skip(9)) == Ok::<(i64, nat), CodecError>(
                (jv.hashed_seed, 8nat),
            )
            &&& crate::wire::sp_u8(s.skip(17)) == Ok::<(u8, nat), CodecError>(
                (jv.max_players, 1nat),
            )
            &&& join_game_head(jv).len() == 18
        }),
{
    broadcast use crate::wire::lemma_i32_u32_inverse, crate::wire::lemma_i64_u64_inverse;

    let p1 = crate::wire::be32(crate::wire::u32_of_i32(jv.entity_id));
    let gb = JoinGamePacket::gamemode_byte(jv.gamemode, jv.hardcore);
    let p2 = seq![gb];
    let p3 = crate::wire::be32(crate::wire::u32_of_i32(jv.dimension.spec_value()));
    let p4 = crate::wire::be64(crate::wire::u64_of_i64(jv.hashed_seed));
    let p5 = seq![jv.max_players];
    let s = join_game_head(jv) + r;
    assert(s.take(4) =~= p1);
    crate::wire::lemma_be32_val_inverse(crate::wire::u32_of_i32(jv.entity_id));
    assert(s.skip(4) =~= p2 + (p3 + p4 + p5 + r));
    let hv: int = if jv.hardcore {
        1
    } else {
        0
    };
    assert(gb == jv.gamemode.spec_value() + 8 * hv);
    assert(gb / 8 == hv);
    crate::game::lemma_gamemode_round_trip(jv.gamemode);
    assert(s.skip(5) =~= p3 + (p4 + p5 + r));
    assert(s.skip(5).take(4) =~= p3);
    crate::wire::lemma_be32_val_inverse(crate::wire::u32_of_i32(jv.dimension.spec_value()));
    crate::game::lemma_dimension_round_trip(jv.dimension);
    assert(s.skip(9) =~= p4 + (p5 + r));
    assert(s.skip(9).take(8) =~= p4);
    crate::wire::lemma_be64_val_inverse(crate::wire::u64_of_i64(jv.hashed_seed));
    assert(s.skip(17) =~= p5 + r);
}

/// The join-game payload parses back to the view it was written from,
/// consuming exactly itself, for every canonical view.
#[verifier::rlimit(100)]
#[verifier::spinoff_prover]
proof fn lemma_join_game_body_round_trip(jv: JoinGameView, rest: Seq<u8>)
    requires
        jv.dimension.is_canonical(),
    ensures
        JoinGamePacket::sp_body(join_game_payload(jv) + rest) == Ok::<(CbView, nat), CodecError>(
            (CbView::JoinGame(jv), join_game_payload(jv).len()),
        ),
        join_game_payload(jv).len() <= 37,
{
    let head = join_game_head(jv);
    let tail = join_game_tail(jv);
    let payload = join_game_payload(jv);
    let s = payload + rest;
    assert(payload =~= head + tail);
    assert(s =~= head + (tail + rest));
    lemma_join_game_head_round_trip(jv, tail + rest);
    lemma_join_game_tail_round_trip(jv, rest);
    let g = crate::wire::spec_str_bytes(jv.level_type.spec_name()).len();
    let h = crate::wire::var_bytes(crate::wire::u32_of_i32(jv.render_distance) as nat).len();
    assert(s.skip(18) =~= tail + rest);
    assert(s.skip(18 + g as int) =~= (tail + rest).skip(g as int));
    assert(s.skip(18 + g as int + h as int) =~= (tail + rest).skip(g as int + h as int));
    assert(s.skip(19 + g as int + h as int) =~= (tail + rest).skip(g as int + h as int + 1));
    assert(JoinGamePacket::sp_body(s) matches Ok(pr) && pr.0 == CbView::JoinGame(jv) && pr.1 == (20
        + g + h) as nat);
    assert(payload.len() == 20 + g + h);
}

/// Frame round trip of the join-game packet: the serializer's field
/// order framed and parsed back is the identity on every canonical
/// view — a `Custom` dimension aliasing a named one could not survive
/// the trip, and the constructor never builds one.
pub proof fn lemma_join_game_frame_round_trip(jv: JoinGameView, rest: Seq<u8>)
    requires
        jv.dimension.is_canonical(),
    ensures
        ({
            let frame = crate::stream::frame_of(0x26, join_game_payload(jv));
            ClientboundPacket::sp_frame(frame + rest, State::Play) matches Ok(pr) && pr.0
                == CbView::JoinGame(jv) && pr.1 == frame.len()
        }),
{
    lemma_join_game_body_round_trip(jv, rest);
    lemma_frame_round_trip(
        0x26,
        join_game_payload(jv),
        rest,
        State::Play,
        CbView::JoinGame(jv),
    );
}

impl Packet for ClientboundPacket {
    open spec fn spec_parse(s: Seq<u8>, state: State) -> Result<(CbView, nat), CodecError> {
        Self::sp_frame(s, state)
    }

    open spec fn spec_payload(&self) -> Seq<u8> {
        match self {
            ClientboundPacket::ServerDifficulty(p) => p.spec_payload(),
            ClientboundPacket::PluginMessage(p) => p.spec_payload(),
            ClientboundPacket::DisconnectPlay(p) => p.spec_payload(),
            ClientboundPacket::JoinGame(p) => p.spec_payload(),
            ClientboundPacket::PlayerAbilities(p) => p.spec_payload(),
            ClientboundPacket::StatusResponse(p) => p.spec_payload(),
            ClientboundPacket::Pong(p) => p.spec_payload(),
            ClientboundPacket::Disconnect(p) => p.spec_payload(),
            ClientboundPacket::EncryptionRequest(p) => p.spec_payload(),
            ClientboundPacket::LoginSuccess(p) => p.spec_payload(),
        }
    }

    open spec fn payload_fits(&self) -> bool {
        match self {
            ClientboundPacket::ServerDifficulty(p) => p.payload_fits(),
            ClientboundPacket::PluginMessage(p) => p.payload_fits(),
            ClientboundPacket::DisconnectPlay(p) => p.payload_fits(),
            ClientboundPacket::JoinGame(p) => p.payload_fits(),
            ClientboundPacket::PlayerAbilities(p) => p.payload_fits(),
            ClientboundPacket::StatusResponse(p) => p.payload_fits(),
            ClientboundPacket::Pong(p) => p.payload_fits(),
            ClientboundPacket::Disconnect(p) => p.payload_fits(),
            ClientboundPacket::EncryptionRequest(p) => p.payload_fits(),
            ClientboundPacket::LoginSuccess(p) => p.payload_fits(),
        }
    }

    open spec fn spec_id(&self) -> int {
        match self {
            ClientboundPacket::ServerDifficulty(_) => 0x0D,
            ClientboundPacket::PluginMessage(_) => 0x19,
            ClientboundPacket::DisconnectPlay(_) => 0x1B,
            ClientboundPacket::JoinGame(_) => 0x26,
            ClientboundPacket::PlayerAbilities(_) => 0x32,
            ClientboundPacket::StatusResponse(_) => 0x0,
            ClientboundPacket::Pong(_) => 0x1,
            ClientboundPacket::Disconnect(_) => 0x0,
            ClientboundPacket::EncryptionRequest(_) => 0x1,
            ClientboundPacket::LoginSuccess(_) => 0x2,
        }
    }

    open spec fn spec_state(&self) -> State {
        match self {
            ClientboundPacket::ServerDifficulty(_) => State::Play,
            ClientboundPacket::PluginMessage(_) => State::Play,
            ClientboundPacket::DisconnectPlay(_) => State::Play,
            ClientboundPacket::JoinGame(_) => State::Play,
            ClientboundPacket::PlayerAbilities(_) => State::Play,
            ClientboundPacket::StatusResponse(_) => State::Status,
            ClientboundPacket::Pong(_) => State::Status,
            ClientboundPacket::Disconnect(_) => State::Login,
            ClientboundPacket::EncryptionRequest(_) => State::Login,
            ClientboundPacket::LoginSuccess(_) => State::Login,
        }
    }

    #[verifier::rlimit(100)]
    fn deserialize(buffer: &mut Buffer, state: &State) -> (r: Result<Self, CodecError>) {
        broadcast use crate::wire::lemma_i32_u32_inverse;

        let ghost s = old(buffer).remaining();
        let start = buffer.cursor();
        let len = match buffer.read_varint() {
            Ok(v) => v,
            Err(CodecError::Truncated) => {
                return Err(CodecError::Incomplete);
            },
            Err(_) => {
                return Err(CodecError::VarIntTooBig);
            },
        };
        let ghost n = buffer.pos() - old(buffer).pos();
        proof {
            assert(sp_varint(s) == Ok::<_, CodecError>((len, n as nat)));
            assert(buffer.remaining() =~= s.skip(n));
        }
        if len < 0 {
            buffer.seek(start);
            return Err(CodecError::Malformed);
        }
        if !buffer.has_at_least(len as usize) {
            buffer.seek(start);
            return Err(CodecError::Incomplete);
        }
        let id_start = buffer.cursor();
        let id = match buffer.read_varint() {
            Ok(v) => v,
            Err(e) => {
                buffer.seek(start);
                if e == CodecError::Truncated {
                    return Err(CodecError::Malformed);
                } else {
                    return Err(CodecError::VarIntTooBig);
                }
            },
        };
        let ghost m = buffer.pos() - old(buffer).pos() - n;
        proof {
            assert(sp_varint(s.skip(n)) == Ok::<_, CodecError>((id, m as nat)));
            assert(buffer.remaining() =~= s.skip(n + m));
        }
        let id_len = buffer.cursor() - id_start;
        if id_len > len as usize {
            buffer.seek(start);
            return Err(CodecError::Malformed);
        }
        let payload_size = len as usize - id_len;
        let body = match *state {
            State::Handshake => Err(CodecError::UnknownPacket),
            State::Play => {
                if id == 0x0D {
                    ServerDifficultyPacket::deserialize(buffer)
                } else if id == 0x19 {
                    PluginMessagePacket::deserialize(buffer, payload_size)
                } else if id == 0x1B {
                    DisconnectPlayPacket::deserialize(buffer)
                } else if id == 0x26 {
                    JoinGamePacket::deserialize(buffer)
                } else if id == 0x32 {
                    PlayerAbilitiesPacket::deserialize(buffer)
                } else {
                    Err(CodecError::UnknownPacket)
                }
            },
            State::Status => {
                if id == 0x0 {
                    StatusResponsePacket::deserialize(buffer)
                } else if id == 0x1 {
                    PongPacket::deserialize(buffer)
                } else {
                    Err(CodecError::UnknownPacket)
                }
            },
            State::Login => {
                if id == 0x0 {
                    DisconnectPacket::deserialize(buffer)
                } else if id == 0x1 {
                    EncryptionRequestPacket::deserialize(buffer)
                } else if id == 0x2 {
                    LoginSuccessPacket::deserialize(buffer)
                } else {
                    Err(CodecError::UnknownPacket)
                }
            },
        };
        let p = match body {
            Ok(p) => p,
            Err(e) => {
                buffer.seek(start);
                return Err(e);
            },
        };
        let consumed = buffer.cursor() - id_start;
        if consumed != len as usize {
            buffer.seek(start);
            return Err(CodecError::Malformed);
        }
        Ok(p)
    }

    fn serialize(&self, buffer: &mut Buffer) -> (r: Result<(), CodecError>) {
        match self {
            ClientboundPacket::ServerDifficulty(p) => p.serialize(buffer),
            ClientboundPacket::PluginMessage(p) => p.serialize(buffer),
            ClientboundPacket::DisconnectPlay(p) => p.serialize(buffer),
            ClientboundPacket::JoinGame(p) => p.serialize(buffer),
            ClientboundPacket::PlayerAbilities(p) => p.serialize(buffer),
            ClientboundPacket::StatusResponse(p) => p.serialize(buffer),
            ClientboundPacket::Pong(p) => p.serialize(buffer),
            ClientboundPacket::Disconnect(p) => p.serialize(buffer),
            ClientboundPacket::EncryptionRequest(p) => p.serialize(buffer),
            ClientboundPacket::LoginSuccess(p) => p.serialize(buffer),
        }
    }

    fn get_id(&self) -> (r: i32) {
        match self {
            ClientboundPacket::ServerDifficulty(_) => 0x0D,
            ClientboundPacket::PluginMessage(_) => 0x19,
            ClientboundPacket::DisconnectPlay(_) => 0x1B,
            ClientboundPacket::JoinGame(_) => 0x26,
            ClientboundPacket::PlayerAbilities(_) => 0x32,
            ClientboundPacket::StatusResponse(_) => 0x0,
            ClientboundPacket::Pong(_) => 0x1,
            ClientboundPacket::Disconnect(_) => 0x0,
            ClientboundPacket::EncryptionRequest(_) => 0x1,
            ClientboundPacket::LoginSuccess(_) => 0x2,
        }
    }

    fn get_state(&self) -> (r: State) {
        match self {
            ClientboundPacket::ServerDifficulty(_) => State::Play,
            ClientboundPacket::PluginMessage(_) => State::Play,
            ClientboundPacket::DisconnectPlay(_) => State::Play,
            ClientboundPacket::JoinGame(_) => State::Play,
            ClientboundPacket::PlayerAbilities(_) => State::Play,
            ClientboundPacket::StatusResponse(_) => State::Status,
            ClientboundPacket::Pong(_) => State::Status,
            ClientboundPacket::Disconnect(_) => State::Login,
            ClientboundPacket::EncryptionRequest(_) => State::Login,
            ClientboundPacket::LoginSuccess(_) => State::Login,
        }
    }
}

} // verus!
