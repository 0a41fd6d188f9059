//! The client-to-server packet union and its state-scoped frame
//! decoder: `VarInt length ‖ VarInt id ‖ payload`, with the id table
//! keyed by the connection's protocol state.

pub mod handshake;
pub mod login;
pub mod status;

use crate::buffer::Buffer;
use crate::error::CodecError;
use crate::packet::{Packet, State};
use crate::wire::sp_varint;
use handshake::{HandshakePacket, HandshakeView};
use login::{
    EncryptionResponsePacket, EncryptionResponseView, LoginStartPacket, LoginStartView,
};
use status::{PingPacket, PingView, StatusRequestPacket, StatusRequestView};
use vstd::prelude::*;

verus! {

#[derive(Debug)]
pub enum ServerboundPacket {
    Handshake(HandshakePacket),
    StatusRequest(StatusRequestPacket),
    Ping(PingPacket),
    LoginStart(LoginStartPacket),
    EncryptionResponse(EncryptionResponsePacket),
}

/// The mathematical content of a client-to-server packet.
pub enum SbView {
    Handshake(HandshakeView),
    StatusRequest(StatusRequestView),
    Ping(PingView),
    LoginStart(LoginStartView),
    EncryptionResponse(EncryptionResponseView),
}

impl View for ServerboundPacket {
    type V = SbView;

    open spec fn view(&self) -> SbView {
        match self {
            ServerboundPacket::Handshake(p) => SbView::Handshake(p@),
            ServerboundPacket::StatusRequest(p) => SbView::StatusRequest(p@),
            ServerboundPacket::Ping(p) => SbView::Ping(p@),
            ServerboundPacket::LoginStart(p) => SbView::LoginStart(p@),
            ServerboundPacket::EncryptionResponse(p) => SbView::EncryptionResponse(p@),
        }
    }
}

impl ServerboundPacket {
    /// The id table: which packet ids are legal in which state.
    pub open spec fn id_known(state: State, id: int) -> bool {
        match state {
            State::Handshake => id == 0x0,
            State::Play => false,
            State::Status => id == 0x0 || id == 0x1,
            State::Login => id == 0x0 || id == 0x1,
        }
    }

    /// Dispatch on `(state, id)` to the per-variant payload parser; an
    /// id absent from the state's table is `UnknownPacket`.
    pub open spec fn sp_dispatch(s: Seq<u8>, state: State, id: int) -> Result<
        (SbView, nat),
        CodecError,
    > {
        match state {
            State::Handshake => {
                if id == 0x0 {
                    HandshakePacket::sp_body(s)
                } else {
                    Err(CodecError::UnknownPacket)
                }
            },
            State::Play => Err(CodecError::UnknownPacket),
            State::Status => {
                if id == 0x0 {
                    StatusRequestPacket::sp_body(s)
                } else if id == 0x1 {
                    PingPacket::sp_body(s)
                } else {
                    Err(CodecError::UnknownPacket)
                }
            },
            State::Login => {
                if id == 0x0 {
                    LoginStartPacket::sp_body(s)
                } else if id == 0x1 {
                    EncryptionResponsePacket::sp_body(s)
                } else {
                    Err(CodecError::UnknownPacket)
                }
            },
        }
    }

    /// The frame parser. A frame-length VarInt that runs out of bytes,
    /// or a declared length longer than what is buffered, is
    /// `Incomplete` — backpressure, never fatal. A decoded variant must
    /// consume exactly the declared frame length.
    pub open spec fn sp_frame(s: Seq<u8>, state: State) -> Result<(SbView, nat), CodecError> {
        match sp_varint(s) {
            Err(e) => {
                if e == CodecError::Truncated {
                    Err(CodecError::Incomplete)
                } else {
                    Err(e)
                }
            },
            Ok((len, n)) => {
                if len < 0 {
                    Err(CodecError::Malformed)
                } else if s.len() - n < len {
                    Err(CodecError::Incomplete)
                } else {
                    match sp_varint(s.skip(n as int)) {
                        Err(e) => {
                            if e == CodecError::Truncated {
                                Err(CodecError::Malformed)
                            } else {
                                Err(e)
                            }
                        },
                        Ok((id, m)) => {
                            if m > len {
                                Err(CodecError::Malformed)
                            } else {
                                match Self::sp_dispatch(s.skip((n + m) as int), state, id as int) {
                                    Err(e) => Err(e),
                                    Ok((pv, k)) => {
                                        if m + k == len {
                                            Ok((pv, (n + m + k) as nat))
                                        } else {
                                            Err(CodecError::Malformed)
                                        }
                                    },
                                }
                            }
                        },
                    }
                }
            },
        }
    }
}

impl Packet for ServerboundPacket {
    open spec fn spec_parse(s: Seq<u8>, state: State) -> Result<(SbView, nat), CodecError> {
        Self::sp_frame(s, state)
    }

    open spec fn spec_payload(&self) -> Seq<u8> {
        match self {
            ServerboundPacket::Handshake(p) => p.spec_payload(),
            ServerboundPacket::StatusRequest(p) => p.spec_payload(),
            ServerboundPacket::Ping(p) => p.spec_payload(),
            ServerboundPacket::LoginStart(p) => p.spec_payload(),
            ServerboundPacket::EncryptionResponse(p) => p.spec_payload(),
        }
    }

    open spec fn payload_fits(&self) -> bool {
        match self {
            ServerboundPacket::Handshake(p) => p.payload_fits(),
            ServerboundPacket::StatusRequest(p) => p.payload_fits(),
            ServerboundPacket::Ping(p) => p.payload_fits(),
            ServerboundPacket::LoginStart(p) => p.payload_fits(),
            ServerboundPacket::EncryptionResponse(p) => p.payload_fits(),
        }
    }

    open spec fn spec_id(&self) -> int {
        match self {
            ServerboundPacket::Handshake(_) => 0x0,
            ServerboundPacket::StatusRequest(_) => 0x0,
            ServerboundPacket::Ping(_) => 0x1,
            ServerboundPacket::LoginStart(_) => 0x0,
            ServerboundPacket::EncryptionResponse(_) => 0x1,
        }
    }

    open spec fn spec_state(&self) -> State {
        match self {
            ServerboundPacket::Handshake(_) => State::Handshake,
            ServerboundPacket::StatusRequest(_) => State::Status,
            ServerboundPacket::Ping(_) => State::Status,
            ServerboundPacket::LoginStart(_) => State::Login,
            ServerboundPacket::EncryptionResponse(_) => State::Login,
        }
    }

    fn deserialize(buffer: &mut Buffer, state: &State) -> (r: Result<Self, CodecError>) {
        broadcast use crate::wire::lemma_i32_u32_inverse;

        let ghost s = old(buffer).remaining();
        let start = buffer.cursor();
        let len = match buffer.read_varint() {
            Ok(v) => v,
            Err(CodecError::Truncated) => {
                return Err(CodecError::Incomplete);
            },
            Err(_) => {
                return Err(CodecError::VarIntTooBig);
            },
        };
        let ghost n = buffer.pos() - old(buffer).pos();
        proof {
            assert(sp_varint(s) == Ok::<_, CodecError>((len, n as nat)));
            assert(buffer.remaining() =~= s.skip(n));
        }
        if len < 0 {
            buffer.seek(start);
            return Err(CodecError::Malformed);
        }
        if !buffer.has_at_least(len as usize) {
            buffer.seek(start);
            return Err(CodecError::Incomplete);
        }
        let id_start = buffer.cursor();
        let id = match buffer.read_varint() {
            Ok(v) => v,
            Err(e) => {
                buffer.seek(start);
                if e == CodecError::Truncated {
                    return Err(CodecError::Malformed);
                } else {
                    return Err(CodecError::VarIntTooBig);
                }
            },
        };
        let ghost m = buffer.pos() - old(buffer).pos() - n;
        proof {
            assert(sp_varint(s.skip(n)) == Ok::<_, CodecError>((id, m as nat)));
            assert(buffer.remaining() =~= s.skip(n + m));
        }
        let id_len = buffer.cursor() - id_start;
        if id_len > len as usize {
            buffer.seek(start);
            return Err(CodecError::Malformed);
        }
        let body = match *state {
            State::Handshake => {
                if id == 0x0 {
                    HandshakePacket::deserialize(buffer)
                } else {
                    Err(CodecError::UnknownPacket)
                }
            },
            State::Play => Err(CodecError::UnknownPacket),
            State::Status => {
                if id == 0x0 {
                    StatusRequestPacket::deserialize(buffer)
                } else if id == 0x1 {
                    PingPacket::deserialize(buffer)
                } else {
                    Err(CodecError::UnknownPacket)
                }
            },
            State::Login => {
                if id == 0x0 {
                    LoginStartPacket::deserialize(buffer)
                } else if id == 0x1 {
                    EncryptionResponsePacket::deserialize(buffer)
                } else {
                    Err(CodecError::UnknownPacket)
                }
            },
        };
        let p = match body {
            Ok(p) => p,
            Err(e) => {
                buffer.seek(start);
                return Err(e);
            },
        };
        let consumed = buffer.cursor() - id_start;
        if consumed != len as usize {
            buffer.seek(start);
            return Err(CodecError::Malformed);
        }
        Ok(p)
    }

    fn serialize(&self, buffer: &mut Buffer) -> (r: Result<(), CodecError>) {
        match self {
            ServerboundPacket::Handshake(p) => p.serialize(buffer),
            ServerboundPacket::StatusRequest(p) => p.serialize(buffer),
            ServerboundPacket::Ping(p) => p.serialize(buffer),
            ServerboundPacket::LoginStart(p) => p.serialize(buffer),
            ServerboundPacket::EncryptionResponse(p) => p.serialize(buffer),
        }
    }

    fn get_id(&self) -> (r: i32) {
        match self {
            ServerboundPacket::Handshake(_) => 0x0,
            ServerboundPacket::StatusRequest(_) => 0x0,
            ServerboundPacket::Ping(_) => 0x1,
            ServerboundPacket::LoginStart(_) => 0x0,
            ServerboundPacket::EncryptionResponse(_) => 0x1,
        }
    }

    fn get_state(&self) -> (r: State) {
        match self {
            ServerboundPacket::Handshake(_) => State::Handshake,
            ServerboundPacket::StatusRequest(_) => State::Status,
            ServerboundPacket::Ping(_) => State::Status,
            ServerboundPacket::LoginStart(_) => State::Login,
            ServerboundPacket::EncryptionResponse(_) => State::Login,
        }
    }
}

/// Frame round trip, frame plumbing: when the payload parser of
/// `(state, id)` accepts a payload exactly, the whole framed packet —
/// VarInt frame length, VarInt id, payload — parses back to the same
/// view, whatever bytes follow the frame, consuming exactly the frame.
#[verifier::rlimit(100)]
pub proof fn lemma_frame_round_trip(
    id: nat,
    payload: Seq<u8>,
    rest: Seq<u8>,
    state: State,
    pv: SbView,
)
    requires
        id < 128,
        1 + payload.len() < 0x8000_0000,
        ServerboundPacket::sp_dispatch(payload + rest, state, id as int) == Ok::<
            (SbView, nat),
            CodecError,
        >((pv, payload.len() as nat)),
    ensures
        ServerboundPacket::sp_frame(crate::stream::frame_of(id, payload) + rest, state) matches Ok(
            pr,
        ) && pr.0 == pv && pr.1 == crate::stream::frame_of(id, payload).len(),
{
    broadcast use crate::wire::lemma_i32_u32_inverse;

    let wire = crate::wire::var_bytes(id) + payload;
    let frame = crate::stream::frame_of(id, payload);
    let s = frame + rest;
    let ell = wire.len();
    crate::wire::lemma_var_bound_32();
    crate::wire::lemma_var_round_trip(ell, wire + rest, 5, 16);
    assert(s =~= crate::wire::var_bytes(ell) + (wire + rest));
    let n = crate::wire::var_bytes(ell).len();
    assert(crate::wire::sp_varint(s) == Ok::<_, CodecError>((ell as i32, n as nat)));
    assert(crate::wire::var_bytes(id) =~= seq![id as u8]);
    assert(s.skip(n as int) =~= crate::wire::var_bytes(id) + (payload + rest));
    crate::wire::lemma_var_round_trip(id, payload + rest, 5, 16);
    assert(crate::wire::sp_varint(s.skip(n as int)) == Ok::<_, CodecError>(
        (id as i32, 1nat),
    ));
    assert(s.skip(n as int + 1) =~= payload + rest);
    assert(ell == 1 + payload.len());
    assert(s.len() - n >= ell);
    assert(frame.len() == n + ell);
}

/// Frame round trip of the handshake packet: the serializer's field
/// order — VarInt protocol, string address, unsigned short port,
/// VarInt next — framed and parsed back is the identity.
pub proof fn lemma_handshake_frame_round_trip(hv: HandshakeView, rest: Seq<u8>)
    requires
        crate::wire::str_fits(hv.address),
        1 + crate::wire::var_bytes(crate::wire::u32_of_i32(hv.protocol) as nat).len()
            + crate::wire::spec_str_bytes(hv.address).len() + 2 + crate::wire::var_bytes(
            crate::wire::u32_of_i32(hv.next) as nat,
        ).len() < 0x8000_0000,
    ensures
        ({
            let payload = crate::wire::var_bytes(crate::wire::u32_of_i32(hv.protocol) as nat)
                + crate::wire::spec_str_bytes(hv.address) + crate::wire::be16(hv.port)
                + crate::wire::var_bytes(crate::wire::u32_of_i32(hv.next) as nat);
            let frame = crate::stream::frame_of(0, payload);
            ServerboundPacket::sp_frame(frame + rest, State::Handshake) matches Ok(pr) && pr.0
                == SbView::Handshake(hv) && pr.1 == frame.len()
        }),
{
    broadcast use crate::wire::lemma_i32_u32_inverse;

    let pbytes = crate::wire::var_bytes(crate::wire::u32_of_i32(hv.protocol) as nat);
    let sbytes = crate::wire::spec_str_bytes(hv.address);
    let obytes = crate::wire::be16(hv.port);
    let nbytes = crate::wire::var_bytes(crate::wire::u32_of_i32(hv.next) as nat);
    let payload = pbytes + sbytes + obytes + nbytes;
    crate::wire::lemma_var_bound_32();
    let body = payload + rest;
    assert(body =~= pbytes + (sbytes + obytes + nbytes + rest));
    crate::wire::lemma_var_round_trip(
        crate::wire::u32_of_i32(hv.protocol) as nat,
        sbytes + obytes + nbytes + rest,
        5,
        16,
    );
    let a = pbytes.len();
    assert(crate::wire::sp_varint(body) == Ok::<_, CodecError>((hv.protocol, a as nat)));
    assert(body.skip(a as int) =~= sbytes + (obytes + nbytes + rest));
    crate::wire::lemma_string_round_trip(hv.address, obytes + nbytes + rest);
    let b = sbytes.len();
    assert(crate::wire::sp_string(body.skip(a as int)) == Ok::<_, CodecError>(
        (hv.address, b as nat),
    ));
    assert(body.skip((a + b) as int) =~= obytes + (nbytes + rest));
    assert(body.skip((a + b) as int).take(2) =~= obytes);
    crate::wire::lemma_be16_val_inverse(hv.port);
    assert(crate::wire::sp_u16(body.skip((a + b) as int)) == Ok::<_, CodecError>(
        (hv.port, 2nat),
    ));
    assert(body.skip((a + b + 2) as int) =~= nbytes + rest);
    crate::wire::lemma_var_round_trip(crate::wire::u32_of_i32(hv.next) as nat, rest, 5, 16);
    let d = nbytes.len();
    assert(crate::wire::sp_varint(body.skip((a + b + 2) as int)) == Ok::<_, CodecError>(
        (hv.next, d as nat),
    ));
    assert(HandshakePacket::sp_body(body) matches Ok(pr) && pr.0 == SbView::Handshake(hv) && pr.1
        == (a + b + 2 + d) as nat);
    assert(payload.len() == a + b + 2 + d);
    lemma_frame_round_trip(0, payload, rest, State::Handshake, SbView::Handshake(hv));
}

/// Frame round trip of the login-start packet: one string, the
/// username.
pub proof fn lemma_login_start_frame_round_trip(lv: LoginStartView, rest: Seq<u8>)
    requires
        crate::wire::str_fits(lv.username),
        1 + crate::wire::spec_str_bytes(lv.username).len() < 0x8000_0000,
    ensures
        ({
            let payload = crate::wire::spec_str_bytes(lv.username);
            let frame = crate::stream::frame_of(0, payload);
            ServerboundPacket::sp_frame(frame + rest, State::Login) matches Ok(pr) && pr.0
                == SbView::LoginStart(lv) && pr.1 == frame.len()
        }),
{
    let payload = crate::wire::spec_str_bytes(lv.username);
    crate::wire::lemma_string_round_trip(lv.username, rest);
    assert(LoginStartPacket::sp_body(payload + rest) matches Ok(pr) && pr.0 == SbView::LoginStart(
        lv,
    ) && pr.1 == payload.len() as nat);
    lemma_frame_round_trip(0, payload, rest, State::Login, SbView::LoginStart(lv));
}

/// Frame round trip of the ping packet: one big-endian long.
pub proof fn lemma_ping_frame_round_trip(pv: PingView, rest: Seq<u8>)
    ensures
        ({
            let payload = crate::wire::be64(crate::wire::u64_of_i64(pv.payload));
            let frame = crate::stream::frame_of(1, payload);
            ServerboundPacket::sp_frame(frame + rest, State::Status) matches Ok(pr) && pr.0
                == SbView::Ping(pv) && pr.1 == frame.len()
        }),
{
    broadcast use crate::wire::lemma_i64_u64_inverse;

    let payload = crate::wire::be64(crate::wire::u64_of_i64(pv.payload));
    crate::wire::lemma_be64_val_inverse(crate::wire::u64_of_i64(pv.payload));
    assert((payload + rest).take(8) =~= payload);
    assert(PingPacket::sp_body(payload + rest) matches Ok(pr) && pr.0 == SbView::Ping(pv) && pr.1
        == payload.len() as nat);
    lemma_frame_round_trip(1, payload, rest, State::Status, SbView::Ping(pv));
}

/// A packet id legal in one state and sent in another is rejected:
/// dispatch depends on the current state alone, and outside the
/// state's table the outcome is exactly `UnknownPacket`.
pub proof fn lemma_state_scoped_dispatch(s: Seq<u8>, state: State, id: int)
    requires
        !ServerboundPacket::id_known(state, id),
    ensures
        ServerboundPacket::sp_dispatch(s, state, id) == Err::<(SbView, nat), CodecError>(
            CodecError::UnknownPacket,
        ),
{
}

} // verus!
