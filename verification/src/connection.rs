//! The engine's top-level handle: the process-wide RSA keypair, the
//! internal handlers of the handshake sequence, and the per-iteration
//! decision step the event loop drives. Socket accept/read/write, the
//! 20 Hz cadence and the session HTTP query live outside this crate;
//! they feed bytes in, carry bytes out, and run the session query this
//! engine asks for.

use crate::crypto::{rsa_decrypt, rsa_generate, rsa_public_der};
use crate::error::{CodecError, EngineError};
use crate::mojang::{create_server_hash, sha1_of, spec_auth_ascii, Profile};
use crate::packet::{Packet, State};
use crate::serverbound::handshake::HandshakePacket;
use crate::serverbound::login::{EncryptionResponsePacket, LoginStartPacket};
use crate::serverbound::ServerboundPacket;
use crate::stream::{frame_of, Stream};
use crate::uuid::{spec_parse_uuid, Uuid};
use crate::wire::{spec_str_bytes, var_bytes};
use vstd::prelude::*;

verus! {

pub const PROTOCOL_VERSION: i32 = 701;

pub const PROTOCOL_NAME: &'static str = "20w06a";

/// The payload of an encryption request over plain values.
pub open spec fn enc_request_payload(server_id: Seq<char>, key: Seq<u8>, token: Seq<u8>) -> Seq<
    u8,
> {
    spec_str_bytes(server_id) + var_bytes(key.len()) + key + var_bytes(token.len()) + token
}

/// What the engine asks the session collaborator: confirm that
/// `username` owns the account bound to `server_hash`, which digests
/// the shared secret and the server's public key.
pub struct SessionQuery {
    pub username: String,
    pub server_hash: String,
    pub shared_secret: Vec<u8>,
}

/// The outcome of one engine step on one connection.
pub enum StepOutcome {
    /// Nothing decodable yet; retry after more bytes arrive.
    Idle,
    /// A packet was decoded; the byte strings are the responses the
    /// engine produced (already framed, ciphered if the connection is),
    /// to be written to the socket in order. The packet itself goes to
    /// the caller's dispatch.
    Packet(ServerboundPacket, Vec<Vec<u8>>),
    /// An encryption response passed the challenge check; the caller
    /// must run the session query and then call `complete_login`.
    NeedSession(ServerboundPacket, SessionQuery),
    /// A fatal decode error: drop this connection.
    Drop(CodecError),
    /// A fatal handshake error: drop this connection.
    Fail(EngineError),
}

pub struct ConnectionHandler {
    rsa: openssl::rsa::Rsa<openssl::pkey::Private>,
    rsa_pub_der: Vec<u8>,
}

impl ConnectionHandler {
    /// The DER bytes of the public key shared with every connection.
    pub closed spec fn pub_der(&self) -> Seq<u8> {
        self.rsa_pub_der@
    }

    /// The DER of any practical key is a few hundred bytes; keeping it
    /// under this bound lets the encryption request always fit its
    /// frame.
    pub closed spec fn wf(&self) -> bool {
        self.rsa_pub_der@.len() <= 0x1000
    }

    /// Generate the process-wide 1024-bit keypair. A failure here is
    /// the engine's startup failure.
    pub fn new() -> (r: Result<ConnectionHandler, EngineError>)
        ensures
            r matches Ok(h) ==> h.wf(),
    {
        let rsa = match rsa_generate(1024) {
            Some(k) => k,
            None => {
                return Err(EngineError::CipherFailed);
            },
        };
        let rsa_pub_der = match rsa_public_der(&rsa) {
            Some(d) => d,
            None => {
                return Err(EngineError::CipherFailed);
            },
        };
        if rsa_pub_der.len() > 0x1000 {
            return Err(EngineError::CipherFailed);
        }
        Ok(ConnectionHandler { rsa, rsa_pub_der })
    }

    pub fn get_public_der(&self) -> (r: &Vec<u8>)
        ensures
            r@ == self.pub_der(),
    {
        &self.rsa_pub_der
    }

    /// The handshake transition: on a matching protocol version the
    /// connection moves to Status or Login as the packet's next field
    /// chooses; on a mismatch nothing changes.
    pub fn handle_handshake(&self, stream: &mut Stream, packet: &HandshakePacket) -> (r: Result<
        (),
        EngineError,
    >)
        requires
            old(stream).wf(),
        ensures
            final(stream).wf(),
            r is Ok,
            final(stream).challenge() == old(stream).challenge(),
            final(stream).username_view() == old(stream).username_view(),
            final(stream).buf_data() == old(stream).buf_data(),
            final(stream).encrypted() == old(stream).encrypted(),
            packet.protocol != PROTOCOL_VERSION ==> final(stream).cur_state() == old(
                stream,
            ).cur_state(),
            packet.protocol == PROTOCOL_VERSION && packet.next == 1 ==> final(stream).cur_state()
                == State::Status,
            packet.protocol == PROTOCOL_VERSION && packet.next != 1 ==> final(stream).cur_state()
                == State::Login,
    {
        if packet.protocol != PROTOCOL_VERSION {
            Ok(())
        } else {
            if packet.next == 1 {
                stream.set_state(State::Status);
            } else {
                stream.set_state(State::Login);
            }
            Ok(())
        }
    }

    /// Login start: cache the username and answer with the encryption
    /// request carrying the public key DER and the connection's verify
    /// challenge.
    pub fn handle_login_start(&self, stream: &mut Stream, packet: &LoginStartPacket) -> (r: Result<
        Vec<u8>,
        EngineError,
    >)
        requires
            old(stream).wf(),
            self.wf(),
        ensures
            final(stream).wf(),
            final(stream).username_view() == packet.username@,
            final(stream).cur_state() == old(stream).cur_state(),
            final(stream).challenge() == old(stream).challenge(),
            final(stream).buf_data() == old(stream).buf_data(),
            final(stream).encrypted() == old(stream).encrypted(),
            !old(stream).encrypted() ==> r is Ok,
            !old(stream).encrypted() ==> (r matches Ok(b) ==> b@ == frame_of(
                1,
                enc_request_payload(Seq::empty(), self.pub_der(), old(stream).challenge()),
            )),
    {
        stream.set_username(packet.username.as_str());
        let challenge = stream.get_verify_challenge();
        let mut token: Vec<u8> = Vec::new();
        token.extend_from_slice(challenge.as_slice());
        proof {
            assert(token@ =~= old(stream).challenge());
        }
        let res = crate::clientbound::login::EncryptionRequestPacket::new(
            "",
            self.rsa_pub_der.as_slice(),
            token.as_slice(),
        );
        proof {
            broadcast use crate::wire::lemma_i32_u32_inverse;

            reveal_strlit("");
            assert(res.spec_payload() =~= enc_request_payload(
                Seq::empty(),
                self.pub_der(),
                old(stream).challenge(),
            ));
            // the request always fits its frame: an empty server id,
            // a key held under the handle's bound, a 4-byte token
            assert(vstd::utf8::encode_utf8(""@) =~= Seq::<u8>::empty());
            crate::wire::lemma_var_bound_32();
            crate::wire::lemma_var_bytes_len(self.pub_der().len(), 5, 16);
            crate::wire::lemma_var_bytes_len(4, 5, 16);
            assert(res.spec_payload().len() <= 1 + 5 + 0x1000 + 5 + 4);
            assert(crate::stream::frame_fits(&res));
        }
        let bytes = match stream.send_packet(&res) {
            Ok(b) => b,
            Err(e) => {
                return Err(e);
            },
        };
        Ok(bytes)
    }

    /// Encryption response: decrypt the shared secret and the verify
    /// token with the private key; a token that does not exactly equal
    /// the connection's challenge is a challenge mismatch, fatal to the
    /// connection. On a match, hand back the session query the caller
    /// must run — its hash digests the decrypted secret and the
    /// server's public key.
    pub fn handle_encryption_response(
        &self,
        stream: &Stream,
        packet: &EncryptionResponsePacket,
    ) -> (r: Result<SessionQuery, EngineError>)
        requires
            stream.wf(),
        ensures
            r matches Ok(q) ==> q.username@ == stream.username_view() && vstd::utf8::encode_utf8(
                q.server_hash@,
            ) == spec_auth_ascii(sha1_of(q.shared_secret@ + self.pub_der())),
            r matches Err(e) ==> (e == EngineError::ChallengeMismatch || e
                == EngineError::DecryptFailed || e == EngineError::AuthenticationFailed),
    {
        let shared = match rsa_decrypt(&self.rsa, &packet.shared_secret) {
            Ok(v) => v,
            Err(e) => {
                return Err(e);
            },
        };
        let verify = match rsa_decrypt(&self.rsa, &packet.verify_token) {
            Ok(v) => v,
            Err(e) => {
                return Err(e);
            },
        };
        if !bytes_eq(&verify, stream.get_verify_challenge()) {
            return Err(EngineError::ChallengeMismatch);
        }
        let server_id: Vec<u8> = Vec::new();
        let hash = match create_server_hash(&server_id, &shared, &self.rsa_pub_der) {
            Some(h) => h,
            None => {
                return Err(EngineError::AuthenticationFailed);
            },
        };
        proof {
            assert(server_id@ + shared@ + self.pub_der() =~= shared@ + self.pub_der());
        }
        let username = clone_string(stream.get_username());
        Ok(SessionQuery { username, server_hash: hash, shared_secret: shared })
    }

    /// Complete a verified login: derive and install the cipher pair
    /// from the shared secret, send login success (already encrypted),
    /// and move the connection to Play. A profile id that is not a
    /// well-formed hyphenated id fails authentication.
    pub fn complete_login(
        &self,
        stream: &mut Stream,
        profile: &Profile,
        shared_secret: &Vec<u8>,
    ) -> (r: Result<Vec<u8>, EngineError>)
        requires
            old(stream).wf(),
        ensures
            final(stream).wf(),
            final(stream).challenge() == old(stream).challenge(),
            final(stream).username_view() == old(stream).username_view(),
            final(stream).buf_data() == old(stream).buf_data(),
            old(stream).encrypted() ==> final(stream).encrypted(),
            r is Ok ==> final(stream).cur_state() == State::Play && final(stream).encrypted(),
            r == Err::<Vec<u8>, EngineError>(EngineError::AuthenticationFailed) <==> spec_parse_uuid(
                vstd::utf8::encode_utf8(profile.id@),
            ) is None,
            r matches Err(e) ==> (e == EngineError::AuthenticationFailed || e
                == EngineError::CipherFailed || e matches EngineError::Codec(_)),
    {
        let uuid = match Uuid::parse_bytes(profile.id.as_str().as_bytes()) {
            Some(u) => u,
            None => {
                return Err(EngineError::AuthenticationFailed);
            },
        };
        match stream.set_encryption_key(shared_secret) {
            Ok(_) => {},
            Err(e) => {
                return Err(e);
            },
        }
        let username = clone_string(stream.get_username());
        let res = crate::clientbound::login::LoginSuccessPacket::new(uuid, username.as_str());
        let bytes = match stream.send_packet(&res) {
            Ok(b) => b,
            Err(e) => {
                return Err(e);
            },
        };
        stream.set_state(State::Play);
        Ok(bytes)
    }

    /// One decision step of the event loop for one connection: decode
    /// at most one frame from what is buffered and dispatch it. The
    /// handshake-sequence packets are handled internally; everything
    /// else is handed back for the caller's packet callback. An
    /// `Incomplete` decode is backpressure (`Idle`), never an error;
    /// every fatal outcome names the connection alone.
    pub fn process(&self, stream: &mut Stream) -> (r: StepOutcome)
        requires
            old(stream).wf(),
            self.wf(),
        ensures
            final(stream).wf(),
            final(stream).challenge() == old(stream).challenge(),
            old(stream).encrypted() ==> final(stream).encrypted(),
            match r {
                StepOutcome::Idle => ServerboundPacket::spec_parse(
                    old(stream).buf_data(),
                    old(stream).cur_state(),
                ) == Err::<(crate::serverbound::SbView, nat), CodecError>(CodecError::Incomplete)
                    && final(stream).buf_data() == old(stream).buf_data() && final(stream).cur_state() == old(stream).cur_state(),
                StepOutcome::Drop(e) => ServerboundPacket::spec_parse(
                    old(stream).buf_data(),
                    old(stream).cur_state(),
                ) == Err::<(crate::serverbound::SbView, nat), CodecError>(e) && e
                    != CodecError::Incomplete,
                StepOutcome::Packet(p, v) => ServerboundPacket::spec_parse(
                    old(stream).buf_data(),
                    old(stream).cur_state(),
                ) matches Ok(pr) && pr.0 == p@ && (p matches ServerboundPacket::Handshake(h) ==> (
                v@.len() == 0 && (h.protocol == PROTOCOL_VERSION && h.next == 1 ==> final(stream).cur_state() == State::Status) && (h.protocol == PROTOCOL_VERSION && h.next != 1
                    ==> final(stream).cur_state() == State::Login) && (h.protocol
                    != PROTOCOL_VERSION ==> final(stream).cur_state() == old(stream).cur_state())))
                    && (p matches ServerboundPacket::LoginStart(l) ==> (final(stream).username_view() == l.username@ && v@.len() == 1 && (!old(stream).encrypted()
                    ==> v@[0]@ == frame_of(
                    1,
                    enc_request_payload(Seq::empty(), self.pub_der(), old(stream).challenge()),
                )))),
                StepOutcome::NeedSession(p, q) => ServerboundPacket::spec_parse(
                    old(stream).buf_data(),
                    old(stream).cur_state(),
                ) matches Ok(pr) && pr.0 == p@ && (p matches
                    ServerboundPacket::EncryptionResponse(_)) && vstd::utf8::encode_utf8(
                    q.server_hash@,
                ) == spec_auth_ascii(sha1_of(q.shared_secret@ + self.pub_der())),
                StepOutcome::Fail(e) => ServerboundPacket::spec_parse(
                    old(stream).buf_data(),
                    old(stream).cur_state(),
                ) matches Ok(pr) && ((pr.0 matches crate::serverbound::SbView::LoginStart(_)
                    && old(stream).encrypted()) || (pr.0 matches
                    crate::serverbound::SbView::EncryptionResponse(_) && (e
                    == EngineError::ChallengeMismatch || e == EngineError::DecryptFailed || e
                    == EngineError::AuthenticationFailed))),
            },
    {
        let packet = match stream.read_packet() {
            Ok(p) => p,
            Err(CodecError::Incomplete) => {
                return StepOutcome::Idle;
            },
            Err(e) => {
                return StepOutcome::Drop(e);
            },
        };
        match &packet {
            ServerboundPacket::Handshake(h) => {
                match self.handle_handshake(stream, h) {
                    Ok(_) => {},
                    Err(e) => {
                        return StepOutcome::Fail(e);
                    },
                }
                StepOutcome::Packet(packet, Vec::new())
            },
            ServerboundPacket::LoginStart(l) => {
                match self.handle_login_start(stream, l) {
                    Ok(b) => {
                        let mut responses: Vec<Vec<u8>> = Vec::new();
                        responses.push(b);
                        StepOutcome::Packet(packet, responses)
                    },
                    Err(e) => StepOutcome::Fail(e),
                }
            },
            ServerboundPacket::EncryptionResponse(er) => {
                match self.handle_encryption_response(stream, er) {
                    Ok(q) => StepOutcome::NeedSession(packet, q),
                    Err(e) => StepOutcome::Fail(e),
                }
            },
            _ => StepOutcome::Packet(packet, Vec::new()),
        }
    }
}

/// Byte-for-byte equality of two byte vectors.
pub fn bytes_eq(a: &Vec<u8>, b: &Vec<u8>) -> (r: bool)
    ensures
        r == (a@ == b@),
{
    if a.len() != b.len() {
        return false;
    }
    let mut i: usize = 0;
    while i < a.len()
        invariant
            0 <= i <= a@.len(),
            a@.len() == b@.len(),
            forall|j: int| 0 <= j < i ==> a@[j] == b@[j],
        decreases a@.len() - i,
    {
        if a[i] != b[i] {
            return false;
        }
        i += 1;
    }
    proof {
        assert(a@ =~= b@);
    }
    true
}

/// An owned copy of a string.
pub fn clone_string(s: &String) -> (r: String)
    ensures
        r@ == s@,
{
    s.as_str().to_owned()
}

} // verus!
