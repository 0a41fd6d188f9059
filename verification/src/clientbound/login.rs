//! Login-state packets to the client: the disconnect notice, the
//! encryption request that opens the key exchange, and the login
//! success that completes it.
//!
//! A disconnect reason is carried as the serialized text of the chat
//! document; the conversion between a document value and that text is
//! the business of the external document serializer.

use crate::buffer::Buffer;
use crate::clientbound::{CbView, ClientboundPacket};
use crate::error::CodecError;
use crate::uuid::{lemma_uuid_ascii_len, spec_parse_uuid, uuid_ascii, Uuid};
use crate::wire::{
    lemma_i32_u32_inverse, sp_counted_bytes, sp_string, spec_str_bytes, str_fits, u32_of_i32,
    var_bytes,
};
use vstd::prelude::*;

verus! {

#[derive(Debug)]
pub struct DisconnectPacket {
    pub reason: String,
}

pub struct DisconnectView {
    pub reason: Seq<char>,
}

impl View for DisconnectPacket {
    type V = DisconnectView;

    open spec fn view(&self) -> DisconnectView {
        DisconnectView { reason: self.reason@ }
    }
}

impl DisconnectPacket {
    /// Wrap a serialized reason document.
    pub fn new(reason: String) -> (r: ClientboundPacket)
        ensures
            r matches ClientboundPacket::Disconnect(p) && p.reason@ == reason@,
    {
        ClientboundPacket::Disconnect(DisconnectPacket { reason })
    }

    pub open spec fn sp_body(s: Seq<u8>) -> Result<(CbView, nat), CodecError> {
        match sp_string(s) {
            Err(e) => Err(e),
            Ok((reason, a)) => Ok((CbView::Disconnect(DisconnectView { reason }), a)),
        }
    }

    pub open spec fn spec_payload(&self) -> Seq<u8> {
        spec_str_bytes(self.reason@)
    }

    pub open spec fn payload_fits(&self) -> bool {
        str_fits(self.reason@)
    }

    pub fn deserialize(buffer: &mut Buffer) -> (r: Result<ClientboundPacket, CodecError>)
        requires
            old(buffer).wf(),
        ensures
            final(buffer).wf(),
            final(buffer).data() == old(buffer).data(),
            match r {
                Ok(p) => Self::sp_body(old(buffer).remaining()) matches Ok(pr) && pr.0 == p@
                    && final(buffer).pos() == old(buffer).pos() + pr.1,
                Err(e) => Self::sp_body(old(buffer).remaining()) == Err::<
                    (CbView, nat),
                    CodecError,
                >(e),
            },
    {
        let reason = match buffer.read_string() {
            Ok(v) => v,
            Err(e) => {
                return Err(e);
            },
        };
        Ok(ClientboundPacket::Disconnect(DisconnectPacket { reason }))
    }

    pub fn serialize(&self, buffer: &mut Buffer) -> (r: Result<(), CodecError>)
        requires
            old(buffer).wf(),
        ensures
            final(buffer).wf(),
            final(buffer).pos() == old(buffer).pos(),
            r is Ok <==> self.payload_fits(),
            r is Ok ==> final(buffer).data() == old(buffer).data() + self.spec_payload(),
            r is Err ==> final(buffer).data() == old(buffer).data(),
    {
        match buffer.write_string(self.reason.as_str()) {
            Ok(_) => Ok(()),
            Err(e) => Err(e),
        }
    }
}

#[derive(Debug)]
pub struct EncryptionRequestPacket {
    pub server_id: String,
    pub public_key_length: i32,
    pub public_key: Vec<u8>,
    pub verify_token_length: i32,
    pub verify_token: Vec<u8>,
}

pub struct EncryptionRequestView {
    pub server_id: Seq<char>,
    pub public_key_length: i32,
    pub public_key: Seq<u8>,
    pub verify_token_length: i32,
    pub verify_token: Seq<u8>,
}

impl View for EncryptionRequestPacket {
    type V = EncryptionRequestView;

    open spec fn view(&self) -> EncryptionRequestView {
        EncryptionRequestView {
            server_id: self.server_id@,
            public_key_length: self.public_key_length,
            public_key: self.public_key@,
            verify_token_length: self.verify_token_length,
            verify_token: self.verify_token@,
        }
    }
}

impl EncryptionRequestPacket {
    /// Build the server's challenge: its public key in DER form and the
    /// connection's verify token.
    pub fn new(server_id: &str, public_key: &[u8], verify_token: &[u8]) -> (r: ClientboundPacket)
        requires
            public_key@.len() <= 0x7fff_ffff,
            verify_token@.len() <= 0x7fff_ffff,
        ensures
            r matches ClientboundPacket::EncryptionRequest(p) && p.server_id@ == server_id@
                && p.public_key@ == public_key@ && p.public_key_length == public_key@.len()
                && p.verify_token@ == verify_token@ && p.verify_token_length
                == verify_token@.len(),
    {
        let mut pk: Vec<u8> = Vec::new();
        pk.extend_from_slice(public_key);
        let mut vt: Vec<u8> = Vec::new();
        vt.extend_from_slice(verify_token);
        proof {
            assert(pk@ =~= public_key@);
            assert(vt@ =~= verify_token@);
        }
        ClientboundPacket::EncryptionRequest(
            EncryptionRequestPacket {
                server_id: server_id.to_owned(),
                public_key_length: pk.len() as i32,
                public_key: pk,
                verify_token_length: vt.len() as i32,
                verify_token: vt,
            },
        )
    }

    pub open spec fn sp_body(s: Seq<u8>) -> Result<(CbView, nat), CodecError> {
        match sp_string(s) {
            Err(e) => Err(e),
            Ok((server_id, a)) => match sp_counted_bytes(s.skip(a as int)) {
                Err(e) => Err(e),
                Ok((key, b)) => match sp_counted_bytes(s.skip((a + b) as int)) {
                    Err(e) => Err(e),
                    Ok((token, c)) => Ok(
                        (
                            CbView::EncryptionRequest(
                                EncryptionRequestView {
                                    server_id,
                                    public_key_length: key.len() as i32,
                                    public_key: key,
                                    verify_token_length: token.len() as i32,
                                    verify_token: token,
                                },
                            ),
                            (a + b + c) as nat,
                        ),
                    ),
                },
            },
        }
    }

    pub open spec fn spec_payload(&self) -> Seq<u8> {
        spec_str_bytes(self.server_id@) + var_bytes(u32_of_i32(self.public_key_length) as nat)
            + self.public_key@ + var_bytes(u32_of_i32(self.verify_token_length) as nat)
            + self.verify_token@
    }

    pub open spec fn payload_fits(&self) -> bool {
        str_fits(self.server_id@)
    }

    pub fn deserialize(buffer: &mut Buffer) -> (r: Result<ClientboundPacket, CodecError>)
        requires
            old(buffer).wf(),
        ensures
            final(buffer).wf(),
            final(buffer).data() == old(buffer).data(),
            match r {
                Ok(p) => Self::sp_body(old(buffer).remaining()) matches Ok(pr) && pr.0 == p@
                    && final(buffer).pos() == old(buffer).pos() + pr.1,
                Err(e) => Self::sp_body(old(buffer).remaining()) == Err::<
                    (CbView, nat),
                    CodecError,
                >(e),
            },
    {
        let ghost s = old(buffer).remaining();
        let server_id = match buffer.read_string() {
            Ok(v) => v,
            Err(e) => {
                return Err(e);
            },
        };
        let ghost a = buffer.pos() - old(buffer).pos();
        proof {
            assert(sp_string(s) matches Ok(p) && p.0 == server_id@ && p.1 == a as nat);
            assert(buffer.remaining() =~= s.skip(a));
        }
        let (key_len, public_key) = match buffer.read_counted_bytes() {
            Ok(v) => v,
            Err(e) => {
                return Err(e);
            },
        };
        let ghost b = buffer.pos() - old(buffer).pos() - a;
        proof {
            assert(sp_counted_bytes(s.skip(a)) matches Ok(p) && p.0 == public_key@ && p.1
                == b as nat);
            assert(buffer.remaining() =~= s.skip(a + b));
        }
        let (token_len, verify_token) = match buffer.read_counted_bytes() {
            Ok(v) => v,
            Err(e) => {
                return Err(e);
            },
        };
        proof {
            assert(sp_counted_bytes(s.skip(a + b)) matches Ok(p) && p.0 == verify_token@);
        }
        Ok(
            ClientboundPacket::EncryptionRequest(
                EncryptionRequestPacket {
                    server_id,
                    public_key_length: key_len,
                    public_key,
                    verify_token_length: token_len,
                    verify_token,
                },
            ),
        )
    }

    pub fn serialize(&self, buffer: &mut Buffer) -> (r: Result<(), CodecError>)
        requires
            old(buffer).wf(),
        ensures
            final(buffer).wf(),
            final(buffer).pos() == old(buffer).pos(),
            r is Ok <==> self.payload_fits(),
            r is Ok ==> final(buffer).data() == old(buffer).data() + self.spec_payload(),
            r is Err ==> final(buffer).data() == old(buffer).data(),
    {
        if self.server_id.as_str().as_bytes().len() > 0x7fff_ffff {
            return Err(CodecError::OutOfRange);
        }
        let w = buffer.write_string(self.server_id.as_str());
        proof {
            assert(w is Ok);
        }
        buffer.write_varint(self.public_key_length);
        buffer.write_ubyte_array(self.public_key.as_slice());
        buffer.write_varint(self.verify_token_length);
        buffer.write_ubyte_array(self.verify_token.as_slice());
        assert(buffer.data() =~= old(buffer).data() + self.spec_payload());
        Ok(())
    }
}

#[derive(Debug)]
pub struct LoginSuccessPacket {
    pub uuid: Uuid,
    pub username: String,
}

pub struct LoginSuccessView {
    pub uuid: u128,
    pub username: Seq<char>,
}

impl View for LoginSuccessPacket {
    type V = LoginSuccessView;

    open spec fn view(&self) -> LoginSuccessView {
        LoginSuccessView { uuid: self.uuid.0, username: self.username@ }
    }
}

impl LoginSuccessPacket {
    pub fn new(uuid: Uuid, username: &str) -> (r: ClientboundPacket)
        ensures
            r matches ClientboundPacket::LoginSuccess(p) && p.uuid == uuid && p.username@
                == username@,
    {
        ClientboundPacket::LoginSuccess(
            LoginSuccessPacket { uuid, username: username.to_owned() },
        )
    }

    /// A string holding the hyphenated id, then the username string.
    pub open spec fn sp_body(s: Seq<u8>) -> Result<(CbView, nat), CodecError> {
        match sp_string(s) {
            Err(e) => Err(e),
            Ok((id_chars, a)) => match spec_parse_uuid(vstd::utf8::encode_utf8(id_chars)) {
                None => Err(CodecError::Malformed),
                Some(v) => match sp_string(s.skip(a as int)) {
                    Err(e) => Err(e),
                    Ok((username, b)) => Ok(
                        (
                            CbView::LoginSuccess(LoginSuccessView { uuid: v, username }),
                            (a + b) as nat,
                        ),
                    ),
                },
            },
        }
    }

    pub open spec fn spec_payload(&self) -> Seq<u8> {
        var_bytes(36) + uuid_ascii(self.uuid.0) + spec_str_bytes(self.username@)
    }

    pub open spec fn payload_fits(&self) -> bool {
        str_fits(self.username@)
    }

    pub fn deserialize(buffer: &mut Buffer) -> (r: Result<ClientboundPacket, CodecError>)
        requires
            old(buffer).wf(),
        ensures
            final(buffer).wf(),
            final(buffer).data() == old(buffer).data(),
            match r {
                Ok(p) => Self::sp_body(old(buffer).remaining()) matches Ok(pr) && pr.0 == p@
                    && final(buffer).pos() == old(buffer).pos() + pr.1,
                Err(e) => Self::sp_body(old(buffer).remaining()) == Err::<
                    (CbView, nat),
                    CodecError,
                >(e),
            },
    {
        let ghost s = old(buffer).remaining();
        let id_text = match buffer.read_string() {
            Ok(v) => v,
            Err(e) => {
                return Err(e);
            },
        };
        let ghost a = buffer.pos() - old(buffer).pos();
        proof {
            assert(sp_string(s) matches Ok(p) && p.0 == id_text@ && p.1 == a as nat);
            assert(buffer.remaining() =~= s.skip(a));
        }
        let uuid = match Uuid::parse_bytes(id_text.as_str().as_bytes()) {
            Some(u) => u,
            None => {
                return Err(CodecError::Malformed);
            },
        };
        let username = match buffer.read_string() {
            Ok(v) => v,
            Err(e) => {
                return Err(e);
            },
        };
        Ok(ClientboundPacket::LoginSuccess(LoginSuccessPacket { uuid, username }))
    }

    pub fn serialize(&self, buffer: &mut Buffer) -> (r: Result<(), CodecError>)
        requires
            old(buffer).wf(),
        ensures
            final(buffer).wf(),
            final(buffer).pos() == old(buffer).pos(),
            r is Ok <==> self.payload_fits(),
            r is Ok ==> final(buffer).data() == old(buffer).data() + self.spec_payload(),
            r is Err ==> final(buffer).data() == old(buffer).data(),
    {
        if self.username.as_str().as_bytes().len() > 0x7fff_ffff {
            return Err(CodecError::OutOfRange);
        }
        let id_text = self.uuid.to_hyphenated();
        proof {
            lemma_uuid_ascii_len(self.uuid.0);
        }
        let w = buffer.write_string(id_text.as_str());
        proof {
            assert(w is Ok);
            assert(vstd::utf8::encode_utf8(id_text@) == uuid_ascii(self.uuid.0));
            assert(vstd::utf8::encode_utf8(id_text@).len() == 36);
        }
        let w2 = buffer.write_string(self.username.as_str());
        proof {
            assert(w2 is Ok);
        }
        assert(buffer.data() =~= old(buffer).data() + self.spec_payload());
        Ok(())
    }
}

} // verus!
