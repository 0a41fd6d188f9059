//! Login-state packets from the client: login start with the claimed
//! username, and the encryption response carrying the RSA-encrypted
//! shared secret and verify-token echo.

use crate::buffer::Buffer;
use crate::error::CodecError;
use crate::serverbound::{SbView, ServerboundPacket};
use crate::wire::{
    lemma_i32_u32_inverse, sp_counted_bytes, sp_string, spec_str_bytes, str_fits, u32_of_i32,
    var_bytes,
};
use vstd::prelude::*;

verus! {

#[derive(Debug)]
pub struct LoginStartPacket {
    pub username: String,
}

pub struct LoginStartView {
    pub username: Seq<char>,
}

impl View for LoginStartPacket {
    type V = LoginStartView;

    open spec fn view(&self) -> LoginStartView {
        LoginStartView { username: self.username@ }
    }
}

impl LoginStartPacket {
    /// One string: the claimed username.
    pub open spec fn sp_body(s: Seq<u8>) -> Result<(SbView, nat), CodecError> {
        match sp_string(s) {
            Err(e) => Err(e),
            Ok((username, a)) => Ok((SbView::LoginStart(LoginStartView { username }), a)),
        }
    }

    pub open spec fn spec_payload(&self) -> Seq<u8> {
        spec_str_bytes(self.username@)
    }

    pub open spec fn payload_fits(&self) -> bool {
        str_fits(self.username@)
    }

    pub fn deserialize(buffer: &mut Buffer) -> (r: Result<ServerboundPacket, CodecError>)
        requires
            old(buffer).wf(),
        ensures
            final(buffer).wf(),
            final(buffer).data() == old(buffer).data(),
            match r {
                Ok(p) => Self::sp_body(old(buffer).remaining()) matches Ok(pr) && pr.0 == p@
                    && final(buffer).pos() == old(buffer).pos() + pr.1,
                Err(e) => Self::sp_body(old(buffer).remaining()) == Err::<
                    (SbView, nat),
                    CodecError,
                >(e),
            },
    {
        let username = match buffer.read_string() {
            Ok(v) => v,
            Err(e) => {
                return Err(e);
            },
        };
        Ok(ServerboundPacket::LoginStart(LoginStartPacket { username }))
    }

    pub fn serialize(&self, buffer: &mut Buffer) -> (r: Result<(), CodecError>)
        requires
            old(buffer).wf(),
        ensures
            final(buffer).wf(),
            final(buffer).pos() == old(buffer).pos(),
            r is Ok <==> self.payload_fits(),
            r is Ok ==> final(buffer).data() == old(buffer).data() + self.spec_payload(),
            r is Err ==> final(buffer).data() == old(buffer).data(),
    {
        match buffer.write_string(self.username.as_str()) {
            Ok(_) => Ok(()),
            Err(e) => Err(e),
        }
    }
}

#[derive(Debug)]
pub struct EncryptionResponsePacket {
    pub shared_secret_length: i32,
    pub shared_secret: Vec<u8>,
    pub verify_token_length: i32,
    pub verify_token: Vec<u8>,
}

pub struct EncryptionResponseView {
    pub shared_secret_length: i32,
    pub shared_secret: Seq<u8>,
    pub verify_token_length: i32,
    pub verify_token: Seq<u8>,
}

impl View for EncryptionResponsePacket {
    type V = EncryptionResponseView;

    open spec fn view(&self) -> EncryptionResponseView {
        EncryptionResponseView {
            shared_secret_length: self.shared_secret_length,
            shared_secret: self.shared_secret@,
            verify_token_length: self.verify_token_length,
            verify_token: self.verify_token@,
        }
    }
}

impl EncryptionResponsePacket {
    /// Two VarInt-counted byte arrays: the RSA-encrypted shared secret
    /// and the RSA-encrypted verify-token echo.
    pub open spec fn sp_body(s: Seq<u8>) -> Result<(SbView, nat), CodecError> {
        match sp_counted_bytes(s) {
            Err(e) => Err(e),
            Ok((secret, a)) => match sp_counted_bytes(s.skip(a as int)) {
                Err(e) => Err(e),
                Ok((token, b)) => Ok(
                    (
                        SbView::EncryptionResponse(
                            EncryptionResponseView {
                                shared_secret_length: secret.len() as i32,
                                shared_secret: secret,
                                verify_token_length: token.len() as i32,
                                verify_token: token,
                            },
                        ),
                        (a + b) as nat,
                    ),
                ),
            },
        }
    }

    pub open spec fn spec_payload(&self) -> Seq<u8> {
        var_bytes(u32_of_i32(self.shared_secret_length) as nat) + self.shared_secret@ + var_bytes(
            u32_of_i32(self.verify_token_length) as nat,
        ) + self.verify_token@
    }

    pub open spec fn payload_fits(&self) -> bool {
        true
    }

    pub fn deserialize(buffer: &mut Buffer) -> (r: Result<ServerboundPacket, CodecError>)
        requires
            old(buffer).wf(),
        ensures
            final(buffer).wf(),
            final(buffer).data() == old(buffer).data(),
            match r {
                Ok(p) => Self::sp_body(old(buffer).remaining()) matches Ok(pr) && pr.0 == p@
                    && final(buffer).pos() == old(buffer).pos() + pr.1,
                Err(e) => Self::sp_body(old(buffer).remaining()) == Err::<
                    (SbView, nat),
                    CodecError,
                >(e),
            },
    {
        let ghost s = old(buffer).remaining();
        let (secret_len, shared_secret) = match buffer.read_counted_bytes() {
            Ok(v) => v,
            Err(e) => {
                return Err(e);
            },
        };
        let ghost a = buffer.pos() - old(buffer).pos();
        proof {
            assert(sp_counted_bytes(s) matches Ok(p) && p.0 == shared_secret@ && p.1 == a as nat);
            assert(buffer.remaining() =~= s.skip(a));
        }
        let (token_len, verify_token) = match buffer.read_counted_bytes() {
            Ok(v) => v,
            Err(e) => {
                return Err(e);
            },
        };
        proof {
            assert(sp_counted_bytes(s.skip(a)) matches Ok(p) && p.0 == verify_token@);
        }
        Ok(
            ServerboundPacket::EncryptionResponse(
                EncryptionResponsePacket {
                    shared_secret_length: secret_len,
                    shared_secret,
                    verify_token_length: token_len,
                    verify_token,
                },
            ),
        )
    }

    pub fn serialize(&self, buffer: &mut Buffer) -> (r: Result<(), CodecError>)
        requires
            old(buffer).wf(),
        ensures
            final(buffer).wf(),
            final(buffer).pos() == old(buffer).pos(),
            r is Ok <==> self.payload_fits(),
            r is Ok ==> final(buffer).data() == old(buffer).data() + self.spec_payload(),
            r is Err ==> final(buffer).data() == old(buffer).data(),
    {
        buffer.write_varint(self.shared_secret_length);
        buffer.write_ubyte_array(self.shared_secret.as_slice());
        buffer.write_varint(self.verify_token_length);
        buffer.write_ubyte_array(self.verify_token.as_slice());
        assert(buffer.data() =~= old(buffer).data() + self.spec_payload());
        Ok(())
    }
}

} // verus!
