//! Per-connection state: the inbound byte accumulator, the current
//! protocol state, the verify challenge, the cached username, and the
//! optional symmetric cipher pair. Once the pair is installed, every
//! byte fed in and every frame sent out passes through it exactly
//! once, and no method ever uninstalls it.

use crate::buffer::Buffer;
use crate::clientbound::ClientboundPacket;
use crate::crypto::{cipher_new, cipher_update, random_challenge};
use crate::error::{CodecError, EngineError};
use crate::packet::{Packet, State};
use crate::serverbound::ServerboundPacket;
use crate::wire::var_bytes;
use vstd::prelude::*;

verus! {

/// A frame as it leaves the engine: VarInt length of the wire body,
/// then VarInt id, then the payload.
pub open spec fn frame_of(id: nat, payload: Seq<u8>) -> Seq<u8> {
    var_bytes((var_bytes(id) + payload).len()) + (var_bytes(id) + payload)
}

/// Whether a packet's frame fits its length prefixes: every
/// variable-length field fits, and the id-plus-payload wire body stays
/// under the frame-length VarInt with headroom for the cipher's block.
pub open spec fn frame_fits(packet: &ClientboundPacket) -> bool {
    packet.payload_fits() && (var_bytes(packet.spec_id() as nat) + packet.spec_payload()).len()
        <= 0x7fff_ffdf
}

/// Build the wire frame of one packet: VarInt length of the wire body,
/// then VarInt id, then the payload.
pub fn frame_packet(packet: &ClientboundPacket) -> (r: Result<Vec<u8>, EngineError>)
    ensures
        r is Ok <==> frame_fits(packet),
        r matches Ok(b) ==> b@ == frame_of(packet.spec_id() as nat, packet.spec_payload())
            && b@.len() <= 0x7fff_ffe4,
        r matches Err(e) ==> e matches EngineError::Codec(_),
{
    let mut out_buf = Buffer::new();
    out_buf.write_varint(packet.get_id());
    match packet.serialize(&mut out_buf) {
        Ok(_) => {},
        Err(e) => {
            return Err(EngineError::Codec(e));
        },
    }
    if out_buf.len() > 0x7fff_ffdf {
        return Err(EngineError::Codec(CodecError::OutOfRange));
    }
    proof {
        crate::wire::lemma_var_bound_32();
        crate::wire::lemma_var_bytes_len(out_buf.data().len(), 5, 16);
    }
    let mut final_buf = Buffer::new();
    final_buf.write_varint(out_buf.len() as i32);
    final_buf.extend(out_buf.as_raw());
    proof {
        assert(final_buf.data() =~= frame_of(packet.spec_id() as nat, packet.spec_payload()));
    }
    let mut frame: Vec<u8> = Vec::new();
    frame.extend_from_slice(final_buf.as_raw());
    proof {
        assert(frame@ =~= final_buf.data());
    }
    Ok(frame)
}

pub struct Stream {
    buf: Buffer,
    state: State,
    verify_challenge: Vec<u8>,
    in_cipher: Option<openssl::symm::Crypter>,
    out_cipher: Option<openssl::symm::Crypter>,
    username: String,
}

impl Stream {
    /// The buffered inbound bytes (already deciphered when a cipher is
    /// installed).
    pub closed spec fn buf_data(&self) -> Seq<u8> {
        self.buf.data()
    }

    pub closed spec fn cur_state(&self) -> State {
        self.state
    }

    pub closed spec fn challenge(&self) -> Seq<u8> {
        self.verify_challenge@
    }

    pub closed spec fn username_view(&self) -> Seq<char> {
        self.username@
    }

    /// Whether the symmetric cipher pair is installed.
    pub closed spec fn encrypted(&self) -> bool {
        self.in_cipher is Some && self.out_cipher is Some
    }

    /// The internal consistency of the buffer and cipher pair.
    pub closed spec fn inv(&self) -> bool {
        self.buf.wf() && (self.in_cipher is Some <==> self.out_cipher is Some)
    }

    pub open spec fn wf(&self) -> bool {
        self.inv() && self.challenge().len() == 4
    }

    /// A fresh connection: empty buffer, handshake state, a random
    /// 4-byte verify challenge, no cipher, no username.
    pub fn new() -> (r: Stream)
        ensures
            r.wf(),
            r.buf_data() == Seq::<u8>::empty(),
            r.cur_state() == State::Handshake,
            r.username_view() == Seq::<char>::empty(),
            !r.encrypted(),
    {
        Stream {
            buf: Buffer::new(),
            state: State::Handshake,
            verify_challenge: random_challenge(),
            in_cipher: None,
            out_cipher: None,
            username: String::new(),
        }
    }

    /// Feed raw bytes received from the socket into the accumulator,
    /// deciphering them first when the cipher pair is installed.
    pub fn feed(&mut self, bytes: &[u8]) -> (r: Result<(), EngineError>)
        requires
            old(self).wf(),
        ensures
            final(self).wf(),
            final(self).cur_state() == old(self).cur_state(),
            final(self).challenge() == old(self).challenge(),
            final(self).username_view() == old(self).username_view(),
            final(self).encrypted() == old(self).encrypted(),
            old(self).encrypted() ==> final(self).encrypted(),
            !old(self).encrypted() && r is Ok ==> final(self).buf_data() == old(self).buf_data()
                + bytes@,
            old(self).encrypted() && r is Ok ==> exists|d: Seq<u8>|
                final(self).buf_data() == old(self).buf_data() + d,
            r is Err ==> final(self).buf_data() == old(self).buf_data(),
            r matches Err(e) ==> e == EngineError::CipherFailed && old(self).encrypted(),
    {
        let mut taken = self.in_cipher.take();
        match taken {
            Some(mut c) => {
                if bytes.len() > 0x7fff_ffef {
                    self.in_cipher = Some(c);
                    return Err(EngineError::CipherFailed);
                }
                let mut raw: Vec<u8> = Vec::new();
                raw.extend_from_slice(bytes);
                let out = cipher_update(&mut c, &raw);
                self.in_cipher = Some(c);
                match out {
                    Some(clear) => {
                        self.buf.extend(clear.as_slice());
                        proof {
                            assert(self.buf_data() == old(self).buf_data() + clear@);
                        }
                        Ok(())
                    },
                    None => Err(EngineError::CipherFailed),
                }
            },
            None => {
                self.in_cipher = taken;
                self.buf.extend(bytes);
                Ok(())
            },
        }
    }

    /// Decode one frame from the buffered bytes. On success the
    /// consumed bytes are physically dropped; on `Incomplete` the
    /// buffer is left intact so the caller can retry once more bytes
    /// have been fed.
    pub fn read_packet(&mut self) -> (r: Result<ServerboundPacket, CodecError>)
        requires
            old(self).wf(),
        ensures
            final(self).wf(),
            final(self).cur_state() == old(self).cur_state(),
            final(self).challenge() == old(self).challenge(),
            final(self).username_view() == old(self).username_view(),
            final(self).encrypted() == old(self).encrypted(),
            match r {
                Ok(p) => ServerboundPacket::spec_parse(old(self).buf_data(), old(self).cur_state())
                    matches Ok(pr) && pr.0 == p@ && final(self).buf_data() == old(
                    self,
                ).buf_data().skip(pr.1 as int),
                Err(e) => ServerboundPacket::spec_parse(
                    old(self).buf_data(),
                    old(self).cur_state(),
                ) == Err::<(crate::serverbound::SbView, nat), CodecError>(e) && final(self).buf_data() == old(self).buf_data(),
            },
    {
        self.buf.reset_cursor();
        proof {
            assert(self.buf.remaining() =~= old(self).buf_data());
        }
        match ServerboundPacket::deserialize(&mut self.buf, &self.state) {
            Ok(p) => {
                let c = self.buf.cursor();
                self.buf.drain(c);
                Ok(p)
            },
            Err(e) => Err(e),
        }
    }

    /// Serialize one outbound packet into a length-prefixed frame and,
    /// when the cipher pair is installed, pass the whole frame through
    /// the outbound cipher. The returned bytes are what goes on the
    /// socket. On a plaintext connection the call succeeds exactly when
    /// the frame fits its length prefixes, and the bytes are the frame
    /// itself; on an enciphered one the same frame is what enters the
    /// cipher, and only the cipher provider can refuse.
    pub fn send_packet(&mut self, packet: &ClientboundPacket) -> (r: Result<Vec<u8>, EngineError>)
        requires
            old(self).wf(),
        ensures
            final(self).wf(),
            final(self).cur_state() == old(self).cur_state(),
            final(self).challenge() == old(self).challenge(),
            final(self).username_view() == old(self).username_view(),
            final(self).buf_data() == old(self).buf_data(),
            final(self).encrypted() == old(self).encrypted(),
            old(self).encrypted() ==> final(self).encrypted(),
            r is Ok ==> frame_fits(packet),
            !old(self).encrypted() ==> (r is Ok <==> frame_fits(packet)),
            !old(self).encrypted() ==> (r matches Ok(b) ==> b@ == frame_of(
                packet.spec_id() as nat,
                packet.spec_payload(),
            )),
            r matches Err(e) ==> ((e matches EngineError::Codec(_) && !frame_fits(packet)) || (e
                == EngineError::CipherFailed && old(self).encrypted() && frame_fits(packet))),
    {
        let frame = match frame_packet(packet) {
            Ok(b) => b,
            Err(e) => {
                return Err(e);
            },
        };
        let mut taken = self.out_cipher.take();
        match taken {
            Some(mut c) => {
                let out = cipher_update(&mut c, &frame);
                self.out_cipher = Some(c);
                match out {
                    Some(enc) => Ok(enc),
                    None => Err(EngineError::CipherFailed),
                }
            },
            None => {
                self.out_cipher = taken;
                Ok(frame)
            },
        }
    }

    pub fn set_state(&mut self, state: State)
        requires
            old(self).wf(),
        ensures
            final(self).wf(),
            final(self).cur_state() == state,
            final(self).challenge() == old(self).challenge(),
            final(self).username_view() == old(self).username_view(),
            final(self).buf_data() == old(self).buf_data(),
            final(self).encrypted() == old(self).encrypted(),
    {
        self.state = state;
    }

    pub fn get_state(&self) -> (r: &State)
        ensures
            *r == self.cur_state(),
    {
        &self.state
    }

    pub fn get_verify_challenge(&self) -> (r: &Vec<u8>)
        ensures
            r@ == self.challenge(),
    {
        &self.verify_challenge
    }

    pub fn set_username(&mut self, username: &str)
        requires
            old(self).wf(),
        ensures
            final(self).wf(),
            final(self).username_view() == username@,
            final(self).cur_state() == old(self).cur_state(),
            final(self).challenge() == old(self).challenge(),
            final(self).buf_data() == old(self).buf_data(),
            final(self).encrypted() == old(self).encrypted(),
    {
        self.username = username.to_owned();
    }

    pub fn get_username(&self) -> (r: &String)
        ensures
            r@ == self.username_view(),
    {
        &self.username
    }

    /// Install the symmetric cipher pair derived from the shared
    /// secret: the same bytes key and initialize both directions.
    /// Installation is permanent — no path removes an installed pair.
    pub fn set_encryption_key(&mut self, key: &Vec<u8>) -> (r: Result<(), EngineError>)
        requires
            old(self).wf(),
        ensures
            final(self).wf(),
            final(self).cur_state() == old(self).cur_state(),
            final(self).challenge() == old(self).challenge(),
            final(self).username_view() == old(self).username_view(),
            final(self).buf_data() == old(self).buf_data(),
            r is Ok ==> final(self).encrypted(),
            r is Err ==> final(self).encrypted() == old(self).encrypted(),
            old(self).encrypted() ==> final(self).encrypted(),
            r matches Err(e) ==> e == EngineError::CipherFailed,
    {
        let dec = match cipher_new(key, false) {
            Some(c) => c,
            None => {
                return Err(EngineError::CipherFailed);
            },
        };
        let enc = match cipher_new(key, true) {
            Some(c) => c,
            None => {
                return Err(EngineError::CipherFailed);
            },
        };
        self.in_cipher = Some(dec);
        self.out_cipher = Some(enc);
        Ok(())
    }
}

} // verus!
