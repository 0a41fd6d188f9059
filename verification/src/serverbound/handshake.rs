//! The handshake packet: the first frame of every connection, choosing
//! the next protocol state.

use crate::buffer::Buffer;
use crate::error::CodecError;
use crate::serverbound::{SbView, ServerboundPacket};
use crate::wire::{
    be16, lemma_i32_u32_inverse, sp_string, sp_u16, sp_varint, spec_str_bytes, str_fits,
    u32_of_i32, var_bytes,
};
use vstd::prelude::*;

verus! {

#[derive(Debug)]
pub struct HandshakePacket {
    pub protocol: i32,
    pub address: String,
    pub port: u16,
    pub next: i32,
}

/// The mathematical content of a handshake packet.
pub struct HandshakeView {
    pub protocol: i32,
    pub address: Seq<char>,
    pub port: u16,
    pub next: i32,
}

impl View for HandshakePacket {
    type V = HandshakeView;

    open spec fn view(&self) -> HandshakeView {
        HandshakeView {
            protocol: self.protocol,
            address: self.address@,
            port: self.port,
            next: self.next,
        }
    }
}

impl HandshakePacket {
    /// Field layout: VarInt protocol, string address, unsigned short
    /// port, VarInt next state.
    pub open spec fn sp_body(s: Seq<u8>) -> Result<(SbView, nat), CodecError> {
        match sp_varint(s) {
            Err(e) => Err(e),
            Ok((protocol, a)) => match sp_string(s.skip(a as int)) {
                Err(e) => Err(e),
                Ok((address, b)) => match sp_u16(s.skip((a + b) as int)) {
                    Err(e) => Err(e),
                    Ok((port, c)) => match sp_varint(s.skip((a + b + c) as int)) {
                        Err(e) => Err(e),
                        Ok((next, d)) => Ok(
                            (
                                SbView::Handshake(
                                    HandshakeView { protocol, address, port, next },
                                ),
                                (a + b + c + d) as nat,
                            ),
                        ),
                    },
                },
            },
        }
    }

    pub open spec fn spec_payload(&self) -> Seq<u8> {
        var_bytes(u32_of_i32(self.protocol) as nat) + spec_str_bytes(self.address@) + be16(
            self.port,
        ) + var_bytes(u32_of_i32(self.next) as nat)
    }

    pub open spec fn payload_fits(&self) -> bool {
        str_fits(self.address@)
    }

    pub fn deserialize(buffer: &mut Buffer) -> (r: Result<ServerboundPacket, CodecError>)
        requires
            old(buffer).wf(),
        ensures
            final(buffer).wf(),
            final(buffer).data() == old(buffer).data(),
            match r {
                Ok(p) => Self::sp_body(old(buffer).remaining()) matches Ok(pr) && pr.0 == p@
                    && final(buffer).pos() == old(buffer).pos() + pr.1,
                Err(e) => Self::sp_body(old(buffer).remaining()) == Err::<
                    (SbView, nat),
                    CodecError,
                >(e),
            },
    {
        broadcast use lemma_i32_u32_inverse;

        let ghost s = old(buffer).remaining();
        let protocol = match buffer.read_varint() {
            Ok(v) => v,
            Err(e) => {
                return Err(e);
            },
        };
        let ghost a = buffer.pos() - old(buffer).pos();
        proof {
            assert(sp_varint(s) == Ok::<_, CodecError>((protocol, a as nat)));
            assert(buffer.remaining() =~= s.skip(a));
        }
        let address = match buffer.read_string() {
            Ok(v) => v,
            Err(e) => {
                return Err(e);
            },
        };
        let ghost b = buffer.pos() - old(buffer).pos() - a;
        proof {
            assert(sp_string(s.skip(a)) matches Ok(p) && p.0 == address@ && p.1 == b as nat);
            assert(buffer.remaining() =~= s.skip(a + b));
        }
        let port = match buffer.read_ushort() {
            Ok(v) => v,
            Err(e) => {
                assert(s.skip(a + b).len() < 2);
                return Err(e);
            },
        };
        let ghost c: int = 2;
        proof {
            assert(sp_u16(s.skip((a + b) as int)) == Ok::<_, CodecError>((port, 2nat)));
            assert(buffer.remaining() =~= s.skip(a + b + c));
        }
        let next = match buffer.read_varint() {
            Ok(v) => v,
            Err(e) => {
                return Err(e);
            },
        };
        let ghost d = buffer.pos() - old(buffer).pos() - a - b - c;
        proof {
            assert(sp_varint(s.skip((a + b + c) as int)) == Ok::<_, CodecError>((next, d as nat)));
        }
        Ok(
            ServerboundPacket::Handshake(
                HandshakePacket { protocol, address, port, next },
            ),
        )
    }

    pub fn serialize(&self, buffer: &mut Buffer) -> (r: Result<(), CodecError>)
        requires
            old(buffer).wf(),
        ensures
            final(buffer).wf(),
            final(buffer).pos() == old(buffer).pos(),
            r is Ok <==> self.payload_fits(),
            r is Ok ==> final(buffer).data() == old(buffer).data() + self.spec_payload(),
            r is Err ==> final(buffer).data() == old(buffer).data(),
    {
        if self.address.as_str().as_bytes().len() > 0x7fff_ffff {
            return Err(CodecError::OutOfRange);
        }
        buffer.write_varint(self.protocol);
        let w = buffer.write_string(self.address.as_str());
        proof {
            assert(w is Ok);
        }
        buffer.write_ushort(self.port);
        buffer.write_varint(self.next);
        assert(buffer.data() =~= old(buffer).data() + self.spec_payload());
        Ok(())
    }
}

} // verus!
