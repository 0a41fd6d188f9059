//! Status-state packets to the client: the status response document
//! and the pong echo.
//!
//! The status response's body is the serialized form of the status
//! payload model; producing that text from a `StatusResponsePayload`
//! (and reading it back) is the business of the external document
//! serializer at the crate boundary.

use crate::buffer::Buffer;
use crate::chat::Chat;
use crate::clientbound::{CbView, ClientboundPacket};
use crate::error::CodecError;
use crate::mojang::Profile;
use crate::wire::{be64, sp_i64, sp_string, spec_str_bytes, str_fits, u64_of_i64};
use vstd::prelude::*;

verus! {

/// The protocol name and number advertised in a status response.
pub struct StatusResponsePayloadVersion {
    pub name: String,
    pub protocol: i32,
}

/// The player counts and sample advertised in a status response.
pub struct StatusResponsePayloadPlayers {
    pub max: u32,
    pub online: u32,
    pub sample: Vec<Profile>,
}

/// The data model of the status response document.
pub struct StatusResponsePayload {
    pub version: StatusResponsePayloadVersion,
    pub players: StatusResponsePayloadPlayers,
    pub description: Chat,
    pub favicon: String,
}

/// The status response frame: one string holding the serialized
/// payload document.
#[derive(Debug)]
pub struct StatusResponsePacket {
    pub payload: String,
}

pub struct StatusResponseView {
    pub payload: Seq<char>,
}

impl View for StatusResponsePacket {
    type V = StatusResponseView;

    open spec fn view(&self) -> StatusResponseView {
        StatusResponseView { payload: self.payload@ }
    }
}

impl StatusResponsePacket {
    /// Wrap the serialized payload document text.
    pub fn new(payload: String) -> (r: ClientboundPacket)
        ensures
            r matches ClientboundPacket::StatusResponse(p) && p.payload@ == payload@,
    {
        ClientboundPacket::StatusResponse(StatusResponsePacket { payload })
    }

    pub open spec fn sp_body(s: Seq<u8>) -> Result<(CbView, nat), CodecError> {
        match sp_string(s) {
            Err(e) => Err(e),
            Ok((payload, a)) => Ok((CbView::StatusResponse(StatusResponseView { payload }), a)),
        }
    }

    pub open spec fn spec_payload(&self) -> Seq<u8> {
        spec_str_bytes(self.payload@)
    }

    pub open spec fn payload_fits(&self) -> bool {
        str_fits(self.payload@)
    }

    pub fn deserialize(buffer: &mut Buffer) -> (r: Result<ClientboundPacket, CodecError>)
        requires
            old(buffer).wf(),
        ensures
            final(buffer).wf(),
            final(buffer).data() == old(buffer).data(),
            match r {
                Ok(p) => Self::sp_body(old(buffer).remaining()) matches Ok(pr) && pr.0 == p@
                    && final(buffer).pos() == old(buffer).pos() + pr.1,
                Err(e) => Self::sp_body(old(buffer).remaining()) == Err::<
                    (CbView, nat),
                    CodecError,
                >(e),
            },
    {
        let payload = match buffer.read_string() {
            Ok(v) => v,
            Err(e) => {
                return Err(e);
            },
        };
        Ok(ClientboundPacket::StatusResponse(StatusResponsePacket { payload }))
    }

    pub fn serialize(&self, buffer: &mut Buffer) -> (r: Result<(), CodecError>)
        requires
            old(buffer).wf(),
        ensures
            final(buffer).wf(),
            final(buffer).pos() == old(buffer).pos(),
            r is Ok <==> self.payload_fits(),
            r is Ok ==> final(buffer).data() == old(buffer).data() + self.spec_payload(),
            r is Err ==> final(buffer).data() == old(buffer).data(),
    {
        match buffer.write_string(self.payload.as_str()) {
            Ok(_) => Ok(()),
            Err(e) => Err(e),
        }
    }
}

#[derive(Debug)]
pub struct PongPacket {
    pub payload: i64,
}

pub struct PongView {
    pub payload: i64,
}

impl View for PongPacket {
    type V = PongView;

    open spec fn view(&self) -> PongView {
        PongView { payload: self.payload }
    }
}

impl PongPacket {
    /// Echo of a ping's payload.
    pub fn new(payload: i64) -> (r: ClientboundPacket)
        ensures
            r matches ClientboundPacket::Pong(p) && p.payload == payload,
    {
        ClientboundPacket::Pong(PongPacket { payload })
    }

    pub open spec fn sp_body(s: Seq<u8>) -> Result<(CbView, nat), CodecError> {
        match sp_i64(s) {
            Err(e) => Err(e),
            Ok((payload, a)) => Ok((CbView::Pong(PongView { payload }), a)),
        }
    }

    pub open spec fn spec_payload(&self) -> Seq<u8> {
        be64(u64_of_i64(self.payload))
    }

    pub open spec fn payload_fits(&self) -> bool {
        true
    }

    pub fn deserialize(buffer: &mut Buffer) -> (r: Result<ClientboundPacket, CodecError>)
        requires
            old(buffer).wf(),
        ensures
            final(buffer).wf(),
            final(buffer).data() == old(buffer).data(),
            match r {
                Ok(p) => Self::sp_body(old(buffer).remaining()) matches Ok(pr) && pr.0 == p@
                    && final(buffer).pos() == old(buffer).pos() + pr.1,
                Err(e) => Self::sp_body(old(buffer).remaining()) == Err::<
                    (CbView, nat),
                    CodecError,
                >(e),
            },
    {
        broadcast use crate::wire::lemma_i64_u64_inverse;

        let payload = match buffer.read_long() {
            Ok(v) => v,
            Err(e) => {
                return Err(e);
            },
        };
        Ok(ClientboundPacket::Pong(PongPacket { payload }))
    }

    pub fn serialize(&self, buffer: &mut Buffer) -> (r: Result<(), CodecError>)
        requires
            old(buffer).wf(),
        ensures
            final(buffer).wf(),
            final(buffer).pos() == old(buffer).pos(),
            r is Ok <==> self.payload_fits(),
            r is Ok ==> final(buffer).data() == old(buffer).data() + self.spec_payload(),
            r is Err ==> final(buffer).data() == old(buffer).data(),
    {
        buffer.write_long(self.payload);
        Ok(())
    }
}

} // verus!
