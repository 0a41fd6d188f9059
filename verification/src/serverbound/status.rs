//! Status-state packets from the client: the empty status request and
//! the ping with its echo payload.

use crate::buffer::Buffer;
use crate::error::CodecError;
use crate::serverbound::{SbView, ServerboundPacket};
use crate::wire::{be64, sp_i64, u64_of_i64};
use vstd::prelude::*;

verus! {

#[derive(Debug)]
pub struct StatusRequestPacket {}

pub struct StatusRequestView {}

impl View for StatusRequestPacket {
    type V = StatusRequestView;

    open spec fn view(&self) -> StatusRequestView {
        StatusRequestView {  }
    }
}

impl StatusRequestPacket {
    /// An empty payload.
    pub open spec fn sp_body(s: Seq<u8>) -> Result<(SbView, nat), CodecError> {
        Ok((SbView::StatusRequest(StatusRequestView {  }), 0))
    }

    pub open spec fn spec_payload(&self) -> Seq<u8> {
        Seq::empty()
    }

    pub open spec fn payload_fits(&self) -> bool {
        true
    }

    pub fn deserialize(buffer: &mut Buffer) -> (r: Result<ServerboundPacket, CodecError>)
        requires
            old(buffer).wf(),
        ensures
            final(buffer).wf(),
            final(buffer).data() == old(buffer).data(),
            match r {
                Ok(p) => Self::sp_body(old(buffer).remaining()) matches Ok(pr) && pr.0 == p@
                    && final(buffer).pos() == old(buffer).pos() + pr.1,
                Err(e) => Self::sp_body(old(buffer).remaining()) == Err::<
                    (SbView, nat),
                    CodecError,
                >(e),
            },
    {
        Ok(ServerboundPacket::StatusRequest(StatusRequestPacket {  }))
    }

    pub fn serialize(&self, buffer: &mut Buffer) -> (r: Result<(), CodecError>)
        requires
            old(buffer).wf(),
        ensures
            final(buffer).wf(),
            final(buffer).pos() == old(buffer).pos(),
            r is Ok <==> self.payload_fits(),
            r is Ok ==> final(buffer).data() == old(buffer).data() + self.spec_payload(),
            r is Err ==> final(buffer).data() == old(buffer).data(),
    {
        assert(buffer.data() =~= old(buffer).data() + self.spec_payload());
        Ok(())
    }
}

#[derive(Debug)]
pub struct PingPacket {
    pub payload: i64,
}

pub struct PingView {
    pub payload: i64,
}

impl View for PingPacket {
    type V = PingView;

    open spec fn view(&self) -> PingView {
        PingView { payload: self.payload }
    }
}

impl PingPacket {
    /// One big-endian long: the payload the client expects echoed.
    pub open spec fn sp_body(s: Seq<u8>) -> Result<(SbView, nat), CodecError> {
        match sp_i64(s) {
            Err(e) => Err(e),
            Ok((payload, a)) => Ok((SbView::Ping(PingView { payload }), a)),
        }
    }

    pub open spec fn spec_payload(&self) -> Seq<u8> {
        be64(u64_of_i64(self.payload))
    }

    pub open spec fn payload_fits(&self) -> bool {
        true
    }

    pub fn deserialize(buffer: &mut Buffer) -> (r: Result<ServerboundPacket, CodecError>)
        requires
            old(buffer).wf(),
        ensures
            final(buffer).wf(),
            final(buffer).data() == old(buffer).data(),
            match r {
                Ok(p) => Self::sp_body(old(buffer).remaining()) matches Ok(pr) && pr.0 == p@
                    && final(buffer).pos() == old(buffer).pos() + pr.1,
                Err(e) => Self::sp_body(old(buffer).remaining()) == Err::<
                    (SbView, nat),
                    CodecError,
                >(e),
            },
    {
        broadcast use crate::wire::lemma_i64_u64_inverse;

        let payload = match buffer.read_long() {
            Ok(v) => v,
            Err(e) => {
                return Err(e);
            },
        };
        Ok(ServerboundPacket::Ping(PingPacket { payload }))
    }

    pub fn serialize(&self, buffer: &mut Buffer) -> (r: Result<(), CodecError>)
        requires
            old(buffer).wf(),
        ensures
            final(buffer).wf(),
            final(buffer).pos() == old(buffer).pos(),
            r is Ok <==> self.payload_fits(),
            r is Ok ==> final(buffer).data() == old(buffer).data() + self.spec_payload(),
            r is Err ==> final(buffer).data() == old(buffer).data(),
    {
        buffer.write_long(self.payload);
        Ok(())
    }
}

} // verus!
