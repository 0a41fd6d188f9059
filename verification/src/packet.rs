//! The protocol state machine's states and the contract every packet
//! union satisfies: state-scoped frame decoding and field serialization.

use crate::buffer::Buffer;
use crate::error::CodecError;
use vstd::prelude::*;

verus! {

/// The four protocol states. A connection is in exactly one at a time;
/// the per-state id tables decide which packets are legal.
#[derive(Clone, Copy, Debug, PartialEq, Eq, Structural)]
pub enum State {
    Handshake,
    Play,
    Status,
    Login,
}

/// A direction's packet union: a frame decoder scoped by protocol
/// state, and a field serializer.
///
/// `spec_parse` is the mathematical frame parser: given the buffered
/// bytes and the current state it yields the decoded packet view and
/// the consumed byte count, or the error — `Incomplete` when fewer
/// bytes than the declared frame length are buffered (backpressure),
/// `UnknownPacket` when the id is not in the state's table, and a
/// fatal codec error otherwise.
pub trait Packet: View + Sized {
    spec fn spec_parse(s: Seq<u8>, state: State) -> Result<(Self::V, nat), CodecError>;

    /// The wire bytes of this packet's fields (the payload after the
    /// packet id).
    spec fn spec_payload(&self) -> Seq<u8>;

    /// Whether every variable-length field fits its length prefix.
    spec fn payload_fits(&self) -> bool;

    spec fn spec_id(&self) -> int;

    spec fn spec_state(&self) -> State;

    /// Decode one frame from the cursor position. On success the cursor
    /// has advanced past exactly the frame; on any failure the buffer is
    /// unchanged, so an `Incomplete` outcome can be retried once more
    /// bytes have been appended.
    fn deserialize(buffer: &mut Buffer, state: &State) -> (r: Result<Self, CodecError>)
        requires
            old(buffer).wf(),
        ensures
            final(buffer).wf(),
            final(buffer).data() == old(buffer).data(),
            match r {
                Ok(p) => Self::spec_parse(old(buffer).remaining(), *state) matches Ok(pr) && pr.0
                    == p@ && final(buffer).pos() == old(buffer).pos() + pr.1,
                Err(e) => Self::spec_parse(old(buffer).remaining(), *state) == Err::<
                    (Self::V, nat),
                    CodecError,
                >(e) && final(buffer).pos() == old(buffer).pos(),
            },
    ;

    /// Append the packet's fields to the buffer.
    fn serialize(&self, buffer: &mut Buffer) -> (r: Result<(), CodecError>)
        requires
            old(buffer).wf(),
        ensures
            final(buffer).wf(),
            final(buffer).pos() == old(buffer).pos(),
            r is Ok <==> self.payload_fits(),
            r is Ok ==> final(buffer).data() == old(buffer).data() + self.spec_payload(),
            r is Err ==> final(buffer).data() == old(buffer).data(),
    ;

    fn get_id(&self) -> (r: i32)
        ensures
            r as int == self.spec_id(),
    ;

    fn get_state(&self) -> (r: State)
        ensures
            r == self.spec_state(),
    ;
}

} // verus!
