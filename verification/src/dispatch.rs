//! Decisions of the connection dispatch loop and of a per-connection job.
//!
//! The loop that owns the listening socket performs the I/O — accepting
//! connections, reading frames — and hands the outcomes to these functions,
//! which decide what happens next: whether a job is submitted and under
//! which client id, and whether a decoded frame keeps its connection alive.

use crate::id::{new_id, ClientIdCounter};
use crate::message::{decode, DeserializeError, Message, MessagePacket};
use crate::pool::WorkerPool;
use vstd::prelude::*;

verus! {

/// What one received frame means for its connection.
#[derive(Debug, Clone, Copy, PartialEq, Eq, Structural)]
pub enum FrameOutcome {
    /// A well-formed frame: hand the packet to the message handler and keep
    /// reading.
    Dispatch { packet: MessagePacket },
    /// A well-formed `Disconnect`: the connection's job ends normally.
    Hangup,
    /// A malformed frame: the connection's job ends with this error. No
    /// other connection or worker is affected.
    Malformed { error: DeserializeError },
}

/// The outcome a frame's bytes decide: errors close the connection, a
/// `Disconnect` ends it normally, and everything else is dispatched.
pub open spec fn frame_outcome_spec(s: Seq<u8>) -> FrameOutcome {
    match decode(s) {
        Ok(p) => if p.payload is Disconnect {
            FrameOutcome::Hangup
        } else {
            FrameOutcome::Dispatch { packet: p }
        },
        Err(e) => FrameOutcome::Malformed { error: e },
    }
}

/// Decide what one received frame means for its connection.
pub fn handle_frame(data: &[u8]) -> (r: FrameOutcome)
    ensures
        r == frame_outcome_spec(data@),
{
    match MessagePacket::deserialize(data) {
        Ok(packet) => {
            let hangup = match packet.payload {
                Message::Disconnect => true,
                _ => false,
            };
            if hangup {
                FrameOutcome::Hangup
            } else {
                FrameOutcome::Dispatch { packet }
            }
        },
        Err(error) => FrameOutcome::Malformed { error },
    }
}

/// One turn of the dispatch loop, after one accept attempt. A successful
/// accept is assigned the next client id — ids are never reused — and a
/// handling job is submitted for it; the pair of ids is returned. A failed
/// accept changes nothing: it is never fatal to the server.
pub fn on_accept(pool: &mut WorkerPool, ids: &mut ClientIdCounter, accepted: bool) -> (r: Option<
    (usize, usize),
>)
    requires
        old(pool).wf(),
        !old(pool).is_shutdown(),
        old(pool).submitted_spec() < usize::MAX,
        old(ids).next < usize::MAX,
    ensures
        final(pool).wf(),
        !accepted ==> {
            &&& r is None
            &&& *final(pool) == *old(pool)
            &&& *final(ids) == *old(ids)
        },
        accepted ==> {
            &&& r == Some((old(ids).next, (old(pool).submitted_spec()) as usize))
            &&& final(ids).next == old(ids).next + 1
            &&& final(pool).submitted_spec() == old(pool).submitted_spec() + 1
            &&& final(pool).pending((old(pool).submitted_spec()) as usize)
            &&& final(pool).worker_states() == old(pool).worker_states()
            &&& final(pool).next_claim_spec() == old(pool).next_claim_spec()
            &&& final(pool).completed_spec() == old(pool).completed_spec()
        },
        final(pool).is_shutdown() == old(pool).is_shutdown(),
{
    if !accepted {
        return None;
    }
    let client_id = new_id(ids);
    let job_id = match pool.execute() {
        Ok(j) => j,
        Err(_) => unreached(),
    };
    Some((client_id, job_id))
}

} // verus!
