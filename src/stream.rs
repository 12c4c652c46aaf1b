use vstd::prelude::*;
use crate::error::Error;
use crate::model::SonicMessage;

verus! {

/// Where a streaming exchange stands: the query is sent and its
/// acknowledgement awaited, then data flows until the terminal message.
#[derive(Debug, Clone, Copy, PartialEq, Eq)]
pub enum StreamState {
    AwaitingAck,
    Streaming,
    Finished,
}

/// What the caller does with a message the exchange accepted.
#[derive(Debug, PartialEq, Eq)]
pub enum StreamAction {
    /// The acknowledgement came; nothing to hand on.
    Acknowledged,
    /// A data message, handed on unchanged.
    Data(SonicMessage),
    /// The terminal message, handed on unchanged; the exchange is over.
    Done(SonicMessage),
}

/// The state after a message tagged `tag` in state `s`, and whether the
/// message was expected there.
pub open spec fn next_state(s: StreamState, tag: Seq<char>) -> (StreamState, bool) {
    match s {
        StreamState::AwaitingAck => if tag == "A"@ {
            (StreamState::Streaming, true)
        } else {
            (StreamState::Finished, false)
        },
        StreamState::Streaming => if tag == "D"@ {
            (StreamState::Finished, true)
        } else if tag == "A"@ {
            (StreamState::Finished, false)
        } else {
            (StreamState::Streaming, true)
        },
        StreamState::Finished => (StreamState::Finished, false),
    }
}

/// Takes in one message of a streaming exchange: first the acknowledgement,
/// then data messages of any other tag, then the terminal `D` message. A
/// message out of that order ends the exchange with a stream error.
pub fn on_message(state: StreamState, msg: SonicMessage) -> (r: (StreamState, Result<StreamAction, Error>))
    ensures
        r.0 == next_state(state, msg.e@).0,
        r.1 is Ok <==> next_state(state, msg.e@).1,
        r.1 matches Err(e) ==> e is StreamError,
        r.1 matches Ok(a) ==> match state {
            StreamState::AwaitingAck => a is Acknowledged,
            _ => if msg.e@ == "D"@ {
                a == StreamAction::Done(msg)
            } else {
                a == StreamAction::Data(msg)
            },
        },
{
    let is_ack = msg.e == "A".to_owned();
    let is_done = msg.e == "D".to_owned();
    match state {
        StreamState::AwaitingAck => if is_ack {
            (StreamState::Streaming, Ok(StreamAction::Acknowledged))
        } else {
            (StreamState::Finished, Err(Error::StreamError("expected an acknowledgement".to_owned())))
        },
        StreamState::Streaming => if is_done {
            (StreamState::Finished, Ok(StreamAction::Done(msg)))
        } else if is_ack {
            (StreamState::Finished, Err(Error::StreamError("unexpected second acknowledgement".to_owned())))
        } else {
            (StreamState::Streaming, Ok(StreamAction::Data(msg)))
        },
        StreamState::Finished => (StreamState::Finished, Err(Error::StreamError("message after the end of the stream".to_owned()))),
    }
}

/// Whether the exchange is over.
pub fn is_terminated(state: StreamState) -> (r: bool)
    ensures
        r == (state == StreamState::Finished),
{
    match state {
        StreamState::Finished => true,
        _ => false,
    }
}

} // verus!
