//! What the state network does with the events that reach it.

use vstd::prelude::*;
use vstd::slice::slice_to_vec;
use vstd::utf8::{decode_utf8, encode_utf8, encode_utf8_decode_utf8};

verus! {

/// An event that reaches the state network.
#[derive(Debug, PartialEq, Eq)]
pub enum StateEvent<T, U> {
    /// A peer sent a request.
    TalkRequest(T),
    /// Something happened on a uTP stream.
    UtpEvent(U),
}

/// What is to be done about an event.
#[derive(Debug, PartialEq, Eq)]
pub enum StateAction<T, U> {
    /// Process the request and answer it, without keeping other events waiting.
    HandleTalkRequest(T),
    /// Hand the event to the overlay. A failure is no reason to stop.
    ProcessUtpEvent(U),
}

/// Decides what to do about an event.
pub fn state_action<T, U>(event: StateEvent<T, U>) -> (action: StateAction<T, U>)
    ensures
        action == match event {
            StateEvent::TalkRequest(request) => StateAction::<T, U>::HandleTalkRequest(request),
            StateEvent::UtpEvent(event) => StateAction::<T, U>::ProcessUtpEvent(event),
        },
{
    match event {
        StateEvent::TalkRequest(request) => StateAction::HandleTalkRequest(request),
        StateEvent::UtpEvent(event) => StateAction::ProcessUtpEvent(event),
    }
}

/// The reply to a request, for what came of processing it: the encoded response, or the text of the
/// error.
pub open spec fn talk_reply(outcome: Result<Vec<u8>, String>) -> Seq<u8> {
    match outcome {
        Ok(response) => response@,
        Err(error) => encode_utf8(error@),
    }
}

/// Makes the reply to a request. Every request gets one, whether or not it could be processed.
pub fn handle_state_talk_request(outcome: Result<Vec<u8>, String>) -> (reply: Vec<u8>)
    ensures
        reply@ == talk_reply(outcome),
        outcome matches Ok(response) ==> reply@ == response@,
        outcome matches Err(error) ==> reply@ == encode_utf8(error@),
{
    match outcome {
        Ok(response) => response,
        Err(error) => slice_to_vec(error.as_str().as_bytes()),
    }
}

/// A peer whose request was processed gets the encoded response, every byte of it and no other.
pub proof fn law_processed_request_is_answered_with_its_response(response: Vec<u8>)
    ensures
        talk_reply(Ok(response)).len() == response@.len(),
        forall|i: int| 0 <= i < response@.len() ==> talk_reply(Ok(response))[i] == response@[i],
{
}

/// A peer whose request could not be processed can read the error in the reply.
pub proof fn law_refused_request_is_answered_with_its_error(error: String)
    ensures
        decode_utf8(talk_reply(Err(error))) == error@,
{
    encode_utf8_decode_utf8(error@);
}

} // verus!
